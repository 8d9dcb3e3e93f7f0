[package]
name = "datagram_client"
version = "0.1.0"
edition = "2021"

[dependencies]
uuid = "1"
