//! Client-side core of a datagram messaging protocol: frame codec, listener
//! dispatch and the acknowledgment state machine, free of any socket.

pub mod ack;
pub mod adapter;
pub mod client;
pub mod error;
pub mod frame;
pub mod identity;
pub mod registry;

pub use ack::{AckTable, Correlation, PendingAck, RetryPolicy, TimerEvent, ACK_TYPE};
pub use adapter::{MessageListener, MessageType, Serializable, StaticToken, Token};
pub use client::{Client, ClientState, Outbound, Received};
pub use error::{
    AuthError, BindError, FormatError, IoError, ListenerError, ReceiveError, SendError,
};
pub use frame::{decode, encode, Frame, Message, TypeCode, HEADER_LEN, PACKAGE_SIZE, TOKEN_LEN};
pub use registry::{Invocation, Registration, Registry};
