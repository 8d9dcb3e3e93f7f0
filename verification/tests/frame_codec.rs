use datagram_client::{decode, encode, FormatError, MessageType, TypeCode};
use uuid::Uuid;

fn sample_identity() -> Uuid {
    Uuid::from_bytes([
        0xa1, 0xa2, 0xa3, 0xa4, 0xb1, 0xb2, 0xc1, 0xc2, 0xd1, 0xd2, 0xd3, 0xd4, 0xd5, 0xd6, 0xd7,
        0xd8,
    ])
}

fn sample_token() -> [u8; 500] {
    let mut token = [0u8; 500];
    for (i, byte) in token.iter_mut().enumerate() {
        *byte = (i % 251) as u8;
    }
    token
}

#[test]
fn encode_lays_fields_out_in_wire_order() {
    let token = sample_token();
    let sender = sample_identity();
    let bytes = encode(&token, &sender, true, 0x07, b"hello").unwrap();
    assert_eq!(bytes.len(), 523);
    assert_eq!(&bytes[..500], &token[..]);
    assert_eq!(&bytes[500..516], &sender.as_bytes()[..]);
    assert_eq!(bytes[516], 1);
    assert_eq!(bytes[517], 0x07);
    assert_eq!(&bytes[518..], b"hello");
}

#[test]
fn encode_writes_zero_for_no_ack() {
    let bytes = encode(&sample_token(), &sample_identity(), false, 0x01, b"").unwrap();
    assert_eq!(bytes.len(), 518);
    assert_eq!(bytes[516], 0);
    assert_eq!(bytes[517], 0x01);
}

#[test]
fn encode_accepts_the_largest_payload() {
    let payload = vec![0x5au8; 506];
    let bytes = encode(&sample_token(), &sample_identity(), false, 0x01, &payload).unwrap();
    assert_eq!(bytes.len(), 1024);
    assert_eq!(&bytes[518..], &payload[..]);
}

#[test]
fn encode_rejects_one_byte_too_many() {
    let payload = vec![0u8; 507];
    let result = encode(&sample_token(), &sample_identity(), false, 0x01, &payload);
    assert_eq!(result, Err(FormatError::PayloadTooLarge { size: 1025, limit: 1024 }));
}

#[test]
fn encode_reports_the_attempted_size() {
    let payload = vec![0u8; 4000];
    let result = encode(&sample_token(), &sample_identity(), true, 0x09, &payload);
    assert_eq!(result, Err(FormatError::PayloadTooLarge { size: 4518, limit: 1024 }));
}

#[test]
fn decode_gives_back_what_encode_wrote() {
    let token = sample_token();
    let sender = sample_identity();
    let bytes = encode(&token, &sender, true, 0x2a, b"round trip").unwrap();
    let frame = decode(&bytes).unwrap();
    assert_eq!(frame.token, &token[..]);
    assert_eq!(frame.message.user_id, sender);
    assert_eq!(frame.ack_requested, true);
    assert_eq!(frame.message.msg_type, TypeCode::new(0x2a));
    assert_eq!(frame.message.data, b"round trip");
}

#[test]
fn round_trip_holds_for_every_payload_length() {
    let token = sample_token();
    let sender = sample_identity();
    for len in 0..=506usize {
        let payload: Vec<u8> = (0..len).map(|i| (i * 7 % 256) as u8).collect();
        let ack = len % 2 == 0;
        let code = (len % 256) as u8;
        let bytes = encode(&token, &sender, ack, code, &payload).unwrap();
        assert_eq!(bytes.len(), 518 + len);
        let frame = decode(&bytes).unwrap();
        assert_eq!(frame.token, &token[..]);
        assert_eq!(frame.message.user_id, sender);
        assert_eq!(frame.ack_requested, ack);
        assert_eq!(frame.message.msg_type.code(), &[code]);
        assert_eq!(frame.message.data, &payload[..]);
    }
}

#[test]
fn decode_rejects_a_short_datagram() {
    let datagram = vec![0u8; 517];
    assert_eq!(decode(&datagram).err(), Some(FormatError::Truncated));
    assert_eq!(decode(&[]).err(), Some(FormatError::Truncated));
}

#[test]
fn decode_accepts_a_bare_header() {
    let mut datagram = vec![0u8; 518];
    datagram[516] = 1;
    datagram[517] = 0x33;
    let frame = decode(&datagram).unwrap();
    assert_eq!(frame.message.data.len(), 0);
    assert_eq!(frame.ack_requested, true);
    assert_eq!(frame.message.msg_type, TypeCode::new(0x33));
    assert_eq!(frame.message.user_id, Uuid::nil());
}

#[test]
fn decode_rejects_a_datagram_over_the_ceiling() {
    let datagram = vec![0u8; 1025];
    assert_eq!(
        decode(&datagram).err(),
        Some(FormatError::PayloadTooLarge { size: 1025, limit: 1024 })
    );
    assert!(decode(&vec![0u8; 1024]).is_ok());
}

#[test]
fn decode_reads_any_nonzero_flag_as_ack_requested() {
    let mut datagram = vec![0u8; 520];
    datagram[516] = 0;
    assert_eq!(decode(&datagram).unwrap().ack_requested, false);
    datagram[516] = 1;
    assert_eq!(decode(&datagram).unwrap().ack_requested, true);
    datagram[516] = 0xff;
    assert_eq!(decode(&datagram).unwrap().ack_requested, true);
}

#[test]
fn decode_reads_the_sender_from_its_offset() {
    let mut datagram = vec![0u8; 518];
    for i in 0..16 {
        datagram[500 + i] = (i + 1) as u8;
    }
    let frame = decode(&datagram).unwrap();
    assert_eq!(
        frame.message.user_id,
        Uuid::from_bytes([1, 2, 3, 4, 5, 6, 7, 8, 9, 10, 11, 12, 13, 14, 15, 16])
    );
}

#[test]
fn type_code_gives_its_code() {
    assert_eq!(TypeCode::new(0x7f).code(), &[0x7f]);
    assert_eq!(TypeCode::new(0).code(), &[0]);
}
