//! The wire layout of one datagram:
//! `[token: 500][sender identity: 16][ack requested: 1][type: 1][payload: rest]`.

use crate::adapter::MessageType;
use crate::error::FormatError;
use crate::identity::{identity_as_bytes, identity_bytes, identity_from_bytes, IDENTITY_LEN};
use uuid::Uuid;
use vstd::prelude::*;
use vstd::slice::slice_subrange;

verus! {

/// Width of the credential at the head of every frame.
pub const TOKEN_LEN: usize = 500;

/// Width of everything that precedes the payload.
pub const HEADER_LEN: usize = 518;

/// Ceiling on the length of one datagram.
pub const PACKAGE_SIZE: usize = 1024;

/// Ceiling on the length of a payload.
pub const MAX_PAYLOAD_LEN: usize = 506;

/// Offset of the sender identity.
pub const SENDER_OFFSET: usize = 500;

/// Offset of the acknowledgment flag.
pub const ACK_OFFSET: usize = 516;

/// Offset of the message type.
pub const TYPE_OFFSET: usize = 517;

/// A frame as mathematics sees it.
pub struct FrameView {
    pub token: Seq<u8>,
    pub sender: Seq<u8>,
    pub ack_requested: bool,
    pub type_code: u8,
    pub payload: Seq<u8>,
}

impl FrameView {
    /// The fixed-width fields have their widths.
    pub open spec fn well_formed(self) -> bool {
        &&& self.token.len() == TOKEN_LEN
        &&& self.sender.len() == IDENTITY_LEN
    }

    /// Length of the frame on the wire.
    pub open spec fn encoded_len(self) -> int {
        HEADER_LEN + self.payload.len()
    }

    /// The frame fits one datagram.
    pub open spec fn fits(self) -> bool {
        self.encoded_len() <= PACKAGE_SIZE
    }

    /// The fields, one after the other, in wire order.
    pub open spec fn to_bytes(self) -> Seq<u8> {
        self.token + self.sender + seq![ack_byte(self.ack_requested), self.type_code]
            + self.payload
    }
}

/// The wire byte of the acknowledgment flag.
pub open spec fn ack_byte(ack_requested: bool) -> u8 {
    if ack_requested {
        1u8
    } else {
        0u8
    }
}

/// A length as an error reports it: itself, or the largest `usize` where it
/// exceeds that.
pub open spec fn reported_size(len: int) -> usize {
    if len <= usize::MAX {
        len as usize
    } else {
        usize::MAX
    }
}

/// What encoding yields: the bytes of the frame if it fits one datagram, the
/// attempted size and the ceiling otherwise.
pub open spec fn encode_spec(frame: FrameView) -> Result<Seq<u8>, FormatError> {
    if frame.fits() {
        Ok(frame.to_bytes())
    } else {
        Err(
            FormatError::PayloadTooLarge {
                size: reported_size(frame.encoded_len()),
                limit: PACKAGE_SIZE,
            },
        )
    }
}

/// What decoding yields: the fields cut out of the datagram at their fixed
/// offsets, the payload being the remainder.
pub open spec fn decode_spec(datagram: Seq<u8>) -> Result<FrameView, FormatError> {
    if datagram.len() < HEADER_LEN {
        Err(FormatError::Truncated)
    } else if datagram.len() > PACKAGE_SIZE {
        Err(
            FormatError::PayloadTooLarge {
                size: reported_size(datagram.len() as int),
                limit: PACKAGE_SIZE,
            },
        )
    } else {
        Ok(
            FrameView {
                token: datagram.subrange(0, SENDER_OFFSET as int),
                sender: datagram.subrange(SENDER_OFFSET as int, ACK_OFFSET as int),
                ack_requested: datagram[ACK_OFFSET as int] != 0,
                type_code: datagram[TYPE_OFFSET as int],
                payload: datagram.subrange(HEADER_LEN as int, datagram.len() as int),
            },
        )
    }
}

/// Writes one frame. Fails, without writing anything, when the frame would
/// exceed the datagram ceiling.
pub fn encode(
    token: &[u8; 500],
    sender: &Uuid,
    ack_requested: bool,
    type_code: u8,
    payload: &[u8],
) -> (result: Result<Vec<u8>, FormatError>)
    ensures
        match encode_spec(
            FrameView {
                token: token@,
                sender: identity_bytes(*sender),
                ack_requested,
                type_code,
                payload: payload@,
            },
        ) {
            Ok(bytes) => result matches Ok(out) && out@ == bytes,
            Err(e) => result == Err::<Vec<u8>, FormatError>(e),
        },
        result matches Ok(out) ==> out@.len() == HEADER_LEN + payload@.len(),
{
    if payload.len() > MAX_PAYLOAD_LEN {
        return Err(
            FormatError::PayloadTooLarge {
                size: HEADER_LEN.saturating_add(payload.len()),
                limit: PACKAGE_SIZE,
            },
        );
    }
    let mut out: Vec<u8> = Vec::with_capacity(HEADER_LEN + payload.len());
    out.extend_from_slice(token.as_slice());
    out.extend_from_slice(identity_as_bytes(sender).as_slice());
    out.push(if ack_requested { 1u8 } else { 0u8 });
    out.push(type_code);
    out.extend_from_slice(payload);
    Ok(out)
}

/// A message type given by its code alone, as a received frame carries it.
#[derive(Debug, Clone, Copy, PartialEq, Eq)]
pub struct TypeCode(pub [u8; 1]);

impl TypeCode {
    /// The type with the given code.
    pub fn new(value: u8) -> (kind: TypeCode)
        ensures
            kind.value() == value,
    {
        TypeCode([value])
    }

    /// The code as a number.
    pub open spec fn value(self) -> u8 {
        self.0[0]
    }
}

impl MessageType for TypeCode {
    fn code(&self) -> (out: &[u8; 1])
        ensures
            out[0] == self.value(),
    {
        &self.0
    }
}

/// What the application exchanges: payload bytes, their type, and the
/// identity of the sender.
pub struct Message<'a, MT: MessageType> {
    pub data: &'a [u8],
    pub msg_type: MT,
    pub user_id: Uuid,
}

/// One decoded datagram: a message in its envelope. It borrows the token and
/// the payload from the datagram.
pub struct Frame<'a> {
    pub token: &'a [u8],
    pub ack_requested: bool,
    pub message: Message<'a, TypeCode>,
}

impl<'a> View for Frame<'a> {
    type V = FrameView;

    open spec fn view(&self) -> FrameView {
        FrameView {
            token: self.token@,
            sender: identity_bytes(self.message.user_id),
            ack_requested: self.ack_requested,
            type_code: self.message.msg_type.value(),
            payload: self.message.data@,
        }
    }
}

/// Copies the sixteen identity bytes that start at `SENDER_OFFSET`.
fn sender_at(datagram: &[u8]) -> (bytes: [u8; 16])
    requires
        datagram@.len() >= ACK_OFFSET,
    ensures
        bytes@ == datagram@.subrange(SENDER_OFFSET as int, ACK_OFFSET as int),
{
    let mut bytes: [u8; 16] = [0u8; 16];
    let mut i: usize = 0;
    while i < IDENTITY_LEN
        invariant
            i <= IDENTITY_LEN,
            datagram@.len() >= ACK_OFFSET,
            forall|j: int| 0 <= j < i ==> bytes@[j] == datagram@[SENDER_OFFSET + j],
        decreases IDENTITY_LEN - i,
    {
        bytes[i] = datagram[SENDER_OFFSET + i];
        i += 1;
    }
    assert(bytes@ =~= datagram@.subrange(SENDER_OFFSET as int, ACK_OFFSET as int));
    bytes
}

/// Reads one frame. A datagram shorter than the header is truncated; one
/// longer than the ceiling is too large; every other datagram is a frame.
pub fn decode<'a>(datagram: &'a [u8]) -> (result: Result<Frame<'a>, FormatError>)
    ensures
        match decode_spec(datagram@) {
            Ok(view) => result matches Ok(frame) && frame@ == view,
            Err(e) => result matches Err(err) && err == e,
        },
{
    let len = datagram.len();
    if len < HEADER_LEN {
        return Err(FormatError::Truncated);
    }
    if len > PACKAGE_SIZE {
        return Err(FormatError::PayloadTooLarge { size: len, limit: PACKAGE_SIZE });
    }
    let user_id = identity_from_bytes(sender_at(datagram));
    Ok(
        Frame {
            token: slice_subrange(datagram, 0, SENDER_OFFSET),
            ack_requested: datagram[ACK_OFFSET] != 0,
            message: Message {
                data: slice_subrange(datagram, HEADER_LEN, len),
                msg_type: TypeCode::new(datagram[TYPE_OFFSET]),
                user_id,
            },
        },
    )
}

/// Decoding what encoding wrote gives the frame back: every well-formed
/// frame that fits one datagram survives the round trip unchanged.
pub proof fn lemma_round_trip(frame: FrameView)
    requires
        frame.well_formed(),
        frame.fits(),
    ensures
        encode_spec(frame) is Ok,
        decode_spec(encode_spec(frame)->Ok_0) == Ok::<FrameView, FormatError>(frame),
{
    let bytes = frame.to_bytes();
    assert(bytes.len() == frame.encoded_len());
    assert(bytes.subrange(0, SENDER_OFFSET as int) =~= frame.token);
    assert(bytes.subrange(SENDER_OFFSET as int, ACK_OFFSET as int) =~= frame.sender);
    assert(bytes.subrange(HEADER_LEN as int, bytes.len() as int) =~= frame.payload);
    assert(bytes[ACK_OFFSET as int] == ack_byte(frame.ack_requested));
    assert(bytes[TYPE_OFFSET as int] == frame.type_code);
}

/// A frame too long for one datagram is never encoded: the error gives the
/// attempted size and the ceiling.
pub proof fn lemma_oversized_is_rejected(frame: FrameView)
    requires
        !frame.fits(),
    ensures
        encode_spec(frame) == Err::<Seq<u8>, FormatError>(
            FormatError::PayloadTooLarge {
                size: reported_size(frame.encoded_len()),
                limit: PACKAGE_SIZE,
            },
        ),
{
}

} // verus!
