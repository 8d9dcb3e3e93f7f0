//! Capabilities that the application plugs into the client.

use crate::error::ListenerError;
use crate::frame::TOKEN_LEN;
use uuid::Uuid;
use vstd::prelude::*;

verus! {

/// An application value that can be written as payload bytes.
pub trait Serializable {
    /// The payload bytes of the value.
    fn serialize(&self) -> &[u8];
}

/// A receiver of inbound messages.
pub trait MessageListener {
    /// Takes one message: the identity of its sender and the payload as it
    /// came off the wire, which the listener decodes for itself. The answer
    /// says whether the listener could handle it.
    fn message_recived(&self, user_id: Uuid, data: &[u8]) -> Result<(), ListenerError>;
}

/// The discriminator of a kind of message.
pub trait MessageType {
    /// The one byte that stands for the kind on the wire.
    fn code(&self) -> &[u8; 1];
}

/// The source of the credential that accompanies every outbound frame, and
/// the judge of the one that an inbound frame carries.
pub trait Token {
    /// The credential for the next outbound frame.
    fn as_bytes(&self) -> &[u8; 500];

    /// Whether `token`, the 500 bytes at the head of an inbound frame, is a
    /// credential of the sender that the frame claims.
    fn validate(&self, token: &[u8], claimed_identity: &Uuid) -> bool;
}

/// One fixed credential, shared with the peer: it goes out with every frame,
/// and an inbound frame is accepted if it carries the same bytes.
pub struct StaticToken {
    bytes: [u8; 500],
}

impl View for StaticToken {
    type V = Seq<u8>;

    closed spec fn view(&self) -> Seq<u8> {
        self.bytes@
    }
}

impl StaticToken {
    /// The credential made of the given bytes.
    pub fn new(bytes: [u8; 500]) -> (token: StaticToken)
        ensures
            token@ == bytes@,
    {
        StaticToken { bytes }
    }
}

impl Token for StaticToken {
    fn as_bytes(&self) -> (out: &[u8; 500])
        ensures
            out@ == self@,
    {
        &self.bytes
    }

    fn validate(&self, token: &[u8], claimed_identity: &Uuid) -> (accepted: bool)
        ensures
            accepted == (token@ == self@),
    {
        if token.len() != TOKEN_LEN {
            return false;
        }
        let mut i: usize = 0;
        while i < TOKEN_LEN
            invariant
                i <= TOKEN_LEN,
                token@.len() == TOKEN_LEN,
                forall|j: int| 0 <= j < i ==> token@[j] == self.bytes@[j],
            decreases TOKEN_LEN - i,
        {
            if token[i] != self.bytes[i] {
                return false;
            }
            i += 1;
        }
        assert(token@ =~= self.bytes@);
        true
    }
}

} // verus!
