//! The 128-bit identity of a client and its sixteen wire bytes.

use uuid::Uuid;
use vstd::prelude::*;

verus! {

/// Width of an identity on the wire.
pub const IDENTITY_LEN: usize = 16;

/// `uuid::Uuid`, carried through as an opaque value: nothing is known of an
/// identity but the bytes that the two functions below read and write.
#[verifier::external_type_specification]
#[verifier::external_body]
pub struct ExUuid(Uuid);

/// The bytes that an identity holds, in the order in which `Uuid::as_bytes`
/// yields them.
pub uninterp spec fn identity_bytes(id: Uuid) -> Seq<u8>;

/// `Uuid::as_bytes`: borrows the identity's underlying sixteen bytes. The
/// contract names them `identity_bytes`.
#[verifier::external_body]
pub(crate) fn identity_as_bytes(id: &Uuid) -> (bytes: &[u8; 16])
    ensures
        bytes@ == identity_bytes(*id),
{
    id.as_bytes()
}

/// `Uuid::from_bytes`: wraps sixteen bytes as an identity without changing
/// them, so the identity's bytes are the argument.
#[verifier::external_body]
pub(crate) fn identity_from_bytes(bytes: [u8; 16]) -> (id: Uuid)
    ensures
        identity_bytes(id) == bytes@,
{
    Uuid::from_bytes(bytes)
}

} // verus!
