//! The `uuid` crate's `Uuid`, the raw 128-bit identifier that an
//! [`crate::UuidB64`] is made from and handed back as. Nothing in this file
//! is proved.
use vstd::prelude::*;
use uuid::Uuid;

verus! {

/// `uuid::Uuid`.
#[verifier::external_type_specification]
#[verifier::external_body]
pub struct ExUuid(Uuid);

/// The sixteen bytes that a `Uuid` holds, in the order in which its
/// hyphenated text shows them.
pub uninterp spec fn uuid_bytes(id: Uuid) -> Seq<u8>;

/// Whether sixteen bytes carry the marks of a random (version 4) UUID: the
/// version in the upper half of byte 6, and the RFC variant in the top two
/// bits of byte 8.
pub open spec fn is_random_v4(bytes: Seq<u8>) -> bool {
    &&& bytes.len() == 16
    &&& bytes[6] / 16 == 4
    &&& bytes[8] / 64 == 2
}

/// `Uuid::as_bytes`: a reference to the sixteen bytes.
pub assume_specification[ Uuid::as_bytes ](id: &Uuid) -> (r: &[u8; 16])
    ensures
        r@ == uuid_bytes(*id),
;

/// `Uuid::from_bytes`: the `Uuid` that holds exactly these bytes.
pub assume_specification[ Uuid::from_bytes ](bytes: [u8; 16]) -> (r: Uuid)
    ensures
        uuid_bytes(r) == bytes@,
;

/// `Uuid::new_v4`: random bits from the operating system, with the version
/// and variant marks set. Which bits come is not stated; the call panics
/// where the operating system has no random bytes to give.
pub assume_specification[ Uuid::new_v4 ]() -> (r: Uuid)
    ensures
        is_random_v4(uuid_bytes(r)),
;

} // verus!
