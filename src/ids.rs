//! Identifiers of sessions and rooms.
//!
//! An identifier is an opaque 128-bit token. Its high 64 bits are random; its
//! low 64 bits are a serial number that the issuing registry never reuses, so
//! two identifiers issued by one registry always differ.
use vstd::prelude::*;

verus! {

/// Identifier of a connected session.
pub type SessionId = u128;

/// Identifier of a room.
pub type RoomId = u128;

/// The bits of an identifier that carry its serial number.
pub const SERIAL_MASK: u128 = 0xffff_ffff_ffff_ffff;

/// The serial number carried by an identifier.
pub open spec fn serial_of(id: u128) -> u128 {
    id & SERIAL_MASK
}

/// Relies on uuid::Uuid::new_v4 (and Uuid::as_u128): a token drawn from the
/// operating system's random source. Nothing is promised of its value.
#[verifier::external_body]
pub(crate) fn random_token() -> (r: u128) {
    uuid::Uuid::new_v4().as_u128()
}

/// Combines the random high half of `token` with `serial`.
pub fn mint_id(token: u128, serial: u64) -> (r: u128)
    ensures
        serial_of(r) == serial as u128,
        r >> 64u128 == token >> 64u128,
{
    let s: u128 = serial as u128;
    let r: u128 = (token & !SERIAL_MASK) | s;
    assert(s <= 0xffff_ffff_ffff_ffffu128);
    assert(((token & !0xffff_ffff_ffff_ffffu128) | s) & 0xffff_ffff_ffff_ffffu128 == s
        && ((token & !0xffff_ffff_ffff_ffffu128) | s) >> 64u128 == token >> 64u128) by (bit_vector)
        requires
            s <= 0xffff_ffff_ffff_ffffu128,
    ;
    r
}

} // verus!
