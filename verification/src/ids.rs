//! Identifiers and timestamps minted for each request and row.
use vstd::prelude::*;

verus! {

/// The bit pattern shared by every version-4 UUID, read on its 128-bit
/// big-endian value: the version nibble is 4 and the variant bits are 10.
pub open spec fn is_uuid_v4(r: u128) -> bool {
    ((r >> 76) & 0xf) == 4 && ((r >> 62) & 0x3) == 2
}

/// Relies on `uuid::Uuid::new_v4` (read back through `Uuid::as_u128`):
/// the result is random except for the version nibble, which it sets to 4,
/// and the variant bits, which it sets to 10. Nothing else is assumed;
/// in particular, two calls may return any two values.
#[verifier::external_body]
pub fn mint_uuid_v4() -> (r: u128)
    ensures
        is_uuid_v4(r),
{
    uuid::Uuid::new_v4().as_u128()
}

/// Relies on `chrono::Utc::now` (read back through
/// `DateTime::timestamp_millis`): milliseconds since the Unix epoch at the
/// wall clock's current reading. Nothing is assumed of the value.
#[verifier::external_body]
pub fn now_utc_millis() -> (r: i64) {
    chrono::Utc::now().timestamp_millis()
}

} // verus!
