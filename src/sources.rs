//! Values that come from outside the library's logic: random identifiers and the clock.

use vstd::prelude::*;

verus! {

/// `c` is a lowercase hexadecimal digit.
pub open spec fn is_lower_hex(c: char) -> bool {
    ('0' <= c && c <= '9') || ('a' <= c && c <= 'f')
}

/// Relies on uuid's `Uuid::new_v4` and its `Simple` formatter: a fresh random
/// identifier written as 32 lowercase hexadecimal digits.
#[verifier::external_body]
pub(crate) fn random_simple_uuid() -> (r: String)
    ensures
        r@.len() == 32,
        forall|i: int| 0 <= i < 32 ==> is_lower_hex(#[trigger] r@[i]),
{
    uuid::Uuid::new_v4().simple().to_string()
}

/// Relies on uuid's `Uuid::new_v4` and its `Display`, which writes the hyphenated
/// form: a fresh random identifier of 36 characters.
#[verifier::external_body]
pub(crate) fn random_uuid() -> (r: String)
    ensures
        r@.len() == 36,
{
    uuid::Uuid::new_v4().to_string()
}

/// Relies on `std::time::SystemTime::elapsed`, called on `UNIX_EPOCH`: the time
/// since the Unix epoch, or `None` where the clock stands before it.
#[verifier::external_body]
fn since_unix_epoch() -> (r: Option<core::time::Duration>) {
    match std::time::UNIX_EPOCH.elapsed() {
        Ok(d) => Some(d),
        Err(_) => None,
    }
}

/// Relies on `core::time::Duration::as_millis`, which returns the whole
/// milliseconds of a duration; nothing is stated of the value.
pub assume_specification[ core::time::Duration::as_millis ](d: &core::time::Duration) -> u128;

/// The milliseconds since the Unix epoch, or 0 where the clock stands before it.
pub(crate) fn now_millis() -> u64 {
    match since_unix_epoch() {
        Some(d) => d.as_millis() as u64,
        None => 0,
    }
}

} // verus!
