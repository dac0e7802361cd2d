//! Sources the core cannot compute itself: secure random bytes, fresh
//! identifiers, and the wall clock.

use vstd::prelude::*;

verus! {

/// Relies on `rand::rngs::OsRng::fill_bytes`: bytes from the operating
/// system's secure entropy source; nothing is promised of their values.
#[verifier::external_body]
pub(crate) fn random_bytes(n: usize) -> (r: Vec<u8>)
    ensures
        r@.len() == n,
{
    let mut buf = vec![0u8; n];
    rand::RngCore::fill_bytes(&mut rand::rngs::OsRng, &mut buf);
    buf
}

/// Relies on `uuid::Uuid::new_v4`: a fresh random version-4 identifier.
/// Its fixed version bits make the value nonzero; nothing more is promised.
#[verifier::external_body]
pub(crate) fn fresh_id() -> (r: u128)
    ensures
        r != 0,
{
    uuid::Uuid::new_v4().as_u128()
}

/// Relies on `chrono::Utc::now`: the current wall-clock time in milliseconds
/// since the epoch; nothing is promised of its value.
#[verifier::external_body]
pub(crate) fn now_millis() -> (r: i64) {
    chrono::Utc::now().timestamp_millis()
}

} // verus!
