//! Values minted when a record is created: a fresh random identifier and the
//! current clock reading. Both come from outside crates and are inherently
//! nondeterministic, so their contracts state only what holds of every
//! outcome.

use vstd::prelude::*;

verus! {

/// A fresh URL-safe random identifier of 21 characters.
///
/// Relies on nanoid::format with nanoid's default URL-safe alphabet: it draws
/// random bytes and pushes characters from that 64-character ASCII alphabet
/// until the string holds exactly `size` of them. The result is random, so
/// nothing but its length is promised.
#[verifier::external_body]
pub(crate) fn fresh_id() -> (r: String)
    ensures
        r@.len() == 21,
{
    nanoid::format(nanoid::rngs::default, &nanoid::alphabet::SAFE, 21)
}

/// The current time as milliseconds since the Unix epoch.
///
/// Relies on chrono::Utc::now; timestamp_millis only converts the reading to
/// an integer. The clock is outside the program, so nothing is promised of
/// the value; on a machine whose clock reads before 1970 the call itself
/// fails.
#[verifier::external_body]
pub(crate) fn now_millis() -> i64 {
    chrono::Utc::now().timestamp_millis()
}

} // verus!
