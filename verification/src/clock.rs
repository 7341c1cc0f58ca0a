//! The wall clock.

use vstd::prelude::*;

verus! {

/// Trusted: `chrono::Utc::now`, read as whole seconds since the Unix epoch
/// with `DateTime::timestamp`. Nothing is promised of the value: two calls
/// may differ. `Utc::now` itself gives up on a machine whose clock stands
/// before 1970.
#[verifier::external_body]
pub(crate) fn unix_now() -> i64 {
    chrono::Utc::now().timestamp()
}

} // verus!
