//! What the domain takes from the machine it runs on: the time of day and
//! fresh identifiers.

use vstd::prelude::*;

verus! {

/// The current time as chrono's `Utc::now` reports it, in whole seconds
/// since 1970-01-01T00:00:00Z. Nothing is claimed of the value: it is the
/// machine's clock. chrono panics where that clock stands before 1970.
#[verifier::external_body]
pub(crate) fn utc_now() -> (now: i64) {
    chrono::Utc::now().timestamp()
}

/// A random identifier from uuid's `Uuid::new_v4`, in the text form that
/// uuid gives it: 32 hexadecimal digits in five groups with a hyphen
/// between them, 36 characters in all. Only that length is claimed. uuid
/// panics where the operating system yields no random bytes.
#[verifier::external_body]
pub(crate) fn fresh_id() -> (id: String)
    ensures
        id@.len() == 36,
{
    uuid::Uuid::new_v4().to_string()
}

} // verus!
