//! The times that records carry.

use vstd::prelude::*;

verus! {

/// `chrono::NaiveDateTime`: a date and a time of day without a time zone. The records
/// hold the server's times in it, in UTC, and carry them through as they came.
#[verifier::external_type_specification]
#[verifier::external_body]
pub struct ExNaiveDateTime(chrono::NaiveDateTime);

/// `Clone` for `chrono::NaiveDateTime`, which is `Copy`: the clone is the same date and
/// time.
pub assume_specification[ <chrono::NaiveDateTime as Clone>::clone ](
    value: &chrono::NaiveDateTime,
) -> (copy: chrono::NaiveDateTime)
    ensures
        copy == *value,
;

} // verus!
