//! Trusted boundary to std's `Duration` formatting, which renders an axis
//! tick value as human-readable text.

use vstd::prelude::*;

verus! {

/// The text std's Debug formatting gives a duration of `micros`
/// microseconds; it depends on the value alone.
pub uninterp spec fn duration_label_of(micros: u64) -> Seq<char>;

/// Relies on the Debug formatting of std::time::Duration: the text depends
/// on the duration's value alone.
#[verifier::external_body]
pub(crate) fn fmt_duration_micros(micros: u64) -> (r: String)
    ensures
        r@ == duration_label_of(micros),
{
    format!("{:?}", std::time::Duration::from_micros(micros))
}

} // verus!
