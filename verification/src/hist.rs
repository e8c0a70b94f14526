//! Trusted boundary to the `histogram` crate, which keeps the per-source
//! latency statistics. The library fills the histogram and reads its
//! minimum / maximum from verified code; the percentile query stays with the
//! crate's callers, since it takes a floating-point argument.
//!
//! The histogram stores bucket counts, not values. A bucket's nominal value
//! equals the inserted value only up to `HIST_EXACT_MAX`; above that, nearby
//! values share a bucket and read back as the bucket's nominal value, which
//! `hist_bucket_of` names. The contracts below speak of the multiset of
//! those recorded values.

use vstd::multiset::Multiset;
use vstd::prelude::*;

verus! {

/// Declares histogram::Histogram so that it can stand in signatures; its
/// inside stays opaque here.
#[verifier::external_type_specification]
#[verifier::external_body]
pub struct ExHistogram(histogram::Histogram);

/// The multiset of recorded values a histogram holds: for each bucket, its
/// count copies of the bucket's nominal value.
pub uninterp spec fn hist_contents(h: histogram::Histogram) -> Multiset<u64>;

/// Whether the histogram has ever dropped a value as too large. The drop
/// leaves the buckets alone but is counted, and that count makes a later
/// maximum or percentile query report an error.
pub uninterp spec fn hist_missed(h: histogram::Histogram) -> bool;

/// The nominal value of the bucket an admissible value falls into: a
/// deterministic function of the value alone, equal to the value itself up
/// to `HIST_EXACT_MAX`.
pub uninterp spec fn hist_bucket_of(value: u64) -> u64;

/// The largest value the default histogram configuration accepts: a larger
/// value is dropped from the statistic rather than recorded.
pub const HIST_MAX_VALUE: u64 = 60_000_000_000;

/// The top of the default configuration's linear bucket range: up to here a
/// bucket's nominal value equals the inserted value, so a value is recorded
/// exactly.
pub const HIST_EXACT_MAX: u64 = 1024;

/// Relies on histogram::Histogram::new: the default configuration caps
/// values at 60_000_000_000, and a fresh histogram has every bucket count at
/// zero and nothing dropped.
#[verifier::external_body]
pub(crate) fn hist_new() -> (h: histogram::Histogram)
    ensures
        hist_contents(h) == Multiset::<u64>::empty(),
        hist_missed(h) == false,
{
    histogram::Histogram::new()
}

/// Relies on histogram::Histogram::increment: a value at most the configured
/// maximum is counted in the bucket it quantizes to — the bucket index is
/// exactly the value up to the linear range's top, so small values are
/// recorded exactly; a larger admissible value is recorded as its bucket's
/// nominal value. A value above the maximum leaves the buckets unchanged and
/// is counted as missed, which the statistic deliberately ignores.
#[verifier::external_body]
pub(crate) fn hist_increment(h: &mut histogram::Histogram, value: u64)
    ensures
        value <= HIST_EXACT_MAX ==> hist_contents(*final(h)) == hist_contents(*old(h)).insert(
            value,
        ),
        value <= HIST_MAX_VALUE ==> hist_contents(*final(h)) == hist_contents(*old(h)).insert(
            hist_bucket_of(value),
        ),
        value > HIST_MAX_VALUE ==> hist_contents(*final(h)) == hist_contents(*old(h)),
        hist_missed(*final(h)) == (hist_missed(*old(h)) || value > HIST_MAX_VALUE),
{
    let _ = h.increment(value);
}

/// Relies on histogram::Histogram::minimum: it scans up from the lowest
/// bucket and returns the first non-empty bucket's nominal value, so it
/// yields the smallest recorded value, and an error exactly when nothing was
/// recorded.
#[verifier::external_body]
pub(crate) fn hist_minimum(h: &histogram::Histogram) -> (r: Option<u64>)
    ensures
        r matches Some(v) ==> hist_contents(*h).count(v) > 0 && (forall|w: u64|
            hist_contents(*h).count(w) > 0 ==> v <= w),
        (r matches None) <==> hist_contents(*h).len() == 0,
{
    h.minimum().ok()
}

/// Relies on histogram::Histogram::maximum: it scans down from the highest
/// bucket, starting its tally at the missed-value count, so it yields the
/// largest recorded value when something was recorded and nothing was ever
/// dropped as too large, and an error otherwise.
#[verifier::external_body]
pub(crate) fn hist_maximum(h: &histogram::Histogram) -> (r: Option<u64>)
    ensures
        r matches Some(v) ==> hist_contents(*h).count(v) > 0 && (forall|w: u64|
            hist_contents(*h).count(w) > 0 ==> w <= v),
        (r matches Some(_)) <==> (hist_contents(*h).len() > 0 && hist_missed(*h) == false),
{
    h.maximum().ok()
}

} // verus!
