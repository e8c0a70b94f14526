//! The aggregator: owns every source series, applies tagged samples to them,
//! and computes the cross-source axis bounds, tick labels and per-source
//! histogram statistics that the render surface consumes.

use vstd::math::{max, min};
use vstd::prelude::*;

use crate::events::{is_quit, is_quit_key, outcome_of_update, Action, Event, Update};
use crate::hist::{
    hist_bucket_of, hist_contents, hist_increment, hist_maximum, hist_minimum, hist_missed,
    hist_new, HIST_MAX_VALUE,
};
use crate::labels::{duration_label_of, fmt_duration_micros};
use crate::series::{series_init, series_step, Sample, SourceSeries};
use vstd::multiset::Multiset;

verus! {

/// The smallest window lower edge over the sources.
pub open spec fn min_window_min(series: Seq<SourceSeries>) -> int
    decreases series.len(),
{
    if series.len() <= 1 {
        series[0].window_min as int
    } else {
        min(min_window_min(series.drop_last()), series.last().window_min as int)
    }
}

/// The largest window upper edge over the sources.
pub open spec fn max_window_max(series: Seq<SourceSeries>) -> int
    decreases series.len(),
{
    if series.len() <= 1 {
        series[0].window_max as int
    } else {
        max(max_window_max(series.drop_last()), series.last().window_max as int)
    }
}

/// The non-timeout values among the samples, oldest first: a zero records a
/// timeout and is excluded by design.
pub open spec fn nonzero_values(samples: Seq<Sample>) -> Seq<u64>
    decreases samples.len(),
{
    if samples.len() == 0 {
        Seq::empty()
    } else {
        let rest = nonzero_values(samples.drop_last());
        if samples.last().micros != 0 {
            rest.push(samples.last().micros)
        } else {
            rest
        }
    }
}

/// Every non-timeout value buffered by the sources, source by source.
pub open spec fn all_values(series: Seq<SourceSeries>) -> Seq<u64>
    decreases series.len(),
{
    if series.len() == 0 {
        Seq::empty()
    } else {
        all_values(series.drop_last()) + nonzero_values(series.last().buffer@)
    }
}

/// Fold one value into a running (minimum, maximum) pair.
pub open spec fn minmax_step(acc: Option<(int, int)>, v: int) -> Option<(int, int)> {
    match acc {
        None => Some((v, v)),
        Some(p) => Some((min(p.0, v), max(p.1, v))),
    }
}

/// The minimum and maximum of the values, or nothing when there are none.
pub open spec fn minmax_of(vs: Seq<u64>) -> Option<(int, int)>
    decreases vs.len(),
{
    if vs.len() == 0 {
        None
    } else {
        minmax_step(minmax_of(vs.drop_last()), vs.last() as int)
    }
}

/// A minimum and maximum folded over machine values stay machine values, in
/// order.
pub proof fn lemma_minmax_range(vs: Seq<u64>)
    ensures
        minmax_of(vs) matches Some(p) ==> 0 <= p.0 <= p.1 <= u64::MAX,
    decreases vs.len(),
{
    if vs.len() > 0 {
        lemma_minmax_range(vs.drop_last());
    }
}

/// The y-axis bounds over the non-timeout values of every source: their
/// minimum and maximum, each side pushed out by a tenth of the maximum so
/// that plotted extremes are not clipped at the chart edge; with no finite
/// sample recorded yet, the defined fallback (0, 1).
pub open spec fn y_bounds_spec(series: Seq<SourceSeries>) -> (int, int) {
    match minmax_of(all_values(series)) {
        None => (0, 1),
        Some(p) => (p.0 - p.1 / 10, p.1 + p.1 / 10),
    }
}

/// The multiset of values a source's histogram records: each buffered
/// non-timeout value that the histogram's range accepts, quantized to its
/// bucket's nominal value (exact up to the linear range's top).
pub open spec fn stat_values(samples: Seq<Sample>) -> Multiset<u64>
    decreases samples.len(),
{
    if samples.len() == 0 {
        Multiset::empty()
    } else {
        let rest = stat_values(samples.drop_last());
        let v = samples.last().micros;
        if v != 0 && v <= HIST_MAX_VALUE {
            rest.insert(hist_bucket_of(v))
        } else {
            rest
        }
    }
}

/// Whether any buffered value lies above the histogram's range, so that the
/// histogram dropped it as too large.
pub open spec fn missed_any(samples: Seq<Sample>) -> bool
    decreases samples.len(),
{
    if samples.len() == 0 {
        false
    } else {
        missed_any(samples.drop_last()) || samples.last().micros > HIST_MAX_VALUE
    }
}

/// `v` occurs in `c` and no smaller value does.
pub open spec fn is_min_of(c: Multiset<u64>, v: u64) -> bool {
    c.count(v) > 0 && (forall|w: u64| c.count(w) > 0 ==> v <= w)
}

/// `v` occurs in `c` and no larger value does.
pub open spec fn is_max_of(c: Multiset<u64>, v: u64) -> bool {
    c.count(v) > 0 && (forall|w: u64| c.count(w) > 0 ==> w <= v)
}

/// What a source's header readout `(minimum, maximum)` must be, given its
/// buffered samples: the minimum of the recorded values, or zero with none
/// recorded; the maximum likewise, but also zero when a value was dropped as
/// too large — the histogram's maximum query fails then, and the failure
/// reads out as zero, as it always has.
pub open spec fn summary_ok(samples: Seq<Sample>, s: (u64, u64)) -> bool {
    let c = stat_values(samples);
    &&& (c.len() == 0 ==> s.0 == 0)
    &&& (c.len() > 0 ==> is_min_of(c, s.0))
    &&& ((c.len() == 0 || missed_any(samples)) ==> s.1 == 0)
    &&& ((c.len() > 0 && missed_any(samples) == false) ==> is_max_of(c, s.1))
}

/// What a possibly negative or oversized tick position records as a
/// duration's microseconds.
pub open spec fn clamp_micros(x: int) -> u64 {
    if x < 0 {
        0
    } else if x > u64::MAX {
        u64::MAX
    } else {
        x as u64
    }
}

/// Tick `i` of 7 evenly spaced positions over the bounds `lo..hi`, the span
/// split into 6 equal sub-intervals.
pub open spec fn tick_at(lo: int, hi: int, i: int) -> u64 {
    clamp_micros(lo + i * ((hi - lo) / 6))
}

/// The running minimum / maximum accumulator of the bounds loop, as the
/// optional pair it stands for.
spec fn acc_model(has: bool, mn: u64, mx: u64) -> Option<(int, int)> {
    if has {
        Some((mn as int, mx as int))
    } else {
        None
    }
}

/// Shared state of the monitor: one series per source, all with the same
/// fixed buffer capacity. The source count is fixed at startup.
pub struct App {
    pub series: Vec<SourceSeries>,
    pub capacity: usize,
}

impl App {
    pub open spec fn wf(&self) -> bool {
        &&& self.capacity >= 1
        &&& self.series@.len() >= 1
        &&& forall|i: int|
            0 <= i < self.series@.len() ==> (#[trigger] self.series@[i]).wf()
                && self.series@[i].cap() == self.capacity
    }

    pub fn new(thread_count: usize, capacity: usize) -> (r: Self)
        requires
            thread_count >= 1,
            capacity >= 1,
        ensures
            r.wf(),
            r.capacity == capacity,
            r.series@.len() == thread_count,
            forall|i: int|
                0 <= i < thread_count ==> (#[trigger] r.series@[i]).model() == series_init()
                    && r.series@[i].host@ == Seq::<char>::empty() && r.series@[i].addr@
                    == Seq::<char>::empty(),
    {
        let mut series: Vec<SourceSeries> = Vec::new();
        let mut i: usize = 0;
        while i < thread_count
            invariant
                capacity >= 1,
                i <= thread_count,
                series@.len() == i,
                forall|j: int|
                    0 <= j < i ==> (#[trigger] series@[j]).wf() && series@[j].cap() == capacity
                        && series@[j].model() == series_init() && series@[j].host@ == Seq::<
                        char,
                    >::empty() && series@[j].addr@ == Seq::<char>::empty(),
            decreases thread_count - i,
        {
            series.push(SourceSeries::new(capacity));
            i = i + 1;
        }
        App { series, capacity }
    }

    /// Apply one sample outcome to the series of source `host_id`; no other
    /// source's state changes.
    pub fn update(&mut self, host_id: usize, item: Option<u64>)
        requires
            old(self).wf(),
            host_id < old(self).series@.len(),
            old(self).series@[host_id as int].sequence < u64::MAX,
        ensures
            final(self).wf(),
            final(self).capacity == old(self).capacity,
            final(self).series@.len() == old(self).series@.len(),
            final(self).series@[host_id as int].model() == series_step(
                old(self).capacity as nat,
                old(self).series@[host_id as int].model(),
                item,
            ),
            final(self).series@[host_id as int].host == old(self).series@[host_id as int].host,
            final(self).series@[host_id as int].addr == old(self).series@[host_id as int].addr,
            forall|j: int|
                0 <= j < old(self).series@.len() && j != host_id ==> final(self).series@[j]
                    == old(self).series@[j],
    {
        self.series[host_id].update(item);
    }

    /// The union x-axis envelope: from the smallest window lower edge to the
    /// largest window upper edge over all sources, so that sources updated at
    /// different rates remain jointly visible.
    pub fn x_axis_bounds(&self) -> (r: (u64, u64))
        requires
            self.wf(),
        ensures
            r.0 == min_window_min(self.series@),
            r.1 == max_window_max(self.series@),
    {
        let mut lo = self.series[0].window_min;
        let mut hi = self.series[0].window_max;
        let n = self.series.len();
        assert(self.series@.subrange(0, 1)[0] == self.series@[0]);
        let mut i: usize = 1;
        while i < n
            invariant
                self.wf(),
                n == self.series@.len(),
                1 <= i <= n,
                lo == min_window_min(self.series@.subrange(0, i as int)),
                hi == max_window_max(self.series@.subrange(0, i as int)),
            decreases n - i,
        {
            let s = &self.series[i];
            proof {
                let pre = self.series@.subrange(0, i as int);
                let post = self.series@.subrange(0, i + 1);
                assert(post.drop_last() =~= pre);
                assert(post.last() == self.series@[i as int]);
            }
            if s.window_min < lo {
                lo = s.window_min;
            }
            if s.window_max > hi {
                hi = s.window_max;
            }
            i = i + 1;
        }
        assert(self.series@.subrange(0, n as int) =~= self.series@);
        (lo, hi)
    }

    /// The y-axis bounds over the non-timeout values of every source, with a
    /// tenth of the maximum as headroom on each side; (0, 1) when no finite
    /// sample was recorded yet. See `y_bounds_spec`.
    pub fn y_axis_bounds(&self) -> (r: (i128, i128))
        requires
            self.wf(),
        ensures
            r.0 == y_bounds_spec(self.series@).0,
            r.1 == y_bounds_spec(self.series@).1,
            -(u64::MAX as int) <= r.0 <= r.1 <= 2 * (u64::MAX as int),
    {
        let mut has = false;
        let mut mn: u64 = 0;
        let mut mx: u64 = 0;
        let n = self.series.len();
        let mut i: usize = 0;
        while i < n
            invariant
                self.wf(),
                n == self.series@.len(),
                i <= n,
                acc_model(has, mn, mx) == minmax_of(
                    all_values(self.series@.subrange(0, i as int)),
                ),
            decreases n - i,
        {
            let buf = &self.series[i].buffer;
            let m = buf.len();
            let mut j: usize = 0;
            while j < m
                invariant
                    self.wf(),
                    n == self.series@.len(),
                    i < n,
                    buf@ == self.series@[i as int].buffer@,
                    buf.wf(),
                    m == buf@.len(),
                    j <= m,
                    acc_model(has, mn, mx) == minmax_of(
                        all_values(self.series@.subrange(0, i as int)) + nonzero_values(
                            buf@.subrange(0, j as int),
                        ),
                    ),
                decreases m - j,
            {
                let s = *buf.get(j);
                proof {
                    let pre = buf@.subrange(0, j as int);
                    let post = buf@.subrange(0, j + 1);
                    assert(post.drop_last() =~= pre);
                    assert(post.last() == buf@[j as int]);
                    let a = all_values(self.series@.subrange(0, i as int));
                    if buf@[j as int].micros != 0 {
                        let v = buf@[j as int].micros;
                        assert(a + nonzero_values(post) =~= (a + nonzero_values(pre)).push(v));
                        assert(((a + nonzero_values(pre)).push(v)).drop_last() =~= a
                            + nonzero_values(pre));
                    } else {
                        assert(a + nonzero_values(post) =~= a + nonzero_values(pre));
                    }
                }
                if s.micros != 0 {
                    if has == false {
                        has = true;
                        mn = s.micros;
                        mx = s.micros;
                    } else {
                        if s.micros < mn {
                            mn = s.micros;
                        }
                        if s.micros > mx {
                            mx = s.micros;
                        }
                    }
                }
                j = j + 1;
            }
            proof {
                let pre = self.series@.subrange(0, i as int);
                let post = self.series@.subrange(0, i + 1);
                assert(post.drop_last() =~= pre);
                assert(post.last() == self.series@[i as int]);
                assert(buf@.subrange(0, m as int) =~= buf@);
            }
            i = i + 1;
        }
        proof {
            assert(self.series@.subrange(0, n as int) =~= self.series@);
            lemma_minmax_range(all_values(self.series@));
        }
        if has == false {
            (0i128, 1i128)
        } else {
            let tenth = mx / 10;
            ((mn as i128) - (tenth as i128), (mx as i128) + (tenth as i128))
        }
    }

    /// Fill one histogram from the buffered samples: every non-timeout value
    /// goes in; the histogram records the admissible ones and drops the rest.
    fn build_hist(buf: &crate::ring::RingBuffer<Sample>) -> (h: histogram::Histogram)
        requires
            buf.wf(),
        ensures
            hist_contents(h) == stat_values(buf@),
            hist_missed(h) == missed_any(buf@),
    {
        let m = buf.len();
        let mut h = hist_new();
        let mut j: usize = 0;
        while j < m
            invariant
                buf.wf(),
                m == buf@.len(),
                j <= m,
                hist_contents(h) == stat_values(buf@.subrange(0, j as int)),
                hist_missed(h) == missed_any(buf@.subrange(0, j as int)),
            decreases m - j,
        {
            let s = *buf.get(j);
            proof {
                let pre = buf@.subrange(0, j as int);
                let post = buf@.subrange(0, j + 1);
                assert(post.drop_last() =~= pre);
                assert(post.last() == buf@[j as int]);
            }
            if s.micros != 0 {
                hist_increment(&mut h, s.micros);
            }
            j = j + 1;
        }
        assert(buf@.subrange(0, m as int) =~= buf@);
        h
    }

    /// Build one histogram per source over its buffered non-timeout values.
    /// Timeouts are excluded by design, not oversight; a value above the
    /// histogram's representable range is silently dropped from the
    /// statistic rather than failing the update.
    pub fn stats(&self) -> (r: Vec<histogram::Histogram>)
        requires
            self.wf(),
        ensures
            r@.len() == self.series@.len(),
            forall|i: int|
                0 <= i < self.series@.len() ==> hist_contents(#[trigger] r@[i]) == stat_values(
                    self.series@[i].buffer@,
                ) && hist_missed(r@[i]) == missed_any(self.series@[i].buffer@),
    {
        let mut out: Vec<histogram::Histogram> = Vec::new();
        let n = self.series.len();
        let mut i: usize = 0;
        while i < n
            invariant
                self.wf(),
                n == self.series@.len(),
                i <= n,
                out@.len() == i,
                forall|k: int|
                    0 <= k < i ==> hist_contents(#[trigger] out@[k]) == stat_values(
                        self.series@[k].buffer@,
                    ) && hist_missed(out@[k]) == missed_any(self.series@[k].buffer@),
            decreases n - i,
        {
            let h = Self::build_hist(&self.series[i].buffer);
            out.push(h);
            i = i + 1;
        }
        out
    }

    /// The header readout per source: the minimum and maximum of its
    /// recorded values, each zero where the histogram's query reports an
    /// error instead — with nothing recorded, and, for the maximum, also
    /// after a value was dropped as too large. See `summary_ok`.
    pub fn stats_summary(&self) -> (r: Vec<(u64, u64)>)
        requires
            self.wf(),
        ensures
            r@.len() == self.series@.len(),
            forall|i: int|
                0 <= i < self.series@.len() ==> summary_ok(self.series@[i].buffer@, #[trigger] r@[i]),
    {
        let mut out: Vec<(u64, u64)> = Vec::new();
        let n = self.series.len();
        let mut i: usize = 0;
        while i < n
            invariant
                self.wf(),
                n == self.series@.len(),
                i <= n,
                out@.len() == i,
                forall|k: int|
                    0 <= k < i ==> summary_ok(self.series@[k].buffer@, #[trigger] out@[k]),
            decreases n - i,
        {
            let h = Self::build_hist(&self.series[i].buffer);
            let mn = match hist_minimum(&h) {
                Some(v) => v,
                None => 0,
            };
            let mx = match hist_maximum(&h) {
                Some(v) => v,
                None => 0,
            };
            out.push((mn, mx));
            i = i + 1;
        }
        out
    }

    /// Render 7 evenly spaced tick labels — 6 equal sub-intervals — across
    /// the given y-axis bounds, each position clamped to what a duration can
    /// hold and formatted as one.
    pub fn y_axis_labels(&self, lo: i128, hi: i128) -> (r: Vec<String>)
        requires
            lo <= hi,
            -(u64::MAX as int) <= lo,
            hi <= 2 * (u64::MAX as int),
        ensures
            r@.len() == 7,
            forall|i: int|
                0 <= i < 7 ==> (#[trigger] r@[i])@ == duration_label_of(
                    tick_at(lo as int, hi as int, i),
                ),
    {
        let step = (hi - lo) / 6;
        let mut out: Vec<String> = Vec::new();
        let mut i: usize = 0;
        while i < 7
            invariant
                lo <= hi,
                -(u64::MAX as int) <= lo,
                hi <= 2 * (u64::MAX as int),
                step == (hi - lo) / 6,
                out@.len() == i,
                i <= 7,
                forall|k: int|
                    0 <= k < i ==> (#[trigger] out@[k])@ == duration_label_of(
                        tick_at(lo as int, hi as int, k),
                    ),
            decreases 7 - i,
        {
            proof {
                assert(0 <= step);
                assert(6 * step <= hi - lo);
                assert((i as int) * (step as int) <= 6 * (step as int)) by (nonlinear_arith)
                    requires
                        0 <= step as int,
                        i as int <= 6,
                ;
                assert(0 <= (i as int) * (step as int)) by (nonlinear_arith)
                    requires
                        0 <= step as int,
                        0 <= i as int,
                ;
            }
            let pos = lo + (i as i128) * step;
            let tick: u64 = if pos < 0 {
                0
            } else if pos > u64::MAX as i128 {
                u64::MAX
            } else {
                pos as u64
            };
            assert(tick == tick_at(lo as int, hi as int, i as int));
            out.push(fmt_duration_micros(tick));
            i = i + 1;
        }
        out
    }

    /// Record a source's display name and resolved address text.
    pub fn set_source_identity(&mut self, host_id: usize, host: String, addr: String)
        requires
            old(self).wf(),
            host_id < old(self).series@.len(),
        ensures
            final(self).wf(),
            final(self).capacity == old(self).capacity,
            final(self).series@.len() == old(self).series@.len(),
            final(self).series@[host_id as int].host == host,
            final(self).series@[host_id as int].addr == addr,
            final(self).series@[host_id as int].model() == old(self).series@[host_id as int].model(),
            forall|j: int|
                0 <= j < old(self).series@.len() && j != host_id ==> final(self).series@[j]
                    == old(self).series@[j],
    {
        let s = &mut self.series[host_id];
        s.host = host;
        s.addr = addr;
    }

    /// Route one merged event, as the single consumer does: a tagged sample
    /// is applied to its source's series and asks for a redraw; a key press
    /// leaves the state untouched and asks to quit exactly on a quit key.
    pub fn handle_event(&mut self, event: Event) -> (a: Action)
        requires
            old(self).wf(),
            event matches Event::Update(host_id, _u) ==> host_id < old(self).series@.len()
                && old(self).series@[host_id as int].sequence < u64::MAX,
        ensures
            final(self).wf(),
            final(self).capacity == old(self).capacity,
            final(self).series@.len() == old(self).series@.len(),
            event matches Event::Update(host_id, u) ==> a == Action::Redraw
                && final(self).series@[host_id as int].model() == series_step(
                old(self).capacity as nat,
                old(self).series@[host_id as int].model(),
                outcome_of_update(u),
            ) && (forall|j: int|
                0 <= j < old(self).series@.len() && j != host_id
                    ==> final(self).series@[j] == old(self).series@[j]),
            event matches Event::Input(k) ==> *final(self) == *old(self) && a == (if is_quit(k) {
                Action::Quit
            } else {
                Action::Ignore
            }),
    {
        match event {
            Event::Update(host_id, u) => {
                let item = match u {
                    Update::Result(d) => Some(d),
                    Update::Timeout => None,
                };
                self.update(host_id, item);
                Action::Redraw
            },
            Event::Input(k) => {
                if is_quit_key(&k) {
                    Action::Quit
                } else {
                    Action::Ignore
                }
            },
        }
    }
}

} // verus!
