//! One monitored source: a ring buffer of time-stamped samples, a strictly
//! increasing sequence counter, and the sliding window envelope that gives
//! the logical x-axis range of the buffered samples.

use vstd::prelude::*;

use crate::ring::{ring_step, RingBuffer};

verus! {

/// One recorded observation: the update sequence number it was taken at and
/// the measured latency in microseconds. A timeout is recorded as the value
/// zero, so that gaps are drawn rather than omitted.
#[derive(Clone, Copy, Debug, PartialEq, Eq, Structural)]
pub struct Sample {
    pub sequence: u64,
    pub micros: u64,
}

/// The value recorded for one update outcome: the measured latency, or zero
/// for a timeout.
pub open spec fn recorded_micros(outcome: Option<u64>) -> u64 {
    match outcome {
        Some(d) => d,
        None => 0,
    }
}

/// Abstract state of a source series: its sequence counter, the edges of its
/// window envelope, and its buffered samples, oldest first.
pub struct SeriesModel {
    pub sequence: int,
    pub window_min: int,
    pub window_max: int,
    pub samples: Seq<Sample>,
}

/// The abstract state of a fresh series.
pub open spec fn series_init() -> SeriesModel {
    SeriesModel { sequence: 0, window_min: 0, window_max: 0, samples: Seq::empty() }
}

/// One update outcome applied to the abstract state of a series of capacity
/// `cap`.
pub open spec fn series_step(cap: nat, m: SeriesModel, outcome: Option<u64>) -> SeriesModel {
    SeriesModel {
        sequence: m.sequence + 1,
        window_min: if m.samples.len() == cap {
            m.window_min + 1
        } else {
            m.window_min
        },
        window_max: m.window_max + 1,
        samples: ring_step(
            cap,
            m.samples,
            Sample { sequence: (m.sequence + 1) as u64, micros: recorded_micros(outcome) },
        ),
    }
}

/// The abstract state after the update outcomes `outcomes`, applied in order
/// to a fresh series of capacity `cap`.
pub open spec fn series_run(cap: nat, outcomes: Seq<Option<u64>>) -> SeriesModel
    decreases outcomes.len(),
{
    if outcomes.len() == 0 {
        series_init()
    } else {
        series_step(cap, series_run(cap, outcomes.drop_last()), outcomes.last())
    }
}

/// Laws: after any run of updates on a fresh series, the sequence counter
/// equals the number of updates, however many of them were timeouts; and the
/// window envelope's width equals that count, capped at the capacity.
pub proof fn lemma_series_run(cap: nat, outcomes: Seq<Option<u64>>)
    requires
        cap >= 1,
    ensures
        series_run(cap, outcomes).sequence == outcomes.len(),
        series_run(cap, outcomes).window_max == outcomes.len(),
        series_run(cap, outcomes).samples.len() == vstd::math::min(
            outcomes.len() as int,
            cap as int,
        ),
        series_run(cap, outcomes).window_max - series_run(cap, outcomes).window_min
            == vstd::math::min(outcomes.len() as int, cap as int),
    decreases outcomes.len(),
{
    if outcomes.len() > 0 {
        lemma_series_run(cap, outcomes.drop_last());
    }
}

/// The samples a run of update outcomes records, in order: update `i`
/// (counting from one) records outcome `i - 1` under sequence number `i`.
pub open spec fn sample_trace(outcomes: Seq<Option<u64>>) -> Seq<Sample> {
    Seq::new(
        outcomes.len(),
        |i: int| Sample { sequence: (i + 1) as u64, micros: recorded_micros(outcomes[i]) },
    )
}

/// Law: after any run of updates on a fresh series, the buffer holds exactly
/// what pushing the recorded samples through the ring buffer leaves — so,
/// with the ring buffer's law, the last `min(count, capacity)` recorded
/// samples in their original order.
pub proof fn lemma_series_run_samples(cap: nat, outcomes: Seq<Option<u64>>)
    requires
        cap >= 1,
    ensures
        series_run(cap, outcomes).samples == crate::ring::ring_run(cap, sample_trace(outcomes)),
    decreases outcomes.len(),
{
    if outcomes.len() == 0 {
        assert(series_run(cap, outcomes).samples =~= crate::ring::ring_run(
            cap,
            sample_trace(outcomes),
        ));
    } else {
        lemma_series_run_samples(cap, outcomes.drop_last());
        lemma_series_run(cap, outcomes.drop_last());
        assert(sample_trace(outcomes).drop_last() =~= sample_trace(outcomes.drop_last()));
    }
}

/// One monitored source's series.
pub struct SourceSeries {
    /// The buffered samples, oldest first.
    pub buffer: RingBuffer<Sample>,
    /// How many updates this source has received; strictly increases by one
    /// per update, whatever the outcome.
    pub sequence: u64,
    /// Lower edge of the logical x-axis window.
    pub window_min: u64,
    /// Upper edge of the logical x-axis window.
    pub window_max: u64,
    /// The source's display name.
    pub host: String,
    /// The source's resolved address, as text.
    pub addr: String,
}

impl SourceSeries {
    pub open spec fn cap(&self) -> nat {
        self.buffer.cap()
    }

    /// The abstract state this series is in.
    pub open spec fn model(&self) -> SeriesModel {
        SeriesModel {
            sequence: self.sequence as int,
            window_min: self.window_min as int,
            window_max: self.window_max as int,
            samples: self.buffer@,
        }
    }

    /// Well-formedness: the window envelope tracks the sequence counter
    /// exactly — its upper edge is the sequence number of the newest update,
    /// its width is the number of buffered samples, and the buffered samples
    /// carry consecutive sequence numbers ending at the counter.
    pub open spec fn wf(&self) -> bool {
        &&& self.buffer.wf()
        &&& self.window_max == self.sequence
        &&& self.window_min == self.sequence - self.buffer@.len()
        &&& self.buffer@.len() == vstd::math::min(self.sequence as int, self.cap() as int)
        &&& forall|i: int|
            0 <= i < self.buffer@.len() ==> (#[trigger] self.buffer@[i]).sequence
                == self.sequence - self.buffer@.len() + 1 + i
    }

    pub fn new(capacity: usize) -> (r: Self)
        requires
            capacity >= 1,
        ensures
            r.wf(),
            r.cap() == capacity,
            r.sequence == 0,
            r.window_min == 0,
            r.window_max == 0,
            r.buffer@ == Seq::<Sample>::empty(),
            r.host@ == Seq::<char>::empty(),
            r.addr@ == Seq::<char>::empty(),
    {
        SourceSeries {
            buffer: RingBuffer::new(capacity),
            sequence: 0,
            window_min: 0,
            window_max: 0,
            host: String::new(),
            addr: String::new(),
        }
    }

    /// Record one update outcome: the sequence counter advances by one
    /// whatever the outcome; the window slides forward by one when the buffer
    /// is already full, else only its upper edge advances; and the outcome is
    /// pushed as a sample, a timeout as the value zero.
    pub fn update(&mut self, outcome: Option<u64>)
        requires
            old(self).wf(),
            old(self).sequence < u64::MAX,
        ensures
            final(self).wf(),
            final(self).cap() == old(self).cap(),
            final(self).sequence == old(self).sequence + 1,
            final(self).window_max == old(self).window_max + 1,
            final(self).window_min == if old(self).buffer@.len() == old(self).cap() {
                old(self).window_min + 1
            } else {
                old(self).window_min as int
            },
            final(self).buffer@ == ring_step(
                old(self).cap(),
                old(self).buffer@,
                Sample { sequence: (old(self).sequence + 1) as u64, micros: recorded_micros(outcome) },
            ),
            final(self).host == old(self).host,
            final(self).addr == old(self).addr,
            final(self).model() == series_step(old(self).cap(), old(self).model(), outcome),
    {
        self.sequence = self.sequence + 1;
        if self.buffer.len() == self.buffer.capacity() {
            self.window_min = self.window_min + 1;
            self.window_max = self.window_max + 1;
        } else {
            self.window_max = self.window_max + 1;
        }
        let value = match outcome {
            Some(d) => d,
            None => 0,
        };
        self.buffer.push(Sample { sequence: self.sequence, micros: value });
    }

    /// Law: the window envelope always spans exactly the buffered samples —
    /// its width is the number of updates so far, capped at the capacity, and
    /// its upper edge equals the sequence counter.
    pub proof fn lemma_window_envelope(&self)
        requires
            self.wf(),
        ensures
            self.window_max - self.window_min == vstd::math::min(
                self.sequence as int,
                self.cap() as int,
            ),
            self.window_max == self.sequence,
    {
    }
}

} // verus!
