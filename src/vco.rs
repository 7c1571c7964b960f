//! The flow-controlled kernel of a frequency-modulated oscillator.
//!
//! Phases are fixed point: a full cycle is the whole range of `i32`, so adding
//! a phase increment wraps exactly as the phase does modulo one cycle. The
//! kernel decides how many samples one invocation handles, which phase each
//! output sample is drawn from, and when the stream is over; turning a control
//! sample into a phase increment and a phase into a complex sample is done by
//! the caller.

use vstd::prelude::*;

verus! {

/// A running fixed-point phase advanced by a per-sample increment.
#[derive(Clone, Copy, Debug, PartialEq, Eq, Structural)]
pub struct PhaseAccumulator {
    /// The current phase.
    pub phase: i32,
    /// The increment that the next `step` adds.
    pub frequency: i32,
}

impl PhaseAccumulator {
    pub fn new(phase: i32, frequency: i32) -> (r: Self)
        ensures
            r.phase == phase,
            r.frequency == frequency,
    {
        PhaseAccumulator { phase, frequency }
    }

    /// Replaces the increment; the phase is untouched until the next `step`.
    pub fn set_freq(&mut self, frequency: i32)
        ensures
            final(self).phase == old(self).phase,
            final(self).frequency == frequency,
    {
        self.frequency = frequency;
    }

    /// Advances the phase by the increment, modulo one cycle.
    pub fn step(&mut self)
        ensures
            final(self).phase == old(self).phase.wrapping_add(old(self).frequency),
            final(self).frequency == old(self).frequency,
    {
        self.phase = self.phase.wrapping_add(self.frequency);
    }
}

/// The phase reached from `start` after the first `k` increments of `incs`.
pub open spec fn phase_at(start: i32, incs: Seq<i32>, k: nat) -> i32
    decreases k,
{
    if k == 0 {
        start
    } else {
        phase_at(start, incs, (k - 1) as nat).wrapping_add(incs[k - 1])
    }
}

/// The phases that the first `n` output samples are drawn from: sample `k` uses
/// the phase before the increment read at index `k` is applied.
pub open spec fn phase_trace(start: i32, incs: Seq<i32>, n: nat) -> Seq<i32> {
    Seq::new(n, |k: int| phase_at(start, incs, k as nat))
}

/// The number of samples one invocation handles.
pub open spec fn batch_len(available: nat, capacity: nat) -> nat {
    if available < capacity {
        available
    } else {
        capacity
    }
}

/// The accumulator after `n` samples: each sample sets the increment it read,
/// then steps.
pub open spec fn accumulator_after(acc: PhaseAccumulator, incs: Seq<i32>, n: nat) -> PhaseAccumulator {
    PhaseAccumulator {
        phase: phase_at(acc.phase, incs, n),
        frequency: if n == 0 {
            acc.frequency
        } else {
            incs[n - 1]
        },
    }
}

/// Whether an invocation ends the stream for good: the input is exhausted, all
/// of it was taken, and the output window was not filled.
pub open spec fn ends_stream(input_finished: bool, consumed: nat, available: nat, capacity: nat) -> bool {
    input_finished && consumed == available && consumed < capacity
}

/// What one invocation of the kernel reports.
#[derive(Clone, Copy, Debug, PartialEq, Eq, Structural)]
pub struct WorkReport {
    /// Input samples taken.
    pub consumed: usize,
    /// Output samples written.
    pub produced: usize,
    /// No later invocation can make progress.
    pub finished: bool,
}

/// The oscillator's state, owned by one block for its whole life.
pub struct FmOscillator {
    pub nco: PhaseAccumulator,
}

impl FmOscillator {
    pub fn new(nco: PhaseAccumulator) -> (r: Self)
        ensures
            r.nco == nco,
    {
        FmOscillator { nco }
    }

    /// One invocation on a window of phase increments (one per available control
    /// sample) and an output window of `out_capacity` slots. Returns, for each
    /// output sample written, the phase it is drawn from.
    pub fn work(&mut self, increments: &[i32], input_finished: bool, out_capacity: usize) -> (r: (
        Vec<i32>,
        WorkReport,
    ))
        ensures
            r.1.consumed == batch_len(increments@.len(), out_capacity as nat),
            r.1.produced == r.1.consumed,
            r.0@ == phase_trace(old(self).nco.phase, increments@, r.1.produced as nat),
            final(self).nco == accumulator_after(old(self).nco, increments@, r.1.consumed as nat),
            r.1.finished == ends_stream(
                input_finished,
                r.1.consumed as nat,
                increments@.len(),
                out_capacity as nat,
            ),
    {
        let n: usize = if increments.len() < out_capacity {
            increments.len()
        } else {
            out_capacity
        };
        let ghost start = self.nco;
        let mut phases: Vec<i32> = Vec::new();
        let mut consumed: usize = 0;
        while consumed < n
            invariant
                n == batch_len(increments@.len(), out_capacity as nat),
                consumed <= n,
                phases@ == phase_trace(start.phase, increments@, consumed as nat),
                self.nco == accumulator_after(start, increments@, consumed as nat),
            decreases n - consumed,
        {
            phases.push(self.nco.phase);
            self.nco.set_freq(increments[consumed]);
            self.nco.step();
            consumed = consumed + 1;
            assert(phases@ =~= phase_trace(start.phase, increments@, consumed as nat));
        }
        let finished = input_finished && consumed == increments.len() && consumed < out_capacity;
        (phases, WorkReport { consumed, produced: consumed, finished })
    }
}

/// With every increment zero, the phase never moves: every output sample is
/// drawn from the starting phase, and the accumulator keeps it.
pub proof fn lemma_zero_increments_hold_phase(start: i32, incs: Seq<i32>, n: nat)
    requires
        n <= incs.len(),
        forall|j: int| 0 <= j < incs.len() ==> incs[j] == 0,
    ensures
        phase_at(start, incs, n) == start,
        phase_trace(start, incs, n) == Seq::new(n, |k: int| start),
    decreases n,
{
    if n > 0 {
        lemma_zero_increments_hold_phase(start, incs, (n - 1) as nat);
    }
    assert forall|k: int| 0 <= k < n implies #[trigger] phase_at(start, incs, k as nat) == start by {
        lemma_zero_increments_hold_phase(start, incs, k as nat);
    }
    assert(phase_trace(start, incs, n) =~= Seq::new(n, |k: int| start));
}

/// One invocation's inputs: the increments available, whether the input is
/// exhausted, and the output capacity.
pub struct Invocation {
    pub increments: Seq<i32>,
    pub input_finished: bool,
    pub capacity: nat,
}

/// The report of one invocation, as `FmOscillator::work` gives it.
pub open spec fn report_of(c: Invocation) -> WorkReport {
    let n = batch_len(c.increments.len(), c.capacity);
    WorkReport {
        consumed: n as usize,
        produced: n as usize,
        finished: ends_stream(c.input_finished, n, c.increments.len(), c.capacity),
    }
}

/// The output phases and reports of a sequence of invocations, started from `acc`.
pub open spec fn run(acc: PhaseAccumulator, calls: Seq<Invocation>) -> Seq<(Seq<i32>, WorkReport)>
    decreases calls.len(),
{
    if calls.len() == 0 {
        seq![]
    } else {
        let c = calls[0];
        let n = batch_len(c.increments.len(), c.capacity);
        seq![(phase_trace(acc.phase, c.increments, n), report_of(c))] + run(
            accumulator_after(acc, c.increments, n),
            calls.drop_first(),
        )
    }
}

/// Two oscillators that start at the same phase and are fed the same increments
/// through the same invocations give the same outputs and reports, whatever
/// their starting increments: each sample sets the increment before stepping.
pub proof fn lemma_deterministic(a: PhaseAccumulator, b: PhaseAccumulator, calls: Seq<Invocation>)
    requires
        a.phase == b.phase,
    ensures
        run(a, calls) == run(b, calls),
    decreases calls.len(),
{
    if calls.len() > 0 {
        let c = calls[0];
        let n = batch_len(c.increments.len(), c.capacity);
        lemma_deterministic(
            accumulator_after(a, c.increments, n),
            accumulator_after(b, c.increments, n),
            calls.drop_first(),
        );
    }
}

} // verus!
