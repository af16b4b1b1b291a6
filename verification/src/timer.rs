//! One-shot countdown timers driven by per-tick time deltas.
//!
//! A timer accumulates elapsed milliseconds up to its duration and reports
//! expiry exactly once: `just_fired` is true only on the tick whose delta
//! carried the accumulated time across the duration.  Lifespans of attacks,
//! wind-up delays of pending attacks and condition stacks are all built on
//! this type.

use vstd::prelude::*;

verus! {

/// A one-shot countdown.  `elapsed_ms` never exceeds `duration_ms`; `fired`
/// records that the countdown has completed, `just_fired` that it completed
/// on the most recent tick.
#[derive(Clone, Copy, PartialEq, Eq, Structural, Debug)]
pub struct Timer {
    pub duration_ms: u64,
    pub elapsed_ms: u64,
    pub fired: bool,
    pub just_fired: bool,
}

impl Timer {
    /// A timer as `new` returns it: nothing elapsed, nothing reported.
    pub open spec fn fresh_spec(duration_ms: u64) -> Timer {
        Timer { duration_ms, elapsed_ms: 0, fired: false, just_fired: false }
    }

    /// Internal consistency: elapsed time is capped at the duration, and the
    /// one-shot flags are ordered (`just_fired` implies `fired`, `fired`
    /// implies the countdown is used up).
    pub open spec fn wf(self) -> bool {
        &&& self.elapsed_ms <= self.duration_ms
        &&& (self.fired ==> self.elapsed_ms == self.duration_ms)
        &&& (self.just_fired ==> self.fired)
    }

    /// The value of a timer after one tick of `delta_ms` milliseconds.
    pub open spec fn tick_spec(self, delta_ms: u64) -> Timer {
        let done = self.elapsed_ms + delta_ms >= self.duration_ms;
        Timer {
            duration_ms: self.duration_ms,
            elapsed_ms: if done {
                self.duration_ms
            } else {
                (self.elapsed_ms + delta_ms) as u64
            },
            fired: self.fired || done,
            just_fired: !self.fired && done,
        }
    }

    pub fn new(duration_ms: u64) -> (r: Timer)
        ensures
            r == Timer::fresh_spec(duration_ms),
            r.wf(),
    {
        Timer { duration_ms, elapsed_ms: 0, fired: false, just_fired: false }
    }

    /// Advance the countdown by `delta_ms`.
    pub fn tick(&mut self, delta_ms: u64)
        ensures
            *final(self) == old(self).tick_spec(delta_ms),
            old(self).wf() ==> final(self).wf(),
    {
        let remaining = if self.elapsed_ms <= self.duration_ms {
            self.duration_ms - self.elapsed_ms
        } else {
            0
        };
        let done = delta_ms >= remaining;
        self.just_fired = !self.fired && done;
        self.fired = self.fired || done;
        self.elapsed_ms = if done {
            self.duration_ms
        } else {
            self.elapsed_ms + delta_ms
        };
    }

    pub fn finished(&self) -> (r: bool)
        ensures
            r == self.fired,
    {
        self.fired
    }

    pub fn just_finished(&self) -> (r: bool)
        ensures
            r == self.just_fired,
    {
        self.just_fired
    }
}

/// The value of a timer after a whole sequence of ticks.
pub open spec fn ticked(t: Timer, deltas: Seq<u64>) -> Timer
    decreases deltas.len(),
{
    if deltas.len() == 0 {
        t
    } else {
        ticked(t.tick_spec(deltas[0]), deltas.drop_first())
    }
}

/// Total simulated time of a sequence of tick deltas.
pub open spec fn delta_sum(deltas: Seq<u64>) -> int
    decreases deltas.len(),
{
    if deltas.len() == 0 {
        0
    } else {
        deltas[0] + delta_sum(deltas.drop_first())
    }
}

/// How many of the ticks in `deltas` report expiry of `t`.
pub open spec fn fire_count(t: Timer, deltas: Seq<u64>) -> int
    decreases deltas.len(),
{
    if deltas.len() == 0 {
        0
    } else {
        (if t.tick_spec(deltas[0]).just_fired { 1int } else { 0int })
            + fire_count(t.tick_spec(deltas[0]), deltas.drop_first())
    }
}

/// Expiry tracks accumulated time exactly: a timer that has seen total time
/// `s` has fired if and only if `s` reached its duration, and its elapsed
/// clock is the total time capped at the duration.  Stated for any starting
/// point that itself looks like a timer that has seen `s` of time.
proof fn lemma_ticked_tracks_sum(t: Timer, deltas: Seq<u64>, s: int)
    requires
        s >= 0,
        t.elapsed_ms == if s >= t.duration_ms { t.duration_ms as int } else { s },
        t.fired == (s >= t.duration_ms),
    ensures
        ticked(t, deltas).duration_ms == t.duration_ms,
        ticked(t, deltas).elapsed_ms == if s + delta_sum(deltas) >= t.duration_ms {
            t.duration_ms as int
        } else {
            s + delta_sum(deltas)
        },
        ticked(t, deltas).fired == (s + delta_sum(deltas) >= t.duration_ms),
    decreases deltas.len(),
{
    if deltas.len() > 0 {
        lemma_delta_sum_nonneg(deltas.drop_first());
        lemma_ticked_tracks_sum(t.tick_spec(deltas[0]), deltas.drop_first(), s + deltas[0]);
    }
}

/// The total of a delta sequence is never negative.
pub proof fn lemma_delta_sum_nonneg(deltas: Seq<u64>)
    ensures
        delta_sum(deltas) >= 0,
    decreases deltas.len(),
{
    if deltas.len() > 0 {
        lemma_delta_sum_nonneg(deltas.drop_first());
    }
}

/// Lifespan termination: a fresh timer of positive duration `d`, driven by
/// any sequence of tick deltas, has expired exactly when the total simulated
/// time has reached `d` — at time >= `d`, and never before.
pub proof fn lemma_lifespan_termination(d: u64, deltas: Seq<u64>)
    requires
        d > 0,
    ensures
        ticked(Timer::fresh_spec(d), deltas).fired <==> delta_sum(deltas) >= d,
{
    lemma_ticked_tracks_sum(Timer::fresh_spec(d), deltas, 0);
}

/// A timer that has fired stays fired through any further ticks.
pub proof fn lemma_fired_monotonic(t: Timer, deltas: Seq<u64>)
    requires
        t.fired,
    ensures
        ticked(t, deltas).fired,
    decreases deltas.len(),
{
    if deltas.len() > 0 {
        lemma_fired_monotonic(t.tick_spec(deltas[0]), deltas.drop_first());
    }
}

/// Once a timer has fired it stays fired, so expiry is reported at most
/// once: over any run of ticks the number of `just_fired` reports is one
/// when the timer crossed its duration during the run and zero otherwise.
pub proof fn lemma_fires_at_most_once(t: Timer, deltas: Seq<u64>)
    ensures
        fire_count(t, deltas) == if ticked(t, deltas).fired && !t.fired { 1int } else { 0int },
    decreases deltas.len(),
{
    if deltas.len() > 0 {
        let t1 = t.tick_spec(deltas[0]);
        if t1.fired {
            lemma_fired_monotonic(t1, deltas.drop_first());
        }
        lemma_fires_at_most_once(t1, deltas.drop_first());
    }
}

/// Exactly one expiry report for a fresh timer of positive duration whose
/// duration the run reaches, none for a run that falls short.
pub proof fn lemma_fires_exactly_once(d: u64, deltas: Seq<u64>)
    requires
        d > 0,
    ensures
        fire_count(Timer::fresh_spec(d), deltas) == if delta_sum(deltas) >= d { 1int } else { 0int },
{
    lemma_fires_at_most_once(Timer::fresh_spec(d), deltas);
    lemma_lifespan_termination(d, deltas);
}

} // verus!
