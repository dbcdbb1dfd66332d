//! One cooldown window, shared by all projects, that lets through at most
//! one file change per interval.

use vstd::prelude::*;

verus! {

/// The interval between two checks when none is asked for, in seconds.
pub const DEFAULT_INTERVAL_SECS: u64 = 60;

/// The number of nanoseconds in a second.
pub const NANOS_PER_SECOND: u128 = 1_000_000_000;

/// When a file change was last let through, and how long the next one has
/// to wait. Times are readings of one monotonic clock, in nanoseconds.
#[derive(Clone, Copy, Debug, PartialEq, Eq, Structural)]
pub struct DebounceState {
    /// The time of the last change that was let through, if there was one.
    pub last_fired: Option<u128>,
    /// The time that must have passed since then, in nanoseconds.
    pub interval: u128,
}

impl DebounceState {
    /// Whether a change at `now` is let through: when none was before, or
    /// when more than the interval has passed since the last one that was.
    pub open spec fn accepts(self, now: u128) -> bool {
        match self.last_fired {
            None => true,
            Some(last) => now - last > self.interval,
        }
    }

    /// The state after a change at `now`.
    pub open spec fn after(self, now: u128) -> DebounceState {
        if self.accepts(now) {
            DebounceState { last_fired: Some(now), interval: self.interval }
        } else {
            self
        }
    }

    /// How many of the changes at `times`, taken in order, are let through.
    pub open spec fn accepted(self, times: Seq<u128>) -> nat
        decreases times.len(),
    {
        if times.len() == 0 {
            0
        } else {
            let first: nat = if self.accepts(times[0]) {
                1
            } else {
                0
            };
            first + self.after(times[0]).accepted(times.drop_first())
        }
    }

    /// A state that lets the first change through, whenever it comes, and
    /// then waits `interval_secs` seconds between changes.
    pub fn new(interval_secs: u64) -> (state: DebounceState)
        ensures
            state.last_fired is None,
            state.interval == interval_secs * NANOS_PER_SECOND,
    {
        DebounceState { last_fired: None, interval: interval_secs as u128 * NANOS_PER_SECOND }
    }

    /// Decides on a change at `now`: lets it through and restarts the
    /// window, or drops it and leaves the state as it is.
    pub fn accept(&mut self, now: u128) -> (fired: bool)
        ensures
            fired == old(self).accepts(now),
            *final(self) == old(self).after(now),
    {
        let fired = match self.last_fired {
            None => true,
            Some(last) => now > last && now - last > self.interval,
        };
        if fired {
            self.last_fired = Some(now);
        }
        fired
    }
}

/// Once a change at `last` was let through, none of the changes at `times`
/// is, if each of them comes no more than the interval after `last`.
pub proof fn lemma_window_drops_all(state: DebounceState, times: Seq<u128>)
    requires
        state.last_fired is Some,
        forall|i: int| 0 <= i < times.len() ==> times[i] - state.last_fired->0 <= state.interval,
    ensures
        state.accepted(times) == 0,
    decreases times.len(),
{
    if times.len() > 0 {
        let rest = times.drop_first();
        assert(!state.accepts(times[0]));
        assert forall|i: int| 0 <= i < rest.len() implies rest[i] - state.last_fired->0
            <= state.interval by {
            assert(rest[i] == times[i + 1]);
        }
        lemma_window_drops_all(state, rest);
    }
}

/// Of changes that come no more than the interval apart, whatever their
/// number and whatever the state before them, at most one is let through.
pub proof fn lemma_burst_fires_at_most_once(state: DebounceState, times: Seq<u128>)
    requires
        forall|i: int, j: int| 0 <= i < j < times.len() ==> times[j] - times[i] <= state.interval,
    ensures
        state.accepted(times) <= 1,
    decreases times.len(),
{
    if times.len() > 0 {
        let rest = times.drop_first();
        assert forall|i: int, j: int| 0 <= i < j < rest.len() implies rest[j] - rest[i]
            <= state.interval by {
            assert(rest[i] == times[i + 1] && rest[j] == times[j + 1]);
        }
        if state.accepts(times[0]) {
            let next = state.after(times[0]);
            assert forall|i: int| 0 <= i < rest.len() implies rest[i] - next.last_fired->0
                <= next.interval by {
                assert(rest[i] == times[i + 1]);
            }
            lemma_window_drops_all(next, rest);
        } else {
            lemma_burst_fires_at_most_once(state, rest);
        }
    }
}

} // verus!
