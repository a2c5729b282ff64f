//! A labelled half-open time window `[start, end)` over a fine-grained
//! clock tick, with phase-membership queries against a supplied `now`.

use vstd::prelude::*;

verus! {

use vstd::arithmetic::div_mod::lemma_div_is_ordered;

/// A half-open time window `[start, end)` with a human-readable label.
/// Times are fine-grained clock ticks; the conversion helpers step down
/// to coarser units one factor of 1000 at a time, truncating at each step.
pub struct BallotDuration {
    pub start: u64,
    pub end: u64,
    pub name: String,
}

impl BallotDuration {
    /// A window is well formed when it does not end before it starts.
    pub open spec fn wf(self) -> bool {
        self.start <= self.end
    }

    /// The window contains `now`: `start <= now < end`.
    pub open spec fn active_at(self, now: u64) -> bool {
        self.start <= now && now < self.end
    }

    /// The window lies entirely in the past: `end <= now`.
    pub open spec fn expired_at(self, now: u64) -> bool {
        self.end <= now
    }

    /// The window has not opened yet: `now < start`.
    pub open spec fn in_future_at(self, now: u64) -> bool {
        self.start > now
    }

    pub fn new(start: u64, end: u64, name: Option<String>) -> (r: BallotDuration)
        requires
            start <= end,
        ensures
            r.start == start,
            r.end == end,
            r.wf(),
            (match name {
                Some(n) => r.name == n,
                None => r.name@ == "Duration"@,
            }),
    {
        let label: String = match name {
            Some(n) => n,
            None => String::from_str("Duration"),
        };
        BallotDuration { start, end, name: label }
    }

    pub fn start(&self) -> (r: u64)
        ensures
            r == self.start,
    {
        self.start
    }

    pub fn end(&self) -> (r: u64)
        ensures
            r == self.end,
    {
        self.end
    }

    /// The length of the window.
    pub fn get_duration(&self) -> (r: u64)
        requires
            self.wf(),
        ensures
            r == self.end - self.start,
    {
        self.end - self.start
    }

    pub fn get(self) -> (r: BallotDuration)
        ensures
            r == self,
    {
        self
    }

    /// The same window one unit coarser than micros: both bounds divided
    /// by a further 1000, truncating.
    pub fn to_millis(&self) -> (r: BallotDuration)
        ensures
            r.start == self.start / 1000 / 1000,
            r.end == self.end / 1000 / 1000,
            r.name == self.name,
            self.wf() ==> r.wf(),
    {
        let micros = self.to_micros();
        proof {
            if self.wf() {
                lemma_div_is_ordered(micros.start as int, micros.end as int, 1000);
            }
        }
        BallotDuration {
            start: micros.start / 1000,
            end: micros.end / 1000,
            name: self.name.clone(),
        }
    }

    /// The same window in the next coarser unit: both bounds divided by
    /// 1000, truncating.
    pub fn to_micros(&self) -> (r: BallotDuration)
        ensures
            r.start == self.start / 1000,
            r.end == self.end / 1000,
            r.name == self.name,
            self.wf() ==> r.wf(),
    {
        proof {
            if self.wf() {
                lemma_div_is_ordered(self.start as int, self.end as int, 1000);
            }
        }
        BallotDuration {
            start: self.start / 1000,
            end: self.end / 1000,
            name: self.name.clone(),
        }
    }

    /// The same window coarser again: the millisecond bounds divided by a
    /// further 1000, truncating at each of the three steps.
    pub fn to_seconds(&self) -> (r: BallotDuration)
        ensures
            r.start == self.start / 1000 / 1000 / 1000,
            r.end == self.end / 1000 / 1000 / 1000,
            r.name == self.name,
            self.wf() ==> r.wf(),
    {
        let millis = self.to_millis();
        proof {
            if self.wf() {
                lemma_div_is_ordered(millis.start as int, millis.end as int, 1000);
            }
        }
        BallotDuration {
            start: millis.start / 1000,
            end: millis.end / 1000,
            name: self.name.clone(),
        }
    }

    pub fn is_active(&self, now: u64) -> (r: bool)
        ensures
            r == self.active_at(now),
    {
        self.start <= now && now < self.end
    }

    pub fn is_expired(&self, now: u64) -> (r: bool)
        ensures
            r == self.expired_at(now),
    {
        self.end <= now
    }

    pub fn is_in_future(&self, now: u64) -> (r: bool)
        ensures
            r == self.in_future_at(now),
    {
        self.start > now
    }
}

/// Law: for a well-formed window and any `now`, exactly one of `active_at`,
/// `expired_at` and `in_future_at` holds; in particular at `now == start`
/// of a non-degenerate window it is `active_at` that holds, the other two
/// being false (the start bound is inclusive, the end bound exclusive).
pub proof fn lemma_phase_trichotomy(w: BallotDuration, now: u64)
    requires
        w.wf(),
    ensures
        w.active_at(now) || w.expired_at(now) || w.in_future_at(now),
        w.active_at(now) ==> !w.expired_at(now) && !w.in_future_at(now),
        w.expired_at(now) ==> !w.active_at(now) && !w.in_future_at(now),
        w.in_future_at(now) ==> !w.active_at(now) && !w.expired_at(now),
        now == w.start && w.start < w.end ==> w.active_at(now),
{
}

} // verus!
