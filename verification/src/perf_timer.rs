//! A stopwatch with named milestones.

use std::time::Instant;

use vstd::prelude::*;

verus! {

/// A point in time of the monotonic clock.
#[verifier::external_type_specification]
#[verifier::external_body]
pub struct ExInstant(Instant);

/// `Instant::now`: the present moment. Nothing is known of it.
#[verifier::external_body]
fn now() -> Instant {
    Instant::now()
}

/// `Instant::elapsed`, in whole nanoseconds: the time that has passed since
/// `start`. Nothing is known of it: it is whatever the clock says.
#[verifier::external_body]
fn elapsed_nanos(start: &Instant) -> u128 {
    start.elapsed().as_nanos()
}

/// Whether no milestone lies before the one that was added before it.
pub open spec fn in_order(milestones: Seq<(&'static str, u128)>) -> bool {
    forall|index: int| 0 < index < milestones.len() ==> milestones[index - 1].1 <= (
    #[trigger] milestones[index]).1
}

/// The time between milestone `index` and the one before it; for the first
/// milestone, the time since the start.
pub open spec fn lap(milestones: Seq<(&'static str, u128)>, index: int) -> int {
    if index == 0 {
        milestones[index].1 as int
    } else {
        milestones[index].1 - milestones[index - 1].1
    }
}

/// A stopwatch: the moment it was started, and the milestones reached since,
/// each with its name and the nanoseconds from the start to it.
#[derive(Debug)]
pub struct PerfTimer {
    pub start_instant: Instant,
    pub milestones: Vec<(&'static str, u128)>,
}

impl PerfTimer {
    /// A stopwatch started now, without milestones.
    pub fn new() -> (timer: PerfTimer)
        ensures
            timer.milestones@.len() == 0,
    {
        PerfTimer { start_instant: now(), milestones: Vec::new() }
    }

    /// Adds a milestone with the time that has passed since the start.
    pub fn add_milestone(&mut self, name: &'static str)
        ensures
            final(self).start_instant == old(self).start_instant,
            final(self).milestones@.len() == old(self).milestones@.len() + 1,
            final(self).milestones@.drop_last() == old(self).milestones@,
            final(self).milestones@.last().0 == name,
    {
        let elapsed = elapsed_nanos(&self.start_instant);
        self.record(name, elapsed);
    }

    /// Adds a milestone that was reached `elapsed` nanoseconds after the
    /// start.
    pub fn record(&mut self, name: &'static str, elapsed: u128)
        ensures
            final(self).start_instant == old(self).start_instant,
            final(self).milestones@ == old(self).milestones@.push((name, elapsed)),
    {
        self.milestones.push((name, elapsed));
    }

    /// Whether the milestones are in the order of their times, as
    /// `durations` needs them.
    pub fn milestones_in_order(&self) -> (ordered: bool)
        ensures
            ordered == in_order(self.milestones@),
    {
        let mut index: usize = 1;
        while index < self.milestones.len()
            invariant
                1 <= index,
                forall|at: int|
                    0 < at < index && at < self.milestones@.len() ==> self.milestones@[at - 1].1
                        <= (#[trigger] self.milestones@[at]).1,
            decreases self.milestones@.len() - index,
        {
            if self.milestones[index - 1].1 > self.milestones[index].1 {
                return false;
            }
            index = index + 1;
        }
        true
    }

    /// The time that each milestone took: from the milestone before it, or
    /// from the start for the first.
    pub fn durations(&self) -> (laps: Vec<(&'static str, u128)>)
        requires
            in_order(self.milestones@),
        ensures
            laps@.len() == self.milestones@.len(),
            forall|index: int|
                0 <= index < laps@.len() ==> (#[trigger] laps@[index]).0
                    == self.milestones@[index].0 && laps@[index].1 == lap(
                    self.milestones@,
                    index,
                ),
    {
        let mut prev_duration: u128 = 0;
        let mut durations: Vec<(&'static str, u128)> = Vec::new();
        let mut index: usize = 0;
        while index < self.milestones.len()
            invariant
                index <= self.milestones@.len(),
                in_order(self.milestones@),
                durations@.len() == index,
                prev_duration == if index == 0 {
                    0
                } else {
                    self.milestones@[index - 1].1
                },
                forall|at: int|
                    0 <= at < index ==> (#[trigger] durations@[at]).0 == self.milestones@[at].0
                        && durations@[at].1 == lap(self.milestones@, at),
            decreases self.milestones@.len() - index,
        {
            let (name, duration) = self.milestones[index];
            let current_duration = duration - prev_duration;
            durations.push((name, current_duration));
            prev_duration = duration;
            index = index + 1;
        }
        durations
    }
}

} // verus!
