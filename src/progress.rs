use std::collections::VecDeque;
use vstd::prelude::*;

verus! {

/// When a change of progress is reported.
#[derive(Clone, Copy, Debug, PartialEq, Eq, Structural)]
pub enum ProgressUpdateCondition {
    /// Whenever the progress ratio `current / target` reaches a new multiple of the given step.
    OnPercentageChanged(StepFraction),
    /// Whenever the raw progress value reaches a new multiple of the given value.
    OnProgressChanged(u64),
}

/// A step given as the fraction `num / den`.
#[derive(Clone, Copy, Debug, PartialEq, Eq, Structural)]
pub struct StepFraction {
    pub num: u64,
    pub den: u64,
}

/// A status line to report: the progress, its target, and the estimated time remaining in
/// milliseconds where it is known.
#[derive(Clone, Copy, Debug, PartialEq, Eq, Structural)]
pub struct ProgressStatus {
    pub progress: u64,
    pub target: u64,
    pub eta_millis: Option<u128>,
}

/// A progress sample: the progress value and the time it was reached, in milliseconds.
pub type Sample = (u64, u64);

/// The number of recent samples from which throughput is estimated.
pub const MAX_THROUGHPUT_ENTRIES: usize = 32;

/// Tracks progress towards a target, deciding when to report and estimating the time left.
#[derive(Debug)]
pub struct ProgressTracker {
    current_progress: u64,
    target_progress: u64,
    update_condition: ProgressUpdateCondition,
    last_n_progresses: VecDeque<Sample>,
}

/// The state of a tracker.
pub struct ProgressView {
    pub current: u64,
    pub target: u64,
    pub condition: ProgressUpdateCondition,
    pub samples: Seq<Sample>,
}

impl View for ProgressTracker {
    type V = ProgressView;

    closed spec fn view(&self) -> ProgressView {
        ProgressView {
            current: self.current_progress,
            target: self.target_progress,
            condition: self.update_condition,
            samples: self.last_n_progresses@,
        }
    }
}

/// The samples after recording `s`: the oldest is dropped when the window is full.
pub open spec fn record_sample(samples: Seq<Sample>, s: Sample) -> Seq<Sample> {
    if samples.len() >= MAX_THROUGHPUT_ENTRIES {
        samples.drop_first().push(s)
    } else {
        samples.push(s)
    }
}

/// Time left, in milliseconds, to cover `remaining` progress at the throughput between the
/// oldest and the newest sample; unknown with fewer than two samples or no progress between them.
pub open spec fn eta_millis(samples: Seq<Sample>, remaining: int) -> Option<u128> {
    if samples.len() < 2 {
        None
    } else {
        let oldest = samples[0];
        let newest = samples.last();
        let dt = if newest.1 >= oldest.1 {
            newest.1 - oldest.1
        } else {
            0int
        };
        if newest.0 > oldest.0 {
            Some((remaining * dt / (newest.0 - oldest.0)) as u128)
        } else {
            None
        }
    }
}

/// The number of whole steps that progress `p` has reached under the given condition:
/// `floor((p / target) / (num / den))` for a ratio step, `floor(p / step)` for a raw one.
pub open spec fn steps_reached(c: ProgressUpdateCondition, p: int, target: int) -> int {
    match c {
        ProgressUpdateCondition::OnPercentageChanged(f) => (p * f.den) / (target * f.num),
        ProgressUpdateCondition::OnProgressChanged(step) => p / step as int,
    }
}

/// The condition's step is positive and finite.
pub open spec fn step_is_positive(c: ProgressUpdateCondition) -> bool {
    match c {
        ProgressUpdateCondition::OnPercentageChanged(f) => f.num > 0 && f.den > 0,
        ProgressUpdateCondition::OnProgressChanged(step) => step > 0,
    }
}

/// Whether moving from `old_p` to `new_p` reaches a new step of the condition.
pub open spec fn crosses_step(c: ProgressUpdateCondition, old_p: int, new_p: int, target: int) -> bool {
    step_is_positive(c) && steps_reached(c, old_p, target) < steps_reached(c, new_p, target)
}

/// The status line for the state `v`.
pub open spec fn status_of(v: ProgressView) -> ProgressStatus {
    ProgressStatus {
        progress: v.current,
        target: v.target,
        eta_millis: eta_millis(v.samples, v.target - v.current),
    }
}

impl ProgressTracker {
    /// The tracker's invariant: progress within the target, at most a window of samples.
    pub closed spec fn well_formed(&self) -> bool {
        &&& self.current_progress <= self.target_progress
        &&& self.last_n_progresses@.len() <= MAX_THROUGHPUT_ENTRIES
    }

    /// A tracker at progress zero towards `target_progress`.
    pub fn new(target_progress: u64, update_condition: ProgressUpdateCondition) -> (r: Self)
        ensures
            r.well_formed(),
            r@.current == 0,
            r@.target == target_progress,
            r@.condition == update_condition,
            r@.samples.len() == 0,
    {
        ProgressTracker {
            current_progress: 0,
            target_progress,
            update_condition,
            last_n_progresses: VecDeque::new(),
        }
    }

    /// The progress reached so far.
    pub fn current_progress(&self) -> (r: u64)
        ensures
            r == self@.current,
    {
        self.current_progress
    }

    /// The progress to reach.
    pub fn target_progress(&self) -> (r: u64)
        ensures
            r == self@.target,
    {
        self.target_progress
    }

    /// Records progress `new_progress` reached at `now_millis` and estimates the time left.
    fn calculate_throughput(&mut self, new_progress: u64, now_millis: u64) -> (r: Option<u128>)
        requires
            old(self).well_formed(),
            new_progress <= old(self)@.target,
        ensures
            final(self).well_formed(),
            final(self)@ == (ProgressView {
                samples: record_sample(old(self)@.samples, (new_progress, now_millis)),
                ..old(self)@
            }),
            r == eta_millis(final(self)@.samples, final(self)@.target - new_progress),
    {
        if self.last_n_progresses.len() == MAX_THROUGHPUT_ENTRIES {
            self.last_n_progresses.pop_front();
        }
        self.last_n_progresses.push_back((new_progress, now_millis));
        let n = self.last_n_progresses.len();
        if n < 2 {
            return None;
        }
        let oldest = self.last_n_progresses[0];
        let newest = self.last_n_progresses[n - 1];
        let dt: u64 = if newest.1 >= oldest.1 {
            newest.1 - oldest.1
        } else {
            0
        };
        if newest.0 > oldest.0 {
            let remaining = (self.target_progress - new_progress) as u128;
            assert(remaining * (dt as u128) <= u128::MAX) by (nonlinear_arith)
                requires
                    remaining <= u64::MAX,
                    dt <= u64::MAX,
            ;
            Some(remaining * (dt as u128) / ((newest.0 - oldest.0) as u128))
        } else {
            None
        }
    }

    /// Adds `increment` to the progress, clamped to the target, and returns the status line to
    /// report, if any. Nothing changes once the target is reached.
    pub fn inc_progress(&mut self, increment: u64, now_millis: u64) -> (r: Option<ProgressStatus>)
        requires
            old(self).well_formed(),
        ensures
            final(self).well_formed(),
            old(self)@.current == old(self)@.target ==> final(self)@ == old(self)@ && r is None,
            old(self)@.current < old(self)@.target ==> {
                let new_p = if old(self)@.current + increment >= old(self)@.target {
                    old(self)@.target
                } else {
                    (old(self)@.current + increment) as u64
                };
                &&& final(self)@ == (ProgressView {
                    current: new_p,
                    samples: record_sample(old(self)@.samples, (new_p, now_millis)),
                    ..old(self)@
                })
                &&& r == if new_p == old(self)@.target || crosses_step(
                    old(self)@.condition,
                    old(self)@.current as int,
                    new_p as int,
                    old(self)@.target as int,
                ) {
                    Some(status_of(final(self)@))
                } else {
                    None::<ProgressStatus>
                }
            },
    {
        if self.current_progress == self.target_progress {
            return None;
        }
        let old_progress = self.current_progress;
        if increment >= self.target_progress - self.current_progress {
            let target = self.target_progress;
            self.current_progress = target;
            let eta = self.calculate_throughput(target, now_millis);
            return Some(ProgressStatus { progress: target, target, eta_millis: eta });
        }
        let new_progress = self.current_progress + increment;
        self.current_progress = new_progress;
        let eta = self.calculate_throughput(new_progress, now_millis);
        let report = match self.update_condition {
            ProgressUpdateCondition::OnPercentageChanged(f) => {
                if f.num == 0 || f.den == 0 {
                    false
                } else {
                    let tp = self.target_progress as u128;
                    let num = f.num as u128;
                    let den = f.den as u128;
                    let op = old_progress as u128;
                    let np = new_progress as u128;
                    assert(0 < tp * num <= u128::MAX && op * den <= u128::MAX && np * den
                        <= u128::MAX) by (nonlinear_arith)
                        requires
                            0 < tp <= u64::MAX,
                            0 < num <= u64::MAX,
                            den <= u64::MAX,
                            op <= u64::MAX,
                            np <= u64::MAX,
                    ;
                    let t = tp * num;
                    (op * den) / t < (np * den) / t
                }
            },
            ProgressUpdateCondition::OnProgressChanged(step) => {
                step != 0 && old_progress / step < new_progress / step
            },
        };
        if report {
            Some(ProgressStatus { progress: new_progress, target: self.target_progress, eta_millis: eta })
        } else {
            None
        }
    }
}

/// The time left is unknown before two samples are recorded, and known once the newest sample
/// has more progress than the oldest.
pub proof fn lemma_eta_known(samples: Seq<Sample>, remaining: int)
    ensures
        samples.len() < 2 ==> eta_millis(samples, remaining) is None,
        samples.len() >= 2 && samples.last().0 > samples[0].0 ==> eta_millis(samples, remaining) is Some,
{
}

} // verus!
