//! How many requests per class a check run makes.
use vstd::prelude::*;

verus! {

/// Minimum samples per class: below this the low percentile is
/// statistically shaky even when the power estimate says fewer would do.
pub const MIN_SAMPLES: usize = 200;

/// Samples per class when the pilot batch found no measurable difference.
pub const NO_EFFECT_SAMPLES: usize = 5000;

/// The sample size chosen for a run, and how it was arrived at.
#[derive(PartialEq, Eq, Structural, Debug, Clone, Copy)]
pub enum SamplePlan {
    /// `--samples` was given; raised to the minimum if below it. The
    /// ceiling does not stop such a run, but when the pilot's estimate
    /// exceeds it, `heads_up` carries that estimate so that the same
    /// time and power warning is still shown.
    Explicit { samples: usize, heads_up: Option<u64> },
    /// The pilot found no measurable difference: the default size.
    NoPilotEffect { samples: usize },
    /// The effect is so large that the minimum is enough.
    Floor { samples: usize },
    /// The power estimate, within the ceiling.
    Estimated { samples: usize },
    /// The power estimate exceeds the ceiling and the run was not forced:
    /// stop before measuring.
    TooNoisy { needed: u64, capped: usize },
    /// The power estimate exceeds the ceiling but the run was forced: run
    /// the capped size.
    TooNoisyForced { needed: u64, capped: usize },
}

pub open spec fn max_usize(a: usize, b: usize) -> usize {
    if a >= b {
        a
    } else {
        b
    }
}

impl SamplePlan {
    /// The number of samples per class to measure, or `None` when the run
    /// stops instead.
    pub open spec fn spec_samples(self) -> Option<usize> {
        match self {
            SamplePlan::Explicit { samples, .. } => Some(samples),
            SamplePlan::NoPilotEffect { samples } => Some(samples),
            SamplePlan::Floor { samples } => Some(samples),
            SamplePlan::Estimated { samples } => Some(samples),
            SamplePlan::TooNoisy { .. } => None,
            SamplePlan::TooNoisyForced { capped, .. } => Some(capped),
        }
    }

    pub fn samples(&self) -> (r: Option<usize>)
        ensures
            r == self.spec_samples(),
    {
        match self {
            SamplePlan::Explicit { samples, .. } => Some(*samples),
            SamplePlan::NoPilotEffect { samples } => Some(*samples),
            SamplePlan::Floor { samples } => Some(*samples),
            SamplePlan::Estimated { samples } => Some(*samples),
            SamplePlan::TooNoisy { .. } => None,
            SamplePlan::TooNoisyForced { capped, .. } => Some(*capped),
        }
    }
}

/// The pilot's estimate, when it exceeds the ceiling.
pub open spec fn over_ceiling(needed: Option<u64>, max_samples: usize) -> Option<u64> {
    match needed {
        Some(k) => if k > max_samples as u64 {
            Some(k)
        } else {
            None
        },
        None => None,
    }
}

/// The plan a run follows, as a function of its inputs.
/// `explicit` is `--samples`; `needed` is `None` when the pilot found no
/// measurable difference, and otherwise the power-analysis estimate of
/// samples per class for the pilot's effect; `max_samples` is the ceiling
/// for an estimated size; `force` proceeds past the ceiling.
pub open spec fn spec_plan(explicit: Option<usize>, needed: Option<u64>, max_samples: usize, force: bool) -> SamplePlan {
    match explicit {
        Some(n) => SamplePlan::Explicit { samples: max_usize(n, MIN_SAMPLES), heads_up: over_ceiling(needed, max_samples) },
        None => match needed {
            None => SamplePlan::NoPilotEffect { samples: max_usize(MIN_SAMPLES, NO_EFFECT_SAMPLES) },
            Some(needed) => if needed > max_samples as u64 {
                if force {
                    SamplePlan::TooNoisyForced { needed, capped: max_usize(max_samples, MIN_SAMPLES) }
                } else {
                    SamplePlan::TooNoisy { needed, capped: max_usize(max_samples, MIN_SAMPLES) }
                }
            } else if needed < MIN_SAMPLES as u64 {
                SamplePlan::Floor { samples: MIN_SAMPLES }
            } else {
                SamplePlan::Estimated { samples: needed as usize }
            },
        },
    }
}

/// Chooses the sample size of a run in one pass, so that one coherent
/// message can explain it.
pub fn plan_sample_size(explicit: Option<usize>, needed: Option<u64>, max_samples: usize, force: bool) -> (plan: SamplePlan)
    ensures
        plan == spec_plan(explicit, needed, max_samples, force),
{
    match explicit {
        Some(n) => {
            let heads_up = match needed {
                Some(k) => if k > max_samples as u64 {
                    Some(k)
                } else {
                    None
                },
                None => None,
            };
            SamplePlan::Explicit { samples: if n >= MIN_SAMPLES { n } else { MIN_SAMPLES }, heads_up }
        },
        None => match needed {
            None => SamplePlan::NoPilotEffect { samples: if MIN_SAMPLES >= NO_EFFECT_SAMPLES { MIN_SAMPLES } else { NO_EFFECT_SAMPLES } },
            Some(needed) => {
                if needed > max_samples as u64 {
                    let capped = if max_samples >= MIN_SAMPLES { max_samples } else { MIN_SAMPLES };
                    if force {
                        SamplePlan::TooNoisyForced { needed, capped }
                    } else {
                        SamplePlan::TooNoisy { needed, capped }
                    }
                } else if needed < MIN_SAMPLES as u64 {
                    SamplePlan::Floor { samples: MIN_SAMPLES }
                } else {
                    SamplePlan::Estimated { samples: needed as usize }
                }
            },
        },
    }
}

/// Every run that goes ahead measures at least `MIN_SAMPLES` per class; a
/// size chosen from the pilot never exceeds the larger of the ceiling and
/// `MIN_SAMPLES` (or is the fixed default when the pilot saw nothing); and
/// a run stops before measuring exactly when no size was given, the
/// estimate exceeds the ceiling and the run was not forced.
pub proof fn lemma_plan_bounds(explicit: Option<usize>, needed: Option<u64>, max_samples: usize, force: bool)
    ensures
        ({
            let plan = spec_plan(explicit, needed, max_samples, force);
            &&& plan.spec_samples() matches Some(n) ==> n >= MIN_SAMPLES
            &&& (explicit is None && needed is Some) ==> (plan.spec_samples() matches Some(n) ==> n <= max_usize(max_samples, MIN_SAMPLES))
            &&& (explicit is None && needed is None) ==> plan.spec_samples() == Some(NO_EFFECT_SAMPLES)
            &&& explicit matches Some(n) ==> plan.spec_samples() == Some(max_usize(n, MIN_SAMPLES))
            &&& (plan.spec_samples() is None) <==> (explicit is None && needed is Some && needed.unwrap() > max_samples as u64 && !force)
        }),
{
}

/// Without an explicit size, a pilot estimate that lies between the
/// floor and the ceiling is measured exactly: the run takes that many
/// samples per class, no fewer and no more. The floor replaces an
/// estimate only when the estimate is below it, and then raises it; an
/// estimate within the ceiling is never cut.
pub proof fn lemma_plan_follows_estimate(needed: u64, max_samples: usize, force: bool)
    ensures
        (MIN_SAMPLES as u64 <= needed && needed <= max_samples as u64) ==> spec_plan(
            None,
            Some(needed),
            max_samples,
            force,
        ).spec_samples() == Some(needed as usize),
        (needed < MIN_SAMPLES as u64 && needed <= max_samples as u64) ==> (spec_plan(None, Some(needed), max_samples, force).spec_samples()
            matches Some(n) && n >= needed),
        forall|explicit: Option<usize>, nd: Option<u64>|
            #[trigger] spec_plan(explicit, nd, max_samples, force) is Floor ==> (explicit is None && (nd matches Some(k)
                && k < MIN_SAMPLES as u64)),
{
}

} // verus!
