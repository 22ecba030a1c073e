//! Classification of a network path for `doctor`, the pre-flight check
//! that answers whether timing measurement over a path is worth trying.
use vstd::prelude::*;

verus! {

/// Rough jitter class: under 1 ms is a local network or loopback, single
/// milliseconds a datacenter or good LAN, tens of milliseconds the public
/// internet.
#[derive(PartialEq, Eq, Structural, Debug, Clone, Copy)]
pub enum JitterLevel {
    Low,
    Medium,
    High,
}

/// The word for a jitter class.
pub open spec fn jitter_label(level: JitterLevel) -> Seq<char> {
    match level {
        JitterLevel::Low => "low"@,
        JitterLevel::Medium => "medium"@,
        JitterLevel::High => "high"@,
    }
}

impl JitterLevel {
    pub fn label(&self) -> (s: &'static str)
        ensures
            s@ == jitter_label(*self),
    {
        match self {
            JitterLevel::Low => "low",
            JitterLevel::Medium => "medium",
            JitterLevel::High => "high",
        }
    }
}

/// Overall suitability of a path for timing measurement.
#[derive(PartialEq, Eq, Structural, Debug, Clone, Copy)]
pub enum EnvironmentQuality {
    Good,
    Fair,
    Poor,
}

/// The word for a quality grade.
pub open spec fn quality_label(quality: EnvironmentQuality) -> Seq<char> {
    match quality {
        EnvironmentQuality::Good => "GOOD"@,
        EnvironmentQuality::Fair => "FAIR"@,
        EnvironmentQuality::Poor => "POOR"@,
    }
}

impl EnvironmentQuality {
    pub fn label(&self) -> (s: &'static str)
        ensures
            s@ == quality_label(*self),
    {
        match self {
            EnvironmentQuality::Good => "GOOD",
            EnvironmentQuality::Fair => "FAIR",
            EnvironmentQuality::Poor => "POOR",
        }
    }
}

pub open spec fn spec_environment_quality(jitter: JitterLevel, loss_above_limit: bool, any_loss: bool) -> EnvironmentQuality {
    if loss_above_limit {
        EnvironmentQuality::Poor
    } else {
        match jitter {
            JitterLevel::Low => EnvironmentQuality::Good,
            JitterLevel::Medium => if any_loss {
                EnvironmentQuality::Fair
            } else {
                EnvironmentQuality::Good
            },
            JitterLevel::High => EnvironmentQuality::Poor,
        }
    }
}

/// The quality of a path from its jitter class and its packet loss:
/// `loss_above_limit` when more than 5% of the probes were lost,
/// `any_loss` when any was.
pub fn environment_quality(jitter: JitterLevel, loss_above_limit: bool, any_loss: bool) -> (q: EnvironmentQuality)
    ensures
        q == spec_environment_quality(jitter, loss_above_limit, any_loss),
{
    if loss_above_limit {
        return EnvironmentQuality::Poor;
    }
    match jitter {
        JitterLevel::Low => EnvironmentQuality::Good,
        JitterLevel::Medium => {
            if any_loss {
                EnvironmentQuality::Fair
            } else {
                EnvironmentQuality::Good
            }
        },
        JitterLevel::High => EnvironmentQuality::Poor,
    }
}

/// A path is poor whenever too many probes are lost or its jitter is
/// high, and good only with low jitter, or medium jitter and no loss.
pub proof fn lemma_quality_thresholds(jitter: JitterLevel, loss_above_limit: bool, any_loss: bool)
    requires
        loss_above_limit ==> any_loss,
    ensures
        (loss_above_limit || jitter == JitterLevel::High) ==> spec_environment_quality(jitter, loss_above_limit, any_loss)
            == EnvironmentQuality::Poor,
        spec_environment_quality(jitter, loss_above_limit, any_loss) == EnvironmentQuality::Good <==> (!loss_above_limit && (
        jitter == JitterLevel::Low || (jitter == JitterLevel::Medium && !any_loss))),
{
}

} // verus!
