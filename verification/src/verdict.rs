//! Verdicts drawn from significance flags: comparing a baseline report
//! with a current one, and the stability of repeated runs.
use vstd::prelude::*;

verus! {

/// Outcome of comparing a baseline report with a current one.
#[derive(PartialEq, Eq, Structural, Debug, Clone, Copy)]
pub enum CompareVerdict {
    /// No leak in the baseline, a significant one now: the change
    /// introduced it.
    Regression,
    /// The baseline's leak is no longer significant.
    Improved,
    /// A leak in both: pre-existing, not blamed on this change.
    Persisting,
    /// No leak in either.
    Clean,
}

pub open spec fn spec_compare_verdict(baseline_significant: bool, current_significant: bool) -> CompareVerdict {
    if !baseline_significant && current_significant {
        CompareVerdict::Regression
    } else if baseline_significant && !current_significant {
        CompareVerdict::Improved
    } else if baseline_significant && current_significant {
        CompareVerdict::Persisting
    } else {
        CompareVerdict::Clean
    }
}

pub fn compare_verdict(baseline_significant: bool, current_significant: bool) -> (v: CompareVerdict)
    ensures
        v == spec_compare_verdict(baseline_significant, current_significant),
{
    if !baseline_significant && current_significant {
        CompareVerdict::Regression
    } else if baseline_significant && !current_significant {
        CompareVerdict::Improved
    } else if baseline_significant && current_significant {
        CompareVerdict::Persisting
    } else {
        CompareVerdict::Clean
    }
}

/// `true` when the comparison is a hard regression: the baseline was clean
/// and the current run is not. This decides a failing exit status.
pub fn compare_is_regression(baseline_significant: bool, current_significant: bool) -> (r: bool)
    ensures
        r == (!baseline_significant && current_significant),
{
    !baseline_significant && current_significant
}

/// A comparison fails a build only on a new leak: the verdict is a
/// regression exactly when the baseline was clean and the current run is
/// not, so a pre-existing leak never counts as one.
pub proof fn lemma_regression_only_on_new_leak(baseline_significant: bool, current_significant: bool)
    ensures
        (spec_compare_verdict(baseline_significant, current_significant) == CompareVerdict::Regression)
            <==> (!baseline_significant && current_significant),
        baseline_significant ==> spec_compare_verdict(baseline_significant, current_significant)
            != CompareVerdict::Regression,
{
}

/// Number of `true` flags.
pub open spec fn count_true(flags: Seq<bool>) -> nat
    decreases flags.len(),
{
    if flags.len() == 0 {
        0
    } else {
        count_true(flags.drop_last()) + if flags.last() {
            1nat
        } else {
            0nat
        }
    }
}

pub proof fn lemma_count_true_bound(flags: Seq<bool>)
    ensures
        count_true(flags) <= flags.len(),
    decreases flags.len(),
{
    if flags.len() > 0 {
        lemma_count_true_bound(flags.drop_last());
    }
}

/// How many runs found a significant effect.
pub fn count_significant(flags: &Vec<bool>) -> (n: usize)
    ensures
        n == count_true(flags@),
{
    let mut n: usize = 0;
    let mut i: usize = 0;
    while i < flags.len()
        invariant
            i <= flags@.len(),
            n == count_true(flags@.take(i as int)),
            n <= i,
        decreases flags@.len() - i,
    {
        proof {
            assert(flags@.take(i + 1).drop_last() == flags@.take(i as int));
        }
        if flags[i] {
            n = n + 1;
        }
        i = i + 1;
    }
    proof {
        assert(flags@.take(flags@.len() as int) == flags@);
    }
    n
}

/// How stable the significance verdict and the estimate were across
/// repeated runs.
#[derive(PartialEq, Eq, Structural, Debug, Clone, Copy)]
pub enum StabilityVerdict {
    /// No run found a significant difference.
    ConsistentlyClean,
    /// Every run was significant and the magnitude held steady.
    ConsistentlySignificant,
    /// Every run was significant but the magnitude varied a lot.
    SignificantButUnstable,
    /// Some runs were significant and some were not.
    Inconsistent,
}

pub open spec fn spec_stability_verdict(significant_runs: nat, runs: nat, magnitude_unstable: bool) -> StabilityVerdict {
    if significant_runs == 0 {
        StabilityVerdict::ConsistentlyClean
    } else if significant_runs == runs {
        if magnitude_unstable {
            StabilityVerdict::SignificantButUnstable
        } else {
            StabilityVerdict::ConsistentlySignificant
        }
    } else {
        StabilityVerdict::Inconsistent
    }
}

/// Agreement on significance is judged first; only when every run is
/// significant does the spread of the magnitude (`magnitude_unstable`:
/// standard deviation above half the absolute mean) matter.
pub fn stability_verdict(significant_runs: usize, runs: usize, magnitude_unstable: bool) -> (v: StabilityVerdict)
    ensures
        v == spec_stability_verdict(significant_runs as nat, runs as nat, magnitude_unstable),
{
    if significant_runs == 0 {
        StabilityVerdict::ConsistentlyClean
    } else if significant_runs == runs {
        if magnitude_unstable {
            StabilityVerdict::SignificantButUnstable
        } else {
            StabilityVerdict::ConsistentlySignificant
        }
    } else {
        StabilityVerdict::Inconsistent
    }
}

/// Significance agreement outranks the spread of the estimate: the
/// magnitude never changes a verdict unless every run was significant,
/// and mixed significance is always reported as inconsistent.
pub proof fn lemma_significance_before_magnitude(flags: Seq<bool>, unstable: bool)
    requires
        flags.len() > 0,
    ensures
        count_true(flags) < flags.len() ==> spec_stability_verdict(count_true(flags), flags.len(), unstable)
            == spec_stability_verdict(count_true(flags), flags.len(), !unstable),
        (0 < count_true(flags) < flags.len()) ==> spec_stability_verdict(count_true(flags), flags.len(), unstable)
            == StabilityVerdict::Inconsistent,
{
}

} // verus!
