//! Plain-text reports: the detection verdict and the `doctor` summary,
//! without color. The measured quantities arrive already written out as
//! text; what is shown, in which order and under which condition is
//! decided here.
use vstd::prelude::*;
use crate::ansi::repeated;
use crate::args::{decimal, decimal_string, decimal_u64};
use crate::doctor::{
    environment_quality, jitter_label, quality_label, spec_environment_quality, EnvironmentQuality,
    JitterLevel,
};
use crate::text::repeat_char;

verus! {

/// The outcome of one detection run, its measured quantities written out
/// as the reports print them.
pub struct DetectionReport {
    pub target: String,
    pub field: String,
    pub samples_per_class: usize,
    pub failures: usize,
    pub significant: bool,
    pub seed: u64,
    pub sidecheck_version: String,
    /// Network jitter in milliseconds, two decimals.
    pub jitter_ms: String,
    /// Absolute estimated leak in microseconds, one decimal.
    pub leak_us: String,
    /// Bounds of the confidence interval in microseconds, one decimal.
    pub ci_low_us: String,
    pub ci_high_us: String,
    /// Bootstrap confidence in percent, one decimal.
    pub confidence_pct: String,
    /// Bootstrap confidence in percent, no decimals.
    pub confidence_whole_pct: String,
    /// Network jitter with its unit (ns, μs, ms or s).
    pub jitter: String,
    /// Absolute estimated leak with its unit.
    pub leak: String,
    /// Bounds of the confidence interval with their unit.
    pub ci_low: String,
    pub ci_high: String,
}

/// The run's parameters, as the plain report lists them.
pub open spec fn plain_head(r: DetectionReport) -> Seq<char> {
    repeated('─', 48) + "\nsidecheck timing report\n"@ + repeated('─', 48)
        + "\n\ntarget          "@ + r.target@ + "\n"@
        + "field            "@ + r.field@ + "\n"@
        + "samples/class    "@ + decimal(r.samples_per_class as nat) + "\n"@
        + "network jitter   "@ + r.jitter_ms@ + " ms\n"@
}

/// The failed requests, when there were any.
pub open spec fn plain_failures(r: DetectionReport) -> Seq<char> {
    if r.failures > 0 {
        "failed requests  "@ + decimal(r.failures as nat) + " (excluded from analysis)\n"@
    } else {
        Seq::empty()
    }
}

/// The verdict, as the plain report words it.
pub open spec fn plain_verdict(r: DetectionReport) -> Seq<char> {
    if r.significant {
        "⚠ timing leak detected\n"@
            + "  estimated leak   "@ + r.leak_us@ + " μs\n"@
            + "  confidence       "@ + r.confidence_pct@ + "%\n"@
            + leak_advice()
    } else {
        "✓ no statistically significant timing difference detected\n"@
            + "  (95% CI of the difference: ["@ + r.ci_low_us@ + ", "@ + r.ci_high_us@
            + "] μs, includes zero)\n"@
    }
}

/// The plain detection report, line by line.
pub open spec fn detection_text(r: DetectionReport) -> Seq<char> {
    plain_head(r) + plain_failures(r) + "\n"@ + plain_verdict(r)
}

/// What a leak means and how it is fixed, as the plain report words it.
pub open spec fn leak_advice() -> Seq<char> {
    "\n  this endpoint responds measurably differently depending on\n"@
        + "  input correctness. an attacker can exploit this to recover\n"@
        + "  secrets character-by-character instead of brute-forcing them.\n\n"@
        + "  fix: use a constant-time comparison instead of == on secret\n"@
        + "  bytes (e.g. the `subtle` crate in Rust, `crypto/subtle` in Go,\n"@
        + "  `hmac.compare_digest` in Python).\n"@
}

impl DetectionReport {
    /// The verdict as plain text: the run's parameters, then either the
    /// leak with its size and what to do about it, or the confidence
    /// interval that includes zero.
    pub fn render(&self) -> (out: String)
        ensures
            out@ == detection_text(*self),
    {
        let mut out = repeat_char('─', 48);
        out.append("\nsidecheck timing report\n");
        let rule = repeat_char('─', 48);
        out.append(rule.as_str());
        out.append("\n\ntarget          ");
        out.append(self.target.as_str());
        out.append("\n");
        out.append("field            ");
        out.append(self.field.as_str());
        out.append("\n");
        out.append("samples/class    ");
        let samples = decimal_string(self.samples_per_class);
        out.append(samples.as_str());
        out.append("\n");
        out.append("network jitter   ");
        out.append(self.jitter_ms.as_str());
        out.append(" ms\n");
        let failures_line = if self.failures > 0 {
            let mut line = String::from_str("failed requests  ");
            let failures = decimal_string(self.failures);
            line.append(failures.as_str());
            line.append(" (excluded from analysis)\n");
            line
        } else {
            String::new()
        };
        out.append(failures_line.as_str());
        out.append("\n");
        let verdict = if self.significant {
            let mut v = String::from_str("⚠ timing leak detected\n");
            v.append("  estimated leak   ");
            v.append(self.leak_us.as_str());
            v.append(" μs\n");
            v.append("  confidence       ");
            v.append(self.confidence_pct.as_str());
            v.append("%\n");
            let advice = leak_advice_text();
            v.append(advice.as_str());
            v
        } else {
            let mut v = String::from_str("✓ no statistically significant timing difference detected\n");
            v.append("  (95% CI of the difference: [");
            v.append(self.ci_low_us.as_str());
            v.append(", ");
            v.append(self.ci_high_us.as_str());
            v.append("] μs, includes zero)\n");
            v
        };
        out.append(verdict.as_str());
        out
    }
}

fn leak_advice_text() -> (s: String)
    ensures
        s@ == leak_advice(),
{
    let mut s = String::from_str("\n  this endpoint responds measurably differently depending on\n");
    s.append("  input correctness. an attacker can exploit this to recover\n");
    s.append("  secrets character-by-character instead of brute-forcing them.\n\n");
    s.append("  fix: use a constant-time comparison instead of == on secret\n");
    s.append("  bytes (e.g. the `subtle` crate in Rust, `crypto/subtle` in Go,\n");
    s.append("  `hmac.compare_digest` in Python).\n");
    s
}

/// The outcome of `doctor`'s probes of a path, its measured quantities
/// written out as the reports print them, and their classification.
pub struct DoctorReport {
    pub target: String,
    pub samples: usize,
    /// Median round-trip time in milliseconds, one decimal.
    pub median_rtt_ms: String,
    /// Round-trip jitter in milliseconds, two decimals.
    pub jitter_ms: String,
    /// Share of lost probes in percent, one decimal.
    pub packet_loss_pct: String,
    pub jitter_level: JitterLevel,
    /// More than 5% of the probes were lost.
    pub loss_above_limit: bool,
    /// At least one probe was lost.
    pub any_loss: bool,
    pub recommended_samples: u64,
}

/// Above this many samples per class a leak of the typical size is not
/// reliably measurable over the path.
pub const UNBOUNDED_SAMPLES: u64 = 50_000_000;

pub open spec fn doctor_quality(r: DoctorReport) -> EnvironmentQuality {
    spec_environment_quality(r.jitter_level, r.loss_above_limit, r.any_loss)
}

/// The line on the recommended sample size.
pub open spec fn recommendation_text(recommended: u64) -> Seq<char> {
    if recommended > UNBOUNDED_SAMPLES {
        "recommended samples:   effectively unbounded — a ~1μs leak is not\n                       reliably measurable over this path\n"@
    } else {
        "recommended samples:   ~"@ + decimal(recommended as nat)
            + " (to reliably detect a ~1μs leak, the\n                       rough scale of a real == vs constant-time bug)\n"@
    }
}

/// What to do next, by quality grade.
pub open spec fn quality_advice(quality: EnvironmentQuality) -> Seq<char> {
    match quality {
        EnvironmentQuality::Good => "this path looks suitable for timing measurement. proceed with `sidecheck check`.\n"@,
        EnvironmentQuality::Fair => "usable, but expect to need a larger sample size for small leaks. \
                     `sidecheck check` will size the run automatically based on what it finds.\n"@,
        EnvironmentQuality::Poor => "this path is too noisy/lossy for reliable timing measurement of a \
                     realistic-sized leak. this is a property of the network path, not proof \
                     the endpoint is safe. test from a lower-latency vantage point (same \
                     LAN/datacenter as the target, or from the server itself) if you can.\n"@,
    }
}

/// The plain `doctor` summary, line by line.
pub open spec fn doctor_text(r: DoctorReport) -> Seq<char> {
    repeated('─', 48) + "\nsidecheck doctor\n"@ + repeated('─', 48)
        + "\n\ntarget                "@ + r.target@ + "\n"@
        + "samples                "@ + decimal(r.samples as nat) + "\n\n"@
        + "median RTT:            "@ + r.median_rtt_ms@ + " ms\n"@
        + "RTT jitter:            "@ + r.jitter_ms@ + " ms ("@ + jitter_label(r.jitter_level) + ")\n"@
        + "packet loss:           "@ + r.packet_loss_pct@ + "%\n"@
        + recommendation_text(r.recommended_samples)
        + "environment quality:   "@ + quality_label(doctor_quality(r)) + "\n"@
        + repeated('─', 48) + "\n"@
        + quality_advice(doctor_quality(r))
}

fn recommendation(recommended: u64) -> (s: String)
    ensures
        s@ == recommendation_text(recommended),
{
    if recommended > UNBOUNDED_SAMPLES {
        String::from_str("recommended samples:   effectively unbounded — a ~1μs leak is not\n                       reliably measurable over this path\n")
    } else {
        let mut s = String::from_str("recommended samples:   ~");
        let n = decimal_u64(recommended);
        s.append(n.as_str());
        s.append(" (to reliably detect a ~1μs leak, the\n                       rough scale of a real == vs constant-time bug)\n");
        s
    }
}

fn advice(quality: EnvironmentQuality) -> (s: &'static str)
    ensures
        s@ == quality_advice(quality),
{
    match quality {
        EnvironmentQuality::Good => "this path looks suitable for timing measurement. proceed with `sidecheck check`.\n",
        EnvironmentQuality::Fair => "usable, but expect to need a larger sample size for small leaks. \
                     `sidecheck check` will size the run automatically based on what it finds.\n",
        EnvironmentQuality::Poor => "this path is too noisy/lossy for reliable timing measurement of a \
                     realistic-sized leak. this is a property of the network path, not proof \
                     the endpoint is safe. test from a lower-latency vantage point (same \
                     LAN/datacenter as the target, or from the server itself) if you can.\n",
    }
}

impl DoctorReport {
    /// The path's grade: poor when more than 5% of the probes were lost or
    /// the jitter is high; good with low jitter, or medium jitter and no
    /// loss; fair otherwise.
    pub fn quality(&self) -> (q: EnvironmentQuality)
        ensures
            q == doctor_quality(*self),
    {
        environment_quality(self.jitter_level, self.loss_above_limit, self.any_loss)
    }

    /// The summary as plain text: the measurements, the recommended
    /// sample size, the grade and the advice that goes with it.
    pub fn render(&self) -> (out: String)
        ensures
            out@ == doctor_text(*self),
    {
        let quality = self.quality();
        let mut out = repeat_char('─', 48);
        out.append("\nsidecheck doctor\n");
        let rule = repeat_char('─', 48);
        out.append(rule.as_str());
        out.append("\n\ntarget                ");
        out.append(self.target.as_str());
        out.append("\n");
        out.append("samples                ");
        let samples = decimal_string(self.samples);
        out.append(samples.as_str());
        out.append("\n\n");
        out.append("median RTT:            ");
        out.append(self.median_rtt_ms.as_str());
        out.append(" ms\n");
        out.append("RTT jitter:            ");
        out.append(self.jitter_ms.as_str());
        out.append(" ms (");
        out.append(self.jitter_level.label());
        out.append(")\n");
        out.append("packet loss:           ");
        out.append(self.packet_loss_pct.as_str());
        out.append("%\n");
        let rec = recommendation(self.recommended_samples);
        out.append(rec.as_str());
        out.append("environment quality:   ");
        out.append(quality.label());
        out.append("\n");
        out.append(rule.as_str());
        out.append("\n");
        out.append(advice(quality));
        out
    }
}

} // verus!
