use sidecheck::doctor::{EnvironmentQuality, JitterLevel};
use sidecheck::render::{compare, detection, doctor, stability_summary, SavedReport};
use sidecheck::report::{DetectionReport, DoctorReport};
use sidecheck::style::visible_width;

/// Removes ANSI escape sequences, whatever the terminal decided to emit.
fn strip(s: &str) -> String {
    let mut out = String::new();
    let mut in_escape = false;
    for c in s.chars() {
        if in_escape {
            if c == 'm' {
                in_escape = false;
            }
        } else if c == '\u{1b}' {
            in_escape = true;
        } else {
            out.push(c);
        }
    }
    out
}

fn sample_detection(significant: bool, failures: usize) -> DetectionReport {
    DetectionReport {
        target: "https://app.local/login".to_string(),
        field: "header X-Token".to_string(),
        samples_per_class: 12480,
        failures,
        significant,
        seed: 42,
        sidecheck_version: "0.3.0".to_string(),
        jitter_ms: "0.42".to_string(),
        leak_us: "3.7".to_string(),
        ci_low_us: "-1.2".to_string(),
        ci_high_us: "3.4".to_string(),
        confidence_pct: "95.0".to_string(),
        confidence_whole_pct: "95".to_string(),
        jitter: "420.0 μs".to_string(),
        leak: "3.7 μs".to_string(),
        ci_low: "-1.2 μs".to_string(),
        ci_high: "3.4 μs".to_string(),
    }
}

fn sample_doctor(jitter_level: JitterLevel, loss_above_limit: bool, any_loss: bool, recommended: u64) -> DoctorReport {
    DoctorReport {
        target: "https://app.local".to_string(),
        samples: 50,
        median_rtt_ms: "1.3".to_string(),
        jitter_ms: "0.42".to_string(),
        packet_loss_pct: "0.0".to_string(),
        jitter_level,
        loss_above_limit,
        any_loss,
        recommended_samples: recommended,
    }
}

fn saved(significant: bool, leak: &str) -> SavedReport {
    SavedReport {
        target: "https://app.local/login".to_string(),
        injection_point: "header X-Token".to_string(),
        significant,
        sidecheck_version: "0.3.0".to_string(),
        estimated_leak_us: leak.to_string(),
        ci_low_us: "2.1".to_string(),
        ci_high_us: "5.3".to_string(),
    }
}

/// A panel content line as it reads on the screen.
fn row(content: &str) -> String {
    let pad = 52usize.saturating_sub(content.chars().count());
    format!("│ {}{} │\n", content, " ".repeat(pad))
}

#[test]
fn plain_detection_report_with_leak() {
    let r = sample_detection(true, 3);
    let rule = "─".repeat(48);
    let expected = format!(
        "{rule}\nsidecheck timing report\n{rule}\n\ntarget          https://app.local/login\n\
         field            header X-Token\n\
         samples/class    12480\n\
         network jitter   0.42 ms\n\
         failed requests  3 (excluded from analysis)\n\
         \n\
         ⚠ timing leak detected\n  estimated leak   3.7 μs\n  confidence       95.0%\n\
         \n  this endpoint responds measurably differently depending on\n\
         \x20 input correctness. an attacker can exploit this to recover\n\
         \x20 secrets character-by-character instead of brute-forcing them.\n\n\
         \x20 fix: use a constant-time comparison instead of == on secret\n\
         \x20 bytes (e.g. the `subtle` crate in Rust, `crypto/subtle` in Go,\n\
         \x20 `hmac.compare_digest` in Python).\n"
    );
    assert_eq!(r.render(), expected);
}

#[test]
fn plain_detection_report_without_leak() {
    let r = sample_detection(false, 0);
    let rule = "─".repeat(48);
    let expected = format!(
        "{rule}\nsidecheck timing report\n{rule}\n\ntarget          https://app.local/login\n\
         field            header X-Token\n\
         samples/class    12480\n\
         network jitter   0.42 ms\n\
         \n\
         ✓ no statistically significant timing difference detected\n\
         \x20 (95% CI of the difference: [-1.2, 3.4] μs, includes zero)\n"
    );
    assert_eq!(r.render(), expected);
}

#[test]
fn plain_doctor_report_good_path() {
    let r = sample_doctor(JitterLevel::Low, false, false, 1200);
    let rule = "─".repeat(48);
    let expected = format!(
        "{rule}\nsidecheck doctor\n{rule}\n\ntarget                https://app.local\n\
         samples                50\n\n\
         median RTT:            1.3 ms\n\
         RTT jitter:            0.42 ms (low)\n\
         packet loss:           0.0%\n\
         recommended samples:   ~1200 (to reliably detect a ~1μs leak, the\n                       rough scale of a real == vs constant-time bug)\n\
         environment quality:   GOOD\n\
         {rule}\n\
         this path looks suitable for timing measurement. proceed with `sidecheck check`.\n"
    );
    assert_eq!(r.render(), expected);
}

#[test]
fn plain_doctor_report_unbounded_and_poor() {
    let r = sample_doctor(JitterLevel::High, false, false, 50_000_001);
    let text = r.render();
    assert!(text.contains(
        "recommended samples:   effectively unbounded — a ~1μs leak is not\n                       reliably measurable over this path\n"
    ));
    assert!(text.contains("RTT jitter:            0.42 ms (high)\n"));
    assert!(text.contains("environment quality:   POOR\n"));
    assert!(text.ends_with(
        "this path is too noisy/lossy for reliable timing measurement of a realistic-sized leak. \
         this is a property of the network path, not proof the endpoint is safe. test from a \
         lower-latency vantage point (same LAN/datacenter as the target, or from the server \
         itself) if you can.\n"
    ));
    // exactly at the limit the size is still printed
    let at_limit = sample_doctor(JitterLevel::Low, false, false, 50_000_000);
    assert!(at_limit.render().contains("recommended samples:   ~50000000 (to reliably"));
}

#[test]
fn plain_doctor_report_fair_path() {
    let r = sample_doctor(JitterLevel::Medium, false, true, 9000);
    let text = r.render();
    assert!(text.contains("environment quality:   FAIR\n"));
    assert!(text.ends_with(
        "usable, but expect to need a larger sample size for small leaks. `sidecheck check` \
         will size the run automatically based on what it finds.\n"
    ));
}

#[test]
fn doctor_quality_grades() {
    assert_eq!(sample_doctor(JitterLevel::Low, false, false, 0).quality(), EnvironmentQuality::Good);
    assert_eq!(sample_doctor(JitterLevel::Medium, false, false, 0).quality(), EnvironmentQuality::Good);
    assert_eq!(sample_doctor(JitterLevel::Medium, false, true, 0).quality(), EnvironmentQuality::Fair);
    assert_eq!(sample_doctor(JitterLevel::Low, true, true, 0).quality(), EnvironmentQuality::Poor);
    assert_eq!(sample_doctor(JitterLevel::High, false, false, 0).quality(), EnvironmentQuality::Poor);
}

#[test]
fn detection_panel_with_leak() {
    let out = detection(&sample_detection(true, 3));
    let mut expected = format!("╭─ sidecheck timing report {}╮\n", "─".repeat(28));
    expected += &row(&format!("{:<17}https://app.local/login", "target"));
    expected += &row(&format!("{:<17}header X-Token", "field"));
    expected += &row(&format!("{:<17}12480", "samples/class"));
    expected += &row(&format!("{:<17}420.0 μs", "network jitter"));
    expected += &row(&format!("{:<17}3 (excluded from analysis)", "failed requests"));
    expected += &format!("├{}┤\n", "─".repeat(54));
    expected += &row("⚠ LEAK DETECTED");
    expected += &row("");
    expected += &row(&format!("{:<18}3.7 μs", "estimated leak"));
    expected += &row(&format!("{:<18}95.0%", "bootstrap confidence"));
    expected += &row("");
    for l in [
        "this endpoint responds measurably differently",
        "depending on input correctness. an attacker can",
        "exploit this to recover secrets",
        "character-by-character instead of brute-forcing",
        "them.",
    ] {
        expected += &row(l);
    }
    expected += &row("");
    for l in [
        "fix: use a constant-time comparison instead of == on",
        "secret bytes (e.g. the subtle crate in Rust,",
        "crypto/subtle in Go, hmac.compare_digest in Python).",
    ] {
        expected += &row(l);
    }
    expected += &format!("╰{}╯\n", "─".repeat(54));
    expected += "sidecheck cannot prove the absence of a timing leak — only detect a statistically \
                 significant one under the tested conditions. A clean result here is not a safety \
                 guarantee.\n";
    expected += "generated by sidecheck 0.3.0 · seed 42 (rerun with --seed 42 to reproduce request order)\n";
    assert_eq!(strip(&out), expected);
}

#[test]
fn detection_panel_without_leak() {
    let out = strip(&detection(&sample_detection(false, 0)));
    assert!(!out.contains("failed requests"));
    let mut body = row("✓ NO LEAK");
    body += &row("no statistically significant timing difference detected");
    body += &row("");
    body += &row("bootstrap 95% CI of the difference: [-1.2 μs, 3.4");
    body += &row("μs] — includes zero");
    let divider = format!("├{}┤\n", "─".repeat(54));
    let bottom = format!("╰{}╯\n", "─".repeat(54));
    assert!(out.contains(&format!("{divider}{body}{bottom}")));
}

#[test]
fn detection_panel_lines_align() {
    for significant in [true, false] {
        let out = detection(&sample_detection(significant, 7));
        let lines: Vec<&str> = out.split('\n').collect();
        // every line of the panel, up to and including its bottom border
        let bottom = lines.iter().position(|l| strip(l).starts_with('╰')).unwrap();
        for l in &lines[..=bottom] {
            // this sentence is wider than the panel and is not wrapped
            let expected = if strip(l).contains("no statistically significant") { 59 } else { 56 };
            assert_eq!(visible_width(l), expected, "line {:?}", strip(l));
        }
    }
}

#[test]
fn doctor_table_sizes_its_value_column() {
    let out = strip(&doctor(&sample_doctor(JitterLevel::Low, false, false, 1200)));
    // the widest cell is "0.42 ms (low)"... or the target, 17 columns
    let col2 = 17;
    let mut expected = format!("╭{}┬{}╮\n", "─".repeat(22), "─".repeat(col2 + 2));
    for (label, value) in [
        ("target", "https://app.local"),
        ("samples", "50"),
        ("median RTT", "1.3 ms"),
        ("RTT jitter", "0.42 ms (low)"),
        ("packet loss", "0.0%"),
        ("recommended samples", "~1200"),
        ("environment quality", " GOOD "),
    ] {
        expected += &format!("│ {:<20} │ {:<17} │\n", label, value);
    }
    expected += &format!("╰{}┴{}╯\n", "─".repeat(22), "─".repeat(col2 + 2));
    expected += "✓ this path looks suitable for timing measurement. proceed with `sidecheck check`.\n";
    assert_eq!(out, expected);
}

#[test]
fn doctor_table_unbounded_and_poor() {
    let out = strip(&doctor(&sample_doctor(JitterLevel::High, false, false, 60_000_000)));
    let width = "effectively unbounded — not reliably measurable".chars().count();
    assert!(out.starts_with(&format!("╭{}┬{}╮\n", "─".repeat(22), "─".repeat(width + 2))));
    assert!(out.contains(&format!(
        "│ {:<20} │ effectively unbounded — not reliably measurable │\n",
        "recommended samples"
    )));
    assert!(out.contains(&format!("│ {:<20} │ {:<width$} │\n", "environment quality", " POOR ")));
    assert!(out.ends_with(
        "⚠ this path is too noisy/lossy for reliable timing measurement of a realistic-sized \
         leak. this is a property of the network path, not proof the endpoint is safe. test \
         from a lower-latency vantage point (same LAN/datacenter as the target, or from the \
         server itself) if you can.\n"
    ));
}

#[test]
fn doctor_table_minimum_value_width() {
    let mut r = sample_doctor(JitterLevel::Medium, false, true, 5);
    r.target = "h".to_string();
    r.jitter_ms = "1".to_string();
    let out = strip(&doctor(&r));
    // "1 ms (medium)" is 13 columns; the floor of 10 does not apply
    assert!(out.starts_with(&format!("╭{}┬{}╮\n", "─".repeat(22), "─".repeat(15))));
    assert!(out.ends_with(
        "usable, but expect to need a larger sample size for small leaks. `sidecheck check` \
         will size the run automatically based on what it finds.\n"
    ));
}

fn compare_head(base: &str, cur: &str) -> String {
    let rule = "─".repeat(48);
    format!(
        "{rule}\nsidecheck compare\n\n{:<18}https://app.local/login\n{:<18}header X-Token\n\
         {:<18}{base} (sidecheck 0.3.0)\n{:<18}{cur} (sidecheck 0.3.0)\n{rule}\n",
        "target", "field", "baseline", "current"
    )
}

#[test]
fn compare_reports_a_regression() {
    let out = strip(&compare(&saved(false, "0.4"), &saved(true, "3.7")));
    let rule = "─".repeat(48);
    let expected = format!(
        "{}✗ regression: no leak in the baseline, but a significant one now\n  {:<16}3.7 μs (95% CI [2.1, 5.3] μs)\n\n\
         this change appears to have introduced a timing leak that wasn't\nthere before.\n{rule}\n{rule}\n",
        compare_head("clean", "leak detected"),
        "estimated leak"
    );
    assert_eq!(out, expected);
}

#[test]
fn compare_reports_an_improvement() {
    let out = strip(&compare(&saved(true, "3.7"), &saved(false, "0.4")));
    let rule = "─".repeat(48);
    let expected = format!(
        "{}✓ improved: the baseline's leak is no longer significant.\n  \
         (still verify this is a real fix, not just a noisier run —\n  see docs/limitations.md on what a clean result does and doesn't mean)\n{rule}\n",
        compare_head("leak detected", "clean")
    );
    assert_eq!(out, expected);
}

#[test]
fn compare_reports_a_persisting_leak() {
    let out = strip(&compare(&saved(true, "3.7"), &saved(true, "4.1")));
    let rule = "─".repeat(48);
    let expected = format!(
        "{}⚠ leak present in both baseline and current — not flagged as a NEW\n  regression by this comparison, but it's still an existing problem.\n  \
         {:<16}3.7 μs\n  {:<16}4.1 μs\n{rule}\n",
        compare_head("leak detected", "leak detected"),
        "baseline leak",
        "current leak"
    );
    assert_eq!(out, expected);
}

#[test]
fn compare_reports_no_leak() {
    let out = strip(&compare(&saved(false, "0.4"), &saved(false, "0.2")));
    let rule = "─".repeat(48);
    let expected = format!("{}✓ no leak in baseline or current.\n{rule}\n", compare_head("clean", "clean"));
    assert_eq!(out, expected);
}

fn summary_head(runs: usize, significant: usize) -> String {
    let rule = "─".repeat(48);
    format!(
        "\n{rule}\nstability summary across {runs} runs\n{rule}\n\nsignificant in {significant}/{runs} runs\n\
         {:<17}mean 3.0 μs · range [2.0 μs, 4.0 μs] · std dev 0.8 μs\n\n",
        "estimated leak"
    )
}

#[test]
fn stability_summary_consistently_clean() {
    let out = strip(&stability_summary(&vec![false, false, false], true, "3.0 μs", "2.0 μs", "4.0 μs", "0.8 μs"));
    assert_eq!(
        out,
        format!("{}✓ consistently no significant difference across 3 runs.\n", summary_head(3, 0))
    );
}

#[test]
fn stability_summary_consistently_significant() {
    let out = strip(&stability_summary(&vec![true, true], false, "3.0 μs", "2.0 μs", "4.0 μs", "0.8 μs"));
    assert_eq!(
        out,
        format!("{}✓ consistently significant with a stable magnitude across runs.\n", summary_head(2, 2))
    );
}

#[test]
fn stability_summary_unstable_magnitude() {
    let out = strip(&stability_summary(&vec![true, true], true, "3.0 μs", "2.0 μs", "4.0 μs", "0.8 μs"));
    assert_eq!(
        out,
        format!(
            "{}⚠ all runs found a significant effect, but its magnitude varies substantially between \
             runs (std dev is more than half the mean) — the direction is consistent, but don't treat \
             any single run's exact number as precise.\n",
            summary_head(2, 2)
        )
    );
}

#[test]
fn stability_summary_inconsistent() {
    let out = strip(&stability_summary(&vec![true, false, true, false], false, "3.0 μs", "2.0 μs", "4.0 μs", "0.8 μs"));
    assert_eq!(
        out,
        format!(
            "{}⚠ significance is inconsistent across runs (2/4 found a signal) — likely sitting right \
             at the edge of detectability with this sample size; more samples per run would give a \
             more decisive answer.\n",
            summary_head(4, 2)
        )
    );
}
