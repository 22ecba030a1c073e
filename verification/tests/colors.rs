use sidecheck::render::detection;
use sidecheck::report::DetectionReport;
use sidecheck::style::{badge, err_mark, field, ok_mark, rule, title, warn_mark, Badge};

fn colors_on() {
    console::set_colors_enabled(true);
}

#[test]
fn badge_colors_follow_the_kind() {
    colors_on();
    assert_eq!(badge("GOOD", Badge::Success), "\u{1b}[30m\u{1b}[48;5;84m\u{1b}[1m GOOD \u{1b}[0m");
    assert_eq!(badge("FAIR", Badge::Warn), "\u{1b}[30m\u{1b}[48;5;220m\u{1b}[1m FAIR \u{1b}[0m");
    assert_eq!(badge("POOR", Badge::Failure), "\u{1b}[37m\u{1b}[48;5;160m\u{1b}[1m POOR \u{1b}[0m");
}

#[test]
fn marks_and_labels_have_their_colors() {
    colors_on();
    assert_eq!(ok_mark(), "\u{1b}[32m\u{1b}[1m✓\u{1b}[0m");
    assert_eq!(warn_mark(), "\u{1b}[33m\u{1b}[1m⚠\u{1b}[0m");
    assert_eq!(err_mark(), "\u{1b}[31m\u{1b}[1m✗\u{1b}[0m");
    assert_eq!(field("target", 8), "\u{1b}[2mtarget  \u{1b}[0m");
    assert_eq!(title("sidecheck"), "\u{1b}[1msidecheck\u{1b}[0m");
    assert_eq!(rule(3), "\u{1b}[2m───\u{1b}[0m");
}

#[test]
fn leak_headline_is_drawn_as_a_warning() {
    colors_on();
    let r = DetectionReport {
        target: "https://app.local".to_string(),
        field: "header X".to_string(),
        samples_per_class: 200,
        failures: 0,
        significant: true,
        seed: 1,
        sidecheck_version: "0.3.0".to_string(),
        jitter_ms: "0.1".to_string(),
        leak_us: "3.0".to_string(),
        ci_low_us: "1.0".to_string(),
        ci_high_us: "5.0".to_string(),
        confidence_pct: "95.0".to_string(),
        confidence_whole_pct: "95".to_string(),
        jitter: "100 μs".to_string(),
        leak: "3.0 μs".to_string(),
        ci_low: "1.0 μs".to_string(),
        ci_high: "5.0 μs".to_string(),
    };
    let out = detection(&r);
    assert!(out.contains("\u{1b}[33m\u{1b}[1m⚠\u{1b}[0m \u{1b}[33m\u{1b}[1mLEAK DETECTED\u{1b}[0m"));
    assert!(out.contains("\u{1b}[36mhttps://app.local\u{1b}[0m"));
}
