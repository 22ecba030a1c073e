use rand::rngs::StdRng;
use rand::SeedableRng;
use sidecheck::args::{decimal_string, parse_extra_headers, run_name, split_once, suffix_path};
use sidecheck::doctor::{environment_quality, EnvironmentQuality, JitterLevel};
use sidecheck::injection::{injection_from_args, request_body, InjectionArgsError, InjectionPoint};
use sidecheck::plan::{plan_sample_size, SamplePlan, MIN_SAMPLES, NO_EFFECT_SAMPLES};
use sidecheck::sampler::{random_wrong_value, InterleaveSchedule, RecordOutcome};
use sidecheck::stats::{resample, BOOTSTRAP_ITERATIONS};
use sidecheck::text::{split_whitespace, trim_line_ending};
use sidecheck::verdict::{
    compare_is_regression, compare_verdict, count_significant, stability_verdict, CompareVerdict,
    StabilityVerdict,
};

#[test]
fn extra_headers_split_on_the_first_equals_sign() {
    let raw = vec!["Cookie=session=abc123".to_string(), "X-CSRF-Token=xyz".to_string()];
    let pairs = parse_extra_headers(&raw).ok().unwrap();
    assert_eq!(
        pairs,
        vec![
            ("Cookie".to_string(), "session=abc123".to_string()),
            ("X-CSRF-Token".to_string(), "xyz".to_string())
        ]
    );
    let empty_value = parse_extra_headers(&vec!["X-Empty=".to_string()]).ok().unwrap();
    assert_eq!(empty_value, vec![("X-Empty".to_string(), String::new())]);
}

#[test]
fn extra_headers_report_the_first_malformed_entry() {
    let raw = vec!["A=1".to_string(), "broken".to_string(), "also broken".to_string()];
    let err = parse_extra_headers(&raw).err().unwrap();
    assert_eq!(err.entry, "broken");
}

#[test]
fn split_once_behaves_like_str_split_once() {
    assert_eq!(split_once("a=b=c", '='), Some(("a".to_string(), "b=c".to_string())));
    assert_eq!(split_once("=x", '='), Some((String::new(), "x".to_string())));
    assert_eq!(split_once("none", '='), None);
}

#[test]
fn suffix_path_inserts_the_run_number() {
    assert_eq!(suffix_path("report.json", 1, 0), "report.json");
    assert_eq!(suffix_path("report.json", 0, 0), "report.json");
    assert_eq!(suffix_path("report.json", 3, 0), "report-run1.json");
    assert_eq!(suffix_path("out/raw.csv", 2, 4), "out/raw-run5.csv");
    assert_eq!(suffix_path("results", 2, 1), "results-run2");
    assert_eq!(suffix_path("a.tar.gz", 2, 0), "a.tar-run1.gz");
}

#[test]
fn decimal_notation() {
    assert_eq!(decimal_string(0), "0");
    assert_eq!(decimal_string(7), "7");
    assert_eq!(decimal_string(1234), "1234");
    assert_eq!(decimal_string(usize::MAX), usize::MAX.to_string());
}

#[test]
fn stdin_line_endings_are_trimmed() {
    assert_eq!(trim_line_ending("secret\n"), "secret");
    assert_eq!(trim_line_ending("secret\r\n"), "secret");
    assert_eq!(trim_line_ending("a\nb\n\r\n"), "a\nb");
    assert_eq!(trim_line_ending("no newline"), "no newline");
    assert_eq!(trim_line_ending("\n\n"), "");
    assert_eq!(trim_line_ending(" keep spaces \n"), " keep spaces ");
}

#[test]
fn whitespace_splitting() {
    assert_eq!(split_whitespace("  a  b\tc\n"), vec!["a", "b", "c"]);
    assert_eq!(split_whitespace("x\u{3000}y\u{a0}z"), vec!["x", "y", "z"]);
    assert!(split_whitespace(" \t ").is_empty());
}

#[test]
fn wrong_value_matches_length_and_differs() {
    let mut rng = StdRng::seed_from_u64(42);
    for secret in ["correct-secret-key-123456", "a", "AAAA", "пароль"] {
        let wrong = random_wrong_value(secret, &mut rng);
        assert_eq!(wrong.chars().count(), secret.len());
        assert_eq!(wrong.len(), secret.len());
        assert_ne!(wrong, secret);
        assert!(wrong.chars().all(|c| c.is_ascii_alphanumeric()));
    }
}

#[test]
fn wrong_value_is_reproducible_from_the_seed() {
    let mut r1 = StdRng::seed_from_u64(7);
    let mut r2 = StdRng::seed_from_u64(7);
    assert_eq!(random_wrong_value("my-secret", &mut r1), random_wrong_value("my-secret", &mut r2));
}

/// Runs a schedule to the end, recording `fail(i)` for the i-th request;
/// returns the order of classes and the final outcome.
fn drive(n: usize, block: usize, fail: impl Fn(usize) -> bool) -> (Vec<bool>, Option<(usize, usize)>) {
    let mut rng = StdRng::seed_from_u64(1);
    let mut s = InterleaveSchedule::new(n, block);
    let mut order = Vec::new();
    let mut i = 0;
    while let Some(is_a) = s.next_request(&mut rng) {
        order.push(is_a);
        match s.record(!fail(i)) {
            RecordOutcome::Continue => {}
            RecordOutcome::Abort { failures, attempted } => return (order, Some((failures, attempted))),
        }
        i += 1;
    }
    (order, None)
}

#[test]
fn schedule_sends_each_class_exactly_n_times() {
    let (order, abort) = drive(53, 20, |_| false);
    assert!(abort.is_none());
    assert_eq!(order.len(), 106);
    assert_eq!(order.iter().filter(|a| **a).count(), 53);
    assert_eq!(order.iter().filter(|a| !**a).count(), 53);
    let (empty, _) = drive(0, 0, |_| false);
    assert!(empty.is_empty());
}

#[test]
fn schedule_blocks_hold_both_classes() {
    let (order, _) = drive(5, 2, |_| false);
    // blocks of 2 A + 2 B, 2 A + 2 B, then 1 A + 1 B
    for chunk in [&order[0..4], &order[4..8]] {
        assert_eq!(chunk.iter().filter(|a| **a).count(), 2);
    }
    assert_eq!(order[8..].iter().filter(|a| **a).count(), 1);
    assert_eq!(order.len(), 10);
}

#[test]
fn schedule_classes_never_drift_more_than_a_block() {
    for block in [1usize, 3, 20] {
        let (order, _) = drive(47, block, |_| false);
        let (mut a, mut b) = (0i64, 0i64);
        for (i, is_a) in order.iter().enumerate() {
            if *is_a {
                a += 1;
            } else {
                b += 1;
            }
            assert!((a - b).abs() <= block as i64);
            // at the end of every full block both classes are level
            if (i + 1) % (2 * block) == 0 {
                assert_eq!(a, b);
            }
        }
    }
}

#[test]
fn schedule_stops_when_too_many_requests_fail() {
    let (order, abort) = drive(1000, 20, |_| true);
    assert_eq!(abort, Some((101, 101)));
    assert_eq!(order.len(), 101);
    // 10% failures exactly is still tolerated
    let (order, abort) = drive(100, 20, |i| i % 10 == 9);
    assert!(abort.is_none());
    assert_eq!(order.len(), 200);
    // 11 failures in the first 101 requests stop the run at request 101
    let (_, abort) = drive(100, 20, |i| i < 11);
    assert_eq!(abort, Some((11, 101)));
}

#[test]
fn schedule_counters() {
    let mut rng = StdRng::seed_from_u64(3);
    let mut s = InterleaveSchedule::new(4, 3);
    assert_eq!(s.total(), 8);
    assert!(s.next_request(&mut rng).is_some());
    assert_eq!(s.record(false), RecordOutcome::Continue);
    assert_eq!(s.done(), 1);
    assert_eq!(s.failures(), 1);
}

#[test]
fn resample_draws_from_the_data() {
    let mut rng = StdRng::seed_from_u64(5);
    let data = [1.5f64, 2.5, 3.5];
    let r = resample(&data, &mut rng);
    assert_eq!(r.len(), 3);
    assert!(r.iter().all(|x| data.contains(x)));
    let empty: [f64; 0] = [];
    assert!(resample(&empty, &mut rng).is_empty());
    assert_eq!(BOOTSTRAP_ITERATIONS, 2000);
}

#[test]
fn sample_size_plans() {
    assert_eq!(MIN_SAMPLES, 200);
    assert_eq!(plan_sample_size(Some(100), None, 200_000, false), SamplePlan::Explicit { samples: 200, heads_up: None });
    assert_eq!(plan_sample_size(Some(5000), Some(1), 10, false), SamplePlan::Explicit { samples: 5000, heads_up: None });
    // an explicit size is not stopped by the ceiling, but keeps its estimate
    assert_eq!(
        plan_sample_size(Some(300), Some(2_770_000), 200_000, false),
        SamplePlan::Explicit { samples: 300, heads_up: Some(2_770_000) }
    );
    assert_eq!(
        plan_sample_size(None, None, 200_000, false),
        SamplePlan::NoPilotEffect { samples: NO_EFFECT_SAMPLES }
    );
    assert_eq!(
        plan_sample_size(None, Some(2_770_000), 200_000, false),
        SamplePlan::TooNoisy { needed: 2_770_000, capped: 200_000 }
    );
    assert_eq!(
        plan_sample_size(None, Some(2_770_000), 200_000, true),
        SamplePlan::TooNoisyForced { needed: 2_770_000, capped: 200_000 }
    );
    assert_eq!(
        plan_sample_size(None, Some(150), 100, true),
        SamplePlan::TooNoisyForced { needed: 150, capped: 200 }
    );
    assert_eq!(plan_sample_size(None, Some(50), 200_000, false), SamplePlan::Floor { samples: 200 });
    assert_eq!(plan_sample_size(None, Some(12_480), 200_000, false), SamplePlan::Estimated { samples: 12_480 });
    assert_eq!(plan_sample_size(None, Some(200_000), 200_000, false).samples(), Some(200_000));
    assert_eq!(plan_sample_size(None, Some(u64::MAX), 200_000, false).samples(), None);
}

#[test]
fn compare_verdicts() {
    assert_eq!(compare_verdict(false, true), CompareVerdict::Regression);
    assert_eq!(compare_verdict(true, false), CompareVerdict::Improved);
    assert_eq!(compare_verdict(true, true), CompareVerdict::Persisting);
    assert_eq!(compare_verdict(false, false), CompareVerdict::Clean);
    assert!(compare_is_regression(false, true));
    assert!(!compare_is_regression(true, true));
    assert!(!compare_is_regression(true, false));
    assert!(!compare_is_regression(false, false));
}

#[test]
fn stability_verdicts() {
    assert_eq!(count_significant(&vec![true, false, true]), 2);
    assert_eq!(count_significant(&vec![]), 0);
    assert_eq!(stability_verdict(0, 5, true), StabilityVerdict::ConsistentlyClean);
    assert_eq!(stability_verdict(5, 5, false), StabilityVerdict::ConsistentlySignificant);
    assert_eq!(stability_verdict(5, 5, true), StabilityVerdict::SignificantButUnstable);
    assert_eq!(stability_verdict(3, 5, false), StabilityVerdict::Inconsistent);
}

#[test]
fn doctor_labels_and_quality() {
    assert_eq!(JitterLevel::Low.label(), "low");
    assert_eq!(JitterLevel::Medium.label(), "medium");
    assert_eq!(JitterLevel::High.label(), "high");
    assert_eq!(EnvironmentQuality::Good.label(), "GOOD");
    assert_eq!(EnvironmentQuality::Fair.label(), "FAIR");
    assert_eq!(EnvironmentQuality::Poor.label(), "POOR");
    assert_eq!(environment_quality(JitterLevel::Low, false, true), EnvironmentQuality::Good);
    assert_eq!(environment_quality(JitterLevel::Medium, false, false), EnvironmentQuality::Good);
    assert_eq!(environment_quality(JitterLevel::Medium, false, true), EnvironmentQuality::Fair);
    assert_eq!(environment_quality(JitterLevel::High, false, false), EnvironmentQuality::Poor);
    assert_eq!(environment_quality(JitterLevel::Low, true, true), EnvironmentQuality::Poor);
}

#[test]
fn injection_points_and_descriptions() {
    let h = injection_from_args(Some("X-API-Key".into()), None, None, None).ok().unwrap();
    assert!(matches!(&h, InjectionPoint::Header(n) if n == "X-API-Key"));
    assert_eq!(h.describe(), "header X-API-Key");
    let q = injection_from_args(None, Some("token".into()), None, None).ok().unwrap();
    assert_eq!(q.describe(), "query param token");
    let j = injection_from_args(None, None, Some("password".into()), None).ok().unwrap();
    assert_eq!(j.describe(), "JSON field password");
    let t = injection_from_args(
        None,
        None,
        Some("password".into()),
        Some(r#"{"username": "admin", "password": "old"}"#.into()),
    )
    .ok()
    .unwrap();
    assert_eq!(t.describe(), "JSON field password (with body template)");
    match t {
        InjectionPoint::JsonBody { field, template: Some(tpl) } => {
            assert_eq!(field, "password");
            assert!(tpl.contains_key("username"));
            assert!(!tpl.contains_key("password"));
            let body = request_body(&Some(tpl), "password", "guess");
            assert_eq!(body.get("password"), Some(&serde_json::Value::String("guess".into())));
            assert_eq!(body.get("username"), Some(&serde_json::Value::String("admin".into())));
        }
        _ => panic!("expected a JSON body with a template"),
    }
    let plain = request_body(&None, "password", "x");
    assert_eq!(plain.len(), 1);
}

#[test]
fn injection_option_errors() {
    assert!(matches!(
        injection_from_args(Some("H".into()), None, None, Some("{}".into())),
        Err(InjectionArgsError::JsonBodyWithoutField)
    ));
    assert!(matches!(
        injection_from_args(None, None, Some("p".into()), Some("{not json".into())),
        Err(InjectionArgsError::JsonBodyInvalid(_))
    ));
    assert!(matches!(
        injection_from_args(None, None, Some("p".into()), Some("[1, 2]".into())),
        Err(InjectionArgsError::JsonBodyNotObject)
    ));
}

#[test]
fn run_file_names() {
    assert_eq!(run_name(Some("out"), Some("json"), 3), "out-run3.json");
    assert_eq!(run_name(Some("raw.tar"), Some("gz"), 12), "raw.tar-run12.gz");
    assert_eq!(run_name(Some("samples"), None, 1), "samples-run1");
    assert_eq!(run_name(None, None, 2), "report-run2");
    assert_eq!(run_name(None, Some("csv"), 10), "report-run10.csv");
}
