use linera_summary::build_comparison;
use linera_summary::compare::compute_pct;
use linera_summary::render::{dec_str, format_pct_hundredths};
use linera_summary::summary::PR_COMMENT_HEADER;
use linera_summary::JobRecord;
use linera_summary::PerformanceSummary;

fn jr(workflow: &str, job: &str, secs: u64) -> JobRecord {
    JobRecord::new(workflow.to_string(), job.to_string(), secs)
}

#[test]
fn pct_computation_is_exact() {
    assert_eq!(compute_pct(100, 150), 5000);
    assert_eq!(compute_pct(200, 100), -5000);
    assert_eq!(compute_pct(3, 4), 3333);
    assert_eq!(compute_pct(3, 2), -3333);
    assert_eq!(compute_pct(3, 5), 6667);
    assert_eq!(compute_pct(9420, 3661), -6114);
    assert_eq!(compute_pct(32, 33), 313);
    assert_eq!(compute_pct(10, 10), 0);
    assert_eq!(compute_pct(10, 0), -10000);
    assert_eq!(compute_pct(u64::MAX, u64::MAX), 0);
    assert_eq!(compute_pct(1, u64::MAX), (u64::MAX as i128 - 1) * 10000);
}

#[test]
fn decimal_rendering() {
    assert_eq!(dec_str(0), "0");
    assert_eq!(dec_str(7), "7");
    assert_eq!(dec_str(120), "120");
    assert_eq!(dec_str(98765), "98765");
}

#[test]
fn pct_rendering() {
    assert_eq!(format_pct_hundredths(5000), "50.00%");
    assert_eq!(format_pct_hundredths(0), "0.00%");
    assert_eq!(format_pct_hundredths(-3333), "-33.33%");
    assert_eq!(format_pct_hundredths(12345), "123.45%");
    assert_eq!(format_pct_hundredths(-5), "-0.05%");
    assert_eq!(format_pct_hundredths(205), "2.05%");
}

#[test]
fn comment_body_for_one_workflow() {
    let result = build_comparison(
        &vec!["W".to_string()],
        &vec![jr("W", "build", 100)],
        &vec![jr("W", "build", 150)],
    )
    .unwrap();
    let summary = PerformanceSummary::new(
        "acme".to_string(),
        "widgets".to_string(),
        "0123456789abcdef0123456789abcdef01234567".to_string(),
        result,
    );
    let body = summary.format_comment_body();
    let expected = "## Performance Summary for commit [0123456](https://github.com/acme/widgets/commit/0123456789abcdef0123456789abcdef01234567)\n\n### CI Runtime Comparison\n\n#### Workflow: W\n\n| Job Name | Base Runtime | PR Runtime | Runtime Difference (%) |\n|---|---|---|---|\n| build | 1m 40s | 2m 30s | 50.00% |\n\n";
    assert_eq!(body, expected);
}

#[test]
fn comment_body_with_nothing_to_compare() {
    let result = build_comparison(
        &vec!["W".to_string()],
        &vec![jr("W", "a", 10)],
        &vec![jr("W", "b", 10)],
    )
    .unwrap();
    let summary = PerformanceSummary::new(
        "acme".to_string(),
        "widgets".to_string(),
        "abcdef0".to_string(),
        result,
    );
    let body = summary.format_comment_body();
    let expected = "## Performance Summary for commit [abcdef0](https://github.com/acme/widgets/commit/abcdef0)\n\n### CI Runtime Comparison\n\n";
    assert_eq!(body, expected);
}

#[test]
fn comment_body_renders_zero_candidate_duration() {
    let result = build_comparison(
        &vec!["W".to_string()],
        &vec![jr("W", "x", 10)],
        &vec![jr("W", "x", 0)],
    )
    .unwrap();
    let summary = PerformanceSummary::new(
        "o".to_string(),
        "r".to_string(),
        "1234567".to_string(),
        result,
    );
    let body = summary.format_comment_body();
    assert!(body.contains("| x | 10s | 0s | -100.00% |\n"));
}

#[test]
fn comment_header_is_fixed() {
    assert_eq!(PR_COMMENT_HEADER, "## Performance Summary for commit");
}

#[test]
fn long_durations_render_with_units() {
    let result = build_comparison(
        &vec!["W".to_string()],
        &vec![jr("W", "slow", 9420)],
        &vec![jr("W", "slow", 3661)],
    )
    .unwrap();
    let summary = PerformanceSummary::new(
        "o".to_string(),
        "r".to_string(),
        "1234567".to_string(),
        result,
    );
    let body = summary.format_comment_body();
    assert!(body.contains("| slow | 2h 37m | 1h 1m 1s | -61.14% |\n"));
}
