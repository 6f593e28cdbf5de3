use linera_summary::build_comparison;
use linera_summary::compare::filter_watched_workflows;
use linera_summary::Comparison;
use linera_summary::ComparisonError;
use linera_summary::JobRecord;

fn jr(workflow: &str, job: &str, secs: u64) -> JobRecord {
    JobRecord::new(workflow.to_string(), job.to_string(), secs)
}

fn names(ns: &[&str]) -> Vec<String> {
    ns.iter().map(|n| n.to_string()).collect()
}

#[test]
fn empty_base_fails() {
    let r = build_comparison(&names(&["W"]), &vec![], &vec![jr("W", "build", 1)]);
    assert_eq!(r, Err(ComparisonError::EmptyJobSet));
}

#[test]
fn empty_candidate_fails() {
    let r = build_comparison(&names(&["W"]), &vec![jr("W", "build", 1)], &vec![]);
    assert_eq!(r, Err(ComparisonError::EmptyJobSet));
}

#[test]
fn matching_single_job() {
    let r = build_comparison(
        &names(&["W"]),
        &vec![jr("W", "build", 100)],
        &vec![jr("W", "build", 150)],
    )
    .unwrap();
    assert_eq!(r.entries.len(), 1);
    assert_eq!(r.entries[0].workflow_name, "W");
    assert_eq!(
        r.entries[0].comparisons,
        vec![Comparison {
            job_name: "build".to_string(),
            base_runtime_seconds: 100,
            candidate_runtime_seconds: 150,
            runtime_difference_pct_hundredths: 5000,
        }]
    );
}

#[test]
fn disjoint_job_names_excluded() {
    let r = build_comparison(
        &names(&["W"]),
        &vec![jr("W", "a", 10)],
        &vec![jr("W", "b", 10)],
    )
    .unwrap();
    assert!(r.entries.is_empty());
}

#[test]
fn zero_base_runtime_omitted() {
    let r = build_comparison(
        &names(&["W"]),
        &vec![jr("W", "x", 0)],
        &vec![jr("W", "x", 5)],
    )
    .unwrap();
    assert!(r.entries.is_empty());
}

#[test]
fn duplicate_base_records_resolve_to_last() {
    let r = build_comparison(
        &names(&["W"]),
        &vec![jr("W", "a", 10), jr("W", "a", 20)],
        &vec![jr("W", "a", 20)],
    )
    .unwrap();
    assert_eq!(r.entries.len(), 1);
    assert_eq!(
        r.entries[0].comparisons,
        vec![Comparison {
            job_name: "a".to_string(),
            base_runtime_seconds: 20,
            candidate_runtime_seconds: 20,
            runtime_difference_pct_hundredths: 0,
        }]
    );
}

#[test]
fn duplicate_candidate_records_resolve_to_last() {
    let r = build_comparison(
        &names(&["W"]),
        &vec![jr("W", "a", 10)],
        &vec![jr("W", "a", 30), jr("W", "a", 5)],
    )
    .unwrap();
    assert_eq!(r.entries[0].comparisons[0].candidate_runtime_seconds, 5);
    assert_eq!(
        r.entries[0].comparisons[0].runtime_difference_pct_hundredths,
        -5000
    );
}

#[test]
fn workflow_order_follows_caller() {
    let base = vec![jr("A", "j", 10), jr("B", "k", 10)];
    let cand = vec![jr("A", "j", 20), jr("B", "k", 5)];
    let r = build_comparison(&names(&["B", "A"]), &base, &cand).unwrap();
    assert_eq!(r.entries.len(), 2);
    assert_eq!(r.entries[0].workflow_name, "B");
    assert_eq!(
        r.entries[0].comparisons[0].runtime_difference_pct_hundredths,
        -5000
    );
    assert_eq!(r.entries[1].workflow_name, "A");
    assert_eq!(
        r.entries[1].comparisons[0].runtime_difference_pct_hundredths,
        10000
    );
}

#[test]
fn repeated_calls_give_identical_results() {
    let order = names(&["B", "A"]);
    let base = vec![jr("A", "j", 10), jr("B", "k", 10), jr("A", "m", 7)];
    let cand = vec![jr("A", "j", 20), jr("B", "k", 5), jr("A", "m", 7)];
    let r1 = build_comparison(&order, &base, &cand).unwrap();
    let r2 = build_comparison(&order, &base, &cand).unwrap();
    assert_eq!(r1, r2);
}

#[test]
fn jobs_ordered_by_first_occurrence_in_base() {
    let base = vec![jr("W", "later", 10), jr("W", "earlier", 10)];
    let cand = vec![jr("W", "earlier", 10), jr("W", "later", 10)];
    let r = build_comparison(&names(&["W"]), &base, &cand).unwrap();
    let job_names: Vec<&str> = r.entries[0]
        .comparisons
        .iter()
        .map(|c| c.job_name.as_str())
        .collect();
    assert_eq!(job_names, vec!["later", "earlier"]);
}

#[test]
fn repeated_workflow_in_order_emitted_once() {
    let r = build_comparison(
        &names(&["W", "W"]),
        &vec![jr("W", "a", 10)],
        &vec![jr("W", "a", 10)],
    )
    .unwrap();
    assert_eq!(r.entries.len(), 1);
}

#[test]
fn unwatched_workflow_ignored() {
    let r = build_comparison(
        &names(&["W"]),
        &vec![jr("W", "a", 10), jr("V", "a", 10)],
        &vec![jr("W", "a", 10), jr("V", "a", 10)],
    )
    .unwrap();
    assert_eq!(r.entries.len(), 1);
    assert_eq!(r.entries[0].workflow_name, "W");
}

#[test]
fn filter_keeps_watched_in_discovery_order() {
    let fetched = names(&["a", "b", "c"]);
    let watched = names(&["c", "a"]);
    assert_eq!(filter_watched_workflows(&fetched, &watched), names(&["a", "c"]));
}

#[test]
fn filter_of_nothing_watched_is_empty() {
    let fetched = names(&["a", "b"]);
    let watched: Vec<String> = vec![];
    assert!(filter_watched_workflows(&fetched, &watched).is_empty());
}
