use grader::{
    aggregate_submission, group_weight_milli, resolve_checker, resolve_grouper, run_exact_checker,
    score_group, score_submission, score_test, total_full_score, total_test_count, CheckerKind,
    GrouperKind, GroupResult, InstanceError, RunResult,
};

fn scored_run(index: u64, passes: bool, weight_milli: u64) -> RunResult {
    let mut run = RunResult::from("sub-1", index, 100, 2000);
    let input = String::from("in");
    let reference = String::from("42");
    let produced = if passes { String::from("42") } else { String::from("41") };
    score_test(&mut run, CheckerKind::ExactMatch, &input, &produced, &reference, weight_milli);
    run
}

#[test]
fn run_result_from_sets_defaults() {
    let r = RunResult::from("sub-9", 3, 250, 1024);
    assert_eq!(r.submission_id, "sub-9");
    assert_eq!(r.test_index, 3);
    assert_eq!(r.time_usage_ms, 250);
    assert_eq!(r.memory_usage, 1024);
    assert_eq!(r.status, "");
    assert_eq!(r.score_milli, 0);
    assert_eq!(r.message, "");
}

#[test]
fn group_result_from_sets_defaults() {
    let g = GroupResult::from(40, "sub-9", 0);
    assert_eq!(g.full_score, 40);
    assert_eq!(g.submission_id, "sub-9");
    assert_eq!(g.group_index, 0);
    assert_eq!(g.score_milli, 0);
    assert_eq!(g.run_result.len(), 0);
}

#[test]
fn exact_checker_scores_zero_or_full() {
    assert_eq!(run_exact_checker(&String::from("a"), &String::from("a")), 1000);
    assert_eq!(run_exact_checker(&String::from("a"), &String::from("b")), 0);
}

#[test]
fn totals_sum_over_groups() {
    let groups = vec![(40u64, 3u64), (60u64, 2u64)];
    assert_eq!(total_test_count(&groups), 5);
    assert_eq!(total_full_score(&groups), 100);
}

#[test]
fn group_weight_is_scaled_fraction() {
    assert_eq!(group_weight_milli(40, 3), 13333);
    assert_eq!(group_weight_milli(60, 2), 30000);
}

#[test]
fn registry_resolves_only_defaults() {
    assert_eq!(resolve_checker(&None).unwrap(), CheckerKind::ExactMatch);
    assert_eq!(resolve_grouper(&None).unwrap(), GrouperKind::SumDefault);
    let c = resolve_checker(&Some(String::from("lenient"))).unwrap_err();
    assert_eq!(c, InstanceError::ConfigurationError(String::from("unknown checker")));
    let g = resolve_grouper(&Some(String::from("min"))).unwrap_err();
    assert_eq!(g, InstanceError::ConfigurationError(String::from("unknown grouper")));
}

#[test]
fn score_group_rejects_wrong_range() {
    let w = group_weight_milli(40, 2);
    let runs = vec![scored_run(1, true, w), scored_run(3, true, w)];
    let r = score_group("sub-1", 0, 40, 1, 2, runs, GrouperKind::SumDefault);
    assert_eq!(
        r.unwrap_err(),
        InstanceError::ConfigurationError(String::from(
            "run results do not match the group's test range"
        ))
    );
}

#[test]
fn score_group_all_passed_gives_full_score() {
    let w = group_weight_milli(40, 3);
    let runs = vec![scored_run(1, true, w), scored_run(2, true, w), scored_run(3, true, w)];
    let g = score_group("sub-1", 0, 40, 1, 3, runs, GrouperKind::SumDefault).unwrap();
    assert_eq!(g.score_milli, 40000);
    assert_eq!(g.full_score, 40);
    assert_eq!(g.run_result.len(), 3);
}

#[test]
fn score_group_partial_pass_scales_linearly() {
    let w = group_weight_milli(40, 2);
    let runs = vec![scored_run(1, true, w), scored_run(2, false, w)];
    let g = score_group("sub-1", 0, 40, 1, 2, runs, GrouperKind::SumDefault).unwrap();
    assert_eq!(g.score_milli, 20000);
}

#[test]
fn submission_sums_group_scores() {
    let g1 = GroupResult {
        score_milli: 40000,
        full_score: 40,
        submission_id: String::from("sub-1"),
        group_index: 0,
        run_result: Vec::new(),
    };
    let g2 = GroupResult {
        score_milli: 0,
        full_score: 60,
        submission_id: String::from("sub-1"),
        group_index: 1,
        run_result: Vec::new(),
    };
    let s = score_submission("sub-1", vec![g1, g2]);
    assert_eq!(s.score_milli, 40000);
    assert_eq!(s.full_score, 100);
    assert_eq!(s.group_result.len(), 2);
}

#[test]
fn first_group_passes_second_fails_scores_forty_of_hundred() {
    let groups = vec![(40u64, 3u64), (60u64, 2u64)];
    let w1 = group_weight_milli(40, 3);
    let w2 = group_weight_milli(60, 2);
    let runs = vec![
        scored_run(1, true, w1),
        scored_run(2, true, w1),
        scored_run(3, true, w1),
        scored_run(4, false, w2),
        scored_run(5, false, w2),
    ];
    let s = aggregate_submission("sub-1", &groups, &runs, GrouperKind::SumDefault).unwrap();
    assert_eq!(s.group_result[0].score_milli, 40000);
    assert_eq!(s.group_result[1].score_milli, 0);
    assert_eq!(s.score_milli, 40000);
    assert_eq!(s.full_score, 100);
}

#[test]
fn aggregation_reorders_by_test_index() {
    let groups = vec![(10u64, 2u64)];
    let w = group_weight_milli(10, 2);
    let runs = vec![scored_run(2, true, w), scored_run(1, true, w)];
    let s = aggregate_submission("sub-1", &groups, &runs, GrouperKind::SumDefault).unwrap();
    assert_eq!(s.group_result[0].run_result[0].test_index, 1);
    assert_eq!(s.group_result[0].run_result[1].test_index, 2);
    assert_eq!(s.score_milli, 10000);
}

#[test]
fn aggregation_rejects_missing_run() {
    let groups = vec![(10u64, 2u64)];
    let w = group_weight_milli(10, 2);
    let runs = vec![scored_run(1, true, w), scored_run(3, true, w)];
    let e = aggregate_submission("sub-1", &groups, &runs, GrouperKind::SumDefault).unwrap_err();
    assert_eq!(
        e,
        InstanceError::ConfigurationError(String::from(
            "run results do not cover the manifest's test range"
        ))
    );
}

#[test]
fn aggregation_rejects_wrong_count() {
    let groups = vec![(10u64, 2u64)];
    let w = group_weight_milli(10, 2);
    let runs = vec![scored_run(1, true, w)];
    assert!(aggregate_submission("sub-1", &groups, &runs, GrouperKind::SumDefault).is_err());
}
