//! The execution-and-scoring core of an automated programming-contest
//! judge: a sandbox instance manager that stages a submission into an
//! isolation slot and classifies the backend's reported metrics into a
//! verdict, and a scoring aggregator that turns per-test outcomes into
//! group and submission scores under a task manifest's group table.

mod error;
mod instance;
mod lifecycle;
mod manifest;
mod metrics;
mod numstr;
mod scoring;
mod verdict;
mod yaml;

pub use error::InstanceError;
pub use instance::{is_root_uid, is_space, trim_back, trim_front, trimmed, Instance};
pub use lifecycle::{
    claim_transition, cleanup_transition, init_allowed, lemma_cleanup_idempotent,
    lemma_partial_init_recoverable, SlotState,
};
pub use manifest::{
    cf_entry_matches, cf_entry_ok, cf_ok, group_item, group_item_ok, groups_src_ok,
    limit_entry_matches, limit_entry_ok, limit_ok, manifest_ok, matches_doc, opt_int, opt_millis,
    spec_cf_entries, spec_group_items, spec_limit_entries, spec_lookup_limit, spec_memory_limit,
    spec_name, spec_output_only, spec_task_id, spec_time_limit_ms, Manifest,
};
pub use metrics::{
    cap32, find_field, find_nl, get_field, lines_of, parse_run_metrics, spec_field,
    spec_run_metrics, split_lines, starts_with, text_millis, text_u64,
};
pub use numstr::{
    all_digits, dec_digit, dec_str, dec_val, digit_val, find_dot, is_dec_digit,
    millis_of_decimal, millis_to_seconds_string, parse_seconds_to_millis, parse_u64, pow10,
    seconds_str, u64_to_string,
};
pub use scoring::{
    aggregate_submission, aggregated_group_ok, group_owns, group_test_start, group_weight_milli,
    groups_wf, has_run, lemma_group_ranges_partition, lemma_total_tests_is_sum,
    lemma_totals_bounded, resolve_checker, resolve_grouper, run_exact_checker, runs_complete,
    runs_match_range, score_group, score_submission, score_test, spec_full_count,
    spec_group_score, spec_group_weight, spec_total_full_score, spec_total_tests, submission_wf,
    sum_counts, sum_group_fulls, sum_group_scores, test_covered, total_full_score,
    total_test_count, CheckerKind, GrouperKind, GroupResult, RunResult, SubmissionResult,
    MAX_FULL_SCORE, MAX_GROUPS, MAX_GROUP_TESTS,
};
pub use verdict::{
    classify, classify_spec, lemma_classify_deterministic, lemma_classify_priority,
    lemma_tle_not_mle, mle_cond, ot_cond, re_cond, tle_cond, xx_cond, InstanceResult, RunLimits,
    RunMetrics, RunVerdict,
};
pub use yaml::{
    bool_of, code_extension_spec, entries_of, get_code_extension, get_key_mapping, get_message,
    get_value_mapping, int_of, items_of, map_get_str, message_spec, number_text_of,
    parse_document, parsed_doc, str_of, value_get_str, yaml_absent,
};
