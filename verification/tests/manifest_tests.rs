use grader::{
    get_code_extension, get_key_mapping, get_message, get_value_mapping, parse_document,
    InstanceError, Manifest,
};

fn full_doc() -> serde_yaml::Mapping {
    let text = "task_id: a_plus_b\noutput_only: false\ntime_limit: 1.5\nmemory_limit: 512000\nlimit:\n  cpp:\n    time_limit: 2.5\n    memory_limit: 256000\ncompile_files:\n  cpp:\n    - main.cpp\n    - grader.cpp\ngroups:\n  - full_score: 40\n    tests: 3\n  - full_score: 60\n    tests: 2\n";
    parse_document(text).unwrap()
}

#[test]
fn manifest_reads_every_field() {
    let m = Manifest::from(&full_doc()).unwrap();
    assert_eq!(m.task_id, "a_plus_b");
    assert!(!m.output_only);
    assert_eq!(m.time_limit_ms, Some(1500));
    assert_eq!(m.memory_limit, Some(512000));
    let limit = m.limit.as_ref().unwrap();
    assert_eq!(limit.len(), 1);
    assert_eq!(limit[0].0, "cpp");
    assert_eq!(limit[0].1, (2500, 256000));
    let cf = m.compile_files.as_ref().unwrap();
    assert_eq!(cf.len(), 1);
    assert_eq!(cf[0].0, "cpp");
    assert_eq!(cf[0].1, vec![String::from("main.cpp"), String::from("grader.cpp")]);
    assert_eq!(m.checker, None);
    assert_eq!(m.grouper, None);
    assert_eq!(m.groups, vec![(40, 3), (60, 2)]);
}

#[test]
fn manifest_defaults_absent_optionals() {
    let doc = parse_document("task_id: t\ngroups:\n  - full_score: 100\n    tests: 1\n").unwrap();
    let m = Manifest::from(&doc).unwrap();
    assert_eq!(m.time_limit_ms, None);
    assert_eq!(m.memory_limit, None);
    assert!(m.limit.is_none());
    assert!(m.compile_files.is_none());
    assert!(!m.output_only);
}

#[test]
fn manifest_rejects_missing_task_id() {
    let doc = parse_document("groups:\n  - full_score: 100\n    tests: 1\n").unwrap();
    let e = Manifest::from(&doc).unwrap_err();
    assert!(matches!(e, InstanceError::ConfigurationError(_)));
}

#[test]
fn manifest_rejects_missing_groups() {
    let doc = parse_document("task_id: t\n").unwrap();
    assert!(Manifest::from(&doc).is_err());
}

#[test]
fn manifest_rejects_zero_test_count() {
    let doc = parse_document("task_id: t\ngroups:\n  - full_score: 100\n    tests: 0\n").unwrap();
    assert!(Manifest::from(&doc).is_err());
}

#[test]
fn manifest_rejects_non_positive_override() {
    let doc = parse_document(
        "task_id: t\nlimit:\n  cpp:\n    time_limit: 0\n    memory_limit: 1\ngroups:\n  - full_score: 1\n    tests: 1\n",
    )
    .unwrap();
    assert!(Manifest::from(&doc).is_err());
}

#[test]
fn manifest_keeps_checker_and_grouper_names() {
    let doc = parse_document(
        "task_id: t\nchecker: lenient\ngrouper: min\ngroups:\n  - full_score: 1\n    tests: 1\n",
    )
    .unwrap();
    let m = Manifest::from(&doc).unwrap();
    assert_eq!(m.checker, Some(String::from("lenient")));
    assert_eq!(m.grouper, Some(String::from("min")));
}

#[test]
fn effective_limit_prefers_override() {
    let m = Manifest::from(&full_doc()).unwrap();
    assert_eq!(m.effective_limit("cpp"), (Some(2500), Some(256000)));
    assert_eq!(m.effective_limit("python"), (Some(1500), Some(512000)));
}

#[test]
fn whole_second_time_limit_parses() {
    let doc = parse_document(
        "task_id: t\ntime_limit: 2\ngroups:\n  - full_score: 1\n    tests: 1\n",
    )
    .unwrap();
    let m = Manifest::from(&doc).unwrap();
    assert_eq!(m.time_limit_ms, Some(2000));
}

fn config_doc() -> serde_yaml::Mapping {
    let text = "language:\n  id: cpp\n  extension: cpp\nmessage:\n  TLE: Time Limit Exceeded\n  RE: Runtime Error\n";
    parse_document(text).unwrap()
}

#[test]
fn code_extension_found_for_matching_language() {
    assert_eq!(get_code_extension("cpp", &config_doc()), "cpp");
}

#[test]
fn code_extension_empty_for_other_language() {
    assert_eq!(get_code_extension("rust", &config_doc()), "");
}

#[test]
fn message_lookup_finds_status() {
    assert_eq!(get_message("TLE", &config_doc()), "Time Limit Exceeded");
    assert_eq!(get_message("RE", &config_doc()), "Runtime Error");
}

#[test]
fn message_lookup_empty_for_unknown_status() {
    assert_eq!(get_message("??", &config_doc()), "");
}

#[test]
fn value_mapping_reads_present_key() {
    let doc = full_doc();
    let v = get_value_mapping(&doc, "task_id");
    assert_eq!(v.as_str(), Some("a_plus_b"));
}

#[test]
fn value_mapping_defaults_missing_key() {
    let doc = full_doc();
    let v = get_value_mapping(&doc, "nonexistent");
    assert!(v.is_null());
}

#[test]
fn key_mapping_builds_string_value() {
    let v = get_key_mapping("task_id");
    assert_eq!(v.as_str(), Some("task_id"));
}

#[test]
fn parse_document_rejects_non_mapping() {
    assert!(parse_document("- 1\n- 2\n").is_none());
    assert!(parse_document("task_id: t\n").is_some());
}
