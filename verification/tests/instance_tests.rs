use grader::{Instance, InstanceError, RunVerdict};

#[test]
fn declare_variable() -> Result<(), InstanceError> {
    let test_id = 1;
    let instance = Instance {
        box_id: test_id,
        bin_path: String::from("/path/to/bin"),
        time_limit_ms: 1000,
        memory_limit: 512000,
        input_path: String::from("/path/to/in"),
        output_path: String::from("/path/to/out"),
        runner_path: String::from("/path/to/runner"),
        ..Default::default()
    };
    assert_eq!(instance.box_id, 1);
    assert_eq!(instance.box_path, "");
    Ok(())
}

#[test]
fn root_check_accepts_uid_zero() {
    assert!(Instance::check_root_permission(&Some(String::from("0\n"))).is_ok());
    assert!(Instance::check_root_permission(&Some(String::from(" 0 \n"))).is_ok());
}

#[test]
fn root_check_rejects_other_uid() {
    let e = Instance::check_root_permission(&Some(String::from("1000\n"))).unwrap_err();
    assert_eq!(e, InstanceError::PermissionError(String::from("isolate must be run as root")));
}

#[test]
fn root_check_reports_unqueryable_uid() {
    let e = Instance::check_root_permission(&None).unwrap_err();
    assert_eq!(e, InstanceError::PermissionError(String::from("unable to get current user id")));
}

#[test]
fn claimed_paths_are_derived_from_backend_output() {
    let mut inst = Instance { box_id: 7, ..Default::default() };
    inst.set_claimed_paths(&Some(String::from("/var/local/lib/isolate/7\n")), "/tmp").unwrap();
    assert_eq!(inst.box_path, "/var/local/lib/isolate/7/box");
    assert_eq!(inst.log_file, "/tmp/tmp_log_7.txt");
}

#[test]
fn failed_claim_is_a_permission_error() {
    let mut inst = Instance::default();
    let e = inst.set_claimed_paths(&None, "/tmp").unwrap_err();
    assert_eq!(
        e,
        InstanceError::PermissionError(String::from("Unable to run isolate --init command."))
    );
}

#[test]
fn staging_names_the_failing_copy() {
    assert!(Instance::staging_outcome(true, true, true).is_ok());
    assert_eq!(
        Instance::staging_outcome(false, true, true).unwrap_err(),
        InstanceError::PermissionError(String::from(
            "Unable to copy input file into box directory"
        ))
    );
    assert_eq!(
        Instance::staging_outcome(true, false, true).unwrap_err(),
        InstanceError::PermissionError(String::from(
            "Unable to copy user exec file into box directory"
        ))
    );
    assert_eq!(
        Instance::staging_outcome(true, true, false).unwrap_err(),
        InstanceError::PermissionError(String::from(
            "Unable to copy runner script into box directory"
        ))
    );
}

#[test]
fn failed_input_staging_then_cleanup_succeeds() {
    let e = Instance::staging_outcome(false, true, true).unwrap_err();
    assert_eq!(
        e,
        InstanceError::PermissionError(String::from(
            "Unable to copy input file into box directory"
        ))
    );
    assert!(Instance::cleanup_outcome(true, true).is_ok());
}

#[test]
fn cleanup_is_repeatable_and_names_failures() {
    assert!(Instance::cleanup_outcome(true, true).is_ok());
    assert!(Instance::cleanup_outcome(true, true).is_ok());
    assert_eq!(
        Instance::cleanup_outcome(false, true).unwrap_err(),
        InstanceError::PermissionError(String::from(
            "Unable to cleanup isolate --cleanup command."
        ))
    );
    assert_eq!(
        Instance::cleanup_outcome(true, false).unwrap_err(),
        InstanceError::PermissionError(String::from("Unable to remove log file."))
    );
}

fn test_instance() -> Instance {
    Instance {
        box_id: 1,
        log_file: String::from("/tmp/log.txt"),
        time_limit_ms: 2000,
        memory_limit: 256000,
        ..Default::default()
    }
}

#[test]
fn arguments_carry_limits_and_slot() {
    let args = test_instance().get_arguments(None);
    let expected = vec![
        "-b",
        "1",
        "-M",
        "/tmp/log.txt",
        "-t",
        "2.000",
        "-w",
        "7.000",
        "-x",
        "3.000",
        "-i",
        "input",
        "-o",
        "output",
        "--run",
        "--",
        "runner",
        "--cg",
        "--cg-timing",
        "--processes=128",
        "--cg-mem=256000",
    ];
    assert_eq!(args, expected);
}

#[test]
fn arguments_bind_alternative_directory_when_present() {
    let alt = String::from("/srv/share");
    let args = test_instance().get_arguments(Some(&alt));
    assert_eq!(args.last().unwrap(), "--dir=/srv/share");
    assert_eq!(args.len(), 22);
}

#[test]
fn evaluate_run_classifies_clean_completion() {
    let log = String::from("time:0.5\ntime-wall:0.6\ncg-mem:1000\n");
    let r = test_instance().evaluate_run(Some(&log), 0, 1000000).unwrap();
    assert_eq!(r.status, RunVerdict::OK);
    assert_eq!(r.time_usage, 500);
    assert_eq!(r.memory_usage, 1000);
}

#[test]
fn evaluate_run_reports_timeout_over_memory() {
    let log = String::from("time:2.5\ncg-mem:1000\nstatus:TO\n");
    let r = test_instance().evaluate_run(Some(&log), 0, 1000000).unwrap();
    assert_eq!(r.status, RunVerdict::TLE);
}

#[test]
fn evaluate_run_reports_oom_as_mle() {
    let log = String::from("time:0.1\ncg-mem:999999\nstatus:SG\n");
    let r = test_instance().evaluate_run(Some(&log), 0, 1000000).unwrap();
    assert_eq!(r.status, RunVerdict::MLE);
}

#[test]
fn evaluate_run_reports_runtime_error() {
    let log = String::from("time:0.1\ncg-mem:10\nstatus:RE\nexitcode:1\n");
    let r = test_instance().evaluate_run(Some(&log), 0, 1000000).unwrap();
    assert_eq!(r.status, RunVerdict::RE);
}

#[test]
fn evaluate_run_flags_unparsable_metrics_as_infrastructure() {
    let log = String::from("garbage");
    let r = test_instance().evaluate_run(Some(&log), 0, 1000000).unwrap();
    assert_eq!(r.status, RunVerdict::XX);
}

#[test]
fn evaluate_run_flags_backend_internal_error() {
    let log = String::from("time:0.1\ncg-mem:10\nstatus:XX\n");
    let r = test_instance().evaluate_run(Some(&log), 0, 1000000).unwrap();
    assert_eq!(r.status, RunVerdict::XX);
}

#[test]
fn evaluate_run_without_invocation_is_a_permission_error() {
    let e = test_instance().evaluate_run(None, 0, 1000000).unwrap_err();
    assert_eq!(e, InstanceError::PermissionError(String::from("Unable to run isolate.")));
}

#[test]
fn evaluate_run_reports_output_limit() {
    let log = String::from("time:0.1\ncg-mem:10\n");
    let r = test_instance().evaluate_run(Some(&log), 2000, 1000).unwrap();
    assert_eq!(r.status, RunVerdict::OT);
}
