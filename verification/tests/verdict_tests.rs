use grader::{classify, InstanceResult, RunLimits, RunMetrics, RunVerdict};

fn limits() -> RunLimits {
    RunLimits { time_ms: 2000, memory: 256000, output_bytes: 1000000 }
}

fn clean_metrics() -> RunMetrics {
    RunMetrics {
        metrics_valid: true,
        timed_out: false,
        oom_killed: false,
        exit_ok: true,
        time_ms: 500,
        memory: 1000,
        output_size: 10,
    }
}

#[test]
fn classify_ok_within_limits() {
    assert_eq!(classify(&clean_metrics(), &limits()), RunVerdict::OK);
}

#[test]
fn classify_tle_on_measured_time() {
    let mut m = clean_metrics();
    m.time_ms = 2000;
    assert_eq!(classify(&m, &limits()), RunVerdict::TLE);
}

#[test]
fn classify_tle_on_backend_kill() {
    let mut m = clean_metrics();
    m.timed_out = true;
    assert_eq!(classify(&m, &limits()), RunVerdict::TLE);
}

#[test]
fn classify_mle_on_memory() {
    let mut m = clean_metrics();
    m.memory = 300000;
    assert_eq!(classify(&m, &limits()), RunVerdict::MLE);
}

#[test]
fn classify_ot_on_output() {
    let mut m = clean_metrics();
    m.output_size = 1000001;
    assert_eq!(classify(&m, &limits()), RunVerdict::OT);
}

#[test]
fn classify_re_on_abnormal_exit() {
    let mut m = clean_metrics();
    m.exit_ok = false;
    assert_eq!(classify(&m, &limits()), RunVerdict::RE);
}

#[test]
fn classify_xx_trumps_everything() {
    let m = RunMetrics {
        metrics_valid: false,
        timed_out: true,
        oom_killed: true,
        exit_ok: false,
        time_ms: 9999,
        memory: 999999,
        output_size: 9999999,
    };
    assert_eq!(classify(&m, &limits()), RunVerdict::XX);
}

#[test]
fn classify_tle_before_mle_before_ot_before_re() {
    let mut m = clean_metrics();
    m.timed_out = true;
    m.oom_killed = true;
    m.output_size = 9999999;
    m.exit_ok = false;
    assert_eq!(classify(&m, &limits()), RunVerdict::TLE);
    m.timed_out = false;
    m.time_ms = 0;
    assert_eq!(classify(&m, &limits()), RunVerdict::MLE);
    m.oom_killed = false;
    m.memory = 0;
    assert_eq!(classify(&m, &limits()), RunVerdict::OT);
    m.output_size = 0;
    assert_eq!(classify(&m, &limits()), RunVerdict::RE);
}

#[test]
fn time_over_memory_under_is_tle_never_mle() {
    let mut m = clean_metrics();
    m.time_ms = 2500;
    m.memory = 100;
    let v = classify(&m, &limits());
    assert_eq!(v, RunVerdict::TLE);
    assert_ne!(v, RunVerdict::MLE);
}

#[test]
fn classification_is_deterministic() {
    let m = clean_metrics();
    assert_eq!(classify(&m, &limits()), classify(&m, &limits()));
}

#[test]
fn instance_result_holds_its_fields() {
    let r = InstanceResult { status: RunVerdict::OK, time_usage: 1, memory_usage: 1 };
    assert_eq!(r.status, RunVerdict::OK);
    assert_eq!(r.time_usage, 1);
    assert_eq!(r.memory_usage, 1);
}
