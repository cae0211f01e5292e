use vstd::prelude::*;

verus! {

/// Classification of one executed test, as reported to the contestant.
#[derive(Clone, Copy, Debug, PartialEq, Eq, Structural)]
pub enum RunVerdict {
    /// Ran to normal completion within every limit.
    OK,
    /// Time limit exceeded.
    TLE,
    /// Memory limit exceeded.
    MLE,
    /// Runtime error: non-zero exit code or fatal signal, resources under limits.
    RE,
    /// Judge infrastructure error: the backend could not be queried reliably.
    XX,
    /// Output limit exceeded.
    OT,
}

/// Outcome of one run inside an isolation slot.
#[derive(Clone, Copy, Debug, PartialEq, Eq, Structural)]
pub struct InstanceResult {
    pub status: RunVerdict,
    pub time_usage: u32,
    pub memory_usage: u32,
}

/// The raw information the isolation backend reports for one run,
/// already reduced to plain values by the metrics parser.
#[derive(Clone, Copy, Debug, PartialEq, Eq, Structural)]
pub struct RunMetrics {
    /// The backend was invoked successfully and its metrics were parsable.
    pub metrics_valid: bool,
    /// The backend killed the program for exhausting its time budget.
    pub timed_out: bool,
    /// The backend's accounting killed the program for exhausting memory.
    pub oom_killed: bool,
    /// The program exited cleanly: exit code zero and no fatal signal.
    pub exit_ok: bool,
    /// Measured CPU time, in milliseconds.
    pub time_ms: u32,
    /// Measured peak memory, in the backend's accounting units.
    pub memory: u32,
    /// Bytes the program wrote to its output stream.
    pub output_size: u64,
}

/// The configured ceilings one run is held to.
#[derive(Clone, Copy, Debug, PartialEq, Eq, Structural)]
pub struct RunLimits {
    /// CPU time ceiling, in milliseconds.
    pub time_ms: u64,
    /// Memory ceiling, in the backend's accounting units.
    pub memory: u64,
    /// Output-size ceiling, in bytes.
    pub output_bytes: u64,
}

/// The backend itself failed or its metrics are untrustworthy.
pub open spec fn xx_cond(m: RunMetrics) -> bool {
    !m.metrics_valid
}

/// The time limit was exhausted: measured CPU time reached the
/// configured limit, or the backend reported a timeout kill.
pub open spec fn tle_cond(m: RunMetrics, l: RunLimits) -> bool {
    m.timed_out || m.time_ms as int >= l.time_ms as int
}

/// The memory limit was exhausted: measured memory reached the
/// configured limit, or the backend reported an out-of-memory kill.
pub open spec fn mle_cond(m: RunMetrics, l: RunLimits) -> bool {
    m.oom_killed || m.memory as int >= l.memory as int
}

/// The program wrote more than the output-size ceiling.
pub open spec fn ot_cond(m: RunMetrics, l: RunLimits) -> bool {
    m.output_size > l.output_bytes
}

/// The program terminated abnormally.
pub open spec fn re_cond(m: RunMetrics) -> bool {
    !m.exit_ok
}

/// The verdict for given metrics and limits: the first condition that
/// holds, in priority order XX, TLE, MLE, OT, RE; otherwise OK.
pub open spec fn classify_spec(m: RunMetrics, l: RunLimits) -> RunVerdict {
    if xx_cond(m) {
        RunVerdict::XX
    } else if tle_cond(m, l) {
        RunVerdict::TLE
    } else if mle_cond(m, l) {
        RunVerdict::MLE
    } else if ot_cond(m, l) {
        RunVerdict::OT
    } else if re_cond(m) {
        RunVerdict::RE
    } else {
        RunVerdict::OK
    }
}

/// Classifies one run's metrics against the configured limits.
pub fn classify(m: &RunMetrics, l: &RunLimits) -> (v: RunVerdict)
    ensures
        v == classify_spec(*m, *l),
{
    if !m.metrics_valid {
        RunVerdict::XX
    } else if m.timed_out || m.time_ms as u64 >= l.time_ms {
        RunVerdict::TLE
    } else if m.oom_killed || m.memory as u64 >= l.memory {
        RunVerdict::MLE
    } else if m.output_size > l.output_bytes {
        RunVerdict::OT
    } else if !m.exit_ok {
        RunVerdict::RE
    } else {
        RunVerdict::OK
    }
}

/// Classification is deterministic: identical metrics and limits always
/// yield the same verdict.
pub proof fn lemma_classify_deterministic(
    m1: RunMetrics,
    l1: RunLimits,
    m2: RunMetrics,
    l2: RunLimits,
)
    requires
        m1 == m2,
        l1 == l2,
    ensures
        classify_spec(m1, l1) == classify_spec(m2, l2),
{
}

/// When several trigger conditions hold at once, the verdict is the one
/// of highest priority, in the order XX, TLE, MLE, OT, RE; OK is
/// returned exactly when no condition holds.
pub proof fn lemma_classify_priority(m: RunMetrics, l: RunLimits)
    ensures
        xx_cond(m) ==> classify_spec(m, l) == RunVerdict::XX,
        !xx_cond(m) && tle_cond(m, l) ==> classify_spec(m, l) == RunVerdict::TLE,
        !xx_cond(m) && !tle_cond(m, l) && mle_cond(m, l) ==> classify_spec(m, l)
            == RunVerdict::MLE,
        !xx_cond(m) && !tle_cond(m, l) && !mle_cond(m, l) && ot_cond(m, l) ==> classify_spec(m, l)
            == RunVerdict::OT,
        !xx_cond(m) && !tle_cond(m, l) && !mle_cond(m, l) && !ot_cond(m, l) && re_cond(m)
            ==> classify_spec(m, l) == RunVerdict::RE,
        classify_spec(m, l) == RunVerdict::OK <==> !xx_cond(m) && !tle_cond(m, l) && !mle_cond(
            m,
            l,
        ) && !ot_cond(m, l) && !re_cond(m),
{
}

/// A run that exhausts the time limit while staying under the memory
/// limit is classified TLE, never MLE.
pub proof fn lemma_tle_not_mle(m: RunMetrics, l: RunLimits)
    requires
        m.metrics_valid,
        tle_cond(m, l),
        !mle_cond(m, l),
    ensures
        classify_spec(m, l) == RunVerdict::TLE,
        classify_spec(m, l) != RunVerdict::MLE,
{
}

} // verus!
