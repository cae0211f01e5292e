use vstd::prelude::*;
use vstd::string::{StrSliceExecFns, StringExecFns};

use crate::error::InstanceError;
use crate::metrics::{parse_run_metrics, spec_run_metrics};
use crate::numstr::{dec_str, millis_to_seconds_string, seconds_str, u64_to_string};
use crate::verdict::{classify, classify_spec, InstanceResult, RunLimits, RunMetrics};

verus! {

/// One isolation slot's configuration: the slot id, the staged file
/// locations, and the limits one run is held to. Time limits are in
/// milliseconds; the memory limit is in the backend's accounting units.
#[derive(Debug)]
pub struct Instance {
    pub box_path: String,
    pub log_file: String,
    pub box_id: u32,
    pub bin_path: String,
    pub time_limit_ms: u64,
    pub memory_limit: u64,
    pub input_path: String,
    pub output_path: String,
    pub runner_path: String,
}

impl Default for Instance {
    fn default() -> (r: Instance)
        ensures
            r.box_path@ == Seq::<char>::empty(),
            r.log_file@ == Seq::<char>::empty(),
            r.box_id == 0,
            r.bin_path@ == Seq::<char>::empty(),
            r.time_limit_ms == 0,
            r.memory_limit == 0,
            r.input_path@ == Seq::<char>::empty(),
            r.output_path@ == Seq::<char>::empty(),
            r.runner_path@ == Seq::<char>::empty(),
    {
        Instance {
            box_path: String::new(),
            log_file: String::new(),
            box_id: 0,
            bin_path: String::new(),
            time_limit_ms: 0,
            memory_limit: 0,
            input_path: String::new(),
            output_path: String::new(),
            runner_path: String::new(),
        }
    }
}

pub open spec fn is_space(c: char) -> bool {
    c == ' ' || c == '\t' || c == '\n' || c == '\r'
}

pub open spec fn trim_front(s: Seq<char>) -> Seq<char>
    decreases s.len(),
{
    if s.len() > 0 && is_space(s[0]) {
        trim_front(s.skip(1))
    } else {
        s
    }
}

pub open spec fn trim_back(s: Seq<char>) -> Seq<char>
    decreases s.len(),
{
    if s.len() > 0 && is_space(s.last()) {
        trim_back(s.drop_last())
    } else {
        s
    }
}

/// The text with leading and trailing whitespace removed.
pub open spec fn trimmed(s: Seq<char>) -> Seq<char> {
    trim_back(trim_front(s))
}

proof fn lemma_trim_front_skip(s: Seq<char>, k: int)
    requires
        0 <= k <= s.len(),
        forall|i: int| 0 <= i < k ==> is_space(#[trigger] s[i]),
        k == s.len() || !is_space(s[k]),
    ensures
        trim_front(s) == s.skip(k),
    decreases k,
{
    if k == 0 {
        assert(s.skip(0) =~= s);
    } else {
        assert(is_space(s[0]));
        let t = s.skip(1);
        assert(forall|i: int| 0 <= i < k - 1 ==> is_space(#[trigger] t[i]));
        lemma_trim_front_skip(t, k - 1);
        assert(t.skip(k - 1) =~= s.skip(k));
    }
}

proof fn lemma_trim_back_take(s: Seq<char>, k: int)
    requires
        0 <= k <= s.len(),
        forall|i: int| k <= i < s.len() ==> is_space(#[trigger] s[i]),
        k == 0 || !is_space(s[k - 1]),
    ensures
        trim_back(s) == s.take(k),
    decreases s.len(),
{
    if s.len() == k {
        assert(s.take(k) =~= s);
    } else {
        assert(is_space(s.last()));
        let t = s.drop_last();
        lemma_trim_back_take(t, k);
        assert(t.take(k) =~= s.take(k));
    }
}

fn is_space_char(c: char) -> (r: bool)
    ensures
        r == is_space(c),
{
    c == ' ' || c == '\t' || c == '\n' || c == '\r'
}

/// Decides whether the backend's reported user id names the superuser:
/// the output, ignoring surrounding whitespace, is exactly "0".
pub fn is_root_uid(s: &str) -> (r: bool)
    ensures
        r == (trimmed(s@) == seq!['0']),
{
    let n = s.unicode_len();
    let mut lo: usize = 0;
    while lo < n && is_space_char(s.get_char(lo))
        invariant
            0 <= lo <= n == s@.len(),
            forall|i: int| 0 <= i < lo ==> is_space(#[trigger] s@[i]),
        decreases n - lo,
    {
        lo = lo + 1;
    }
    proof {
        lemma_trim_front_skip(s@, lo as int);
    }
    if lo == n {
        proof {
            assert(trim_front(s@) =~= Seq::<char>::empty());
            assert(trimmed(s@).len() == 0);
        }
        return false;
    }
    let mut hi: usize = n;
    while hi > lo && is_space_char(s.get_char(hi - 1))
        invariant
            lo <= hi <= n == s@.len(),
            forall|i: int| hi <= i < n ==> is_space(#[trigger] s@[i]),
            !is_space(s@[lo as int]),
        decreases hi,
    {
        hi = hi - 1;
    }
    proof {
        let t = s@.skip(lo as int);
        assert(forall|i: int|
            hi - lo <= i < t.len() ==> is_space(#[trigger] t[i]) == is_space(s@[i + lo]));
        assert(hi > lo);
        assert(!is_space(t[hi - lo - 1]));
        lemma_trim_back_take(t, hi - lo);
        assert(trimmed(s@) =~= s@.subrange(lo as int, hi as int));
    }
    let r = hi - lo == 1 && s.get_char(lo) == '0';
    proof {
        if hi - lo == 1 {
            assert(s@.subrange(lo as int, hi as int) =~= seq![s@[lo as int]]);
        } else {
            assert(trimmed(s@).len() != 1);
        }
    }
    r
}

impl Instance {
    /// The privilege check's decision on the backend's reported user
    /// id: the isolation backend can only be driven as the superuser.
    /// Absence of the output means the id could not be queried at all.
    pub fn check_root_permission(uid_output: &Option<String>) -> (r: Result<(), InstanceError>)
        ensures
            match r {
                Ok(u) => uid_output matches Some(s) && trimmed(s@) == seq!['0'],
                Err(e) => match uid_output {
                    Some(s) => trimmed(s@) != seq!['0'] && (e
                        matches InstanceError::PermissionError(m) && m@
                        == "isolate must be run as root"@),
                    None => e matches InstanceError::PermissionError(m) && m@
                        == "unable to get current user id"@,
                },
            },
    {
        match uid_output {
            Some(out) => {
                if is_root_uid(out.as_str()) {
                    Ok(())
                } else {
                    Err(InstanceError::PermissionError("isolate must be run as root".to_owned()))
                }
            },
            None => Err(
                InstanceError::PermissionError("unable to get current user id".to_owned()),
            ),
        }
    }

    /// The slot directory reported by a successful claim, without its
    /// trailing line break.
    pub open spec fn strip_trailing_newline(s: Seq<char>) -> Seq<char> {
        if s.len() > 0 && s.last() == '\n' {
            s.drop_last()
        } else {
            s
        }
    }

    /// Records the outcome of claiming the isolation slot: on success
    /// the staging directory becomes the reported path joined with
    /// "box", and the metrics log file is placed under the temporary
    /// storage path, keyed by the slot id. Absence of the claim output
    /// means the backend could not be invoked.
    pub fn set_claimed_paths(&mut self, claim_stdout: &Option<String>, tmp_path: &str) -> (r:
        Result<(), InstanceError>)
        ensures
            match r {
                Ok(u) => {
                    &&& claim_stdout matches Some(out) && final(self).box_path@
                        == Self::strip_trailing_newline(out@) + "/box"@
                    &&& final(self).log_file@ == tmp_path@ + "/tmp_log_"@ + dec_str(
                        old(self).box_id as nat,
                    ) + ".txt"@
                },
                Err(e) => {
                    &&& claim_stdout is None
                    &&& final(self).box_path == old(self).box_path
                    &&& final(self).log_file == old(self).log_file
                    &&& (e matches InstanceError::PermissionError(m) && m@
                        == "Unable to run isolate --init command."@)
                },
            },
            final(self).box_id == old(self).box_id,
            final(self).bin_path == old(self).bin_path,
            final(self).time_limit_ms == old(self).time_limit_ms,
            final(self).memory_limit == old(self).memory_limit,
            final(self).input_path == old(self).input_path,
            final(self).output_path == old(self).output_path,
            final(self).runner_path == old(self).runner_path,
    {
        let out = match claim_stdout {
            Some(out) => out,
            None => {
                return Err(
                    InstanceError::PermissionError(
                        "Unable to run isolate --init command.".to_owned(),
                    ),
                );
            },
        };
        let n = out.as_str().unicode_len();
        let mut bp: String = if n > 0 && out.as_str().get_char(n - 1) == '\n' {
            String::from_str(out.as_str().substring_char(0, n - 1))
        } else {
            out.clone()
        };
        bp.append("/box");
        self.box_path = bp;
        let mut lf = String::from_str(tmp_path);
        lf.append("/tmp_log_");
        let id_str = u64_to_string(self.box_id as u64);
        lf.append(id_str.as_str());
        lf.append(".txt");
        self.log_file = lf;
        Ok(())
    }

    /// Maps the three staging steps' outcomes to the result of
    /// initialization: the first failing copy aborts it, and the error
    /// names exactly which file could not be staged.
    pub fn staging_outcome(copied_input: bool, copied_bin: bool, copied_runner: bool) -> (r:
        Result<(), InstanceError>)
        ensures
            match r {
                Ok(u) => copied_input && copied_bin && copied_runner,
                Err(e) => {
                    ||| (!copied_input && (e matches InstanceError::PermissionError(m) && m@
                        == "Unable to copy input file into box directory"@))
                    ||| (copied_input && !copied_bin && (e
                        matches InstanceError::PermissionError(m) && m@
                        == "Unable to copy user exec file into box directory"@))
                    ||| (copied_input && copied_bin && !copied_runner && (e
                        matches InstanceError::PermissionError(m) && m@
                        == "Unable to copy runner script into box directory"@))
                },
            },
    {
        if !copied_input {
            Err(
                InstanceError::PermissionError(
                    "Unable to copy input file into box directory".to_owned(),
                ),
            )
        } else if !copied_bin {
            Err(
                InstanceError::PermissionError(
                    "Unable to copy user exec file into box directory".to_owned(),
                ),
            )
        } else if !copied_runner {
            Err(
                InstanceError::PermissionError(
                    "Unable to copy runner script into box directory".to_owned(),
                ),
            )
        } else {
            Ok(())
        }
    }

    /// Maps the two release steps' outcomes to the result of cleanup:
    /// a failure is reported with the failing step named, never
    /// silently swallowed, but both steps are always attempted.
    pub fn cleanup_outcome(slot_released: bool, log_removed: bool) -> (r: Result<
        (),
        InstanceError,
    >)
        ensures
            match r {
                Ok(u) => slot_released && log_removed,
                Err(e) => {
                    ||| (!slot_released && (e matches InstanceError::PermissionError(m) && m@
                        == "Unable to cleanup isolate --cleanup command."@))
                    ||| (slot_released && !log_removed && (e
                        matches InstanceError::PermissionError(m) && m@
                        == "Unable to remove log file."@))
                },
            },
    {
        if !slot_released {
            Err(
                InstanceError::PermissionError(
                    "Unable to cleanup isolate --cleanup command.".to_owned(),
                ),
            )
        } else if !log_removed {
            Err(InstanceError::PermissionError("Unable to remove log file.".to_owned()))
        } else {
            Ok(())
        }
    }

    /// The argument list handed to the isolation backend: the slot id,
    /// the metrics file, the CPU limit, a wall-clock limit five seconds
    /// above it (to tell CPU exhaustion from an I/O stall), a one-second
    /// grace window, the fixed stream names, the staged runner, control
    ///-group accounting, a process-count ceiling, the memory ceiling,
    /// and optionally an extra directory to bind into the slot.
    pub open spec fn spec_arguments(self, alt_dir: Option<Seq<char>>) -> Seq<Seq<char>> {
        let base: Seq<Seq<char>> = seq![
            "-b"@,
            dec_str(self.box_id as nat),
            "-M"@,
            self.log_file@,
            "-t"@,
            seconds_str(self.time_limit_ms as nat),
            "-w"@,
            seconds_str((self.time_limit_ms + 5000) as nat),
            "-x"@,
            seconds_str((self.time_limit_ms + 1000) as nat),
            "-i"@,
            "input"@,
            "-o"@,
            "output"@,
            "--run"@,
            "--"@,
            "runner"@,
            "--cg"@,
            "--cg-timing"@,
            "--processes=128"@,
            "--cg-mem="@ + dec_str(self.memory_limit as nat),
        ];
        match alt_dir {
            None => base,
            Some(d) => base.push("--dir="@ + d),
        }
    }

    /// Builds the backend invocation from this configuration. The
    /// extra directory is bound only when the caller found the
    /// configured alternative path present on disk.
    pub fn get_arguments(&self, alt_dir: Option<&String>) -> (r: Vec<String>)
        requires
            self.time_limit_ms + 5000 <= u64::MAX,
        ensures
            r@.map_values(|s: String| s@) == self.spec_arguments(
                match alt_dir {
                    Some(d) => Some(d@),
                    None => None,
                },
            ),
    {
        let mut args: Vec<String> = Vec::new();
        args.push(String::from_str("-b"));
        args.push(u64_to_string(self.box_id as u64));
        args.push(String::from_str("-M"));
        args.push(self.log_file.clone());
        args.push(String::from_str("-t"));
        args.push(millis_to_seconds_string(self.time_limit_ms));
        args.push(String::from_str("-w"));
        args.push(millis_to_seconds_string(self.time_limit_ms + 5000));
        args.push(String::from_str("-x"));
        args.push(millis_to_seconds_string(self.time_limit_ms + 1000));
        args.push(String::from_str("-i"));
        args.push(String::from_str("input"));
        args.push(String::from_str("-o"));
        args.push(String::from_str("output"));
        args.push(String::from_str("--run"));
        args.push(String::from_str("--"));
        args.push(String::from_str("runner"));
        args.push(String::from_str("--cg"));
        args.push(String::from_str("--cg-timing"));
        args.push(String::from_str("--processes=128"));
        let mut mem = String::from_str("--cg-mem=");
        let mem_str = u64_to_string(self.memory_limit);
        mem.append(mem_str.as_str());
        args.push(mem);
        match alt_dir {
            Some(d) => {
                let mut extra = String::from_str("--dir=");
                extra.append(d.as_str());
                args.push(extra);
                proof {
                    assert(args@.map_values(|s: String| s@) =~= self.spec_arguments(Some(d@)));
                }
            },
            None => {
                proof {
                    assert(args@.map_values(|s: String| s@) =~= self.spec_arguments(
                        None::<Seq<char>>,
                    ));
                }
            },
        }
        args
    }

    /// The metrics one run is judged by: the parsed log with the
    /// measured output size patched in; the log itself carries none.
    pub open spec fn observed_metrics(log: Seq<char>, output_size: u64) -> RunMetrics {
        RunMetrics { output_size: output_size as u64, ..spec_run_metrics(log) }
    }

    /// This instance's configured ceilings, with the output ceiling
    /// the caller enforces on the produced stream.
    pub open spec fn run_limits(self, output_limit: u64) -> RunLimits {
        RunLimits {
            time_ms: self.time_limit_ms,
            memory: self.memory_limit,
            output_bytes: output_limit,
        }
    }

    /// Judges one run from what the backend reported. Absence of the
    /// metrics log means the backend could not be invoked at all;
    /// otherwise the parsed metrics are classified against this
    /// instance's limits, untrustworthy metrics yielding the
    /// infrastructure verdict through the classifier.
    pub fn evaluate_run(&self, log_content: Option<&String>, output_size: u64, output_limit: u64)
        -> (r: Result<InstanceResult, InstanceError>)
        ensures
            match r {
                Ok(ir) => {
                    &&& log_content matches Some(l) && ir.status == classify_spec(
                        Self::observed_metrics(l@, output_size),
                        self.run_limits(output_limit),
                    ) && ir.time_usage == spec_run_metrics(l@).time_ms && ir.memory_usage
                        == spec_run_metrics(l@).memory
                },
                Err(e) => log_content is None && (e matches InstanceError::PermissionError(m)
                    && m@ == "Unable to run isolate."@),
            },
    {
        let log = match log_content {
            Some(l) => l,
            None => {
                return Err(InstanceError::PermissionError("Unable to run isolate.".to_owned()));
            },
        };
        let mut m = parse_run_metrics(log.as_str());
        m.output_size = output_size;
        let lims = RunLimits {
            time_ms: self.time_limit_ms,
            memory: self.memory_limit,
            output_bytes: output_limit,
        };
        let v = classify(&m, &lims);
        Ok(InstanceResult { status: v, time_usage: m.time_ms, memory_usage: m.memory })
    }
}

} // verus!
