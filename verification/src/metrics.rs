use vstd::prelude::*;
use vstd::string::{StrSliceExecFns, StringExecFns};

use crate::numstr::{all_digits, dec_val, millis_of_decimal, parse_seconds_to_millis, parse_u64};
use crate::verdict::RunMetrics;

verus! {

/// The position of the first line break at or after i, if any.
pub open spec fn find_nl(s: Seq<char>, i: nat) -> Option<nat>
    decreases s.len() - i,
    when i <= s.len()
{
    if i >= s.len() {
        None
    } else if s[i as int] == '\n' {
        Some(i)
    } else {
        find_nl(s, i + 1)
    }
}

/// The text split at line breaks: the metrics log's lines, in order.
pub open spec fn lines_of(s: Seq<char>) -> Seq<Seq<char>>
    decreases s.len(),
    via lines_of_decreases
{
    match find_nl(s, 0) {
        None => seq![s],
        Some(i) => seq![s.take(i as int)] + lines_of(s.skip(i as int + 1)),
    }
}

/// A found line break lies inside the text.
proof fn lemma_find_nl_some(s: Seq<char>, i: nat)
    requires
        i <= s.len(),
        find_nl(s, i) is Some,
    ensures
        match find_nl(s, i) {
            Some(j) => i <= j < s.len() && s[j as int] == '\n',
            None => false,
        },
    decreases s.len() - i,
{
    if i < s.len() && s[i as int] != '\n' {
        lemma_find_nl_some(s, i + 1);
    }
}

#[via_fn]
proof fn lines_of_decreases(s: Seq<char>) {
    match find_nl(s, 0) {
        Some(i) => {
            lemma_find_nl_some(s, 0);
        },
        None => {},
    }
}

/// The lines' views.
pub open spec fn views_of(v: Seq<String>) -> Seq<Seq<char>> {
    v.map_values(|x: String| x@)
}

pub open spec fn starts_with(l: Seq<char>, p: Seq<char>) -> bool {
    l.len() >= p.len() && l.take(p.len() as int) == p
}

/// The value of the first line of the form "key:value".
pub open spec fn find_field(lines: Seq<Seq<char>>, prefix: Seq<char>) -> Option<Seq<char>>
    decreases lines.len(),
{
    if lines.len() == 0 {
        None
    } else if starts_with(lines[0], prefix) {
        Some(lines[0].skip(prefix.len() as int))
    } else {
        find_field(lines.skip(1), prefix)
    }
}

/// The value the metrics log reports under a key, as the backend
/// writes it: one "key:value" line per metric.
pub open spec fn spec_field(log: Seq<char>, key: Seq<char>) -> Option<Seq<char>> {
    find_field(lines_of(log), key + ":"@)
}

proof fn lemma_find_nl_at(s: Seq<char>, k: int)
    requires
        0 <= k <= s.len(),
        forall|j: int| 0 <= j < k ==> s[j] != '\n',
        k == s.len() || s[k] == '\n',
    ensures
        find_nl(s, 0) == if k == s.len() {
            None::<nat>
        } else {
            Some(k as nat)
        },
{
    lemma_find_nl_from(s, k, 0);
}

proof fn lemma_find_nl_from(s: Seq<char>, k: int, i: int)
    requires
        0 <= i <= k <= s.len(),
        forall|j: int| 0 <= j < k ==> s[j] != '\n',
        k == s.len() || s[k] == '\n',
    ensures
        find_nl(s, i as nat) == if k == s.len() {
            None::<nat>
        } else {
            Some(k as nat)
        },
    decreases k - i,
{
    if i < k {
        lemma_find_nl_from(s, k, i + 1);
    }
}

/// Splits text into its lines.
pub fn split_lines(s: &str) -> (r: Vec<String>)
    ensures
        views_of(r@) == lines_of(s@),
{
    let n = s.unicode_len();
    let mut out: Vec<String> = Vec::new();
    proof {
        assert(s@.skip(0) =~= s@);
        assert(views_of(out@) =~= Seq::<Seq<char>>::empty());
        assert(Seq::<Seq<char>>::empty() + lines_of(s@) =~= lines_of(s@));
    }
    let mut start: usize = 0;
    let mut i: usize = 0;
    while i < n
        invariant
            0 <= start <= i <= n == s@.len(),
            forall|j: int| start <= j < i ==> s@[j] != '\n',
            lines_of(s@) =~= views_of(out@) + lines_of(s@.skip(start as int)),
        decreases n - i,
    {
        if s.get_char(i) == '\n' {
            let line = String::from_str(s.substring_char(start, i));
            proof {
                let t = s@.skip(start as int);
                assert(forall|j: int|
                    0 <= j < i - start ==> t[j] == s@[j + start] && s@[j + start] != '\n');
                assert(t[i - start] == s@[i as int]);
                lemma_find_nl_at(t, i - start);
                assert(t.take(i - start) =~= s@.subrange(start as int, i as int));
                assert(t.skip(i - start + 1) =~= s@.skip(i as int + 1));
                assert(lines_of(t) =~= seq![s@.subrange(start as int, i as int)] + lines_of(
                    s@.skip(i as int + 1),
                ));
            }
            out.push(line);
            start = i + 1;
        }
        i = i + 1;
    }
    let last = String::from_str(s.substring_char(start, n));
    proof {
        let t = s@.skip(start as int);
        assert(forall|j: int| 0 <= j < n - start ==> t[j] == s@[j + start] && s@[j + start] != '\n');
        lemma_find_nl_at(t, n - start);
        assert(lines_of(t) =~= seq![t]);
        assert(t =~= s@.subrange(start as int, n as int));
    }
    out.push(last);
    proof {
        assert(views_of(out@) =~= lines_of(s@));
    }
    out
}

/// Looks the value of one "key:value" metrics line up.
pub fn get_field(log: &str, key: &str) -> (r: Option<String>)
    ensures
        match r {
            Some(v) => spec_field(log@, key@) == Some(v@),
            None => spec_field(log@, key@) is None,
        },
{
    let lines = split_lines(log);
    let mut pref: String = key.to_owned();
    pref.append(":");
    proof {
        reveal_strlit(":");
        assert(pref@ =~= key@ + ":"@);
        assert(views_of(lines@).skip(0) =~= views_of(lines@));
    }
    let klen = pref.as_str().unicode_len();
    let ghost lv = views_of(lines@);
    let mut i: usize = 0;
    while i < lines.len()
        invariant
            lv == views_of(lines@),
            lv == lines_of(log@),
            pref@ == key@ + ":"@,
            klen == pref@.len(),
            0 <= i <= lines@.len(),
            find_field(lv, pref@) == find_field(lv.skip(i as int), pref@),
        decreases lines@.len() - i,
    {
        proof {
            assert(lv.skip(i as int)[0] == lv[i as int]);
            assert(lv[i as int] == lines@[i as int]@);
        }
        let l = &lines[i];
        let ll = l.as_str().unicode_len();
        if ll >= klen {
            let head = String::from_str(l.as_str().substring_char(0, klen));
            if head.eq(&pref) {
                proof {
                    assert(lv[i as int].take(klen as int) =~= head@);
                    assert(starts_with(lv.skip(i as int)[0], pref@));
                }
                let val = l.as_str().substring_char(klen, ll).to_owned();
                proof {
                    assert(lv[i as int].skip(klen as int) =~= val@);
                    assert(find_field(lv.skip(i as int), pref@) == Some(
                        lv.skip(i as int)[0].skip(pref@.len() as int),
                    ));
                    assert(lv.skip(i as int)[0].skip(pref@.len() as int) == val@);
                    assert(spec_field(log@, key@) == Some(val@));
                }
                return Some(val);
            }
            proof {
                assert(lv[i as int].take(klen as int) =~= head@);
            }
        }
        proof {
            assert(!starts_with(lv.skip(i as int)[0], pref@));
            assert(lv.skip(i as int).skip(1) =~= lv.skip(i as int + 1));
        }
        i = i + 1;
    }
    proof {
        assert(lv.skip(i as int).len() == 0);
    }
    None
}

/// The millisecond reading of an optional decimal-seconds text.
pub open spec fn text_millis(t: Option<Seq<char>>) -> Option<int> {
    match t {
        Some(x) => match millis_of_decimal(x) {
            Some(v) => if v <= u64::MAX {
                Some(v as int)
            } else {
                None
            },
            None => None,
        },
        None => None,
    }
}

/// The unsigned reading of an optional digit text.
pub open spec fn text_u64(t: Option<Seq<char>>) -> Option<int> {
    match t {
        Some(x) => if x.len() > 0 && all_digits(x) && dec_val(x) <= u64::MAX {
            Some(dec_val(x) as int)
        } else {
            None
        },
        None => None,
    }
}

/// A count clamped into u32, as the result fields carry it.
pub open spec fn cap32(v: int) -> int {
    if v > u32::MAX {
        u32::MAX as int
    } else {
        v
    }
}

/// The metrics one backend log reports: CPU time under "time" (decimal
/// seconds), memory under "cg-mem", the kill reason under "status"
/// ("TO" for a timeout kill, "XX" for a backend-internal failure, any
/// other value for an abnormal exit), and "cg-oom-killed" for the
/// control group's out-of-memory kill. Metrics are trustworthy only
/// when time and memory are readable and the backend reports no
/// internal failure. The output size is not in the log; it is zero
/// here and measured separately by the caller.
pub open spec fn spec_run_metrics(log: Seq<char>) -> RunMetrics {
    let t = text_millis(spec_field(log, "time"@));
    let mem = text_u64(spec_field(log, "cg-mem"@));
    let status = spec_field(log, "status"@);
    RunMetrics {
        metrics_valid: t is Some && mem is Some && status != Some("XX"@),
        timed_out: status == Some("TO"@),
        oom_killed: spec_field(log, "cg-oom-killed"@) == Some("1"@),
        exit_ok: status is None,
        time_ms: cap32(
            match t {
                Some(v) => v,
                None => 0,
            },
        ) as u32,
        memory: cap32(
            match mem {
                Some(v) => v,
                None => 0,
            },
        ) as u32,
        output_size: 0,
    }
}

fn cap_u32(v: u64) -> (r: u32)
    ensures
        r == cap32(v as int),
{
    if v > u32::MAX as u64 {
        u32::MAX
    } else {
        v as u32
    }
}

/// Parses one backend metrics log into the classifier's input.
pub fn parse_run_metrics(log: &str) -> (m: RunMetrics)
    ensures
        m == spec_run_metrics(log@),
{
    let t: Option<u64> = match get_field(log, "time") {
        Some(v) => parse_seconds_to_millis(v.as_str()),
        None => None,
    };
    let mem: Option<u64> = match get_field(log, "cg-mem") {
        Some(v) => parse_u64(v.as_str()),
        None => None,
    };
    let status = get_field(log, "status");
    let timed_out = match &status {
        Some(s) => s.eq(&String::from_str("TO")),
        None => false,
    };
    let xx = match &status {
        Some(s) => s.eq(&String::from_str("XX")),
        None => false,
    };
    let exit_ok = status.is_none();
    let oom = match get_field(log, "cg-oom-killed") {
        Some(s) => s.eq(&String::from_str("1")),
        None => false,
    };
    RunMetrics {
        metrics_valid: t.is_some() && mem.is_some() && !xx,
        timed_out,
        oom_killed: oom,
        exit_ok,
        time_ms: cap_u32(
            match t {
                Some(v) => v,
                None => 0,
            },
        ),
        memory: cap_u32(
            match mem {
                Some(v) => v,
                None => 0,
            },
        ),
        output_size: 0,
    }
}

} // verus!
