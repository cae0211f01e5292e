use vstd::prelude::*;

use crate::error::InstanceError;

verus! {

/// Ceilings a valid manifest keeps its group table under, so that every
/// score computation below fits in u64 arithmetic.
pub const MAX_GROUPS: u64 = 1000;

pub const MAX_GROUP_TESTS: u64 = 1000000;

pub const MAX_FULL_SCORE: u64 = 1000000000;

/// The outcome of one (submission, test) pair. Times are in
/// milliseconds; `score_milli` is in thousandths of a point.
#[derive(Debug)]
pub struct RunResult {
    pub submission_id: String,
    pub test_index: u64,
    pub status: String,
    pub time_usage_ms: u64,
    pub memory_usage: u64,
    pub score_milli: u64,
    pub message: String,
}

/// The aggregated outcome of one manifest group.
#[derive(Debug)]
pub struct GroupResult {
    pub score_milli: u64,
    pub full_score: u64,
    pub submission_id: String,
    pub group_index: u64,
    pub run_result: Vec<RunResult>,
}

/// The aggregated outcome of one submission.
#[derive(Debug)]
pub struct SubmissionResult {
    pub score_milli: u64,
    pub full_score: u64,
    pub submission_id: String,
    pub group_result: Vec<GroupResult>,
}

impl RunResult {
    /// A fresh result for one executed test: verdict, score and message
    /// still empty.
    pub fn from(submission_id: &str, index: u64, time_usage_ms: u64, memory_usage: u64) -> (r:
        RunResult)
        ensures
            r.submission_id@ == submission_id@,
            r.test_index == index,
            r.time_usage_ms == time_usage_ms,
            r.memory_usage == memory_usage,
            r.status@ == Seq::<char>::empty(),
            r.score_milli == 0,
            r.message@ == Seq::<char>::empty(),
    {
        RunResult {
            submission_id: submission_id.to_owned(),
            test_index: index,
            status: String::new(),
            time_usage_ms,
            memory_usage,
            score_milli: 0,
            message: String::new(),
        }
    }
}

impl GroupResult {
    /// A fresh result for one manifest group, before any run results
    /// are attached.
    pub fn from(full_score: u64, submission_id: &str, index: u64) -> (r: GroupResult)
        ensures
            r.full_score == full_score,
            r.submission_id@ == submission_id@,
            r.group_index == index,
            r.score_milli == 0,
            r.run_result@ == Seq::<RunResult>::empty(),
    {
        GroupResult {
            score_milli: 0,
            full_score,
            submission_id: submission_id.to_owned(),
            group_index: index,
            run_result: Vec::new(),
        }
    }
}

/// The manifest's group table is sound: every group has at least one
/// test, and the table stays under the ceilings that keep score
/// arithmetic in u64.
pub open spec fn groups_wf(groups: Seq<(u64, u64)>) -> bool {
    &&& groups.len() <= MAX_GROUPS
    &&& forall|k: int|
        0 <= k < groups.len() ==> 0 < (#[trigger] groups[k]).1 <= MAX_GROUP_TESTS && groups[k].0
            <= MAX_FULL_SCORE
}

/// The first test index owned by group k: test indices start at 1 and
/// are assigned contiguously across groups in declaration order.
pub open spec fn group_test_start(groups: Seq<(u64, u64)>, k: int) -> int
    decreases k,
{
    if k <= 0 {
        1
    } else {
        group_test_start(groups, k - 1) + groups[k - 1].1
    }
}

/// The total number of tests the manifest drives: the sum of all group
/// test counts.
pub open spec fn spec_total_tests(groups: Seq<(u64, u64)>) -> int {
    group_test_start(groups, groups.len() as int) - 1
}

/// The sum of all group full scores.
pub open spec fn spec_total_full_score(groups: Seq<(u64, u64)>) -> int
    decreases groups.len(),
{
    if groups.len() == 0 {
        0
    } else {
        spec_total_full_score(groups.drop_last()) + groups.last().0
    }
}

/// Some group owns test index t.
pub open spec fn test_covered(groups: Seq<(u64, u64)>, t: int) -> bool {
    exists|k: int| group_owns(groups, k, t)
}

/// Group k owns test index t.
pub open spec fn group_owns(groups: Seq<(u64, u64)>, k: int, t: int) -> bool {
    &&& 0 <= k < groups.len()
    &&& group_test_start(groups, k) <= t < group_test_start(groups, k) + groups[k].1
}

/// Starts never decrease as the group index grows.
proof fn lemma_start_monotone(groups: Seq<(u64, u64)>, k1: int, k2: int)
    requires
        k1 <= k2,
    ensures
        group_test_start(groups, k1) <= group_test_start(groups, k2),
    decreases k2 - k1,
{
    if k1 < k2 {
        lemma_start_monotone(groups, k1, k2 - 1);
    }
}

proof fn lemma_find_group(groups: Seq<(u64, u64)>, t: int, k: int)
    requires
        0 <= k <= groups.len(),
        1 <= t < group_test_start(groups, k),
    ensures
        exists|j: int| 0 <= j < k && group_owns(groups, j, t),
    decreases k,
{
    if k == 0 {
    } else if t >= group_test_start(groups, k - 1) {
        assert(group_owns(groups, k - 1, t));
    } else {
        lemma_find_group(groups, t, k - 1);
        let j = choose|j: int| 0 <= j < k - 1 && group_owns(groups, j, t);
        assert(group_owns(groups, j, t));
    }
}

/// The group ranges a manifest assigns are contiguous, non-overlapping,
/// and cover test indices 1..total exactly once; their sizes sum to the
/// total test count.
pub proof fn lemma_group_ranges_partition(groups: Seq<(u64, u64)>)
    ensures
        group_test_start(groups, 0) == 1,
        forall|k: int|
            0 <= k < groups.len() ==> #[trigger] group_test_start(groups, k + 1)
                == group_test_start(groups, k) + groups[k].1,
        forall|t: int| 1 <= t <= spec_total_tests(groups) ==> #[trigger] test_covered(groups, t),
        forall|k1: int, k2: int, t: int|
            #[trigger] group_owns(groups, k1, t) && #[trigger] group_owns(groups, k2, t) ==> k1
                == k2,
{
    assert forall|t: int| 1 <= t <= spec_total_tests(groups) implies #[trigger] test_covered(
        groups,
        t,
    ) by {
        lemma_find_group(groups, t, groups.len() as int);
        let j = choose|j: int|
            0 <= j < groups.len() && group_owns(groups, j, t);
        assert(group_owns(groups, j, t));
    }
    assert forall|k1: int, k2: int, t: int|
        #[trigger] group_owns(groups, k1, t) && #[trigger] group_owns(groups, k2, t) implies k1
        == k2 by {
        if k1 < k2 {
            lemma_start_monotone(groups, k1 + 1, k2);
        } else if k2 < k1 {
            lemma_start_monotone(groups, k2 + 1, k1);
        }
    }
}

proof fn lemma_start_drop_last(groups: Seq<(u64, u64)>, k: int)
    requires
        0 <= k < groups.len(),
    ensures
        group_test_start(groups.drop_last(), k) == group_test_start(groups, k),
    decreases k,
{
    if k > 0 {
        lemma_start_drop_last(groups, k - 1);
    }
}

/// The total test count is the sum of the group test counts.
pub proof fn lemma_total_tests_is_sum(groups: Seq<(u64, u64)>)
    ensures
        spec_total_tests(groups) == sum_counts(groups),
    decreases groups.len(),
{
    if groups.len() > 0 {
        lemma_total_tests_is_sum(groups.drop_last());
        lemma_start_drop_last(groups, groups.len() - 1);
    }
}

/// The sum of the group test counts.
pub open spec fn sum_counts(groups: Seq<(u64, u64)>) -> int
    decreases groups.len(),
{
    if groups.len() == 0 {
        0
    } else {
        sum_counts(groups.drop_last()) + groups.last().1
    }
}

/// The totals of a sound group table stay under the u64 ceilings.
pub proof fn lemma_totals_bounded(groups: Seq<(u64, u64)>)
    requires
        groups_wf(groups),
    ensures
        0 <= spec_total_tests(groups) <= groups.len() * (MAX_GROUP_TESTS as int),
        0 <= spec_total_full_score(groups) <= groups.len() * (MAX_FULL_SCORE as int),
    decreases groups.len(),
{
    if groups.len() == 0 {
    } else {
        assert(groups_wf(groups.drop_last()));
        lemma_totals_bounded(groups.drop_last());
        lemma_start_drop_last(groups, groups.len() - 1);
        assert(groups.last() == groups[groups.len() - 1]);
    }
}

/// Computes the total number of tests the manifest drives.
pub fn total_test_count(groups: &Vec<(u64, u64)>) -> (r: u64)
    requires
        groups_wf(groups@),
    ensures
        r == spec_total_tests(groups@),
        r <= MAX_GROUPS * MAX_GROUP_TESTS,
{
    proof {
        lemma_totals_bounded(groups@);
    }
    let mut total: u64 = 0;
    let mut k: usize = 0;
    while k < groups.len()
        invariant
            groups_wf(groups@),
            0 <= k <= groups@.len(),
            total == group_test_start(groups@, k as int) - 1,
            total <= k * (MAX_GROUP_TESTS as int),
        decreases groups@.len() - k,
    {
        total = total + groups[k].1;
        k = k + 1;
    }
    total
}

/// Computes the submission's total full score.
pub fn total_full_score(groups: &Vec<(u64, u64)>) -> (r: u64)
    requires
        groups_wf(groups@),
    ensures
        r == spec_total_full_score(groups@),
        r <= MAX_GROUPS * MAX_FULL_SCORE,
{
    proof {
        lemma_totals_bounded(groups@);
    }
    let mut total: u64 = 0;
    let mut k: usize = 0;
    while k < groups.len()
        invariant
            groups_wf(groups@),
            0 <= k <= groups@.len(),
            total == spec_total_full_score(groups@.take(k as int)),
            total <= k * (MAX_FULL_SCORE as int),
        decreases groups@.len() - k,
    {
        proof {
            assert(groups@.take(k as int + 1).drop_last() =~= groups@.take(k as int));
            assert(groups_wf(groups@.take(k as int + 1)));
            lemma_totals_bounded(groups@.take(k as int + 1));
        }
        total = total + groups[k].0;
        k = k + 1;
    }
    proof {
        assert(groups@.take(groups@.len() as int) =~= groups@);
    }
    total
}

/// A checker policy resolved from the manifest's `checker` name. Only
/// the system default, exact textual match, is registered here;
/// concrete named plugins live outside the core.
#[derive(Clone, Copy, Debug, PartialEq, Eq, Structural)]
pub enum CheckerKind {
    ExactMatch,
}

/// A grouper policy resolved from the manifest's `grouper` name. Only
/// the system default, the linear sum of per-test scores, is registered
/// here.
#[derive(Clone, Copy, Debug, PartialEq, Eq, Structural)]
pub enum GrouperKind {
    SumDefault,
}

/// Resolves the manifest's checker name against the registry: absence
/// selects the default; a name this registry does not hold is a
/// configuration error.
pub fn resolve_checker(name: &Option<String>) -> (r: Result<CheckerKind, InstanceError>)
    ensures
        match r {
            Ok(k) => name is None && k == CheckerKind::ExactMatch,
            Err(e) => name is Some && (e matches InstanceError::ConfigurationError(m) && m@
                == "unknown checker"@),
        },
{
    match name {
        None => Ok(CheckerKind::ExactMatch),
        Some(_) => Err(InstanceError::ConfigurationError("unknown checker".to_owned())),
    }
}

/// Resolves the manifest's grouper name against the registry: absence
/// selects the default; a name this registry does not hold is a
/// configuration error.
pub fn resolve_grouper(name: &Option<String>) -> (r: Result<GrouperKind, InstanceError>)
    ensures
        match r {
            Ok(k) => name is None && k == GrouperKind::SumDefault,
            Err(e) => name is Some && (e matches InstanceError::ConfigurationError(m) && m@
                == "unknown grouper"@),
        },
{
    match name {
        None => Ok(GrouperKind::SumDefault),
        Some(_) => Err(InstanceError::ConfigurationError("unknown grouper".to_owned())),
    }
}

/// The per-test weight the default grouper implies for a group, in
/// thousandths of a point.
pub open spec fn spec_group_weight(full_score: int, count: int) -> int {
    full_score * 1000 / count
}

pub fn group_weight_milli(full_score: u64, test_count: u64) -> (r: u64)
    requires
        0 < test_count,
        full_score <= MAX_FULL_SCORE,
    ensures
        r == spec_group_weight(full_score as int, test_count as int),
        r <= full_score * 1000,
{
    proof {
        assert((full_score as int * 1000) / (test_count as int) <= full_score as int * 1000)
            by (nonlinear_arith)
            requires
                0 < test_count,
                full_score >= 0,
        ;
    }
    (full_score * 1000) / test_count
}

/// The exact-match checker's score fraction, in thousandths: full
/// credit when the produced output equals the reference output,
/// otherwise zero.
pub fn run_exact_checker(produced: &String, reference: &String) -> (r: u64)
    ensures
        r == (if produced@ == reference@ {
            1000int
        } else {
            0int
        }),
{
    if produced.eq(reference) {
        1000
    } else {
        0
    }
}

/// Scores one run result: delegates to the checker, then scales the
/// returned fraction to the per-test weight. Only the score changes.
pub fn score_test(
    run: &mut RunResult,
    checker: CheckerKind,
    input: &String,
    produced: &String,
    reference: &String,
    weight_milli: u64,
)
    requires
        weight_milli <= MAX_FULL_SCORE * 1000,
    ensures
        final(run).score_milli == (if produced@ == reference@ {
            weight_milli as int
        } else {
            0int
        }),
        final(run).submission_id == old(run).submission_id,
        final(run).test_index == old(run).test_index,
        final(run).status == old(run).status,
        final(run).time_usage_ms == old(run).time_usage_ms,
        final(run).memory_usage == old(run).memory_usage,
        final(run).message == old(run).message,
{
    let ratio: u64 = match checker {
        CheckerKind::ExactMatch => run_exact_checker(produced, reference),
    };
    proof {
        assert(ratio * weight_milli <= 1000 * weight_milli) by (nonlinear_arith)
            requires
                ratio <= 1000,
                weight_milli >= 0,
        ;
        assert((1000 * weight_milli) / 1000 == weight_milli) by (nonlinear_arith);
    }
    run.score_milli = (ratio * weight_milli) / 1000;
}

/// How many of a group's runs scored their full per-test weight.
pub open spec fn spec_full_count(runs: Seq<RunResult>, weight: int) -> int
    decreases runs.len(),
{
    if runs.len() == 0 {
        0
    } else {
        spec_full_count(runs.drop_last(), weight) + if runs.last().score_milli == weight {
            1int
        } else {
            0int
        }
    }
}

/// The default grouper's group score: the fraction of fully scored
/// tests, scaled by the group's full score, in thousandths of a point.
pub open spec fn spec_group_score(full_score: int, count: int, n_full: int) -> int {
    full_score * 1000 * n_full / count
}

/// The runs hold exactly the contiguous test-index range the manifest
/// assigns to the group, in order.
pub open spec fn runs_match_range(runs: Seq<RunResult>, start: int, count: int) -> bool {
    &&& runs.len() == count
    &&& forall|i: int| 0 <= i < runs.len() ==> (#[trigger] runs[i]).test_index == start + i
}

proof fn lemma_full_count_le_len(runs: Seq<RunResult>, weight: int)
    ensures
        0 <= spec_full_count(runs, weight) <= runs.len(),
    decreases runs.len(),
{
    if runs.len() > 0 {
        lemma_full_count_le_len(runs.drop_last(), weight);
    }
}

/// Aggregates one group's ordered run results with the named grouper.
/// The runs must exactly match the group's assigned test-index range;
/// a mismatch is a fatal configuration error, never silently tolerated.
pub fn score_group(
    submission_id: &str,
    group_index: u64,
    full_score: u64,
    expected_start: u64,
    expected_count: usize,
    runs: Vec<RunResult>,
    grouper: GrouperKind,
) -> (r: Result<GroupResult, InstanceError>)
    requires
        full_score <= MAX_FULL_SCORE,
        0 < expected_count <= MAX_GROUP_TESTS,
        expected_start + expected_count <= u64::MAX,
    ensures
        match r {
            Ok(g) => {
                &&& runs_match_range(runs@, expected_start as int, expected_count as int)
                &&& g.full_score == full_score
                &&& g.group_index == group_index
                &&& g.submission_id@ == submission_id@
                &&& g.run_result@ == runs@
                &&& g.score_milli == spec_group_score(
                    full_score as int,
                    expected_count as int,
                    spec_full_count(
                        runs@,
                        spec_group_weight(full_score as int, expected_count as int),
                    ),
                )
                &&& g.score_milli <= full_score * 1000
            },
            Err(e) => {
                &&& !runs_match_range(runs@, expected_start as int, expected_count as int)
                &&& (e matches InstanceError::ConfigurationError(m) && m@
                    == "run results do not match the group's test range"@)
            },
        },
{
    if runs.len() != expected_count {
        return Err(
            InstanceError::ConfigurationError(
                "run results do not match the group's test range".to_owned(),
            ),
        );
    }
    let mut i: usize = 0;
    while i < runs.len()
        invariant
            runs@.len() == expected_count,
            expected_start + expected_count <= u64::MAX,
            0 <= i <= runs@.len(),
            forall|j: int| 0 <= j < i ==> (#[trigger] runs@[j]).test_index == expected_start + j,
        decreases runs@.len() - i,
    {
        if runs[i].test_index != expected_start + (i as u64) {
            return Err(
                InstanceError::ConfigurationError(
                    "run results do not match the group's test range".to_owned(),
                ),
            );
        }
        i = i + 1;
    }
    let weight = group_weight_milli(full_score, expected_count as u64);
    let ghost w = spec_group_weight(full_score as int, expected_count as int);
    let mut n_full: u64 = 0;
    let mut k: usize = 0;
    while k < runs.len()
        invariant
            runs@.len() == expected_count <= MAX_GROUP_TESTS,
            0 <= k <= runs@.len(),
            weight == w,
            n_full == spec_full_count(runs@.subrange(0, k as int), w),
            n_full <= k,
        decreases runs@.len() - k,
    {
        proof {
            assert(runs@.subrange(0, k as int + 1).drop_last() =~= runs@.subrange(0, k as int));
            assert(runs@.subrange(0, k as int + 1).last() == runs@[k as int]);
        }
        if runs[k].score_milli == weight {
            n_full = n_full + 1;
        }
        k = k + 1;
    }
    proof {
        assert(runs@.subrange(0, runs@.len() as int) =~= runs@);
    }
    let score: u64 = match grouper {
        GrouperKind::SumDefault => {
            proof {
                assert(full_score * 1000 * n_full <= full_score * 1000 * expected_count)
                    by (nonlinear_arith)
                    requires
                        n_full <= expected_count,
                        full_score >= 0,
                ;
                assert(full_score * 1000 * expected_count <= MAX_FULL_SCORE * 1000
                    * MAX_GROUP_TESTS) by (nonlinear_arith)
                    requires
                        full_score <= MAX_FULL_SCORE,
                        0 < expected_count <= MAX_GROUP_TESTS,
                ;
                assert(full_score as int * 1000 * n_full / (expected_count as int)
                    <= full_score as int * 1000) by (nonlinear_arith)
                    requires
                        0 < expected_count,
                        n_full <= expected_count,
                        full_score >= 0,
                ;
            }
            (full_score * 1000 * n_full) / (expected_count as u64)
        },
    };
    Ok(
        GroupResult {
            score_milli: score,
            full_score,
            submission_id: submission_id.to_owned(),
            group_index,
            run_result: runs,
        },
    )
}

/// The sum of the groups' scores, in thousandths of a point.
pub open spec fn sum_group_scores(gs: Seq<GroupResult>) -> int
    decreases gs.len(),
{
    if gs.len() == 0 {
        0
    } else {
        sum_group_scores(gs.drop_last()) + gs.last().score_milli
    }
}

/// The sum of the groups' full scores.
pub open spec fn sum_group_fulls(gs: Seq<GroupResult>) -> int
    decreases gs.len(),
{
    if gs.len() == 0 {
        0
    } else {
        sum_group_fulls(gs.drop_last()) + gs.last().full_score
    }
}

/// A submission result's scores are the straight sums of its groups'
/// scores, and every group's score is bounded by its own full score.
pub open spec fn submission_wf(s: SubmissionResult) -> bool {
    &&& s.score_milli == sum_group_scores(s.group_result@)
    &&& s.full_score == sum_group_fulls(s.group_result@)
    &&& forall|k: int|
        0 <= k < s.group_result@.len() ==> (#[trigger] s.group_result@[k]).score_milli
            <= s.group_result@[k].full_score * 1000
}

/// Sums already-aggregated group results into the submission result:
/// score and full score are straight sums over the groups, with no
/// further normalization.
pub fn score_submission(submission_id: &str, groups: Vec<GroupResult>) -> (r: SubmissionResult)
    requires
        groups@.len() <= MAX_GROUPS,
        forall|k: int|
            0 <= k < groups@.len() ==> (#[trigger] groups@[k]).full_score <= MAX_FULL_SCORE
                && groups@[k].score_milli <= groups@[k].full_score * 1000,
    ensures
        submission_wf(r),
        r.group_result@ == groups@,
        r.submission_id@ == submission_id@,
{
    let mut score: u64 = 0;
    let mut full: u64 = 0;
    let mut k: usize = 0;
    while k < groups.len()
        invariant
            groups@.len() <= MAX_GROUPS,
            forall|j: int|
                0 <= j < groups@.len() ==> (#[trigger] groups@[j]).full_score <= MAX_FULL_SCORE
                    && groups@[j].score_milli <= groups@[j].full_score * 1000,
            0 <= k <= groups@.len(),
            score == sum_group_scores(groups@.subrange(0, k as int)),
            full == sum_group_fulls(groups@.subrange(0, k as int)),
            full <= k * (MAX_FULL_SCORE as int),
            score <= k * (MAX_FULL_SCORE as int) * 1000,
        decreases groups@.len() - k,
    {
        proof {
            assert(groups@.subrange(0, k as int + 1).drop_last() =~= groups@.subrange(
                0,
                k as int,
            ));
            assert(groups@.subrange(0, k as int + 1).last() == groups@[k as int]);
            assert(groups@[k as int].score_milli <= MAX_FULL_SCORE * 1000) by (nonlinear_arith)
                requires
                    groups@[k as int].score_milli <= groups@[k as int].full_score * 1000,
                    groups@[k as int].full_score <= MAX_FULL_SCORE,
            ;
        }
        score = score + groups[k].score_milli;
        full = full + groups[k].full_score;
        k = k + 1;
    }
    proof {
        assert(groups@.subrange(0, groups@.len() as int) =~= groups@);
    }
    SubmissionResult { score_milli: score, full_score: full, submission_id: submission_id.to_owned(), group_result: groups }
}

/// Some run in the collection carries test index t.
pub open spec fn has_run(runs: Seq<RunResult>, t: int) -> bool {
    exists|j: int| 0 <= j < runs.len() && (#[trigger] runs[j]).test_index == t
}

/// The collection holds exactly one run result per test index 1..total,
/// by count and by presence.
pub open spec fn runs_complete(runs: Seq<RunResult>, total: int) -> bool {
    &&& runs.len() == total
    &&& forall|t: int| 1 <= t <= total ==> #[trigger] has_run(runs, t)
}

/// Finds the first run carrying test index t.
fn find_run(runs: &Vec<RunResult>, t: u64) -> (r: Option<usize>)
    ensures
        match r {
            Some(j) => j < runs@.len() && runs@[j as int].test_index == t && (forall|i: int|
                0 <= i < j ==> (#[trigger] runs@[i]).test_index != t),
            None => !has_run(runs@, t as int),
        },
{
    let mut j: usize = 0;
    while j < runs.len()
        invariant
            0 <= j <= runs@.len(),
            forall|i: int| 0 <= i < j ==> (#[trigger] runs@[i]).test_index != t,
        decreases runs@.len() - j,
    {
        if runs[j].test_index == t {
            return Some(j);
        }
        j = j + 1;
    }
    None
}

/// Copies one run result.
fn clone_run(r: &RunResult) -> (c: RunResult)
    ensures
        c == *r,
{
    RunResult {
        submission_id: r.submission_id.clone(),
        test_index: r.test_index,
        status: r.status.clone(),
        time_usage_ms: r.time_usage_ms,
        memory_usage: r.memory_usage,
        score_milli: r.score_milli,
        message: r.message.clone(),
    }
}

proof fn lemma_sum_fulls_match(gs: Seq<GroupResult>, cfg: Seq<(u64, u64)>)
    requires
        gs.len() == cfg.len(),
        forall|k: int| 0 <= k < gs.len() ==> (#[trigger] gs[k]).full_score == cfg[k].0,
    ensures
        sum_group_fulls(gs) == spec_total_full_score(cfg),
    decreases gs.len(),
{
    if gs.len() > 0 {
        lemma_sum_fulls_match(gs.drop_last(), cfg.drop_last());
    }
}

/// One output group of the aggregation, as the manifest's group table
/// prescribes it: the group's own identity and full score, its runs
/// matching the assigned test-index range, and the named grouper's
/// score for exactly those runs.
pub open spec fn aggregated_group_ok(
    g: GroupResult,
    cfg: Seq<(u64, u64)>,
    k: int,
    submission_id: Seq<char>,
) -> bool {
    &&& g.full_score == cfg[k].0
    &&& g.group_index == k
    &&& g.submission_id@ == submission_id
    &&& runs_match_range(g.run_result@, group_test_start(cfg, k), cfg[k].1 as int)
    &&& g.score_milli == spec_group_score(
        cfg[k].0 as int,
        cfg[k].1 as int,
        spec_full_count(g.run_result@, spec_group_weight(cfg[k].0 as int, cfg[k].1 as int)),
    )
    &&& g.score_milli <= cfg[k].0 * 1000
}

/// Drives the whole aggregation for one submission: reorders the
/// supplied run results by test index, partitions them into the
/// manifest's groups, applies the grouper per group, and sums the
/// group results. Succeeds exactly when the run results cover the
/// manifest's test range once each; any mismatch is a fatal
/// configuration error.
pub fn aggregate_submission(
    submission_id: &str,
    groups_cfg: &Vec<(u64, u64)>,
    runs: &Vec<RunResult>,
    grouper: GrouperKind,
) -> (r: Result<SubmissionResult, InstanceError>)
    requires
        groups_wf(groups_cfg@),
    ensures
        match r {
            Ok(s) => {
                &&& runs_complete(runs@, spec_total_tests(groups_cfg@))
                &&& submission_wf(s)
                &&& s.submission_id@ == submission_id@
                &&& s.group_result@.len() == groups_cfg@.len()
                &&& forall|k: int|
                    0 <= k < groups_cfg@.len() ==> aggregated_group_ok(
                        #[trigger] s.group_result@[k],
                        groups_cfg@,
                        k,
                        submission_id@,
                    )
                &&& s.full_score == spec_total_full_score(groups_cfg@)
            },
            Err(e) => {
                &&& !runs_complete(runs@, spec_total_tests(groups_cfg@))
                &&& e is ConfigurationError
            },
        },
{
    let total = total_test_count(groups_cfg);
    if runs.len() as u64 != total {
        return Err(
            InstanceError::ConfigurationError(
                "run results do not cover the manifest's test range".to_owned(),
            ),
        );
    }
    let mut out_groups: Vec<GroupResult> = Vec::new();
    let mut next_t: u64 = 1;
    let mut k: usize = 0;
    while k < groups_cfg.len()
        invariant
            groups_wf(groups_cfg@),
            runs@.len() == total == spec_total_tests(groups_cfg@),
            total <= MAX_GROUPS * MAX_GROUP_TESTS,
            0 <= k <= groups_cfg@.len(),
            next_t == group_test_start(groups_cfg@, k as int),
            1 <= next_t <= total + 1,
            out_groups@.len() == k,
            forall|j: int|
                0 <= j < k ==> aggregated_group_ok(
                    #[trigger] out_groups@[j],
                    groups_cfg@,
                    j,
                    submission_id@,
                ),
            forall|t: int| 1 <= t < next_t ==> #[trigger] has_run(runs@, t),
        decreases groups_cfg@.len() - k,
    {
        let full = groups_cfg[k].0;
        let count = groups_cfg[k].1;
        proof {
            lemma_start_monotone(groups_cfg@, k as int + 1, groups_cfg@.len() as int);
            assert(next_t + count <= total + 1);
        }
        let mut grp: Vec<RunResult> = Vec::new();
        let mut i: u64 = 0;
        while i < count
            invariant
                groups_wf(groups_cfg@),
                runs@.len() == total == spec_total_tests(groups_cfg@),
                0 <= i <= count,
                1 <= next_t,
                next_t + count <= total + 1,
                total <= MAX_GROUPS * MAX_GROUP_TESTS,
                grp@.len() == i,
                forall|j: int|
                    0 <= j < i ==> (#[trigger] grp@[j]).test_index == next_t + j,
                forall|j: int|
                    0 <= j < i ==> exists|l: int|
                        0 <= l < runs@.len() && #[trigger] grp@[j] == runs@[l],
                forall|t: int| 1 <= t < next_t + i ==> #[trigger] has_run(runs@, t),
            decreases count - i,
        {
            match find_run(runs, next_t + i) {
                None => {
                    proof {
                        let t = (next_t + i) as int;
                        assert(1 <= t <= spec_total_tests(groups_cfg@));
                        assert(!has_run(runs@, t));
                    }
                    return Err(
                        InstanceError::ConfigurationError(
                            "run results do not cover the manifest's test range".to_owned(),
                        ),
                    );
                },
                Some(j) => {
                    let c = clone_run(&runs[j]);
                    grp.push(c);
                    proof {
                        assert(runs@[j as int].test_index == next_t + i);
                        assert(has_run(runs@, next_t + i as int));
                    }
                },
            }
            i = i + 1;
        }
        let g = match score_group(
            submission_id,
            k as u64,
            full,
            next_t,
            count as usize,
            grp,
            grouper,
        ) {
            Ok(g) => g,
            Err(e) => {
                proof {
                    assert(false);
                }
                return Err(e);
            },
        };
        out_groups.push(g);
        next_t = next_t + count;
        k = k + 1;
    }
    proof {
        assert(next_t == total + 1);
    }
    let sub = score_submission(submission_id, out_groups);
    proof {
        lemma_sum_fulls_match(sub.group_result@, groups_cfg@);
    }
    Ok(sub)
}

} // verus!
