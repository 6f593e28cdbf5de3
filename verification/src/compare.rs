//! The runtime comparison engine: matches jobs between a base run set and a
//! candidate run set, computes relative runtime deltas, and produces a
//! deterministic, ordered comparison result.

use vstd::prelude::*;

use crate::job::{JobRecord, JobRecordView};

verus! {

/// The runtime comparison of one job that is present on both sides.
///
/// The percentage change of the candidate runtime relative to the base
/// runtime is carried exactly, in hundredths of a percent rounded to the
/// nearest (ties away from zero): positive means slower, negative means
/// faster.
#[derive(Clone, Debug, PartialEq, Eq)]
pub struct Comparison {
    pub job_name: String,
    pub base_runtime_seconds: u64,
    pub candidate_runtime_seconds: u64,
    pub runtime_difference_pct_hundredths: i128,
}

/// Mathematical model of a `Comparison`.
#[verifier::ext_equal]
pub ghost struct ComparisonView {
    pub job_name: Seq<char>,
    pub base_runtime_seconds: u64,
    pub candidate_runtime_seconds: u64,
    pub runtime_difference_pct_hundredths: int,
}

impl View for Comparison {
    type V = ComparisonView;

    open spec fn view(&self) -> ComparisonView {
        ComparisonView {
            job_name: self.job_name@,
            base_runtime_seconds: self.base_runtime_seconds,
            candidate_runtime_seconds: self.candidate_runtime_seconds,
            runtime_difference_pct_hundredths: self.runtime_difference_pct_hundredths as int,
        }
    }
}

/// One workflow together with its ordered job comparisons.
#[derive(Clone, Debug, PartialEq, Eq)]
pub struct WorkflowComparisons {
    pub workflow_name: String,
    pub comparisons: Vec<Comparison>,
}

/// Mathematical model of a `WorkflowComparisons`.
#[verifier::ext_equal]
pub ghost struct WorkflowComparisonsView {
    pub workflow_name: Seq<char>,
    pub comparisons: Seq<ComparisonView>,
}

impl View for WorkflowComparisons {
    type V = WorkflowComparisonsView;

    open spec fn view(&self) -> WorkflowComparisonsView {
        WorkflowComparisonsView {
            workflow_name: self.workflow_name@,
            comparisons: comparisons_view(self.comparisons@),
        }
    }
}

/// The comparison result: for each workflow with at least one matched job,
/// its ordered comparisons. Workflows appear in the caller-supplied
/// order; iteration order is deterministic across repeated runs on identical
/// input.
#[derive(Clone, Debug, PartialEq, Eq)]
pub struct ComparisonResult {
    pub entries: Vec<WorkflowComparisons>,
}

impl View for ComparisonResult {
    type V = Seq<WorkflowComparisonsView>;

    open spec fn view(&self) -> Seq<WorkflowComparisonsView> {
        entries_view(self.entries@)
    }
}

/// Why a comparison could not be built.
#[derive(Clone, Debug, PartialEq, Eq)]
pub enum ComparisonError {
    /// One of the two input job collections is empty; a comparison with no
    /// data on either side must not silently render an empty report.
    EmptyJobSet,
}

/// The models of a sequence of job records.
pub open spec fn records_view(jobs: Seq<JobRecord>) -> Seq<JobRecordView> {
    jobs.map_values(|r: JobRecord| r@)
}

/// The models of a sequence of names.
pub open spec fn names_view(names: Seq<String>) -> Seq<Seq<char>> {
    names.map_values(|s: String| s@)
}

/// The models of a sequence of comparisons.
pub open spec fn comparisons_view(cs: Seq<Comparison>) -> Seq<ComparisonView> {
    cs.map_values(|c: Comparison| c@)
}

/// The models of a sequence of per-workflow comparison groups.
pub open spec fn entries_view(es: Seq<WorkflowComparisons>) -> Seq<WorkflowComparisonsView> {
    es.map_values(|e: WorkflowComparisons| e@)
}

/// The runtime of the last record in `jobs` for workflow `w` and job `j`,
/// or `None` when no record matches. Later records shadow earlier ones:
/// re-run jobs resolve to the most recently observed run.
pub open spec fn last_duration(jobs: Seq<JobRecordView>, w: Seq<char>, j: Seq<char>) -> Option<u64>
    decreases jobs.len(),
{
    if jobs.len() == 0 {
        None
    } else if jobs.last().workflow_name == w && jobs.last().job_name == j {
        Some(jobs.last().duration_seconds)
    } else {
        last_duration(jobs.drop_last(), w, j)
    }
}

/// The distinct job names of workflow `w` in `jobs`, each at the position of
/// its first occurrence.
pub open spec fn job_names_in_order(jobs: Seq<JobRecordView>, w: Seq<char>) -> Seq<Seq<char>>
    decreases jobs.len(),
{
    if jobs.len() == 0 {
        Seq::empty()
    } else {
        let pre = job_names_in_order(jobs.drop_last(), w);
        if jobs.last().workflow_name == w && !pre.contains(jobs.last().job_name) {
            pre.push(jobs.last().job_name)
        } else {
            pre
        }
    }
}

/// Percentage change of `cand` relative to `base`, in hundredths of a
/// percent, rounded to the nearest (ties away from zero).
pub open spec fn pct_hundredths(base: u64, cand: u64) -> int
    recommends
        base > 0,
{
    if cand >= base {
        ((cand - base) * 10000 + base / 2) / (base as int)
    } else {
        -(((base - cand) * 10000 + base / 2) / (base as int))
    }
}

/// The runtime held by an optional lookup, zero when absent.
pub open spec fn dur_or_zero(o: Option<u64>) -> u64 {
    match o {
        Option::Some(d) => d,
        Option::None => 0,
    }
}

/// Whether job `j` of workflow `w` is compared: it must be present on both
/// sides, and its base runtime must be positive, since a percentage of a
/// zero base is undefined and such a job is skipped rather than reported.
pub open spec fn matched_job(
    base: Seq<JobRecordView>,
    cand: Seq<JobRecordView>,
    w: Seq<char>,
    j: Seq<char>,
) -> bool {
    &&& last_duration(cand, w, j) is Some
    &&& (match last_duration(base, w, j) {
        Option::Some(d) => d > 0,
        Option::None => false,
    })
}

/// The comparison emitted for a matched job.
pub open spec fn comparison_of(
    base: Seq<JobRecordView>,
    cand: Seq<JobRecordView>,
    w: Seq<char>,
    j: Seq<char>,
) -> ComparisonView
    recommends
        matched_job(base, cand, w, j),
{
    let b = dur_or_zero(last_duration(base, w, j));
    let c = dur_or_zero(last_duration(cand, w, j));
    ComparisonView {
        job_name: j,
        base_runtime_seconds: b,
        candidate_runtime_seconds: c,
        runtime_difference_pct_hundredths: pct_hundredths(b, c),
    }
}

/// The comparisons for the matched jobs among `names`, in order.
pub open spec fn comparisons_for_names(
    names: Seq<Seq<char>>,
    base: Seq<JobRecordView>,
    cand: Seq<JobRecordView>,
    w: Seq<char>,
) -> Seq<ComparisonView>
    decreases names.len(),
{
    if names.len() == 0 {
        Seq::empty()
    } else {
        let pre = comparisons_for_names(names.drop_last(), base, cand, w);
        let j = names.last();
        if matched_job(base, cand, w, j) {
            pre.push(comparison_of(base, cand, w, j))
        } else {
            pre
        }
    }
}

/// The comparisons of workflow `w`: one per job name present on both sides
/// with a positive base runtime, ordered by first occurrence of the job name
/// in the base sequence.
pub open spec fn workflow_comparisons(
    base: Seq<JobRecordView>,
    cand: Seq<JobRecordView>,
    w: Seq<char>,
) -> Seq<ComparisonView> {
    comparisons_for_names(job_names_in_order(base, w), base, cand, w)
}

/// The full comparison result: the watched workflows in caller order (first
/// occurrence wins for a repeated name), each kept only when it has at least
/// one matched comparison.
pub open spec fn comparison_result_spec(
    workflow_order: Seq<Seq<char>>,
    base: Seq<JobRecordView>,
    cand: Seq<JobRecordView>,
) -> Seq<WorkflowComparisonsView>
    decreases workflow_order.len(),
{
    if workflow_order.len() == 0 {
        Seq::empty()
    } else {
        let pre = comparison_result_spec(workflow_order.drop_last(), base, cand);
        let w = workflow_order.last();
        if workflow_order.drop_last().contains(w) {
            pre
        } else {
            let comps = workflow_comparisons(base, cand, w);
            if comps.len() == 0 {
                pre
            } else {
                pre.push(WorkflowComparisonsView { workflow_name: w, comparisons: comps })
            }
        }
    }
}


/// Whether `name` occurs in `names`.
pub fn contains_name(names: &Vec<String>, name: &String) -> (r: bool)
    ensures
        r == names_view(names@).contains(name@),
{
    let mut i: usize = 0;
    while i < names.len()
        invariant
            i <= names.len(),
            forall|k: int| 0 <= k < i ==> names@[k]@ != name@,
        decreases names.len() - i,
    {
        if names[i] == *name {
            proof {
                assert(names_view(names@)[i as int] == name@);
                assert(names_view(names@).contains(name@));
            }
            return true;
        }
        i = i + 1;
    }
    proof {
        assert forall|k: int| 0 <= k < names_view(names@).len() implies names_view(
            names@,
        )[k] != name@ by {
            assert(names_view(names@)[k] == names@[k]@);
        }
    }
    false
}

/// The runtime of the most recently observed record for workflow `w` and
/// job `j`, or `None` when no record matches.
pub fn lookup_last_duration(jobs: &Vec<JobRecord>, w: &String, j: &String) -> (r: Option<u64>)
    ensures
        r == last_duration(records_view(jobs@), w@, j@),
{
    let mut r: Option<u64> = None;
    let mut i: usize = 0;
    while i < jobs.len()
        invariant
            i <= jobs.len(),
            r == last_duration(records_view(jobs@).take(i as int), w@, j@),
        decreases jobs.len() - i,
    {
        proof {
            assert(records_view(jobs@).take(i as int + 1).drop_last() =~= records_view(
                jobs@,
            ).take(i as int));
            assert(records_view(jobs@).take(i as int + 1).last() == jobs@[i as int]@);
        }
        if jobs[i].workflow_name == *w && jobs[i].job_name == *j {
            r = Some(jobs[i].duration_seconds);
        }
        i = i + 1;
    }
    proof {
        assert(records_view(jobs@).take(jobs.len() as int) =~= records_view(jobs@));
    }
    r
}

/// Computes the percentage change of `cand` relative to `base`, in
/// hundredths of a percent rounded to the nearest (ties away from zero).
pub fn compute_pct(base: u64, cand: u64) -> (r: i128)
    requires
        base > 0,
    ensures
        r == pct_hundredths(base, cand),
{
    if cand >= base {
        let diff: u128 = (cand - base) as u128;
        proof {
            assert((diff as int) * 10000 <= 0xffffffffffffffff * 10000) by (nonlinear_arith)
                requires
                    diff as int <= 0xffffffffffffffff,
            ;
        }
        let num: u128 = diff * 10000 + (base as u128) / 2;
        let q: u128 = num / (base as u128);
        proof {
            vstd::arithmetic::div_mod::lemma_div_nonincreasing(num as int, base as int);
        }
        q as i128
    } else {
        let diff: u128 = (base - cand) as u128;
        proof {
            assert((diff as int) * 10000 <= 0xffffffffffffffff * 10000) by (nonlinear_arith)
                requires
                    diff as int <= 0xffffffffffffffff,
            ;
        }
        let num: u128 = diff * 10000 + (base as u128) / 2;
        let q: u128 = num / (base as u128);
        proof {
            vstd::arithmetic::div_mod::lemma_div_nonincreasing(num as int, base as int);
        }
        let qi: i128 = q as i128;
        -qi
    }
}

/// Builds the ordered comparisons of one workflow.
fn workflow_comparisons_exec(base: &Vec<JobRecord>, cand: &Vec<JobRecord>, w: &String) -> (r: Vec<
    Comparison,
>)
    ensures
        comparisons_view(r@) == workflow_comparisons(
            records_view(base@),
            records_view(cand@),
            w@,
        ),
{
    let ghost bv = records_view(base@);
    let ghost cv = records_view(cand@);
    let mut seen: Vec<String> = Vec::new();
    let mut comps: Vec<Comparison> = Vec::new();
    let mut i: usize = 0;
    while i < base.len()
        invariant
            i <= base.len(),
            bv == records_view(base@),
            cv == records_view(cand@),
            names_view(seen@) == job_names_in_order(bv.take(i as int), w@),
            comparisons_view(comps@) == comparisons_for_names(names_view(seen@), bv, cv, w@),
        decreases base.len() - i,
    {
        proof {
            assert(bv.take(i as int + 1).drop_last() =~= bv.take(i as int));
            assert(bv.take(i as int + 1).last() == base@[i as int]@);
        }
        if base[i].workflow_name == *w {
            let already = contains_name(&seen, &base[i].job_name);
            if !already {
                let ghost pre_names = names_view(seen@);
                let ghost jn = base@[i as int].job_name@;
                seen.push(base[i].job_name.clone());
                proof {
                    assert(names_view(seen@) =~= pre_names.push(jn));
                    assert(names_view(seen@).drop_last() =~= pre_names);
                }
                let c_opt = lookup_last_duration(cand, w, &base[i].job_name);
                let b_opt = lookup_last_duration(base, w, &base[i].job_name);
                match (b_opt, c_opt) {
                    (Some(b_dur), Some(c_dur)) => {
                        if b_dur > 0 {
                            let pct = compute_pct(b_dur, c_dur);
                            let ghost pre_comps = comparisons_view(comps@);
                            comps.push(
                                Comparison {
                                    job_name: base[i].job_name.clone(),
                                    base_runtime_seconds: b_dur,
                                    candidate_runtime_seconds: c_dur,
                                    runtime_difference_pct_hundredths: pct,
                                },
                            );
                            proof {
                                assert(comparisons_view(comps@) =~= pre_comps.push(
                                    comparison_of(bv, cv, w@, jn),
                                ));
                            }
                        }
                    },
                    _ => {},
                }
            }
        }
        i = i + 1;
    }
    proof {
        assert(bv.take(base.len() as int) =~= bv);
    }
    comps
}

/// Builds the comparison result from the caller-supplied workflow order and
/// the two independently fetched job collections.
///
/// Fails exactly when one of the two job collections is empty; otherwise the
/// result is the one value that `comparison_result_spec` gives for the
/// inputs, so it is fully determined by them.
pub fn build_comparison(
    workflow_order: &Vec<String>,
    base_jobs: &Vec<JobRecord>,
    candidate_jobs: &Vec<JobRecord>,
) -> (r: Result<ComparisonResult, ComparisonError>)
    ensures
        r is Err <==> (base_jobs@.len() == 0 || candidate_jobs@.len() == 0),
        r is Err ==> r == Result::<ComparisonResult, ComparisonError>::Err(
            ComparisonError::EmptyJobSet,
        ),
        r matches Ok(res) ==> res@ == comparison_result_spec(
            names_view(workflow_order@),
            records_view(base_jobs@),
            records_view(candidate_jobs@),
        ),
{
    if base_jobs.len() == 0 || candidate_jobs.len() == 0 {
        return Err(ComparisonError::EmptyJobSet);
    }
    let ghost wo = names_view(workflow_order@);
    let ghost bv = records_view(base_jobs@);
    let ghost cv = records_view(candidate_jobs@);
    let mut entries: Vec<WorkflowComparisons> = Vec::new();
    let mut seen_ws: Vec<String> = Vec::new();
    let mut i: usize = 0;
    while i < workflow_order.len()
        invariant
            i <= workflow_order.len(),
            wo == names_view(workflow_order@),
            bv == records_view(base_jobs@),
            cv == records_view(candidate_jobs@),
            names_view(seen_ws@) == wo.take(i as int),
            entries_view(entries@) == comparison_result_spec(wo.take(i as int), bv, cv),
        decreases workflow_order.len() - i,
    {
        proof {
            assert(wo.take(i as int + 1).drop_last() =~= wo.take(i as int));
            assert(wo.take(i as int + 1).last() == workflow_order@[i as int]@);
        }
        let dup = contains_name(&seen_ws, &workflow_order[i]);
        if !dup {
            let comps = workflow_comparisons_exec(base_jobs, candidate_jobs, &workflow_order[i]);
            if comps.len() > 0 {
                let ghost pre_entries = entries_view(entries@);
                let ghost wn = workflow_order@[i as int]@;
                let entry = WorkflowComparisons {
                    workflow_name: workflow_order[i].clone(),
                    comparisons: comps,
                };
                entries.push(entry);
                proof {
                    assert(entries_view(entries@) =~= pre_entries.push(
                        WorkflowComparisonsView {
                            workflow_name: wn,
                            comparisons: workflow_comparisons(bv, cv, wn),
                        },
                    ));
                }
            }
        }
        let ghost pre_seen = names_view(seen_ws@);
        seen_ws.push(workflow_order[i].clone());
        proof {
            assert(names_view(seen_ws@) =~= pre_seen.push(workflow_order@[i as int]@));
            assert(names_view(seen_ws@) =~= wo.take(i as int + 1));
        }
        i = i + 1;
    }
    proof {
        assert(wo.take(workflow_order.len() as int) =~= wo);
    }
    Ok(ComparisonResult { entries })
}


/// Every comparison built over `names` belongs to a matched job and is the
/// comparison of that job.
proof fn lemma_comparisons_for_names_sound(
    names: Seq<Seq<char>>,
    base: Seq<JobRecordView>,
    cand: Seq<JobRecordView>,
    w: Seq<char>,
    k: int,
)
    requires
        0 <= k < comparisons_for_names(names, base, cand, w).len(),
    ensures
        ({
            let c = comparisons_for_names(names, base, cand, w)[k];
            &&& matched_job(base, cand, w, c.job_name)
            &&& c == comparison_of(base, cand, w, c.job_name)
        }),
    decreases names.len(),
{
    let whole = comparisons_for_names(names, base, cand, w);
    let pre = comparisons_for_names(names.drop_last(), base, cand, w);
    if names.len() == 0 {
    } else if matched_job(base, cand, w, names.last()) {
        if k < pre.len() {
            lemma_comparisons_for_names_sound(names.drop_last(), base, cand, w, k);
        } else {
            assert(whole[k] == comparison_of(base, cand, w, names.last()));
        }
    } else {
        lemma_comparisons_for_names_sound(names.drop_last(), base, cand, w, k);
    }
}

/// Matching correctness and omission, per comparison: every comparison that
/// a workflow's result holds is for a job present on both sides, its
/// runtimes are the most recently observed ones of each side, its base
/// runtime is positive (a job with a zero base runtime is omitted, never
/// reported), and its percentage delta is the delta of those two runtimes.
pub proof fn lemma_workflow_comparisons_sound(
    base: Seq<JobRecordView>,
    cand: Seq<JobRecordView>,
    w: Seq<char>,
    k: int,
)
    requires
        0 <= k < workflow_comparisons(base, cand, w).len(),
    ensures
        ({
            let c = workflow_comparisons(base, cand, w)[k];
            &&& last_duration(base, w, c.job_name) == Some(c.base_runtime_seconds)
            &&& last_duration(cand, w, c.job_name) == Some(c.candidate_runtime_seconds)
            &&& c.base_runtime_seconds > 0
            &&& c.runtime_difference_pct_hundredths == pct_hundredths(
                c.base_runtime_seconds,
                c.candidate_runtime_seconds,
            )
        }),
{
    lemma_comparisons_for_names_sound(job_names_in_order(base, w), base, cand, w, k);
}

/// Every entry of the comparison result names a workflow of the
/// caller-supplied order, carries exactly that workflow's comparisons, and
/// holds at least one of them: a workflow with no matched job is omitted
/// entirely, not emitted as an empty entry.
pub proof fn lemma_result_entries_sound(
    workflow_order: Seq<Seq<char>>,
    base: Seq<JobRecordView>,
    cand: Seq<JobRecordView>,
    k: int,
)
    requires
        0 <= k < comparison_result_spec(workflow_order, base, cand).len(),
    ensures
        ({
            let e = comparison_result_spec(workflow_order, base, cand)[k];
            &&& workflow_order.contains(e.workflow_name)
            &&& e.comparisons == workflow_comparisons(base, cand, e.workflow_name)
            &&& e.comparisons.len() > 0
        }),
    decreases workflow_order.len(),
{
    let whole = comparison_result_spec(workflow_order, base, cand);
    let shorter = workflow_order.drop_last();
    let pre = comparison_result_spec(shorter, base, cand);
    if workflow_order.len() == 0 {
    } else if k < pre.len() {
        lemma_result_entries_sound(shorter, base, cand, k);
        let e = pre[k];
        assert(shorter.contains(e.workflow_name));
        let i = choose|i: int| 0 <= i < shorter.len() && shorter[i] == e.workflow_name;
        assert(workflow_order[i] == e.workflow_name);
        assert(workflow_order.contains(e.workflow_name));
    } else {
        assert(whole[k].workflow_name == workflow_order.last());
        assert(workflow_order.contains(workflow_order.last()));
    }
}

/// Non-overlap exclusion: a workflow with no matched comparison is absent
/// from the result altogether.
pub proof fn lemma_unmatched_workflow_absent(
    workflow_order: Seq<Seq<char>>,
    base: Seq<JobRecordView>,
    cand: Seq<JobRecordView>,
    w: Seq<char>,
)
    requires
        workflow_comparisons(base, cand, w).len() == 0,
    ensures
        forall|k: int|
            0 <= k < comparison_result_spec(workflow_order, base, cand).len()
                ==> comparison_result_spec(workflow_order, base, cand)[k].workflow_name != w,
{
    assert forall|k: int|
        0 <= k < comparison_result_spec(workflow_order, base, cand).len() implies comparison_result_spec(
        workflow_order,
        base,
        cand,
    )[k].workflow_name != w by {
        lemma_result_entries_sound(workflow_order, base, cand, k);
    }
}

/// Determinism: the comparison result is a function of the workflow order
/// and the two job collections alone, so equal inputs give equal results.
pub proof fn lemma_comparison_deterministic(
    order_a: Seq<Seq<char>>,
    base_a: Seq<JobRecordView>,
    cand_a: Seq<JobRecordView>,
    order_b: Seq<Seq<char>>,
    base_b: Seq<JobRecordView>,
    cand_b: Seq<JobRecordView>,
)
    requires
        order_a == order_b,
        base_a == base_b,
        cand_a == cand_b,
    ensures
        comparison_result_spec(order_a, base_a, cand_a) == comparison_result_spec(
            order_b,
            base_b,
            cand_b,
        ),
{
}


/// Keeps, in discovery order, the fetched workflow names that the caller
/// watches; only those workflows take part in a comparison.
pub fn filter_watched_workflows(fetched: &Vec<String>, watched: &Vec<String>) -> (r: Vec<String>)
    ensures
        names_view(r@) == names_view(fetched@).filter(
            (|n: Seq<char>| names_view(watched@).contains(n)),
        ),
{
    let ghost fv = names_view(fetched@);
    let mut r: Vec<String> = Vec::new();
    proof {
        reveal(Seq::filter);
        assert(fv.take(0) =~= Seq::<Seq<char>>::empty());
    }
    let mut i: usize = 0;
    while i < fetched.len()
        invariant
            i <= fetched.len(),
            fv == names_view(fetched@),
            names_view(r@) == fv.take(i as int).filter(
                (|n: Seq<char>| names_view(watched@).contains(n)),
            ),
        decreases fetched.len() - i,
    {
        proof {
            reveal(Seq::filter);
            assert(fv.take(i as int + 1).drop_last() =~= fv.take(i as int));
            assert(fv.take(i as int + 1).last() == fetched@[i as int]@);
        }
        let keep = contains_name(watched, &fetched[i]);
        if keep {
            let ghost pre = names_view(r@);
            r.push(fetched[i].clone());
            proof {
                assert(names_view(r@) =~= pre.push(fetched@[i as int]@));
            }
        }
        i = i + 1;
    }
    proof {
        reveal(Seq::filter);
        assert(fv.take(fetched.len() as int) =~= fv);
    }
    r
}


/// A job name that occurs in `jobs` under workflow `w` is listed among that
/// workflow's job names.
proof fn lemma_job_name_listed(jobs: Seq<JobRecordView>, w: Seq<char>, i: int)
    requires
        0 <= i < jobs.len(),
        jobs[i].workflow_name == w,
    ensures
        job_names_in_order(jobs, w).contains(jobs[i].job_name),
    decreases jobs.len(),
{
    let names = job_names_in_order(jobs, w);
    let pre = job_names_in_order(jobs.drop_last(), w);
    if i == jobs.len() - 1 {
        if pre.contains(jobs.last().job_name) {
            assert(names == pre);
        } else {
            assert(names.last() == jobs[i].job_name);
            assert(names.contains(jobs[i].job_name));
        }
    } else {
        lemma_job_name_listed(jobs.drop_last(), w, i);
        assert(jobs.drop_last()[i] == jobs[i]);
        let k = choose|k: int| 0 <= k < pre.len() && pre[k] == jobs[i].job_name;
        if jobs.last().workflow_name == w && !pre.contains(jobs.last().job_name) {
            assert(names[k] == jobs[i].job_name);
        } else {
            assert(names[k] == jobs[i].job_name);
        }
        assert(names.contains(jobs[i].job_name));
    }
}

/// A matched job whose name is listed has its comparison among the built
/// comparisons.
proof fn lemma_comparisons_for_names_complete(
    names: Seq<Seq<char>>,
    base: Seq<JobRecordView>,
    cand: Seq<JobRecordView>,
    w: Seq<char>,
    j: Seq<char>,
)
    requires
        names.contains(j),
        matched_job(base, cand, w, j),
    ensures
        comparisons_for_names(names, base, cand, w).contains(comparison_of(base, cand, w, j)),
    decreases names.len(),
{
    let whole = comparisons_for_names(names, base, cand, w);
    let pre = comparisons_for_names(names.drop_last(), base, cand, w);
    if names.last() == j {
        assert(whole.last() == comparison_of(base, cand, w, j));
        assert(whole.contains(comparison_of(base, cand, w, j)));
    } else {
        let k = choose|k: int| 0 <= k < names.len() && names[k] == j;
        assert(names.drop_last()[k] == j);
        assert(names.drop_last().contains(j));
        lemma_comparisons_for_names_complete(names.drop_last(), base, cand, w, j);
        let m = choose|m: int| 0 <= m < pre.len() && pre[m] == comparison_of(base, cand, w, j);
        assert(whole[m] == comparison_of(base, cand, w, j));
        assert(whole.contains(comparison_of(base, cand, w, j)));
    }
}

/// A workflow of the caller-supplied order that has at least one matched
/// comparison appears in the result.
proof fn lemma_result_has_workflow(
    workflow_order: Seq<Seq<char>>,
    base: Seq<JobRecordView>,
    cand: Seq<JobRecordView>,
    w: Seq<char>,
)
    requires
        workflow_order.contains(w),
        workflow_comparisons(base, cand, w).len() > 0,
    ensures
        exists|k: int|
            0 <= k < comparison_result_spec(workflow_order, base, cand).len()
                && comparison_result_spec(workflow_order, base, cand)[k].workflow_name == w,
    decreases workflow_order.len(),
{
    let whole = comparison_result_spec(workflow_order, base, cand);
    let shorter = workflow_order.drop_last();
    let pre = comparison_result_spec(shorter, base, cand);
    if workflow_order.last() == w && !shorter.contains(w) {
        assert(whole.last().workflow_name == w);
        assert(whole[whole.len() - 1].workflow_name == w);
    } else {
        let i = choose|i: int| 0 <= i < workflow_order.len() && workflow_order[i] == w;
        if workflow_order.last() == w {
            assert(shorter.contains(w));
        } else {
            assert(shorter[i] == w);
            assert(shorter.contains(w));
        }
        lemma_result_has_workflow(shorter, base, cand, w);
        let k = choose|k: int| 0 <= k < pre.len() && pre[k].workflow_name == w;
        assert(whole[k].workflow_name == w);
    }
}

/// Matching completeness: every job of a watched workflow that is present
/// on both sides with a positive base runtime has its comparison in the
/// result, inside an entry for that workflow.
pub proof fn lemma_matched_job_reported(
    workflow_order: Seq<Seq<char>>,
    base: Seq<JobRecordView>,
    cand: Seq<JobRecordView>,
    w: Seq<char>,
    i: int,
)
    requires
        workflow_order.contains(w),
        0 <= i < base.len(),
        base[i].workflow_name == w,
        matched_job(base, cand, w, base[i].job_name),
    ensures
        exists|k: int|
            0 <= k < comparison_result_spec(workflow_order, base, cand).len()
                && comparison_result_spec(workflow_order, base, cand)[k].workflow_name == w
                && comparison_result_spec(workflow_order, base, cand)[k].comparisons.contains(
                comparison_of(base, cand, w, base[i].job_name),
            ),
{
    let j = base[i].job_name;
    lemma_job_name_listed(base, w, i);
    lemma_comparisons_for_names_complete(job_names_in_order(base, w), base, cand, w, j);
    assert(workflow_comparisons(base, cand, w).len() > 0);
    lemma_result_has_workflow(workflow_order, base, cand, w);
    let whole = comparison_result_spec(workflow_order, base, cand);
    let k = choose|k: int| 0 <= k < whole.len() && whole[k].workflow_name == w;
    lemma_result_entries_sound(workflow_order, base, cand, k);
    assert(whole[k].comparisons == workflow_comparisons(base, cand, w));
    assert(whole[k].comparisons.contains(comparison_of(base, cand, w, j)));
}


/// Duplicate resolution: a newly observed run of a job shadows every
/// earlier run of the same job in the same workflow.
pub proof fn lemma_last_write_wins(jobs: Seq<JobRecordView>, r: JobRecordView)
    ensures
        last_duration(jobs.push(r), r.workflow_name, r.job_name) == Some(r.duration_seconds),
{
    assert(jobs.push(r).last() == r);
}

/// The caller-supplied workflow order with repeated names dropped, keeping
/// each first occurrence.
pub open spec fn distinct_workflows(workflow_order: Seq<Seq<char>>) -> Seq<Seq<char>>
    decreases workflow_order.len(),
{
    if workflow_order.len() == 0 {
        Seq::empty()
    } else {
        let pre = distinct_workflows(workflow_order.drop_last());
        if workflow_order.drop_last().contains(workflow_order.last()) {
            pre
        } else {
            pre.push(workflow_order.last())
        }
    }
}

/// Workflow ordering: the workflows of the result are exactly the distinct
/// caller-supplied workflows that have a matched comparison, in the
/// caller-supplied order.
pub proof fn lemma_workflow_order_kept(
    workflow_order: Seq<Seq<char>>,
    base: Seq<JobRecordView>,
    cand: Seq<JobRecordView>,
)
    ensures
        comparison_result_spec(workflow_order, base, cand).map_values(
            (|e: WorkflowComparisonsView| e.workflow_name),
        ) == distinct_workflows(workflow_order).filter(
            (|w: Seq<char>| workflow_comparisons(base, cand, w).len() > 0),
        ),
    decreases workflow_order.len(),
{
    reveal(Seq::filter);
    let name_of = (|e: WorkflowComparisonsView| e.workflow_name);
    let has_match = (|w: Seq<char>| workflow_comparisons(base, cand, w).len() > 0);
    let whole = comparison_result_spec(workflow_order, base, cand);
    if workflow_order.len() == 0 {
        assert(whole.map_values(name_of) =~= distinct_workflows(workflow_order).filter(has_match));
    } else {
        let shorter = workflow_order.drop_last();
        lemma_workflow_order_kept(shorter, base, cand);
        let pre = comparison_result_spec(shorter, base, cand);
        let pre_distinct = distinct_workflows(shorter);
        let w = workflow_order.last();
        if shorter.contains(w) {
            assert(whole.map_values(name_of) == pre_distinct.filter(has_match));
        } else {
            assert(pre_distinct.push(w).drop_last() =~= pre_distinct);
            if workflow_comparisons(base, cand, w).len() == 0 {
                assert(pre_distinct.push(w).filter(has_match) == pre_distinct.filter(has_match));
                assert(whole.map_values(name_of) == pre_distinct.filter(has_match));
            } else {
                let entry = WorkflowComparisonsView {
                    workflow_name: w,
                    comparisons: workflow_comparisons(base, cand, w),
                };
                assert(whole == pre.push(entry));
                assert(whole.map_values(name_of) =~= pre.map_values(name_of).push(w));
                assert(pre_distinct.push(w).filter(has_match) == pre_distinct.filter(
                    has_match,
                ).push(w));
            }
        }
    }
}

} // verus!
