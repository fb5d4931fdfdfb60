use vstd::prelude::*;

use crate::jobs::{Job, JobSpec, jobs_view, is_pipe_spec, disabled, is_pipe, disable, strings_view};

verus! {

/// The stream field of a job in one role: its output when `out`, else its input.
pub open spec fn stream(j: JobSpec, out: bool) -> Seq<char> {
    if out {
        j.stdout
    } else {
        j.stdin
    }
}

/// Some runnable job other than `i` uses job `i`'s stream of that role in the same role.
pub open spec fn shares(s: Seq<JobSpec>, i: int, out: bool) -> bool {
    exists|j: int| 0 <= j < s.len() && j != i && s[j].runnable && stream(s[j], out) == stream(s[i], out)
}

/// Job `i` is runnable and claims a pipe in a role that another runnable job claims too.
pub open spec fn duplicate_claim(s: Seq<JobSpec>, i: int) -> bool {
    &&& s[i].runnable
    &&& ((is_pipe_spec(s[i].stdin) && shares(s, i, false)) || (is_pipe_spec(s[i].stdout) && shares(s, i, true)))
}

/// Job `i` is runnable and claims, in this role, a pipe that a runnable job before it
/// already claims in the same role.
pub open spec fn repeats_claim(s: Seq<JobSpec>, i: int, out: bool) -> bool {
    &&& s[i].runnable
    &&& is_pipe_spec(stream(s[i], out))
    &&& exists|j: int| 0 <= j < i && s[j].runnable && stream(s[j], out) == stream(s[i], out)
}

/// The pipe names reported by the first pass over the first `k` jobs: for each job in
/// order, its input pipe and then its output pipe, where it repeats a claim.
pub open spec fn duplicate_reports(s: Seq<JobSpec>, k: int) -> Seq<Seq<char>>
    decreases k,
{
    if k <= 0 {
        Seq::empty()
    } else {
        let r = duplicate_reports(s, k - 1);
        let r1 = if repeats_claim(s, k - 1, false) {
            r.push(s[k - 1].stdin)
        } else {
            r
        };
        if repeats_claim(s, k - 1, true) {
            r1.push(s[k - 1].stdout)
        } else {
            r1
        }
    }
}

/// The first pass: every job with a duplicated pipe claim is disabled.
pub open spec fn uniqueness_pass(s: Seq<JobSpec>) -> Seq<JobSpec> {
    Seq::new(s.len(), |i: int| if duplicate_claim(s, i) { disabled(s[i]) } else { s[i] })
}

/// Some runnable job uses `name` as its stream of that role.
pub open spec fn has_user(s: Seq<JobSpec>, name: Seq<char>, out: bool) -> bool {
    exists|o: int| 0 <= o < s.len() && s[o].runnable && stream(s[o], out) == name
}

/// The jobs after the first `k` steps of a sweep over one role: a runnable job whose
/// pipe of that role has no runnable partner in the other role at its turn is disabled.
pub open spec fn sweep(base: Seq<JobSpec>, k: int, out: bool) -> Seq<JobSpec>
    decreases k,
{
    if k <= 0 {
        base
    } else {
        let s = sweep(base, k - 1, out);
        let j = s[k - 1];
        if j.runnable && is_pipe_spec(stream(j, out)) && !has_user(s, stream(j, out), !out) {
            s.update(k - 1, disabled(j))
        } else {
            s
        }
    }
}

/// The second pass: consumers without a producer, then producers without a consumer.
pub open spec fn matching_pass(s: Seq<JobSpec>) -> Seq<JobSpec> {
    sweep(sweep(s, s.len() as int, false), s.len() as int, true)
}

/// What the pipe validator makes of a job collection.
pub open spec fn pipe_check(s: Seq<JobSpec>) -> Seq<JobSpec> {
    matching_pass(uniqueness_pass(s))
}

/// `b` is `a` with some jobs disabled and nothing else changed.
pub open spec fn only_disables(a: Seq<JobSpec>, b: Seq<JobSpec>) -> bool {
    &&& b.len() == a.len()
    &&& forall|i: int| 0 <= i < a.len() ==> (b[i] == a[i] || b[i] == disabled(a[i]))
}

/// Every runnable job's pipes are claimed by it alone in their role, and each has a
/// runnable partner in the other role.
pub open spec fn pipes_consistent(s: Seq<JobSpec>) -> bool {
    forall|i: int|
        0 <= i < s.len() && #[trigger] s[i].runnable ==> {
            &&& is_pipe_spec(s[i].stdin) ==> has_user(s, s[i].stdin, true) && !shares(s, i, false)
            &&& is_pipe_spec(s[i].stdout) ==> has_user(s, s[i].stdout, false) && !shares(s, i, true)
        }
}

pub proof fn lemma_sweep_only_disables(base: Seq<JobSpec>, k: int, out: bool)
    requires
        k <= base.len(),
    ensures
        only_disables(base, sweep(base, k, out)),
    decreases k,
{
    if k > 0 {
        lemma_sweep_only_disables(base, k - 1, out);
    }
}

proof fn lemma_check_only_disables(s: Seq<JobSpec>)
    ensures
        only_disables(s, pipe_check(s)),
{
    let a = uniqueness_pass(s);
    lemma_sweep_only_disables(a, a.len() as int, false);
    let b = sweep(a, a.len() as int, false);
    lemma_sweep_only_disables(b, a.len() as int, true);
}

fn stream_of(j: &Job, out: bool) -> (r: &String)
    ensures
        r@ == stream(j@, out),
{
    if out {
        &j.stdout
    } else {
        &j.stdin
    }
}

fn has_user_exec(jobs: &Vec<Job>, name: &String, out: bool) -> (r: bool)
    ensures
        r == has_user(jobs_view(jobs@), name@, out),
{
    let ghost s = jobs_view(jobs@);
    let mut o: usize = 0;
    while o < jobs.len()
        invariant
            0 <= o <= jobs.len(),
            s == jobs_view(jobs@),
            forall|m: int| 0 <= m < o ==> !(s[m].runnable && stream(s[m], out) == name@),
        decreases jobs.len() - o,
    {
        let j = &jobs[o];
        assert(s[o as int] == j@);
        if j.runnable && *stream_of(j, out) == *name {
            return true;
        }
        o += 1;
    }
    false
}

fn shares_exec(jobs: &Vec<Job>, i: usize, out: bool) -> (r: bool)
    requires
        i < jobs.len(),
    ensures
        r == shares(jobs_view(jobs@), i as int, out),
{
    let ghost s = jobs_view(jobs@);
    let name = stream_of(&jobs[i], out);
    assert(s[i as int] == jobs@[i as int]@);
    let mut j: usize = 0;
    while j < jobs.len()
        invariant
            0 <= j <= jobs.len(),
            i < jobs.len(),
            s == jobs_view(jobs@),
            name@ == stream(s[i as int], out),
            forall|m: int| 0 <= m < j ==> !(m != i && s[m].runnable && stream(s[m], out) == stream(s[i as int], out)),
        decreases jobs.len() - j,
    {
        let other = &jobs[j];
        assert(s[j as int] == other@);
        if j != i && other.runnable && *stream_of(other, out) == *name {
            return true;
        }
        j += 1;
    }
    false
}

fn repeats_exec(jobs: &Vec<Job>, i: usize, out: bool) -> (r: bool)
    requires
        i < jobs.len(),
    ensures
        r == repeats_claim(jobs_view(jobs@), i as int, out),
{
    let ghost s = jobs_view(jobs@);
    let job = &jobs[i];
    assert(s[i as int] == job@);
    if !job.runnable || !is_pipe(stream_of(job, out)) {
        return false;
    }
    let name = stream_of(job, out);
    let mut j: usize = 0;
    while j < i
        invariant
            0 <= j <= i,
            i < jobs.len(),
            s == jobs_view(jobs@),
            name@ == stream(s[i as int], out),
            s[i as int].runnable,
            is_pipe_spec(stream(s[i as int], out)),
            forall|m: int| 0 <= m < j ==> !(s[m].runnable && stream(s[m], out) == stream(s[i as int], out)),
        decreases i - j,
    {
        let other = &jobs[j];
        assert(s[j as int] == other@);
        if other.runnable && *stream_of(other, out) == *name {
            return true;
        }
        j += 1;
    }
    false
}

fn uniqueness_exec(jobs: &mut Vec<Job>) -> (reports: Vec<String>)
    ensures
        final(jobs)@.len() == old(jobs)@.len(),
        jobs_view(final(jobs)@) == uniqueness_pass(jobs_view(old(jobs)@)),
        strings_view(reports@) == duplicate_reports(jobs_view(old(jobs)@), old(jobs)@.len() as int),
{
    let ghost base = jobs_view(jobs@);
    let n = jobs.len();
    let mut claims: Vec<bool> = Vec::new();
    let mut reports: Vec<String> = Vec::new();
    let mut i: usize = 0;
    assert(strings_view(reports@) =~= duplicate_reports(base, 0));
    while i < n
        invariant
            n == jobs.len(),
            base == jobs_view(jobs@),
            0 <= i <= n,
            claims@.len() == i,
            forall|m: int| 0 <= m < i ==> claims@[m] == duplicate_claim(base, m),
            strings_view(reports@) == duplicate_reports(base, i as int),
        decreases n - i,
    {
        let j = &jobs[i];
        assert(base[i as int] == j@);
        let claim = j.runnable && ((is_pipe(&j.stdin) && shares_exec(jobs, i, false)) || (is_pipe(&j.stdout)
            && shares_exec(jobs, i, true)));
        claims.push(claim);
        if repeats_exec(jobs, i, false) {
            let ghost prev = reports@;
            let name = jobs[i].stdin.clone();
            reports.push(name);
            assert(strings_view(reports@) =~= strings_view(prev).push(name@));
        }
        if repeats_exec(jobs, i, true) {
            let ghost prev = reports@;
            let name = jobs[i].stdout.clone();
            reports.push(name);
            assert(strings_view(reports@) =~= strings_view(prev).push(name@));
        }
        i += 1;
    }
    let mut k: usize = 0;
    while k < n
        invariant
            n == jobs.len(),
            base.len() == n,
            claims@.len() == n,
            0 <= k <= n,
            forall|m: int| 0 <= m < n ==> claims@[m] == duplicate_claim(base, m),
            jobs_view(jobs@) == Seq::new(n as nat, |m: int| if m < k && claims@[m] { disabled(base[m]) } else { base[m] }),
        decreases n - k,
    {
        let ghost prev = jobs_view(jobs@);
        assert(prev[k as int] == jobs@[k as int]@);
        assert(prev[k as int] == base[k as int]);
        if claims[k] {
            disable(jobs, k);
        }
        assert(jobs_view(jobs@) =~= Seq::new(n as nat, |m: int| if m < k + 1 && claims@[m] { disabled(base[m]) } else { base[m] }));
        k += 1;
    }
    assert(jobs_view(jobs@) =~= uniqueness_pass(base));
    reports
}

fn sweep_exec(jobs: &mut Vec<Job>, out: bool)
    ensures
        final(jobs)@.len() == old(jobs)@.len(),
        jobs_view(final(jobs)@) == sweep(jobs_view(old(jobs)@), old(jobs)@.len() as int, out),
{
    let ghost base = jobs_view(jobs@);
    let n = jobs.len();
    let mut k: usize = 0;
    while k < n
        invariant
            n == jobs.len(),
            base.len() == n,
            0 <= k <= n,
            jobs_view(jobs@) == sweep(base, k as int, out),
        decreases n - k,
    {
        let ghost s = jobs_view(jobs@);
        let j = &jobs[k];
        assert(s[k as int] == j@);
        let unmatched = j.runnable && is_pipe(stream_of(j, out)) && !has_user_exec(jobs, stream_of(j, out), !out);
        if unmatched {
            disable(jobs, k);
        }
        k += 1;
    }
}

/// The 0-based positions, in order, among the first `k`, of the jobs runnable in `a`
/// and not in `b`.
pub open spec fn newly_disabled(a: Seq<JobSpec>, b: Seq<JobSpec>, k: int) -> Seq<usize>
    decreases k,
{
    if k <= 0 {
        Seq::empty()
    } else if a[k - 1].runnable && !b[k - 1].runnable {
        newly_disabled(a, b, k - 1).push((k - 1) as usize)
    } else {
        newly_disabled(a, b, k - 1)
    }
}

/// What the pipe check found, for the diagnostics.
pub struct PipeReport {
    /// The pipe name of each repeated claim, in the order met.
    pub duplicated: Vec<String>,
    /// The position of each job disabled for want of a pipe partner, in order.
    pub unmatched: Vec<usize>,
}

fn runnable_flags(jobs: &Vec<Job>) -> (r: Vec<bool>)
    ensures
        r@.len() == jobs@.len(),
        forall|i: int| 0 <= i < r@.len() ==> r@[i] == jobs@[i].runnable,
{
    let mut r: Vec<bool> = Vec::new();
    let mut i: usize = 0;
    while i < jobs.len()
        invariant
            0 <= i <= jobs.len(),
            r@.len() == i,
            forall|m: int| 0 <= m < i ==> r@[m] == jobs@[m].runnable,
        decreases jobs.len() - i,
    {
        r.push(jobs[i].runnable);
        i += 1;
    }
    r
}

/// Checks the pipes of the runnable jobs. First every job that claims a pipe name
/// already claimed in the same role by another runnable job is disabled, together
/// with that other job. Then, in index order, each consumer whose pipe has no
/// runnable producer is disabled, and after that each producer whose pipe has no
/// runnable consumer. Nothing but the `runnable` flags changes, and none is raised.
/// The report holds the pipe name of each repeated claim, in the order met, and the
/// position of each job that the second pass disabled.
pub fn check_pipes(jobs: &mut Vec<Job>) -> (report: PipeReport)
    ensures
        jobs_view(final(jobs)@) == pipe_check(jobs_view(old(jobs)@)),
        only_disables(jobs_view(old(jobs)@), jobs_view(final(jobs)@)),
        strings_view(report.duplicated@) == duplicate_reports(jobs_view(old(jobs)@), old(jobs)@.len() as int),
        report.unmatched@ == newly_disabled(
            uniqueness_pass(jobs_view(old(jobs)@)),
            pipe_check(jobs_view(old(jobs)@)),
            old(jobs)@.len() as int,
        ),
{
    proof {
        lemma_check_only_disables(jobs_view(jobs@));
    }
    let duplicated = uniqueness_exec(jobs);
    let ghost a = jobs_view(jobs@);
    let before = runnable_flags(jobs);
    assert forall|m: int| 0 <= m < before@.len() implies before@[m] == a[m].runnable by {
        assert(a[m] == jobs@[m]@);
    }
    sweep_exec(jobs, false);
    sweep_exec(jobs, true);
    let ghost b = jobs_view(jobs@);
    let n = jobs.len();
    let mut unmatched: Vec<usize> = Vec::new();
    let mut i: usize = 0;
    while i < n
        invariant
            0 <= i <= n,
            n == jobs.len(),
            before@.len() == n,
            a.len() == n,
            b == jobs_view(jobs@),
            forall|m: int| 0 <= m < n ==> before@[m] == a[m].runnable,
            unmatched@ == newly_disabled(a, b, i as int),
        decreases n - i,
    {
        assert(a[i as int].runnable == before@[i as int]);
        assert(b[i as int] == jobs@[i as int]@);
        if before[i] && !jobs[i].runnable {
            unmatched.push(i);
        }
        i += 1;
    }
    PipeReport { duplicated, unmatched }
}

} // verus!
