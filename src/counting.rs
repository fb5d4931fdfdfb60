use vstd::prelude::*;

use crate::jobs::{Job, JobSpec, jobs_view, is_pipe_spec, disabled, is_pipe};

verus! {

/// A job counts when it is runnable and, if only producers are counted, writes a pipe.
pub open spec fn counted(j: JobSpec, producers: bool) -> bool {
    j.runnable && (!producers || is_pipe_spec(j.stdout))
}

/// How many jobs count.
pub open spec fn count_jobs(s: Seq<JobSpec>, producers: bool) -> nat
    decreases s.len(),
{
    if s.len() == 0 {
        0
    } else {
        count_jobs(s.drop_last(), producers) + if counted(s.last(), producers) {
            1nat
        } else {
            0nat
        }
    }
}

/// Disabling one job lowers the count by one exactly when that job counted.
pub proof fn lemma_count_disable(s: Seq<JobSpec>, i: int, producers: bool)
    requires
        0 <= i < s.len(),
    ensures
        count_jobs(s.update(i, disabled(s[i])), producers) as int == count_jobs(s, producers) as int - if counted(
            s[i],
            producers,
        ) {
            1int
        } else {
            0int
        },
    decreases s.len(),
{
    let t = s.update(i, disabled(s[i]));
    if i == s.len() - 1 {
        assert(t.drop_last() =~= s.drop_last());
    } else {
        assert(t.drop_last() =~= s.drop_last().update(i, disabled(s[i])));
        lemma_count_disable(s.drop_last(), i, producers);
    }
}

/// A positive count has a job that counts.
pub proof fn lemma_count_witness(s: Seq<JobSpec>, producers: bool)
    requires
        count_jobs(s, producers) > 0,
    ensures
        exists|i: int| 0 <= i < s.len() && counted(#[trigger] s[i], producers),
    decreases s.len(),
{
    if !counted(s.last(), producers) {
        lemma_count_witness(s.drop_last(), producers);
        let i = choose|i: int| 0 <= i < s.drop_last().len() && counted(#[trigger] s.drop_last()[i], producers);
        assert(s[i] == s.drop_last()[i]);
    } else {
        assert(counted(s[s.len() - 1], producers));
    }
}

/// Counts the runnable jobs, or the runnable jobs that write a pipe.
pub fn count_exec(jobs: &Vec<Job>, producers: bool) -> (r: usize)
    ensures
        r == count_jobs(jobs_view(jobs@), producers),
{
    let ghost s = jobs_view(jobs@);
    let mut c: usize = 0;
    let mut i: usize = 0;
    while i < jobs.len()
        invariant
            0 <= i <= jobs.len(),
            s == jobs_view(jobs@),
            c == count_jobs(s.subrange(0, i as int), producers),
            c <= i,
        decreases jobs.len() - i,
    {
        assert(s.subrange(0, i + 1).drop_last() =~= s.subrange(0, i as int));
        assert(s[i as int] == jobs@[i as int]@);
        if jobs[i].runnable && (!producers || is_pipe(&jobs[i].stdout)) {
            c += 1;
        }
        i += 1;
    }
    assert(s.subrange(0, jobs.len() as int) =~= s);
    c
}

} // verus!
