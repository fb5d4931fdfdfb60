use vstd::prelude::*;
use vstd::string::*;

verus! {

/// What a job is, as the contracts see it.
pub struct JobSpec {
    pub program: Seq<char>,
    pub stdin: Seq<char>,
    pub stdout: Seq<char>,
    pub timeout: nat,
    pub args: Seq<Seq<char>>,
    pub runnable: bool,
}

/// One declared unit of work.
#[derive(Debug)]
pub struct Job {
    pub program: String,
    pub stdin: String,
    pub stdout: String,
    pub timeout: usize,
    pub args: Vec<String>,
    pub runnable: bool,
}

impl View for Job {
    type V = JobSpec;

    open spec fn view(&self) -> JobSpec {
        JobSpec {
            program: self.program@,
            stdin: self.stdin@,
            stdout: self.stdout@,
            timeout: self.timeout as nat,
            args: strings_view(self.args@),
            runnable: self.runnable,
        }
    }
}

/// The views of a sequence of strings.
pub open spec fn strings_view(v: Seq<String>) -> Seq<Seq<char>> {
    v.map_values(|x: String| x@)
}

/// The views of a sequence of jobs.
pub open spec fn jobs_view(jobs: Seq<Job>) -> Seq<JobSpec> {
    jobs.map_values(|j: Job| j@)
}

/// A stream field naming a pipe: it starts with `@`.
pub open spec fn is_pipe_spec(s: Seq<char>) -> bool {
    s.len() > 0 && s[0] == '@'
}

/// A stream field that keeps the default stream: exactly `-`.
pub open spec fn is_inherit_spec(s: Seq<char>) -> bool {
    s == seq!['-']
}

/// A stream field naming a file on disk.
pub open spec fn is_path_spec(s: Seq<char>) -> bool {
    !is_pipe_spec(s) && !is_inherit_spec(s)
}

/// The same job, no longer runnable.
pub open spec fn disabled(j: JobSpec) -> JobSpec {
    JobSpec { runnable: false, ..j }
}

impl Default for Job {
    fn default() -> (r: Job)
        ensures
            r@.program.len() == 0,
            r@.stdin.len() == 0,
            r@.stdout.len() == 0,
            r@.timeout == 0,
            r@.args.len() == 0,
            r@.runnable,
    {
        Job {
            program: String::new(),
            stdin: String::new(),
            stdout: String::new(),
            timeout: 0,
            args: Vec::new(),
            runnable: true,
        }
    }
}

/// Whether a stream field names a pipe.
pub fn is_pipe(s: &String) -> (r: bool)
    ensures
        r == is_pipe_spec(s@),
{
    let t: &str = s.as_str();
    if t.unicode_len() == 0 {
        false
    } else {
        t.get_char(0) == '@'
    }
}

/// Whether a stream field keeps the default stream.
pub fn is_inherit(s: &String) -> (r: bool)
    ensures
        r == is_inherit_spec(s@),
{
    let t: &str = s.as_str();
    if t.unicode_len() != 1 {
        false
    } else {
        let c = t.get_char(0);
        assert(c == '-' ==> s@ =~= seq!['-']);
        c == '-'
    }
}

/// Whether a stream field names a file on disk.
pub fn is_path(s: &String) -> (r: bool)
    ensures
        r == is_path_spec(s@),
{
    !is_pipe(s) && !is_inherit(s)
}

/// Disables job `i`, leaving every other job as it was.
pub fn disable(jobs: &mut Vec<Job>, i: usize)
    requires
        i < old(jobs).len(),
    ensures
        final(jobs)@.len() == old(jobs)@.len(),
        jobs_view(final(jobs)@) == jobs_view(old(jobs)@).update(i as int, disabled(old(jobs)@[i as int]@)),
{
    jobs[i].runnable = false;
    assert(jobs_view(jobs@) =~= jobs_view(old(jobs)@).update(i as int, disabled(old(jobs)@[i as int]@)));
}

} // verus!
