use vstd::prelude::*;
use vstd::string::*;

use crate::config::Config;
use crate::counting::{count_jobs, count_exec};
use crate::error_handler::JobrunnerError;
use crate::jobs::{Job, JobSpec, jobs_view, is_path_spec, disabled, is_path, disable, strings_view};
use crate::pipes::{pipe_check, check_pipes, duplicate_reports, newly_disabled, uniqueness_pass, PipeReport};

verus! {

impl Job {
    /// The job reads its input from a file, which must open for reading.
    pub fn reads_file(&self) -> (r: bool)
        ensures
            r == is_path_spec(self.stdin@),
    {
        is_path(&self.stdin)
    }

    /// The job writes its output to a file, which must open for writing.
    pub fn writes_file(&self) -> (r: bool)
        ensures
            r == is_path_spec(self.stdout@),
    {
        is_path(&self.stdout)
    }
}

/// The jobs after the file check: a job whose files did not open is disabled.
pub open spec fn io_check(s: Seq<JobSpec>, opened: Seq<bool>) -> Seq<JobSpec> {
    Seq::new(s.len(), |i: int| if opened[i] { s[i] } else { disabled(s[i]) })
}

/// Disables each job whose files did not open (`opened[i]` is false for job `i`).
pub fn check_file_io(jobs: &mut Vec<Job>, opened: &Vec<bool>)
    requires
        opened@.len() == old(jobs)@.len(),
    ensures
        final(jobs)@.len() == old(jobs)@.len(),
        jobs_view(final(jobs)@) == io_check(jobs_view(old(jobs)@), opened@),
{
    let ghost base = jobs_view(jobs@);
    let n = jobs.len();
    let mut k: usize = 0;
    while k < n
        invariant
            n == jobs.len(),
            base.len() == n,
            opened@.len() == n,
            0 <= k <= n,
            jobs_view(jobs@) == Seq::new(n as nat, |m: int| if m < k && !opened@[m] { disabled(base[m]) } else { base[m] }),
        decreases n - k,
    {
        let ghost prev = jobs_view(jobs@);
        assert(prev[k as int] == base[k as int]);
        if !opened[k] {
            disable(jobs, k);
        }
        assert(jobs_view(jobs@) =~= Seq::new(n as nat, |m: int| if m < k + 1 && !opened@[m] { disabled(base[m]) } else { base[m] }));
        k += 1;
    }
    assert(jobs_view(jobs@) =~= io_check(base, opened@));
}

/// Validates the jobs: first the file check, whose outcome for each job is given in
/// `opened`, then the pipe check. The runnable jobs are then counted; with none left
/// the result is the error with code 4. `report` receives what the pipe check found:
/// the pipe names of repeated claims, and the jobs disabled for want of a partner.
pub fn check_jobs(config: &mut Config, opened: &Vec<bool>, report: &mut PipeReport) -> (r: Result<
    (),
    JobrunnerError,
>)
    requires
        opened@.len() == old(config).jobs@.len(),
    ensures
        strings_view(final(report).duplicated@) == duplicate_reports(
            io_check(jobs_view(old(config).jobs@), opened@),
            old(config).jobs@.len() as int,
        ),
        final(report).unmatched@ == newly_disabled(
            uniqueness_pass(io_check(jobs_view(old(config).jobs@), opened@)),
            jobs_view(final(config).jobs@),
            old(config).jobs@.len() as int,
        ),
        jobs_view(final(config).jobs@) == pipe_check(io_check(jobs_view(old(config).jobs@), opened@)),
        final(config).runnable_jobs == count_jobs(jobs_view(final(config).jobs@), false),
        final(config).verbose == old(config).verbose,
        r is Ok <==> final(config).runnable_jobs > 0,
        r matches Err(e) ==> e.error_code == 4 && e.text is None && e.line_num is None,
{
    check_file_io(&mut config.jobs, opened);
    *report = check_pipes(&mut config.jobs);
    config.runnable_jobs = count_exec(&config.jobs, false);
    if config.runnable_jobs == 0 {
        return Err(JobrunnerError { error_code: 4, text: None, line_num: None });
    }
    Ok(())
}

/// The decimal digits of a number.
pub open spec fn decimal(n: nat) -> Seq<char>
    decreases n,
{
    if n < 10 {
        seq![digit_char(n)]
    } else {
        decimal(n / 10).push(digit_char(n % 10))
    }
}

pub open spec fn digit_char(d: nat) -> char {
    ((d + 48) as u32) as char
}

/// Writes a number in decimal.
pub fn decimal_string(n: usize) -> (r: String)
    ensures
        r@ == decimal(n as nat),
    decreases n,
{
    let digits: &str = "0123456789";
    proof {
        reveal_strlit("0123456789");
    }
    let d = n % 10;
    let piece = digits.substring_char(d, d + 1);
    assert(piece@ =~= seq![digit_char(d as nat)]);
    if n < 10 {
        piece.to_owned()
    } else {
        let head = decimal_string(n / 10);
        head.concat(piece)
    }
}

/// The arguments, each after a `:`.
pub open spec fn joined_args(a: Seq<Seq<char>>) -> Seq<char>
    decreases a.len(),
{
    if a.len() == 0 {
        Seq::empty()
    } else {
        joined_args(a.drop_last()) + seq![':'] + a.last()
    }
}

/// The listing line of the job at 0-based position `i`:
/// `index:program:stdin:stdout:timeout[:arg]*`, with the 1-based index.
pub open spec fn listing_line(i: nat, j: JobSpec) -> Seq<char> {
    decimal(i + 1) + seq![':'] + j.program + seq![':'] + j.stdin + seq![':'] + j.stdout + seq![':'] + decimal(
        j.timeout,
    ) + joined_args(j.args)
}

/// The listing lines of the runnable jobs, in order.
pub open spec fn listing(s: Seq<JobSpec>) -> Seq<Seq<char>>
    decreases s.len(),
{
    if s.len() == 0 {
        Seq::empty()
    } else if s.last().runnable {
        listing(s.drop_last()).push(listing_line((s.len() - 1) as nat, s.last()))
    } else {
        listing(s.drop_last())
    }
}

fn listing_line_exec(i: usize, job: &Job) -> (r: String)
    requires
        i < usize::MAX,
    ensures
        r@ == listing_line(i as nat, job@),
{
    let mut line = decimal_string(i + 1);
    line.append(":");
    line.append(job.program.as_str());
    line.append(":");
    line.append(job.stdin.as_str());
    line.append(":");
    line.append(job.stdout.as_str());
    line.append(":");
    let t = decimal_string(job.timeout);
    line.append(t.as_str());
    proof {
        reveal_strlit(":");
    }
    let ghost head = line@;
    assert(head =~= decimal(i as nat + 1) + seq![':'] + job@.program + seq![':'] + job@.stdin + seq![':']
        + job@.stdout + seq![':'] + decimal(job@.timeout));
    let ghost a = strings_view(job.args@);
    let mut k: usize = 0;
    assert(a.subrange(0, 0) =~= Seq::<Seq<char>>::empty());
    assert(line@ =~= head + joined_args(a.subrange(0, 0)));
    while k < job.args.len()
        invariant
            0 <= k <= job.args.len(),
            a == strings_view(job.args@),
            line@ == head + joined_args(a.subrange(0, k as int)),
        decreases job.args.len() - k,
    {
        assert(a.subrange(0, k + 1).drop_last() =~= a.subrange(0, k as int));
        assert(a[k as int] == job.args@[k as int]@);
        proof {
            reveal_strlit(":");
        }
        line.append(":");
        line.append(job.args[k].as_str());
        assert(line@ =~= head + joined_args(a.subrange(0, k + 1)));
        k += 1;
    }
    assert(a.subrange(0, job.args.len() as int) =~= a);
    line
}

/// The lines that list the runnable jobs in verbose mode.
pub fn runnable_job_lines(config: &Config) -> (r: Vec<String>)
    ensures
        strings_view(r@) == listing(jobs_view(config.jobs@)),
{
    let ghost s = jobs_view(config.jobs@);
    let mut lines: Vec<String> = Vec::new();
    let mut i: usize = 0;
    assert(strings_view(lines@) =~= listing(s.subrange(0, 0)));
    while i < config.jobs.len()
        invariant
            0 <= i <= config.jobs.len(),
            s == jobs_view(config.jobs@),
            strings_view(lines@) == listing(s.subrange(0, i as int)),
        decreases config.jobs.len() - i,
    {
        assert(s.subrange(0, i + 1).drop_last() =~= s.subrange(0, i as int));
        assert(s[i as int] == config.jobs@[i as int]@);
        let job = &config.jobs[i];
        if job.runnable {
            let ghost prev = lines@;
            let l = listing_line_exec(i, job);
            lines.push(l);
            assert(strings_view(lines@) =~= strings_view(prev).push(l@));
        }
        i += 1;
    }
    assert(s.subrange(0, config.jobs.len() as int) =~= s);
    lines
}

} // verus!
