use vstd::prelude::*;
use vstd::string::*;

use crate::error_handler::JobrunnerError;
use crate::jobfile::{parse_jobfile, parse_lines};
use crate::jobs::{Job, JobSpec, jobs_view, strings_view};

verus! {

/// The run's settings and its jobs, in declaration order.
#[derive(Debug)]
pub struct Config {
    pub verbose: bool,
    pub jobs: Vec<Job>,
    pub runnable_jobs: usize,
}

/// What became of the attempt to read one job file.
#[derive(Debug)]
pub enum JobFile {
    /// The file could not be opened.
    Unopenable,
    /// The file was opened but its lines could not be read.
    Unreadable,
    /// The file's lines, without their line endings.
    Lines(Vec<String>),
}

/// Why a configuration could not be built.
pub enum BuildFailure {
    Usage,
    /// The job file of this argument could not be opened.
    Unopenable(int),
    /// The job file of this argument could not be read.
    Unreadable(int),
    /// The job file of this argument has an invalid line, 0-based.
    BadLine(int, nat),
    NoJobs,
}

/// The verbose flag.
pub open spec fn is_verbose_flag(a: Seq<char>) -> bool {
    a == seq!['-', 'v']
}

/// The settings and jobs that the first `k` arguments give, with the files read for them.
pub open spec fn build_prefix(args: Seq<Seq<char>>, files: Seq<JobFile>, k: int) -> Result<
    (bool, Seq<JobSpec>),
    BuildFailure,
>
    decreases k,
{
    if k <= 0 {
        Ok((false, Seq::empty()))
    } else {
        match build_prefix(args, files, k - 1) {
            Err(e) => Err(e),
            Ok((verbose, js)) => {
                if is_verbose_flag(args[k - 1]) {
                    if k - 1 == 0 {
                        Ok((true, js))
                    } else {
                        Err(BuildFailure::Usage)
                    }
                } else {
                    match files[k - 1] {
                        JobFile::Unopenable => Err(BuildFailure::Unopenable(k - 1)),
                        JobFile::Unreadable => Err(BuildFailure::Unreadable(k - 1)),
                        JobFile::Lines(ls) => match parse_lines(strings_view(ls@)) {
                            Err(l) => Err(BuildFailure::BadLine(k - 1, l)),
                            Ok(more) => Ok((verbose, js + more)),
                        },
                    }
                }
            },
        }
    }
}

/// The settings and jobs that the arguments give: `-v` may only come first, every
/// other argument names a job file, and at least one job must be declared.
pub open spec fn build_spec(args: Seq<Seq<char>>, files: Seq<JobFile>) -> Result<(bool, Seq<JobSpec>), BuildFailure> {
    if args.len() == 0 {
        Err(BuildFailure::Usage)
    } else {
        match build_prefix(args, files, args.len() as int) {
            Err(e) => Err(e),
            Ok((verbose, js)) => if js.len() == 0 {
                Err(BuildFailure::NoJobs)
            } else {
                Ok((verbose, js))
            },
        }
    }
}

/// The text of the error for a job file whose lines cannot be read.
pub open spec fn unreadable_text(path: Seq<char>) -> Seq<char> {
    seq!['E', 'r', 'r', 'o', 'r', ' ', 'r', 'e', 'a', 'd', 'i', 'n', 'g', ' ', 'l', 'i', 'n', 'e', 's', ' ', 'i', 'n', ' ']
        + path
}

/// An error text that is present and reads `s`.
pub open spec fn text_is(text: Option<String>, s: Seq<char>) -> bool {
    text is Some && text->Some_0@ == s
}

/// The error reported for a failure.
pub open spec fn reports(e: JobrunnerError, f: BuildFailure, args: Seq<Seq<char>>) -> bool {
    match f {
        BuildFailure::Usage => e.error_code == 1 && e.text is None && e.line_num is None,
        BuildFailure::Unopenable(k) => e.error_code == 2 && text_is(e.text, args[k]) && e.line_num is None,
        BuildFailure::Unreadable(k) => e.error_code == 99 && text_is(e.text, unreadable_text(args[k]))
            && e.line_num is None,
        BuildFailure::BadLine(k, l) => e.error_code == 3 && text_is(e.text, args[k]) && e.line_num == Some(
            (l + 1) as usize,
        ),
        BuildFailure::NoJobs => e.error_code == 4 && e.text is None && e.line_num is None,
    }
}

proof fn lemma_prefix_error_sticks(args: Seq<Seq<char>>, files: Seq<JobFile>, k: int, n: int)
    requires
        0 <= k <= n,
        build_prefix(args, files, k) is Err,
    ensures
        build_prefix(args, files, n) == build_prefix(args, files, k),
    decreases n - k,
{
    if k < n {
        lemma_prefix_error_sticks(args, files, k + 1, n);
    }
}

fn usage_error() -> (e: JobrunnerError)
    ensures
        reports(e, BuildFailure::Usage, Seq::empty()),
{
    JobrunnerError { error_code: 1, text: None, line_num: None }
}

fn is_verbose_arg(a: &String) -> (r: bool)
    ensures
        r == is_verbose_flag(a@),
{
    let t = a.as_str();
    if t.unicode_len() != 2 {
        return false;
    }
    let r = t.get_char(0) == '-' && t.get_char(1) == 'v';
    assert(r ==> a@ =~= seq!['-', 'v']);
    r
}

impl Config {
    /// Builds the configuration from the command-line arguments, `-v` first if at all
    /// and then job file paths, and from what reading each of those files gave
    /// (`files[i]` belongs to `args[i]`; its entry for `-v` is not read).
    pub fn build(args: Vec<String>, files: Vec<JobFile>) -> (r: Result<Config, JobrunnerError>)
        requires
            files@.len() == args@.len(),
        ensures
            r matches Ok(c) ==> build_spec(strings_view(args@), files@) == Ok::<(bool, Seq<JobSpec>), BuildFailure>(
                (c.verbose, jobs_view(c.jobs@)),
            ) && c.runnable_jobs == 0,
            r matches Err(e) ==> build_spec(strings_view(args@), files@) matches Err(f) && reports(
                e,
                f,
                strings_view(args@),
            ),
    {
        let ghost av = strings_view(args@);
        if args.len() == 0 {
            return Err(usage_error());
        }
        let mut config = Config { verbose: false, jobs: Vec::new(), runnable_jobs: 0 };
        let mut i: usize = 0;
        assert(jobs_view(config.jobs@) =~= Seq::<JobSpec>::empty());
        while i < args.len()
            invariant
                0 <= i <= args.len(),
                av == strings_view(args@),
                files@.len() == args@.len(),
                config.runnable_jobs == 0,
                build_prefix(av, files@, i as int) == Ok::<(bool, Seq<JobSpec>), BuildFailure>(
                    (config.verbose, jobs_view(config.jobs@)),
                ),
            decreases args.len() - i,
        {
            assert(av[i as int] == args@[i as int]@);
            if is_verbose_arg(&args[i]) {
                if i == 0 {
                    config.verbose = true;
                } else {
                    proof {
                        lemma_prefix_error_sticks(av, files@, i + 1, av.len() as int);
                    }
                    return Err(usage_error());
                }
            } else {
                match &files[i] {
                    JobFile::Unopenable => {
                        proof {
                            lemma_prefix_error_sticks(av, files@, i + 1, av.len() as int);
                        }
                        return Err(JobrunnerError { error_code: 2, text: Some(args[i].clone()), line_num: None });
                    },
                    JobFile::Unreadable => {
                        proof {
                            lemma_prefix_error_sticks(av, files@, i + 1, av.len() as int);
                        }
                        let text = String::from_str("Error reading lines in ").concat(args[i].as_str());
                        proof {
                            reveal_strlit("Error reading lines in ");
                            assert(text@ =~= unreadable_text(av[i as int]));
                        }
                        return Err(JobrunnerError { error_code: 99, text: Some(text), line_num: None });
                    },
                    JobFile::Lines(lines) => {
                        match parse_jobfile(args[i].as_str(), lines) {
                            Ok(more) => {
                                let ghost prev = jobs_view(config.jobs@);
                                let ghost mv = jobs_view(more@);
                                let mut more = more;
                                config.jobs.append(&mut more);
                                assert(jobs_view(config.jobs@) =~= prev + mv);
                            },
                            Err(e) => {
                                proof {
                                    lemma_prefix_error_sticks(av, files@, i + 1, av.len() as int);
                                }
                                return Err(e);
                            },
                        }
                    },
                }
            }
            i += 1;
        }
        if config.jobs.len() == 0 {
            return Err(JobrunnerError { error_code: 4, text: None, line_num: None });
        }
        Ok(config)
    }
}

} // verus!
