use vstd::prelude::*;
use vstd::string::*;

use crate::jobs::{Job, JobSpec, jobs_view, strings_view};
use crate::error_handler::JobrunnerError;

verus! {

/// The comma-separated fields of a line, empty ones included.
pub open spec fn fields_of(s: Seq<char>) -> Seq<Seq<char>>
    decreases s.len(),
{
    if s.len() == 0 {
        seq![Seq::<char>::empty()]
    } else {
        let f = fields_of(s.drop_last());
        if s.last() == ',' {
            f.push(Seq::<char>::empty())
        } else {
            f.update(f.len() - 1, f.last().push(s.last()))
        }
    }
}

pub open spec fn is_digit(c: char) -> bool {
    '0' <= c && c <= '9'
}

/// The value of a string of decimal digits.
pub open spec fn digits_value(d: Seq<char>) -> nat
    decreases d.len(),
{
    if d.len() == 0 {
        0
    } else {
        digits_value(d.drop_last()) * 10 + ((d.last() as u32) as int - 48) as nat
    }
}

/// The field without its leading `+`, if it has one.
pub open spec fn unsigned_part(s: Seq<char>) -> Seq<char> {
    if s.len() > 0 && s[0] == '+' {
        s.drop_first()
    } else {
        s
    }
}

pub open spec fn all_digits(d: Seq<char>) -> bool {
    forall|i: int| 0 <= i < d.len() ==> is_digit(d[i])
}

/// A timeout field read as a `usize` in decimal: an optional `+`, then one or more
/// ASCII digits, with a value that fits.
pub open spec fn parse_usize_spec(s: Seq<char>) -> Option<nat> {
    let d = unsigned_part(s);
    if d.len() > 0 && all_digits(d) && digits_value(d) <= usize::MAX {
        Some(digits_value(d))
    } else {
        None
    }
}

proof fn lemma_digits_grow(d: Seq<char>, i: int)
    requires
        0 <= i <= d.len(),
        forall|k: int| 0 <= k < d.len() ==> is_digit(d[k]),
    ensures
        digits_value(d.subrange(0, i)) <= digits_value(d),
    decreases d.len(),
{
    if i < d.len() {
        assert(d.drop_last() =~= d.subrange(0, d.len() - 1));
        assert(d.subrange(0, i) =~= d.drop_last().subrange(0, i));
        lemma_digits_grow(d.drop_last(), i);
    } else {
        assert(d.subrange(0, i) =~= d);
    }
}

/// Reads a timeout field as a non-negative decimal number that fits in a `usize`.
pub fn parse_timeout(s: &str) -> (r: Option<usize>)
    ensures
        r matches Some(v) ==> parse_usize_spec(s@) == Some(v as nat),
        r is None ==> parse_usize_spec(s@) is None,
{
    let n = s.unicode_len();
    let mut start: usize = 0;
    if n > 0 && s.get_char(0) == '+' {
        start = 1;
    }
    let ghost d = unsigned_part(s@);
    assert(d =~= s@.subrange(start as int, n as int));
    if start == n {
        return None;
    }
    let mut v: usize = 0;
    let mut i: usize = start;
    while i < n
        invariant
            start <= i <= n,
            n == s@.len(),
            d == s@.subrange(start as int, n as int),
            d == unsigned_part(s@),
            forall|k: int| 0 <= k < i - start ==> is_digit(d[k]),
            v == digits_value(d.subrange(0, i - start)),
        decreases n - i,
    {
        let c = s.get_char(i);
        assert(d[i - start] == c);
        if !('0' <= c && c <= '9') {
            assert(!is_digit(d[i - start]));
            assert(!all_digits(d));
            return None;
        }
        assert(d.subrange(0, i + 1 - start).drop_last() =~= d.subrange(0, i - start));
        let digit = (c as u32 - 48) as usize;
        assert(digits_value(d.subrange(0, i + 1 - start)) == v * 10 + digit);
        match v.checked_mul(10) {
            Some(m) => match m.checked_add(digit) {
                Some(w) => {
                    v = w;
                },
                None => {
                    proof {
                        overflow_tail(d, i - start, n - start);
                    }
                    return None;
                },
            },
            None => {
                proof {
                    overflow_tail(d, i - start, n - start);
                }
                return None;
            },
        }
        i += 1;
    }
    assert(d.subrange(0, n - start) =~= d);
    Some(v)
}

/// A prefix of digits whose value does not fit makes the whole field not fit, or not
/// be all digits.
proof fn overflow_tail(d: Seq<char>, i: int, n: int)
    requires
        0 <= i < n,
        n == d.len(),
        forall|k: int| 0 <= k <= i ==> is_digit(d[k]),
        digits_value(d.subrange(0, i + 1)) > usize::MAX,
    ensures
        !(all_digits(d) && digits_value(d) <= usize::MAX),
{
    if all_digits(d) {
        lemma_digits_grow(d, i + 1);
    }
}

/// Splits a line at each comma.
pub fn split_fields(line: &str) -> (r: Vec<String>)
    ensures
        strings_view(r@) == fields_of(line@),
{
    let n = line.unicode_len();
    let mut done: Vec<String> = Vec::new();
    let mut start: usize = 0;
    let mut i: usize = 0;
    assert(line@.subrange(0, 0) =~= Seq::<char>::empty());
    assert(fields_of(line@.subrange(0, 0)) =~= strings_view(done@).push(line@.subrange(0, 0)));
    while i < n
        invariant
            0 <= start <= i <= n,
            n == line@.len(),
            fields_of(line@.subrange(0, i as int)) == strings_view(done@).push(
                line@.subrange(start as int, i as int),
            ),
        decreases n - i,
    {
        assert(line@.subrange(0, i + 1).drop_last() =~= line@.subrange(0, i as int));
        if line.get_char(i) == ',' {
            let piece = line.substring_char(start, i).to_owned();
            done.push(piece);
            start = i + 1;
            assert(line@.subrange(start as int, i + 1) =~= Seq::<char>::empty());
            assert(fields_of(line@.subrange(0, i + 1)) =~= strings_view(done@).push(
                line@.subrange(start as int, i + 1),
            ));
        } else {
            assert(line@.subrange(start as int, i as int).push(line@[i as int]) =~= line@.subrange(
                start as int,
                i + 1,
            ));
            assert(fields_of(line@.subrange(0, i + 1)) =~= strings_view(done@).push(
                line@.subrange(start as int, i + 1),
            ));
        }
        i += 1;
    }
    let last = line.substring_char(start, n).to_owned();
    done.push(last);
    assert(line@.subrange(0, n as int) =~= line@);
    assert(strings_view(done@) =~= fields_of(line@));
    done
}


/// The job that a list of fields declares: program, input and output must be
/// non-empty, a fourth field, where present and non-empty, is the timeout, and the
/// fields after it are the arguments.
pub open spec fn job_from_fields(f: Seq<Seq<char>>) -> Option<JobSpec> {
    if f.len() < 3 || f[0].len() == 0 || f[1].len() == 0 || f[2].len() == 0 {
        None
    } else if f.len() > 3 && f[3].len() > 0 && parse_usize_spec(f[3]) is None {
        None
    } else {
        Some(
            JobSpec {
                program: f[0],
                stdin: f[1],
                stdout: f[2],
                timeout: if f.len() > 3 && f[3].len() > 0 {
                    parse_usize_spec(f[3])->Some_0
                } else {
                    0
                },
                args: if f.len() > 4 {
                    f.subrange(4, f.len() as int)
                } else {
                    Seq::empty()
                },
                runnable: true,
            },
        )
    }
}

/// The job that a line declares, if it is valid.
pub open spec fn job_from_line(line: Seq<char>) -> Option<JobSpec> {
    job_from_fields(fields_of(line))
}

/// Reads one job line: `program,stdin,stdout[,timeout[,arg...]]`.
pub fn check_job_validity(job_string: &str) -> (r: Option<Job>)
    ensures
        r matches Some(j) ==> job_from_line(job_string@) == Some(j@),
        r is None ==> job_from_line(job_string@) is None,
{
    let fields = split_fields(job_string);
    let ghost f = fields_of(job_string@);
    assert(forall|k: int| 0 <= k < fields@.len() ==> fields@[k]@ == f[k]);
    if fields.len() < 3 {
        return None;
    }
    if fields[0].as_str().is_empty() || fields[1].as_str().is_empty() || fields[2].as_str().is_empty() {
        return None;
    }
    let mut timeout: usize = 0;
    if fields.len() > 3 && !fields[3].as_str().is_empty() {
        match parse_timeout(fields[3].as_str()) {
            Some(t) => {
                timeout = t;
            },
            None => {
                return None;
            },
        }
    }
    let mut args: Vec<String> = Vec::new();
    let mut k: usize = 4;
    while k < fields.len()
        invariant
            4 <= k,
            k <= fields.len() || (k == 4 && fields.len() <= 4),
            f == strings_view(fields@),
            strings_view(args@) == (if k <= fields.len() {
                f.subrange(4, k as int)
            } else {
                Seq::empty()
            }),
        decreases fields.len() - k,
    {
        let ghost prev = args@;
        let a = fields[k].clone();
        assert(a@ == f[k as int]);
        args.push(a);
        assert(args@ == prev.push(a));
        assert(f.len() == fields@.len());
        assert(strings_view(prev) == f.subrange(4, k as int));
        assert(strings_view(prev).len() == prev.len());
        assert(prev.len() == k - 4);
        assert(strings_view(args@).len() == args@.len());
        assert forall|m: int| 0 <= m < k + 1 - 4 implies #[trigger] strings_view(args@)[m] == f.subrange(4, k + 1)[m] by {
            assert(strings_view(args@)[m] == args@[m]@);
            if m < k - 4 {
                assert(args@[m] == prev[m]);
                assert(strings_view(prev)[m] == prev[m]@);
            }
        }
        assert(strings_view(args@) =~= f.subrange(4, k + 1));
        k += 1;
    }
    let ghost want = job_from_fields(f)->Some_0.args;
    assert(strings_view(args@) =~= want);
    let job = Job {
        program: fields[0].clone(),
        stdin: fields[1].clone(),
        stdout: fields[2].clone(),
        timeout,
        args,
        runnable: true,
    };
    Some(job)
}

/// A line that declares no job: empty, or a comment starting with `#`.
pub open spec fn skipped(line: Seq<char>) -> bool {
    line.len() == 0 || line[0] == '#'
}

/// The jobs that the lines of a job file declare, in order, or the 0-based number of
/// its first invalid line.
pub open spec fn parse_lines(lines: Seq<Seq<char>>) -> Result<Seq<JobSpec>, nat>
    decreases lines.len(),
{
    if lines.len() == 0 {
        Ok(Seq::empty())
    } else {
        match parse_lines(lines.drop_last()) {
            Err(k) => Err(k),
            Ok(js) => {
                let l = lines.last();
                if skipped(l) {
                    Ok(js)
                } else {
                    match job_from_line(l) {
                        Some(j) => Ok(js.push(j)),
                        None => Err((lines.len() - 1) as nat),
                    }
                }
            },
        }
    }
}

fn is_skipped(line: &String) -> (r: bool)
    ensures
        r == skipped(line@),
{
    let t = line.as_str();
    t.unicode_len() == 0 || t.get_char(0) == '#'
}

/// Reads the jobs that the lines of the job file at `file_path` declare. The first
/// invalid line makes the error with code 3, naming the file and the 1-based line.
pub fn parse_jobfile(file_path: &str, lines: &Vec<String>) -> (r: Result<Vec<Job>, JobrunnerError>)
    ensures
        r matches Ok(jobs) ==> parse_lines(strings_view(lines@)) == Ok::<Seq<JobSpec>, nat>(jobs_view(jobs@)),
        r matches Err(e) ==> {
            &&& parse_lines(strings_view(lines@)) matches Err(k)
            &&& e.error_code == 3
            &&& e.text matches Some(t) && t@ == file_path@
            &&& e.line_num == Some((k + 1) as usize)
        },
{
    let ghost ls = strings_view(lines@);
    let mut jobs: Vec<Job> = Vec::new();
    let mut i: usize = 0;
    assert(ls.subrange(0, 0) =~= Seq::<Seq<char>>::empty());
    assert(jobs_view(jobs@) =~= Seq::<JobSpec>::empty());
    while i < lines.len()
        invariant
            0 <= i <= lines.len(),
            ls == strings_view(lines@),
            parse_lines(ls.subrange(0, i as int)) == Ok::<Seq<JobSpec>, nat>(jobs_view(jobs@)),
        decreases lines.len() - i,
    {
        assert(ls.subrange(0, i + 1).drop_last() =~= ls.subrange(0, i as int));
        assert(ls[i as int] == lines@[i as int]@);
        if !is_skipped(&lines[i]) {
            match check_job_validity(lines[i].as_str()) {
                Some(job) => {
                    let ghost prev = jobs@;
                    let ghost jv = job@;
                    jobs.push(job);
                    assert(jobs_view(jobs@) =~= jobs_view(prev).push(jv));
                },
                None => {
                    proof {
                        lemma_parse_error_sticks(ls, i as int + 1);
                    }
                    return Err(
                        JobrunnerError {
                            error_code: 3,
                            text: Some(file_path.to_owned()),
                            line_num: Some(i + 1),
                        },
                    );
                },
            }
        }
        i += 1;
    }
    assert(ls.subrange(0, lines.len() as int) =~= ls);
    Ok(jobs)
}

proof fn lemma_parse_error_sticks(ls: Seq<Seq<char>>, i: int)
    requires
        0 < i <= ls.len(),
        parse_lines(ls.subrange(0, i)) is Err,
    ensures
        parse_lines(ls) == parse_lines(ls.subrange(0, i)),
    decreases ls.len() - i,
{
    if i < ls.len() {
        assert(ls.subrange(0, i + 1).drop_last() =~= ls.subrange(0, i));
        lemma_parse_error_sticks(ls, i + 1);
    } else {
        assert(ls.subrange(0, i) =~= ls);
    }
}

} // verus!
