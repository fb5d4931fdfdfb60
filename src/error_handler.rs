use vstd::prelude::*;

verus! {

/// A condition that halts the run before any process is spawned. `error_code` tells
/// the kind: 1 usage, 2 a job file that cannot be opened, 3 an invalid job line,
/// 4 no runnable jobs, 99 a job file that cannot be read.
#[derive(Debug)]
pub struct JobrunnerError {
    pub error_code: i32,
    pub text: Option<String>,
    pub line_num: Option<usize>,
}

impl Default for JobrunnerError {
    fn default() -> (r: JobrunnerError)
        ensures
            r.error_code == 0,
            r.text is None,
            r.line_num is None,
    {
        JobrunnerError { error_code: 0, text: None, line_num: None }
    }
}

} // verus!
