use jobrunner::config::Config;
use jobrunner::job_checker::{check_file_io, check_jobs, decimal_string, runnable_job_lines};
use jobrunner::jobs::Job;
use jobrunner::pipes::{check_pipes, PipeReport};

fn job(program: &str, stdin: &str, stdout: &str) -> Job {
    Job {
        program: program.to_string(),
        stdin: stdin.to_string(),
        stdout: stdout.to_string(),
        timeout: 0,
        args: vec![],
        runnable: true,
    }
}

fn flags(jobs: &[Job]) -> Vec<bool> {
    jobs.iter().map(|j| j.runnable).collect()
}

#[test]
fn matched_pipes_keep_every_job() {
    let mut jobs = vec![
        job("cat", "@p1", "out.txt"),
        job("ls", "-", "@p1"),
        job("sort", "@q", "-"),
        job("echo", "-", "@q"),
        job("true", "-", "-"),
    ];
    let report = check_pipes(&mut jobs);
    assert!(report.duplicated.is_empty());
    assert!(report.unmatched.is_empty());
    assert_eq!(flags(&jobs), vec![true; 5]);
}

#[test]
fn duplicated_producer_disables_its_users() {
    let mut jobs = vec![
        job("a", "-", "@p"),
        job("b", "-", "@p"),
        job("c", "@p", "-"),
        job("d", "-", "-"),
    ];
    let report = check_pipes(&mut jobs);
    assert_eq!(flags(&jobs), vec![false, false, false, true]);
    assert_eq!(report.duplicated, vec!["@p".to_string()]);
    assert_eq!(report.unmatched, vec![2]);
}

#[test]
fn duplicated_consumer_disables_both_and_producer() {
    let mut jobs = vec![job("a", "-", "@p"), job("b", "@p", "-"), job("c", "@p", "-")];
    let report = check_pipes(&mut jobs);
    assert_eq!(report.duplicated, vec!["@p".to_string()]);
    assert_eq!(report.unmatched, vec![0]);
    assert_eq!(flags(&jobs), vec![false, false, false]);
}

#[test]
fn unmatched_consumer_alone_is_disabled() {
    let mut jobs = vec![
        job("x", "-", "@r"),
        job("cat", "@p1", "out.txt"),
        job("y", "@r", "-"),
    ];
    let report = check_pipes(&mut jobs);
    assert_eq!(flags(&jobs), vec![true, false, true]);
    assert!(report.duplicated.is_empty());
    assert_eq!(report.unmatched, vec![1]);
}

#[test]
fn second_validation_changes_nothing() {
    let mut jobs = vec![
        job("a", "-", "@p"),
        job("b", "-", "@p"),
        job("c", "@p", "-"),
        job("d", "@q", "-"),
        job("e", "-", "@q"),
    ];
    check_pipes(&mut jobs);
    let once = flags(&jobs);
    check_pipes(&mut jobs);
    assert_eq!(flags(&jobs), once);
}

#[test]
fn consumer_checked_before_disabled_producer_survives_one_pass() {
    let mut jobs = vec![job("a", "@n", "-"), job("b", "@none", "@n")];
    assert_eq!(check_pipes(&mut jobs).unmatched, vec![1]);
    assert_eq!(flags(&jobs), vec![true, false]);
    assert_eq!(check_pipes(&mut jobs).unmatched, vec![0]);
    assert_eq!(flags(&jobs), vec![false, false]);
}

#[test]
fn failed_files_disable_jobs() {
    let mut jobs = vec![job("a", "in.txt", "-"), job("b", "-", "out.txt")];
    assert!(jobs[0].reads_file());
    assert!(!jobs[0].writes_file());
    assert!(jobs[1].writes_file());
    assert!(!job("p", "@x", "-").reads_file());
    check_file_io(&mut jobs, &vec![false, true]);
    assert_eq!(flags(&jobs), vec![false, true]);
}

#[test]
fn lone_consumer_leaves_no_runnable_jobs() {
    let mut config = Config { verbose: false, jobs: vec![job("cat", "@p1", "out.txt")], runnable_jobs: 0 };
    let mut report = PipeReport { duplicated: vec![], unmatched: vec![] };
    let e = check_jobs(&mut config, &vec![true], &mut report).unwrap_err();
    assert!(!config.jobs[0].runnable);
    assert!(report.duplicated.is_empty());
    assert_eq!(report.unmatched, vec![0]);
    assert_eq!(e.error_code, 4);
    assert_eq!(config.runnable_jobs, 0);
}

#[test]
fn two_plain_jobs_stay_runnable() {
    let mut a = job("sleep", "-", "-");
    a.timeout = 1;
    let mut b = job("echo", "-", "-");
    b.args = vec!["hello".to_string()];
    let mut config = Config { verbose: true, jobs: vec![a, b], runnable_jobs: 0 };
    let mut report = PipeReport { duplicated: vec![], unmatched: vec![] };
    assert!(check_jobs(&mut config, &vec![true, true], &mut report).is_ok());
    assert!(report.unmatched.is_empty());
    assert_eq!(config.runnable_jobs, 2);
    assert_eq!(runnable_job_lines(&config), vec!["1:sleep:-:-:1".to_string(), "2:echo:-:-:0:hello".to_string()]);
}

#[test]
fn listing_skips_disabled_jobs() {
    let mut a = job("x", "-", "-");
    a.runnable = false;
    let mut b = job("y", "a.txt", "@p");
    b.timeout = 250;
    b.args = vec!["1".to_string(), "2".to_string()];
    let config = Config { verbose: true, jobs: vec![a, b], runnable_jobs: 1 };
    assert_eq!(runnable_job_lines(&config), vec!["2:y:a.txt:@p:250:1:2".to_string()]);
}

#[test]
fn decimal_writing() {
    assert_eq!(decimal_string(0), "0");
    assert_eq!(decimal_string(907), "907");
    assert_eq!(decimal_string(usize::MAX), usize::MAX.to_string());
}

#[test]
fn repeated_claims_reported_in_order() {
    let mut jobs = vec![
        job("a", "@i", "@o"),
        job("b", "@i", "@o"),
        job("c", "@i", "-"),
        job("d", "-", "@o"),
    ];
    let report = check_pipes(&mut jobs);
    assert_eq!(report.duplicated, vec!["@i", "@o", "@i", "@o"]);
    assert!(report.unmatched.is_empty());
    assert_eq!(flags(&jobs), vec![false; 4]);
}

#[test]
fn files_that_failed_are_left_out_of_pipe_reports() {
    let mut config = Config {
        verbose: false,
        jobs: vec![job("a", "-", "@p"), job("b", "in.txt", "@p"), job("c", "@p", "-")],
        runnable_jobs: 0,
    };
    let mut report = PipeReport { duplicated: vec!["stale".to_string()], unmatched: vec![7] };
    assert!(check_jobs(&mut config, &vec![true, false, true], &mut report).is_ok());
    assert!(report.duplicated.is_empty());
    assert!(report.unmatched.is_empty());
    assert_eq!(flags(&config.jobs), vec![true, false, true]);
    assert_eq!(config.runnable_jobs, 2);
}
