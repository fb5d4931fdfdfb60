use jobrunner::config::{Config, JobFile};

fn lines(ls: &[&str]) -> JobFile {
    JobFile::Lines(ls.iter().map(|l| l.to_string()).collect())
}

#[test]
fn build_config() {
    let Ok(_config) = Config::build(
        vec!["jobfiles/jobfile1".to_string()],
        vec![lines(&["# two jobs", "sleep,-,-,1", "echo,-,-,0,hello"])],
    ) else {
        return assert!(false);
    };
    let Ok(_config) = Config::build(
        vec!["jobfiles/invalid_jobfile1".to_string()],
        vec![lines(&["ls,-"])],
    ) else {
        return assert!(true);
    };
}

#[test]
fn build_reads_jobs_in_order() {
    let c = Config::build(
        vec!["-v".to_string(), "a".to_string(), "b".to_string()],
        vec![JobFile::Unopenable, lines(&["sleep,-,-,1", "", "#x"]), lines(&["echo,-,-,0,hello"])],
    )
    .unwrap();
    assert!(c.verbose);
    assert_eq!(c.runnable_jobs, 0);
    assert_eq!(c.jobs.len(), 2);
    assert_eq!(c.jobs[0].program, "sleep");
    assert_eq!(c.jobs[0].timeout, 1);
    assert_eq!(c.jobs[1].program, "echo");
    assert_eq!(c.jobs[1].args, vec!["hello".to_string()]);
    assert!(c.jobs[1].runnable);
}

#[test]
fn build_without_arguments_is_usage_error() {
    let e = Config::build(vec![], vec![]).unwrap_err();
    assert_eq!(e.error_code, 1);
}

#[test]
fn build_with_late_verbose_flag_is_usage_error() {
    let e = Config::build(
        vec!["a".to_string(), "-v".to_string()],
        vec![lines(&["ls,-,-"]), JobFile::Unopenable],
    )
    .unwrap_err();
    assert_eq!(e.error_code, 1);
}

#[test]
fn build_with_unopenable_file() {
    let e = Config::build(vec!["missing".to_string()], vec![JobFile::Unopenable]).unwrap_err();
    assert_eq!(e.error_code, 2);
    assert_eq!(e.text, Some("missing".to_string()));
}

#[test]
fn build_with_unreadable_file() {
    let e = Config::build(vec!["f".to_string()], vec![JobFile::Unreadable]).unwrap_err();
    assert_eq!(e.error_code, 99);
    assert_eq!(e.text, Some("Error reading lines in f".to_string()));
}

#[test]
fn build_with_invalid_line_names_file_and_line() {
    let e = Config::build(
        vec!["f".to_string()],
        vec![lines(&["# comment", "ls,-,-", "ls,-"])],
    )
    .unwrap_err();
    assert_eq!(e.error_code, 3);
    assert_eq!(e.text, Some("f".to_string()));
    assert_eq!(e.line_num, Some(3));
}

#[test]
fn build_with_no_jobs() {
    let e = Config::build(vec!["f".to_string()], vec![lines(&["# nothing", ""])]).unwrap_err();
    assert_eq!(e.error_code, 4);
}
