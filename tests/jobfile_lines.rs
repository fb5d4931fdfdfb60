use jobrunner::jobfile::{check_job_validity, parse_jobfile, parse_timeout, split_fields};

#[test]
fn job_syntax_valid() {
    let Some(_job) = check_job_validity("ls,-,-,0") else {
        return assert!(false);
    };
}

#[test]
fn job_syntax_invalid() {
    let Some(_job) = check_job_validity("ls,-") else {
        return assert!(true);
    };
}

#[test]
fn job_line_fields() {
    let j = check_job_validity("echo,@in,out.txt,12,a,,b").unwrap();
    assert_eq!(j.program, "echo");
    assert_eq!(j.stdin, "@in");
    assert_eq!(j.stdout, "out.txt");
    assert_eq!(j.timeout, 12);
    assert_eq!(j.args, vec!["a".to_string(), "".to_string(), "b".to_string()]);
    assert!(j.runnable);
}

#[test]
fn job_line_empty_or_missing_timeout() {
    assert_eq!(check_job_validity("cat,@p1,out.txt,").unwrap().timeout, 0);
    assert_eq!(check_job_validity("cat,-,-").unwrap().timeout, 0);
    assert!(check_job_validity("cat,-,-").unwrap().args.is_empty());
}

#[test]
fn job_line_rejections() {
    assert!(check_job_validity(",-,-").is_none());
    assert!(check_job_validity("ls,,-").is_none());
    assert!(check_job_validity("ls,-,").is_none());
    assert!(check_job_validity("ls,-,-,x").is_none());
    assert!(check_job_validity("ls,-,-,-1").is_none());
    assert!(check_job_validity("").is_none());
}

#[test]
fn timeout_parsing() {
    assert_eq!(parse_timeout("0"), Some(0));
    assert_eq!(parse_timeout("+7"), Some(7));
    assert_eq!(parse_timeout("18446744073709551615"), Some(usize::MAX));
    assert_eq!(parse_timeout("18446744073709551616"), None);
    assert_eq!(parse_timeout("+"), None);
    assert_eq!(parse_timeout(""), None);
    assert_eq!(parse_timeout("1a"), None);
}

#[test]
fn fields_split_at_commas() {
    assert_eq!(split_fields("a,,b,"), vec!["a", "", "b", ""]);
    assert_eq!(split_fields(""), vec![""]);
}

#[test]
fn jobfile_skips_comments_and_blank_lines() {
    let lines: Vec<String> = vec!["#c".into(), "".into(), "ls,-,-".into(), "cat,-,-,3".into()];
    let jobs = parse_jobfile("f", &lines).unwrap();
    assert_eq!(jobs.len(), 2);
    assert_eq!(jobs[1].timeout, 3);
}

#[test]
fn jobfile_reports_first_bad_line() {
    let lines: Vec<String> = vec!["ls,-,-".into(), "bad".into(), "worse".into()];
    let e = parse_jobfile("jobs.txt", &lines).unwrap_err();
    assert_eq!(e.error_code, 3);
    assert_eq!(e.text, Some("jobs.txt".to_string()));
    assert_eq!(e.line_num, Some(2));
}

#[test]
fn jobfile_parser_read_file() {
    let lines: Vec<String> = vec!["# jobfiles/jobfile1".into(), "sleep,-,-,1".into(), "echo,-,-,0,hello".into()];
    let Ok(_jobs) = parse_jobfile("jobfiles/jobfile1", &lines) else {
        return assert!(false);
    };
}
