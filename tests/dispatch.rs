use jobrunner::config::Config;
use jobrunner::jobs::Job;
use jobrunner::scheduler::{Launch, Scheduler, StdinWiring, StdoutWiring, Step};
use jobrunner::supervisor::{judge, Status, Supervisor, Verdict, Watch};

fn job(program: &str, stdin: &str, stdout: &str) -> Job {
    Job {
        program: program.to_string(),
        stdin: stdin.to_string(),
        stdout: stdout.to_string(),
        timeout: 0,
        args: vec![],
        runnable: true,
    }
}

fn scheduler(jobs: Vec<Job>) -> Scheduler {
    Scheduler::new(Config { verbose: false, jobs, runnable_jobs: 0 })
}

/// Runs the scheduler to the end, every spawn succeeding; returns the steps taken.
fn run(s: &mut Scheduler) -> Vec<Step> {
    let mut steps = Vec::new();
    loop {
        let step = s.next_step();
        match &step {
            Step::Done => break,
            Step::Launch(l) => s.record_spawn(l, true),
            _ => {}
        }
        steps.push(step);
    }
    steps
}

fn launch(job: usize, stdin: StdinWiring, stdout: StdoutWiring) -> Step {
    Step::Launch(Launch { job, stdin, stdout })
}

#[test]
fn producer_declared_first_launches_first() {
    let mut s = scheduler(vec![job("ls", "-", "@p"), job("cat", "@p", "-")]);
    let steps = run(&mut s);
    assert_eq!(
        steps,
        vec![launch(0, StdinWiring::Inherit, StdoutWiring::Pipe), launch(1, StdinWiring::Pipe(0), StdoutWiring::Inherit)]
    );
}

#[test]
fn producer_declared_second_still_launches_first() {
    let mut s = scheduler(vec![job("cat", "@p1", "out.txt"), job("ls", "-", "@p1")]);
    let steps = run(&mut s);
    assert_eq!(
        steps,
        vec![
            launch(1, StdinWiring::Inherit, StdoutWiring::Pipe),
            Step::Idle,
            launch(0, StdinWiring::Pipe(0), StdoutWiring::File),
        ]
    );
    assert_eq!(s.launched, vec![1, 0]);
}

#[test]
fn two_independent_jobs_launch_in_order() {
    let mut s = scheduler(vec![job("sleep", "-", "-"), job("echo", "-", "-")]);
    let steps = run(&mut s);
    assert_eq!(
        steps,
        vec![launch(0, StdinWiring::Inherit, StdoutWiring::Inherit), launch(1, StdinWiring::Inherit, StdoutWiring::Inherit)]
    );
}

#[test]
fn consumer_without_producer_is_broken() {
    let mut s = scheduler(vec![job("cat", "@p1", "out.txt")]);
    assert_eq!(s.outpipes_remaining, 0);
    assert_eq!(run(&mut s), vec![Step::BrokenPipe(0)]);
}

#[test]
fn failed_producer_leaves_consumer_broken() {
    let mut s = scheduler(vec![job("cat", "@p", "-"), job("nosuch", "-", "@p")]);
    let first = s.next_step();
    assert_eq!(first, launch(1, StdinWiring::Inherit, StdoutWiring::Pipe));
    if let Step::Launch(l) = &first {
        s.record_spawn(l, false);
    }
    assert_eq!(s.next_step(), Step::Idle);
    assert_eq!(s.next_step(), Step::BrokenPipe(0));
    assert_eq!(s.next_step(), Step::Done);
    assert!(s.launched.is_empty());
}

#[test]
fn pipe_cycle_is_broken_after_a_stalled_sweep() {
    let mut s = scheduler(vec![job("a", "@x", "@y"), job("b", "@y", "@x")]);
    assert_eq!(run(&mut s), vec![Step::Idle, Step::BrokenPipe(0), Step::BrokenPipe(1)]);
}

#[test]
fn disabled_jobs_are_not_dispatched() {
    let mut a = job("a", "-", "-");
    a.runnable = false;
    let mut s = scheduler(vec![a, job("b", "in.txt", "-")]);
    assert_eq!(s.config.runnable_jobs, 1);
    assert_eq!(run(&mut s), vec![launch(1, StdinWiring::File, StdoutWiring::Inherit)]);
}

#[test]
fn verdicts() {
    assert_eq!(judge(Status::Exited, 5, 2), Verdict::Completed);
    assert_eq!(judge(Status::Unknown, 0, 0), Verdict::Lost);
    assert_eq!(judge(Status::Running, 2, 2), Verdict::Keep);
    assert_eq!(judge(Status::Running, 3, 2), Verdict::Kill);
    assert_eq!(judge(Status::Running, 1_000_000, 0), Verdict::Keep);
}

#[test]
fn timed_out_job_is_killed_on_the_third_tick() {
    let mut sup = Supervisor::new(vec![
        Watch { job_number: 1, timeout: 2, finished: false },
        Watch { job_number: 2, timeout: 0, finished: false },
    ]);
    assert_eq!(sup.remaining, 2);
    let mut ticks = 0;
    loop {
        if !sup.watches[0].finished {
            if sup.observe(0, Status::Running) == Verdict::Kill {
                break;
            }
        }
        assert_eq!(sup.observe(1, Status::Running), Verdict::Keep);
        assert!(sup.end_sweep());
        ticks += 1;
    }
    assert_eq!(sup.elapsed, 3);
    assert_eq!(ticks, 3);
    assert_eq!(sup.remaining, 1);
    assert!(sup.watches[0].finished);
}

#[test]
fn supervisor_ends_once_all_complete() {
    let mut sup = Supervisor::new(vec![
        Watch { job_number: 1, timeout: 0, finished: false },
        Watch { job_number: 2, timeout: 0, finished: false },
    ]);
    assert_eq!(sup.observe(1, Status::Exited), Verdict::Completed);
    assert_eq!(sup.observe(0, Status::Running), Verdict::Keep);
    assert!(sup.end_sweep());
    assert_eq!(sup.observe(0, Status::Exited), Verdict::Completed);
    assert_eq!(sup.remaining, 0);
    assert!(!sup.end_sweep());
    assert_eq!(sup.elapsed, 1);
}

#[test]
fn unobservable_process_counts_as_finished() {
    let mut sup = Supervisor::new(vec![Watch { job_number: 4, timeout: 9, finished: false }]);
    assert_eq!(sup.observe(0, Status::Unknown), Verdict::Lost);
    assert_eq!(sup.remaining, 0);
}
