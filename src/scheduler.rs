use vstd::prelude::*;

use crate::config::Config;
use crate::jobs::{JobSpec, jobs_view, is_pipe_spec, is_inherit_spec, is_path_spec, disabled, is_pipe, is_inherit, disable};
use crate::counting::{count_jobs, counted, count_exec, lemma_count_disable, lemma_count_witness};

verus! {

/// Where a launched job's input comes from.
#[derive(Debug, PartialEq, Eq, Structural)]
pub enum StdinWiring {
    Inherit,
    File,
    /// The output stream of the process in this spawn slot.
    Pipe(usize),
}

/// Where a launched job's output goes.
#[derive(Debug, PartialEq, Eq, Structural)]
pub enum StdoutWiring {
    Inherit,
    File,
    /// A new stream, kept for the pipe's consumer.
    Pipe,
}

/// An order to start one job's process.
#[derive(Debug, PartialEq, Eq, Structural)]
pub struct Launch {
    pub job: usize,
    pub stdin: StdinWiring,
    pub stdout: StdoutWiring,
}

/// What the scheduler asks for next.
#[derive(Debug, PartialEq, Eq, Structural)]
pub enum Step {
    /// Start this job's process, then report with `record_spawn`.
    Launch(Launch),
    /// This job waits for a pipe that nothing will produce any more: it is disabled.
    BrokenPipe(usize),
    /// A sweep over the jobs ended; ask again.
    Idle,
    /// No runnable job is left.
    Done,
}

/// Dependency-ordered dispatch of the runnable jobs. A job that reads a pipe is
/// dispatched only once that pipe's producer has been spawned.
pub struct Scheduler {
    /// The jobs; a job is still to be dispatched while it is runnable.
    pub config: Config,
    /// The runnable jobs that write a pipe.
    pub outpipes_remaining: usize,
    /// Each pipe whose producer has been spawned, with the producer's spawn slot.
    pub pipes: Vec<(String, usize)>,
    /// The job of each process spawned so far, by spawn slot.
    pub launched: Vec<usize>,
    /// The next job to consider in the current sweep.
    pub cursor: usize,
    /// Whether the current sweep has disposed of some job.
    pub progressed: bool,
    /// Whether the last whole sweep disposed of none: no waiting job can be served.
    pub stalled: bool,
}

/// The pipe has been produced.
pub open spec fn produced(pipes: Seq<(String, usize)>, name: Seq<char>) -> bool {
    exists|k: int| 0 <= k < pipes.len() && pipes[k].0@ == name
}

/// The pipe has been produced by the process in `slot`.
pub open spec fn produced_in(pipes: Seq<(String, usize)>, name: Seq<char>, slot: usize) -> bool {
    exists|k: int| 0 <= k < pipes.len() && pipes[k].0@ == name && pipes[k].1 == slot
}

impl Scheduler {
    /// The jobs, as the contracts see them.
    pub open spec fn jobs(&self) -> Seq<JobSpec> {
        jobs_view(self.config.jobs@)
    }

    /// The counters match the jobs, each spawn slot holds a dispatched job, and each
    /// produced pipe is written by the job in its slot.
    pub open spec fn wf(&self) -> bool {
        &&& self.config.runnable_jobs == count_jobs(self.jobs(), false)
        &&& self.outpipes_remaining == count_jobs(self.jobs(), true)
        &&& self.cursor <= self.config.jobs.len()
        &&& forall|k: int| 0 <= k < self.launched@.len() ==> {
            &&& self.launched@[k] < self.jobs().len()
            &&& !self.jobs()[self.launched@[k] as int].runnable
        }
        &&& forall|k: int| 0 <= k < self.pipes@.len() ==> {
            &&& self.pipes@[k].1 < self.launched@.len()
            &&& self.jobs()[self.launched@[self.pipes@[k].1 as int] as int].stdout == self.pipes@[k].0@
        }
    }

    /// Job `i` reads a pipe that has not been produced yet.
    pub open spec fn waits(&self, i: int) -> bool {
        is_pipe_spec(self.jobs()[i].stdin) && !produced(self.pipes@, self.jobs()[i].stdin)
    }

    /// No waiting job can be served any more.
    pub open spec fn starved(&self) -> bool {
        self.outpipes_remaining == 0 || self.stalled
    }

    /// Job `i` can be disposed of now: dispatched, or disabled as unservable.
    pub open spec fn actionable(&self, i: int) -> bool {
        self.jobs()[i].runnable && (!self.waits(i) || self.starved())
    }

    /// The wiring of job `j`'s input in a launch order.
    pub open spec fn stdin_wired(&self, j: JobSpec, w: StdinWiring) -> bool {
        match w {
            StdinWiring::Inherit => is_inherit_spec(j.stdin),
            StdinWiring::File => is_path_spec(j.stdin),
            StdinWiring::Pipe(slot) => is_pipe_spec(j.stdin) && produced_in(self.pipes@, j.stdin, slot),
        }
    }

    /// The wiring of job `j`'s output in a launch order.
    pub open spec fn stdout_wired(j: JobSpec, w: StdoutWiring) -> bool {
        match w {
            StdoutWiring::Inherit => is_inherit_spec(j.stdout),
            StdoutWiring::File => is_path_spec(j.stdout),
            StdoutWiring::Pipe => is_pipe_spec(j.stdout),
        }
    }

    /// Starts dispatch over the validated jobs.
    pub fn new(config: Config) -> (r: Scheduler)
        ensures
            r.wf(),
            r.jobs() == jobs_view(config.jobs@),
            r.pipes@.len() == 0,
            r.launched@.len() == 0,
            r.cursor == 0,
            !r.progressed,
            !r.stalled,
    {
        let mut config = config;
        config.runnable_jobs = count_exec(&config.jobs, false);
        let outpipes_remaining = count_exec(&config.jobs, true);
        Scheduler {
            config,
            outpipes_remaining,
            pipes: Vec::new(),
            launched: Vec::new(),
            cursor: 0,
            progressed: false,
            stalled: false,
        }
    }

    fn find_pipe(&self, name: &String) -> (r: Option<usize>)
        ensures
            r is None <==> !produced(self.pipes@, name@),
            r matches Some(slot) ==> produced_in(self.pipes@, name@, slot),
    {
        let mut k: usize = 0;
        while k < self.pipes.len()
            invariant
                0 <= k <= self.pipes@.len(),
                forall|m: int| 0 <= m < k ==> self.pipes@[m].0@ != name@,
            decreases self.pipes@.len() - k,
        {
            if self.pipes[k].0 == *name {
                return Some(self.pipes[k].1);
            }
            k += 1;
        }
        None
    }

    proof fn lemma_dispose(&self, i: int)
        requires
            self.wf(),
            0 <= i < self.jobs().len(),
            self.jobs()[i].runnable,
        ensures
            count_jobs(self.jobs().update(i, disabled(self.jobs()[i])), false) == self.config.runnable_jobs - 1,
            count_jobs(self.jobs().update(i, disabled(self.jobs()[i])), true) == self.outpipes_remaining - if is_pipe_spec(
                self.jobs()[i].stdout,
            ) {
                1int
            } else {
                0int
            },
    {
        lemma_count_disable(self.jobs(), i, false);
        lemma_count_disable(self.jobs(), i, true);
    }

    /// Considers the jobs from the cursor on, in index order, and disposes of the
    /// first runnable one that can be: a job that reads a pipe not yet produced waits,
    /// unless no producer is left to come or the last whole sweep disposed of no job,
    /// in which case it is disabled; any other is
    /// dispatched with its streams wired. At the end of a sweep the cursor goes back
    /// to the first job.
    pub fn next_step(&mut self) -> (r: Step)
        requires
            old(self).wf(),
        ensures
            final(self).wf(),
            final(self).pipes == old(self).pipes,
            final(self).launched == old(self).launched,
            final(self).config.verbose == old(self).config.verbose,
            (r == Step::Done) <==> old(self).config.runnable_jobs == 0,
            r == Step::Done ==> *final(self) == *old(self),
            r == Step::Idle ==> {
                &&& forall|m: int| old(self).cursor <= m < old(self).jobs().len() ==> !old(self).actionable(m)
                &&& final(self).jobs() == old(self).jobs()
                &&& final(self).cursor == 0
                &&& final(self).stalled == !old(self).progressed
                &&& !final(self).progressed
            },
            r matches Step::Launch(l) ==> {
                &&& old(self).cursor <= l.job < old(self).jobs().len()
                &&& forall|m: int| old(self).cursor <= m < l.job ==> !old(self).actionable(m)
                &&& old(self).jobs()[l.job as int].runnable
                &&& !old(self).waits(l.job as int)
                &&& old(self).stdin_wired(old(self).jobs()[l.job as int], l.stdin)
                &&& Self::stdout_wired(old(self).jobs()[l.job as int], l.stdout)
                &&& final(self).jobs() == old(self).jobs().update(l.job as int, disabled(old(self).jobs()[l.job as int]))
                &&& final(self).cursor == l.job + 1
                &&& final(self).progressed
                &&& final(self).stalled == old(self).stalled
            },
            r matches Step::BrokenPipe(i) ==> {
                &&& old(self).cursor <= i < old(self).jobs().len()
                &&& forall|m: int| old(self).cursor <= m < i ==> !old(self).actionable(m)
                &&& old(self).jobs()[i as int].runnable
                &&& old(self).waits(i as int)
                &&& old(self).starved()
                &&& final(self).jobs() == old(self).jobs().update(i as int, disabled(old(self).jobs()[i as int]))
                &&& final(self).cursor == i + 1
                &&& final(self).progressed
                &&& final(self).stalled == old(self).stalled
            },
    {
        if self.config.runnable_jobs == 0 {
            return Step::Done;
        }
        let n = self.config.jobs.len();
        let starved = self.outpipes_remaining == 0 || self.stalled;
        let ghost s0 = *self;
        while self.cursor < n
            invariant
                self.wf(),
                s0 == *old(self),
                s0.config.runnable_jobs > 0,
                n == self.config.jobs.len(),
                s0.cursor <= self.cursor,
                self.config == s0.config,
                self.pipes == s0.pipes,
                self.launched == s0.launched,
                self.outpipes_remaining == s0.outpipes_remaining,
                self.progressed == s0.progressed,
                self.stalled == s0.stalled,
                starved == s0.starved(),
                forall|m: int| s0.cursor <= m < self.cursor ==> !s0.actionable(m),
            decreases n - self.cursor,
        {
            let i = self.cursor;
            assert(self.jobs()[i as int] == self.config.jobs@[i as int]@);
            if self.config.jobs[i].runnable {
                let job = &self.config.jobs[i];
                let mut stdin = StdinWiring::Inherit;
                let mut ready = true;
                if is_pipe(&job.stdin) {
                    match self.find_pipe(&job.stdin) {
                        Some(slot) => {
                            stdin = StdinWiring::Pipe(slot);
                        },
                        None => {
                            ready = false;
                        },
                    }
                } else if !is_inherit(&job.stdin) {
                    stdin = StdinWiring::File;
                }
                if !ready && starved {
                    proof {
                        s0.lemma_dispose(i as int);
                    }
                    if is_pipe(&self.config.jobs[i].stdout) {
                        self.outpipes_remaining = self.outpipes_remaining - 1;
                    }
                    self.config.runnable_jobs = self.config.runnable_jobs - 1;
                    disable(&mut self.config.jobs, i);
                    self.cursor = i + 1;
                    self.progressed = true;
                    return Step::BrokenPipe(i);
                }
                if ready {
                    let job = &self.config.jobs[i];
                    let stdout = if is_pipe(&job.stdout) {
                        StdoutWiring::Pipe
                    } else if is_inherit(&job.stdout) {
                        StdoutWiring::Inherit
                    } else {
                        StdoutWiring::File
                    };
                    proof {
                        s0.lemma_dispose(i as int);
                    }
                    if is_pipe(&job.stdout) {
                        self.outpipes_remaining = self.outpipes_remaining - 1;
                    }
                    self.config.runnable_jobs = self.config.runnable_jobs - 1;
                    disable(&mut self.config.jobs, i);
                    self.cursor = i + 1;
                    self.progressed = true;
                    return Step::Launch(Launch { job: i, stdin, stdout });
                }
            }
            self.cursor = i + 1;
        }
        self.cursor = 0;
        self.stalled = !self.progressed;
        self.progressed = false;
        Step::Idle
    }

    /// Records the outcome of a launch order: a spawned process takes the next spawn
    /// slot, and a spawned pipe producer makes its pipe available in that slot.
    pub fn record_spawn(&mut self, launch: &Launch, spawned: bool)
        requires
            old(self).wf(),
            launch.job < old(self).config.jobs.len(),
            !old(self).jobs()[launch.job as int].runnable,
            Self::stdout_wired(old(self).jobs()[launch.job as int], launch.stdout),
        ensures
            final(self).wf(),
            final(self).config == old(self).config,
            final(self).cursor == old(self).cursor,
            final(self).progressed == old(self).progressed,
            final(self).stalled == old(self).stalled,
            final(self).outpipes_remaining == old(self).outpipes_remaining,
            !spawned ==> final(self).pipes == old(self).pipes && final(self).launched == old(self).launched,
            spawned ==> final(self).launched@ == old(self).launched@.push(launch.job),
            spawned && launch.stdout == StdoutWiring::Pipe ==> final(self).pipes@ == old(self).pipes@.push(
                (old(self).config.jobs@[launch.job as int].stdout, old(self).launched@.len() as usize),
            ),
            spawned && launch.stdout != StdoutWiring::Pipe ==> final(self).pipes == old(self).pipes,
    {
        if spawned {
            assert(self.jobs()[launch.job as int] == self.config.jobs@[launch.job as int]@);
            if launch.stdout == StdoutWiring::Pipe {
                let name = self.config.jobs[launch.job].stdout.clone();
                self.pipes.push((name, self.launched.len()));
            }
            self.launched.push(launch.job);
        }
    }
}

/// A job that reads a pipe is launched only after the pipe's producer: the input it
/// is wired to is the output stream of a process already spawned, and that process
/// runs a job, already dispatched, that writes the pipe.
pub proof fn lemma_consumer_follows_producer(s: Scheduler, j: JobSpec, slot: usize)
    requires
        s.wf(),
        s.stdin_wired(j, StdinWiring::Pipe(slot)),
    ensures
        slot < s.launched@.len(),
        s.jobs()[s.launched@[slot as int] as int].stdout == j.stdin,
        !s.jobs()[s.launched@[slot as int] as int].runnable,
{
    let k = choose|k: int| 0 <= k < s.pipes@.len() && s.pipes@[k].0@ == j.stdin && s.pipes@[k].1 == slot;
    assert(s.pipes@[k].1 < s.launched@.len());
}

/// Where job `a` alone writes a pipe, a job that reads that pipe is wired to the
/// output stream of `a`'s process, spawned in an earlier slot than any spawn to come:
/// `a` starts before its consumer, whatever the order in which they were declared.
pub proof fn lemma_producer_spawned_first(s: Scheduler, a: int, j: JobSpec, slot: usize)
    requires
        s.wf(),
        0 <= a < s.jobs().len(),
        forall|k: int| 0 <= k < s.jobs().len() && s.jobs()[k].stdout == j.stdin ==> k == a,
        s.stdin_wired(j, StdinWiring::Pipe(slot)),
    ensures
        s.launched@[slot as int] == a,
        slot < s.launched@.len(),
{
    lemma_consumer_follows_producer(s, j, slot);
}

/// A whole sweep that starts after a sweep without progress disposes of some job,
/// while any is left: dispatch always comes to an end.
pub proof fn lemma_stalled_sweep_progresses(s: Scheduler)
    requires
        s.wf(),
        s.cursor == 0,
        s.stalled,
        s.config.runnable_jobs > 0,
    ensures
        exists|m: int| 0 <= m < s.jobs().len() && #[trigger] s.actionable(m),
{
    lemma_count_witness(s.jobs(), false);
    let m = choose|m: int| 0 <= m < s.jobs().len() && counted(#[trigger] s.jobs()[m], false);
    assert(s.actionable(m));
}

} // verus!
