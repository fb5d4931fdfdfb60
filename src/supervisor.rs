use vstd::prelude::*;

verus! {

/// What a non-blocking look at a process found.
#[derive(Debug, Clone, Copy, PartialEq, Eq, Structural)]
pub enum Status {
    Exited,
    Running,
    /// The status could not be read.
    Unknown,
}

/// What the supervisor makes of a look at a process.
#[derive(Debug, Clone, Copy, PartialEq, Eq, Structural)]
pub enum Verdict {
    /// The process has exited: report it and stop watching it.
    Completed,
    /// The process overran its timeout: kill it, report it and stop watching it.
    Kill,
    /// The process runs on: look again next tick.
    Keep,
    /// The process could not be observed: report it as failed and stop watching it.
    Lost,
}

/// The verdict on a process with this timeout, seen in this state after `elapsed` ticks.
pub open spec fn verdict(status: Status, elapsed: nat, timeout: nat) -> Verdict {
    match status {
        Status::Exited => Verdict::Completed,
        Status::Unknown => Verdict::Lost,
        Status::Running => if timeout > 0 && elapsed > timeout {
            Verdict::Kill
        } else {
            Verdict::Keep
        },
    }
}

/// One watched process.
#[derive(Debug, Clone, Copy, PartialEq, Eq, Structural)]
pub struct Watch {
    /// The 1-based position of the job in the declared sequence.
    pub job_number: usize,
    /// Seconds; 0 means no timeout.
    pub timeout: usize,
    pub finished: bool,
}

/// How many of the watched processes are unfinished.
pub open spec fn count_unfinished(w: Seq<Watch>) -> nat
    decreases w.len(),
{
    if w.len() == 0 {
        0
    } else {
        count_unfinished(w.drop_last()) + if w.last().finished {
            0nat
        } else {
            1nat
        }
    }
}

proof fn lemma_finish_one(w: Seq<Watch>, i: int)
    requires
        0 <= i < w.len(),
        !w[i].finished,
    ensures
        count_unfinished(w.update(i, Watch { finished: true, ..w[i] })) + 1 == count_unfinished(w),
    decreases w.len(),
{
    let t = w.update(i, Watch { finished: true, ..w[i] });
    if i == w.len() - 1 {
        assert(t.drop_last() =~= w.drop_last());
    } else {
        assert(t.drop_last() =~= w.drop_last().update(i, Watch { finished: true, ..w[i] }));
        lemma_finish_one(w.drop_last(), i);
    }
}

/// Watches the spawned processes on a shared tick counter until each has finished.
pub struct Supervisor {
    /// The processes, by spawn slot.
    pub watches: Vec<Watch>,
    /// How many are unfinished.
    pub remaining: usize,
    /// Ticks since watching began; shared by all processes.
    pub elapsed: usize,
}

/// The verdict on one look at a process.
pub fn judge(status: Status, elapsed: usize, timeout: usize) -> (r: Verdict)
    ensures
        r == verdict(status, elapsed as nat, timeout as nat),
{
    match status {
        Status::Exited => Verdict::Completed,
        Status::Unknown => Verdict::Lost,
        Status::Running => if timeout > 0 && elapsed > timeout {
            Verdict::Kill
        } else {
            Verdict::Keep
        },
    }
}

impl Supervisor {
    pub open spec fn wf(&self) -> bool {
        self.remaining == count_unfinished(self.watches@)
    }

    /// Starts watching freshly spawned processes, none finished, at tick zero.
    pub fn new(watches: Vec<Watch>) -> (r: Supervisor)
        ensures
            r.wf(),
            r.watches@ == watches@,
            r.elapsed == 0,
    {
        let ghost w = watches@;
        let mut remaining: usize = 0;
        let mut i: usize = 0;
        while i < watches.len()
            invariant
                0 <= i <= watches.len(),
                w == watches@,
                remaining == count_unfinished(w.subrange(0, i as int)),
                remaining <= i,
            decreases watches.len() - i,
        {
            assert(w.subrange(0, i + 1).drop_last() =~= w.subrange(0, i as int));
            if !watches[i].finished {
                remaining += 1;
            }
            i += 1;
        }
        assert(w.subrange(0, watches.len() as int) =~= w);
        Supervisor { watches, remaining, elapsed: 0 }
    }

    /// Takes the status of the unfinished process in slot `i` and returns the verdict;
    /// every verdict but `Keep` marks the process finished.
    pub fn observe(&mut self, i: usize, status: Status) -> (r: Verdict)
        requires
            old(self).wf(),
            i < old(self).watches.len(),
            !old(self).watches@[i as int].finished,
        ensures
            final(self).wf(),
            r == verdict(status, old(self).elapsed as nat, old(self).watches@[i as int].timeout as nat),
            final(self).elapsed == old(self).elapsed,
            r == Verdict::Keep ==> final(self).watches == old(self).watches,
            r != Verdict::Keep ==> final(self).watches@ == old(self).watches@.update(
                i as int,
                Watch { finished: true, ..old(self).watches@[i as int] },
            ),
            r != Verdict::Keep ==> final(self).remaining == old(self).remaining - 1,
    {
        let r = judge(status, self.elapsed, self.watches[i].timeout);
        if r != Verdict::Keep {
            proof {
                lemma_finish_one(self.watches@, i as int);
            }
            self.watches[i].finished = true;
            self.remaining = self.remaining - 1;
        }
        r
    }

    /// Ends a sweep over the processes: while any is unfinished, one more tick passes
    /// (the counter stops at its largest value) and the result is `true`.
    pub fn end_sweep(&mut self) -> (r: bool)
        requires
            old(self).wf(),
        ensures
            final(self).wf(),
            final(self).watches == old(self).watches,
            r == (old(self).remaining > 0),
            r ==> final(self).elapsed == if old(self).elapsed < usize::MAX {
                old(self).elapsed + 1
            } else {
                old(self).elapsed as int
            },
            !r ==> final(self).elapsed == old(self).elapsed,
    {
        if self.remaining > 0 {
            self.elapsed = self.elapsed.saturating_add(1);
            true
        } else {
            false
        }
    }
}

proof fn lemma_none_unfinished(w: Seq<Watch>)
    ensures
        (count_unfinished(w) == 0) <==> (forall|i: int| 0 <= i < w.len() ==> #[trigger] w[i].finished),
    decreases w.len(),
{
    if w.len() > 0 {
        lemma_none_unfinished(w.drop_last());
        assert forall|i: int| 0 <= i < w.len() - 1 implies w.drop_last()[i] == w[i] by {}
        if !w.last().finished {
            assert(!w[w.len() - 1].finished);
        }
    }
}

/// Watching ends, with no further tick, exactly when every process has been seen to
/// finish: after the sweep in which the last one exits, `end_sweep` returns `false`.
pub proof fn lemma_supervision_ends(s: Supervisor)
    requires
        s.wf(),
    ensures
        (s.remaining == 0) <==> (forall|i: int| 0 <= i < s.watches@.len() ==> #[trigger] s.watches@[i].finished),
{
    lemma_none_unfinished(s.watches@);
}

/// A process without a timeout is never killed, however long it runs.
pub proof fn lemma_no_timeout_never_killed(elapsed: nat)
    ensures
        verdict(Status::Running, elapsed, 0) == Verdict::Keep,
{
}

/// A running process with a timeout is killed at the first look after the elapsed
/// ticks exceed it, and never before.
pub proof fn lemma_killed_after_timeout(elapsed: nat, timeout: nat)
    requires
        timeout > 0,
    ensures
        (verdict(Status::Running, elapsed, timeout) == Verdict::Kill) <==> elapsed > timeout,
{
}

} // verus!
