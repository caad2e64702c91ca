use vstd::prelude::*;
use crate::action::{actions_view, cancel_each, wait_each, Action, ActionView};

verus! {

/// An operation on one child process.
#[derive(Debug, PartialEq, Eq, Clone, Copy, Structural)]
pub enum Attempt {
    /// Ask, without blocking, whether the process has exited.
    Poll,
    /// Send the termination signal.
    Kill,
    /// Block until the process has exited, and collect it.
    Reap,
}

/// What the last operation on a child process reported.
#[derive(Debug, PartialEq, Eq, Clone, Copy, Structural)]
pub enum Report {
    /// The poll found that the process has exited.
    Exited,
    /// The poll found the process still running.
    Running,
    /// The poll itself failed.
    PollFailed,
    /// The termination signal was sent.
    Killed,
    /// The termination signal could not be sent.
    KillFailed,
    /// The process has exited and was collected.
    Reaped,
    /// Waiting for the process failed.
    ReapFailed,
}

impl Report {
    /// Whether the report is a failure, which the driver logs and the
    /// protocol passes over.
    pub open spec fn is_failure(self) -> bool {
        self is PollFailed || self is KillFailed || self is ReapFailed
    }

    /// Whether the report is a failure.
    pub fn failed(&self) -> (f: bool)
        ensures
            f == self.is_failure(),
    {
        match self {
            Report::PollFailed => true,
            Report::KillFailed => true,
            Report::ReapFailed => true,
            _ => false,
        }
    }
}

/// The next operation when a process is cancelled, given what the last one
/// reported: poll first; terminate only a process found running; reap only
/// a process that took the signal. `None` drops the process.
pub open spec fn cancel_next(last: Option<Report>) -> Option<Attempt> {
    match last {
        None => Some(Attempt::Poll),
        Some(Report::Running) => Some(Attempt::Kill),
        Some(Report::Killed) => Some(Attempt::Reap),
        Some(_) => None,
    }
}

/// The next operation when a process is waited for: block on it once, then
/// drop it whatever the wait reported.
pub open spec fn wait_next(last: Option<Report>) -> Option<Attempt> {
    match last {
        None => Some(Attempt::Reap),
        Some(_) => None,
    }
}

/// The step of the cancel protocol that follows the report `last`.
pub fn next_cancel_attempt(last: Option<Report>) -> (next: Option<Attempt>)
    ensures
        next == cancel_next(last),
{
    match last {
        None => Some(Attempt::Poll),
        Some(Report::Running) => Some(Attempt::Kill),
        Some(Report::Killed) => Some(Attempt::Reap),
        Some(_) => None,
    }
}

/// The step of the wait protocol that follows the report `last`.
pub fn next_wait_attempt(last: Option<Report>) -> (next: Option<Attempt>)
    ensures
        next == wait_next(last),
{
    match last {
        None => Some(Attempt::Reap),
        Some(_) => None,
    }
}

/// The child processes in flight for one project, in the order in which
/// they were started.
#[derive(Debug)]
pub struct SyncProcesses {
    pids: Vec<u32>,
}

impl View for SyncProcesses {
    type V = Seq<u32>;

    closed spec fn view(&self) -> Seq<u32> {
        self.pids@
    }
}

impl SyncProcesses {
    /// No process in flight.
    pub fn new() -> (processes: SyncProcesses)
        ensures
            processes@ == Seq::<u32>::empty(),
    {
        SyncProcesses { pids: Vec::new() }
    }

    /// How many processes are in flight.
    pub fn len(&self) -> (n: usize)
        ensures
            n == self@.len(),
    {
        self.pids.len()
    }

    /// Whether no process is in flight.
    pub fn is_empty(&self) -> (e: bool)
        ensures
            e == (self@.len() == 0),
    {
        self.pids.len() == 0
    }

    /// Takes a started process into the collection.
    pub fn track(&mut self, pid: u32)
        ensures
            final(self)@ == old(self)@.push(pid),
    {
        self.pids.push(pid);
    }

    /// Gives up every process in flight: one `Cancel` for each, in the order
    /// in which they were started. Nothing is in flight afterwards.
    pub fn cancel(&mut self) -> (script: Vec<Action>)
        ensures
            actions_view(script@) == cancel_each(old(self)@),
            final(self)@ == Seq::<u32>::empty(),
    {
        let mut script: Vec<Action> = Vec::new();
        let mut i: usize = 0;
        while i < self.pids.len()
            invariant
                i <= self.pids.len(),
                self.pids@ == old(self).pids@,
                script@.len() == i,
                forall|j: int|
                    0 <= j < i ==> (#[trigger] script@[j])@ == ActionView::Cancel(self.pids@[j]),
            decreases self.pids.len() - i,
        {
            script.push(Action::Cancel(self.pids[i]));
            i += 1;
        }
        assert(actions_view(script@) == cancel_each(self.pids@));
        self.pids.clear();
        script
    }

    /// Lets every process in flight finish: one `Wait` for each, in the order
    /// in which they were started. Nothing is in flight afterwards.
    pub fn wait(&mut self) -> (script: Vec<Action>)
        ensures
            actions_view(script@) == wait_each(old(self)@),
            final(self)@ == Seq::<u32>::empty(),
    {
        let mut script: Vec<Action> = Vec::new();
        let mut i: usize = 0;
        while i < self.pids.len()
            invariant
                i <= self.pids.len(),
                self.pids@ == old(self).pids@,
                script@.len() == i,
                forall|j: int|
                    0 <= j < i ==> (#[trigger] script@[j])@ == ActionView::Wait(self.pids@[j]),
            decreases self.pids.len() - i,
        {
            script.push(Action::Wait(self.pids[i]));
            i += 1;
        }
        assert(actions_view(script@) == wait_each(self.pids@));
        self.pids.clear();
        script
    }
}

/// The cancel protocol polls first and blocks only on a process that took
/// the termination signal, so it never blocks on a process found dead. It
/// drops a process only once the process is known to have exited or an
/// operation on it has failed; a process found running is sent the signal,
/// and a process that took the signal is reaped.
pub proof fn lemma_cancel_protocol(report: Report)
    ensures
        cancel_next(None) == Some(Attempt::Poll),
        cancel_next(Some(report)) is None <==> report is Exited || report is Reaped
            || report.is_failure(),
        report is Running <==> cancel_next(Some(report)) == Some(Attempt::Kill),
        report is Killed <==> cancel_next(Some(report)) == Some(Attempt::Reap),
{
}

/// The wait protocol blocks on a process once and drops it whatever the
/// wait reported.
pub proof fn lemma_wait_protocol(report: Report)
    ensures
        wait_next(None) == Some(Attempt::Reap),
        wait_next(Some(report)) is None,
{
}

} // verus!
