use vstd::prelude::*;
use crate::action::{
    actions_view, append_actions, cancel_each, spawn_actions, spawn_each, wait_each, Action,
    ActionView,
};
use crate::batch::{merge_events, merge_paths, PendingBatch};
use crate::config::DebounceWindow;
use crate::event::{Input, InputView};
use crate::process::SyncProcesses;
use crate::sync::{syncs_view, ParsedSync, ParsedSyncView};
use crate::text::texts;

verus! {

/// Where a watch session stands.
#[derive(Debug, PartialEq, Eq, Clone, Copy, Structural)]
pub enum Phase {
    /// The watches are being registered; nothing was synced yet.
    Registering,
    /// Blocked until the first event of a batch arrives.
    Idle,
    /// A debounce window is running.
    Collecting,
    /// The stream of events was found closed; the last batch is being
    /// dispatched, and the session ends next.
    Closing,
    /// The loop has ended.
    Stopped,
}

/// What a watch session is, as plain values.
pub struct SessionView {
    /// The sources of the enabled rules, in the order of the rules.
    pub roots: Seq<Seq<char>>,
    pub restart: bool,
    pub debounce: DebounceWindow,
    pub phase: Phase,
    /// The roots gathered in the running window.
    pub batch: Seq<Seq<char>>,
    /// The child processes in flight.
    pub in_progress: Seq<u32>,
}

/// Whether a rule is enabled.
pub open spec fn is_enabled() -> spec_fn(ParsedSyncView) -> bool {
    |rule: ParsedSyncView| rule.enabled
}

/// The enabled rules among `rules`, in order.
pub open spec fn enabled_rules(rules: Seq<ParsedSyncView>) -> Seq<ParsedSyncView> {
    rules.filter(is_enabled())
}

/// The sources of `rules`, in order.
pub open spec fn rule_roots(rules: Seq<ParsedSyncView>) -> Seq<Seq<char>> {
    rules.map_values(|rule: ParsedSyncView| rule.src)
}

/// One `Watch` for each rule, in order.
pub open spec fn watch_each(rules: Seq<ParsedSyncView>) -> Seq<ActionView> {
    rules.map_values(
        |rule: ParsedSyncView| ActionView::Watch { path: rule.src, recursive: rule.recursive },
    )
}

/// The session of a project before anything has happened.
pub open spec fn opened(
    rules: Seq<ParsedSyncView>,
    restart: bool,
    debounce: DebounceWindow,
) -> SessionView {
    SessionView {
        roots: rule_roots(enabled_rules(rules)),
        restart,
        debounce,
        phase: Phase::Registering,
        batch: Seq::empty(),
        in_progress: Seq::empty(),
    }
}

/// What holds of a session at all times: a root waits at most once, and
/// roots wait only while a window runs.
pub open spec fn inv(s: SessionView) -> bool {
    &&& s.batch.no_duplicates()
    &&& s.phase != Phase::Collecting ==> s.batch.len() == 0
}

/// The policy of a project applied to the processes in flight: cancel each
/// where the project restarts, wait for each where it does not.
pub open spec fn settle(restart: bool, pids: Seq<u32>) -> Seq<ActionView> {
    if restart {
        cancel_each(pids)
    } else {
        wait_each(pids)
    }
}

/// What a batch leads to: first the policy applied to the processes in
/// flight, then one sync invocation for each root of the batch.
pub open spec fn dispatch(restart: bool, pids: Seq<u32>, batch: Seq<Seq<char>>) -> Seq<ActionView> {
    settle(restart, pids) + spawn_each(batch, false)
}

/// The session `s` after its loop has ended.
pub open spec fn stopped(s: SessionView) -> SessionView {
    SessionView { phase: Phase::Stopped, batch: Seq::empty(), in_progress: Seq::empty(), ..s }
}

/// What follows a dispatch: the session waits for the next event, unless
/// the stream of events was found closed.
pub open spec fn after_dispatch(disconnected: bool) -> Seq<ActionView> {
    if disconnected {
        Seq::empty()
    } else {
        seq![ActionView::AwaitEvent]
    }
}

/// What ends a session: every process in flight is cancelled, then the loop
/// is left.
pub open spec fn stop_script(s: SessionView) -> Seq<ActionView> {
    cancel_each(s.in_progress).push(ActionView::Exit)
}

/// The session `s` with `pid` in flight.
pub open spec fn tracking(s: SessionView, pid: u32) -> SessionView {
    SessionView { in_progress: s.in_progress.push(pid), ..s }
}

/// The transition of a watch session: the session after `input`, and what
/// the driver is to do next.
///
/// - While its watches are registered, a session waits for the driver to
///   say how that went. Once they are registered it starts one first sync
///   for each root and goes idle; where one failed, it ends.
/// - An idle session waits for one event. An event that asks for a sync
///   puts the roots of its paths into the batch and opens the debounce
///   window; any other event is dropped.
/// - At the end of the window the drained events are merged into the same
///   batch, the batch is dispatched and cleared, and the session goes idle
///   again; where the stream was found closed, it closes instead.
/// - A closing session ends at the next input, whichever it is.
/// - The shutdown signal ends a session wherever it stands. A session that
///   ends has every process in flight cancelled.
/// - Any other input changes nothing, and the session asks again for what
///   it waits for.
pub open spec fn step(s: SessionView, input: InputView) -> (SessionView, Seq<ActionView>) {
    match s.phase {
        Phase::Stopped => (stopped(s), stop_script(s)),
        Phase::Closing => (stopped(s), stop_script(s)),
        Phase::Registering => match input {
            InputView::Ready => (
                SessionView { phase: Phase::Idle, ..s },
                spawn_each(s.roots, true).push(ActionView::AwaitEvent),
            ),
            InputView::WatchFailed => (stopped(s), stop_script(s)),
            InputView::Shutdown => (stopped(s), stop_script(s)),
            _ => (s, Seq::empty()),
        },
        Phase::Idle => match input {
            InputView::Event(event) => if event.kind.is_change() {
                (
                    SessionView {
                        phase: Phase::Collecting,
                        batch: merge_paths(s.batch, s.roots, event.paths),
                        ..s
                    },
                    seq![ActionView::Debounce(s.debounce)],
                )
            } else {
                (s, seq![ActionView::AwaitEvent])
            },
            InputView::Shutdown => (stopped(s), stop_script(s)),
            _ => (s, seq![ActionView::AwaitEvent]),
        },
        Phase::Collecting => match input {
            InputView::Drained { events, disconnected } => (
                SessionView {
                    phase: if disconnected {
                        Phase::Closing
                    } else {
                        Phase::Idle
                    },
                    batch: Seq::empty(),
                    in_progress: Seq::empty(),
                    ..s
                },
                dispatch(s.restart, s.in_progress, merge_events(s.batch, s.roots, events))
                    + after_dispatch(disconnected),
            ),
            InputView::Shutdown => (stopped(s), stop_script(s)),
            _ => (s, seq![ActionView::Debounce(s.debounce)]),
        },
    }
}

/// Dispatches a batch: applies the policy of the project to the processes
/// in flight, which leaves none in flight, then orders one sync started for
/// each root of the batch.
pub fn dispatch_batch(restart: bool, in_progress: &mut SyncProcesses, ready: &Vec<String>) -> (script:
    Vec<Action>)
    ensures
        actions_view(script@) == dispatch(restart, old(in_progress)@, texts(ready@)),
        final(in_progress)@ == Seq::<u32>::empty(),
{
    let mut script = if restart {
        in_progress.cancel()
    } else {
        in_progress.wait()
    };
    append_actions(&mut script, spawn_actions(ready, false));
    script
}

/// The watch session of one project: the debounce loop, the batch it
/// gathers and the child processes it has in flight. The session decides;
/// its driver watches, sleeps and runs processes, and reports back.
#[derive(Debug)]
pub struct WatchSession {
    roots: Vec<String>,
    restart: bool,
    debounce: DebounceWindow,
    phase: Phase,
    batch: PendingBatch,
    in_progress: SyncProcesses,
}

impl View for WatchSession {
    type V = SessionView;

    closed spec fn view(&self) -> SessionView {
        SessionView {
            roots: texts(self.roots@),
            restart: self.restart,
            debounce: self.debounce,
            phase: self.phase,
            batch: self.batch@,
            in_progress: self.in_progress@,
        }
    }
}

impl WatchSession {
    #[verifier::type_invariant]
    spec fn sound(self) -> bool {
        inv(self@)
    }

    /// Opens the session of a project: only its enabled rules take part.
    /// The script registers one watch for each of them.
    pub fn open(rules: &Vec<ParsedSync>, restart: bool, debounce: DebounceWindow) -> (r: (
        WatchSession,
        Vec<Action>,
    ))
        ensures
            r.0@ == opened(syncs_view(rules@), restart, debounce),
            actions_view(r.1@) == watch_each(enabled_rules(syncs_view(rules@))),
    {
        let ghost all = syncs_view(rules@);
        let mut roots: Vec<String> = Vec::new();
        let mut script: Vec<Action> = Vec::new();
        let mut i: usize = 0;
        proof {
            reveal(Seq::filter);
            assert(all.take(0) == Seq::<ParsedSyncView>::empty());
            assert(texts(roots@) == rule_roots(enabled_rules(all.take(0))));
            assert(actions_view(script@) == watch_each(enabled_rules(all.take(0))));
        }
        while i < rules.len()
            invariant
                i <= rules.len(),
                all == syncs_view(rules@),
                texts(roots@) == rule_roots(enabled_rules(all.take(i as int))),
                actions_view(script@) == watch_each(enabled_rules(all.take(i as int))),
            decreases rules.len() - i,
        {
            let ghost done = all.take(i as int);
            let ghost kept = enabled_rules(done);
            proof {
                assert(all.take(i + 1) == done.push(rules@[i as int]@));
                done.lemma_filter_push(rules@[i as int]@, is_enabled());
            }
            if rules[i].enabled {
                let ghost roots_before = texts(roots@);
                let ghost script_before = actions_view(script@);
                roots.push(rules[i].src.clone());
                script.push(
                    Action::Watch { path: rules[i].src.clone(), recursive: rules[i].recursive },
                );
                proof {
                    assert(texts(roots@) == roots_before.push(rules@[i as int]@.src));
                    assert(actions_view(script@) == script_before.push(
                        ActionView::Watch {
                            path: rules@[i as int]@.src,
                            recursive: rules@[i as int]@.recursive,
                        },
                    ));
                    assert(rule_roots(kept.push(rules@[i as int]@)) == rule_roots(kept).push(
                        rules@[i as int]@.src,
                    ));
                    assert(watch_each(kept.push(rules@[i as int]@)) == watch_each(kept).push(
                        ActionView::Watch {
                            path: rules@[i as int]@.src,
                            recursive: rules@[i as int]@.recursive,
                        },
                    ));
                }
            }
            i += 1;
        }
        assert(all.take(i as int) == all);
        let session = WatchSession {
            roots,
            restart,
            debounce,
            phase: Phase::Registering,
            batch: PendingBatch::new(),
            in_progress: SyncProcesses::new(),
        };
        (session, script)
    }

    /// The sources of the enabled rules, in the order of the rules.
    pub fn roots(&self) -> (roots: &Vec<String>)
        ensures
            texts(roots@) == self@.roots,
    {
        &self.roots
    }

    /// Whether the project cancels the syncs in flight when a batch is
    /// ready, rather than waits for them.
    pub fn restarts(&self) -> (restart: bool)
        ensures
            restart == self@.restart,
    {
        self.restart
    }

    /// The debounce window of the session.
    pub fn debounce(&self) -> (window: DebounceWindow)
        ensures
            window == self@.debounce,
    {
        self.debounce
    }

    /// Where the session stands.
    pub fn phase(&self) -> (phase: Phase)
        ensures
            phase == self@.phase,
    {
        self.phase
    }

    /// Whether the loop has ended.
    pub fn is_stopped(&self) -> (stopped: bool)
        ensures
            stopped == (self@.phase == Phase::Stopped),
    {
        match self.phase {
            Phase::Stopped => true,
            _ => false,
        }
    }

    /// How many child processes are in flight.
    pub fn in_flight(&self) -> (n: usize)
        ensures
            n == self@.in_progress.len(),
    {
        self.in_progress.len()
    }

    /// How many roots wait in the running window.
    pub fn pending(&self) -> (n: usize)
        ensures
            n == self@.batch.len(),
    {
        self.batch.len()
    }

    /// Takes a process that the driver has started for a `Spawn` into the
    /// session.
    pub fn track(self, pid: u32) -> (next: WatchSession)
        ensures
            next@ == tracking(self@, pid),
    {
        proof {
            use_type_invariant(&self);
        }
        let WatchSession { roots, restart, debounce, phase, batch, in_progress } = self;
        let mut in_progress = in_progress;
        in_progress.track(pid);
        WatchSession { roots, restart, debounce, phase, batch, in_progress }
    }

    /// Ends a session: every process in flight is cancelled.
    fn halt(
        roots: Vec<String>,
        restart: bool,
        debounce: DebounceWindow,
        in_progress: SyncProcesses,
    ) -> (r: (WatchSession, Vec<Action>))
        ensures
            r.0@ == (SessionView {
                roots: texts(roots@),
                restart,
                debounce,
                phase: Phase::Stopped,
                batch: Seq::empty(),
                in_progress: Seq::empty(),
            }),
            actions_view(r.1@) == cancel_each(in_progress@).push(ActionView::Exit),
    {
        let mut in_progress = in_progress;
        let mut script = in_progress.cancel();
        let ghost before = actions_view(script@);
        script.push(Action::Exit);
        assert(actions_view(script@) == before.push(ActionView::Exit));
        let session = WatchSession {
            roots,
            restart,
            debounce,
            phase: Phase::Stopped,
            batch: PendingBatch::new(),
            in_progress,
        };
        (session, script)
    }

    /// A script of one action.
    fn only(action: Action) -> (script: Vec<Action>)
        ensures
            actions_view(script@) == seq![action@],
    {
        let mut script: Vec<Action> = Vec::new();
        script.push(action);
        assert(actions_view(script@) == seq![action@]);
        script
    }

    /// Takes the session one step: the session after `input`, and the script
    /// that the driver is to perform before it reports back.
    pub fn step(self, input: Input) -> (r: (WatchSession, Vec<Action>))
        ensures
            r.0@ == step(self@, input@).0,
            actions_view(r.1@) == step(self@, input@).1,
    {
        proof {
            use_type_invariant(&self);
        }
        let WatchSession { roots, restart, debounce, phase, batch, in_progress } = self;
        match phase {
            Phase::Stopped => Self::halt(roots, restart, debounce, in_progress),
            Phase::Closing => Self::halt(roots, restart, debounce, in_progress),
            Phase::Registering => match input {
                Input::Ready => {
                    let mut script = spawn_actions(&roots, true);
                    let ghost before = actions_view(script@);
                    script.push(Action::AwaitEvent);
                    assert(actions_view(script@) == before.push(ActionView::AwaitEvent));
                    let session = WatchSession {
                        roots,
                        restart,
                        debounce,
                        phase: Phase::Idle,
                        batch,
                        in_progress,
                    };
                    (session, script)
                },
                Input::WatchFailed => Self::halt(roots, restart, debounce, in_progress),
                Input::Shutdown => Self::halt(roots, restart, debounce, in_progress),
                _ => {
                    let session = WatchSession {
                        roots,
                        restart,
                        debounce,
                        phase,
                        batch,
                        in_progress,
                    };
                    let script: Vec<Action> = Vec::new();
                    assert(actions_view(script@) == Seq::<ActionView>::empty());
                    (session, script)
                },
            },
            Phase::Idle => match input {
                Input::Event(event) => {
                    if event.kind.changes() {
                        let mut batch = batch;
                        batch.merge_all(&roots, &event.paths);
                        let session = WatchSession {
                            roots,
                            restart,
                            debounce,
                            phase: Phase::Collecting,
                            batch,
                            in_progress,
                        };
                        (session, Self::only(Action::Debounce(debounce)))
                    } else {
                        let session = WatchSession {
                            roots,
                            restart,
                            debounce,
                            phase,
                            batch,
                            in_progress,
                        };
                        (session, Self::only(Action::AwaitEvent))
                    }
                },
                Input::Shutdown => Self::halt(roots, restart, debounce, in_progress),
                _ => {
                    let session = WatchSession {
                        roots,
                        restart,
                        debounce,
                        phase,
                        batch,
                        in_progress,
                    };
                    (session, Self::only(Action::AwaitEvent))
                },
            },
            Phase::Collecting => match input {
                Input::Drained { events, disconnected } => {
                    let mut batch = batch;
                    let mut in_progress = in_progress;
                    batch.merge_events(&roots, &events);
                    let ready = batch.drain();
                    let mut script = dispatch_batch(restart, &mut in_progress, &ready);
                    let ghost before = actions_view(script@);
                    if !disconnected {
                        script.push(Action::AwaitEvent);
                        assert(actions_view(script@) == before.push(ActionView::AwaitEvent));
                    }
                    assert(actions_view(script@) == before + after_dispatch(disconnected));
                    let session = WatchSession {
                        roots,
                        restart,
                        debounce,
                        phase: if disconnected {
                            Phase::Closing
                        } else {
                            Phase::Idle
                        },
                        batch,
                        in_progress,
                    };
                    (session, script)
                },
                Input::Shutdown => Self::halt(roots, restart, debounce, in_progress),
                _ => {
                    let session = WatchSession {
                        roots,
                        restart,
                        debounce,
                        phase,
                        batch,
                        in_progress,
                    };
                    (session, Self::only(Action::Debounce(debounce)))
                },
            },
        }
    }
}

} // verus!
