use atune::action::Action;
use atune::config::{default_debounce, DebounceWindow};
use atune::event::{ChangeEvent, EventKind, Input};
use atune::process::SyncProcesses;
use atune::session::{dispatch_batch, Phase, WatchSession};
use atune::sync::ParsedSync;

fn rule(src: &str, enabled: bool, recursive: bool) -> ParsedSync {
    ParsedSync {
        enabled,
        src: src.to_string(),
        recursive,
        dst: Some(format!("{src}-mirror")),
        rsync_flags: vec!["-a".to_string()],
        on_sync: Vec::new(),
        on_init: Vec::new(),
    }
}

fn event(kind: EventKind, paths: &[&str]) -> ChangeEvent {
    ChangeEvent { paths: paths.iter().map(|p| p.to_string()).collect(), kind }
}

fn spawn(root: &str, initialize: bool) -> Action {
    Action::Spawn { root: root.to_string(), initialize }
}

fn zero() -> DebounceWindow {
    DebounceWindow::from_millis(0)
}

/// A session of two enabled rules that has registered its watches and
/// started its first syncs as the processes 1 and 2.
fn idle(restart: bool) -> WatchSession {
    let rules = vec![rule("/w/one", true, true), rule("/w/two", true, true)];
    let (session, _) = WatchSession::open(&rules, restart, default_debounce());
    let (session, _) = session.step(Input::Ready);
    session.track(1).track(2)
}

#[test]
fn opening_registers_one_watch_for_each_enabled_rule() {
    let rules =
        vec![rule("/w/one", true, true), rule("/w/off", false, true), rule("/w/file", true, false)];
    let (session, script) = WatchSession::open(&rules, true, default_debounce());
    assert_eq!(
        script,
        vec![
            Action::Watch { path: "/w/one".to_string(), recursive: true },
            Action::Watch { path: "/w/file".to_string(), recursive: false },
        ]
    );
    assert_eq!(session.phase(), Phase::Registering);
    assert_eq!(session.roots(), &vec!["/w/one".to_string(), "/w/file".to_string()]);
    assert!(session.restarts());
    assert_eq!(session.debounce(), DebounceWindow { secs: 0, nanos: 100_000_000 });
    assert_eq!(session.in_flight(), 0);
    assert_eq!(session.pending(), 0);
}

#[test]
fn every_enabled_rule_gets_one_first_sync_before_any_event() {
    let rules =
        vec![rule("/w/one", true, true), rule("/w/off", false, true), rule("/w/two", true, true)];
    let (session, _) = WatchSession::open(&rules, true, default_debounce());
    let (session, script) = session.step(Input::Ready);
    assert_eq!(script, vec![spawn("/w/one", true), spawn("/w/two", true), Action::AwaitEvent]);
    assert_eq!(session.phase(), Phase::Idle);
}

#[test]
fn a_session_without_enabled_rules_only_waits() {
    let rules = vec![rule("/w/off", false, true)];
    let (session, script) = WatchSession::open(&rules, true, default_debounce());
    assert_eq!(script, Vec::<Action>::new());
    let (session, script) = session.step(Input::Ready);
    assert_eq!(script, vec![Action::AwaitEvent]);
    assert_eq!(session.phase(), Phase::Idle);
}

#[test]
fn a_watch_that_cannot_be_registered_ends_the_session_without_a_sync() {
    let rules = vec![rule("/w/one", true, true)];
    let (session, _) = WatchSession::open(&rules, true, default_debounce());
    let (session, script) = session.step(Input::WatchFailed);
    assert_eq!(script, vec![Action::Exit]);
    assert!(session.is_stopped());
}

#[test]
fn events_do_not_reach_a_session_that_is_still_registering() {
    let rules = vec![rule("/w/one", true, true)];
    let (session, _) = WatchSession::open(&rules, true, default_debounce());
    let (session, script) = session.step(Input::Event(event(EventKind::Create, &["/w/one/a"])));
    assert_eq!(script, Vec::<Action>::new());
    assert_eq!(session.phase(), Phase::Registering);
    assert_eq!(session.pending(), 0);
}

#[test]
fn the_first_change_opens_a_debounce_window() {
    let (session, script) = idle(true).step(Input::Event(event(EventKind::Modify, &["/w/one/a"])));
    assert_eq!(script, vec![Action::Debounce(DebounceWindow { secs: 0, nanos: 100_000_000 })]);
    assert_eq!(session.phase(), Phase::Collecting);
    assert_eq!(session.pending(), 1);
    assert_eq!(session.in_flight(), 2);
}

#[test]
fn many_changes_of_one_root_in_one_window_start_one_sync() {
    let (session, _) =
        idle(true).step(Input::Event(event(EventKind::Create, &["/w/one/a", "/w/one/b"])));
    let rest = vec![
        event(EventKind::Modify, &["/w/one/a"]),
        event(EventKind::Modify, &["/w/one/sub/deep/c"]),
        event(EventKind::Remove, &["/w/one/b"]),
        event(EventKind::Create, &["/w/one"]),
    ];
    let (session, script) = session.step(Input::Drained { events: rest, disconnected: false });
    assert_eq!(
        script,
        vec![Action::Cancel(1), Action::Cancel(2), spawn("/w/one", false), Action::AwaitEvent]
    );
    assert_eq!(session.phase(), Phase::Idle);
    assert_eq!(session.pending(), 0);
    assert_eq!(session.in_flight(), 0);
}

#[test]
fn changes_of_two_roots_in_one_window_start_two_syncs() {
    let (session, _) = idle(true).step(Input::Event(event(EventKind::Create, &["/w/one/a"])));
    let rest = vec![
        event(EventKind::Modify, &["/w/two/x"]),
        event(EventKind::Modify, &["/w/one/a"]),
        event(EventKind::Remove, &["/w/two/y"]),
    ];
    let (_, script) = session.step(Input::Drained { events: rest, disconnected: false });
    assert_eq!(
        script,
        vec![
            Action::Cancel(1),
            Action::Cancel(2),
            spawn("/w/one", false),
            spawn("/w/two", false),
            Action::AwaitEvent,
        ]
    );
}

#[test]
fn the_other_interleaving_starts_the_same_two_syncs() {
    let (session, _) = idle(true).step(Input::Event(event(EventKind::Remove, &["/w/two/y"])));
    let rest = vec![
        event(EventKind::Modify, &["/w/two/x", "/w/one/a"]),
        event(EventKind::Create, &["/w/one/b"]),
    ];
    let (_, script) = session.step(Input::Drained { events: rest, disconnected: false });
    assert_eq!(
        script,
        vec![
            Action::Cancel(1),
            Action::Cancel(2),
            spawn("/w/two", false),
            spawn("/w/one", false),
            Action::AwaitEvent,
        ]
    );
}

#[test]
fn a_restarting_project_cancels_what_is_in_flight_before_it_syncs() {
    let session = idle(true).track(40);
    let (session, _) = session.step(Input::Event(event(EventKind::Modify, &["/w/two/x"])));
    let (session, script) = session.step(Input::Drained { events: Vec::new(), disconnected: false });
    assert_eq!(
        script,
        vec![
            Action::Cancel(1),
            Action::Cancel(2),
            Action::Cancel(40),
            spawn("/w/two", false),
            Action::AwaitEvent,
        ]
    );
    assert_eq!(session.in_flight(), 0);
}

#[test]
fn a_waiting_project_waits_for_what_is_in_flight_before_it_syncs() {
    let session = idle(false);
    assert!(!session.restarts());
    let (session, _) = session.step(Input::Event(event(EventKind::Modify, &["/w/two/x"])));
    let (session, script) = session.step(Input::Drained { events: Vec::new(), disconnected: false });
    assert_eq!(
        script,
        vec![Action::Wait(1), Action::Wait(2), spawn("/w/two", false), Action::AwaitEvent]
    );
    assert_eq!(session.in_flight(), 0);
}

#[test]
fn the_second_batch_settles_the_syncs_of_the_first() {
    let (session, _) = idle(false).step(Input::Event(event(EventKind::Modify, &["/w/one/a"])));
    let (session, _) = session.step(Input::Drained { events: Vec::new(), disconnected: false });
    let session = session.track(7);
    let (session, _) = session.step(Input::Event(event(EventKind::Modify, &["/w/one/a"])));
    let (_, script) = session.step(Input::Drained { events: Vec::new(), disconnected: false });
    assert_eq!(script, vec![Action::Wait(7), spawn("/w/one", false), Action::AwaitEvent]);
}

#[test]
fn events_of_other_kinds_are_filtered_out() {
    for kind in [EventKind::Access, EventKind::Metadata, EventKind::Any, EventKind::Other] {
        let (session, script) = idle(true).step(Input::Event(event(kind, &["/w/one/a"])));
        assert_eq!(script, vec![Action::AwaitEvent]);
        assert_eq!(session.phase(), Phase::Idle);
        assert_eq!(session.pending(), 0);
    }
    for kind in [EventKind::Create, EventKind::Modify, EventKind::Remove] {
        assert!(kind.changes());
        let (session, _) = idle(true).step(Input::Event(event(kind, &["/w/one/a"])));
        assert_eq!(session.phase(), Phase::Collecting);
        assert_eq!(session.pending(), 1);
    }
    assert!(!EventKind::Access.changes());
    assert!(!EventKind::Metadata.changes());
}

#[test]
fn filtered_events_in_the_drain_add_nothing() {
    let (session, _) = idle(true).step(Input::Event(event(EventKind::Create, &["/w/one/a"])));
    let rest =
        vec![event(EventKind::Access, &["/w/two/x"]), event(EventKind::Metadata, &["/w/two/y"])];
    let (_, script) = session.step(Input::Drained { events: rest, disconnected: false });
    assert_eq!(
        script,
        vec![Action::Cancel(1), Action::Cancel(2), spawn("/w/one", false), Action::AwaitEvent]
    );
}

#[test]
fn a_change_that_no_rule_owns_starts_no_sync_but_the_policy_applies() {
    let (session, script) = idle(true).step(Input::Event(event(EventKind::Create, &["/w/new"])));
    assert_eq!(script, vec![Action::Debounce(DebounceWindow { secs: 0, nanos: 100_000_000 })]);
    assert_eq!(session.pending(), 0);
    let (session, script) = session.step(Input::Drained { events: Vec::new(), disconnected: false });
    assert_eq!(script, vec![Action::Cancel(1), Action::Cancel(2), Action::AwaitEvent]);
    assert_eq!(session.phase(), Phase::Idle);
}

#[test]
fn shutdown_cancels_every_process_in_flight() {
    let (session, script) = idle(false).step(Input::Shutdown);
    assert_eq!(script, vec![Action::Cancel(1), Action::Cancel(2), Action::Exit]);
    assert!(session.is_stopped());
    assert_eq!(session.in_flight(), 0);
    assert_eq!(session.pending(), 0);
}

#[test]
fn shutdown_during_a_window_drops_the_batch() {
    let (session, _) = idle(true).step(Input::Event(event(EventKind::Create, &["/w/one/a"])));
    let (session, script) = session.step(Input::Shutdown);
    assert_eq!(script, vec![Action::Cancel(1), Action::Cancel(2), Action::Exit]);
    assert!(session.is_stopped());
    assert_eq!(session.pending(), 0);
}

#[test]
fn a_stopped_session_stays_stopped() {
    let (session, _) = idle(true).step(Input::Shutdown);
    let (session, script) = session.step(Input::Event(event(EventKind::Create, &["/w/one/a"])));
    assert_eq!(script, vec![Action::Exit]);
    let (session, script) = session.step(Input::Ready);
    assert_eq!(script, vec![Action::Exit]);
    let (session, script) = session.step(Input::Drained { events: Vec::new(), disconnected: false });
    assert_eq!(script, vec![Action::Exit]);
    assert!(session.is_stopped());
}

#[test]
fn a_closed_stream_ends_the_session_after_the_last_batch() {
    let (session, _) = idle(true).step(Input::Event(event(EventKind::Create, &["/w/one/a"])));
    let rest = vec![event(EventKind::Modify, &["/w/two/b"])];
    let (session, script) = session.step(Input::Drained { events: rest, disconnected: true });
    assert_eq!(
        script,
        vec![
            Action::Cancel(1),
            Action::Cancel(2),
            spawn("/w/one", false),
            spawn("/w/two", false),
        ]
    );
    assert_eq!(session.phase(), Phase::Closing);
    let session = session.track(8).track(9);
    let (session, script) = session.step(Input::Ready);
    assert_eq!(script, vec![Action::Cancel(8), Action::Cancel(9), Action::Exit]);
    assert!(session.is_stopped());
}

#[test]
fn an_input_out_of_turn_changes_nothing() {
    let (session, script) = idle(true).step(Input::Drained { events: Vec::new(), disconnected: true });
    assert_eq!(script, vec![Action::AwaitEvent]);
    assert_eq!(session.phase(), Phase::Idle);
    assert_eq!(session.in_flight(), 2);
    let (session, _) = session.step(Input::Event(event(EventKind::Create, &["/w/one/a"])));
    let (session, script) = session.step(Input::Event(event(EventKind::Create, &["/w/two/a"])));
    assert_eq!(script, vec![Action::Debounce(DebounceWindow { secs: 0, nanos: 100_000_000 })]);
    assert_eq!(session.phase(), Phase::Collecting);
    assert_eq!(session.pending(), 1);
    let (session, script) = session.step(Input::Ready);
    assert_eq!(script, vec![Action::Debounce(DebounceWindow { secs: 0, nanos: 100_000_000 })]);
    assert_eq!(session.pending(), 1);
}

#[test]
fn one_rule_mirrors_a_file_through_its_whole_life() {
    let rules = vec![rule("/tmp/a", true, true)];
    let (session, script) = WatchSession::open(&rules, true, zero());
    assert_eq!(script, vec![Action::Watch { path: "/tmp/a".to_string(), recursive: true }]);
    let (session, script) = session.step(Input::Ready);
    assert_eq!(script, vec![spawn("/tmp/a", true), Action::AwaitEvent]);
    let mut session = session.track(100);
    let mut pid = 100;
    for kind in [EventKind::Create, EventKind::Modify, EventKind::Remove] {
        let (next, script) = session.step(Input::Event(event(kind, &["/tmp/a/test.txt"])));
        assert_eq!(script, vec![Action::Debounce(DebounceWindow { secs: 0, nanos: 0 })]);
        let (next, script) = next.step(Input::Drained { events: Vec::new(), disconnected: false });
        assert_eq!(script, vec![Action::Cancel(pid), spawn("/tmp/a", false), Action::AwaitEvent]);
        pid += 1;
        session = next.track(pid);
    }
    let (session, script) = session.step(Input::Shutdown);
    assert_eq!(script, vec![Action::Cancel(103), Action::Exit]);
    assert!(session.is_stopped());
    assert_eq!(session.in_flight(), 0);
}

#[test]
fn a_batch_is_dispatched_after_the_policy_was_applied() {
    let ready = vec!["/w/b".to_string(), "/w/a".to_string()];
    let mut processes = SyncProcesses::new();
    processes.track(3);
    processes.track(4);
    assert_eq!(
        dispatch_batch(true, &mut processes, &ready),
        vec![Action::Cancel(3), Action::Cancel(4), spawn("/w/b", false), spawn("/w/a", false)]
    );
    assert!(processes.is_empty());
    processes.track(5);
    assert_eq!(
        dispatch_batch(false, &mut processes, &ready),
        vec![Action::Wait(5), spawn("/w/b", false), spawn("/w/a", false)]
    );
    assert!(processes.is_empty());
    assert_eq!(dispatch_batch(false, &mut processes, &Vec::new()), Vec::<Action>::new());
}
