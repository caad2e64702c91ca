use atune::action::Action;
use atune::process::{next_cancel_attempt, next_wait_attempt, Attempt, Report, SyncProcesses};

#[test]
fn cancelling_polls_first() {
    assert_eq!(next_cancel_attempt(None), Some(Attempt::Poll));
}

#[test]
fn a_process_found_exited_is_dropped_without_blocking() {
    assert_eq!(next_cancel_attempt(Some(Report::Exited)), None);
}

#[test]
fn a_process_found_running_is_killed_and_then_reaped() {
    assert_eq!(next_cancel_attempt(Some(Report::Running)), Some(Attempt::Kill));
    assert_eq!(next_cancel_attempt(Some(Report::Killed)), Some(Attempt::Reap));
    assert_eq!(next_cancel_attempt(Some(Report::Reaped)), None);
}

#[test]
fn a_failed_operation_drops_the_process_and_goes_on() {
    for report in [Report::PollFailed, Report::KillFailed, Report::ReapFailed] {
        assert!(report.failed());
        assert_eq!(next_cancel_attempt(Some(report)), None);
        assert_eq!(next_wait_attempt(Some(report)), None);
    }
    for report in [Report::Exited, Report::Running, Report::Killed, Report::Reaped] {
        assert!(!report.failed());
    }
}

#[test]
fn waiting_blocks_once_on_each_process() {
    assert_eq!(next_wait_attempt(None), Some(Attempt::Reap));
    assert_eq!(next_wait_attempt(Some(Report::Reaped)), None);
    assert_eq!(next_wait_attempt(Some(Report::Running)), None);
}

#[test]
fn cancel_gives_up_every_process_in_order() {
    let mut processes = SyncProcesses::new();
    assert!(processes.is_empty());
    processes.track(30);
    processes.track(10);
    processes.track(20);
    assert_eq!(processes.len(), 3);
    assert_eq!(
        processes.cancel(),
        vec![Action::Cancel(30), Action::Cancel(10), Action::Cancel(20)]
    );
    assert!(processes.is_empty());
    assert_eq!(processes.cancel(), Vec::<Action>::new());
}

#[test]
fn wait_lets_every_process_finish_in_order() {
    let mut processes = SyncProcesses::new();
    processes.track(5);
    processes.track(6);
    assert_eq!(processes.wait(), vec![Action::Wait(5), Action::Wait(6)]);
    assert_eq!(processes.len(), 0);
    assert_eq!(processes.wait(), Vec::<Action>::new());
}
