use atune::config::CommandConfig;
use atune::error::SyncError;
use atune::invocation::{execute_sync, hook_environment, plan_sync, SyncCommand};
use atune::sync::ParsedSync;

fn hook(command: &str, continue_on_failure: bool) -> CommandConfig {
    CommandConfig { command: command.to_string(), continue_on_failure }
}

fn rule(dst: Option<&str>) -> ParsedSync {
    ParsedSync {
        enabled: true,
        src: "/data/site".to_string(),
        recursive: true,
        dst: dst.map(|d| d.to_string()),
        rsync_flags: vec!["--delete".to_string(), "-a".to_string()],
        on_sync: vec![hook("make", false), hook("notify", true), hook("publish", false)],
        on_init: vec![hook("setup", false)],
    }
}

fn env(dst: Option<&str>) -> Vec<(String, String)> {
    let mut env = vec![("ATUNE_SYNC_SRC".to_string(), "/data/site".to_string())];
    if let Some(dst) = dst {
        env.push(("ATUNE_SYNC_DST".to_string(), dst.to_string()));
    }
    env
}

fn shell(command: &str, dst: Option<&str>, continue_on_failure: bool) -> SyncCommand {
    SyncCommand::Hook { command: command.to_string(), env: env(dst), continue_on_failure }
}

#[test]
fn the_first_sync_transfers_then_runs_init_hooks_then_sync_hooks() {
    let dst = Some("host:/srv/site");
    let commands = plan_sync(&rule(dst), Some("/usr/bin/rsync"), true);
    assert_eq!(
        commands,
        vec![
            SyncCommand::Transfer {
                program: "/usr/bin/rsync".to_string(),
                args: vec![
                    "--delete".to_string(),
                    "-a".to_string(),
                    "/data/site".to_string(),
                    "host:/srv/site".to_string(),
                ],
            },
            shell("setup", dst, false),
            shell("make", dst, false),
            shell("notify", dst, true),
            shell("publish", dst, false),
        ]
    );
}

#[test]
fn a_later_sync_skips_the_init_hooks() {
    let dst = Some("host:/srv/site");
    let commands = plan_sync(&rule(dst), None, false);
    assert_eq!(commands.len(), 4);
    assert_eq!(
        commands[0],
        SyncCommand::Transfer {
            program: "rsync".to_string(),
            args: vec![
                "--delete".to_string(),
                "-a".to_string(),
                "/data/site".to_string(),
                "host:/srv/site".to_string(),
            ],
        }
    );
    assert_eq!(commands[1], shell("make", dst, false));
    assert_eq!(commands[3], shell("publish", dst, false));
}

#[test]
fn a_rule_without_destination_only_runs_its_hooks() {
    let commands = plan_sync(&rule(None), Some("rsync"), true);
    assert_eq!(
        commands,
        vec![
            shell("setup", None, false),
            shell("make", None, false),
            shell("notify", None, true),
            shell("publish", None, false),
        ]
    );
}

#[test]
fn hooks_learn_the_source_and_the_destination_from_their_environment() {
    assert_eq!(
        hook_environment(&rule(Some("/mirror"))),
        vec![
            ("ATUNE_SYNC_SRC".to_string(), "/data/site".to_string()),
            ("ATUNE_SYNC_DST".to_string(), "/mirror".to_string()),
        ]
    );
    assert_eq!(
        hook_environment(&rule(None)),
        vec![("ATUNE_SYNC_SRC".to_string(), "/data/site".to_string())]
    );
}

#[test]
fn a_run_where_nothing_fails_goes_through_every_command() {
    let mut run = execute_sync(&rule(Some("/mirror")), None, true);
    assert_eq!(run.commands().len(), 5);
    let mut seen = 0;
    while let Some(command) = run.current() {
        assert_eq!(command, &run.commands()[seen]);
        assert_eq!(run.position(), seen);
        assert_eq!(run.result(), None);
        seen += 1;
        run.report(true);
    }
    assert_eq!(seen, 5);
    assert_eq!(run.result(), Some(Ok(())));
    run.report(false);
    assert_eq!(run.result(), Some(Ok(())));
}

#[test]
fn a_failed_transfer_runs_no_hook() {
    let mut run = execute_sync(&rule(Some("/mirror")), None, true);
    run.report(false);
    assert_eq!(run.current(), None);
    assert_eq!(run.result(), Some(Err(SyncError::TransferFailed)));
    assert_eq!(run.position(), 0);
    run.report(true);
    assert_eq!(run.result(), Some(Err(SyncError::TransferFailed)));
}

#[test]
fn a_failed_hook_ends_the_run_unless_it_is_marked_to_continue() {
    let mut run = execute_sync(&rule(Some("/mirror")), None, false);
    run.report(true);
    run.report(true);
    assert_eq!(run.current(), Some(&shell("notify", Some("/mirror"), true)));
    run.report(false);
    assert_eq!(run.current(), Some(&shell("publish", Some("/mirror"), false)));
    assert_eq!(run.result(), None);
    run.report(false);
    assert_eq!(run.current(), None);
    assert_eq!(run.result(), Some(Err(SyncError::HookFailed(3))));
}

#[test]
fn a_failed_init_hook_keeps_the_sync_hooks_from_running() {
    let mut run = execute_sync(&rule(None), None, true);
    assert_eq!(run.current(), Some(&shell("setup", None, false)));
    run.report(false);
    assert_eq!(run.current(), None);
    assert_eq!(run.result(), Some(Err(SyncError::HookFailed(0))));
}

#[test]
fn a_rule_with_nothing_to_do_succeeds_at_once() {
    let empty = ParsedSync {
        enabled: true,
        src: "/data".to_string(),
        recursive: false,
        dst: None,
        rsync_flags: Vec::new(),
        on_sync: Vec::new(),
        on_init: vec![hook("setup", false)],
    };
    let run = execute_sync(&empty, None, false);
    assert_eq!(run.current(), None);
    assert_eq!(run.result(), Some(Ok(())));
}
