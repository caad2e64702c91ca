use atune::action::Action;
use atune::config::{
    default_debounce, default_true, CommandConfig, Config, DebounceWindow, FileSync, Project,
};
use atune::error::SyncError;
use atune::invocation::SyncCommand;
use atune::select::{find_sync, select_sync, sync_project, SyncId};
use atune::session::Phase;
use atune::supervisor::{watch, watch_project};

fn rule(src: &str, flags: Option<&str>, enabled: bool) -> FileSync {
    FileSync {
        src: src.to_string(),
        recursive: true,
        dst: Some(format!("{src}.out")),
        rsync_flags: flags.map(|f| f.to_string()),
        on_sync: vec![CommandConfig::from_str("echo synced")],
        on_init: vec![CommandConfig::from_str("echo first")],
        enabled,
    }
}

fn config() -> Config {
    let mut config = Config::new(DebounceWindow::from_millis(1030));
    config.insert(
        "asd".to_string(),
        Project {
            sync: vec![rule("/asd", Some("-a"), true), rule("/qwe", None, false)],
            restart: true,
        },
    );
    config.insert(
        "broken".to_string(),
        Project { sync: vec![rule("/ok", None, true), rule("/bad", Some("'"), true)], restart: false },
    );
    config
}

#[test]
fn the_flags_of_a_rule_default_to_true() {
    assert!(default_true());
}

#[test]
fn the_default_window_is_a_tenth_of_a_second() {
    assert_eq!(default_debounce(), DebounceWindow { secs: 0, nanos: 100_000_000 });
    assert_eq!(default_debounce(), DebounceWindow::from_millis(100));
    assert_eq!(Config::default().debounce(), default_debounce());
    assert_eq!(Config::default().len(), 0);
}

#[test]
fn a_window_is_whole_seconds_and_the_nanoseconds_beyond() {
    assert_eq!(DebounceWindow::from_millis(1030), DebounceWindow { secs: 1, nanos: 30_000_000 });
    assert_eq!(DebounceWindow::from_millis(999), DebounceWindow { secs: 0, nanos: 999_000_000 });
    assert_eq!(
        DebounceWindow::from_millis(u64::MAX),
        DebounceWindow { secs: 18_446_744_073_709_551, nanos: 615_000_000 }
    );
    assert!(DebounceWindow::from_millis(0).is_zero());
    assert!(!DebounceWindow::from_millis(1).is_zero());
    assert!(!DebounceWindow { secs: 1, nanos: 0 }.is_zero());
    assert_eq!(DebounceWindow::new(2, 999_999_999), Some(DebounceWindow { secs: 2, nanos: 999_999_999 }));
    assert_eq!(DebounceWindow::new(2, 1_000_000_000), None);
}

#[test]
fn projects_are_kept_by_name_in_order_of_arrival() {
    let config = config();
    assert_eq!(config.len(), 2);
    assert_eq!(config.debounce(), DebounceWindow { secs: 1, nanos: 30_000_000 });
    let names: Vec<&str> = config.projects().iter().map(|(name, _)| name.as_str()).collect();
    assert_eq!(names, vec!["asd", "broken"]);
    assert_eq!(config.get(&"asd".to_string()).unwrap().sync[0].src, "/asd");
    assert_eq!(
        config.get(&"asd".to_string()).unwrap().sync[0].dst,
        Some("/asd.out".to_string())
    );
    assert!(config.get(&"missing".to_string()).is_none());
}

#[test]
fn a_project_put_under_a_taken_name_replaces_the_old_one_where_it_stood() {
    let mut config = config();
    let replaced =
        config.insert("asd".to_string(), Project { sync: vec![rule("/new", None, true)], restart: false });
    assert!(replaced);
    assert_eq!(config.len(), 2);
    assert_eq!(config.projects()[0].0, "asd");
    assert_eq!(config.projects()[0].1.sync.len(), 1);
    assert_eq!(config.projects()[0].1.sync[0].src, "/new");
    assert!(!config.projects()[0].1.restart);
    let fresh = config.insert("third".to_string(), Project { sync: Vec::new(), restart: true });
    assert!(!fresh);
    assert_eq!(config.len(), 3);
    assert_eq!(config.projects()[2].0, "third");
}

#[test]
fn a_rule_is_found_by_its_index_or_by_its_source() {
    let config = config();
    let asd = "asd".to_string();
    assert_eq!(select_sync(&config, &asd, &SyncId::Index(1)).unwrap().src, "/qwe");
    assert_eq!(select_sync(&config, &asd, &SyncId::Src("/asd".to_string())).unwrap().src, "/asd");
    assert_eq!(select_sync(&config, &asd, &SyncId::Index(2)), Err(SyncError::SyncNotFound));
    assert_eq!(
        select_sync(&config, &asd, &SyncId::Src("/as".to_string())),
        Err(SyncError::SyncNotFound)
    );
    assert_eq!(
        select_sync(&config, &"nope".to_string(), &SyncId::Index(0)),
        Err(SyncError::ProjectNotFound)
    );
}

#[test]
fn of_two_rules_with_one_source_the_first_is_found() {
    let mut first = rule("/same", Some("-1"), true);
    first.recursive = false;
    let rules = vec![rule("/other", None, true), first, rule("/same", Some("-2"), true)];
    let found = find_sync(&rules, &SyncId::Src("/same".to_string())).unwrap();
    assert_eq!(found.rsync_flags, Some("-1".to_string()));
    assert!(find_sync(&rules, &SyncId::Src("/none".to_string())).is_none());
    assert_eq!(find_sync(&rules, &SyncId::Index(2)).unwrap().rsync_flags, Some("-2".to_string()));
    assert!(find_sync(&Vec::new(), &SyncId::Index(0)).is_none());
}

#[test]
fn one_rule_is_synced_by_project_and_source() {
    let config = config();
    let run = sync_project(
        &config,
        &"asd".to_string(),
        &SyncId::Src("/asd".to_string()),
        Some("/bin/rsync"),
        true,
        false,
    )
    .unwrap();
    assert_eq!(run.commands().len(), 3);
    assert_eq!(
        run.commands()[0],
        SyncCommand::Transfer {
            program: "/bin/rsync".to_string(),
            args: vec!["-a".to_string(), "/asd".to_string(), "/asd.out".to_string()],
        }
    );
    assert_eq!(run.position(), 0);
    assert_eq!(run.result(), None);
}

#[test]
fn one_rule_is_synced_without_its_sync_hooks_on_demand() {
    let config = config();
    let asd = "asd".to_string();
    let run = sync_project(&config, &asd, &SyncId::Index(0), None, true, true).unwrap();
    assert_eq!(run.commands().len(), 2);
    let run = sync_project(&config, &asd, &SyncId::Index(0), None, false, true).unwrap();
    assert_eq!(run.commands().len(), 1);
    let run = sync_project(&config, &asd, &SyncId::Index(0), None, false, false).unwrap();
    assert_eq!(run.commands().len(), 2);
}

#[test]
fn syncing_one_rule_fails_where_it_cannot_be_found_or_prepared() {
    let config = config();
    let id = SyncId::Index(1);
    assert_eq!(
        sync_project(&config, &"nope".to_string(), &id, None, true, false).err(),
        Some(SyncError::ProjectNotFound)
    );
    assert_eq!(
        sync_project(&config, &"asd".to_string(), &SyncId::Index(9), None, true, false).err(),
        Some(SyncError::SyncNotFound)
    );
    assert_eq!(
        sync_project(&config, &"broken".to_string(), &id, None, true, false).err(),
        Some(SyncError::SplitFlags)
    );
    assert!(sync_project(&config, &"broken".to_string(), &SyncId::Index(0), None, true, false).is_ok());
}

#[test]
fn watching_a_project_opens_a_session_on_its_enabled_rules() {
    let project = Project {
        sync: vec![rule("/asd", Some("-a"), true), rule("/qwe", None, false)],
        restart: true,
    };
    let (session, script) =
        watch_project("asd".to_string(), project, DebounceWindow::from_millis(5)).unwrap();
    assert_eq!(script, vec![Action::Watch { path: "/asd".to_string(), recursive: true }]);
    assert_eq!(session.phase(), Phase::Registering);
    assert!(session.restarts());
    assert_eq!(session.debounce(), DebounceWindow { secs: 0, nanos: 5_000_000 });
    assert_eq!(session.roots(), &vec!["/asd".to_string()]);
}

#[test]
fn watching_a_project_with_a_bad_rule_fails() {
    let project = Project { sync: vec![rule("/bad", Some("\"x"), false)], restart: true };
    let started = watch_project("bad".to_string(), project, default_debounce());
    assert_eq!(started.err(), Some(SyncError::SplitFlags));
}

#[test]
fn every_project_is_watched_with_the_same_window_and_fails_on_its_own() {
    let watches = watch(&config());
    assert_eq!(watches.len(), 2);
    assert_eq!(watches[0].name, "asd");
    assert_eq!(watches[1].name, "broken");
    let (session, script) = watches[0].started.as_ref().unwrap();
    assert_eq!(session.debounce(), DebounceWindow { secs: 1, nanos: 30_000_000 });
    assert_eq!(script, &vec![Action::Watch { path: "/asd".to_string(), recursive: true }]);
    assert_eq!(watches[1].started.as_ref().err(), Some(&SyncError::SplitFlags));
}
