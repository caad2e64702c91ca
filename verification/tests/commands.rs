use atune::command::{sync_all_once, sync_invocation, sync_project_cmd};
use atune::config::{default_debounce, Config, FileSync, Project};

fn strings(items: &[&str]) -> Vec<String> {
    items.iter().map(|s| s.to_string()).collect()
}

fn rule(src: &str, enabled: bool) -> FileSync {
    FileSync {
        src: src.to_string(),
        recursive: true,
        dst: None,
        rsync_flags: None,
        on_sync: Vec::new(),
        on_init: Vec::new(),
        enabled,
    }
}

#[test]
fn the_program_names_the_config_and_the_project_when_it_calls_itself() {
    assert_eq!(
        sync_project_cmd("site", "/etc/atune.yaml"),
        strings(&["-c", "/etc/atune.yaml", "sync-project", "--project", "site"])
    );
}

#[test]
fn a_watch_triggered_sync_names_only_the_source() {
    assert_eq!(
        sync_invocation("site", "./atune.yaml", "/data/site", false, false),
        strings(&["-c", "./atune.yaml", "sync-project", "--project", "site", "--src", "/data/site"])
    );
}

#[test]
fn a_first_sync_is_marked_as_such() {
    assert_eq!(
        sync_invocation("site", "./atune.yaml", "/data/site", true, false),
        strings(&[
            "-c",
            "./atune.yaml",
            "sync-project",
            "--project",
            "site",
            "--initialize",
            "--src",
            "/data/site",
        ])
    );
}

#[test]
fn skipping_the_hooks_comes_before_the_mark_of_the_first_sync() {
    assert_eq!(
        sync_invocation("p", "c", "/s", true, true),
        strings(&[
            "-c",
            "c",
            "sync-project",
            "--project",
            "p",
            "--no-run-commands",
            "--initialize",
            "--src",
            "/s",
        ])
    );
    assert_eq!(
        sync_invocation("p", "c", "/s", false, true),
        strings(&["-c", "c", "sync-project", "--project", "p", "--no-run-commands", "--src", "/s"])
    );
}

#[test]
fn syncing_once_plans_a_first_sync_for_every_rule_of_every_project() {
    let mut config = Config::new(default_debounce());
    config.insert(
        "one".to_string(),
        Project { sync: vec![rule("/a", true), rule("/b", false)], restart: true },
    );
    config.insert("none".to_string(), Project { sync: Vec::new(), restart: true });
    config.insert("two".to_string(), Project { sync: vec![rule("/c", true)], restart: false });
    let head = |project: &str| strings(&["-c", "cfg.yaml", "sync-project", "--project", project]);
    let tail = |src: &str| strings(&["--initialize", "--src", src]);
    assert_eq!(
        sync_all_once(false, "cfg.yaml", &config),
        vec![
            [head("one"), tail("/a")].concat(),
            [head("one"), tail("/b")].concat(),
            [head("two"), tail("/c")].concat(),
        ]
    );
    let skip = strings(&["--no-run-commands"]);
    assert_eq!(
        sync_all_once(true, "cfg.yaml", &config),
        vec![
            [head("one"), skip.clone(), tail("/a")].concat(),
            [head("one"), skip.clone(), tail("/b")].concat(),
            [head("two"), skip.clone(), tail("/c")].concat(),
        ]
    );
}

#[test]
fn syncing_once_without_projects_plans_nothing() {
    let config = Config::default();
    assert_eq!(sync_all_once(false, "cfg.yaml", &config), Vec::<Vec<String>>::new());
}
