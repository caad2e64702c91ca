use vstd::prelude::*;
use crate::action::{actions_view, Action};
use crate::config::{Config, DebounceWindow, Project, ProjectView};
use crate::error::SyncError;
use crate::session::{enabled_rules, opened, watch_each, WatchSession};
use crate::sync::{parse_project, ParsedProject};

verus! {

/// Whether `started` is the beginning of the watch session of the project
/// `project` called `name`: the session opened on the prepared rules of the
/// project with the script that registers its watches, or the error where
/// the project cannot be prepared.
pub open spec fn begins(
    name: Seq<char>,
    project: ProjectView,
    debounce: DebounceWindow,
    started: Result<(WatchSession, Vec<Action>), SyncError>,
) -> bool {
    match started {
        Ok(pair) => parse_project(name, project) matches Some(parsed) && pair.0@ == opened(
            parsed.sync,
            parsed.restart,
            debounce,
        ) && actions_view(pair.1@) == watch_each(enabled_rules(parsed.sync)),
        Err(e) => parse_project(name, project) is None && e == SyncError::SplitFlags,
    }
}

/// Begins the watch session of one project: prepares its rules and opens
/// the session on them. Fails where a rule cannot be prepared; nothing is
/// watched or synced then.
pub fn watch_project(name: String, project: Project, debounce: DebounceWindow) -> (started: Result<
    (WatchSession, Vec<Action>),
    SyncError,
>)
    ensures
        begins(name@, project@, debounce, started),
{
    match ParsedProject::try_from((name, project)) {
        Ok(parsed) => Ok(WatchSession::open(&parsed.sync, parsed.restart, debounce)),
        Err(e) => Err(e),
    }
}

/// The beginning of the watch session of one project, under its name.
#[derive(Debug)]
pub struct ProjectWatch {
    pub name: String,
    pub started: Result<(WatchSession, Vec<Action>), SyncError>,
}

/// Begins one watch session for each project of the configuration, in
/// order, each with the debounce window of the configuration. A project
/// that cannot be prepared does not keep the others from starting.
pub fn watch(config: &Config) -> (watches: Vec<ProjectWatch>)
    ensures
        watches@.len() == config@.projects.len(),
        forall|i: int|
            0 <= i < watches@.len() ==> (#[trigger] watches@[i]).name@ == config@.projects[i].0
                && begins(
                config@.projects[i].0,
                config@.projects[i].1,
                config@.debounce,
                watches@[i].started,
            ),
{
    let projects = config.projects();
    let debounce = config.debounce();
    let mut watches: Vec<ProjectWatch> = Vec::new();
    let mut i: usize = 0;
    while i < projects.len()
        invariant
            i <= projects.len(),
            crate::config::projects_view(projects@) == config@.projects,
            debounce == config@.debounce,
            watches@.len() == i,
            forall|j: int|
                0 <= j < i ==> (#[trigger] watches@[j]).name@ == config@.projects[j].0 && begins(
                    config@.projects[j].0,
                    config@.projects[j].1,
                    config@.debounce,
                    watches@[j].started,
                ),
        decreases projects.len() - i,
    {
        assert(config@.projects[i as int] == (projects@[i as int].0@, projects@[i as int].1@));
        let started = watch_project(projects[i].0.clone(), projects[i].1.clone(), debounce);
        watches.push(ProjectWatch { name: projects[i].0.clone(), started });
        i += 1;
    }
    watches
}

} // verus!
