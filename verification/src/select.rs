use vstd::prelude::*;
use crate::config::{file_syncs_view, position_of, Config, ConfigView, FileSync, FileSyncView};
use crate::error::SyncError;
use crate::invocation::{execute_sync, sync_commands, RunView, SyncRun};
use crate::sync::{parse_rule, without_sync_hooks, ParsedSync, ParsedSyncView};

verus! {

/// How one rule of a project is named: by its position among the rules of
/// the project, or by its source.
#[derive(Debug, PartialEq, Eq)]
pub enum SyncId {
    Index(usize),
    Src(String),
}

/// What the name of a rule is, as plain values.
pub enum SyncIdView {
    Index(usize),
    Src(Seq<char>),
}

impl View for SyncId {
    type V = SyncIdView;

    open spec fn view(&self) -> SyncIdView {
        match *self {
            SyncId::Index(i) => SyncIdView::Index(i),
            SyncId::Src(src) => SyncIdView::Src(src@),
        }
    }
}

/// The position of the first rule whose source is `src`.
pub open spec fn first_with_src(rules: Seq<FileSyncView>, src: Seq<char>) -> Option<int>
    decreases rules.len(),
{
    if rules.len() == 0 {
        None
    } else if rules[0].src == src {
        Some(0)
    } else {
        match first_with_src(rules.drop_first(), src) {
            Some(i) => Some(i + 1),
            None => None,
        }
    }
}

/// `first_with_src` finds the least position whose rule has the source, and
/// finds none only where no rule has it.
pub proof fn lemma_first_with_src(rules: Seq<FileSyncView>, src: Seq<char>)
    ensures
        match first_with_src(rules, src) {
            Some(i) => 0 <= i < rules.len() && rules[i].src == src && forall|j: int|
                0 <= j < i ==> (#[trigger] rules[j]).src != src,
            None => forall|j: int| 0 <= j < rules.len() ==> (#[trigger] rules[j]).src != src,
        },
    decreases rules.len(),
{
    if rules.len() == 0 {
    } else if rules[0].src == src {
    } else {
        let rest = rules.drop_first();
        lemma_first_with_src(rest, src);
        assert(forall|j: int| 0 <= j < rest.len() ==> rest[j] == rules[j + 1]);
        match first_with_src(rest, src) {
            Some(i) => {
                assert forall|j: int| 0 <= j < i + 1 implies (#[trigger] rules[j]).src != src by {
                    if j > 0 {
                        assert(rules[j] == rest[j - 1]);
                    }
                }
            },
            None => {
                assert forall|j: int| 0 <= j < rules.len() implies (#[trigger] rules[j]).src
                    != src by {
                    if j > 0 {
                        assert(rules[j] == rest[j - 1]);
                    }
                }
            },
        }
    }
}

/// The rule of `rules` that `id` names.
pub open spec fn rule_named(rules: Seq<FileSyncView>, id: SyncIdView) -> Option<FileSyncView> {
    match id {
        SyncIdView::Index(i) => if i < rules.len() {
            Some(rules[i as int])
        } else {
            None
        },
        SyncIdView::Src(src) => match first_with_src(rules, src) {
            Some(i) => Some(rules[i]),
            None => None,
        },
    }
}

/// The rule that `id` names in the project called `project`, or why there
/// is none.
pub open spec fn select(config: ConfigView, project: Seq<char>, id: SyncIdView) -> Result<
    FileSyncView,
    SyncError,
> {
    match position_of(config.projects, project) {
        None => Err(SyncError::ProjectNotFound),
        Some(at) => match rule_named(config.projects[at].1.sync, id) {
            Some(rule) => Ok(rule),
            None => Err(SyncError::SyncNotFound),
        },
    }
}

/// Finds one rule among the rules of a project.
pub fn find_sync<'a>(rules: &'a Vec<FileSync>, id: &SyncId) -> (found: Option<&'a FileSync>)
    ensures
        match found {
            Some(rule) => rule_named(file_syncs_view(rules@), id@) == Some(rule@),
            None => rule_named(file_syncs_view(rules@), id@) is None,
        },
{
    match id {
        SyncId::Index(i) => {
            if *i < rules.len() {
                Some(&rules[*i])
            } else {
                None
            }
        },
        SyncId::Src(src) => {
            let ghost all = file_syncs_view(rules@);
            let mut i: usize = 0;
            while i < rules.len()
                invariant
                    i <= rules.len(),
                    all == file_syncs_view(rules@),
                    id@ == SyncIdView::Src(src@),
                    forall|j: int| 0 <= j < i ==> (#[trigger] all[j]).src != src@,
                decreases rules.len() - i,
            {
                if rules[i].src == *src {
                    proof {
                        lemma_first_with_src(all, src@);
                        assert(all[i as int].src == src@);
                    }
                    return Some(&rules[i]);
                }
                i += 1;
            }
            proof {
                lemma_first_with_src(all, src@);
            }
            None
        },
    }
}

/// Finds the rule that `id` names in the project called `project`.
pub fn select_sync<'a>(config: &'a Config, project: &String, id: &SyncId) -> (r: Result<
    &'a FileSync,
    SyncError,
>)
    ensures
        match r {
            Ok(rule) => select(config@, project@, id@) == Ok::<FileSyncView, SyncError>(rule@),
            Err(e) => select(config@, project@, id@) == Err::<FileSyncView, SyncError>(e),
        },
{
    match config.get(project) {
        None => Err(SyncError::ProjectNotFound),
        Some(found) => match find_sync(&found.sync, id) {
            Some(rule) => Ok(rule),
            None => Err(SyncError::SyncNotFound),
        },
    }
}

/// The rule that one invocation runs: the prepared rule, without the hooks
/// of every sync where the invocation is told to skip them.
pub open spec fn rule_to_run(parsed: ParsedSyncView, skip_commands: bool) -> ParsedSyncView {
    if skip_commands {
        without_sync_hooks(parsed)
    } else {
        parsed
    }
}

/// Begins the sync of exactly one rule: the rule that `id` names in the
/// project called `project`, with the tool `rsync`, as the first sync of the
/// rule where `initialize` is set, and without the hooks of every sync where
/// `skip_commands` is set. Fails where the project or the rule is not
/// there, or where the flags of the rule do not split.
pub fn sync_project(
    config: &Config,
    project: &String,
    id: &SyncId,
    rsync: Option<&str>,
    initialize: bool,
    skip_commands: bool,
) -> (r: Result<SyncRun, SyncError>)
    ensures
        match r {
            Ok(run) => select(config@, project@, id@) matches Ok(rule) && parse_rule(
                rule,
            ) matches Some(parsed) && run@ == (RunView {
                commands: sync_commands(
                    rule_to_run(parsed, skip_commands),
                    match rsync {
                        Some(program) => Some(program@),
                        None => None,
                    },
                    initialize,
                ),
                position: 0,
                failed: None,
            }),
            Err(e) => match select(config@, project@, id@) {
                Ok(rule) => parse_rule(rule) is None && e == SyncError::SplitFlags,
                Err(missing) => e == missing,
            },
        },
{
    match select_sync(config, project, id) {
        Err(e) => Err(e),
        Ok(rule) => match ParsedSync::try_from(rule.clone()) {
            Err(e) => Err(e),
            Ok(parsed) => {
                let parsed = if skip_commands {
                    parsed.skip_commands()
                } else {
                    parsed
                };
                Ok(execute_sync(&parsed, rsync, initialize))
            },
        },
    }
}

} // verus!
