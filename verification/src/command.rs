use vstd::prelude::*;
use crate::config::{file_syncs_view, Config, FileSync, FileSyncView, ProjectView};
use crate::text::texts;

verus! {

/// The arguments with which the program calls itself to sync one rule of
/// `project`, up to the choice of the rule.
pub open spec fn project_args(project: Seq<char>, config_path: Seq<char>) -> Seq<Seq<char>> {
    seq!["-c"@, config_path, "sync-project"@, "--project"@, project]
}

/// The arguments that tell the invocation what to run: whether to skip the
/// hooks, and whether this is the first sync of the rule.
pub open spec fn mode_args(initialize: bool, skip_commands: bool) -> Seq<Seq<char>> {
    (if skip_commands {
        seq!["--no-run-commands"@]
    } else {
        Seq::empty()
    }) + (if initialize {
        seq!["--initialize"@]
    } else {
        Seq::empty()
    })
}

/// The arguments with which the program calls itself to sync the rule of
/// `project` whose source is `root`.
pub open spec fn invocation_args(
    project: Seq<char>,
    config_path: Seq<char>,
    root: Seq<char>,
    initialize: bool,
    skip_commands: bool,
) -> Seq<Seq<char>> {
    project_args(project, config_path) + mode_args(initialize, skip_commands) + seq![
        "--src"@,
        root,
    ]
}

/// Builds the arguments with which the program calls itself to sync one
/// rule of `project`, up to the choice of the rule.
pub fn sync_project_cmd(project: &str, config_path: &str) -> (args: Vec<String>)
    ensures
        texts(args@) == project_args(project@, config_path@),
{
    let mut args: Vec<String> = Vec::new();
    args.push("-c".to_owned());
    args.push(config_path.to_owned());
    args.push("sync-project".to_owned());
    args.push("--project".to_owned());
    args.push(project.to_owned());
    assert(texts(args@) == project_args(project@, config_path@));
    args
}

/// Builds the arguments with which the program calls itself to sync the
/// rule of `project` whose source is `root`.
pub fn sync_invocation(
    project: &str,
    config_path: &str,
    root: &str,
    initialize: bool,
    skip_commands: bool,
) -> (args: Vec<String>)
    ensures
        texts(args@) == invocation_args(
            project@,
            config_path@,
            root@,
            initialize,
            skip_commands,
        ),
{
    let mut args = sync_project_cmd(project, config_path);
    let ghost head = texts(args@);
    if skip_commands {
        args.push("--no-run-commands".to_owned());
    }
    if initialize {
        args.push("--initialize".to_owned());
    }
    assert(texts(args@) == head + mode_args(initialize, skip_commands));
    let ghost middle = texts(args@);
    args.push("--src".to_owned());
    args.push(root.to_owned());
    assert(texts(args@) == middle + seq!["--src"@, root@]);
    args
}

/// One first-sync invocation for each rule of a project, in order.
pub open spec fn project_once(
    skip_commands: bool,
    config_path: Seq<char>,
    name: Seq<char>,
    rules: Seq<FileSyncView>,
) -> Seq<Seq<Seq<char>>> {
    rules.map_values(
        |rule: FileSyncView| invocation_args(name, config_path, rule.src, true, skip_commands),
    )
}

/// One first-sync invocation for each rule of each project, project by
/// project.
pub open spec fn all_once(
    skip_commands: bool,
    config_path: Seq<char>,
    projects: Seq<(Seq<char>, ProjectView)>,
) -> Seq<Seq<Seq<char>>>
    decreases projects.len(),
{
    if projects.len() == 0 {
        Seq::empty()
    } else {
        all_once(skip_commands, config_path, projects.drop_last()) + project_once(
            skip_commands,
            config_path,
            projects.last().0,
            projects.last().1.sync,
        )
    }
}

/// The argument lists of a list, as plain values.
pub open spec fn arg_lists(lists: Seq<Vec<String>>) -> Seq<Seq<Seq<char>>> {
    lists.map_values(|args: Vec<String>| texts(args@))
}

/// Appends one first-sync invocation for each rule of a project.
fn push_project_once(
    out: &mut Vec<Vec<String>>,
    skip_commands: bool,
    config_path: &str,
    name: &str,
    rules: &Vec<FileSync>,
)
    ensures
        arg_lists(final(out)@) == arg_lists(old(out)@) + project_once(
            skip_commands,
            config_path@,
            name@,
            file_syncs_view(rules@),
        ),
{
    let ghost before = arg_lists(out@);
    let ghost all = project_once(skip_commands, config_path@, name@, file_syncs_view(rules@));
    let mut i: usize = 0;
    assert(before + all.take(0) == before);
    while i < rules.len()
        invariant
            i <= rules.len(),
            all == project_once(skip_commands, config_path@, name@, file_syncs_view(rules@)),
            arg_lists(out@) == before + all.take(i as int),
        decreases rules.len() - i,
    {
        let ghost so_far = arg_lists(out@);
        let args = sync_invocation(name, config_path, rules[i].src.as_str(), true, skip_commands);
        assert(texts(args@) == all[i as int]);
        out.push(args);
        assert(arg_lists(out@) == so_far.push(all[i as int]));
        assert(before + all.take(i + 1) == (before + all.take(i as int)).push(all[i as int]));
        i += 1;
    }
    assert(all.take(i as int) == all);
}

/// Plans one sync of everything: the argument lists of one first-sync
/// invocation for each rule of each project, whether the rule is enabled or
/// not. The caller starts them all, then waits for them all.
pub fn sync_all_once(skip_commands: bool, config_path: &str, config: &Config) -> (invocations: Vec<
    Vec<String>,
>)
    ensures
        arg_lists(invocations@) == all_once(skip_commands, config_path@, config@.projects),
{
    let projects = config.projects();
    let ghost all = config@.projects;
    let mut invocations: Vec<Vec<String>> = Vec::new();
    let mut i: usize = 0;
    assert(all.take(0) == Seq::<(Seq<char>, ProjectView)>::empty());
    assert(arg_lists(invocations@) == Seq::<Seq<Seq<char>>>::empty());
    while i < projects.len()
        invariant
            i <= projects.len(),
            all == crate::config::projects_view(projects@),
            arg_lists(invocations@) == all_once(skip_commands, config_path@, all.take(i as int)),
        decreases projects.len() - i,
    {
        let ghost next = all.take(i + 1);
        assert(next.drop_last() == all.take(i as int));
        assert(next.last() == (projects@[i as int].0@, projects@[i as int].1@));
        push_project_once(
            &mut invocations,
            skip_commands,
            config_path,
            projects[i].0.as_str(),
            &projects[i].1.sync,
        );
        i += 1;
    }
    assert(all.take(i as int) == all);
    invocations
}

} // verus!
