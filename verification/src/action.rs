use vstd::prelude::*;
use crate::config::DebounceWindow;

verus! {

/// One thing that the driver of a watch session is asked to do. A session
/// hands out actions in lists; the driver performs a list in order.
#[derive(Debug, PartialEq, Eq)]
pub enum Action {
    /// Register a filesystem watch on `path`.
    Watch { path: String, recursive: bool },
    /// Start one sync invocation for the rule rooted at `root`, and report
    /// the process that runs it.
    Spawn { root: String, initialize: bool },
    /// Poll the process; if it still runs, terminate it and reap it.
    Cancel(u32),
    /// Block until the process has exited.
    Wait(u32),
    /// Block until a filesystem event or the shutdown signal arrives.
    AwaitEvent,
    /// Sleep for the window, then drain the events that arrived meanwhile
    /// without blocking.
    Debounce(DebounceWindow),
    /// Leave the loop.
    Exit,
}

/// What an action is, as plain values.
pub enum ActionView {
    Watch { path: Seq<char>, recursive: bool },
    Spawn { root: Seq<char>, initialize: bool },
    Cancel(u32),
    Wait(u32),
    AwaitEvent,
    Debounce(DebounceWindow),
    Exit,
}

impl View for Action {
    type V = ActionView;

    open spec fn view(&self) -> ActionView {
        match *self {
            Action::Watch { path, recursive } => ActionView::Watch { path: path@, recursive },
            Action::Spawn { root, initialize } => ActionView::Spawn { root: root@, initialize },
            Action::Cancel(pid) => ActionView::Cancel(pid),
            Action::Wait(pid) => ActionView::Wait(pid),
            Action::AwaitEvent => ActionView::AwaitEvent,
            Action::Debounce(window) => ActionView::Debounce(window),
            Action::Exit => ActionView::Exit,
        }
    }
}

/// The actions of a list, as plain values.
pub open spec fn actions_view(actions: Seq<Action>) -> Seq<ActionView> {
    actions.map_values(|a: Action| a@)
}

/// One `Cancel` for each process, in order.
pub open spec fn cancel_each(pids: Seq<u32>) -> Seq<ActionView> {
    pids.map_values(|pid: u32| ActionView::Cancel(pid))
}

/// One `Wait` for each process, in order.
pub open spec fn wait_each(pids: Seq<u32>) -> Seq<ActionView> {
    pids.map_values(|pid: u32| ActionView::Wait(pid))
}

/// One `Spawn` for each root, in order.
pub open spec fn spawn_each(roots: Seq<Seq<char>>, initialize: bool) -> Seq<ActionView> {
    roots.map_values(|root: Seq<char>| ActionView::Spawn { root, initialize })
}

/// Appends the actions of `more` to `script`.
pub fn append_actions(script: &mut Vec<Action>, more: Vec<Action>)
    ensures
        actions_view(final(script)@) == actions_view(old(script)@) + actions_view(more@),
{
    let mut more = more;
    let ghost before = script@;
    let ghost added = more@;
    script.append(&mut more);
    assert(script@ == before + added);
    assert(actions_view(before + added) == actions_view(before) + actions_view(added));
}

/// One `Spawn` for each root.
pub fn spawn_actions(roots: &Vec<String>, initialize: bool) -> (script: Vec<Action>)
    ensures
        actions_view(script@) == spawn_each(crate::text::texts(roots@), initialize),
{
    let mut script: Vec<Action> = Vec::new();
    let mut i: usize = 0;
    while i < roots.len()
        invariant
            i <= roots.len(),
            script@.len() == i,
            forall|j: int|
                0 <= j < i ==> (#[trigger] script@[j])@ == (ActionView::Spawn {
                    root: roots@[j]@,
                    initialize,
                }),
        decreases roots.len() - i,
    {
        script.push(Action::Spawn { root: roots[i].clone(), initialize });
        i += 1;
    }
    assert(actions_view(script@) == spawn_each(crate::text::texts(roots@), initialize));
    script
}

} // verus!
