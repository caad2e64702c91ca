use vstd::prelude::*;
use crate::action::{cancel_each, spawn_each, ActionView};
use crate::batch::{
    change_paths, lemma_merge_events, lemma_merge_paths, lemma_merge_paths_concat,
    lemma_merge_paths_within_roots, merge_events, merge_paths, owners,
};
use crate::config::DebounceWindow;
use crate::event::{ChangeEventView, InputView};
use crate::resolve::owner;
use crate::session::{
    after_dispatch, dispatch, enabled_rules, inv, opened, settle, step, stop_script, stopped,
    tracking, Phase, SessionView,
};
use crate::sync::ParsedSyncView;

verus! {

/// The changed paths of one debounce window: the paths of the event that
/// opened it, then those of the events drained at its end that ask for a
/// sync.
pub open spec fn window_paths(first: ChangeEventView, rest: Seq<ChangeEventView>) -> Seq<
    Seq<char>,
> {
    first.paths + change_paths(rest)
}

/// The batch that one debounce window gathers.
pub open spec fn window_batch(
    roots: Seq<Seq<char>>,
    first: ChangeEventView,
    rest: Seq<ChangeEventView>,
) -> Seq<Seq<char>> {
    merge_paths(Seq::empty(), roots, window_paths(first, rest))
}

/// The script that closes the window which `first` opened in the idle
/// session `s`.
pub open spec fn window_script(
    s: SessionView,
    first: ChangeEventView,
    rest: Seq<ChangeEventView>,
    disconnected: bool,
) -> Seq<ActionView> {
    step(step(s, InputView::Event(first)).0, InputView::Drained { events: rest, disconnected }).1
}

/// A session that was just opened is sound.
pub proof fn lemma_opened_sound(rules: Seq<ParsedSyncView>, restart: bool, debounce: DebounceWindow)
    ensures
        inv(opened(rules, restart, debounce)),
{
}

/// Taking a process in keeps a session sound.
pub proof fn lemma_tracking_sound(s: SessionView, pid: u32)
    requires
        inv(s),
    ensures
        inv(tracking(s, pid)),
{
}

/// Every step keeps a session sound, and changes neither its roots, nor its
/// policy, nor its debounce window.
pub proof fn lemma_step_sound(s: SessionView, input: InputView)
    requires
        inv(s),
    ensures
        inv(step(s, input).0),
        step(s, input).0.roots == s.roots,
        step(s, input).0.restart == s.restart,
        step(s, input).0.debounce == s.debounce,
{
    if s.phase == Phase::Idle {
        if let InputView::Event(event) = input {
            lemma_merge_paths(s.batch, s.roots, event.paths);
        }
    }
}

/// One window, one dispatch: an event that asks for a sync opens a window
/// with nothing but the debounce sleep; the drain that ends the window
/// applies the policy to the processes in flight, then starts one sync for
/// each root of the batch, then waits again. The batch holds no root twice,
/// holds exactly the roots that own a changed path of the window, and so
/// holds sources of rules only: however many events arrive, no more syncs
/// are started than there are rules.
pub proof fn lemma_window(
    s: SessionView,
    first: ChangeEventView,
    rest: Seq<ChangeEventView>,
    disconnected: bool,
)
    requires
        inv(s),
        s.phase == Phase::Idle,
        first.kind.is_change(),
    ensures
        step(s, InputView::Event(first)).1 == seq![ActionView::Debounce(s.debounce)],
        window_script(s, first, rest, disconnected) == dispatch(
            s.restart,
            s.in_progress,
            window_batch(s.roots, first, rest),
        ) + after_dispatch(disconnected),
        window_batch(s.roots, first, rest).no_duplicates(),
        window_batch(s.roots, first, rest).to_set() == owners(
            s.roots,
            window_paths(first, rest),
        ),
        forall|i: int|
            0 <= i < window_batch(s.roots, first, rest).len() ==> s.roots.contains(
                #[trigger] window_batch(s.roots, first, rest)[i],
            ),
{
    let empty = Seq::<Seq<char>>::empty();
    lemma_merge_paths_within_roots(empty, s.roots, window_paths(first, rest));
    assert(s.batch == empty);
    let gathered = merge_paths(empty, s.roots, first.paths);
    lemma_merge_events(gathered, s.roots, rest);
    lemma_merge_paths_concat(empty, s.roots, first.paths, change_paths(rest));
    lemma_merge_paths(empty, s.roots, window_paths(first, rest));
    assert(empty.to_set().union(owners(s.roots, window_paths(first, rest))) =~= owners(
        s.roots,
        window_paths(first, rest),
    ));
}

/// Debounce coalescing: however many changes of one rule root arrive within
/// one window, exactly one sync is started for that root.
pub proof fn lemma_debounce_coalescing(
    s: SessionView,
    first: ChangeEventView,
    rest: Seq<ChangeEventView>,
    disconnected: bool,
    root: Seq<char>,
)
    requires
        inv(s),
        s.phase == Phase::Idle,
        first.kind.is_change(),
        window_paths(first, rest).len() > 0,
        forall|i: int|
            0 <= i < window_paths(first, rest).len() ==> owner(
                #[trigger] window_paths(first, rest)[i],
                s.roots,
            ) == Some(root),
    ensures
        window_script(s, first, rest, disconnected) == settle(s.restart, s.in_progress) + seq![
            ActionView::Spawn { root, initialize: false },
        ] + after_dispatch(disconnected),
{
    lemma_window(s, first, rest, disconnected);
    let paths = window_paths(first, rest);
    let batch = window_batch(s.roots, first, rest);
    assert(owner(paths[0], s.roots) == Some(root));
    assert(owners(s.roots, paths) =~= set![root]);
    batch.unique_seq_to_set();
    assert(batch.len() == 1);
    assert(batch.to_set().contains(batch[0]));
    assert(batch =~= seq![root]);
    assert(spawn_each(batch, false) =~= seq![ActionView::Spawn { root, initialize: false }]);
    assert(window_script(s, first, rest, disconnected) =~= settle(s.restart, s.in_progress)
        + seq![ActionView::Spawn { root, initialize: false }] + after_dispatch(disconnected));
}

/// Multi-root batching: where the changes of one window belong to two
/// distinct rule roots, exactly two syncs are started, one for each root, in
/// whatever order the changes arrived.
pub proof fn lemma_multi_root_batching(
    s: SessionView,
    first: ChangeEventView,
    rest: Seq<ChangeEventView>,
    disconnected: bool,
    a: Seq<char>,
    b: Seq<char>,
)
    requires
        inv(s),
        s.phase == Phase::Idle,
        first.kind.is_change(),
        a != b,
        forall|i: int|
            0 <= i < window_paths(first, rest).len() ==> {
                let o = owner(#[trigger] window_paths(first, rest)[i], s.roots);
                o == Some(a) || o == Some(b)
            },
        exists|i: int|
            0 <= i < window_paths(first, rest).len() && owner(
                #[trigger] window_paths(first, rest)[i],
                s.roots,
            ) == Some(a),
        exists|i: int|
            0 <= i < window_paths(first, rest).len() && owner(
                #[trigger] window_paths(first, rest)[i],
                s.roots,
            ) == Some(b),
    ensures
        ({
            let script = window_script(s, first, rest, disconnected);
            let policy = settle(s.restart, s.in_progress);
            let sync_a = ActionView::Spawn { root: a, initialize: false };
            let sync_b = ActionView::Spawn { root: b, initialize: false };
            ||| script == policy + seq![sync_a, sync_b] + after_dispatch(disconnected)
            ||| script == policy + seq![sync_b, sync_a] + after_dispatch(disconnected)
        }),
{
    lemma_window(s, first, rest, disconnected);
    let paths = window_paths(first, rest);
    let batch = window_batch(s.roots, first, rest);
    assert(owners(s.roots, paths) =~= set![a, b]);
    batch.unique_seq_to_set();
    assert(set![a, b].len() == 2);
    assert(batch.len() == 2);
    assert(batch.to_set().contains(batch[0]));
    assert(batch.to_set().contains(batch[1]));
    assert(batch[0] != batch[1]);
    let policy = settle(s.restart, s.in_progress);
    let sync_a = ActionView::Spawn { root: a, initialize: false };
    let sync_b = ActionView::Spawn { root: b, initialize: false };
    let script = window_script(s, first, rest, disconnected);
    if batch[0] == a {
        assert(batch =~= seq![a, b]);
        assert(spawn_each(batch, false) =~= seq![sync_a, sync_b]);
        assert(script =~= policy + seq![sync_a, sync_b] + after_dispatch(disconnected));
    } else {
        assert(batch =~= seq![b, a]);
        assert(spawn_each(batch, false) =~= seq![sync_b, sync_a]);
        assert(script =~= policy + seq![sync_b, sync_a] + after_dispatch(disconnected));
    }
}

/// Restart policy: in a project that restarts, the drain that ends a window
/// first orders every process in flight cancelled, in the order in which
/// they were started, and only then starts a sync; no sync is started
/// before the last of them is cancelled. Afterwards the session holds none
/// of them.
pub proof fn lemma_restart_policy(s: SessionView, events: Seq<ChangeEventView>, disconnected: bool)
    requires
        inv(s),
        s.phase == Phase::Collecting,
        s.restart,
    ensures
        ({
            let next = step(s, InputView::Drained { events, disconnected });
            &&& next.0.in_progress == Seq::<u32>::empty()
            &&& next.1.len() >= s.in_progress.len()
            &&& forall|i: int|
                0 <= i < s.in_progress.len() ==> #[trigger] next.1[i] == ActionView::Cancel(
                    s.in_progress[i],
                )
            &&& forall|j: int|
                0 <= j < next.1.len() && #[trigger] next.1[j] is Spawn ==> j
                    >= s.in_progress.len()
        }),
{
}

/// Wait policy: in a project that does not restart, the drain that ends a
/// window first orders every process in flight waited for, in the order in
/// which they were started, and only then starts a sync; no sync of the new
/// batch is started before the last of them has exited. Afterwards the
/// session holds none of them.
pub proof fn lemma_wait_policy(s: SessionView, events: Seq<ChangeEventView>, disconnected: bool)
    requires
        inv(s),
        s.phase == Phase::Collecting,
        !s.restart,
    ensures
        ({
            let next = step(s, InputView::Drained { events, disconnected });
            &&& next.0.in_progress == Seq::<u32>::empty()
            &&& next.1.len() >= s.in_progress.len()
            &&& forall|i: int|
                0 <= i < s.in_progress.len() ==> #[trigger] next.1[i] == ActionView::Wait(
                    s.in_progress[i],
                )
            &&& forall|j: int|
                0 <= j < next.1.len() && #[trigger] next.1[j] is Spawn ==> j
                    >= s.in_progress.len()
        }),
{
}

/// Serial syncs: in a project that does not restart, a batch of one root
/// starts its one sync only after every process in flight was waited for,
/// and starts no second sync beside it; so the sync of one change has ended
/// before the sync of the next change begins.
pub proof fn lemma_serial_syncs(s: SessionView, events: Seq<ChangeEventView>, disconnected: bool)
    requires
        inv(s),
        s.phase == Phase::Collecting,
        !s.restart,
        merge_events(s.batch, s.roots, events).len() <= 1,
    ensures
        ({
            let script = step(s, InputView::Drained { events, disconnected }).1;
            forall|j: int|
                0 <= j < script.len() && #[trigger] script[j] is Spawn ==> {
                    &&& j == s.in_progress.len()
                    &&& forall|i: int|
                        0 <= i < j ==> #[trigger] script[i] == ActionView::Wait(s.in_progress[i])
                }
        }),
{
}

/// The scope of a policy is one project: whatever a step orders cancelled
/// or waited for is a process that the session itself has in flight.
pub proof fn lemma_settle_scope(s: SessionView, input: InputView)
    ensures
        forall|j: int|
            0 <= j < step(s, input).1.len() ==> match #[trigger] step(s, input).1[j] {
                ActionView::Cancel(pid) => s.in_progress.contains(pid),
                ActionView::Wait(pid) => s.in_progress.contains(pid),
                _ => true,
            },
{
    let script = step(s, input).1;
    assert forall|j: int| 0 <= j < script.len() implies match #[trigger] script[j] {
        ActionView::Cancel(pid) => s.in_progress.contains(pid),
        ActionView::Wait(pid) => s.in_progress.contains(pid),
        _ => true,
    } by {
        if j < s.in_progress.len() {
            assert(s.in_progress.contains(s.in_progress[j]));
        }
    }
}

/// Initialization: once its watches are registered, a session starts
/// exactly one first sync for each enabled rule, in the order of the rules,
/// and then waits for events; and nothing that can happen to a session that
/// was just opened starts any other sync.
pub proof fn lemma_initialization(
    rules: Seq<ParsedSyncView>,
    restart: bool,
    debounce: DebounceWindow,
    input: InputView,
)
    ensures
        ({
            let s = opened(rules, restart, debounce);
            let enabled = enabled_rules(rules);
            let started = step(s, InputView::Ready);
            &&& started.0.phase == Phase::Idle
            &&& started.1.len() == enabled.len() + 1
            &&& forall|i: int|
                0 <= i < enabled.len() ==> #[trigger] started.1[i] == (ActionView::Spawn {
                    root: enabled[i].src,
                    initialize: true,
                })
            &&& started.1[enabled.len() as int] == ActionView::AwaitEvent
            &&& input != InputView::Ready ==> forall|j: int|
                0 <= j < step(s, input).1.len() ==> !(#[trigger] step(s, input).1[j] is Spawn)
        }),
{
}

/// Shutdown cleanliness: whatever a session is doing, the shutdown signal
/// ends it: every process in flight is ordered cancelled, then the loop is
/// left, and the session holds no process and no pending root. A session
/// that has ended stays ended and never starts a sync again.
pub proof fn lemma_shutdown(s: SessionView, later: InputView)
    ensures
        ({
            let end = step(s, InputView::Shutdown);
            &&& end.0 == stopped(s)
            &&& end.0.phase == Phase::Stopped
            &&& end.0.in_progress == Seq::<u32>::empty()
            &&& end.1 == cancel_each(s.in_progress).push(ActionView::Exit)
            &&& step(end.0, later).0 == end.0
            &&& step(end.0, later).1 == seq![ActionView::Exit]
        }),
{
    let end = step(s, InputView::Shutdown);
    assert(stopped(end.0) == end.0);
    assert(stop_script(end.0) =~= seq![ActionView::Exit]);
}

} // verus!
