use vstd::prelude::*;
use crate::event::{events_view, ChangeEvent, ChangeEventView};
use crate::resolve::{owner, resolve};
use crate::text::{contains_text, texts};

verus! {

/// `batch` with `root` added at the end, unless it is there already.
pub open spec fn add_root(batch: Seq<Seq<char>>, root: Seq<char>) -> Seq<Seq<char>> {
    if batch.contains(root) {
        batch
    } else {
        batch.push(root)
    }
}

/// `batch` after one changed path: the root that owns the path joins the
/// batch; a path that no rule owns leaves it as it is.
pub open spec fn merge_path(batch: Seq<Seq<char>>, roots: Seq<Seq<char>>, path: Seq<char>) -> Seq<
    Seq<char>,
> {
    match owner(path, roots) {
        Some(root) => add_root(batch, root),
        None => batch,
    }
}

/// `batch` after the changed paths `paths`, taken in order.
pub open spec fn merge_paths(
    batch: Seq<Seq<char>>,
    roots: Seq<Seq<char>>,
    paths: Seq<Seq<char>>,
) -> Seq<Seq<char>>
    decreases paths.len(),
{
    if paths.len() == 0 {
        batch
    } else {
        merge_path(merge_paths(batch, roots, paths.drop_last()), roots, paths.last())
    }
}

/// `batch` after one raw event: its paths are merged where its kind asks for
/// a sync, and the event is dropped otherwise.
pub open spec fn merge_event(
    batch: Seq<Seq<char>>,
    roots: Seq<Seq<char>>,
    event: ChangeEventView,
) -> Seq<Seq<char>> {
    if event.kind.is_change() {
        merge_paths(batch, roots, event.paths)
    } else {
        batch
    }
}

/// `batch` after the raw events `events`, taken in order.
pub open spec fn merge_events(
    batch: Seq<Seq<char>>,
    roots: Seq<Seq<char>>,
    events: Seq<ChangeEventView>,
) -> Seq<Seq<char>>
    decreases events.len(),
{
    if events.len() == 0 {
        batch
    } else {
        merge_event(merge_events(batch, roots, events.drop_last()), roots, events.last())
    }
}

/// The rule roots that need a sync, gathered during one debounce window.
/// A root is held once however often it changed, in the order of first
/// arrival.
#[derive(Debug)]
pub struct PendingBatch {
    roots: Vec<String>,
}

impl View for PendingBatch {
    type V = Seq<Seq<char>>;

    closed spec fn view(&self) -> Seq<Seq<char>> {
        texts(self.roots@)
    }
}

impl PendingBatch {
    #[verifier::type_invariant]
    spec fn distinct(self) -> bool {
        texts(self.roots@).no_duplicates()
    }

    /// The batch with nothing in it.
    pub fn new() -> (batch: PendingBatch)
        ensures
            batch@ == Seq::<Seq<char>>::empty(),
    {
        let batch = PendingBatch { roots: Vec::new() };
        assert(texts(batch.roots@) == Seq::<Seq<char>>::empty());
        batch
    }

    /// How many roots wait.
    pub fn len(&self) -> (n: usize)
        ensures
            n == self@.len(),
    {
        self.roots.len()
    }

    /// Whether no root waits.
    pub fn is_empty(&self) -> (e: bool)
        ensures
            e == (self@.len() == 0),
    {
        self.roots.len() == 0
    }

    /// Whether `root` waits.
    pub fn contains(&self, root: &String) -> (c: bool)
        ensures
            c == self@.contains(root@),
    {
        contains_text(&self.roots, root)
    }

    /// Adds `root` unless it waits already, and says whether it was added.
    pub fn insert(&mut self, root: String) -> (fresh: bool)
        ensures
            final(self)@ == add_root(old(self)@, root@),
            fresh == !old(self)@.contains(root@),
            final(self)@.no_duplicates(),
    {
        proof {
            use_type_invariant(&*self);
        }
        if contains_text(&self.roots, &root) {
            false
        } else {
            let ghost before = texts(self.roots@);
            let mut roots: Vec<String> = Vec::new();
            assert(texts(roots@) == Seq::<Seq<char>>::empty());
            std::mem::swap(&mut roots, &mut self.roots);
            roots.push(root);
            assert(texts(roots@) == before.push(root@));
            self.roots = roots;
            true
        }
    }

    /// Adds the root that owns `path`, if a rule owns it.
    pub fn merge(&mut self, roots: &Vec<String>, path: &str)
        ensures
            final(self)@ == merge_path(old(self)@, texts(roots@), path@),
            final(self)@.no_duplicates(),
    {
        proof {
            use_type_invariant(&*self);
        }
        match resolve(path, roots) {
            Some(root) => {
                self.insert(root);
            },
            None => {},
        }
    }

    /// Adds the roots that own the paths `paths`, taken in order.
    pub fn merge_all(&mut self, roots: &Vec<String>, paths: &Vec<String>)
        ensures
            final(self)@ == merge_paths(old(self)@, texts(roots@), texts(paths@)),
            final(self)@.no_duplicates(),
    {
        proof {
            use_type_invariant(&*self);
        }
        let mut i: usize = 0;
        assert(texts(paths@).take(0) == Seq::<Seq<char>>::empty());
        while i < paths.len()
            invariant
                i <= paths.len(),
                self@ == merge_paths(old(self)@, texts(roots@), texts(paths@).take(i as int)),
                self@.no_duplicates(),
            decreases paths.len() - i,
        {
            let ghost next = texts(paths@).take(i + 1);
            assert(next.drop_last() == texts(paths@).take(i as int));
            assert(next.last() == paths@[i as int]@);
            self.merge(roots, paths[i].as_str());
            i += 1;
        }
        assert(texts(paths@).take(i as int) == texts(paths@));
    }

    /// Takes in one raw event: merges its paths where its kind asks for a
    /// sync.
    pub fn merge_event(&mut self, roots: &Vec<String>, event: &ChangeEvent)
        ensures
            final(self)@ == merge_event(old(self)@, texts(roots@), event@),
            final(self)@.no_duplicates(),
    {
        proof {
            use_type_invariant(&*self);
        }
        if event.kind.changes() {
            self.merge_all(roots, &event.paths);
        }
    }

    /// Takes in the raw events `events`, in order.
    pub fn merge_events(&mut self, roots: &Vec<String>, events: &Vec<ChangeEvent>)
        ensures
            final(self)@ == merge_events(old(self)@, texts(roots@), events_view(events@)),
            final(self)@.no_duplicates(),
    {
        proof {
            use_type_invariant(&*self);
        }
        let mut i: usize = 0;
        assert(events_view(events@).take(0) == Seq::<ChangeEventView>::empty());
        while i < events.len()
            invariant
                i <= events.len(),
                self@ == merge_events(
                    old(self)@,
                    texts(roots@),
                    events_view(events@).take(i as int),
                ),
                self@.no_duplicates(),
            decreases events.len() - i,
        {
            let ghost next = events_view(events@).take(i + 1);
            assert(next.drop_last() == events_view(events@).take(i as int));
            assert(next.last() == events@[i as int]@);
            self.merge_event(roots, &events[i]);
            i += 1;
        }
        assert(events_view(events@).take(i as int) == events_view(events@));
    }

    /// Hands out the waiting roots in the order of first arrival and leaves
    /// the batch empty.
    pub fn drain(&mut self) -> (roots: Vec<String>)
        ensures
            texts(roots@) == old(self)@,
            texts(roots@).no_duplicates(),
            final(self)@ == Seq::<Seq<char>>::empty(),
    {
        proof {
            use_type_invariant(&*self);
        }
        let mut roots: Vec<String> = Vec::new();
        assert(texts(roots@) == Seq::<Seq<char>>::empty());
        std::mem::swap(&mut roots, &mut self.roots);
        roots
    }
}

/// The roots that own at least one of `paths`.
pub open spec fn owners(roots: Seq<Seq<char>>, paths: Seq<Seq<char>>) -> Set<Seq<char>> {
    Set::new(
        |root: Seq<char>|
            exists|i: int| 0 <= i < paths.len() && owner(#[trigger] paths[i], roots) == Some(root),
    )
}

/// The paths of the events that ask for a sync, event by event.
pub open spec fn change_paths(events: Seq<ChangeEventView>) -> Seq<Seq<char>>
    decreases events.len(),
{
    if events.len() == 0 {
        Seq::empty()
    } else {
        change_paths(events.drop_last()) + (if events.last().kind.is_change() {
            events.last().paths
        } else {
            Seq::empty()
        })
    }
}

/// Adding a root keeps a batch free of repeats, and adds just that root.
pub proof fn lemma_add_root(batch: Seq<Seq<char>>, root: Seq<char>)
    requires
        batch.no_duplicates(),
    ensures
        add_root(batch, root).no_duplicates(),
        add_root(batch, root).to_set() == batch.to_set().insert(root),
{
    if batch.contains(root) {
        assert(batch.to_set() =~= batch.to_set().insert(root));
    } else {
        let grown = batch.push(root);
        assert forall|i: int, j: int| 0 <= i < grown.len() && 0 <= j < grown.len() && i != j implies grown[i]
            != grown[j] by {
            if i == batch.len() {
                assert(batch.contains(grown[j]));
            } else if j == batch.len() {
                assert(batch.contains(grown[i]));
            }
        }
        batch.lemma_push_to_set_commute(root);
    }
}

/// Coalescing: however many paths change and in whatever order, the batch
/// holds no root twice, and beside what it held before it holds exactly the
/// roots that own a changed path.
pub proof fn lemma_merge_paths(batch: Seq<Seq<char>>, roots: Seq<Seq<char>>, paths: Seq<Seq<char>>)
    requires
        batch.no_duplicates(),
    ensures
        merge_paths(batch, roots, paths).no_duplicates(),
        merge_paths(batch, roots, paths).to_set() == batch.to_set().union(owners(roots, paths)),
    decreases paths.len(),
{
    if paths.len() == 0 {
        assert(batch.to_set().union(owners(roots, paths)) =~= batch.to_set());
    } else {
        let init = paths.drop_last();
        let before = merge_paths(batch, roots, init);
        lemma_merge_paths(batch, roots, init);
        assert(forall|i: int| 0 <= i < init.len() ==> init[i] == paths[i]);
        match owner(paths.last(), roots) {
            Some(root) => {
                lemma_add_root(before, root);
                assert forall|r: Seq<char>| owners(roots, paths).contains(r) implies owners(
                    roots,
                    init,
                ).insert(root).contains(r) by {
                    let i = choose|i: int|
                        0 <= i < paths.len() && owner(#[trigger] paths[i], roots) == Some(r);
                    if i < init.len() {
                        assert(owner(init[i], roots) == Some(r));
                    }
                }
                assert forall|r: Seq<char>|
                    owners(roots, init).insert(root).contains(r) implies owners(
                    roots,
                    paths,
                ).contains(r) by {
                    if r == root {
                        assert(owner(paths[paths.len() - 1], roots) == Some(r));
                    } else {
                        let i = choose|i: int|
                            0 <= i < init.len() && owner(#[trigger] init[i], roots) == Some(r);
                        assert(owner(paths[i], roots) == Some(r));
                    }
                }
                assert(owners(roots, paths) =~= owners(roots, init).insert(root));
                assert(batch.to_set().union(owners(roots, init)).insert(root)
                    =~= batch.to_set().union(owners(roots, paths)));
            },
            None => {
                assert forall|r: Seq<char>| owners(roots, paths).contains(r) implies owners(
                    roots,
                    init,
                ).contains(r) by {
                    let i = choose|i: int|
                        0 <= i < paths.len() && owner(#[trigger] paths[i], roots) == Some(r);
                    assert(i < init.len());
                    assert(owner(init[i], roots) == Some(r));
                }
                assert forall|r: Seq<char>| owners(roots, init).contains(r) implies owners(
                    roots,
                    paths,
                ).contains(r) by {
                    let i = choose|i: int|
                        0 <= i < init.len() && owner(#[trigger] init[i], roots) == Some(r);
                    assert(owner(paths[i], roots) == Some(r));
                }
                assert(owners(roots, paths) =~= owners(roots, init));
            },
        }
    }
}

/// A batch gathers rule roots only: whatever it holds beyond what it held
/// before is the source of a rule.
pub proof fn lemma_merge_paths_within_roots(
    batch: Seq<Seq<char>>,
    roots: Seq<Seq<char>>,
    paths: Seq<Seq<char>>,
)
    requires
        forall|i: int| 0 <= i < batch.len() ==> roots.contains(#[trigger] batch[i]),
    ensures
        forall|i: int|
            0 <= i < merge_paths(batch, roots, paths).len() ==> roots.contains(
                #[trigger] merge_paths(batch, roots, paths)[i],
            ),
    decreases paths.len(),
{
    if paths.len() > 0 {
        let before = merge_paths(batch, roots, paths.drop_last());
        let after = merge_paths(batch, roots, paths);
        lemma_merge_paths_within_roots(batch, roots, paths.drop_last());
        crate::resolve::lemma_nearest_root(
            crate::resolve::ancestor_chain(paths.last()),
            roots,
        );
        assert forall|i: int| 0 <= i < after.len() implies roots.contains(#[trigger] after[i]) by {
            if i < before.len() {
                assert(after[i] == before[i]);
            }
        }
    }
}

/// Merging two runs of paths one after the other is merging them as one
/// run.
pub proof fn lemma_merge_paths_concat(
    batch: Seq<Seq<char>>,
    roots: Seq<Seq<char>>,
    first: Seq<Seq<char>>,
    second: Seq<Seq<char>>,
)
    ensures
        merge_paths(batch, roots, first + second) == merge_paths(
            merge_paths(batch, roots, first),
            roots,
            second,
        ),
    decreases second.len(),
{
    if second.len() == 0 {
        assert(first + second == first);
    } else {
        lemma_merge_paths_concat(batch, roots, first, second.drop_last());
        assert((first + second).drop_last() == first + second.drop_last());
        assert((first + second).last() == second.last());
    }
}

/// Merging raw events is merging the paths of those among them that ask
/// for a sync.
pub proof fn lemma_merge_events(
    batch: Seq<Seq<char>>,
    roots: Seq<Seq<char>>,
    events: Seq<ChangeEventView>,
)
    ensures
        merge_events(batch, roots, events) == merge_paths(batch, roots, change_paths(events)),
    decreases events.len(),
{
    if events.len() == 0 {
    } else {
        let init = events.drop_last();
        lemma_merge_events(batch, roots, init);
        if events.last().kind.is_change() {
            lemma_merge_paths_concat(batch, roots, change_paths(init), events.last().paths);
        } else {
            assert(change_paths(init) + Seq::<Seq<char>>::empty() == change_paths(init));
        }
    }
}

} // verus!
