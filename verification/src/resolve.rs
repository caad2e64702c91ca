use vstd::prelude::*;
use crate::text::{contains_text, opt_text, texts};

verus! {

/// The ancestor chain of a path: the path itself, then its parent, then the
/// parent of that, up to the filesystem root, as the standard library reads
/// the path.
pub uninterp spec fn ancestor_chain(path: Seq<char>) -> Seq<Seq<char>>;

/// Calls `std::path::Path::ancestors` on `path` and hands back every item it
/// yields, as text, in the order in which it yields them. Nothing is proved
/// of the walk: the chain is only given its name, `ancestor_chain`.
#[verifier::external_body]
fn ancestors(path: &str) -> (chain: Vec<String>)
    ensures
        texts(chain@) == ancestor_chain(path@),
{
    let mut chain = Vec::new();
    for ancestor in std::path::Path::new(path).ancestors() {
        chain.push(ancestor.to_string_lossy().into_owned());
    }
    chain
}

/// The first item of `chain` that is one of `roots`, if there is one.
pub open spec fn nearest_root(chain: Seq<Seq<char>>, roots: Seq<Seq<char>>) -> Option<Seq<char>>
    decreases chain.len(),
{
    if chain.len() == 0 {
        None
    } else if roots.contains(chain[0]) {
        Some(chain[0])
    } else {
        nearest_root(chain.drop_first(), roots)
    }
}

/// The rule root that owns a changed path: the nearest ancestor of the path
/// that is the source of a rule.
pub open spec fn owner(path: Seq<char>, roots: Seq<Seq<char>>) -> Option<Seq<char>> {
    nearest_root(ancestor_chain(path), roots)
}

/// `nearest_root` picks the item at the least position that holds a root,
/// and finds none only where no item is a root.
pub proof fn lemma_nearest_root(chain: Seq<Seq<char>>, roots: Seq<Seq<char>>)
    ensures
        match nearest_root(chain, roots) {
            Some(root) => exists|i: int|
                0 <= i < chain.len() && chain[i] == root && roots.contains(root) && forall|j: int|
                    0 <= j < i ==> !roots.contains(#[trigger] chain[j]),
            None => forall|j: int| 0 <= j < chain.len() ==> !roots.contains(#[trigger] chain[j]),
        },
    decreases chain.len(),
{
    if chain.len() == 0 {
    } else if roots.contains(chain[0]) {
        assert(forall|j: int| 0 <= j < 0 ==> !roots.contains(#[trigger] chain[j]));
    } else {
        let rest = chain.drop_first();
        lemma_nearest_root(rest, roots);
        assert(forall|j: int| 0 <= j < rest.len() ==> rest[j] == chain[j + 1]);
        match nearest_root(rest, roots) {
            Some(root) => {
                let i = choose|i: int|
                    0 <= i < rest.len() && rest[i] == root && roots.contains(root) && forall|j: int|
                        0 <= j < i ==> !roots.contains(#[trigger] rest[j]);
                assert forall|j: int| 0 <= j < i + 1 implies !roots.contains(
                    #[trigger] chain[j],
                ) by {
                    if j > 0 {
                        assert(chain[j] == rest[j - 1]);
                    }
                }
                assert(chain[i + 1] == root);
            },
            None => {
                assert forall|j: int| 0 <= j < chain.len() implies !roots.contains(
                    #[trigger] chain[j],
                ) by {
                    if j > 0 {
                        assert(chain[j] == rest[j - 1]);
                    }
                }
            },
        }
    }
}

/// Walks an ancestor chain from the path upward and returns the first
/// ancestor that is the source of a rule.
pub fn find_root(chain: &Vec<String>, roots: &Vec<String>) -> (found: Option<String>)
    ensures
        opt_text(found) == nearest_root(texts(chain@), texts(roots@)),
{
    let mut i: usize = 0;
    assert(texts(chain@).skip(0) == texts(chain@));
    while i < chain.len()
        invariant
            i <= chain.len(),
            nearest_root(texts(chain@), texts(roots@)) == nearest_root(
                texts(chain@).skip(i as int),
                texts(roots@),
            ),
        decreases chain.len() - i,
    {
        let ghost rest = texts(chain@).skip(i as int);
        assert(rest[0] == chain@[i as int]@);
        assert(rest.drop_first() == texts(chain@).skip(i + 1));
        if contains_text(roots, &chain[i]) {
            return Some(chain[i].clone());
        }
        i += 1;
    }
    assert(texts(chain@).skip(i as int).len() == 0);
    None
}

/// Resolves a changed path to the rule root that owns it. A path with no
/// rule above it resolves to nothing, and its event is discarded.
pub fn resolve(path: &str, roots: &Vec<String>) -> (found: Option<String>)
    ensures
        opt_text(found) == owner(path@, texts(roots@)),
{
    let chain = ancestors(path);
    find_root(&chain, roots)
}

/// Ancestor resolution: where an ancestor of a path is the source of a rule
/// and no nearer ancestor is, the path resolves to that ancestor. A file
/// two levels below a root resolves to the root where no rule is configured
/// for the directory between them.
pub proof fn lemma_ancestor_resolution(chain: Seq<Seq<char>>, roots: Seq<Seq<char>>, k: int)
    requires
        0 <= k < chain.len(),
        roots.contains(chain[k]),
        forall|j: int| 0 <= j < k ==> !roots.contains(#[trigger] chain[j]),
    ensures
        nearest_root(chain, roots) == Some(chain[k]),
    decreases k,
{
    if k > 0 {
        let rest = chain.drop_first();
        assert(!roots.contains(chain[0]));
        assert forall|j: int| 0 <= j < k - 1 implies !roots.contains(#[trigger] rest[j]) by {
            assert(rest[j] == chain[j + 1]);
        }
        assert(rest[k - 1] == chain[k]);
        lemma_ancestor_resolution(rest, roots, k - 1);
    }
}

} // verus!
