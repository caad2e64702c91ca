use vstd::prelude::*;

verus! {

/// The characters of each string of a sequence, in order.
pub open spec fn texts(items: Seq<String>) -> Seq<Seq<char>> {
    items.map_values(|s: String| s@)
}

/// The characters of an optional string.
pub open spec fn opt_text(item: Option<String>) -> Option<Seq<char>> {
    match item {
        Some(s) => Some(s@),
        None => None,
    }
}

/// Copies a list of strings, character for character.
pub fn copy_texts(items: &Vec<String>) -> (out: Vec<String>)
    ensures
        out@ == items@,
{
    let mut out: Vec<String> = Vec::new();
    let mut i: usize = 0;
    while i < items.len()
        invariant
            i <= items.len(),
            out@ == items@.take(i as int),
        decreases items.len() - i,
    {
        out.push(items[i].clone());
        i += 1;
        assert(out@ == items@.take(i as int));
    }
    assert(items@.take(items.len() as int) == items@);
    out
}

/// Copies an optional string.
pub fn copy_opt_text(item: &Option<String>) -> (out: Option<String>)
    ensures
        out == *item,
{
    match item {
        Some(s) => Some(s.clone()),
        None => None,
    }
}

/// Whether `needle` is one of `items`, compared by characters.
pub fn contains_text(items: &Vec<String>, needle: &String) -> (found: bool)
    ensures
        found == texts(items@).contains(needle@),
{
    let mut i: usize = 0;
    while i < items.len()
        invariant
            i <= items.len(),
            forall|j: int| 0 <= j < i ==> items@[j]@ != needle@,
        decreases items.len() - i,
    {
        if items[i] == *needle {
            assert(texts(items@)[i as int] == needle@);
            return true;
        }
        i += 1;
    }
    assert forall|j: int| 0 <= j < texts(items@).len() implies texts(items@)[j] != needle@ by {
        assert(texts(items@)[j] == items@[j]@);
    }
    false
}

} // verus!
