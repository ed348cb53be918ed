//! Small helpers on owned strings.

use vstd::prelude::*;
use vstd::string::StringExecFns;

verus! {

/// Whether `token` reads `word`.
pub(crate) fn reads(token: &String, word: &str) -> (same: bool)
    ensures
        same == (token@ == word@),
{
    let other = String::from_str(word);
    *token == other
}

/// A copy of the items from `from` up to `to`.
pub(crate) fn copy_range(items: &Vec<String>, from: usize, to: usize) -> (copy: Vec<String>)
    requires
        from <= to <= items.len(),
    ensures
        copy.deep_view() == items.deep_view().subrange(from as int, to as int),
{
    let mut copy: Vec<String> = Vec::new();
    let mut i = from;
    while i < to
        invariant
            from <= i <= to <= items.len(),
            copy.deep_view() == items.deep_view().subrange(from as int, i as int),
        decreases to - i,
    {
        let ghost before = copy.deep_view();
        copy.push(items[i].clone());
        assert(copy.deep_view() =~= before.push(items[i as int]@));
        i += 1;
    }
    copy
}

/// A copy of `items`.
pub(crate) fn copy_all(items: &Vec<String>) -> (copy: Vec<String>)
    ensures
        copy.deep_view() == items.deep_view(),
{
    let copy = copy_range(items, 0, items.len());
    assert(items.deep_view().subrange(0, items.len() as int) =~= items.deep_view());
    copy
}

/// A copy of `item`.
pub(crate) fn copy_optional(item: &Option<String>) -> (copy: Option<String>)
    ensures
        copy.deep_view() == item.deep_view(),
{
    match item {
        Some(text) => Some(text.clone()),
        None => None,
    }
}

} // verus!
