//! Lists of identifiers: membership and distinctness.

use vstd::prelude::*;
use crate::state::strings_view;

verus! {

/// Whether `x` is in `list`.
pub fn contains_name(list: &Vec<String>, x: &String) -> (found: bool)
    ensures
        found == strings_view(list@).contains(x@),
{
    let mut i: usize = 0;
    while i < list.len()
        invariant
            i <= list.len(),
            forall|j: int| 0 <= j < i ==> strings_view(list@)[j] != x@,
        decreases list.len() - i,
    {
        if list[i] == *x {
            assert(strings_view(list@)[i as int] == x@);
            return true;
        }
        i = i + 1;
    }
    false
}

/// Whether no string occurs twice in `list`.
pub fn all_distinct(list: &Vec<String>) -> (ok: bool)
    ensures
        ok == strings_view(list@).no_duplicates(),
{
    let ghost s = strings_view(list@);
    let mut i: usize = 0;
    while i < list.len()
        invariant
            i <= list.len(),
            s == strings_view(list@),
            forall|a: int, b: int| 0 <= a < i && a < b < s.len() ==> s[a] != s[b],
        decreases list.len() - i,
    {
        let mut j: usize = i + 1;
        while j < list.len()
            invariant
                i < list.len(),
                i < j <= list.len(),
                s == strings_view(list@),
                forall|b: int| i < b < j ==> s[i as int] != s[b],
            decreases list.len() - j,
        {
            if list[i] == list[j] {
                assert(s[i as int] == s[j as int]);
                return false;
            }
            j = j + 1;
        }
        i = i + 1;
    }
    assert forall|a: int, b: int| 0 <= a < s.len() && 0 <= b < s.len() && a != b implies s[a]
        != s[b] by {
        if a < b {
            assert(s[a] != s[b]);
        } else {
            assert(s[b] != s[a]);
        }
    }
    true
}

/// Whether every string of `items` is in `list`.
pub fn all_members(items: &Vec<String>, list: &Vec<String>) -> (ok: bool)
    ensures
        ok == (forall|j: int|
            0 <= j < items.len() ==> strings_view(list@).contains(
                #[trigger] strings_view(items@)[j],
            )),
{
    let mut i: usize = 0;
    while i < items.len()
        invariant
            i <= items.len(),
            forall|j: int|
                0 <= j < i ==> strings_view(list@).contains(#[trigger] strings_view(items@)[j]),
        decreases items.len() - i,
    {
        if !contains_name(list, &items[i]) {
            assert(!strings_view(list@).contains(strings_view(items@)[i as int]));
            return false;
        }
        i = i + 1;
    }
    true
}

} // verus!
