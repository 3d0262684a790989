//! Lists of ids read as sets.

use vstd::prelude::*;

verus! {

/// Whether `id` occurs in `ids`.
pub fn contains_id(ids: &Vec<i32>, id: i32) -> (r: bool)
    ensures
        r == ids@.contains(id),
{
    let mut i: usize = 0;
    while i < ids.len()
        invariant
            i <= ids.len(),
            forall|j: int| 0 <= j < i ==> ids[j] != id,
        decreases ids.len() - i,
    {
        if ids[i] == id {
            return true;
        }
        i += 1;
    }
    false
}

/// Whether every member of `a` occurs in `b`.
pub fn included(a: &Vec<i32>, b: &Vec<i32>) -> (r: bool)
    ensures
        r == a@.to_set().subset_of(b@.to_set()),
{
    let mut i: usize = 0;
    while i < a.len()
        invariant
            i <= a.len(),
            forall|j: int| 0 <= j < i ==> b@.contains(#[trigger] a[j]),
        decreases a.len() - i,
    {
        if !contains_id(b, a[i]) {
            assert(a@.contains(a[i as int]));
            assert(a@.to_set().contains(a[i as int]));
            return false;
        }
        i += 1;
    }
    assert forall|x: i32| a@.to_set().contains(x) implies b@.to_set().contains(x) by {
        let j = choose|j: int| 0 <= j < a.len() && a[j] == x;
        assert(b@.contains(a[j]));
    }
    true
}

/// Whether two lists have the same members, whatever their order and
/// however often a member occurs.
pub fn same_members(a: &Vec<i32>, b: &Vec<i32>) -> (r: bool)
    ensures
        r == (a@.to_set() =~= b@.to_set()),
{
    included(a, b) && included(b, a)
}

/// Whether no id occurs twice in `ids`.
pub fn all_distinct(ids: &Vec<i32>) -> (r: bool)
    ensures
        r == ids@.no_duplicates(),
{
    let mut i: usize = 0;
    while i < ids.len()
        invariant
            i <= ids.len(),
            forall|a: int, b: int| 0 <= a < b < ids.len() && a < i ==> ids[a] != ids[b],
        decreases ids.len() - i,
    {
        let mut j: usize = i + 1;
        while j < ids.len()
            invariant
                i < j <= ids.len(),
                forall|b: int| i < b < j ==> ids[i as int] != ids[b],
            decreases ids.len() - j,
        {
            if ids[i] == ids[j] {
                return false;
            }
            j += 1;
        }
        i += 1;
    }
    true
}

} // verus!
