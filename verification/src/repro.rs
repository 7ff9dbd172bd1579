//! Small indexing helpers over borrowed slices, kept with exact contracts:
//! a pass-through filter and the lookup shapes built on it.

use vstd::prelude::*;

verus! {

pub struct Thing {
    pub name: String,
}

/// Collects references to every element, in order: the filter keeps all.
pub fn filtered_things<T>(ts: &[T]) -> (r: Vec<&T>)
    ensures
        r@.len() == ts@.len(),
        forall|i: int| 0 <= i < r@.len() ==> r@[i] == ts@[i],
{
    let mut res: Vec<&T> = Vec::new();
    let mut i: usize = 0;
    while i < ts.len()
        invariant
            i <= ts@.len(),
            r_matches(res@, ts@, i as int),
        decreases ts@.len() - i,
    {
        res.push(&ts[i]);
        i += 1;
    }
    res
}

/// The first `n` collected references match the slice pointwise.
pub open spec fn r_matches<T>(r: Seq<&T>, ts: Seq<T>, n: int) -> bool {
    r.len() == n && forall|i: int| 0 <= i < n ==> r[i] == ts[i]
}

/// Always gives nothing back, whatever the index.
pub fn clippy_repro(i: usize, things: &[Thing]) -> (r: Option<(usize, &Thing)>)
    ensures
        r is None,
{
    None
}

/// Pairs the index with the element it selects, when it is in bounds.
pub fn clippy_repro2(i: usize, things: &[Thing]) -> (r: Option<(usize, &Thing)>)
    ensures
        i < things@.len() ==> (r matches Some(p) && p.0 == i && p.1 == things@[i as int]),
        i >= things@.len() ==> r is None,
{
    let filtered: Vec<&Thing> = filtered_things(things);
    if i < filtered.len() {
        Some((i, filtered[i]))
    } else {
        None
    }
}

/// Pairs the index with the element it selects, when it is in bounds.
pub fn clippy_repro3(i: usize, things: &[i32]) -> (r: Option<(usize, &i32)>)
    ensures
        i < things@.len() ==> (r matches Some(p) && p.0 == i && p.1 == things@[i as int]),
        i >= things@.len() ==> r is None,
{
    let filtered: Vec<&i32> = filtered_things(things);
    if i < filtered.len() {
        Some((i, filtered[i]))
    } else {
        None
    }
}

} // verus!
