//! Looking a file up in a directory and its ancestors.
use vstd::prelude::*;

verus! {

/// Given, for the start directory and then each of its ancestors in turn,
/// whether the file stands there, the index of the directory where the
/// search finds it: the nearest one, or none.
pub fn find_up(exists: &Vec<bool>) -> (r: Option<usize>)
    ensures
        match r {
            Some(i) => i < exists@.len() && exists@[i as int]
                && forall|j: int| 0 <= j < i ==> !exists@[j],
            None => forall|j: int| 0 <= j < exists@.len() ==> !exists@[j],
        },
{
    let mut i: usize = 0;
    while i < exists.len()
        invariant
            i <= exists@.len(),
            forall|j: int| 0 <= j < i ==> !exists@[j],
        decreases exists.len() - i,
    {
        if exists[i] {
            return Some(i);
        }
        i = i + 1;
    }
    None
}

} // verus!
