//! The cross-check between backends: pointwise equality of two result
//! sequences of equal length, with the index of the first difference for
//! diagnostics.

use vstd::prelude::*;

verus! {

/// The index of the first pointwise difference between two equal-length
/// result sequences, or `None` when they agree everywhere.
pub fn first_mismatch(a: &Vec<u128>, b: &Vec<u128>) -> (r: Option<usize>)
    requires
        a@.len() == b@.len(),
    ensures
        match r {
            None => forall|i: int| 0 <= i < a@.len() ==> a@[i] == b@[i],
            Some(i) => i < a@.len() && a@[i as int] != b@[i as int] && forall|j: int|
                0 <= j < i ==> a@[j] == b@[j],
        },
{
    let mut i: usize = 0;
    while i < a.len()
        invariant
            i <= a@.len(),
            a@.len() == b@.len(),
            forall|j: int| 0 <= j < i ==> a@[j] == b@[j],
        decreases a@.len() - i,
    {
        if a[i] != b[i] {
            return Some(i);
        }
        i = i + 1;
    }
    None
}

/// Whether two equal-length result sequences agree at every index: the
/// cross-check that decides the benchmark's go/no-go signal.
pub fn sequences_equal(a: &Vec<u128>, b: &Vec<u128>) -> (r: bool)
    requires
        a@.len() == b@.len(),
    ensures
        r <==> forall|i: int| 0 <= i < a@.len() ==> a@[i] == b@[i],
{
    match first_mismatch(a, b) {
        None => true,
        Some(_) => false,
    }
}

} // verus!
