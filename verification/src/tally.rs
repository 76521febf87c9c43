//! The "unique strict maximum or none" reduction.
//!
//! This is a general rule over counts, not a voting-specific one: given
//! a list of counts it selects the position holding the single largest
//! count, and selects nothing when two or more positions tie for the
//! maximum (or when the list is empty).

use vstd::prelude::*;

verus! {

/// Position `i` holds a strictly larger count than every other position.
pub open spec fn is_unique_max(counts: Seq<usize>, i: int) -> bool {
    &&& 0 <= i < counts.len()
    &&& forall|j: int| 0 <= j < counts.len() && j != i ==> counts[j] < counts[i]
}

/// The index of the unique strict maximum of `counts`, or `None` when
/// the maximum is shared (or the list is empty).
pub fn only_max_index(counts: &Vec<usize>) -> (r: Option<usize>)
    ensures
        match r {
            Some(i) => is_unique_max(counts@, i as int),
            None => forall|i: int| !is_unique_max(counts@, i),
        },
{
    if counts.len() == 0 {
        return None;
    }
    let mut max_i: usize = 0;
    let mut is_only: bool = true;
    let mut k: usize = 1;
    while k < counts.len()
        invariant
            1 <= k <= counts@.len(),
            0 <= max_i < k,
            forall|j: int| 0 <= j < k ==> counts@[j] <= counts@[max_i as int],
            is_only <==> (forall|j: int|
                0 <= j < k && j != max_i ==> counts@[j] < counts@[max_i as int]),
        decreases counts@.len() - k,
    {
        if counts[k] > counts[max_i] {
            max_i = k;
            is_only = true;
        } else if counts[k] == counts[max_i] {
            is_only = false;
        }
        k += 1;
    }
    if is_only {
        Some(max_i)
    } else {
        proof {
            assert forall|i: int| !is_unique_max(counts@, i) by {
                if 0 <= i < counts@.len() {
                    let w = choose|j: int|
                        0 <= j < counts@.len() && j != max_i && counts@[j]
                            >= counts@[max_i as int];
                    if i == max_i {
                        assert(!(counts@[w] < counts@[i]));
                    } else {
                        assert(!(counts@[max_i as int] < counts@[i]));
                    }
                }
            }
        }
        None
    }
}

} // verus!
