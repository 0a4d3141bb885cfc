//! Bubble sort of a slice of integers, in place.

use vstd::prelude::*;

verus! {

broadcast use vstd::multiset::group_multiset_axioms, vstd::seq_lib::group_to_multiset_ensures;

/// The values are in ascending order.
pub open spec fn sorted(s: Seq<i32>) -> bool {
    forall|a: int, b: int| 0 <= a <= b < s.len() ==> s[a] <= s[b]
}

/// Sorts `array` in ascending order by repeatedly swapping adjacent values
/// that are out of order.
pub fn sort(array: &mut [i32])
    ensures
        sorted(final(array)@),
        final(array)@.to_multiset() == old(array)@.to_multiset(),
{
    let len: usize = array.len();
    let mut i: usize = 0;
    while i < len
        invariant
            len == array@.len(),
            i <= len,
            array@.to_multiset() == old(array)@.to_multiset(),
            // the last i places hold the largest values, in order
            forall|a: int, b: int| len - i <= a <= b < len ==> array@[a] <= array@[b],
            forall|a: int, b: int| 0 <= a < len - i <= b < len ==> array@[a] <= array@[b],
        decreases len - i,
    {
        let mut j: usize = 0;
        while j < len - 1 - i
            invariant
                len == array@.len(),
                i < len,
                j <= len - 1 - i,
                array@.to_multiset() == old(array)@.to_multiset(),
                forall|a: int, b: int| len - i <= a <= b < len ==> array@[a] <= array@[b],
                forall|a: int, b: int| 0 <= a < len - i <= b < len ==> array@[a] <= array@[b],
                // the value at j is the largest of the first j + 1
                forall|a: int| 0 <= a <= j ==> array@[a] <= array@[j as int],
            decreases len - 1 - i - j,
        {
            if array[j] > array[j + 1] {
                let ghost s = array@;
                let tmp: i32 = array[j];
                array[j] = array[j + 1];
                array[j + 1] = tmp;
                proof {
                    let s1 = s.update(j as int, s[j as int + 1]);
                    assert(array@ == s1.update(j as int + 1, s[j as int]));
                    assert(s1.to_multiset() == s.to_multiset().insert(s[j as int + 1]).remove(s[j as int]));
                    assert(array@.to_multiset() == s1.to_multiset().insert(s[j as int]).remove(s1[j as int + 1]));
                    assert(array@.to_multiset() =~= s.to_multiset());
                }
            }
            j = j + 1;
        }
        i = i + 1;
    }
}

} // verus!
