//! Small helpers on vectors of scalars, shared by the storage variants.

use crate::algebra::{seq_add, seq_sub, zeros};
use crate::base_float::BaseFloat;
use vstd::prelude::*;

verus! {

/// A vector of `len` zeros.
pub fn vec_zeros<T: BaseFloat>(len: usize) -> (v: Vec<T>)
    ensures
        v@ == zeros::<T>(len as int),
{
    let mut v: Vec<T> = Vec::new();
    let mut k: usize = 0;
    while k < len
        invariant
            0 <= k <= len,
            v.len() == k,
            forall|q: int| 0 <= q < k ==> #[trigger] v@[q] == T::zero_value(),
        decreases len - k,
    {
        v.push(T::zero());
        k += 1;
    }
    assert(v@ =~= zeros::<T>(len as int));
    v
}

/// A vector with the same entries in storage of its own.
pub fn copied<T: Copy>(v: &Vec<T>) -> (copy: Vec<T>)
    ensures
        copy@ == v@,
{
    let mut copy: Vec<T> = Vec::new();
    let mut k: usize = 0;
    while k < v.len()
        invariant
            0 <= k <= v.len(),
            copy.len() == k,
            forall|q: int| 0 <= q < k ==> #[trigger] copy@[q] == v@[q],
        decreases v.len() - k,
    {
        copy.push(v[k]);
        k += 1;
    }
    assert(copy@ =~= v@);
    copy
}

/// The sums of the entries of `a` and `b`, entry by entry.
pub fn add_entries<T: BaseFloat>(a: &Vec<T>, b: &Vec<T>) -> (sum: Vec<T>)
    requires
        a.len() == b.len(),
    ensures
        sum@ == seq_add(a@, b@),
{
    let mut sum: Vec<T> = Vec::new();
    let mut k: usize = 0;
    while k < a.len()
        invariant
            0 <= k <= a.len(),
            a.len() == b.len(),
            sum.len() == k,
            forall|q: int| 0 <= q < k ==> #[trigger] sum@[q] == a@[q].plus(b@[q]),
        decreases a.len() - k,
    {
        sum.push(a[k].add(b[k]));
        k += 1;
    }
    assert(sum@ =~= seq_add(a@, b@));
    sum
}

/// The differences of the entries of `a` and `b`, entry by entry.
pub fn sub_entries<T: BaseFloat>(a: &Vec<T>, b: &Vec<T>) -> (difference: Vec<T>)
    requires
        a.len() == b.len(),
    ensures
        difference@ == seq_sub(a@, b@),
{
    let mut difference: Vec<T> = Vec::new();
    let mut k: usize = 0;
    while k < a.len()
        invariant
            0 <= k <= a.len(),
            a.len() == b.len(),
            difference.len() == k,
            forall|q: int| 0 <= q < k ==> #[trigger] difference@[q] == a@[q].minus(b@[q]),
        decreases a.len() - k,
    {
        difference.push(a[k].sub(b[k]));
        k += 1;
    }
    assert(difference@ =~= seq_sub(a@, b@));
    difference
}

/// Adds the entries of `b` to those of `a`, entry by entry.
pub fn add_entries_assign<T: BaseFloat>(a: &mut Vec<T>, b: &Vec<T>)
    requires
        old(a).len() == b.len(),
    ensures
        final(a)@ == seq_add(old(a)@, b@),
{
    let ghost before = a@;
    let len = a.len();
    let mut k: usize = 0;
    while k < len
        invariant
            0 <= k <= len,
            len == b.len(),
            a.len() == len,
            before.len() == len,
            forall|q: int| 0 <= q < k ==> #[trigger] a@[q] == before[q].plus(b@[q]),
            forall|q: int| k <= q < len ==> #[trigger] a@[q] == before[q],
        decreases len - k,
    {
        let sum = a[k].add(b[k]);
        a.set(k, sum);
        k += 1;
    }
    assert(a@ =~= seq_add(before, b@));
}

/// Subtracts the entries of `b` from those of `a`, entry by entry.
pub fn sub_entries_assign<T: BaseFloat>(a: &mut Vec<T>, b: &Vec<T>)
    requires
        old(a).len() == b.len(),
    ensures
        final(a)@ == seq_sub(old(a)@, b@),
{
    let ghost before = a@;
    let len = a.len();
    let mut k: usize = 0;
    while k < len
        invariant
            0 <= k <= len,
            len == b.len(),
            a.len() == len,
            before.len() == len,
            forall|q: int| 0 <= q < k ==> #[trigger] a@[q] == before[q].minus(b@[q]),
            forall|q: int| k <= q < len ==> #[trigger] a@[q] == before[q],
        decreases len - k,
    {
        let difference = a[k].sub(b[k]);
        a.set(k, difference);
        k += 1;
    }
    assert(a@ =~= seq_sub(before, b@));
}

} // verus!
