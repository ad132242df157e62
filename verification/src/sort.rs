//! Sorting of numbered items by a key.

use vstd::prelude::*;
use vstd::seq_lib::lemma_multiset_commutative;
use crate::scalar::Scalar;

verus! {

/// An item's number together with the key by which it is ordered.
#[derive(Clone, Copy, Debug, PartialEq, Eq, Structural)]
pub struct Keyed {
    pub key: Scalar,
    pub id: usize,
}

/// No key is a NaN.
pub open spec fn comparable(s: Seq<Keyed>) -> bool {
    forall|i: int| 0 <= i < s.len() ==> !(#[trigger] s[i]).key.is_nan_spec()
}

/// The keys never fall from one item to a later one.
pub open spec fn ordered(s: Seq<Keyed>) -> bool {
    forall|i: int, j: int| 0 <= i < j < s.len() ==> (#[trigger] s[i]).key.le_spec((#[trigger] s[j]).key)
}

/// Merges two ordered sequences into one. Of two items with equal keys the
/// one from `left` comes first.
fn merge(left: &Vec<Keyed>, right: &Vec<Keyed>) -> (out: Vec<Keyed>)
    requires
        comparable(left@),
        comparable(right@),
        ordered(left@),
        ordered(right@),
    ensures
        comparable(out@),
        ordered(out@),
        out@.to_multiset() =~= left@.to_multiset().add(right@.to_multiset()),
        out@.len() == left@.len() + right@.len(),
{
    let mut out: Vec<Keyed> = Vec::new();
    let mut i: usize = 0;
    let mut j: usize = 0;
    proof {
        assert(left@.take(0) =~= Seq::<Keyed>::empty());
        assert(right@.take(0) =~= Seq::<Keyed>::empty());
        assert(out@ =~= Seq::<Keyed>::empty());
        Seq::<Keyed>::empty().to_multiset_ensures();
        vstd::multiset::lemma_multiset_empty_len(Seq::<Keyed>::empty().to_multiset());
        assert(out@.to_multiset() =~= left@.take(0).to_multiset().add(
            right@.take(0).to_multiset(),
        ));
    }
    while i < left.len() || j < right.len()
        invariant
            i <= left.len(),
            j <= right.len(),
            comparable(left@),
            comparable(right@),
            ordered(left@),
            ordered(right@),
            comparable(out@),
            ordered(out@),
            out@.len() == i + j,
            out@.to_multiset() =~= left@.take(i as int).to_multiset().add(
                right@.take(j as int).to_multiset(),
            ),
            forall|k: int, m: int|
                0 <= k < out@.len() && i <= m < left@.len() ==> (#[trigger] out@[k]).key.le_spec(
                    (#[trigger] left@[m]).key,
                ),
            forall|k: int, m: int|
                0 <= k < out@.len() && j <= m < right@.len() ==> (#[trigger] out@[k]).key.le_spec(
                    (#[trigger] right@[m]).key,
                ),
        decreases left.len() - i + right.len() - j,
    {
        let ghost before = out@;
        let take_left = if j >= right.len() {
            true
        } else if i >= left.len() {
            false
        } else {
            !right[j].key.lt(left[i].key)
        };
        if take_left {
            let item = left[i];
            out.push(item);
            proof {
                assert(left@.take(i + 1) =~= left@.take(i as int).push(item));
                vstd::seq_lib::to_multiset_build(left@.take(i as int), item);
                vstd::seq_lib::to_multiset_build(before, item);
                assert forall|k: int, m: int|
                    0 <= k < out@.len() && i + 1 <= m < left@.len() implies (#[trigger] out@[k]).key.le_spec(
                    (#[trigger] left@[m]).key,
                ) by {
                    if k == before.len() {
                        assert(left@[i as int].key.le_spec(left@[m].key));
                    }
                }
                assert forall|k: int, m: int|
                    0 <= k < out@.len() && j <= m < right@.len() implies (#[trigger] out@[k]).key.le_spec(
                    (#[trigger] right@[m]).key,
                ) by {
                    if k == before.len() {
                        assert(!right@[j as int].key.lt_spec(item.key));
                        assert(!right@[j as int].key.is_nan_spec());
                        assert(!right@[m].key.is_nan_spec());
                        if j < m {
                            assert(right@[j as int].key.le_spec(right@[m].key));
                        }
                    }
                }
                assert forall|a: int, b: int| 0 <= a < b < out@.len() implies (#[trigger] out@[a]).key.le_spec(
                    (#[trigger] out@[b]).key,
                ) by {
                    if b == before.len() {
                        assert(before[a].key.le_spec(left@[i as int].key));
                    }
                }
            }
            i = i + 1;
        } else {
            let item = right[j];
            out.push(item);
            proof {
                assert(right@.take(j + 1) =~= right@.take(j as int).push(item));
                vstd::seq_lib::to_multiset_build(right@.take(j as int), item);
                vstd::seq_lib::to_multiset_build(before, item);
                assert forall|k: int, m: int|
                    0 <= k < out@.len() && j + 1 <= m < right@.len() implies (#[trigger] out@[k]).key.le_spec(
                    (#[trigger] right@[m]).key,
                ) by {
                    if k == before.len() {
                        assert(right@[j as int].key.le_spec(right@[m].key));
                    }
                }
                assert forall|k: int, m: int|
                    0 <= k < out@.len() && i <= m < left@.len() implies (#[trigger] out@[k]).key.le_spec(
                    (#[trigger] left@[m]).key,
                ) by {
                    if k == before.len() {
                        assert(item.key.lt_spec(left@[i as int].key));
                        assert(!left@[m].key.is_nan_spec());
                        if i < m {
                            assert(left@[i as int].key.le_spec(left@[m].key));
                        }
                    }
                }
                assert forall|a: int, b: int| 0 <= a < b < out@.len() implies (#[trigger] out@[a]).key.le_spec(
                    (#[trigger] out@[b]).key,
                ) by {
                    if b == before.len() {
                        assert(before[a].key.le_spec(right@[j as int].key));
                    }
                }
            }
            j = j + 1;
        }
    }
    proof {
        assert(left@.take(i as int) =~= left@);
        assert(right@.take(j as int) =~= right@);
    }
    out
}

/// Sorts items by their keys, smallest first: what comes back holds the
/// items that went in, each as often as it went in, with keys that never
/// fall.
pub fn sort(items: Vec<Keyed>) -> (out: Vec<Keyed>)
    requires
        comparable(items@),
    ensures
        comparable(out@),
        ordered(out@),
        out@.to_multiset() =~= items@.to_multiset(),
        out@.len() == items@.len(),
    decreases items@.len(),
{
    let n = items.len();
    if n <= 1 {
        return items;
    }
    let mid = n / 2;
    let mut left = items;
    let ghost whole = left@;
    let right = left.split_off(mid);
    proof {
        assert(whole =~= left@ + right@);
        lemma_multiset_commutative(left@, right@);
        assert(comparable(left@)) by {
            assert forall|i: int| 0 <= i < left@.len() implies !(#[trigger] left@[i]).key.is_nan_spec() by {
                assert(left@[i] == whole[i]);
            }
        }
        assert(comparable(right@)) by {
            assert forall|i: int| 0 <= i < right@.len() implies !(#[trigger] right@[i]).key.is_nan_spec() by {
                assert(right@[i] == whole[i + mid]);
            }
        }
    }
    let left_sorted = sort(left);
    let right_sorted = sort(right);
    merge(&left_sorted, &right_sorted)
}

} // verus!
