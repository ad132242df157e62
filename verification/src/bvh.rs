//! The bounding volume hierarchy: a binary tree of boxes over the objects of
//! a list.
//!
//! An object is known to the tree by its number, its place in the list, and
//! by two boxes: the box that bounds it for as long as the shutter is open,
//! from which the boxes of the nodes are made, and the box that bounds it at
//! the moment the shutter opens, by which the objects are ordered. For an
//! object at rest the two are one.

use vstd::prelude::*;
use crate::aabb::AABB;
use crate::sort::{sort, Keyed};
use crate::util::random;
use crate::vec3::Axis;

verus! {

/// What hangs below a node: an object of the list, or another node.
#[derive(Debug)]
pub enum Child {
    Object(usize),
    Node(Box<BVHNode>),
}

/// A node of the hierarchy. Its box is the union of the boxes of its two
/// children.
#[derive(Debug)]
pub struct BVHNode {
    pub left: Child,
    pub right: Child,
    pub bbox: AABB,
}

/// The numbers of the items of a sequence.
pub open spec fn ids_of(items: Seq<Keyed>) -> Set<int> {
    Set::new(|i: int| exists|k: int| 0 <= k < items.len() && (#[trigger] items[k]).id == i)
}

/// No two items have the same number.
pub open spec fn distinct_ids(items: Seq<Keyed>) -> bool {
    forall|a: int, b: int|
        0 <= a < b < items.len() ==> (#[trigger] items[a]).id != (#[trigger] items[b]).id
}

/// Along `axis`, no box of the objects `low` begins after a box of the
/// objects `high`.
pub open spec fn parted(order: Seq<AABB>, low: Set<int>, high: Set<int>, axis: Axis) -> bool {
    forall|i: int, j: int|
        #![trigger low.contains(i), high.contains(j)]
        low.contains(i) && high.contains(j) ==> order[i].min.axis_spec(axis).le_spec(
            order[j].min.axis_spec(axis),
        )
}

impl Child {
    /// The objects below.
    pub open spec fn objects(self) -> Set<int>
        decreases self,
    {
        match self {
            Child::Object(i) => set![i as int],
            Child::Node(node) => node.objects(),
        }
    }

    /// How many objects the child was built over.
    pub open spec fn count(self) -> nat
        decreases self,
    {
        match self {
            Child::Object(_) => 1,
            Child::Node(node) => node.count(),
        }
    }

    /// The child's box: the object's own, or the node's.
    pub open spec fn bounds(self, boxes: Seq<AABB>) -> AABB {
        match self {
            Child::Object(i) => boxes[i as int],
            Child::Node(node) => node.bbox,
        }
    }

    pub open spec fn wf(self, boxes: Seq<AABB>) -> bool
        decreases self,
    {
        match self {
            Child::Object(i) => i < boxes.len(),
            Child::Node(node) => node.wf(boxes),
        }
    }

    pub open spec fn median_split(self, order: Seq<AABB>) -> bool
        decreases self,
    {
        match self {
            Child::Object(_) => true,
            Child::Node(node) => node.median_split(order),
        }
    }
}

impl BVHNode {
    /// The objects below the node.
    pub open spec fn objects(self) -> Set<int>
        decreases self,
    {
        self.left.objects().union(self.right.objects())
    }

    /// How many objects the node was built over. A node whose two children
    /// are one and the same object stands for a list of one.
    pub open spec fn count(self) -> nat
        decreases self,
    {
        match (self.left, self.right) {
            (Child::Object(a), Child::Object(b)) => if a == b {
                1
            } else {
                2
            },
            _ => self.left.count() + self.right.count(),
        }
    }

    /// Every object below is one of the list, and every node's box is the
    /// union of the boxes of its children.
    pub open spec fn wf(self, boxes: Seq<AABB>) -> bool
        decreases self,
    {
        &&& self.left.wf(boxes)
        &&& self.right.wf(boxes)
        &&& self.bbox == AABB::union_spec(self.left.bounds(boxes), self.right.bounds(boxes))
    }

    /// The shape that construction gives, for objects that are ordered by
    /// the boxes `order`: a node over one object has it for both children; a
    /// node over two has them as children, the one whose box begins first
    /// along some axis on the left; a node over more has two nodes as
    /// children, the left over the half (rounded down) of the objects whose
    /// boxes begin first along some axis, the right over the others.
    pub open spec fn median_split(self, order: Seq<AABB>) -> bool
        decreases self,
    {
        match (self.left, self.right) {
            (Child::Object(a), Child::Object(b)) => a == b || exists|axis: Axis|
                #[trigger] parted(order, set![a as int], set![b as int], axis),
            (Child::Node(l), Child::Node(r)) => {
                &&& l.median_split(order)
                &&& r.median_split(order)
                &&& l.count() + r.count() >= 3
                &&& l.count() == (l.count() + r.count()) / 2
                &&& exists|axis: Axis| #[trigger] parted(order, l.objects(), r.objects(), axis)
            },
            _ => false,
        }
    }

    /// The node's box.
    pub fn bounding_box(&self) -> (b: AABB)
        ensures
            b == self.bbox,
    {
        self.bbox
    }

    /// Builds the hierarchy over a list of objects with the bounding boxes
    /// `boxes`, ordered by the boxes `order`.
    pub fn new(boxes: &Vec<AABB>, order: &Vec<AABB>) -> (node: BVHNode)
        requires
            boxes@.len() >= 1,
            order@.len() == boxes@.len(),
            forall|i: int| 0 <= i < order@.len() ==> !(#[trigger] order@[i]).min.is_nan_spec(),
        ensures
            node.wf(boxes@),
            node.objects() =~= Set::new(|i: int| 0 <= i < boxes@.len()),
            node.count() == boxes@.len(),
            node.median_split(order@),
    {
        Self::new_slice(boxes.as_slice(), order.as_slice())
    }

    /// Builds the hierarchy over objects with the bounding boxes `boxes`,
    /// ordered by the boxes `order`.
    ///
    /// One object gives a node with the object for both children. Two give a
    /// node with the two as children. More are sorted by where their boxes
    /// of `order` begin along an axis picked at random, and the lower and the
    /// upper half each get a node of their own. The box of a node is the
    /// union of its children's boxes, an object's being its box of `boxes`.
    pub fn new_slice(boxes: &[AABB], order: &[AABB]) -> (node: BVHNode)
        requires
            boxes@.len() >= 1,
            order@.len() == boxes@.len(),
            forall|i: int| 0 <= i < order@.len() ==> !(#[trigger] order@[i]).min.is_nan_spec(),
        ensures
            node.wf(boxes@),
            node.objects() =~= Set::new(|i: int| 0 <= i < boxes@.len()),
            node.count() == boxes@.len(),
            node.median_split(order@),
    {
        let mut items: Vec<Keyed> = Vec::new();
        let mut i: usize = 0;
        while i < boxes.len()
            invariant
                i <= boxes.len(),
                items@.len() == i,
                forall|k: int| 0 <= k < i ==> (#[trigger] items@[k]).id == k,
            decreases boxes.len() - i,
        {
            items.push(Keyed { key: crate::scalar::Scalar { bits: 0 }, id: i });
            i = i + 1;
        }
        let node = build(boxes, order, items);
        proof {
            assert forall|i: int| 0 <= i < boxes@.len() implies ids_of(items@).contains(i) by {
                assert(items@[i].id == i);
            }
        }
        node
    }
}

/// Gives every item the key of its object: where the object's box of `order` begins
/// along `axis`.
fn rekey(order: &[AABB], items: &mut Vec<Keyed>, axis: Axis)
    requires
        forall|k: int| 0 <= k < old(items)@.len() ==> (#[trigger] old(items)@[k]).id < order@.len(),
    ensures
        final(items)@.len() == old(items)@.len(),
        forall|k: int|
            0 <= k < old(items)@.len() ==> #[trigger] final(items)@[k] == (Keyed {
                key: order@[old(items)@[k].id as int].min.axis_spec(axis),
                id: old(items)@[k].id,
            }),
{
    let mut k: usize = 0;
    while k < items.len()
        invariant
            k <= items@.len(),
            items@.len() == old(items)@.len(),
            forall|m: int|
                0 <= m < old(items)@.len() ==> (#[trigger] old(items)@[m]).id < order@.len(),
            forall|m: int| k <= m < items@.len() ==> #[trigger] items@[m] == old(items)@[m],
            forall|m: int|
                0 <= m < k ==> #[trigger] items@[m] == (Keyed {
                    key: order@[old(items)@[m].id as int].min.axis_spec(axis),
                    id: old(items)@[m].id,
                }),
        decreases items@.len() - k,
    {
        let id = items[k].id;
        assert(old(items)@[k as int].id < order@.len());
        let key = order[id].min_along(axis);
        items.set(k, Keyed { key, id });
        k = k + 1;
    }
}

/// The child that stands for one item.
fn leaf(boxes: &[AABB], item: Keyed) -> (pair: (Child, AABB))
    requires
        item.id < boxes@.len(),
    ensures
        pair.0 == Child::Object(item.id),
        pair.1 == boxes@[item.id as int],
{
    (Child::Object(item.id), boxes[item.id])
}

/// One of the three axes, picked at random.
fn random_axis() -> (axis: Axis) {
    match Axis::from_index(random::uint(0, 2)) {
        Some(axis) => axis,
        None => Axis::X,
    }
}

/// Builds the node over the objects that `items` number.
fn build(boxes: &[AABB], order: &[AABB], items: Vec<Keyed>) -> (node: BVHNode)
    requires
        items@.len() >= 1,
        distinct_ids(items@),
        order@.len() == boxes@.len(),
        forall|k: int| 0 <= k < items@.len() ==> (#[trigger] items@[k]).id < boxes@.len(),
        forall|i: int| 0 <= i < order@.len() ==> !(#[trigger] order@[i]).min.is_nan_spec(),
    ensures
        node.wf(boxes@),
        node.objects() =~= ids_of(items@),
        node.count() == items@.len(),
        node.median_split(order@),
    decreases items@.len(),
{
    let n = items.len();
    if n == 1 {
        let (left, box_left) = leaf(boxes, items[0]);
        let (right, box_right) = leaf(boxes, items[0]);
        let node = BVHNode { left, right, bbox: AABB::surrounding_box(box_left, box_right) };
        proof {
            assert(ids_of(items@).contains(items@[0].id as int));
            assert(node.objects() =~= ids_of(items@));
        }
        return node;
    }
    let axis = random_axis();
    let mut items = items;
    let ghost unkeyed = items@;
    rekey(order, &mut items, axis);
    let ghost keyed = items@;
    proof {
        assert forall|k: int| 0 <= k < keyed.len() implies !(#[trigger] keyed[k]).key.is_nan_spec() by {
            assert(!order@[unkeyed[k].id as int].min.is_nan_spec());
        }
    }
    let mut sorted = sort(items);
    proof {
        same_items(keyed, sorted@);
        assert(ids_of(unkeyed) =~= ids_of(keyed)) by {
            assert forall|i: int| ids_of(unkeyed).contains(i) implies ids_of(keyed).contains(i) by {
                let k = choose|k: int| 0 <= k < unkeyed.len() && (#[trigger] unkeyed[k]).id == i;
                assert(keyed[k].id == i);
            }
            assert forall|i: int| ids_of(keyed).contains(i) implies ids_of(unkeyed).contains(i) by {
                let k = choose|k: int| 0 <= k < keyed.len() && (#[trigger] keyed[k]).id == i;
                assert(unkeyed[k].id == i);
            }
        }
        assert(keyed.no_duplicates()) by {
            assert forall|a: int, b: int| 0 <= a < keyed.len() && 0 <= b < keyed.len() && a != b implies keyed[a] != keyed[b] by {
                if a < b {
                    assert(unkeyed[a].id != unkeyed[b].id);
                } else {
                    assert(unkeyed[b].id != unkeyed[a].id);
                }
                assert(keyed[a].id == unkeyed[a].id);
                assert(keyed[b].id == unkeyed[b].id);
            }
        }
        keeps_distinct(keyed, sorted@);
        assert forall|k: int| 0 <= k < sorted@.len() implies (#[trigger] sorted@[k]).id < boxes@.len()
            && sorted@[k].key == order@[sorted@[k].id as int].min.axis_spec(axis) by {
            assert(keyed.contains(sorted@[k]));
            let m = choose|m: int| 0 <= m < keyed.len() && keyed[m] == sorted@[k];
            assert(keyed[m].id == unkeyed[m].id);
        }
        assert(distinct_ids(sorted@)) by {
            assert forall|a: int, b: int| 0 <= a < b < sorted@.len() implies (#[trigger] sorted@[a]).id != (#[trigger] sorted@[b]).id by {
                if sorted@[a].id == sorted@[b].id {
                    assert(sorted@[a] == sorted@[b]);
                }
            }
        }
    }
    if n == 2 {
        let (left, box_left) = leaf(boxes, sorted[0]);
        let (right, box_right) = leaf(boxes, sorted[1]);
        let node = BVHNode { left, right, bbox: AABB::surrounding_box(box_left, box_right) };
        proof {
            let a = sorted@[0].id;
            let b = sorted@[1].id;
            assert(a != b);
            assert(sorted@[0].key.le_spec(sorted@[1].key));
            assert(parted(order@, set![a as int], set![b as int], axis));
            assert(node.objects() =~= ids_of(sorted@)) by {
                assert forall|i: int| ids_of(sorted@).contains(i) implies node.objects().contains(i) by {
                    let k = choose|k: int| 0 <= k < sorted@.len() && (#[trigger] sorted@[k]).id == i;
                    assert(k == 0 || k == 1);
                }
                assert(sorted@[0].id == a);
                assert(sorted@[1].id == b);
            }
        }
        return node;
    }
    let mid = n / 2;
    let ghost whole = sorted@;
    let upper = sorted.split_off(mid);
    let lower = sorted;
    proof {
        assert(whole =~= lower@ + upper@);
        assert forall|k: int| 0 <= k < lower@.len() implies #[trigger] lower@[k] == whole[k] by {}
        assert forall|k: int| 0 <= k < upper@.len() implies #[trigger] upper@[k] == whole[k + mid] by {}
        assert(distinct_ids(lower@)) by {
            assert forall|a: int, b: int| 0 <= a < b < lower@.len() implies (#[trigger] lower@[a]).id != (#[trigger] lower@[b]).id by {
                assert(whole[a].id != whole[b].id);
            }
        }
        assert(distinct_ids(upper@)) by {
            assert forall|a: int, b: int| 0 <= a < b < upper@.len() implies (#[trigger] upper@[a]).id != (#[trigger] upper@[b]).id by {
                assert(whole[a + mid].id != whole[b + mid].id);
            }
        }
        assert forall|k: int| 0 <= k < lower@.len() implies (#[trigger] lower@[k]).id < boxes@.len() by {
            assert(whole[k].id < boxes@.len());
        }
        assert forall|k: int| 0 <= k < upper@.len() implies (#[trigger] upper@[k]).id < boxes@.len() by {
            assert(whole[k + mid].id < boxes@.len());
        }
    }
    let l = build(boxes, order, lower);
    let r = build(boxes, order, upper);
    let bbox = AABB::surrounding_box(l.bbox, r.bbox);
    let node = BVHNode { left: Child::Node(Box::new(l)), right: Child::Node(Box::new(r)), bbox };
    proof {
        assert(node.objects() =~= ids_of(whole)) by {
            assert forall|i: int| ids_of(whole).contains(i) implies node.objects().contains(i) by {
                let k = choose|k: int| 0 <= k < whole.len() && (#[trigger] whole[k]).id == i;
                if k < mid {
                    assert(lower@[k].id == i);
                } else {
                    assert(upper@[k - mid].id == i);
                }
            }
            assert forall|i: int| node.objects().contains(i) implies ids_of(whole).contains(i) by {
                if ids_of(lower@).contains(i) {
                    let k = choose|k: int| 0 <= k < lower@.len() && (#[trigger] lower@[k]).id == i;
                    assert(whole[k].id == i);
                } else {
                    let k = choose|k: int| 0 <= k < upper@.len() && (#[trigger] upper@[k]).id == i;
                    assert(whole[k + mid].id == i);
                }
            }
        }
        assert(parted(order@, l.objects(), r.objects(), axis)) by {
            assert forall|i: int, j: int| l.objects().contains(i) && r.objects().contains(j) implies order@[i].min.axis_spec(axis).le_spec(
                order@[j].min.axis_spec(axis),
            ) by {
                let a = choose|k: int| 0 <= k < lower@.len() && (#[trigger] lower@[k]).id == i;
                let b = choose|k: int| 0 <= k < upper@.len() && (#[trigger] upper@[k]).id == j;
                assert(whole[a].key.le_spec(whole[b + mid].key));
                assert(whole[a].id == i);
                assert(whole[b + mid].id == j);
            }
        }
        assert(node.count() == l.count() + r.count());
    }
    node
}

/// Sorting keeps the items: each item of the one sequence is an item of the
/// other.
proof fn same_items(before: Seq<Keyed>, after: Seq<Keyed>)
    requires
        before.to_multiset() =~= after.to_multiset(),
    ensures
        forall|k: int| 0 <= k < after.len() ==> before.contains(#[trigger] after[k]),
        forall|k: int| 0 <= k < before.len() ==> after.contains(#[trigger] before[k]),
        ids_of(before) =~= ids_of(after),
{
    before.to_multiset_ensures();
    after.to_multiset_ensures();
    assert forall|k: int| 0 <= k < after.len() implies before.contains(#[trigger] after[k]) by {
        assert(after.contains(after[k]));
        assert(after.to_multiset().count(after[k]) > 0);
        assert(before.to_multiset().count(after[k]) > 0);
    }
    assert forall|k: int| 0 <= k < before.len() implies after.contains(#[trigger] before[k]) by {
        assert(before.contains(before[k]));
        assert(before.to_multiset().count(before[k]) > 0);
        assert(after.to_multiset().count(before[k]) > 0);
    }
    assert forall|i: int| ids_of(before).contains(i) implies ids_of(after).contains(i) by {
        let k = choose|k: int| 0 <= k < before.len() && (#[trigger] before[k]).id == i;
        assert(after.contains(before[k]));
        let m = choose|m: int| 0 <= m < after.len() && after[m] == before[k];
        assert(after[m].id == i);
    }
    assert forall|i: int| ids_of(after).contains(i) implies ids_of(before).contains(i) by {
        let k = choose|k: int| 0 <= k < after.len() && (#[trigger] after[k]).id == i;
        assert(before.contains(after[k]));
        let m = choose|m: int| 0 <= m < before.len() && before[m] == after[k];
        assert(before[m].id == i);
    }
}

/// Sorting a sequence without repetitions gives one without repetitions.
proof fn keeps_distinct(before: Seq<Keyed>, after: Seq<Keyed>)
    requires
        before.to_multiset() =~= after.to_multiset(),
        before.no_duplicates(),
    ensures
        after.no_duplicates(),
{
    before.lemma_multiset_has_no_duplicates();
    after.lemma_multiset_has_no_duplicates_conv();
}

} // verus!
