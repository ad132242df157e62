//! The search of a hierarchy for the nearest hit.
//!
//! Whether a ray crosses a box, and where it hits an object, is arithmetic
//! that this library leaves to its caller. The search itself is decided
//! here: a [`Traversal`] says which box or object is to be tested next and
//! within which range, takes the answer, and ends with the nearest hit.

use vstd::prelude::*;
use crate::aabb::AABB;
use crate::bvh::{BVHNode, Child};
use crate::hit::HitRecord;
use crate::hittable_list::{
    answers_nearest,
    first_objects,
    is_nearest,
    linear_hit,
    linear_scan_finds_nearest,
    narrower_answers,
    offer_keeps_nearest,
    offer_narrows,
    scan_ends_with_the_answer,
    within,
    Closest,
    Probe,
    Scan,
};
use crate::scalar::Scalar;

verus! {

/// Which boxes one ray crosses: a box and a range of ray parameters give
/// whether the ray meets the box within the range.
pub type Crossing = spec_fn(AABB, Scalar, Scalar) -> bool;

impl Child {
    /// The search after the child: an object is asked within the range that
    /// is left, and its answer offered to the nearest hit so far; a node is
    /// searched.
    pub open spec fn visit(self, probe: Probe, crosses: Crossing, so_far: Closest) -> Closest
        decreases self,
    {
        match self {
            Child::Object(i) => so_far.offer_spec(probe(i as int, so_far.t_min, so_far.t_max)),
            Child::Node(node) => node.visit(probe, crosses, so_far),
        }
    }

    /// What the child answers to a ray: the object's own answer, or the
    /// node's.
    pub open spec fn hit_spec(
        self,
        probe: Probe,
        crosses: Crossing,
        t_min: Scalar,
        t_max: Scalar,
    ) -> Option<HitRecord> {
        self.visit(probe, crosses, Closest::start(t_min, t_max)).hit
    }

    pub open spec fn admits(
        self,
        probe: Probe,
        crosses: Crossing,
        t_min: Scalar,
        t_max: Scalar,
    ) -> bool
        decreases self,
    {
        match self {
            Child::Object(_) => true,
            Child::Node(node) => node.admits(probe, crosses, t_min, t_max),
        }
    }

    /// The number of nodes and leaves.
    pub open spec fn size(self) -> nat
        decreases self,
    {
        match self {
            Child::Object(_) => 1,
            Child::Node(node) => node.size(),
        }
    }
}

impl BVHNode {
    /// The search after the node. A ray that misses the node's box within
    /// the range that is left finds nothing below it. Else the left child is
    /// searched, and then the right one within the range that the left has
    /// left: where the left child is hit, the right one counts only for a
    /// hit that is strictly nearer.
    pub open spec fn visit(self, probe: Probe, crosses: Crossing, so_far: Closest) -> Closest
        decreases self,
    {
        if !crosses(self.bbox, so_far.t_min, so_far.t_max) {
            so_far
        } else {
            self.right.visit(probe, crosses, self.left.visit(probe, crosses, so_far))
        }
    }

    /// What the node answers to a ray within `[t_min, t_max]`: the hit that
    /// a search of the node ends with that began with none.
    pub open spec fn hit_spec(
        self,
        probe: Probe,
        crosses: Crossing,
        t_min: Scalar,
        t_max: Scalar,
    ) -> Option<HitRecord> {
        self.visit(probe, crosses, Closest::start(t_min, t_max)).hit
    }

    /// The boxes bound the objects as far as the ray can tell: wherever an
    /// object below a node is hit within a range that ends at or before
    /// `t_max`, the ray crosses the node's box within that range.
    pub open spec fn admits(
        self,
        probe: Probe,
        crosses: Crossing,
        t_min: Scalar,
        t_max: Scalar,
    ) -> bool
        decreases self,
    {
        &&& forall|i: int, bound: Scalar|
            #![trigger self.objects().contains(i), probe(i, t_min, bound)]
            self.objects().contains(i) && (bound == t_max || bound.le_spec(t_max)) && probe(
                i,
                t_min,
                bound,
            ) is Some ==> crosses(self.bbox, t_min, bound)
        &&& self.left.admits(probe, crosses, t_min, t_max)
        &&& self.right.admits(probe, crosses, t_min, t_max)
    }

    /// The number of nodes and leaves.
    pub open spec fn size(self) -> nat
        decreases self,
    {
        1 + self.left.size() + self.right.size()
    }

    /// Begins the search for the nearest hit of a ray within
    /// `[t_min, t_max]`.
    pub fn hit<'a>(&'a self, t_min: Scalar, t_max: Scalar) -> (search: Traversal<'a>)
        ensures
            search@ == State::begin(self, t_min, t_max),
    {
        Traversal::new(self, t_min, t_max)
    }
}

/// Two objects that a ray hits at the same distance give the same record.
pub open spec fn ties_agree(probe: Probe, n: nat, t_min: Scalar, t_max: Scalar) -> bool {
    forall|i: int, j: int|
        #![trigger probe(i, t_min, t_max), probe(j, t_min, t_max)]
        0 <= i < n && 0 <= j < n ==> (probe(i, t_min, t_max) matches Some(a) ==> (probe(
            j,
            t_min,
            t_max,
        ) matches Some(b) ==> (a.t.eq_spec(b.t) ==> a == b)))
}

/// A child searched leaves the search with the nearest hit of the objects
/// asked: where the state holds the nearest hit of the objects of `among`
/// within `[t_min, bound]`, the state after the child holds the nearest hit
/// of `among` and the objects below the child.
proof fn child_keeps_nearest(
    child: Child,
    probe: Probe,
    crosses: Crossing,
    among: Set<int>,
    t_min: Scalar,
    t_max: Scalar,
    bound: Scalar,
    so_far: Closest,
)
    requires
        forall|i: int|
            child.objects().contains(i) ==> #[trigger] answers_nearest(probe, i, t_min, t_max),
        child.admits(probe, crosses, t_min, t_max),
        bound == t_max || bound.le_spec(t_max),
        so_far.spans(t_min, bound),
        is_nearest(probe, among, t_min, bound, so_far.hit),
    ensures
        child.visit(probe, crosses, so_far).spans(t_min, bound),
        is_nearest(
            probe,
            among.union(child.objects()),
            t_min,
            bound,
            child.visit(probe, crosses, so_far).hit,
        ),
    decreases child,
{
    match child {
        Child::Object(i) => {
            assert(child.objects().contains(i as int));
            offer_keeps_nearest(probe, among, i as int, t_min, t_max, bound, so_far);
            assert(among.insert(i as int) =~= among.union(child.objects()));
        },
        Child::Node(node) => {
            node_keeps_nearest(*node, probe, crosses, among, t_min, t_max, bound, so_far);
        },
    }
}

/// A node searched leaves the search with the nearest hit of the objects
/// asked and of those below the node.
proof fn node_keeps_nearest(
    node: BVHNode,
    probe: Probe,
    crosses: Crossing,
    among: Set<int>,
    t_min: Scalar,
    t_max: Scalar,
    bound: Scalar,
    so_far: Closest,
)
    requires
        forall|i: int|
            node.objects().contains(i) ==> #[trigger] answers_nearest(probe, i, t_min, t_max),
        node.admits(probe, crosses, t_min, t_max),
        bound == t_max || bound.le_spec(t_max),
        so_far.spans(t_min, bound),
        is_nearest(probe, among, t_min, bound, so_far.hit),
    ensures
        node.visit(probe, crosses, so_far).spans(t_min, bound),
        is_nearest(
            probe,
            among.union(node.objects()),
            t_min,
            bound,
            node.visit(probe, crosses, so_far).hit,
        ),
    decreases node,
{
    let all = among.union(node.objects());
    if !crosses(node.bbox, t_min, so_far.t_max) {
        assert forall|i: int| node.objects().contains(i) implies probe(i, t_min, so_far.t_max)
            is None by {}
        match so_far.hit {
            None => {
                assert forall|i: int| all.contains(i) implies #[trigger] probe(i, t_min, bound)
                    is None by {}
            },
            Some(held) => {
                let j = choose|j: int|
                    among.contains(j) && #[trigger] probe(j, t_min, bound) == Some(held);
                assert(all.contains(j));
                assert forall|i: int| all.contains(i) implies (#[trigger] probe(
                    i,
                    t_min,
                    bound,
                ) matches Some(other) ==> held.t.le_spec(other.t)) by {
                    if node.objects().contains(i) {
                        narrower_answers(probe, i, t_min, t_max, bound);
                        narrower_answers(probe, i, t_min, t_max, held.t);
                        assert(probe(i, t_min, held.t) is None);
                    }
                }
            },
        }
    } else {
        child_keeps_nearest(node.left, probe, crosses, among, t_min, t_max, bound, so_far);
        child_keeps_nearest(
            node.right,
            probe,
            crosses,
            among.union(node.left.objects()),
            t_min,
            t_max,
            bound,
            node.left.visit(probe, crosses, so_far),
        );
        assert(among.union(node.left.objects()).union(node.right.objects()) =~= all);
    }
}

/// Every object's own box bounds it as far as the ray can tell: wherever the
/// object is hit within a range that ends at or before `t_max`, the ray
/// crosses the object's box within that range.
pub open spec fn boxes_bound_objects(
    boxes: Seq<AABB>,
    probe: Probe,
    crosses: Crossing,
    t_min: Scalar,
    t_max: Scalar,
) -> bool {
    forall|i: int, bound: Scalar|
        #![trigger probe(i, t_min, bound), boxes[i]]
        0 <= i < boxes.len() && (bound == t_max || bound.le_spec(t_max)) && probe(i, t_min, bound)
            is Some ==> crosses(boxes[i], t_min, bound)
}

/// A ray that crosses a box within a range crosses every box that encloses
/// it within that range.
pub open spec fn larger_boxes_are_crossed(crosses: Crossing) -> bool {
    forall|inner: AABB, outer: AABB, t_min: Scalar, t_max: Scalar|
        #![trigger crosses(inner, t_min, t_max), crosses(outer, t_min, t_max)]
        outer.encloses(inner) && crosses(inner, t_min, t_max) ==> crosses(outer, t_min, t_max)
}

/// A child's box encloses the box of every object below it.
proof fn child_box_encloses_objects(child: Child, boxes: Seq<AABB>, i: int)
    requires
        child.wf(boxes),
        child.objects().contains(i),
        forall|k: int| 0 <= k < boxes.len() ==> (#[trigger] boxes[k]).wf(),
    ensures
        0 <= i < boxes.len(),
        child.bounds(boxes).encloses(boxes[i]),
        child.bounds(boxes).wf(),
    decreases child,
{
    match child {
        Child::Object(_) => {},
        Child::Node(node) => {
            node_box_encloses_objects(*node, boxes, i);
        },
    }
}

/// A node's box encloses the box of every object below it.
pub proof fn node_box_encloses_objects(node: BVHNode, boxes: Seq<AABB>, i: int)
    requires
        node.wf(boxes),
        node.objects().contains(i),
        forall|k: int| 0 <= k < boxes.len() ==> (#[trigger] boxes[k]).wf(),
    ensures
        0 <= i < boxes.len(),
        node.bbox.encloses(boxes[i]),
        node.bbox.wf(),
    decreases node,
{
    child_has_a_box(node.left, boxes);
    child_has_a_box(node.right, boxes);
    let left = node.left.bounds(boxes);
    let right = node.right.bounds(boxes);
    crate::aabb::surrounding_box_is_least_enclosure(left, right, node.bbox);
    if node.left.objects().contains(i) {
        child_box_encloses_objects(node.left, boxes, i);
    } else {
        child_box_encloses_objects(node.right, boxes, i);
    }
}

/// A child of a well-formed tree over well-formed boxes has a well-formed
/// box.
proof fn child_has_a_box(child: Child, boxes: Seq<AABB>)
    requires
        child.wf(boxes),
        forall|k: int| 0 <= k < boxes.len() ==> (#[trigger] boxes[k]).wf(),
    ensures
        child.bounds(boxes).wf(),
    decreases child,
{
    match child {
        Child::Object(i) => {
            assert(boxes[i as int].wf());
        },
        Child::Node(node) => {
            child_has_a_box(node.left, boxes);
            child_has_a_box(node.right, boxes);
            crate::aabb::surrounding_box_is_least_enclosure(
                node.left.bounds(boxes),
                node.right.bounds(boxes),
                node.bbox,
            );
        },
    }
}

/// The boxes of a hierarchy bound what lies below them: where every object's
/// own box bounds the object, and a ray that crosses a box crosses every
/// box that encloses it, the ray crosses the box of every node above an
/// object that it hits.
pub proof fn tree_boxes_bound_objects(
    node: BVHNode,
    boxes: Seq<AABB>,
    probe: Probe,
    crosses: Crossing,
    t_min: Scalar,
    t_max: Scalar,
)
    requires
        node.wf(boxes),
        forall|k: int| 0 <= k < boxes.len() ==> (#[trigger] boxes[k]).wf(),
        boxes_bound_objects(boxes, probe, crosses, t_min, t_max),
        larger_boxes_are_crossed(crosses),
    ensures
        node.admits(probe, crosses, t_min, t_max),
    decreases node,
{
    assert forall|i: int, bound: Scalar|
        #![trigger node.objects().contains(i), probe(i, t_min, bound)]
        node.objects().contains(i) && (bound == t_max || bound.le_spec(t_max)) && probe(
            i,
            t_min,
            bound,
        ) is Some implies crosses(node.bbox, t_min, bound) by {
        node_box_encloses_objects(node, boxes, i);
        assert(crosses(boxes[i], t_min, bound));
    }
    match node.left {
        Child::Object(_) => {},
        Child::Node(left) => {
            tree_boxes_bound_objects(*left, boxes, probe, crosses, t_min, t_max);
        },
    }
    match node.right {
        Child::Object(_) => {},
        Child::Node(right) => {
            tree_boxes_bound_objects(*right, boxes, probe, crosses, t_min, t_max);
        },
    }
}

/// The hierarchy finds the nearest hit: where every object answers with its
/// nearest hit and the boxes bound the objects, the root's answer is the
/// nearest of the hits that the objects below it report.
pub proof fn hierarchy_finds_nearest(
    root: BVHNode,
    probe: Probe,
    crosses: Crossing,
    t_min: Scalar,
    t_max: Scalar,
)
    requires
        forall|i: int|
            root.objects().contains(i) ==> #[trigger] answers_nearest(probe, i, t_min, t_max),
        root.admits(probe, crosses, t_min, t_max),
    ensures
        is_nearest(
            probe,
            root.objects(),
            t_min,
            t_max,
            root.hit_spec(probe, crosses, t_min, t_max),
        ),
{
    let none = Set::<int>::empty();
    node_keeps_nearest(
        root,
        probe,
        crosses,
        none,
        t_min,
        t_max,
        t_max,
        Closest::start(t_min, t_max),
    );
    assert(none.union(root.objects()) =~= root.objects());
}

/// The hierarchy changes how fast the nearest hit is found, never which one:
/// over the same objects, the root's answer and the list's are both none, or
/// both hits at the same distance. They are the same record unless two
/// objects are hit at that distance with different records, in which case
/// each search reports the one that it meets first.
pub proof fn hierarchy_agrees_with_linear_scan(
    root: BVHNode,
    n: nat,
    probe: Probe,
    crosses: Crossing,
    t_min: Scalar,
    t_max: Scalar,
)
    requires
        root.objects() =~= first_objects(n),
        forall|i: int| 0 <= i < n ==> #[trigger] answers_nearest(probe, i, t_min, t_max),
        root.admits(probe, crosses, t_min, t_max),
    ensures
        root.hit_spec(probe, crosses, t_min, t_max) is None <==> linear_hit(
            probe,
            n,
            t_min,
            t_max,
        ) is None,
        root.hit_spec(probe, crosses, t_min, t_max) matches Some(by_tree) ==> (linear_hit(
            probe,
            n,
            t_min,
            t_max,
        ) matches Some(by_list) ==> by_tree.t.eq_spec(by_list.t)),
        ties_agree(probe, n, t_min, t_max) ==> root.hit_spec(probe, crosses, t_min, t_max)
            == linear_hit(probe, n, t_min, t_max),
{
    let by_tree = root.hit_spec(probe, crosses, t_min, t_max);
    let by_list = linear_hit(probe, n, t_min, t_max);
    hierarchy_finds_nearest(root, probe, crosses, t_min, t_max);
    linear_scan_finds_nearest(probe, n, t_min, t_max);
    let all = first_objects(n);
    match (by_tree, by_list) {
        (Some(a), Some(b)) => {
            let i = choose|i: int| all.contains(i) && #[trigger] probe(i, t_min, t_max) == Some(a);
            let j = choose|j: int| all.contains(j) && #[trigger] probe(j, t_min, t_max) == Some(b);
            assert(a.t.le_spec(b.t));
            assert(b.t.le_spec(a.t));
            if ties_agree(probe, n, t_min, t_max) {
                assert(0 <= i < n && 0 <= j < n);
                assert(a == b);
            }
        },
        (Some(a), None) => {
            let i = choose|i: int| all.contains(i) && #[trigger] probe(i, t_min, t_max) == Some(a);
            assert(probe(i, t_min, t_max) is None);
        },
        (None, Some(b)) => {
            let j = choose|j: int| all.contains(j) && #[trigger] probe(j, t_min, t_max) == Some(b);
            assert(probe(j, t_min, t_max) is None);
        },
        (None, None) => {},
    }
}

/// A child searched leaves the search within its range, whatever the
/// objects and the boxes answer.
proof fn child_stays_in_range(
    child: Child,
    probe: Probe,
    crosses: Crossing,
    t_min: Scalar,
    bound: Scalar,
    so_far: Closest,
)
    requires
        so_far.spans(t_min, bound),
    ensures
        child.visit(probe, crosses, so_far).spans(t_min, bound),
    decreases child,
{
    match child {
        Child::Object(_) => {},
        Child::Node(node) => {
            if crosses(node.bbox, so_far.t_min, so_far.t_max) {
                child_stays_in_range(node.left, probe, crosses, t_min, bound, so_far);
                child_stays_in_range(
                    node.right,
                    probe,
                    crosses,
                    t_min,
                    bound,
                    node.left.visit(probe, crosses, so_far),
                );
            }
        },
    }
}

/// What a hierarchy answers lies in the range asked, whatever its objects
/// and its boxes answer: an answer outside the range that is left is not
/// taken.
pub proof fn hierarchy_hit_lies_in_range(
    root: BVHNode,
    probe: Probe,
    crosses: Crossing,
    t_min: Scalar,
    t_max: Scalar,
)
    ensures
        root.hit_spec(probe, crosses, t_min, t_max) matches Some(hr) ==> t_min.le_spec(hr.t)
            && hr.t.le_spec(t_max),
{
    child_stays_in_range(
        Child::Node(Box::new(root)),
        probe,
        crosses,
        t_min,
        t_max,
        Closest::start(t_min, t_max),
    );
}

/// A search that finds no hit below a child passes the child by: where no
/// object below it answers with a hit within the range that is left, the
/// search stands after the child as before it.
proof fn child_without_hits(child: Child, probe: Probe, crosses: Crossing, so_far: Closest)
    requires
        forall|i: int|
            child.objects().contains(i) ==> #[trigger] probe(i, so_far.t_min, so_far.t_max)
                is None,
    ensures
        child.visit(probe, crosses, so_far) == so_far,
    decreases child,
{
    match child {
        Child::Object(i) => {
            assert(child.objects().contains(i as int));
        },
        Child::Node(node) => {
            if crosses(node.bbox, so_far.t_min, so_far.t_max) {
                assert forall|i: int| node.left.objects().contains(i) implies #[trigger] probe(
                    i,
                    so_far.t_min,
                    so_far.t_max,
                ) is None by {
                    assert(node.objects().contains(i));
                }
                child_without_hits(node.left, probe, crosses, so_far);
                assert forall|i: int| node.right.objects().contains(i) implies #[trigger] probe(
                    i,
                    so_far.t_min,
                    so_far.t_max,
                ) is None by {
                    assert(node.objects().contains(i));
                }
                child_without_hits(node.right, probe, crosses, so_far);
            }
        },
    }
}

/// A child searched over a nearer far end: the state after it is the state
/// of the wider search after it, narrowed.
proof fn child_narrows(
    child: Child,
    probe: Probe,
    crosses: Crossing,
    t_min: Scalar,
    t_max: Scalar,
    far: Scalar,
    near: Scalar,
    so_far: Closest,
)
    requires
        forall|i: int|
            child.objects().contains(i) ==> #[trigger] answers_nearest(probe, i, t_min, t_max),
        child.admits(probe, crosses, t_min, t_max),
        far == t_max || far.le_spec(t_max),
        near.le_spec(far),
        so_far.spans(t_min, far),
    ensures
        child.visit(probe, crosses, so_far).spans(t_min, far),
        child.visit(probe, crosses, so_far.narrowed(near)) == child.visit(
            probe,
            crosses,
            so_far,
        ).narrowed(near),
    decreases child,
{
    match child {
        Child::Object(i) => {
            assert(child.objects().contains(i as int));
            offer_narrows(probe, i as int, t_min, t_max, far, near, so_far);
        },
        Child::Node(node) => {
            node_narrows(*node, probe, crosses, t_min, t_max, far, near, so_far);
        },
    }
}

/// A node searched over a nearer far end: the state after it is the state of
/// the wider search after it, narrowed.
proof fn node_narrows(
    node: BVHNode,
    probe: Probe,
    crosses: Crossing,
    t_min: Scalar,
    t_max: Scalar,
    far: Scalar,
    near: Scalar,
    so_far: Closest,
)
    requires
        forall|i: int|
            node.objects().contains(i) ==> #[trigger] answers_nearest(probe, i, t_min, t_max),
        node.admits(probe, crosses, t_min, t_max),
        far == t_max || far.le_spec(t_max),
        near.le_spec(far),
        so_far.spans(t_min, far),
    ensures
        node.visit(probe, crosses, so_far).spans(t_min, far),
        node.visit(probe, crosses, so_far.narrowed(near)) == node.visit(
            probe,
            crosses,
            so_far,
        ).narrowed(near),
    decreases node,
{
    let narrow = so_far.narrowed(near);
    let after_left = node.left.visit(probe, crosses, so_far);
    child_narrows(node.left, probe, crosses, t_min, t_max, far, near, so_far);
    child_narrows(node.right, probe, crosses, t_min, t_max, far, near, after_left);
    let both_wide = node.right.visit(probe, crosses, after_left);
    let both_narrow = node.right.visit(probe, crosses, node.left.visit(probe, crosses, narrow));
    assert(both_narrow == both_wide.narrowed(near));
    let crossed_wide = crosses(node.bbox, t_min, so_far.t_max);
    let crossed_narrow = crosses(node.bbox, t_min, narrow.t_max);
    if !crossed_wide || !crossed_narrow {
        // Below a box that the ray misses within the range that is left, no
        // object answers with a hit; nor does one within a nearer far end.
        assert(narrow.t_max == so_far.t_max || narrow.t_max.le_spec(so_far.t_max));
        assert forall|i: int| node.objects().contains(i) implies #[trigger] probe(
            i,
            narrow.t_min,
            narrow.t_max,
        ) is None by {
            narrower_answers(probe, i, t_min, t_max, so_far.t_max);
            narrower_answers(probe, i, t_min, t_max, narrow.t_max);
            if !crossed_wide {
                assert(probe(i, t_min, so_far.t_max) is None);
            }
        }
        assert forall|i: int| node.left.objects().contains(i) implies #[trigger] probe(
            i,
            narrow.t_min,
            narrow.t_max,
        ) is None by {
            assert(node.objects().contains(i));
        }
        child_without_hits(node.left, probe, crosses, narrow);
        assert forall|i: int| node.right.objects().contains(i) implies #[trigger] probe(
            i,
            narrow.t_min,
            narrow.t_max,
        ) is None by {
            assert(node.objects().contains(i));
        }
        child_without_hits(node.right, probe, crosses, narrow);
        assert(both_narrow == narrow);
    }
}

/// A hierarchy answers with its nearest hit: within a nearer far end it
/// answers what it answers within the farther one, kept where it is still in
/// range, so that it can stand as one object in a list or under another
/// hierarchy.
pub proof fn hierarchy_answers_nearest(
    root: BVHNode,
    probe: Probe,
    crosses: Crossing,
    t_min: Scalar,
    t_max: Scalar,
    bound: Scalar,
)
    requires
        forall|i: int|
            root.objects().contains(i) ==> #[trigger] answers_nearest(probe, i, t_min, t_max),
        root.admits(probe, crosses, t_min, t_max),
        bound.le_spec(t_max),
    ensures
        root.hit_spec(probe, crosses, t_min, bound) == within(
            root.hit_spec(probe, crosses, t_min, t_max),
            bound,
        ),
        root.hit_spec(probe, crosses, t_min, t_max) matches Some(hr) ==> t_min.le_spec(hr.t)
            && hr.t.le_spec(t_max),
{
    let begin = Closest::start(t_min, t_max);
    node_narrows(root, probe, crosses, t_min, t_max, t_max, bound, begin);
    assert(begin.narrowed(bound) == Closest::start(t_min, bound));
}

/// Where a search that began with the hit `held` stands when a search of the
/// same objects that began with none, within the range that ends at `held`,
/// stands at `fresh`: at `fresh` where that holds a strictly nearer hit, and
/// else where it began.
spec fn after_a_hit(fresh: Closest, held: HitRecord) -> Closest {
    if fresh.hit matches Some(found) && found.t.lt_spec(held.t) {
        fresh
    } else {
        Closest { t_min: fresh.t_min, t_max: held.t, hit: Some(held) }
    }
}

/// A child searched with a hit held finds what it finds without, within the
/// range that ends at the hit held, where that is strictly nearer.
proof fn child_after_a_hit(
    child: Child,
    probe: Probe,
    crosses: Crossing,
    t_min: Scalar,
    t_max: Scalar,
    held: HitRecord,
    fresh: Closest,
)
    requires
        forall|i: int|
            child.objects().contains(i) ==> #[trigger] answers_nearest(probe, i, t_min, t_max),
        child.admits(probe, crosses, t_min, t_max),
        held.t == t_max || held.t.le_spec(t_max),
        fresh.spans(t_min, held.t),
    ensures
        child.visit(probe, crosses, fresh).spans(t_min, held.t),
        child.visit(probe, crosses, after_a_hit(fresh, held)) == after_a_hit(
            child.visit(probe, crosses, fresh),
            held,
        ),
    decreases child,
{
    match child {
        Child::Object(i) => {
            assert(child.objects().contains(i as int));
            narrower_answers(probe, i as int, t_min, t_max, held.t);
            narrower_answers(probe, i as int, t_min, t_max, fresh.t_max);
        },
        Child::Node(node) => {
            node_after_a_hit(*node, probe, crosses, t_min, t_max, held, fresh);
        },
    }
}

/// A node searched with a hit held finds what it finds without, within the
/// range that ends at the hit held, where that is strictly nearer.
proof fn node_after_a_hit(
    node: BVHNode,
    probe: Probe,
    crosses: Crossing,
    t_min: Scalar,
    t_max: Scalar,
    held: HitRecord,
    fresh: Closest,
)
    requires
        forall|i: int|
            node.objects().contains(i) ==> #[trigger] answers_nearest(probe, i, t_min, t_max),
        node.admits(probe, crosses, t_min, t_max),
        held.t == t_max || held.t.le_spec(t_max),
        fresh.spans(t_min, held.t),
    ensures
        node.visit(probe, crosses, fresh).spans(t_min, held.t),
        node.visit(probe, crosses, after_a_hit(fresh, held)) == after_a_hit(
            node.visit(probe, crosses, fresh),
            held,
        ),
    decreases node,
{
    let beside = after_a_hit(fresh, held);
    let left_fresh = node.left.visit(probe, crosses, fresh);
    child_after_a_hit(node.left, probe, crosses, t_min, t_max, held, fresh);
    child_after_a_hit(node.right, probe, crosses, t_min, t_max, held, left_fresh);
    let crossed_fresh = crosses(node.bbox, t_min, fresh.t_max);
    let crossed_beside = crosses(node.bbox, t_min, beside.t_max);
    if crossed_fresh != crossed_beside {
        // The two ranges end at the same distance. Below a box that the ray
        // misses within one of them no object answers with a hit, in either.
        assert(fresh.t_max == t_max || fresh.t_max.le_spec(t_max));
        assert forall|i: int| node.objects().contains(i) implies probe(i, t_min, fresh.t_max)
            is None && probe(i, t_min, beside.t_max) is None by {
            narrower_answers(probe, i, t_min, t_max, fresh.t_max);
            narrower_answers(probe, i, t_min, t_max, beside.t_max);
        }
        assert forall|i: int| node.left.objects().contains(i) implies #[trigger] probe(
            i,
            fresh.t_min,
            fresh.t_max,
        ) is None by {
            assert(node.objects().contains(i));
        }
        assert forall|i: int| node.right.objects().contains(i) implies #[trigger] probe(
            i,
            fresh.t_min,
            fresh.t_max,
        ) is None by {
            assert(node.objects().contains(i));
        }
        assert forall|i: int| node.left.objects().contains(i) implies #[trigger] probe(
            i,
            beside.t_min,
            beside.t_max,
        ) is None by {
            assert(node.objects().contains(i));
        }
        assert forall|i: int| node.right.objects().contains(i) implies #[trigger] probe(
            i,
            beside.t_min,
            beside.t_max,
        ) is None by {
            assert(node.objects().contains(i));
        }
        child_without_hits(node.left, probe, crosses, fresh);
        child_without_hits(node.right, probe, crosses, fresh);
        child_without_hits(node.left, probe, crosses, beside);
        child_without_hits(node.right, probe, crosses, beside);
    }
}

/// A node asks its left child within the whole range, and its right child
/// within the range that ends at the left child's hit, where there is one.
/// The right child's hit is the answer where it is strictly nearer than the
/// left child's, and the left child's else.
pub proof fn node_asks_left_then_right(
    node: BVHNode,
    probe: Probe,
    crosses: Crossing,
    t_min: Scalar,
    t_max: Scalar,
)
    requires
        forall|i: int|
            node.objects().contains(i) ==> #[trigger] answers_nearest(probe, i, t_min, t_max),
        node.admits(probe, crosses, t_min, t_max),
    ensures
        node.hit_spec(probe, crosses, t_min, t_max) == if !crosses(node.bbox, t_min, t_max) {
            None
        } else {
            match node.left.hit_spec(probe, crosses, t_min, t_max) {
                None => node.right.hit_spec(probe, crosses, t_min, t_max),
                Some(hit_left) => match node.right.hit_spec(probe, crosses, t_min, hit_left.t) {
                    Some(hit_right) => if hit_right.t.lt_spec(hit_left.t) {
                        Some(hit_right)
                    } else {
                        Some(hit_left)
                    },
                    None => Some(hit_left),
                },
            }
        },
{
    if crosses(node.bbox, t_min, t_max) {
        let begin = Closest::start(t_min, t_max);
        let none = Set::<int>::empty();
        child_keeps_nearest(node.left, probe, crosses, none, t_min, t_max, t_max, begin);
        let after_left = node.left.visit(probe, crosses, begin);
        match after_left.hit {
            None => {
                assert(after_left == begin);
            },
            Some(hit_left) => {
                let fresh = Closest::start(t_min, hit_left.t);
                assert(after_left == after_a_hit(fresh, hit_left));
                child_after_a_hit(node.right, probe, crosses, t_min, t_max, hit_left, fresh);
            },
        }
    }
}

/// The search of the hierarchy built over a list finds what a scan of the
/// list finds. Let every object answer with its nearest hit, let every
/// object's box bound it, and let a ray that crosses a box cross every box
/// that encloses it. Then the search, with every question answered as the
/// ray answers it, and the scan both end with none, or both with a hit at
/// the same distance; and with the same record, unless two objects are hit
/// at that distance with different records.
pub proof fn search_agrees_with_linear_scan(
    root: &BVHNode,
    boxes: Seq<AABB>,
    len: usize,
    probe: Probe,
    crosses: Crossing,
    t_min: Scalar,
    t_max: Scalar,
)
    requires
        boxes.len() == len,
        root.wf(boxes),
        root.objects() =~= first_objects(boxes.len()),
        forall|k: int| 0 <= k < boxes.len() ==> (#[trigger] boxes[k]).wf(),
        forall|i: int| 0 <= i < boxes.len() ==> #[trigger] answers_nearest(probe, i, t_min, t_max),
        boxes_bound_objects(boxes, probe, crosses, t_min, t_max),
        larger_boxes_are_crossed(crosses),
    ensures
        State::begin(root, t_min, t_max).outcome(probe, crosses) is None <==> Scan::begin(
            len,
            t_min,
            t_max,
        ).outcome(probe) is None,
        State::begin(root, t_min, t_max).outcome(probe, crosses) matches Some(by_search)
            ==> (Scan::begin(len, t_min, t_max).outcome(probe) matches Some(by_list)
            ==> by_search.t.eq_spec(by_list.t)),
        ties_agree(probe, boxes.len(), t_min, t_max) ==> State::begin(
            root,
            t_min,
            t_max,
        ).outcome(probe, crosses) == Scan::begin(len, t_min, t_max).outcome(probe),
{
    search_ends_with_the_answer(root, probe, crosses, t_min, t_max);
    scan_ends_with_the_answer(probe, len, t_min, t_max);
    tree_boxes_bound_objects(*root, boxes, probe, crosses, t_min, t_max);
    hierarchy_agrees_with_linear_scan(*root, boxes.len(), probe, crosses, t_min, t_max);
}

/// A box or an object that the search has still to test.
#[derive(Clone, Copy, Debug)]
pub enum Pending<'a> {
    Object(usize),
    Node(&'a BVHNode),
}

/// What the search asks of its caller.
#[derive(Clone, Copy, Debug, PartialEq, Eq, Structural)]
pub enum Action {
    /// Does the ray cross `bbox` within `[t_min, t_max]`?
    TestBox { bbox: AABB, t_min: Scalar, t_max: Scalar },
    /// Where does the ray hit the object `index` within `[t_min, t_max]`?
    TestObject { index: usize, t_min: Scalar, t_max: Scalar },
    /// Nothing: the search has ended with `hit`.
    Done { hit: Option<HitRecord> },
}

/// The caller's answer to an [`Action`].
#[derive(Clone, Copy, Debug, PartialEq, Eq, Structural)]
pub enum Reply {
    /// To [`Action::TestBox`]: whether the ray crosses the box.
    Crossed(bool),
    /// To [`Action::TestObject`]: the hit, if there is one.
    Probed(Option<HitRecord>),
}

impl<'a> Pending<'a> {
    pub open spec fn of(child: &'a Child) -> Pending<'a> {
        match child {
            Child::Object(i) => Pending::Object(*i),
            Child::Node(node) => Pending::Node(&**node),
        }
    }

    pub open spec fn size(self) -> nat {
        match self {
            Pending::Object(_) => 1,
            Pending::Node(node) => node.size(),
        }
    }

    /// The search after the box or object.
    pub open spec fn visit(self, probe: Probe, crosses: Crossing, so_far: Closest) -> Closest {
        match self {
            Pending::Object(i) => so_far.offer_spec(probe(i as int, so_far.t_min, so_far.t_max)),
            Pending::Node(node) => node.visit(probe, crosses, so_far),
        }
    }
}

/// The sizes of what is pending, added up.
pub open spec fn total_size(pending: Seq<Pending>) -> nat
    decreases pending.len(),
{
    if pending.len() == 0 {
        0
    } else {
        total_size(pending.drop_last()) + pending.last().size()
    }
}

/// What a search amounts to: what is still to be tested, the next on top,
/// and the nearest hit so far.
pub struct State<'a> {
    pub pending: Seq<Pending<'a>>,
    pub closest: Closest,
}

impl<'a> State<'a> {
    /// The search of the hierarchy below `root` begins with the root.
    pub open spec fn begin(root: &'a BVHNode, t_min: Scalar, t_max: Scalar) -> State<'a> {
        State { pending: seq![Pending::Node(root)], closest: Closest::start(t_min, t_max) }
    }

    /// What is asked next: the test of what is on top, within the range from
    /// `t_min` to the nearest hit so far.
    pub open spec fn next_spec(self) -> Action {
        if self.pending.len() == 0 {
            Action::Done { hit: self.closest.hit }
        } else {
            match self.pending.last() {
                Pending::Object(index) => Action::TestObject {
                    index,
                    t_min: self.closest.t_min,
                    t_max: self.closest.t_max,
                },
                Pending::Node(node) => Action::TestBox {
                    bbox: node.bbox,
                    t_min: self.closest.t_min,
                    t_max: self.closest.t_max,
                },
            }
        }
    }

    /// The search after an answer. A box that the ray misses is dropped with
    /// all that lies below it; one that it crosses gives way to its two
    /// children, the left to be tested first. An object's hit becomes the
    /// nearest so far where none is held or it is strictly nearer than the
    /// one held. An answer of the wrong kind, or one that comes when the
    /// search has ended, changes nothing.
    pub open spec fn after(self, reply: Reply) -> State<'a> {
        if self.pending.len() == 0 {
            self
        } else {
            match (self.pending.last(), reply) {
                (Pending::Object(_), Reply::Probed(answer)) => State {
                    pending: self.pending.drop_last(),
                    closest: self.closest.offer_spec(answer),
                },
                (Pending::Node(node), Reply::Crossed(crossed)) => if crossed {
                    State {
                        pending: self.pending.drop_last().push(Pending::of(&node.right)).push(
                            Pending::of(&node.left),
                        ),
                        closest: self.closest,
                    }
                } else {
                    State { pending: self.pending.drop_last(), closest: self.closest }
                },
                _ => self,
            }
        }
    }

    /// The answer that the ray gives to what is asked next.
    pub open spec fn true_reply(self, probe: Probe, crosses: Crossing) -> Reply {
        match self.pending.last() {
            Pending::Object(index) => Reply::Probed(
                probe(index as int, self.closest.t_min, self.closest.t_max),
            ),
            Pending::Node(node) => Reply::Crossed(
                crosses(node.bbox, self.closest.t_min, self.closest.t_max),
            ),
        }
    }

    /// The hit with which the search ends when every question is answered as
    /// the ray answers it.
    pub open spec fn outcome(self, probe: Probe, crosses: Crossing) -> Option<HitRecord>
        decreases total_size(self.pending),
    {
        if self.pending.len() == 0 {
            self.closest.hit
        } else {
            proof {
                answers_shrink_the_search(self, self.true_reply(probe, crosses));
            }
            self.after(self.true_reply(probe, crosses)).outcome(probe, crosses)
        }
    }
}

/// Pushing adds the size of what is pushed.
pub proof fn total_size_of_push(pending: Seq<Pending>, top: Pending)
    ensures
        total_size(pending.push(top)) == total_size(pending) + top.size(),
{
    assert(pending.push(top).drop_last() =~= pending);
}

/// An answer of the right kind leaves less to be tested.
pub proof fn answers_shrink_the_search(state: State, reply: Reply)
    requires
        state.pending.len() > 0,
    ensures
        (state.pending.last() is Object <==> reply is Probed) ==> total_size(
            state.after(reply).pending,
        ) < total_size(state.pending),
{
    let rest = state.pending.drop_last();
    match (state.pending.last(), reply) {
        (Pending::Node(node), Reply::Crossed(crossed)) => {
            if crossed {
                total_size_of_push(rest, Pending::of(&node.right));
                total_size_of_push(rest.push(Pending::of(&node.right)), Pending::of(&node.left));
            }
        },
        _ => {},
    }
}

/// What is on top of the search counts for what a search of it finds: the
/// search ends as it would end without it, from the state in which a search
/// of it would leave the nearest hit so far.
proof fn top_counts_for_its_answer(state: State, probe: Probe, crosses: Crossing)
    requires
        state.pending.len() > 0,
    ensures
        state.outcome(probe, crosses) == (State {
            pending: state.pending.drop_last(),
            closest: state.pending.last().visit(probe, crosses, state.closest),
        }).outcome(probe, crosses),
    decreases state.pending.last().size(),
{
    let rest = state.pending.drop_last();
    let t_min = state.closest.t_min;
    let t_max = state.closest.t_max;
    match state.pending.last() {
        Pending::Object(_) => {},
        Pending::Node(node) => {
            if crosses(node.bbox, t_min, t_max) {
                let with_right = rest.push(Pending::of(&node.right));
                let with_both = with_right.push(Pending::of(&node.left));
                let opened = State { pending: with_both, closest: state.closest };
                assert(state.after(state.true_reply(probe, crosses)) == opened);
                assert(with_both.drop_last() =~= with_right);
                assert(with_right.drop_last() =~= rest);
                assert(Pending::of(&node.left).visit(probe, crosses, state.closest)
                    == node.left.visit(probe, crosses, state.closest));
                top_counts_for_its_answer(opened, probe, crosses);
                let after_left = State {
                    pending: with_right,
                    closest: node.left.visit(probe, crosses, state.closest),
                };
                assert(Pending::of(&node.right).visit(probe, crosses, after_left.closest)
                    == node.right.visit(probe, crosses, after_left.closest));
                top_counts_for_its_answer(after_left, probe, crosses);
            } else {
                assert(state.after(state.true_reply(probe, crosses)) == (State {
                    pending: rest,
                    closest: state.closest,
                }));
            }
        },
    }
}

/// The search ends with the root's answer: a [`Traversal`] whose questions
/// are answered as the ray answers them reports what [`BVHNode::hit_spec`]
/// says.
pub proof fn search_ends_with_the_answer(
    root: &BVHNode,
    probe: Probe,
    crosses: Crossing,
    t_min: Scalar,
    t_max: Scalar,
)
    ensures
        State::begin(root, t_min, t_max).outcome(probe, crosses) == root.hit_spec(
            probe,
            crosses,
            t_min,
            t_max,
        ),
{
    let state = State::begin(root, t_min, t_max);
    top_counts_for_its_answer(state, probe, crosses);
    assert(state.pending.drop_last() =~= Seq::<Pending>::empty());
}

/// A search under way.
pub struct Traversal<'a> {
    pub stack: Vec<Pending<'a>>,
    pub closest: Closest,
}

impl<'a> View for Traversal<'a> {
    type V = State<'a>;

    open spec fn view(&self) -> State<'a> {
        State { pending: self.stack@, closest: self.closest }
    }
}

/// What stands for a child among the things to be tested.
fn pending_of<'a>(child: &'a Child) -> (p: Pending<'a>)
    ensures
        p == Pending::of(child),
{
    match child {
        Child::Object(i) => Pending::Object(*i),
        Child::Node(node) => Pending::Node(&**node),
    }
}

impl<'a> Traversal<'a> {
    /// The search of the hierarchy below `root` for the nearest hit within
    /// `[t_min, t_max]`.
    pub fn new(root: &'a BVHNode, t_min: Scalar, t_max: Scalar) -> (search: Traversal<'a>)
        ensures
            search@ == State::begin(root, t_min, t_max),
    {
        let mut stack: Vec<Pending<'a>> = Vec::new();
        stack.push(Pending::Node(root));
        let search = Traversal { stack, closest: Closest::new(t_min, t_max) };
        proof {
            assert(search@.pending =~= seq![Pending::Node(root)]);
        }
        search
    }

    /// What the caller is to do next.
    pub fn next(&self) -> (action: Action)
        ensures
            action == self@.next_spec(),
            action is Done <==> self@.pending.len() == 0,
    {
        let n = self.stack.len();
        if n == 0 {
            Action::Done { hit: self.closest.hit }
        } else {
            match self.stack[n - 1] {
                Pending::Object(index) => Action::TestObject {
                    index,
                    t_min: self.closest.t_min,
                    t_max: self.closest.t_max,
                },
                Pending::Node(node) => Action::TestBox {
                    bbox: node.bbox,
                    t_min: self.closest.t_min,
                    t_max: self.closest.t_max,
                },
            }
        }
    }

    /// Takes in the caller's answer to what [`Traversal::next`] asked.
    pub fn advance(&mut self, reply: Reply)
        ensures
            final(self)@ == old(self)@.after(reply),
    {
        let n = self.stack.len();
        if n == 0 {
            return ;
        }
        let top = self.stack[n - 1];
        match (top, reply) {
            (Pending::Object(_), Reply::Probed(answer)) => {
                self.stack.pop();
                self.closest.offer(answer);
            },
            (Pending::Node(node), Reply::Crossed(crossed)) => {
                self.stack.pop();
                if crossed {
                    self.stack.push(pending_of(&node.right));
                    self.stack.push(pending_of(&node.left));
                }
            },
            _ => {},
        }
        proof {
            assert(final(self)@.pending =~= old(self)@.after(reply).pending);
        }
    }
}

/// An answer that is the ray's own does not change how the search ends.
pub proof fn true_answers_keep_the_outcome(state: State, probe: Probe, crosses: Crossing)
    requires
        state.pending.len() > 0,
    ensures
        state.after(state.true_reply(probe, crosses)).outcome(probe, crosses) == state.outcome(
            probe,
            crosses,
        ),
{
}

} // verus!
