//! Lists of objects, and the nearest hit among them.

use vstd::prelude::*;
use crate::aabb::AABB;
use crate::hit::HitRecord;
use crate::scalar::Scalar;

verus! {

/// What one ray finds at each object of a scene: the object's number and a
/// range of ray parameters give the object's answer, a hit within the range
/// or none.
pub type Probe = spec_fn(int, Scalar, Scalar) -> Option<HitRecord>;

/// The nearest hit found so far, and the range in which a nearer one is still
/// looked for.
#[derive(Clone, Copy, Debug, PartialEq, Eq, Structural)]
pub struct Closest {
    pub t_min: Scalar,
    /// The far end of the range: the bound that the search began with, or the
    /// parameter of the hit held.
    pub t_max: Scalar,
    pub hit: Option<HitRecord>,
}

impl Closest {
    pub open spec fn start(t_min: Scalar, t_max: Scalar) -> Closest {
        Closest { t_min, t_max, hit: None }
    }

    /// An answer that is a hit becomes the hit held, and the far end of the
    /// range, where it lies in the range that is left and, if a hit is held,
    /// is strictly nearer than that. Any other answer changes nothing: of two
    /// hits at one distance the one that was found first stays, and a hit
    /// whose parameter is a NaN is none.
    pub open spec fn offer_spec(self, answer: Option<HitRecord>) -> Closest {
        match answer {
            Some(hr) => if self.t_min.le_spec(hr.t) && hr.t.le_spec(self.t_max) && (self.hit
                matches Some(held) ==> hr.t.lt_spec(held.t)) {
                Closest { t_min: self.t_min, t_max: hr.t, hit: Some(hr) }
            } else {
                self
            },
            None => self,
        }
    }

    /// The far end of the range of a search that began with the far end
    /// `bound` and holds `hit`.
    pub open spec fn far_end(hit: Option<HitRecord>, bound: Scalar) -> Scalar {
        match hit {
            Some(hr) => hr.t,
            None => bound,
        }
    }

    /// The state belongs to a search over `[t_min, bound]`: a hit held lies
    /// in that range and is the far end of the range that is left.
    pub open spec fn spans(self, t_min: Scalar, bound: Scalar) -> bool {
        &&& self.t_min == t_min
        &&& self.t_max == Self::far_end(self.hit, bound)
        &&& self.hit matches Some(hr) ==> t_min.le_spec(hr.t) && hr.t.le_spec(bound)
    }

    /// The state of the same search over a range with the nearer far end
    /// `near`: the hit held is kept where it is still in range.
    pub open spec fn narrowed(self, near: Scalar) -> Closest {
        Closest {
            t_min: self.t_min,
            t_max: Self::far_end(within(self.hit, near), near),
            hit: within(self.hit, near),
        }
    }

    /// The state in which a search over `[t_min, t_max]` begins.
    pub fn new(t_min: Scalar, t_max: Scalar) -> (c: Closest)
        ensures
            c == Self::start(t_min, t_max),
    {
        Closest { t_min, t_max, hit: None }
    }

    /// The range in which the next object is to be asked.
    pub fn range(&self) -> (r: (Scalar, Scalar))
        ensures
            r == (self.t_min, self.t_max),
    {
        (self.t_min, self.t_max)
    }

    /// Takes in what the object asked with [`Closest::range`] has answered.
    pub fn offer(&mut self, answer: Option<HitRecord>)
        ensures
            *final(self) == old(self).offer_spec(answer),
    {
        if let Some(hr) = answer {
            let nearer = match self.hit {
                Some(held) => hr.t.lt(held.t),
                None => true,
            };
            if nearer && self.t_min.le(hr.t) && hr.t.le(self.t_max) {
                self.t_max = hr.t;
                self.hit = Some(hr);
            }
        }
    }

    /// The hit that the search ends with.
    pub fn into_hit(self) -> (hit: Option<HitRecord>)
        ensures
            hit == self.hit,
    {
        self.hit
    }
}

/// The state of a search after the objects `0 .. n` have been asked in
/// order, each within the range that the answers before it have left.
pub open spec fn scan(probe: Probe, n: nat, begin: Closest) -> Closest
    decreases n,
{
    if n == 0 {
        begin
    } else {
        let before = scan(probe, (n - 1) as nat, begin);
        before.offer_spec(probe(n - 1, before.t_min, before.t_max))
    }
}

/// What a list of `n` objects answers: the hit that is left when every
/// object has been asked in order, the nearest of their hits and of several
/// at that distance the first.
pub open spec fn linear_hit(probe: Probe, n: nat, t_min: Scalar, t_max: Scalar) -> Option<
    HitRecord,
> {
    scan(probe, n, Closest::start(t_min, t_max)).hit
}

/// A hit that is kept only where it lies within the far end `bound`.
pub open spec fn within(answer: Option<HitRecord>, bound: Scalar) -> Option<HitRecord> {
    match answer {
        Some(hr) => if hr.t.le_spec(bound) {
            answer
        } else {
            None
        },
        None => None,
    }
}

/// Object `i` answers with its nearest hit: a hit that it reports lies in the
/// range asked, and asked with a nearer far end it reports the same hit if
/// that is still in range, and none if not.
pub open spec fn answers_nearest(probe: Probe, i: int, t_min: Scalar, t_max: Scalar) -> bool {
    &&& probe(i, t_min, t_max) matches Some(hr) ==> t_min.le_spec(hr.t) && hr.t.le_spec(t_max)
    &&& forall|bound: Scalar| #[trigger]
        bound.le_spec(t_max) ==> probe(i, t_min, bound) == within(probe(i, t_min, t_max), bound)
}

/// A surface that a ray meets at one place only answers with its nearest
/// hit: a rectangle, a triangle or a disk, whose answer within a range is
/// the one meeting, where there is one and its parameter lies in the range.
pub proof fn single_hit_answers_nearest(
    probe: Probe,
    i: int,
    meeting: Option<HitRecord>,
    t_min: Scalar,
    t_max: Scalar,
)
    requires
        forall|bound: Scalar|
            #[trigger] probe(i, t_min, bound) == match meeting {
                Some(hr) => if t_min.le_spec(hr.t) && hr.t.le_spec(bound) {
                    meeting
                } else {
                    None
                },
                None => None,
            },
    ensures
        answers_nearest(probe, i, t_min, t_max),
{
}

/// `answer` is the nearest of the hits that the objects of `among` report in
/// `[t_min, t_max]`: none where none of them reports a hit, else the hit of
/// one of them than which none of them reports a nearer.
pub open spec fn is_nearest(
    probe: Probe,
    among: Set<int>,
    t_min: Scalar,
    t_max: Scalar,
    answer: Option<HitRecord>,
) -> bool {
    match answer {
        None => forall|i: int| among.contains(i) ==> #[trigger] probe(i, t_min, t_max) is None,
        Some(hr) => {
            &&& exists|j: int| among.contains(j) && #[trigger] probe(j, t_min, t_max) == Some(hr)
            &&& forall|i: int|
                among.contains(i) ==> (#[trigger] probe(i, t_min, t_max) matches Some(other)
                    ==> hr.t.le_spec(other.t))
        },
    }
}

/// The objects `0 .. n`.
pub open spec fn first_objects(n: nat) -> Set<int> {
    Set::new(|i: int| 0 <= i < n)
}

/// A list of objects. What an object is, is the caller's matter: the list
/// keeps them in the order in which they were added.
pub struct HittableList<T> {
    pub objects: Vec<T>,
}

impl<T> Default for HittableList<T> {
    /// The list without objects.
    fn default() -> (list: Self)
        ensures
            list.objects@ == Seq::<T>::empty(),
    {
        Self { objects: Vec::new() }
    }
}

impl<T> HittableList<T> {
    pub fn new(objects: Vec<T>) -> (list: Self)
        ensures
            list.objects@ == objects@,
    {
        Self { objects }
    }

    pub fn clear(&mut self)
        ensures
            final(self).objects@ == Seq::<T>::empty(),
    {
        self.objects.clear();
    }

    pub fn add(&mut self, obj: T)
        ensures
            final(self).objects@ == old(self).objects@.push(obj),
    {
        self.objects.push(obj);
    }

    pub fn len(&self) -> (n: usize)
        ensures
            n == self.objects@.len(),
    {
        self.objects.len()
    }

    pub fn is_empty(&self) -> (b: bool)
        ensures
            b <==> self.objects@.len() == 0,
    {
        self.objects.len() == 0
    }

    /// Whether the list holds no object.
    pub fn empty(&self) -> (b: bool)
        ensures
            b <==> self.objects@.len() == 0,
    {
        self.objects.len() == 0
    }

    /// One of the list's objects, picked at random.
    pub fn random(&self) -> (obj: &T)
        requires
            self.objects@.len() > 0,
        ensures
            exists|i: int| 0 <= i < self.objects@.len() && *obj == #[trigger] self.objects@[i],
    {
        let at = crate::util::random::uint(0, self.objects.len() - 1);
        &self.objects[at]
    }
}

/// A scan of a list under way: the objects before `next` have been asked, and
/// `closest` holds what they have answered.
///
/// Where a ray hits an object is arithmetic that the library leaves to its
/// caller. The scan says which object is to be asked next and within which
/// range, and takes the answer.
#[derive(Clone, Copy, Debug, PartialEq, Eq, Structural)]
pub struct Scan {
    pub next: usize,
    pub len: usize,
    pub closest: Closest,
}

impl Scan {
    /// The scan of a list of `len` objects begins before the first.
    pub open spec fn begin(len: usize, t_min: Scalar, t_max: Scalar) -> Scan {
        Scan { next: 0, len, closest: Closest::start(t_min, t_max) }
    }

    /// The scan after the object that was to be asked has answered. An
    /// answer that comes when every object has been asked changes nothing.
    pub open spec fn after(self, answer: Option<HitRecord>) -> Scan {
        if self.next < self.len {
            Scan {
                next: (self.next + 1) as usize,
                len: self.len,
                closest: self.closest.offer_spec(answer),
            }
        } else {
            self
        }
    }

    /// The hit with which the scan ends when every object answers as the ray
    /// has it answer.
    pub open spec fn outcome(self, probe: Probe) -> Option<HitRecord>
        decreases self.len - self.next,
    {
        if self.next < self.len {
            self.after(probe(self.next as int, self.closest.t_min, self.closest.t_max)).outcome(
                probe,
            )
        } else {
            self.closest.hit
        }
    }

    /// The scan of a list of `len` objects for the nearest hit within
    /// `[t_min, t_max]`.
    pub fn new(len: usize, t_min: Scalar, t_max: Scalar) -> (scan: Scan)
        ensures
            scan == Self::begin(len, t_min, t_max),
    {
        Scan { next: 0, len, closest: Closest::new(t_min, t_max) }
    }

    /// The object that is to be asked next, with the range in which it is
    /// asked; none when every object has been asked.
    pub fn pending(&self) -> (ask: Option<(usize, Scalar, Scalar)>)
        ensures
            self.next < self.len ==> ask == Some(
                (self.next, self.closest.t_min, self.closest.t_max),
            ),
            self.next >= self.len ==> ask is None,
    {
        if self.next < self.len {
            Some((self.next, self.closest.t_min, self.closest.t_max))
        } else {
            None
        }
    }

    /// Takes in the answer of the object that [`Scan::pending`] named.
    pub fn offer(&mut self, answer: Option<HitRecord>)
        ensures
            *final(self) == old(self).after(answer),
    {
        if self.next < self.len {
            self.next = self.next + 1;
            self.closest.offer(answer);
        }
    }

    /// The nearest hit among the objects asked so far.
    pub fn hit(&self) -> (hit: Option<HitRecord>)
        ensures
            hit == self.closest.hit,
    {
        self.closest.hit
    }
}

/// A scan that has asked the first objects of a list ends as the list
/// answers.
proof fn scan_runs_to_the_end(probe: Probe, done: usize, len: usize, t_min: Scalar, t_max: Scalar)
    requires
        done <= len,
    ensures
        (Scan {
            next: done,
            len,
            closest: scan(probe, done as nat, Closest::start(t_min, t_max)),
        }).outcome(probe) == linear_hit(probe, len as nat, t_min, t_max),
    decreases len - done,
{
    if done < len {
        scan_runs_to_the_end(probe, (done + 1) as usize, len, t_min, t_max);
    }
}

/// A scan whose objects answer as the ray has them answer ends with what
/// the list answers.
pub proof fn scan_ends_with_the_answer(probe: Probe, len: usize, t_min: Scalar, t_max: Scalar)
    ensures
        Scan::begin(len, t_min, t_max).outcome(probe) == linear_hit(
            probe,
            len as nat,
            t_min,
            t_max,
        ),
{
    scan_runs_to_the_end(probe, 0, len, t_min, t_max);
}

impl<T> HittableList<T> {
    /// Begins the scan of the list for the nearest hit of a ray within
    /// `[t_min, t_max]`.
    pub fn hit(&self, t_min: Scalar, t_max: Scalar) -> (scan: Scan)
        ensures
            scan == Scan::begin(self.objects@.len() as usize, t_min, t_max),
    {
        Scan::new(self.objects.len(), t_min, t_max)
    }
}

/// The box of a list whose objects have the boxes `boxes`, where `None`
/// stands for an object without a box.
pub open spec fn list_box(boxes: Seq<Option<AABB>>) -> Option<AABB>
    decreases boxes.len(),
{
    if boxes.len() == 0 {
        None
    } else if boxes.len() == 1 {
        boxes[0]
    } else {
        match (list_box(boxes.drop_last()), boxes.last()) {
            (Some(so_far), Some(next)) => Some(AABB::union_spec(so_far, next)),
            _ => None,
        }
    }
}

/// The bounding box of a list, from the boxes of its objects: the box that
/// surrounds them all, and none where the list is empty or one of its objects
/// has no box.
pub fn bounding_box(boxes: &[Option<AABB>]) -> (output_box: Option<AABB>)
    ensures
        output_box == list_box(boxes@),
        output_box is Some <==> boxes@.len() > 0 && forall|i: int|
            0 <= i < boxes@.len() ==> boxes@[i] is Some,
{
    let mut output_box: Option<AABB> = None;
    let mut i: usize = 0;
    while i < boxes.len()
        invariant
            i <= boxes.len(),
            output_box == list_box(boxes@.take(i as int)),
            output_box is Some <==> i > 0,
            forall|k: int| 0 <= k < i ==> boxes@[k] is Some,
        decreases boxes.len() - i,
    {
        proof {
            assert(boxes@.take(i + 1).drop_last() =~= boxes@.take(i as int));
            assert(boxes@.take(i + 1).last() == boxes@[i as int]);
        }
        match boxes[i] {
            Some(tmp_box) => {
                output_box = Some(
                    match output_box {
                        Some(ob) => AABB::surrounding_box(ob, tmp_box),
                        None => tmp_box,
                    },
                );
            },
            None => {
                proof {
                    never_some_after_none(boxes@, i as int);
                }
                return None;
            },
        }
        i = i + 1;
    }
    proof {
        assert(boxes@.take(i as int) =~= boxes@);
    }
    output_box
}

/// A list with an object that has no box has no box.
pub proof fn never_some_after_none(boxes: Seq<Option<AABB>>, at: int)
    requires
        0 <= at < boxes.len(),
        boxes[at] is None,
    ensures
        list_box(boxes) is None,
    decreases boxes.len(),
{
    if at < boxes.len() - 1 {
        never_some_after_none(boxes.drop_last(), at);
    }
}

/// What a list answers lies in the range asked, whatever its objects
/// answer: an answer outside the range that is left is not taken.
pub proof fn list_hit_lies_in_range(probe: Probe, n: nat, t_min: Scalar, t_max: Scalar)
    ensures
        scan(probe, n, Closest::start(t_min, t_max)).spans(t_min, t_max),
        linear_hit(probe, n, t_min, t_max) matches Some(hr) ==> t_min.le_spec(hr.t) && hr.t.le_spec(
            t_max,
        ),
    decreases n,
{
    if n > 0 {
        list_hit_lies_in_range(probe, (n - 1) as nat, t_min, t_max);
    }
}

/// What a list answers within a nearer far end is what it answers within the
/// farther one, kept where it is still in range: where every object of a
/// list answers with its nearest hit, so does the list, and can stand as one
/// object in a larger list or under a hierarchy.
pub proof fn list_answers_nearest(
    probe: Probe,
    n: nat,
    t_min: Scalar,
    t_max: Scalar,
    bound: Scalar,
)
    requires
        forall|i: int| 0 <= i < n ==> #[trigger] answers_nearest(probe, i, t_min, t_max),
        bound.le_spec(t_max),
    ensures
        linear_hit(probe, n, t_min, bound) == within(linear_hit(probe, n, t_min, t_max), bound),
        linear_hit(probe, n, t_min, t_max) matches Some(hr) ==> t_min.le_spec(hr.t) && hr.t.le_spec(
            t_max,
        ),
        scan(probe, n, Closest::start(t_min, t_max)).spans(t_min, t_max),
        scan(probe, n, Closest::start(t_min, bound)) == scan(
            probe,
            n,
            Closest::start(t_min, t_max),
        ).narrowed(bound),
    decreases n,
{
    if n > 0 {
        let m = (n - 1) as nat;
        list_answers_nearest(probe, m, t_min, t_max, bound);
        assert(answers_nearest(probe, m as int, t_min, t_max));
        offer_narrows(
            probe,
            m as int,
            t_min,
            t_max,
            t_max,
            bound,
            scan(probe, m, Closest::start(t_min, t_max)),
        );
    }
}

/// An object that answers with its nearest hit answers so within every
/// nearer far end: its answer there is its widest answer, kept where it is
/// still in range.
pub proof fn narrower_answers(probe: Probe, i: int, t_min: Scalar, t_max: Scalar, bound: Scalar)
    requires
        answers_nearest(probe, i, t_min, t_max),
        bound == t_max || bound.le_spec(t_max),
    ensures
        probe(i, t_min, bound) == within(probe(i, t_min, t_max), bound),
        probe(i, t_min, bound) matches Some(hr) ==> t_min.le_spec(hr.t) && hr.t.le_spec(bound)
            && hr.t.le_spec(t_max),
{
}

/// One more object asked leaves the search with the nearest hit of those
/// asked: where the state holds the nearest hit of the objects of `among`
/// within `[t_min, bound]`, and object `i` answers with its nearest hit, the
/// state after that object's answer holds the nearest hit of `among` and `i`.
pub proof fn offer_keeps_nearest(
    probe: Probe,
    among: Set<int>,
    i: int,
    t_min: Scalar,
    t_max: Scalar,
    bound: Scalar,
    so_far: Closest,
)
    requires
        answers_nearest(probe, i, t_min, t_max),
        bound == t_max || bound.le_spec(t_max),
        so_far.spans(t_min, bound),
        is_nearest(probe, among, t_min, bound, so_far.hit),
    ensures
        so_far.offer_spec(probe(i, so_far.t_min, so_far.t_max)).spans(t_min, bound),
        is_nearest(
            probe,
            among.insert(i),
            t_min,
            bound,
            so_far.offer_spec(probe(i, so_far.t_min, so_far.t_max)).hit,
        ),
{
    let asked = probe(i, t_min, so_far.t_max);
    let after = so_far.offer_spec(asked);
    let wide = probe(i, t_min, bound);
    narrower_answers(probe, i, t_min, t_max, bound);
    narrower_answers(probe, i, t_min, t_max, so_far.t_max);
    assert(among.insert(i).contains(i));
    match so_far.hit {
        None => {
            assert(asked == wide);
        },
        Some(held) => {
            let j = choose|j: int| among.contains(j) && #[trigger] probe(j, t_min, bound) == Some(held);
            assert(among.insert(i).contains(j));
            assert(asked == within(wide, held.t));
        },
    }
}

/// The same object asked in a search over a nearer far end: the state after
/// its answer is the state of the wider search after its answer, narrowed.
pub proof fn offer_narrows(
    probe: Probe,
    i: int,
    t_min: Scalar,
    t_max: Scalar,
    far: Scalar,
    near: Scalar,
    so_far: Closest,
)
    requires
        answers_nearest(probe, i, t_min, t_max),
        far == t_max || far.le_spec(t_max),
        near.le_spec(far),
        so_far.spans(t_min, far),
    ensures
        so_far.offer_spec(probe(i, so_far.t_min, so_far.t_max)).spans(t_min, far),
        so_far.narrowed(near).offer_spec(
            probe(i, so_far.narrowed(near).t_min, so_far.narrowed(near).t_max),
        ) == so_far.offer_spec(probe(i, so_far.t_min, so_far.t_max)).narrowed(near),
{
    let narrow = so_far.narrowed(near);
    narrower_answers(probe, i, t_min, t_max, far);
    narrower_answers(probe, i, t_min, t_max, so_far.t_max);
    narrower_answers(probe, i, t_min, t_max, narrow.t_max);
}

/// The box of a list encloses the box of each of its objects.
pub proof fn list_box_encloses_every_box(boxes: Seq<Option<AABB>>, at: int)
    requires
        0 <= at < boxes.len(),
        forall|i: int|
            0 <= i < boxes.len() ==> (#[trigger] boxes[i]) is Some && boxes[i]->0.wf(),
    ensures
        list_box(boxes) is Some,
        list_box(boxes)->0.wf(),
        list_box(boxes)->0.encloses(boxes[at]->0),
    decreases boxes.len(),
{
    if boxes.len() > 1 {
        let before = boxes.drop_last();
        assert(boxes.last() is Some);
        list_box_encloses_every_box(before, if at < before.len() { at } else { 0 });
        crate::aabb::surrounding_box_is_least_enclosure(
            list_box(before)->0,
            boxes.last()->0,
            boxes.last()->0,
        );
    } else {
        assert(boxes[0] is Some);
    }
}

/// A linear scan reports the nearest hit: where every object of a list
/// answers with its nearest hit, the list answers with the nearest of them
/// all, and of several at that distance with the first in the list.
pub proof fn linear_scan_finds_nearest(probe: Probe, n: nat, t_min: Scalar, t_max: Scalar)
    requires
        forall|i: int| 0 <= i < n ==> #[trigger] answers_nearest(probe, i, t_min, t_max),
    ensures
        is_nearest(probe, first_objects(n), t_min, t_max, linear_hit(probe, n, t_min, t_max)),
        scan(probe, n, Closest::start(t_min, t_max)).spans(t_min, t_max),
    decreases n,
{
    if n > 0 {
        let m = (n - 1) as nat;
        linear_scan_finds_nearest(probe, m, t_min, t_max);
        assert(answers_nearest(probe, m as int, t_min, t_max));
        offer_keeps_nearest(
            probe,
            first_objects(m),
            m as int,
            t_min,
            t_max,
            t_max,
            scan(probe, m, Closest::start(t_min, t_max)),
        );
        assert(first_objects(m).insert(m as int) =~= first_objects(n));
    }
}

} // verus!
