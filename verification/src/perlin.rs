//! The lattice of gradient noise: shuffled tables, and the gradient at a
//! corner of a cell.

use vstd::prelude::*;
use crate::util::random;
use crate::vec3::Vec3;

verus! {

/// The number of gradients, and the length of each table.
pub const POINT_COUNT: usize = 256;

/// A table holds each of the numbers below its length once.
pub open spec fn is_shuffle(table: Seq<usize>) -> bool {
    &&& forall|i: int| 0 <= i < table.len() ==> (#[trigger] table[i]) < table.len()
    &&& forall|i: int, j: int|
        0 <= i < j < table.len() ==> (#[trigger] table[i]) != (#[trigger] table[j])
}

/// The gradients of a noise, and the three tables that spread them over the
/// lattice.
pub struct Perlin {
    pub ranvec: Vec<Vec3>,
    pub perm_x: Vec<usize>,
    pub perm_y: Vec<usize>,
    pub perm_z: Vec<usize>,
}

/// The place of a lattice coordinate in a table: the coordinate's lowest
/// eight bits.
pub open spec fn wrapped(c: i32) -> int {
    c as int % (POINT_COUNT as int)
}

/// The place of a lattice coordinate in a table.
pub fn wrap(c: i32) -> (at: usize)
    ensures
        at == wrapped(c),
        at < POINT_COUNT,
{
    let m: i32 = c % 256;
    if m < 0 {
        (m + 256) as usize
    } else {
        m as usize
    }
}

/// The exclusive or of three numbers below 256 is below 256.
proof fn xor_stays_in_table(a: usize, b: usize, c: usize)
    by (bit_vector)
    requires
        a < 256,
        b < 256,
        c < 256,
    ensures
        (a ^ b ^ c) < 256,
{
}

impl Perlin {
    /// There are as many gradients as a table has entries, and each table is
    /// a shuffle.
    pub open spec fn wf(&self) -> bool {
        &&& self.ranvec@.len() == POINT_COUNT
        &&& self.perm_x@.len() == POINT_COUNT
        &&& self.perm_y@.len() == POINT_COUNT
        &&& self.perm_z@.len() == POINT_COUNT
        &&& is_shuffle(self.perm_x@)
        &&& is_shuffle(self.perm_y@)
        &&& is_shuffle(self.perm_z@)
    }

    /// A noise over the given gradients, with three tables shuffled afresh.
    pub fn new(ranvec: Vec<Vec3>) -> (noise: Perlin)
        requires
            ranvec@.len() == POINT_COUNT,
        ensures
            noise.wf(),
            noise.ranvec == ranvec,
    {
        let perm_x = Self::perlin_generate_perm();
        let perm_y = Self::perlin_generate_perm();
        let perm_z = Self::perlin_generate_perm();
        Perlin { ranvec, perm_x, perm_y, perm_z }
    }

    /// The place among the gradients of the gradient at the lattice point
    /// `(i, j, k)`.
    pub open spec fn corner_index_spec(&self, i: i32, j: i32, k: i32) -> usize {
        self.perm_x@[wrapped(i)] ^ self.perm_y@[wrapped(j)] ^ self.perm_z@[wrapped(k)]
    }

    /// The gradient at the lattice point `(i, j, k)`.
    pub fn corner(&self, i: i32, j: i32, k: i32) -> (gradient: Vec3)
        requires
            self.wf(),
        ensures
            self.corner_index_spec(i, j, k) < POINT_COUNT,
            gradient == self.ranvec@[self.corner_index_spec(i, j, k) as int],
    {
        let a = self.perm_x[wrap(i)];
        let b = self.perm_y[wrap(j)];
        let c = self.perm_z[wrap(k)];
        proof {
            xor_stays_in_table(a, b, c);
        }
        self.ranvec[a ^ b ^ c]
    }

    /// A table of the numbers below [`POINT_COUNT`], shuffled.
    pub fn perlin_generate_perm() -> (table: Vec<usize>)
        ensures
            table@.len() == POINT_COUNT,
            is_shuffle(table@),
    {
        let mut table: Vec<usize> = Vec::new();
        let mut i: usize = 0;
        while i < POINT_COUNT
            invariant
                i <= POINT_COUNT,
                table@.len() == i,
                forall|k: int| 0 <= k < i ==> #[trigger] table@[k] == k,
            decreases POINT_COUNT - i,
        {
            table.push(i);
            i = i + 1;
        }
        Self::permute(&mut table);
        table
    }

    /// Shuffles a table: from the last place down, each entry changes places
    /// with one picked at random at or before it.
    pub fn permute(arr: &mut Vec<usize>)
        ensures
            final(arr)@.len() == old(arr)@.len(),
            final(arr)@.to_multiset() =~= old(arr)@.to_multiset(),
            is_shuffle(old(arr)@) ==> is_shuffle(final(arr)@),
            exists|draws: Seq<usize>|
                reach_back(draws, old(arr)@.len()) && final(arr)@ == #[trigger] swapped_down(
                    old(arr)@,
                    draws,
                    old(arr)@.len(),
                ),
    {
        let n: usize = arr.len();
        let mut draws: Vec<usize> = Vec::new();
        let mut k: usize = 0;
        while k < n
            invariant
                k <= n,
                draws@.len() == k,
                forall|j: int| 0 <= j < k ==> #[trigger] draws@[j] == 0,
            decreases n - k,
        {
            draws.push(0);
            k = k + 1;
        }
        let mut i: usize = n;
        while i > 0
            invariant
                i <= n,
                draws@.len() == n,
                forall|j: int| 0 <= j < n ==> #[trigger] draws@[j] <= j,
            decreases i,
        {
            i = i - 1;
            let target = random::uint(0, i);
            draws.set(i, target);
        }
        Self::permute_by(arr, &draws);
        proof {
            assert(reach_back(draws@, old(arr)@.len()));
        }
    }
}

/// Each place's draw is a place at or before it.
pub open spec fn reach_back(draws: Seq<usize>, len: nat) -> bool {
    &&& draws.len() == len
    &&& forall|i: int| 0 <= i < len ==> #[trigger] draws[i] <= i
}

/// The sequence with the entries at two places exchanged.
pub open spec fn exchanged(s: Seq<usize>, i: int, j: int) -> Seq<usize> {
    s.update(i, s[j]).update(j, s[i])
}

/// A table after `steps` exchanges: from the last place down, the entry at
/// each place has changed places with the entry at the place drawn for it.
pub open spec fn swapped_down(s: Seq<usize>, draws: Seq<usize>, steps: nat) -> Seq<usize>
    decreases steps,
{
    if steps == 0 {
        s
    } else {
        let at = s.len() - steps;
        exchanged(swapped_down(s, draws, (steps - 1) as nat), at, draws[at] as int)
    }
}

impl Perlin {
    /// Shuffles a table by given draws: from the last place down, each entry
    /// changes places with the entry at the place that `draws` names for it.
    pub fn permute_by(arr: &mut Vec<usize>, draws: &Vec<usize>)
        requires
            draws@.len() == old(arr)@.len(),
            forall|i: int| 0 <= i < draws@.len() ==> #[trigger] draws@[i] < draws@.len(),
        ensures
            final(arr)@ == swapped_down(old(arr)@, draws@, old(arr)@.len()),
            final(arr)@.len() == old(arr)@.len(),
            final(arr)@.to_multiset() =~= old(arr)@.to_multiset(),
            is_shuffle(old(arr)@) ==> is_shuffle(final(arr)@),
    {
        let n: usize = arr.len();
        let mut i: usize = n;
        while i > 0
            invariant
                i <= n,
                n == old(arr)@.len(),
                draws@.len() == n,
                forall|j: int| 0 <= j < n ==> #[trigger] draws@[j] < n,
                arr@.len() == n,
                arr@ == swapped_down(old(arr)@, draws@, (n - i) as nat),
                arr@.to_multiset() =~= old(arr)@.to_multiset(),
                is_shuffle(old(arr)@) ==> is_shuffle(arr@),
            decreases i,
        {
            i = i - 1;
            let target = draws[i];
            let ghost before = arr@;
            let a = arr[i];
            let b = arr[target];
            arr.set(i, b);
            arr.set(target, a);
            proof {
                swapping_keeps_the_entries(before, i as int, target as int);
                assert(arr@ =~= exchanged(before, i as int, target as int));
            }
        }
    }
}

/// Two entries that change places leave a sequence with the entries that it
/// had.
pub proof fn swapping_keeps_the_entries(s: Seq<usize>, i: int, j: int)
    requires
        0 <= i < s.len(),
        0 <= j < s.len(),
    ensures
        s.update(i, s[j]).update(j, s[i]).to_multiset() =~= s.to_multiset(),
        is_shuffle(s) ==> is_shuffle(s.update(i, s[j]).update(j, s[i])),
{
    let swapped = s.update(i, s[j]).update(j, s[i]);
    let mid = s.update(i, s[j]);
    assert(mid =~= s.remove(i).insert(i, s[j]));
    assert(swapped =~= mid.remove(j).insert(j, s[i]));
    vstd::seq_lib::to_multiset_remove(s, i);
    vstd::seq_lib::to_multiset_insert(s.remove(i), i, s[j]);
    vstd::seq_lib::to_multiset_remove(mid, j);
    vstd::seq_lib::to_multiset_insert(mid.remove(j), j, s[i]);
    s.to_multiset_ensures();
    mid.to_multiset_ensures();
    assert(s.contains(s[i]));
    assert(mid.contains(mid[j]));
    assert(swapped.to_multiset() =~= s.to_multiset());
    if is_shuffle(s) {
        assert forall|a: int, b: int| 0 <= a < b < swapped.len() implies (#[trigger] swapped[a])
            != (#[trigger] swapped[b]) by {
            let from_a = if a == i {
                j
            } else if a == j {
                i
            } else {
                a
            };
            let from_b = if b == i {
                j
            } else if b == j {
                i
            } else {
                b
            };
            assert(swapped[a] == s[from_a]);
            assert(swapped[b] == s[from_b]);
            if from_a < from_b {
                assert(s[from_a] != s[from_b]);
            } else {
                assert(s[from_b] != s[from_a]);
            }
        }
    }
}

} // verus!
