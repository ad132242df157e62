//! Triples of numbers: vectors, points and colours.

use vstd::prelude::*;
use crate::scalar::Scalar;

verus! {

/// The pattern of 1e-8, below which a component counts as zero.
pub const NEAR_ZERO_BITS: u64 = 0x3E45_798E_E230_8C3A;

/// One of the three coordinate axes.
#[derive(Clone, Copy, Debug, PartialEq, Eq, Structural)]
pub enum Axis {
    X,
    Y,
    Z,
}

impl Axis {
    pub open spec fn index_spec(self) -> int {
        match self {
            Axis::X => 0,
            Axis::Y => 1,
            Axis::Z => 2,
        }
    }

    /// The place of the axis's component in a triple.
    pub fn index(self) -> (idx: usize)
        ensures
            idx == self.index_spec(),
            idx < 3,
    {
        match self {
            Axis::X => 0,
            Axis::Y => 1,
            Axis::Z => 2,
        }
    }

    /// The axis of a component's place; `None` for a place that a triple does
    /// not have.
    pub fn from_index(idx: usize) -> (axis: Option<Axis>)
        ensures
            idx < 3 <==> axis is Some,
            axis matches Some(a) ==> a.index_spec() == idx,
    {
        if idx == 0 {
            Some(Axis::X)
        } else if idx == 1 {
            Some(Axis::Y)
        } else if idx == 2 {
            Some(Axis::Z)
        } else {
            None
        }
    }
}

/// Three numbers: a direction, a place or a colour.
#[derive(Clone, Copy, Debug, PartialEq, Eq, Structural)]
pub struct Vec3(pub Scalar, pub Scalar, pub Scalar);

pub type Point3 = Vec3;

pub type Color = Vec3;

#[allow(non_snake_case)]
pub fn Point3(x: Scalar, y: Scalar, z: Scalar) -> (p: Point3)
    ensures
        p == Vec3(x, y, z),
{
    Vec3(x, y, z)
}

#[allow(non_snake_case)]
pub fn Color(r: Scalar, g: Scalar, b: Scalar) -> (c: Color)
    ensures
        c == Vec3(r, g, b),
{
    Vec3(r, g, b)
}

impl Vec3 {
    /// The component along an axis.
    pub open spec fn axis_spec(&self, d: Axis) -> Scalar {
        match d {
            Axis::X => self.0,
            Axis::Y => self.1,
            Axis::Z => self.2,
        }
    }

    /// The component at a place, the third for every place past the second.
    pub open spec fn get_spec(self, idx: int) -> Scalar {
        if idx == 0 {
            self.0
        } else if idx == 1 {
            self.1
        } else {
            self.2
        }
    }

    /// The triple with one component replaced.
    pub open spec fn with_spec(self, idx: int, value: Scalar) -> Vec3 {
        if idx == 0 {
            Vec3(value, self.1, self.2)
        } else if idx == 1 {
            Vec3(self.0, value, self.2)
        } else {
            Vec3(self.0, self.1, value)
        }
    }

    pub open spec fn neg_spec(self) -> Vec3 {
        Vec3(self.0.neg_spec(), self.1.neg_spec(), self.2.neg_spec())
    }

    pub open spec fn is_nan_spec(&self) -> bool {
        self.0.is_nan_spec() || self.1.is_nan_spec() || self.2.is_nan_spec()
    }

    /// Every component is closer to zero than 1e-8.
    pub open spec fn near_zero_spec(&self) -> bool {
        let s = Scalar { bits: NEAR_ZERO_BITS };
        self.0.abs_spec().lt_spec(s) && self.1.abs_spec().lt_spec(s) && self.2.abs_spec().lt_spec(
            s,
        )
    }

    /// The triple of three positive zeros.
    pub fn new() -> (v: Vec3)
        ensures
            v == Vec3(Scalar { bits: 0 }, Scalar { bits: 0 }, Scalar { bits: 0 }),
    {
        Vec3(Scalar { bits: 0 }, Scalar { bits: 0 }, Scalar { bits: 0 })
    }

    pub fn x(&self) -> (s: Scalar)
        ensures
            s == self.0,
    {
        self.0
    }

    pub fn y(&self) -> (s: Scalar)
        ensures
            s == self.1,
    {
        self.1
    }

    pub fn z(&self) -> (s: Scalar)
        ensures
            s == self.2,
    {
        self.2
    }

    pub fn r(&self) -> (s: Scalar)
        ensures
            s == self.0,
    {
        self.0
    }

    pub fn g(&self) -> (s: Scalar)
        ensures
            s == self.1,
    {
        self.1
    }

    pub fn b(&self) -> (s: Scalar)
        ensures
            s == self.2,
    {
        self.2
    }

    #[verifier::when_used_as_spec(axis_spec)]
    pub fn axis(&self, d: Axis) -> (s: Scalar)
        ensures
            s == self.axis_spec(d),
            s == self.get_spec(d.index_spec()),
    {
        match d {
            Axis::X => self.0,
            Axis::Y => self.1,
            Axis::Z => self.2,
        }
    }

    /// The component at place `idx`.
    pub fn get(&self, idx: usize) -> (s: Scalar)
        requires
            idx < 3,
        ensures
            s == self.get_spec(idx as int),
    {
        if idx == 0 {
            self.0
        } else if idx == 1 {
            self.1
        } else {
            self.2
        }
    }

    /// Replaces the component at place `idx`.
    pub fn set(&mut self, idx: usize, value: Scalar)
        requires
            idx < 3,
        ensures
            *final(self) == old(self).with_spec(idx as int, value),
    {
        if idx == 0 {
            self.0 = value;
        } else if idx == 1 {
            self.1 = value;
        } else {
            self.2 = value;
        }
    }

    /// The opposite vector: each component with its sign flipped.
    #[verifier::when_used_as_spec(neg_spec)]
    pub fn neg(self) -> (v: Vec3)
        ensures
            v == self.neg_spec(),
    {
        Vec3(self.0.neg(), self.1.neg(), self.2.neg())
    }

    #[verifier::when_used_as_spec(near_zero_spec)]
    pub fn near_zero(&self) -> (b: bool)
        ensures
            b == self.near_zero_spec(),
    {
        let s = Scalar { bits: NEAR_ZERO_BITS };
        self.0.abs().lt(s) && self.1.abs().lt(s) && self.2.abs().lt(s)
    }

    #[verifier::when_used_as_spec(is_nan_spec)]
    pub fn is_nan(&self) -> (b: bool)
        ensures
            b == self.is_nan_spec(),
    {
        self.0.is_nan() || self.1.is_nan() || self.2.is_nan()
    }

    /// The vector turned to the side of a normal: itself where `alignment`,
    /// its dot product with the normal, is above zero, and its opposite else.
    pub fn toward(self, alignment: Scalar) -> (v: Vec3)
        ensures
            v == if (Scalar { bits: 0 }).lt_spec(alignment) {
                self
            } else {
                self.neg_spec()
            },
    {
        if (Scalar { bits: 0 }).lt(alignment) {
            self
        } else {
            self.neg()
        }
    }

    /// The three components in order.
    pub fn to_array(self) -> (a: [Scalar; 3])
        ensures
            a@ == seq![self.0, self.1, self.2],
    {
        [self.0, self.1, self.2]
    }

    /// The triple of an array's three elements.
    pub fn from_array(a: [Scalar; 3]) -> (v: Vec3)
        ensures
            v == Vec3(a@[0], a@[1], a@[2]),
    {
        Vec3(a[0], a[1], a[2])
    }
}

} // verus!
