//! Points, directions and colours as triples of numbers.

use crate::double::{lemma_one_scaled, lemma_scaled_magnitude_sign, Double, ONE_BITS};
use vstd::arithmetic::power2::pow2;
use vstd::prelude::*;

verus! {

/// A point or a direction in space.
#[derive(Copy, Clone, Debug, PartialEq, Eq, Structural)]
pub struct Vec3f {
    pub x: Double,
    pub y: Double,
    pub z: Double,
}

impl Vec3f {
    /// The triple `(1, 1, 1)`: a placeholder for a point or a direction that
    /// is not yet known. It is no unit vector.
    pub open spec fn ones() -> Vec3f {
        Vec3f {
            x: Double { bits: crate::double::ONE_BITS },
            y: Double { bits: crate::double::ONE_BITS },
            z: Double { bits: crate::double::ONE_BITS },
        }
    }

    /// The unit vector along the third axis, `(0, 0, 1)`.
    pub open spec fn axis_z() -> Vec3f {
        Vec3f { x: Double { bits: 0 }, y: Double { bits: 0 }, z: Double { bits: ONE_BITS } }
    }

    /// The squared length of the vector on the scale of the number model:
    /// the sum of the squares of its coordinates, each times `2^1074`. It is
    /// exact, and means nothing where a coordinate is a NaN.
    pub open spec fn squared_length_scaled(self) -> int {
        self.x.scaled() * self.x.scaled() + self.y.scaled() * self.y.scaled() + self.z.scaled()
            * self.z.scaled()
    }

    /// Whether the vector has length 1 exactly: no coordinate is a NaN, and
    /// the squares of the coordinates add up to 1.
    pub open spec fn is_unit(self) -> bool {
        &&& !self.x.is_nan_spec()
        &&& !self.y.is_nan_spec()
        &&& !self.z.is_nan_spec()
        &&& self.squared_length_scaled() == pow2(1074) * pow2(1074)
    }

    pub fn new(x: Double, y: Double, z: Double) -> (v: Vec3f)
        ensures
            v == (Vec3f { x, y, z }),
    {
        Vec3f { x, y, z }
    }

    /// The vector that points the other way: each coordinate times -1.
    pub open spec fn reversed_spec(self) -> Vec3f {
        Vec3f { x: self.x.negated(), y: self.y.negated(), z: self.z.negated() }
    }

    /// The vector that points the other way.
    pub fn reversed(&self) -> (v: Vec3f)
        ensures
            v == self.reversed_spec(),
    {
        Vec3f { x: self.x.neg(), y: self.y.neg(), z: self.z.neg() }
    }

    /// The triple `(1, 1, 1)`.
    pub fn new_unit_vec3f() -> (v: Vec3f)
        ensures
            v == Vec3f::ones(),
    {
        Vec3f { x: Double::one(), y: Double::one(), z: Double::one() }
    }
}

/// The vector `(0, 0, 1)` has length 1.
pub proof fn lemma_axis_z_is_unit()
    ensures
        Vec3f::axis_z().is_unit(),
{
    lemma_scaled_magnitude_sign(0);
    lemma_one_scaled();
    let one = pow2(1074) as int;
    assert(0 * 0 + 0 * 0 + one * one == one * one);
}

/// A colour: a factor for each of the red, green and blue channels.
///
/// Colours multiply channel by channel where directions add, so the two are
/// kept apart as types.
#[derive(Copy, Clone, Debug, PartialEq, Eq, Structural)]
pub struct Color {
    pub r: Double,
    pub b: Double,
    pub g: Double,
}

impl Color {
    /// White: the factor that leaves every channel as it is.
    pub open spec fn white() -> Color {
        Color {
            r: Double { bits: crate::double::ONE_BITS },
            b: Double { bits: crate::double::ONE_BITS },
            g: Double { bits: crate::double::ONE_BITS },
        }
    }

    pub fn new(r: Double, g: Double, b: Double) -> (c: Color)
        ensures
            c == (Color { r, b, g }),
    {
        Color { r, b, g }
    }
}

/// Whether a candidate point, given by its squared length, lies inside the
/// unit ball: the test by which random points are kept or drawn again.
pub fn inside_unit_ball(squared_length: Double) -> (r: bool)
    ensures
        r == squared_length.lt_spec(Double { bits: crate::double::ONE_BITS }),
{
    squared_length.lt(Double::one())
}

} // verus!
