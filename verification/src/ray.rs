//! A ray: a starting point and a direction.

use crate::util::Vec3f;
use vstd::prelude::*;

verus! {

/// The points `origin + t * direction`. The direction need not have length 1.
/// A ray is not changed once it is made.
#[derive(Copy, Clone, Debug, PartialEq, Eq, Structural)]
pub struct Ray {
    a: Vec3f,
    b: Vec3f,
}

impl Ray {
    /// Where the ray starts.
    pub closed spec fn origin_spec(self) -> Vec3f {
        self.a
    }

    /// The direction in which it runs.
    pub closed spec fn direction_spec(self) -> Vec3f {
        self.b
    }

    /// The ray that starts at `origin` and runs along `direction`.
    pub closed spec fn from(origin: Vec3f, direction: Vec3f) -> Ray {
        Ray { a: origin, b: direction }
    }

    pub fn new(a: &Vec3f, b: &Vec3f) -> (ray: Ray)
        ensures
            ray == Ray::from(*a, *b),
    {
        Ray { a: *a, b: *b }
    }

    pub fn origin(&self) -> (v: Vec3f)
        ensures
            v == self.origin_spec(),
    {
        self.a
    }

    pub fn direction(&self) -> (v: Vec3f)
        ensures
            v == self.direction_spec(),
    {
        self.b
    }
}

/// A ray is its origin and its direction, and nothing else.
pub broadcast proof fn lemma_ray_from(origin: Vec3f, direction: Vec3f)
    ensures
        (#[trigger] Ray::from(origin, direction)).origin_spec() == origin,
        Ray::from(origin, direction).direction_spec() == direction,
{
}

} // verus!
