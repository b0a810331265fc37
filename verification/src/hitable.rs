//! What an intersection is, and what it takes to be hit by a ray.

use crate::double::Double;
use crate::material::Material;
use crate::ray::Ray;
use crate::util::{lemma_axis_z_is_unit, Vec3f};
use vstd::prelude::*;

verus! {

/// One intersection of a ray with a surface.
#[derive(Copy, Clone, Debug, PartialEq, Eq, Structural)]
pub struct HitRecord {
    /// The ray parameter at which the surface is met.
    pub t: Double,
    /// The point that is met.
    pub p: Vec3f,
    /// The surface normal there, of length 1. It may point either way.
    pub normal: Vec3f,
    /// The material of the surface.
    pub material: Material,
}

impl HitRecord {
    /// The record that a query starts from, before anything is hit. It stands
    /// for no intersection: its parameter is 0, its point is the placeholder
    /// `(1, 1, 1)`, and it has no material. Its normal is the unit vector
    /// `(0, 0, 1)`, so that the normal of every record has length 1.
    pub open spec fn blank() -> HitRecord {
        HitRecord {
            t: Double { bits: 0 },
            p: Vec3f::ones(),
            normal: Vec3f::axis_z(),
            material: Material::NoMaterial,
        }
    }

    /// Whether the record's parameter lies strictly inside `(t_min, t_max)`.
    pub open spec fn within(self, t_min: Double, t_max: Double) -> bool {
        t_min.lt_spec(self.t) && self.t.lt_spec(t_max)
    }

    /// The blank record. Its normal has length 1.
    pub fn new() -> (record: HitRecord)
        ensures
            record == HitRecord::blank(),
            record.normal.is_unit(),
    {
        proof {
            lemma_axis_z_is_unit();
        }
        HitRecord {
            t: Double::zero(),
            p: Vec3f::new_unit_vec3f(),
            normal: Vec3f::new(Double::zero(), Double::zero(), Double::one()),
            material: Material::new(),
        }
    }
}

/// Something that a ray can hit.
///
/// An implementation answers for one shape. Its answer depends on the ray and
/// the window alone, and an intersection that it reports lies strictly inside
/// the window. Nothing here checks an implementation from outside this
/// library against these demands: what is proved of a scene holds for shapes
/// that meet them. Code compiled without Verus sees `hit_spec` as an ordinary
/// method, and gives it the record that `hit` finds.
pub trait Hitable {
    /// The intersection that this object reports for `ray` in the open window
    /// `(t_min, t_max)`, if it reports one.
    spec fn hit_spec(&self, ray: Ray, t_min: Double, t_max: Double) -> Option<HitRecord>;

    /// Looks for an intersection of `ray` with parameter strictly between
    /// `t_min` and `t_max`. Where there is one, `record` is set to it and the
    /// result is true; where there is none, `record` is left as it was.
    fn hit(&self, ray: &Ray, t_min: Double, t_max: Double, record: &mut HitRecord) -> (found: bool)
        ensures
            found == self.hit_spec(*ray, t_min, t_max).is_some(),
            found ==> Some(*final(record)) == self.hit_spec(*ray, t_min, t_max),
            found ==> final(record).within(t_min, t_max),
            !found ==> *final(record) == *old(record),
    ;
}

} // verus!
