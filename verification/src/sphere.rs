//! The sphere, and which of its two intersections with a ray counts.

use crate::double::Double;
use crate::hitable::HitRecord;
use crate::material::Material;
use crate::util::Vec3f;
use vstd::prelude::*;

verus! {

/// A sphere of one material. Its radius is above 0.
#[derive(Copy, Clone, Debug, PartialEq, Eq, Structural)]
pub struct Sphere {
    pub center: Vec3f,
    pub radius: Double,
    pub material: Material,
}

/// One point at which a ray's line meets a sphere.
#[derive(Copy, Clone, Debug, PartialEq, Eq, Structural)]
pub struct Touch {
    /// The ray parameter of the point.
    pub t: Double,
    /// The point: the ray at `t`.
    pub p: Vec3f,
    /// The point minus the centre, divided by the radius.
    pub normal: Vec3f,
}

/// The solution of `|O + t D - C|^2 = r^2` for a ray `O + t D` and a sphere of
/// centre `C` and radius `r`.
///
/// With `oc = O - C`, `a = D.D`, `b = oc.D` and `c = oc.oc - r^2`, the
/// discriminant is `b^2 - a c` and the roots are `(-b -/+ sqrt(discriminant)) / a`.
/// The roots mean nothing where the discriminant is not above 0.
#[derive(Copy, Clone, Debug, PartialEq, Eq, Structural)]
pub struct Crossing {
    pub discriminant: Double,
    /// The intersection at the smaller root.
    pub near: Touch,
    /// The intersection at the larger root.
    pub far: Touch,
}

impl Touch {
    /// Whether the parameter lies strictly inside `(t_min, t_max)`.
    pub open spec fn within(self, t_min: Double, t_max: Double) -> bool {
        self.t.lt_spec(t_max) && self.t.gt_spec(t_min)
    }
}

impl Crossing {
    /// The intersection that counts in the window `(t_min, t_max)`: none
    /// unless the discriminant is above 0; then the near one if it lies
    /// strictly inside the window, else the far one if that does.
    pub open spec fn chosen(self, t_min: Double, t_max: Double) -> Option<Touch> {
        if self.discriminant.gt_spec(Double { bits: 0 }) {
            if self.near.within(t_min, t_max) {
                Some(self.near)
            } else if self.far.within(t_min, t_max) {
                Some(self.far)
            } else {
                None
            }
        } else {
            None
        }
    }

    /// The roots come in order: the far one is not below the near one.
    pub open spec fn ordered(self) -> bool {
        !self.far.t.lt_spec(self.near.t)
    }
}

impl Sphere {
    /// The sphere of the given centre, radius and material. The radius is
    /// taken as it comes: nothing is checked, and a radius that is not above
    /// 0 gives normals that are no unit vectors pointing outward.
    pub fn new(center: Vec3f, radius: Double, material: Material) -> (sphere: Sphere)
        ensures
            sphere == (Sphere { center, radius, material }),
    {
        Sphere { center, radius, material }
    }

    /// The record of the intersection that counts, if one does: its
    /// parameter, point and normal, with the material of this sphere.
    pub open spec fn hit_spec(self, crossing: Crossing, t_min: Double, t_max: Double) -> Option<
        HitRecord,
    > {
        match crossing.chosen(t_min, t_max) {
            Some(touch) => Some(
                HitRecord { t: touch.t, p: touch.p, normal: touch.normal, material: self.material },
            ),
            None => None,
        }
    }

    /// Decides whether the ray behind `crossing` hits this sphere with a
    /// parameter strictly between `t_min` and `t_max`. Where it does, `record`
    /// is set to the intersection and the result is true; where it does not,
    /// `record` is left as it was.
    pub fn hit(
        &self,
        crossing: &Crossing,
        t_min: Double,
        t_max: Double,
        record: &mut HitRecord,
    ) -> (found: bool)
        ensures
            found == self.hit_spec(*crossing, t_min, t_max).is_some(),
            found ==> Some(*final(record)) == self.hit_spec(*crossing, t_min, t_max),
            found ==> final(record).within(t_min, t_max),
            !found ==> *final(record) == *old(record),
    {
        if crossing.discriminant.gt(Double::zero()) {
            let mut temp: Double = crossing.near.t;
            if temp.lt(t_max) && temp.gt(t_min) {
                record.t = temp;
                record.p = crossing.near.p;
                record.normal = crossing.near.normal;
                record.material = self.material;
                return true;
            }
            temp = crossing.far.t;
            if temp.lt(t_max) && temp.gt(t_min) {
                record.t = temp;
                record.p = crossing.far.p;
                record.normal = crossing.far.normal;
                record.material = self.material;
                return true;
            }
        }
        false
    }
}

/// Narrowing the window from above only ever removes a sphere's hit: with the
/// roots in order, the hit in `(t_min, limit)` is the hit in `(t_min, t_max)`
/// where that lies below `limit`, and none otherwise.
pub proof fn lemma_sphere_narrowing(
    sphere: Sphere,
    crossing: Crossing,
    t_min: Double,
    t_max: Double,
    limit: Double,
)
    requires
        crossing.ordered(),
        limit == t_max || limit.lt_spec(t_max),
    ensures
        sphere.hit_spec(crossing, t_min, limit) == match sphere.hit_spec(crossing, t_min, t_max) {
            Some(record) => if record.t.lt_spec(limit) {
                Some(record)
            } else {
                None
            },
            None => None,
        },
{
}

/// The near root comes first: with a discriminant above 0 and the near root
/// strictly inside the window, the hit is the near intersection, with the
/// material of the sphere, wherever the far root lies.
pub proof fn lemma_near_root_first(sphere: Sphere, crossing: Crossing, t_min: Double, t_max: Double)
    requires
        crossing.discriminant.gt_spec(Double { bits: 0 }),
        crossing.near.within(t_min, t_max),
    ensures
        sphere.hit_spec(crossing, t_min, t_max) == Some(
            HitRecord {
                t: crossing.near.t,
                p: crossing.near.p,
                normal: crossing.near.normal,
                material: sphere.material,
            },
        ),
{
}

/// The hit follows the roots: two crossings with the same discriminant and
/// the same two root parameters are hit or missed alike in any one window,
/// whatever the spheres and the rays behind them, and are hit at the same
/// parameter and at the same one of the two roots.
pub proof fn lemma_hit_follows_roots(
    one: Sphere,
    other: Sphere,
    a: Crossing,
    b: Crossing,
    t_min: Double,
    t_max: Double,
)
    requires
        a.discriminant == b.discriminant,
        a.near.t == b.near.t,
        a.far.t == b.far.t,
    ensures
        one.hit_spec(a, t_min, t_max).is_some() == other.hit_spec(b, t_min, t_max).is_some(),
        one.hit_spec(a, t_min, t_max) matches Some(first) ==> {
            let second = other.hit_spec(b, t_min, t_max)->0;
            &&& second.t == first.t
            &&& (a.chosen(t_min, t_max) == Some(a.near)) == (b.chosen(t_min, t_max) == Some(b.near))
            &&& (a.near.normal == b.near.normal && a.far.normal == b.far.normal ==> second.normal
                == first.normal)
        },
{
}

} // verus!
