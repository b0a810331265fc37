//! The scattering laws: what a surface does with a ray that hits it.
//!
//! Each law has a part that computes (a mirrored direction, a refracted one, a
//! reflectance) and a part that decides (whether the ray is absorbed, which of
//! two directions it takes). The first part is handed in as a
//! [`ScatterSample`]; the second is [`Material::scatter`].

use crate::double::{Double, ONE_BITS};
use crate::hitable::HitRecord;
use crate::ray::Ray;
use crate::util::{Color, Vec3f};
use vstd::prelude::*;

verus! {

pub type Albedo = Color;

pub type Fuzz = Double;

pub type RefractiveIndex = Double;

/// The kinds of surface.
#[derive(Copy, Clone, Debug, PartialEq, Eq, Structural)]
pub enum Material {
    /// No material yet: what a blank record carries. A scene holds none.
    NoMaterial,
    /// A matte surface of the given colour.
    Diffuse(Albedo),
    /// A mirror of the given colour, the rougher the larger the fuzz.
    Metal(Albedo, Fuzz),
    /// Clear glass of the given refractive index.
    Dielectric(RefractiveIndex),
}

/// A refracted direction, with the share of light that is mirrored instead.
#[derive(Copy, Clone, Debug, PartialEq, Eq, Structural)]
pub struct Refraction {
    /// The direction of the ray beyond the surface.
    pub direction: Vec3f,
    /// The reflectance at this angle of incidence, between 0 and 1.
    pub reflectance: Double,
}

/// What was computed and drawn for one scattering, by kind of surface.
#[derive(Copy, Clone, Debug, PartialEq, Eq, Structural)]
pub enum ScatterSample {
    /// For a matte surface: the normal plus a random point of the unit ball.
    Diffuse { direction: Vec3f },
    /// For a mirror: the mirrored direction plus fuzz times a random point of
    /// the unit ball, and the dot product of that sum with the normal.
    Metal { direction: Vec3f, facing: Double },
    /// For glass: the mirrored direction, the refraction where there is one,
    /// and a number drawn uniformly from `[0, 1)`.
    Dielectric { reflected: Vec3f, refraction: Option<Refraction>, coin: Double },
}

impl ScatterSample {
    /// Whether the sample is of the kind that `material` asks for. A surface
    /// without material asks for nothing and takes any.
    pub open spec fn suits_spec(self, material: Material) -> bool {
        match material {
            Material::NoMaterial => true,
            Material::Diffuse(_) => self is Diffuse,
            Material::Metal(_, _) => self is Metal,
            Material::Dielectric(_) => self is Dielectric,
        }
    }

    /// Whether the sample is of the kind that `material` asks for.
    pub fn suits(&self, material: &Material) -> (r: bool)
        ensures
            r == self.suits_spec(*material),
    {
        match material {
            Material::NoMaterial => true,
            Material::Diffuse(_) => match self {
                ScatterSample::Diffuse { .. } => true,
                _ => false,
            },
            Material::Metal(_, _) => match self {
                ScatterSample::Metal { .. } => true,
                _ => false,
            },
            Material::Dielectric(_) => match self {
                ScatterSample::Dielectric { .. } => true,
                _ => false,
            },
        }
    }
}

/// The fuzz that a mirror is given, held to at most 1: a fuzz that is not
/// below 1 counts as 1.
pub open spec fn clamped_fuzz(fuzz: Double) -> Double {
    if fuzz.lt_spec(Double { bits: ONE_BITS }) {
        fuzz
    } else {
        Double { bits: ONE_BITS }
    }
}

/// The direction that glass sends a ray in. With a refraction at hand the ray
/// is mirrored where the coin falls below the reflectance and refracted
/// otherwise. Without one the reflection is total: the ray is mirrored for
/// every coin below 1.
pub open spec fn dielectric_direction(
    reflected: Vec3f,
    refraction: Option<Refraction>,
    coin: Double,
) -> Vec3f {
    match refraction {
        Some(bent) => if coin.lt_spec(bent.reflectance) {
            reflected
        } else {
            bent.direction
        },
        None => if coin.lt_spec(Double { bits: ONE_BITS }) {
            reflected
        } else {
            Vec3f::ones()
        },
    }
}

/// What `scatter` leaves behind and returns, for a sample that suits the material.
pub open spec fn scatter_spec(
    material: Material,
    record: HitRecord,
    sample: ScatterSample,
    attenuation: Color,
    scattered: Ray,
) -> (bool, Color, Ray) {
    match material {
        Material::NoMaterial => (true, attenuation, scattered),
        Material::Diffuse(albedo) => (true, albedo, Ray::from(record.p, sample->Diffuse_direction)),
        Material::Metal(albedo, _) => (
            sample->facing.gt_spec(Double { bits: 0 }),
            albedo,
            Ray::from(record.p, sample->Metal_direction),
        ),
        Material::Dielectric(_) => (
            true,
            Color::white(),
            Ray::from(
                record.p,
                dielectric_direction(sample->reflected, sample->refraction, sample->coin),
            ),
        ),
    }
}

impl Material {
    pub fn new() -> (m: Material)
        ensures
            m == Material::NoMaterial,
    {
        Material::NoMaterial
    }

    /// Decides what becomes of a ray that met this material at `record`.
    ///
    /// Returns true where the ray goes on; `attenuation` is then the colour
    /// that its light is multiplied by, and `scattered` the ray that leaves the
    /// point of the hit. Returns false where the ray is absorbed.
    ///
    /// - A matte surface always scatters, with its own colour.
    /// - A mirror scatters, with its own colour, as long as the sampled
    ///   direction leaves the surface: its dot product with the normal must
    ///   be above 0.
    /// - Glass always scatters and takes no light away.
    /// - A surface without material reports a scattering and leaves both
    ///   outputs as they were.
    pub fn scatter(
        &self,
        record: &HitRecord,
        sample: &ScatterSample,
        attenuation: &mut Color,
        scattered: &mut Ray,
    ) -> (goes_on: bool)
        requires
            sample.suits_spec(*self),
        ensures
            (goes_on, *final(attenuation), *final(scattered)) == scatter_spec(
                *self,
                *record,
                *sample,
                *old(attenuation),
                *old(scattered),
            ),
    {
        match (self, sample) {
            (Material::Diffuse(albedo), ScatterSample::Diffuse { direction }) => {
                Self::diffuse(record, direction, albedo, attenuation, scattered)
            },
            (Material::Metal(albedo, _), ScatterSample::Metal { direction, facing }) => {
                Self::metal(record, direction, *facing, albedo, attenuation, scattered)
            },
            (
                Material::Dielectric(_),
                ScatterSample::Dielectric { reflected, refraction, coin },
            ) => { Self::dielectric(record, reflected, refraction, *coin, attenuation, scattered) },
            _ => true,
        }
    }

    fn diffuse(
        record: &HitRecord,
        direction: &Vec3f,
        albedo: &Color,
        attenuation: &mut Color,
        scattered: &mut Ray,
    ) -> (goes_on: bool)
        ensures
            goes_on,
            *final(attenuation) == *albedo,
            *final(scattered) == Ray::from(record.p, *direction),
    {
        *scattered = Ray::new(&record.p, direction);
        *attenuation = *albedo;
        true
    }

    fn metal(
        record: &HitRecord,
        direction: &Vec3f,
        facing: Double,
        albedo: &Color,
        attenuation: &mut Color,
        scattered: &mut Ray,
    ) -> (goes_on: bool)
        ensures
            goes_on == facing.gt_spec(Double { bits: 0 }),
            *final(attenuation) == *albedo,
            *final(scattered) == Ray::from(record.p, *direction),
    {
        *scattered = Ray::new(&record.p, direction);
        *attenuation = *albedo;
        facing.gt(Double::zero())
    }

    fn dielectric(
        record: &HitRecord,
        reflected: &Vec3f,
        refraction: &Option<Refraction>,
        coin: Double,
        attenuation: &mut Color,
        scattered: &mut Ray,
    ) -> (goes_on: bool)
        ensures
            goes_on,
            *final(attenuation) == Color::white(),
            *final(scattered) == Ray::from(
                record.p,
                dielectric_direction(*reflected, *refraction, coin),
            ),
    {
        let mut refracted = Vec3f::new_unit_vec3f();
        *attenuation = Color::new(Double::one(), Double::one(), Double::one());
        let reflect_prob: Double = match refraction {
            Some(bent) => {
                refracted = bent.direction;
                bent.reflectance
            },
            None => Double::one(),
        };
        if coin.lt(reflect_prob) {
            *scattered = Ray::new(&record.p, reflected);
        } else {
            *scattered = Ray::new(&record.p, &refracted);
        }
        true
    }
}

/// The fuzz that a mirror's reflection is spread by: the material's own, held
/// to at most 1.
pub fn clamp_fuzz(fuzz: Fuzz) -> (r: Fuzz)
    ensures
        r == clamped_fuzz(fuzz),
{
    if fuzz.lt(Double::one()) {
        fuzz
    } else {
        Double::one()
    }
}

/// Whether a ray is on its way out of the glass: its direction then points
/// along the normal, so their dot product `facing` is above 0. A ray that is
/// not on its way out is entering.
pub fn is_leaving(facing: Double) -> (r: bool)
    ensures
        r == facing.gt_spec(Double { bits: 0 }),
{
    facing.gt(Double::zero())
}

/// The normal that points against the ray, for refraction at a glass
/// surface: a ray that is leaving has the surface normal turned round, a ray
/// that is entering keeps it.
pub fn outward_normal(normal: &Vec3f, facing: Double) -> (outward: Vec3f)
    ensures
        outward == if facing.gt_spec(Double { bits: 0 }) {
            normal.reversed_spec()
        } else {
            *normal
        },
{
    if is_leaving(facing) {
        normal.reversed()
    } else {
        *normal
    }
}

/// Whether a refracted ray exists, by Snell's law: the discriminant
/// `1 - ni_over_nt^2 * (1 - dt^2)` must be above 0. Where it is not, the
/// reflection is total.
pub fn can_refract(discriminant: Double) -> (r: bool)
    ensures
        r == discriminant.gt_spec(Double { bits: 0 }),
{
    discriminant.gt(Double::zero())
}

} // verus!
