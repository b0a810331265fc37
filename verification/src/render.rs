//! The course of one path of light: how far it is followed, and how it ends.
//!
//! A path is a chain of rays. Each ray is tested against the scene; where it
//! hits, the material decides whether a further ray leaves the surface. The
//! colour of the path is the product of the attenuations gathered on the way,
//! times the light in which the path ends. This module decides the course;
//! the colours are the caller's to multiply.

use crate::double::{lemma_scaled_magnitude_sign, Double, INFINITY_BITS};
use vstd::prelude::*;

verus! {

/// The number of scatterings after which a path is cut off.
pub const MAX_DEPTH: u32 = 50;

/// The pattern of the double nearest to 0.001.
pub const NEAR_LIMIT_BITS: u64 = 0x3f50_624d_d2f1_a9fc;

/// The lower end of the window in which a ray is tested against the scene.
/// It lies a little above 0, so that a scattered ray does not hit the surface
/// that it leaves.
pub fn near_limit() -> (t: Double)
    ensures
        t.bits == NEAR_LIMIT_BITS,
        (Double { bits: 0 }).lt_spec(t),
{
    proof {
        lemma_scaled_magnitude_sign(0);
        lemma_scaled_magnitude_sign(NEAR_LIMIT_BITS as int);
    }
    Double::from_bits(NEAR_LIMIT_BITS)
}

/// The upper end of that window: positive infinity, so that every finite
/// parameter above the lower end is inside.
pub fn far_limit() -> (t: Double)
    ensures
        t.bits == INFINITY_BITS,
        forall|x: Double| !x.is_nan_spec() && x.magnitude() != INFINITY_BITS ==> x.lt_spec(t),
{
    Double::infinity()
}

/// The light in which a path ends.
#[derive(Copy, Clone, Debug, PartialEq, Eq, Structural)]
pub enum Light {
    /// The path left the scene: its last ray sees the background gradient.
    Background,
    /// The path was absorbed or cut off: it carries no light.
    Black,
}

/// What is to be done with a ray once it has been tested against the scene.
#[derive(Copy, Clone, Debug, PartialEq, Eq, Structural)]
pub enum Verdict {
    /// The ray hit nothing, below the depth at which paths are cut off: the
    /// path ends in the background.
    Background,
    /// The path has reached the depth at which paths are cut off: it ends
    /// black whether the ray hit or not, and the material is not asked.
    Black,
    /// The ray hit a surface, below that depth: the material is to be asked.
    Scatter,
}

/// What a ray of a path meets.
#[derive(Copy, Clone, Debug, PartialEq, Eq, Structural)]
pub enum Meets {
    /// No object of the scene.
    Nothing,
    /// A surface that absorbs it.
    Absorber,
    /// A surface that scatters it.
    Scatterer,
}

/// A path, at the ray that is to be traced next.
#[derive(Copy, Clone, Debug, PartialEq, Eq, Structural)]
pub struct Path {
    /// The number of scatterings behind this ray.
    pub depth: u32,
}

/// The verdict on a ray at `depth`. The depth is looked at first: from
/// `MAX_DEPTH` on the path ends black, hit or miss. Below it a miss ends the
/// path in the background, and a hit is passed to the material.
pub open spec fn probe_spec(depth: u32, hit: bool) -> Verdict {
    if depth >= MAX_DEPTH {
        Verdict::Black
    } else if !hit {
        Verdict::Background
    } else {
        Verdict::Scatter
    }
}

/// The depth of the next ray, where there is one: the material must have
/// scattered, below `MAX_DEPTH`.
pub open spec fn bounce_spec(depth: u32, scattered: bool) -> Option<u32> {
    if scattered && depth < MAX_DEPTH {
        Some((depth + 1) as u32)
    } else {
        None
    }
}

/// How the path ends that is at `depth` with its `k`-th ray, in a world
/// where the `i`-th ray meets `world(i)`: the number of scatterings still to
/// come, and the light at the end.
pub open spec fn ending(world: spec_fn(nat) -> Meets, k: nat, depth: u32) -> (nat, Light)
    decreases MAX_DEPTH - depth,
{
    match probe_spec(depth, world(k) != Meets::Nothing) {
        Verdict::Background => (0, Light::Background),
        Verdict::Black => (0, Light::Black),
        Verdict::Scatter => match bounce_spec(depth, world(k) == Meets::Scatterer) {
            None => (0, Light::Black),
            Some(next) => {
                let rest = ending(world, k + 1, next);
                (rest.0 + 1, rest.1)
            },
        },
    }
}

impl Path {
    /// The path that starts with a ray at `depth`; a camera ray is at depth 0.
    pub fn new(depth: u32) -> (path: Path)
        ensures
            path.depth == depth,
    {
        Path { depth }
    }

    /// The number of scatterings behind the current ray.
    pub fn depth(&self) -> (d: u32)
        ensures
            d == self.depth,
    {
        self.depth
    }

    /// Decides what follows the intersection test of the current ray, `hit`
    /// telling whether it hit any object. From `MAX_DEPTH` on the answer is
    /// black whatever `hit` says.
    pub fn probe(&self, hit: bool) -> (verdict: Verdict)
        ensures
            verdict == probe_spec(self.depth, hit),
    {
        if self.depth >= MAX_DEPTH {
            Verdict::Black
        } else if !hit {
            Verdict::Background
        } else {
            Verdict::Scatter
        }
    }

    /// Decides what follows the material's answer, `scattered` telling
    /// whether it sent a ray on. Returns the path at that ray, one deeper, or
    /// `None` where the path ends black here.
    pub fn bounce(&self, scattered: bool) -> (next: Option<Path>)
        ensures
            next.is_some() == bounce_spec(self.depth, scattered).is_some(),
            next matches Some(path) ==> Some(path.depth) == bounce_spec(self.depth, scattered),
    {
        if scattered && self.depth < MAX_DEPTH {
            Some(Path { depth: self.depth + 1 })
        } else {
            None
        }
    }
}

/// Below the cap, a path whose first ray misses every object ends in the
/// background without a single scattering: no material's attenuation enters
/// its colour.
pub proof fn lemma_miss_is_background(world: spec_fn(nat) -> Meets, k: nat, depth: u32)
    requires
        depth < MAX_DEPTH,
        world(k) == Meets::Nothing,
    ensures
        ending(world, k, depth) == (0nat, Light::Background),
{
}

/// From the cap on every path is black, and at once: whatever its ray would
/// hit or miss, nothing is scattered and no light comes back.
pub proof fn lemma_cap_is_black(world: spec_fn(nat) -> Meets, k: nat, depth: u32)
    requires
        depth >= MAX_DEPTH,
    ensures
        ending(world, k, depth) == (0nat, Light::Black),
{
}

/// No path is followed beyond `MAX_DEPTH`: whatever the rays meet, a path
/// that starts at `depth` ends after at most `MAX_DEPTH - depth` scatterings.
pub proof fn lemma_depth_is_capped(world: spec_fn(nat) -> Meets, k: nat, depth: u32)
    ensures
        depth <= MAX_DEPTH ==> ending(world, k, depth).0 <= MAX_DEPTH - depth,
        depth > MAX_DEPTH ==> ending(world, k, depth).0 == 0,
    decreases MAX_DEPTH - depth,
{
    if depth < MAX_DEPTH && world(k) == Meets::Scatterer {
        lemma_depth_is_capped(world, k + 1, (depth + 1) as u32);
    }
}

/// Among mirrors that see only each other every ray is scattered, and the
/// path still ends: it is cut off, black, after exactly `MAX_DEPTH - depth`
/// scatterings.
pub proof fn lemma_mirrors_end_black(world: spec_fn(nat) -> Meets, k: nat, depth: u32)
    requires
        depth <= MAX_DEPTH,
        forall|i: nat| i >= k ==> #[trigger] world(i) == Meets::Scatterer,
    ensures
        ending(world, k, depth) == ((MAX_DEPTH - depth) as nat, Light::Black),
    decreases MAX_DEPTH - depth,
{
    assert(world(k) == Meets::Scatterer);
    if depth < MAX_DEPTH {
        lemma_mirrors_end_black(world, k + 1, (depth + 1) as u32);
    }
}

/// A path that ends in the background got there by a miss below the cap:
/// the ray after its last scattering met nothing.
pub proof fn lemma_background_means_miss(world: spec_fn(nat) -> Meets, k: nat, depth: u32)
    requires
        ending(world, k, depth).1 == Light::Background,
    ensures
        world(k + ending(world, k, depth).0) == Meets::Nothing,
        depth + ending(world, k, depth).0 < MAX_DEPTH,
    decreases MAX_DEPTH - depth,
{
    if world(k) == Meets::Scatterer && depth < MAX_DEPTH {
        lemma_background_means_miss(world, k + 1, (depth + 1) as u32);
    }
}

} // verus!
