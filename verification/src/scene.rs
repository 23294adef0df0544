//! What a scene decides once the arithmetic is done: which root of a sphere's
//! quadratic counts as the hit, which of several hits is the nearest, and
//! what a material does with the ray that hit it.

use core::ops::Neg;
use vstd::prelude::*;
use crate::primitives::Vec3;
use crate::scalar::{Scalar, ONE_BITS};

verus! {

/// Whether the parameter `t` lies outside the window from `t_min` to `t_max`.
/// A `t` that is not a number is below nothing and above nothing.
pub open spec fn outside(t: Scalar, t_min: Scalar, t_max: Scalar) -> bool {
    t.below(t_min) || t_max.below(t)
}

/// The root at which a ray hits a sphere: none under a negative
/// discriminant, else the near root if the window holds it, else the far
/// root if the window holds that, else none.
pub open spec fn hit_root(
    discriminant: Scalar,
    near: Scalar,
    far: Scalar,
    t_min: Scalar,
    t_max: Scalar,
) -> Option<Scalar> {
    if discriminant.below(Scalar::from_bits(0)) {
        None
    } else if !outside(near, t_min, t_max) {
        Some(near)
    } else if !outside(far, t_min, t_max) {
        Some(far)
    } else {
        None
    }
}

/// Picks the root of a sphere's quadratic that counts as the hit. `near` and
/// `far` are the smaller and the larger root as computed from the
/// discriminant; they are not read when the discriminant is negative.
pub fn select_root(
    discriminant: Scalar,
    near: Scalar,
    far: Scalar,
    t_min: Scalar,
    t_max: Scalar,
) -> (root: Option<Scalar>)
    ensures
        root == hit_root(discriminant, near, far, t_min, t_max),
        discriminant.below(Scalar::from_bits(0)) ==> root is None,
        root matches Some(t) ==> !outside(t, t_min, t_max),
        near.below(t_min) && far.below(t_min) ==> root is None,
{
    if discriminant.lt(Scalar::from_bits(0)) {
        return None;
    }
    if !(near.lt(t_min) || near.gt(t_max)) {
        return Some(near);
    }
    if !(far.lt(t_min) || far.gt(t_max)) {
        return Some(far);
    }
    None
}

/// The root that counts is the first in the window: where the near root is
/// not above the far one, no root that the window holds is below the one
/// chosen.
pub proof fn lemma_root_is_first_in_window(
    discriminant: Scalar,
    near: Scalar,
    far: Scalar,
    t_min: Scalar,
    t_max: Scalar,
)
    requires
        !far.below(near),
    ensures
        hit_root(discriminant, near, far, t_min, t_max) matches Some(t) ==> {
            &&& !outside(near, t_min, t_max) ==> !near.below(t)
            &&& !outside(far, t_min, t_max) ==> !far.below(t)
        },
{
}

/// How a surface faces the ray that hit it.
#[derive(Clone, Copy, Debug)]
pub struct Facing {
    /// Whether the ray came from outside.
    pub front_face: bool,
    /// The normal, turned against the ray.
    pub normal: Vec3,
}

/// Turns a normal against the ray. `facing` is the dot product of the ray's
/// direction and the outward normal: below zero the ray came from outside
/// and the normal stays, else the normal is turned round.
pub fn face_normal(facing: Scalar, outward_normal: Vec3) -> (face: Facing)
    ensures
        face.front_face == facing.below(Scalar::from_bits(0)),
        face.normal == if face.front_face {
            outward_normal
        } else {
            outward_normal.negated()
        },
{
    let front_face = facing.lt(Scalar::from_bits(0));
    let normal = if front_face {
        outward_normal
    } else {
        outward_normal.neg()
    };
    Facing { front_face, normal }
}

/// Whether every comparison among the hits is defined: of two hits, neither
/// parameter is not a number. One hit alone is compared with nothing.
pub open spec fn comparable(ts: Seq<Option<Scalar>>) -> bool {
    forall|i: int, j: int|
        0 <= i < ts.len() && 0 <= j < ts.len() && i != j && ts[i] is Some && ts[j] is Some
            ==> !(#[trigger] ts[i]).unwrap().nan() && !(#[trigger] ts[j]).unwrap().nan()
}

/// Whether `best` is the place of the nearest hit among `ts`: a hit that no
/// other hit is below, and the first such.
pub open spec fn is_nearest(ts: Seq<Option<Scalar>>, best: int) -> bool {
    &&& 0 <= best < ts.len()
    &&& ts[best] is Some
    &&& forall|j: int| 0 <= j < ts.len() && ts[j] is Some
            ==> !(#[trigger] ts[j]).unwrap().below(ts[best].unwrap())
    &&& forall|j: int| 0 <= j < best && ts[j] is Some
            ==> ts[best].unwrap().below((#[trigger] ts[j]).unwrap())
}

/// At most one place is that of the nearest hit.
pub proof fn lemma_nearest_is_unique(ts: Seq<Option<Scalar>>, a: int, b: int)
    requires
        is_nearest(ts, a),
        is_nearest(ts, b),
    ensures
        a == b,
{
    if a < b {
        assert(ts[b].unwrap().below(ts[a].unwrap()));
    } else if b < a {
        assert(ts[a].unwrap().below(ts[b].unwrap()));
    }
}

/// Why no nearest hit can be named.
#[derive(Clone, Copy, Debug, PartialEq, Eq)]
pub enum HitError {
    /// Two hits were to be compared and one of them is not a number.
    Incomparable,
}

/// Whether every comparison among the hits is defined.
fn all_comparable(ts: &Vec<Option<Scalar>>) -> (r: bool)
    ensures
        r == comparable(ts@),
{
    let mut hits: usize = 0;
    let mut undefined: bool = false;
    let ghost mut first: int = 0;
    let ghost mut second: int = 0;
    let ghost mut bad: int = 0;
    let mut i: usize = 0;
    while i < ts.len()
        invariant
            i <= ts.len(),
            hits <= i,
            hits == 0 ==> (forall|j: int| 0 <= j < i ==> ts[j] is None),
            hits >= 1 ==> 0 <= first < i && ts[first] is Some,
            hits == 1 ==> (forall|j: int| 0 <= j < i && j != first ==> ts[j] is None),
            hits >= 2 ==> 0 <= second < i && second != first && ts[second] is Some,
            undefined ==> 0 <= bad < i && ts[bad] is Some && ts[bad].unwrap().nan(),
            !undefined ==> (forall|j: int|
                0 <= j < i && ts[j] is Some ==> !(#[trigger] ts[j]).unwrap().nan()),
        decreases ts.len() - i,
    {
        match ts[i] {
            None => {},
            Some(t) => {
                if t.is_nan() && !undefined {
                    undefined = true;
                    proof {
                        bad = i as int;
                    }
                }
                proof {
                    if hits == 0 {
                        first = i as int;
                    } else if hits == 1 {
                        second = i as int;
                    }
                }
                hits = hits + 1;
            },
        }
        i = i + 1;
    }
    proof {
        if hits >= 2 && undefined {
            let other = if bad == first { second } else { first };
            assert(ts[bad] is Some && ts[other] is Some && bad != other);
            assert(ts[bad].unwrap().nan());
        }
    }
    !(hits >= 2 && undefined)
}

/// The place of the nearest hit among the children of a list, where `ts`
/// holds for each child the parameter of its hit, or nothing for a miss.
pub fn nearest(ts: &Vec<Option<Scalar>>) -> (found: Result<Option<usize>, HitError>)
    ensures
        found is Err <==> !comparable(ts@),
        found matches Ok(None) ==> forall|i: int| 0 <= i < ts.len() ==> ts[i] is None,
        found matches Ok(Some(best)) ==> is_nearest(ts@, best as int),
{
    if !all_comparable(ts) {
        return Err(HitError::Incomparable);
    }
    let mut best: Option<usize> = None;
    let mut i: usize = 0;
    while i < ts.len()
        invariant
            i <= ts.len(),
            comparable(ts@),
            best is None ==> (forall|j: int| 0 <= j < i ==> ts[j] is None),
            best matches Some(b) ==> {
                &&& b < i
                &&& ts[b as int] is Some
                &&& forall|j: int| 0 <= j < i && ts[j] is Some
                        ==> !(#[trigger] ts[j]).unwrap().below(ts[b as int].unwrap())
                &&& forall|j: int| 0 <= j < b && ts[j] is Some
                        ==> ts[b as int].unwrap().below((#[trigger] ts[j]).unwrap())
            },
        decreases ts.len() - i,
    {
        match ts[i] {
            None => {},
            Some(t) => {
                match best {
                    None => {
                        best = Some(i);
                    },
                    Some(b) => {
                        if t.lt(ts[b].unwrap()) {
                            best = Some(i);
                        }
                    },
                }
            },
        }
        i = i + 1;
    }
    Ok(best)
}

/// Why a sphere cannot be built.
#[derive(Clone, Copy, Debug, PartialEq, Eq)]
pub enum SceneError {
    /// The radius is not a number.
    RadiusNotANumber,
    /// The radius is below zero.
    NegativeRadius,
}

/// Accepts the radius of a sphere unless it is not a number or negative.
pub fn check_radius(radius: Scalar) -> (checked: Result<(), SceneError>)
    ensures
        checked is Ok <==> !radius.nan() && !radius.below(Scalar::from_bits(0)),
        radius.nan() ==> checked == Err::<(), SceneError>(SceneError::RadiusNotANumber),
        radius.below(Scalar::from_bits(0)) ==> checked == Err::<(), SceneError>(
            SceneError::NegativeRadius,
        ),
{
    if radius.is_nan() {
        Err(SceneError::RadiusNotANumber)
    } else if radius.lt(Scalar::from_bits(0)) {
        Err(SceneError::NegativeRadius)
    } else {
        Ok(())
    }
}

/// What a material is given to decide on. The caller has done the
/// arithmetic; the numbers here are its results.
#[derive(Clone, Copy, Debug)]
pub enum Surface {
    /// A diffuse surface, with the sum of the normal and a random unit vector.
    Lambertian { sum: Vec3 },
    /// A metal, with the dot product of the normal and the reflected,
    /// roughened direction.
    Metal { facing: Scalar },
    /// A glass, with the refraction ratio times the sine of the angle of
    /// incidence, the reflectance at that angle, and a uniform draw from
    /// zero to one.
    Dielectric { bend: Scalar, reflectance: Scalar, draw: Scalar },
}

/// What becomes of a ray at a surface.
#[derive(Clone, Copy, Debug, PartialEq, Eq)]
pub enum Scatter {
    /// The ray ends here.
    Absorbed,
    /// Diffuse, along the sum of the normal and the random vector.
    AlongSum,
    /// Diffuse, along the normal itself: the sum gave no direction.
    AlongNormal,
    /// Along the reflected, roughened direction.
    Mirrored,
    /// Reflected by a glass.
    Reflected,
    /// Refracted into or out of a glass.
    Refracted,
}

impl Scatter {
    /// Whether the ray goes on.
    pub open spec fn scatters(self) -> bool {
        self != Scatter::Absorbed
    }
}

/// The rule of each material. A diffuse surface always scatters, along the
/// normal where the sum is near zero. A metal scatters only a ray that
/// still leaves the surface. A glass always scatters: it reflects where the
/// bend exceeds one (total internal reflection) or the reflectance exceeds
/// the draw, and refracts otherwise.
pub open spec fn scatter_rule(surface: Surface) -> Scatter {
    match surface {
        Surface::Lambertian { sum } => {
            if sum.negligible() {
                Scatter::AlongNormal
            } else {
                Scatter::AlongSum
            }
        },
        Surface::Metal { facing } => {
            if Scalar::from_bits(0).below(facing) {
                Scatter::Mirrored
            } else {
                Scatter::Absorbed
            }
        },
        Surface::Dielectric { bend, reflectance, draw } => {
            if Scalar::from_bits(ONE_BITS).below(bend) || draw.below(reflectance) {
                Scatter::Reflected
            } else {
                Scatter::Refracted
            }
        },
    }
}

/// Decides what becomes of a ray at a surface.
pub fn scatter(surface: Surface) -> (outcome: Scatter)
    ensures
        outcome == scatter_rule(surface),
        surface is Lambertian ==> outcome.scatters(),
        surface is Dielectric ==> outcome.scatters(),
        !outcome.scatters() <==> (surface matches Surface::Metal { facing }
            && !Scalar::from_bits(0).below(facing)),
{
    match surface {
        Surface::Lambertian { sum } => {
            if sum.near_zero() {
                Scatter::AlongNormal
            } else {
                Scatter::AlongSum
            }
        },
        Surface::Metal { facing } => {
            if facing.gt(Scalar::from_bits(0)) {
                Scatter::Mirrored
            } else {
                Scatter::Absorbed
            }
        },
        Surface::Dielectric { bend, reflectance, draw } => {
            if bend.gt(Scalar::from_bits(ONE_BITS)) || reflectance.gt(draw) {
                Scatter::Reflected
            } else {
                Scatter::Refracted
            }
        },
    }
}

/// The kinds of material.
#[derive(Clone, Copy, Debug, PartialEq, Eq)]
pub enum MaterialKind {
    Lambertian,
    Metal,
    Dielectric,
}

/// The pattern of the number nearest to 0.8: draws below it give a diffuse
/// sphere.
pub const DIFFUSE_SHARE_BITS: u32 = 0x3f4c_cccd;

/// The pattern of the number nearest to 0.95: draws below it, and not below
/// the diffuse share, give a metal sphere.
pub const METAL_SHARE_BITS: u32 = 0x3f73_3333;

/// The material of a small sphere in a random scene, from a uniform draw
/// between zero and one: four in five are diffuse, three in twenty metal,
/// the rest glass.
pub fn choose_material(draw: Scalar) -> (kind: MaterialKind)
    ensures
        kind == if draw.below(Scalar::from_bits(DIFFUSE_SHARE_BITS)) {
            MaterialKind::Lambertian
        } else if draw.below(Scalar::from_bits(METAL_SHARE_BITS)) {
            MaterialKind::Metal
        } else {
            MaterialKind::Dielectric
        },
{
    if draw.lt(Scalar::from_bits(DIFFUSE_SHARE_BITS)) {
        MaterialKind::Lambertian
    } else if draw.lt(Scalar::from_bits(METAL_SHARE_BITS)) {
        MaterialKind::Metal
    } else {
        MaterialKind::Dielectric
    }
}

} // verus!
