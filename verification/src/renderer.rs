//! The driver of a render: which pixels a tile holds and in what order, and
//! how long a path of light may grow.

use itertools::Itertools;
use vstd::prelude::*;
use crate::primitives::{Rect, Vec2i, Vec3};
use crate::scalar::{Scalar, INFINITY_BITS};

verus! {

/// The settings of one render pass.
#[derive(Clone, Copy, Debug)]
pub struct RenderProperties {
    /// How many paths are traced through each pixel and summed.
    pub samples: u32,
    /// How many times a path may hit a surface before it ends in black.
    pub bounces: u32,
}

/// A width or height as a count: nothing below zero.
pub open spec fn extent(n: int) -> int {
    if n > 0 {
        n
    } else {
        0
    }
}

/// How many pixels a tile holds.
pub open spec fn pixel_count(bounds: Rect) -> int {
    extent(bounds.h as int) * extent(bounds.w as int)
}

/// The pixel that stands at place `k` of a tile, as `(x, y)`: rows follow
/// one another, and within a row the columns.
pub open spec fn pixel_at(bounds: Rect, k: int) -> (int, int) {
    (bounds.x + k % extent(bounds.w as int), bounds.y + k / extent(bounds.w as int))
}

/// What a tile needs to be walked: both far edges are coordinates, and the
/// list of its pixels can be allocated.
pub open spec fn walkable(bounds: Rect) -> bool {
    &&& i32::MIN <= bounds.x + bounds.w <= i32::MAX
    &&& i32::MIN <= bounds.y + bounds.h <= i32::MAX
    &&& pixel_count(bounds) * 8 <= isize::MAX
}

/// Whether a tile can be walked.
pub fn is_walkable(bounds: Rect) -> (r: bool)
    ensures
        r == walkable(bounds),
{
    let right: i64 = bounds.x as i64 + bounds.w as i64;
    let top: i64 = bounds.y as i64 + bounds.h as i64;
    if right < i32::MIN as i64 || right > i32::MAX as i64 {
        return false;
    }
    if top < i32::MIN as i64 || top > i32::MAX as i64 {
        return false;
    }
    let w: u128 = if bounds.w > 0 {
        bounds.w as u128
    } else {
        0
    };
    let h: u128 = if bounds.h > 0 {
        bounds.h as u128
    } else {
        0
    };
    assert(h * w * 8 <= 0x4000_0000_0000_0000 * 8) by (nonlinear_arith)
        requires
            0 <= h <= 0x8000_0000,
            0 <= w <= 0x8000_0000,
    ;
    h * w * 8 <= isize::MAX as u128
}

/// `Itertools::cartesian_product` of two integer ranges, collected into a
/// vector. The adaptor walks the first range once and, for each of its
/// numbers, the whole second range, pairing them in that order; an empty
/// range on either side leaves it empty. The demand keeps the vector within
/// what can be allocated.
#[verifier::external_body]
fn cartesian_product(a_start: i32, a_end: i32, b_start: i32, b_end: i32) -> (pairs: Vec<
    (i32, i32),
>)
    requires
        extent(a_end - a_start) * extent(b_end - b_start) * 8 <= isize::MAX,
    ensures
        pairs@.len() == extent(a_end - a_start) * extent(b_end - b_start),
        forall|k: int|
            0 <= k < pairs@.len() ==> {
                &&& (#[trigger] pairs@[k]).0 == a_start + k / extent(b_end - b_start)
                &&& pairs@[k].1 == b_start + k % extent(b_end - b_start)
            },
{
    (a_start..a_end).cartesian_product(b_start..b_end).collect()
}

/// The pixels of a tile in the order in which they are sampled: row by row
/// from `bounds.y` on, and within each row column by column from `bounds.x`
/// on. A tile of no width or no height holds none.
pub fn tile_pixels(bounds: Rect) -> (coords: Vec<Vec2i>)
    requires
        walkable(bounds),
    ensures
        coords@.len() == pixel_count(bounds),
        forall|k: int|
            0 <= k < coords@.len() ==> ((#[trigger] coords@[k]).x as int, coords@[k].y as int)
                == pixel_at(bounds, k),
{
    let pairs = cartesian_product(
        bounds.y,
        bounds.y + bounds.h,
        bounds.x,
        bounds.x + bounds.w,
    );
    let mut coords: Vec<Vec2i> = Vec::new();
    let mut k: usize = 0;
    while k < pairs.len()
        invariant
            k <= pairs@.len(),
            coords@.len() == k,
            pairs@.len() == pixel_count(bounds),
            forall|j: int|
                0 <= j < pairs@.len() ==> ((#[trigger] pairs@[j]).1 as int, pairs@[j].0 as int)
                    == pixel_at(bounds, j),
            forall|j: int|
                0 <= j < k ==> ((#[trigger] coords@[j]).x as int, coords@[j].y as int)
                    == pixel_at(bounds, j),
        decreases pairs@.len() - k,
    {
        let pair: (i32, i32) = pairs[k];
        coords.push(Vec2i { x: pair.1, y: pair.0 });
        k = k + 1;
    }
    coords
}

/// The tile that is one whole row of the image: row `y`, as wide as the image.
pub fn line_bounds(y: i32, img_size: Vec2i) -> (bounds: Rect)
    ensures
        bounds.x == 0,
        bounds.y == y,
        bounds.w == img_size.x,
        bounds.h == 1,
{
    Rect { x: 0, y, w: img_size.x, h: 1 }
}

/// Tiles are row-major: the pixel of row `r` and column `c` of a tile stands
/// at place `r * w + c`, for `w` the tile's width.
pub proof fn lemma_row_major(bounds: Rect, r: int, c: int)
    requires
        0 <= r < bounds.h,
        0 <= c < bounds.w,
    ensures
        0 <= r * bounds.w + c < pixel_count(bounds),
        pixel_at(bounds, r * bounds.w + c) == (bounds.x + c, bounds.y + r),
{
    let w = bounds.w as int;
    let h = bounds.h as int;
    assert(r * w + c < h * w) by (nonlinear_arith)
        requires
            0 <= r < h,
            0 <= c < w,
    ;
    assert(0 <= r * w + c) by (nonlinear_arith)
        requires
            0 <= r,
            0 <= c,
            0 < w,
    ;
    vstd::arithmetic::div_mod::lemma_fundamental_div_mod_converse(r * w + c, w, r, c);
}

/// Why a render cannot go on.
#[derive(Clone, Copy, Debug, PartialEq, Eq)]
pub enum RenderError {
    /// The direction of a camera ray holds a component that is not a number.
    NanDirection,
}

/// Refuses the direction of a ray if any component of it is not a number.
pub fn check_direction(dir: Vec3) -> (checked: Result<(), RenderError>)
    ensures
        checked is Err <==> dir.has_nan(),
        checked is Err ==> checked == Err::<(), RenderError>(RenderError::NanDirection),
{
    if dir.x.is_nan() || dir.y.is_nan() || dir.z.is_nan() {
        Err(RenderError::NanDirection)
    } else {
        Ok(())
    }
}

/// The pattern of the number nearest to one thousandth: the nearest a hit
/// may lie to the origin of its ray.
pub const T_MIN_BITS: u32 = 0x3a83_126f;

/// The window of ray parameters in which the integrator looks for hits: from
/// one thousandth to infinity. It starts above zero, so that a ray scattered
/// from a surface does not hit that surface again where it starts.
pub fn trace_window() -> (window: (Scalar, Scalar))
    ensures
        window.0.bits == T_MIN_BITS,
        window.1.bits == INFINITY_BITS,
        Scalar::from_bits(0).below(window.0),
        window.0.below(window.1),
{
    (Scalar::from_bits(T_MIN_BITS), Scalar::from_bits(INFINITY_BITS))
}

/// What one traced ray met.
#[derive(Clone, Copy, Debug, PartialEq, Eq)]
pub enum Event {
    /// Nothing: the ray leaves the scene.
    Miss,
    /// A surface that absorbed it.
    Absorbed,
    /// A surface that scattered it into a new ray.
    Scattered,
}

/// The colour in which a path ends, before the attenuations gathered along
/// it are applied.
#[derive(Clone, Copy, Debug, PartialEq, Eq)]
pub enum Ending {
    /// No light.
    Black,
    /// The sky, seen along the last ray.
    Sky,
}

/// What the integrator does next.
#[derive(Clone, Copy, Debug, PartialEq, Eq)]
pub enum Step {
    /// The path is over.
    Finish(Ending),
    /// Trace a ray that may still bounce `depth` times, this one counted.
    Trace { depth: u32 },
}

/// The step that opens a path of the given depth.
pub open spec fn opening(depth: u32) -> Step {
    if depth == 0 {
        Step::Finish(Ending::Black)
    } else {
        Step::Trace { depth }
    }
}

/// The step that follows when a ray of the given depth met `event`.
pub open spec fn following(depth: u32, event: Event) -> Step {
    if depth == 0 {
        Step::Finish(Ending::Black)
    } else {
        match event {
            Event::Miss => Step::Finish(Ending::Sky),
            Event::Absorbed => Step::Finish(Ending::Black),
            Event::Scattered => opening((depth - 1) as u32),
        }
    }
}

/// The ending of a whole path of the given depth, where `events(k)` is what
/// the ray after `k` bounces meets, and the path has bounced `k` times.
pub open spec fn ending(depth: u32, events: spec_fn(nat) -> Event, k: nat) -> Ending
    decreases depth,
{
    if depth == 0 {
        Ending::Black
    } else {
        match events(k) {
            Event::Miss => Ending::Sky,
            Event::Absorbed => Ending::Black,
            Event::Scattered => ending((depth - 1) as u32, events, k + 1),
        }
    }
}

/// How many rays such a path traces.
pub open spec fn rays_traced(depth: u32, events: spec_fn(nat) -> Event, k: nat) -> nat
    decreases depth,
{
    if depth == 0 {
        0
    } else {
        match events(k) {
            Event::Scattered => 1 + rays_traced((depth - 1) as u32, events, k + 1),
            _ => 1,
        }
    }
}

/// Opens a path: with no depth it is over at once, in black, and no ray is
/// traced.
pub fn enter(depth: u32) -> (step: Step)
    ensures
        step == opening(depth),
        depth == 0 ==> step == Step::Finish(Ending::Black),
{
    if depth == 0 {
        Step::Finish(Ending::Black)
    } else {
        Step::Trace { depth }
    }
}

/// Decides how a path goes on after a ray of the given depth met `event`:
/// a miss ends it in the sky, an absorbing surface in black, and a
/// scattering surface opens a path one shallower.
pub fn resume(depth: u32, event: Event) -> (step: Step)
    ensures
        step == following(depth, event),
        step matches Step::Trace { depth: rest } ==> rest < depth,
{
    if depth == 0 {
        return Step::Finish(Ending::Black);
    }
    match event {
        Event::Miss => Step::Finish(Ending::Sky),
        Event::Absorbed => Step::Finish(Ending::Black),
        Event::Scattered => enter(depth - 1),
    }
}

/// A path of no depth is black, whatever the scene would have shown.
pub proof fn lemma_no_depth_is_black(events: spec_fn(nat) -> Event, k: nat)
    ensures
        opening(0) == Step::Finish(Ending::Black),
        ending(0, events, k) == Ending::Black,
        rays_traced(0, events, k) == 0,
{
}

/// Following the steps one by one leads to the ending of the whole path.
pub proof fn lemma_steps_reach_ending(depth: u32, events: spec_fn(nat) -> Event, k: nat)
    requires
        depth > 0,
    ensures
        match following(depth, events(k)) {
            Step::Finish(e) => ending(depth, events, k) == e,
            Step::Trace { depth: rest } => rest == depth - 1 && ending(depth, events, k) == ending(
                rest,
                events,
                k + 1,
            ),
        },
{
    reveal_with_fuel(ending, 2);
}

/// A path traces at most as many rays as its depth.
pub proof fn lemma_path_is_bounded(depth: u32, events: spec_fn(nat) -> Event, k: nat)
    ensures
        rays_traced(depth, events, k) <= depth,
    decreases depth,
{
    if depth > 0 && events(k) == Event::Scattered {
        lemma_path_is_bounded((depth - 1) as u32, events, k + 1);
    }
}

} // verus!
