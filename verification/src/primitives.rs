//! Vectors of two and three components, and pixel rectangles.

use vstd::prelude::*;
use vstd::std_specs::ops::{AddSpec, DivSpec, MulSpec};
use crate::scalar::{Scalar, EPSILON_BITS, ONE_BITS};

verus! {

/// A pair of components of one type: an image coordinate, a size, or a range.
#[derive(Clone, Copy, PartialEq, PartialOrd, Debug)]
pub struct Vec2<T> {
    pub x: T,
    pub y: T,
}

/// A pair of pixel coordinates.
pub type Vec2i = Vec2<i32>;

impl<T> Vec2<T> where T: core::ops::Mul {
    /// The vector with the given components.
    pub fn new(x: T, y: T) -> (v: Vec2<T>)
        ensures
            v.x == x,
            v.y == y,
    {
        Vec2 { x, y }
    }
}

impl<T> core::ops::Add for Vec2<T> where T: core::ops::Add<Output = T> {
    type Output = Vec2<T>;

    /// The sum, component by component.
    fn add(self, other: Vec2<T>) -> (sum: Vec2<T>) {
        Vec2 { x: self.x + other.x, y: self.y + other.y }
    }
}

impl<T> vstd::std_specs::ops::AddSpecImpl for Vec2<T> where T: core::ops::Add<Output = T> {
    open spec fn obeys_add_spec() -> bool {
        T::obeys_add_spec()
    }

    open spec fn add_req(self, other: Vec2<T>) -> bool {
        self.x.add_req(other.x) && self.y.add_req(other.y)
    }

    open spec fn add_spec(self, other: Vec2<T>) -> Vec2<T> {
        Vec2 { x: self.x.add_spec(other.x), y: self.y.add_spec(other.y) }
    }
}

impl<T> core::ops::Mul for Vec2<T> where T: core::ops::Mul<Output = T> {
    type Output = Vec2<T>;

    /// The product, component by component.
    fn mul(self, other: Vec2<T>) -> (product: Vec2<T>) {
        Vec2 { x: self.x * other.x, y: self.y * other.y }
    }
}

impl<T> vstd::std_specs::ops::MulSpecImpl for Vec2<T> where T: core::ops::Mul<Output = T> {
    open spec fn obeys_mul_spec() -> bool {
        T::obeys_mul_spec()
    }

    open spec fn mul_req(self, other: Vec2<T>) -> bool {
        self.x.mul_req(other.x) && self.y.mul_req(other.y)
    }

    open spec fn mul_spec(self, other: Vec2<T>) -> Vec2<T> {
        Vec2 { x: self.x.mul_spec(other.x), y: self.y.mul_spec(other.y) }
    }
}

impl<T> core::ops::Div<Vec2<T>> for Vec2<T> where T: core::ops::Div<Output = T> {
    type Output = Vec2<T>;

    /// The quotient, component by component.
    fn div(self, other: Vec2<T>) -> (quotient: Vec2<T>) {
        Vec2 { x: self.x / other.x, y: self.y / other.y }
    }
}

impl<T> vstd::std_specs::ops::DivSpecImpl<Vec2<T>> for Vec2<T> where T: core::ops::Div<Output = T> {
    open spec fn obeys_div_spec() -> bool {
        T::obeys_div_spec()
    }

    open spec fn div_req(self, other: Vec2<T>) -> bool {
        self.x.div_req(other.x) && self.y.div_req(other.y)
    }

    open spec fn div_spec(self, other: Vec2<T>) -> Vec2<T> {
        Vec2 { x: self.x.div_spec(other.x), y: self.y.div_spec(other.y) }
    }
}

impl core::ops::Div<i32> for Vec2<i32> {
    type Output = Vec2<i32>;

    /// Both components divided by one number, rounding toward zero.
    fn div(self, other: i32) -> (quotient: Vec2<i32>) {
        Vec2 { x: self.x / other, y: self.y / other }
    }
}

impl vstd::std_specs::ops::DivSpecImpl<i32> for Vec2<i32> {
    open spec fn obeys_div_spec() -> bool {
        true
    }

    open spec fn div_req(self, other: i32) -> bool {
        &&& other != 0
        &&& !(self.x == i32::MIN && other == -1)
        &&& !(self.y == i32::MIN && other == -1)
    }

    open spec fn div_spec(self, other: i32) -> Vec2<i32> {
        Vec2 {
            x: quotient_toward_zero(self.x as int, other as int) as i32,
            y: quotient_toward_zero(self.y as int, other as int) as i32,
        }
    }
}

/// The quotient of two integers with the fraction dropped, as the machine
/// divides: `-7 / 2` is `-3`.
pub open spec fn quotient_toward_zero(a: int, b: int) -> int {
    if a >= 0 {
        a / b
    } else {
        -((-a) / b)
    }
}

/// Adding integer vectors is associative: `(a + b) + c` and `a + (b + c)` are
/// the same vector whenever all four sums fit the component type.
pub proof fn lemma_add_associative(a: Vec2i, b: Vec2i, c: Vec2i)
    requires
        a.add_req(b),
        a.add_spec(b).add_req(c),
        b.add_req(c),
        a.add_req(b.add_spec(c)),
    ensures
        a.add_spec(b).add_spec(c) == a.add_spec(b.add_spec(c)),
{
}

/// A point, a direction or a colour: three binary32 numbers, held by their
/// bit patterns.
#[derive(Clone, Copy, Debug)]
pub struct Vec3 {
    pub x: Scalar,
    pub y: Scalar,
    pub z: Scalar,
}

impl Vec3 {
    /// Whether a component is a number of absolute value below one
    /// ten-thousandth.
    pub open spec fn tiny(c: Scalar) -> bool {
        !c.nan() && c.magnitude() < EPSILON_BITS
    }

    /// Whether all three components are tiny, so that the vector gives no
    /// direction.
    pub open spec fn negligible(self) -> bool {
        Self::tiny(self.x) && Self::tiny(self.y) && Self::tiny(self.z)
    }

    /// Whether some component is not a number.
    pub open spec fn has_nan(self) -> bool {
        self.x.nan() || self.y.nan() || self.z.nan()
    }

    /// The vector with every sign turned.
    pub open spec fn negated(self) -> Vec3 {
        Vec3 { x: self.x.negated(), y: self.y.negated(), z: self.z.negated() }
    }

    /// The vector with the given components.
    pub fn new(x: Scalar, y: Scalar, z: Scalar) -> (v: Vec3)
        ensures
            v == (Vec3 { x, y, z }),
    {
        Vec3 { x, y, z }
    }

    /// The vector of three zeros.
    pub fn zero() -> (v: Vec3)
        ensures
            v.x.bits == 0,
            v.y.bits == 0,
            v.z.bits == 0,
    {
        Vec3 { x: Scalar::from_bits(0), y: Scalar::from_bits(0), z: Scalar::from_bits(0) }
    }

    /// The vector of three ones.
    pub fn ones() -> (v: Vec3)
        ensures
            v.x.bits == ONE_BITS,
            v.y.bits == ONE_BITS,
            v.z.bits == ONE_BITS,
    {
        Vec3 {
            x: Scalar::from_bits(ONE_BITS),
            y: Scalar::from_bits(ONE_BITS),
            z: Scalar::from_bits(ONE_BITS),
        }
    }

    /// Whether every component's absolute value is below one ten-thousandth.
    pub fn near_zero(&self) -> (r: bool)
        ensures
            r == self.negligible(),
    {
        let epsilon = Scalar::from_bits(EPSILON_BITS);
        self.x.abs().lt(epsilon) && self.y.abs().lt(epsilon) && self.z.abs().lt(epsilon)
    }
}

impl core::ops::Neg for Vec3 {
    type Output = Vec3;

    /// The vector with every sign turned.
    fn neg(self) -> (r: Vec3) {
        Vec3 { x: self.x.neg(), y: self.y.neg(), z: self.z.neg() }
    }
}

impl vstd::std_specs::ops::NegSpecImpl for Vec3 {
    open spec fn obeys_neg_spec() -> bool {
        true
    }

    open spec fn neg_req(self) -> bool {
        true
    }

    open spec fn neg_spec(self) -> Vec3 {
        self.negated()
    }
}

/// A region of pixels: a corner `(x, y)` and two extents `w` and `h`.
#[derive(Clone, Copy, Debug)]
pub struct Rect {
    pub x: i32,
    pub y: i32,
    pub w: i32,
    pub h: i32,
}

impl Rect {
    /// The corner of the region.
    pub fn pos(&self) -> (p: Vec2i)
        ensures
            p.x == self.x,
            p.y == self.y,
    {
        Vec2i { x: self.x, y: self.y }
    }

    /// The distance from the corner to the point `(w, h)`, per axis.
    pub fn size(&self) -> (s: Vec2i)
        requires
            i32::MIN <= self.w - self.x <= i32::MAX,
            i32::MIN <= self.h - self.y <= i32::MAX,
        ensures
            s.x == self.w - self.x,
            s.y == self.h - self.y,
    {
        Vec2i { x: self.w - self.x, y: self.h - self.y }
    }
}

} // verus!
