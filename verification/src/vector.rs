//! Two-component vectors over the scalar types the world uses.

use vstd::prelude::*;
use crate::meters::{fixed_mul, Meters};

verus! {

/// Marker for the scalar types a [`Vector2`] may carry.
pub trait Primitive: Copy {
}

impl Primitive for u16 {

}

impl Primitive for u32 {

}

impl Primitive for usize {

}

impl Primitive for Meters {

}

/// A two-dimensional vector.
#[derive(Clone, Copy, Debug, PartialEq, Eq)]
pub struct Vector2<T: Primitive> {
    /// First component.
    pub x: T,
    /// Second component.
    pub y: T,
}

impl<T: Primitive> Vector2<T> {
    /// Build a vector from its two components.
    pub fn new(x: T, y: T) -> (r: Self)
        ensures
            r == (Vector2 { x, y }),
    {
        Vector2 { x, y }
    }
}

impl Vector2<u16> {
    /// Widen both components.
    pub fn into(&self) -> (r: Vector2<u32>)
        ensures
            r.x == self.x as u32,
            r.y == self.y as u32,
    {
        Vector2 { x: self.x as u32, y: self.y as u32 }
    }
}

impl Vector2<Meters> {
    /// Fixed-point dot product.
    pub fn dot(&self, other: Self) -> (r: Meters)
        requires
            -0x4000_0000_0000_0000 <= self.x@ * other.x@ <= 0x4000_0000_0000_0000,
            -0x4000_0000_0000_0000 <= self.y@ * other.y@ <= 0x4000_0000_0000_0000,
            i64::MIN <= fixed_mul(self.x@, other.x@) + fixed_mul(self.y@, other.y@) <= i64::MAX,
        ensures
            r@ == fixed_mul(self.x@, other.x@) + fixed_mul(self.y@, other.y@),
    {
        self.x.mul(other.x).add(self.y.mul(other.y))
    }

    /// Fixed-point squared length: the dot product of the vector with itself.
    pub fn len_squared(&self) -> (r: Meters)
        requires
            self.x@ * self.x@ <= 0x4000_0000_0000_0000,
            self.y@ * self.y@ <= 0x4000_0000_0000_0000,
            fixed_mul(self.x@, self.x@) + fixed_mul(self.y@, self.y@) <= i64::MAX,
        ensures
            r@ == fixed_mul(self.x@, self.x@) + fixed_mul(self.y@, self.y@),
            r@ >= 0,
    {
        proof {
            lemma_square_nonneg(self.x@);
            lemma_square_nonneg(self.y@);
            assert(fixed_mul(self.x@, self.x@) >= 0);
            assert(fixed_mul(self.y@, self.y@) >= 0);
        }
        self.dot(*self)
    }
}

/// A square is never negative.
proof fn lemma_square_nonneg(x: int)
    ensures
        x * x >= 0,
{
    if x < 0 {
        assert(x * x >= 0) by (nonlinear_arith)
            requires x < 0;
    }
}

} // verus!
