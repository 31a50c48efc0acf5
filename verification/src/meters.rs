//! Fixed-point physical units.
//!
//! The world measures continuous quantities (sub-tile positions,
//! velocities, accelerations) in tile sides. Such a quantity is a
//! [`Meters`] value: a signed count of 1/65536-ths of a tile side, so that
//! every arithmetic step is exact integer arithmetic with a stated rounding
//! rule.

use vstd::prelude::*;
use vstd::arithmetic::div_mod::{lemma_fundamental_div_mod, lemma_fundamental_div_mod_converse};

verus! {

/// One tile side in raw fixed-point units.
pub const FIXED_ONE: i64 = 65536;

/// Half a tile side in raw fixed-point units.
pub const FIXED_HALF: i64 = 32768;

/// The product of two raw fixed-point values, rescaled back to raw units by
/// floor division (the divisor is positive, so Euclidean and floor division
/// agree).
pub open spec fn fixed_mul(a: int, b: int) -> int {
    (a * b) / (FIXED_ONE as int)
}

/// The whole-tile step nearest to the raw value `x`; ties round away from
/// zero.
pub open spec fn round_step_spec(x: int) -> int {
    if x >= FIXED_HALF {
        1
    } else if x <= -FIXED_HALF {
        -1
    } else {
        0
    }
}

/// A continuous physical-unit quantity, stored as a signed count of
/// 1/65536-ths of a tile side.
#[derive(Clone, Copy, Debug, PartialEq, Eq, Structural)]
pub struct Meters(pub i64);

impl View for Meters {
    type V = int;

    open spec fn view(&self) -> int {
        self.0 as int
    }
}

impl Meters {
    /// Build a quantity from its raw fixed-point unit count.
    pub fn new(raw: i64) -> (r: Meters)
        ensures
            r@ == raw,
    {
        Meters(raw)
    }

    /// The raw fixed-point unit count.
    pub fn raw(&self) -> (r: i64)
        ensures
            r == self@,
    {
        self.0
    }

    /// Exact sum.
    pub fn add(self, rhs: Meters) -> (r: Meters)
        requires
            i64::MIN <= self@ + rhs@ <= i64::MAX,
        ensures
            r@ == self@ + rhs@,
    {
        Meters(self.0 + rhs.0)
    }

    /// Exact difference.
    pub fn sub(self, rhs: Meters) -> (r: Meters)
        requires
            i64::MIN <= self@ - rhs@ <= i64::MAX,
        ensures
            r@ == self@ - rhs@,
    {
        Meters(self.0 - rhs.0)
    }

    /// Exact negation.
    pub fn neg(self) -> (r: Meters)
        requires
            self@ != i64::MIN,
        ensures
            r@ == -self@,
    {
        Meters(-self.0)
    }

    /// Fixed-point product: the exact integer product rescaled by floor
    /// division.
    pub fn mul(self, rhs: Meters) -> (r: Meters)
        requires
            -0x4000_0000_0000_0000 <= self@ * rhs@ <= 0x4000_0000_0000_0000,
        ensures
            r@ == fixed_mul(self@, rhs@),
    {
        let p: i128 = (self.0 as i128) * (rhs.0 as i128);
        if p >= 0 {
            let q: u128 = (p as u128) / 65536;
            Meters(q as i64)
        } else {
            let m: u128 = (((-p) as u128) + 65535) / 65536;
            proof {
                lemma_floor_div_neg(p as int);
            }
            Meters(-(m as i64))
        }
    }

    /// The whole-tile step nearest to this quantity.
    pub fn round_step(&self) -> (r: i64)
        ensures
            r == round_step_spec(self@),
    {
        if self.0 >= FIXED_HALF {
            1
        } else if self.0 <= -FIXED_HALF {
            -1
        } else {
            0
        }
    }
}

/// Integer square root: the greatest `r` with `r * r <= n`.
pub fn isqrt(n: u64) -> (r: u64)
    ensures
        r * r <= n < (r + 1) * (r + 1),
        r <= 0xffff_ffff,
{
    let mut lo: u64 = 0;
    let mut hi: u64 = 0x1_0000_0000;
    while lo + 1 < hi
        invariant
            lo < hi <= 0x1_0000_0000,
            lo * lo <= n,
            hi * hi > n,
        decreases hi - lo,
    {
        let mid = lo + (hi - lo) / 2;
        proof {
            assert((mid as int) * (mid as int) <= 0x1_0000_0000 * 0x1_0000_0000)
                by (nonlinear_arith)
                requires 0 <= mid as int <= 0x1_0000_0000;
        }
        let sq: u128 = (mid as u128) * (mid as u128);
        if sq <= n as u128 {
            lo = mid;
        } else {
            hi = mid;
        }
    }
    lo
}

/// Floor division of a negative dividend by 65536, written with a
/// nonnegative dividend: `x / 65536 == -((-x + 65535) / 65536)`.
proof fn lemma_floor_div_neg(x: int)
    requires
        x < 0,
    ensures
        x / 65536 == -((-x + 65535) / 65536),
{
    let k = x / 65536;
    let r = x % 65536;
    lemma_fundamental_div_mod(x, 65536);
    lemma_fundamental_div_mod_converse(-x + 65535, 65536, -k, 65535 - r);
}

} // verus!
