//! 256-bit unsigned intermediates for the price arithmetic.
//!
//! Reserves and amounts are 128-bit, so products inside the price formulas
//! need 256 bits. A value is carried as two 128-bit halves; the arithmetic
//! itself is done by `primitive_types::U256`, behind contracts that state the
//! exact integer result.

use vstd::prelude::*;

verus! {

/// 2^128, the weight of the upper half of a `Wide`.
pub open spec fn pow128() -> int {
    0x100000000000000000000000000000000int
}

/// 2^256, the first value a `Wide` cannot hold.
pub open spec fn pow256() -> int {
    0x10000000000000000000000000000000000000000000000000000000000000000int
}

/// `x` saturated into the 128-bit balance range.
pub open spec fn clip_u128(x: int) -> u128
    recommends
        x >= 0,
{
    if x > u128::MAX {
        u128::MAX
    } else {
        x as u128
    }
}

/// An unsigned 256-bit value, split into two 128-bit halves.
#[derive(Clone, Copy, Debug, PartialEq, Eq, Structural)]
pub struct Wide {
    pub hi: u128,
    pub lo: u128,
}

impl Wide {
    /// The integer this pair of halves stands for.
    pub open spec fn value(self) -> int {
        self.hi * pow128() + self.lo
    }

    /// Widen a 128-bit value.
    pub fn from_u128(x: u128) -> (r: Wide)
        ensures
            r.value() == x,
    {
        Wide { hi: 0, lo: x }
    }

    /// Narrow back to 128 bits, saturating at `u128::MAX`, as every
    /// narrowing into the balance range does.
    pub fn to_u128_saturating(self) -> (r: u128)
        ensures
            r == clip_u128(self.value()),
    {
        if self.hi != 0 {
            proof {
                assert(self.hi * pow128() >= pow128()) by (nonlinear_arith)
                    requires
                        self.hi >= 1,
                ;
            }
            u128::MAX
        } else {
            self.lo
        }
    }

    /// Whether the value is zero.
    pub fn is_zero(self) -> (r: bool)
        ensures
            r == (self.value() == 0),
    {
        proof {
            if self.hi != 0 {
                assert(self.hi * pow128() >= pow128()) by (nonlinear_arith)
                    requires
                        self.hi >= 1,
                ;
            }
        }
        self.hi == 0 && self.lo == 0
    }
}

/// Relies on `primitive_types::U256`: `Mul` returns the exact 256-bit
/// product and panics only past 2^256, which the precondition rules out.
#[verifier::external_body]
pub fn wide_mul(a: Wide, b: Wide) -> (r: Wide)
    requires
        a.value() * b.value() < pow256(),
    ensures
        r.value() == a.value() * b.value(),
{
    let x = (primitive_types::U256::from(a.hi) << 128) | primitive_types::U256::from(a.lo);
    let y = (primitive_types::U256::from(b.hi) << 128) | primitive_types::U256::from(b.lo);
    let p = x * y;
    Wide { hi: (p >> 128).low_u128(), lo: p.low_u128() }
}

/// Relies on `primitive_types::U256`: `Add` returns the exact sum and panics
/// only past 2^256, which the precondition rules out.
#[verifier::external_body]
pub fn wide_add(a: Wide, b: Wide) -> (r: Wide)
    requires
        a.value() + b.value() < pow256(),
    ensures
        r.value() == a.value() + b.value(),
{
    let x = (primitive_types::U256::from(a.hi) << 128) | primitive_types::U256::from(a.lo);
    let y = (primitive_types::U256::from(b.hi) << 128) | primitive_types::U256::from(b.lo);
    let s = x + y;
    Wide { hi: (s >> 128).low_u128(), lo: s.low_u128() }
}

/// Relies on `primitive_types::U256`: `Sub` returns the exact difference and
/// panics only on underflow, which the precondition rules out.
#[verifier::external_body]
pub fn wide_sub(a: Wide, b: Wide) -> (r: Wide)
    requires
        b.value() <= a.value(),
    ensures
        r.value() == a.value() - b.value(),
{
    let x = (primitive_types::U256::from(a.hi) << 128) | primitive_types::U256::from(a.lo);
    let y = (primitive_types::U256::from(b.hi) << 128) | primitive_types::U256::from(b.lo);
    let d = x - y;
    Wide { hi: (d >> 128).low_u128(), lo: d.low_u128() }
}

/// Relies on `primitive_types::U256`: `div_mod` returns the truncating
/// quotient and asserts a non-zero divisor, which the precondition supplies.
#[verifier::external_body]
pub fn wide_div(a: Wide, b: Wide) -> (r: Wide)
    requires
        b.value() > 0,
    ensures
        r.value() == a.value() / b.value(),
{
    let x = (primitive_types::U256::from(a.hi) << 128) | primitive_types::U256::from(a.lo);
    let y = (primitive_types::U256::from(b.hi) << 128) | primitive_types::U256::from(b.lo);
    let (q, _) = x.div_mod(y);
    Wide { hi: (q >> 128).low_u128(), lo: q.low_u128() }
}

} // verus!
