//! Saturating fixed-point scalars.
//!
//! Every quantity of the simulation (lengths, velocities, forces, masses and
//! time) is a [`Fixed`]: a signed count of millionths. Arithmetic is exact
//! integer arithmetic followed by a clamp into the `i64` range, so the same
//! inputs give the same outputs on every machine.

use vstd::prelude::*;

verus! {

/// Raw units per whole unit.
pub const SCALE: i64 = 1_000_000;

/// Clamps a mathematical integer into the range of `i64`.
pub open spec fn saturate(v: int) -> int {
    if v < i64::MIN as int {
        i64::MIN as int
    } else if v > i64::MAX as int {
        i64::MAX as int
    } else {
        v
    }
}

/// Quotient rounded toward zero; meaningful for `d != 0`.
pub open spec fn trunc_div(n: int, d: int) -> int {
    if n >= 0 {
        n / d
    } else {
        -((-n) / d)
    }
}

/// A fixed-point number with six decimal places.
#[derive(Clone, Copy, Debug, PartialEq, Eq, Structural)]
pub struct Fixed {
    pub raw: i64,
}

impl View for Fixed {
    type V = int;

    open spec fn view(&self) -> int {
        self.raw as int
    }
}

proof fn lemma_product_fits(a: int, b: int)
    by (nonlinear_arith)
    requires
        -0x8000_0000_0000_0000 <= a <= 0x7fff_ffff_ffff_ffff,
        -0x8000_0000_0000_0000 <= b <= 0x7fff_ffff_ffff_ffff,
    ensures
        -0x4000_0000_0000_0000_0000_0000_0000_0000 <= a * b
            <= 0x4000_0000_0000_0000_0000_0000_0000_0000,
{
}

proof fn lemma_quotient_bounded(n: int, d: int)
    by (nonlinear_arith)
    requires
        n >= 0,
        d != 0,
    ensures
        -n <= n / d <= n,
{
}

/// Truncating quotient of two machine integers.
fn quotient(n: i128, d: i128) -> (q: i128)
    requires
        d != 0,
        -0x4000_0000_0000_0000_0000_0000_0000_0000 <= n
            <= 0x4000_0000_0000_0000_0000_0000_0000_0000,
    ensures
        q == trunc_div(n as int, d as int),
{
    proof {
        if n >= 0 {
            lemma_quotient_bounded(n as int, d as int);
        } else {
            lemma_quotient_bounded(-(n as int), d as int);
        }
    }
    n / d
}

fn clamp(v: i128) -> (r: i64)
    ensures
        r as int == saturate(v as int),
{
    if v < i64::MIN as i128 {
        i64::MIN
    } else if v > i64::MAX as i128 {
        i64::MAX
    } else {
        v as i64
    }
}

impl Fixed {
    /// The value with the given raw count of millionths.
    pub open spec fn spec_from_raw(raw: int) -> Fixed {
        Fixed { raw: saturate(raw) as i64 }
    }

    pub open spec fn spec_zero() -> Fixed {
        Fixed { raw: 0 }
    }

    pub open spec fn spec_one() -> Fixed {
        Fixed { raw: SCALE }
    }

    pub open spec fn spec_half() -> Fixed {
        Fixed { raw: 500_000 }
    }

    pub open spec fn spec_two() -> Fixed {
        Fixed { raw: 2_000_000 }
    }

    pub open spec fn spec_add(self, rhs: Fixed) -> Fixed {
        Fixed::spec_from_raw(self@ + rhs@)
    }

    pub open spec fn spec_sub(self, rhs: Fixed) -> Fixed {
        Fixed::spec_from_raw(self@ - rhs@)
    }

    pub open spec fn spec_neg(self) -> Fixed {
        Fixed::spec_from_raw(-self@)
    }

    pub open spec fn spec_abs(self) -> Fixed {
        Fixed::spec_from_raw(if self@ < 0 { -self@ } else { self@ })
    }

    /// Product of two fixed-point numbers, rounded toward zero.
    pub open spec fn spec_mul(self, rhs: Fixed) -> Fixed {
        Fixed::spec_from_raw(trunc_div(self@ * rhs@, SCALE as int))
    }

    /// Quotient of two fixed-point numbers, rounded toward zero; meaningful
    /// for a divisor other than zero.
    pub open spec fn spec_div(self, rhs: Fixed) -> Fixed {
        Fixed::spec_from_raw(trunc_div(self@ * SCALE, rhs@))
    }

    pub open spec fn spec_min(self, rhs: Fixed) -> Fixed {
        if self@ <= rhs@ {
            self
        } else {
            rhs
        }
    }

    pub open spec fn spec_max(self, rhs: Fixed) -> Fixed {
        if self@ >= rhs@ {
            self
        } else {
            rhs
        }
    }

    pub fn from_raw(raw: i64) -> (r: Fixed)
        ensures
            r@ == raw,
    {
        Fixed { raw }
    }

    /// The whole number `n`.
    pub fn from_int(n: i32) -> (r: Fixed)
        ensures
            r@ == n * SCALE,
    {
        Fixed { raw: (n as i64) * SCALE }
    }

    /// The whole number `n`.
    pub fn from_u32(n: u32) -> (r: Fixed)
        ensures
            r@ == n * SCALE,
    {
        Fixed { raw: (n as i64) * SCALE }
    }

    /// The fraction `num / den`, rounded toward zero to six decimal places.
    pub fn from_ratio(num: i64, den: i64) -> (r: Fixed)
        requires
            den != 0,
        ensures
            r == Fixed::spec_from_raw(trunc_div(num * SCALE, den as int)),
    {
        let scaled: i128 = (num as i128) * 1_000_000;
        Fixed { raw: clamp(quotient(scaled, den as i128)) }
    }

    pub fn zero() -> (r: Fixed)
        ensures
            r == Fixed::spec_zero(),
    {
        Fixed { raw: 0 }
    }

    pub fn one() -> (r: Fixed)
        ensures
            r == Fixed::spec_one(),
    {
        Fixed { raw: SCALE }
    }

    pub fn half() -> (r: Fixed)
        ensures
            r == Fixed::spec_half(),
    {
        Fixed { raw: 500_000 }
    }

    pub fn two() -> (r: Fixed)
        ensures
            r == Fixed::spec_two(),
    {
        Fixed { raw: 2_000_000 }
    }

    pub fn raw(self) -> (r: i64)
        ensures
            r == self@,
    {
        self.raw
    }

    pub fn add(self, rhs: Fixed) -> (r: Fixed)
        ensures
            r == self.spec_add(rhs),
    {
        Fixed { raw: clamp(self.raw as i128 + rhs.raw as i128) }
    }

    pub fn sub(self, rhs: Fixed) -> (r: Fixed)
        ensures
            r == self.spec_sub(rhs),
    {
        Fixed { raw: clamp(self.raw as i128 - rhs.raw as i128) }
    }

    pub fn neg(self) -> (r: Fixed)
        ensures
            r == self.spec_neg(),
    {
        Fixed { raw: clamp(-(self.raw as i128)) }
    }

    pub fn abs(self) -> (r: Fixed)
        ensures
            r == self.spec_abs(),
    {
        if self.raw < 0 {
            Fixed { raw: clamp(-(self.raw as i128)) }
        } else {
            self
        }
    }

    pub fn mul(self, rhs: Fixed) -> (r: Fixed)
        ensures
            r == self.spec_mul(rhs),
    {
        proof {
            lemma_product_fits(self@, rhs@);
        }
        let product: i128 = (self.raw as i128) * (rhs.raw as i128);
        Fixed { raw: clamp(quotient(product, SCALE as i128)) }
    }

    pub fn div(self, rhs: Fixed) -> (r: Fixed)
        requires
            rhs@ != 0,
        ensures
            r == self.spec_div(rhs),
    {
        let scaled: i128 = (self.raw as i128) * 1_000_000;
        Fixed { raw: clamp(quotient(scaled, rhs.raw as i128)) }
    }

    /// The quotient, or `None` for a zero divisor.
    pub fn checked_div(self, rhs: Fixed) -> (r: Option<Fixed>)
        ensures
            rhs@ == 0 ==> r is None,
            rhs@ != 0 ==> r == Some(self.spec_div(rhs)),
    {
        if rhs.raw == 0 {
            None
        } else {
            Some(self.div(rhs))
        }
    }

    pub fn min(self, rhs: Fixed) -> (r: Fixed)
        ensures
            r == self.spec_min(rhs),
    {
        if self.raw <= rhs.raw {
            self
        } else {
            rhs
        }
    }

    pub fn max(self, rhs: Fixed) -> (r: Fixed)
        ensures
            r == self.spec_max(rhs),
    {
        if self.raw >= rhs.raw {
            self
        } else {
            rhs
        }
    }

    pub fn lt(self, rhs: Fixed) -> (r: bool)
        ensures
            r == (self@ < rhs@),
    {
        self.raw < rhs.raw
    }

    pub fn le(self, rhs: Fixed) -> (r: bool)
        ensures
            r == (self@ <= rhs@),
    {
        self.raw <= rhs.raw
    }

    pub fn gt(self, rhs: Fixed) -> (r: bool)
        ensures
            r == (self@ > rhs@),
    {
        self.raw > rhs.raw
    }

    pub fn ge(self, rhs: Fixed) -> (r: bool)
        ensures
            r == (self@ >= rhs@),
    {
        self.raw >= rhs.raw
    }

    pub fn is_zero(self) -> (r: bool)
        ensures
            r == (self@ == 0),
    {
        self.raw == 0
    }
}

/// Zero divided by anything but zero is zero.
pub proof fn lemma_zero_quotient(d: int)
    by (nonlinear_arith)
    requires
        d != 0,
    ensures
        trunc_div(0, d) == 0,
{
}

/// A product with zero is zero, and zero divided by a number other than
/// zero is zero.
pub proof fn lemma_zero_absorbs(k: Fixed)
    ensures
        Fixed::spec_zero().spec_mul(k) == Fixed::spec_zero(),
        k.spec_mul(Fixed::spec_zero()) == Fixed::spec_zero(),
        k@ != 0 ==> Fixed::spec_zero().spec_div(k) == Fixed::spec_zero(),
{
    assert(0 * k@ == 0);
    assert(k@ * 0 == 0);
    if k@ != 0 {
        lemma_zero_quotient(k@);
    }
}

/// Multiplying by one changes nothing, and multiplying by minus one negates.
pub proof fn lemma_unit_products(k: Fixed)
    ensures
        k.spec_mul(Fixed::spec_one()) == k,
        Fixed::spec_one().spec_mul(k) == k,
        k.spec_mul(Fixed::spec_one().spec_neg()) == k.spec_neg(),
        Fixed::spec_one().spec_neg().spec_mul(k) == k.spec_neg(),
{
    let v = k@;
    assert(v * 1_000_000 == 1_000_000 * v);
    assert(v * (-1_000_000) == -(v * 1_000_000));
    assert((-1_000_000) * v == -(v * 1_000_000));
    if v >= 0 {
        assert((v * 1_000_000) / 1_000_000 == v);
    } else {
        assert(((-v) * 1_000_000) / 1_000_000 == -v);
        assert(-(v * 1_000_000) == (-v) * 1_000_000);
    }
}

/// Halving brings a number no further from zero.
pub proof fn lemma_half_is_no_larger(k: Fixed)
    ensures
        k.spec_mul(Fixed::spec_half()).spec_abs()@ <= k.spec_abs()@,
{
    let v = k@;
    assert(v * 500_000 == 500_000 * v);
    if v >= 0 {
        assert((v * 500_000) / 1_000_000 <= v);
        assert((v * 500_000) / 1_000_000 >= 0);
    } else {
        assert(-(v * 500_000) == (-v) * 500_000);
        assert(((-v) * 500_000) / 1_000_000 <= -v);
        assert(((-v) * 500_000) / 1_000_000 >= 0);
    }
}

/// The product of two numbers that are not negative is not negative.
pub proof fn lemma_product_not_negative(a: Fixed, b: Fixed)
    requires
        a@ >= 0,
        b@ >= 0,
    ensures
        a.spec_mul(b)@ >= 0,
{
    assert(a@ * b@ >= 0) by (nonlinear_arith)
        requires
            a@ >= 0,
            b@ >= 0,
    ;
    assert((a@ * b@) / 1_000_000 >= 0);
}

} // verus!
