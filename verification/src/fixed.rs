//! Fixed-point decimal amounts.
//!
//! A [`Dec`] counts millionths: `Dec { units: 450_000 }` is 0.45. Prices,
//! sizes, balances and thresholds are all carried this way, so strategy
//! arithmetic is exact integer arithmetic. Multiplication and division round
//! down (truncate), and both directions of every rounding are stated in the
//! contracts.

use vstd::prelude::*;

verus! {

/// Number of units in 1.0.
pub const DEC_SCALE: u64 = 1_000_000;

/// `a * b` scaled back down, rounding toward zero.
pub open spec fn dec_mul_down(a: int, b: int) -> int {
    (a * b) / (DEC_SCALE as int)
}

/// `a / b` carried to `DEC_SCALE` precision, rounding toward zero.
pub open spec fn dec_div_down(a: int, b: int) -> int
    recommends
        b > 0,
{
    (a * (DEC_SCALE as int)) / b
}

pub open spec fn int_min(a: int, b: int) -> int {
    if a <= b {
        a
    } else {
        b
    }
}

/// Scaling by a factor of at most 1 shrinks: if `0 <= b <= DEC_SCALE` then
/// `dec_mul_down(a, b) <= a`.
pub proof fn lemma_mul_down_le_left(a: int, b: int)
    requires
        0 <= a,
        0 <= b <= DEC_SCALE,
    ensures
        0 <= dec_mul_down(a, b) <= a,
{
    assert(0 <= (a * b) / (DEC_SCALE as int) <= a) by (nonlinear_arith)
        requires
            0 <= a,
            0 <= b <= DEC_SCALE as int,
    ;
}

/// Same, with the shrinking factor on the left.
pub proof fn lemma_mul_down_le_right(a: int, b: int)
    requires
        0 <= a <= DEC_SCALE,
        0 <= b,
    ensures
        0 <= dec_mul_down(a, b) <= b,
{
    assert(0 <= (a * b) / (DEC_SCALE as int) <= b) by (nonlinear_arith)
        requires
            0 <= a <= DEC_SCALE as int,
            0 <= b,
    ;
}

/// Dividing a part by the whole stays at or below 1.
pub proof fn lemma_div_down_part(a: int, b: int)
    requires
        0 <= a <= b,
        0 < b,
    ensures
        0 <= dec_div_down(a, b) <= DEC_SCALE,
{
    assert(0 <= (a * (DEC_SCALE as int)) / b <= DEC_SCALE as int) by (nonlinear_arith)
        requires
            0 <= a <= b,
            0 < b,
    ;
}

/// Scaling by a factor of at least 1 grows: if `b >= DEC_SCALE` then
/// `a <= dec_mul_down(a, b)`.
pub proof fn lemma_mul_down_ge_one_factor(a: int, b: int)
    requires
        0 <= a,
        DEC_SCALE <= b,
    ensures
        a <= dec_mul_down(a, b),
{
    assert(a <= (a * b) / (DEC_SCALE as int)) by (nonlinear_arith)
        requires
            0 <= a,
            DEC_SCALE as int <= b,
    ;
}

/// Scaling by a factor of at most 2 at most doubles.
pub proof fn lemma_mul_down_le_double(a: int, b: int)
    requires
        0 <= a <= 2 * DEC_SCALE,
        0 <= b,
    ensures
        0 <= dec_mul_down(a, b) <= 2 * b,
{
    assert(0 <= (a * b) / (DEC_SCALE as int) <= 2 * b) by (nonlinear_arith)
        requires
            0 <= a <= 2 * (DEC_SCALE as int),
            0 <= b,
    ;
}

/// A non-negative fixed-point decimal amount in millionths.
#[derive(Clone, Copy, Debug, PartialEq, Eq, Structural)]
pub struct Dec {
    pub units: u64,
}

impl View for Dec {
    type V = int;

    open spec fn view(&self) -> int {
        self.units as int
    }
}

impl Dec {
    pub fn new(units: u64) -> (r: Dec)
        ensures
            r@ == units,
    {
        Dec { units }
    }

    pub fn zero() -> (r: Dec)
        ensures
            r@ == 0,
    {
        Dec { units: 0 }
    }

    pub fn one() -> (r: Dec)
        ensures
            r@ == DEC_SCALE,
    {
        Dec { units: DEC_SCALE }
    }

    pub fn is_positive(self) -> (r: bool)
        ensures
            r == (self@ > 0),
    {
        self.units > 0
    }

    pub fn lt(self, o: Dec) -> (r: bool)
        ensures
            r == (self@ < o@),
    {
        self.units < o.units
    }

    pub fn le(self, o: Dec) -> (r: bool)
        ensures
            r == (self@ <= o@),
    {
        self.units <= o.units
    }

    pub fn gt(self, o: Dec) -> (r: bool)
        ensures
            r == (self@ > o@),
    {
        self.units > o.units
    }

    pub fn add(self, o: Dec) -> (r: Dec)
        requires
            self@ + o@ <= u64::MAX,
        ensures
            r@ == self@ + o@,
    {
        Dec { units: self.units + o.units }
    }

    pub fn sub(self, o: Dec) -> (r: Dec)
        requires
            o@ <= self@,
        ensures
            r@ == self@ - o@,
    {
        Dec { units: self.units - o.units }
    }

    pub fn min(self, o: Dec) -> (r: Dec)
        ensures
            r@ == int_min(self@, o@),
    {
        if self.units <= o.units {
            self
        } else {
            o
        }
    }

    /// Half of the amount, rounding down.
    pub fn halve(self) -> (r: Dec)
        ensures
            r@ == self@ / 2,
    {
        Dec { units: self.units / 2 }
    }

    /// Fixed-point product, rounding down.
    pub fn mul(self, o: Dec) -> (r: Dec)
        requires
            dec_mul_down(self@, o@) <= u64::MAX,
        ensures
            r@ == dec_mul_down(self@, o@),
    {
        proof {
            assert((self.units as int) * (o.units as int) <= (u64::MAX as int) * (
            u64::MAX as int)) by (nonlinear_arith)
                requires
                    self.units as int <= u64::MAX as int,
                    o.units as int <= u64::MAX as int,
                    self.units as int >= 0,
                    o.units as int >= 0,
            ;
        }
        let p: u128 = (self.units as u128) * (o.units as u128);
        let q: u128 = p / (DEC_SCALE as u128);
        Dec { units: q as u64 }
    }

    /// Fixed-point quotient, rounding down.
    pub fn div(self, o: Dec) -> (r: Dec)
        requires
            o@ > 0,
            dec_div_down(self@, o@) <= u64::MAX,
        ensures
            r@ == dec_div_down(self@, o@),
    {
        proof {
            assert((self.units as int) * (DEC_SCALE as int) <= (u64::MAX as int) * (
            DEC_SCALE as int)) by (nonlinear_arith)
                requires
                    self.units as int <= u64::MAX as int,
                    self.units as int >= 0,
            ;
        }
        let p: u128 = (self.units as u128) * (DEC_SCALE as u128);
        let q: u128 = p / (o.units as u128);
        Dec { units: q as u64 }
    }

    /// Fixed-point quotient capped at `cap`; never overflows.
    pub fn div_capped(self, o: Dec, cap: Dec) -> (r: Dec)
        requires
            o@ > 0,
        ensures
            r@ == int_min(dec_div_down(self@, o@), cap@),
    {
        proof {
            assert((self.units as int) * (DEC_SCALE as int) <= (u64::MAX as int) * (
            DEC_SCALE as int)) by (nonlinear_arith)
                requires
                    self.units as int <= u64::MAX as int,
                    self.units as int >= 0,
            ;
        }
        let p: u128 = (self.units as u128) * (DEC_SCALE as u128);
        let q: u128 = p / (o.units as u128);
        if q >= (cap.units as u128) {
            cap
        } else {
            Dec { units: q as u64 }
        }
    }

    /// `part / whole` as a percentage (the quotient times 100), saturating at
    /// the largest representable amount.
    pub fn percent_ratio(self, whole: Dec) -> (r: Dec)
        requires
            whole@ > 0,
        ensures
            r@ == int_min(dec_div_down(self@, whole@) * 100, u64::MAX as int),
    {
        proof {
            assert((self.units as int) * (DEC_SCALE as int) <= (u64::MAX as int) * (
            DEC_SCALE as int)) by (nonlinear_arith)
                requires
                    self.units as int <= u64::MAX as int,
                    self.units as int >= 0,
            ;
        }
        let p: u128 = (self.units as u128) * (DEC_SCALE as u128);
        let q: u128 = p / (whole.units as u128);
        let h: u128 = q * 100;
        if h >= (u64::MAX as u128) {
            Dec { units: u64::MAX }
        } else {
            Dec { units: h as u64 }
        }
    }
}

} // verus!
