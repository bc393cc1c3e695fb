//! Double-precision numbers with the arithmetic of IEEE 754, held as their bits.
//!
//! Prices, sizes and signals are doubles throughout. `Num` states every operation on
//! them as the exact rational result rounded once to nearest, ties to even.
use crate::rounding::{encode, units, INF_BITS};
use vstd::arithmetic::power2::pow2;
use vstd::prelude::*;

verus! {

/// 2^63: the sign bit.
pub const SIGN: u64 = 0x8000_0000_0000_0000;

/// A double, as its bits.
#[derive(Clone, Copy, Debug)]
pub struct Num {
    pub bits: u64,
}

impl Num {
    pub open spec fn is_neg(self) -> bool {
        self.bits >= SIGN
    }

    /// Magnitude bits: the number without its sign.
    pub open spec fn mag(self) -> int {
        if self.bits >= SIGN {
            self.bits - SIGN
        } else {
            self.bits as int
        }
    }

    pub open spec fn spec_is_nan(self) -> bool {
        self.mag() > INF_BITS
    }

    pub open spec fn spec_is_finite(self) -> bool {
        self.mag() < INF_BITS
    }

    pub open spec fn is_inf(self) -> bool {
        self.mag() == INF_BITS
    }

    /// The value of a finite number in units of 2^-1074.
    pub open spec fn val(self) -> int {
        if self.is_neg() {
            -units(self.mag())
        } else {
            units(self.mag())
        }
    }

    /// Position among the non-NaN numbers; both zeros share one.
    pub open spec fn key(self) -> int {
        if self.is_neg() {
            -self.mag()
        } else {
            self.mag()
        }
    }

    /// The number with the given sign and magnitude.
    pub open spec fn of(neg: bool, mag: int) -> Num {
        Num {
            bits: if neg {
                (mag + SIGN) as u64
            } else {
                mag as u64
            },
        }
    }

    pub open spec fn spec_zero() -> Num {
        Num { bits: 0 }
    }

    pub open spec fn spec_one() -> Num {
        Num { bits: 0x3FF0_0000_0000_0000 }
    }

    pub open spec fn nan() -> Num {
        Num { bits: 0x7FF8_0000_0000_0000 }
    }

    /// The double nearest to `n / d` units.
    pub open spec fn nearest(n: int, d: int) -> Num {
        if n < 0 {
            Num::of(true, encode(-n, d))
        } else {
            Num::of(false, encode(n, d))
        }
    }

    #[verifier::opaque]
    pub open spec fn spec_add(self, o: Num) -> Num {
        if self.spec_is_nan() || o.spec_is_nan() {
            Num::nan()
        } else if self.is_inf() {
            if o.is_inf() && self.is_neg() != o.is_neg() {
                Num::nan()
            } else {
                self
            }
        } else if o.is_inf() {
            o
        } else if self.val() + o.val() == 0 {
            Num::of(self.is_neg() && o.is_neg(), 0)
        } else {
            Num::nearest(self.val() + o.val(), 1)
        }
    }

    pub open spec fn spec_negated(self) -> Num {
        Num::of(!self.is_neg(), self.mag())
    }

    pub open spec fn spec_sub(self, o: Num) -> Num {
        self.spec_add(o.spec_negated())
    }

    #[verifier::opaque]
    pub open spec fn spec_mul(self, o: Num) -> Num {
        let neg = self.is_neg() != o.is_neg();
        if self.spec_is_nan() || o.spec_is_nan() {
            Num::nan()
        } else if self.is_inf() || o.is_inf() {
            if self.mag() == 0 || o.mag() == 0 {
                Num::nan()
            } else {
                Num::of(neg, INF_BITS as int)
            }
        } else {
            Num::of(neg, encode(units(self.mag()) * units(o.mag()), pow2(1074) as int))
        }
    }

    #[verifier::opaque]
    pub open spec fn spec_div(self, o: Num) -> Num {
        let neg = self.is_neg() != o.is_neg();
        if self.spec_is_nan() || o.spec_is_nan() {
            Num::nan()
        } else if self.is_inf() {
            if o.is_inf() {
                Num::nan()
            } else {
                Num::of(neg, INF_BITS as int)
            }
        } else if o.is_inf() {
            Num::of(neg, 0)
        } else if o.mag() == 0 {
            if self.mag() == 0 {
                Num::nan()
            } else {
                Num::of(neg, INF_BITS as int)
            }
        } else {
            Num::of(neg, encode(units(self.mag()) * pow2(1074), units(o.mag())))
        }
    }

    /// `/` in contracts.
    #[verifier::inline]
    pub open spec fn spec_euclidean_or_real_div(self, o: Num) -> Num {
        self.spec_div(o)
    }

    pub open spec fn spec_lt(self, o: Num) -> bool {
        !self.spec_is_nan() && !o.spec_is_nan() && self.key() < o.key()
    }

    pub open spec fn spec_le(self, o: Num) -> bool {
        !self.spec_is_nan() && !o.spec_is_nan() && self.key() <= o.key()
    }

    pub open spec fn spec_gt(self, o: Num) -> bool {
        o.spec_lt(self)
    }

    pub open spec fn spec_ge(self, o: Num) -> bool {
        o.spec_le(self)
    }

    /// Numerical equality: the zeros are equal, NaN equals nothing.
    pub open spec fn spec_same(self, o: Num) -> bool {
        !self.spec_is_nan() && !o.spec_is_nan() && self.key() == o.key()
    }

    pub open spec fn spec_abs(self) -> Num {
        Num::of(false, self.mag())
    }

    /// The larger of two numbers; a NaN gives way to the other.
    pub open spec fn spec_max(self, o: Num) -> Num {
        if self.spec_is_nan() {
            o
        } else if self.spec_lt(o) {
            o
        } else {
            self
        }
    }

    /// The smaller of two numbers; a NaN gives way to the other.
    pub open spec fn spec_min(self, o: Num) -> Num {
        if self.spec_is_nan() {
            o
        } else if o.spec_lt(self) {
            o
        } else {
            self
        }
    }

    pub open spec fn spec_clamp(self, lo: Num, hi: Num) -> Num {
        if self.spec_lt(lo) {
            lo
        } else if self.spec_gt(hi) {
            hi
        } else {
            self
        }
    }

    #[verifier::when_used_as_spec(spec_zero)]
    pub fn zero() -> (r: Num)
        ensures
            r == Num::spec_zero(),
    {
        Num { bits: 0 }
    }

    #[verifier::when_used_as_spec(spec_one)]
    pub fn one() -> (r: Num)
        ensures
            r == Num::spec_one(),
    {
        Num { bits: 0x3FF0_0000_0000_0000 }
    }

    pub fn from_bits(bits: u64) -> (r: Num)
        ensures
            r.bits == bits,
    {
        Num { bits }
    }

    pub fn to_bits(self) -> (r: u64)
        ensures
            r == self.bits,
    {
        self.bits
    }

    pub(crate) fn sign_of(self) -> (r: bool)
        ensures
            r == self.is_neg(),
    {
        self.bits >= SIGN
    }

    pub(crate) fn mag_of(self) -> (r: u64)
        ensures
            r == self.mag(),
            r < SIGN,
    {
        if self.bits >= SIGN {
            self.bits - SIGN
        } else {
            self.bits
        }
    }

    pub(crate) fn make(neg: bool, mag: u64) -> (r: Num)
        requires
            mag < SIGN,
        ensures
            r == Num::of(neg, mag as int),
    {
        if neg {
            Num { bits: mag + SIGN }
        } else {
            Num { bits: mag }
        }
    }

    pub(crate) fn key_of(self) -> (r: i64)
        ensures
            r == self.key(),
    {
        let m: u64 = self.mag_of();
        if self.bits >= SIGN {
            -(m as i64)
        } else {
            m as i64
        }
    }

    #[verifier::when_used_as_spec(spec_is_nan)]
    pub fn is_nan(self) -> (r: bool)
        ensures
            r == self.spec_is_nan(),
    {
        self.mag_of() > INF_BITS
    }

    #[verifier::when_used_as_spec(spec_is_finite)]
    pub fn is_finite(self) -> (r: bool)
        ensures
            r == self.spec_is_finite(),
    {
        self.mag_of() < INF_BITS
    }

    #[verifier::when_used_as_spec(spec_lt)]
    pub fn lt(self, o: Num) -> (r: bool)
        ensures
            r == self.spec_lt(o),
    {
        !self.is_nan() && !o.is_nan() && self.key_of() < o.key_of()
    }

    #[verifier::when_used_as_spec(spec_le)]
    pub fn le(self, o: Num) -> (r: bool)
        ensures
            r == self.spec_le(o),
    {
        !self.is_nan() && !o.is_nan() && self.key_of() <= o.key_of()
    }

    #[verifier::when_used_as_spec(spec_gt)]
    pub fn gt(self, o: Num) -> (r: bool)
        ensures
            r == self.spec_gt(o),
    {
        o.lt(self)
    }

    #[verifier::when_used_as_spec(spec_ge)]
    pub fn ge(self, o: Num) -> (r: bool)
        ensures
            r == self.spec_ge(o),
    {
        o.le(self)
    }

    #[verifier::when_used_as_spec(spec_same)]
    pub fn same(self, o: Num) -> (r: bool)
        ensures
            r == self.spec_same(o),
    {
        !self.is_nan() && !o.is_nan() && self.key_of() == o.key_of()
    }

    #[verifier::when_used_as_spec(spec_abs)]
    pub fn abs(self) -> (r: Num)
        ensures
            r == self.spec_abs(),
    {
        Num::make(false, self.mag_of())
    }

    #[verifier::when_used_as_spec(spec_negated)]
    pub fn negated(self) -> (r: Num)
        ensures
            r == self.spec_negated(),
    {
        Num::make(!self.sign_of(), self.mag_of())
    }

    #[verifier::when_used_as_spec(spec_max)]
    pub fn max(self, o: Num) -> (r: Num)
        ensures
            r == self.spec_max(o),
    {
        if self.is_nan() {
            o
        } else if self.lt(o) {
            o
        } else {
            self
        }
    }

    #[verifier::when_used_as_spec(spec_min)]
    pub fn min(self, o: Num) -> (r: Num)
        ensures
            r == self.spec_min(o),
    {
        if self.is_nan() {
            o
        } else if o.lt(self) {
            o
        } else {
            self
        }
    }

    #[verifier::when_used_as_spec(spec_clamp)]
    pub fn clamp(self, lo: Num, hi: Num) -> (r: Num)
        requires
            lo.spec_le(hi),
        ensures
            r == self.spec_clamp(lo, hi),
    {
        if self.lt(lo) {
            lo
        } else if self.gt(hi) {
            hi
        } else {
            self
        }
    }
}

} // verus!
