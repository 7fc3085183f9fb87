//! Double-precision numbers as bit patterns, with the IEEE 754 order on them.

use vstd::prelude::*;
use vstd::arithmetic::power2::lemma2_to64;
use vstd::arithmetic::power2::lemma2_to64_rest;
use vstd::arithmetic::power2::lemma_pow2_pos;
use vstd::arithmetic::power2::lemma_pow2_strictly_increases;
use vstd::arithmetic::power2::lemma_pow2_unfold;
use vstd::arithmetic::power2::pow2;

verus! {

/// The sign bit of a binary64 pattern.
pub const SIGN_BIT: u64 = 0x8000_0000_0000_0000;

/// The pattern of `+inf`: every magnitude above it is a NaN.
pub const INFINITY_BITS: u64 = 0x7FF0_0000_0000_0000;

/// The pattern of `1.0`.
pub const ONE_BITS: u64 = 0x3FF0_0000_0000_0000;

/// The pattern of `0.5`.
pub const HALF_BITS: u64 = 0x3FE0_0000_0000_0000;

/// Two to the 53rd: the number of doubles spread evenly over `[0, 1)`.
pub const UNIT_STEPS: u64 = 0x0020_0000_0000_0000;

/// Two to the 52nd: the weight of the lowest bit of the exponent field, and
/// of the leading bit that the significand of a normal number leaves unsaid.
pub const HIDDEN_BIT: u64 = 0x0010_0000_0000_0000;

/// A double-precision number, held as its IEEE 754 binary64 bit pattern.
///
/// The pattern is a sign bit above a 63-bit magnitude. Among numbers that
/// are not NaN, a larger magnitude is a number further from zero, so the
/// signed magnitude ([`Scalar::rank`]) orders scalars exactly as IEEE 754
/// orders the numbers they stand for, with `-0.0` and `+0.0` sharing rank 0.
/// Two scalars are `==` when their patterns are identical; numeric equality
/// is [`Scalar::same`].
#[derive(Clone, Copy, Debug, PartialEq, Eq, Structural)]
pub struct Scalar {
    pub bits: u64,
}

impl Scalar {
    /// Whether the sign bit is set.
    pub open spec fn negative(self) -> bool {
        self.bits >= SIGN_BIT
    }

    /// The pattern without its sign bit.
    pub open spec fn magnitude(self) -> nat {
        if self.bits >= SIGN_BIT {
            (self.bits - SIGN_BIT) as nat
        } else {
            self.bits as nat
        }
    }

    /// The exponent field: the eleven bits below the sign.
    pub open spec fn exponent(self) -> nat {
        self.magnitude() / (HIDDEN_BIT as nat)
    }

    /// The fraction field: the low 52 bits. A number whose exponent field
    /// `e` is neither 0 nor 2047 is `(2^52 + fraction) * 2^(e - 1075)` in
    /// magnitude.
    pub open spec fn fraction(self) -> nat {
        self.magnitude() % (HIDDEN_BIT as nat)
    }

    /// Whether the scalar is the number `k / 2^53`, written as doubles are:
    /// zero as the pattern of all zeros, and any other with its leading bit
    /// moved up to the place of the hidden one and the exponent field
    /// lowered to make up for it.
    pub open spec fn is_unit_fraction(self, k: nat) -> bool {
        if k == 0 {
            self.bits == 0
        } else {
            &&& !self.negative()
            &&& 1 <= self.exponent() <= 1022
            &&& HIDDEN_BIT + self.fraction() == k * pow2((1022 - self.exponent()) as nat)
        }
    }

    /// Whether the scalar is the number `(k - 2^52) / 2^53`: what is left of
    /// `k / 2^53` when a half is taken off.
    pub open spec fn is_centered_fraction(self, k: nat) -> bool {
        if k >= HIDDEN_BIT {
            self.is_unit_fraction((k - HIDDEN_BIT) as nat)
        } else {
            self.spec_neg().is_unit_fraction((HIDDEN_BIT - k) as nat)
        }
    }

    /// Whether the pattern is a NaN.
    pub open spec fn nan(self) -> bool {
        self.magnitude() > INFINITY_BITS
    }

    /// The position of the number in the IEEE order: its signed magnitude.
    pub open spec fn rank(self) -> int {
        if self.negative() {
            -(self.magnitude() as int)
        } else {
            self.magnitude() as int
        }
    }

    /// IEEE `<`: false as soon as either side is a NaN.
    pub open spec fn spec_lt(self, other: Scalar) -> bool {
        !self.nan() && !other.nan() && self.rank() < other.rank()
    }

    /// IEEE `<=`: false as soon as either side is a NaN.
    pub open spec fn spec_le(self, other: Scalar) -> bool {
        !self.nan() && !other.nan() && self.rank() <= other.rank()
    }

    /// IEEE `==`: the same number, where `-0.0` and `+0.0` are one number and
    /// a NaN is no number at all.
    pub open spec fn spec_same(self, other: Scalar) -> bool {
        !self.nan() && !other.nan() && self.rank() == other.rank()
    }

    /// The pattern with its sign bit flipped.
    pub open spec fn spec_neg(self) -> Scalar {
        if self.bits >= SIGN_BIT {
            Scalar { bits: (self.bits - SIGN_BIT) as u64 }
        } else {
            Scalar { bits: (self.bits + SIGN_BIT) as u64 }
        }
    }

    /// The pattern with its sign bit cleared.
    pub open spec fn spec_abs(self) -> Scalar {
        Scalar { bits: self.magnitude() as u64 }
    }

    /// The larger of two numbers; a NaN loses to a number, and `self` wins a
    /// tie.
    pub open spec fn spec_max(self, other: Scalar) -> Scalar {
        if other.nan() {
            self
        } else if self.nan() {
            other
        } else if self.spec_lt(other) {
            other
        } else {
            self
        }
    }

    /// The smaller of two numbers; a NaN loses to a number, and `self` wins a
    /// tie.
    pub open spec fn spec_min(self, other: Scalar) -> Scalar {
        if other.nan() {
            self
        } else if self.nan() {
            other
        } else if other.spec_lt(self) {
            other
        } else {
            self
        }
    }

    /// `self` moved to the nearer bound when it lies outside `[min, max]`,
    /// and left alone otherwise; a NaN is left alone.
    pub open spec fn spec_clamp(self, min: Scalar, max: Scalar) -> Scalar {
        if self.spec_lt(min) {
            min
        } else if max.spec_lt(self) {
            max
        } else {
            self
        }
    }

    /// The scalar with the given bit pattern.
    pub fn from_bits(bits: u64) -> (s: Scalar)
        ensures
            s.bits == bits,
    {
        Scalar { bits }
    }

    /// The bit pattern of the scalar.
    pub fn to_bits(self) -> (bits: u64)
        ensures
            bits == self.bits,
    {
        self.bits
    }

    /// `0.0`.
    pub fn zero() -> (s: Scalar)
        ensures
            s.bits == 0,
    {
        Scalar { bits: 0 }
    }

    /// `1.0`.
    pub fn one() -> (s: Scalar)
        ensures
            s.bits == ONE_BITS,
    {
        Scalar { bits: ONE_BITS }
    }

    /// `+inf`.
    pub fn infinity() -> (s: Scalar)
        ensures
            s.bits == INFINITY_BITS,
    {
        Scalar { bits: INFINITY_BITS }
    }

    /// `-inf`.
    pub fn neg_infinity() -> (s: Scalar)
        ensures
            s.bits == INFINITY_BITS + SIGN_BIT,
    {
        Scalar { bits: INFINITY_BITS + SIGN_BIT }
    }

    /// The number `k / 2^53`, for `k` below `2^53`: one of the doubles that
    /// lie evenly spread over `[0, 1)`.
    pub fn from_unit(k: u64) -> (s: Scalar)
        requires
            k < UNIT_STEPS,
        ensures
            s.is_unit_fraction(k as nat),
            (Scalar { bits: 0 }).spec_le(s),
            s.spec_lt(Scalar { bits: ONE_BITS }),
    {
        if k == 0 {
            return Scalar { bits: 0 };
        }
        let mut significand: u64 = k;
        let mut exponent: u64 = 1022;
        proof {
            lemma2_to64();
            let unit = pow2(0);
            assert(k * unit == k) by (nonlinear_arith)
                requires
                    unit == 1,
            ;
        }
        while significand < HIDDEN_BIT
            invariant
                1 <= exponent <= 1022,
                0 < significand < UNIT_STEPS,
                significand == k * pow2((1022 - exponent) as nat),
                pow2((1022 - exponent) as nat) <= significand,
                exponent >= 971 || significand >= HIDDEN_BIT,
            decreases exponent,
        {
            proof {
                let shift = (1022 - exponent) as nat;
                lemma_pow2_unfold(shift + 1);
                assert(k * (2 * pow2(shift)) == 2 * (k * pow2(shift))) by (nonlinear_arith);
                if exponent == 971 {
                    lemma2_to64_rest();
                    assert(pow2(51) == 0x0008_0000_0000_0000);
                }
            }
            significand = significand * 2;
            exponent = exponent - 1;
        }
        let bits: u64 = exponent * HIDDEN_BIT + (significand - HIDDEN_BIT);
        let s = Scalar { bits };
        assert(s.magnitude() == bits);
        assert(s.exponent() == exponent && s.fraction() == significand - HIDDEN_BIT) by {
            let e = exponent as int;
            let f = (significand - HIDDEN_BIT) as int;
            let h = HIDDEN_BIT as int;
            assert((e * h + f) / h == e && (e * h + f) % h == f) by (nonlinear_arith)
                requires
                    0 <= f < h,
                    0 <= e,
                    h > 0,
            ;
        }
        s
    }

    /// The number `k / 2^53 - 1 / 2`, for `k` below `2^53`: one of the
    /// doubles that lie evenly spread over `[-0.5, 0.5)`. The difference is
    /// a double itself, so nothing is rounded.
    pub fn centered_unit(k: u64) -> (s: Scalar)
        requires
            k < UNIT_STEPS,
        ensures
            s.is_centered_fraction(k as nat),
            (Scalar { bits: (HALF_BITS + SIGN_BIT) as u64 }).spec_le(s),
            s.spec_lt(Scalar { bits: HALF_BITS }),
    {
        proof {
            lemma_half_is_unit_fraction();
        }
        if k >= HIDDEN_BIT {
            let s = Scalar::from_unit(k - HIDDEN_BIT);
            proof {
                lemma_unit_fractions_rise(
                    s,
                    (k - HIDDEN_BIT) as nat,
                    Scalar { bits: HALF_BITS },
                    HIDDEN_BIT as nat,
                );
            }
            s
        } else {
            let m = Scalar::from_unit(HIDDEN_BIT - k);
            proof {
                lemma_unit_fractions_rise(
                    m,
                    (HIDDEN_BIT - k) as nat,
                    Scalar { bits: HALF_BITS },
                    HIDDEN_BIT as nat,
                );
                lemma_unit_fractions_rise(Scalar { bits: 0 }, 0, m, (HIDDEN_BIT - k) as nat);
            }
            m.neg()
        }
    }

    fn magnitude_bits(self) -> (m: u64)
        ensures
            m == self.magnitude(),
    {
        if self.bits >= SIGN_BIT {
            self.bits - SIGN_BIT
        } else {
            self.bits
        }
    }

    /// Whether the scalar is a NaN.
    pub fn is_nan(self) -> (b: bool)
        ensures
            b == self.nan(),
    {
        self.magnitude_bits() > INFINITY_BITS
    }

    /// Whether the sign bit is set; true of `-0.0` and of negative numbers.
    pub fn is_sign_negative(self) -> (b: bool)
        ensures
            b == self.negative(),
    {
        self.bits >= SIGN_BIT
    }

    /// IEEE `self < other`.
    #[verifier::when_used_as_spec(spec_lt)]
    pub fn lt(self, other: Scalar) -> (b: bool)
        ensures
            b == self.spec_lt(other),
    {
        if self.is_nan() || other.is_nan() {
            return false;
        }
        let a: u64 = self.magnitude_bits();
        let b: u64 = other.magnitude_bits();
        if self.bits >= SIGN_BIT {
            if other.bits >= SIGN_BIT {
                b < a
            } else {
                a > 0 || b > 0
            }
        } else {
            if other.bits >= SIGN_BIT {
                false
            } else {
                a < b
            }
        }
    }

    /// IEEE `self <= other`.
    #[verifier::when_used_as_spec(spec_le)]
    pub fn le(self, other: Scalar) -> (b: bool)
        ensures
            b == self.spec_le(other),
    {
        if self.is_nan() || other.is_nan() {
            return false;
        }
        !other.lt(self)
    }

    /// IEEE `self == other`.
    #[verifier::when_used_as_spec(spec_same)]
    pub fn same(self, other: Scalar) -> (b: bool)
        ensures
            b == self.spec_same(other),
    {
        self.le(other) && other.le(self)
    }

    /// `-self`: the sign bit flipped, whatever the rest of the pattern is.
    #[verifier::when_used_as_spec(spec_neg)]
    pub fn neg(self) -> (s: Scalar)
        ensures
            s == self.spec_neg(),
    {
        if self.bits >= SIGN_BIT {
            Scalar { bits: self.bits - SIGN_BIT }
        } else {
            Scalar { bits: self.bits + SIGN_BIT }
        }
    }

    /// `|self|`: the sign bit cleared.
    #[verifier::when_used_as_spec(spec_abs)]
    pub fn abs(self) -> (s: Scalar)
        ensures
            s == self.spec_abs(),
    {
        Scalar { bits: self.magnitude_bits() }
    }

    /// The larger of `self` and `other`, ignoring a NaN on either side.
    #[verifier::when_used_as_spec(spec_max)]
    pub fn max(self, other: Scalar) -> (s: Scalar)
        ensures
            s == self.spec_max(other),
    {
        if other.is_nan() {
            self
        } else if self.is_nan() {
            other
        } else if self.lt(other) {
            other
        } else {
            self
        }
    }

    /// The smaller of `self` and `other`, ignoring a NaN on either side.
    #[verifier::when_used_as_spec(spec_min)]
    pub fn min(self, other: Scalar) -> (s: Scalar)
        ensures
            s == self.spec_min(other),
    {
        if other.is_nan() {
            self
        } else if self.is_nan() {
            other
        } else if other.lt(self) {
            other
        } else {
            self
        }
    }

    /// `self` restricted to `[min, max]`. The bounds must be numbers in
    /// order; a NaN `self` comes back as it is.
    #[verifier::when_used_as_spec(spec_clamp)]
    pub fn clamp(self, min: Scalar, max: Scalar) -> (s: Scalar)
        requires
            min.spec_le(max),
        ensures
            s == self.spec_clamp(min, max),
    {
        if self.lt(min) {
            min
        } else if max.lt(self) {
            max
        } else {
            self
        }
    }
}

/// One pattern stands for `k / 2^53`, and it lies in `[0, 1)`.
pub proof fn lemma_unit_fraction_is_one_number(a: Scalar, b: Scalar, k: nat)
    requires
        a.is_unit_fraction(k),
        b.is_unit_fraction(k),
    ensures
        a == b,
        (Scalar { bits: 0 }).spec_le(a),
        a.spec_lt(Scalar { bits: ONE_BITS }),
{
    if k > 0 {
        let h = HIDDEN_BIT as int;
        let ea = a.exponent() as int;
        let eb = b.exponent() as int;
        let fa = a.fraction() as int;
        let fb = b.fraction() as int;
        let pa = pow2((1022 - ea) as nat) as int;
        let pb = pow2((1022 - eb) as nat) as int;
        lemma_pow2_pos((1022 - ea) as nat);
        lemma_pow2_pos((1022 - eb) as nat);
        if ea < eb {
            lemma_pow2_strictly_increases((1022 - eb) as nat, (1022 - eb + 1) as nat);
            lemma_pow2_unfold((1022 - eb + 1) as nat);
            if 1022 - eb + 1 < 1022 - ea {
                lemma_pow2_strictly_increases((1022 - eb + 1) as nat, (1022 - ea) as nat);
            }
            assert(pa >= 2 * pb);
            assert(k * pa >= k * (2 * pb)) by (nonlinear_arith)
                requires
                    pa >= 2 * pb,
                    k > 0,
            ;
            assert(k * (2 * pb) == 2 * (k * pb)) by (nonlinear_arith);
        } else if eb < ea {
            lemma_pow2_strictly_increases((1022 - ea) as nat, (1022 - ea + 1) as nat);
            lemma_pow2_unfold((1022 - ea + 1) as nat);
            if 1022 - ea + 1 < 1022 - eb {
                lemma_pow2_strictly_increases((1022 - ea + 1) as nat, (1022 - eb) as nat);
            }
            assert(pb >= 2 * pa);
            assert(k * pb >= k * (2 * pa)) by (nonlinear_arith)
                requires
                    pb >= 2 * pa,
                    k > 0,
            ;
            assert(k * (2 * pa) == 2 * (k * pa)) by (nonlinear_arith);
        }
        assert(ea == eb);
        assert(fa == fb);
        assert(a.magnitude() == ea * h + fa && b.magnitude() == eb * h + fb) by {
            let ma = a.magnitude() as int;
            let mb = b.magnitude() as int;
            assert(ma == (ma / h) * h + ma % h && mb == (mb / h) * h + mb % h) by (nonlinear_arith)
                requires
                    h > 0,
            ;
        }
        assert(a.bits == b.bits);
        assert(a.magnitude() < 1023 * h) by {
            assert(ea * h + fa < 1023 * h) by (nonlinear_arith)
                requires
                    ea <= 1022,
                    0 <= fa < h,
            ;
        }
    }
}

/// A half is `2^52 / 2^53`.
pub proof fn lemma_half_is_unit_fraction()
    ensures
        (Scalar { bits: HALF_BITS }).is_unit_fraction(HIDDEN_BIT as nat),
{
    lemma2_to64();
    let unit = pow2(0);
    assert(HIDDEN_BIT * unit == HIDDEN_BIT) by (nonlinear_arith)
        requires
            unit == 1,
    ;
    assert(HALF_BITS / HIDDEN_BIT == 1022);
    assert(HALF_BITS % HIDDEN_BIT == 0);
}

/// The doubles of `[0, 1)` lie in the order of their numerators: a larger
/// `k` gives a larger `k / 2^53`, and a different `k` a different one.
pub proof fn lemma_unit_fractions_rise(a: Scalar, ka: nat, b: Scalar, kb: nat)
    requires
        a.is_unit_fraction(ka),
        b.is_unit_fraction(kb),
        ka <= kb,
    ensures
        a.spec_le(b),
        ka < kb ==> a.spec_lt(b),
{
    let h = HIDDEN_BIT as int;
    if kb > 0 {
        let eb = b.exponent() as int;
        let fb = b.fraction() as int;
        let mb = b.magnitude() as int;
        assert(mb == (mb / h) * h + mb % h) by (nonlinear_arith)
            requires
                h > 0,
        ;
        assert(eb * h + fb < 1023 * h && eb * h >= h) by (nonlinear_arith)
            requires
                1 <= eb <= 1022,
                0 <= fb < h,
                h > 0,
        ;
        assert(!b.nan() && b.rank() > 0);
    }
    if ka > 0 {
        let ea = a.exponent() as int;
        let eb = b.exponent() as int;
        let fa = a.fraction() as int;
        let fb = b.fraction() as int;
        let pa = pow2((1022 - ea) as nat) as int;
        let pb = pow2((1022 - eb) as nat) as int;
        lemma_pow2_pos((1022 - ea) as nat);
        lemma_pow2_pos((1022 - eb) as nat);
        let ma = a.magnitude() as int;
        assert(ma == (ma / h) * h + ma % h) by (nonlinear_arith)
            requires
                h > 0,
        ;
        if eb < ea {
            lemma_pow2_strictly_increases((1022 - ea) as nat, (1022 - ea + 1) as nat);
            lemma_pow2_unfold((1022 - ea + 1) as nat);
            if 1022 - ea + 1 < 1022 - eb {
                lemma_pow2_strictly_increases((1022 - ea + 1) as nat, (1022 - eb) as nat);
            }
            assert(pb >= 2 * pa);
            assert(kb * pb >= ka * (2 * pa)) by (nonlinear_arith)
                requires
                    pb >= 2 * pa,
                    kb >= ka,
                    ka > 0,
                    pa > 0,
            ;
            assert(ka * (2 * pa) == 2 * (ka * pa)) by (nonlinear_arith);
            assert(false);
        } else if ea == eb {
            assert(ka * pa <= kb * pa && (ka < kb ==> ka * pa < kb * pa)) by (nonlinear_arith)
                requires
                    ka <= kb,
                    pa > 0,
            ;
        } else {
            assert(ea * h + fa < eb * h) by (nonlinear_arith)
                requires
                    ea + 1 <= eb,
                    0 <= fa < h,
            ;
        }
    }
}

/// Among numbers, `<` is a strict order: nothing is below itself, and below
/// carries over.
pub proof fn lemma_lt_strict_order(a: Scalar, b: Scalar, c: Scalar)
    ensures
        !a.spec_lt(a),
        a.spec_lt(b) && b.spec_lt(c) ==> a.spec_lt(c),
        a.spec_lt(b) ==> !b.spec_lt(a),
{
}

/// Two numbers are always comparable: one is below the other or they are the
/// same number. With a NaN on either side none of the three holds.
pub proof fn lemma_trichotomy(a: Scalar, b: Scalar)
    ensures
        !a.nan() && !b.nan() ==> (a.spec_lt(b) || b.spec_lt(a) || a.spec_same(b)),
        a.nan() || b.nan() ==> !a.spec_lt(b) && !b.spec_lt(a) && !a.spec_same(b) && !a.spec_le(b),
        a.spec_le(b) <==> a.spec_lt(b) || a.spec_same(b),
{
}

/// Negation mirrors the order and undoes itself.
pub proof fn lemma_neg_mirrors(a: Scalar, b: Scalar)
    ensures
        a.spec_neg().spec_neg() == a,
        a.spec_neg().nan() == a.nan(),
        a.spec_neg().rank() == -a.rank(),
        a.spec_lt(b) <==> b.spec_neg().spec_lt(a.spec_neg()),
{
}

/// A clamped number lies within the bounds it was clamped to.
pub proof fn lemma_clamp_within(x: Scalar, min: Scalar, max: Scalar)
    requires
        min.spec_le(max),
        !x.nan(),
    ensures
        min.spec_le(x.spec_clamp(min, max)),
        x.spec_clamp(min, max).spec_le(max),
        min.spec_le(x) && x.spec_le(max) ==> x.spec_clamp(min, max) == x,
{
}

/// The larger of two numbers is one of them and is below neither.
pub proof fn lemma_max_is_upper_bound(a: Scalar, b: Scalar)
    ensures
        a.spec_max(b) == a || a.spec_max(b) == b,
        !a.nan() && !b.nan() ==> a.spec_le(a.spec_max(b)) && b.spec_le(a.spec_max(b)),
        !a.nan() || !b.nan() ==> !a.spec_max(b).nan(),
{
}

} // verus!
