//! IEEE 754 binary64 numbers held by their bit patterns.
//!
//! Sign, magnitude, ordering and the NaN test are integer logic on the bit
//! pattern and are verified here. Rounded arithmetic is delegated to the
//! `softfloat` crate: each operation has a private wrapper whose contract
//! states the result for the zeros, where the crate decides it before it
//! rounds, and otherwise equates it with an uninterpreted function of the
//! operand bits. Nothing is claimed of a rounded value but that it depends
//! on the operands alone.

use vstd::prelude::*;
use vstd::arithmetic::power2::{pow2, lemma_pow2_unfold, lemma2_to64};

verus! {

/// Bit of the sign.
pub const SIGN: u64 = 0x8000_0000_0000_0000;

/// Positive infinity; every larger magnitude is a NaN.
pub const INF: u64 = 0x7ff0_0000_0000_0000;

/// Negative infinity.
pub const NEG_INF: u64 = 0xfff0_0000_0000_0000;

/// The quiet NaN used as the "undefined" marker.
pub const NAN: u64 = 0x7ff8_0000_0000_0000;

pub const ZERO: u64 = 0;

pub const ONE: u64 = 0x3ff0_0000_0000_0000;

pub const TWO: u64 = 0x4000_0000_0000_0000;

pub const NEG_TWO: u64 = 0xc000_0000_0000_0000;

pub const THREE: u64 = 0x4008_0000_0000_0000;

pub const FOUR: u64 = 0x4010_0000_0000_0000;

pub const SIX: u64 = 0x4018_0000_0000_0000;

pub const SEVEN: u64 = 0x401c_0000_0000_0000;

pub const FIFTY: u64 = 0x4049_0000_0000_0000;

pub const HUNDRED: u64 = 0x4059_0000_0000_0000;

pub const NEG_HUNDRED: u64 = 0xc059_0000_0000_0000;

/// 252, the number of trading days in a year.
pub const TRADING_DAYS: u64 = 0x406f_8000_0000_0000;

pub const THOUSAND: u64 = 0x408f_4000_0000_0000;

/// 100 000 000.
pub const HUNDRED_MILLION: u64 = 0x4197_d784_0000_0000;

/// 2 to the power 32.
pub const TWO_POW_32: u64 = 0x41f0_0000_0000_0000;

/// 2 to the power 51: the bit that marks a NaN as quiet.
pub const QUIET: u64 = 0x8_0000_0000_0000;

/// 2 to the power 52: the implicit leading bit of a normal significand.
pub const IMPLICIT: u64 = 0x10_0000_0000_0000;

/// 2 to the power 53: every smaller natural number is a double.
pub const EXACT_LIMIT: u64 = 0x20_0000_0000_0000;

/// Bits of the rounded sum of two doubles, where no special rule decides it.
pub uninterp spec fn rounded_sum(a: u64, b: u64) -> u64;

/// Bits of the rounded product of two doubles, where no special rule decides
/// it.
pub uninterp spec fn rounded_prod(a: u64, b: u64) -> u64;

/// Bits of the rounded quotient of two doubles, where no special rule
/// decides it.
pub uninterp spec fn rounded_quot(a: u64, b: u64) -> u64;

/// Bits of the rounded square root of a double that is not a zero.
pub uninterp spec fn rounded_sqrt(a: u64) -> u64;

/// Bits of the natural logarithm of a double.
pub uninterp spec fn ln_bits(a: u64) -> u64;

/// Bits of the exponential of a double.
pub uninterp spec fn exp_bits(a: u64) -> u64;

/// The bit pattern with its sign flipped.
pub open spec fn flipped(a: u64) -> u64 {
    if a >= SIGN {
        (a - SIGN) as u64
    } else {
        (a + SIGN) as u64
    }
}

/// Whether the pattern is one of the two zeros.
pub open spec fn is_zero(a: u64) -> bool {
    a == 0 || a == SIGN
}

/// Whether the pattern is a number: neither a NaN nor an infinity.
pub open spec fn is_finite(a: u64) -> bool {
    Fp(a).mag() < INF
}

/// The zero whose sign is set exactly when the signs of `a` and `b` differ.
pub open spec fn signed_zero(a: u64, b: u64) -> u64 {
    if (a >= SIGN) != (b >= SIGN) {
        SIGN
    } else {
        0
    }
}

/// The infinity whose sign is set exactly when the signs of `a` and `b`
/// differ.
pub open spec fn signed_inf(a: u64, b: u64) -> u64 {
    if (a >= SIGN) != (b >= SIGN) {
        NEG_INF
    } else {
        INF
    }
}

/// Whether the pattern is a NaN.
pub open spec fn is_nan(a: u64) -> bool {
    Fp(a).mag() > INF
}

/// Whether the pattern is an infinity.
pub open spec fn is_inf(a: u64) -> bool {
    a == INF || a == NEG_INF
}

/// The pattern with its quiet bit set.
pub open spec fn quieted(a: u64) -> u64 {
    if (a / QUIET) % 2 == 1 {
        a
    } else {
        (a + QUIET) as u64
    }
}

/// Bits of the sum of two doubles, given the rounded sum. A NaN operand,
/// the first before the second, gives that NaN without its sign and made
/// quiet. Opposite infinities give the quiet NaN; an infinity otherwise
/// stays. Two zeros give a zero that is negative only if both are; a zero
/// leaves the other operand as it is; a number and its negation give
/// positive zero. Every other sum is the rounded one.
pub open spec fn sum_rule(a: u64, b: u64, rounded: u64) -> u64 {
    if is_nan(a) {
        quieted(Fp(a).mag())
    } else if is_nan(b) {
        quieted(Fp(b).mag())
    } else if is_inf(a) {
        if is_inf(b) && a != b {
            NAN
        } else {
            a
        }
    } else if is_inf(b) {
        b
    } else if is_zero(a) && is_zero(b) {
        if a == SIGN && b == SIGN {
            SIGN
        } else {
            0
        }
    } else if is_zero(a) && !Fp(b).nan() {
        b
    } else if is_zero(b) && !Fp(a).nan() {
        a
    } else if is_finite(a) && b == flipped(a) {
        0
    } else {
        rounded
    }
}

/// Bits of the sum of two doubles.
pub open spec fn sum_bits(a: u64, b: u64) -> u64 {
    sum_rule(a, b, rounded_sum(a, b))
}

/// Bits of the difference of two doubles: the sum of the first and the
/// negation of the second.
pub open spec fn diff_bits(a: u64, b: u64) -> u64 {
    sum_bits(a, flipped(b))
}

/// Bits of the product of two doubles, given the rounded product. A NaN
/// operand, the first before the second, gives that NaN made quiet. An
/// infinity times a zero is the quiet NaN, and times anything else an
/// infinity with the product's sign. A zero times a number is a zero with
/// the product's sign. Every other product is the rounded one.
pub open spec fn prod_rule(a: u64, b: u64, rounded: u64) -> u64 {
    if is_nan(a) {
        quieted(a)
    } else if is_nan(b) {
        quieted(b)
    } else if is_inf(a) || is_inf(b) {
        if is_zero(a) || is_zero(b) {
            NAN
        } else {
            signed_inf(a, b)
        }
    } else if (is_zero(a) && is_finite(b)) || (is_zero(b) && is_finite(a)) {
        signed_zero(a, b)
    } else {
        rounded
    }
}

/// Bits of the product of two doubles.
pub open spec fn prod_bits(a: u64, b: u64) -> u64 {
    prod_rule(a, b, rounded_prod(a, b))
}

/// Bits of the quotient of two doubles, given the rounded quotient. A NaN
/// operand, the first before the second, gives that NaN made quiet. An
/// infinity over an infinity and a zero over a zero are the quiet NaN. An
/// infinity over anything else, and anything else over a zero, is an
/// infinity with the quotient's sign. Anything else over an infinity, and a
/// zero over anything else, is a zero with the quotient's sign. Every other
/// quotient is the rounded one.
pub open spec fn quot_rule(a: u64, b: u64, rounded: u64) -> u64 {
    if is_nan(a) {
        quieted(a)
    } else if is_nan(b) {
        quieted(b)
    } else if is_inf(a) {
        if is_inf(b) {
            NAN
        } else {
            signed_inf(a, b)
        }
    } else if is_inf(b) {
        signed_zero(a, b)
    } else if is_zero(a) && is_zero(b) {
        NAN
    } else if is_zero(b) {
        signed_inf(a, b)
    } else if is_zero(a) && !is_zero(b) && !Fp(b).nan() {
        signed_zero(a, b)
    } else {
        rounded
    }
}

/// Bits of the quotient of two doubles.
pub open spec fn quot_bits(a: u64, b: u64) -> u64 {
    quot_rule(a, b, rounded_quot(a, b))
}

/// Bits of the square root of a double, given the rounded root. The root of
/// a NaN is that NaN without its sign and made quiet. The root of a zero is
/// that zero, and the root of positive infinity is itself. The root of any
/// other negative double is the quiet NaN. Every other root is the rounded
/// one.
pub open spec fn sqrt_rule(a: u64, rounded: u64) -> u64 {
    if is_nan(a) {
        quieted(Fp(a).mag())
    } else if is_zero(a) || a == INF {
        a
    } else if a >= SIGN {
        NAN
    } else {
        rounded
    }
}

/// Bits of the square root of a double.
pub open spec fn sqrt_bits(a: u64) -> u64 {
    sqrt_rule(a, rounded_sqrt(a))
}

/// `softfloat::F64::add` on two bit patterns. The result is a function of
/// the two operands alone. The contract states the rules for NaN, infinite
/// and zero operands, which the source handles before it rounds, and the
/// cancellation of a number with its negation; every other result is only
/// named.
#[verifier::external_body]
fn raw_add(a: u64, b: u64) -> (r: u64)
    ensures
        r == sum_rule(a, b, rounded_sum(a, b)),
{
    softfloat::F64::from_bits(a).add(softfloat::F64::from_bits(b)).to_bits()
}

/// `softfloat::F64::mul` on two bit patterns. The result is a function of
/// the two operands alone. The contract states the rules for NaN, infinite
/// and zero operands, which the source handles before it rounds; every
/// other result is only named.
#[verifier::external_body]
fn raw_mul(a: u64, b: u64) -> (r: u64)
    ensures
        r == prod_rule(a, b, rounded_prod(a, b)),
{
    softfloat::F64::from_bits(a).mul(softfloat::F64::from_bits(b)).to_bits()
}

/// `softfloat::F64::div` on two bit patterns. The result is a function of
/// the two operands alone. The contract states the rules for NaN, infinite
/// and zero operands, which the source handles before it rounds; every
/// other result is only named.
#[verifier::external_body]
fn raw_div(a: u64, b: u64) -> (r: u64)
    ensures
        r == quot_rule(a, b, rounded_quot(a, b)),
{
    softfloat::F64::from_bits(a).div(softfloat::F64::from_bits(b)).to_bits()
}

/// `softfloat::F64::sqrt` on a bit pattern. The result is a function of the
/// operand alone. The contract states what the source returns for a NaN, an
/// infinity, a zero and a negative operand before it extracts a root; every
/// other result is only named.
#[verifier::external_body]
fn raw_sqrt(a: u64) -> (r: u64)
    ensures
        r == sqrt_rule(a, rounded_sqrt(a)),
{
    softfloat::F64::from_bits(a).sqrt().to_bits()
}

/// `softfloat::F64::ln` on a bit pattern. The contract only names the
/// result: it is a function of the operand and of nothing else.
#[verifier::external_body]
fn raw_ln(a: u64) -> (r: u64)
    ensures
        r == ln_bits(a),
{
    softfloat::F64::from_bits(a).ln().to_bits()
}

/// `softfloat::F64::exp` on a bit pattern. The contract only names the
/// result: it is a function of the operand and of nothing else.
#[verifier::external_body]
fn raw_exp(a: u64) -> (r: u64)
    ensures
        r == exp_bits(a),
{
    softfloat::F64::from_bits(a).exp().to_bits()
}

/// A double, held by its bit pattern.
#[derive(Clone, Copy, Debug)]
pub struct Fp(pub u64);

impl Fp {
    /// The bit pattern without its sign.
    pub open spec fn mag(self) -> u64 {
        if self.0 >= SIGN {
            (self.0 - SIGN) as u64
        } else {
            self.0
        }
    }

    /// Whether the sign bit is set.
    pub open spec fn negative(self) -> bool {
        self.0 >= SIGN
    }

    /// Whether the pattern is a NaN: its magnitude lies above infinity.
    pub open spec fn nan(self) -> bool {
        self.mag() > INF
    }

    /// Whether the pattern is neither a NaN nor an infinity.
    pub open spec fn finite(self) -> bool {
        self.mag() < INF
    }

    /// Whether the pattern is one of the two zeros.
    pub open spec fn zero(self) -> bool {
        self.mag() == 0
    }

    /// Whether the pattern is positive or negative infinity.
    pub open spec fn infinite(self) -> bool {
        self.mag() == INF
    }

    /// The place of a non-NaN pattern on the number line: the magnitude,
    /// negated under a set sign, so that both zeros share one place.
    pub open spec fn key(self) -> int {
        if self.negative() {
            -(self.mag() as int)
        } else {
            self.mag() as int
        }
    }

    /// `self < other` as IEEE 754 orders doubles: false when either is a NaN.
    pub open spec fn lt_spec(self, other: Fp) -> bool {
        !self.nan() && !other.nan() && self.key() < other.key()
    }

    /// `self == other` as IEEE 754 compares doubles: false when either is a
    /// NaN, true of the two zeros.
    pub open spec fn eq_spec(self, other: Fp) -> bool {
        !self.nan() && !other.nan() && self.key() == other.key()
    }

    /// `self <= other`: false when either is a NaN.
    pub open spec fn le_spec(self, other: Fp) -> bool {
        !self.nan() && !other.nan() && self.key() <= other.key()
    }

    /// `self > other`: false when either is a NaN.
    pub open spec fn gt_spec(self, other: Fp) -> bool {
        other.lt_spec(self)
    }

    /// `self >= other`: false when either is a NaN.
    pub open spec fn ge_spec(self, other: Fp) -> bool {
        other.le_spec(self)
    }

    /// `self != other`: true when either is a NaN.
    pub open spec fn ne_spec(self, other: Fp) -> bool {
        !self.eq_spec(other)
    }

    /// The same magnitude under a clear sign.
    pub open spec fn abs_spec(self) -> Fp {
        Fp(self.mag())
    }

    /// The same magnitude under the other sign.
    pub open spec fn neg_spec(self) -> Fp {
        Fp(flipped(self.0))
    }

    /// The larger of two doubles; a NaN loses against the other operand.
    pub open spec fn max_spec(self, other: Fp) -> Fp {
        if self.nan() || self.lt_spec(other) {
            other
        } else {
            self
        }
    }

    /// The smaller of two doubles; a NaN loses against the other operand.
    pub open spec fn min_spec(self, other: Fp) -> Fp {
        if self.nan() || other.lt_spec(self) {
            other
        } else {
            self
        }
    }

    /// The sum `self + rhs`.
    pub open spec fn add_spec(self, rhs: Fp) -> Fp {
        Fp(sum_bits(self.0, rhs.0))
    }

    /// The difference `self - rhs`: the sum of `self` and the negation of
    /// `rhs`.
    pub open spec fn sub_spec(self, rhs: Fp) -> Fp {
        Fp(diff_bits(self.0, rhs.0))
    }

    /// The product `self * rhs`.
    pub open spec fn mul_spec(self, rhs: Fp) -> Fp {
        Fp(prod_bits(self.0, rhs.0))
    }

    /// The quotient `self / rhs`.
    pub open spec fn div_spec(self, rhs: Fp) -> Fp {
        Fp(quot_bits(self.0, rhs.0))
    }

    /// The square root.
    pub open spec fn sqrt_spec(self) -> Fp {
        Fp(sqrt_bits(self.0))
    }

    /// The natural logarithm.
    pub open spec fn ln_spec(self) -> Fp {
        Fp(ln_bits(self.0))
    }

    /// The exponential.
    pub open spec fn exp_spec(self) -> Fp {
        Fp(exp_bits(self.0))
    }

    /// The square, as one rounded product.
    pub open spec fn sq_spec(self) -> Fp {
        self.mul_spec(self)
    }

    pub fn from_bits(bits: u64) -> (r: Fp)
        ensures
            r == Fp(bits),
    {
        Fp(bits)
    }

    pub fn to_bits(self) -> (r: u64)
        ensures
            r == self.0,
    {
        self.0
    }

    #[verifier::when_used_as_spec(nan)]
    pub fn is_nan(self) -> (r: bool)
        ensures
            r == self.nan(),
    {
        let m: u64 = if self.0 >= SIGN { self.0 - SIGN } else { self.0 };
        m > INF
    }

    #[verifier::when_used_as_spec(finite)]
    pub fn is_finite(self) -> (r: bool)
        ensures
            r == self.finite(),
    {
        let m: u64 = if self.0 >= SIGN { self.0 - SIGN } else { self.0 };
        m < INF
    }

    #[verifier::when_used_as_spec(infinite)]
    pub fn is_infinite(self) -> (r: bool)
        ensures
            r == self.infinite(),
    {
        let m: u64 = if self.0 >= SIGN { self.0 - SIGN } else { self.0 };
        m == INF
    }

    #[verifier::when_used_as_spec(abs_spec)]
    pub fn abs(self) -> (r: Fp)
        ensures
            r == self.abs_spec(),
    {
        if self.0 >= SIGN {
            Fp(self.0 - SIGN)
        } else {
            self
        }
    }

    #[verifier::when_used_as_spec(neg_spec)]
    pub fn neg(self) -> (r: Fp)
        ensures
            r == self.neg_spec(),
    {
        if self.0 >= SIGN {
            Fp(self.0 - SIGN)
        } else {
            Fp(self.0 + SIGN)
        }
    }

    #[verifier::when_used_as_spec(lt_spec)]
    pub fn lt(self, other: Fp) -> (r: bool)
        ensures
            r == self.lt_spec(other),
    {
        if self.is_nan() || other.is_nan() {
            return false;
        }
        let a: u64 = self.abs().0;
        let b: u64 = other.abs().0;
        if self.0 >= SIGN {
            if other.0 >= SIGN {
                b < a
            } else {
                a != 0 || b != 0
            }
        } else {
            if other.0 >= SIGN {
                false
            } else {
                a < b
            }
        }
    }

    #[verifier::when_used_as_spec(eq_spec)]
    pub fn eq(self, other: Fp) -> (r: bool)
        ensures
            r == self.eq_spec(other),
    {
        if self.is_nan() || other.is_nan() {
            return false;
        }
        let a: u64 = self.abs().0;
        let b: u64 = other.abs().0;
        (a == 0 && b == 0) || self.0 == other.0
    }

    #[verifier::when_used_as_spec(ne_spec)]
    pub fn ne(self, other: Fp) -> (r: bool)
        ensures
            r == self.ne_spec(other),
    {
        !self.eq(other)
    }

    #[verifier::when_used_as_spec(le_spec)]
    pub fn le(self, other: Fp) -> (r: bool)
        ensures
            r == self.le_spec(other),
    {
        self.lt(other) || self.eq(other)
    }

    #[verifier::when_used_as_spec(gt_spec)]
    pub fn gt(self, other: Fp) -> (r: bool)
        ensures
            r == self.gt_spec(other),
    {
        other.lt(self)
    }

    #[verifier::when_used_as_spec(ge_spec)]
    pub fn ge(self, other: Fp) -> (r: bool)
        ensures
            r == self.ge_spec(other),
    {
        other.le(self)
    }

    #[verifier::when_used_as_spec(max_spec)]
    pub fn max(self, other: Fp) -> (r: Fp)
        ensures
            r == self.max_spec(other),
    {
        if self.is_nan() || self.lt(other) {
            other
        } else {
            self
        }
    }

    #[verifier::when_used_as_spec(min_spec)]
    pub fn min(self, other: Fp) -> (r: Fp)
        ensures
            r == self.min_spec(other),
    {
        if self.is_nan() || other.lt(self) {
            other
        } else {
            self
        }
    }

    #[verifier::when_used_as_spec(add_spec)]
    pub fn add(self, rhs: Fp) -> (r: Fp)
        ensures
            r == self.add_spec(rhs),
    {
        Fp(raw_add(self.0, rhs.0))
    }

    #[verifier::when_used_as_spec(sub_spec)]
    pub fn sub(self, rhs: Fp) -> (r: Fp)
        ensures
            r == self.sub_spec(rhs),
    {
        self.add(rhs.neg())
    }

    #[verifier::when_used_as_spec(mul_spec)]
    pub fn mul(self, rhs: Fp) -> (r: Fp)
        ensures
            r == self.mul_spec(rhs),
    {
        Fp(raw_mul(self.0, rhs.0))
    }

    #[verifier::when_used_as_spec(div_spec)]
    pub fn div(self, rhs: Fp) -> (r: Fp)
        ensures
            r == self.div_spec(rhs),
    {
        Fp(raw_div(self.0, rhs.0))
    }

    #[verifier::when_used_as_spec(sqrt_spec)]
    pub fn sqrt(self) -> (r: Fp)
        ensures
            r == self.sqrt_spec(),
    {
        Fp(raw_sqrt(self.0))
    }

    #[verifier::when_used_as_spec(ln_spec)]
    pub fn ln(self) -> (r: Fp)
        ensures
            r == self.ln_spec(),
    {
        Fp(raw_ln(self.0))
    }

    #[verifier::when_used_as_spec(exp_spec)]
    pub fn exp(self) -> (r: Fp)
        ensures
            r == self.exp_spec(),
    {
        Fp(raw_exp(self.0))
    }

    #[verifier::when_used_as_spec(sq_spec)]
    pub fn sq(self) -> (r: Fp)
        ensures
            r == self.sq_spec(),
    {
        self.mul(self)
    }
}

/// Bits of the double with significand `m` (implicit bit included) and biased
/// exponent `e`, after the significand is doubled, and the exponent lowered,
/// until the implicit bit is set. Zero where no such double exists.
pub open spec fn normalized(m: nat, e: nat) -> u64
    decreases EXACT_LIMIT - m,
{
    if m == 0 || m >= EXACT_LIMIT || e == 0 || e >= 2047 {
        0
    } else if m >= IMPLICIT {
        (e * IMPLICIT + (m - IMPLICIT)) as u64
    } else {
        normalized(2 * m, (e - 1) as nat)
    }
}

/// The double equal to a natural number below 2 to the power 53.
pub open spec fn exact(n: nat) -> Fp {
    Fp(normalized(n, 1075))
}

/// The double of a natural number that fits in 64 bits. Below 2 to the
/// power 53 it is exact. Above, the number is split into two halves of 32
/// bits, each exact; the upper half is scaled back by 2 to the power 32,
/// and the sum of the two rounds once.
pub open spec fn of_nat(n: nat) -> Fp {
    if n < EXACT_LIMIT {
        exact(n)
    } else {
        exact(n / 0x1_0000_0000).mul_spec(Fp(TWO_POW_32)).add_spec(exact(n % 0x1_0000_0000))
    }
}

/// A NaN made quiet is a NaN.
pub proof fn lemma_quieted_nan(a: u64)
    requires
        is_nan(a),
    ensures
        is_nan(quieted(a)),
        is_nan(quieted(Fp(a).mag())),
{
}

/// The undefined value spreads: a sum, a difference, a product or a
/// quotient with a NaN operand is a NaN, and so is the square root of a
/// NaN.
pub proof fn lemma_nan_spreads(a: Fp, b: Fp)
    requires
        a.nan() || b.nan(),
    ensures
        a.add_spec(b).nan(),
        a.sub_spec(b).nan(),
        a.mul_spec(b).nan(),
        a.div_spec(b).nan(),
        a.nan() ==> a.sqrt_spec().nan(),
{
    if a.nan() {
        lemma_quieted_nan(a.0);
    }
    if b.nan() {
        lemma_quieted_nan(b.0);
        lemma_quieted_nan(flipped(b.0));
    }
}

/// A normalized pattern is a positive number: finite, above zero, with a
/// clear sign.
proof fn lemma_normalized_positive(m: nat, e: nat)
    requires
        1 <= m < EXACT_LIMIT,
        1023 <= e <= 1075,
        m * pow2((e - 1023) as nat) >= IMPLICIT,
    ensures
        1023 * IMPLICIT <= normalized(m, e) < 1076 * IMPLICIT,
    decreases EXACT_LIMIT - m,
{
    if m < IMPLICIT {
        lemma2_to64();
        if e == 1023 {
            assert(m * pow2(0) == m);
        }
        lemma_pow2_unfold((e - 1023) as nat);
        assert((2 * m) * pow2((e - 1 - 1023) as nat) == m * pow2((e - 1023) as nat))
            by (nonlinear_arith)
            requires
                pow2((e - 1023) as nat) == 2 * pow2((e - 1 - 1023) as nat),
        ;
        lemma_normalized_positive(2 * m, (e - 1) as nat);
    } else {
        assert(1023 * IMPLICIT <= e * IMPLICIT + (m - IMPLICIT) < 1076 * IMPLICIT)
            by (nonlinear_arith)
            requires
                1023 <= e <= 1075,
                IMPLICIT <= m < EXACT_LIMIT,
                IMPLICIT == 0x10_0000_0000_0000,
                EXACT_LIMIT == 0x20_0000_0000_0000,
        ;
    }
}

/// The double of a natural number from one to below 2 to the power 53 is a
/// positive number.
pub proof fn lemma_exact_positive(n: nat)
    requires
        1 <= n < EXACT_LIMIT,
    ensures
        exact(n).finite(),
        !exact(n).zero(),
        !exact(n).negative(),
        !exact(n).nan(),
        of_nat(n) == exact(n),
{
    lemma2_to64();
    assert(pow2(52) == IMPLICIT) by {
        vstd::arithmetic::power2::lemma2_to64_rest();
    }
    assert(n * pow2(52) >= IMPLICIT) by (nonlinear_arith)
        requires
            n >= 1,
            pow2(52) == IMPLICIT,
    ;
    lemma_normalized_positive(n, 1075);
}

fn exact_from(n: u64) -> (r: Fp)
    requires
        n < EXACT_LIMIT,
    ensures
        r == exact(n as nat),
{
    if n == 0 {
        return Fp(ZERO);
    }
    let mut m: u64 = n;
    let mut e: u64 = 1075;
    proof {
        lemma2_to64();
        assert(pow2(52) == IMPLICIT) by {
            vstd::arithmetic::power2::lemma2_to64_rest();
        }
        assert(m * pow2(52) >= IMPLICIT) by (nonlinear_arith)
            requires
                m >= 1,
                pow2(52) == IMPLICIT,
        ;
    }
    while m < IMPLICIT
        invariant
            1 <= m < EXACT_LIMIT,
            1023 <= e <= 1075,
            m * pow2((e - 1023) as nat) >= IMPLICIT,
            normalized(m as nat, e as nat) == normalized(n as nat, 1075),
        decreases EXACT_LIMIT - m,
    {
        proof {
            if e == 1023 {
                lemma2_to64();
                assert(m * pow2(0) == m);
            }
            assert(e > 1023);
            lemma_pow2_unfold((e - 1023) as nat);
            assert((2 * m) * pow2((e - 1 - 1023) as nat) == m * pow2((e - 1023) as nat))
                by (nonlinear_arith)
                requires
                    pow2((e - 1023) as nat) == 2 * pow2((e - 1 - 1023) as nat),
            ;
        }
        m = m * 2;
        e = e - 1;
    }
    assert(e * IMPLICIT + (m - IMPLICIT) < 0x7ff0_0000_0000_0000) by (nonlinear_arith)
        requires
            e <= 1075,
            IMPLICIT <= m < EXACT_LIMIT,
            IMPLICIT == 0x10_0000_0000_0000,
            EXACT_LIMIT == 0x20_0000_0000_0000,
    ;
    Fp(e * IMPLICIT + (m - IMPLICIT))
}

impl Fp {
    /// The double of `n`.
    pub fn from_u64(n: u64) -> (r: Fp)
        ensures
            r == of_nat(n as nat),
    {
        if n < EXACT_LIMIT {
            exact_from(n)
        } else {
            let hi: u64 = n / 0x1_0000_0000;
            let lo: u64 = n % 0x1_0000_0000;
            exact_from(hi).mul(Fp(TWO_POW_32)).add(exact_from(lo))
        }
    }

    /// The double of `n`.
    pub fn from_usize(n: usize) -> (r: Fp)
        ensures
            r == of_nat(n as nat),
    {
        Fp::from_u64(n as u64)
    }
}

} // verus!
