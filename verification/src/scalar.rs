//! Binary64 numbers as bit patterns, and their order.

use vstd::prelude::*;

verus! {

/// The sign bit of a binary64 number.
pub const SIGN_BIT: u64 = 0x8000_0000_0000_0000;

/// The bits of positive infinity; every larger magnitude is a NaN.
pub const INFINITY_BITS: u64 = 0x7FF0_0000_0000_0000;

/// An IEEE 754 binary64 number, held as its 64 bits.
///
/// The order of two numbers is read off their bits: below the sign bit the
/// bits of a number grow with its magnitude.
#[derive(Clone, Copy, Debug, PartialEq, Eq, Structural)]
pub struct Scalar {
    pub bits: u64,
}

impl Scalar {
    /// The bits below the sign bit.
    pub open spec fn magnitude(self) -> int {
        if self.bits >= SIGN_BIT {
            self.bits - SIGN_BIT
        } else {
            self.bits as int
        }
    }

    /// Whether the sign bit is set.
    pub open spec fn is_negative(self) -> bool {
        self.bits >= SIGN_BIT
    }

    /// Whether the bits encode no number at all.
    pub open spec fn nan(self) -> bool {
        self.magnitude() > INFINITY_BITS
    }

    /// The place of the number on the line of integers: numbers that are not
    /// NaN compare as their places do, and both zeros share the place 0.
    pub open spec fn ord(self) -> int {
        if self.is_negative() {
            -self.magnitude()
        } else {
            self.magnitude()
        }
    }

    /// `self < other` as IEEE 754 has it: false as soon as one side is NaN.
    pub open spec fn below(self, other: Scalar) -> bool {
        !self.nan() && !other.nan() && self.ord() < other.ord()
    }

    /// `self <= other` as IEEE 754 has it.
    pub open spec fn at_most(self, other: Scalar) -> bool {
        !self.nan() && !other.nan() && self.ord() <= other.ord()
    }

    /// The number with the opposite sign.
    pub open spec fn negated(self) -> Scalar {
        if self.bits >= SIGN_BIT {
            Scalar { bits: (self.bits - SIGN_BIT) as u64 }
        } else {
            Scalar { bits: (self.bits + SIGN_BIT) as u64 }
        }
    }

    /// The number without its sign.
    pub open spec fn absolute(self) -> Scalar {
        if self.bits >= SIGN_BIT {
            Scalar { bits: (self.bits - SIGN_BIT) as u64 }
        } else {
            self
        }
    }

    pub fn from_bits(bits: u64) -> (r: Scalar)
        ensures
            r.bits == bits,
    {
        Scalar { bits }
    }

    pub fn to_bits(self) -> (r: u64)
        ensures
            r == self.bits,
    {
        self.bits
    }

    /// 0.0
    pub fn zero() -> (r: Scalar)
        ensures
            r.bits == 0,
    {
        Scalar { bits: 0 }
    }

    /// 1.0
    pub fn one() -> (r: Scalar)
        ensures
            r.bits == 0x3FF0_0000_0000_0000,
    {
        Scalar { bits: 0x3FF0_0000_0000_0000 }
    }

    /// 2.0
    pub fn two() -> (r: Scalar)
        ensures
            r.bits == 0x4000_0000_0000_0000,
    {
        Scalar { bits: 0x4000_0000_0000_0000 }
    }

    /// Positive infinity.
    pub fn infinity() -> (r: Scalar)
        ensures
            r.bits == INFINITY_BITS,
    {
        Scalar { bits: INFINITY_BITS }
    }

    /// Negative infinity.
    pub fn neg_infinity() -> (r: Scalar)
        ensures
            r.bits == INFINITY_BITS + SIGN_BIT,
    {
        Scalar { bits: 0xFFF0_0000_0000_0000 }
    }

    pub fn is_nan(self) -> (r: bool)
        ensures
            r == self.nan(),
    {
        if self.bits >= SIGN_BIT {
            self.bits - SIGN_BIT > INFINITY_BITS
        } else {
            self.bits > INFINITY_BITS
        }
    }

    /// The place of the number, for sorting and comparing.
    pub fn key(self) -> (r: i64)
        ensures
            r == self.ord(),
    {
        if self.bits >= SIGN_BIT {
            let m: u64 = self.bits - SIGN_BIT;
            -(m as i64)
        } else {
            self.bits as i64
        }
    }

    /// `self < other`
    pub fn lt(self, other: Scalar) -> (r: bool)
        ensures
            r == self.below(other),
    {
        !self.is_nan() && !other.is_nan() && self.key() < other.key()
    }

    /// `self <= other`
    pub fn le(self, other: Scalar) -> (r: bool)
        ensures
            r == self.at_most(other),
    {
        !self.is_nan() && !other.is_nan() && self.key() <= other.key()
    }

    /// `self > other`
    pub fn gt(self, other: Scalar) -> (r: bool)
        ensures
            r == other.below(self),
    {
        other.lt(self)
    }

    /// `self >= other`
    pub fn ge(self, other: Scalar) -> (r: bool)
        ensures
            r == other.at_most(self),
    {
        other.le(self)
    }

    /// The smaller of two numbers, and the one that is a number where the
    /// other is NaN. Of two equal numbers it is the second.
    pub open spec fn least(self, other: Scalar) -> Scalar {
        if self.nan() {
            other
        } else if other.nan() {
            self
        } else if self.below(other) {
            self
        } else {
            other
        }
    }

    /// The smaller of two numbers, and the one that is a number where the
    /// other is NaN.
    pub fn min(self, other: Scalar) -> (r: Scalar)
        ensures
            r == self.least(other),
    {
        if self.is_nan() {
            other
        } else if other.is_nan() {
            self
        } else if self.lt(other) {
            self
        } else {
            other
        }
    }

    /// The larger of two numbers, and the one that is a number where the
    /// other is NaN. Of two equal numbers it is the second.
    pub open spec fn greatest(self, other: Scalar) -> Scalar {
        if self.nan() {
            other
        } else if other.nan() {
            self
        } else if other.below(self) {
            self
        } else {
            other
        }
    }

    /// The larger of two numbers, and the one that is a number where the
    /// other is NaN.
    pub fn max(self, other: Scalar) -> (r: Scalar)
        ensures
            r == self.greatest(other),
    {
        if self.is_nan() {
            other
        } else if other.is_nan() {
            self
        } else if self.gt(other) {
            self
        } else {
            other
        }
    }

    /// `-self`
    pub fn neg(self) -> (r: Scalar)
        ensures
            r == self.negated(),
            r.magnitude() == self.magnitude(),
            r.is_negative() != self.is_negative(),
    {
        if self.bits >= SIGN_BIT {
            Scalar { bits: self.bits - SIGN_BIT }
        } else {
            Scalar { bits: self.bits + SIGN_BIT }
        }
    }

    /// `|self|`
    pub fn abs(self) -> (r: Scalar)
        ensures
            r == self.absolute(),
            r.magnitude() == self.magnitude(),
            !r.is_negative(),
    {
        if self.bits >= SIGN_BIT {
            Scalar { bits: self.bits - SIGN_BIT }
        } else {
            self
        }
    }
}

/// Two to the power of 52: the weight of the hidden bit of a mantissa, and
/// of one step of the exponent.
pub const HIDDEN_BIT: u64 = 0x10_0000_0000_0000;

/// Two to the power of `k`; 1 for a negative `k`.
pub open spec fn two_to(k: int) -> int
    decreases k,
{
    if k <= 0 {
        1
    } else {
        2 * two_to(k - 1)
    }
}

/// The whole number `m`, doubled until it has 53 bits or has been doubled
/// 53 times, and how often it was doubled, counted from `c` on.
pub open spec fn lifted(m: int, c: int) -> (int, int)
    decreases 53 - c,
{
    if m >= HIDDEN_BIT || c >= 53 {
        (m, c)
    } else {
        lifted(2 * m, c + 1)
    }
}

/// `v`, or the nearest bound of an `i32` where it lies beyond.
pub open spec fn saturated(v: int) -> int {
    if v < i32::MIN {
        i32::MIN as int
    } else if v > i32::MAX {
        i32::MAX as int
    } else {
        v
    }
}

/// Powers of two are positive, and each is twice the one before.
pub proof fn lemma_two_to(k: int)
    requires
        0 <= k,
    ensures
        two_to(k) >= 1,
        two_to(k + 1) == 2 * two_to(k),
        k <= 62 ==> two_to(k) <= 0x4000_0000_0000_0000,
    decreases k,
{
    if k > 0 {
        lemma_two_to(k - 1);
    }
    if k <= 62 {
        lemma_two_to_grows(k, 62);
        assert(two_to(62) == 0x4000_0000_0000_0000) by {
            lemma_two_to_62();
        }
    }
}

/// A greater power of two is at least as great.
pub proof fn lemma_two_to_grows(j: int, k: int)
    requires
        0 <= j <= k,
    ensures
        1 <= two_to(j) <= two_to(k),
    decreases k,
{
    if j < k {
        lemma_two_to_grows(j, k - 1);
    } else if k > 0 {
        lemma_two_to_grows(j - 1, k - 1);
    }
}

proof fn lemma_two_to_62()
    ensures
        two_to(21) == 0x20_0000,
        two_to(31) == 0x8000_0000,
        two_to(52) == 0x10_0000_0000_0000,
        two_to(62) == 0x4000_0000_0000_0000,
{
    reveal_with_fuel(two_to, 11);
    assert(two_to(10) == 1024);
    assert(two_to(41) == 1024 * two_to(31));
}

impl Scalar {
    /// The exponent of the number, as its bits hold it: 1023 more than the
    /// power of two that the number begins with.
    pub open spec fn exponent(self) -> int {
        self.magnitude() / (HIDDEN_BIT as int)
    }

    /// The mantissa of the number with its hidden bit: the number is the
    /// mantissa times two to the power of the exponent less 1075.
    pub open spec fn mantissa(self) -> int {
        HIDDEN_BIT + self.magnitude() % (HIDDEN_BIT as int)
    }

    /// The whole number that the number is, where it is one.
    pub open spec fn integral(self) -> Option<int> {
        if self.nan() || self.magnitude() == INFINITY_BITS {
            None
        } else if self.magnitude() == 0 {
            Some(0)
        } else if self.exponent() >= 1075 {
            Some(self.signed(self.mantissa() * two_to(self.exponent() - 1075)))
        } else if self.exponent() >= 1023 && self.mantissa() % two_to(1075 - self.exponent()) == 0 {
            Some(self.signed(self.mantissa() / two_to(1075 - self.exponent())))
        } else {
            None
        }
    }

    /// `v` with the sign of the number.
    pub open spec fn signed(self, v: int) -> int {
        if self.is_negative() {
            -v
        } else {
            v
        }
    }

    /// The number that the whole number `n` is, for an `n` that 53 bits can
    /// hold: its mantissa is `n` without its sign, doubled until it has 53
    /// bits, and each doubling takes one from the greatest exponent of a
    /// whole number of that length.
    pub open spec fn whole(n: int) -> Scalar {
        if n == 0 {
            Scalar { bits: 0 }
        } else if n < 0 {
            let (x, c) = lifted(-n, 0);
            Scalar { bits: ((1074 - c) * HIDDEN_BIT + x + SIGN_BIT) as u64 }
        } else {
            let (x, c) = lifted(n, 0);
            Scalar { bits: ((1074 - c) * HIDDEN_BIT + x) as u64 }
        }
    }

    /// The whole part of the number: what is left of it without its
    /// fraction. It is 0 for a NaN.
    pub open spec fn truncation(self) -> int {
        if self.nan() || self.exponent() < 1023 {
            0
        } else if self.exponent() >= 1075 {
            self.signed(self.mantissa() * two_to(self.exponent() - 1075))
        } else {
            self.signed(self.mantissa() / two_to(1075 - self.exponent()))
        }
    }

    /// The greatest whole number that is not greater than the number, as a
    /// number of the same kind. A NaN and the infinities stay as they are.
    pub open spec fn floored(self) -> Scalar {
        let e = self.exponent();
        if e >= 1075 || self.magnitude() == 0 {
            self
        } else if e < 1023 {
            if self.is_negative() {
                Scalar { bits: 0xBFF0_0000_0000_0000 }
            } else {
                Scalar { bits: 0 }
            }
        } else {
            let step = two_to(1075 - e);
            let fraction = self.magnitude() % step;
            if fraction == 0 {
                self
            } else if self.is_negative() {
                Scalar { bits: (self.bits - fraction + step) as u64 }
            } else {
                Scalar { bits: (self.bits - fraction) as u64 }
            }
        }
    }

    /// The number that the whole number `n` is.
    pub fn from_i32(n: i32) -> (r: Scalar)
        ensures
            r == Scalar::whole(n as int),
            r.integral() == Some(n as int),
            r.is_negative() == (n < 0),
    {
        if n == 0 {
            return Scalar { bits: 0 };
        }
        let m: u64 = if n < 0 {
            (-(n as i64)) as u64
        } else {
            n as u64
        };
        let mut x: u64 = m;
        let mut c: u64 = 0;
        proof {
            lemma_two_to_62();
        }
        while x < HIDDEN_BIT
            invariant
                1 <= m <= 0x8000_0000,
                c <= 52,
                x == m * two_to(c as int),
                1 <= x < 2 * HIDDEN_BIT,
                two_to(52) == 0x10_0000_0000_0000,
                lifted(x as int, c as int) == lifted(m as int, 0),
            decreases 53 - c,
        {
            proof {
                lemma_two_to(c as int);
                assert(m * two_to(c as int) >= two_to(c as int)) by (nonlinear_arith)
                    requires
                        m >= 1,
                        two_to(c as int) >= 1,
                ;
                if c >= 52 {
                    lemma_two_to_grows(52, c as int);
                }
                assert(m * (2 * two_to(c as int)) == 2 * (m * two_to(c as int))) by (nonlinear_arith);
            }
            x = x * 2;
            c = c + 1;
        }
        let magnitude: u64 = (1074 - c) * HIDDEN_BIT + x;
        let r = Scalar { bits: if n < 0 { magnitude + SIGN_BIT } else { magnitude } };
        proof {
            lemma_two_to(c as int);
            assert(magnitude == (1075 - c) * HIDDEN_BIT + (x - HIDDEN_BIT)) by (nonlinear_arith)
                requires
                    magnitude == (1074 - c) * HIDDEN_BIT + x,
            ;
            vstd::arithmetic::div_mod::lemma_fundamental_div_mod_converse(
                magnitude as int,
                HIDDEN_BIT as int,
                1075 - c,
                x - HIDDEN_BIT,
            );
            vstd::arithmetic::div_mod::lemma_fundamental_div_mod_converse(
                x as int,
                two_to(c as int),
                m as int,
                0,
            );
        }
        r
    }

    /// The whole part of the number, within the bounds of an `i32`: a
    /// number beyond them gives the nearest bound, and a NaN gives 0.
    pub fn to_i32(self) -> (r: i32)
        ensures
            r == saturated(self.truncation()),
    {
        if self.is_nan() {
            return 0;
        }
        let negative = self.bits >= SIGN_BIT;
        let magnitude: u64 = if negative {
            self.bits - SIGN_BIT
        } else {
            self.bits
        };
        let e: u64 = magnitude / HIDDEN_BIT;
        let mantissa: u64 = HIDDEN_BIT + magnitude % HIDDEN_BIT;
        if e < 1023 {
            return 0;
        }
        proof {
            lemma_two_to_62();
        }
        let ghost whole: int = mantissa as int;
        if e >= 1054 {
            proof {
                if e >= 1075 {
                    lemma_two_to_grows(0, e - 1075);
                    assert(whole * two_to(e - 1075) >= whole) by (nonlinear_arith)
                        requires
                            whole >= 1,
                            two_to(e - 1075) >= 1,
                    ;
                } else {
                    lemma_two_to_grows(1075 - e, 21);
                    let d = two_to(1075 - e);
                    vstd::arithmetic::div_mod::lemma_div_is_ordered_by_denominator(whole, d, 0x20_0000);
                    vstd::arithmetic::div_mod::lemma_div_is_ordered(0x10_0000_0000_0000, whole, 0x20_0000);
                }
            }
            return if negative {
                i32::MIN
            } else {
                i32::MAX
            };
        }
        let mut top: u64 = mantissa;
        let mut left: u64 = 1075 - e;
        let ghost shift = left as int;
        assert(whole / two_to(shift - left) == whole) by (nonlinear_arith)
            requires
                two_to(shift - left) == 1,
        ;
        while left > 0
            invariant
                left <= shift,
                22 <= shift <= 52,
                top as int == whole / two_to(shift - left),
                0 <= whole < 2 * HIDDEN_BIT,
            decreases left,
        {
            proof {
                lemma_two_to(shift - left);
                vstd::arithmetic::div_mod::lemma_div_denominator(whole, two_to(shift - left), 2);
            }
            top = top / 2;
            left = left - 1;
        }
        proof {
            lemma_two_to_grows(22, shift);
            lemma_two_to(21);
            let d = two_to(shift);
            vstd::arithmetic::div_mod::lemma_div_is_ordered_by_denominator(whole, 0x40_0000, d);
            vstd::arithmetic::div_mod::lemma_div_is_ordered(whole, 0x20_0000_0000_0000, 0x40_0000);
            assert(whole / 0x40_0000 < 0x8000_0000) by {
                vstd::arithmetic::div_mod::lemma_fundamental_div_mod(whole, 0x40_0000);
                vstd::arithmetic::div_mod::lemma_mod_bound(whole, 0x40_0000);
            }
            vstd::arithmetic::div_mod::lemma_div_pos_is_pos(whole, d);
        }
        if negative {
            -(top as i32)
        } else {
            top as i32
        }
    }

    /// The greatest whole number that is not greater than the number.
    pub fn floor(self) -> (r: Scalar)
        ensures
            r == self.floored(),
    {
        let negative = self.bits >= SIGN_BIT;
        let magnitude: u64 = if negative {
            self.bits - SIGN_BIT
        } else {
            self.bits
        };
        let e: u64 = magnitude / HIDDEN_BIT;
        if e >= 1075 || magnitude == 0 {
            return self;
        }
        if e < 1023 {
            return if negative {
                Scalar { bits: 0xBFF0_0000_0000_0000 }
            } else {
                Scalar { bits: 0 }
            };
        }
        let mut step: u64 = 1;
        let mut k: u64 = 0;
        while k < 1075 - e
            invariant
                1023 <= e < 1075,
                k <= 1075 - e,
                step == two_to(k as int),
                1 <= step <= HIDDEN_BIT,
            decreases 1075 - e - k,
        {
            proof {
                lemma_two_to(k as int);
                lemma_two_to_62();
                lemma_two_to_grows(k + 1, 52);
            }
            step = step * 2;
            k = k + 1;
        }
        let fraction = magnitude % step;
        if fraction == 0 {
            self
        } else if negative {
            Scalar { bits: self.bits - fraction + step }
        } else {
            Scalar { bits: self.bits - fraction }
        }
    }
}

/// The sums, differences, products, quotients and square roots of binary64
/// numbers, which this library leaves to its caller: the five operations
/// that IEEE 754 rounds correctly.
///
/// Each operation is a function of its operands: the same operands give the
/// same bits. For a result that is a number IEEE 754 sees to that. It leaves
/// open which of the NaNs comes out where the result is none, so an
/// implementation has to settle that itself, for one by giving the same NaN
/// every time. Nothing else is supposed of an operation. The library names
/// the result of each operation, and states what it computes over those
/// names; an implementation outside verified code defines each name as the
/// operation itself.
pub trait Arithmetic {
    /// The bits of `a + b`.
    spec fn sum(&self, a: Scalar, b: Scalar) -> Scalar;

    /// The bits of `a - b`.
    spec fn difference(&self, a: Scalar, b: Scalar) -> Scalar;

    /// The bits of `a * b`.
    spec fn product(&self, a: Scalar, b: Scalar) -> Scalar;

    /// The bits of `a / b`.
    spec fn quotient(&self, a: Scalar, b: Scalar) -> Scalar;

    /// The bits of the square root of `a`.
    spec fn square_root(&self, a: Scalar) -> Scalar;

    fn plus(&self, a: Scalar, b: Scalar) -> (r: Scalar)
        ensures
            r == self.sum(a, b),
    ;

    fn minus(&self, a: Scalar, b: Scalar) -> (r: Scalar)
        ensures
            r == self.difference(a, b),
    ;

    fn times(&self, a: Scalar, b: Scalar) -> (r: Scalar)
        ensures
            r == self.product(a, b),
    ;

    fn over(&self, a: Scalar, b: Scalar) -> (r: Scalar)
        ensures
            r == self.quotient(a, b),
    ;

    fn root(&self, a: Scalar) -> (r: Scalar)
        ensures
            r == self.square_root(a),
    ;
}

/// Functions of binary64 numbers that no standard rounds: powers,
/// logarithms and the functions of angles. The library leaves them to its
/// caller too, and supposes nothing of what they return: what it states of
/// a result that rests on one of them, it states of whatever came back.
pub trait Functions {
    /// `base` to the power of `exponent`.
    fn powf(&self, base: Scalar, exponent: Scalar) -> Scalar;

    /// The natural logarithm of `x`.
    fn ln(&self, x: Scalar) -> Scalar;

    /// The sine of the angle `x`, in radians.
    fn sin(&self, x: Scalar) -> Scalar;

    /// The cosine of the angle `x`, in radians.
    fn cos(&self, x: Scalar) -> Scalar;

    /// The tangent of the angle `x`, in radians.
    fn tan(&self, x: Scalar) -> Scalar;

    /// The angle between 0 and pi of which `x` is the cosine.
    fn acos(&self, x: Scalar) -> Scalar;

    /// The angle between -pi and pi of the point `(x, y)`.
    fn atan2(&self, y: Scalar, x: Scalar) -> Scalar;
}

/// Random numbers, which the library leaves to its caller as well: what it
/// states of a result that rests on a draw, it states of every draw.
pub trait Chance {
    /// A random number from `min` up to, but not including, `max`.
    fn random_range(&self, min: Scalar, max: Scalar) -> Scalar;
}

/// `powf` may return `out`.
pub open spec fn powers<A: Functions>(fpu: &A, base: Scalar, exponent: Scalar, out: Scalar) -> bool {
    call_ensures(A::powf, (fpu, base, exponent), out)
}

/// `ln` may return `out`.
pub open spec fn logs<A: Functions>(fpu: &A, x: Scalar, out: Scalar) -> bool {
    call_ensures(A::ln, (fpu, x), out)
}

/// `sin` may return `out`.
pub open spec fn sines<A: Functions>(fpu: &A, x: Scalar, out: Scalar) -> bool {
    call_ensures(A::sin, (fpu, x), out)
}

/// `cos` may return `out`.
pub open spec fn cosines<A: Functions>(fpu: &A, x: Scalar, out: Scalar) -> bool {
    call_ensures(A::cos, (fpu, x), out)
}

/// `tan` may return `out`.
pub open spec fn tangents<A: Functions>(fpu: &A, x: Scalar, out: Scalar) -> bool {
    call_ensures(A::tan, (fpu, x), out)
}

/// `acos` may return `out`.
pub open spec fn arc_cosines<A: Functions>(fpu: &A, x: Scalar, out: Scalar) -> bool {
    call_ensures(A::acos, (fpu, x), out)
}

/// `atan2` may return `out`.
pub open spec fn arc_tangents<A: Functions>(fpu: &A, y: Scalar, x: Scalar, out: Scalar) -> bool {
    call_ensures(A::atan2, (fpu, y, x), out)
}

/// `random_range` may return `out`.
pub open spec fn draws<A: Chance>(fpu: &A, min: Scalar, max: Scalar, out: Scalar) -> bool {
    call_ensures(A::random_range, (fpu, min, max), out)
}

/// The bits of pi.
pub const PI_BITS: u64 = 0x4009_21FB_5444_2D18;

/// The bits of two times pi.
pub const TWO_PI_BITS: u64 = 0x4019_21FB_5444_2D18;

/// The bits of pi over 180: how many radians a degree is.
pub const RADIANS_PER_DEGREE_BITS: u64 = 0x3F91_DF46_A252_9D39;

/// The bits of 180.0.
pub const HALF_TURN_BITS: u64 = 0x4066_8000_0000_0000;

} // verus!
