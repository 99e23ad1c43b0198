use crate::flow::error::TypeError;
use vstd::arithmetic::power2::pow2;
use vstd::bits::{lemma_u64_shl_is_mul, lemma_u64_shr_is_div};
use vstd::arithmetic::power::pow;
use vstd::prelude::*;
use vstd::string::StrSliceExecFns;
use vstd::string::StringExecFns;
use core::cmp::Ordering;

verus! {

/// A 64-bit IEEE-754 floating-point number, held as its bit pattern.
#[derive(Clone, Copy, Debug, PartialEq, Eq)]
pub struct Float {
    pub bits: u64,
}

/// The biased exponent field of a binary64 bit pattern.
pub open spec fn exponent_of(bits: u64) -> int {
    (bits as int / 0x10000000000000) % 0x800
}

/// The fraction field of a binary64 bit pattern.
pub open spec fn fraction_of(bits: u64) -> int {
    bits as int % 0x10000000000000
}

/// Whether the sign bit of a binary64 bit pattern is set.
pub open spec fn sign_of(bits: u64) -> bool {
    bits >= 0x8000000000000000
}

/// Whether the bit pattern is a NaN.
pub open spec fn is_nan(bits: u64) -> bool {
    exponent_of(bits) == 0x7ff && fraction_of(bits) != 0
}

/// Whether the bit pattern is a zero of either sign.
pub open spec fn is_zero(bits: u64) -> bool {
    bits as int % 0x8000000000000000 == 0
}

/// The integer part of the magnitude of a finite bit pattern.
pub open spec fn integral_magnitude(bits: u64) -> int {
    let e = exponent_of(bits);
    let m = fraction_of(bits) + 0x10000000000000;
    if e < 1023 {
        0
    } else if e < 1075 {
        m / pow2((1075 - e) as nat) as int
    } else {
        m * pow2((e - 1075) as nat) as int
    }
}

/// The float rounded toward zero to an integer, saturating at the bounds of
/// `i64`, with NaN giving zero (the meaning of a cast from `f64` to `i64`).
pub open spec fn truncate_spec(bits: u64) -> i64 {
    let t = integral_magnitude(bits);
    if is_nan(bits) {
        0
    } else if exponent_of(bits) == 0x7ff {
        if sign_of(bits) { i64::MIN } else { i64::MAX }
    } else if sign_of(bits) {
        if t >= 0x8000000000000000 { i64::MIN } else { (-t) as i64 }
    } else {
        if t > i64::MAX { i64::MAX } else { t as i64 }
    }
}

/// The key that orders non-NaN bit patterns as the numbers they stand for:
/// the magnitude bits, negated for negative numbers.
pub open spec fn order_key(bits: u64) -> int {
    if sign_of(bits) {
        -(bits as int % 0x8000000000000000)
    } else {
        bits as int % 0x8000000000000000
    }
}

/// The IEEE-754 comparison of two floats: none when either is NaN, zeros of
/// both signs equal, and otherwise the order of the numbers.
pub open spec fn float_cmp(a: u64, b: u64) -> Option<core::cmp::Ordering> {
    if is_nan(a) || is_nan(b) {
        None
    } else if order_key(a) < order_key(b) {
        Some(core::cmp::Ordering::Less)
    } else if order_key(a) > order_key(b) {
        Some(core::cmp::Ordering::Greater)
    } else {
        Some(core::cmp::Ordering::Equal)
    }
}

/// The comparison of two integers.
pub open spec fn int_cmp(a: int, b: int) -> core::cmp::Ordering {
    if a < b {
        core::cmp::Ordering::Less
    } else if a > b {
        core::cmp::Ordering::Greater
    } else {
        core::cmp::Ordering::Equal
    }
}

impl Float {
    /// The float with this bit pattern.
    pub fn from_bits(bits: u64) -> (r: Float)
        ensures
            r.bits == bits,
    {
        Float { bits }
    }

    /// The bit pattern of the float.
    pub fn to_bits(&self) -> (r: u64)
        ensures
            r == self.bits,
    {
        self.bits
    }

    /// Whether the float is NaN.
    pub fn is_nan(&self) -> (r: bool)
        ensures
            r == is_nan(self.bits),
    {
        let bits = self.bits;
        let e = (bits >> 52u64) & 0x7ffu64;
        let f = bits & 0xfffffffffffffu64;
        assert(e == (bits / 0x10000000000000u64) % 0x800u64) by (bit_vector)
            requires e == (bits >> 52u64) & 0x7ffu64;
        assert(f == bits % 0x10000000000000u64) by (bit_vector)
            requires f == bits & 0xfffffffffffffu64;
        e == 0x7ff && f != 0
    }

    /// Whether the float is a zero of either sign.
    pub fn is_zero(&self) -> (r: bool)
        ensures
            r == is_zero(self.bits),
    {
        let bits = self.bits;
        assert(bits & 0x7fffffffffffffffu64 == bits % 0x8000000000000000u64) by (bit_vector);
        bits & 0x7fffffffffffffffu64 == 0
    }

    /// The float with its sign flipped.
    pub fn negate(&self) -> (r: Float)
        ensures
            r.bits as int % 0x8000000000000000 == self.bits as int % 0x8000000000000000,
            sign_of(r.bits) != sign_of(self.bits),
    {
        let bits = self.bits;
        let n = bits ^ 0x8000000000000000u64;
        assert(n % 0x8000000000000000u64 == bits % 0x8000000000000000u64) by (bit_vector)
            requires n == bits ^ 0x8000000000000000u64;
        assert((n >= 0x8000000000000000u64) != (bits >= 0x8000000000000000u64)) by (bit_vector)
            requires n == bits ^ 0x8000000000000000u64;
        Float { bits: n }
    }

    /// The float rounded toward zero to an integer, saturating at the bounds
    /// of `i64`; NaN gives zero.
    pub fn truncate(&self) -> (r: i64)
        ensures
            r == truncate_spec(self.bits),
    {
        let bits = self.bits;
        let e = (bits >> 52u64) & 0x7ffu64;
        let f = bits & 0xfffffffffffffu64;
        let negative = bits >= 0x8000000000000000u64;
        assert(e == (bits / 0x10000000000000u64) % 0x800u64) by (bit_vector)
            requires e == (bits >> 52u64) & 0x7ffu64;
        assert(f == bits % 0x10000000000000u64) by (bit_vector)
            requires f == bits & 0xfffffffffffffu64;
        assert(f < 0x10000000000000u64) by (bit_vector)
            requires f == bits & 0xfffffffffffffu64;
        if e == 0x7ff {
            if f != 0 {
                0
            } else if negative {
                i64::MIN
            } else {
                i64::MAX
            }
        } else if e < 1023 {
            0
        } else if e >= 1086 {
            proof {
                let m = f + 0x10000000000000u64;
                vstd::arithmetic::power2::lemma_pow2_adds(11, (e - 1086) as nat);
                vstd::arithmetic::power2::lemma_pow2_pos((e - 1086) as nat);
                vstd::arithmetic::power2::lemma2_to64();
                assert(0x8000000000000000 == 0x10000000000000 * 2048);
                vstd::arithmetic::mul::lemma_mul_inequality(
                    0x10000000000000,
                    m as int,
                    pow2((e - 1075) as nat) as int,
                );
                vstd::arithmetic::mul::lemma_mul_inequality(
                    2048,
                    pow2((e - 1075) as nat) as int,
                    0x10000000000000,
                );
                vstd::arithmetic::mul::lemma_mul_is_commutative(
                    2048,
                    pow2((e - 1086) as nat) as int,
                );
                vstd::arithmetic::mul::lemma_mul_inequality(
                    1,
                    pow2((e - 1086) as nat) as int,
                    2048,
                );
            }
            if negative {
                i64::MIN
            } else {
                i64::MAX
            }
        } else {
            let m = f | 0x10000000000000u64;
            assert(m == f + 0x10000000000000u64) by (bit_vector)
                requires f < 0x10000000000000u64, m == f | 0x10000000000000u64;
            let t: u64 = if e < 1075 {
                let s = 1075 - e;
                proof {
                    lemma_u64_shr_is_div(m, s);
                    vstd::arithmetic::power2::lemma_pow2_pos(s as nat);
                    vstd::arithmetic::div_mod::lemma_div_is_ordered_by_denominator(
                        m as int,
                        1,
                        pow2(s as nat) as int,
                    );
                }
                m >> s
            } else {
                let s = e - 1075;
                proof {
                    vstd::arithmetic::power2::lemma2_to64();
                    vstd::arithmetic::power2::lemma_pow2_strictly_increases(s as nat, 11);
                    vstd::arithmetic::power2::lemma2_to64();
                    vstd::arithmetic::power2::lemma_pow2_pos(s as nat);
                    vstd::arithmetic::mul::lemma_mul_inequality(
                        pow2(s as nat) as int,
                        1024,
                        m as int,
                    );
                    vstd::arithmetic::power2::lemma_pow2_adds(s as nat, (10 - s) as nat);
                    vstd::arithmetic::power2::lemma_pow2_pos((10 - s) as nat);
                    vstd::arithmetic::mul::lemma_mul_inequality(
                        pow2(s as nat) as int,
                        1024,
                        m as int,
                    );
                    vstd::arithmetic::mul::lemma_mul_strict_inequality(
                        m as int,
                        0x20000000000000,
                        pow2(s as nat) as int,
                    );
                    vstd::arithmetic::mul::lemma_mul_inequality(
                        pow2(s as nat) as int,
                        1024,
                        0x20000000000000,
                    );
                    vstd::arithmetic::mul::lemma_mul_is_commutative(
                        m as int,
                        pow2(s as nat) as int,
                    );
                    vstd::arithmetic::mul::lemma_mul_is_commutative(
                        0x20000000000000,
                        pow2(s as nat) as int,
                    );
                    lemma_u64_shl_is_mul(m, s);
                }
                m << s
            };
            assert(t < 0x8000000000000000);
            if negative {
                -(t as i64)
            } else {
                t as i64
            }
        }
    }
}


/// The floating-point arithmetic that Flow values need beyond what their bit
/// patterns show directly. Results are taken as given: nothing here states
/// what they are.
pub trait FloatArithmetic {
    /// The float nearest to the integer.
    fn from_integer(&self, i: i64) -> Float;

    /// The sum of two floats.
    fn add(&self, a: Float, b: Float) -> Float;

    /// The difference of two floats.
    fn sub(&self, a: Float, b: Float) -> Float;

    /// The product of two floats.
    fn mul(&self, a: Float, b: Float) -> Float;

    /// The quotient of two floats.
    fn div(&self, a: Float, b: Float) -> Float;

    /// The remainder of the truncated division of two floats.
    fn rem(&self, a: Float, b: Float) -> Float;

    /// `a` raised to the power `b`.
    fn powf(&self, a: Float, b: Float) -> Float;

    /// `a` raised to the integer power `n`.
    fn powi(&self, a: Float, n: i32) -> Float;

    /// The number of whole nanoseconds in `secs` seconds, or none when it is
    /// negative, not a number, or too large for a duration.
    fn seconds_to_nanos(&self, secs: Float) -> Option<u64>;
}

/// The key that orders non-NaN floats, in executable form.
fn order_key_of(bits: u64) -> (r: i64)
    ensures
        r == order_key(bits),
{
    let mag = bits & 0x7fffffffffffffffu64;
    assert(mag == bits % 0x8000000000000000u64) by (bit_vector)
        requires mag == bits & 0x7fffffffffffffffu64;
    if bits >= 0x8000000000000000u64 {
        -(mag as i64)
    } else {
        mag as i64
    }
}

impl Float {
    /// The IEEE-754 comparison of two floats.
    pub fn compare(&self, other: &Float) -> (r: Option<Ordering>)
        ensures
            r == float_cmp(self.bits, other.bits),
    {
        if self.is_nan() || other.is_nan() {
            return None;
        }
        let a = order_key_of(self.bits);
        let b = order_key_of(other.bits);
        if a < b {
            Some(Ordering::Less)
        } else if a > b {
            Some(Ordering::Greater)
        } else {
            Some(Ordering::Equal)
        }
    }
}

/// A Flow number: an integer or a float.
#[derive(Clone, Copy, Debug, PartialEq)]
pub enum Number {
    Integer(i64),
    Float(Float),
}

/// The name of a number's kind.
pub open spec fn number_kind(n: Number) -> &'static str {
    match n {
        Number::Integer(_) => "integer",
        Number::Float(_) => "float",
    }
}

/// The integer result of a checked operation, or the arithmetic error of the
/// operator when there is none.
pub open spec fn checked_result(v: Option<i64>, operator: &'static str) -> Result<Number, TypeError> {
    match v {
        Some(i) => Ok(Number::Integer(i)),
        None => Err(TypeError::Arithmetic { operator }),
    }
}

/// Whether a number operation gave a float, as it does whenever one of its
/// operands is a float.
pub open spec fn is_float_result(r: Result<Number, TypeError>) -> bool {
    r matches Ok(Number::Float(_))
}

/// `a` raised to the power `b`, when `b` is not negative and the result fits.
pub open spec fn int_pow(a: i64, b: i64) -> Option<i64> {
    if b < 0 {
        None
    } else if i64::MIN <= pow(a as int, b as nat) <= i64::MAX {
        Some(pow(a as int, b as nat) as i64)
    } else {
        None
    }
}

/// The magnitude of a power is the power of the magnitude.
proof fn lemma_pow_magnitude(a: int, n: nat)
    ensures
        a >= 0 ==> pow(a, n) >= 0,
        pow(a, n) == pow(-a, n) || pow(a, n) == -pow(-a, n),
    decreases n,
{
    reveal(pow);
    if n > 0 {
        let m = (n - 1) as nat;
        lemma_pow_magnitude(a, m);
        let p = pow(a, m);
        let q = pow(-a, m);
        assert(pow(a, n) == a * p);
        assert(pow(-a, n) == (-a) * q);
        if p == q {
            assert((-a) * q == -(a * p)) by (nonlinear_arith)
                requires p == q;
        } else {
            assert((-a) * q == a * p) by (nonlinear_arith)
                requires p == -q;
        }
        if a >= 0 {
            assert(a * p >= 0) by (nonlinear_arith)
                requires a >= 0, p >= 0;
        }
    }
}

/// Once a power of a base of magnitude at least two leaves the range of
/// `i64`, every higher power stays out of it.
proof fn lemma_pow_stays_out(a: int, i: nat, n: nat)
    requires
        a >= 2 || a <= -2,
        i <= n,
        !(i64::MIN <= pow(a, i) <= i64::MAX),
    ensures
        !(i64::MIN <= pow(a, n) <= i64::MAX),
{
    if i < n {
        let m: int = if a >= 0 { a } else { -a };
        lemma_pow_magnitude(a, i);
        lemma_pow_magnitude(a, n);
        lemma_pow_magnitude(m, i);
        let p = pow(m, i);
        assert(pow(a, i) == p || pow(a, i) == -p);
        assert(pow(a, n) == pow(m, n) || pow(a, n) == -pow(m, n));
        assert(p >= 0x8000000000000000);
        reveal(pow);
        assert(pow(m, (i + 1) as nat) == m * p);
        assert(m * p >= 2 * p) by (nonlinear_arith)
            requires m >= 2, p >= 0;
        vstd::arithmetic::power::lemma_pow_increases(m as nat, (i + 1) as nat, n);
    }
}

impl Number {
    /// The name of the number's kind.
    pub fn kind(&self) -> (r: &'static str)
        ensures
            r == number_kind(*self),
    {
        match self {
            Number::Integer(_) => "integer",
            Number::Float(_) => "float",
        }
    }

    /// The number for a boolean: one for `true`, zero for `false`.
    pub fn from_bool(b: bool) -> (r: Number)
        ensures
            r == Number::Integer(if b { 1 } else { 0 }),
    {
        if b {
            Number::Integer(1)
        } else {
            Number::Integer(0)
        }
    }

    /// The bitwise complement of an integer; a float has none.
    pub fn try_not(self) -> (r: Result<Number, TypeError>)
        ensures
            match self {
                Number::Integer(i) => r == Ok::<Number, TypeError>(Number::Integer(!i)),
                Number::Float(_) => r == Err::<Number, TypeError>(
                    TypeError::UnaryOperator { operator: "bitwise not", kind: "float" },
                ),
            },
    {
        match self {
            Number::Integer(i) => Ok(Number::Integer(!i)),
            Number::Float(_) => Err(
                TypeError::UnaryOperator { operator: "bitwise not", kind: self.kind() },
            ),
        }
    }

    /// The bitwise and of two integers; floats have none.
    pub fn try_bitand(self, other: Number) -> (r: Result<Number, TypeError>)
        ensures
            match (self, other) {
                (Number::Integer(a), Number::Integer(b)) => r == Ok::<Number, TypeError>(
                    Number::Integer(a & b),
                ),
                _ => r == Err::<Number, TypeError>(
                    TypeError::BinaryOperator {
                        operator: "bitwise and",
                        a: number_kind(self),
                        b: number_kind(other),
                    },
                ),
            },
    {
        match (self, other) {
            (Number::Integer(a), Number::Integer(b)) => Ok(Number::Integer(a & b)),
            _ => Err(
                TypeError::BinaryOperator {
                    operator: "bitwise and",
                    a: self.kind(),
                    b: other.kind(),
                },
            ),
        }
    }

    /// The bitwise or of two integers; floats have none.
    pub fn try_bitor(self, other: Number) -> (r: Result<Number, TypeError>)
        ensures
            match (self, other) {
                (Number::Integer(a), Number::Integer(b)) => r == Ok::<Number, TypeError>(
                    Number::Integer(a | b),
                ),
                _ => r == Err::<Number, TypeError>(
                    TypeError::BinaryOperator {
                        operator: "bitwise or",
                        a: number_kind(self),
                        b: number_kind(other),
                    },
                ),
            },
    {
        match (self, other) {
            (Number::Integer(a), Number::Integer(b)) => Ok(Number::Integer(a | b)),
            _ => Err(
                TypeError::BinaryOperator {
                    operator: "bitwise or",
                    a: self.kind(),
                    b: other.kind(),
                },
            ),
        }
    }

    /// The bitwise exclusive or of two integers; floats have none.
    pub fn try_bitxor(self, other: Number) -> (r: Result<Number, TypeError>)
        ensures
            match (self, other) {
                (Number::Integer(a), Number::Integer(b)) => r == Ok::<Number, TypeError>(
                    Number::Integer(a ^ b),
                ),
                _ => r == Err::<Number, TypeError>(
                    TypeError::BinaryOperator {
                        operator: "bitwise xor",
                        a: number_kind(self),
                        b: number_kind(other),
                    },
                ),
            },
    {
        match (self, other) {
            (Number::Integer(a), Number::Integer(b)) => Ok(Number::Integer(a ^ b)),
            _ => Err(
                TypeError::BinaryOperator {
                    operator: "bitwise xor",
                    a: self.kind(),
                    b: other.kind(),
                },
            ),
        }
    }

    /// The float a number stands for: itself, or the float nearest to the
    /// integer.
    fn promote<U: FloatArithmetic>(self, unit: &U) -> (r: Float)
        ensures
            self matches Number::Float(f) ==> r == f,
    {
        match self {
            Number::Integer(i) => unit.from_integer(i),
            Number::Float(f) => f,
        }
    }

    /// Compares two numbers: integers as integers, and otherwise as floats
    /// after the integer side is converted to the nearest float.
    pub fn compare<U: FloatArithmetic>(&self, other: &Number, unit: &U) -> (r: Option<Ordering>)
        ensures
            match (*self, *other) {
                (Number::Integer(a), Number::Integer(b)) => r == Some(int_cmp(a as int, b as int)),
                (Number::Float(a), Number::Float(b)) => r == float_cmp(a.bits, b.bits),
                (Number::Integer(_), Number::Float(b)) => exists|p: Float|
                    r == float_cmp(p.bits, b.bits),
                (Number::Float(a), Number::Integer(_)) => exists|p: Float|
                    r == float_cmp(a.bits, p.bits),
            },
    {
        match (self, other) {
            (Number::Integer(a), Number::Integer(b)) => {
                if *a < *b {
                    Some(Ordering::Less)
                } else if *a > *b {
                    Some(Ordering::Greater)
                } else {
                    Some(Ordering::Equal)
                }
            },
            _ => {
                let a = self.promote(unit);
                let b = other.promote(unit);
                a.compare(&b)
            },
        }
    }

    /// The negation of a number; `OutOfRange` for the smallest integer.
    pub fn neg(self) -> (r: Result<Number, TypeError>)
        ensures
            match self {
                Number::Integer(i) => r == checked_result(
                    (0i64).checked_sub(i),
                    "negate",
                ),
                Number::Float(f) => r matches Ok(Number::Float(g)) && g.bits as int
                    % 0x8000000000000000 == f.bits as int % 0x8000000000000000 && sign_of(g.bits)
                    != sign_of(f.bits),
            },
    {
        match self {
            Number::Integer(i) => match (0i64).checked_sub(i) {
                Some(v) => Ok(Number::Integer(v)),
                None => Err(TypeError::Arithmetic { operator: "negate" }),
            },
            Number::Float(f) => Ok(Number::Float(f.negate())),
        }
    }

    /// The sum of two numbers.
    pub fn add<U: FloatArithmetic>(self, other: Number, unit: &U) -> (r: Result<Number, TypeError>)
        ensures
            match (self, other) {
                (Number::Integer(a), Number::Integer(b)) => r == checked_result(a.checked_add(b), "add"),
                _ => is_float_result(r),
            },
    {
        match (self, other) {
            (Number::Integer(a), Number::Integer(b)) => match a.checked_add(b) {
                Some(v) => Ok(Number::Integer(v)),
                None => Err(TypeError::Arithmetic { operator: "add" }),
            },
            _ => Ok(Number::Float(unit.add(self.promote(unit), other.promote(unit)))),
        }
    }

    /// The difference of two numbers.
    pub fn sub<U: FloatArithmetic>(self, other: Number, unit: &U) -> (r: Result<Number, TypeError>)
        ensures
            match (self, other) {
                (Number::Integer(a), Number::Integer(b)) => r == checked_result(
                    a.checked_sub(b),
                    "subtract",
                ),
                _ => is_float_result(r),
            },
    {
        match (self, other) {
            (Number::Integer(a), Number::Integer(b)) => match a.checked_sub(b) {
                Some(v) => Ok(Number::Integer(v)),
                None => Err(TypeError::Arithmetic { operator: "subtract" }),
            },
            _ => Ok(Number::Float(unit.sub(self.promote(unit), other.promote(unit)))),
        }
    }

    /// The product of two numbers.
    pub fn mul<U: FloatArithmetic>(self, other: Number, unit: &U) -> (r: Result<Number, TypeError>)
        ensures
            match (self, other) {
                (Number::Integer(a), Number::Integer(b)) => r == checked_result(
                    a.checked_mul(b),
                    "multiply",
                ),
                _ => is_float_result(r),
            },
    {
        match (self, other) {
            (Number::Integer(a), Number::Integer(b)) => match a.checked_mul(b) {
                Some(v) => Ok(Number::Integer(v)),
                None => Err(TypeError::Arithmetic { operator: "multiply" }),
            },
            _ => Ok(Number::Float(unit.mul(self.promote(unit), other.promote(unit)))),
        }
    }

    /// The quotient of two numbers; integers divide rounding toward zero.
    pub fn div<U: FloatArithmetic>(self, other: Number, unit: &U) -> (r: Result<Number, TypeError>)
        ensures
            match (self, other) {
                (Number::Integer(a), Number::Integer(b)) => r == checked_result(
                    a.checked_div(b),
                    "divide",
                ),
                _ => is_float_result(r),
            },
    {
        match (self, other) {
            (Number::Integer(a), Number::Integer(b)) => match a.checked_div(b) {
                Some(v) => Ok(Number::Integer(v)),
                None => Err(TypeError::Arithmetic { operator: "divide" }),
            },
            _ => Ok(Number::Float(unit.div(self.promote(unit), other.promote(unit)))),
        }
    }

    /// The remainder of two numbers, with the sign of the dividend.
    pub fn rem<U: FloatArithmetic>(self, other: Number, unit: &U) -> (r: Result<Number, TypeError>)
        ensures
            match (self, other) {
                (Number::Integer(a), Number::Integer(b)) => r == checked_result(
                    a.checked_rem(b),
                    "modulo",
                ),
                _ => is_float_result(r),
            },
    {
        match (self, other) {
            (Number::Integer(a), Number::Integer(b)) => match a.checked_rem(b) {
                Some(v) => Ok(Number::Integer(v)),
                None => Err(TypeError::Arithmetic { operator: "modulo" }),
            },
            _ => Ok(Number::Float(unit.rem(self.promote(unit), other.promote(unit)))),
        }
    }

    /// `self` raised to the power `other`. An integer power is exact; a
    /// negative integer exponent, or a result that does not fit, is an error.
    pub fn pow<U: FloatArithmetic>(self, other: Number, unit: &U) -> (r: Result<Number, TypeError>)
        ensures
            match (self, other) {
                (Number::Integer(a), Number::Integer(b)) => r == checked_result(
                    int_pow(a, b),
                    "power",
                ),
                _ => is_float_result(r),
            },
    {
        match (self, other) {
            (Number::Integer(a), Number::Integer(b)) => match integer_power(a, b) {
                Some(v) => Ok(Number::Integer(v)),
                None => Err(TypeError::Arithmetic { operator: "power" }),
            },
            (Number::Float(a), Number::Integer(b)) => {
                if b < i32::MIN as i64 || b > i32::MAX as i64 {
                    Ok(Number::Float(unit.powf(a, unit.from_integer(b))))
                } else {
                    Ok(Number::Float(unit.powi(a, b as i32)))
                }
            },
            _ => Ok(Number::Float(unit.powf(self.promote(unit), other.promote(unit)))),
        }
    }
}

/// `a` raised to the power `b`, or none when `b` is negative or the power
/// does not fit in `i64`.
fn integer_power(a: i64, b: i64) -> (r: Option<i64>)
    ensures
        r == int_pow(a, b),
{
    if b < 0 {
        return None;
    }
    let ghost n = b as nat;
    if a == 0 || a == 1 || a == -1 {
        proof {
            lemma_pow_magnitude(a as int, n);
            vstd::arithmetic::power::lemma_pow0(a as int);
            if a == 0 && n > 0 {
                vstd::arithmetic::power::lemma_pow_adds(0, 1, (n - 1) as nat);
                vstd::arithmetic::power::lemma_pow1(0);
            }
            if a != 0 {
                vstd::arithmetic::power::lemma1_pow(n);
            }
        }
        if a == 0 {
            return if b == 0 { Some(1) } else { Some(0) };
        } else if a == 1 {
            return Some(1);
        } else {
            proof {
                lemma_pow_minus_one(n);
            }
            return if b % 2 == 0 { Some(1) } else { Some(-1) };
        }
    }
    let mut acc: i64 = 1;
    let mut i: i64 = 0;
    proof {
        vstd::arithmetic::power::lemma_pow0(a as int);
    }
    while i < b
        invariant
            0 <= i <= b,
            n == b,
            a >= 2 || a <= -2,
            acc as int == pow(a as int, i as nat),
        decreases b - i,
    {
        proof {
            vstd::arithmetic::power::lemma_pow_adds(a as int, i as nat, 1);
            vstd::arithmetic::power::lemma_pow1(a as int);
        }
        match acc.checked_mul(a) {
            Some(v) => {
                acc = v;
                i = i + 1;
            },
            None => {
                proof {
                    lemma_pow_stays_out(a as int, (i + 1) as nat, n);
                }
                return None;
            },
        }
    }
    Some(acc)
}

/// Powers of minus one alternate between one and minus one.
proof fn lemma_pow_minus_one(n: nat)
    ensures
        pow(-1, n) == if n % 2 == 0 { 1int } else { -1int },
    decreases n,
{
    vstd::arithmetic::power::lemma_pow0(-1);
    if n > 0 {
        lemma_pow_minus_one((n - 1) as nat);
        vstd::arithmetic::power::lemma_pow_adds(-1, 1, (n - 1) as nat);
        vstd::arithmetic::power::lemma_pow1(-1);
    }
}

/// A Flow value.
#[derive(Clone, Debug, PartialEq)]
pub enum Literal {
    Null,
    Boolean(bool),
    Number(Number),
    String(String),
}

/// The name of a value's kind.
pub open spec fn kind_of(l: Literal) -> &'static str {
    match l {
        Literal::Null => "null",
        Literal::Boolean(_) => "boolean",
        Literal::String(_) => "string",
        Literal::Number(n) => number_kind(n),
    }
}

/// The truth of a value: null is false, a number is true unless it is zero,
/// a string unless it is empty.
pub open spec fn truth_of(l: Literal) -> bool {
    match l {
        Literal::Null => false,
        Literal::Boolean(b) => b,
        Literal::Number(Number::Integer(i)) => i != 0,
        Literal::Number(Number::Float(f)) => !is_zero(f.bits),
        Literal::String(s) => s@.len() > 0,
    }
}

/// The integer a value converts to: none for null, a float rounded toward
/// zero, and an error for booleans and strings.
pub open spec fn integer_of(l: Literal) -> Result<Option<i64>, TypeError> {
    match l {
        Literal::Null => Ok(None),
        Literal::Number(Number::Integer(i)) => Ok(Some(i)),
        Literal::Number(Number::Float(f)) => Ok(Some(truncate_spec(f.bits))),
        _ => Err(TypeError::Conversion { expected: "integer", found: kind_of(l) }),
    }
}

/// The integer a value converts to, where null is an error too.
pub open spec fn non_null_integer_of(l: Literal) -> Result<i64, TypeError> {
    match integer_of(l) {
        Ok(Some(i)) => Ok(i),
        Ok(None) => Err(TypeError::Conversion { expected: "integer", found: "null" }),
        Err(e) => Err(e),
    }
}

/// The lexicographic order of two strings, by code point.
pub open spec fn str_cmp(a: Seq<char>, b: Seq<char>) -> Ordering
    decreases a.len(),
{
    if a.len() == 0 && b.len() == 0 {
        Ordering::Equal
    } else if a.len() == 0 {
        Ordering::Less
    } else if b.len() == 0 {
        Ordering::Greater
    } else if (a[0] as u32) < (b[0] as u32) {
        Ordering::Less
    } else if (a[0] as u32) > (b[0] as u32) {
        Ordering::Greater
    } else {
        str_cmp(a.drop_first(), b.drop_first())
    }
}

/// The order of two booleans, `false` first.
pub open spec fn bool_cmp(a: bool, b: bool) -> Ordering {
    if a == b {
        Ordering::Equal
    } else if !a {
        Ordering::Less
    } else {
        Ordering::Greater
    }
}

/// The order of two strings, by code point.
fn compare_strings(a: &str, b: &str) -> (r: Ordering)
    ensures
        r == str_cmp(a@, b@),
{
    let n = a.unicode_len();
    let m = b.unicode_len();
    let mut i: usize = 0;
    assert(a@.skip(0) =~= a@);
    assert(b@.skip(0) =~= b@);
    while i < n && i < m
        invariant
            n == a@.len(),
            m == b@.len(),
            i <= n,
            i <= m,
            str_cmp(a@, b@) == str_cmp(a@.skip(i as int), b@.skip(i as int)),
        decreases n - i,
    {
        let x = a.get_char(i) as u32;
        let y = b.get_char(i) as u32;
        if x < y {
            return Ordering::Less;
        } else if x > y {
            return Ordering::Greater;
        }
        assert(a@.skip(i as int).drop_first() =~= a@.skip(i + 1));
        assert(b@.skip(i as int).drop_first() =~= b@.skip(i + 1));
        i = i + 1;
    }
    if i == n && i == m {
        Ordering::Equal
    } else if i == n {
        Ordering::Less
    } else {
        Ordering::Greater
    }
}

/// The comparison of two values: values of one kind compare directly, a
/// boolean against a non-null value of another kind compares with that
/// value's truth, and any other pair is a comparison error. Numbers compare
/// as `Number::compare` does.
pub open spec fn cmp_result_ok(a: Literal, b: Literal, r: Result<Option<Ordering>, TypeError>) -> bool {
    match (a, b) {
        (Literal::Null, Literal::Null) => r == Ok::<Option<Ordering>, TypeError>(Some(Ordering::Equal)),
        (Literal::Boolean(x), Literal::Boolean(y)) => r == Ok::<Option<Ordering>, TypeError>(Some(bool_cmp(x, y))),
        (Literal::String(x), Literal::String(y)) => r == Ok::<Option<Ordering>, TypeError>(Some(str_cmp(x@, y@))),
        (Literal::Number(Number::Integer(x)), Literal::Number(Number::Integer(y))) => r == Ok::<
            Option<Ordering>,
            TypeError,
        >(Some(int_cmp(x as int, y as int))),
        (Literal::Number(Number::Float(x)), Literal::Number(Number::Float(y))) => r == Ok::<
            Option<Ordering>,
            TypeError,
        >(float_cmp(x.bits, y.bits)),
        (Literal::Number(_), Literal::Number(_)) => r is Ok,
        (Literal::Boolean(x), Literal::Null) => r == Err::<Option<Ordering>, TypeError>(
            TypeError::Comparison { a: "boolean", b: "null" },
        ),
        (Literal::Null, Literal::Boolean(y)) => r == Err::<Option<Ordering>, TypeError>(
            TypeError::Comparison { a: "null", b: "boolean" },
        ),
        (Literal::Boolean(x), _) => r == Ok::<Option<Ordering>, TypeError>(Some(bool_cmp(x, truth_of(b)))),
        (_, Literal::Boolean(y)) => r == Ok::<Option<Ordering>, TypeError>(Some(bool_cmp(truth_of(a), y))),
        _ => r == Err::<Option<Ordering>, TypeError>(
            TypeError::Comparison { a: kind_of(a), b: kind_of(b) },
        ),
    }
}

impl Literal {
    /// The name of the value's kind.
    pub fn kind(&self) -> (r: &'static str)
        ensures
            r == kind_of(*self),
    {
        match self {
            Literal::Null => "null",
            Literal::Boolean(_) => "boolean",
            Literal::String(_) => "string",
            Literal::Number(n) => n.kind(),
        }
    }

    /// The truth of the value; every value has one.
    pub fn as_boolean(&self) -> (r: Result<bool, TypeError>)
        ensures
            r == Ok::<bool, TypeError>(truth_of(*self)),
    {
        match self {
            Literal::Null => Ok(false),
            Literal::Boolean(b) => Ok(*b),
            Literal::Number(n) => match n {
                Number::Integer(i) => Ok(*i != 0),
                Number::Float(f) => Ok(!f.is_zero()),
            },
            Literal::String(s) => Ok(s.as_str().unicode_len() > 0),
        }
    }

    /// The integer the value converts to; none for null.
    pub fn as_integer(&self) -> (r: Result<Option<i64>, TypeError>)
        ensures
            r == integer_of(*self),
    {
        match self {
            Literal::Null => Ok(None),
            Literal::Number(n) => match n {
                Number::Integer(i) => Ok(Some(*i)),
                Number::Float(f) => Ok(Some(f.truncate())),
            },
            _ => Err(TypeError::Conversion { expected: "integer", found: self.kind() }),
        }
    }

    /// The integer the value converts to; null is an error.
    pub fn as_non_null_integer(&self) -> (r: Result<i64, TypeError>)
        ensures
            r == non_null_integer_of(*self),
    {
        match self.as_integer() {
            Ok(Some(i)) => Ok(i),
            Ok(None) => Err(TypeError::Conversion { expected: "integer", found: "null" }),
            Err(e) => Err(e),
        }
    }

    /// The string the value holds; none for null, an error for other kinds.
    pub fn as_string(&self) -> (r: Result<Option<&str>, TypeError>)
        ensures
            match *self {
                Literal::Null => r == Ok::<Option<&str>, TypeError>(None),
                Literal::String(s) => r is Ok && r->Ok_0 is Some && r->Ok_0->0@ == s@,
                _ => r == Err::<Option<&str>, TypeError>(
                    TypeError::Conversion { expected: "string", found: kind_of(*self) },
                ),
            },
    {
        match self {
            Literal::Null => Ok(None),
            Literal::String(s) => Ok(Some(s.as_str())),
            _ => Err(TypeError::Conversion { expected: "string", found: self.kind() }),
        }
    }

    /// The string the value holds; null is an error too.
    pub fn as_non_null_string(&self) -> (r: Result<&str, TypeError>)
        ensures
            match *self {
                Literal::Null => r == Err::<&str, TypeError>(
                    TypeError::Conversion { expected: "string", found: "null" },
                ),
                Literal::String(s) => r is Ok && r->Ok_0@ == s@,
                _ => r == Err::<&str, TypeError>(
                    TypeError::Conversion { expected: "string", found: kind_of(*self) },
                ),
            },
    {
        match self.as_string() {
            Ok(Some(s)) => Ok(s),
            Ok(None) => Err(TypeError::Conversion { expected: "string", found: "null" }),
            Err(e) => Err(e),
        }
    }

    /// Compares two values (see `cmp_result_ok`).
    pub fn try_partial_cmp<U: FloatArithmetic>(&self, other: &Literal, unit: &U) -> (r: Result<
        Option<Ordering>,
        TypeError,
    >)
        ensures
            cmp_result_ok(*self, *other, r),
    {
        match (self, other) {
            (Literal::Null, Literal::Null) => Ok(Some(Ordering::Equal)),
            (Literal::Boolean(a), Literal::Boolean(b)) => Ok(Some(compare_bools(*a, *b))),
            (Literal::String(a), Literal::String(b)) => Ok(
                Some(compare_strings(a.as_str(), b.as_str())),
            ),
            (Literal::Number(a), Literal::Number(b)) => Ok(a.compare(b, unit)),
            (Literal::Boolean(_), Literal::Null) | (Literal::Null, Literal::Boolean(_)) => Err(
                TypeError::Comparison { a: self.kind(), b: other.kind() },
            ),
            (Literal::Boolean(a), b) => {
                let t = match b.as_boolean() {
                    Ok(t) => t,
                    Err(e) => {
                        return Err(e);
                    },
                };
                Ok(Some(compare_bools(*a, t)))
            },
            (a, Literal::Boolean(b)) => {
                let t = match a.as_boolean() {
                    Ok(t) => t,
                    Err(e) => {
                        return Err(e);
                    },
                };
                Ok(Some(compare_bools(t, *b)))
            },
            _ => Err(TypeError::Comparison { a: self.kind(), b: other.kind() }),
        }
    }
}

/// The order of two booleans, `false` first.
fn compare_bools(a: bool, b: bool) -> (r: Ordering)
    ensures
        r == bool_cmp(a, b),
{
    if a == b {
        Ordering::Equal
    } else if !a {
        Ordering::Less
    } else {
        Ordering::Greater
    }
}

/// A number result as a value result.
pub open spec fn lift(r: Result<Number, TypeError>) -> Result<Literal, TypeError> {
    match r {
        Ok(n) => Ok(Literal::Number(n)),
        Err(e) => Err(e),
    }
}

/// The integer a boolean stands for in bitwise operations.
pub open spec fn bool_int(b: bool) -> i64 {
    if b { 1 } else { 0 }
}

/// The string repeated `n` times.
pub open spec fn repeat_seq(s: Seq<char>, n: nat) -> Seq<char>
    decreases n,
{
    if n == 0 {
        Seq::empty()
    } else {
        repeat_seq(s, (n - 1) as nat) + s
    }
}

/// What `Literal::try_add` gives.
pub open spec fn add_spec(a: Literal, b: Literal, r: Result<Literal, TypeError>) -> bool {
    match (a, b) {
        (Literal::Number(Number::Integer(x)), Literal::Number(Number::Integer(y))) => r == lift(
            checked_result(x.checked_add(y), "add"),
        ),
        (Literal::Number(_), Literal::Number(_)) => r matches Ok(
            Literal::Number(Number::Float(_)),
        ),
        (Literal::String(x), Literal::String(y)) => r matches Ok(Literal::String(z)) && z@ == x@
            + y@,
        _ => r == Err::<Literal, TypeError>(
            TypeError::BinaryOperator { operator: "add", a: kind_of(a), b: kind_of(b) },
        ),
    }
}

/// What `Literal::try_mul` gives.
pub open spec fn multiply_spec(a: Literal, b: Literal, r: Result<Literal, TypeError>) -> bool {
    match (a, b) {
        (Literal::Number(Number::Integer(x)), Literal::Number(Number::Integer(y))) => r == lift(
            checked_result(x.checked_mul(y), "multiply"),
        ),
        (Literal::Number(_), Literal::Number(_)) => r matches Ok(
            Literal::Number(Number::Float(_)),
        ),
        (Literal::String(x), Literal::Number(Number::Integer(n))) => if n < 0 {
            r == Err::<Literal, TypeError>(TypeError::Arithmetic { operator: "multiply" })
        } else {
            r matches Ok(Literal::String(z)) && z@ == repeat_seq(x@, n as nat)
        },
        _ => r == Err::<Literal, TypeError>(
            TypeError::BinaryOperator { operator: "multiply", a: kind_of(a), b: kind_of(b) },
        ),
    }
}

/// What `Literal::try_sub` gives.
pub open spec fn subtract_spec(a: Literal, b: Literal, r: Result<Literal, TypeError>) -> bool {
    match (a, b) {
        (Literal::Number(Number::Integer(x)), Literal::Number(Number::Integer(y))) => r == lift(
            checked_result(x.checked_sub(y), "subtract"),
        ),
        (Literal::Number(_), Literal::Number(_)) => r matches Ok(
            Literal::Number(Number::Float(_)),
        ),
        _ => r == Err::<Literal, TypeError>(
            TypeError::BinaryOperator { operator: "subtract", a: kind_of(a), b: kind_of(b) },
        ),
    }
}

/// What `Literal::try_div` gives.
pub open spec fn divide_spec(a: Literal, b: Literal, r: Result<Literal, TypeError>) -> bool {
    match (a, b) {
        (Literal::Number(Number::Integer(x)), Literal::Number(Number::Integer(y))) => r == lift(
            checked_result(x.checked_div(y), "divide"),
        ),
        (Literal::Number(_), Literal::Number(_)) => r matches Ok(
            Literal::Number(Number::Float(_)),
        ),
        _ => r == Err::<Literal, TypeError>(
            TypeError::BinaryOperator { operator: "divide", a: kind_of(a), b: kind_of(b) },
        ),
    }
}

/// What `Literal::try_modulo` gives.
pub open spec fn modulo_spec(a: Literal, b: Literal, r: Result<Literal, TypeError>) -> bool {
    match (a, b) {
        (Literal::Number(Number::Integer(x)), Literal::Number(Number::Integer(y))) => r == lift(
            checked_result(x.checked_rem(y), "modulo"),
        ),
        (Literal::Number(_), Literal::Number(_)) => r matches Ok(
            Literal::Number(Number::Float(_)),
        ),
        _ => r == Err::<Literal, TypeError>(
            TypeError::BinaryOperator { operator: "modulo", a: kind_of(a), b: kind_of(b) },
        ),
    }
}

/// What `Literal::try_pow` gives.
pub open spec fn power_spec(a: Literal, b: Literal, r: Result<Literal, TypeError>) -> bool {
    match (a, b) {
        (Literal::Number(Number::Integer(x)), Literal::Number(Number::Integer(y))) => r == lift(
            checked_result(int_pow(x, y), "power"),
        ),
        (Literal::Number(_), Literal::Number(_)) => r matches Ok(
            Literal::Number(Number::Float(_)),
        ),
        _ => r == Err::<Literal, TypeError>(
            TypeError::BinaryOperator { operator: "power", a: kind_of(a), b: kind_of(b) },
        ),
    }
}




/// What `Literal::try_neg` gives.
pub open spec fn negate_spec(a: Literal, r: Result<Literal, TypeError>) -> bool {
    match a {
        Literal::Number(Number::Integer(i)) => r == lift(
            checked_result((0i64).checked_sub(i), "negate"),
        ),
        Literal::Number(Number::Float(f)) => r matches Ok(Literal::Number(Number::Float(g)))
            && g.bits as int % 0x8000000000000000 == f.bits as int % 0x8000000000000000
            && sign_of(g.bits) != sign_of(f.bits),
        _ => r == Err::<Literal, TypeError>(
            TypeError::UnaryOperator { operator: "negate", kind: kind_of(a) },
        ),
    }
}


/// What `Literal::try_not` gives.
pub open spec fn bitwise_not_spec(a: Literal, r: Result<Literal, TypeError>) -> bool {
    match a {
        Literal::Boolean(b) => r == Ok::<Literal, TypeError>(Literal::Boolean(!b)),
        Literal::Number(Number::Integer(i)) => r == Ok::<Literal, TypeError>(
            Literal::Number(Number::Integer(!i)),
        ),
        _ => r == Err::<Literal, TypeError>(
            TypeError::UnaryOperator { operator: "bitwise not", kind: kind_of(a) },
        ),
    }
}

/// What `Literal::try_bitand` gives.
pub open spec fn bitwise_and_spec(a: Literal, b: Literal, r: Result<Literal, TypeError>) -> bool {
    match (a, b) {
        (Literal::Boolean(x), Literal::Boolean(y)) => r == Ok::<Literal, TypeError>(
            Literal::Boolean(x && y),
        ),
        (Literal::Number(Number::Integer(x)), Literal::Number(Number::Integer(y))) => r
            == Ok::<Literal, TypeError>(Literal::Number(Number::Integer(x & y))),
        (Literal::Number(Number::Integer(x)), Literal::Boolean(y)) => r == Ok::<
            Literal,
            TypeError,
        >(Literal::Number(Number::Integer(x & bool_int(y)))),
        (Literal::Boolean(x), Literal::Number(Number::Integer(y))) => r == Ok::<
            Literal,
            TypeError,
        >(Literal::Number(Number::Integer(y & bool_int(x)))),
        _ => r == Err::<Literal, TypeError>(
            TypeError::BinaryOperator { operator: "bitwise and", a: kind_of(a), b: kind_of(b) },
        ),
    }
}

/// What `Literal::try_bitor` gives.
pub open spec fn bitwise_or_spec(a: Literal, b: Literal, r: Result<Literal, TypeError>) -> bool {
    match (a, b) {
        (Literal::Boolean(x), Literal::Boolean(y)) => r == Ok::<Literal, TypeError>(
            Literal::Boolean(x || y),
        ),
        (Literal::Number(Number::Integer(x)), Literal::Number(Number::Integer(y))) => r
            == Ok::<Literal, TypeError>(Literal::Number(Number::Integer(x | y))),
        (Literal::Number(Number::Integer(x)), Literal::Boolean(y)) => r == Ok::<
            Literal,
            TypeError,
        >(Literal::Number(Number::Integer(x | bool_int(y)))),
        (Literal::Boolean(x), Literal::Number(Number::Integer(y))) => r == Ok::<
            Literal,
            TypeError,
        >(Literal::Number(Number::Integer(y | bool_int(x)))),
        _ => r == Err::<Literal, TypeError>(
            TypeError::BinaryOperator { operator: "bitwise or", a: kind_of(a), b: kind_of(b) },
        ),
    }
}

/// What `Literal::try_bitxor` gives.
pub open spec fn bitwise_xor_spec(a: Literal, b: Literal, r: Result<Literal, TypeError>) -> bool {
    match (a, b) {
        (Literal::Boolean(x), Literal::Boolean(y)) => r == Ok::<Literal, TypeError>(
            Literal::Boolean(x != y),
        ),
        (Literal::Number(Number::Integer(x)), Literal::Number(Number::Integer(y))) => r
            == Ok::<Literal, TypeError>(Literal::Number(Number::Integer(x ^ y))),
        (Literal::Number(Number::Integer(x)), Literal::Boolean(y)) => r == Ok::<
            Literal,
            TypeError,
        >(Literal::Number(Number::Integer(x ^ bool_int(y)))),
        (Literal::Boolean(x), Literal::Number(Number::Integer(y))) => r == Ok::<
            Literal,
            TypeError,
        >(Literal::Number(Number::Integer(y ^ bool_int(x)))),
        _ => r == Err::<Literal, TypeError>(
            TypeError::BinaryOperator { operator: "bitwise xor", a: kind_of(a), b: kind_of(b) },
        ),
    }
}

impl Literal {
    /// A copy of the value.
    pub fn duplicate(&self) -> (r: Literal)
        ensures
            r == *self,
    {
        match self {
            Literal::Null => Literal::Null,
            Literal::Boolean(b) => Literal::Boolean(*b),
            Literal::Number(n) => Literal::Number(*n),
            Literal::String(s) => Literal::String(s.clone()),
        }
    }

    /// The negation of a number; other kinds have none.
    pub fn try_neg(self) -> (r: Result<Literal, TypeError>)
        ensures
            negate_spec(self, r),
    {
        match self {
            Literal::Number(n) => match n.neg() {
                Ok(m) => Ok(Literal::Number(m)),
                Err(e) => Err(e),
            },
            _ => Err(TypeError::UnaryOperator { operator: "negate", kind: self.kind() }),
        }
    }

    /// The logical not of a boolean, or the bitwise complement of an integer.
    pub fn try_not(self) -> (r: Result<Literal, TypeError>)
        ensures
            bitwise_not_spec(self, r),
    {
        match self {
            Literal::Boolean(b) => Ok(Literal::Boolean(!b)),
            Literal::Number(Number::Integer(i)) => Ok(Literal::Number(Number::Integer(!i))),
            _ => Err(TypeError::UnaryOperator { operator: "bitwise not", kind: self.kind() }),
        }
    }

    /// The sum of two numbers, or the concatenation of two strings.
    pub fn try_add<U: FloatArithmetic>(self, other: Literal, unit: &U) -> (r: Result<Literal, TypeError>)
        ensures
            add_spec(self, other, r),
    {
        let ka = self.kind();
        let kb = other.kind();
        match (self, other) {
            (Literal::Number(a), Literal::Number(b)) => match a.add(b, unit) {
                Ok(n) => Ok(Literal::Number(n)),
                Err(e) => Err(e),
            },
            (Literal::String(a), Literal::String(b)) => Ok(Literal::String(a.concat(b.as_str()))),
            _ => Err(
                TypeError::BinaryOperator { operator: "add", a: ka, b: kb },
            ),
        }
    }

    /// The product of two numbers, or a string repeated a non-negative
    /// integer number of times.
    pub fn try_mul<U: FloatArithmetic>(self, other: Literal, unit: &U) -> (r: Result<Literal, TypeError>)
        ensures
            multiply_spec(self, other, r),
    {
        let ka = self.kind();
        let kb = other.kind();
        match (self, other) {
            (Literal::Number(a), Literal::Number(b)) => match a.mul(b, unit) {
                Ok(n) => Ok(Literal::Number(n)),
                Err(e) => Err(e),
            },
            (Literal::String(a), Literal::Number(Number::Integer(n))) => {
                if n < 0 {
                    return Err(TypeError::Arithmetic { operator: "multiply" });
                }
                let mut out = String::new();
                let mut k: i64 = 0;
                while k < n
                    invariant
                        0 <= k <= n,
                        out@ == repeat_seq(a@, k as nat),
                    decreases n - k,
                {
                    out.append(a.as_str());
                    k = k + 1;
                }
                Ok(Literal::String(out))
            },
            _ => Err(
                TypeError::BinaryOperator { operator: "multiply", a: ka, b: kb },
            ),
        }
    }

    /// The difference of two numbers.
    pub fn try_sub<U: FloatArithmetic>(self, other: Literal, unit: &U) -> (r: Result<Literal, TypeError>)
        ensures
            subtract_spec(self, other, r),
    {
        let ka = self.kind();
        let kb = other.kind();
        match (self, other) {
            (Literal::Number(a), Literal::Number(b)) => match a.sub(b, unit) {
                Ok(n) => Ok(Literal::Number(n)),
                Err(e) => Err(e),
            },
            _ => Err(
                TypeError::BinaryOperator { operator: "subtract", a: ka, b: kb },
            ),
        }
    }

    /// The quotient of two numbers; integers divide rounding toward zero.
    pub fn try_div<U: FloatArithmetic>(self, other: Literal, unit: &U) -> (r: Result<Literal, TypeError>)
        ensures
            divide_spec(self, other, r),
    {
        let ka = self.kind();
        let kb = other.kind();
        match (self, other) {
            (Literal::Number(a), Literal::Number(b)) => match a.div(b, unit) {
                Ok(n) => Ok(Literal::Number(n)),
                Err(e) => Err(e),
            },
            _ => Err(
                TypeError::BinaryOperator { operator: "divide", a: ka, b: kb },
            ),
        }
    }

    /// The remainder of two numbers, with the sign of the dividend.
    pub fn try_modulo<U: FloatArithmetic>(self, other: Literal, unit: &U) -> (r: Result<Literal, TypeError>)
        ensures
            modulo_spec(self, other, r),
    {
        let ka = self.kind();
        let kb = other.kind();
        match (self, other) {
            (Literal::Number(a), Literal::Number(b)) => match a.rem(b, unit) {
                Ok(n) => Ok(Literal::Number(n)),
                Err(e) => Err(e),
            },
            _ => Err(
                TypeError::BinaryOperator { operator: "modulo", a: ka, b: kb },
            ),
        }
    }

    /// A number raised to the power of another (see `Number::pow`).
    pub fn try_pow<U: FloatArithmetic>(self, other: Literal, unit: &U) -> (r: Result<Literal, TypeError>)
        ensures
            power_spec(self, other, r),
    {
        let ka = self.kind();
        let kb = other.kind();
        match (self, other) {
            (Literal::Number(a), Literal::Number(b)) => match a.pow(b, unit) {
                Ok(n) => Ok(Literal::Number(n)),
                Err(e) => Err(e),
            },
            _ => Err(
                TypeError::BinaryOperator { operator: "power", a: ka, b: kb },
            ),
        }
    }

    /// The logical and of booleans, or the bitwise and of integers, a boolean counting as 1 or 0 beside an integer.
    pub fn try_bitand(self, other: Literal) -> (r: Result<Literal, TypeError>)
        ensures
            bitwise_and_spec(self, other, r),
    {
        match (&self, &other) {
            (Literal::Boolean(a), Literal::Boolean(b)) => Ok(Literal::Boolean(*a && *b)),
            (Literal::Number(Number::Integer(a)), Literal::Number(Number::Integer(b))) => Ok(
                Literal::Number(Number::Integer(*a & *b)),
            ),
            (Literal::Number(Number::Integer(a)), Literal::Boolean(b)) => Ok(
                Literal::Number(Number::Integer(*a & if *b { 1i64 } else { 0i64 })),
            ),
            (Literal::Boolean(b), Literal::Number(Number::Integer(a))) => Ok(
                Literal::Number(Number::Integer(*a & if *b { 1i64 } else { 0i64 })),
            ),
            _ => Err(
                TypeError::BinaryOperator { operator: "bitwise and", a: self.kind(), b: other.kind() },
            ),
        }
    }

    /// The logical or of booleans, or the bitwise or of integers, a boolean counting as 1 or 0 beside an integer.
    pub fn try_bitor(self, other: Literal) -> (r: Result<Literal, TypeError>)
        ensures
            bitwise_or_spec(self, other, r),
    {
        match (&self, &other) {
            (Literal::Boolean(a), Literal::Boolean(b)) => Ok(Literal::Boolean(*a || *b)),
            (Literal::Number(Number::Integer(a)), Literal::Number(Number::Integer(b))) => Ok(
                Literal::Number(Number::Integer(*a | *b)),
            ),
            (Literal::Number(Number::Integer(a)), Literal::Boolean(b)) => Ok(
                Literal::Number(Number::Integer(*a | if *b { 1i64 } else { 0i64 })),
            ),
            (Literal::Boolean(b), Literal::Number(Number::Integer(a))) => Ok(
                Literal::Number(Number::Integer(*a | if *b { 1i64 } else { 0i64 })),
            ),
            _ => Err(
                TypeError::BinaryOperator { operator: "bitwise or", a: self.kind(), b: other.kind() },
            ),
        }
    }

    /// The exclusive or of booleans, or the bitwise exclusive or of integers, a boolean counting as 1 or 0 beside an integer.
    pub fn try_bitxor(self, other: Literal) -> (r: Result<Literal, TypeError>)
        ensures
            bitwise_xor_spec(self, other, r),
    {
        match (&self, &other) {
            (Literal::Boolean(a), Literal::Boolean(b)) => Ok(Literal::Boolean(*a != *b)),
            (Literal::Number(Number::Integer(a)), Literal::Number(Number::Integer(b))) => Ok(
                Literal::Number(Number::Integer(*a ^ *b)),
            ),
            (Literal::Number(Number::Integer(a)), Literal::Boolean(b)) => Ok(
                Literal::Number(Number::Integer(*a ^ if *b { 1i64 } else { 0i64 })),
            ),
            (Literal::Boolean(b), Literal::Number(Number::Integer(a))) => Ok(
                Literal::Number(Number::Integer(*a ^ if *b { 1i64 } else { 0i64 })),
            ),
            _ => Err(
                TypeError::BinaryOperator { operator: "bitwise xor", a: self.kind(), b: other.kind() },
            ),
        }
    }
}

/// The order of two comparisons read in opposite directions.
pub open spec fn reversed(o: Option<Ordering>) -> Option<Ordering> {
    match o {
        Some(Ordering::Less) => Some(Ordering::Greater),
        Some(Ordering::Greater) => Some(Ordering::Less),
        other => other,
    }
}

/// Float comparison follows IEEE-754: a NaN is unordered with everything,
/// itself included; the two zeros are equal; and comparing the other way
/// round reverses the result.
pub proof fn lemma_float_order(a: u64, b: u64)
    ensures
        is_nan(a) || is_nan(b) ==> float_cmp(a, b) is None,
        is_zero(a) && is_zero(b) ==> float_cmp(a, b) == Some(Ordering::Equal),
        float_cmp(b, a) == reversed(float_cmp(a, b)),
{
}

impl From<bool> for Number {
    fn from(b: bool) -> (r: Number) {
        Number::from_bool(b)
    }
}

impl vstd::std_specs::convert::FromSpecImpl<bool> for Number {
    open spec fn obeys_from_spec() -> bool {
        true
    }

    open spec fn from_spec(b: bool) -> Number {
        Number::Integer(if b { 1 } else { 0 })
    }
}

impl From<i64> for Number {
    fn from(v: i64) -> (r: Number) {
        Number::Integer(v as i64)
    }
}

impl vstd::std_specs::convert::FromSpecImpl<i64> for Number {
    open spec fn obeys_from_spec() -> bool {
        true
    }

    open spec fn from_spec(v: i64) -> Number {
        Number::Integer(v as i64)
    }
}

impl From<i32> for Number {
    fn from(v: i32) -> (r: Number) {
        Number::Integer(v as i64)
    }
}

impl vstd::std_specs::convert::FromSpecImpl<i32> for Number {
    open spec fn obeys_from_spec() -> bool {
        true
    }

    open spec fn from_spec(v: i32) -> Number {
        Number::Integer(v as i64)
    }
}

impl From<i16> for Number {
    fn from(v: i16) -> (r: Number) {
        Number::Integer(v as i64)
    }
}

impl vstd::std_specs::convert::FromSpecImpl<i16> for Number {
    open spec fn obeys_from_spec() -> bool {
        true
    }

    open spec fn from_spec(v: i16) -> Number {
        Number::Integer(v as i64)
    }
}

impl From<i8> for Number {
    fn from(v: i8) -> (r: Number) {
        Number::Integer(v as i64)
    }
}

impl vstd::std_specs::convert::FromSpecImpl<i8> for Number {
    open spec fn obeys_from_spec() -> bool {
        true
    }

    open spec fn from_spec(v: i8) -> Number {
        Number::Integer(v as i64)
    }
}

impl From<u32> for Number {
    fn from(v: u32) -> (r: Number) {
        Number::Integer(v as i64)
    }
}

impl vstd::std_specs::convert::FromSpecImpl<u32> for Number {
    open spec fn obeys_from_spec() -> bool {
        true
    }

    open spec fn from_spec(v: u32) -> Number {
        Number::Integer(v as i64)
    }
}

impl From<u16> for Number {
    fn from(v: u16) -> (r: Number) {
        Number::Integer(v as i64)
    }
}

impl vstd::std_specs::convert::FromSpecImpl<u16> for Number {
    open spec fn obeys_from_spec() -> bool {
        true
    }

    open spec fn from_spec(v: u16) -> Number {
        Number::Integer(v as i64)
    }
}

impl From<u8> for Number {
    fn from(v: u8) -> (r: Number) {
        Number::Integer(v as i64)
    }
}

impl vstd::std_specs::convert::FromSpecImpl<u8> for Number {
    open spec fn obeys_from_spec() -> bool {
        true
    }

    open spec fn from_spec(v: u8) -> Number {
        Number::Integer(v as i64)
    }
}

impl From<bool> for Literal {
    fn from(b: bool) -> (r: Literal) {
        Literal::Boolean(b)
    }
}

impl vstd::std_specs::convert::FromSpecImpl<bool> for Literal {
    open spec fn obeys_from_spec() -> bool {
        true
    }

    open spec fn from_spec(b: bool) -> Literal {
        Literal::Boolean(b)
    }
}

impl From<Number> for Literal {
    fn from(n: Number) -> (r: Literal) {
        Literal::Number(n)
    }
}

impl vstd::std_specs::convert::FromSpecImpl<Number> for Literal {
    open spec fn obeys_from_spec() -> bool {
        true
    }

    open spec fn from_spec(n: Number) -> Literal {
        Literal::Number(n)
    }
}

impl From<String> for Literal {
    fn from(s: String) -> (r: Literal) {
        Literal::String(s)
    }
}

impl vstd::std_specs::convert::FromSpecImpl<String> for Literal {
    open spec fn obeys_from_spec() -> bool {
        true
    }

    open spec fn from_spec(s: String) -> Literal {
        Literal::String(s)
    }
}

impl From<i64> for Literal {
    fn from(v: i64) -> (r: Literal) {
        Literal::Number(Number::Integer(v as i64))
    }
}

impl vstd::std_specs::convert::FromSpecImpl<i64> for Literal {
    open spec fn obeys_from_spec() -> bool {
        true
    }

    open spec fn from_spec(v: i64) -> Literal {
        Literal::Number(Number::Integer(v as i64))
    }
}

impl From<i32> for Literal {
    fn from(v: i32) -> (r: Literal) {
        Literal::Number(Number::Integer(v as i64))
    }
}

impl vstd::std_specs::convert::FromSpecImpl<i32> for Literal {
    open spec fn obeys_from_spec() -> bool {
        true
    }

    open spec fn from_spec(v: i32) -> Literal {
        Literal::Number(Number::Integer(v as i64))
    }
}

impl From<i16> for Literal {
    fn from(v: i16) -> (r: Literal) {
        Literal::Number(Number::Integer(v as i64))
    }
}

impl vstd::std_specs::convert::FromSpecImpl<i16> for Literal {
    open spec fn obeys_from_spec() -> bool {
        true
    }

    open spec fn from_spec(v: i16) -> Literal {
        Literal::Number(Number::Integer(v as i64))
    }
}

impl From<i8> for Literal {
    fn from(v: i8) -> (r: Literal) {
        Literal::Number(Number::Integer(v as i64))
    }
}

impl vstd::std_specs::convert::FromSpecImpl<i8> for Literal {
    open spec fn obeys_from_spec() -> bool {
        true
    }

    open spec fn from_spec(v: i8) -> Literal {
        Literal::Number(Number::Integer(v as i64))
    }
}

impl From<u32> for Literal {
    fn from(v: u32) -> (r: Literal) {
        Literal::Number(Number::Integer(v as i64))
    }
}

impl vstd::std_specs::convert::FromSpecImpl<u32> for Literal {
    open spec fn obeys_from_spec() -> bool {
        true
    }

    open spec fn from_spec(v: u32) -> Literal {
        Literal::Number(Number::Integer(v as i64))
    }
}

impl From<u16> for Literal {
    fn from(v: u16) -> (r: Literal) {
        Literal::Number(Number::Integer(v as i64))
    }
}

impl vstd::std_specs::convert::FromSpecImpl<u16> for Literal {
    open spec fn obeys_from_spec() -> bool {
        true
    }

    open spec fn from_spec(v: u16) -> Literal {
        Literal::Number(Number::Integer(v as i64))
    }
}

impl From<u8> for Literal {
    fn from(v: u8) -> (r: Literal) {
        Literal::Number(Number::Integer(v as i64))
    }
}

impl vstd::std_specs::convert::FromSpecImpl<u8> for Literal {
    open spec fn obeys_from_spec() -> bool {
        true
    }

    open spec fn from_spec(v: u8) -> Literal {
        Literal::Number(Number::Integer(v as i64))
    }
}

} // verus!
