//! Binary64 numbers, carried as their bit patterns.
//!
//! Prices, powers, energies and temperatures are IEEE 754 binary64 numbers. Arithmetic on them
//! rounds to nearest, ties to even, and is stated against the exact result: the magnitude of every
//! finite number is a whole multiple of 2^-1074.

use vstd::arithmetic::power2::{
    lemma2_to64, lemma2_to64_rest, lemma_pow2_adds, lemma_pow2_pos, lemma_pow2_unfold, pow2,
};
use vstd::prelude::*;

use crate::rounding::{
    is_floor, is_grid, lemma_grid_of_floor, lemma_nearest, lemma_pow2_le, lemma_round_exact,
    lemma_round_floor, lemma_shifted, nearest, on_grid, shifted, INFINITY_BITS, STEP,
};

verus! {

/// 2^63, the sign bit.
pub const SIGN_BIT: u64 = 0x8000_0000_0000_0000;

/// The bit pattern given to every result that is not a number.
pub const NAN_BITS: u64 = 0x7ff8_0000_0000_0000;

/// A binary64 number.
#[derive(Clone, Copy, Debug, PartialEq, Eq, Structural)]
pub struct Double {
    pub bits: u64,
}

impl Double {
    pub open spec fn negative(self) -> bool {
        self.bits >= SIGN_BIT
    }

    /// The bit pattern without the sign.
    pub open spec fn low(self) -> nat {
        (self.bits % SIGN_BIT) as nat
    }

    pub open spec fn is_nan(self) -> bool {
        self.low() > INFINITY_BITS
    }

    pub open spec fn is_infinite(self) -> bool {
        self.low() == INFINITY_BITS
    }

    pub open spec fn is_finite(self) -> bool {
        self.low() < INFINITY_BITS
    }

    /// The magnitude in units of 2^-1074.
    pub open spec fn magnitude(self) -> nat {
        let e = self.low() / STEP as nat;
        let f = self.low() % STEP as nat;
        if e == 0 {
            f
        } else {
            (f + STEP) as nat * pow2((e - 1) as nat)
        }
    }

    /// The value in units of 2^-1074.
    pub open spec fn scaled(self) -> int {
        if self.negative() {
            -(self.magnitude() as int)
        } else {
            self.magnitude() as int
        }
    }

    /// Orders all numbers that are not NaN; both zeros have the key 0.
    pub open spec fn key(self) -> int {
        if self.negative() {
            -(self.low() as int)
        } else {
            self.low() as int
        }
    }
}

/// The number with the given sign and sign-less bit pattern.
pub open spec fn with_sign(negative: bool, low: nat) -> Double {
    Double {
        bits: (if negative {
            SIGN_BIT + low
        } else {
            low as int
        }) as u64,
    }
}

pub open spec fn nan() -> Double {
    Double { bits: NAN_BITS }
}

/// The number nearest to `exact` units of 2^-1074; an exact zero has the given sign.
pub open spec fn rounded(exact: int, negative_zero: bool) -> Double {
    if exact > 0 {
        with_sign(false, nearest(exact as nat, 1))
    } else if exact < 0 {
        with_sign(true, nearest((-exact) as nat, 1))
    } else {
        with_sign(negative_zero, 0)
    }
}

/// `x + y`.
#[verifier::opaque]
pub open spec fn sum(x: Double, y: Double) -> Double {
    if x.is_nan() || y.is_nan() {
        nan()
    } else if x.is_infinite() && y.is_infinite() {
        if x.negative() == y.negative() {
            x
        } else {
            nan()
        }
    } else if x.is_infinite() {
        x
    } else if y.is_infinite() {
        y
    } else {
        rounded(x.scaled() + y.scaled(), x.negative() && y.negative())
    }
}

/// `-x`.
pub open spec fn opposite(x: Double) -> Double {
    with_sign(!x.negative(), x.low())
}

/// `x - y`.
pub open spec fn difference(x: Double, y: Double) -> Double {
    sum(x, opposite(y))
}

/// `x * y`.
#[verifier::opaque]
pub open spec fn product(x: Double, y: Double) -> Double {
    let negative = x.negative() != y.negative();
    if x.is_nan() || y.is_nan() {
        nan()
    } else if x.is_infinite() || y.is_infinite() {
        if x.low() == 0 || y.low() == 0 {
            nan()
        } else {
            with_sign(negative, INFINITY_BITS as nat)
        }
    } else {
        with_sign(negative, nearest(x.magnitude() * y.magnitude(), pow2(1074)))
    }
}

/// `x / y`.
#[verifier::opaque]
pub open spec fn quotient(x: Double, y: Double) -> Double {
    let negative = x.negative() != y.negative();
    if x.is_nan() || y.is_nan() {
        nan()
    } else if x.is_infinite() {
        if y.is_infinite() {
            nan()
        } else {
            with_sign(negative, INFINITY_BITS as nat)
        }
    } else if y.is_infinite() {
        with_sign(negative, 0)
    } else if y.low() == 0 {
        if x.low() == 0 {
            nan()
        } else {
            with_sign(negative, INFINITY_BITS as nat)
        }
    } else {
        with_sign(negative, nearest(x.magnitude() * pow2(1074), y.magnitude()))
    }
}

/// The number nearest to the integer `n`.
#[verifier::opaque]
pub open spec fn of_int(n: int) -> Double {
    if n >= 0 {
        with_sign(false, nearest(n as nat * pow2(1074), 1))
    } else {
        with_sign(true, nearest((-n) as nat * pow2(1074), 1))
    }
}

/// `x < y`.
#[verifier::opaque]
pub open spec fn less(x: Double, y: Double) -> bool {
    !x.is_nan() && !y.is_nan() && x.key() < y.key()
}

/// `x <= y`.
#[verifier::opaque]
pub open spec fn at_most(x: Double, y: Double) -> bool {
    !x.is_nan() && !y.is_nan() && x.key() <= y.key()
}

/// The integral part of the magnitude of `x`.
#[verifier::opaque]
pub open spec fn whole(x: Double) -> nat {
    x.magnitude() / pow2(1074)
}

/// The magnitude of `x` rounded up to an integer.
#[verifier::opaque]
pub open spec fn ceiling(x: Double) -> nat {
    if x.magnitude() % pow2(1074) == 0 {
        whole(x)
    } else {
        whole(x) + 1
    }
}

/// The magnitude of `x` rounded to the nearest integer, halves going up.
#[verifier::opaque]
pub open spec fn rounded_half_up(x: Double) -> nat {
    if 2 * (x.magnitude() % pow2(1074)) < pow2(1074) {
        whole(x)
    } else {
        whole(x) + 1
    }
}

/// `n` as an unsigned integer type with the given maximum holds it: what is not a number or below
/// zero becomes 0, what is too large becomes the maximum.
pub open spec fn saturated(x: Double, n: nat, max: nat) -> nat {
    if x.is_nan() || x.negative() {
        0
    } else if n > max {
        max
    } else {
        n
    }
}

/// A magnitude `n` with the sign of `x` as a 64-bit signed integer holds it.
pub open spec fn saturated_signed(x: Double, n: nat) -> int {
    if x.is_nan() {
        0
    } else if x.negative() {
        if n > 0x8000_0000_0000_0000 {
            -0x8000_0000_0000_0000
        } else {
            -(n as int)
        }
    } else if n > 0x7fff_ffff_ffff_ffff {
        0x7fff_ffff_ffff_ffff
    } else {
        n as int
    }
}

/// The larger of zero and `x`; zero where `x` is not a number.
pub open spec fn at_least_zero(x: Double) -> Double {
    if less(with_sign(false, 0), x) {
        x
    } else {
        with_sign(false, 0)
    }
}

/// 2 to the `n`.
fn two_to(n: u32) -> (p: u128)
    requires
        n <= 126,
    ensures
        p == pow2(n as nat),
        p > 0,
{
    let mut p: u128 = 1;
    let mut i: u32 = 0;
    proof {
        lemma2_to64();
    }
    while i < n
        invariant
            i <= n <= 126,
            p == pow2(i as nat),
        decreases n - i,
    {
        proof {
            lemma_pow2_unfold((i + 1) as nat);
            lemma_limits();
            lemma_pow2_le((i + 1) as nat, 126);
        }
        p = p * 2;
        i = i + 1;
    }
    proof {
        lemma_pow2_pos(n as nat);
    }
    p
}

/// Powers of two that fix the ranges used below.
proof fn lemma_limits()
    ensures
        pow2(0) == 1,
        pow2(12) == 0x1000,
        pow2(52) == STEP,
        pow2(53) == 2 * STEP,
        pow2(54) == 4 * STEP,
        pow2(63) == SIGN_BIT,
        pow2(64) == 0x1_0000_0000_0000_0000,
        pow2(126) == 0x4000_0000_0000_0000_0000_0000_0000_0000,
{
    lemma2_to64();
    lemma2_to64_rest();
    lemma_pow2_adds(63, 63);
    assert(0x8000_0000_0000_0000int * 0x8000_0000_0000_0000int
        == 0x4000_0000_0000_0000_0000_0000_0000_0000int);
}

/// The number of binary digits of `q`.
fn bit_length(q: u128) -> (len: u32)
    requires
        0 < q < 0x4000_0000_0000_0000_0000_0000_0000_0000,
    ensures
        1 <= len <= 126,
        pow2((len - 1) as nat) <= q < pow2(len as nat),
{
    let mut p: u128 = 1;
    let mut len: u32 = 0;
    proof {
        lemma_limits();
    }
    while p <= q
        invariant
            0 < q < 0x4000_0000_0000_0000_0000_0000_0000_0000,
            len <= 126,
            p == pow2(len as nat),
            len > 0 ==> pow2((len - 1) as nat) <= q,
            p > 0,
            len == 0 ==> p == 1,
        decreases 2 * q - p,
    {
        proof {
            lemma_pow2_unfold((len + 1) as nat);
            lemma_limits();
            if len >= 126 {
                lemma_pow2_le(126, len as nat);
            }
        }
        p = p * 2;
        len = len + 1;
    }
    len
}

/// Rounds `a / b`, given by its floor `q` in units of `2^k`, to the nearest number.
fn assemble(
    negative: bool,
    q: u128,
    inexact: bool,
    k: i32,
    Ghost(a): Ghost<nat>,
    Ghost(b): Ghost<nat>,
) -> (r: Double)
    requires
        b > 0,
        q < 0x4000_0000_0000_0000_0000_0000_0000_0000,
        -4000 <= k <= 4000,
        is_floor(a, b, k as int, q as nat, inexact),
        inexact ==> q >= 4 * STEP,
    ensures
        r == with_sign(negative, nearest(a, b)),
        nearest(a, b) <= INFINITY_BITS,
{
    proof {
        lemma_limits();
    }
    if q == 0 {
        proof {
            lemma_zero(a, b, k as int);
        }
        return Double {
            bits: if negative {
                SIGN_BIT
            } else {
                0
            },
        };
    }
    let len: u32 = bit_length(q);
    let top: i32 = len as i32 + k - 53;
    let g: i32 = if top > 0 {
        top
    } else {
        0
    };
    proof {
        lemma_grid_of_floor(a, b, k as int, q as nat, inexact, len as nat, g as nat);
        lemma_nearest(a, b, g as nat);
        if inexact && len <= 54 {
            lemma_pow2_le(len as nat, 54);
        }
    }
    let m: u128 = if g <= k {
        let up: u32 = (k - g) as u32;
        proof {
            lemma_round_exact(a, b, k as int, q as nat, g as nat);
            // q * 2^(k - g) has at most 53 bits.
            lemma_pow2_adds(len as nat, up as nat);
            lemma_pow2_le((len + up) as nat, 53);
            lemma_pow2_pos(up as nat);
            assert(q * pow2(up as nat) < pow2(len as nat) * pow2(up as nat)) by (nonlinear_arith)
                requires
                    q < pow2(len as nat),
                    pow2(up as nat) > 0,
            ;
        }
        q * two_to(up)
    } else {
        let down: u32 = (g - k) as u32;
        proof {
            lemma_round_floor(a, b, k as int, q as nat, inexact, g as nat);
        }
        if down > 126 {
            proof {
                lemma_pow2_le(127, down as nat);
                lemma_pow2_unfold(127);
                vstd::arithmetic::div_mod::lemma_small_mod(q as nat, pow2(down as nat));
                vstd::arithmetic::div_mod::lemma_basic_div(q as int, pow2(down as nat) as int);
            }
            0
        } else {
            let p: u128 = two_to(down);
            let w: u128 = q / p;
            let t: u128 = q % p;
            if t > p - t || (t == p - t && (inexact || w % 2 == 1)) {
                w + 1
            } else {
                w
            }
        }
    };
    proof {
        lemma_steps_bound(a, b, g as nat);
    }
    let bits: u128 = g as u128 * STEP as u128 + m;
    let low: u64 = if bits < INFINITY_BITS as u128 {
        bits as u64
    } else {
        INFINITY_BITS
    };
    Double {
        bits: if negative {
            SIGN_BIT + low
        } else {
            low
        },
    }
}

/// Zero rounds to zero.
proof fn lemma_zero(a: nat, b: nat, k: int)
    requires
        b > 0,
        is_floor(a, b, k, 0, false),
    ensures
        a == 0,
        nearest(a, b) == 0,
{
    let n = shifted(a, -k);
    assert(0 * shifted(b, k) == 0);
    assert(a == 0) by {
        if -k > 0 {
            lemma_pow2_pos((-k) as nat);
            assert(a == 0) by (nonlinear_arith)
                requires
                    a * pow2((-k) as nat) == 0,
                    pow2((-k) as nat) > 0,
            ;
        }
    }
    lemma_nearest_zero(b);
}

pub proof fn lemma_nearest_zero(b: nat)
    requires
        b > 0,
    ensures
        nearest(0, b) == 0,
{
    lemma_pow2_pos(53);
    lemma_pow2_pos(0);
    assert(b * pow2(53) > 0) by (nonlinear_arith)
        requires
            b > 0,
            pow2(53) > 0,
    ;
    assert(is_grid(0, b, 0));
    lemma_nearest(0, b, 0);
    assert(b * pow2(0) > 0) by (nonlinear_arith)
        requires
            b > 0,
            pow2(0) > 0,
    ;
    vstd::arithmetic::div_mod::lemma_small_mod(0, b * pow2(0));
    vstd::arithmetic::div_mod::lemma_basic_div(0, (b * pow2(0)) as int);
}

/// A rounded value is at most 2^53 steps.
proof fn lemma_steps_bound(a: nat, b: nat, g: nat)
    requires
        b > 0,
        is_grid(a, b, g),
    ensures
        on_grid(a, b, g) <= 2 * STEP,
{
    let den = b * pow2(g);
    lemma_limits();
    lemma_pow2_pos(g);
    lemma_pow2_adds(g, 53);
    assert(den > 0) by (nonlinear_arith)
        requires
            b > 0,
            pow2(g) > 0,
            den == b * pow2(g),
    ;
    assert(a < den * pow2(53)) by (nonlinear_arith)
        requires
            a < b * pow2(g + 53),
            pow2(g + 53) == pow2(g) * pow2(53),
            den == b * pow2(g),
    ;
    vstd::arithmetic::div_mod::lemma_multiply_divide_lt(a as int, den as int, pow2(53) as int);
    assert(a / den < pow2(53));
    assert((a / den) % 2 <= 1);
}

/// The floor of an exact quotient of powers of two.
proof fn lemma_floor_exact(a: nat, b: nat, k: int, q: nat)
    requires
        b > 0,
        shifted(a, -k) == q * shifted(b, k),
    ensures
        is_floor(a, b, k, q, false),
{
    let d = shifted(b, k);
    assert(d > 0) by {
        if k > 0 {
            lemma_pow2_pos(k as nat);
            assert(b * pow2(k as nat) > 0) by (nonlinear_arith)
                requires
                    b > 0,
                    pow2(k as nat) > 0,
            ;
        }
    }
    assert(q * d < (q + 1) * d) by (nonlinear_arith)
        requires
            d > 0,
    ;
}

impl Double {
    /// Whether this is neither infinite nor NaN.
    pub fn is_finite_number(self) -> (r: bool)
        ensures
            r == self.is_finite(),
    {
        self.bits % SIGN_BIT < INFINITY_BITS
    }

    /// Whether this is not a number.
    pub fn is_nan_number(self) -> (r: bool)
        ensures
            r == self.is_nan(),
    {
        self.bits % SIGN_BIT > INFINITY_BITS
    }

    /// Sign, significand and exponent of a finite number.
    fn parts(self) -> (r: (u64, u32))
        requires
            self.is_finite(),
        ensures
            self.magnitude() == r.0 * pow2(r.1 as nat),
            r.0 < 2 * STEP,
            r.1 > 0 ==> r.0 >= STEP,
            r.1 <= 2045,
            r.0 == 0 <==> self.low() == 0,
            self.magnitude() == 0 <==> self.low() == 0,
    {
        let low: u64 = self.bits % SIGN_BIT;
        let e: u64 = low / STEP;
        let f: u64 = low % STEP;
        proof {
            lemma_limits();
        }
        if e == 0 {
            assert(f * 1 == f);
            (f, 0)
        } else {
            proof {
                lemma_pow2_pos((e - 1) as nat);
                assert((f + STEP) * pow2((e - 1) as nat) > 0) by (nonlinear_arith)
                    requires
                        f + STEP > 0,
                        pow2((e - 1) as nat) > 0,
                ;
            }
            (f + STEP, (e - 1) as u32)
        }
    }

    /// `-x`.
    pub fn negated(self) -> (r: Double)
        ensures
            r == opposite(self),
    {
        if self.bits >= SIGN_BIT {
            Double { bits: self.bits - SIGN_BIT }
        } else {
            Double { bits: self.bits + SIGN_BIT }
        }
    }

    /// `x * y`.
    pub fn times(self, y: Double) -> (r: Double)
        ensures
            r == product(self, y),
    {
        proof {
            reveal(product);
        }
        let negative: bool = (self.bits >= SIGN_BIT) != (y.bits >= SIGN_BIT);
        let xl: u64 = self.bits % SIGN_BIT;
        let yl: u64 = y.bits % SIGN_BIT;
        if xl > INFINITY_BITS || yl > INFINITY_BITS {
            return Double { bits: NAN_BITS };
        }
        if xl == INFINITY_BITS || yl == INFINITY_BITS {
            if xl == 0 || yl == 0 {
                return Double { bits: NAN_BITS };
            }
            return signed_bits(negative, INFINITY_BITS);
        }
        let (m, e) = self.parts();
        let (n, f) = y.parts();
        let q: u128 = checked_product(m, n);
        let k: i32 = e as i32 + f as i32 - 1074;
        let ghost a = self.magnitude() * y.magnitude();
        proof {
            lemma_product_floor(m as nat, e as nat, n as nat, f as nat, k as int);
        }
        assemble(negative, q, false, k, Ghost(a), Ghost(pow2(1074)))
    }

    /// `x / y`.
    pub fn over(self, y: Double) -> (r: Double)
        ensures
            r == quotient(self, y),
    {
        proof {
            reveal(quotient);
        }
        let negative: bool = (self.bits >= SIGN_BIT) != (y.bits >= SIGN_BIT);
        let xl: u64 = self.bits % SIGN_BIT;
        let yl: u64 = y.bits % SIGN_BIT;
        if xl > INFINITY_BITS || yl > INFINITY_BITS {
            return Double { bits: NAN_BITS };
        }
        if xl == INFINITY_BITS {
            if yl == INFINITY_BITS {
                return Double { bits: NAN_BITS };
            }
            return signed_bits(negative, INFINITY_BITS);
        }
        if yl == INFINITY_BITS {
            return signed_bits(negative, 0);
        }
        if yl == 0 {
            if xl == 0 {
                return Double { bits: NAN_BITS };
            }
            return signed_bits(negative, INFINITY_BITS);
        }
        let (m, e) = self.parts();
        let (n, f) = y.parts();
        if m == 0 {
            proof {
                lemma_nearest_zero(y.magnitude());
                assert(0 * pow2(1074) == 0);
            }
            return signed_bits(negative, 0);
        }
        let (mm, z) = normalized(m);
        let num: u128 = mm as u128 * 0x1_0000_0000_0000_0000;
        let q: u128 = num / n as u128;
        let rem: u128 = num % n as u128;
        let k: i32 = e as i32 - z as i32 - 64 - f as i32 + 1074;
        let ghost a = self.magnitude() * pow2(1074);
        let ghost b = y.magnitude();
        proof {
            lemma_limits();
            vstd::arithmetic::div_mod::lemma_fundamental_div_mod(num as int, n as int);
            lemma_quotient_floor(
                m as nat,
                e as nat,
                z as nat,
                n as nat,
                f as nat,
                k as int,
                q as nat,
                rem as nat,
            );
            assert(q >= 4 * STEP) by (nonlinear_arith)
                requires
                    num == n * q + rem,
                    rem < n,
                    num >= 0x10_0000_0000_0000 * 0x1_0000_0000_0000_0000,
                    n < 0x20_0000_0000_0000,
            ;
            vstd::arithmetic::div_mod::lemma_div_nonincreasing(num as int, n as int);
        }
        assemble(negative, q, rem != 0, k, Ghost(a), Ghost(b))
    }

    /// `x + y`.
    pub fn plus(self, y: Double) -> (r: Double)
        ensures
            r == sum(self, y),
    {
        proof {
            reveal(sum);
        }
        let xn: bool = self.bits >= SIGN_BIT;
        let yn: bool = y.bits >= SIGN_BIT;
        let xl: u64 = self.bits % SIGN_BIT;
        let yl: u64 = y.bits % SIGN_BIT;
        if xl > INFINITY_BITS || yl > INFINITY_BITS {
            return Double { bits: NAN_BITS };
        }
        if xl == INFINITY_BITS {
            if yl == INFINITY_BITS && xn != yn {
                return Double { bits: NAN_BITS };
            }
            return self;
        }
        if yl == INFINITY_BITS {
            return y;
        }
        let (m, e) = self.parts();
        let (n, f) = y.parts();
        if e >= f {
            add_ordered(xn, m, e, yn, n, f)
        } else {
            add_ordered(yn, n, f, xn, m, e)
        }
    }

    /// `x - y`.
    pub fn minus(self, y: Double) -> (r: Double)
        ensures
            r == difference(self, y),
    {
        self.plus(y.negated())
    }

    /// Positive zero.
    pub fn zero() -> (r: Double)
        ensures
            r == with_sign(false, 0),
    {
        Double { bits: 0 }
    }

    /// The number nearest to `n`.
    pub fn of_u64(n: u64) -> (r: Double)
        ensures
            r == of_int(n as int),
    {
        proof {
            reveal(of_int);
        }
        let ghost a = n as nat * pow2(1074);
        proof {
            lemma_pow2_pos(1074);
            lemma_shifted(1, 1074);
            lemma_shifted(a, 1074);
            lemma_floor_exact(a, 1, 1074, n as nat);
        }
        assemble(false, n as u128, false, 1074, Ghost(a), Ghost(1nat))
    }

    /// The number nearest to `n`.
    pub fn of_i64(n: i64) -> (r: Double)
        ensures
            r == of_int(n as int),
    {
        proof {
            reveal(of_int);
        }
        if n >= 0 {
            Double::of_u64(n as u64)
        } else {
            let m: u64 = if n == i64::MIN {
                0x8000_0000_0000_0000
            } else {
                (-n) as u64
            };
            let r: Double = Double::of_u64(m);
            proof {
                lemma_nearest_bound(m as nat * pow2(1074), 1);
            }
            r.negated()
        }
    }

    /// The number nearest to `n`.
    pub fn of_i128(n: i128) -> (r: Double)
        requires
            -0x4000_0000_0000_0000_0000_0000_0000_0000 < n
                < 0x4000_0000_0000_0000_0000_0000_0000_0000,
        ensures
            r == of_int(n as int),
    {
        proof {
            reveal(of_int);
        }
        let m: u128 = if n >= 0 {
            n as u128
        } else {
            (-n) as u128
        };
        let ghost a = m as nat * pow2(1074);
        proof {
            lemma_pow2_pos(1074);
            lemma_shifted(1, 1074);
            lemma_shifted(a, 1074);
            lemma_floor_exact(a, 1, 1074, m as nat);
        }
        assemble(n < 0, m, false, 1074, Ghost(a), Ghost(1nat))
    }

    /// `x < y`.
    pub fn lt(self, y: Double) -> (r: bool)
        ensures
            r == less(self, y),
    {
        proof {
            reveal(less);
        }
        !self.is_nan_number() && !y.is_nan_number() && self.ordering_key() < y.ordering_key()
    }

    /// `x <= y`.
    pub fn le(self, y: Double) -> (r: bool)
        ensures
            r == at_most(self, y),
    {
        proof {
            reveal(at_most);
        }
        !self.is_nan_number() && !y.is_nan_number() && self.ordering_key() <= y.ordering_key()
    }

    /// Whether the order key of this number is below that of `y`.
    pub fn key_below(self, y: Double) -> (r: bool)
        ensures
            r == (self.key() < y.key()),
    {
        self.ordering_key() < y.ordering_key()
    }

    fn ordering_key(self) -> (r: i64)
        ensures
            r == self.key(),
    {
        if self.bits >= SIGN_BIT {
            -((self.bits - SIGN_BIT) as i64)
        } else {
            self.bits as i64
        }
    }

    /// The larger of zero and `x`; zero where `x` is not a number.
    pub fn max_zero(self) -> (r: Double)
        ensures
            r == at_least_zero(self),
    {
        if Double::zero().lt(self) {
            self
        } else {
            Double::zero()
        }
    }

    /// The integral part of the magnitude, capped at the maximum of 64 bits, and whether what is
    /// left is more than nothing and at least a half.
    fn split(self) -> (r: (u64, bool, bool))
        requires
            !self.is_nan(),
        ensures
            whole(self) <= u64::MAX ==> {
                &&& r.0 == whole(self)
                &&& r.1 == (self.magnitude() % pow2(1074) != 0)
                &&& r.2 == (2 * (self.magnitude() % pow2(1074)) >= pow2(1074))
            },
            whole(self) > u64::MAX ==> r.0 == u64::MAX && !r.1 && !r.2,
    {
        proof {
            reveal(whole);
        }
        proof {
            lemma_limits();
            lemma_pow2_pos(1074);
        }
        if self.bits % SIGN_BIT == INFINITY_BITS {
            proof {
                assert(self.low() / STEP as nat == 2047);
                assert(self.low() % STEP as nat == 0);
                lemma_large_whole(STEP as nat, 2046);
            }
            return (u64::MAX, false, false);
        }
        let (m, e) = self.parts();
        if e >= 1074 {
            let d: u32 = e - 1074;
            proof {
                lemma_pow2_adds(d as nat, 1074);
                assert(m * pow2(e as nat) == (m * pow2(d as nat)) * pow2(1074)) by (nonlinear_arith)
                    requires
                        pow2(e as nat) == pow2(d as nat) * pow2(1074),
                ;
                vstd::arithmetic::div_mod::lemma_fundamental_div_mod_converse(
                    (m * pow2(e as nat)) as int,
                    pow2(1074) as int,
                    (m * pow2(d as nat)) as int,
                    0,
                );
            }
            if d >= 12 {
                proof {
                    lemma_large_whole(m as nat, e as nat);
                }
                return (u64::MAX, false, false);
            }
            let r: u128 = shift_up(m, d);
            proof {
                lemma2_to64();
                lemma_pow2_le(d as nat, 11);
                assert(m * pow2(d as nat) <= 0x1f_ffff_ffff_ffff * 0x800int) by (nonlinear_arith)
                    requires
                        m <= 0x1f_ffff_ffff_ffff,
                        pow2(d as nat) <= 0x800,
                ;
            }
            (r as u64, false, false)
        } else {
            let d: u32 = 1074 - e;
            let ghost c = pow2(e as nat);
            let ghost p = pow2(d as nat);
            proof {
                lemma_pow2_pos(e as nat);
                lemma_pow2_pos(d as nat);
                lemma_pow2_adds(d as nat, e as nat);
                crate::rounding::lemma_div_scale(m as nat, p, c);
                let t = m as nat % p;
                assert((t * c != 0) == (t != 0)) by (nonlinear_arith)
                    requires
                        c > 0,
                ;
                assert((2 * (t * c) >= p * c) == (2 * t >= p)) by (nonlinear_arith)
                    requires
                        c > 0,
                ;
            }
            if d > 63 {
                proof {
                    lemma_pow2_le(64, d as nat);
                    vstd::arithmetic::div_mod::lemma_small_mod(m as nat, p);
                    vstd::arithmetic::div_mod::lemma_basic_div(m as int, p as int);
                }
                return (0, m != 0, false);
            }
            let q: u128 = two_to(d);
            let w: u128 = m as u128 / q;
            let t: u128 = m as u128 % q;
            (w as u64, t != 0, t >= q - t)
        }
    }

    /// The number truncated to 8 bits, saturating.
    pub fn truncated_u8(self) -> (r: u8)
        ensures
            r == saturated(self, whole(self), 255),
    {
        proof {
            reveal(whole);
            reveal(ceiling);
            reveal(rounded_half_up);
        }
        if self.is_nan_number() || self.bits >= SIGN_BIT {
            return 0;
        }
        let (w, _, _) = self.split();
        if w > 255 {
            255
        } else {
            w as u8
        }
    }

    /// The number rounded up, as 8 bits hold it.
    pub fn ceiling_u8(self) -> (r: u8)
        ensures
            r == saturated(self, ceiling(self), 255),
    {
        proof {
            reveal(whole);
            reveal(ceiling);
            reveal(rounded_half_up);
        }
        if self.is_nan_number() || self.bits >= SIGN_BIT {
            return 0;
        }
        let (w, some, _) = self.split();
        if w > 254 {
            255
        } else if some {
            (w + 1) as u8
        } else {
            w as u8
        }
    }

    /// The number rounded to the nearest integer and limited to 0 through 100.
    pub fn percent(self) -> (r: u8)
        ensures
            r == saturated(self, rounded_half_up(self), 100),
    {
        proof {
            reveal(whole);
            reveal(ceiling);
            reveal(rounded_half_up);
        }
        if self.is_nan_number() || self.bits >= SIGN_BIT {
            return 0;
        }
        let (w, _, half) = self.split();
        if w > 99 {
            100
        } else if half {
            (w + 1) as u8
        } else {
            w as u8
        }
    }

    /// The number rounded down, as an unsigned integer that 64 bits hold.
    pub fn floor_u64(self) -> (r: u64)
        ensures
            r == saturated(self, whole(self), u64::MAX as nat),
    {
        proof {
            reveal(whole);
            reveal(ceiling);
            reveal(rounded_half_up);
        }
        if self.is_nan_number() || self.bits >= SIGN_BIT {
            return 0;
        }
        let (w, _, _) = self.split();
        w
    }

    /// The number rounded up, as an unsigned integer that 64 bits hold.
    pub fn ceiling_u64(self) -> (r: u64)
        ensures
            r == saturated(self, ceiling(self), u64::MAX as nat),
    {
        proof {
            reveal(whole);
            reveal(ceiling);
            reveal(rounded_half_up);
        }
        if self.is_nan_number() || self.bits >= SIGN_BIT {
            return 0;
        }
        let (w, some, _) = self.split();
        if some && w < u64::MAX {
            w + 1
        } else {
            w
        }
    }

    /// The number truncated toward zero, as a signed integer that 64 bits hold.
    pub fn truncated_i64(self) -> (r: i64)
        ensures
            r == saturated_signed(self, whole(self)),
    {
        proof {
            reveal(whole);
            reveal(ceiling);
            reveal(rounded_half_up);
        }
        if self.is_nan_number() {
            return 0;
        }
        let (w, _, _) = self.split();
        signed_limit(self.bits >= SIGN_BIT, w)
    }

    /// The number rounded to the nearest integer, halves going away from zero, as a signed integer
    /// that 64 bits hold.
    pub fn rounded_i64(self) -> (r: i64)
        ensures
            r == saturated_signed(self, rounded_half_up(self)),
    {
        proof {
            reveal(whole);
            reveal(ceiling);
            reveal(rounded_half_up);
        }
        if self.is_nan_number() {
            return 0;
        }
        let (w, _, half) = self.split();
        let n: u64 = if half && w < u64::MAX {
            w + 1
        } else {
            w
        };
        signed_limit(self.bits >= SIGN_BIT, n)
    }
}

/// `w` with the given sign, limited to 64 bits.
fn signed_limit(negative: bool, w: u64) -> (r: i64)
    ensures
        negative ==> r == (if w > 0x8000_0000_0000_0000 {
            -0x8000_0000_0000_0000
        } else {
            -(w as int)
        }),
        !negative ==> r == (if w > 0x7fff_ffff_ffff_ffff {
            0x7fff_ffff_ffff_ffff
        } else {
            w as int
        }),
{
    if negative {
        if w >= 0x8000_0000_0000_0000 {
            i64::MIN
        } else {
            -(w as i64)
        }
    } else if w > 0x7fff_ffff_ffff_ffff {
        i64::MAX
    } else {
        w as i64
    }
}

proof fn lemma_large_whole(m: nat, e: nat)
    requires
        m >= STEP,
        e >= 1074 + 12,
    ensures
        (m * pow2(e)) / pow2(1074) > u64::MAX,
{
    let d = (e - 1074) as nat;
    lemma_limits();
    lemma_pow2_pos(1074);
    lemma_pow2_adds(d, 1074);
    lemma_pow2_le(12, d);
    assert(m * pow2(e) == (m * pow2(d)) * pow2(1074)) by (nonlinear_arith)
        requires
            pow2(e) == pow2(d) * pow2(1074),
    ;
    vstd::arithmetic::div_mod::lemma_fundamental_div_mod_converse(
        (m * pow2(e)) as int,
        pow2(1074) as int,
        (m * pow2(d)) as int,
        0,
    );
    assert(m * pow2(d) >= 0x10_0000_0000_0000 * 0x1000int) by (nonlinear_arith)
        requires
            m >= 0x10_0000_0000_0000,
            pow2(d) >= 0x1000,
    ;
}

pub proof fn lemma_nearest_bound(a: nat, b: nat)
    ensures
        nearest(a, b) <= INFINITY_BITS,
{
}

/// `x` with the given sign.
spec fn signed_int(negative: bool, x: nat) -> int {
    if negative {
        -(x as int)
    } else {
        x as int
    }
}

/// Adds two signed significands, the first with the larger exponent.
fn add_ordered(xn: bool, m: u64, e: u32, yn: bool, n: u64, f: u32) -> (r: Double)
    requires
        m < 2 * STEP,
        n < 2 * STEP,
        f <= e <= 2045,
        e > 0 ==> m >= STEP,
    ensures
        r == rounded(
            signed_int(xn, m as nat * pow2(e as nat)) + signed_int(yn, n as nat * pow2(f as nat)),
            xn && yn,
        ),
{
    let d: u32 = e - f;
    let ghost x = m as nat * pow2(e as nat);
    let ghost y = n as nat * pow2(f as nat);
    let ghost unit = pow2(f as nat);
    proof {
        lemma_limits();
        lemma_pow2_pos(f as nat);
    }
    if d <= 64 {
        let hi: u128 = shift_up(m, d);
        let lo: u128 = n as u128;
        proof {
            lemma_pow2_adds(d as nat, f as nat);
            assert(x == hi * unit) by (nonlinear_arith)
                requires
                    x == m * pow2(e as nat),
                    hi == m * pow2(d as nat),
                    pow2(e as nat) == pow2(d as nat) * unit,
            ;
            assert(hi * unit + lo * unit == (hi + lo) * unit) by (nonlinear_arith);
            assert(hi * unit - lo * unit == (hi - lo) * unit) by (nonlinear_arith);
            assert(lo * unit - hi * unit == (lo - hi) * unit) by (nonlinear_arith);
        }
        let (negative, s): (bool, u128) = if xn == yn {
            (xn, hi + lo)
        } else if hi >= lo {
            (xn, hi - lo)
        } else {
            (yn, lo - hi)
        };
        if s == 0 {
            assert(0 * unit == 0);
            return signed_bits(xn && yn, 0);
        }
        proof {
            assert(s * unit > 0) by (nonlinear_arith)
                requires
                    s > 0,
                    unit > 0,
            ;
            lemma_shifted(1, f as nat);
            lemma_shifted(s as nat * unit, f as nat);
            lemma_floor_exact(s as nat * unit, 1, f as int, s as nat);
        }
        assemble(negative, s, false, f as i32, Ghost(s as nat * unit), Ghost(1nat))
    } else {
        // The smaller operand is less than one unit of the 13th bit below the larger one.
        let top: u128 = m as u128 * 0x1000;
        let q: u128 = if xn == yn || n == 0 {
            top
        } else {
            top - 1
        };
        let k: i32 = e as i32 - 12;
        let ghost a = if xn == yn {
            x + y
        } else {
            (x - y) as nat
        };
        proof {
            let w = pow2(k as nat);
            lemma_pow2_pos(k as nat);
            lemma_pow2_adds(12, k as nat);
            assert(12 + k as nat == e as nat);
            assert(x == top * w) by (nonlinear_arith)
                requires
                    x == m * pow2(e as nat),
                    top == m * 0x1000,
                    pow2(e as nat) == 0x1000 * w,
            ;
            lemma_pow2_adds(53, f as nat);
            lemma_pow2_le(53 + f as nat, k as nat);
            assert(y < w) by (nonlinear_arith)
                requires
                    y == n * unit,
                    n < 0x20_0000_0000_0000,
                    0x20_0000_0000_0000 * unit <= w,
                    unit > 0,
            ;
            assert(n > 0 ==> y > 0) by (nonlinear_arith)
                requires
                    y == n * unit,
                    unit > 0,
            ;
            assert(n == 0 ==> y == 0) by (nonlinear_arith)
                requires
                    y == n * unit,
            ;
            assert(top * w >= w) by (nonlinear_arith)
                requires
                    top >= 1,
                    w > 0,
            ;
            assert((top - 1) * w == top * w - w) by (nonlinear_arith);
            assert((top + 1) * w == top * w + w) by (nonlinear_arith);
            lemma_shifted(1, k as nat);
            lemma_shifted(a, k as nat);
            assert(is_floor(a, 1, k as int, q as nat, n != 0));
        }
        assemble(xn, q, n != 0, k, Ghost(a), Ghost(1nat))
    }
}

/// `m * 2^d`.
fn shift_up(m: u64, d: u32) -> (r: u128)
    requires
        m < 2 * STEP,
        d <= 64,
    ensures
        r == m * pow2(d as nat),
        r < 0x20_0000_0000_0000_0000_0000_0000_0000,
{
    let p: u128 = two_to(d);
    proof {
        lemma_limits();
        lemma_pow2_le(d as nat, 64);
        assert(m * p <= 0x1f_ffff_ffff_ffff * 0x1_0000_0000_0000_0000int) by (nonlinear_arith)
            requires
                m <= 0x1f_ffff_ffff_ffff,
                0 <= p <= 0x1_0000_0000_0000_0000,
        ;
    }
    m as u128 * p
}

/// `m` doubled until its 53rd bit is set, and how often that was.
fn normalized(m: u64) -> (r: (u64, u32))
    requires
        0 < m < 2 * STEP,
    ensures
        STEP <= r.0 < 2 * STEP,
        r.1 <= 52,
        r.0 == m * pow2(r.1 as nat),
{
    let mut mm: u64 = m;
    let mut z: u32 = 0;
    proof {
        lemma_limits();
        assert(m * 1 == m);
    }
    while mm < STEP
        invariant
            0 < m,
            0 < mm < 2 * STEP,
            mm == m * pow2(z as nat),
            mm >= pow2(z as nat),
            z <= 52,
        decreases 2 * STEP - mm,
    {
        proof {
            lemma_limits();
            lemma_pow2_unfold((z + 1) as nat);
            if z >= 52 {
                lemma_pow2_le(52, z as nat);
            }
            assert(2 * (m * pow2(z as nat)) == m * (2 * pow2(z as nat))) by (nonlinear_arith);
        }
        mm = mm * 2;
        z = z + 1;
    }
    (mm, z)
}

proof fn lemma_quotient_floor(m: nat, e: nat, z: nat, n: nat, f: nat, k: int, q: nat, rem: nat)
    requires
        (m * pow2(z)) * pow2(64) == n * q + rem,
        rem < n,
        z <= 52,
        k == e - z - 64 - f + 1074,
    ensures
        n * pow2(f) > 0,
        is_floor((m * pow2(e)) * pow2(1074), n * pow2(f), k, q, rem != 0),
{
    let a = (m * pow2(e)) * pow2(1074);
    let b = n * pow2(f);
    let num = (m * pow2(z)) * pow2(64);
    lemma_pow2_pos(f);
    assert(b > 0) by (nonlinear_arith)
        requires
            n > 0,
            pow2(f) > 0,
            b == n * pow2(f),
    ;
    lemma_pow2_adds(e, 1074);
    lemma_pow2_adds(z, 64);
    assert(a == m * pow2(e + 1074)) by (nonlinear_arith)
        requires
            a == (m * pow2(e)) * pow2(1074),
            pow2(e + 1074) == pow2(e) * pow2(1074),
    ;
    assert(num == m * pow2(z + 64)) by (nonlinear_arith)
        requires
            num == (m * pow2(z)) * pow2(64),
            pow2(z + 64) == pow2(z) * pow2(64),
    ;
    let c: nat = if k >= 0 {
        pow2((e + 1010 - z) as nat)
    } else {
        pow2(f)
    };
    let top = shifted(a, -k);
    let bottom = shifted(b, k);
    if k >= 0 {
        let j = (e + 1010 - z) as nat;
        lemma_pow2_pos(j);
        lemma_shifted(a, k as nat);
        lemma_shifted(b, k as nat);
        lemma_pow2_adds(z + 64, j);
        assert(z + 64 + j == e + 1074);
        assert(top == num * c) by (nonlinear_arith)
            requires
                top == m * pow2(e + 1074),
                num == m * pow2(z + 64),
                pow2(e + 1074) == pow2(z + 64) * c,
        ;
        lemma_pow2_adds(f, k as nat);
        assert(f + k as nat == j);
        assert(bottom == n * c) by (nonlinear_arith)
            requires
                bottom == (n * pow2(f)) * pow2(k as nat),
                c == pow2(f) * pow2(k as nat),
        ;
    } else {
        let j = (-k) as nat;
        lemma_shifted(a, j);
        lemma_shifted(b, j);
        lemma_pow2_adds(e + 1074, j);
        lemma_pow2_adds(z + 64, f);
        assert(e + 1074 + j == z + 64 + f);
        assert(top == num * c) by (nonlinear_arith)
            requires
                top == (m * pow2(e + 1074)) * pow2(j),
                num == m * pow2(z + 64),
                pow2(e + 1074) * pow2(j) == pow2(z + 64) * c,
        ;
    }
    assert(top == q * bottom + rem * c) by (nonlinear_arith)
        requires
            top == num * c,
            bottom == n * c,
            num == n * q + rem,
    ;
    assert(0 <= rem * c < bottom) by (nonlinear_arith)
        requires
            bottom == n * c,
            rem < n,
            c > 0,
    ;
    assert((q + 1) * bottom == q * bottom + bottom) by (nonlinear_arith);
    assert(rem != 0 ==> rem * c > 0) by (nonlinear_arith)
        requires
            c > 0,
    ;
    assert(rem == 0 ==> rem * c == 0);
}

/// The number with the given sign and sign-less bit pattern.
fn signed_bits(negative: bool, low: u64) -> (r: Double)
    requires
        low <= INFINITY_BITS,
    ensures
        r == with_sign(negative, low as nat),
{
    Double {
        bits: if negative {
            SIGN_BIT + low
        } else {
            low
        },
    }
}

/// The product of two significands.
fn checked_product(m: u64, n: u64) -> (q: u128)
    requires
        m < 2 * STEP,
        n < 2 * STEP,
    ensures
        q == m * n,
        q < 0x4000_0000_0000_0000_0000_0000_0000_0000,
{
    assert(m * n <= 0x20_0000_0000_0000int * 0x20_0000_0000_0000int) by (nonlinear_arith)
        requires
            m < 0x20_0000_0000_0000,
            n < 0x20_0000_0000_0000,
    ;
    m as u128 * n as u128
}

proof fn lemma_product_floor(m: nat, e: nat, n: nat, f: nat, k: int)
    requires
        k == e + f - 1074,
    ensures
        pow2(1074) > 0,
        is_floor((m * pow2(e)) * (n * pow2(f)), pow2(1074), k, m * n, false),
{
    let a = (m * pow2(e)) * (n * pow2(f));
    let b = pow2(1074);
    lemma_pow2_pos(1074);
    lemma_pow2_adds(e, f);
    assert(a == (m * n) * pow2(e + f)) by (nonlinear_arith)
        requires
            a == (m * pow2(e)) * (n * pow2(f)),
            pow2(e + f) == pow2(e) * pow2(f),
    ;
    if k >= 0 {
        lemma_shifted(b, k as nat);
        lemma_shifted(a, k as nat);
        lemma_pow2_adds(1074, k as nat);
        assert(1074 + k as nat == e + f);
    } else {
        let j = (-k) as nat;
        lemma_shifted(a, j);
        lemma_shifted(b, j);
        lemma_pow2_adds(e + f, j);
        assert(e + f + j == 1074);
        assert(a * pow2(j) == (m * n) * b) by (nonlinear_arith)
            requires
                a == (m * n) * pow2(e + f),
                b == pow2(e + f) * pow2(j),
        ;
    }
    lemma_floor_exact(a, b, k, m * n);
}

} // verus!
