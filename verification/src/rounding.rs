//! Rounding of exact quotients to binary64.
//!
//! Magnitudes are measured in units of 2^-1074, the distance between zero and the smallest
//! positive binary64 value. In that unit every finite binary64 magnitude is a natural number and
//! the bit pattern of a positive value is `g * 2^52 + m`, where `2^g` is the spacing of the values
//! around it and `m` counts how many of those steps it lies above zero.

use vstd::arithmetic::div_mod::{
    lemma_fundamental_div_mod, lemma_fundamental_div_mod_converse, lemma_mod_bound,
};
use vstd::arithmetic::power2::{
    lemma2_to64, lemma_pow2_adds, lemma_pow2_pos, lemma_pow2_strictly_increases,
    lemma_pow2_unfold, pow2,
};
use vstd::prelude::*;

verus! {

/// 2^52, the weight of the lowest exponent bit.
pub const STEP: u64 = 0x10_0000_0000_0000;

/// The bit pattern of positive infinity.
pub const INFINITY_BITS: u64 = 0x7ff0_0000_0000_0000;

/// Rounds `q + r / den` to an integer, ties going to the even neighbour.
pub open spec fn half_even(q: nat, r: nat, den: nat) -> nat {
    if 2 * r < den {
        q
    } else if 2 * r > den {
        q + 1
    } else {
        q + q % 2
    }
}

/// `2^g` is the spacing of binary64 values at the magnitude `a / b`.
pub open spec fn is_grid(a: nat, b: nat, g: nat) -> bool {
    &&& a < b * pow2(g + 53)
    &&& g == 0 || b * pow2(g + 52) <= a
}

/// The number of steps of size `2^g` nearest to `a / b`.
pub open spec fn on_grid(a: nat, b: nat, g: nat) -> nat {
    half_even(a / (b * pow2(g)), a % (b * pow2(g)), b * pow2(g))
}

/// The bit pattern of the binary64 magnitude nearest to `a / b` (in units of 2^-1074), ties going
/// to the even one and magnitudes out of range to infinity.
pub open spec fn nearest(a: nat, b: nat) -> nat {
    let g = choose|g: nat| is_grid(a, b, g);
    let bits = g * STEP as nat + on_grid(a, b, g);
    if bits < INFINITY_BITS {
        bits
    } else {
        INFINITY_BITS as nat
    }
}

pub proof fn lemma_pow2_le(i: nat, j: nat)
    requires
        i <= j,
    ensures
        0 < pow2(i) <= pow2(j),
{
    lemma_pow2_pos(i);
    if i < j {
        lemma_pow2_strictly_increases(i, j);
    }
}

/// There is only one spacing at a given magnitude.
pub proof fn lemma_grid_unique(a: nat, b: nat, g: nat, h: nat)
    requires
        is_grid(a, b, g),
        is_grid(a, b, h),
    ensures
        g == h,
{
    if g < h {
        lemma_pow2_le(g + 53, (h + 52) as nat);
        assert(b * pow2(g + 53) <= b * pow2((h + 52) as nat)) by (nonlinear_arith)
            requires
                pow2(g + 53) <= pow2((h + 52) as nat),
                b >= 0,
        ;
    } else if h < g {
        lemma_pow2_le(h + 53, (g + 52) as nat);
        assert(b * pow2(h + 53) <= b * pow2((g + 52) as nat)) by (nonlinear_arith)
            requires
                pow2(h + 53) <= pow2((g + 52) as nat),
                b >= 0,
        ;
    }
}

/// What [`nearest`] is once the spacing is known.
pub proof fn lemma_nearest(a: nat, b: nat, g: nat)
    requires
        is_grid(a, b, g),
    ensures
        nearest(a, b) == {
            let bits = g * STEP as nat + on_grid(a, b, g);
            if bits < INFINITY_BITS {
                bits
            } else {
                INFINITY_BITS as nat
            }
        },
{
    let h = choose|h: nat| is_grid(a, b, h);
    lemma_grid_unique(a, b, g, h);
}

pub proof fn lemma_div_scale(a: nat, d: nat, c: nat)
    requires
        d > 0,
        c > 0,
    ensures
        d * c > 0,
        (a * c) / (d * c) == a / d,
        (a * c) % (d * c) == (a % d) * c,
{
    lemma_fundamental_div_mod(a as int, d as int);
    lemma_mod_bound(a as int, d as int);
    let q: int = a as int / d as int;
    let r: int = a as int % d as int;
    assert(d * c > 0) by (nonlinear_arith)
        requires
            d > 0,
            c > 0,
    ;
    assert(a * c == q * (d * c) + r * c) by (nonlinear_arith)
        requires
            a == d * q + r,
    ;
    assert(0 <= r * c < d * c) by (nonlinear_arith)
        requires
            0 <= r < d,
            c > 0,
    ;
    lemma_fundamental_div_mod_converse((a * c) as int, (d * c) as int, q, r * c);
}

/// Scaling `a` and `b * 2^g` by the same power of two does not change the nearest step.
pub proof fn lemma_rescale(a: nat, b: nat, k: int, g: nat)
    requires
        b > 0,
        g >= k,
    ensures
        on_grid(a, b, g) == on_grid(shifted(a, -k), shifted(b, k), (g - k) as nat),
{
    lemma_pow2_pos(g);
    let den = b * pow2(g);
    assert(den > 0) by (nonlinear_arith)
        requires
            b > 0,
            pow2(g) > 0,
            den == b * pow2(g),
    ;
    if k < 0 {
        let c = pow2((-k) as nat);
        lemma_pow2_pos((-k) as nat);
        lemma_pow2_adds(g, (-k) as nat);
        assert((g - k) as nat == g + (-k) as nat);
        assert(b * pow2((g - k) as nat) == den * c) by (nonlinear_arith)
            requires
                pow2((g - k) as nat) == pow2(g) * c,
                den == b * pow2(g),
        ;
        lemma_div_scale(a, den, c);
        let r = a % den;
        assert((2 * r < den) == (2 * (r * c) < den * c)) by (nonlinear_arith)
            requires
                c > 0,
        ;
        assert((2 * r > den) == (2 * (r * c) > den * c)) by (nonlinear_arith)
            requires
                c > 0,
        ;
    } else if k > 0 {
        lemma_pow2_adds(k as nat, (g - k) as nat);
        assert(shifted(b, k) * pow2((g - k) as nat) == den) by (nonlinear_arith)
            requires
                shifted(b, k) == b * pow2(k as nat),
                pow2(g) == pow2(k as nat) * pow2((g - k) as nat),
                den == b * pow2(g),
        ;
    }
}

/// `x * 2^k` where `k` is positive, and `x` elsewhere.
pub open spec fn shifted(x: nat, k: int) -> nat {
    if k > 0 {
        x * pow2(k as nat)
    } else {
        x
    }
}

pub proof fn lemma_shifted(x: nat, k: nat)
    ensures
        shifted(x, k as int) == x * pow2(k),
        shifted(x, -(k as int)) == x,
{
    lemma2_to64();
    assert(x * 1 == x);
}

/// `q` is the integral part of `a / (b * 2^k)`, and `inexact` tells whether something is left.
pub open spec fn is_floor(a: nat, b: nat, k: int, q: nat, inexact: bool) -> bool {
    let n = shifted(a, -k);
    let d = shifted(b, k);
    &&& q * d <= n < (q + 1) * d
    &&& inexact == (q * d != n)
}

/// The spacing at `a / b` follows from the bit length of a floor of it.
pub proof fn lemma_grid_of_floor(a: nat, b: nat, k: int, q: nat, inexact: bool, len: nat, g: nat)
    requires
        b > 0,
        len > 0,
        is_floor(a, b, k, q, inexact),
        pow2((len - 1) as nat) <= q < pow2(len),
        g == (if len + k - 53 > 0 {
            len + k - 53
        } else {
            0
        }),
    ensures
        is_grid(a, b, g),
{
    if k >= 0 {
        let c = pow2(k as nat);
        lemma_pow2_pos(k as nat);
        lemma_shifted(b, k as nat);
        lemma_pow2_adds(len, k as nat);
        lemma_pow2_le((len + k) as nat, g + 53);
        assert(a < b * pow2(g + 53)) by (nonlinear_arith)
            requires
                a < (q + 1) * (b * c),
                q + 1 <= pow2(len),
                pow2((len + k) as nat) == pow2(len) * c,
                pow2((len + k) as nat) <= pow2(g + 53),
                b > 0,
                c > 0,
        ;
        if g > 0 {
            lemma_pow2_adds((len - 1) as nat, k as nat);
            assert((len - 1) as nat + k as nat == (g + 52) as nat);
            assert(b * pow2((g + 52) as nat) <= a) by (nonlinear_arith)
                requires
                    a >= q * (b * c),
                    q >= pow2((len - 1) as nat),
                    pow2((g + 52) as nat) == pow2((len - 1) as nat) * c,
                    b > 0,
                    c > 0,
            ;
        }
    } else {
        let c = pow2((-k) as nat);
        lemma_pow2_pos((-k) as nat);
        lemma_pow2_adds(g + 53, (-k) as nat);
        lemma_pow2_le(len, (g + 53 - k) as nat);
        assert((g + 53) + (-k) as nat == (g + 53 - k) as nat);
        assert(a < b * pow2(g + 53)) by (nonlinear_arith)
            requires
                a * c < (q + 1) * b,
                q + 1 <= pow2(len),
                pow2(len) <= pow2(g + 53) * c,
                b > 0,
                c > 0,
        ;
        if g > 0 {
            lemma_pow2_adds((g + 52) as nat, (-k) as nat);
            assert((g + 52) as nat + (-k) as nat == (len - 1) as nat);
            assert(b * pow2((g + 52) as nat) <= a) by (nonlinear_arith)
                requires
                    a * c >= q * b,
                    q >= pow2((g + 52) as nat) * c,
                    b > 0,
                    c > 0,
            ;
        }
    }
}

/// How a floor of `a / b` with some bits to spare is rounded.
pub proof fn lemma_round_floor(a: nat, b: nat, k: int, q: nat, inexact: bool, g: nat)
    requires
        b > 0,
        g > k,
        is_floor(a, b, k, q, inexact),
    ensures
        ({
            let p = pow2((g - k) as nat);
            let t = q % p;
            &&& p > 0
            &&& on_grid(a, b, g) == (if 2 * t < p {
                q / p
            } else if 2 * t > p || inexact {
                q / p + 1
            } else {
                q / p + (q / p) % 2
            })
        }),
{
    let n = shifted(a, -k);
    let d = shifted(b, k);
    let sh = (g - k) as nat;
    let p = pow2(sh);
    let t = q % p;
    let rest = (n - q * d) as nat;
    lemma_rescale(a, b, k, g);
    lemma_pow2_unfold(sh);
    lemma_pow2_pos(sh);
    let h = pow2((sh - 1) as nat);
    assert(d > 0) by {
        if k > 0 {
            lemma_pow2_pos(k as nat);
            assert(b * pow2(k as nat) > 0) by (nonlinear_arith)
                requires
                    b > 0,
                    pow2(k as nat) > 0,
            ;
        }
    }
    lemma_fundamental_div_mod(q as int, p as int);
    lemma_mod_bound(q as int, p as int);
    let w: int = q as int / p as int;
    assert(rest < d) by (nonlinear_arith)
        requires
            n < (q + 1) * d,
            rest == n - q * d,
    ;
    assert(n == w * (d * p) + (t * d + rest)) by (nonlinear_arith)
        requires
            q == p * w + t,
            n == q * d + rest,
    ;
    assert(0 <= t * d + rest < d * p) by (nonlinear_arith)
        requires
            0 <= t,
            t + 1 <= p,
            0 <= rest < d,
    ;
    assert(d * p > 0) by (nonlinear_arith)
        requires
            d > 0,
            p > 0,
    ;
    lemma_fundamental_div_mod_converse(n as int, (d * p) as int, w, (t * d + rest) as int);
    // The part cut off is t + rest / d, to be held against h = p / 2.
    if t < h {
        assert(2 * (t * d + rest) < d * p) by (nonlinear_arith)
            requires
                t + 1 <= h,
                p == 2 * h,
                rest < d,
        ;
    } else if t > h {
        assert(2 * (t * d + rest) > d * p) by (nonlinear_arith)
            requires
                t >= h + 1,
                p == 2 * h,
                rest >= 0,
                d > 0,
        ;
    } else {
        assert(2 * (t * d + rest) == d * p + 2 * rest) by (nonlinear_arith)
            requires
                t == h,
                p == 2 * h,
        ;
    }
}

/// An exact value on a grid no finer than the spacing needs no rounding.
pub proof fn lemma_round_exact(a: nat, b: nat, k: int, q: nat, g: nat)
    requires
        b > 0,
        g <= k,
        is_floor(a, b, k, q, false),
    ensures
        on_grid(a, b, g) == q * pow2((k - g) as nat),
{
    let den = b * pow2(g);
    let m = q * pow2((k - g) as nat);
    lemma_pow2_pos(g);
    lemma_pow2_adds(g, (k - g) as nat);
    assert(g + (k - g) as nat == k as nat);
    lemma_shifted(b, k as nat);
    assert(den > 0) by (nonlinear_arith)
        requires
            b > 0,
            pow2(g) > 0,
            den == b * pow2(g),
    ;
    assert(a == m * den) by (nonlinear_arith)
        requires
            a == q * (b * pow2(k as nat)),
            pow2(k as nat) == pow2(g) * pow2((k - g) as nat),
            den == b * pow2(g),
            m == q * pow2((k - g) as nat),
    ;
    lemma_fundamental_div_mod_converse(a as int, den as int, m as int, 0);
}

} // verus!
