//! Laws of rounding: it keeps order, and it keeps what needs no rounding.

use vstd::arithmetic::div_mod::{
    lemma_div_is_ordered, lemma_fundamental_div_mod, lemma_fundamental_div_mod_converse,
    lemma_mod_bound,
};
use vstd::arithmetic::power2::{
    lemma2_to64, lemma2_to64_rest, lemma_pow2_adds, lemma_pow2_pos, lemma_pow2_unfold, pow2,
};
use vstd::prelude::*;

use crate::double::{
    ceiling, difference, less, of_int, opposite, product, quotient, rounded, rounded_half_up, sum,
    whole, with_sign, Double,
};
use crate::order::in_order;
use crate::prices::{is_percentile, percentile_of, rank, rank_above, rank_below};
use crate::rounding::{
    half_even, is_floor, is_grid, lemma_grid_of_floor, lemma_nearest, lemma_pow2_le,
    lemma_round_exact, lemma_shifted, nearest, on_grid, INFINITY_BITS, STEP,
};

verus! {

proof fn lemma_pow2_exceeds(n: nat)
    ensures
        n < pow2(n),
    decreases n,
{
    if n == 0 {
        lemma2_to64();
    } else {
        lemma_pow2_exceeds((n - 1) as nat);
        lemma_pow2_unfold(n);
    }
}

/// The smallest spacing that reaches up to `a / b`.
proof fn grid_below(a: nat, b: nat, g: nat) -> (h: nat)
    requires
        a < b * pow2(g + 53),
    ensures
        is_grid(a, b, h),
    decreases g,
{
    if g == 0 || b * pow2((g + 52) as nat) <= a {
        g
    } else {
        grid_below(a, b, (g - 1) as nat)
    }
}

/// Every magnitude has a spacing.
proof fn grid_for(a: nat, b: nat) -> (h: nat)
    requires
        b > 0,
    ensures
        is_grid(a, b, h),
{
    lemma_pow2_exceeds(a);
    lemma_pow2_le(a, a + 53);
    assert(a < b * pow2(a + 53)) by (nonlinear_arith)
        requires
            a < pow2(a + 53),
            b >= 1,
    ;
    grid_below(a, b, a)
}

/// On one grid, a larger magnitude has at least as many steps.
proof fn lemma_on_grid_monotone(a: nat, b: nat, c: nat, d: nat, g: nat)
    requires
        b > 0,
        d > 0,
        a * d <= c * b,
    ensures
        on_grid(a, b, g) <= on_grid(c, d, g),
{
    let p = pow2(g);
    lemma_pow2_pos(g);
    let m = b * p;
    let n = d * p;
    assert(m > 0 && n > 0) by (nonlinear_arith)
        requires
            b > 0,
            d > 0,
            p > 0,
            m == b * p,
            n == d * p,
    ;
    assert(a * n <= c * m) by (nonlinear_arith)
        requires
            a * d <= c * b,
            m == b * p,
            n == d * p,
            p > 0,
    ;
    lemma_fundamental_div_mod(a as int, m as int);
    lemma_fundamental_div_mod(c as int, n as int);
    lemma_mod_bound(a as int, m as int);
    lemma_mod_bound(c as int, n as int);
    let q = a / m;
    let r = a % m;
    let s = c / n;
    let t = c % n;
    // (q * m + r) * n <= (s * n + t) * m
    if q > s {
        assert(false) by (nonlinear_arith)
            requires
                a == m * q + r,
                c == n * s + t,
                a * n <= c * m,
                q >= s + 1,
                t < n,
                r >= 0,
                m > 0,
                n > 0,
        ;
    }
    if q == s {
        assert(r * n <= t * m) by (nonlinear_arith)
            requires
                a == m * q + r,
                c == n * q + t,
                a * n <= c * m,
        ;
        if 2 * r > m {
            assert(2 * t > n) by (nonlinear_arith)
                requires
                    r * n <= t * m,
                    2 * r > m,
                    m > 0,
                    n > 0,
            ;
        } else if 2 * r == m {
            assert(2 * t >= n) by (nonlinear_arith)
                requires
                    r * n <= t * m,
                    2 * r == m,
                    m > 0,
                    n > 0,
            ;
        }
    }
}

/// The bounds on the number of steps that a magnitude is given by.
proof fn lemma_steps(a: nat, b: nat, g: nat)
    requires
        b > 0,
        is_grid(a, b, g),
    ensures
        on_grid(a, b, g) <= 2 * STEP,
        g > 0 ==> on_grid(a, b, g) >= STEP,
{
    let p = pow2(g);
    let m = b * p;
    lemma_pow2_pos(g);
    lemma2_to64_rest();
    lemma_pow2_adds(g, 53);
    lemma_pow2_adds(g, 52);
    assert(m > 0) by (nonlinear_arith)
        requires
            b > 0,
            p > 0,
            m == b * p,
    ;
    lemma_fundamental_div_mod(a as int, m as int);
    lemma_mod_bound(a as int, m as int);
    let q = a / m;
    assert(q < 2 * STEP) by (nonlinear_arith)
        requires
            a == m * q + a % m,
            a % m >= 0,
            a < b * (p * (2 * STEP)),
            m == b * p,
            m > 0,
    ;
    if g > 0 {
        assert(q >= STEP) by (nonlinear_arith)
            requires
                a == m * q + a % m,
                a % m < m,
                a >= b * (p * STEP),
                m == b * p,
                m > 0,
        ;
    }
}

/// Rounding keeps order.
pub proof fn lemma_nearest_monotone(a: nat, b: nat, c: nat, d: nat)
    requires
        b > 0,
        d > 0,
        a * d <= c * b,
    ensures
        nearest(a, b) <= nearest(c, d),
{
    let g = grid_for(a, b);
    let h = grid_for(c, d);
    lemma_nearest(a, b, g);
    lemma_nearest(c, d, h);
    lemma_steps(a, b, g);
    lemma_steps(c, d, h);
    if g == h {
        lemma_on_grid_monotone(a, b, c, d, g);
    } else if h < g {
        let p = pow2((g + 52) as nat);
        lemma_pow2_le(h + 53, (g + 52) as nat);
        assert(false) by (nonlinear_arith)
            requires
                b * p <= a,
                c < d * pow2(h + 53),
                pow2(h + 53) <= p,
                a * d <= c * b,
                b > 0,
                d > 0,
        ;
    } else {
        assert(g * STEP + 2 * STEP <= h * STEP + STEP) by (nonlinear_arith)
            requires
                g + 1 <= h,
        ;
    }
}

/// The magnitude of a number that was rounded to `steps` steps of size `2^g`.
proof fn lemma_magnitude_of(low: nat, g: nat, steps: nat)
    requires
        low == g * STEP + steps,
        low < INFINITY_BITS,
        steps <= 2 * STEP,
        g > 0 ==> steps >= STEP,
    ensures
        with_sign(false, low).magnitude() == steps * pow2(g),
        with_sign(false, low).low() == low,
{
    let x = with_sign(false, low);
    lemma2_to64();
    if steps < STEP {
        lemma_fundamental_div_mod_converse(low as int, STEP as int, 0, steps as int);
        assert(steps * 1 == steps);
    } else if steps < 2 * STEP {
        assert(low == (g + 1) * STEP + (steps - STEP)) by (nonlinear_arith)
            requires
                low == g * STEP + steps,
        ;
        lemma_fundamental_div_mod_converse(
            low as int,
            STEP as int,
            (g + 1) as int,
            steps - STEP,
        );
    } else {
        assert(low == (g + 2) * STEP) by (nonlinear_arith)
            requires
                low == g * STEP + 2 * STEP,
        ;
        lemma_fundamental_div_mod_converse(low as int, STEP as int, (g + 2) as int, 0);
        lemma_pow2_unfold(g + 1);
        assert(STEP * (2 * pow2(g)) == steps * pow2(g)) by (nonlinear_arith)
            requires
                steps == 2 * STEP,
        ;
    }
}

/// A number is nearest to its own magnitude.
pub proof fn lemma_nearest_self(x: Double)
    requires
        x.is_finite(),
    ensures
        nearest(x.magnitude(), 1) == x.low(),
{
    let e = x.low() / STEP as nat;
    let f = x.low() % STEP as nat;
    lemma_fundamental_div_mod(x.low() as int, STEP as int);
    lemma2_to64();
    lemma2_to64_rest();
    if e == 0 {
        assert(is_grid(f, 1, 0));
        lemma_nearest(f, 1, 0);
        lemma_fundamental_div_mod_converse(f as int, 1, f as int, 0);
    } else {
        let g = (e - 1) as nat;
        let p = pow2(g);
        let m = f + STEP as nat;
        let a = x.magnitude();
        lemma_pow2_pos(g);
        lemma_pow2_adds(g, 53);
        lemma_pow2_adds(g, 52);
        assert(a < p * (2 * STEP)) by (nonlinear_arith)
            requires
                a == m * p,
                m < 2 * STEP,
                p > 0,
        ;
        assert(p * STEP <= a) by (nonlinear_arith)
            requires
                a == m * p,
                m >= STEP,
                p > 0,
        ;
        assert(is_grid(a, 1, g));
        lemma_nearest(a, 1, g);
        assert(1 * p == p);
        lemma_fundamental_div_mod_converse(a as int, p as int, m as int, 0);
    }
}

/// The magnitude grows with the bit pattern.
pub proof fn lemma_magnitude_monotone(x: Double, y: Double)
    requires
        x.low() <= y.low(),
        y.is_finite(),
    ensures
        x.magnitude() <= y.magnitude(),
{
    if x.magnitude() > y.magnitude() {
        lemma_nearest_monotone(y.magnitude(), 1, x.magnitude(), 1);
        lemma_nearest_self(x);
        lemma_nearest_self(y);
        assert(x.low() == y.low());
    }
}

/// Integers below 2^53 are numbers.
pub proof fn lemma_of_int_exact(n: nat)
    requires
        n < 2 * STEP,
    ensures
        of_int(n as int).is_finite(),
        !of_int(n as int).negative(),
        of_int(n as int).magnitude() == n * pow2(1074),
{
    reveal(of_int);
    let a = n * pow2(1074);
    let x = of_int(n as int);
    lemma_pow2_pos(1074);
    lemma2_to64();
    lemma2_to64_rest();
    if n == 0 {
        assert(0 * pow2(1074) == 0);
        crate::double::lemma_nearest_zero(1);
    } else {
        let len = bits_of(n);
        if len > 53 {
            lemma_pow2_le(53, (len - 1) as nat);
        }
        let g = (len + 1074 - 53) as nat;
        lemma_shifted(1, 1074);
        lemma_shifted(a, 1074);
        assert((n + 1) * pow2(1074) == a + pow2(1074)) by (nonlinear_arith)
            requires
                a == n * pow2(1074),
        ;
        assert(1 * pow2(1074) == pow2(1074));
        assert(is_floor(a, 1, 1074, n, false));
        lemma_grid_of_floor(a, 1, 1074, n, false, len, g);
        lemma_round_exact(a, 1, 1074, n, g);
        lemma_nearest(a, 1, g);
        lemma_steps(a, 1, g);
        let steps = on_grid(a, 1, g);
        let low = (g * STEP + steps) as nat;
        assert(g * STEP <= 1074 * STEP) by (nonlinear_arith)
            requires
                g <= 1074,
        ;
        lemma_magnitude_of(low, g, steps);
        lemma_pow2_adds(g, (1074 - g) as nat);
        assert(steps * pow2(g) == a) by (nonlinear_arith)
            requires
                steps == n * pow2((1074 - g) as nat),
                pow2(1074) == pow2(g) * pow2((1074 - g) as nat),
                a == n * pow2(1074),
        ;
    }
}

/// The number of binary digits of `n`.
proof fn bits_of(n: nat) -> (len: nat)
    requires
        n > 0,
    ensures
        len > 0,
        pow2((len - 1) as nat) <= n < pow2(len),
    decreases n,
{
    lemma2_to64();
    if n == 1 {
        1
    } else {
        let h = bits_of(n / 2);
        lemma_pow2_unfold(h + 1);
        lemma_pow2_unfold(h);
        h + 1
    }
}

/// A share from 0 to 1 points at values of every list of at most 2^53 values.
pub proof fn lemma_share_is_percentile(n: nat, p: Double)
    requires
        n <= 2 * STEP,
        p.is_finite(),
        !p.negative(),
        p.magnitude() <= pow2(1074),
    ensures
        is_percentile(n, p),
{
    if n > 0 {
        reveal(product);
        reveal(ceiling);
        reveal(whole);
        let y = of_int(n - 1);
        lemma_of_int_exact((n - 1) as nat);
        let one = pow2(1074);
        lemma_pow2_pos(1074);
        let a = p.magnitude() * y.magnitude();
        assert(a * 1 <= y.magnitude() * one) by (nonlinear_arith)
            requires
                a == p.magnitude() * y.magnitude(),
                p.magnitude() <= one,
        ;
        lemma_nearest_monotone(a, one, y.magnitude(), 1);
        lemma_nearest_self(y);
        let r = rank(n, p);
        assert(r.low() <= y.low());
        lemma_magnitude_monotone(r, y);
        lemma_fundamental_div_mod_converse(
            ((n - 1) * one) as int,
            one as int,
            n - 1,
            0,
        );
        lemma_div_is_ordered(r.magnitude() as int, ((n - 1) * one) as int, one as int);
        lemma_fundamental_div_mod(r.magnitude() as int, one as int);
        if whole(r) == n - 1 {
            assert(one * (n - 1) == (n - 1) * one);
        }
    }
}

/// A percentage from 0 to 100, taken as a share, points at values of every list of at most 2^53
/// values.
pub proof fn lemma_percentage_is_percentile(n: nat, x: Double)
    requires
        n <= 2 * STEP,
        x.is_finite(),
        !x.negative(),
        x.magnitude() <= 100 * pow2(1074),
    ensures
        is_percentile(n, quotient(x, of_int(100))),
{
    reveal(quotient);
    let hundred = of_int(100);
    let one = pow2(1074);
    lemma_of_int_exact(100);
    lemma_of_int_exact(1);
    lemma_pow2_pos(1074);
    let h = hundred.magnitude();
    assert(h > 0);
    assert(hundred.low() != 0) by {
        if hundred.low() == 0 {
            assert(hundred.magnitude() == 0);
        }
    }
    let a = x.magnitude() * one;
    assert(a * 1 <= one * h) by (nonlinear_arith)
        requires
            a == x.magnitude() * one,
            x.magnitude() <= h,
    ;
    lemma_nearest_monotone(a, h, one, 1);
    lemma_nearest_self(of_int(1));
    assert(1 * one == one);
    let p = quotient(x, hundred);
    assert(p.low() <= of_int(1).low());
    lemma_magnitude_monotone(p, of_int(1));
    lemma_share_is_percentile(n, p);
}

/// The quotient of two small integers, the first not above the second, is a share from 0 to 1.
pub proof fn lemma_ratio_is_share(m: nat, n: nat)
    requires
        m <= n,
        0 < n < 2 * STEP,
    ensures
        quotient(of_int(m as int), of_int(n as int)).is_finite(),
        !quotient(of_int(m as int), of_int(n as int)).negative(),
        quotient(of_int(m as int), of_int(n as int)).magnitude() <= pow2(1074),
{
    reveal(quotient);
    let x = of_int(m as int);
    let y = of_int(n as int);
    let one = pow2(1074);
    lemma_of_int_exact(m);
    lemma_of_int_exact(n);
    lemma_of_int_exact(1);
    lemma_pow2_pos(1074);
    let h = y.magnitude();
    assert(h > 0) by (nonlinear_arith)
        requires
            h == n * one,
            n > 0,
            one > 0,
    ;
    assert(y.low() != 0) by {
        if y.low() == 0 {
            assert(y.magnitude() == 0);
        }
    }
    let a = x.magnitude() * one;
    assert(a * 1 <= one * h) by (nonlinear_arith)
        requires
            a == (m * one) * one,
            h == n * one,
            m <= n,
    ;
    lemma_nearest_monotone(a, h, one, 1);
    lemma_nearest_self(of_int(1));
    assert(1 * one == one);
    let p = quotient(x, y);
    assert(p.low() <= of_int(1).low());
    lemma_magnitude_monotone(p, of_int(1));
}

/// Comparing finite numbers compares their values.
pub proof fn lemma_key_order(x: Double, y: Double)
    requires
        x.is_finite(),
        y.is_finite(),
    ensures
        (x.key() < y.key()) == (x.scaled() < y.scaled()),
{
    lemma_nearest_self(x);
    lemma_nearest_self(y);
    if x.low() <= y.low() {
        lemma_magnitude_monotone(x, y);
    } else {
        lemma_magnitude_monotone(y, x);
    }
    if x.low() == 0 {
        assert(x.magnitude() == 0);
    }
    if y.low() == 0 {
        assert(y.magnitude() == 0);
    }
    crate::double::lemma_nearest_zero(1);
}

/// Rounding depends on the ratio alone.
pub proof fn lemma_nearest_scale(a: nat, b: nat, c: nat)
    requires
        b > 0,
        c > 0,
    ensures
        nearest(a * c, b * c) == nearest(a, b),
{
    assert(b * c > 0) by (nonlinear_arith)
        requires
            b > 0,
            c > 0,
    ;
    assert((a * c) * b == a * (b * c)) by (nonlinear_arith);
    lemma_nearest_monotone(a * c, b * c, a, b);
    lemma_nearest_monotone(a, b, a * c, b * c);
}

/// A number is its sign and its bit pattern.
proof fn lemma_with_sign(x: Double)
    ensures
        with_sign(x.negative(), x.low()) == x,
{
}

/// `x * 1` is `x`, in either order.
pub proof fn lemma_times_one(x: Double)
    requires
        !x.is_nan(),
    ensures
        product(x, of_int(1)) == x,
        product(of_int(1), x) == x,
{
    reveal(product);
    let one = of_int(1);
    lemma_of_int_exact(1);
    lemma_pow2_pos(1074);
    lemma_with_sign(x);
    assert(one.low() != 0) by {
        if one.low() == 0 {
            assert(one.magnitude() == 0);
        }
    }
    if x.is_finite() {
        lemma_nearest_self(x);
        lemma_nearest_scale(x.magnitude(), 1, pow2(1074));
        assert(one.magnitude() == pow2(1074));
        assert(one.magnitude() * x.magnitude() == x.magnitude() * one.magnitude())
            by (nonlinear_arith);
        assert(1 * pow2(1074) == pow2(1074));
    }
}

/// `x / x` is 1.
pub proof fn lemma_over_self(x: Double)
    requires
        x.is_finite(),
        x.magnitude() > 0,
    ensures
        quotient(x, x) == of_int(1),
{
    reveal(quotient);
    reveal(of_int);
    let m = x.magnitude();
    if x.low() == 0 {
        assert(m == 0);
    }
    lemma_nearest_scale(pow2(1074), 1, m);
    assert(m * pow2(1074) == pow2(1074) * m) by (nonlinear_arith);
    assert(1 * m == m);
    assert(1 * pow2(1074) == pow2(1074));
}

/// `x - 0` is `x`.
pub proof fn lemma_minus_zero(x: Double)
    requires
        x.is_finite(),
        x.magnitude() > 0,
    ensures
        difference(x, with_sign(false, 0)) == x,
{
    reveal(sum);
    let zero = opposite(with_sign(false, 0));
    assert(zero.magnitude() == 0);
    lemma_nearest_self(x);
    lemma_with_sign(x);
    assert(x.scaled() + zero.scaled() == x.scaled());
}

/// Adding what is not negative does not make a number smaller.
pub proof fn lemma_sum_grows(x: Double, y: Double)
    requires
        x.is_finite(),
        !x.negative(),
        !y.is_nan(),
        !y.negative(),
    ensures
        !sum(x, y).is_nan(),
        !sum(x, y).negative(),
        sum(x, y).low() >= x.low(),
{
    reveal(sum);
    if y.is_finite() {
        let exact = x.magnitude() + y.magnitude();
        lemma_nearest_self(x);
        lemma_nearest_monotone(x.magnitude(), 1, exact, 1);
        crate::double::lemma_nearest_bound(exact, 1);
        if exact == 0 {
            assert(x.magnitude() == 0);
            crate::double::lemma_nearest_zero(1);
        }
        assert(sum(x, y) == rounded(exact as int, false));
    }
}

/// The quotient and the product of numbers that are not negative are not negative.
pub proof fn lemma_signs(x: Double, y: Double)
    requires
        !x.is_nan(),
        !y.is_nan(),
        !x.negative(),
        !y.negative(),
        y.is_finite(),
        y.magnitude() > 0,
    ensures
        !quotient(x, y).is_nan(),
        !quotient(x, y).negative(),
        !product(x, y).is_nan(),
        !product(x, y).negative(),
{
    reveal(quotient);
    reveal(product);
    if y.low() == 0 {
        assert(y.magnitude() == 0);
    }
    if x.is_finite() {
        crate::double::lemma_nearest_bound(x.magnitude() * pow2(1074), y.magnitude());
        crate::double::lemma_nearest_bound(x.magnitude() * y.magnitude(), pow2(1074));
    }
}

/// A number that is not below zero.
pub open spec fn is_amount(x: Double) -> bool {
    !x.is_nan() && (x.negative() ==> x.low() == 0)
}

/// Adding zero to a number that has no sign changes nothing.
pub proof fn lemma_plus_zero(x: Double, zero: Double)
    requires
        !x.is_nan(),
        !x.negative(),
        zero.low() == 0,
    ensures
        sum(x, zero) == x,
{
    reveal(sum);
    lemma_with_sign(x);
    assert(zero.magnitude() == 0);
    if x.is_finite() {
        lemma_nearest_self(x);
        crate::double::lemma_nearest_zero(1);
        assert(x.scaled() + zero.scaled() == x.magnitude());
    }
}

/// Adding an amount does not make a number smaller.
pub proof fn lemma_amount_added(x: Double, y: Double)
    requires
        !x.is_nan(),
        !x.negative(),
        is_amount(y),
    ensures
        !sum(x, y).is_nan(),
        !sum(x, y).negative(),
        sum(x, y).low() >= x.low(),
{
    if y.low() == 0 {
        lemma_plus_zero(x, y);
    } else if x.is_finite() {
        lemma_sum_grows(x, y);
    } else {
        reveal(sum);
    }
}

/// Sums grow with what is added.
pub proof fn lemma_sum_monotone(base: Double, x: Double, y: Double)
    requires
        base.is_finite(),
        !base.negative(),
        !x.negative(),
        !y.is_nan(),
        !y.negative(),
        x.low() <= y.low(),
    ensures
        sum(base, x).low() <= sum(base, y).low(),
{
    reveal(sum);
    if y.is_finite() {
        lemma_magnitude_monotone(x, y);
        let a = base.magnitude() + x.magnitude();
        let b = base.magnitude() + y.magnitude();
        lemma_nearest_monotone(a, 1, b, 1);
        crate::double::lemma_nearest_bound(a, 1);
        crate::double::lemma_nearest_bound(b, 1);
        crate::double::lemma_nearest_zero(1);
        assert(sum(base, x) == rounded(a as int, false));
        assert(sum(base, y) == rounded(b as int, false));
    } else if x.is_finite() {
        let a = base.magnitude() + x.magnitude();
        crate::double::lemma_nearest_bound(a, 1);
        assert(sum(base, x) == rounded(a as int, false));
    }
}

/// Quotients grow with what is divided.
pub proof fn lemma_quotient_monotone(x: Double, y: Double, d: Double)
    requires
        !x.negative(),
        !y.is_nan(),
        !y.negative(),
        x.low() <= y.low(),
        d.is_finite(),
        !d.negative(),
        d.magnitude() > 0,
    ensures
        quotient(x, d).low() <= quotient(y, d).low(),
{
    reveal(quotient);
    if d.low() == 0 {
        assert(d.magnitude() == 0);
    }
    let m = d.magnitude();
    if x.is_finite() {
        crate::double::lemma_nearest_bound(x.magnitude() * pow2(1074), m);
    }
    if y.is_finite() {
        lemma_magnitude_monotone(x, y);
        assert((x.magnitude() * pow2(1074)) * m <= (y.magnitude() * pow2(1074)) * m)
            by (nonlinear_arith)
            requires
                x.magnitude() <= y.magnitude(),
        ;
        lemma_nearest_monotone(x.magnitude() * pow2(1074), m, y.magnitude() * pow2(1074), m);
        crate::double::lemma_nearest_bound(y.magnitude() * pow2(1074), m);
    }
}

/// Products grow with their first factor.
pub proof fn lemma_product_monotone(x: Double, y: Double, d: Double)
    requires
        !x.negative(),
        !y.is_nan(),
        !y.negative(),
        x.low() <= y.low(),
        d.is_finite(),
        !d.negative(),
        d.magnitude() > 0,
    ensures
        product(x, d).low() <= product(y, d).low(),
{
    reveal(product);
    if d.low() == 0 {
        assert(d.magnitude() == 0);
    }
    let m = d.magnitude();
    let p = pow2(1074);
    lemma_pow2_pos(1074);
    if x.is_finite() {
        crate::double::lemma_nearest_bound(x.magnitude() * m, p);
    }
    if y.is_finite() {
        lemma_magnitude_monotone(x, y);
        assert((x.magnitude() * m) * p <= (y.magnitude() * m) * p) by (nonlinear_arith)
            requires
                x.magnitude() <= y.magnitude(),
        ;
        lemma_nearest_monotone(x.magnitude() * m, p, y.magnitude() * m, p);
        crate::double::lemma_nearest_bound(y.magnitude() * m, p);
    }
}

/// Zero times a finite number is zero.
pub proof fn lemma_times_zero(zero: Double, y: Double)
    requires
        zero.low() == 0,
        y.is_finite(),
    ensures
        product(zero, y).low() == 0,
{
    reveal(product);
    lemma_pow2_pos(1074);
    assert(zero.magnitude() == 0);
    assert(0 * y.magnitude() == 0);
    crate::double::lemma_nearest_zero(pow2(1074));
}

/// A finite number over an integer stays finite.
pub proof fn lemma_over_int_is_finite(x: Double, n: nat)
    requires
        x.is_finite(),
        0 < n < 2 * STEP,
    ensures
        quotient(x, of_int(n as int)).is_finite(),
{
    reveal(quotient);
    let d = of_int(n as int);
    let p = pow2(1074);
    lemma_of_int_exact(n);
    lemma_pow2_pos(1074);
    assert(d.magnitude() >= p) by (nonlinear_arith)
        requires
            d.magnitude() == n * p,
            n >= 1,
    ;
    if d.low() == 0 {
        assert(d.magnitude() == 0);
    }
    assert((x.magnitude() * p) * 1 <= x.magnitude() * d.magnitude()) by (nonlinear_arith)
        requires
            d.magnitude() >= p,
    ;
    lemma_nearest_monotone(x.magnitude() * p, d.magnitude(), x.magnitude(), 1);
    lemma_nearest_self(x);
}

/// The percentile 0 is the smallest value and the percentile 1 the largest.
pub proof fn lemma_percentile_ends(data: Seq<Double>)
    requires
        0 < data.len() <= 2 * STEP,
    ensures
        percentile_of(data, with_sign(false, 0)) == in_order(data)[0],
        percentile_of(data, of_int(1)) == in_order(data)[data.len() - 1],
{
    reveal(whole);
    reveal(ceiling);
    let n = data.len();
    let top = of_int(n - 1);
    let zero = with_sign(false, 0);
    lemma_of_int_exact((n - 1) as nat);
    lemma_pow2_pos(1074);
    lemma_times_one(top);
    assert(rank(n, of_int(1)) == top);
    lemma_fundamental_div_mod_converse(
        top.magnitude() as int,
        pow2(1074) as int,
        n - 1,
        0,
    );
    assert(rank(n, zero) == zero) by {
        reveal(product);
        assert(zero.magnitude() == 0);
        assert(0 * top.magnitude() == 0);
        crate::double::lemma_nearest_zero(pow2(1074));
    }
    assert(zero.magnitude() == 0);
    lemma_fundamental_div_mod_converse(0, pow2(1074) as int, 0, 0);
    assert(rank_below(zero) == 0 && rank_above(zero) == 0);
    assert(rank_below(top) == n - 1 && rank_above(top) == n - 1);
}

/// `n` units of 2^-1074 are a number.
pub open spec fn fits(n: int) -> bool {
    exists|x: Double| #[trigger] x.is_finite() && x.scaled() == n
}

/// Rounding what is a number changes nothing.
proof fn lemma_rounded_exact(n: int, negative_zero: bool)
    requires
        fits(n),
    ensures
        rounded(n, negative_zero).is_finite(),
        rounded(n, negative_zero).scaled() == n,
{
    let x = choose|x: Double| #[trigger] x.is_finite() && x.scaled() == n;
    lemma_nearest_self(x);
    lemma_with_sign(x);
    if n > 0 {
        assert(x.magnitude() == n);
        assert(rounded(n, negative_zero) == x);
    } else if n < 0 {
        assert(x.magnitude() == -n);
        assert(rounded(n, negative_zero) == x);
    } else {
        assert(with_sign(negative_zero, 0).low() == 0);
        assert(with_sign(negative_zero, 0).magnitude() == 0);
    }
}

/// The sum of two numbers is exact where it is a number.
pub proof fn lemma_sum_exact(x: Double, y: Double)
    requires
        x.is_finite(),
        y.is_finite(),
        fits(x.scaled() + y.scaled()),
    ensures
        sum(x, y).is_finite(),
        sum(x, y).scaled() == x.scaled() + y.scaled(),
{
    reveal(sum);
    lemma_rounded_exact(x.scaled() + y.scaled(), x.negative() && y.negative());
}

/// The difference of two numbers is exact where it is a number.
pub proof fn lemma_difference_exact(x: Double, y: Double)
    requires
        x.is_finite(),
        y.is_finite(),
        fits(x.scaled() - y.scaled()),
    ensures
        difference(x, y).is_finite(),
        difference(x, y).scaled() == x.scaled() - y.scaled(),
{
    assert(opposite(y).low() == y.low());
    assert(opposite(y).scaled() == -y.scaled());
    lemma_sum_exact(x, opposite(y));
}

/// A magnitude of which `v` times `d` is `a` is rounded to `v`, where that is a number.
proof fn lemma_nearest_exact(a: nat, d: nat, v: Double)
    requires
        v.is_finite(),
        d > 0,
        v.magnitude() * d == a,
    ensures
        nearest(a, d) == v.low(),
{
    lemma_nearest_self(v);
    lemma_nearest_scale(v.magnitude(), 1, d);
    assert(1 * d == d);
}

/// The product of two numbers is exact where it is a number.
pub proof fn lemma_product_exact(x: Double, y: Double, v: int)
    requires
        x.is_finite(),
        y.is_finite(),
        fits(v),
        v * pow2(1074) == x.scaled() * y.scaled(),
    ensures
        product(x, y).is_finite(),
        product(x, y).scaled() == v,
{
    reveal(product);
    let p = pow2(1074);
    lemma_pow2_pos(1074);
    let w = choose|w: Double| #[trigger] w.is_finite() && w.scaled() == v;
    let m = x.magnitude();
    let n = y.magnitude();
    assert(w.magnitude() * p == m * n && (v > 0 ==> x.negative() == y.negative()) && (v < 0
        ==> x.negative() != y.negative())) by (nonlinear_arith)
        requires
            v * p == x.scaled() * y.scaled(),
            p > 0,
            x.scaled() == m || x.scaled() == -m,
            y.scaled() == n || y.scaled() == -n,
            x.negative() ==> x.scaled() == -m,
            !x.negative() ==> x.scaled() == m,
            y.negative() ==> y.scaled() == -n,
            !y.negative() ==> y.scaled() == n,
            w.magnitude() == v || w.magnitude() == -v,
            w.magnitude() >= 0,
            m >= 0,
            n >= 0,
    ;
    lemma_nearest_exact(m * n, p, w);
    let r = product(x, y);
    assert(r.low() == w.low());
    assert(r.magnitude() == w.magnitude());
}

/// The quotient of two numbers is exact where it is a number.
pub proof fn lemma_quotient_exact(x: Double, y: Double, v: int)
    requires
        x.is_finite(),
        y.is_finite(),
        y.scaled() != 0,
        fits(v),
        v * y.scaled() == x.scaled() * pow2(1074),
    ensures
        quotient(x, y).is_finite(),
        quotient(x, y).scaled() == v,
{
    reveal(quotient);
    let p = pow2(1074);
    lemma_pow2_pos(1074);
    if y.low() == 0 {
        assert(y.magnitude() == 0);
    }
    let w = choose|w: Double| #[trigger] w.is_finite() && w.scaled() == v;
    let m = x.magnitude();
    let n = y.magnitude();
    assert(w.magnitude() * n == m * p && (v > 0 ==> x.negative() == y.negative()) && (v < 0
        ==> x.negative() != y.negative())) by (nonlinear_arith)
        requires
            v * y.scaled() == x.scaled() * p,
            p > 0,
            n > 0,
            x.negative() ==> x.scaled() == -m,
            !x.negative() ==> x.scaled() == m,
            y.negative() ==> y.scaled() == -n,
            !y.negative() ==> y.scaled() == n,
            w.magnitude() == v || w.magnitude() == -v,
            w.magnitude() >= 0,
            m >= 0,
    ;
    lemma_nearest_exact(m * p, n, w);
    let r = quotient(x, y);
    assert(r.low() == w.low());
    assert(r.magnitude() == w.magnitude());
}

/// A difference that is rounded to more than a number is more than it.
pub proof fn lemma_difference_above(x: Double, y: Double, z: Double)
    requires
        x.is_finite(),
        y.is_finite(),
        z.is_finite(),
        less(z, difference(x, y)),
    ensures
        x.scaled() - y.scaled() > z.scaled(),
{
    reveal(less);
    reveal(sum);
    assert(opposite(y).low() == y.low());
    assert(opposite(y).scaled() == -y.scaled());
    let d = x.scaled() - y.scaled();
    let r = difference(x, y);
    assert(r == rounded(d, x.negative() && opposite(y).negative()));
    if d <= z.scaled() {
        lemma_nearest_self(z);
        crate::double::lemma_nearest_zero(1);
        if d > 0 {
            lemma_nearest_monotone(d as nat, 1, z.magnitude(), 1);
        } else if d < 0 {
            crate::double::lemma_nearest_bound((-d) as nat, 1);
            if z.negative() {
                lemma_nearest_monotone(z.magnitude(), 1, (-d) as nat, 1);
            }
        } else {
            assert(r.low() == 0);
        }
        assert(false);
    }
}

/// Rounding keeps the order of signed amounts.
proof fn lemma_rounded_ordered(a: int, b: int, m: bool, n: bool)
    requires
        a <= b,
    ensures
        !rounded(a, m).is_nan(),
        !rounded(b, n).is_nan(),
        rounded(a, m).key() <= rounded(b, n).key(),
{
    let up = |x: int| if x >= 0 {
        x as nat
    } else {
        (-x) as nat
    };
    crate::double::lemma_nearest_bound(up(a), 1);
    crate::double::lemma_nearest_bound(up(b), 1);
    if a > 0 {
        lemma_nearest_monotone(a as nat, 1, b as nat, 1);
    } else if b < 0 {
        lemma_nearest_monotone((-b) as nat, 1, (-a) as nat, 1);
    }
}

/// Sums keep the order of what is added to, whatever its sign, and of what is added.
pub proof fn lemma_sum_ordered(x: Double, y: Double, z: Double)
    requires
        !x.is_nan(),
        !y.is_nan(),
        x.key() <= y.key(),
        z.is_finite(),
    ensures
        !sum(x, z).is_nan(),
        !sum(y, z).is_nan(),
        sum(x, z).key() <= sum(y, z).key(),
        sum(z, x) == sum(x, z),
        sum(z, y) == sum(y, z),
{
    reveal(sum);
    if x.is_finite() && y.is_finite() {
        lemma_key_order(y, x);
        lemma_rounded_ordered(
            x.scaled() + z.scaled(),
            y.scaled() + z.scaled(),
            x.negative() && z.negative(),
            y.negative() && z.negative(),
        );
    } else if x.is_finite() {
        let a = x.scaled() + z.scaled();
        lemma_rounded_ordered(a, a, x.negative() && z.negative(), false);
    } else if y.is_finite() {
        let a = y.scaled() + z.scaled();
        lemma_rounded_ordered(a, a, y.negative() && z.negative(), false);
    }
}

/// Turning a number's sign round turns its value round.
pub proof fn lemma_opposite(x: Double)
    ensures
        opposite(x).low() == x.low(),
        opposite(x).key() == -x.key(),
        opposite(x).magnitude() == x.magnitude(),
        opposite(x).scaled() == -x.scaled(),
        opposite(x).is_nan() == x.is_nan(),
        opposite(x).is_finite() == x.is_finite(),
{
}

/// A finite number fits.
pub proof fn lemma_fits(x: Double)
    requires
        x.is_finite(),
    ensures
        fits(x.scaled()),
        fits(-x.scaled()),
{
    lemma_opposite(x);
    assert(opposite(x).is_finite());
}

/// Where a number is finite, it is below zero where its value is.
pub proof fn lemma_below_zero(x: Double)
    requires
        x.is_finite(),
    ensures
        less(x, with_sign(false, 0)) == (x.scaled() < 0),
        less(with_sign(false, 0), x) == (x.scaled() > 0),
        with_sign(false, 0).is_finite(),
        with_sign(false, 0).scaled() == 0,
        with_sign(false, 0).key() == 0,
{
    reveal(less);
    let zero = with_sign(false, 0);
    assert(zero.low() == 0);
    assert(zero.magnitude() == 0);
    lemma_key_order(x, zero);
    lemma_key_order(zero, x);
}

/// Rounding to an integer goes to the nearest one, and upwards from the middle between two.
pub proof fn lemma_half_up(x: Double)
    ensures
        2 * x.magnitude() < (2 * rounded_half_up(x) + 1) * pow2(1074),
        (2 * rounded_half_up(x) - 1) * pow2(1074) <= 2 * x.magnitude(),
{
    reveal(rounded_half_up);
    reveal(whole);
    let p = pow2(1074);
    lemma_pow2_pos(1074);
    let q = x.magnitude() / p;
    let r = x.magnitude() % p;
    lemma_fundamental_div_mod(x.magnitude() as int, p as int);
    lemma_mod_bound(x.magnitude() as int, p as int);
    let n = rounded_half_up(x);
    assert((2 * n + 1) * p == 2 * (n * p) + p && (2 * n - 1) * p == 2 * (n * p) - p)
        by (nonlinear_arith);
    assert(p * q == q * p) by (nonlinear_arith);
    if n == q + 1 {
        assert(n * p == q * p + p) by (nonlinear_arith)
            requires
                n == q + 1,
        ;
    }
}

/// The integral part is what is left once a fraction is cut off.
pub proof fn lemma_whole(x: Double)
    ensures
        whole(x) * pow2(1074) <= x.magnitude() < (whole(x) + 1) * pow2(1074),
{
    reveal(whole);
    let p = pow2(1074);
    lemma_pow2_pos(1074);
    let q = x.magnitude() / p;
    lemma_fundamental_div_mod(x.magnitude() as int, p as int);
    lemma_mod_bound(x.magnitude() as int, p as int);
    assert(p * q == q * p && (q + 1) * p == q * p + p) by (nonlinear_arith);
}

/// How far the multiple `x * b` is from `a`.
pub open spec fn distance(x: nat, b: nat, a: nat) -> int {
    if x * b >= a {
        x * b - a
    } else {
        a - x * b
    }
}

/// A number is a multiple of the spacing at a magnitude, or lies below all that have that spacing.
proof fn lemma_multiple_or_below(w: Double, g: nat) -> (k: nat)
    requires
        w.is_finite(),
    ensures
        w.magnitude() == k * pow2(g) || (g > 0 && w.magnitude() < STEP * pow2(g)),
{
    let e = w.low() / STEP as nat;
    let f = w.low() % STEP as nat;
    lemma2_to64();
    if e == 0 && g == 0 {
        assert(f * 1 == f);
        f
    } else if e == 0 {
        lemma_pow2_pos(g);
        assert(STEP * pow2(g) >= STEP) by (nonlinear_arith)
            requires
                pow2(g) >= 1,
        ;
        0
    } else {
        let h = (e - 1) as nat;
        let m = (f + STEP) as nat;
        if h >= g {
            lemma_pow2_adds(g, (h - g) as nat);
            let c = pow2((h - g) as nat);
            assert(m * (pow2(g) * c) == (m * c) * pow2(g)) by (nonlinear_arith);
            m * c
        } else {
            lemma_pow2_le(h + 1, g);
            lemma_pow2_unfold(h + 1);
            let p = pow2(h);
            lemma_pow2_pos(h);
            assert(m * p < STEP * (2 * p)) by (nonlinear_arith)
                requires
                    m < 2 * STEP,
                    p > 0,
            ;
            assert(STEP * (2 * p) <= STEP * pow2(g)) by (nonlinear_arith)
                requires
                    2 * p <= pow2(g),
            ;
            0
        }
    }
}

/// Of the multiples of `m`, none is nearer to `a` than the one that rounding picks, and where another
/// is as near the picked one is even.
proof fn lemma_half_even(a: nat, m: nat, k: nat)
    requires
        m > 0,
    ensures
        ({
            let n = half_even(a / m, a % m, m);
            &&& distance(n, m, a) <= distance(k, m, a)
            &&& distance(n, m, a) == distance(k, m, a) && k != n ==> n % 2 == 0
            &&& distance(n, m, a) <= a % m
        }),
{
    let q = a / m;
    let r = a % m;
    lemma_fundamental_div_mod(a as int, m as int);
    lemma_mod_bound(a as int, m as int);
    assert(m * q == q * m) by (nonlinear_arith);
    assert((q + 1) * m == q * m + m) by (nonlinear_arith);
    if k < q {
        assert(k * m + m <= q * m) by (nonlinear_arith)
            requires
                k + 1 <= q,
                m > 0,
        ;
    } else if k > q + 1 {
        assert(k * m >= q * m + 2 * m) by (nonlinear_arith)
            requires
                k >= q + 2,
                m > 0,
        ;
    } else if k == q + 1 {
        assert(k * m == q * m + m);
    }
}

/// Rounding goes to the nearest number: no other is nearer to `a / b`, and where another is as near,
/// the last bit is zero.
pub proof fn lemma_nearest_is_nearest(a: nat, b: nat, w: Double)
    requires
        b > 0,
        w.is_finite(),
        nearest(a, b) < INFINITY_BITS,
    ensures
        ({
            let x = with_sign(false, nearest(a, b));
            &&& x.is_finite()
            &&& distance(x.magnitude(), b, a) <= distance(w.magnitude(), b, a)
            &&& distance(x.magnitude(), b, a) == distance(w.magnitude(), b, a) && w.low()
                != x.low() ==> x.low() % 2 == 0
        }),
{
    let g = grid_for(a, b);
    let steps = on_grid(a, b, g);
    let low = g * STEP as nat + steps;
    lemma_nearest(a, b, g);
    lemma_steps(a, b, g);
    lemma_magnitude_of(low, g, steps);
    let x = with_sign(false, low);
    let p = pow2(g);
    let m = b * p;
    lemma_pow2_pos(g);
    assert(m > 0) by (nonlinear_arith)
        requires
            m == b * p,
            b > 0,
            p > 0,
    ;
    assert((steps * p) * b == steps * m) by (nonlinear_arith)
        requires
            m == b * p,
    ;
    let k = lemma_multiple_or_below(w, g);
    lemma_half_even(a, m, k);
    lemma_fundamental_div_mod(a as int, m as int);
    lemma_mod_bound(a as int, m as int);
    if w.magnitude() == k * p {
        assert((k * p) * b == k * m) by (nonlinear_arith)
            requires
                m == b * p,
        ;
        if k == steps {
            lemma_nearest_self(w);
            lemma_nearest_self(x);
            assert(w.low() == x.low());
        }
    } else {
        // w lies below the least multiple that has this spacing, and a does not
        lemma2_to64_rest();
        lemma_pow2_adds(g, 52);
        let q = a / m;
        let wb = w.magnitude() * b;
        assert(a >= STEP * m) by (nonlinear_arith)
            requires
                a >= b * (p * STEP),
                m == b * p,
        ;
        assert(q >= STEP) by (nonlinear_arith)
            requires
                a == m * q + a % m,
                a % m < m,
                a >= STEP * m,
                m > 0,
        ;
        assert(wb < STEP * m) by (nonlinear_arith)
            requires
                wb == w.magnitude() * b,
                w.magnitude() < STEP * p,
                m == b * p,
                b > 0,
        ;
        assert(STEP * m <= m * q) by (nonlinear_arith)
            requires
                STEP <= q,
                m > 0,
        ;
        assert(distance(w.magnitude(), b, a) > a % m);
    }
    assert(low % 2 == steps % 2) by {
        assert(g * STEP == 2 * (g * 0x8_0000_0000_0000)) by (nonlinear_arith);
    }
}

/// How far two values are apart.
pub open spec fn apart(x: int, y: int) -> int {
    if x >= y {
        x - y
    } else {
        y - x
    }
}

/// No number is nearer to the sum of two numbers than their rounded sum.
pub proof fn lemma_sum_is_nearest(x: Double, y: Double, w: Double)
    requires
        x.is_finite(),
        y.is_finite(),
        w.is_finite(),
        sum(x, y).is_finite(),
    ensures
        apart(sum(x, y).scaled(), x.scaled() + y.scaled()) <= apart(
            w.scaled(),
            x.scaled() + y.scaled(),
        ),
{
    reveal(sum);
    let e = x.scaled() + y.scaled();
    let s = sum(x, y);
    let zero = with_sign(false, 0);
    lemma_below_zero(w);
    if e == 0 {
        assert(s.low() == 0);
        assert(s.magnitude() == 0);
    } else {
        let n: nat = if e > 0 {
            e as nat
        } else {
            (-e) as nat
        };
        let r = nearest(n, 1);
        crate::double::lemma_nearest_bound(n, 1);
        let t = with_sign(false, r);
        assert(s.low() == r && t.low() == r);
        assert(s.magnitude() == t.magnitude());
        lemma_nearest_is_nearest(n, 1, w);
        lemma_nearest_is_nearest(n, 1, zero);
        assert(zero.magnitude() == 0);
        assert(t.magnitude() * 1 == t.magnitude() && w.magnitude() * 1 == w.magnitude() && 0 * 1
            == 0);
    }
}

/// No number's magnitude is nearer to the product of two than that of their rounded product, which is
/// negative where one of the two is.
pub proof fn lemma_product_is_nearest(x: Double, y: Double, w: Double)
    requires
        x.is_finite(),
        y.is_finite(),
        w.is_finite(),
        product(x, y).is_finite(),
    ensures
        distance(product(x, y).magnitude(), pow2(1074), x.magnitude() * y.magnitude()) <= distance(
            w.magnitude(),
            pow2(1074),
            x.magnitude() * y.magnitude(),
        ),
        product(x, y).negative() == (x.negative() != y.negative()),
{
    reveal(product);
    lemma_pow2_pos(1074);
    let a = x.magnitude() * y.magnitude();
    let r = nearest(a, pow2(1074));
    crate::double::lemma_nearest_bound(a, pow2(1074));
    let t = with_sign(false, r);
    assert(product(x, y).low() == r && t.low() == r);
    assert(product(x, y).magnitude() == t.magnitude());
    lemma_nearest_is_nearest(a, pow2(1074), w);
}

/// No number's magnitude is nearer to the quotient of two than that of their rounded quotient, which
/// is negative where one of the two is.
pub proof fn lemma_quotient_is_nearest(x: Double, y: Double, w: Double)
    requires
        x.is_finite(),
        y.is_finite(),
        y.magnitude() > 0,
        w.is_finite(),
        quotient(x, y).is_finite(),
    ensures
        distance(quotient(x, y).magnitude(), y.magnitude(), x.magnitude() * pow2(1074))
            <= distance(w.magnitude(), y.magnitude(), x.magnitude() * pow2(1074)),
        quotient(x, y).negative() == (x.negative() != y.negative()),
{
    reveal(quotient);
    if y.low() == 0 {
        assert(y.magnitude() == 0);
    }
    let a = x.magnitude() * pow2(1074);
    let r = nearest(a, y.magnitude());
    crate::double::lemma_nearest_bound(a, y.magnitude());
    let t = with_sign(false, r);
    assert(quotient(x, y).low() == r && t.low() == r);
    assert(quotient(x, y).magnitude() == t.magnitude());
    lemma_nearest_is_nearest(a, y.magnitude(), w);
}

} // verus!
