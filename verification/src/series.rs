//! Time series, and their reduction to a few points.

use vstd::arithmetic::div_mod::{
    lemma_div_is_ordered, lemma_fundamental_div_mod, lemma_fundamental_div_mod_converse,
};
use vstd::arithmetic::power2::{lemma2_to64, lemma_pow2_adds, lemma_pow2_pos, pow2};
use vstd::prelude::*;

use crate::bounds::{
    fits, lemma_magnitude_monotone, lemma_nearest_monotone, lemma_nearest_scale,
    lemma_nearest_self, lemma_of_int_exact, lemma_quotient_exact, lemma_sum_exact,
};
use crate::double::{
    lemma_nearest_bound, of_int, quotient, rounded_half_up, saturated_signed, sum, whole, Double,
};
use crate::rounding::STEP;

verus! {

/// The number of points that a series is reduced to.
pub const MAX_SERIES_POINTS: usize = 48;

/// The sum of the times of some points.
pub open spec fn time_sum(points: Seq<(i64, Double)>) -> int
    decreases points.len(),
{
    if points.len() == 0 {
        0
    } else {
        time_sum(points.drop_last()) + points.last().0
    }
}

/// The sum of the values of some points, added up from the first.
pub open spec fn value_sum(points: Seq<(i64, Double)>) -> Double
    recommends
        points.len() > 0,
    decreases points.len(),
{
    if points.len() <= 1 {
        points[0].1
    } else {
        sum(value_sum(points.drop_last()), points.last().1)
    }
}

/// `total` over `n`, rounded to the nearest integer.
pub open spec fn mean_time(total: int, n: nat) -> int {
    let time = quotient(of_int(total), of_int(n as int));
    saturated_signed(time, rounded_half_up(time))
}

/// The mean time, rounded to the nearest integer, and the mean value of some points.
pub open spec fn mean(points: Seq<(i64, Double)>) -> (i64, Double) {
    (
        mean_time(time_sum(points), points.len()) as i64,
        quotient(value_sum(points), of_int(points.len() as int)),
    )
}

/// Where bucket `b` of a series of `len` points begins.
pub open spec fn bucket_start(b: int, len: nat) -> int {
    b * len / MAX_SERIES_POINTS as int
}

/// The points of bucket `b`.
pub open spec fn bucket(points: Seq<(i64, Double)>, b: int) -> Seq<(i64, Double)> {
    points.subrange(bucket_start(b, points.len()), bucket_start(b + 1, points.len()))
}

/// The series reduced: short ones as they are, others to the means of evenly spaced buckets.
pub open spec fn downsampled(points: Seq<(i64, Double)>) -> Seq<(i64, Double)> {
    if points.len() <= MAX_SERIES_POINTS {
        points
    } else {
        Seq::new(MAX_SERIES_POINTS as nat, |b: int| mean(bucket(points, b)))
    }
}

/// The buckets of a long series follow each other without gap or overlap, none is empty, together
/// they are the whole series, and their sizes differ by one point at most.
pub proof fn lemma_buckets(len: nat, b: int)
    requires
        len > MAX_SERIES_POINTS,
        0 <= b < MAX_SERIES_POINTS,
    ensures
        bucket_start(0, len) == 0,
        bucket_start(MAX_SERIES_POINTS as int, len) == len,
        0 <= bucket_start(b, len) < bucket_start(b + 1, len) <= len,
        len as int / 48 <= bucket_start(b + 1, len) - bucket_start(b, len) <= len as int / 48 + 1,
{
    assert((b + 1) * len == b * len + len) by (nonlinear_arith);
    assert(0 <= b * len) by (nonlinear_arith)
        requires
            0 <= b,
            0 <= len,
    ;
    assert((b + 1) * len <= 48 * len) by (nonlinear_arith)
        requires
            b + 1 <= 48,
            0 <= len,
    ;
}

/// A reduced series has at most the given number of points.
pub proof fn lemma_downsampled_len(points: Seq<(i64, Double)>)
    ensures
        downsampled(points).len() <= MAX_SERIES_POINTS,
        points.len() >= MAX_SERIES_POINTS ==> downsampled(points).len() == MAX_SERIES_POINTS,
{
}

/// The mean of the points from `start` on and before `end`.
fn mean_of(points: &Vec<(i64, Double)>, start: usize, end: usize) -> (r: (i64, Double))
    requires
        start < end <= points@.len(),
        end - start <= 0x1000_0000_0000_0000,
    ensures
        r == mean(points@.subrange(start as int, end as int)),
{
    let ghost all = points@.subrange(start as int, end as int);
    let mut times: i128 = points[start].0 as i128;
    let mut values: Double = points[start].1;
    let mut i: usize = start + 1;
    proof {
        let first = points@.subrange(start as int, start + 1);
        assert(first.drop_last() == Seq::<(i64, Double)>::empty());
        assert(time_sum(first.drop_last()) == 0);
        assert(time_sum(first) == times);
        assert(value_sum(first) == values);
    }
    while i < end
        invariant
            start < i <= end <= points@.len(),
            end - start <= 0x1000_0000_0000_0000,
            times == time_sum(points@.subrange(start as int, i as int)),
            values == value_sum(points@.subrange(start as int, i as int)),
            -(i - start) * 0x8000_0000_0000_0000 <= times <= (i - start) * 0x8000_0000_0000_0000,
        decreases end - i,
    {
        let ghost now = points@.subrange(start as int, i + 1);
        assert(now.drop_last() == points@.subrange(start as int, i as int));
        times = times + points[i].0 as i128;
        values = values.plus(points[i].1);
        i = i + 1;
    }
    let n: Double = Double::of_u64((end - start) as u64);
    (Double::of_i128(times).over(n).rounded_i64(), values.over(n))
}

/// Reduces a series to evenly spaced buckets, averaging time and value within each. A series that
/// is short enough is returned as it is.
pub fn downsample(points: &Vec<(i64, Double)>) -> (r: Vec<(i64, Double)>)
    ensures
        r@ == downsampled(points@),
{
    let len: usize = points.len();
    let mut r: Vec<(i64, Double)> = Vec::new();
    if len <= MAX_SERIES_POINTS {
        let mut i: usize = 0;
        while i < len
            invariant
                i <= len == points@.len(),
                r@ == points@.take(i as int),
            decreases len - i,
        {
            r.push(points[i]);
            assert(points@.take(i + 1) == points@.take(i as int).push(points@[i as int]));
            i = i + 1;
        }
        assert(points@.take(i as int) == points@);
        return r;
    }
    let mut b: usize = 0;
    while b < MAX_SERIES_POINTS
        invariant
            b <= MAX_SERIES_POINTS,
            MAX_SERIES_POINTS < len == points@.len(),
            r@ == downsampled(points@).take(b as int),
        decreases MAX_SERIES_POINTS - b,
    {
        proof {
            lemma_buckets(len as nat, b as int);
            assert(b * len <= 48 * len && (b + 1) * len <= 48 * len) by (nonlinear_arith)
                requires
                    b + 1 <= 48,
                    0 <= len,
            ;
            assert(0 <= b * len) by (nonlinear_arith)
                requires
                    0 <= b,
                    0 <= len,
            ;
        }
        let start: usize = (b as u128 * len as u128 / 48) as usize;
        let end: usize = ((b as u128 + 1) * len as u128 / 48) as usize;
        r.push(mean_of(points, start, end));
        assert(downsampled(points@).take(b + 1) == downsampled(points@).take(b as int).push(
            mean(bucket(points@, b as int)),
        ));
        b = b + 1;
    }
    assert(downsampled(points@).take(b as int) == downsampled(points@));
    r
}

/// The points are in the order of time.
pub open spec fn in_time_order(points: Seq<(i64, Double)>) -> bool {
    forall|i: int, j: int|
        0 <= i <= j < points.len() ==> (#[trigger] points[i]).0 <= (#[trigger] points[j]).0
}

/// An integer whose magnitude is below 2^53, so that it is a number.
pub open spec fn is_exact(n: int) -> bool {
    -2 * STEP < n < 2 * STEP
}

proof fn lemma_time_sum_bounds(points: Seq<(i64, Double)>, low: int, high: int)
    requires
        forall|i: int| 0 <= i < points.len() ==> low <= (#[trigger] points[i]).0 <= high,
    ensures
        points.len() * low <= time_sum(points) <= points.len() * high,
    decreases points.len(),
{
    if points.len() > 0 {
        let rest = points.drop_last();
        assert forall|i: int| 0 <= i < rest.len() implies low <= (#[trigger] rest[i]).0
            <= high by {
            assert(rest[i] == points[i]);
        }
        lemma_time_sum_bounds(rest, low, high);
        assert(points.last() == points[points.len() - 1]);
        assert(points.len() * low == rest.len() * low + low) by (nonlinear_arith)
            requires
                points.len() == rest.len() + 1,
        ;
        assert(points.len() * high == rest.len() * high + high) by (nonlinear_arith)
            requires
                points.len() == rest.len() + 1,
        ;
    } else {
        assert(0 * low == 0 && 0 * high == 0);
    }
}

/// The means of times after 1970 keep order.
proof fn lemma_positive_mean(m: nat, k: nat, n: nat, l: nat)
    requires
        m < 2 * STEP,
        n < 2 * STEP,
        0 < k < 2 * STEP,
        0 < l < 2 * STEP,
        m * l <= n * k,
    ensures
        0 <= mean_time(m as int, k) <= mean_time(n as int, l),
{
    reveal(quotient);
    reveal(rounded_half_up);
    reveal(whole);
    let p = pow2(1074);
    lemma_pow2_pos(1074);
    lemma_of_int_exact(m);
    lemma_of_int_exact(k);
    lemma_of_int_exact(n);
    lemma_of_int_exact(l);
    let s = quotient(of_int(m as int), of_int(k as int));
    let t = quotient(of_int(n as int), of_int(l as int));
    assert(k * p > 0 && l * p > 0) by (nonlinear_arith)
        requires
            k > 0,
            l > 0,
            p > 0,
    ;
    assert(of_int(k as int).low() != 0 && of_int(l as int).low() != 0) by {
        if of_int(k as int).low() == 0 {
            assert(of_int(k as int).magnitude() == 0);
        }
        if of_int(l as int).low() == 0 {
            assert(of_int(l as int).magnitude() == 0);
        }
    }
    assert(((m * p) * p) * (l * p) <= ((n * p) * p) * (k * p)) by (nonlinear_arith)
        requires
            m * l <= n * k,
            p > 0,
    ;
    lemma_nearest_monotone((m * p) * p, k * p, (n * p) * p, l * p);
    lemma_nearest_bound((m * p) * p, k * p);
    lemma_nearest_bound((n * p) * p, l * p);
    assert(s.low() <= t.low());
    if t.is_finite() {
        lemma_magnitude_monotone(s, t);
        lemma_half_up_monotone(s.magnitude(), t.magnitude(), p);
    } else {
        lemma_infinite_whole(t);
    }
}

/// The mean of times before 1970 mirrors that of times after it.
proof fn lemma_mirrored_mean(m: nat, k: nat)
    requires
        0 < m < 2 * STEP,
        0 < k < 2 * STEP,
    ensures
        mean_time(-(m as int), k) == -mean_time(m as int, k),
        0 <= mean_time(m as int, k) <= m,
{
    reveal(quotient);
    reveal(rounded_half_up);
    reveal(of_int);
    reveal(whole);
    let p = pow2(1074);
    lemma_pow2_pos(1074);
    lemma_of_int_exact(m);
    lemma_of_int_exact(k);
    let x = of_int(m as int);
    let y = of_int(-(m as int));
    let d = of_int(k as int);
    assert(y.low() == x.low() && y.negative());
    assert(y.magnitude() == x.magnitude());
    if d.low() == 0 {
        assert(d.magnitude() == 0);
        assert(k * p > 0) by (nonlinear_arith)
            requires
                k > 0,
                p > 0,
        ;
    }
    lemma_nearest_bound((m * p) * p, k * p);
    let s = quotient(x, d);
    let t = quotient(y, d);
    assert(s.low() == t.low() && s.magnitude() == t.magnitude());
    assert(m * 1 <= m * k) by (nonlinear_arith)
        requires
            0 < k,
    ;
    lemma_positive_mean(m, k, m, 1);
    lemma_mean_of_one(m);
}

/// The mean of a single time is that time.
proof fn lemma_mean_of_one(m: nat)
    requires
        m < 2 * STEP,
    ensures
        mean_time(m as int, 1) == m,
{
    reveal(quotient);
    reveal(rounded_half_up);
    reveal(whole);
    let p = pow2(1074);
    lemma_pow2_pos(1074);
    lemma_of_int_exact(m);
    lemma_of_int_exact(1);
    let x = of_int(m as int);
    let one = of_int(1);
    assert(one.magnitude() == p);
    if one.low() == 0 {
        assert(one.magnitude() == 0);
    }
    lemma_nearest_scale(x.magnitude(), 1, p);
    assert(1 * p == p);
    lemma_nearest_self(x);
    let s = quotient(x, one);
    assert(s.low() == x.low() && s.magnitude() == m * p);
    lemma_fundamental_div_mod_converse((m * p) as int, p as int, m as int, 0);
}

/// Means of times keep order.
proof fn lemma_mean_time_monotone(m: int, k: nat, n: int, l: nat)
    requires
        is_exact(m),
        is_exact(n),
        0 < k < 2 * STEP,
        0 < l < 2 * STEP,
        m * l <= n * k,
    ensures
        mean_time(m, k) <= mean_time(n, l),
{
    if 0 <= m {
        assert(0 <= n) by (nonlinear_arith)
            requires
                0 <= m,
                0 < k,
                0 < l,
                m * l <= n * k,
        ;
        lemma_positive_mean(m as nat, k, n as nat, l);
    } else if 0 <= n {
        lemma_mirrored_mean((-m) as nat, k);
        lemma_positive_mean(n as nat, l, n as nat, l);
    } else {
        let a = (-m) as nat;
        let b = (-n) as nat;
        lemma_mirrored_mean(a, k);
        lemma_mirrored_mean(b, l);
        assert(b * k <= a * l) by (nonlinear_arith)
            requires
                m * l <= n * k,
                a == -m,
                b == -n,
        ;
        lemma_positive_mean(b, l, a, k);
    }
}

/// The mean of times lies between bounds of all of them.
proof fn lemma_mean_time_between(m: int, k: nat, low: int, high: int)
    requires
        is_exact(m),
        0 < k < 2 * STEP,
        k * low <= m <= k * high,
    ensures
        low <= mean_time(m, k) <= high,
{
    let top = 2 * STEP as int - 1;
    let floor = if low < -top {
        -top
    } else {
        low
    };
    let roof = if high > top {
        top
    } else {
        high
    };
    assert(floor * k <= m * 1 && m * 1 <= roof * k && floor <= top && -top <= roof)
        by (nonlinear_arith)
        requires
            k * low <= m <= k * high,
            -top <= m <= top,
            floor == low || (floor == -top && low < -top),
            roof == high || (roof == top && high > top),
            0 < k,
            0 < top,
    ;
    lemma_mean_time_monotone(floor, 1, m, k);
    lemma_mean_time_monotone(m, k, roof, 1);
    lemma_mean_of_integer(floor);
    lemma_mean_of_integer(roof);
}

proof fn lemma_mean_of_integer(m: int)
    requires
        is_exact(m),
    ensures
        mean_time(m, 1) == m,
{
    if m >= 0 {
        lemma_mean_of_one(m as nat);
    } else {
        lemma_mirrored_mean((-m) as nat, 1);
        lemma_mean_of_one((-m) as nat);
    }
}

/// Rounding halves up keeps order.
proof fn lemma_half_up_monotone(a: nat, b: nat, p: nat)
    requires
        a <= b,
        p > 0,
    ensures
        (if 2 * (a % p) < p {
            a / p
        } else {
            a / p + 1
        }) <= (if 2 * (b % p) < p {
            b / p
        } else {
            b / p + 1
        }),
{
    lemma_div_is_ordered(a as int, b as int, p as int);
    if a / p == b / p {
        lemma_fundamental_div_mod(a as int, p as int);
        lemma_fundamental_div_mod(b as int, p as int);
    }
}

/// The bit pattern of infinity stands for more than 64 bits hold.
proof fn lemma_infinite_whole(x: Double)
    requires
        x.is_infinite(),
    ensures
        x.magnitude() / pow2(1074) > 0x7fff_ffff_ffff_ffff,
{
    let p = pow2(1074);
    assert(x.low() / 0x10_0000_0000_0000 == 2047);
    lemma2_to64();
    lemma_pow2_adds(64, 908);
    lemma_pow2_adds(972, 1074);
    lemma_pow2_pos(908);
    lemma_pow2_pos(1074);
    let q = 0x10_0000_0000_0000 * pow2(972);
    assert(x.magnitude() == q * p) by (nonlinear_arith)
        requires
            x.magnitude() == 0x10_0000_0000_0000 * pow2(2046),
            pow2(2046) == pow2(972) * p,
            q == 0x10_0000_0000_0000 * pow2(972),
    ;
    assert(pow2(972) >= 0x1_0000_0000_0000_0000) by (nonlinear_arith)
        requires
            pow2(972) == 0x1_0000_0000_0000_0000 * pow2(908),
            pow2(908) >= 1,
    ;
    lemma_fundamental_div_mod_converse(x.magnitude() as int, p as int, q as int, 0);
}

/// A point of a reduced series lies between the first and the last of the points that it is reduced
/// from, where these follow each other in time and their times add up to less than 2^53 either way.
pub proof fn lemma_downsampled_between(points: Seq<(i64, Double)>, b: int)
    requires
        MAX_SERIES_POINTS < points.len() < STEP,
        in_time_order(points),
        0 <= b < MAX_SERIES_POINTS,
        is_exact(time_sum(bucket(points, b))),
    ensures
        bucket(points, b)[0].0 <= downsampled(points)[b].0 <= bucket(points, b).last().0,
{
    let len = points.len();
    lemma_buckets(len, b);
    let all = bucket(points, b);
    let low = all[0].0 as int;
    let high = all.last().0 as int;
    let start = bucket_start(b, len);
    assert forall|i: int| 0 <= i < all.len() implies low <= (#[trigger] all[i]).0 <= high by {
        assert(points[start].0 <= points[start + i].0);
        assert(points[start + i].0 <= points[start + all.len() - 1].0);
    }
    lemma_time_sum_bounds(all, low, high);
    lemma_mean_time_between(time_sum(all), all.len(), low, high);
}

/// A reduced series keeps the order of time: where the points follow each other in time and the
/// times of each bucket add up to less than 2^53 either way, so do the points that they are reduced
/// to.
pub proof fn lemma_downsampled_in_order(points: Seq<(i64, Double)>, b: int)
    requires
        MAX_SERIES_POINTS < points.len() < STEP,
        in_time_order(points),
        0 <= b < MAX_SERIES_POINTS - 1,
        is_exact(time_sum(bucket(points, b))),
        is_exact(time_sum(bucket(points, b + 1))),
    ensures
        downsampled(points)[b].0 <= downsampled(points)[b + 1].0,
{
    let len = points.len();
    lemma_buckets(len, b);
    lemma_buckets(len, b + 1);
    lemma_downsampled_between(points, b);
    lemma_downsampled_between(points, b + 1);
    let mid = bucket_start(b + 1, len);
    assert(points[mid - 1].0 <= points[mid].0);
}

/// The sum of the values of some points in exact arithmetic, in units of 2^-1074.
pub open spec fn exact_total(points: Seq<(i64, Double)>) -> int
    decreases points.len(),
{
    if points.len() == 0 {
        0
    } else {
        exact_total(points.drop_last()) + points.last().1.scaled()
    }
}

/// Nothing is rounded when the values of some points are added up.
pub open spec fn adds_up(points: Seq<(i64, Double)>) -> bool
    decreases points.len(),
{
    points.len() > 0 ==> points.last().1.is_finite() && fits(exact_total(points)) && adds_up(
        points.drop_last(),
    )
}

proof fn lemma_value_sum(points: Seq<(i64, Double)>)
    requires
        points.len() > 0,
        adds_up(points),
    ensures
        value_sum(points).is_finite(),
        value_sum(points).scaled() == exact_total(points),
    decreases points.len(),
{
    if points.len() > 1 {
        lemma_value_sum(points.drop_last());
        lemma_sum_exact(value_sum(points.drop_last()), points.last().1);
    } else {
        assert(points.drop_last().len() == 0);
        assert(exact_total(points.drop_last()) == 0);
        assert(points.last() == points[0]);
    }
}

/// A series of more than 48 points is reduced to 48, of which each has the mean value of an equal
/// share of the points: what the points of the share add up to, over their number. Where the times
/// of the share have a whole mean, it is that.
pub proof fn lemma_downsampled_mean(points: Seq<(i64, Double)>, b: int, value: int, time: int)
    requires
        48 < points.len() < STEP,
        0 <= b < 48,
        ({
            let part = points.subrange(
                b * points.len() / 48,
                (b + 1) * points.len() / 48,
            );
            &&& adds_up(part)
            &&& fits(value)
            &&& value * part.len() == exact_total(part)
            &&& is_exact(time_sum(part))
            &&& time * part.len() == time_sum(part)
            &&& i64::MIN <= time <= i64::MAX
        }),
    ensures
        downsampled(points).len() == 48,
        downsampled(points)[b].1.scaled() == value,
        downsampled(points)[b].0 == time,
{
    let len = points.len();
    lemma_buckets(len, b);
    let part = bucket(points, b);
    let n = part.len();
    let p = pow2(1074) as int;
    lemma_pow2_pos(1074);
    lemma_value_sum(part);
    lemma_of_int_exact(n);
    assert(of_int(n as int).scaled() == n * p);
    assert(n * p > 0) by (nonlinear_arith)
        requires
            n > 0,
            p > 0,
    ;
    assert(value * (n * p) == (value * n) * p) by (nonlinear_arith);
    lemma_quotient_exact(value_sum(part), of_int(n as int), value);
    assert(n * time == time * n) by (nonlinear_arith);
    lemma_mean_time_between(time_sum(part), n, time, time);
}

/// A series of at most 48 points stays as it is.
pub proof fn lemma_short_series(points: Seq<(i64, Double)>)
    requires
        points.len() <= 48,
    ensures
        downsampled(points) == points,
{
}

} // verus!
