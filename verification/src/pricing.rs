//! Laws of the price analysis: which prices it looks at, which of them it compares, and what it
//! decides. Values are compared in exact arithmetic, in units of 2^-1074, and times in nanoseconds.

use vstd::arithmetic::div_mod::{lemma_fundamental_div_mod, lemma_fundamental_div_mod_converse};
use vstd::arithmetic::power2::{lemma_pow2_adds, lemma_pow2_pos, pow2};
use vstd::prelude::*;

use crate::analysis::{
    analysis_of, before_spike, between, by_price, comparable, current_price, highest, is_current,
    kept_soc, lemma_highest, lemma_lowest, lookahead_of, lowest, missing_kwh, outcome, values,
    window_of, with_sun, BatteryDecision, ChargeReason, PriceThresholds,
};
use crate::bounds::{
    fits, lemma_below_zero, lemma_difference_above, lemma_difference_exact, lemma_fits,
    lemma_key_order, lemma_magnitude_monotone, lemma_of_int_exact, lemma_product_exact,
    lemma_opposite, lemma_quotient_exact, lemma_ratio_is_share, lemma_share_is_percentile,
    lemma_sum_exact, lemma_sum_ordered,
};
use crate::calendar::Date;
use crate::config::Config;
use crate::double::{
    at_most, ceiling, difference, less, of_int, opposite, product, quotient, sum, whole, with_sign,
    Double,
};
use crate::energy::lemma_settings_follow_the_season;
use crate::moment::Moment;
use crate::order::{count_of, in_order, lemma_in_order, Keyed};
use crate::prices::{
    all_numbers, lemma_count_low, lemma_sorted_numbers, percentile_of, rank, rank_above, rank_below,
    PriceInfo,
};
use crate::rounding::STEP;
use crate::weather::{
    force_charge_soc, next_day_pv_kwh, remaining_pv_kwh, required_soc, WeatherResponse,
};

verus! {

/// A quarter of a number from 3 * 2^-1022 on is a number.
proof fn lemma_quarter_fits(x: Double)
    requires
        x.is_finite(),
        !x.negative(),
        x.low() >= 3 * STEP,
    ensures
        x.magnitude() % 4 == 0,
        fits((x.magnitude() / 4) as int),
{
    let y = with_sign(false, (x.low() - 2 * STEP) as nat);
    let e = x.low() / STEP as nat;
    let f = x.low() % STEP as nat;
    lemma_fundamental_div_mod(x.low() as int, STEP as int);
    assert(e >= 3);
    assert(y.low() == x.low() - 2 * STEP);
    lemma_fundamental_div_mod_converse(y.low() as int, STEP as int, e - 2, f as int);
    lemma_pow2_adds((e - 3) as nat, 2);
    assert(pow2(2) == 4) by {
        vstd::arithmetic::power2::lemma2_to64();
    }
    let p = pow2((e - 3) as nat);
    assert(pow2((e - 1) as nat) == p * 4);
    let m = (f + STEP) as nat;
    assert(x.magnitude() == m * pow2((e - 1) as nat));
    assert(y.magnitude() == m * p);
    assert(m * (p * 4) == (m * p) * 4) by (nonlinear_arith);
    assert(y.is_finite() && y.scaled() == x.magnitude() / 4);
}

/// One and more is far from the smallest numbers.
pub proof fn lemma_one_is_large(x: Double)
    requires
        x.is_finite(),
        !x.negative(),
        x.magnitude() >= pow2(1074),
    ensures
        x.low() >= 3 * STEP,
{
    if x.low() < 3 * STEP {
        let y = with_sign(false, (3 * STEP) as nat);
        assert(y.low() == 3 * STEP);
        lemma_magnitude_monotone(x, y);
        assert(y.low() / STEP as nat == 3 && y.low() % STEP as nat == 0);
        assert(y.magnitude() == STEP * pow2(2));
        vstd::arithmetic::power2::lemma2_to64();
        vstd::arithmetic::power2::lemma2_to64_rest();
        assert(pow2(52) == STEP);
        lemma_pow2_adds(52, 2);
        assert(y.magnitude() == pow2(54));
        vstd::arithmetic::power2::lemma_pow2_strictly_increases(54, 1074);
        assert(false);
    }
}

/// 25 hundredths are a quarter.
proof fn lemma_quarter_exact()
    ensures
        quotient(of_int(25), of_int(100)).is_finite(),
        !quotient(of_int(25), of_int(100)).negative(),
        4 * quotient(of_int(25), of_int(100)).scaled() == pow2(1074),
{
    let p = pow2(1074) as int;
    lemma_pow2_pos(1074);
    lemma_of_int_exact(1);
    lemma_of_int_exact(25);
    lemma_of_int_exact(100);
    lemma_ratio_is_share(25, 100);
    lemma_one_is_large(of_int(1));
    lemma_quarter_fits(of_int(1));
    let v = (of_int(1).magnitude() / 4) as int;
    assert(4 * v == p);
    assert(v * (100 * p) == (25 * p) * p) by (nonlinear_arith)
        requires
            4 * v == p,
    ;
    lemma_quotient_exact(of_int(25), of_int(100), v);
}

/// The first quarter of `n` values ranks at (n - 1) / 4, which lies between the two integers next
/// to it.
proof fn lemma_quarter_rank(n: nat)
    requires
        0 < n <= 2 * STEP,
    ensures
        ({
            let r = rank(n, quotient(of_int(25), of_int(100)));
            &&& rank_below(r) == (n - 1) / 4
            &&& rank_above(r) == (n + 2) / 4
            &&& rank_above(r) < n
        }),
{
    reveal(whole);
    reveal(ceiling);
    let q = quotient(of_int(25), of_int(100));
    let t = of_int(n - 1);
    let p = pow2(1074) as int;
    lemma_pow2_pos(1074);
    lemma_quarter_exact();
    lemma_of_int_exact((n - 1) as nat);
    let r = rank(n, q);
    let v = (t.magnitude() / 4) as int;
    if n == 1 {
        lemma_below_zero(with_sign(false, 0));
        lemma_fits(with_sign(false, 0));
        assert(0 * pow2(1074) == 0);
    } else {
        assert((n - 1) * p >= p) by (nonlinear_arith)
            requires
                n >= 2,
                p > 0,
        ;
        lemma_one_is_large(t);
        lemma_quarter_fits(t);
    }
    assert(4 * v == (n - 1) * p);
    assert(v * p == q.scaled() * t.scaled()) by (nonlinear_arith)
        requires
            4 * v == (n - 1) * p,
            4 * q.scaled() == p,
            t.scaled() == (n - 1) * p,
    ;
    lemma_product_exact(q, t, v);
    assert(!r.negative()) by {
        reveal(product);
        crate::double::lemma_nearest_bound(q.magnitude() * t.magnitude(), pow2(1074));
    }
    let a = (n - 1) / 4;
    let b = (n - 1) % 4;
    assert(n - 1 == 4 * a + b);
    assert(4 * r.magnitude() == (n - 1) * p);
    assert(4 * (r.magnitude() - a * p) == b * p) by (nonlinear_arith)
        requires
            4 * r.magnitude() == (n - 1) * p,
            n - 1 == 4 * a + b,
    ;
    let rest = r.magnitude() - a * p;
    assert(0 <= rest < p && (rest == 0 <==> b == 0)) by (nonlinear_arith)
        requires
            4 * rest == b * p,
            0 <= b < 4,
            p > 0,
    ;
    lemma_fundamental_div_mod_converse(r.magnitude() as int, p, a, rest);
}

/// All prices are for times that a clock shows.
pub open spec fn on_clock_times(prices: Seq<PriceInfo>) -> bool {
    forall|i: int| 0 <= i < prices.len() ==> (#[trigger] prices[i]).from.on_clock()
}

/// The price is for a time from `start` on and before `end`, in nanoseconds since 1970-01-01.
pub open spec fn lies_within(p: PriceInfo, start: int, end: int) -> bool {
    start <= p.from.since_epoch() < end
}

/// The prices for times from `start` on and before `end`, in nanoseconds since 1970-01-01.
pub open spec fn within(prices: Seq<PriceInfo>, start: int, end: int) -> Seq<PriceInfo> {
    prices.filter(|p: PriceInfo| lies_within(p, start, end))
}

/// `hours` hours in nanoseconds.
pub open spec fn hours_long(hours: int) -> int {
    hours * 3_600_000_000_000
}

/// The selection between two moments holds the prices from the first on and before the second, in
/// the order they have.
pub proof fn lemma_selected(prices: Seq<PriceInfo>, start: Moment, end: Moment)
    requires
        on_clock_times(prices),
        start.nanos < 1_000_000_000,
        end.nanos < 1_000_000_000,
    ensures
        between(prices, start, end) == within(prices, start.since_epoch(), end.since_epoch()),
    decreases prices.len(),
{
    reveal(Seq::filter);
    if prices.len() > 0 {
        let rest = prices.drop_last();
        assert forall|i: int| 0 <= i < rest.len() implies (#[trigger] rest[i]).from.on_clock() by {
            assert(prices[i] == rest[i]);
        }
        lemma_selected(rest, start, end);
        let p = prices[prices.len() - 1];
        assert(p.from.on_clock());
    }
}

/// The thresholds are drawn from the prices of the coming day, or of the configured number of hours
/// where that is more.
pub proof fn lemma_window(config: &Config, prices: Seq<PriceInfo>, now: Moment)
    requires
        on_clock_times(prices),
        now.on_clock(),
        now.can_move(config.lookahead_hours * 3_600),
    ensures
        ({
            let hours: int = if config.lookahead_hours > 24 {
                config.lookahead_hours as int
            } else {
                24
            };
            let start = now.since_epoch();
            &&& window_of(config, prices, now) == within(
                prices,
                start,
                start + hours_long(hours),
            ).map_values(|p: PriceInfo| p.price)
            &&& lookahead_of(config, prices, now) == within(
                prices,
                start,
                start + hours_long(config.lookahead_hours as int),
            )
        }),
{
    let hours: int = if config.lookahead_hours > 24 {
        config.lookahead_hours as int
    } else {
        24
    };
    let far = now.later(hours * 3_600);
    assert(far.secs == now.secs + hours * 3_600);
    lemma_selected(prices, now, far);
    let near = now.later(config.lookahead_hours * 3_600);
    lemma_selected(prices, now, near);
    assert(window_of(config, prices, now) =~= within(
        prices,
        now.since_epoch(),
        far.since_epoch(),
    ).map_values(|p: PriceInfo| p.price));
}

/// The price for now is one that began at most a quarter of an hour ago, and there is one where
/// some price did.
pub proof fn lemma_current_price(prices: Seq<PriceInfo>, now: Moment, from: int)
    requires
        on_clock_times(prices),
        now.on_clock(),
        0 <= from <= prices.len(),
    ensures
        match current_price(prices, now, from) {
            Some(p) => {
                &&& prices.contains(p)
                &&& 0 <= now.since_epoch() - p.from.since_epoch() < 900_000_000_000
            },
            None => forall|i: int|
                from <= i < prices.len() ==> !(0 <= now.since_epoch() - (
                #[trigger] prices[i]).from.since_epoch() < 900_000_000_000),
        },
    decreases prices.len() - from,
{
    if from < prices.len() {
        let p = prices[from];
        assert(p.from.on_clock());
        assert(p.from.later(900).since_epoch() == p.from.since_epoch() + 900_000_000_000);
        if !is_current(p, now) {
            lemma_current_price(prices, now, from + 1);
            assert(!(0 <= now.since_epoch() - p.from.since_epoch() < 900_000_000_000));
        } else {
            assert(prices[from] == p);
        }
    }
}

/// How many values lie below `x`.
pub open spec fn cheaper(data: Seq<Double>, x: Double) -> nat {
    count_of(data, |y: Double| less(y, x))
}

/// Where the value that ranks at position `k` is not below `x`, at most `k` values are.
proof fn lemma_few_are_cheaper(data: Seq<Double>, k: int, x: Double)
    requires
        0 <= k < data.len(),
        all_numbers(data),
        !less(in_order(data)[k], x),
    ensures
        cheaper(data, x) <= k,
{
    reveal(less);
    let s = in_order(data);
    lemma_in_order(data);
    lemma_sorted_numbers(data);
    lemma_count_low(data, k, |y: Double| less(y, x));
    assert forall|i: int| k <= i < data.len() implies !less(#[trigger] s[i], x) by {
        assert(s[k].sort_key() <= s[i].sort_key());
    }
}

/// Before a spike, the battery is charged only in the cheapest quarter of what comes before it: at
/// most (n + 2) / 4 of the `n` prices from now to the spike are below the present one. Above the
/// price of that rank it waits, and at or below the price that ranks at (n - 1) / 4 it charges.
/// Left out are entry prices that rounding has put beyond the two prices they lie between, which
/// cannot be where `n` is one more than a multiple of four.
pub proof fn lemma_only_the_dip_is_charged(
    config: &Config,
    prices: Seq<PriceInfo>,
    weather: &WeatherResponse,
    now: Moment,
    current: Double,
    peak: Moment,
)
    requires
        on_clock_times(prices),
        now.on_clock(),
        peak.on_clock(),
        comparable(prices),
        prices.len() <= 2 * STEP,
    ensures
        ({
            let dip = within(prices, now.since_epoch(), peak.since_epoch()).map_values(
                |p: PriceInfo| p.price,
            );
            let n = dip.len() as int;
            let upper = in_order(dip)[(n + 2) / 4];
            let lower = in_order(dip)[(n - 1) / 4];
            let entry = percentile_of(dip, quotient(of_int(25), of_int(100)));
            let decision = before_spike(config, prices, weather, now, current, peak);
            &&& n == 0 <==> (decision matches BatteryDecision::ForceCharge(
                _,
                ChargeReason::ImmediateSpike(_),
            ))
            &&& (decision matches BatteryDecision::ForceCharge(_, ChargeReason::PreSpike(_)))
                && !less(upper, entry) ==> cheaper(dip, current) <= (n + 2) / 4
            &&& n > 0 && !current.is_nan() && less(upper, current) && !less(upper, entry)
                ==> decision is WaitForLower
            &&& n > 0 && at_most(current, lower) && at_most(lower, entry) ==> (
            decision matches BatteryDecision::ForceCharge(_, ChargeReason::PreSpike(_)))
            &&& n % 4 == 1 ==> entry == upper && entry == lower
            &&& decision matches BatteryDecision::WaitForLower(keep, x) ==> keep == kept_soc(
                config,
                weather,
                now,
            ) && x == entry && (less(
                entry,
                current,
            ) || current.is_nan() || entry.is_nan())
        }),
{
    reveal(less);
    reveal(at_most);
    lemma_selected(prices, now, peak);
    let part = between(prices, now, peak);
    let dip = within(prices, now.since_epoch(), peak.since_epoch()).map_values(
        |p: PriceInfo| p.price,
    );
    assert(values(part) =~= dip);
    crate::analysis::lemma_between(prices, now, peak);
    let n = dip.len() as int;
    if n > 0 {
        lemma_quarter_rank(n as nat);
        let upper = in_order(dip)[(n + 2) / 4];
        let entry = percentile_of(dip, quotient(of_int(25), of_int(100)));
        lemma_in_order(dip);
        lemma_sorted_numbers(dip);
        if at_most(current, entry) && !less(upper, entry) {
            lemma_few_are_cheaper(dip, (n + 2) / 4, current);
        }
    }
}

/// A percentile lies on the line between the two values next to its rank, as far along as its rank
/// is, in exact arithmetic. `place` is the rank, `a` and `b` the parts that the two values have.
pub proof fn lemma_percentile_is_linear(data: Seq<Double>, p: Double, place: int, a: int, b: int)
    requires
        1 < data.len() <= 2 * STEP,
        p.is_finite(),
        !p.negative(),
        p.scaled() <= pow2(1074),
        fits(place),
        place == p.scaled() * (data.len() - 1),
        ({
            let k = place / pow2(1074) as int;
            let weight = place - k * pow2(1074);
            let lower = in_order(data)[k];
            let upper = in_order(data)[k + 1];
            weight != 0 ==> {
                &&& fits(weight)
                &&& fits(pow2(1074) - weight)
                &&& lower.is_finite()
                &&& upper.is_finite()
                &&& fits(a)
                &&& fits(b)
                &&& fits(a + b)
                &&& a * pow2(1074) == lower.scaled() * (pow2(1074) - weight)
                &&& b * pow2(1074) == upper.scaled() * weight
            }
        }),
    ensures
        ({
            let k = place / pow2(1074) as int;
            let weight = place - k * pow2(1074);
            let lower = in_order(data)[k];
            let upper = in_order(data)[k + 1];
            let x = percentile_of(data, p);
            &&& 0 <= k < data.len()
            &&& weight == 0 ==> x == lower
            &&& weight != 0 ==> k + 1 < data.len() && x.is_finite() && (x.scaled() - lower.scaled()) * pow2(1074)
                == weight * (upper.scaled() - lower.scaled())
        }),
{
    reveal(whole);
    reveal(ceiling);
    let u = pow2(1074) as int;
    lemma_pow2_pos(1074);
    let n = data.len();
    let t = of_int(n - 1);
    lemma_of_int_exact((n - 1) as nat);
    lemma_of_int_exact(1);
    lemma_share_is_percentile(n, p);
    assert(place * u == p.scaled() * t.scaled()) by (nonlinear_arith)
        requires
            place == p.scaled() * (n - 1),
            t.scaled() == (n - 1) * u,
    ;
    lemma_product_exact(p, t, place);
    let r = rank(n, p);
    assert(!r.negative()) by {
        reveal(product);
        crate::double::lemma_nearest_bound(p.magnitude() * t.magnitude(), pow2(1074));
    }
    let k = place / u;
    let weight = place - k * u;
    lemma_fundamental_div_mod(place, u);
    assert(u * k == k * u) by (nonlinear_arith);
    assert(place >= 0) by (nonlinear_arith)
        requires
            place == p.scaled() * (n - 1),
            p.scaled() >= 0,
            n >= 1,
    ;
    vstd::arithmetic::div_mod::lemma_mod_bound(place, u);
    assert(place <= (n - 1) * u) by (nonlinear_arith)
        requires
            place == p.scaled() * (n - 1),
            p.scaled() <= u,
            n >= 1,
    ;
    assert(0 <= k <= n - 1) by (nonlinear_arith)
        requires
            place == k * u + weight,
            0 <= weight < u,
            0 <= place <= (n - 1) * u,
            u > 0,
    ;
    assert(rank_below(r) == k);
    if weight != 0 {
        let lower = in_order(data)[k];
        let upper = in_order(data)[k + 1];
        let base = of_int(k);
        lemma_of_int_exact(k as nat);
        lemma_difference_exact(r, base);
        let w = difference(r, base);
        lemma_difference_exact(of_int(1), w);
        let v = difference(of_int(1), w);
        lemma_product_exact(lower, v, a);
        lemma_product_exact(upper, w, b);
        lemma_sum_exact(product(lower, v), product(upper, w));
        let x = percentile_of(data, p);
        assert(x.scaled() == a + b);
        let l = lower.scaled();
        let h = upper.scaled();
        assert((a + b - l) * u == a * u + b * u - l * u) by (nonlinear_arith);
        assert(l * (u - weight) == l * u - weight * l) by (nonlinear_arith);
        assert(h * weight == weight * h) by (nonlinear_arith);
        assert(weight * (h - l) == weight * h - weight * l) by (nonlinear_arith);
    }
}

/// A percentile that needs no rounding lies between the two values next to its rank.
pub proof fn lemma_percentile_lies_between(data: Seq<Double>, p: Double, place: int, a: int, b: int)
    requires
        1 < data.len() <= 2 * STEP,
        all_numbers(data),
        p.is_finite(),
        !p.negative(),
        p.scaled() <= pow2(1074),
        fits(place),
        place == p.scaled() * (data.len() - 1),
        ({
            let k = place / pow2(1074) as int;
            let weight = place - k * pow2(1074);
            let lower = in_order(data)[k];
            let upper = in_order(data)[k + 1];
            weight != 0 ==> {
                &&& fits(weight)
                &&& fits(pow2(1074) - weight)
                &&& lower.is_finite()
                &&& upper.is_finite()
                &&& fits(a)
                &&& fits(b)
                &&& fits(a + b)
                &&& a * pow2(1074) == lower.scaled() * (pow2(1074) - weight)
                &&& b * pow2(1074) == upper.scaled() * weight
            }
        }),
    ensures
        ({
            let r = rank(data.len(), p);
            let x = percentile_of(data, p);
            &&& !less(x, in_order(data)[rank_below(r) as int])
            &&& !less(in_order(data)[rank_above(r) as int], x)
        }),
{
    reveal(less);
    reveal(whole);
    reveal(ceiling);
    let u = pow2(1074) as int;
    lemma_pow2_pos(1074);
    let n = data.len();
    let t = of_int(n - 1);
    lemma_of_int_exact((n - 1) as nat);
    lemma_share_is_percentile(n, p);
    lemma_in_order(data);
    lemma_sorted_numbers(data);
    assert(place * u == p.scaled() * t.scaled()) by (nonlinear_arith)
        requires
            place == p.scaled() * (n - 1),
            t.scaled() == (n - 1) * u,
    ;
    lemma_product_exact(p, t, place);
    let r = rank(n, p);
    assert(!r.negative()) by {
        reveal(product);
        crate::double::lemma_nearest_bound(p.magnitude() * t.magnitude(), pow2(1074));
    }
    lemma_percentile_is_linear(data, p, place, a, b);
    let k = place / u;
    let weight = place - k * u;
    lemma_fundamental_div_mod(place, u);
    vstd::arithmetic::div_mod::lemma_mod_bound(place, u);
    assert(u * k == k * u) by (nonlinear_arith);
    assert(rank_below(r) == k);
    if weight != 0 {
        let lower = in_order(data)[k];
        let upper = in_order(data)[k + 1];
        let x = percentile_of(data, p);
        let l = lower.scaled();
        let h = upper.scaled();
        assert(rank_above(r) == k + 1);
        assert(lower.sort_key() <= upper.sort_key());
        lemma_key_order(upper, lower);
        assert(x.is_finite());
        let y = x.scaled();
        assert(l <= y <= h) by (nonlinear_arith)
            requires
                (y - l) * u == weight * (h - l),
                0 < weight < u,
                l <= h,
        ;
        lemma_key_order(x, lower);
        lemma_key_order(upper, x);
    }
}

/// An analysis comes to a decision where a price holds now and at least four are known for the
/// coming day. Its thresholds are the configured percentiles of those prices, and the heat pump is
/// blocked where the present price is above the first of them.
pub proof fn lemma_analysis(
    config: &Config,
    prices: Seq<PriceInfo>,
    weather: &WeatherResponse,
    now: Moment,
    soc: u8,
)
    requires
        on_clock_times(prices),
        now.on_clock(),
        now.can_move(config.lookahead_hours * 3_600),
    ensures
        ({
            let hours: int = if config.lookahead_hours > 24 {
                config.lookahead_hours as int
            } else {
                24
            };
            let start = now.since_epoch();
            let window = within(prices, start, start + hours_long(hours)).map_values(
                |p: PriceInfo| p.price,
            );
            let known = exists|i: int|
                0 <= i < prices.len() && 0 <= start - (#[trigger] prices[i]).from.since_epoch()
                    < 900_000_000_000;
            let hundred = of_int(100);
            match analysis_of(config, prices, weather, now, soc) {
                Err(e) => {
                    &&& e is NoCurrentPrice <==> !known
                    &&& e is NotEnoughData <==> known && window.len() < 4
                    &&& !(e is UpdateFailed)
                },
                Ok(a) => {
                    &&& known
                    &&& window.len() >= 4
                    &&& exists|i: int|
                        0 <= i < prices.len() && (#[trigger] prices[i]).price
                            == a.thresholds.current_price && 0 <= start
                            - prices[i].from.since_epoch() < 900_000_000_000
                    &&& a.thresholds.block_threshold == percentile_of(
                        window,
                        quotient(config.block_price_percentile, hundred),
                    )
                    &&& a.thresholds.low_price_threshold == percentile_of(
                        window,
                        quotient(config.low_price_percentile, hundred),
                    )
                    &&& a.thresholds.spike_threshold == percentile_of(
                        window,
                        quotient(config.high_spike_percentile, hundred),
                    )
                    &&& a.compressor is Blocked <==> less(
                        a.thresholds.block_threshold,
                        a.thresholds.current_price,
                    )
                    &&& config.enable_battery_control ==> a.expected_pv_kwh == remaining_pv_kwh(
                        config,
                        weather,
                        now,
                    )
                    &&& !config.enable_battery_control ==> a.battery == BatteryDecision::Baseline(
                        kept_soc(config, weather, now),
                    ) && a.expected_pv_kwh.scaled() == 0
                },
            }
        }),
{
    lemma_window(config, prices, now);
    lemma_current_price(prices, now, 0);
    lemma_below_zero(with_sign(false, 0));
    match current_price(prices, now, 0) {
        Some(p) => {
            let i = choose|i: int| 0 <= i < prices.len() && prices[i] == p;
            assert(prices[i] == p);
        },
        None => {},
    }
}

/// The season in which winter's rules hold.
pub open spec fn in_winter(date: Date) -> bool {
    date.month < 4 || date.month > 9
}

/// The battery is charged for a spike only where a price within the lookahead is above the spike
/// threshold and more than the configured difference above the present price. The charge is what
/// is needed until four hours after the highest price.
pub proof fn lemma_spikes_are_high(
    config: &Config,
    prices: Seq<PriceInfo>,
    weather: &WeatherResponse,
    now: Moment,
    soc: u8,
    thresholds: PriceThresholds,
)
    requires
        on_clock_times(prices),
        comparable(prices),
        now.on_clock(),
        now.can_move(config.lookahead_hours * 3_600),
        thresholds.current_price.is_finite(),
        config.min_spike_difference_cents.is_finite(),
        forall|i: int| 0 <= i < prices.len() ==> (#[trigger] prices[i]).price.is_finite(),
    ensures
        ({
            let start = now.since_epoch();
            let end = start + hours_long(config.lookahead_hours as int);
            match outcome(config, prices, weather, now, soc, thresholds).battery {
                BatteryDecision::ForceCharge(target, reason) => (reason
                    == ChargeReason::PreSpike(target) || reason == ChargeReason::ImmediateSpike(
                    target,
                ) || !(reason is PreSpike || reason is ImmediateSpike)) && ((reason is PreSpike
                    || reason is ImmediateSpike) ==> exists|i: int|
                    {
                        &&& 0 <= i < prices.len()
                        &&& lies_within(#[trigger] prices[i], start, end)
                        &&& less(thresholds.spike_threshold, prices[i].price)
                        &&& prices[i].price.scaled() - thresholds.current_price.scaled()
                            > config.min_spike_difference_cents.scaled()
                        &&& forall|j: int|
                            0 <= j < prices.len() && lies_within(#[trigger] prices[j], start, end)
                                ==> prices[j].price.scaled() <= prices[i].price.scaled()
                        &&& target == required_soc(
                            config,
                            weather,
                            now,
                            Moment {
                                secs: (prices[i].from.secs + 4 * 3_600) as i64,
                                nanos: prices[i].from.nanos,
                            },
                        )
                    }),
                _ => true,
            }
        }),
{
    let ahead = lookahead_of(config, prices, now);
    lemma_window(config, prices, now);
    let start = now.since_epoch();
    let end = start + hours_long(config.lookahead_hours as int);
    let battery = outcome(config, prices, weather, now, soc, thresholds).battery;
    if battery is ForceCharge && (battery->ForceCharge_1 is PreSpike
        || battery->ForceCharge_1 is ImmediateSpike) {
        lemma_within(prices, start, end);
        crate::analysis::lemma_between(
            prices,
            now,
            now.later(config.lookahead_hours * 3_600),
        );
        lemma_highest(ahead);
        let top = highest(ahead);
        let k = choose|k: int| 0 <= k < ahead.len() && ahead[k] == top;
        assert(ahead.contains(ahead[k]));
        assert(prices.contains(top));
        let i = choose|i: int| 0 <= i < prices.len() && prices[i] == top;
        assert(prices[i] == top);
        assert(prices[i].price.is_finite());
        lemma_difference_above(
            top.price,
            thresholds.current_price,
            config.min_spike_difference_cents,
        );
        assert forall|j: int|
            0 <= j < prices.len() && lies_within(
                #[trigger] prices[j],
                start,
                end,
            ) implies prices[j].price.scaled() <= prices[i].price.scaled() by {
            assert(prices.contains(prices[j]));
            assert(ahead.contains(prices[j]));
            let m = choose|m: int| 0 <= m < ahead.len() && ahead[m] == prices[j];
            assert(!less(top.price, ahead[m].price));
            reveal(less);
            lemma_key_order(top.price, prices[j].price);
        }
        assert(top.from.on_clock());
        assert(top.from.later(14_400) == (Moment {
            secs: (top.from.secs + 4 * 3_600) as i64,
            nanos: top.from.nanos,
        }));
        lemma_soc_is_small(config, weather, now, top.from.later(14_400));
    }
}

proof fn lemma_soc_is_small(config: &Config, weather: &WeatherResponse, start: Moment, end: Moment)
    ensures
        required_soc(config, weather, start, end) <= 100,
{
}

/// A selection holds the prices within its time and no others.
proof fn lemma_within(prices: Seq<PriceInfo>, start: int, end: int)
    ensures
        forall|p: PriceInfo| #[trigger]
            within(prices, start, end).contains(p) <==> prices.contains(p) && lies_within(
                p,
                start,
                end,
            ),
    decreases prices.len(),
{
    reveal(Seq::filter);
    if prices.len() > 0 {
        let rest = prices.drop_last();
        lemma_within(rest, start, end);
        let all = within(prices, start, end);
        let some = within(rest, start, end);
        let q = prices[prices.len() - 1];
        assert forall|p: PriceInfo| #[trigger] all.contains(p) <==> prices.contains(p)
            && lies_within(p, start, end) by {
            if all.contains(p) {
                let k = choose|k: int| 0 <= k < all.len() && all[k] == p;
                if k < some.len() {
                    assert(some[k] == p);
                    assert(some.contains(p));
                    let i = choose|i: int| 0 <= i < rest.len() && rest[i] == p;
                    assert(prices[i] == p);
                } else {
                    assert(p == q);
                }
            }
            if prices.contains(p) && lies_within(p, start, end) {
                let i = choose|i: int| 0 <= i < prices.len() && prices[i] == p;
                if i < rest.len() {
                    assert(rest[i] == p);
                    assert(rest.contains(p));
                    assert(some.contains(p));
                    let k = choose|k: int| 0 <= k < some.len() && some[k] == p;
                    assert(all[k] == p);
                } else {
                    assert(all[some.len() as int] == p);
                }
            }
        }
    }
}

/// Where some price within the lookahead is above the spike threshold and more than the configured
/// difference above the present price, the battery is charged for the spike or waits for the dip
/// before it, whatever else the price is.
pub proof fn lemma_spikes_are_seen(
    config: &Config,
    prices: Seq<PriceInfo>,
    weather: &WeatherResponse,
    now: Moment,
    thresholds: PriceThresholds,
    i: int,
)
    requires
        on_clock_times(prices),
        now.on_clock(),
        now.can_move(config.lookahead_hours * 3_600),
        thresholds.current_price.is_finite(),
        config.min_spike_difference_cents.is_finite(),
        forall|j: int| 0 <= j < prices.len() ==> (#[trigger] prices[j]).price.is_finite(),
        0 <= i < prices.len(),
        lies_within(
            prices[i],
            now.since_epoch(),
            now.since_epoch() + hours_long(config.lookahead_hours as int),
        ),
        less(thresholds.spike_threshold, prices[i].price),
        fits(prices[i].price.scaled() - thresholds.current_price.scaled()),
        prices[i].price.scaled() - thresholds.current_price.scaled()
            > config.min_spike_difference_cents.scaled(),
    ensures
        match by_price(config, prices, weather, now, thresholds) {
            BatteryDecision::ForceCharge(_, reason) => reason is PreSpike
                || reason is ImmediateSpike,
            BatteryDecision::WaitForLower(_, _) => true,
            BatteryDecision::Baseline(_) => false,
        },
{
    reveal(less);
    let ahead = lookahead_of(config, prices, now);
    let start = now.since_epoch();
    let end = start + hours_long(config.lookahead_hours as int);
    lemma_window(config, prices, now);
    lemma_within(prices, start, end);
    assert(prices.contains(prices[i]));
    assert(ahead.contains(prices[i]));
    assert forall|j: int| 0 <= j < prices.len() implies !(#[trigger] prices[j]).price.is_nan() by {
        assert(prices[j].price.is_finite());
    }
    crate::analysis::lemma_between(prices, now, now.later(config.lookahead_hours * 3_600));
    lemma_highest(ahead);
    let top = highest(ahead);
    let k = choose|k: int| 0 <= k < ahead.len() && ahead[k] == prices[i];
    assert(!less(top.price, ahead[k].price));
    let m = choose|m: int| 0 <= m < ahead.len() && ahead[m] == top;
    assert(ahead.contains(ahead[m]));
    assert(prices.contains(top));
    let t = choose|t: int| 0 <= t < prices.len() && prices[t] == top;
    assert(prices[t].price.is_finite());
    let x = prices[i].price;
    let c = thresholds.current_price;
    lemma_difference_exact(x, c);
    lemma_key_order(config.min_spike_difference_cents, difference(x, c));
    lemma_opposite(c);
    lemma_sum_ordered(x, top.price, opposite(c));
}

/// Outside spikes, a low price is used only where no price within the lookahead is more than a
/// hundredth of a cent lower; else the battery waits for the lowest of them. With no prices ahead
/// a low price is used at once. A price that is not low changes nothing.
pub proof fn lemma_low_points(
    config: &Config,
    prices: Seq<PriceInfo>,
    weather: &WeatherResponse,
    now: Moment,
    thresholds: PriceThresholds,
)
    requires
        on_clock_times(prices),
        comparable(prices),
        now.on_clock(),
        now.can_move(config.lookahead_hours * 3_600),
    ensures
        ({
            let start = now.since_epoch();
            let end = start + hours_long(config.lookahead_hours as int);
            let ahead = within(prices, start, end);
            let current = thresholds.current_price;
            let cent = quotient(of_int(1), of_int(100));
            let decision = by_price(config, prices, weather, now, thresholds);
            &&& decision matches BatteryDecision::Baseline(keep) ==> keep == kept_soc(
                config,
                weather,
                now,
            ) && !less(current, thresholds.low_price_threshold)
            &&& decision is ForceCharge && (decision->ForceCharge_1 is LowPoint
                || decision->ForceCharge_1 is EodLow) ==> {
                &&& less(current, thresholds.low_price_threshold)
                &&& decision->ForceCharge_0 == force_charge_soc(config, now)
                &&& decision->ForceCharge_1 is EodLow <==> ahead.len() == 0
                &&& ahead.len() > 0 ==> exists|k: int|
                    0 <= k < ahead.len() && at_most(
                        current,
                        sum((#[trigger] ahead[k]).price, cent),
                    ) && forall|j: int|
                        0 <= j < ahead.len() ==> !less((#[trigger] ahead[j]).price, ahead[k].price)
            }
            &&& !(decision is ForceCharge && decision->ForceCharge_1 is WinterLowPv)
        }),
{
    let ahead = lookahead_of(config, prices, now);
    lemma_window(config, prices, now);
    crate::analysis::lemma_between(prices, now, now.later(config.lookahead_hours * 3_600));
    if ahead.len() > 0 {
        lemma_lowest(ahead);
        let low = lowest(ahead);
        let k = choose|k: int| 0 <= k < ahead.len() && (#[trigger] ahead[k]).price == low;
        assert(ahead[k].price == low);
    }
}

/// A low price that is at most a hundredth of a cent above every price within the lookahead is
/// used, where no spike is ahead.
pub proof fn lemma_lowest_price_is_used(
    config: &Config,
    prices: Seq<PriceInfo>,
    weather: &WeatherResponse,
    now: Moment,
    thresholds: PriceThresholds,
)
    requires
        on_clock_times(prices),
        comparable(prices),
        now.on_clock(),
        now.can_move(config.lookahead_hours * 3_600),
        less(thresholds.current_price, thresholds.low_price_threshold),
        ({
            let start = now.since_epoch();
            let ahead = within(
                prices,
                start,
                start + hours_long(config.lookahead_hours as int),
            );
            forall|j: int|
                0 <= j < ahead.len() ==> at_most(
                    thresholds.current_price,
                    sum((#[trigger] ahead[j]).price, quotient(of_int(1), of_int(100))),
                ) && !less(thresholds.spike_threshold, ahead[j].price)
        }),
    ensures
        by_price(config, prices, weather, now, thresholds) matches BatteryDecision::ForceCharge(
            target,
            reason,
        ) && target == force_charge_soc(config, now) && (reason is LowPoint || reason is EodLow),
{
    let ahead = lookahead_of(config, prices, now);
    lemma_window(config, prices, now);
    crate::analysis::lemma_between(prices, now, now.later(config.lookahead_hours * 3_600));
    if ahead.len() > 0 {
        lemma_lowest(ahead);
        lemma_highest(ahead);
        let low = lowest(ahead);
        let m = choose|m: int| 0 <= m < ahead.len() && (#[trigger] ahead[m]).price == low;
        assert(at_most(
            thresholds.current_price,
            sum(ahead[m].price, quotient(of_int(1), of_int(100))),
        ));
        let t = choose|t: int| 0 <= t < ahead.len() && ahead[t] == highest(ahead);
        assert(!less(thresholds.spike_threshold, ahead[t].price));
    }
}

/// A price that is low, but not the lowest ahead, is let pass: the battery keeps its charge and
/// waits for the lowest price within the lookahead.
pub proof fn lemma_lower_price_is_awaited(
    config: &Config,
    prices: Seq<PriceInfo>,
    weather: &WeatherResponse,
    now: Moment,
    thresholds: PriceThresholds,
    k: int,
)
    requires
        on_clock_times(prices),
        comparable(prices),
        now.on_clock(),
        now.can_move(config.lookahead_hours * 3_600),
        less(thresholds.current_price, thresholds.low_price_threshold),
        ({
            let start = now.since_epoch();
            let ahead = within(
                prices,
                start,
                start + hours_long(config.lookahead_hours as int),
            );
            &&& 0 <= k < ahead.len()
            &&& ahead[k].price.is_finite()
            &&& less(
                sum(ahead[k].price, quotient(of_int(1), of_int(100))),
                thresholds.current_price,
            )
            &&& forall|j: int|
                0 <= j < ahead.len() ==> !less(
                    thresholds.spike_threshold,
                    (#[trigger] ahead[j]).price,
                )
        }),
    ensures
        ({
            let start = now.since_epoch();
            let ahead = within(
                prices,
                start,
                start + hours_long(config.lookahead_hours as int),
            );
            by_price(config, prices, weather, now, thresholds) matches BatteryDecision::WaitForLower(
                keep,
                x,
            ) && keep == kept_soc(config, weather, now) && !less(ahead[k].price, x) && exists|j: int|
                0 <= j < ahead.len() && (#[trigger] ahead[j]).price == x
        }),
{
    reveal(less);
    reveal(at_most);
    let ahead = lookahead_of(config, prices, now);
    lemma_window(config, prices, now);
    crate::analysis::lemma_between(prices, now, now.later(config.lookahead_hours * 3_600));
    lemma_lowest(ahead);
    lemma_highest(ahead);
    let low = lowest(ahead);
    let cent = quotient(of_int(1), of_int(100));
    assert(!less(ahead[k].price, low));
    let m = choose|m: int| 0 <= m < ahead.len() && (#[trigger] ahead[m]).price == low;
    assert(!ahead[m].price.is_nan());
    lemma_ratio_is_share(1, 100);
    lemma_sum_ordered(low, ahead[k].price, cent);
    let t = choose|t: int| 0 <= t < ahead.len() && ahead[t] == highest(ahead);
    assert(!less(thresholds.spike_threshold, ahead[t].price));
}

/// What a battery lacks is its size times the share of the charge that is missing.
pub proof fn lemma_missing_charge(config: &Config, soc: u8, share: int, missing: int)
    requires
        soc <= 100,
        config.battery_size_kwh.is_finite(),
        fits(share),
        100 * share == (100 - soc) * pow2(1074),
        fits(missing),
        missing * pow2(1074) == config.battery_size_kwh.scaled() * share,
    ensures
        missing_kwh(config, soc).is_finite(),
        100 * missing_kwh(config, soc).scaled() == (100 - soc) * config.battery_size_kwh.scaled(),
{
    let u = pow2(1074) as int;
    lemma_pow2_pos(1074);
    lemma_of_int_exact(100);
    lemma_of_int_exact(soc as nat);
    lemma_of_int_exact((100 - soc) as nat);
    lemma_fits(of_int(100 - soc));
    assert(100 * u - soc * u == (100 - soc) * u) by (nonlinear_arith);
    lemma_difference_exact(of_int(100), of_int(soc as int));
    let d = difference(of_int(100), of_int(soc as int));
    assert(share * (100 * u) == d.scaled() * u) by (nonlinear_arith)
        requires
            100 * share == d.scaled(),
    ;
    lemma_quotient_exact(d, of_int(100), share);
    lemma_product_exact(config.battery_size_kwh, quotient(d, of_int(100)), missing);
    let size = config.battery_size_kwh.scaled();
    assert((100 * missing) * u == ((100 - soc) * size) * u) by (nonlinear_arith)
        requires
            missing * u == size * share,
            100 * share == (100 - soc) * u,
    ;
    assert(100 * missing == (100 - soc) * size) by (nonlinear_arith)
        requires
            (100 * missing) * u == ((100 - soc) * size) * u,
            u > 0,
    ;
}

/// Where the sun is expected to give what the battery lacks, nothing is charged from the grid at a
/// price of more than one cent, and cheaper charging goes on as decided. Where it gives less than
/// 30 % of that, winter charges at every low price. Nothing else changes a decision.
pub proof fn lemma_sun_changes_decisions(
    config: &Config,
    weather: &WeatherResponse,
    now: Moment,
    date: Date,
    soc: u8,
    thresholds: PriceThresholds,
    decision: BatteryDecision,
)
    requires
        date.is_valid(),
        date.number() == now.day(),
        thresholds.current_price.is_finite(),
    ensures
        ({
            let after = with_sun(config, weather, now, soc, thresholds, decision);
            let sun = remaining_pv_kwh(config, weather, now);
            let missing = missing_kwh(config, soc);
            let filled = at_most(missing, sun);
            let dim = less(sun, product(missing, quotient(of_int(30), of_int(100))));
            let low = less(thresholds.current_price, thresholds.low_price_threshold);
            &&& filled && decision is ForceCharge && thresholds.current_price.scaled() > pow2(1074)
                ==> after is Baseline && after->Baseline_0 == kept_soc(config, weather, now)
            &&& filled && thresholds.current_price.scaled() <= pow2(1074) ==> after == decision
            &&& filled && !(decision is ForceCharge) ==> after == decision
            &&& !filled && in_winter(date) && dim && low ==> after == BatteryDecision::ForceCharge(
                config.winter_force_charge_soc,
                ChargeReason::WinterLowPv,
            )
            &&& !filled && (!in_winter(date) || !dim || !low) ==> after == decision
        }),
{
    reveal(less);
    lemma_settings_follow_the_season(config, now, date);
    crate::weather::lemma_summer_is_april_to_september(now, date);
    lemma_of_int_exact(1);
    lemma_key_order(of_int(1), thresholds.current_price);
}

/// The charge that is kept is the season's minimum, but for winter mornings before a sunny day:
/// from 6 to 12 o'clock local time, where the next day is to give at least half the battery, the
/// summer's minimum is kept if it is lower.
pub proof fn lemma_kept_charge(
    config: &Config,
    weather: &WeatherResponse,
    now: Moment,
    date: Date,
    half: int,
)
    requires
        date.is_valid(),
        date.number() == now.day(),
        config.battery_size_kwh.is_finite(),
        next_day_pv_kwh(config, weather, now).is_finite(),
        fits(half),
        2 * half == config.battery_size_kwh.scaled(),
    ensures
        ({
            let kept = kept_soc(config, weather, now);
            let sunny = 2 * next_day_pv_kwh(config, weather, now).scaled()
                >= config.battery_size_kwh.scaled();
            let morning = 6 <= now.cet_hour() < 12;
            &&& !in_winter(date) ==> kept == config.summer_min_soc
            &&& in_winter(date) && sunny && morning ==> kept == (if config.summer_min_soc
                < config.winter_min_soc {
                config.summer_min_soc
            } else {
                config.winter_min_soc
            })
            &&& in_winter(date) && !(sunny && morning) ==> kept == config.winter_min_soc
        }),
{
    reveal(at_most);
    lemma_settings_follow_the_season(config, now, date);
    crate::weather::lemma_summer_is_april_to_september(now, date);
    let u = pow2(1074) as int;
    lemma_pow2_pos(1074);
    lemma_of_int_exact(1);
    lemma_of_int_exact(50);
    lemma_of_int_exact(100);
    lemma_one_is_large(of_int(1));
    let v = (of_int(1).magnitude() / 2) as int;
    lemma_half_fits(of_int(1));
    assert(2 * v == u);
    assert(v * (100 * u) == (50 * u) * u) by (nonlinear_arith)
        requires
            2 * v == u,
    ;
    lemma_quotient_exact(of_int(50), of_int(100), v);
    let share = quotient(of_int(50), of_int(100));
    let size = config.battery_size_kwh;
    assert(half * u == size.scaled() * v) by (nonlinear_arith)
        requires
            2 * half == size.scaled(),
            2 * v == u,
    ;
    lemma_product_exact(size, share, half);
    lemma_key_order(next_day_pv_kwh(config, weather, now), product(size, share));
}

/// Half of a number from 3 * 2^-1022 on is a number.
pub proof fn lemma_half_fits(x: Double)
    requires
        x.is_finite(),
        !x.negative(),
        x.low() >= 3 * STEP,
    ensures
        x.magnitude() % 2 == 0,
        fits((x.magnitude() / 2) as int),
{
    let y = with_sign(false, (x.low() - STEP) as nat);
    let e = x.low() / STEP as nat;
    let f = x.low() % STEP as nat;
    lemma_fundamental_div_mod(x.low() as int, STEP as int);
    assert(e >= 3);
    assert(y.low() == x.low() - STEP);
    lemma_fundamental_div_mod_converse(y.low() as int, STEP as int, e - 1, f as int);
    lemma_pow2_adds((e - 2) as nat, 1);
    vstd::arithmetic::power2::lemma2_to64();
    let p = pow2((e - 2) as nat);
    assert(pow2((e - 1) as nat) == p * 2);
    let m = (f + STEP) as nat;
    assert(x.magnitude() == m * pow2((e - 1) as nat));
    assert(y.magnitude() == m * p);
    assert(m * (p * 2) == (m * p) * 2) by (nonlinear_arith);
    assert(y.is_finite() && y.scaled() == x.magnitude() / 2);
}

} // verus!
