//! Laws of the forecast: energy adds up hour by hour, surplus included, and the charge that is
//! asked for covers it. Values are compared in exact arithmetic, in units of 2^-1074.

use vstd::arithmetic::div_mod::{lemma_fundamental_div_mod, lemma_mod_bound};
use vstd::arithmetic::power2::{lemma_pow2_pos, pow2};
use vstd::prelude::*;

use crate::bounds::{
    fits, lemma_below_zero, lemma_difference_exact, lemma_fits, lemma_key_order, lemma_nearest_self,
    lemma_of_int_exact, lemma_opposite, lemma_product_exact, lemma_quotient_exact, lemma_sum_exact,
    lemma_sum_ordered,
};
use crate::calendar::Date;
use crate::config::Config;
use crate::double::{
    at_least_zero, ceiling, difference, less, of_int, opposite, product, quotient, sum, whole,
    with_sign, Double,
};
use crate::moment::{hour_label, in_calendar, local_hour, Moment};
use crate::weather::{
    baseline_soc, battery_kwh, force_charge_soc, forecast_for, heating_demand, heating_kw,
    hours_left, lemma_summer_is_april_to_september, line_of, needed_kwh, next_day_pv_kwh, pv_kw,
    pv_kwh, remaining_pv_kwh, required_soc, value_at, with_hour, WeatherResponse,
};

verus! {

/// The temperature forecast for the hour at `at`.
pub open spec fn temperature_at(weather: &WeatherResponse, at: Moment) -> Double {
    forecast_for(weather.hourly.time@, weather.hourly.temperature_2m@, at)
}

/// The radiation forecast for the hour at `at`.
pub open spec fn radiation_at(weather: &WeatherResponse, at: Moment) -> Double {
    forecast_for(weather.hourly.time@, weather.hourly.shortwave_radiation@, at)
}

/// What the hour at `at` needs beyond what the sun gives; below zero where the sun gives more.
pub open spec fn hour_net(config: &Config, weather: &WeatherResponse, at: Moment) -> int {
    config.base_load_kw.scaled() + heating_kw(config, temperature_at(weather, at)).scaled() - pv_kw(
        config,
        radiation_at(weather, at),
    ).scaled()
}

/// One hour on.
pub open spec fn next_hour(at: Moment) -> Moment {
    Moment { secs: (at.secs + 3_600) as i64, nanos: at.nanos }
}

/// What the hours from `at` to `end` need together beyond what the sun gives.
pub open spec fn period_net(
    config: &Config,
    weather: &WeatherResponse,
    at: Moment,
    end: Moment,
) -> int
    decreases hours_left(at, end),
{
    if at.before(end) && in_calendar(end.secs as int) {
        hour_net(config, weather, at) + period_net(config, weather, next_hour(at), end)
    } else {
        0
    }
}

/// Nothing is rounded when the hours from `at` to `end` are added to `total`.
pub open spec fn adds_exactly(
    config: &Config,
    weather: &WeatherResponse,
    at: Moment,
    end: Moment,
    total: int,
) -> bool
    decreases hours_left(at, end),
{
    at.before(end) && in_calendar(end.secs as int) ==> {
        let heating = heating_kw(config, temperature_at(weather, at));
        let sun = pv_kw(config, radiation_at(weather, at));
        let based = total + config.base_load_kw.scaled();
        &&& config.base_load_kw.is_finite()
        &&& heating.is_finite()
        &&& sun.is_finite()
        &&& fits(based)
        &&& fits(based + heating.scaled())
        &&& fits(based + heating.scaled() - sun.scaled())
        &&& adds_exactly(
            config,
            weather,
            next_hour(at),
            end,
            total + hour_net(config, weather, at),
        )
    }
}

/// An hour adds its base load and its heating and takes off what the sun gives, and the outcome may
/// be below zero.
pub proof fn lemma_hour_is_added(
    config: &Config,
    weather: &WeatherResponse,
    at: Moment,
    total: Double,
)
    requires
        total.is_finite(),
        config.base_load_kw.is_finite(),
        heating_kw(config, temperature_at(weather, at)).is_finite(),
        pv_kw(config, radiation_at(weather, at)).is_finite(),
        fits(total.scaled() + config.base_load_kw.scaled()),
        fits(
            total.scaled() + config.base_load_kw.scaled() + heating_kw(
                config,
                temperature_at(weather, at),
            ).scaled(),
        ),
        fits(total.scaled() + hour_net(config, weather, at)),
    ensures
        with_hour(config, weather, at, total).is_finite(),
        with_hour(config, weather, at, total).scaled() == total.scaled() + hour_net(
            config,
            weather,
            at,
        ),
{
    let temperature = temperature_at(weather, at);
    let heating = heating_kw(config, temperature);
    let sun = pv_kw(config, radiation_at(weather, at));
    let base = sum(total, config.base_load_kw);
    lemma_sum_exact(total, config.base_load_kw);
    lemma_below_zero(total);
    let heated = if less(temperature, config.heating_off_temp_c) {
        sum(base, heating_demand(config, temperature))
    } else {
        base
    };
    if less(temperature, config.heating_off_temp_c) {
        lemma_sum_exact(base, heating);
    }
    lemma_difference_exact(heated, sun);
}

/// What is needed over a period is the sum over its hours of base load and heating less what the
/// sun gives. A surplus of one hour is carried on to the next.
pub proof fn lemma_need_is_the_sum(
    config: &Config,
    weather: &WeatherResponse,
    at: Moment,
    end: Moment,
    total: Double,
)
    requires
        total.is_finite(),
        at.nanos < 1_000_000_000,
        in_calendar(at.secs as int) || !at.before(end),
        in_calendar(end.secs as int),
        adds_exactly(config, weather, at, end, total.scaled()),
    ensures
        needed_kwh(config, weather, at, end, total).is_finite(),
        needed_kwh(config, weather, at, end, total).scaled() == total.scaled() + period_net(
            config,
            weather,
            at,
            end,
        ),
    decreases hours_left(at, end),
{
    if at.before(end) {
        lemma_hour_is_added(config, weather, at, total);
        let next = with_hour(config, weather, at, total);
        assert(at.later(3_600) == next_hour(at));
        assert(at.can_move(3_600));
        lemma_need_is_the_sum(config, weather, next_hour(at), end, next);
    }
}

/// What the battery has to give is the sum over the hours of the period, floored at zero once:
/// where the sun gives more over the whole period it is nothing.
pub proof fn lemma_surplus_is_kept(
    config: &Config,
    weather: &WeatherResponse,
    start: Moment,
    end: Moment,
)
    requires
        start.valid(),
        start.nanos < 1_000_000_000,
        in_calendar(end.secs as int),
        adds_exactly(config, weather, start, end, 0),
    ensures
        battery_kwh(config, weather, start, end).is_finite(),
        period_net(config, weather, start, end) >= 0 ==> battery_kwh(
            config,
            weather,
            start,
            end,
        ).scaled() == period_net(config, weather, start, end),
        period_net(config, weather, start, end) <= 0 ==> battery_kwh(
            config,
            weather,
            start,
            end,
        ).scaled() == 0,
{
    let zero = with_sign(false, 0);
    lemma_below_zero(zero);
    lemma_need_is_the_sum(config, weather, start, end, zero);
    lemma_below_zero(needed_kwh(config, weather, start, end, zero));
}

/// Forecasts of which the hours add up to the same ask for the same charge: a surplus in an early
/// hour counts as much as one in a late hour.
pub proof fn lemma_when_the_sun_shines_is_the_same(
    config: &Config,
    one: &WeatherResponse,
    other: &WeatherResponse,
    start: Moment,
    end: Moment,
)
    requires
        start.valid(),
        start.nanos < 1_000_000_000,
        in_calendar(end.secs as int),
        adds_exactly(config, one, start, end, 0),
        adds_exactly(config, other, start, end, 0),
        period_net(config, one, start, end) == period_net(config, other, start, end),
    ensures
        battery_kwh(config, one, start, end) == battery_kwh(config, other, start, end),
        required_soc(config, one, start, end) == required_soc(config, other, start, end),
{
    let zero = with_sign(false, 0);
    lemma_surplus_is_kept(config, one, start, end);
    lemma_surplus_is_kept(config, other, start, end);
    let x = battery_kwh(config, one, start, end);
    let y = battery_kwh(config, other, start, end);
    lemma_floored(needed_kwh(config, one, start, end, zero));
    lemma_floored(needed_kwh(config, other, start, end, zero));
    lemma_same_amount(x, y);
}

/// Numbers without a sign are the same where their values are.
proof fn lemma_same_amount(x: Double, y: Double)
    requires
        x.is_finite(),
        y.is_finite(),
        !x.negative(),
        !y.negative(),
        x.scaled() == y.scaled(),
    ensures
        x == y,
{
    lemma_nearest_self(x);
    lemma_nearest_self(y);
}

proof fn lemma_floored(x: Double)
    ensures
        !at_least_zero(x).negative(),
{
    reveal(less);
}

/// While the battery has to give something, a forecast of which the hours need less asks it to give
/// strictly less.
pub proof fn lemma_sun_is_never_lost(
    config: &Config,
    dull: &WeatherResponse,
    bright: &WeatherResponse,
    start: Moment,
    end: Moment,
)
    requires
        start.valid(),
        start.nanos < 1_000_000_000,
        in_calendar(end.secs as int),
        adds_exactly(config, dull, start, end, 0),
        adds_exactly(config, bright, start, end, 0),
        period_net(config, bright, start, end) < period_net(config, dull, start, end),
        period_net(config, dull, start, end) > 0,
    ensures
        battery_kwh(config, bright, start, end).scaled() < battery_kwh(
            config,
            dull,
            start,
            end,
        ).scaled(),
{
    lemma_surplus_is_kept(config, dull, start, end);
    lemma_surplus_is_kept(config, bright, start, end);
}

/// The hours from `at` up to `end`, and `end` itself, are reached by whole hours from `at`.
pub open spec fn reaches(at: Moment, end: Moment) -> bool
    decreases hours_left(at, end),
{
    if at.before(end) && in_calendar(end.secs as int) {
        reaches(next_hour(at), end)
    } else {
        at == end
    }
}

/// A period can be split at any hour: what the first part needs, below zero or not, is where the
/// second part begins.
pub proof fn lemma_period_splits(
    config: &Config,
    weather: &WeatherResponse,
    at: Moment,
    mid: Moment,
    end: Moment,
    total: Double,
)
    requires
        at.nanos < 1_000_000_000,
        in_calendar(at.secs as int),
        in_calendar(mid.secs as int),
        in_calendar(end.secs as int),
        reaches(at, mid),
        !end.before(mid),
    ensures
        needed_kwh(config, weather, at, end, total) == needed_kwh(
            config,
            weather,
            mid,
            end,
            needed_kwh(config, weather, at, mid, total),
        ),
        period_net(config, weather, at, end) == period_net(config, weather, at, mid) + period_net(
            config,
            weather,
            mid,
            end,
        ),
    decreases hours_left(at, mid),
{
    if at.before(mid) {
        assert(at.later(3_600) == next_hour(at));
        assert(at.can_move(3_600));
        assert(at.before(end));
        let next = with_hour(config, weather, at, total);
        assert(reaches(next_hour(at), mid));
        reveal_with_fuel(reaches, 2);
        lemma_period_splits(config, weather, next_hour(at), mid, end, next);
    }
}

/// Where the sun gives no less in any hour, and the temperatures are the same, no more is needed,
/// however the sums are rounded.
pub proof fn lemma_more_sun_needs_no_more(
    config: &Config,
    dull: &WeatherResponse,
    bright: &WeatherResponse,
    at: Moment,
    end: Moment,
    more: Double,
    fewer: Double,
)
    requires
        at.nanos < 1_000_000_000,
        in_calendar(at.secs as int) || !at.before(end),
        in_calendar(end.secs as int),
        config.base_load_kw.is_finite(),
        !more.is_nan(),
        !fewer.is_nan(),
        fewer.key() <= more.key(),
        forall|t: Moment| #[trigger]
            temperature_at(dull, t) == temperature_at(bright, t) && heating_kw(
                config,
                temperature_at(dull, t),
            ).is_finite(),
        forall|t: Moment|
            #![trigger radiation_at(dull, t)]
            pv_kw(config, radiation_at(dull, t)).is_finite() && pv_kw(
                config,
                radiation_at(bright, t),
            ).is_finite() && pv_kw(config, radiation_at(dull, t)).scaled() <= pv_kw(
                config,
                radiation_at(bright, t),
            ).scaled(),
    ensures
        !needed_kwh(config, dull, at, end, more).is_nan(),
        !needed_kwh(config, bright, at, end, fewer).is_nan(),
        needed_kwh(config, bright, at, end, fewer).key() <= needed_kwh(
            config,
            dull,
            at,
            end,
            more,
        ).key(),
    decreases hours_left(at, end),
{
    if at.before(end) {
        assert(at.later(3_600) == next_hour(at));
        assert(at.can_move(3_600));
        let temperature = temperature_at(dull, at);
        assert(temperature == temperature_at(bright, at));
        let heating = heating_kw(config, temperature);
        lemma_sum_ordered(fewer, more, config.base_load_kw);
        let a = sum(fewer, config.base_load_kw);
        let b = sum(more, config.base_load_kw);
        lemma_sum_ordered(a, b, heating);
        let (c, d) = if less(temperature, config.heating_off_temp_c) {
            (sum(a, heating), sum(b, heating))
        } else {
            (a, b)
        };
        let s = pv_kw(config, radiation_at(dull, at));
        let t = pv_kw(config, radiation_at(bright, at));
        lemma_opposite(s);
        lemma_opposite(t);
        lemma_key_order(t, s);
        lemma_sum_ordered(c, d, opposite(t));
        lemma_raised(d, opposite(t), opposite(s));
        lemma_more_sun_needs_no_more(
            config,
            dull,
            bright,
            next_hour(at),
            end,
            with_hour(config, dull, at, more),
            with_hour(config, bright, at, fewer),
        );
    }
}

/// Adding more leaves no less, also to what is infinite.
proof fn lemma_raised(base: Double, g: Double, h: Double)
    requires
        !base.is_nan(),
        g.is_finite(),
        h.is_finite(),
        g.key() <= h.key(),
    ensures
        !sum(base, g).is_nan(),
        !sum(base, h).is_nan(),
        sum(base, g).key() <= sum(base, h).key(),
{
    if base.is_finite() {
        lemma_sum_ordered(g, h, base);
    } else {
        reveal(sum);
    }
}

/// Rounding up gives the smallest integer that is not below the magnitude.
proof fn lemma_ceiling(x: Double)
    ensures
        (ceiling(x) - 1) * pow2(1074) < x.magnitude() <= ceiling(x) * pow2(1074),
{
    reveal(ceiling);
    reveal(whole);
    let p = pow2(1074);
    lemma_pow2_pos(1074);
    let q = x.magnitude() / p;
    lemma_fundamental_div_mod(x.magnitude() as int, p as int);
    lemma_mod_bound(x.magnitude() as int, p as int);
    assert(p * q == q * p && (q + 1) * p == q * p + p && (q - 1) * p == q * p - p)
        by (nonlinear_arith);
}

/// The charge that is asked for covers the need on top of the season's minimum, one percent less
/// would not, and it is never more than full.
pub proof fn lemma_required_soc_is_just_enough(
    config: &Config,
    weather: &WeatherResponse,
    start: Moment,
    end: Moment,
    share: int,
)
    requires
        config.battery_size_kwh.is_finite(),
        config.battery_size_kwh.scaled() > 0,
        battery_kwh(config, weather, start, end).is_finite(),
        fits(share),
        share * config.battery_size_kwh.scaled() == battery_kwh(
            config,
            weather,
            start,
            end,
        ).scaled() * pow2(1074),
        fits(share * 100),
        fits(baseline_soc(config, start) * pow2(1074) + share * 100),
    ensures
        ({
            let soc = required_soc(config, weather, start, end);
            let minimum = baseline_soc(config, start);
            let size = config.battery_size_kwh.scaled();
            let need = battery_kwh(config, weather, start, end).scaled();
            &&& soc <= 100
            &&& soc < 100 ==> (soc - minimum) * size >= 100 * need
            &&& (soc - 1 - minimum) * size < 100 * need
        }),
{
    let p = pow2(1074) as int;
    lemma_pow2_pos(1074);
    let size = config.battery_size_kwh;
    let kwh = battery_kwh(config, weather, start, end);
    let b = baseline_soc(config, start) as int;
    lemma_floored(needed_kwh(config, weather, start, end, with_sign(false, 0)));
    lemma_of_int_exact(100);
    lemma_of_int_exact(b as nat);
    lemma_quotient_exact(kwh, size, share);
    assert(share >= 0) by (nonlinear_arith)
        requires
            share * size.scaled() == kwh.scaled() * p,
            kwh.scaled() >= 0,
            p > 0,
            size.scaled() > 0,
    ;
    let filled = quotient(kwh, size);
    assert((share * 100) * p == share * (100 * p)) by (nonlinear_arith);
    lemma_product_exact(filled, of_int(100), share * 100);
    let percent = product(filled, of_int(100));
    let base = of_int(b);
    assert(base.scaled() == b * p);
    lemma_sum_exact(base, percent);
    let target = sum(base, percent);
    assert(b * p >= 0) by (nonlinear_arith)
        requires
            b >= 0,
            p > 0,
    ;
    assert(!target.negative()) by {
        reveal(sum);
        lemma_below_zero(target);
        crate::double::lemma_nearest_bound(target.magnitude(), 1);
        let e = base.scaled() + percent.scaled();
        crate::double::lemma_nearest_bound(e as nat, 1);
    }
    lemma_ceiling(target);
    let c = ceiling(target) as int;
    let soc = required_soc(config, weather, start, end) as int;
    let t = target.magnitude() as int;
    assert(t == b * p + share * 100);
    assert((c - b) * size.scaled() >= 100 * kwh.scaled()) by {
        let u = size.scaled();
        let k = kwh.scaled();
        assert((c - b) * p >= 100 * share) by (nonlinear_arith)
            requires
                t <= c * p,
                t == b * p + share * 100,
        ;
        if (c - b) * u < 100 * k {
            assert(((c - b) * u) * p < (100 * k) * p) by (nonlinear_arith)
                requires
                    (c - b) * u < 100 * k,
                    p > 0,
            ;
            assert(((c - b) * p) * u >= (100 * share) * u) by (nonlinear_arith)
                requires
                    (c - b) * p >= 100 * share,
                    u > 0,
            ;
            assert(((c - b) * p) * u == ((c - b) * u) * p) by (nonlinear_arith);
            assert((100 * share) * u == 100 * (share * u)) by (nonlinear_arith);
            assert((100 * k) * p == 100 * (k * p)) by (nonlinear_arith);
            assert(false);
        }
    }
    assert((c - 1 - b) * size.scaled() < 100 * kwh.scaled()) by {
        let u = size.scaled();
        let k = kwh.scaled();
        assert((c - 1 - b) * p < 100 * share) by (nonlinear_arith)
            requires
                (c - 1) * p < t,
                t == b * p + share * 100,
        ;
        if (c - 1 - b) * u >= 100 * k {
            assert(((c - 1 - b) * u) * p >= (100 * k) * p) by (nonlinear_arith)
                requires
                    (c - 1 - b) * u >= 100 * k,
                    p > 0,
            ;
            assert(((c - 1 - b) * p) * u < (100 * share) * u) by (nonlinear_arith)
                requires
                    (c - 1 - b) * p < 100 * share,
                    u > 0,
            ;
            assert(((c - 1 - b) * p) * u == ((c - 1 - b) * u) * p) by (nonlinear_arith);
            assert((100 * share) * u == 100 * (share * u)) by (nonlinear_arith);
            assert((100 * k) * p == 100 * (k * p)) by (nonlinear_arith);
            assert(false);
        }
    }
    assert((soc - 1 - b) * size.scaled() <= (c - 1 - b) * size.scaled()) by (nonlinear_arith)
        requires
            soc <= c,
            size.scaled() > 0,
    ;
}

/// Heating demand is proportional to the distance from the temperature at which heating stops, and
/// is the set one where that distance is the whole way to 0 degrees.
pub proof fn lemma_heating_is_proportional(
    config: &Config,
    temperature: Double,
    share: int,
    demand: int,
)
    requires
        temperature.is_finite(),
        config.heating_off_temp_c.is_finite(),
        config.heating_off_temp_c.scaled() > 0,
        config.heating_kwh_per_h_at_0c.is_finite(),
        temperature.scaled() < config.heating_off_temp_c.scaled(),
        fits(config.heating_off_temp_c.scaled() - temperature.scaled()),
        fits(share),
        share * config.heating_off_temp_c.scaled() == (config.heating_off_temp_c.scaled()
            - temperature.scaled()) * pow2(1074),
        fits(demand),
        demand * pow2(1074) == config.heating_kwh_per_h_at_0c.scaled() * share,
    ensures
        heating_kw(config, temperature).is_finite(),
        heating_kw(config, temperature).scaled() * config.heating_off_temp_c.scaled()
            == config.heating_kwh_per_h_at_0c.scaled() * (config.heating_off_temp_c.scaled()
            - temperature.scaled()),
{
    reveal(less);
    let off = config.heating_off_temp_c;
    let h = config.heating_kwh_per_h_at_0c;
    lemma_pow2_pos(1074);
    let p = pow2(1074) as int;
    lemma_key_order(temperature, off);
    lemma_difference_exact(off, temperature);
    lemma_quotient_exact(difference(off, temperature), off, share);
    lemma_product_exact(h, quotient(difference(off, temperature), off), demand);
    let d = off.scaled() - temperature.scaled();
    assert((demand * off.scaled()) * p == (h.scaled() * d) * p) by (nonlinear_arith)
        requires
            demand * p == h.scaled() * share,
            share * off.scaled() == d * p,
    ;
    assert(demand * off.scaled() == h.scaled() * d) by (nonlinear_arith)
        requires
            (demand * off.scaled()) * p == (h.scaled() * d) * p,
            p > 0,
    ;
}

/// It is not heated at or above the temperature at which heating stops.
pub proof fn lemma_no_heating_above(config: &Config, temperature: Double)
    requires
        temperature.is_finite(),
        config.heating_off_temp_c.is_finite(),
        temperature.scaled() >= config.heating_off_temp_c.scaled(),
    ensures
        heating_kw(config, temperature).is_finite(),
        heating_kw(config, temperature).scaled() == 0,
{
    reveal(less);
    lemma_key_order(temperature, config.heating_off_temp_c);
    lemma_below_zero(temperature);
}

/// Solar production is 85 % of what panels of the given size give at the radiation, in proportion
/// to 1000 W/m².
pub proof fn lemma_production_is_proportional(
    config: &Config,
    radiation: Double,
    share: int,
    rated: Double,
)
    requires
        radiation.is_finite(),
        config.pv_size_kwp.is_finite(),
        rated.is_finite(),
        !rated.negative(),
        !radiation.negative(),
        !config.pv_size_kwp.negative(),
        fits(share),
        radiation.scaled() == 1000 * share,
        rated.scaled() * pow2(1074) == config.pv_size_kwp.scaled() * share,
    ensures
        pv_kw(config, radiation) == product(rated, quotient(of_int(85), of_int(100))),
{
    let p = pow2(1074) as int;
    lemma_pow2_pos(1074);
    lemma_of_int_exact(1000);
    assert(share * (1000 * p) == (1000 * share) * p) by (nonlinear_arith);
    lemma_quotient_exact(radiation, of_int(1000), share);
    let q = quotient(radiation, of_int(1000));
    lemma_fits(rated);
    lemma_product_exact(config.pv_size_kwp, q, rated.scaled());
    let w = product(config.pv_size_kwp, q);
    assert(!q.negative() && !w.negative()) by {
        reveal(quotient);
        reveal(product);
        crate::double::lemma_nearest_bound(
            radiation.magnitude() * pow2(1074),
            of_int(1000).magnitude(),
        );
        crate::double::lemma_nearest_bound(
            config.pv_size_kwp.magnitude() * q.magnitude(),
            pow2(1074),
        );
    }
    lemma_same_amount(w, rated);
}

/// From April to September the summer's settings hold, and else the winter's.
pub proof fn lemma_settings_follow_the_season(config: &Config, at: Moment, date: Date)
    requires
        date.is_valid(),
        date.number() == at.day(),
    ensures
        4 <= date.month <= 9 ==> baseline_soc(config, at) == config.summer_min_soc
            && force_charge_soc(config, at) == config.summer_force_charge_soc,
        !(4 <= date.month <= 9) ==> baseline_soc(config, at) == config.winter_min_soc
            && force_charge_soc(config, at) == config.winter_force_charge_soc,
{
    lemma_summer_is_april_to_september(at, date);
}

proof fn lemma_first_line(times: Seq<String>, label: Seq<char>, from: int, at: int)
    requires
        0 <= from <= at <= times.len(),
        forall|j: int| from <= j < at ==> (#[trigger] times[j])@ != label,
        at < times.len() ==> times[at]@ == label,
    ensures
        line_of(times, label, from) == (if at < times.len() {
            Some(at)
        } else {
            None
        }),
    decreases at - from,
{
    if from < at {
        assert(times[from]@ != label);
        lemma_first_line(times, label, from + 1, at);
    }
}

/// What is forecast for an hour stands on the first line with that hour's label, in the column that
/// is asked for, and is zero where there is no such line or it has no value.
pub proof fn lemma_forecast_is_looked_up(
    times: Seq<String>,
    column: Seq<Double>,
    at: Moment,
    line: int,
)
    requires
        0 <= line <= times.len(),
        forall|j: int| 0 <= j < line ==> (#[trigger] times[j])@ != hour_label(at),
        line < times.len() ==> times[line]@ == hour_label(at),
    ensures
        line < times.len() && line < column.len() ==> forecast_for(times, column, at)
            == column[line],
        line == times.len() || line >= column.len() ==> forecast_for(times, column, at).scaled()
            == 0,
{
    lemma_first_line(times, hour_label(at), 0, line);
    lemma_below_zero(with_sign(false, 0));
}

/// What is produced on the lines of a day from a moment on, in exact arithmetic.
pub open spec fn day_production(
    config: &Config,
    weather: &WeatherResponse,
    day: int,
    from: Option<Moment>,
    n: nat,
) -> int
    decreases n,
{
    if n == 0 {
        0
    } else {
        let i = n - 1;
        let before = day_production(config, weather, day, from, i as nat);
        match local_hour(weather.hourly.time@[i]@) {
            Some(h) => if h.day == day && (from is None || h.secs * 1_000_000_000
                >= from->0.since_epoch()) && i < weather.hourly.shortwave_radiation@.len() {
                before + pv_kw(config, weather.hourly.shortwave_radiation@[i]).scaled()
            } else {
                before
            },
            None => before,
        }
    }
}

/// Nothing is rounded when the first `n` lines are added up.
pub open spec fn day_adds_exactly(
    config: &Config,
    weather: &WeatherResponse,
    day: int,
    from: Option<Moment>,
    n: nat,
) -> bool {
    &&& pv_kw(config, with_sign(false, 0)).is_finite()
    &&& pv_kw(config, with_sign(false, 0)).scaled() == 0
    &&& from is Some ==> from->0.nanos < 1_000_000_000
    &&& forall|i: int|
        0 <= i < weather.hourly.shortwave_radiation@.len() ==> pv_kw(
            config,
            #[trigger] weather.hourly.shortwave_radiation@[i],
        ).is_finite()
    &&& forall|i: nat|
        0 <= i <= n ==> fits(#[trigger] day_production(config, weather, day, from, i))
}

/// The energy of a day is the sum over the forecast's lines for that day, from the given moment on,
/// of what the sun gives.
pub proof fn lemma_day_is_the_sum(
    config: &Config,
    weather: &WeatherResponse,
    day: int,
    from: Option<Moment>,
    n: nat,
)
    requires
        n <= weather.hourly.time@.len(),
        day_adds_exactly(config, weather, day, from, n),
    ensures
        pv_kwh(config, weather, day, from, n).is_finite(),
        pv_kwh(config, weather, day, from, n).scaled() == day_production(
            config,
            weather,
            day,
            from,
            n,
        ),
    decreases n,
{
    lemma_below_zero(with_sign(false, 0));
    if n > 0 {
        let i = (n - 1) as nat;
        lemma_day_is_the_sum(config, weather, day, from, i);
        assert(fits(day_production(config, weather, day, from, i)));
        assert(fits(day_production(config, weather, day, from, n)));
        let before = pv_kwh(config, weather, day, from, i);
        let x = value_at(weather.hourly.shortwave_radiation@, i as int);
        match local_hour(weather.hourly.time@[i as int]@) {
            Some(h) => {
                if from is Some {
                    assert(!(Moment { secs: h.secs, nanos: 0 }.before(from->0)) == (h.secs
                        * 1_000_000_000 >= from->0.since_epoch()));
                }
                if crate::weather::counts(Some(h), day, from) {
                    assert(pv_kw(config, x).is_finite());
                    lemma_sum_exact(before, pv_kw(config, x));
                }
            },
            None => {},
        }
    }
}

/// The energy of the next day counts the lines of the local day that it will be in 24 hours, and
/// the energy of the rest of today those of the present local day that do not begin before now.
pub proof fn lemma_days_are_told_apart(config: &Config, weather: &WeatherResponse, now: Moment)
    requires
        now.valid(),
        now.nanos < 1_000_000_000,
    ensures
        ({
            let n = weather.hourly.time@.len();
            let tomorrow = (Moment { secs: (now.secs + 24 * 3_600) as i64, nanos: 0 }).cet_day();
            let today = now.cet_day();
            &&& day_adds_exactly(config, weather, tomorrow, None, n) ==> next_day_pv_kwh(
                config,
                weather,
                now,
            ).scaled() == day_production(config, weather, tomorrow, None, n)
            &&& day_adds_exactly(config, weather, today, Some(now), n) ==> remaining_pv_kwh(
                config,
                weather,
                now,
            ).scaled() == day_production(config, weather, today, Some(now), n)
        }),
{
    let n = weather.hourly.time@.len();
    let tomorrow = (Moment { secs: (now.secs + 24 * 3_600) as i64, nanos: 0 }).cet_day();
    assert(now.later(86_400).cet_day() == tomorrow);
    if day_adds_exactly(config, weather, tomorrow, None, n) {
        lemma_day_is_the_sum(config, weather, tomorrow, None, n);
    }
    if day_adds_exactly(config, weather, now.cet_day(), Some(now), n) {
        lemma_day_is_the_sum(config, weather, now.cet_day(), Some(now), n);
    }
}

/// The forecasts agree on temperatures, and the second promises no less sun in any hour.
pub open spec fn is_brighter(
    config: &Config,
    dull: &WeatherResponse,
    bright: &WeatherResponse,
) -> bool {
    forall|t: Moment| #[trigger]
        temperature_at(dull, t) == temperature_at(bright, t) && pv_kw(
            config,
            radiation_at(dull, t),
        ).scaled() <= pv_kw(config, radiation_at(bright, t)).scaled()
}

proof fn lemma_no_hour_needs_more(
    config: &Config,
    dull: &WeatherResponse,
    bright: &WeatherResponse,
    at: Moment,
    end: Moment,
)
    requires
        is_brighter(config, dull, bright),
    ensures
        period_net(config, bright, at, end) <= period_net(config, dull, at, end),
    decreases hours_left(at, end),
{
    if at.before(end) && in_calendar(end.secs as int) {
        assert(temperature_at(dull, at) == temperature_at(bright, at));
        lemma_no_hour_needs_more(config, dull, bright, next_hour(at), end);
    }
}

/// More sun in any one hour of a period, early or late, makes less be needed over the period.
pub proof fn lemma_every_hour_counts(
    config: &Config,
    dull: &WeatherResponse,
    bright: &WeatherResponse,
    at: Moment,
    sunny: Moment,
    end: Moment,
)
    requires
        is_brighter(config, dull, bright),
        in_calendar(end.secs as int),
        in_calendar(sunny.secs as int),
        reaches(at, sunny),
        sunny.before(end),
        pv_kw(config, radiation_at(dull, sunny)).scaled() < pv_kw(
            config,
            radiation_at(bright, sunny),
        ).scaled(),
    ensures
        period_net(config, bright, at, end) < period_net(config, dull, at, end),
    decreases hours_left(at, sunny),
{
    assert(temperature_at(dull, at) == temperature_at(bright, at));
    assert(at.before(end));
    if at.before(sunny) {
        lemma_every_hour_counts(config, dull, bright, next_hour(at), sunny, end);
    } else {
        assert(at == sunny);
        lemma_no_hour_needs_more(config, dull, bright, next_hour(at), end);
    }
}

} // verus!
