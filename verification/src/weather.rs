//! The weather forecast and what follows from it: solar production, heating demand and the charge
//! that the battery needs.

use vstd::arithmetic::div_mod::{
    lemma_div_is_ordered, lemma_fundamental_div_mod, lemma_fundamental_div_mod_converse,
};
use vstd::arithmetic::power2::{lemma_pow2_pos, pow2};
use vstd::prelude::*;

use crate::bounds::{
    is_amount, lemma_amount_added, lemma_key_order, lemma_magnitude_monotone, lemma_minus_zero,
    lemma_nearest_self, lemma_of_int_exact, lemma_over_int_is_finite, lemma_over_self,
    lemma_plus_zero, lemma_product_monotone, lemma_quotient_monotone, lemma_ratio_is_share,
    lemma_signs, lemma_sum_grows, lemma_sum_monotone, lemma_times_one, lemma_times_zero,
};
use crate::calendar::{date_of, lemma_date_of, Date};
use crate::config::Config;
use crate::double::{
    at_least_zero, ceiling, difference, lemma_nearest_bound, lemma_nearest_zero, less, of_int,
    opposite, product, quotient, saturated, sum, whole, with_sign, Double,
};
use crate::moment::{
    hour_label, in_calendar, local_hour, read_local_hour, LocalHour, Moment, DAY_SECS,
};
use crate::text::same;

verus! {

/// An hourly forecast: local times, degrees Celsius and W/m² of solar radiation, line by line.
#[derive(Debug, Default)]
pub struct HourlyForecast {
    pub time: Vec<String>,
    pub temperature_2m: Vec<Double>,
    pub shortwave_radiation: Vec<Double>,
}

/// A weather forecast.
#[derive(Debug, Default)]
pub struct WeatherResponse {
    pub hourly: HourlyForecast,
}

/// `n` hundredths.
pub open spec fn hundredths(n: int) -> Double {
    quotient(of_int(n), of_int(100))
}

/// The value on line `i`, zero where the column is shorter.
pub open spec fn value_at(column: Seq<Double>, i: int) -> Double {
    if 0 <= i < column.len() {
        column[i]
    } else {
        with_sign(false, 0)
    }
}

/// Solar production in kW: panels are rated at 1000 W/m², and 85 % of that reaches the house.
pub open spec fn pv_kw(config: &Config, radiation: Double) -> Double {
    product(product(config.pv_size_kwp, quotient(radiation, of_int(1000))), hundredths(85))
}

/// Heating demand in kW where it is cold enough to heat: it grows in proportion to the distance
/// from the temperature at which heating stops.
pub open spec fn heating_demand(config: &Config, temperature: Double) -> Double {
    product(
        config.heating_kwh_per_h_at_0c,
        quotient(difference(config.heating_off_temp_c, temperature), config.heating_off_temp_c),
    )
}

/// Heating demand in kW.
pub open spec fn heating_kw(config: &Config, temperature: Double) -> Double {
    if less(temperature, config.heating_off_temp_c) {
        heating_demand(config, temperature)
    } else {
        with_sign(false, 0)
    }
}

/// The first line at or after `from` whose time is `label`.
pub open spec fn line_of(times: Seq<String>, label: Seq<char>, from: int) -> Option<int>
    decreases times.len() - from,
{
    if from < 0 || from >= times.len() {
        None
    } else if times[from]@ == label {
        Some(from)
    } else {
        line_of(times, label, from + 1)
    }
}

/// The value forecast for the hour at `at`, zero where there is none.
pub open spec fn forecast_for(times: Seq<String>, column: Seq<Double>, at: Moment) -> Double {
    match line_of(times, hour_label(at), 0) {
        Some(i) => value_at(column, i),
        None => with_sign(false, 0),
    }
}

/// The energy needed so far, in kWh, when the hour at `at` is added: base load and heating, less
/// solar production.
pub open spec fn with_hour(
    config: &Config,
    weather: &WeatherResponse,
    at: Moment,
    total: Double,
) -> Double {
    let temperature = forecast_for(weather.hourly.time@, weather.hourly.temperature_2m@, at);
    let radiation = forecast_for(weather.hourly.time@, weather.hourly.shortwave_radiation@, at);
    let base = sum(total, config.base_load_kw);
    let heated = if less(temperature, config.heating_off_temp_c) {
        sum(base, heating_demand(config, temperature))
    } else {
        base
    };
    difference(heated, pv_kw(config, radiation))
}

/// A bound on the number of hours from `at` to `end`.
pub open spec fn hours_left(at: Moment, end: Moment) -> nat {
    if at.secs <= end.secs {
        (end.secs - at.secs + 1) as nat
    } else {
        0
    }
}

/// The energy needed, in kWh, from `at` to `end`, added to `total` hour by hour.
pub open spec fn needed_kwh(
    config: &Config,
    weather: &WeatherResponse,
    at: Moment,
    end: Moment,
    total: Double,
) -> Double
    decreases hours_left(at, end),
{
    if at.before(end) && at.can_move(3_600) {
        needed_kwh(config, weather, at.later(3_600), end, with_hour(config, weather, at, total))
    } else {
        total
    }
}

/// The energy, in kWh, that the battery has to give from `start` to `end`: none where the sun gives
/// more than is needed.
pub open spec fn battery_kwh(
    config: &Config,
    weather: &WeatherResponse,
    start: Moment,
    end: Moment,
) -> Double {
    at_least_zero(needed_kwh(config, weather, start, end, with_sign(false, 0)))
}

/// The charge, in percent, that covers the need from `start` to `end` above the minimum charge.
pub open spec fn required_soc(
    config: &Config,
    weather: &WeatherResponse,
    start: Moment,
    end: Moment,
) -> nat {
    let kwh = battery_kwh(config, weather, start, end);
    let percent = product(quotient(kwh, config.battery_size_kwh), of_int(100));
    let target = sum(of_int(baseline_soc(config, start) as int), percent);
    let whole = saturated(target, ceiling(target), 255);
    if whole < 100 {
        whole
    } else {
        100
    }
}

/// April to September is summer.
pub open spec fn is_summer(at: Moment) -> bool {
    4 <= date_of(at.day()).month <= 9
}

/// The minimum charge of the season.
pub open spec fn baseline_soc(config: &Config, at: Moment) -> u8 {
    if is_summer(at) {
        config.summer_min_soc
    } else {
        config.winter_min_soc
    }
}

/// The charge of the season that low prices are used for.
pub open spec fn force_charge_soc(config: &Config, at: Moment) -> u8 {
    if is_summer(at) {
        config.summer_force_charge_soc
    } else {
        config.winter_force_charge_soc
    }
}

/// The line is for the given local day and, where a moment is given, not before that moment.
pub open spec fn counts(hour: Option<LocalHour>, day: int, from: Option<Moment>) -> bool {
    match hour {
        Some(h) => {
            &&& h.day == day
            &&& from matches Some(m) ==> !(Moment { secs: h.secs, nanos: 0 }.before(m))
        },
        None => false,
    }
}

/// Solar energy in kWh of the first `n` lines that are for the given local day and, where a moment
/// is given, not before that moment.
pub open spec fn pv_kwh(
    config: &Config,
    weather: &WeatherResponse,
    day: int,
    from: Option<Moment>,
    n: nat,
) -> Double
    decreases n,
{
    if n == 0 {
        with_sign(false, 0)
    } else {
        let i = (n - 1) as nat;
        let before = pv_kwh(config, weather, day, from, i);
        if counts(local_hour(weather.hourly.time@[i as int]@), day, from) {
            sum(before, pv_kw(config, value_at(weather.hourly.shortwave_radiation@, i as int)))
        } else {
            before
        }
    }
}

/// Solar energy in kWh expected for the local day after the one at `now`.
pub open spec fn next_day_pv_kwh(
    config: &Config,
    weather: &WeatherResponse,
    now: Moment,
) -> Double {
    pv_kwh(config, weather, now.later(86_400).cet_day(), None, weather.hourly.time@.len())
}

/// Solar energy in kWh expected for the rest of the local day at `now`.
pub open spec fn remaining_pv_kwh(
    config: &Config,
    weather: &WeatherResponse,
    now: Moment,
) -> Double {
    pv_kwh(config, weather, now.cet_day(), Some(now), weather.hourly.time@.len())
}

/// `n` hundredths.
pub fn hundredths_of(n: u64) -> (r: Double)
    ensures
        r == hundredths(n as int),
{
    Double::of_u64(n).over(Double::of_u64(100))
}

/// The value on line `i`, zero where the column is shorter.
pub(crate) fn column_value(column: &Vec<Double>, i: usize) -> (r: Double)
    ensures
        r == value_at(column@, i as int),
{
    if i < column.len() {
        column[i]
    } else {
        Double::zero()
    }
}

/// Solar production in kW at a radiation in W/m².
pub fn pv_power(config: &Config, radiation: Double) -> (r: Double)
    ensures
        r == pv_kw(config, radiation),
{
    config.pv_size_kwp.times(radiation.over(Double::of_u64(1000))).times(hundredths_of(85))
}

/// Heating demand in kW below the temperature at which heating stops.
fn heating_below(config: &Config, temperature: Double) -> (r: Double)
    ensures
        r == heating_demand(config, temperature),
{
    config.heating_kwh_per_h_at_0c.times(
        config.heating_off_temp_c.minus(temperature).over(config.heating_off_temp_c),
    )
}

/// Heating demand in kW at a temperature.
pub fn heating_power(config: &Config, temperature: Double) -> (r: Double)
    ensures
        r == heating_kw(config, temperature),
{
    if temperature.lt(config.heating_off_temp_c) {
        heating_below(config, temperature)
    } else {
        Double::zero()
    }
}

/// The line of the forecast for an hour.
fn find_line(times: &Vec<String>, label: &str) -> (r: Option<usize>)
    ensures
        line_of(times@, label@, 0) == (match r {
            Some(i) => Some(i as int),
            None => None,
        }),
{
    let mut i: usize = 0;
    while i < times.len()
        invariant
            i <= times.len(),
            line_of(times@, label@, 0) == line_of(times@, label@, i as int),
        decreases times.len() - i,
    {
        if same(times[i].as_str(), label) {
            return Some(i);
        }
        i = i + 1;
    }
    None
}

/// The charge, in percent, needed from `start` to `end`.
pub fn calculate_required_soc(
    config: &Config,
    weather: &WeatherResponse,
    start: Moment,
    end: Moment,
) -> (r: u8)
    requires
        start.valid(),
        in_calendar(end.secs as int),
    ensures
        r == required_soc(config, weather, start, end),
        r <= 100,
{
    let mut total: Double = Double::zero();
    let mut current: Moment = start;
    while current.is_before(end)
        invariant
            in_calendar(end.secs as int),
            in_calendar(current.secs as int) || !current.before(end),
            current.secs >= start.secs,
            start.valid(),
            current.nanos < 2_000_000_000,
            needed_kwh(config, weather, current, end, total) == needed_kwh(
                config,
                weather,
                start,
                end,
                with_sign(false, 0),
            ),
        decreases hours_left(current, end),
    {
        let label: String = current.hour_text();
        let mut temperature: Double = Double::zero();
        let mut radiation: Double = Double::zero();
        match find_line(&weather.hourly.time, label.as_str()) {
            Some(i) => {
                temperature = column_value(&weather.hourly.temperature_2m, i);
                radiation = column_value(&weather.hourly.shortwave_radiation, i);
            },
            None => {},
        }
        let ghost before = total;
        total = total.plus(config.base_load_kw);
        if temperature.lt(config.heating_off_temp_c) {
            total = total.plus(heating_below(config, temperature));
        }
        total = total.minus(pv_power(config, radiation));
        assert(total == with_hour(config, weather, current, before));
        current = current.plus_hour();
    }
    let kwh: Double = total.max_zero();
    let percent: Double = kwh.over(config.battery_size_kwh).times(Double::of_u64(100));
    let target: Double = Double::of_u64(get_baseline_soc(config, start) as u64).plus(percent);
    let whole: u8 = target.ceiling_u8();
    if whole < 100 {
        whole
    } else {
        100
    }
}

/// Determines the minimum charge for the season.
pub fn get_baseline_soc(config: &Config, now: Moment) -> (r: u8)
    requires
        now.valid(),
    ensures
        r == baseline_soc(config, now),
{
    let month: u32 = now.utc_month();
    if 4 <= month && month <= 9 {
        config.summer_min_soc
    } else {
        config.winter_min_soc
    }
}

/// Determines the charge that low prices are used for, for the season.
pub fn get_force_charge_soc(config: &Config, now: Moment) -> (r: u8)
    requires
        now.valid(),
    ensures
        r == force_charge_soc(config, now),
{
    let month: u32 = now.utc_month();
    if 4 <= month && month <= 9 {
        config.summer_force_charge_soc
    } else {
        config.winter_force_charge_soc
    }
}

fn sum_pv(
    config: &Config,
    weather: &WeatherResponse,
    day: i64,
    from: Option<Moment>,
) -> (r: Double)
    ensures
        r == pv_kwh(config, weather, day as int, from, weather.hourly.time@.len()),
{
    let mut total: Double = Double::zero();
    let mut i: usize = 0;
    while i < weather.hourly.time.len()
        invariant
            i <= weather.hourly.time.len(),
            total == pv_kwh(config, weather, day as int, from, i as nat),
        decreases weather.hourly.time.len() - i,
    {
        match read_local_hour(weather.hourly.time[i].as_str()) {
            Some(h) => {
                let late_enough: bool = match from {
                    Some(m) => !Moment { secs: h.secs, nanos: 0 }.is_before(m),
                    None => true,
                };
                if h.day == day && late_enough {
                    let radiation: Double = column_value(&weather.hourly.shortwave_radiation, i);
                    total = total.plus(pv_power(config, radiation));
                }
            },
            None => {},
        }
        i = i + 1;
    }
    total
}

/// Calculates the solar energy, in kWh, expected for the next calendar day.
pub fn calculate_next_day_pv_kwh(config: &Config, weather: &WeatherResponse, now: Moment) -> (r:
    Double)
    requires
        now.valid(),
    ensures
        r == next_day_pv_kwh(config, weather, now),
{
    let tomorrow: i64 = now.plus_seconds(DAY_SECS).local_day();
    sum_pv(config, weather, tomorrow, None)
}

/// Calculates the solar energy, in kWh, expected for the rest of today.
pub fn calculate_remaining_pv_kwh(
    config: &Config,
    weather: &WeatherResponse,
    now: Moment,
) -> (r: Double)
    requires
        now.valid(),
    ensures
        r == remaining_pv_kwh(config, weather, now),
{
    let today: i64 = now.local_day();
    sum_pv(config, weather, today, Some(now))
}

/// Where it is not colder than the temperature at which heating stops, there is no heating demand.
pub proof fn lemma_no_heating_when_warm(config: &Config, temperature: Double)
    requires
        !less(temperature, config.heating_off_temp_c),
    ensures
        heating_kw(config, temperature) == with_sign(false, 0),
{
}

/// At 0 degrees the heating demand is the one that is set.
pub proof fn lemma_heating_at_zero(config: &Config)
    requires
        config.heating_off_temp_c.is_finite(),
        !config.heating_off_temp_c.negative(),
        config.heating_off_temp_c.magnitude() > 0,
        !config.heating_kwh_per_h_at_0c.is_nan(),
    ensures
        heating_kw(config, with_sign(false, 0)) == config.heating_kwh_per_h_at_0c,
{
    reveal(less);
    let off = config.heating_off_temp_c;
    if off.low() == 0 {
        assert(off.magnitude() == 0);
    }
    lemma_minus_zero(off);
    lemma_over_self(off);
    lemma_times_one(config.heating_kwh_per_h_at_0c);
}

/// At the radiation that panels are rated at, they give 85 % of their size.
pub proof fn lemma_pv_at_rated_radiation(config: &Config)
    requires
        !config.pv_size_kwp.is_nan(),
    ensures
        pv_kw(config, of_int(1000)) == product(config.pv_size_kwp, hundredths(85)),
{
    lemma_of_int_exact(1000);
    lemma_pow2_pos(1074);
    lemma_over_self(of_int(1000));
    lemma_times_one(config.pv_size_kwp);
}

/// The minimum charge of the season, or all where it is more.
pub open spec fn capped_minimum(config: &Config, at: Moment) -> nat {
    if baseline_soc(config, at) < 100 {
        baseline_soc(config, at) as nat
    } else {
        100
    }
}

/// The charge that is needed is at least the minimum of the season, and is just that for a period
/// without length. A battery of no size, or of less, has no such charge: its share of the need is
/// not a number, or is negative.
pub proof fn lemma_required_soc_covers_minimum(
    config: &Config,
    weather: &WeatherResponse,
    start: Moment,
    end: Moment,
)
    requires
        !config.battery_size_kwh.negative(),
        !quotient(battery_kwh(config, weather, start, end), config.battery_size_kwh).is_nan(),
    ensures
        required_soc(config, weather, start, end) >= capped_minimum(config, start),
        !start.before(end) ==> required_soc(config, weather, start, end) == capped_minimum(
            config,
            start,
        ),
{
    reveal(less);
    reveal(ceiling);
    reveal(whole);
    reveal(quotient);
    let b = baseline_soc(config, start) as nat;
    let c = capped_minimum(config, start);
    let base = of_int(b as int);
    let size = config.battery_size_kwh;
    let kwh = battery_kwh(config, weather, start, end);
    lemma_of_int_exact(b);
    lemma_of_int_exact(100);
    lemma_pow2_pos(1074);
    assert(!kwh.is_nan() && !kwh.negative());
    let filled = quotient(kwh, size);
    lemma_nearest_bound(kwh.magnitude() * pow2(1074), size.magnitude());
    assert(!filled.negative());
    lemma_signs(filled, of_int(100));
    let percent = product(filled, of_int(100));
    lemma_sum_grows(base, percent);
    let target = sum(base, percent);
    let p = pow2(1074);
    assert(c * p <= b * p && c * p <= 100 * p) by (nonlinear_arith)
        requires
            c <= b,
            c <= 100,
    ;
    assert(target.magnitude() >= c * p) by {
        if target.is_finite() {
            lemma_magnitude_monotone(base, target);
        } else {
            lemma_infinite_magnitude(target);
        }
    }
    lemma_fundamental_div_mod_converse((c * p) as int, p as int, c as int, 0);
    lemma_div_is_ordered((c * p) as int, target.magnitude() as int, p as int);
    if !start.before(end) {
        let zero = with_sign(false, 0);
        assert(kwh == zero);
        assert(zero.magnitude() == 0);
        if size.is_finite() {
            lemma_positive_magnitude(size);
            assert(0 * p == 0);
            lemma_nearest_zero(size.magnitude());
        }
        lemma_times_zero(filled, of_int(100));
        lemma_plus_zero(base, percent);
        lemma_fundamental_div_mod_converse((b * p) as int, p as int, b as int, 0);
    }
}

/// A bit pattern other than zero stands for more than zero.
proof fn lemma_positive_magnitude(x: Double)
    requires
        x.is_finite(),
        x.low() > 0,
    ensures
        x.magnitude() > 0,
{
    lemma_nearest_self(x);
    lemma_nearest_zero(1);
}

/// There is no sun, and no load is below zero.
pub open spec fn loads_only(config: &Config) -> bool {
    &&& config.pv_size_kwp.low() == 0
    &&& is_amount(config.base_load_kw)
    &&& is_amount(config.heating_kwh_per_h_at_0c)
    &&& config.heating_off_temp_c.is_finite()
    &&& !config.heating_off_temp_c.negative()
    &&& config.heating_off_temp_c.low() > 0
}

/// What is forecast for the hour at `at` can be used: the radiation is finite, and the heating
/// demand is a number.
pub open spec fn is_usable_hour(config: &Config, weather: &WeatherResponse, at: Moment) -> bool {
    let times = weather.hourly.time@;
    &&& forecast_for(times, weather.hourly.shortwave_radiation@, at).is_finite()
    &&& !heating_kw(config, forecast_for(times, weather.hourly.temperature_2m@, at)).is_nan()
}

/// What is forecast for the hours from `at` to `end` can be used.
pub open spec fn are_usable_hours(
    config: &Config,
    weather: &WeatherResponse,
    at: Moment,
    end: Moment,
) -> bool
    decreases hours_left(at, end),
{
    if at.before(end) && at.can_move(3_600) {
        &&& is_usable_hour(config, weather, at)
        &&& are_usable_hours(config, weather, at.later(3_600), end)
    } else {
        true
    }
}

/// A temperature below the one at which heating stops is at a distance above zero.
proof fn lemma_distance_is_amount(off: Double, temperature: Double)
    requires
        off.is_finite(),
        less(temperature, off),
    ensures
        !difference(off, temperature).is_nan(),
        !difference(off, temperature).negative(),
{
    reveal(less);
    reveal(sum);
    if temperature.is_finite() {
        lemma_key_order(temperature, off);
        assert(opposite(temperature).scaled() == -temperature.scaled());
        let exact = off.scaled() - temperature.scaled();
        lemma_nearest_bound(exact as nat, 1);
    }
}

/// An amount times a number that has no sign is an amount, if it is a number.
proof fn lemma_product_is_amount(h: Double, q: Double)
    requires
        is_amount(h),
        !q.negative(),
        !product(h, q).is_nan(),
    ensures
        is_amount(product(h, q)),
{
    reveal(product);
    lemma_pow2_pos(1074);
    lemma_nearest_bound(h.magnitude() * q.magnitude(), pow2(1074));
    if h.negative() {
        assert(h.magnitude() == 0);
        assert(0 * q.magnitude() == 0);
        lemma_nearest_zero(pow2(1074));
    }
}

/// Heating demand is not below zero.
proof fn lemma_heating_is_amount(config: &Config, temperature: Double)
    requires
        loads_only(config),
        less(temperature, config.heating_off_temp_c),
        !heating_demand(config, temperature).is_nan(),
    ensures
        is_amount(heating_demand(config, temperature)),
{
    let off = config.heating_off_temp_c;
    let distance = difference(off, temperature);
    lemma_positive_magnitude(off);
    lemma_distance_is_amount(off, temperature);
    lemma_signs(distance, off);
    lemma_product_is_amount(config.heating_kwh_per_h_at_0c, quotient(distance, off));
}

/// Without panels, what the sun gives is nothing.
proof fn lemma_no_panels(config: &Config, radiation: Double)
    requires
        config.pv_size_kwp.low() == 0,
        radiation.is_finite(),
    ensures
        pv_kw(config, radiation).low() == 0,
{
    lemma_over_int_is_finite(radiation, 1000);
    lemma_ratio_is_share(85, 100);
    let share = product(config.pv_size_kwp, quotient(radiation, of_int(1000)));
    lemma_times_zero(config.pv_size_kwp, quotient(radiation, of_int(1000)));
    lemma_times_zero(share, hundredths(85));
}

/// Without sun, an hour does not make the need smaller.
proof fn lemma_hour_adds(config: &Config, weather: &WeatherResponse, at: Moment, total: Double)
    requires
        loads_only(config),
        is_usable_hour(config, weather, at),
        !total.is_nan(),
        !total.negative(),
    ensures
        !with_hour(config, weather, at, total).is_nan(),
        !with_hour(config, weather, at, total).negative(),
        with_hour(config, weather, at, total).low() >= total.low(),
{
    let times = weather.hourly.time@;
    let temperature = forecast_for(times, weather.hourly.temperature_2m@, at);
    let radiation = forecast_for(times, weather.hourly.shortwave_radiation@, at);
    let base = sum(total, config.base_load_kw);
    lemma_amount_added(total, config.base_load_kw);
    let heated = if less(temperature, config.heating_off_temp_c) {
        sum(base, heating_demand(config, temperature))
    } else {
        base
    };
    if less(temperature, config.heating_off_temp_c) {
        lemma_heating_is_amount(config, temperature);
        lemma_amount_added(base, heating_demand(config, temperature));
    }
    lemma_no_panels(config, radiation);
    lemma_plus_zero(heated, opposite(pv_kw(config, radiation)));
}

/// Without sun, the need does not fall when the period ends later.
proof fn lemma_need_grows(
    config: &Config,
    weather: &WeatherResponse,
    at: Moment,
    near: Moment,
    far: Moment,
    total: Double,
)
    requires
        loads_only(config),
        are_usable_hours(config, weather, at, far),
        !far.before(near),
        !total.is_nan(),
        !total.negative(),
    ensures
        ({
            let less_need = needed_kwh(config, weather, at, near, total);
            let more_need = needed_kwh(config, weather, at, far, total);
            &&& !less_need.is_nan() && !less_need.negative()
            &&& !more_need.is_nan() && !more_need.negative()
            &&& total.low() <= less_need.low() <= more_need.low()
        }),
    decreases hours_left(at, far),
{
    if at.before(far) && at.can_move(3_600) {
        lemma_hour_adds(config, weather, at, total);
        let next = with_hour(config, weather, at, total);
        let end = if at.before(near) {
            near
        } else {
            far
        };
        lemma_need_grows(config, weather, at.later(3_600), end, far, next);
    }
}

/// Without sun, the charge that is needed does not fall when the period ends later. Left out are
/// periods with an hour whose heating demand is not a number, which is so where there is no heating
/// and the temperature is too far below the one at which heating stops.
pub proof fn lemma_required_soc_grows(
    config: &Config,
    weather: &WeatherResponse,
    start: Moment,
    near: Moment,
    far: Moment,
)
    requires
        loads_only(config),
        are_usable_hours(config, weather, start, far),
        config.battery_size_kwh.is_finite(),
        !config.battery_size_kwh.negative(),
        config.battery_size_kwh.low() > 0,
        !far.before(near),
    ensures
        required_soc(config, weather, start, near) <= required_soc(config, weather, start, far),
{
    reveal(less);
    reveal(ceiling);
    reveal(whole);
    let size = config.battery_size_kwh;
    let hundred = of_int(100);
    let base = of_int(baseline_soc(config, start) as int);
    lemma_positive_magnitude(size);
    lemma_of_int_exact(100);
    lemma_of_int_exact(baseline_soc(config, start) as nat);
    lemma_pow2_pos(1074);
    lemma_need_grows(config, weather, start, near, far, with_sign(false, 0));
    let x = battery_kwh(config, weather, start, near);
    let y = battery_kwh(config, weather, start, far);
    assert(!x.is_nan() && !x.negative() && !y.is_nan() && !y.negative() && x.low() <= y.low());
    lemma_signs(x, size);
    lemma_signs(y, size);
    lemma_quotient_monotone(x, y, size);
    let u = quotient(x, size);
    let v = quotient(y, size);
    lemma_signs(u, hundred);
    lemma_signs(v, hundred);
    lemma_product_monotone(u, v, hundred);
    let m = product(u, hundred);
    let n = product(v, hundred);
    lemma_sum_grows(base, m);
    lemma_sum_grows(base, n);
    lemma_sum_monotone(base, m, n);
    let s = sum(base, m);
    let t = sum(base, n);
    let p = pow2(1074);
    if t.is_finite() {
        lemma_magnitude_monotone(s, t);
        lemma_div_is_ordered(s.magnitude() as int, t.magnitude() as int, p as int);
        if s.magnitude() / p == t.magnitude() / p {
            lemma_fundamental_div_mod(s.magnitude() as int, p as int);
            lemma_fundamental_div_mod(t.magnitude() as int, p as int);
        }
    } else {
        lemma_infinite_magnitude(t);
        lemma_fundamental_div_mod_converse((100 * p) as int, p as int, 100, 0);
        lemma_div_is_ordered((100 * p) as int, t.magnitude() as int, p as int);
    }
}

/// The bit pattern of infinity stands for more than any charge.
proof fn lemma_infinite_magnitude(x: Double)
    requires
        x.is_infinite(),
    ensures
        x.magnitude() >= 100 * pow2(1074),
{
    let e = x.low() / 0x10_0000_0000_0000;
    assert(e == 2047);
    vstd::arithmetic::power2::lemma_pow2_adds(972, 1074);
    lemma_pow2_pos(972);
    lemma_pow2_pos(1074);
    assert(pow2(2046) == pow2(972) * pow2(1074));
    assert(0x10_0000_0000_0000 * pow2(2046) >= 100 * pow2(1074)) by (nonlinear_arith)
        requires
            pow2(2046) == pow2(972) * pow2(1074),
            pow2(972) >= 1,
            pow2(1074) >= 1,
    ;
}

/// A moment is in summer where its date in UTC is one of April to September.
pub proof fn lemma_summer_is_april_to_september(at: Moment, date: Date)
    requires
        date.is_valid(),
        date.number() == at.day(),
    ensures
        is_summer(at) <==> 4 <= date.month <= 9,
{
    lemma_date_of(date);
}

} // verus!
