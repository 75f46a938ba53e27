//! What to do at the current price: block the heat pump or not, charge the battery or not.

use std::collections::VecDeque;

use vstd::arithmetic::power2::pow2;
use vstd::prelude::*;
use vstd::string::*;

use crate::bounds::{
    lemma_percentage_is_percentile, lemma_ratio_is_share, lemma_share_is_percentile,
};
use crate::config::Config;
use crate::double::{
    at_most, difference, less, of_int, product, quotient, sum, with_sign, Double,
};
use crate::moment::{Moment, HOUR_SECS};
use crate::order::{count_of, in_order, lemma_count_grows, lemma_in_order};
use crate::prices::{
    all_numbers, fits_percentile, is_percentile, lemma_above_percentile, lemma_below_percentile,
    lemma_percentile_of_sorted, percentile, percentile_of, rank, rank_above, rank_below,
    valid_times, PriceInfo,
};
use crate::rounding::STEP;
use crate::text::{decimal, write_digits};
use crate::weather::{
    baseline_soc, calculate_next_day_pv_kwh, calculate_remaining_pv_kwh, calculate_required_soc,
    force_charge_soc, get_baseline_soc, get_force_charge_soc, hundredths, hundredths_of, is_summer,
    next_day_pv_kwh, remaining_pv_kwh, required_soc, WeatherResponse,
};

verus! {

/// Whether the heat pump compressor may run.
#[derive(Clone, Copy, Debug, PartialEq, Eq, Structural)]
pub enum CompressorState {
    Allowed,
    Blocked,
}

/// Why the battery is charged from the grid.
#[derive(Clone, Copy, Debug, PartialEq, Eq, Structural)]
pub enum ChargeReason {
    /// A spike is coming and the price is in the dip before it; the charge needed in percent.
    PreSpike(u8),
    /// A spike is coming and nothing lies before it; the charge needed in percent.
    ImmediateSpike(u8),
    /// The price is low and does not get lower.
    LowPoint,
    /// The price is low and nothing is known of later prices.
    EodLow,
    /// Winter, a low price and hardly any sun.
    WinterLowPv,
}

/// What the battery is to do.
#[derive(Clone, Copy, Debug, PartialEq, Eq, Structural)]
pub enum BatteryDecision {
    /// Keep the given minimum charge.
    Baseline(u8),
    /// Charge to the given level.
    ForceCharge(u8, ChargeReason),
    /// Keep the given minimum charge for now; the price to wait for.
    WaitForLower(u8, Double),
}

/// The current price and the thresholds it is held against.
#[derive(Clone, Copy, Debug, PartialEq, Eq, Structural)]
pub struct PriceThresholds {
    pub current_price: Double,
    pub block_threshold: Double,
    pub low_price_threshold: Double,
    pub spike_threshold: Double,
}

/// Why there is no decision.
#[derive(Clone, Copy, Debug, PartialEq, Eq, Structural)]
pub enum AnalysisError {
    /// The prices could not be fetched.
    UpdateFailed,
    /// No known price is for now.
    NoCurrentPrice,
    /// Fewer than four prices are known for the coming day.
    NotEnoughData,
}

/// The outcome of an analysis.
#[derive(Clone, Copy, Debug, PartialEq, Eq, Structural)]
pub struct Analysis {
    pub compressor: CompressorState,
    pub battery: BatteryDecision,
    pub thresholds: PriceThresholds,
    pub expected_pv_kwh: Double,
}

impl ChargeReason {
    /// The reason in words.
    pub open spec fn words(self) -> Seq<char> {
        match self {
            ChargeReason::PreSpike(soc) => "Pre-Spike (Need "@ + decimal(soc as int) + "%)"@,
            ChargeReason::ImmediateSpike(soc) => "Immediate Spike (Need "@ + decimal(soc as int)
                + "%)"@,
            ChargeReason::LowPoint => "Low Point"@,
            ChargeReason::EodLow => "EOD Low"@,
            ChargeReason::WinterLowPv => "Winter Low PV Grid Charge"@,
        }
    }

    /// The reason in words.
    pub fn text(self) -> (r: String)
        ensures
            r@ == self.words(),
    {
        match self {
            ChargeReason::PreSpike(soc) => "Pre-Spike (Need ".to_owned().concat(
                write_digits(soc as u64, 10).as_str(),
            ).concat("%)"),
            ChargeReason::ImmediateSpike(soc) => "Immediate Spike (Need ".to_owned().concat(
                write_digits(soc as u64, 10).as_str(),
            ).concat("%)"),
            ChargeReason::LowPoint => "Low Point".to_owned(),
            ChargeReason::EodLow => "EOD Low".to_owned(),
            ChargeReason::WinterLowPv => "Winter Low PV Grid Charge".to_owned(),
        }
    }
}

impl AnalysisError {
    /// The error in words.
    pub open spec fn words(self) -> Seq<char> {
        match self {
            AnalysisError::UpdateFailed => "Failed to update price data"@,
            AnalysisError::NoCurrentPrice => "Could not find current price information"@,
            AnalysisError::NotEnoughData => "Not enough price data for sliding window"@,
        }
    }

    /// The error in words.
    pub fn text(self) -> (r: String)
        ensures
            r@ == self.words(),
    {
        match self {
            AnalysisError::UpdateFailed => "Failed to update price data".to_owned(),
            AnalysisError::NoCurrentPrice => "Could not find current price information".to_owned(),
            AnalysisError::NotEnoughData => "Not enough price data for sliding window".to_owned(),
        }
    }
}

/// The price is for the quarter of an hour that `now` lies in.
pub open spec fn is_current(p: PriceInfo, now: Moment) -> bool {
    !now.before(p.from) && now.before(p.from.later(900))
}

/// The first price at or after position `i` that is for now.
pub open spec fn current_price(prices: Seq<PriceInfo>, now: Moment, i: int) -> Option<PriceInfo>
    decreases prices.len() - i,
{
    if i < 0 || i >= prices.len() {
        None
    } else if is_current(prices[i], now) {
        Some(prices[i])
    } else {
        current_price(prices, now, i + 1)
    }
}

/// The prices from `start` on and before `end`.
pub open spec fn between(prices: Seq<PriceInfo>, start: Moment, end: Moment) -> Seq<PriceInfo>
    decreases prices.len(),
{
    if prices.len() == 0 {
        prices
    } else {
        let p = prices.last();
        let rest = between(prices.drop_last(), start, end);
        if !p.from.before(start) && p.from.before(end) {
            rest.push(p)
        } else {
            rest
        }
    }
}

/// The prices alone.
pub open spec fn values(prices: Seq<PriceInfo>) -> Seq<Double> {
    prices.map_values(|p: PriceInfo| p.price)
}

/// The highest price, the latest of them where there are several.
pub open spec fn highest(prices: Seq<PriceInfo>) -> PriceInfo
    recommends
        prices.len() > 0,
    decreases prices.len(),
{
    if prices.len() <= 1 {
        prices[0]
    } else {
        let best = highest(prices.drop_last());
        if less(prices.last().price, best.price) {
            best
        } else {
            prices.last()
        }
    }
}

/// The lowest price, the earliest of them where there are several.
pub open spec fn lowest(prices: Seq<PriceInfo>) -> Double
    recommends
        prices.len() > 0,
    decreases prices.len(),
{
    if prices.len() <= 1 {
        prices[0].price
    } else {
        let best = lowest(prices.drop_last());
        if less(prices.last().price, best) {
            prices.last().price
        } else {
            best
        }
    }
}

/// How far ahead the thresholds look: a day, or the configured number of hours if that is more.
pub open spec fn window_hours(config: &Config) -> int {
    if config.lookahead_hours > 24 {
        config.lookahead_hours as int
    } else {
        24
    }
}

/// The prices that the thresholds are drawn from.
pub open spec fn window_of(config: &Config, prices: Seq<PriceInfo>, now: Moment) -> Seq<Double> {
    values(between(prices, now, now.later(window_hours(config) * 3_600)))
}

/// The prices within the lookahead.
pub open spec fn lookahead_of(config: &Config, prices: Seq<PriceInfo>, now: Moment) -> Seq<
    PriceInfo,
> {
    between(prices, now, now.later(config.lookahead_hours * 3_600))
}

/// A percentage as a share.
pub open spec fn share(percentage: Double) -> Double {
    quotient(percentage, of_int(100))
}

/// The thresholds at the price `current`.
pub open spec fn thresholds_of(
    config: &Config,
    window: Seq<Double>,
    current: Double,
) -> PriceThresholds {
    PriceThresholds {
        current_price: current,
        block_threshold: percentile_of(window, share(config.block_price_percentile)),
        low_price_threshold: percentile_of(window, share(config.low_price_percentile)),
        spike_threshold: percentile_of(window, share(config.high_spike_percentile)),
    }
}

/// Prices above the block threshold block the heat pump.
pub open spec fn price_decision(thresholds: PriceThresholds) -> CompressorState {
    if less(thresholds.block_threshold, thresholds.current_price) {
        CompressorState::Blocked
    } else {
        CompressorState::Allowed
    }
}

/// The minimum charge to keep. In winter, when the sun is expected to give at least half the
/// battery tomorrow, the summer minimum is enough from 6 to 12 o'clock local time.
pub open spec fn kept_soc(config: &Config, weather: &WeatherResponse, now: Moment) -> u8 {
    let base = baseline_soc(config, now);
    if !is_summer(now) && base > config.summer_min_soc && at_most(
        product(config.battery_size_kwh, hundredths(50)),
        next_day_pv_kwh(config, weather, now),
    ) && 6 <= now.cet_hour() < 12 {
        config.summer_min_soc
    } else {
        base
    }
}

/// A price `peak` is a spike: above the threshold and well above the current price.
pub open spec fn is_spike(config: &Config, thresholds: PriceThresholds, peak: Double) -> bool {
    &&& less(thresholds.spike_threshold, peak)
    &&& less(config.min_spike_difference_cents, difference(peak, thresholds.current_price))
}

/// What a spike starting at `peak` calls for: charging at once if nothing lies before it or the
/// price is in the cheapest quarter of what does, and waiting for that quarter otherwise.
pub open spec fn before_spike(
    config: &Config,
    prices: Seq<PriceInfo>,
    weather: &WeatherResponse,
    now: Moment,
    current: Double,
    peak: Moment,
) -> BatteryDecision {
    let target = required_soc(config, weather, now, peak.later(14_400)) as u8;
    let dip = values(between(prices, now, peak));
    let entry = percentile_of(dip, hundredths(25));
    if dip.len() == 0 {
        BatteryDecision::ForceCharge(target, ChargeReason::ImmediateSpike(target))
    } else if at_most(current, entry) {
        BatteryDecision::ForceCharge(target, ChargeReason::PreSpike(target))
    } else {
        BatteryDecision::WaitForLower(kept_soc(config, weather, now), entry)
    }
}

/// What a low price calls for: charging if it does not get lower, and waiting otherwise.
pub open spec fn at_low_price(
    config: &Config,
    weather: &WeatherResponse,
    now: Moment,
    current: Double,
    ahead: Seq<PriceInfo>,
) -> BatteryDecision {
    let target = force_charge_soc(config, now);
    if ahead.len() == 0 {
        BatteryDecision::ForceCharge(target, ChargeReason::EodLow)
    } else if at_most(current, sum(lowest(ahead), hundredths(1))) {
        BatteryDecision::ForceCharge(target, ChargeReason::LowPoint)
    } else {
        BatteryDecision::WaitForLower(kept_soc(config, weather, now), lowest(ahead))
    }
}

/// What the prices alone call for.
pub open spec fn by_price(
    config: &Config,
    prices: Seq<PriceInfo>,
    weather: &WeatherResponse,
    now: Moment,
    thresholds: PriceThresholds,
) -> BatteryDecision {
    let ahead = lookahead_of(config, prices, now);
    let current = thresholds.current_price;
    if ahead.len() > 0 && is_spike(config, thresholds, highest(ahead).price) {
        before_spike(config, prices, weather, now, current, highest(ahead).from)
    } else if less(current, thresholds.low_price_threshold) {
        at_low_price(config, weather, now, current, ahead)
    } else {
        BatteryDecision::Baseline(kept_soc(config, weather, now))
    }
}

/// The energy that a battery at `soc` percent lacks, in kWh.
pub open spec fn missing_kwh(config: &Config, soc: u8) -> Double {
    product(
        config.battery_size_kwh,
        quotient(difference(of_int(100), of_int(soc as int)), of_int(100)),
    )
}

/// What the sun changes about a decision: where it fills the battery, nothing is charged from the
/// grid unless that costs next to nothing; where it gives less than a third of what is missing,
/// winter uses every low price.
pub open spec fn with_sun(
    config: &Config,
    weather: &WeatherResponse,
    now: Moment,
    soc: u8,
    thresholds: PriceThresholds,
    decision: BatteryDecision,
) -> BatteryDecision {
    let expected = remaining_pv_kwh(config, weather, now);
    let missing = missing_kwh(config, soc);
    if at_most(missing, expected) {
        if decision is ForceCharge && less(of_int(1), thresholds.current_price) {
            BatteryDecision::Baseline(kept_soc(config, weather, now))
        } else {
            decision
        }
    } else if !is_summer(now) && less(expected, product(missing, hundredths(30))) && less(
        thresholds.current_price,
        thresholds.low_price_threshold,
    ) {
        BatteryDecision::ForceCharge(force_charge_soc(config, now), ChargeReason::WinterLowPv)
    } else {
        decision
    }
}

/// The outcome at the thresholds.
pub open spec fn outcome(
    config: &Config,
    prices: Seq<PriceInfo>,
    weather: &WeatherResponse,
    now: Moment,
    soc: u8,
    thresholds: PriceThresholds,
) -> Analysis {
    if config.enable_battery_control {
        Analysis {
            compressor: price_decision(thresholds),
            battery: with_sun(
                config,
                weather,
                now,
                soc,
                thresholds,
                by_price(config, prices, weather, now, thresholds),
            ),
            thresholds,
            expected_pv_kwh: remaining_pv_kwh(config, weather, now),
        }
    } else {
        Analysis {
            compressor: price_decision(thresholds),
            battery: BatteryDecision::Baseline(kept_soc(config, weather, now)),
            thresholds,
            expected_pv_kwh: with_sign(false, 0),
        }
    }
}

/// The outcome of an analysis of the cached prices.
pub open spec fn analysis_of(
    config: &Config,
    prices: Seq<PriceInfo>,
    weather: &WeatherResponse,
    now: Moment,
    soc: u8,
) -> Result<Analysis, AnalysisError> {
    match current_price(prices, now, 0) {
        None => Err(AnalysisError::NoCurrentPrice),
        Some(current) => {
            let window = window_of(config, prices, now);
            if window.len() < 4 {
                Err(AnalysisError::NotEnoughData)
            } else {
                Ok(
                    outcome(
                        config,
                        prices,
                        weather,
                        now,
                        soc,
                        thresholds_of(config, window, current.price),
                    ),
                )
            }
        },
    }
}

/// The prices can be compared with each other.
pub open spec fn comparable(prices: Seq<PriceInfo>) -> bool {
    forall|i: int| 0 <= i < prices.len() ==> !(#[trigger] prices[i]).price.is_nan()
}

/// The configured hours and percentiles can be used at `now`, as far as there are prices for them:
/// the hours do not lead out of the calendar, and the percentiles point at values of the window,
/// which can be compared.
pub open spec fn usable(config: &Config, prices: Seq<PriceInfo>, now: Moment) -> bool {
    let end = now.later(window_hours(config) * 3_600);
    let n = window_of(config, prices, now).len();
    current_price(prices, now, 0) is Some ==> {
        &&& now.can_move(window_hours(config) * 3_600)
        &&& n >= 4 ==> {
            &&& comparable(between(prices, now, end))
            &&& is_percentile(n, share(config.block_price_percentile))
            &&& is_percentile(n, share(config.low_price_percentile))
            &&& is_percentile(n, share(config.high_spike_percentile))
            &&& config.enable_battery_control ==> now.can_move(config.lookahead_hours * 3_600)
        }
    }
}

proof fn lemma_between_part(prices: Seq<PriceInfo>, start: Moment, near: Moment, far: Moment)
    requires
        comparable(between(prices, start, far)),
        !far.before(near),
    ensures
        comparable(between(prices, start, near)),
    decreases prices.len(),
{
    if prices.len() > 0 {
        let p = prices.last();
        let rest = between(prices.drop_last(), start, far);
        let all = between(prices, start, far);
        assert(comparable(rest)) by {
            assert forall|i: int| 0 <= i < rest.len() implies !(
            #[trigger] rest[i]).price.is_nan() by {
                assert(all[i] == rest[i]);
            }
        }
        lemma_between_part(prices.drop_last(), start, near, far);
        if !p.from.before(start) && p.from.before(near) {
            assert(all[rest.len() as int] == p);
        }
    }
}

/// A selection is no longer than what it is taken from, and keeps what holds of all its prices.
pub proof fn lemma_between(prices: Seq<PriceInfo>, start: Moment, end: Moment)
    ensures
        between(prices, start, end).len() <= prices.len(),
        valid_times(prices) ==> valid_times(between(prices, start, end)),
        comparable(prices) ==> comparable(between(prices, start, end)),
        comparable(between(prices, start, end)) ==> all_numbers(
            values(between(prices, start, end)),
        ),
        forall|i: int|
            0 <= i < between(prices, start, end).len() ==> (#[trigger] between(
                prices,
                start,
                end,
            )[i]).from.before(end),
    decreases prices.len(),
{
    if prices.len() > 0 {
        lemma_between(prices.drop_last(), start, end);
    }
}

/// Finds the price for now.
pub fn find_current_price(prices: &VecDeque<PriceInfo>, now: Moment) -> (r: Option<PriceInfo>)
    requires
        valid_times(prices@),
    ensures
        r == current_price(prices@, now, 0),
{
    let mut i: usize = 0;
    while i < prices.len()
        invariant
            i <= prices.len(),
            valid_times(prices@),
            current_price(prices@, now, 0) == current_price(prices@, now, i as int),
        decreases prices.len() - i,
    {
        let p: PriceInfo = prices[i];
        if !now.is_before(p.from) && now.is_before(p.from.plus_seconds(900)) {
            return Some(p);
        }
        i = i + 1;
    }
    None
}

/// Selects the prices from `start` on and before `end`.
pub fn select_between(prices: &VecDeque<PriceInfo>, start: Moment, end: Moment) -> (r: Vec<
    PriceInfo,
>)
    ensures
        r@ == between(prices@, start, end),
{
    let mut r: Vec<PriceInfo> = Vec::new();
    let mut i: usize = 0;
    assert(prices@.take(0) == Seq::<PriceInfo>::empty());
    while i < prices.len()
        invariant
            i <= prices.len(),
            r@ == between(prices@.take(i as int), start, end),
        decreases prices.len() - i,
    {
        let p: PriceInfo = prices[i];
        assert(prices@.take(i + 1).drop_last() == prices@.take(i as int));
        assert(prices@.take(i + 1).last() == p);
        if !p.from.is_before(start) && p.from.is_before(end) {
            r.push(p);
        }
        i = i + 1;
    }
    assert(prices@.take(i as int) == prices@);
    r
}

/// Takes the prices alone.
fn price_values(prices: &Vec<PriceInfo>) -> (r: Vec<Double>)
    ensures
        r@ == values(prices@),
{
    let mut r: Vec<Double> = Vec::new();
    let mut i: usize = 0;
    while i < prices.len()
        invariant
            i <= prices.len(),
            r@ == values(prices@).take(i as int),
        decreases prices.len() - i,
    {
        r.push(prices[i].price);
        assert(values(prices@).take(i + 1) == values(prices@).take(i as int).push(
            prices@[i as int].price,
        ));
        i = i + 1;
    }
    assert(values(prices@).take(i as int) == values(prices@));
    r
}

/// Finds the highest price.
fn find_highest(prices: &Vec<PriceInfo>) -> (r: PriceInfo)
    requires
        prices@.len() > 0,
        comparable(prices@),
    ensures
        r == highest(prices@),
        exists|i: int| 0 <= i < prices@.len() && prices@[i] == r,
{
    let mut best: PriceInfo = prices[0];
    let mut i: usize = 1;
    assert(prices@.take(1)[0] == prices@[0]);
    while i < prices.len()
        invariant
            1 <= i <= prices.len(),
            best == highest(prices@.take(i as int)),
            exists|j: int| 0 <= j < prices@.len() && prices@[j] == best,
        decreases prices.len() - i,
    {
        let p: PriceInfo = prices[i];
        assert(prices@.take(i + 1).drop_last() == prices@.take(i as int));
        if !p.price.lt(best.price) {
            best = p;
            assert(prices@[i as int] == best);
        }
        i = i + 1;
    }
    assert(prices@.take(i as int) == prices@);
    best
}

/// Finds the lowest price.
fn find_lowest(prices: &Vec<PriceInfo>) -> (r: Double)
    requires
        prices@.len() > 0,
        comparable(prices@),
    ensures
        r == lowest(prices@),
{
    let mut best: Double = prices[0].price;
    let mut i: usize = 1;
    assert(prices@.take(1)[0] == prices@[0]);
    while i < prices.len()
        invariant
            1 <= i <= prices.len(),
            best == lowest(prices@.take(i as int)),
        decreases prices.len() - i,
    {
        let p: PriceInfo = prices[i];
        assert(prices@.take(i + 1).drop_last() == prices@.take(i as int));
        if p.price.lt(best) {
            best = p.price;
        }
        i = i + 1;
    }
    assert(prices@.take(i as int) == prices@);
    best
}

/// The minimum charge to keep now.
fn find_kept_soc(config: &Config, weather: &WeatherResponse, now: Moment) -> (r: u8)
    requires
        now.valid(),
    ensures
        r == kept_soc(config, weather, now),
{
    let base: u8 = get_baseline_soc(config, now);
    let month: u32 = now.utc_month();
    let winter: bool = month < 4 || month > 9;
    if winter && base > config.summer_min_soc {
        let next_day: Double = calculate_next_day_pv_kwh(config, weather, now);
        let half: Double = config.battery_size_kwh.times(hundredths_of(50));
        if half.le(next_day) {
            let hour: u64 = now.local_hour_of_day();
            if 6 <= hour && hour < 12 {
                return config.summer_min_soc;
            }
        }
    }
    base
}

/// What a coming spike calls for.
fn decide_before_spike(
    config: &Config,
    prices: &VecDeque<PriceInfo>,
    weather: &WeatherResponse,
    now: Moment,
    current: Double,
    peak: Moment,
) -> (r: BatteryDecision)
    requires
        now.valid(),
        peak.valid(),
        comparable(between(prices@, now, peak)),
        prices@.len() <= 2 * STEP,
    ensures
        r == before_spike(config, prices@, weather, now, current, peak),
{
    let target: u8 = calculate_required_soc(config, weather, now, peak.plus_seconds(14_400));
    let mut dip: Vec<Double> = price_values(&select_between(prices, now, peak));
    if dip.len() == 0 {
        BatteryDecision::ForceCharge(target, ChargeReason::ImmediateSpike(target))
    } else {
        let quarter: Double = hundredths_of(25);
        proof {
            lemma_between(prices@, now, peak);
            lemma_quarter_share();
            lemma_share_is_percentile(dip@.len(), quarter);
        }
        let entry: Double = percentile(&mut dip, quarter);
        if current.le(entry) {
            BatteryDecision::ForceCharge(target, ChargeReason::PreSpike(target))
        } else {
            BatteryDecision::WaitForLower(find_kept_soc(config, weather, now), entry)
        }
    }
}

proof fn lemma_quarter_share()
    ensures
        hundredths(25).is_finite(),
        !hundredths(25).negative(),
        hundredths(25).magnitude() <= pow2(1074),
{
    lemma_ratio_is_share(25, 100);
}

/// What a low price calls for.
fn decide_at_low_price(
    config: &Config,
    weather: &WeatherResponse,
    now: Moment,
    current: Double,
    ahead: &Vec<PriceInfo>,
) -> (r: BatteryDecision)
    requires
        now.valid(),
        comparable(ahead@),
    ensures
        r == at_low_price(config, weather, now, current, ahead@),
{
    let target: u8 = get_force_charge_soc(config, now);
    if ahead.len() == 0 {
        BatteryDecision::ForceCharge(target, ChargeReason::EodLow)
    } else {
        let low: Double = find_lowest(ahead);
        if current.le(low.plus(hundredths_of(1))) {
            BatteryDecision::ForceCharge(target, ChargeReason::LowPoint)
        } else {
            BatteryDecision::WaitForLower(find_kept_soc(config, weather, now), low)
        }
    }
}

/// What the prices alone call for.
fn decide_by_price(
    config: &Config,
    prices: &VecDeque<PriceInfo>,
    weather: &WeatherResponse,
    now: Moment,
    thresholds: PriceThresholds,
) -> (r: BatteryDecision)
    requires
        now.valid(),
        valid_times(prices@),
        comparable(lookahead_of(config, prices@, now)),
        prices@.len() <= 2 * STEP,
        now.can_move(config.lookahead_hours * 3_600),
    ensures
        r == by_price(config, prices@, weather, now, thresholds),
{
    let ahead: Vec<PriceInfo> = select_between(
        prices,
        now,
        now.plus_seconds(config.lookahead_hours * HOUR_SECS),
    );
    proof {
        lemma_between(prices@, now, now.later(config.lookahead_hours * 3_600));
    }
    if ahead.len() > 0 {
        let top: PriceInfo = find_highest(&ahead);
        if thresholds.spike_threshold.lt(top.price) && config.min_spike_difference_cents.lt(
            top.price.minus(thresholds.current_price),
        ) {
            proof {
                lemma_between_part(
                    prices@,
                    now,
                    top.from,
                    now.later(config.lookahead_hours * 3_600),
                );
            }
            return decide_before_spike(
                config,
                prices,
                weather,
                now,
                thresholds.current_price,
                top.from,
            );
        }
    }
    if thresholds.current_price.lt(thresholds.low_price_threshold) {
        decide_at_low_price(config, weather, now, thresholds.current_price, &ahead)
    } else {
        BatteryDecision::Baseline(find_kept_soc(config, weather, now))
    }
}

/// What the sun changes about a decision.
fn adjust_to_sun(
    config: &Config,
    weather: &WeatherResponse,
    now: Moment,
    soc: u8,
    thresholds: PriceThresholds,
    decision: BatteryDecision,
    expected: Double,
) -> (r: BatteryDecision)
    requires
        now.valid(),
        expected == remaining_pv_kwh(config, weather, now),
    ensures
        r == with_sun(config, weather, now, soc, thresholds, decision),
{
    let lacking: Double = Double::of_u64(100).minus(Double::of_u64(soc as u64));
    let missing: Double = config.battery_size_kwh.times(lacking.over(Double::of_u64(100)));
    if missing.le(expected) {
        match decision {
            BatteryDecision::ForceCharge(_, _) => {
                if Double::of_u64(1).lt(thresholds.current_price) {
                    BatteryDecision::Baseline(find_kept_soc(config, weather, now))
                } else {
                    decision
                }
            },
            _ => decision,
        }
    } else {
        let month: u32 = now.utc_month();
        let winter: bool = month < 4 || month > 9;
        if winter && expected.lt(missing.times(hundredths_of(30))) && thresholds.current_price.lt(
            thresholds.low_price_threshold,
        ) {
            BatteryDecision::ForceCharge(
                get_force_charge_soc(config, now),
                ChargeReason::WinterLowPv,
            )
        } else {
            decision
        }
    }
}

/// Decides on heat pump and battery from the cached prices, the forecast and the state of charge.
pub fn run_price_analysis(
    config: &Config,
    prices: &VecDeque<PriceInfo>,
    now: Moment,
    weather: &WeatherResponse,
    soc: u8,
) -> (r: Result<Analysis, AnalysisError>)
    requires
        now.valid(),
        valid_times(prices@),
        prices@.len() <= 2 * STEP,
        usable(config, prices@, now),
    ensures
        r == analysis_of(config, prices@, weather, now, soc),
{
    let current: PriceInfo = match find_current_price(prices, now) {
        Some(p) => p,
        None => {
            return Err(AnalysisError::NoCurrentPrice);
        },
    };
    let hours: i64 = if config.lookahead_hours > 24 {
        config.lookahead_hours
    } else {
        24
    };
    proof {
        lemma_between(prices@, now, now.later(window_hours(config) * 3_600));
    }
    let mut window: Vec<Double> = price_values(
        &select_between(prices, now, now.plus_seconds(hours * HOUR_SECS)),
    );
    if window.len() < 4 {
        return Err(AnalysisError::NotEnoughData);
    }
    let hundred: Double = Double::of_u64(100);
    let ghost unsorted = window@;
    proof {
        lemma_percentile_of_sorted(unsorted, share(config.low_price_percentile));
        lemma_percentile_of_sorted(unsorted, share(config.high_spike_percentile));
        lemma_in_order(unsorted);
    }
    let block_threshold: Double = percentile(
        &mut window,
        config.block_price_percentile.over(hundred),
    );
    let low_price_threshold: Double = percentile(
        &mut window,
        config.low_price_percentile.over(hundred),
    );
    let spike_threshold: Double = percentile(
        &mut window,
        config.high_spike_percentile.over(hundred),
    );
    let thresholds: PriceThresholds = PriceThresholds {
        current_price: current.price,
        block_threshold,
        low_price_threshold,
        spike_threshold,
    };
    let compressor: CompressorState = if thresholds.block_threshold.lt(thresholds.current_price) {
        CompressorState::Blocked
    } else {
        CompressorState::Allowed
    };
    if config.enable_battery_control {
        proof {
            lemma_between_part(
                prices@,
                now,
                now.later(config.lookahead_hours * 3_600),
                now.later(window_hours(config) * 3_600),
            );
        }
        let by_price: BatteryDecision = decide_by_price(config, prices, weather, now, thresholds);
        let expected_pv_kwh: Double = calculate_remaining_pv_kwh(config, weather, now);
        let battery: BatteryDecision = adjust_to_sun(
            config,
            weather,
            now,
            soc,
            thresholds,
            by_price,
            expected_pv_kwh,
        );
        Ok(Analysis { compressor, battery, thresholds, expected_pv_kwh })
    } else {
        Ok(
            Analysis {
                compressor,
                battery: BatteryDecision::Baseline(find_kept_soc(config, weather, now)),
                thresholds,
                expected_pv_kwh: Double::zero(),
            },
        )
    }
}

/// Whether the prices can be compared with each other.
fn are_comparable(prices: &Vec<PriceInfo>) -> (r: bool)
    ensures
        r == comparable(prices@),
{
    let mut i: usize = 0;
    while i < prices.len()
        invariant
            i <= prices.len(),
            forall|j: int| 0 <= j < i ==> !(#[trigger] prices@[j]).price.is_nan(),
        decreases prices.len() - i,
    {
        if prices[i].price.is_nan_number() {
            assert(prices@[i as int].price.is_nan());
            return false;
        }
        i = i + 1;
    }
    true
}

/// Whether prices, settings and time are such that an analysis can be run.
pub fn can_analyse(config: &Config, prices: &VecDeque<PriceInfo>, now: Moment) -> (r: bool)
    ensures
        r == {
            &&& now.valid()
            &&& valid_times(prices@)
            &&& prices@.len() <= 2 * STEP
            &&& usable(config, prices@, now)
        },
{
    if !now.is_valid() || prices.len() as u64 > 2 * STEP {
        return false;
    }
    let mut i: usize = 0;
    while i < prices.len()
        invariant
            i <= prices.len(),
            forall|j: int| 0 <= j < i ==> (#[trigger] prices@[j]).from.valid(),
        decreases prices.len() - i,
    {
        if !prices[i].from.is_valid() {
            assert(!prices@[i as int].from.valid());
            return false;
        }
        i = i + 1;
    }
    if find_current_price(prices, now).is_none() {
        return true;
    }
    let hours: i64 = if config.lookahead_hours > 24 {
        config.lookahead_hours
    } else {
        24
    };
    if !now.can_move_hours(hours) {
        return false;
    }
    let window: Vec<PriceInfo> = select_between(prices, now, now.plus_seconds(hours * HOUR_SECS));
    let n: usize = window.len();
    let hundred: Double = Double::of_u64(100);
    assert(window_of(config, prices@, now).len() == n);
    n < 4 || (are_comparable(&window) && fits_percentile(
        n,
        config.block_price_percentile.over(hundred),
    ) && fits_percentile(n, config.low_price_percentile.over(hundred)) && fits_percentile(
        n,
        config.high_spike_percentile.over(hundred),
    ) && (!config.enable_battery_control || now.can_move_hours(config.lookahead_hours)))
}

/// Settings between 0 and 100 percent can be used on any prices that can be compared and at any
/// time that is not at the end of the calendar.
pub proof fn lemma_percentages_are_usable(config: &Config, prices: Seq<PriceInfo>, now: Moment)
    requires
        prices.len() <= 2 * STEP,
        comparable(prices),
        is_percentage(config.block_price_percentile),
        is_percentage(config.low_price_percentile),
        is_percentage(config.high_spike_percentile),
        now.can_move(window_hours(config) * 3_600),
        now.can_move(config.lookahead_hours * 3_600),
    ensures
        usable(config, prices, now),
{
    lemma_between(prices, now, now.later(window_hours(config) * 3_600));
    let n = window_of(config, prices, now).len();
    lemma_percentage_is_percentile(n, config.block_price_percentile);
    lemma_percentage_is_percentile(n, config.low_price_percentile);
    lemma_percentage_is_percentile(n, config.high_spike_percentile);
}

/// A number from 0 to 100.
pub open spec fn is_percentage(x: Double) -> bool {
    x.is_finite() && !x.negative() && x.magnitude() <= 100 * pow2(1074)
}

/// The highest price is one of the prices, and none is higher. Of several, it is the latest.
pub proof fn lemma_highest(prices: Seq<PriceInfo>)
    requires
        prices.len() > 0,
        comparable(prices),
    ensures
        prices.contains(highest(prices)),
        forall|i: int|
            0 <= i < prices.len() ==> !less(highest(prices).price, (#[trigger] prices[i]).price),
        exists|k: int|
            0 <= k < prices.len() && #[trigger] prices[k] == highest(prices) && forall|i: int|
                k < i < prices.len() ==> less((#[trigger] prices[i]).price, highest(prices).price),
    decreases prices.len(),
{
    reveal(less);
    if prices.len() > 1 {
        let rest = prices.drop_last();
        lemma_highest(rest);
        let best = highest(rest);
        assert(!best.price.is_nan()) by {
            let i = choose|i: int| 0 <= i < rest.len() && rest[i] == best;
            assert(prices[i] == best);
        }
        assert forall|i: int| 0 <= i < prices.len() implies !less(
            highest(prices).price,
            (#[trigger] prices[i]).price,
        ) by {
            if i < rest.len() {
                assert(prices[i] == rest[i]);
            }
        }
        if less(prices.last().price, best.price) {
            let k = choose|k: int|
                0 <= k < rest.len() && #[trigger] rest[k] == best && forall|i: int|
                    k < i < rest.len() ==> less((#[trigger] rest[i]).price, best.price);
            assert(prices[k] == best);
            assert forall|i: int| k < i < prices.len() implies less(
                (#[trigger] prices[i]).price,
                best.price,
            ) by {
                if i < rest.len() {
                    assert(prices[i] == rest[i]);
                }
            }
        } else {
            assert(prices[prices.len() - 1] == highest(prices));
        }
    } else {
        assert(prices[0] == highest(prices));
    }
}

/// The lowest price is the price of one of them, and none is lower.
pub proof fn lemma_lowest(prices: Seq<PriceInfo>)
    requires
        prices.len() > 0,
        comparable(prices),
    ensures
        exists|i: int| 0 <= i < prices.len() && (#[trigger] prices[i]).price == lowest(prices),
        forall|i: int|
            0 <= i < prices.len() ==> !less((#[trigger] prices[i]).price, lowest(prices)),
    decreases prices.len(),
{
    reveal(less);
    if prices.len() > 1 {
        let rest = prices.drop_last();
        lemma_lowest(rest);
        let k = choose|i: int| 0 <= i < rest.len() && (#[trigger] rest[i]).price == lowest(rest);
        assert(prices[k].price == lowest(rest));
        assert forall|i: int| 0 <= i < prices.len() implies !less(
            (#[trigger] prices[i]).price,
            lowest(prices),
        ) by {
            if i < rest.len() {
                assert(prices[i] == rest[i]);
            }
        }
        assert(prices[prices.len() - 1] == prices.last());
    } else {
        assert(prices[0].price == lowest(prices));
    }
}

/// The battery is charged from the grid before a spike only where there is one that is high enough,
/// and for any other reason only at a low price.
pub proof fn lemma_why_charged(
    config: &Config,
    prices: Seq<PriceInfo>,
    weather: &WeatherResponse,
    now: Moment,
    soc: u8,
    thresholds: PriceThresholds,
)
    requires
        outcome(config, prices, weather, now, soc, thresholds).battery is ForceCharge,
    ensures
        match outcome(config, prices, weather, now, soc, thresholds).battery->ForceCharge_1 {
            ChargeReason::PreSpike(_) | ChargeReason::ImmediateSpike(_) => {
                let ahead = lookahead_of(config, prices, now);
                ahead.len() > 0 && is_spike(config, thresholds, highest(ahead).price)
            },
            _ => less(thresholds.current_price, thresholds.low_price_threshold),
        },
{
}

/// Where the sun is expected to fill the battery, it is not charged from the grid at a price above
/// one cent.
pub proof fn lemma_sun_comes_first(
    config: &Config,
    prices: Seq<PriceInfo>,
    weather: &WeatherResponse,
    now: Moment,
    soc: u8,
    thresholds: PriceThresholds,
)
    requires
        at_most(missing_kwh(config, soc), remaining_pv_kwh(config, weather, now)),
        less(of_int(1), thresholds.current_price),
    ensures
        !(outcome(config, prices, weather, now, soc, thresholds).battery is ForceCharge),
{
}

/// The minimum charge that is kept is never above that of the season, and is that of the season in
/// summer and outside the morning.
pub proof fn lemma_kept_soc(config: &Config, weather: &WeatherResponse, now: Moment)
    ensures
        kept_soc(config, weather, now) <= baseline_soc(config, now),
        is_summer(now) || now.cet_hour() < 6 || now.cet_hour() >= 12 ==> kept_soc(
            config,
            weather,
            now,
        ) == baseline_soc(config, now),
{
}

/// How many of the prices are as high as `x`.
pub open spec fn as_high(prices: Seq<Double>, x: Double) -> nat {
    count_of(prices, |y: Double| at_most(x, y))
}

/// How many of the prices are as low as `x`.
pub open spec fn as_low(prices: Seq<Double>, x: Double) -> nat {
    count_of(prices, |y: Double| at_most(y, x))
}

/// The price blocks the heat pump only where it is among the most expensive: no more of the coming
/// prices are as high as rank above the configured percentile. It does block it where it is above
/// the price that ranks next. Thresholds that rounding has put beyond the prices that they lie
/// between are left out.
pub proof fn lemma_only_expensive_is_blocked(
    config: &Config,
    window: Seq<Double>,
    current: Double,
)
    requires
        window.len() > 0,
        all_numbers(window),
        is_percentile(window.len(), share(config.block_price_percentile)),
    ensures
        ({
            let r = rank(window.len(), share(config.block_price_percentile));
            let lower = in_order(window)[rank_below(r) as int];
            let upper = in_order(window)[rank_above(r) as int];
            let thresholds = thresholds_of(config, window, current);
            &&& price_decision(thresholds) is Blocked && !less(thresholds.block_threshold, lower)
                ==> as_high(window, current) <= window.len() - 1 - rank_below(r)
            &&& less(upper, current) && at_most(thresholds.block_threshold, upper)
                ==> price_decision(thresholds) is Blocked
        }),
{
    reveal(less);
    reveal(at_most);
    let threshold = thresholds_of(config, window, current).block_threshold;
    lemma_above_percentile(window, share(config.block_price_percentile));
    if less(threshold, current) {
        lemma_count_grows(
            window,
            |y: Double| at_most(current, y),
            |y: Double| less(threshold, y),
        );
    }
}

/// The battery is charged for its low price only where that is among the cheapest: no more of the
/// coming prices are as low as rank below the configured percentile. A threshold that rounding has
/// put above the prices that it lies between is left out.
pub proof fn lemma_only_cheap_is_charged(
    config: &Config,
    prices: Seq<PriceInfo>,
    weather: &WeatherResponse,
    now: Moment,
    soc: u8,
    current: Double,
)
    requires
        window_of(config, prices, now).len() > 0,
        all_numbers(window_of(config, prices, now)),
        is_percentile(window_of(config, prices, now).len(), share(config.low_price_percentile)),
    ensures
        ({
            let window = window_of(config, prices, now);
            let r = rank(window.len(), share(config.low_price_percentile));
            let upper = in_order(window)[rank_above(r) as int];
            let thresholds = thresholds_of(config, window, current);
            let battery = outcome(config, prices, weather, now, soc, thresholds).battery;
            battery is ForceCharge && (battery->ForceCharge_1 is LowPoint
                || battery->ForceCharge_1 is EodLow || battery->ForceCharge_1 is WinterLowPv)
                && !less(upper, thresholds.low_price_threshold) ==> as_low(window, current)
                <= rank_above(r)
        }),
{
    reveal(less);
    reveal(at_most);
    let window = window_of(config, prices, now);
    let threshold = thresholds_of(config, window, current).low_price_threshold;
    lemma_below_percentile(window, share(config.low_price_percentile));
    if less(current, threshold) {
        lemma_count_grows(
            window,
            |y: Double| at_most(y, current),
            |y: Double| less(y, threshold),
        );
    }
}

} // verus!
