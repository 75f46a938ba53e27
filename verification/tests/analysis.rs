//! Decisions on heat pump and battery from prices and forecasts.

use std::collections::VecDeque;

use energy_controller::analysis::{
    can_analyse, find_current_price, run_price_analysis, select_between, Analysis, AnalysisError,
    BatteryDecision, ChargeReason, CompressorState,
};
use energy_controller::config::{load_config, Config};
use energy_controller::double::Double;
use energy_controller::environment::Environment;
use energy_controller::moment::Moment;
use energy_controller::prices::PriceInfo;
use energy_controller::weather::{
    calculate_next_day_pv_kwh, calculate_remaining_pv_kwh, calculate_required_soc,
    get_baseline_soc, get_force_charge_soc, heating_power, pv_power, HourlyForecast,
    WeatherResponse,
};

/// 2024-01-15 10:00:00 UTC, 11 o'clock local time.
const WINTER: i64 = 1_705_312_800;
/// 2024-07-15 10:00:00 UTC, 12 o'clock local time.
const SUMMER: i64 = 1_721_037_600;

fn d(x: f64) -> Double {
    Double { bits: x.to_bits() }
}

fn f(x: Double) -> f64 {
    f64::from_bits(x.bits)
}

fn at(secs: i64) -> Moment {
    Moment::of(secs, 0).unwrap()
}

fn settings(changes: &[(&str, &str)]) -> Config {
    let mut list: Vec<(String, String)> = changes
        .iter()
        .map(|(k, v)| (k.to_string(), v.to_string()))
        .collect();
    for (k, v) in [
        ("SSH_HOST", "victron"),
        ("SSH_USER", "root"),
        ("SSH_PASS", "secret"),
        ("SHELLY_IP", "10.0.0.5"),
    ] {
        list.push((k.to_string(), v.to_string()));
    }
    let numbers = list
        .iter()
        .map(|(k, v)| (k.clone(), v.parse::<f64>().ok().map(d)))
        .collect();
    load_config(&Environment { text: list, numbers }).unwrap()
}

/// Prices for quarters of an hour from `start` on.
fn prices(start: i64, values: &[f64]) -> VecDeque<PriceInfo> {
    values
        .iter()
        .enumerate()
        .map(|(i, &x)| PriceInfo {
            from: at(start + 900 * i as i64),
            price: d(x),
        })
        .collect()
}

/// A price for now, then the same price for a day but for a few quarters.
fn day(current: f64, usual: f64, others: &[(usize, f64)]) -> Vec<f64> {
    let mut values = vec![usual; 97];
    values[0] = current;
    for &(i, x) in others {
        values[i] = x;
    }
    values
}

fn forecast(lines: &[(&str, f64, f64)]) -> WeatherResponse {
    WeatherResponse {
        hourly: HourlyForecast {
            time: lines.iter().map(|l| l.0.to_string()).collect(),
            temperature_2m: lines.iter().map(|l| d(l.1)).collect(),
            shortwave_radiation: lines.iter().map(|l| d(l.2)).collect(),
        },
    }
}

fn run(
    config: &Config,
    start: i64,
    values: &[f64],
    weather: &WeatherResponse,
    soc: u8,
) -> Result<Analysis, AnalysisError> {
    let list = prices(start, values);
    let now = at(start + 420);
    assert!(can_analyse(config, &list, now));
    run_price_analysis(config, &list, now, weather, soc)
}

#[test]
fn missing_prices_are_errors() {
    let config = settings(&[]);
    let weather = WeatherResponse::default();
    assert_eq!(
        run(&config, WINTER, &[], &weather, 50),
        Err(AnalysisError::NoCurrentPrice)
    );
    assert_eq!(
        run(&config, WINTER, &[10.0, 11.0, 12.0, 13.0], &weather, 50),
        Err(AnalysisError::NotEnoughData)
    );
    assert!(run(&config, WINTER, &[10.0, 11.0, 12.0, 13.0, 14.0], &weather, 50).is_ok());
    assert_eq!(AnalysisError::UpdateFailed.text(), "Failed to update price data");
    assert_eq!(
        AnalysisError::NoCurrentPrice.text(),
        "Could not find current price information"
    );
    assert_eq!(
        AnalysisError::NotEnoughData.text(),
        "Not enough price data for sliding window"
    );
}

#[test]
fn flat_prices_call_for_nothing() {
    let config = settings(&[]);
    let weather = WeatherResponse::default();
    let r = run(&config, WINTER, &day(20.0, 20.0, &[]), &weather, 50).unwrap();
    assert_eq!(r.compressor, CompressorState::Allowed);
    assert_eq!(r.battery, BatteryDecision::Baseline(20));
    assert_eq!(r.thresholds.current_price, d(20.0));
    assert_eq!(r.thresholds.block_threshold, d(20.0));
    assert_eq!(r.expected_pv_kwh, d(0.0));
    let r = run(&config, SUMMER, &day(20.0, 20.0, &[]), &weather, 50).unwrap();
    assert_eq!(r.battery, BatteryDecision::Baseline(10));
}

#[test]
fn a_high_price_blocks_the_heat_pump() {
    let config = settings(&[]);
    let weather = WeatherResponse::default();
    let r = run(&config, WINTER, &day(20.5, 20.0, &[]), &weather, 50).unwrap();
    assert_eq!(r.compressor, CompressorState::Blocked);
    let r = run(&config, WINTER, &day(20.0, 20.0, &[]), &weather, 50).unwrap();
    assert_eq!(r.compressor, CompressorState::Allowed);
}

#[test]
fn thresholds_are_percentiles_of_the_coming_day() {
    let config = settings(&[]);
    let weather = WeatherResponse::default();
    let values: Vec<f64> = (0..97).map(|i| 5.0 + ((i * 37) % 97) as f64 / 3.0).collect();
    let r = run(&config, SUMMER, &values, &weather, 50).unwrap();
    let mut window: Vec<f64> = values[1..].to_vec();
    window.sort_by(|a, b| a.partial_cmp(b).unwrap());
    let expect = |p: f64| {
        let rank = p / 100.0 * (window.len() - 1) as f64;
        let (low, high) = (rank.floor() as usize, rank.ceil() as usize);
        let weight = rank - low as f64;
        if low == high {
            window[low]
        } else {
            window[low] * (1.0 - weight) + window[high] * weight
        }
    };
    assert_eq!(f(r.thresholds.block_threshold), expect(75.0));
    assert_eq!(f(r.thresholds.low_price_threshold), expect(10.0));
    assert_eq!(f(r.thresholds.spike_threshold), expect(95.0));
}

#[test]
fn the_battery_is_charged_in_the_dip_before_a_spike() {
    let config = settings(&[("BATTERY_SIZE_KWH", "40")]);
    let weather = WeatherResponse::default();
    // The spike is at 13:00, so that the need is that of seven hours of 2 kW each: 35 %.
    let values = day(10.0, 10.0, &[(12, 60.0)]);
    let r = run(&config, WINTER, &values, &weather, 50).unwrap();
    assert_eq!(
        r.battery,
        BatteryDecision::ForceCharge(55, ChargeReason::PreSpike(55))
    );
    assert_eq!(ChargeReason::PreSpike(55).text(), "Pre-Spike (Need 55%)");
}

#[test]
fn the_battery_waits_for_the_dip_before_a_spike() {
    let config = settings(&[("BATTERY_SIZE_KWH", "40")]);
    let weather = WeatherResponse::default();
    let values = day(15.0, 10.0, &[(12, 60.0)]);
    let r = run(&config, WINTER, &values, &weather, 50).unwrap();
    assert_eq!(r.battery, BatteryDecision::WaitForLower(20, d(10.0)));
}

#[test]
fn a_spike_that_is_next_is_charged_for_at_once() {
    let config = settings(&[("BATTERY_SIZE_KWH", "40")]);
    let weather = WeatherResponse::default();
    // The need is that of five hours of 2 kW each: 25 %.
    let values = day(10.0, 10.0, &[(1, 60.0)]);
    let r = run(&config, WINTER, &values, &weather, 50).unwrap();
    assert_eq!(
        r.battery,
        BatteryDecision::ForceCharge(45, ChargeReason::ImmediateSpike(45))
    );
    assert_eq!(
        ChargeReason::ImmediateSpike(45).text(),
        "Immediate Spike (Need 45%)"
    );
}

#[test]
fn a_small_spike_is_left_alone() {
    let config = settings(&[]);
    let weather = WeatherResponse::default();
    let r = run(&config, SUMMER, &day(10.0, 10.0, &[(12, 20.0)]), &weather, 50).unwrap();
    assert_eq!(r.battery, BatteryDecision::Baseline(10));
    let r = run(&config, SUMMER, &day(10.0, 10.0, &[(12, 20.5)]), &weather, 50).unwrap();
    assert!(matches!(r.battery, BatteryDecision::ForceCharge(_, ChargeReason::PreSpike(_))));
}

#[test]
fn a_low_price_is_used_where_it_gets_no_lower() {
    let config = settings(&[]);
    let weather = WeatherResponse::default();
    let r = run(&config, SUMMER, &day(5.0, 20.0, &[]), &weather, 50).unwrap();
    assert_eq!(
        r.battery,
        BatteryDecision::ForceCharge(30, ChargeReason::LowPoint)
    );
    assert_eq!(ChargeReason::LowPoint.text(), "Low Point");
    let r = run(&config, SUMMER, &day(12.0, 20.0, &[(7, 5.0)]), &weather, 50).unwrap();
    assert_eq!(r.battery, BatteryDecision::WaitForLower(10, d(5.0)));
    // A difference of a hundredth does not count.
    let r = run(&config, SUMMER, &day(5.01, 20.0, &[(7, 5.0)]), &weather, 50).unwrap();
    assert_eq!(
        r.battery,
        BatteryDecision::ForceCharge(30, ChargeReason::LowPoint)
    );
}

#[test]
fn a_low_price_with_nothing_ahead_is_used() {
    let config = settings(&[("LOOKAHEAD_HOURS", "0")]);
    let weather = WeatherResponse::default();
    let r = run(&config, SUMMER, &day(5.0, 20.0, &[]), &weather, 50).unwrap();
    assert_eq!(
        r.battery,
        BatteryDecision::ForceCharge(30, ChargeReason::EodLow)
    );
    assert_eq!(ChargeReason::EodLow.text(), "EOD Low");
}

#[test]
fn winter_without_sun_uses_low_prices() {
    let config = settings(&[]);
    let weather = WeatherResponse::default();
    let r = run(&config, WINTER, &day(5.0, 20.0, &[]), &weather, 50).unwrap();
    assert_eq!(
        r.battery,
        BatteryDecision::ForceCharge(60, ChargeReason::WinterLowPv)
    );
    assert_eq!(ChargeReason::WinterLowPv.text(), "Winter Low PV Grid Charge");
}

#[test]
fn the_sun_cancels_charging_unless_it_costs_next_to_nothing() {
    let config = settings(&[]);
    // 5 kWp at 1000 W/m² give 4.25 kWh an hour; half of 10 kWh is missing.
    let weather = forecast(&[
        ("2024-07-15T11:00", 20.0, 1000.0),
        ("2024-07-15T13:00", 20.0, 1000.0),
        ("2024-07-15T14:00", 20.0, 1000.0),
        ("2024-07-16T13:00", 20.0, 1000.0),
    ]);
    let r = run(&config, SUMMER, &day(5.0, 20.0, &[]), &weather, 50).unwrap();
    assert_eq!(r.battery, BatteryDecision::Baseline(10));
    assert_eq!(r.expected_pv_kwh, d(8.5));
    let r = run(&config, SUMMER, &day(0.5, 20.0, &[]), &weather, 50).unwrap();
    assert_eq!(
        r.battery,
        BatteryDecision::ForceCharge(30, ChargeReason::LowPoint)
    );
    // An empty battery is not filled by that.
    let r = run(&config, SUMMER, &day(5.0, 20.0, &[]), &weather, 0).unwrap();
    assert_eq!(
        r.battery,
        BatteryDecision::ForceCharge(30, ChargeReason::LowPoint)
    );
}

#[test]
fn a_sunny_tomorrow_lowers_the_minimum_on_winter_mornings() {
    let config = settings(&[]);
    let weather = forecast(&[
        ("2024-01-16T12:00", 5.0, 600.0),
        ("2024-01-16T13:00", 5.0, 600.0),
    ]);
    let flat = day(20.0, 20.0, &[]);
    // 11:07 local time.
    let r = run(&config, WINTER, &flat, &weather, 50).unwrap();
    assert_eq!(r.battery, BatteryDecision::Baseline(10));
    // 12:07 local time.
    let r = run(&config, WINTER + 3600, &flat, &weather, 50).unwrap();
    assert_eq!(r.battery, BatteryDecision::Baseline(20));
    // 05:07 and 06:07 local time.
    let r = run(&config, WINTER - 6 * 3600, &flat, &weather, 50).unwrap();
    assert_eq!(r.battery, BatteryDecision::Baseline(20));
    let r = run(&config, WINTER - 5 * 3600, &flat, &weather, 50).unwrap();
    assert_eq!(r.battery, BatteryDecision::Baseline(10));
    // 4.25 kWh are not half a battery.
    let weather = forecast(&[("2024-01-16T12:00", 5.0, 1000.0)]);
    let r = run(&config, WINTER, &flat, &weather, 50).unwrap();
    assert_eq!(r.battery, BatteryDecision::Baseline(20));
}

#[test]
fn without_battery_control_the_minimum_is_kept() {
    let config = settings(&[("ENABLE_BATTERY_CONTROL", "false")]);
    let weather = forecast(&[("2024-07-15T13:00", 20.0, 1000.0)]);
    let r = run(&config, SUMMER, &day(5.0, 20.0, &[(12, 90.0)]), &weather, 0).unwrap();
    assert_eq!(r.battery, BatteryDecision::Baseline(10));
    assert_eq!(r.expected_pv_kwh, d(0.0));
}

#[test]
fn the_need_is_counted_hour_by_hour() {
    let config = settings(&[]);
    let weather = forecast(&[
        ("2024-01-15T11:00", 5.0, 100.0),
        ("2024-01-15T12:00", -3.0, 0.0),
        ("2024-01-15T13:00", 20.0, 50.0),
    ]);
    // The machine's own arithmetic, hour by hour.
    let mut total = 0.0;
    for (temperature, radiation) in [(5.0, 100.0), (-3.0, 0.0), (20.0, 50.0)] {
        total += 0.5;
        if temperature < 15.0 {
            total += 1.5 * ((15.0 - temperature) / 15.0);
        }
        total -= 5.0 * (radiation / 1000.0) * 0.85;
    }
    let target = 20.0 + (f64::max(0.0, total) / 10.0) * 100.0;
    let r = calculate_required_soc(&config, &weather, at(WINTER), at(WINTER + 3 * 3600));
    assert_eq!(r, target.ceil() as u8);
    assert_eq!(r, 57);
    assert_eq!(calculate_required_soc(&config, &weather, at(WINTER), at(WINTER)), 20);
    assert_eq!(
        calculate_required_soc(&config, &weather, at(WINTER), at(WINTER + 30 * 3600)),
        100
    );
}

#[test]
fn seasons_have_their_own_minimum() {
    let config = settings(&[]);
    for (month_start, minimum, force) in [
        (1_704_067_200, 20, 60), // January
        (1_709_251_200, 20, 60), // March
        (1_711_929_600, 10, 30), // April
        (1_727_654_400, 10, 30), // 30 September
        (1_727_740_800, 20, 60), // October
    ] {
        assert_eq!(get_baseline_soc(&config, at(month_start)), minimum);
        assert_eq!(get_force_charge_soc(&config, at(month_start)), force);
    }
}

#[test]
fn heating_and_sun_at_the_rated_points() {
    let config = settings(&[]);
    assert_eq!(heating_power(&config, d(0.0)), d(1.5));
    assert_eq!(heating_power(&config, d(15.0)), d(0.0));
    assert_eq!(heating_power(&config, d(30.0)), d(0.0));
    assert_eq!(heating_power(&config, d(5.0)), d(1.5 * ((15.0 - 5.0) / 15.0)));
    assert_eq!(pv_power(&config, d(1000.0)), d(5.0 * 0.85));
    assert_eq!(pv_power(&config, d(123.0)), d(5.0 * (123.0 / 1000.0) * 0.85));
}

#[test]
fn sun_is_counted_for_the_local_day() {
    let config = settings(&[]);
    let weather = forecast(&[
        ("2024-07-15T12:00", 20.0, 1000.0),
        ("2024-07-15T13:00", 20.0, 500.0),
        ("2024-07-15T23:00", 20.0, 200.0),
        ("2024-07-16T00:00", 20.0, 300.0),
        ("not a time", 20.0, 1000.0),
        ("2024-07-16T12:00", 20.0, 400.0),
    ]);
    // 12:00 local time is now.
    assert_eq!(
        calculate_remaining_pv_kwh(&config, &weather, at(SUMMER)),
        d(5.0 * 1.0 * 0.85 + 5.0 * 0.5 * 0.85 + 5.0 * 0.2 * 0.85)
    );
    assert_eq!(
        calculate_remaining_pv_kwh(&config, &weather, at(SUMMER + 1)),
        d(5.0 * 0.5 * 0.85 + 5.0 * 0.2 * 0.85)
    );
    assert_eq!(
        calculate_next_day_pv_kwh(&config, &weather, at(SUMMER)),
        d(5.0 * 0.3 * 0.85 + 5.0 * 0.4 * 0.85)
    );
}

#[test]
fn local_times_that_do_not_exist_once_are_left_out() {
    let config = settings(&[]);
    // The clock skips 02:30 on 31 March 2024 and shows it twice on 27 October 2024.
    let weather = forecast(&[
        ("2024-03-31T02:30", 5.0, 1000.0),
        ("2024-03-31T03:30", 5.0, 1000.0),
        ("2024-10-27T02:30", 5.0, 1000.0),
        ("2024-10-27T03:30", 5.0, 1000.0),
    ]);
    let spring = 1_711_800_000; // 30 March 2024, 12:00 UTC
    let autumn = 1_729_944_000; // 26 October 2024, 12:00 UTC
    assert_eq!(calculate_next_day_pv_kwh(&config, &weather, at(spring)), d(4.25));
    assert_eq!(calculate_next_day_pv_kwh(&config, &weather, at(autumn)), d(4.25));
}

#[test]
fn prices_are_found_by_time() {
    let list = prices(WINTER, &[1.0, 2.0, 3.0]);
    assert_eq!(find_current_price(&list, at(WINTER)).unwrap().price, d(1.0));
    assert_eq!(find_current_price(&list, at(WINTER + 899)).unwrap().price, d(1.0));
    assert_eq!(find_current_price(&list, at(WINTER + 900)).unwrap().price, d(2.0));
    assert!(find_current_price(&list, at(WINTER + 2700)).is_none());
    assert!(find_current_price(&list, at(WINTER - 1)).is_none());
    assert_eq!(select_between(&list, at(WINTER + 900), at(WINTER + 1800)).len(), 1);
    assert_eq!(select_between(&list, at(WINTER + 1), at(WINTER + 1801)).len(), 2);
}

#[test]
fn what_cannot_be_analysed_is_told() {
    let now = at(WINTER + 420);
    let list = prices(WINTER, &day(20.0, 20.0, &[]));
    assert!(can_analyse(&settings(&[]), &list, now));
    assert!(!can_analyse(&settings(&[("BLOCK_PRICE_PERCENTILE", "120")]), &list, now));
    assert!(!can_analyse(&settings(&[("LOOKAHEAD_HOURS", "9000000000000")]), &list, now));
    assert!(!can_analyse(&settings(&[("LOOKAHEAD_HOURS", "-9000000000000")]), &list, now));
    assert!(!can_analyse(
        &settings(&[]),
        &prices(WINTER, &day(20.0, f64::NAN, &[])),
        now
    ));
}

#[test]
fn prices_that_are_not_looked_at_need_not_be_numbers() {
    let config = settings(&[("BLOCK_PRICE_PERCENTILE", "120")]);
    let weather = WeatherResponse::default();
    assert_eq!(
        run(&config, WINTER, &[10.0, f64::NAN, 12.0, 13.0], &weather, 50),
        Err(AnalysisError::NotEnoughData)
    );
    let later = prices(WINTER + 900, &[f64::NAN; 97]);
    assert!(can_analyse(&config, &later, at(WINTER)));
    assert_eq!(
        run_price_analysis(&config, &later, at(WINTER), &weather, 50),
        Err(AnalysisError::NoCurrentPrice)
    );
}

#[test]
fn only_expensive_prices_block_and_only_cheap_ones_charge() {
    let config = settings(&[]);
    let weather = WeatherResponse::default();
    // The numbers 1 to 96 in mixed order.
    let coming: Vec<f64> = (1..97).map(|i| (i * 37 % 97) as f64).collect();
    for current in [0.5, 1.0, 10.0, 10.25, 10.75, 11.0, 50.0, 72.0, 72.5, 73.0, 96.0, 100.0] {
        let mut values = vec![current];
        values.extend(&coming);
        let r = run(&config, WINTER, &values, &weather, 50).unwrap();
        assert_eq!(r.thresholds.block_threshold, d(72.25));
        assert_eq!(r.thresholds.low_price_threshold, d(10.5));
        let as_high = coming.iter().filter(|x| **x >= current).count();
        let as_low = coming.iter().filter(|x| **x <= current).count();
        assert_eq!(r.compressor == CompressorState::Blocked, as_high <= 24);
        let charged = r.battery == BatteryDecision::ForceCharge(60, ChargeReason::WinterLowPv);
        assert_eq!(charged, as_low <= 10 && current < 10.5);
    }
}

#[test]
fn the_needed_charge_grows_with_the_period() {
    let config = settings(&[("PV_SIZE_KWP", "0")]);
    let weather = forecast(&[("2024-01-15T12:00", -5.0, 800.0), ("2024-01-15T14:00", 20.0, 500.0)]);
    let mut last = calculate_required_soc(&config, &weather, at(WINTER), at(WINTER));
    assert_eq!(last, 20);
    for hours in 1..12 {
        let next = calculate_required_soc(&config, &weather, at(WINTER), at(WINTER + 3600 * hours));
        assert!(next >= last);
        last = next;
    }
    assert_eq!(last, 100);
}

#[test]
fn the_needed_charge_is_the_minimum_for_no_time() {
    let weather = WeatherResponse::default();
    let needed = |minimum: &str| {
        let config = settings(&[("WINTER_MIN_SOC", minimum)]);
        calculate_required_soc(&config, &weather, at(WINTER), at(WINTER - 5))
    };
    assert_eq!(needed("0"), 0);
    assert_eq!(needed("37"), 37);
    assert_eq!(needed("100"), 100);
    assert_eq!(needed("255"), 100);
    let config = settings(&[("BATTERY_SIZE_KWH", "0")]);
    assert_eq!(calculate_required_soc(&config, &weather, at(WINTER), at(WINTER)), 0);
}
