//! The control loop over several rounds.

use std::collections::VecDeque;

use energy_controller::analysis::{
    Analysis, AnalysisError, BatteryDecision, ChargeReason, CompressorState, PriceThresholds,
};
use energy_controller::config::{load_config, Config};
use energy_controller::controller::{
    hourly_charts, keep_waiting, wait_deadline, Controller, Tick, Trouble,
};
use energy_controller::double::Double;
use energy_controller::environment::Environment;
use energy_controller::moment::Moment;
use energy_controller::prices::{
    begin_update, continue_update, finish_update, has_day, PriceInfo, PriceRequest,
};
use energy_controller::state::AppState;
use energy_controller::status::SystemStatus;
use energy_controller::weather::{HourlyForecast, WeatherResponse};

const NOON: i64 = 1_705_320_000; // 2024-01-15 12:00:00 UTC

fn d(x: f64) -> Double {
    Double { bits: x.to_bits() }
}

fn at(secs: i64) -> Moment {
    Moment::of(secs, 0).unwrap()
}

fn settings(changes: &[(&str, &str)]) -> Config {
    let mut list: Vec<(String, String)> = changes
        .iter()
        .map(|(k, v)| (k.to_string(), v.to_string()))
        .collect();
    for (k, v) in [
        ("SSH_HOST", "victron"),
        ("SSH_USER", "root"),
        ("SSH_PASS", "secret"),
        ("SHELLY_IP", "10.0.0.5"),
    ] {
        list.push((k.to_string(), v.to_string()));
    }
    let numbers = list
        .iter()
        .map(|(k, v)| (k.clone(), v.parse::<f64>().ok().map(d)))
        .collect();
    load_config(&Environment { text: list, numbers }).unwrap()
}

fn outcome(compressor: CompressorState, battery: BatteryDecision) -> Analysis {
    Analysis {
        compressor,
        battery,
        thresholds: PriceThresholds {
            current_price: d(18.5),
            block_threshold: d(30.0),
            low_price_threshold: d(8.0),
            spike_threshold: d(45.0),
        },
        expected_pv_kwh: d(22.4),
    }
}

fn round(
    controller: &mut Controller,
    config: &Config,
    minutes: i64,
    compressor: CompressorState,
    battery: BatteryDecision,
) -> Tick {
    let now = at(NOON + 60 * minutes);
    let analysis = outcome(compressor, battery);
    assert!(controller.can_tick(config, compressor, now));
    controller.tick(
        config,
        analysis,
        now,
        &VecDeque::new(),
        &WeatherResponse::default(),
        SystemStatus::default(),
        "9.50",
    )
}

use BatteryDecision::Baseline;
use CompressorState::{Allowed, Blocked};

#[test]
fn a_block_ends_after_the_maximum_and_is_followed_by_a_rest() {
    let config = settings(&[]);
    let mut c = Controller::new();
    let t = round(&mut c, &config, 0, Blocked, Baseline(20));
    assert_eq!(t.relay, Some(Blocked));
    assert_eq!(t.state.status_message, "Baseline");
    let t = round(&mut c, &config, 60, Blocked, Baseline(20));
    assert_eq!(t.relay, None);
    assert_eq!(t.state.compressor_decision, Blocked);
    // Exactly the maximum is not too long.
    let t = round(&mut c, &config, 120, Blocked, Baseline(20));
    assert_eq!(t.relay, None);
    let t = round(&mut c, &config, 125, Blocked, Baseline(20));
    assert_eq!(t.relay, Some(Allowed));
    assert_eq!(t.state.status_message, "Max block exceeded (125m)");
    // 14:05 UTC and an hour is 16:05 local time.
    let t = round(&mut c, &config, 130, Blocked, Baseline(20));
    assert_eq!(t.relay, None);
    assert_eq!(t.state.compressor_decision, Allowed);
    assert_eq!(t.state.status_message, "Resting until 16:05");
    let t = round(&mut c, &config, 184, Blocked, Baseline(20));
    assert_eq!(t.relay, None);
    let t = round(&mut c, &config, 185, Blocked, Baseline(20));
    assert_eq!(t.relay, Some(Blocked));
    assert_eq!(t.state.status_message, "Baseline");
}

#[test]
fn a_price_that_allows_ends_a_block_and_starts_a_rest() {
    let config = settings(&[("MIN_REST_TIME_MINUTES", "30")]);
    let mut c = Controller::new();
    round(&mut c, &config, 0, Blocked, Baseline(20));
    let t = round(&mut c, &config, 10, Allowed, Baseline(20));
    assert_eq!(t.relay, Some(Allowed));
    let t = round(&mut c, &config, 20, Blocked, Baseline(20));
    assert_eq!(t.relay, None);
    assert_eq!(t.state.status_message, "Resting until 13:40");
    let t = round(&mut c, &config, 40, Blocked, Baseline(20));
    assert_eq!(t.relay, Some(Blocked));
}

#[test]
fn without_heat_pump_control_nothing_is_sent() {
    let config = settings(&[("ENABLE_HEATPUMP_CONTROL", "false")]);
    let mut c = Controller::new();
    for minutes in [0, 100, 200, 300] {
        let t = round(&mut c, &config, minutes, Blocked, Baseline(20));
        assert_eq!(t.relay, None);
        assert_eq!(t.state.compressor_decision, Blocked);
        assert_eq!(t.state.status_message, "Baseline");
    }
    assert_eq!(c.timing, Controller::new().timing);
    assert!(!c.needs_release(&config));
}

#[test]
fn the_minimum_charge_is_set_when_it_changes() {
    let config = settings(&[]);
    let mut c = Controller::new();
    let t = round(&mut c, &config, 0, Allowed, Baseline(20));
    assert_eq!(t.soc, Some(20));
    assert_eq!(t.state.soc_decision, 20);
    let t = round(&mut c, &config, 5, Allowed, Baseline(20));
    assert_eq!(t.soc, None);
    let battery = BatteryDecision::ForceCharge(55, ChargeReason::PreSpike(55));
    let t = round(&mut c, &config, 10, Allowed, battery);
    assert_eq!(t.soc, Some(55));
    assert_eq!(t.state.status_message, "Force Charge (Pre-Spike (Need 55%))");
    let battery = BatteryDecision::WaitForLower(20, d(9.5));
    let t = round(&mut c, &config, 15, Allowed, battery);
    assert_eq!(t.soc, Some(20));
    assert_eq!(t.state.status_message, "Wait for dip (< 9.50c)");
    let config = settings(&[("ENABLE_BATTERY_CONTROL", "false")]);
    let t = round(&mut c, &config, 20, Allowed, Baseline(77));
    assert_eq!(t.soc, None);
}

#[test]
fn a_failed_round_releases_the_heat_pump() {
    let config = settings(&[]);
    let mut c = Controller::new();
    assert!(!c.needs_release(&config));
    round(&mut c, &config, 0, Blocked, Baseline(20));
    assert!(c.needs_release(&config));
    // The relay cannot be reached.
    let now = at(NOON + 300);
    assert!(c.can_fail(&config, false, now) && c.can_fail(&config, true, now));
    let state = c.fail(&config, AnalysisError::UpdateFailed, false, now);
    assert_eq!(state.status_message, "Error: Failed to update price data");
    assert!(state.show_thresholds && state.show_decisions);
    assert!(c.needs_release(&config));
    assert!(c.timing.rest_until.is_none());
    c.fail(&config, AnalysisError::NoCurrentPrice, true, now);
    assert!(!c.needs_release(&config));
    assert_eq!(c.timing.last, Allowed);
    assert!(c.timing.block_start.is_none());
    // The rest after the block is an hour.
    assert_eq!(c.timing.rest_until, Some(at(NOON + 3900)));
    let t = round(&mut c, &config, 64, Blocked, Baseline(20));
    assert_eq!(t.relay, None);
    let t = round(&mut c, &config, 65, Blocked, Baseline(20));
    assert_eq!(t.relay, Some(Blocked));
    let endless = settings(&[("MIN_REST_TIME_MINUTES", "9000000000000")]);
    assert!(c.can_fail(&endless, false, now) && !c.can_fail(&endless, true, now));
}

#[test]
fn forecasts_and_prices_are_fetched_every_hour() {
    let config = settings(&[]);
    let mut c = Controller::new();
    assert!(c.needs_weather(at(NOON)));
    c.note_weather(at(NOON));
    assert!(!c.needs_weather(at(NOON + 3599)));
    assert!(c.needs_weather(at(NOON + 3600)));
    let price = PriceInfo { from: at(NOON), price: d(1.0) };
    let mut prices: VecDeque<PriceInfo> = VecDeque::from(vec![price]);
    c.refresh_prices(&config, &mut prices, at(NOON));
    assert!(prices.is_empty());
    prices.push_back(price);
    c.refresh_prices(&config, &mut prices, at(NOON + 3599));
    assert_eq!(prices.len(), 1);
    c.refresh_prices(&config, &mut prices, at(NOON + 3600));
    assert!(prices.is_empty());
    let config = settings(&[("USE_PRICING", "false")]);
    prices.push_back(price);
    c.refresh_prices(&config, &mut prices, at(NOON + 36000));
    assert_eq!(prices.len(), 1);
}

#[test]
fn a_round_publishes_everything() {
    let config = settings(&[]);
    let mut c = Controller::new();
    let weather = WeatherResponse {
        hourly: HourlyForecast {
            time: vec!["2024-01-15T13:00".to_string(), "x".to_string(), "2024-01-15T14:00".to_string()],
            temperature_2m: vec![d(0.0), d(1.0)],
            shortwave_radiation: vec![d(1000.0)],
        },
    };
    let price = PriceInfo { from: at(NOON), price: d(18.5) };
    let mut status = SystemStatus::default();
    status.soc = 42;
    let t = c.tick(
        &config,
        outcome(Allowed, Baseline(20)),
        at(NOON),
        &VecDeque::from(vec![price]),
        &weather,
        status,
        "",
    );
    assert_eq!(t.state.prices, vec![price]);
    assert_eq!(t.state.current_price, d(18.5));
    assert_eq!(t.state.block_threshold, d(30.0));
    assert_eq!(t.state.low_price_threshold, d(8.0));
    assert_eq!(t.state.spike_threshold, d(45.0));
    assert_eq!(t.state.expected_pv_kwh, d(22.4));
    assert_eq!(t.state.system_status.soc, 42);
    // The missing values are zero.
    assert_eq!(
        t.state.hourly_pv_kw,
        vec![(d(1_705_320_000.0), d(4.25)), (d(1_705_323_600.0), d(0.0))]
    );
    assert_eq!(
        t.state.hourly_heating_kw,
        vec![(d(1_705_320_000.0), d(1.5)), (d(1_705_323_600.0), d(1.5))]
    );
    assert!(t.state.show_thresholds && t.state.show_decisions);
    assert_eq!(hourly_charts(&config, &WeatherResponse::default()).0.len(), 0);
}

#[test]
fn states_without_an_analysis() {
    let state = AppState::new_with_status("hello".to_string());
    assert_eq!(state.status_message, "hello");
    assert!(state.show_thresholds && state.show_decisions);
    assert_eq!(state.soc_decision, 0);
    let config = settings(&[("USE_PRICING", "false")]);
    let mut state = AppState::live_bootstrap(&config);
    assert!(!state.show_thresholds && !state.show_decisions);
    assert_eq!(state.status_message, "");
    let config = settings(&[("ENABLE_HEATPUMP_CONTROL", "false")]);
    assert!(AppState::live_bootstrap(&config).show_decisions);
    let mut status = SystemStatus::default();
    status.soc = 9;
    state.soc_decision = 3;
    state.patch_status(status.clone());
    assert_eq!(state.system_status.soc, 9);
    assert_eq!(state.soc_decision, 3);
    let state = AppState::with_status(Some(state), &config, SystemStatus::default());
    assert_eq!((state.system_status.soc, state.soc_decision), (0, 3));
    let state = AppState::with_status(None, &config, status.clone());
    assert_eq!((state.system_status.soc, state.soc_decision), (9, 0));
    let state = AppState::without_pricing(status);
    assert_eq!(state.system_status.soc, 9);
    assert!(!state.show_thresholds && !state.show_decisions);
    assert_eq!(state.clone().system_status.soc, 9);
}

#[test]
fn trouble_is_reported() {
    assert_eq!(Trouble::StartupRelay.report("x").status_message, "Startup relay error: x");
    assert_eq!(Trouble::Relay.report("x").status_message, "Relay error: x");
    assert_eq!(Trouble::Ssh.report("x").status_message, "SSH error: x");
    assert_eq!(Trouble::Analysis.report("x").status_message, "Error: x");
}

#[test]
fn prices_are_fetched_for_today_and_tomorrow() {
    let now = at(NOON);
    let today = 738_900; // 2024-01-15
    let mut prices: VecDeque<PriceInfo> = VecDeque::new();
    let first = begin_update(&mut prices, now);
    assert_eq!(first, Some(PriceRequest::Today(today)));
    let late = PriceInfo { from: at(NOON + 900), price: d(2.0) };
    let early = PriceInfo { from: at(NOON), price: d(1.0) };
    let next = continue_update(&mut prices, now, first.unwrap(), &vec![late, early]);
    assert_eq!(next, Some(PriceRequest::Tomorrow(today + 1)));
    let tomorrow = PriceInfo { from: at(NOON + 86_400), price: d(3.0) };
    assert_eq!(continue_update(&mut prices, now, next.unwrap(), &vec![tomorrow]), None);
    finish_update(&mut prices);
    assert_eq!(prices, VecDeque::from(vec![early, late, tomorrow]));
    assert!(has_day(&prices, today) && has_day(&prices, today + 1));
    assert!(!has_day(&prices, today + 2));
    // Nothing is missing now; a day later what is past is gone and tomorrow is asked for.
    assert_eq!(begin_update(&mut prices, now), None);
    assert_eq!(
        begin_update(&mut prices, at(NOON + 86_400)),
        Some(PriceRequest::Tomorrow(today + 2))
    );
    assert_eq!(prices, VecDeque::from(vec![tomorrow]));
}

#[test]
fn days_end_at_local_midnight() {
    // 23:30 UTC on 14 January is 00:30 local time on the 15th.
    let kept = PriceInfo { from: at(NOON - 12 * 3600 - 1800), price: d(1.0) };
    let gone = PriceInfo { from: at(NOON - 13 * 3600 - 1800), price: d(2.0) };
    let mut prices = VecDeque::from(vec![gone, kept]);
    begin_update(&mut prices, at(NOON));
    assert_eq!(prices, VecDeque::from(vec![kept]));
}

#[test]
fn a_rest_beyond_the_calendar_is_told() {
    let config = settings(&[("MIN_REST_TIME_MINUTES", "9000000000000000")]);
    let mut c = Controller::new();
    round(&mut c, &config, 0, Blocked, Baseline(20));
    assert!(!c.can_tick(&config, Allowed, at(NOON + 60)));
    assert!(c.can_tick(&config, Blocked, at(NOON + 60)));
}

#[test]
fn the_first_round_waits_for_a_status() {
    let deadline = |poll: &str| wait_deadline(&settings(&[("STATUS_POLL_SECONDS", poll)]), at(NOON));
    assert_eq!(deadline("10"), Some(at(NOON + 20)));
    assert_eq!(deadline("0"), Some(at(NOON + 2)));
    assert_eq!(deadline("9223372036854775"), None);
    assert_eq!(deadline("9223372036854776"), Some(at(NOON + 20)));
    assert!(keep_waiting(false, at(NOON + 19), at(NOON + 20)));
    assert!(!keep_waiting(false, at(NOON + 20), at(NOON + 20)));
    assert!(!keep_waiting(true, at(NOON), at(NOON + 20)));
}

#[test]
fn rounds_are_some_minutes_apart() {
    let interval = |minutes: &str| settings(&[("CHECK_INTERVAL_MINUTES", minutes)]).check_interval_seconds();
    assert_eq!(settings(&[]).check_interval_seconds(), Some(300));
    assert_eq!(interval("0"), Some(0));
    assert_eq!(interval("307445734561825860"), Some(18_446_744_073_709_551_600));
    assert_eq!(interval("307445734561825861"), None);
}

#[test]
fn states_with_times_out_of_the_calendar_are_told() {
    let mut state = AppState::new_with_status(String::new());
    assert!(state.has_calendar_times());
    state.prices.push(PriceInfo { from: at(NOON), price: d(1.0) });
    assert!(state.has_calendar_times());
    state.prices.push(PriceInfo { from: Moment { secs: i64::MAX, nanos: 0 }, price: d(1.0) });
    assert!(!state.has_calendar_times());
}
