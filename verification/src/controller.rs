//! The control loop: when to refresh what, and what to tell the heat pump and the battery.

use std::collections::VecDeque;

use vstd::prelude::*;
use vstd::string::*;

use crate::analysis::{Analysis, AnalysisError, BatteryDecision, CompressorState};
use crate::config::Config;
use crate::double::{of_int, Double};
use crate::moment::{clock_label, in_calendar, local_hour, read_local_hour, Moment};
use crate::prices::PriceInfo;
use crate::state::{bare_state, shows_decisions, AppState, StateView};
use crate::status::{blank_status, SystemStatus};
use crate::text::{decimal, write_decimal};
use crate::weather::{
    column_value, heating_kw, heating_power, pv_kw, pv_power, value_at, WeatherResponse,
};

verus! {

/// A minute in nanoseconds.
pub const MINUTE_NANOS: i128 = 60_000_000_000;

/// What the heat pump was last told, since when it has been blocked, and until when it may not be
/// blocked again.
#[derive(Clone, Copy, Debug, PartialEq, Eq, Structural)]
pub struct Timing {
    pub last: CompressorState,
    pub block_start: Option<Moment>,
    pub rest_until: Option<Moment>,
}

/// Everything the control loop remembers from one round to the next, but for the forecast and the
/// prices.
#[derive(Clone, Copy, Debug, PartialEq, Eq, Structural)]
pub struct Controller {
    pub timing: Timing,
    /// The minimum charge that was last set.
    pub last_soc: u8,
    pub weather_fetched: Option<Moment>,
    pub prices_fetched: Option<Moment>,
}

/// What a round results in: what to tell the relay and the battery, and what to publish.
#[derive(Debug)]
pub struct Tick {
    pub relay: Option<CompressorState>,
    pub soc: Option<u8>,
    pub state: AppState,
}

/// Something that went wrong and is shown in place of a state.
#[derive(Clone, Copy, Debug, PartialEq, Eq, Structural)]
pub enum Trouble {
    StartupRelay,
    Relay,
    Ssh,
    Analysis,
}

impl Trouble {
    /// What is shown, with the given detail.
    pub open spec fn words(self, detail: Seq<char>) -> Seq<char> {
        match self {
            Trouble::StartupRelay => "Startup relay error: "@ + detail,
            Trouble::Relay => "Relay error: "@ + detail,
            Trouble::Ssh => "SSH error: "@ + detail,
            Trouble::Analysis => "Error: "@ + detail,
        }
    }

    /// The state that shows the trouble.
    pub fn report(self, detail: &str) -> (r: AppState)
        ensures
            r@ == bare_state(blank_status(), self.words(detail@), true, true),
    {
        let prefix: &str = match self {
            Trouble::StartupRelay => "Startup relay error: ",
            Trouble::Relay => "Relay error: ",
            Trouble::Ssh => "SSH error: ",
            Trouble::Analysis => "Error: ",
        };
        AppState::new_with_status(prefix.to_owned().concat(detail))
    }
}

/// Nanoseconds from `start` to `now`.
pub open spec fn elapsed(start: Moment, now: Moment) -> int {
    now.since_epoch() - start.since_epoch()
}

/// Whole minutes from `start` to `now`, towards zero.
pub open spec fn minutes_between(start: Moment, now: Moment) -> int {
    let d = elapsed(start, now);
    if d >= 0 {
        d / MINUTE_NANOS as int
    } else {
        -((-d) / MINUTE_NANOS as int)
    }
}

/// What was last fetched at the given time is missing or at least an hour old.
pub open spec fn is_due(fetched: Option<Moment>, now: Moment) -> bool {
    match fetched {
        Some(t) => elapsed(t, now) >= 3_600_000_000_000,
        None => true,
    }
}

impl Timing {
    /// The heat pump is blocked exactly as long as there is a time since when; all times are such
    /// as a clock shows.
    pub open spec fn wf(self) -> bool {
        &&& self.block_start is Some <==> self.last is Blocked
        &&& self.block_start matches Some(t) ==> t.on_clock()
        &&& self.rest_until matches Some(t) ==> in_calendar(t.secs as int) && t.nanos
            < 1_000_000_000
    }

    /// It is too early to block again.
    pub open spec fn is_resting(self, now: Moment) -> bool {
        match self.rest_until {
            Some(end) => now.before(end),
            None => false,
        }
    }

    /// Since when the heat pump has been blocked, once the price has been looked at: a price that
    /// allows it to run ends the block.
    pub open spec fn started(self, price: CompressorState) -> Option<Moment> {
        match price {
            CompressorState::Allowed => None,
            CompressorState::Blocked => self.block_start,
        }
    }

    /// The heat pump has been blocked for too long.
    pub open spec fn is_overdue(
        self,
        config: &Config,
        price: CompressorState,
        now: Moment,
    ) -> bool {
        match self.started(price) {
            Some(start) => elapsed(start, now) > config.max_continuous_block_minutes
                * MINUTE_NANOS,
            None => false,
        }
    }

    /// What the heat pump is told: what the price calls for, unless it rests or has been blocked
    /// for too long.
    pub open spec fn decision(
        self,
        config: &Config,
        price: CompressorState,
        now: Moment,
    ) -> CompressorState {
        if self.is_resting(now) || self.is_overdue(config, price, now) {
            CompressorState::Allowed
        } else {
            price
        }
    }

    /// When the rest ends that begins at `now`.
    pub open spec fn rest_end(config: &Config, now: Moment) -> Moment {
        now.later(config.min_rest_time_minutes * 60)
    }

    /// The timing after a round.
    pub open spec fn next(self, config: &Config, price: CompressorState, now: Moment) -> Timing {
        let told = self.decision(config, price, now);
        let rest_until = if self.is_resting(now) {
            self.rest_until
        } else {
            None
        };
        match (self.last, told) {
            (CompressorState::Allowed, CompressorState::Blocked) => Timing {
                last: told,
                block_start: Some(now),
                rest_until,
            },
            (CompressorState::Blocked, CompressorState::Allowed) => Timing {
                last: told,
                block_start: None,
                rest_until: Some(Timing::rest_end(config, now)),
            },
            _ => Timing { last: told, block_start: self.started(price), rest_until },
        }
    }

    /// The timing after a round that failed; `released` says whether the relay could be told to
    /// let the heat pump run. That ends a block like any other end, with a rest.
    pub open spec fn after_failure(self, config: &Config, released: bool, now: Moment) -> Timing {
        if self.last is Blocked && released {
            Timing {
                last: CompressorState::Allowed,
                block_start: None,
                rest_until: Some(Timing::rest_end(config, now)),
            }
        } else {
            self
        }
    }

    /// A rest that begins at `now` ends within the calendar.
    pub open spec fn has_rest_end(config: &Config, now: Moment) -> bool {
        &&& now.can_move(config.min_rest_time_minutes * 60)
        &&& in_calendar(Timing::rest_end(config, now).secs as int)
    }

    /// The rest that a round may start ends within the calendar.
    pub open spec fn can_rest(self, config: &Config, price: CompressorState, now: Moment) -> bool {
        self.last is Blocked && self.decision(config, price, now) is Allowed
            ==> Timing::has_rest_end(config, now)
    }

    /// The rest that a failed round may start ends within the calendar.
    pub open spec fn can_end(self, config: &Config, released: bool, now: Moment) -> bool {
        self.last is Blocked && released ==> Timing::has_rest_end(config, now)
    }

    /// The message of a round: why the price was overridden, or else what the battery does.
    pub open spec fn message(
        self,
        config: &Config,
        price: CompressorState,
        now: Moment,
        battery: Seq<char>,
    ) -> Seq<char> {
        if self.is_overdue(config, price, now) {
            "Max block exceeded ("@ + decimal(minutes_between(self.block_start->0, now)) + "m)"@
        } else if self.is_resting(now) {
            "Resting until "@ + clock_label(self.rest_until->0)
        } else {
            battery
        }
    }
}

/// The minimum charge that a decision calls for.
pub open spec fn target_of(battery: BatteryDecision) -> u8 {
    match battery {
        BatteryDecision::Baseline(soc) => soc,
        BatteryDecision::ForceCharge(soc, _) => soc,
        BatteryDecision::WaitForLower(soc, _) => soc,
    }
}

/// A battery decision in words; `price` is the awaited price as it is to be shown.
pub open spec fn battery_words(battery: BatteryDecision, price: Seq<char>) -> Seq<char> {
    match battery {
        BatteryDecision::Baseline(_) => "Baseline"@,
        BatteryDecision::ForceCharge(_, reason) => "Force Charge ("@ + reason.words() + ")"@,
        BatteryDecision::WaitForLower(_, _) => "Wait for dip (< "@ + price + "c)"@,
    }
}

/// The hours among the first `n` lines of a forecast, with the solar production of each.
pub open spec fn pv_chart(config: &Config, weather: &WeatherResponse, n: nat) -> Seq<
    (Double, Double),
>
    decreases n,
{
    if n == 0 {
        seq![]
    } else {
        let i = (n - 1) as nat;
        let rest = pv_chart(config, weather, i);
        match local_hour(weather.hourly.time@[i as int]@) {
            Some(h) => rest.push(
                (
                    of_int(h.secs as int),
                    pv_kw(config, value_at(weather.hourly.shortwave_radiation@, i as int)),
                ),
            ),
            None => rest,
        }
    }
}

/// The hours among the first `n` lines of a forecast, with the heating demand of each.
pub open spec fn heating_chart(config: &Config, weather: &WeatherResponse, n: nat) -> Seq<
    (Double, Double),
>
    decreases n,
{
    if n == 0 {
        seq![]
    } else {
        let i = (n - 1) as nat;
        let rest = heating_chart(config, weather, i);
        match local_hour(weather.hourly.time@[i as int]@) {
            Some(h) => rest.push(
                (
                    of_int(h.secs as int),
                    heating_kw(config, value_at(weather.hourly.temperature_2m@, i as int)),
                ),
            ),
            None => rest,
        }
    }
}

impl Controller {
    pub open spec fn wf(self) -> bool {
        &&& self.timing.wf()
        &&& self.weather_fetched matches Some(t) ==> t.on_clock()
        &&& self.prices_fetched matches Some(t) ==> t.on_clock()
    }

    /// What the heat pump is told; without control of it, what the price calls for.
    pub open spec fn told(
        self,
        config: &Config,
        price: CompressorState,
        now: Moment,
    ) -> CompressorState {
        if config.enable_heatpump_control {
            self.timing.decision(config, price, now)
        } else {
            price
        }
    }

    /// The relay is to be switched.
    pub open spec fn relay_command(
        self,
        config: &Config,
        price: CompressorState,
        now: Moment,
    ) -> Option<CompressorState> {
        if config.enable_heatpump_control && self.told(config, price, now) != self.timing.last {
            Some(self.told(config, price, now))
        } else {
            None
        }
    }

    /// The minimum charge is to be set.
    pub open spec fn soc_command(self, config: &Config, target: u8) -> Option<u8> {
        if config.enable_battery_control && target != self.last_soc {
            Some(target)
        } else {
            None
        }
    }

    /// The controller after a round.
    pub open spec fn after_tick(
        self,
        config: &Config,
        analysis: Analysis,
        now: Moment,
    ) -> Controller {
        Controller {
            timing: if config.enable_heatpump_control {
                self.timing.next(config, analysis.compressor, now)
            } else {
                self.timing
            },
            last_soc: if config.enable_battery_control {
                target_of(analysis.battery)
            } else {
                self.last_soc
            },
            ..self
        }
    }

    /// What a round publishes.
    pub open spec fn published(
        self,
        config: &Config,
        analysis: Analysis,
        now: Moment,
        prices: Seq<PriceInfo>,
        weather: &WeatherResponse,
        status: SystemStatus,
        price_text: Seq<char>,
    ) -> StateView {
        let battery = battery_words(analysis.battery, price_text);
        StateView {
            prices,
            current_price: analysis.thresholds.current_price,
            block_threshold: analysis.thresholds.block_threshold,
            low_price_threshold: analysis.thresholds.low_price_threshold,
            spike_threshold: analysis.thresholds.spike_threshold,
            compressor_decision: self.told(config, analysis.compressor, now),
            soc_decision: target_of(analysis.battery),
            system_status: status@,
            status_message: if config.enable_heatpump_control {
                self.timing.message(config, analysis.compressor, now, battery)
            } else {
                battery
            },
            expected_pv_kwh: analysis.expected_pv_kwh,
            hourly_pv_kw: pv_chart(config, weather, weather.hourly.time@.len()),
            hourly_heating_kw: heating_chart(config, weather, weather.hourly.time@.len()),
            show_thresholds: config.enable_pricing,
            show_decisions: shows_decisions(config),
        }
    }
}

/// The longest time between polls that a deadline is taken from, in seconds.
pub const MAX_POLL_SECONDS: u64 = 9_223_372_036_854_775;

/// How long the first round waits for a status, in seconds: two polls, or twice ten seconds where
/// polls are too far apart.
pub open spec fn head_start(config: &Config) -> int {
    if config.status_poll_seconds <= MAX_POLL_SECONDS {
        2 * config.status_poll_seconds
    } else {
        20
    }
}

/// Until when the first round, which is due at `now`, waits for a status; `None` where that is out
/// of the calendar.
pub fn wait_deadline(config: &Config, now: Moment) -> (r: Option<Moment>)
    requires
        now.valid(),
    ensures
        r == (if now.can_move(head_start(config)) {
            Some(now.later(head_start(config)))
        } else {
            None
        }),
{
    let seconds: i64 = if config.status_poll_seconds <= MAX_POLL_SECONDS {
        2 * config.status_poll_seconds as i64
    } else {
        20
    };
    if now.can_move_by(seconds as i128) {
        Some(now.plus_seconds(seconds))
    } else {
        None
    }
}

/// Whether the first round keeps waiting at `now`: there is no status yet, and the deadline has not
/// come.
pub fn keep_waiting(has_status: bool, now: Moment, deadline: Moment) -> (r: bool)
    ensures
        r == (!has_status && now.before(deadline)),
{
    !has_status && now.is_before(deadline)
}

/// Whether something last fetched at the given time is to be fetched again.
fn due(fetched: Option<Moment>, now: Moment) -> (r: bool)
    ensures
        r == is_due(fetched, now),
{
    match fetched {
        Some(t) => now.nanos_since(t) >= 3_600_000_000_000,
        None => true,
    }
}

/// Whole minutes from `start` to `now`.
fn count_minutes(start: Moment, now: Moment) -> (r: i64)
    requires
        start.on_clock(),
        now.on_clock(),
    ensures
        r == minutes_between(start, now),
{
    let d: i128 = now.nanos_since(start);
    if d >= 0 {
        (d / MINUTE_NANOS) as i64
    } else {
        -(((-d) / MINUTE_NANOS) as i64)
    }
}

impl Timing {
    /// Whether the heat pump has been blocked since `start` for too long.
    fn overdue(config: &Config, start: Option<Moment>, now: Moment) -> (r: bool)
        ensures
            r == (match start {
                Some(t) => elapsed(t, now) > config.max_continuous_block_minutes * MINUTE_NANOS,
                None => false,
            }),
    {
        match start {
            Some(t) => now.nanos_since(t) > config.max_continuous_block_minutes as i128
                * MINUTE_NANOS,
            None => false,
        }
    }

    /// Decides what to tell the heat pump and why; `battery` is the message where the price
    /// decides.
    pub fn step(
        &mut self,
        config: &Config,
        price: CompressorState,
        now: Moment,
        battery: String,
    ) -> (r: (CompressorState, String))
        requires
            old(self).wf(),
            now.on_clock(),
            old(self).can_rest(config, price, now),
        ensures
            *final(self) == old(self).next(config, price, now),
            final(self).wf(),
            r.0 == old(self).decision(config, price, now),
            r.1@ == old(self).message(config, price, now, battery@),
    {
        let mut told: CompressorState = price;
        let mut message: String = battery;
        let start: Option<Moment> = match price {
            CompressorState::Allowed => None,
            CompressorState::Blocked => self.block_start,
        };
        let mut rest_until: Option<Moment> = None;
        match self.rest_until {
            Some(end) => {
                if now.is_before(end) {
                    message = "Resting until ".to_owned().concat(end.clock_text().as_str());
                    told = CompressorState::Allowed;
                    rest_until = Some(end);
                }
            },
            None => {},
        }
        if Timing::overdue(config, start, now) {
            let minutes: i64 = match start {
                Some(t) => count_minutes(t, now),
                None => 0,
            };
            message =
            "Max block exceeded (".to_owned().concat(write_decimal(minutes).as_str()).concat("m)");
            told = CompressorState::Allowed;
        }
        let next: Timing = match (self.last, told) {
            (CompressorState::Allowed, CompressorState::Blocked) => Timing {
                last: told,
                block_start: Some(now),
                rest_until,
            },
            (CompressorState::Blocked, CompressorState::Allowed) => {
                assert(told == old(self).decision(config, price, now));
                Timing {
                    last: told,
                    block_start: None,
                    rest_until: Some(now.plus_seconds(config.min_rest_time_minutes * 60)),
                }
            },
            _ => Timing { last: told, block_start: start, rest_until },
        };
        *self = next;
        (told, message)
    }

    /// Notes that the heat pump may run again after a round that failed.
    pub fn note_failure(&mut self, config: &Config, released: bool, now: Moment)
        requires
            old(self).wf(),
            now.on_clock(),
            old(self).can_end(config, released, now),
        ensures
            *final(self) == old(self).after_failure(config, released, now),
            final(self).wf(),
    {
        match self.last {
            CompressorState::Blocked => {
                if released {
                    self.last = CompressorState::Allowed;
                    self.block_start = None;
                    self.rest_until = Some(now.plus_seconds(config.min_rest_time_minutes * 60));
                }
            },
            CompressorState::Allowed => {},
        }
    }
}

/// The minimum charge that a decision calls for.
fn target(battery: BatteryDecision) -> (r: u8)
    ensures
        r == target_of(battery),
{
    match battery {
        BatteryDecision::Baseline(soc) => soc,
        BatteryDecision::ForceCharge(soc, _) => soc,
        BatteryDecision::WaitForLower(soc, _) => soc,
    }
}

/// A battery decision in words.
fn battery_text(battery: BatteryDecision, price: &str) -> (r: String)
    ensures
        r@ == battery_words(battery, price@),
{
    match battery {
        BatteryDecision::Baseline(_) => "Baseline".to_owned(),
        BatteryDecision::ForceCharge(_, reason) => "Force Charge (".to_owned().concat(
            reason.text().as_str(),
        ).concat(")"),
        BatteryDecision::WaitForLower(_, _) => "Wait for dip (< ".to_owned().concat(price).concat(
            "c)",
        ),
    }
}

/// The hours of a forecast with solar production and with heating demand.
pub fn hourly_charts(config: &Config, weather: &WeatherResponse) -> (r: (
    Vec<(Double, Double)>,
    Vec<(Double, Double)>,
))
    ensures
        r.0@ == pv_chart(config, weather, weather.hourly.time@.len()),
        r.1@ == heating_chart(config, weather, weather.hourly.time@.len()),
{
    let mut pv: Vec<(Double, Double)> = Vec::new();
    let mut heating: Vec<(Double, Double)> = Vec::new();
    let mut i: usize = 0;
    while i < weather.hourly.time.len()
        invariant
            i <= weather.hourly.time.len(),
            pv@ == pv_chart(config, weather, i as nat),
            heating@ == heating_chart(config, weather, i as nat),
        decreases weather.hourly.time.len() - i,
    {
        match read_local_hour(weather.hourly.time[i].as_str()) {
            Some(h) => {
                let at: Double = Double::of_i64(h.secs);
                let radiation: Double = column_value(&weather.hourly.shortwave_radiation, i);
                let temperature: Double = column_value(&weather.hourly.temperature_2m, i);
                pv.push((at, pv_power(config, radiation)));
                heating.push((at, heating_power(config, temperature)));
            },
            None => {},
        }
        i = i + 1;
    }
    (pv, heating)
}

impl Controller {
    /// A controller at start: the heat pump may run, and nothing has been set or fetched.
    pub fn new() -> (r: Controller)
        ensures
            r.wf(),
            r == (Controller {
                timing: Timing {
                    last: CompressorState::Allowed,
                    block_start: None,
                    rest_until: None,
                },
                last_soc: 0,
                weather_fetched: None,
                prices_fetched: None,
            }),
    {
        Controller {
            timing: Timing { last: CompressorState::Allowed, block_start: None, rest_until: None },
            last_soc: 0,
            weather_fetched: None,
            prices_fetched: None,
        }
    }

    /// Whether the forecast is to be fetched.
    pub fn needs_weather(&self, now: Moment) -> (r: bool)
        requires
            self.wf(),
            now.on_clock(),
        ensures
            r == is_due(self.weather_fetched, now),
    {
        due(self.weather_fetched, now)
    }

    /// Notes that a forecast has been fetched.
    pub fn note_weather(&mut self, now: Moment)
        requires
            old(self).wf(),
            now.on_clock(),
        ensures
            *final(self) == (Controller { weather_fetched: Some(now), ..*old(self) }),
            final(self).wf(),
    {
        self.weather_fetched = Some(now);
    }

    /// Forgets the prices once an hour, so that they are fetched anew.
    pub fn refresh_prices(
        &mut self,
        config: &Config,
        prices: &mut VecDeque<PriceInfo>,
        now: Moment,
    )
        requires
            old(self).wf(),
            now.on_clock(),
        ensures
            config.enable_pricing && is_due(old(self).prices_fetched, now) ==> {
                &&& final(prices)@ == Seq::<PriceInfo>::empty()
                &&& *final(self) == (Controller { prices_fetched: Some(now), ..*old(self) })
            },
            !(config.enable_pricing && is_due(old(self).prices_fetched, now)) ==> {
                &&& final(prices)@ == old(prices)@
                &&& *final(self) == *old(self)
            },
            final(self).wf(),
    {
        if config.enable_pricing && due(self.prices_fetched, now) {
            prices.clear();
            self.prices_fetched = Some(now);
        }
    }

    /// Turns the outcome of an analysis into commands and a state to publish; `price_text` is the
    /// price that the battery waits for, as it is to be shown.
    pub fn tick(
        &mut self,
        config: &Config,
        analysis: Analysis,
        now: Moment,
        prices: &VecDeque<PriceInfo>,
        weather: &WeatherResponse,
        status: SystemStatus,
        price_text: &str,
    ) -> (r: Tick)
        requires
            old(self).wf(),
            now.on_clock(),
            config.enable_heatpump_control ==> old(self).timing.can_rest(
                config,
                analysis.compressor,
                now,
            ),
        ensures
            *final(self) == old(self).after_tick(config, analysis, now),
            final(self).wf(),
            r.relay == old(self).relay_command(config, analysis.compressor, now),
            r.soc == old(self).soc_command(config, target_of(analysis.battery)),
            r.state@ == old(self).published(
                config,
                analysis,
                now,
                prices@,
                weather,
                status,
                price_text@,
            ),
            r.state.prices@ == prices@,
            r.state.system_status == status,
            r.state.current_price == analysis.thresholds.current_price,
            r.state.block_threshold == analysis.thresholds.block_threshold,
            r.state.low_price_threshold == analysis.thresholds.low_price_threshold,
            r.state.spike_threshold == analysis.thresholds.spike_threshold,
            r.state.expected_pv_kwh == analysis.expected_pv_kwh,
            r.state.hourly_pv_kw@ == pv_chart(config, weather, weather.hourly.time@.len()),
            r.state.hourly_heating_kw@ == heating_chart(
                config,
                weather,
                weather.hourly.time@.len(),
            ),
            !config.enable_heatpump_control ==> r.state.status_message@ == battery_words(
                analysis.battery,
                price_text@,
            ) && r.state.compressor_decision == analysis.compressor,
            config.enable_heatpump_control ==> r.state.status_message@ == old(self).timing.message(
                config,
                analysis.compressor,
                now,
                battery_words(analysis.battery, price_text@),
            ),
            r.state.show_thresholds == config.enable_pricing,
            r.state.show_decisions == (config.enable_heatpump_control
                || config.enable_battery_control),
            match analysis.battery {
                BatteryDecision::Baseline(soc) => r.state.soc_decision == soc,
                BatteryDecision::ForceCharge(soc, _) => r.state.soc_decision == soc,
                BatteryDecision::WaitForLower(soc, _) => r.state.soc_decision == soc,
            },
            r.relay is Some <==> config.enable_heatpump_control && r.state.compressor_decision
                != old(self).timing.last,
            r.soc is Some <==> config.enable_battery_control && r.state.soc_decision != old(
                self,
            ).last_soc,
            r.relay matches Some(told) ==> told == r.state.compressor_decision,
            r.soc matches Some(soc) ==> soc == r.state.soc_decision,
            config.enable_heatpump_control ==> final(self).timing.last
                == r.state.compressor_decision,
            config.enable_battery_control ==> final(self).last_soc == r.state.soc_decision,
    {
        let soc_decision: u8 = target(analysis.battery);
        let mut message: String = battery_text(analysis.battery, price_text);
        let mut told: CompressorState = analysis.compressor;
        let mut relay: Option<CompressorState> = None;
        if config.enable_heatpump_control {
            let last: CompressorState = self.timing.last;
            let mut timing: Timing = self.timing;
            let step: (CompressorState, String) = timing.step(
                config,
                analysis.compressor,
                now,
                message,
            );
            self.timing = timing;
            told = step.0;
            message = step.1;
            if told != last {
                relay = Some(told);
            }
        }
        let mut soc: Option<u8> = None;
        if config.enable_battery_control && soc_decision != self.last_soc {
            soc = Some(soc_decision);
            self.last_soc = soc_decision;
        }
        let charts: (Vec<(Double, Double)>, Vec<(Double, Double)>) = hourly_charts(config, weather);
        let mut shown: Vec<PriceInfo> = Vec::new();
        let mut i: usize = 0;
        while i < prices.len()
            invariant
                i <= prices.len(),
                shown@ == prices@.take(i as int),
            decreases prices.len() - i,
        {
            shown.push(prices[i]);
            assert(prices@.take(i + 1) == prices@.take(i as int).push(prices@[i as int]));
            i = i + 1;
        }
        assert(prices@.take(i as int) == prices@);
        let state: AppState = AppState {
            prices: shown,
            current_price: analysis.thresholds.current_price,
            block_threshold: analysis.thresholds.block_threshold,
            low_price_threshold: analysis.thresholds.low_price_threshold,
            spike_threshold: analysis.thresholds.spike_threshold,
            compressor_decision: told,
            soc_decision,
            system_status: status,
            status_message: message,
            expected_pv_kwh: analysis.expected_pv_kwh,
            hourly_pv_kw: charts.0,
            hourly_heating_kw: charts.1,
            show_thresholds: config.enable_pricing,
            show_decisions: config.enable_heatpump_control || config.enable_battery_control,
        };
        Tick { relay, soc, state }
    }

    /// Whether a failed round calls for letting the heat pump run.
    pub fn needs_release(&self, config: &Config) -> (r: bool)
        ensures
            r == (config.enable_heatpump_control && self.timing.last is Blocked),
    {
        if config.enable_heatpump_control {
            match self.timing.last {
                CompressorState::Blocked => true,
                CompressorState::Allowed => false,
            }
        } else {
            false
        }
    }

    /// Ends a failed round; `released` says whether the relay was told to let the heat pump run.
    pub fn fail(
        &mut self,
        config: &Config,
        error: AnalysisError,
        released: bool,
        now: Moment,
    ) -> (r: AppState)
        requires
            old(self).wf(),
            now.on_clock(),
            old(self).timing.can_end(config, released, now),
        ensures
            *final(self) == (Controller {
                timing: old(self).timing.after_failure(config, released, now),
                ..*old(self)
            }),
            final(self).wf(),
            r@ == bare_state(blank_status(), Trouble::Analysis.words(error.words()), true, true),
    {
        let mut timing: Timing = self.timing;
        timing.note_failure(config, released, now);
        self.timing = timing;
        Trouble::Analysis.report(error.text().as_str())
    }
}

impl Timing {
    /// Whether a rest that begins at `now` ends within the calendar.
    fn has_room_to_rest(config: &Config, now: Moment) -> (r: bool)
        requires
            now.on_clock(),
        ensures
            r == Timing::has_rest_end(config, now),
    {
        if !now.can_move_by(config.min_rest_time_minutes as i128 * 60) {
            return false;
        }
        let end: Moment = now.plus_seconds(config.min_rest_time_minutes * 60);
        end.is_in_calendar()
    }
}

impl Controller {
    /// Whether a failed round can be ended: the rest that it may start ends within the calendar.
    pub fn can_fail(&self, config: &Config, released: bool, now: Moment) -> (r: bool)
        requires
            now.on_clock(),
        ensures
            r == self.timing.can_end(config, released, now),
    {
        match self.timing.last {
            CompressorState::Blocked => !released || Timing::has_room_to_rest(config, now),
            CompressorState::Allowed => true,
        }
    }

    /// Whether a round can be run: the rest that it may start ends within the calendar.
    pub fn can_tick(&self, config: &Config, price: CompressorState, now: Moment) -> (r: bool)
        requires
            self.wf(),
            now.on_clock(),
        ensures
            r == (config.enable_heatpump_control ==> self.timing.can_rest(config, price, now)),
    {
        if !config.enable_heatpump_control {
            return true;
        }
        let start: Option<Moment> = match price {
            CompressorState::Allowed => None,
            CompressorState::Blocked => self.timing.block_start,
        };
        let resting: bool = match self.timing.rest_until {
            Some(end) => now.is_before(end),
            None => false,
        };
        let told: CompressorState = if resting || Timing::overdue(config, start, now) {
            CompressorState::Allowed
        } else {
            price
        };
        match (self.timing.last, told) {
            (CompressorState::Blocked, CompressorState::Allowed) => Timing::has_room_to_rest(
                config,
                now,
            ),
            _ => true,
        }
    }
}

} // verus!
