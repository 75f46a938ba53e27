//! What holds of the heat pump and the battery over any number of rounds.

use vstd::arithmetic::power2::pow2;
use vstd::prelude::*;

use crate::analysis::{Analysis, BatteryDecision, ChargeReason, CompressorState};
use crate::bounds::lemma_of_int_exact;
use crate::config::Config;
use crate::controller::{
    battery_words, elapsed, head_start, heating_chart, is_due, minutes_between, pv_chart,
    target_of, Controller, Timing, MINUTE_NANOS,
};
use crate::moment::{clock_label, local_hour, Moment};
use crate::text::decimal;
use crate::weather::{heating_kw, pv_kw, WeatherResponse};

verus! {

/// What a round was like, and when it was: an analysis called for the given state, or the round
/// failed and the relay could or could not be reached.
pub enum Round {
    Decided(CompressorState, Moment),
    Failed(bool, Moment),
}

impl Round {
    /// When the round was.
    pub open spec fn time(self) -> Moment {
        match self {
            Round::Decided(_, now) => now,
            Round::Failed(_, now) => now,
        }
    }
}

/// The timing after one more round.
pub open spec fn after_round(config: &Config, timing: Timing, round: Round) -> Timing {
    match round {
        Round::Decided(price, now) => timing.next(config, price, now),
        Round::Failed(released, now) => timing.after_failure(config, released, now),
    }
}

/// The timing at start.
pub open spec fn at_start() -> Timing {
    Timing { last: CompressorState::Allowed, block_start: None, rest_until: None }
}

/// The timing after the first `n` rounds.
pub open spec fn timing_after(config: &Config, rounds: Seq<Round>, n: nat) -> Timing
    decreases n,
{
    if n == 0 {
        at_start()
    } else {
        after_round(config, timing_after(config, rounds, (n - 1) as nat), rounds[n - 1])
    }
}

/// The heat pump is blocked after the first `n` rounds.
pub open spec fn is_blocked(config: &Config, rounds: Seq<Round>, n: nat) -> bool {
    timing_after(config, rounds, n).last is Blocked
}

/// The round at `i` is at a time that a clock shows, and no rest leads out of the calendar.
pub open spec fn is_possible(config: &Config, rounds: Seq<Round>, i: int) -> bool {
    let before = timing_after(config, rounds, i as nat);
    &&& rounds[i].time().on_clock()
    &&& match rounds[i] {
        Round::Decided(price, now) => before.can_rest(config, price, now),
        Round::Failed(released, now) => before.can_end(config, released, now),
    }
}

/// The round at `i` is not later than the one at `j`.
pub open spec fn is_ordered(rounds: Seq<Round>, i: int, j: int) -> bool {
    elapsed(rounds[i].time(), rounds[j].time()) >= 0
}

/// The rounds are possible and follow each other in time.
pub open spec fn is_history(config: &Config, rounds: Seq<Round>) -> bool {
    &&& forall|i: int| 0 <= i < rounds.len() ==> #[trigger] is_possible(config, rounds, i)
    &&& forall|i: int, j: int| 0 <= i < j < rounds.len() ==> #[trigger] is_ordered(rounds, i, j)
}

/// What one round keeps.
proof fn lemma_next(config: &Config, timing: Timing, price: CompressorState, now: Moment)
    requires
        timing.wf(),
        now.on_clock(),
        timing.can_rest(config, price, now),
    ensures
        timing.next(config, price, now).wf(),
        timing.next(config, price, now).block_start matches Some(s) ==> s == now
            || timing.block_start == Some(s),
        timing.last is Blocked && timing.next(config, price, now).last is Blocked ==> {
            &&& timing.next(config, price, now).block_start == timing.block_start
            &&& elapsed(timing.block_start->0, now) <= config.max_continuous_block_minutes
                * MINUTE_NANOS
        },
        timing.last is Blocked && timing.next(config, price, now).last is Allowed
            ==> timing.next(config, price, now).rest_until == Some(Timing::rest_end(config, now)),
        timing.last is Allowed && timing.is_resting(now) ==> {
            &&& timing.next(config, price, now).last is Allowed
            &&& timing.next(config, price, now).rest_until == timing.rest_until
        },
{
}

/// What one failed round keeps.
proof fn lemma_next_failure(config: &Config, timing: Timing, released: bool, now: Moment)
    requires
        timing.wf(),
        now.on_clock(),
        timing.can_end(config, released, now),
    ensures
        timing.after_failure(config, released, now).wf(),
        timing.last is Blocked && timing.after_failure(config, released, now).last is Allowed
            ==> timing.after_failure(config, released, now).rest_until == Some(
            Timing::rest_end(config, now),
        ),
        timing.last is Allowed ==> timing.after_failure(config, released, now) == timing,
        timing.after_failure(config, released, now).last is Blocked ==> timing.after_failure(
            config,
            released,
            now,
        ) == timing,
{
}

/// The invariant of the timing: it is well formed, and a block has begun in some round.
pub proof fn lemma_timing_wf(config: &Config, rounds: Seq<Round>, n: nat)
    requires
        is_history(config, rounds),
        n <= rounds.len(),
    ensures
        timing_after(config, rounds, n).wf(),
        timing_after(config, rounds, n).block_start matches Some(s) ==> exists|k: int|
            0 <= k < n && #[trigger] rounds[k] is Decided && rounds[k]->Decided_1 == s,
    decreases n,
{
    if n > 0 {
        let m = (n - 1) as nat;
        lemma_timing_wf(config, rounds, m);
        let before = timing_after(config, rounds, m);
        assert(is_possible(config, rounds, m as int));
        match rounds[m as int] {
            Round::Decided(price, now) => {
                lemma_next(config, before, price, now);
            },
            Round::Failed(released, now) => {
                lemma_next_failure(config, before, released, now);
            },
        }
    }
}

proof fn lemma_same_block(config: &Config, rounds: Seq<Round>, i: int, j: int)
    requires
        is_history(config, rounds),
        0 <= i <= j < rounds.len(),
        rounds[i] is Decided,
        forall|k: nat| i < k <= j + 1 ==> #[trigger] is_blocked(config, rounds, k),
    ensures
        timing_after(config, rounds, (j + 1) as nat).block_start matches Some(s) && elapsed(
            s,
            rounds[i]->Decided_1,
        ) >= 0,
    decreases j,
{
    assert(is_blocked(config, rounds, (j + 1) as nat));
    lemma_timing_wf(config, rounds, (j + 1) as nat);
    lemma_timing_wf(config, rounds, j as nat);
    if i == j {
        let s = timing_after(config, rounds, (j + 1) as nat).block_start->0;
        let k = choose|k: int|
            0 <= k < j + 1 && #[trigger] rounds[k] is Decided && rounds[k]->Decided_1 == s;
        assert(k < i ==> is_ordered(rounds, k, i));
    } else {
        lemma_same_block(config, rounds, i, j - 1);
        assert(is_blocked(config, rounds, j as nat));
        assert(is_possible(config, rounds, j));
        match rounds[j] {
            Round::Decided(price, now) => {
                lemma_next(config, timing_after(config, rounds, j as nat), price, now);
            },
            Round::Failed(released, now) => {
                lemma_next_failure(config, timing_after(config, rounds, j as nat), released, now);
            },
        }
    }
}

/// A block does not outlast the maximum: between any two rounds of one block at most the configured
/// number of minutes pass.
pub proof fn lemma_block_is_limited(config: &Config, rounds: Seq<Round>, i: int, j: int)
    requires
        is_history(config, rounds),
        0 <= i < j < rounds.len(),
        rounds[i] is Decided,
        rounds[j] is Decided,
        forall|k: nat| i < k <= j + 1 ==> #[trigger] is_blocked(config, rounds, k),
    ensures
        elapsed(rounds[i]->Decided_1, rounds[j]->Decided_1)
            <= config.max_continuous_block_minutes * MINUTE_NANOS,
{
    lemma_same_block(config, rounds, i, j - 1);
    assert(is_blocked(config, rounds, (j + 1) as nat));
    assert(is_blocked(config, rounds, j as nat));
    assert(is_possible(config, rounds, j));
    lemma_timing_wf(config, rounds, j as nat);
    let before = timing_after(config, rounds, j as nat);
    lemma_next(config, before, rounds[j]->Decided_0, rounds[j]->Decided_1);
}

/// Of two rounds, the earlier one is before whatever the later one is before.
proof fn lemma_before(rounds: Seq<Round>, k: int, j: int, end: Moment)
    requires
        is_ordered(rounds, k, j),
        rounds[k].time().on_clock(),
        rounds[j].time().on_clock(),
        rounds[j].time().before(end),
        end.nanos < 1_000_000_000,
    ensures
        rounds[k].time().before(end),
{
}

/// The end of a block starts a rest.
proof fn lemma_rest_begins(config: &Config, rounds: Seq<Round>, i: int)
    requires
        is_history(config, rounds),
        0 <= i < rounds.len(),
        is_blocked(config, rounds, i as nat),
        !is_blocked(config, rounds, (i + 1) as nat),
    ensures
        timing_after(config, rounds, (i + 1) as nat).rest_until == Some(
            Timing::rest_end(config, rounds[i].time()),
        ),
{
    let before = timing_after(config, rounds, i as nat);
    lemma_timing_wf(config, rounds, i as nat);
    assert(is_possible(config, rounds, i));
    match rounds[i] {
        Round::Decided(price, now) => {
            lemma_next(config, before, price, now);
        },
        Round::Failed(released, now) => {
            lemma_next_failure(config, before, released, now);
        },
    }
}

proof fn lemma_resting(config: &Config, rounds: Seq<Round>, i: int, j: int, n: int)
    requires
        is_history(config, rounds),
        0 <= i < n <= j < rounds.len(),
        is_blocked(config, rounds, i as nat),
        !is_blocked(config, rounds, (i + 1) as nat),
        rounds[j].time().before(Timing::rest_end(config, rounds[i].time())),
    ensures
        !is_blocked(config, rounds, (n + 1) as nat),
        timing_after(config, rounds, (n + 1) as nat).rest_until == Some(
            Timing::rest_end(config, rounds[i].time()),
        ),
    decreases n,
{
    let end = Timing::rest_end(config, rounds[i].time());
    if n > i + 1 {
        lemma_resting(config, rounds, i, j, n - 1);
    } else {
        lemma_rest_begins(config, rounds, i);
    }
    let before = timing_after(config, rounds, n as nat);
    assert(before.rest_until == Some(end));
    assert(!is_blocked(config, rounds, n as nat));
    lemma_timing_wf(config, rounds, n as nat);
    assert(is_possible(config, rounds, n));
    assert(is_possible(config, rounds, j));
    match rounds[n] {
        Round::Decided(price, now) => {
            if n < j {
                assert(is_ordered(rounds, n, j));
                lemma_before(rounds, n, j, end);
            }
            lemma_next(config, before, price, now);
        },
        Round::Failed(released, now) => {
            lemma_next_failure(config, before, released, now);
        },
    }
}

/// After a block ends, the heat pump is not blocked again before the configured rest is over.
pub proof fn lemma_rest_is_kept(config: &Config, rounds: Seq<Round>, i: int, j: int)
    requires
        is_history(config, rounds),
        0 <= i < j < rounds.len(),
        is_blocked(config, rounds, i as nat),
        !is_blocked(config, rounds, (i + 1) as nat),
        rounds[j].time().before(Timing::rest_end(config, rounds[i].time())),
    ensures
        !is_blocked(config, rounds, (j + 1) as nat),
{
    lemma_resting(config, rounds, i, j, j);
}

/// The heat pump is blocked only where the price calls for it.
pub proof fn lemma_only_the_price_blocks(
    config: &Config,
    controller: Controller,
    price: CompressorState,
    now: Moment,
)
    requires
        controller.told(config, price, now) is Blocked,
    ensures
        price is Blocked,
{
}

/// A round that fails leaves the heat pump free to run wherever the relay can be reached.
pub proof fn lemma_failure_releases(config: &Config, timing: Timing, now: Moment)
    ensures
        timing.after_failure(config, true, now).last is Allowed,
{
}

/// Without control of the heat pump no command is sent, nothing is remembered, and what the price
/// calls for is shown.
pub proof fn lemma_heatpump_left_alone(
    config: &Config,
    controller: Controller,
    analysis: Analysis,
    now: Moment,
)
    requires
        !config.enable_heatpump_control,
    ensures
        controller.relay_command(config, analysis.compressor, now) is None,
        controller.after_tick(config, analysis, now).timing == controller.timing,
        controller.told(config, analysis.compressor, now) == analysis.compressor,
{
}

/// The relay is told of a change and of nothing else: what it was last told is what it now stands
/// at.
pub proof fn lemma_relay_follows(
    config: &Config,
    controller: Controller,
    analysis: Analysis,
    now: Moment,
)
    requires
        config.enable_heatpump_control,
    ensures
        controller.after_tick(config, analysis, now).timing.last == (match controller.relay_command(
            config,
            analysis.compressor,
            now,
        ) {
            Some(told) => told,
            None => controller.timing.last,
        }),
{
}

/// A minimum charge that has been set is not set again.
pub proof fn lemma_soc_is_set_once(
    config: &Config,
    controller: Controller,
    analysis: Analysis,
    now: Moment,
)
    ensures
        controller.after_tick(config, analysis, now).soc_command(
            config,
            target_of(analysis.battery),
        ) is None,
{
}

/// A rest lasts for the configured number of minutes.
pub proof fn lemma_rest_length(config: &Config, now: Moment)
    requires
        now.on_clock(),
        now.can_move(config.min_rest_time_minutes * 60),
    ensures
        Timing::rest_end(config, now).since_epoch() - now.since_epoch()
            == config.min_rest_time_minutes * 60_000_000_000,
{
}

/// What the heat pump is told: it may run wherever the price allows it, while it rests, and once it
/// has been blocked for more than the configured number of minutes; else it is blocked.
pub proof fn lemma_what_is_told(
    config: &Config,
    timing: Timing,
    price: CompressorState,
    now: Moment,
)
    requires
        timing.wf(),
        now.on_clock(),
    ensures
        ({
            let told = timing.decision(config, price, now);
            let rests = timing.rest_until matches Some(end) && now.since_epoch()
                < end.since_epoch();
            let too_long = timing.block_start matches Some(start) && now.since_epoch()
                - start.since_epoch() > config.max_continuous_block_minutes * 60_000_000_000;
            &&& price is Allowed ==> told is Allowed
            &&& price is Blocked && (rests || too_long) ==> told is Allowed
            &&& price is Blocked && !rests && !too_long ==> told is Blocked
        }),
{
}

/// A round remembers what it told the heat pump, when a block began, and when the rest after it
/// ends. A block that goes on keeps its beginning, and a rest that goes on keeps its end.
pub proof fn lemma_what_is_remembered(
    config: &Config,
    timing: Timing,
    price: CompressorState,
    now: Moment,
)
    requires
        timing.wf(),
        now.on_clock(),
    ensures
        ({
            let told = timing.decision(config, price, now);
            let next = timing.next(config, price, now);
            &&& next.last == told
            &&& told is Allowed ==> next.block_start is None
            &&& timing.last is Allowed && told is Blocked ==> next.block_start == Some(now)
            &&& timing.last is Blocked && told is Blocked ==> next.block_start
                == timing.block_start
            &&& timing.last is Blocked && told is Allowed ==> next.rest_until == Some(
                now.later(config.min_rest_time_minutes * 60),
            )
            &&& !(timing.last is Blocked && told is Allowed) && timing.is_resting(now)
                ==> next.rest_until == timing.rest_until
            &&& !(timing.last is Blocked && told is Allowed) && !timing.is_resting(now)
                ==> next.rest_until is None
        }),
{
}

/// Prices and forecasts are fetched at first and then once an hour has passed.
pub proof fn lemma_fetched_hourly(fetched: Option<Moment>, now: Moment)
    ensures
        is_due(fetched, now) <==> (fetched is None || now.since_epoch()
            - fetched->0.since_epoch() >= 3_600 * 1_000_000_000),
{
}

/// The minutes that a block has lasted are whole ones, and no more than have passed.
pub proof fn lemma_minutes(start: Moment, now: Moment)
    requires
        !now.before(start),
        start.on_clock(),
        now.on_clock(),
    ensures
        minutes_between(start, now) * 60_000_000_000 <= now.since_epoch() - start.since_epoch()
            < (minutes_between(start, now) + 1) * 60_000_000_000,
{
}

/// The first round waits for two polls of the status, as long as they are not too far apart.
pub proof fn lemma_head_start(config: &Config)
    requires
        config.status_poll_seconds <= 9_223_372_036_854_775,
    ensures
        head_start(config) == config.status_poll_seconds + config.status_poll_seconds,
{
}

/// The two charts of a forecast show the same hours.
pub proof fn lemma_charts_match(config: &Config, weather: &WeatherResponse, n: nat)
    requires
        n <= weather.hourly.time@.len(),
    ensures
        pv_chart(config, weather, n).len() == heating_chart(config, weather, n).len(),
        pv_chart(config, weather, n).len() <= n,
        forall|k: int|
            0 <= k < pv_chart(config, weather, n).len() ==> (#[trigger] pv_chart(
                config,
                weather,
                n,
            )[k]).0 == heating_chart(config, weather, n)[k].0,
    decreases n,
{
    if n > 0 {
        lemma_charts_match(config, weather, (n - 1) as nat);
    }
}

/// A chart of a forecast whose times can all be read has an entry for each line: the time that the
/// line names, and what the panels give at its radiation, or what heating takes at its temperature.
pub proof fn lemma_chart_lines(config: &Config, weather: &WeatherResponse, n: nat, i: int)
    requires
        0 <= i < n <= weather.hourly.time@.len(),
        n <= weather.hourly.shortwave_radiation@.len(),
        n <= weather.hourly.temperature_2m@.len(),
        forall|k: int|
            0 <= k < n ==> (local_hour((#[trigger] weather.hourly.time@[k])@) matches Some(h)
                && 0 <= h.secs < 0x20_0000_0000_0000),
    ensures
        ({
            let sun = pv_chart(config, weather, n);
            let heat = heating_chart(config, weather, n);
            let hour = local_hour(weather.hourly.time@[i]@)->0;
            &&& sun.len() == n
            &&& heat.len() == n
            &&& sun[i].1 == pv_kw(config, weather.hourly.shortwave_radiation@[i])
            &&& heat[i].1 == heating_kw(config, weather.hourly.temperature_2m@[i])
            &&& sun[i].0.scaled() == hour.secs * pow2(1074)
            &&& heat[i].0.scaled() == hour.secs * pow2(1074)
        }),
    decreases n,
{
    lemma_chart_lengths(config, weather, n);
    if i < n - 1 {
        lemma_chart_lines(config, weather, (n - 1) as nat, i);
        lemma_chart_lengths(config, weather, (n - 1) as nat);
        assert(local_hour(weather.hourly.time@[n - 1]@) is Some);
    } else {
        lemma_chart_lengths(config, weather, (n - 1) as nat);
        let hour = local_hour(weather.hourly.time@[i]@);
        assert(hour is Some);
        lemma_of_int_exact(hour->0.secs as nat);
    }
}

proof fn lemma_chart_lengths(config: &Config, weather: &WeatherResponse, n: nat)
    requires
        n <= weather.hourly.time@.len(),
        forall|k: int|
            0 <= k < n ==> local_hour((#[trigger] weather.hourly.time@[k])@) is Some,
    ensures
        pv_chart(config, weather, n).len() == n,
        heating_chart(config, weather, n).len() == n,
    decreases n,
{
    if n > 0 {
        lemma_chart_lengths(config, weather, (n - 1) as nat);
        assert(local_hour(weather.hourly.time@[n - 1]@) is Some);
    }
}

/// A round that the price decides shows what the battery does, in words.
pub proof fn lemma_words(soc: u8, shown: Seq<char>)
    ensures
        battery_words(BatteryDecision::Baseline(soc), shown) == "Baseline"@,
        battery_words(BatteryDecision::ForceCharge(soc, ChargeReason::LowPoint), shown)
            == "Force Charge (Low Point)"@,
        battery_words(BatteryDecision::ForceCharge(soc, ChargeReason::EodLow), shown)
            == "Force Charge (EOD Low)"@,
        battery_words(BatteryDecision::ForceCharge(soc, ChargeReason::WinterLowPv), shown)
            == "Force Charge (Winter Low PV Grid Charge)"@,
        battery_words(BatteryDecision::ForceCharge(soc, ChargeReason::PreSpike(soc)), shown)
            == "Force Charge (Pre-Spike (Need "@ + decimal(soc as int) + "%))"@,
        battery_words(BatteryDecision::ForceCharge(soc, ChargeReason::ImmediateSpike(soc)), shown)
            == "Force Charge (Immediate Spike (Need "@ + decimal(soc as int) + "%))"@,
{
    reveal_strlit("Force Charge (");
    reveal_strlit(")");
    reveal_strlit("Low Point");
    reveal_strlit("EOD Low");
    reveal_strlit("Winter Low PV Grid Charge");
    reveal_strlit("Pre-Spike (Need ");
    reveal_strlit("Immediate Spike (Need ");
    reveal_strlit("%)");
    reveal_strlit("%))");
    reveal_strlit("Force Charge (Low Point)");
    reveal_strlit("Force Charge (EOD Low)");
    reveal_strlit("Force Charge (Winter Low PV Grid Charge)");
    reveal_strlit("Force Charge (Pre-Spike (Need ");
    reveal_strlit("Force Charge (Immediate Spike (Need ");
    let d = decimal(soc as int);
    assert("Force Charge ("@ + "Low Point"@ + ")"@ =~= "Force Charge (Low Point)"@);
    assert("Force Charge ("@ + "EOD Low"@ + ")"@ =~= "Force Charge (EOD Low)"@);
    assert("Force Charge ("@ + "Winter Low PV Grid Charge"@ + ")"@
        =~= "Force Charge (Winter Low PV Grid Charge)"@);
    assert("Force Charge ("@ + ("Pre-Spike (Need "@ + d + "%)"@) + ")"@
        =~= "Force Charge (Pre-Spike (Need "@ + d + "%))"@);
    assert("Force Charge ("@ + ("Immediate Spike (Need "@ + d + "%)"@) + ")"@
        =~= "Force Charge (Immediate Spike (Need "@ + d + "%))"@);
}

/// A round says why the price was overridden: because the block has lasted too long, or because of
/// a rest; else it says what the battery does.
pub proof fn lemma_message(
    config: &Config,
    timing: Timing,
    price: CompressorState,
    now: Moment,
    battery: Seq<char>,
)
    requires
        timing.wf(),
        now.on_clock(),
    ensures
        ({
            let message = timing.message(config, price, now, battery);
            let rests = timing.rest_until matches Some(end) && now.since_epoch()
                < end.since_epoch();
            let too_long = price is Blocked && (timing.block_start matches Some(start)
                && now.since_epoch() - start.since_epoch() > config.max_continuous_block_minutes
                * 60_000_000_000);
            &&& too_long ==> message == "Max block exceeded ("@ + decimal(
                minutes_between(timing.block_start->0, now),
            ) + "m)"@
            &&& rests && !too_long ==> message == "Resting until "@ + clock_label(
                timing.rest_until->0,
            )
            &&& !rests && !too_long ==> message == battery
        }),
{
}

} // verus!
