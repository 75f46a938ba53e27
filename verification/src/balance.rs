//! Laws of the readings: their units and signs, the balance of energy, and how a history follows
//! from readings. Values are compared in exact arithmetic, in units of 2^-1074.

use vstd::arithmetic::power2::{lemma_pow2_pos, pow2};
use vstd::prelude::*;

use crate::bounds::{
    fits, lemma_below_zero, lemma_fits, lemma_half_up, lemma_key_order, lemma_of_int_exact,
    lemma_opposite, lemma_product_exact, lemma_quotient_exact, lemma_sum_exact, lemma_sum_ordered,
    lemma_whole,
};
use crate::datasource::{
    chronological, delivered, extended, flow_status, lemma_history_is_one_day, legacy_status,
    live_status, readings, sample_of, Fetched, HistorySample, LiveStatusPayload, StatusDataPoint,
};
use crate::double::{
    less, of_int, opposite, rounded_half_up, saturated, sum, whole, with_sign, Double,
};
use crate::huawei::{Query, Survey};
use crate::json::{double_of, field_of, items_of, text_of, JsonView};
use crate::moment::Moment;
use crate::text::same_letters;

verus! {

/// One, in units of 2^-1074.
pub open spec fn unit() -> int {
    pow2(1074) as int
}

/// `n` is the percentage nearest to `x`: a value halfway between two goes up, and what is above
/// 100 or below 0 ends there.
pub open spec fn is_percentage(x: Double, n: u8) -> bool {
    &&& n <= 100
    &&& x.is_finite() && 0 <= x.scaled() <= 100 * unit() ==> (2 * n - 1) * unit() <= 2 * x.scaled()
        < (2 * n + 1) * unit()
    &&& x.is_finite() && x.scaled() > 100 * unit() ==> n == 100
    &&& x.is_finite() && x.scaled() < 0 ==> n == 0
    &&& x.is_nan() ==> n == 0
}

proof fn lemma_percentage(x: Double)
    ensures
        is_percentage(x, saturated(x, rounded_half_up(x), 100) as u8),
{
    lemma_half_up(x);
    lemma_pow2_pos(1074);
    let p = unit();
    let n = rounded_half_up(x) as int;
    let m = x.magnitude() as int;
    if !x.is_nan() && x.negative() && x.scaled() == 0 {
        assert((2 * 0 - 1) * p <= 0 < (2 * 0 + 1) * p) by (nonlinear_arith)
            requires
                p > 0,
        ;
    }
    if n > 100 && m <= 100 * p {
        assert((2 * n - 1) * p > 2 * (100 * p)) by (nonlinear_arith)
            requires
                n >= 101,
                p > 0,
        ;
        assert(false);
    }
    if n < 100 && m > 100 * p {
        assert((2 * n + 1) * p < 2 * (100 * p)) by (nonlinear_arith)
            requires
                n <= 99,
                p > 0,
        ;
        assert(false);
    }
}

/// Household consumption is what the sun, the battery and the grid give together, whatever the
/// sign of each, and not below zero. The other readings are passed on; the grid's sign is turned
/// round where that is asked for.
pub proof fn lemma_consumption_is_the_balance(survey: Survey, invert_grid_sign: bool)
    requires
        survey.got_inverter || survey.got_battery || survey.got_meter,
        survey.pv_kw.is_finite(),
        survey.battery_kw.is_finite(),
        survey.grid_kw.is_finite(),
        fits(survey.pv_kw.scaled() + survey.battery_kw.scaled()),
        fits(
            survey.pv_kw.scaled() + survey.battery_kw.scaled() + (if invert_grid_sign {
                -survey.grid_kw.scaled()
            } else {
                survey.grid_kw.scaled()
            }),
        ),
    ensures
        survey.outcome(invert_grid_sign) matches Ok(r) && {
            let balance = survey.pv_kw.scaled() + survey.battery_kw.scaled() + (
            if invert_grid_sign {
                -survey.grid_kw.scaled()
            } else {
                survey.grid_kw.scaled()
            });
            &&& r.load_power.is_finite()
            &&& balance >= 0 ==> r.load_power.scaled() == balance
            &&& balance < 0 ==> r.load_power.scaled() == 0
            &&& invert_grid_sign ==> r.grid_power.scaled() == -survey.grid_kw.scaled()
            &&& !invert_grid_sign ==> r.grid_power.scaled() == survey.grid_kw.scaled()
            &&& r.pv_power.scaled() == survey.pv_kw.scaled()
            &&& r.battery_power.scaled() == survey.battery_kw.scaled()
            &&& r.soc == survey.soc
        },
{
    lemma_opposite(survey.grid_kw);
    let grid = if invert_grid_sign {
        opposite(survey.grid_kw)
    } else {
        survey.grid_kw
    };
    lemma_sum_exact(survey.pv_kw, survey.battery_kw);
    lemma_sum_exact(sum(survey.pv_kw, survey.battery_kw), grid);
    lemma_below_zero(sum(sum(survey.pv_kw, survey.battery_kw), grid));
}

/// A house that is fed by the battery alone consumes what the battery gives, and nothing while the
/// battery is charged.
pub proof fn lemma_battery_alone(survey: Survey, invert_grid_sign: bool)
    requires
        survey.got_inverter || survey.got_battery || survey.got_meter,
        survey.battery_kw.is_finite(),
        survey.pv_kw.is_finite(),
        survey.grid_kw.is_finite(),
        survey.pv_kw.scaled() == 0,
        survey.grid_kw.scaled() == 0,
    ensures
        survey.outcome(invert_grid_sign) matches Ok(r) && {
            &&& survey.battery_kw.scaled() >= 0 ==> r.load_power.scaled()
                == survey.battery_kw.scaled()
            &&& survey.battery_kw.scaled() < 0 ==> r.load_power.scaled() == 0
        },
{
    lemma_fits(survey.battery_kw);
    lemma_consumption_is_the_balance(survey, invert_grid_sign);
}

/// Consumption never falls where the sun, the battery or the grid gives more, however the sums are
/// rounded. Where the grid's sign is turned round, the grid gives more where its reading is less.
pub proof fn lemma_consumption_grows(less_given: Survey, more_given: Survey, invert_grid_sign: bool)
    requires
        less_given.got_inverter || less_given.got_battery || less_given.got_meter,
        more_given.got_inverter || more_given.got_battery || more_given.got_meter,
        less_given.pv_kw.is_finite(),
        less_given.battery_kw.is_finite(),
        less_given.grid_kw.is_finite(),
        more_given.pv_kw.is_finite(),
        more_given.battery_kw.is_finite(),
        more_given.grid_kw.is_finite(),
        less_given.pv_kw.scaled() <= more_given.pv_kw.scaled(),
        less_given.battery_kw.scaled() <= more_given.battery_kw.scaled(),
        invert_grid_sign ==> less_given.grid_kw.scaled() >= more_given.grid_kw.scaled(),
        !invert_grid_sign ==> less_given.grid_kw.scaled() <= more_given.grid_kw.scaled(),
    ensures
        less_given.outcome(invert_grid_sign) matches Ok(a) && (more_given.outcome(
            invert_grid_sign,
        ) matches Ok(b) && a.load_power.key() <= b.load_power.key() && !a.load_power.is_nan()
            && !b.load_power.is_nan()),
{
    let a = less_given;
    let b = more_given;
    lemma_opposite(a.grid_kw);
    lemma_opposite(b.grid_kw);
    let (g, h) = if invert_grid_sign {
        (opposite(a.grid_kw), opposite(b.grid_kw))
    } else {
        (a.grid_kw, b.grid_kw)
    };
    lemma_key_order(b.pv_kw, a.pv_kw);
    lemma_key_order(b.battery_kw, a.battery_kw);
    lemma_key_order(h, g);
    lemma_sum_ordered(a.pv_kw, b.pv_kw, a.battery_kw);
    lemma_sum_ordered(a.battery_kw, b.battery_kw, b.pv_kw);
    let low = sum(a.pv_kw, a.battery_kw);
    let high = sum(b.pv_kw, b.battery_kw);
    lemma_sum_ordered(low, high, g);
    lemma_grid_rises(high, g, h);
    reveal(less);
    lemma_below_zero(a.pv_kw);
}

/// Adding more leaves no less, also to what is infinite.
proof fn lemma_grid_rises(base: Double, g: Double, h: Double)
    requires
        !base.is_nan(),
        g.is_finite(),
        h.is_finite(),
        g.key() <= h.key(),
    ensures
        !sum(base, g).is_nan(),
        !sum(base, h).is_nan(),
        sum(base, g).key() <= sum(base, h).key(),
{
    if base.is_finite() {
        lemma_sum_ordered(g, h, base);
    } else {
        reveal(sum);
    }
}

/// A reading of a device, by name.
pub open spec fn item(row: JsonView, name: Seq<char>) -> Option<Double> {
    double_of(field_of(row.field("dataItemMap"@), name))
}

/// A further inverter adds its `active_power` to the production, whichever way the inverters were
/// asked for, and nothing else.
pub proof fn lemma_inverter_is_added(
    survey: Survey,
    query: Query,
    rows: Seq<JsonView>,
    row: JsonView,
)
    requires
        query == Query::HomeInverters || query == Query::StringInverters,
    ensures
        ({
            let before = survey.with_rows(query, rows);
            let after = survey.with_rows(query, rows.push(row));
            &&& after.grid_kw == survey.grid_kw
            &&& after.battery_kw == survey.battery_kw
            &&& after.soc == survey.soc
            &&& after.got_battery == survey.got_battery
            &&& after.got_meter == survey.got_meter
            &&& match item(row, "active_power"@) {
                Some(p) => {
                    &&& after.got_inverter
                    &&& p.is_finite() && before.pv_kw.is_finite() && fits(
                        before.pv_kw.scaled() + p.scaled(),
                    ) ==> after.pv_kw.scaled() == before.pv_kw.scaled() + p.scaled()
                },
                None => after.pv_kw == before.pv_kw,
            }
        }),
{
    let longer = rows.push(row);
    assert(longer.drop_last() =~= rows);
    assert(longer[rows.len() as int] == row);
    match item(row, "active_power"@) {
        Some(p) => {
            assert(crate::huawei::item_of(longer[rows.len() as int], "active_power"@) is Some);
            let b = survey.with_rows(query, rows).pv_kw;
            if p.is_finite() && b.is_finite() && fits(b.scaled() + p.scaled()) {
                lemma_sum_exact(b, p);
            }
        },
        None => {},
    }
}

/// A further meter adds its `active_power` to the grid's power, and nothing else.
pub proof fn lemma_meter_is_added(survey: Survey, rows: Seq<JsonView>, row: JsonView)
    ensures
        ({
            let before = survey.with_rows(Query::Meters, rows);
            let after = survey.with_rows(Query::Meters, rows.push(row));
            &&& after.pv_kw == survey.pv_kw
            &&& after.battery_kw == survey.battery_kw
            &&& after.soc == survey.soc
            &&& after.got_inverter == survey.got_inverter
            &&& after.got_battery == survey.got_battery
            &&& match item(row, "active_power"@) {
                Some(p) => {
                    &&& after.got_meter
                    &&& p.is_finite() && before.grid_kw.is_finite() && fits(
                        before.grid_kw.scaled() + p.scaled(),
                    ) ==> after.grid_kw.scaled() == before.grid_kw.scaled() + p.scaled()
                },
                None => after.grid_kw == before.grid_kw,
            }
        }),
{
    let longer = rows.push(row);
    assert(longer.drop_last() =~= rows);
    assert(longer[rows.len() as int] == row);
    match item(row, "active_power"@) {
        Some(p) => {
            assert(crate::huawei::item_of(longer[rows.len() as int], "active_power"@) is Some);
            let b = survey.with_rows(Query::Meters, rows).grid_kw;
            if p.is_finite() && b.is_finite() && fits(b.scaled() + p.scaled()) {
                lemma_sum_exact(b, p);
            }
        },
        None => {},
    }
}

/// A further battery adds its `ch_discharge_power` to the battery's power, and its `battery_soc`,
/// rounded to a percentage, is the charge; nothing else changes.
pub proof fn lemma_battery_is_added(survey: Survey, rows: Seq<JsonView>, row: JsonView)
    ensures
        ({
            let before = survey.with_rows(Query::Batteries, rows);
            let after = survey.with_rows(Query::Batteries, rows.push(row));
            &&& after.pv_kw == survey.pv_kw
            &&& after.grid_kw == survey.grid_kw
            &&& after.got_inverter == survey.got_inverter
            &&& after.got_meter == survey.got_meter
            &&& match item(row, "ch_discharge_power"@) {
                Some(p) => p.is_finite() && before.battery_kw.is_finite() && fits(
                    before.battery_kw.scaled() + p.scaled(),
                ) ==> after.battery_kw.scaled() == before.battery_kw.scaled() + p.scaled(),
                None => after.battery_kw == before.battery_kw,
            }
            &&& match item(row, "battery_soc"@) {
                Some(x) => after.got_battery && is_percentage(x, after.soc),
                None => after.soc == before.soc,
            }
        }),
{
    let longer = rows.push(row);
    assert(longer.drop_last() =~= rows);
    assert(longer[rows.len() as int] == row);
    match item(row, "ch_discharge_power"@) {
        Some(p) => {
            let b = survey.with_rows(Query::Batteries, rows).battery_kw;
            if p.is_finite() && b.is_finite() && fits(b.scaled() + p.scaled()) {
                lemma_sum_exact(b, p);
            }
        },
        None => {},
    }
    match item(row, "battery_soc"@) {
        Some(x) => {
            assert(crate::huawei::item_of(longer[rows.len() as int], "battery_soc"@) is Some);
            lemma_percentage(x);
        },
        None => {},
    }
}

/// A survey counts a kind of device as heard only where a row has the reading.
pub proof fn lemma_silence_is_noticed(survey: Survey, query: Query, rows: Seq<JsonView>)
    requires
        forall|i: int| 0 <= i < rows.len() ==> item(#[trigger] rows[i], "active_power"@) is None,
        forall|i: int| 0 <= i < rows.len() ==> item(#[trigger] rows[i], "battery_soc"@) is None,
    ensures
        survey.with_rows(query, rows).got_inverter == survey.got_inverter,
        survey.with_rows(query, rows).got_battery == survey.got_battery,
        survey.with_rows(query, rows).got_meter == survey.got_meter,
{
}

/// A status file is a record of what it would have said: entry `i` of each power's history has the
/// time of point `i` and the current reading of the same power in a file that ends there. Histories
/// have an entry for each point.
pub proof fn lemma_file_is_replayed(points: Seq<StatusDataPoint>, i: int)
    requires
        0 <= i < points.len(),
    ensures
        ({
            let s = legacy_status(points);
            let cut = legacy_status(points.take(i + 1));
            let time = points[i].time;
            &&& s.soc_histogram.len() == points.len()
            &&& s.pv_histogram.len() == points.len()
            &&& s.load_histogram.len() == points.len()
            &&& s.grid_histogram.len() == points.len()
            &&& s.battuse_histogram.len() == points.len()
            &&& s.soc_histogram[i] == (time, points[i].battery_soc)
            &&& s.pv_histogram[i] == (time, cut.pv_power)
            &&& s.load_histogram[i] == (time, cut.load_power)
            &&& s.grid_histogram[i] == (time, cut.grid_power)
            &&& s.battuse_histogram[i] == (time, cut.battery_power)
        }),
{
}

/// The last entry of each history in a status file is its current reading.
pub proof fn lemma_file_ends_with_now(points: Seq<StatusDataPoint>)
    requires
        points.len() > 0,
    ensures
        ({
            let s = legacy_status(points);
            let time = points.last().time;
            &&& s.soc_histogram.last() == (time, points.last().battery_soc)
            &&& s.pv_histogram.last() == (time, s.pv_power)
            &&& s.load_histogram.last() == (time, s.load_power)
            &&& s.grid_histogram.last() == (time, s.grid_power)
            &&& s.battuse_histogram.last() == (time, s.battery_power)
        }),
{
    assert(points.take(points.len() as int) =~= points);
    lemma_file_is_replayed(points, points.len() - 1);
}

/// `y` is a thousandth of `x`, where that needs no rounding.
pub open spec fn is_thousandth(x: Double, y: Double) -> bool {
    forall|v: int|
        x.is_finite() && #[trigger] fits(v) && x.scaled() == 1000 * v ==> y.is_finite()
            && y.scaled() == v
}

proof fn lemma_thousandth(x: Double)
    ensures
        is_thousandth(x, crate::datasource::thousandth(x)),
{
    lemma_of_int_exact(1000);
    lemma_pow2_pos(1074);
    let y = crate::datasource::thousandth(x);
    assert forall|v: int|
        x.is_finite() && #[trigger] fits(v) && x.scaled() == 1000 * v implies y.is_finite()
        && y.scaled() == v by {
        let p = pow2(1074) as int;
        assert(v * (1000 * p) == (1000 * v) * p) by (nonlinear_arith);
        assert(of_int(1000).scaled() == 1000 * p);
        lemma_quotient_exact(x, of_int(1000), v);
    }
}

/// A status file counts powers in W and the status counts them in kW, each power for itself; the
/// charge loses its fraction.
pub proof fn lemma_file_is_in_watts(points: Seq<StatusDataPoint>)
    requires
        points.len() > 0,
    ensures
        ({
            let s = legacy_status(points);
            let p = points.last();
            &&& is_thousandth(p.pv, s.pv_power)
            &&& is_thousandth(p.consumption, s.load_power)
            &&& is_thousandth(p.grid, s.grid_power)
            &&& is_thousandth(p.battery_power, s.battery_power)
            &&& p.battery_soc.is_finite() && 0 <= p.battery_soc.scaled() < 256 * unit() ==> s.soc
                * unit() <= p.battery_soc.scaled() < (s.soc + 1) * unit()
            &&& p.battery_soc.is_finite() && p.battery_soc.scaled() < 0 ==> s.soc == 0
            &&& p.battery_soc.is_finite() && p.battery_soc.scaled() >= 256 * unit() ==> s.soc == 255
        }),
{
    let p = points.last();
    lemma_thousandth(p.pv);
    lemma_thousandth(p.consumption);
    lemma_thousandth(p.grid);
    lemma_thousandth(p.battery_power);
    let x = p.battery_soc;
    lemma_whole(x);
    lemma_pow2_pos(1074);
    let n = whole(x) as int;
    let u = unit();
    if n > 255 && x.magnitude() < 256 * u {
        assert(n * u >= 256 * u) by (nonlinear_arith)
            requires
                n >= 256,
                u > 0,
        ;
        assert(false);
    }
    if n < 255 && x.magnitude() >= 256 * u {
        assert((n + 1) * u <= 255 * u) by (nonlinear_arith)
            requires
                n <= 254,
                u > 0,
        ;
        assert(false);
    }
    if x.negative() && x.scaled() == 0 {
        assert(0 * u <= 0 < (0 + 1) * u) by (nonlinear_arith)
            requires
                u > 0,
        ;
    }
}

/// Live readings are taken as they are, but for the battery: what the source counts as use is
/// counted here the other way round. The charge is the nearest percentage, and there is no history.
pub proof fn lemma_live_readings(p: LiveStatusPayload)
    ensures
        ({
            let s = live_status(p);
            &&& is_percentage(p.soc, s.soc)
            &&& s.pv_power == p.pv
            &&& s.load_power == p.consumption
            &&& s.grid_power == p.grid
            &&& s.battery_power.scaled() == -p.batteryuse.scaled()
            &&& s.battery_power.key() == -p.batteryuse.key()
            &&& s.soc_histogram.len() == 0
            &&& s.pv_histogram.len() == 0
            &&& s.load_histogram.len() == 0
            &&& s.grid_histogram.len() == 0
            &&& s.battuse_histogram.len() == 0
        }),
{
    lemma_percentage(p.soc);
    lemma_opposite(p.batteryuse);
}

/// A power of a power flow, as it is given.
pub open spec fn flow_reading(flow: JsonView, point: Seq<char>) -> Option<Double> {
    double_of(field_of(flow.field(point), "currentPower"@))
}

/// The unit of a power flow has a name, which is the given one but for capitals.
pub open spec fn flow_is_in(flow: JsonView, unit: Seq<char>) -> bool {
    text_of(flow.field("unit"@)) matches Some(u) && same_letters(u, unit)
}

/// Some connection of a power flow has the grid at the given end.
pub open spec fn flow_touches_grid(flow: JsonView, end: Seq<char>) -> bool {
    items_of(flow.field("connections"@)) matches Some(list) && exists|i: int|
        0 <= i < list.len() && (text_of((#[trigger] list[i]).field(end)) matches Some(name)
            && same_letters(name, "grid"@))
}

/// `y` is the power `x` of a flow in kW: the thousandth of what is in W, a thousand times what is
/// in MW, and anything else as it is.
pub open spec fn is_in_kw(flow: JsonView, x: Double, y: Double) -> bool {
    &&& flow_is_in(flow, "w"@) ==> is_thousandth(x, y)
    &&& flow_is_in(flow, "mw"@) && x.is_finite() && fits(1000 * x.scaled()) ==> y.is_finite()
        && y.scaled() == 1000 * x.scaled()
    &&& !flow_is_in(flow, "w"@) && !flow_is_in(flow, "mw"@) ==> y == x
}

proof fn lemma_in_kw(flow: JsonView, x: Double)
    ensures
        is_in_kw(flow, x, crate::datasource::in_kw(crate::datasource::unit_of(flow), x)),
{
    let u = crate::datasource::unit_of(flow);
    reveal_strlit("w");
    reveal_strlit("W");
    reveal_strlit("mw");
    reveal_strlit("MW");
    reveal_strlit("kW");
    assert("w"@.len() == 1 && "W"@.len() == 1 && "mw"@.len() == 2 && "MW"@.len() == 2);
    assert("kW"@.len() == 2);
    lemma_capitals(u, "w"@, "W"@);
    lemma_capitals(u, "mw"@, "MW"@);
    if text_of(flow.field("unit"@)) is None {
        assert(u[0] == 'k' && "MW"@[0] == 'M');
        assert(!same_letters(u, "MW"@));
    }
    lemma_thousandth(x);
    lemma_of_int_exact(1000);
    lemma_pow2_pos(1074);
    let p = pow2(1074) as int;
    assert(of_int(1000).scaled() == 1000 * p);
    if x.is_finite() && fits(1000 * x.scaled()) {
        let v = x.scaled();
        assert((1000 * v) * p == v * (1000 * p)) by (nonlinear_arith);
        lemma_product_exact(x, of_int(1000), 1000 * v);
    }
}

/// Texts that differ in capitals alone are the same to a text that is compared without them.
proof fn lemma_capitals(a: Seq<char>, b: Seq<char>, c: Seq<char>)
    requires
        same_letters(b, c),
    ensures
        same_letters(a, b) == same_letters(a, c),
{
}

/// A power flow gives production and grid power, in kW whatever its unit; what it does not mention
/// is zero. The grid's power is counted as negative where a connection leads to the grid and none
/// comes from it, and else as it is.
pub proof fn lemma_flow_readings(flow: JsonView)
    ensures
        ({
            let s = flow_status(flow);
            &&& flow_reading(flow, "PV"@) matches Some(x) ==> is_in_kw(flow, x, s.pv_power)
            &&& flow_reading(flow, "PV"@) is None ==> s.pv_power.scaled() == 0
            &&& flow_reading(flow, "GRID"@) matches Some(x) ==> is_in_kw(
                flow,
                x,
                if flow_touches_grid(flow, "to"@) && !flow_touches_grid(flow, "from"@) {
                    opposite(s.grid_power)
                } else {
                    s.grid_power
                },
            )
            &&& flow_reading(flow, "GRID"@) is None ==> s.grid_power.scaled() == 0
            &&& s.soc == 0
            &&& s.load_power.scaled() == 0
            &&& s.battery_power.scaled() == 0
        }),
{
    let zero = with_sign(false, 0);
    lemma_below_zero(zero);
    lemma_opposite(zero);
    match flow_reading(flow, "PV"@) {
        Some(x) => lemma_in_kw(flow, x),
        None => {},
    }
    lemma_touches(flow, "to"@);
    lemma_touches(flow, "from"@);
    match flow_reading(flow, "GRID"@) {
        Some(x) => {
            lemma_in_kw(flow, x);
            let y = crate::datasource::in_kw(crate::datasource::unit_of(flow), x);
            assert(opposite(opposite(y)) == y);
        },
        None => {},
    }
}

proof fn lemma_touches(flow: JsonView, end: Seq<char>)
    ensures
        flow_touches_grid(flow, end) == (items_of(flow.field("connections"@)) matches Some(list)
            && crate::datasource::has_grid(list, end)),
{
    reveal_strlit("grid");
    reveal_strlit("GRID");
    assert("grid"@.len() == 4 && "GRID"@.len() == 4);
    match items_of(flow.field("connections"@)) {
        Some(list) => {
            assert forall|name: Seq<char>| same_letters(name, "grid"@) == #[trigger] same_letters(
                name,
                "GRID"@,
            ) by {
                lemma_capitals(name, "grid"@, "GRID"@);
            }
            if flow_touches_grid(flow, end) {
                let i = choose|i: int|
                    0 <= i < list.len() && (text_of((#[trigger] list[i]).field(end)) matches Some(
                        name,
                    ) && same_letters(name, "grid"@));
                assert(crate::datasource::is_grid(list[i], end));
            }
            if crate::datasource::has_grid(list, end) {
                let i = choose|i: int|
                    0 <= i < list.len() && #[trigger] crate::datasource::is_grid(list[i], end);
                assert(text_of(list[i].field(end)) is Some);
            }
        },
        None => {},
    }
}

/// Where a source other than the status file was heard, the status shows the history that the
/// library keeps: every history has an entry for each sample, each with the sample's own time and
/// value, and the last entry is the present reading.
pub proof fn lemma_history_is_shown(fetched: Fetched, history: Seq<HistorySample>, now: Moment)
    requires
        delivered(fetched.huawei) || delivered(fetched.solaredge),
        chronological(history),
        history.len() > 0 ==> history.last().ts_ms <= now.millis() as i64,
    ensures
        ({
            let s = fetched.settled(history, now);
            let kept = fetched.history_after(history, now);
            let time = now.millis() as i64;
            &&& kept.len() > 0
            &&& s.soc_histogram.len() == kept.len()
            &&& s.pv_histogram.len() == kept.len()
            &&& s.load_histogram.len() == kept.len()
            &&& s.grid_histogram.len() == kept.len()
            &&& s.battuse_histogram.len() == kept.len()
            &&& forall|i: int|
                0 <= i < kept.len() ==> {
                    &&& s.soc_histogram[i] == (#[trigger] kept[i].ts_ms, kept[i].soc)
                    &&& s.pv_histogram[i] == (kept[i].ts_ms, kept[i].pv_kw)
                    &&& s.load_histogram[i] == (kept[i].ts_ms, kept[i].load_kw)
                    &&& s.grid_histogram[i] == (kept[i].ts_ms, kept[i].grid_kw)
                    &&& s.battuse_histogram[i] == (kept[i].ts_ms, kept[i].battery_kw)
                }
            &&& s.soc_histogram.last().0 == time
            &&& s.soc_histogram.last().1.scaled() == s.soc * unit()
            &&& s.pv_histogram.last() == (time, s.pv_power)
            &&& s.load_histogram.last() == (time, s.load_power)
            &&& s.grid_histogram.last() == (time, s.grid_power)
            &&& s.battuse_histogram.last() == (time, s.battery_power)
            &&& forall|i: int| 0 <= i < kept.len() ==> time - 86_400_000 <= #[trigger] kept[i].ts_ms
            &&& forall|x: HistorySample|
                history.contains(x) && x.ts_ms >= time - 86_400_000 ==> #[trigger] kept.contains(x)
        }),
{
    let sample = sample_of(fetched.added(), now.millis() as i64);
    lemma_history_is_one_day(history, sample);
    lemma_of_int_exact(fetched.added().soc as nat);
    assert(extended(history, sample) == fetched.history_after(history, now));
}

/// A status file that is heard alone is passed on with the history it has, and the library's own
/// history stays as it is.
pub proof fn lemma_file_alone(fetched: Fetched, history: Seq<HistorySample>, now: Moment)
    requires
        !delivered(fetched.huawei),
        !delivered(fetched.solaredge),
    ensures
        fetched.settled(history, now) == readings(fetched.legacy),
        fetched.history_after(history, now) == history,
{
}

/// Live readings take the place of all others, each of the reading of the same name.
pub proof fn lemma_live_comes_first(fetched: Fetched, history: Seq<HistorySample>, now: Moment)
    requires
        delivered(fetched.live),
    ensures
        ({
            let s = fetched.combined(history, now);
            let live = readings(fetched.live);
            &&& s.soc == live.soc
            &&& s.pv_power == live.pv_power
            &&& s.load_power == live.load_power
            &&& s.grid_power == live.grid_power
            &&& s.battery_power == live.battery_power
        }),
{
}

} // verus!
