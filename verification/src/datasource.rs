//! The sources of live data: what each one's reply means, and how several are combined.

use std::collections::VecDeque;

use vstd::prelude::*;
use vstd::string::*;

use crate::config::Config;
use crate::double::{
    of_int, opposite, product, quotient, rounded_half_up, saturated, sum, whole, with_sign, Double,
};
use crate::huawei::{seen_text, HuaweiSource, HuaweiView};
use crate::json::{
    double_of, field_of, get_in, item_views, items_of, parse_json, parsed_json, text_of, Json,
    JsonView,
};
use crate::moment::Moment;
use crate::status::{blank_status, reading, StatusView, SystemStatus};
use crate::text::{
    join, joined, same_ignoring_case, same_letters, trim_end_slashes, views, without_end,
};

verus! {

/// How long readings are kept, in milliseconds: a day.
pub const HISTORY_WINDOW_MS: i64 = 86_400_000;

/// What came of a request.
#[derive(Debug)]
pub enum Got<T> {
    /// There was no reply.
    Unreachable,
    /// The reply was not a success but had the given status.
    Refused(String),
    /// The reply could not be read.
    Unreadable,
    Body(T),
}

/// What came of a request whose body is to be JSON.
pub open spec fn seen_body(got: Got<String>) -> Got<JsonView> {
    match got {
        Got::Unreachable => Got::Unreachable,
        Got::Refused(status) => Got::Refused(status),
        Got::Unreadable => Got::Unreadable,
        Got::Body(text) => match parsed_json(text@) {
            Ok(json) => Got::Body(json),
            Err(_) => Got::Unreadable,
        },
    }
}

/// What came of a request whose body is JSON.
pub open spec fn seen_got(got: Got<Json>) -> Got<JsonView> {
    match got {
        Got::Unreachable => Got::Unreachable,
        Got::Refused(status) => Got::Refused(status),
        Got::Unreadable => Got::Unreadable,
        Got::Body(json) => Got::Body(json@),
    }
}

/// Reads the body of a reply as JSON.
pub fn read_body(got: Got<String>) -> (r: Got<Json>)
    ensures
        seen_got(r) == seen_body(got),
{
    match got {
        Got::Unreachable => Got::Unreachable,
        Got::Refused(status) => Got::Refused(status),
        Got::Unreadable => Got::Unreadable,
        Got::Body(text) => match parse_json(text.as_str()) {
            Ok(json) => Got::Body(json),
            Err(_) => Got::Unreadable,
        },
    }
}

/// Whether a status code stands for success.
pub fn is_success(status: u16) -> (r: bool)
    ensures
        r == (200 <= status <= 299),
{
    200 <= status && status <= 299
}

/// Readings at a point in time, powers in kW.
#[derive(Clone, Copy, Debug, PartialEq, Eq, Structural)]
pub struct HistorySample {
    pub ts_ms: i64,
    pub soc: Double,
    pub pv_kw: Double,
    pub load_kw: Double,
    pub grid_kw: Double,
    pub battery_kw: Double,
}

/// Readings as the status file has them, powers in W.
#[derive(Clone, Copy, Debug, PartialEq, Eq, Structural)]
pub struct StatusDataPoint {
    pub time: i64,
    pub battery_soc: Double,
    pub pv: Double,
    pub consumption: Double,
    pub grid: Double,
    pub battery_power: Double,
}

/// Readings as the live source has them, powers in kW; the battery is discharged where
/// `batteryuse` is positive.
#[derive(Clone, Copy, Debug, PartialEq, Eq, Structural)]
pub struct LiveStatusPayload {
    pub soc: Double,
    pub pv: Double,
    pub consumption: Double,
    pub grid: Double,
    pub batteryuse: Double,
}

/// A status file: an array of readings of which the last is current.
#[derive(Debug)]
pub struct LegacySource {
    pub url: String,
}

/// The monitoring service of SolarEdge.
#[derive(Debug)]
pub struct SolarEdgeSource {
    pub api_url: String,
    pub api_key: String,
    pub site_id: String,
}

/// A source of current readings, without history.
#[derive(Debug)]
pub struct LiveSource {
    pub url: String,
}

/// The sources in use and the readings of the last day.
#[derive(Debug)]
pub struct DataSources {
    pub legacy: Option<LegacySource>,
    pub huawei: Option<HuaweiSource>,
    pub solaredge: Option<SolarEdgeSource>,
    pub live: Option<LiveSource>,
    pub history: VecDeque<HistorySample>,
}

/// What the sources that were asked have returned.
#[derive(Debug)]
pub struct Fetched {
    pub legacy: Option<Result<SystemStatus, String>>,
    pub huawei: Option<Result<SystemStatus, String>>,
    pub solaredge: Option<Result<SystemStatus, String>>,
    pub live: Option<Result<SystemStatus, String>>,
}

/// The contents of what a source returned.
pub open spec fn seen_result(r: Result<SystemStatus, String>) -> Result<StatusView, Seq<char>> {
    match r {
        Ok(s) => Ok(s@),
        Err(e) => Err(e@),
    }
}

/// A source was asked and returned readings.
pub open spec fn delivered(r: Option<Result<SystemStatus, String>>) -> bool {
    r matches Some(Ok(_))
}

/// The readings of a source that returned some.
pub open spec fn readings(r: Option<Result<SystemStatus, String>>) -> StatusView {
    match r {
        Some(Ok(s)) => s@,
        _ => blank_status(),
    }
}

/// A number in thousands.
pub open spec fn thousandth(x: Double) -> Double {
    quotient(x, of_int(1000))
}

/// A column of a status file, as a history.
pub open spec fn column(
    points: Seq<StatusDataPoint>,
    pick: spec_fn(StatusDataPoint) -> Double,
) -> Seq<(i64, Double)> {
    points.map_values(|p: StatusDataPoint| (p.time, pick(p)))
}

/// What a status file says.
pub open spec fn legacy_status(points: Seq<StatusDataPoint>) -> StatusView {
    let current = points.last();
    StatusView {
        soc: saturated(current.battery_soc, whole(current.battery_soc), 255) as u8,
        pv_power: thousandth(current.pv),
        load_power: thousandth(current.consumption),
        grid_power: thousandth(current.grid),
        battery_power: thousandth(current.battery_power),
        soc_histogram: column(points, |p: StatusDataPoint| p.battery_soc),
        pv_histogram: column(points, |p: StatusDataPoint| thousandth(p.pv)),
        load_histogram: column(points, |p: StatusDataPoint| thousandth(p.consumption)),
        grid_histogram: column(points, |p: StatusDataPoint| thousandth(p.grid)),
        battuse_histogram: column(points, |p: StatusDataPoint| thousandth(p.battery_power)),
    }
}

impl LegacySource {
    /// What a reply of the source amounts to.
    pub open spec fn result(&self, got: Got<Vec<StatusDataPoint>>) -> Result<
        StatusView,
        Seq<char>,
    > {
        match got {
            Got::Unreachable => Err("Failed to connect to status URL: "@ + self.url@),
            Got::Refused(status) => Err("Status URL returned "@ + status@),
            Got::Unreadable => Err("Failed to parse status JSON"@),
            Got::Body(points) => if points@.len() == 0 {
                Err("Status URL returned an empty array"@)
            } else {
                Ok(legacy_status(points@))
            },
        }
    }

    /// Reads a reply of the source.
    pub fn fetch(&self, got: &Got<Vec<StatusDataPoint>>) -> (r: Result<SystemStatus, String>)
        ensures
            seen_result(r) == self.result(*got),
            r is Ok <==> (got matches Got::Body(points) && points@.len() > 0),
            r matches Ok(s) ==> {
                &&& s.pv_histogram@.last().1 == s.pv_power
                &&& s.load_histogram@.last().1 == s.load_power
                &&& s.grid_histogram@.last().1 == s.grid_power
                &&& s.battuse_histogram@.last().1 == s.battery_power
            },
    {
        let points: &Vec<StatusDataPoint> = match got {
            Got::Unreachable => {
                return Err(
                    "Failed to connect to status URL: ".to_owned().concat(self.url.as_str()),
                );
            },
            Got::Refused(status) => {
                return Err("Status URL returned ".to_owned().concat(status.as_str()));
            },
            Got::Unreadable => {
                return Err("Failed to parse status JSON".to_owned());
            },
            Got::Body(points) => points,
        };
        if points.len() == 0 {
            return Err("Status URL returned an empty array".to_owned());
        }
        let ghost expected = legacy_status(points@);
        let thousand: Double = Double::of_u64(1000);
        let mut soc_histogram: Vec<(i64, Double)> = Vec::new();
        let mut pv_histogram: Vec<(i64, Double)> = Vec::new();
        let mut load_histogram: Vec<(i64, Double)> = Vec::new();
        let mut grid_histogram: Vec<(i64, Double)> = Vec::new();
        let mut battuse_histogram: Vec<(i64, Double)> = Vec::new();
        let mut i: usize = 0;
        while i < points.len()
            invariant
                i <= points.len(),
                expected == legacy_status(points@),
                thousand == of_int(1000),
                soc_histogram@ == expected.soc_histogram.take(i as int),
                pv_histogram@ == expected.pv_histogram.take(i as int),
                load_histogram@ == expected.load_histogram.take(i as int),
                grid_histogram@ == expected.grid_histogram.take(i as int),
                battuse_histogram@ == expected.battuse_histogram.take(i as int),
            decreases points.len() - i,
        {
            let p: StatusDataPoint = points[i];
            soc_histogram.push((p.time, p.battery_soc));
            pv_histogram.push((p.time, p.pv.over(thousand)));
            load_histogram.push((p.time, p.consumption.over(thousand)));
            grid_histogram.push((p.time, p.grid.over(thousand)));
            battuse_histogram.push((p.time, p.battery_power.over(thousand)));
            i = i + 1;
        }
        let current: StatusDataPoint = points[points.len() - 1];
        let status: SystemStatus = SystemStatus {
            soc: current.battery_soc.truncated_u8(),
            pv_power: current.pv.over(thousand),
            load_power: current.consumption.over(thousand),
            grid_power: current.grid.over(thousand),
            battery_power: current.battery_power.over(thousand),
            soc_histogram,
            pv_histogram,
            load_histogram,
            grid_histogram,
            battuse_histogram,
        };
        assert(status@ =~= expected);
        Ok(status)
    }
}

/// What the live source says: its readings, with the battery's power counted as charging.
pub open spec fn live_status(p: LiveStatusPayload) -> StatusView {
    reading(
        saturated(p.soc, rounded_half_up(p.soc), 100) as u8,
        p.pv,
        p.consumption,
        p.grid,
        opposite(p.batteryuse),
    )
}

impl LiveSource {
    /// What a reply of the source amounts to.
    pub open spec fn result(&self, got: Got<LiveStatusPayload>) -> Result<StatusView, Seq<char>> {
        match got {
            Got::Unreachable => Err("Failed to connect to live status URL: "@ + self.url@),
            Got::Refused(status) => Err("Live status URL returned "@ + status@),
            Got::Unreadable => Err("Failed to parse live status JSON"@),
            Got::Body(p) => Ok(live_status(p)),
        }
    }

    /// Reads a reply of the source.
    pub fn fetch(&self, got: &Got<LiveStatusPayload>) -> (r: Result<SystemStatus, String>)
        ensures
            seen_result(r) == self.result(*got),
    {
        match got {
            Got::Unreachable => Err(
                "Failed to connect to live status URL: ".to_owned().concat(self.url.as_str()),
            ),
            Got::Refused(status) => Err(
                "Live status URL returned ".to_owned().concat(status.as_str()),
            ),
            Got::Unreadable => Err("Failed to parse live status JSON".to_owned()),
            Got::Body(p) => Ok(
                SystemStatus::from_readings(
                    p.soc.percent(),
                    p.pv,
                    p.consumption,
                    p.grid,
                    p.batteryuse.negated(),
                ),
            ),
        }
    }
}

/// A power in kW that is given in the named unit.
pub open spec fn in_kw(unit: Seq<char>, power: Double) -> Double {
    if same_letters(unit, "W"@) {
        thousandth(power)
    } else if same_letters(unit, "MW"@) {
        product(power, of_int(1000))
    } else {
        power
    }
}

/// The unit that a power flow is given in.
pub open spec fn unit_of(flow: JsonView) -> Seq<char> {
    match text_of(flow.field("unit"@)) {
        Some(u) => u,
        None => "kW"@,
    }
}

/// The power at a point of a power flow, in kW.
pub open spec fn flow_power(flow: JsonView, point: Seq<char>) -> Double {
    match double_of(field_of(flow.field(point), "currentPower"@)) {
        Some(p) => in_kw(unit_of(flow), p),
        None => with_sign(false, 0),
    }
}

/// The end of a connection is the grid.
pub open spec fn is_grid(connection: JsonView, end: Seq<char>) -> bool {
    match text_of(connection.field(end)) {
        Some(name) => same_letters(name, "GRID"@),
        None => false,
    }
}

/// Some connection has the grid at the given end.
pub open spec fn has_grid(connections: Seq<JsonView>, end: Seq<char>) -> bool {
    exists|i: int| 0 <= i < connections.len() && #[trigger] is_grid(connections[i], end)
}

/// Power flows to the grid and none from it.
pub open spec fn is_exporting(flow: JsonView) -> bool {
    match items_of(flow.field("connections"@)) {
        Some(list) => has_grid(list, "to"@) && !has_grid(list, "from"@),
        None => false,
    }
}

/// What a power flow says: production and grid, where export counts as negative.
pub open spec fn flow_status(flow: JsonView) -> StatusView {
    let zero = with_sign(false, 0);
    let grid = flow_power(flow, "GRID"@);
    reading(
        0,
        flow_power(flow, "PV"@),
        zero,
        if is_exporting(flow) {
            opposite(grid)
        } else {
            grid
        },
        zero,
    )
}

fn is_grid_end(connection: &Json, end: &str) -> (r: bool)
    ensures
        r == is_grid(connection@, end@),
{
    match connection.get(end) {
        Some(j) => match j.as_str() {
            Some(name) => same_ignoring_case(name, "GRID"),
            None => false,
        },
        None => false,
    }
}

fn any_grid_end(connections: &Vec<Json>, end: &str) -> (r: bool)
    ensures
        r == has_grid(item_views(connections@), end@),
{
    let ghost all = item_views(connections@);
    let mut i: usize = 0;
    while i < connections.len()
        invariant
            i <= connections.len(),
            all == item_views(connections@),
            forall|j: int| 0 <= j < i ==> !#[trigger] is_grid(all[j], end@),
        decreases connections.len() - i,
    {
        assert(all[i as int] == connections@[i as int]@);
        if is_grid_end(&connections[i], end) {
            assert(is_grid(all[i as int], end@));
            return true;
        }
        i = i + 1;
    }
    false
}

impl SolarEdgeSource {
    /// The address of the current power flow.
    pub open spec fn address(&self) -> Seq<char> {
        without_end(self.api_url@, '/') + "/site/"@ + self.site_id@
            + "/currentPowerFlow?api_key="@ + self.api_key@
    }

    /// Writes the address of the current power flow.
    pub fn flow_url(&self) -> (r: String)
        ensures
            r@ == self.address(),
    {
        trim_end_slashes(self.api_url.as_str()).concat("/site/").concat(
            self.site_id.as_str(),
        ).concat("/currentPowerFlow?api_key=").concat(self.api_key.as_str())
    }

    /// What a reply of the source amounts to.
    pub open spec fn result(&self, got: Got<Json>) -> Result<StatusView, Seq<char>> {
        match got {
            Got::Unreachable => Err("SolarEdge currentPowerFlow request failed"@),
            Got::Refused(status) => Err("SolarEdge HTTP "@ + status@),
            Got::Unreadable => Err("SolarEdge JSON parse failed"@),
            Got::Body(json) => match json@.field("siteCurrentPowerFlow"@) {
                Some(flow) => Ok(flow_status(flow)),
                None => Err("SolarEdge response missing siteCurrentPowerFlow"@),
            },
        }
    }

    fn power_at(flow: &Json, point: &str) -> (r: Double)
        ensures
            r == flow_power(flow@, point@),
    {
        let unit: &str = match flow.get("unit") {
            Some(j) => match j.as_str() {
                Some(u) => u,
                None => "kW",
            },
            None => "kW",
        };
        match get_in(flow.get(point), "currentPower") {
            Some(j) => match j.as_f64() {
                Some(p) => if same_ignoring_case(unit, "W") {
                    p.over(Double::of_u64(1000))
                } else if same_ignoring_case(unit, "MW") {
                    p.times(Double::of_u64(1000))
                } else {
                    p
                },
                None => Double::zero(),
            },
            None => Double::zero(),
        }
    }

    /// Reads a reply of the source.
    pub fn fetch(&self, got: &Got<Json>) -> (r: Result<SystemStatus, String>)
        ensures
            seen_result(r) == self.result(*got),
    {
        let json: &Json = match got {
            Got::Unreachable => {
                return Err("SolarEdge currentPowerFlow request failed".to_owned());
            },
            Got::Refused(status) => {
                return Err("SolarEdge HTTP ".to_owned().concat(status.as_str()));
            },
            Got::Unreadable => {
                return Err("SolarEdge JSON parse failed".to_owned());
            },
            Got::Body(json) => json,
        };
        let flow: &Json = match json.get("siteCurrentPowerFlow") {
            Some(f) => f,
            None => {
                return Err("SolarEdge response missing siteCurrentPowerFlow".to_owned());
            },
        };
        let pv: Double = SolarEdgeSource::power_at(flow, "PV");
        let grid: Double = SolarEdgeSource::power_at(flow, "GRID");
        let exporting: bool = match flow.get("connections") {
            Some(j) => match j.as_array() {
                Some(list) => any_grid_end(list, "to") && !any_grid_end(list, "from"),
                None => false,
            },
            None => false,
        };
        let zero: Double = Double::zero();
        Ok(
            SystemStatus::from_readings(
                0,
                pv,
                zero,
                if exporting {
                    grid.negated()
                } else {
                    grid
                },
                zero,
            ),
        )
    }
}

/// A reading added to another, or in its place where there is no other.
pub open spec fn joined_power(before: Double, added: bool, power: Double) -> Double {
    if added {
        sum(before, power)
    } else {
        power
    }
}

/// A status with the readings of FusionSolar: charge, load and battery are its own, production and
/// grid are added to those of other sources.
pub open spec fn with_huawei(before: StatusView, added: bool, s: StatusView) -> StatusView {
    StatusView {
        soc: s.soc,
        load_power: s.load_power,
        battery_power: s.battery_power,
        pv_power: joined_power(before.pv_power, added, s.pv_power),
        grid_power: joined_power(before.grid_power, added, s.grid_power),
        ..before
    }
}

/// A status with the readings of SolarEdge: production and grid are added to those of other
/// sources.
pub open spec fn with_solaredge(before: StatusView, added: bool, s: StatusView) -> StatusView {
    StatusView {
        pv_power: joined_power(before.pv_power, added, s.pv_power),
        grid_power: joined_power(before.grid_power, added, s.grid_power),
        ..before
    }
}

/// A status with live readings; its history stays.
pub open spec fn with_live(before: StatusView, s: StatusView) -> StatusView {
    StatusView {
        soc: s.soc,
        pv_power: s.pv_power,
        load_power: s.load_power,
        grid_power: s.grid_power,
        battery_power: s.battery_power,
        ..before
    }
}

/// The readings of a status at a point in time.
pub open spec fn sample_of(status: StatusView, ts_ms: i64) -> HistorySample {
    HistorySample {
        ts_ms,
        soc: of_int(status.soc as int),
        pv_kw: status.pv_power,
        load_kw: status.load_power,
        grid_kw: status.grid_power,
        battery_kw: status.battery_power,
    }
}

/// The samples left once those at the front that are before `cutoff` are gone.
pub open spec fn since(history: Seq<HistorySample>, cutoff: int) -> Seq<HistorySample>
    decreases history.len(),
{
    if history.len() > 0 && history[0].ts_ms < cutoff {
        since(history.drop_first(), cutoff)
    } else {
        history
    }
}

/// The history with one sample more, reaching back a day.
pub open spec fn extended(history: Seq<HistorySample>, sample: HistorySample) -> Seq<
    HistorySample,
> {
    since(history.push(sample), sample.ts_ms - HISTORY_WINDOW_MS)
}

/// A status with the given history in place of its own.
pub open spec fn with_history(before: StatusView, history: Seq<HistorySample>) -> StatusView {
    StatusView {
        soc_histogram: history.map_values(|s: HistorySample| (s.ts_ms, s.soc)),
        pv_histogram: history.map_values(|s: HistorySample| (s.ts_ms, s.pv_kw)),
        load_histogram: history.map_values(|s: HistorySample| (s.ts_ms, s.load_kw)),
        grid_histogram: history.map_values(|s: HistorySample| (s.ts_ms, s.grid_kw)),
        battuse_histogram: history.map_values(|s: HistorySample| (s.ts_ms, s.battery_kw)),
        ..before
    }
}

impl Fetched {
    /// Some source other than the status file and the live source returned readings.
    pub open spec fn has_cloud(&self) -> bool {
        delivered(self.huawei) || delivered(self.solaredge)
    }

    /// Some source returned readings.
    pub open spec fn has_any(&self) -> bool {
        delivered(self.legacy) || self.has_cloud() || delivered(self.live)
    }

    /// The readings of all sources but the live one, added up.
    pub open spec fn added(&self) -> StatusView {
        let file = readings(self.legacy);
        let first = if delivered(self.huawei) {
            with_huawei(file, delivered(self.legacy), readings(self.huawei))
        } else {
            file
        };
        if delivered(self.solaredge) {
            with_solaredge(
                first,
                delivered(self.legacy) || delivered(self.huawei),
                readings(self.solaredge),
            )
        } else {
            first
        }
    }

    /// The history after these readings.
    pub open spec fn history_after(&self, history: Seq<HistorySample>, now: Moment) -> Seq<
        HistorySample,
    > {
        if self.has_cloud() {
            extended(history, sample_of(self.added(), now.millis() as i64))
        } else {
            history
        }
    }

    /// The status without the live source. The status file has a history of its own, which no
    /// longer fits where other readings are added.
    pub open spec fn settled(&self, history: Seq<HistorySample>, now: Moment) -> StatusView {
        if self.has_cloud() {
            with_history(self.added(), self.history_after(history, now))
        } else {
            self.added()
        }
    }

    /// The status that all sources together make.
    pub open spec fn combined(&self, history: Seq<HistorySample>, now: Moment) -> StatusView {
        if delivered(self.live) {
            with_live(self.settled(history, now), readings(self.live))
        } else {
            self.settled(history, now)
        }
    }

    /// What went wrong, source by source.
    pub open spec fn problems(&self) -> Seq<Seq<char>> {
        problem("legacy: "@, self.legacy) + problem("huawei: "@, self.huawei) + problem(
            "solaredge: "@,
            self.solaredge,
        ) + problem("live: "@, self.live)
    }

    /// Lists what went wrong.
    pub fn failures(&self) -> (r: Vec<String>)
        ensures
            views(r@) == self.problems(),
    {
        let mut r: Vec<String> = Vec::new();
        assert(views(r@) =~= Seq::<Seq<char>>::empty());
        add_failure(&mut r, "legacy: ", &self.legacy);
        add_failure(&mut r, "huawei: ", &self.huawei);
        add_failure(&mut r, "solaredge: ", &self.solaredge);
        add_failure(&mut r, "live: ", &self.live);
        assert(views(r@) =~= self.problems());
        r
    }
}

/// What went wrong with one source.
pub open spec fn problem(name: Seq<char>, r: Option<Result<SystemStatus, String>>) -> Seq<
    Seq<char>,
> {
    match r {
        Some(Err(e)) => seq![name + e@],
        _ => seq![],
    }
}

fn add_failure(list: &mut Vec<String>, name: &str, r: &Option<Result<SystemStatus, String>>)
    ensures
        views(final(list)@) == views(old(list)@) + problem(name@, *r),
{
    match r {
        Some(Err(e)) => {
            let ghost before = views(list@);
            list.push(name.to_owned().concat(e.as_str()));
            assert(views(list@) =~= before + seq![name@ + e@]);
        },
        _ => {
            assert(views(list@) =~= views(list@) + Seq::<Seq<char>>::empty());
        },
    }
}

fn remove_old(history: &mut VecDeque<HistorySample>, cutoff: i64)
    ensures
        final(history)@ == since(old(history)@, cutoff as int),
{
    while history.len() > 0
        invariant
            since(history@, cutoff as int) == since(old(history)@, cutoff as int),
        ensures
            history@ == since(old(history)@, cutoff as int),
        decreases history@.len(),
    {
        let front: HistorySample = history[0];
        if front.ts_ms < cutoff {
            let ghost before = history@;
            let _ = history.pop_front();
            assert(history@ == before.drop_first());
        } else {
            break;
        }
    }
}

/// Replaces the history of a status.
fn set_history(status: &mut SystemStatus, history: &VecDeque<HistorySample>)
    ensures
        final(status)@ == with_history(old(status)@, history@),
{
    let ghost expected = with_history(status@, history@);
    let mut soc_histogram: Vec<(i64, Double)> = Vec::new();
    let mut pv_histogram: Vec<(i64, Double)> = Vec::new();
    let mut load_histogram: Vec<(i64, Double)> = Vec::new();
    let mut grid_histogram: Vec<(i64, Double)> = Vec::new();
    let mut battuse_histogram: Vec<(i64, Double)> = Vec::new();
    let mut i: usize = 0;
    while i < history.len()
        invariant
            i <= history.len(),
            expected == with_history(old(status)@, history@),
            soc_histogram@ == expected.soc_histogram.take(i as int),
            pv_histogram@ == expected.pv_histogram.take(i as int),
            load_histogram@ == expected.load_histogram.take(i as int),
            grid_histogram@ == expected.grid_histogram.take(i as int),
            battuse_histogram@ == expected.battuse_histogram.take(i as int),
        decreases history.len() - i,
    {
        let s: HistorySample = history[i];
        soc_histogram.push((s.ts_ms, s.soc));
        pv_histogram.push((s.ts_ms, s.pv_kw));
        load_histogram.push((s.ts_ms, s.load_kw));
        grid_histogram.push((s.ts_ms, s.grid_kw));
        battuse_histogram.push((s.ts_ms, s.battery_kw));
        i = i + 1;
    }
    status.soc_histogram = soc_histogram;
    status.pv_histogram = pv_histogram;
    status.load_histogram = load_histogram;
    status.grid_histogram = grid_histogram;
    status.battuse_histogram = battuse_histogram;
    assert(status@ =~= expected);
}

impl DataSources {
    /// The given sources, with nothing read yet.
    pub fn new(
        legacy: Option<LegacySource>,
        huawei: Option<HuaweiSource>,
        solaredge: Option<SolarEdgeSource>,
        live: Option<LiveSource>,
    ) -> (r: DataSources)
        ensures
            r.legacy == legacy,
            r.huawei == huawei,
            r.solaredge == solaredge,
            r.live == live,
            r.history@ == Seq::<HistorySample>::empty(),
    {
        DataSources { legacy, huawei, solaredge, live, history: VecDeque::new() }
    }

    /// The sources that are switched on.
    pub fn for_config(config: &Config) -> (r: DataSources)
        ensures
            r.history@ == Seq::<HistorySample>::empty(),
            r.legacy is Some == config.use_legacy_status,
            r.legacy matches Some(s) ==> s.url@ == config.status_url@,
            r.huawei is Some == config.use_huawei,
            r.huawei matches Some(s) ==> s@ == (HuaweiView {
                api_url: config.huawei_api_url@,
                username: config.huawei_username@,
                system_code: config.huawei_system_code@,
                station_code: seen_text(config.huawei_station_code),
                invert_grid_sign: config.huawei_invert_grid_sign,
                session: None,
                devices: None,
            }),
            r.solaredge is Some == config.use_solaredge,
            r.solaredge matches Some(s) ==> s.api_url@ == config.solaredge_api_url@ && s.api_key@
                == config.solaredge_api_key@ && s.site_id@ == config.solaredge_site_id@,
            r.live is Some == config.use_live_status,
            r.live matches Some(s) ==> s.url@ == config.live_status_url@,
    {
        let legacy: Option<LegacySource> = if config.use_legacy_status {
            Some(LegacySource { url: config.status_url.as_str().to_owned() })
        } else {
            None
        };
        let huawei: Option<HuaweiSource> = if config.use_huawei {
            let station: Option<String> = match &config.huawei_station_code {
                Some(s) => Some(s.as_str().to_owned()),
                None => None,
            };
            Some(
                HuaweiSource::new(
                    config.huawei_api_url.as_str().to_owned(),
                    config.huawei_username.as_str().to_owned(),
                    config.huawei_system_code.as_str().to_owned(),
                    station,
                    config.huawei_invert_grid_sign,
                ),
            )
        } else {
            None
        };
        let solaredge: Option<SolarEdgeSource> = if config.use_solaredge {
            Some(
                SolarEdgeSource {
                    api_url: config.solaredge_api_url.as_str().to_owned(),
                    api_key: config.solaredge_api_key.as_str().to_owned(),
                    site_id: config.solaredge_site_id.as_str().to_owned(),
                },
            )
        } else {
            None
        };
        let live: Option<LiveSource> = if config.use_live_status {
            Some(LiveSource { url: config.live_status_url.as_str().to_owned() })
        } else {
            None
        };
        DataSources::new(legacy, huawei, solaredge, live)
    }

    /// Whether no source is in use.
    pub fn is_empty(&self) -> (r: bool)
        ensures
            r == (self.legacy is None && self.huawei is None && self.solaredge is None
                && self.live is None),
    {
        self.legacy.is_none() && self.huawei.is_none() && self.solaredge.is_none()
            && self.live.is_none()
    }

    /// Combines what the sources have returned, and fails where none returned readings.
    pub fn fetch_status(&mut self, fetched: Fetched, now: Moment) -> (r: Result<
        SystemStatus,
        String,
    >)
        requires
            now.valid(),
        ensures
            final(self).history@ == fetched.history_after(old(self).history@, now),
            final(self).legacy == old(self).legacy,
            final(self).huawei == old(self).huawei,
            final(self).solaredge == old(self).solaredge,
            final(self).live == old(self).live,
            match r {
                Ok(status) => fetched.has_any() && status@ == fetched.combined(
                    old(self).history@,
                    now,
                ),
                Err(e) => !fetched.has_any() && e@ == "all configured data sources failed: "@
                    + joined(fetched.problems(), "; "@),
            },
            r matches Ok(status) ==> (fetched.live matches Some(Ok(s)) ==> {
                &&& status.soc == s.soc
                &&& status.pv_power == s.pv_power
                &&& status.load_power == s.load_power
                &&& status.grid_power == s.grid_power
                &&& status.battery_power == s.battery_power
            }),
            r matches Ok(status) ==> (!delivered(fetched.live) ==> (
            fetched.huawei matches Some(Ok(s)) ==> {
                &&& status.soc == s.soc
                &&& status.load_power == s.load_power
                &&& status.battery_power == s.battery_power
            })),
    {
        let failures: Vec<String> = fetched.failures();
        let ghost before = self.history@;
        let ghost got = fetched;
        let mut have_file: bool = false;
        let mut status: SystemStatus = match fetched.legacy {
            Some(Ok(s)) => {
                have_file = true;
                s
            },
            _ => SystemStatus::default(),
        };
        let mut have_huawei: bool = false;
        match fetched.huawei {
            Some(Ok(s)) => {
                status.soc = s.soc;
                status.load_power = s.load_power;
                status.battery_power = s.battery_power;
                if have_file {
                    status.pv_power = status.pv_power.plus(s.pv_power);
                    status.grid_power = status.grid_power.plus(s.grid_power);
                } else {
                    status.pv_power = s.pv_power;
                    status.grid_power = s.grid_power;
                }
                have_huawei = true;
            },
            _ => {},
        }
        let mut have_solaredge: bool = false;
        match fetched.solaredge {
            Some(Ok(s)) => {
                if have_file || have_huawei {
                    status.pv_power = status.pv_power.plus(s.pv_power);
                    status.grid_power = status.grid_power.plus(s.grid_power);
                } else {
                    status.pv_power = s.pv_power;
                    status.grid_power = s.grid_power;
                }
                have_solaredge = true;
            },
            _ => {},
        }
        assert(status@ == got.added());
        if have_huawei || have_solaredge {
            let ts_ms: i64 = now.to_millis();
            self.history.push_back(
                HistorySample {
                    ts_ms,
                    soc: Double::of_u64(status.soc as u64),
                    pv_kw: status.pv_power,
                    load_kw: status.load_power,
                    grid_kw: status.grid_power,
                    battery_kw: status.battery_power,
                },
            );
            remove_old(&mut self.history, ts_ms - HISTORY_WINDOW_MS);
            set_history(&mut status, &self.history);
        }
        assert(self.history@ == got.history_after(before, now));
        assert(status@ == got.settled(before, now));
        let mut have_live: bool = false;
        match fetched.live {
            Some(Ok(s)) => {
                status.soc = s.soc;
                status.pv_power = s.pv_power;
                status.load_power = s.load_power;
                status.grid_power = s.grid_power;
                status.battery_power = s.battery_power;
                have_live = true;
            },
            _ => {},
        }
        if !have_file && !have_huawei && !have_solaredge && !have_live {
            return Err(
                "all configured data sources failed: ".to_owned().concat(
                    join(&failures, "; ").as_str(),
                ),
            );
        }
        Ok(status)
    }
}

/// The samples are in the order of time.
pub open spec fn chronological(history: Seq<HistorySample>) -> bool {
    forall|i: int, j: int| 0 <= i <= j < history.len() ==> history[i].ts_ms <= history[j].ts_ms
}

proof fn lemma_since(history: Seq<HistorySample>, cutoff: int)
    requires
        chronological(history),
        history.len() > 0,
        history.last().ts_ms >= cutoff,
    ensures
        chronological(since(history, cutoff)),
        since(history, cutoff).len() > 0,
        since(history, cutoff).last() == history.last(),
        forall|i: int|
            0 <= i < since(history, cutoff).len() ==> (#[trigger] since(history, cutoff)[i]).ts_ms
                >= cutoff,
        forall|x: HistorySample|
            history.contains(x) && x.ts_ms >= cutoff ==> #[trigger] since(
                history,
                cutoff,
            ).contains(x),
    decreases history.len(),
{
    if history[0].ts_ms < cutoff {
        let rest = history.drop_first();
        lemma_since(rest, cutoff);
        assert forall|x: HistorySample|
            history.contains(x) && x.ts_ms >= cutoff implies #[trigger] since(
            history,
            cutoff,
        ).contains(x) by {
            let i = choose|i: int| 0 <= i < history.len() && history[i] == x;
            assert(rest[i - 1] == x);
        }
    }
}

/// As long as time does not run backwards, the history reaches back a day: it stays in the order
/// of time, its last sample is the newest, none is older than a day, and none that is younger is
/// lost.
pub proof fn lemma_history_is_one_day(history: Seq<HistorySample>, sample: HistorySample)
    requires
        chronological(history),
        history.len() > 0 ==> history.last().ts_ms <= sample.ts_ms,
    ensures
        chronological(extended(history, sample)),
        extended(history, sample).len() > 0,
        extended(history, sample).last() == sample,
        forall|i: int|
            0 <= i < extended(history, sample).len() ==> sample.ts_ms - HISTORY_WINDOW_MS <= (
            #[trigger] extended(history, sample)[i]).ts_ms <= sample.ts_ms,
        forall|x: HistorySample|
            history.contains(x) && x.ts_ms >= sample.ts_ms - HISTORY_WINDOW_MS
                ==> #[trigger] extended(history, sample).contains(x),
{
    let longer = history.push(sample);
    assert(chronological(longer)) by {
        assert forall|i: int, j: int| 0 <= i <= j < longer.len() implies longer[i].ts_ms
            <= longer[j].ts_ms by {
            if j == history.len() && i < j {
                assert(history[i].ts_ms <= history[history.len() - 1].ts_ms);
            }
        }
    }
    let cutoff = sample.ts_ms - HISTORY_WINDOW_MS;
    lemma_since(longer, cutoff);
    let kept = extended(history, sample);
    assert forall|i: int| 0 <= i < kept.len() implies cutoff <= (#[trigger] kept[i]).ts_ms
        <= sample.ts_ms by {
        assert(kept[i].ts_ms <= kept[kept.len() - 1].ts_ms);
    }
    assert forall|x: HistorySample|
        history.contains(x) && x.ts_ms >= cutoff implies #[trigger] kept.contains(x) by {
        let i = choose|i: int| 0 <= i < history.len() && history[i] == x;
        assert(longer[i] == x);
    }
}

/// The live source replaces the current readings and nothing of the history.
pub proof fn lemma_live_keeps_history(
    fetched: Fetched,
    history: Seq<HistorySample>,
    now: Moment,
)
    requires
        delivered(fetched.live),
    ensures
        fetched.combined(history, now) == with_live(
            fetched.settled(history, now),
            readings(fetched.live),
        ),
        fetched.combined(history, now).soc_histogram == fetched.settled(history, now).soc_histogram,
        fetched.combined(history, now).pv_histogram == fetched.settled(history, now).pv_histogram,
        fetched.combined(history, now).load_histogram == fetched.settled(
            history,
            now,
        ).load_histogram,
        fetched.combined(history, now).grid_histogram == fetched.settled(
            history,
            now,
        ).grid_histogram,
        fetched.combined(history, now).battuse_histogram == fetched.settled(
            history,
            now,
        ).battuse_histogram,
{
}

/// Some powers added up from the first.
pub open spec fn total(powers: Seq<Double>) -> Double
    decreases powers.len(),
{
    if powers.len() == 0 {
        with_sign(false, 0)
    } else if powers.len() == 1 {
        powers[0]
    } else {
        sum(total(powers.drop_last()), powers.last())
    }
}

/// A power of a source that returned readings.
pub open spec fn power_of(
    r: Option<Result<SystemStatus, String>>,
    pick: spec_fn(StatusView) -> Double,
) -> Seq<Double> {
    if delivered(r) {
        seq![pick(readings(r))]
    } else {
        seq![]
    }
}

/// A power of the sources, but for the live one, that returned readings.
pub open spec fn powers_of(fetched: Fetched, pick: spec_fn(StatusView) -> Double) -> Seq<Double> {
    power_of(fetched.legacy, pick) + power_of(fetched.huawei, pick) + power_of(
        fetched.solaredge,
        pick,
    )
}

proof fn lemma_total(a: Seq<Double>, b: Seq<Double>, c: Seq<Double>)
    requires
        a.len() <= 1,
        b.len() <= 1,
        c.len() <= 1,
    ensures
        total(a + b + c) == if c.len() == 1 {
            if a.len() == 1 || b.len() == 1 {
                sum(total(a + b), c[0])
            } else {
                c[0]
            }
        } else {
            total(a + b)
        },
        total(a + b) == if b.len() == 1 {
            if a.len() == 1 {
                sum(a[0], b[0])
            } else {
                b[0]
            }
        } else {
            total(a)
        },
{
    let ab = a + b;
    if b.len() == 1 {
        if a.len() == 1 {
            assert(ab.drop_last() =~= a);
            assert(total(a) == a[0]);
        }
    } else {
        assert(ab =~= a);
    }
    let abc = ab + c;
    if c.len() == 1 {
        if ab.len() > 0 {
            assert(abc.drop_last() =~= ab);
        }
    } else {
        assert(abc =~= ab);
    }
}

/// Production and grid power are those of all sources added up; charge, consumption and battery
/// power are those of FusionSolar, or else of the status file.
pub proof fn lemma_sources_are_added(fetched: Fetched, history: Seq<HistorySample>, now: Moment)
    ensures
        fetched.settled(history, now).pv_power == total(
            powers_of(fetched, |s: StatusView| s.pv_power),
        ),
        fetched.settled(history, now).grid_power == total(
            powers_of(fetched, |s: StatusView| s.grid_power),
        ),
        ({
            let main = if delivered(fetched.huawei) {
                readings(fetched.huawei)
            } else {
                readings(fetched.legacy)
            };
            let settled = fetched.settled(history, now);
            &&& settled.soc == main.soc
            &&& settled.load_power == main.load_power
            &&& settled.battery_power == main.battery_power
        }),
{
    let pv = |s: StatusView| s.pv_power;
    let grid = |s: StatusView| s.grid_power;
    lemma_total(
        power_of(fetched.legacy, pv),
        power_of(fetched.huawei, pv),
        power_of(fetched.solaredge, pv),
    );
    lemma_total(
        power_of(fetched.legacy, grid),
        power_of(fetched.huawei, grid),
        power_of(fetched.solaredge, grid),
    );
}

/// Each source that was asked and failed is named with what went wrong, and there is one text for
/// each.
pub proof fn lemma_failures_are_named(fetched: Fetched)
    ensures
        fetched.legacy matches Some(Err(e)) ==> fetched.problems().contains("legacy: "@ + e@),
        fetched.huawei matches Some(Err(e)) ==> fetched.problems().contains("huawei: "@ + e@),
        fetched.solaredge matches Some(Err(e)) ==> fetched.problems().contains(
            "solaredge: "@ + e@,
        ),
        fetched.live matches Some(Err(e)) ==> fetched.problems().contains("live: "@ + e@),
        fetched.problems().len() <= 4,
{
    let a = problem("legacy: "@, fetched.legacy);
    let b = problem("huawei: "@, fetched.huawei);
    let c = problem("solaredge: "@, fetched.solaredge);
    let d = problem("live: "@, fetched.live);
    let all = fetched.problems();
    let n = a.len() as int;
    let m = n + b.len() as int;
    let k = m + c.len() as int;
    if fetched.legacy matches Some(Err(_)) {
        assert(all[0] == a[0]);
    }
    if fetched.huawei matches Some(Err(_)) {
        assert(all[n] == b[0]);
    }
    if fetched.solaredge matches Some(Err(_)) {
        assert(all[m] == c[0]);
    }
    if fetched.live matches Some(Err(_)) {
        assert(all[k] == d[0]);
    }
}

} // verus!
