//! The documents that the tools return: live readings, history, prices, forecasts and decisions.

use vstd::arithmetic::power2::{lemma_pow2_pos, pow2};
use vstd::prelude::*;
use vstd::string::*;

use crate::analysis::CompressorState;
use crate::bounds::{lemma_of_int_exact, lemma_whole};
use crate::double::{of_int, saturated_signed, whole, Double};
use crate::json::{
    field_of, float_view, items_of, lemma_find_at, no_fields, no_items, signed_number, Fields,
    Items, Json, JsonNumber, JsonView,
};
use crate::moment::{iso_from_millis, iso_from_seconds, milli_label, second_label};
use crate::prices::{in_calendar_times, PriceInfo};
use crate::series::{downsample, downsampled, lemma_downsampled_len};
use crate::state::{AppState, StateView};
use crate::status::{StatusView, SystemStatus};
use crate::text::{join, joined, same, views};

verus! {

pub const SOC_KEY: &'static str = "battery_state_of_charge_percent";

pub const PV_KEY: &'static str = "solar_pv_production_kw";

pub const LOAD_KEY: &'static str = "household_consumption_load_kw";

pub const GRID_KEY: &'static str = "grid_power_kw";

pub const BATTERY_KEY: &'static str = "battery_power_kw";

pub const SOC_DESCRIPTION: &'static str = "Battery state of charge (0-100%).";

pub const PV_DESCRIPTION: &'static str = "Instantaneous photovoltaic (solar) production power.";

pub const LOAD_DESCRIPTION: &'static str = "Instantaneous household electrical consumption (load).";

pub const GRID_DESCRIPTION: &'static str = "Instantaneous grid power. Positive = importing from the grid, negative = exporting to the grid.";

pub const BATTERY_DESCRIPTION: &'static str = "Instantaneous battery power. Positive = discharging (supplying the house), negative = charging.";

pub const HISTORY_WINDOW: &'static str = "rolling 24 hours, oldest sample first";

pub const BLOCK_KEY: &'static str = "heatpump_block_threshold_euro_cents_per_kwh";

pub const LOW_KEY: &'static str = "battery_low_price_charge_threshold_euro_cents_per_kwh";

pub const SPIKE_KEY: &'static str = "battery_spike_threshold_euro_cents_per_kwh";

pub const BLOCK_MEANING: &'static str = "At or above this price the heat-pump compressor is eligible to be blocked.";

pub const LOW_MEANING: &'static str = "At or below this price the battery is eligible for force-charging.";

pub const SPIKE_MEANING: &'static str = "A future price above this is treated as a major spike worth pre-charging for.";

pub const DECISION_MEANING: &'static str = "'Allowed' = compressor may run; 'Blocked' = compressor is being inhibited because the current price is in an expensive percentile.";

/// The code of an error in the parameters of a call.
pub const INVALID_PARAMS: i64 = -32602;

/// One channel of the history, with its unit and meaning as clients read them.
#[derive(Clone, Copy, Debug)]
pub struct HistoryMetric {
    pub key: &'static str,
    pub unit: &'static str,
    pub description: &'static str,
}

/// The contents of a channel's description.
pub struct MetricView {
    pub key: Seq<char>,
    pub unit: Seq<char>,
    pub description: Seq<char>,
}

impl View for HistoryMetric {
    type V = MetricView;

    open spec fn view(&self) -> MetricView {
        MetricView { key: self.key@, unit: self.unit@, description: self.description@ }
    }
}

/// An error that a call is answered with.
#[derive(Debug)]
pub struct RpcError {
    pub code: i64,
    pub message: String,
}

/// The contents of an error.
pub struct ErrorView {
    pub code: i64,
    pub message: Seq<char>,
}

impl View for RpcError {
    type V = ErrorView;

    open spec fn view(&self) -> ErrorView {
        ErrorView { code: self.code, message: self.message@ }
    }
}

/// The channels of the history.
pub open spec fn metrics() -> Seq<MetricView> {
    seq![
        MetricView { key: SOC_KEY@, unit: "percent"@, description: SOC_DESCRIPTION@ },
        MetricView { key: PV_KEY@, unit: "kW"@, description: PV_DESCRIPTION@ },
        MetricView { key: LOAD_KEY@, unit: "kW"@, description: LOAD_DESCRIPTION@ },
        MetricView { key: GRID_KEY@, unit: "kW"@, description: GRID_DESCRIPTION@ },
        MetricView { key: BATTERY_KEY@, unit: "kW"@, description: BATTERY_DESCRIPTION@ },
    ]
}

/// The names of the channels.
pub open spec fn metric_keys() -> Seq<Seq<char>> {
    seq![SOC_KEY@, PV_KEY@, LOAD_KEY@, GRID_KEY@, BATTERY_KEY@]
}

/// The first channel at or after position `i` that has the given name.
pub open spec fn find_metric(list: Seq<MetricView>, key: Seq<char>, i: int) -> Option<MetricView>
    decreases list.len() - i,
{
    if i < 0 || i >= list.len() {
        None
    } else if list[i].key == key {
        Some(list[i])
    } else {
        find_metric(list, key, i + 1)
    }
}

/// The channel of the given name.
pub open spec fn metric_of(key: Seq<char>) -> Option<MetricView> {
    find_metric(metrics(), key, 0)
}

/// The name is that of a channel.
pub open spec fn is_channel(key: Seq<char>) -> bool {
    ||| key == "battery_state_of_charge_percent"@
    ||| key == "solar_pv_production_kw"@
    ||| key == "household_consumption_load_kw"@
    ||| key == "grid_power_kw"@
    ||| key == "battery_power_kw"@
}

/// The history of a channel.
pub open spec fn series_of(status: StatusView, key: Seq<char>) -> Option<Seq<(i64, Double)>> {
    if key == SOC_KEY@ {
        Some(status.soc_histogram)
    } else if key == PV_KEY@ {
        Some(status.pv_histogram)
    } else if key == LOAD_KEY@ {
        Some(status.load_histogram)
    } else if key == GRID_KEY@ {
        Some(status.grid_histogram)
    } else if key == BATTERY_KEY@ {
        Some(status.battuse_histogram)
    } else {
        None
    }
}

/// The channels of the history.
pub fn history_metrics() -> (r: Vec<HistoryMetric>)
    ensures
        r@.map_values(|m: HistoryMetric| m@) == metrics(),
{
    let mut r: Vec<HistoryMetric> = Vec::new();
    r.push(HistoryMetric { key: SOC_KEY, unit: "percent", description: SOC_DESCRIPTION });
    r.push(HistoryMetric { key: PV_KEY, unit: "kW", description: PV_DESCRIPTION });
    r.push(HistoryMetric { key: LOAD_KEY, unit: "kW", description: LOAD_DESCRIPTION });
    r.push(HistoryMetric { key: GRID_KEY, unit: "kW", description: GRID_DESCRIPTION });
    r.push(HistoryMetric { key: BATTERY_KEY, unit: "kW", description: BATTERY_DESCRIPTION });
    assert(r@.map_values(|m: HistoryMetric| m@) =~= metrics());
    r
}

/// Finds a channel by name.
pub fn metric_meta(key: &str) -> (r: Option<HistoryMetric>)
    ensures
        metric_of(key@) == (match r {
            Some(m) => Some(m@),
            None => None,
        }),
{
    let list: Vec<HistoryMetric> = history_metrics();
    let mut i: usize = 0;
    while i < list.len()
        invariant
            i <= list.len(),
            list@.map_values(|m: HistoryMetric| m@) == metrics(),
            metric_of(key@) == find_metric(metrics(), key@, i as int),
        decreases list.len() - i,
    {
        assert(metrics()[i as int] == list@[i as int]@);
        if same(list[i].key, key) {
            return Some(list[i]);
        }
        i = i + 1;
    }
    assert(list@.len() == metrics().len());
    None
}

/// Finds the history of a channel.
pub fn history_series<'a>(status: &'a SystemStatus, key: &str) -> (r: Option<
    &'a Vec<(i64, Double)>,
>)
    ensures
        series_of(status@, key@) == (match r {
            Some(list) => Some(list@),
            None => None,
        }),
        key@ == "battery_state_of_charge_percent"@ ==> r == Some(&status.soc_histogram),
        key@ == "solar_pv_production_kw"@ ==> r == Some(&status.pv_histogram),
        key@ == "household_consumption_load_kw"@ ==> r == Some(&status.load_histogram),
        key@ == "grid_power_kw"@ ==> r == Some(&status.grid_histogram),
        key@ == "battery_power_kw"@ ==> r == Some(&status.battuse_histogram),
        r is Some ==> is_channel(key@),
{
    proof {
        lemma_names();
    }
    if same(key, SOC_KEY) {
        Some(&status.soc_histogram)
    } else if same(key, PV_KEY) {
        Some(&status.pv_histogram)
    } else if same(key, LOAD_KEY) {
        Some(&status.load_histogram)
    } else if same(key, GRID_KEY) {
        Some(&status.grid_histogram)
    } else if same(key, BATTERY_KEY) {
        Some(&status.battuse_histogram)
    } else {
        None
    }
}

/// Every channel has a history, and nothing else has.
pub proof fn lemma_channels_have_history(status: StatusView, key: Seq<char>)
    ensures
        metric_of(key) is Some <==> series_of(status, key) is Some,
        metric_of(key) matches Some(m) ==> m.key == key,
        metric_of(key) is Some <==> is_channel(key),
{
    reveal_with_fuel(find_metric, 6);
    lemma_names();
}

/// The charge is given in percent and powers are given in kW, and each channel has its own history
/// and meaning.
pub proof fn lemma_channels(status: StatusView)
    ensures
        metric_of("battery_state_of_charge_percent"@) == Some(
            MetricView {
                key: "battery_state_of_charge_percent"@,
                unit: "percent"@,
                description: "Battery state of charge (0-100%)."@,
            },
        ),
        metric_of("solar_pv_production_kw"@) == Some(
            MetricView {
                key: "solar_pv_production_kw"@,
                unit: "kW"@,
                description: "Instantaneous photovoltaic (solar) production power."@,
            },
        ),
        metric_of("household_consumption_load_kw"@) == Some(
            MetricView {
                key: "household_consumption_load_kw"@,
                unit: "kW"@,
                description: "Instantaneous household electrical consumption (load)."@,
            },
        ),
        metric_of("grid_power_kw"@) == Some(
            MetricView {
                key: "grid_power_kw"@,
                unit: "kW"@,
                description: "Instantaneous grid power. Positive = importing from the grid, negative = exporting to the grid."@,
            },
        ),
        metric_of("battery_power_kw"@) == Some(
            MetricView {
                key: "battery_power_kw"@,
                unit: "kW"@,
                description: "Instantaneous battery power. Positive = discharging (supplying the house), negative = charging."@,
            },
        ),
        series_of(status, "battery_state_of_charge_percent"@) == Some(status.soc_histogram),
        series_of(status, "solar_pv_production_kw"@) == Some(status.pv_histogram),
        series_of(status, "household_consumption_load_kw"@) == Some(status.load_histogram),
        series_of(status, "grid_power_kw"@) == Some(status.grid_histogram),
        series_of(status, "battery_power_kw"@) == Some(status.battuse_histogram),
{
    reveal_with_fuel(find_metric, 6);
    lemma_names();
}

/// The live readings.
pub open spec fn status_document(s: StatusView) -> JsonView {
    JsonView::Object(
        no_fields().push(
            (SOC_KEY@, JsonView::Number(JsonNumber::Unsigned(s.soc as u64))),
        ).push(
            (PV_KEY@, float_view(s.pv_power)),
        ).push(
            (LOAD_KEY@, float_view(s.load_power)),
        ).push(
            (GRID_KEY@, float_view(s.grid_power)),
        ).push(
            (BATTERY_KEY@, float_view(s.battery_power)),
        ).push(
            (
                "field_descriptions"@,
                JsonView::Object(
                    no_fields().push(
                        (SOC_KEY@, JsonView::Text("Battery charge level, 0-100%."@)),
                    ).push(
                        (PV_KEY@, JsonView::Text("Solar PV production power in kW."@)),
                    ).push(
                        (LOAD_KEY@, JsonView::Text("Household consumption (load) in kW."@)),
                    ).push(
                        (
                            GRID_KEY@,
                            JsonView::Text(
                                "Grid power in kW; positive = importing, negative = exporting."@,
                            ),
                        ),
                    ).push(
                        (
                            BATTERY_KEY@,
                            JsonView::Text(
                                "Battery power in kW; positive = discharging, negative = charging."@,
                            ),
                        ),
                    ),
                ),
            ),
        ),
    )
}

/// The live readings.
pub fn current_status_json(state: &AppState) -> (r: Json)
    ensures
        r@ == status_document(state@.system_status),
        r@.field("battery_state_of_charge_percent"@) == Some(
            JsonView::Number(JsonNumber::Unsigned(state.system_status.soc as u64)),
        ),
        r@.field("solar_pv_production_kw"@) == Some(float_view(state.system_status.pv_power)),
        r@.field("household_consumption_load_kw"@) == Some(
            float_view(state.system_status.load_power),
        ),
        r@.field("grid_power_kw"@) == Some(float_view(state.system_status.grid_power)),
        r@.field("battery_power_kw"@) == Some(float_view(state.system_status.battery_power)),
{
    proof {
        lemma_status_fields(state@.system_status);
    }
    let s: &SystemStatus = &state.system_status;
    let descriptions: Json = Fields::new().with(
        SOC_KEY,
        Json::text("Battery charge level, 0-100%."),
    ).with(PV_KEY, Json::text("Solar PV production power in kW.")).with(
        LOAD_KEY,
        Json::text("Household consumption (load) in kW."),
    ).with(
        GRID_KEY,
        Json::text("Grid power in kW; positive = importing, negative = exporting."),
    ).with(
        BATTERY_KEY,
        Json::text("Battery power in kW; positive = discharging, negative = charging."),
    ).done();
    Fields::new().with(SOC_KEY, Json::unsigned(s.soc as u64)).with(
        PV_KEY,
        Json::double(s.pv_power),
    ).with(LOAD_KEY, Json::double(s.load_power)).with(GRID_KEY, Json::double(s.grid_power)).with(
        BATTERY_KEY,
        Json::double(s.battery_power),
    ).with("field_descriptions", descriptions).done()
}

/// The names of the channels differ from each other, and from the name of their explanations.
proof fn lemma_names()
    ensures
        SOC_KEY@ == "battery_state_of_charge_percent"@,
        PV_KEY@ == "solar_pv_production_kw"@,
        LOAD_KEY@ == "household_consumption_load_kw"@,
        GRID_KEY@ == "grid_power_kw"@,
        BATTERY_KEY@ == "battery_power_kw"@,
        SOC_KEY@.len() == 31,
        PV_KEY@.len() == 22,
        LOAD_KEY@.len() == 29,
        GRID_KEY@.len() == 13,
        BATTERY_KEY@.len() == 16,
        "field_descriptions"@.len() == 18,
{
    reveal_strlit("battery_state_of_charge_percent");
    reveal_strlit("solar_pv_production_kw");
    reveal_strlit("household_consumption_load_kw");
    reveal_strlit("grid_power_kw");
    reveal_strlit("battery_power_kw");
    reveal_strlit("field_descriptions");
}

/// The live readings are found by name, and each name is explained.
pub proof fn lemma_status_fields(s: StatusView)
    ensures
        status_document(s).field("battery_state_of_charge_percent"@) == Some(
            JsonView::Number(JsonNumber::Unsigned(s.soc as u64)),
        ),
        status_document(s).field("solar_pv_production_kw"@) == Some(float_view(s.pv_power)),
        status_document(s).field("household_consumption_load_kw"@) == Some(
            float_view(s.load_power),
        ),
        status_document(s).field("grid_power_kw"@) == Some(float_view(s.grid_power)),
        status_document(s).field("battery_power_kw"@) == Some(float_view(s.battery_power)),
        ({
            let about = status_document(s).field("field_descriptions"@);
            &&& field_of(about, "battery_state_of_charge_percent"@) == Some(
                JsonView::Text("Battery charge level, 0-100%."@),
            )
            &&& field_of(about, "solar_pv_production_kw"@) == Some(
                JsonView::Text("Solar PV production power in kW."@),
            )
            &&& field_of(about, "household_consumption_load_kw"@) == Some(
                JsonView::Text("Household consumption (load) in kW."@),
            )
            &&& field_of(about, "grid_power_kw"@) == Some(
                JsonView::Text("Grid power in kW; positive = importing, negative = exporting."@),
            )
            &&& field_of(about, "battery_power_kw"@) == Some(
                JsonView::Text(
                    "Battery power in kW; positive = discharging, negative = charging."@,
                ),
            )
        }),
{
    lemma_names();
    let fields = status_document(s)->Object_0;
    lemma_find_at(fields, SOC_KEY@, 0, 0);
    lemma_find_at(fields, PV_KEY@, 0, 1);
    lemma_find_at(fields, LOAD_KEY@, 0, 2);
    lemma_find_at(fields, GRID_KEY@, 0, 3);
    lemma_find_at(fields, BATTERY_KEY@, 0, 4);
    lemma_find_at(fields, "field_descriptions"@, 0, 5);
    let about = fields[5].1->Object_0;
    lemma_find_at(about, SOC_KEY@, 0, 0);
    lemma_find_at(about, PV_KEY@, 0, 1);
    lemma_find_at(about, LOAD_KEY@, 0, 2);
    lemma_find_at(about, GRID_KEY@, 0, 3);
    lemma_find_at(about, BATTERY_KEY@, 0, 4);
}

/// A sample of the history.
pub open spec fn sample_document(point: (i64, Double)) -> JsonView {
    JsonView::Object(
        no_fields().push(
            ("timestamp_utc"@, JsonView::Text(milli_label(point.0 as int))),
        ).push(
            ("timestamp_unix_ms"@, JsonView::Number(signed_number(point.0))),
        ).push(
            ("value"@, float_view(point.1)),
        ),
    )
}

/// A sample tells its time twice, as text and in milliseconds, and its value.
pub proof fn lemma_sample_fields(point: (i64, Double))
    ensures
        sample_document(point).field("timestamp_utc"@) == Some(
            JsonView::Text(milli_label(point.0 as int)),
        ),
        sample_document(point).field("timestamp_unix_ms"@) == Some(
            JsonView::Number(
                if point.0 >= 0 {
                    JsonNumber::Unsigned(point.0 as u64)
                } else {
                    JsonNumber::Negative(point.0)
                },
            ),
        ),
        sample_document(point).field("value"@) == Some(float_view(point.1)),
{
    reveal_strlit("timestamp_utc");
    reveal_strlit("timestamp_unix_ms");
    reveal_strlit("value");
    assert("timestamp_utc"@.len() == 13);
    assert("timestamp_unix_ms"@.len() == 17);
    assert("value"@.len() == 5);
    let fields = sample_document(point)->Object_0;
    lemma_find_at(fields, "timestamp_utc"@, 0, 0);
    lemma_find_at(fields, "timestamp_unix_ms"@, 0, 1);
    lemma_find_at(fields, "value"@, 0, 2);
}

/// The samples of a history.
pub open spec fn sample_documents(points: Seq<(i64, Double)>) -> Seq<JsonView> {
    points.map_values(|p: (i64, Double)| sample_document(p))
}

fn samples_json(points: &Vec<(i64, Double)>) -> (r: Items)
    ensures
        r@ == sample_documents(points@),
{
    let mut r: Items = Items::new();
    let mut i: usize = 0;
    while i < points.len()
        invariant
            i <= points.len(),
            r@ == sample_documents(points@).take(i as int),
        decreases points.len() - i,
    {
        let point: (i64, Double) = points[i];
        let sample: Json = Fields::new().with(
            "timestamp_utc",
            Json::text(iso_from_millis(point.0).as_str()),
        ).with("timestamp_unix_ms", Json::signed(point.0)).with(
            "value",
            Json::double(point.1),
        ).done();
        r = r.with(sample);
        assert(sample_documents(points@).take(i + 1) == sample_documents(points@).take(
            i as int,
        ).push(sample_document(point)));
        i = i + 1;
    }
    assert(sample_documents(points@).take(i as int) == sample_documents(points@));
    r
}

/// The reduced history of a channel.
pub open spec fn reduced_series(status: StatusView, key: Seq<char>) -> Seq<(i64, Double)> {
    match series_of(status, key) {
        Some(points) => downsampled(points),
        None => seq![],
    }
}

/// The history of a channel: unit, meaning and samples.
pub open spec fn metric_document(status: StatusView, metric: MetricView) -> JsonView {
    let samples = sample_documents(reduced_series(status, metric.key));
    JsonView::Object(
        no_fields().push(
            ("metric_name"@, JsonView::Text(metric.key)),
        ).push(
            ("unit"@, JsonView::Text(metric.unit)),
        ).push(
            ("description"@, JsonView::Text(metric.description)),
        ).push(
            ("sample_count"@, JsonView::Number(JsonNumber::Unsigned(samples.len() as u64))),
        ).push(
            ("samples"@, JsonView::Array(samples)),
        ),
    )
}

/// The history of a channel names the channel, its unit and its meaning, and holds as many samples
/// as it says.
pub proof fn lemma_metric_fields(status: StatusView, metric: MetricView)
    ensures
        ({
            let doc = metric_document(status, metric);
            &&& doc.field("metric_name"@) == Some(JsonView::Text(metric.key))
            &&& doc.field("unit"@) == Some(JsonView::Text(metric.unit))
            &&& doc.field("description"@) == Some(JsonView::Text(metric.description))
            &&& items_of(doc.field("samples"@)) matches Some(samples)
            &&& samples.len() <= 48
            &&& doc.field("sample_count"@) == Some(
                JsonView::Number(JsonNumber::Unsigned(samples.len() as u64)),
            )
            &&& series_of(status, metric.key) matches Some(points) ==> {
                let shown = downsampled(points);
                &&& samples.len() == shown.len()
                &&& points.len() <= 48 ==> shown == points
                &&& forall|i: int|
                    0 <= i < samples.len() ==> (#[trigger] samples[i]).field("value"@) == Some(
                        float_view(shown[i].1),
                    ) && samples[i].field("timestamp_utc"@) == Some(
                        JsonView::Text(milli_label(shown[i].0 as int)),
                    )
            }
        }),
{
    reveal_strlit("metric_name");
    reveal_strlit("unit");
    reveal_strlit("description");
    reveal_strlit("sample_count");
    reveal_strlit("samples");
    assert("metric_name"@.len() == 11);
    assert("unit"@.len() == 4);
    assert("description"@.len() == 11);
    assert("description"@[0] == 'd' && "metric_name"@[0] == 'm');
    assert("sample_count"@.len() == 12);
    assert("samples"@.len() == 7);
    let fields = metric_document(status, metric)->Object_0;
    lemma_find_at(fields, "metric_name"@, 0, 0);
    lemma_find_at(fields, "unit"@, 0, 1);
    lemma_find_at(fields, "description"@, 0, 2);
    lemma_find_at(fields, "sample_count"@, 0, 3);
    lemma_find_at(fields, "samples"@, 0, 4);
    let reduced = reduced_series(status, metric.key);
    let samples = sample_documents(reduced);
    assert(samples.len() <= 48) by {
        if series_of(status, metric.key) is Some {
            lemma_downsampled_len(series_of(status, metric.key)->0);
        }
    }
    assert forall|i: int| 0 <= i < samples.len() implies (#[trigger] samples[i]).field("value"@)
        == Some(float_view(reduced[i].1)) && samples[i].field("timestamp_utc"@) == Some(
        JsonView::Text(milli_label(reduced[i].0 as int)),
    ) by {
        lemma_sample_fields(reduced[i]);
    }
}

/// The history of a channel.
pub fn one_metric_history(state: &AppState, metric: HistoryMetric) -> (r: Json)
    ensures
        r@ == metric_document(state@.system_status, metric@),
        r@.field("metric_name"@) == Some(JsonView::Text(metric.key@)),
        r@.field("unit"@) == Some(JsonView::Text(metric.unit@)),
        r@.field("description"@) == Some(JsonView::Text(metric.description@)),
{
    proof {
        lemma_metric_fields(state@.system_status, metric@);
    }
    let reduced: Vec<(i64, Double)> = match history_series(&state.system_status, metric.key) {
        Some(points) => downsample(points),
        None => Vec::new(),
    };
    let count: u64 = reduced.len() as u64;
    let samples: Items = samples_json(&reduced);
    Fields::new().with("metric_name", Json::text(metric.key)).with(
        "unit",
        Json::text(metric.unit),
    ).with("description", Json::text(metric.description)).with(
        "sample_count",
        Json::unsigned(count),
    ).with("samples", samples.done()).done()
}

/// A history of several channels.
pub open spec fn history_document(blocks: Seq<JsonView>) -> JsonView {
    JsonView::Object(
        no_fields().push(
            ("window"@, JsonView::Text(HISTORY_WINDOW@)),
        ).push(
            ("metrics"@, JsonView::Array(blocks)),
        ),
    )
}

/// The histories of some channels.
pub open spec fn metric_documents(status: StatusView, list: Seq<MetricView>) -> Seq<JsonView> {
    list.map_values(|m: MetricView| metric_document(status, m))
}

/// The history of the channel asked for, or of all.
pub open spec fn history_of(status: StatusView, metric: Option<Seq<char>>) -> Result<
    JsonView,
    ErrorView,
> {
    match metric {
        Some(key) => match metric_of(key) {
            Some(m) => Ok(history_document(no_items().push(metric_document(status, m)))),
            None => Err(
                ErrorView {
                    code: INVALID_PARAMS,
                    message: "unknown metric_name '"@ + key + "'; valid values: "@ + joined(
                        metric_keys(),
                        ", "@,
                    ),
                },
            ),
        },
        None => Ok(history_document(metric_documents(status, metrics()))),
    }
}

/// A history asked for by name is that of the channel of that name, and one asked for without a
/// name holds all five channels; other names are refused.
pub proof fn lemma_history_fields(status: StatusView, key: Seq<char>)
    ensures
        is_channel(key) ==> {
            &&& history_of(status, Some(key)) matches Ok(doc)
            &&& doc.field("window"@) == Some(
                JsonView::Text("rolling 24 hours, oldest sample first"@),
            )
            &&& items_of(doc.field("metrics"@)) matches Some(list)
            &&& list.len() == 1
            &&& list[0].field("metric_name"@) == Some(JsonView::Text(key))
        },
        !is_channel(key) ==> (history_of(status, Some(key)) matches Err(e) && e.code == -32602),
        ({
            &&& history_of(status, None) matches Ok(doc)
            &&& items_of(doc.field("metrics"@)) matches Some(list)
            &&& list.len() == 5
            &&& list[0].field("metric_name"@) == Some(
                JsonView::Text("battery_state_of_charge_percent"@),
            )
            &&& list[1].field("metric_name"@) == Some(JsonView::Text("solar_pv_production_kw"@))
            &&& list[2].field("metric_name"@) == Some(
                JsonView::Text("household_consumption_load_kw"@),
            )
            &&& list[3].field("metric_name"@) == Some(JsonView::Text("grid_power_kw"@))
            &&& list[4].field("metric_name"@) == Some(JsonView::Text("battery_power_kw"@))
        }),
{
    lemma_channels_have_history(status, key);
    lemma_names();
    reveal_strlit("window");
    reveal_strlit("metrics");
    assert("window"@.len() == 6);
    assert("metrics"@.len() == 7);
    if is_channel(key) {
        let m = metric_of(key)->0;
        lemma_metric_fields(status, m);
        let blocks = no_items().push(metric_document(status, m));
        lemma_find_at(history_document(blocks)->Object_0, "window"@, 0, 0);
        lemma_find_at(history_document(blocks)->Object_0, "metrics"@, 0, 1);
    }
    let all = metric_documents(status, metrics());
    lemma_find_at(history_document(all)->Object_0, "metrics"@, 0, 1);
    assert(metrics().len() == 5);
    lemma_metric_fields(status, metrics()[0]);
    lemma_metric_fields(status, metrics()[1]);
    lemma_metric_fields(status, metrics()[2]);
    lemma_metric_fields(status, metrics()[3]);
    lemma_metric_fields(status, metrics()[4]);
}

fn key_list() -> (r: Vec<String>)
    ensures
        views(r@) == metric_keys(),
{
    let mut r: Vec<String> = Vec::new();
    r.push(SOC_KEY.to_owned());
    r.push(PV_KEY.to_owned());
    r.push(LOAD_KEY.to_owned());
    r.push(GRID_KEY.to_owned());
    r.push(BATTERY_KEY.to_owned());
    assert(views(r@) =~= metric_keys());
    r
}

/// The history of the channel asked for, or of all.
pub fn energy_history_json(state: &AppState, metric: Option<&str>) -> (r: Result<Json, RpcError>)
    ensures
        match (
            r,
            history_of(
                state@.system_status,
                match metric {
                    Some(key) => Some(key@),
                    None => None,
                },
            ),
        ) {
            (Ok(doc), Ok(expected)) => doc@ == expected,
            (Err(e), Err(expected)) => e@ == expected,
            _ => false,
        },
{
    match metric {
        Some(key) => match metric_meta(key) {
            Some(m) => Ok(
                Fields::new().with("window", Json::text(HISTORY_WINDOW)).with(
                    "metrics",
                    Items::new().with(one_metric_history(state, m)).done(),
                ).done(),
            ),
            None => Err(
                RpcError {
                    code: INVALID_PARAMS,
                    message: "unknown metric_name '".to_owned().concat(key).concat(
                        "'; valid values: ",
                    ).concat(join(&key_list(), ", ").as_str()),
                },
            ),
        },
        None => {
            let list: Vec<HistoryMetric> = history_metrics();
            let ghost all = metric_documents(state@.system_status, metrics());
            let mut blocks: Items = Items::new();
            let mut i: usize = 0;
            assert(list@.len() == metrics().len());
            while i < list.len()
                invariant
                    i <= list.len() == metrics().len(),
                    list@.map_values(|m: HistoryMetric| m@) == metrics(),
                    all == metric_documents(state@.system_status, metrics()),
                    blocks@ == all.take(i as int),
                decreases list.len() - i,
            {
                assert(metrics()[i as int] == list@[i as int]@);
                blocks = blocks.with(one_metric_history(state, list[i]));
                assert(all.take(i + 1) == all.take(i as int).push(all[i as int]));
                i = i + 1;
            }
            assert(all.take(i as int) == all);
            Ok(
                Fields::new().with("window", Json::text(HISTORY_WINDOW)).with(
                    "metrics",
                    blocks.done(),
                ).done(),
            )
        },
    }
}

/// Prices as points of a series.
pub open spec fn price_points(prices: Seq<PriceInfo>) -> Seq<(i64, Double)> {
    prices.map_values(|p: PriceInfo| (p.from.millis() as i64, p.price))
}

/// A price.
pub open spec fn price_document(point: (i64, Double)) -> JsonView {
    JsonView::Object(
        no_fields().push(
            ("interval_start_utc"@, JsonView::Text(milli_label(point.0 as int))),
        ).push(
            ("price_euro_cents_per_kwh"@, float_view(point.1)),
        ),
    )
}

/// Several prices.
pub open spec fn price_documents(points: Seq<(i64, Double)>) -> Seq<JsonView> {
    points.map_values(|p: (i64, Double)| price_document(p))
}

/// Prices and thresholds.
pub open spec fn prices_document(s: StateView) -> JsonView {
    JsonView::Object(
        no_fields().push(
            ("price_unit"@, JsonView::Text("euro-cents per kWh"@)),
        ).push(
            ("current_price_euro_cents_per_kwh"@, float_view(s.current_price)),
        ).push(
            (BLOCK_KEY@, float_view(s.block_threshold)),
        ).push(
            (LOW_KEY@, float_view(s.low_price_threshold)),
        ).push(
            (SPIKE_KEY@, float_view(s.spike_threshold)),
        ).push(
            (
                "threshold_descriptions"@,
                JsonView::Object(
                    no_fields().push(
                        (BLOCK_KEY@, JsonView::Text(BLOCK_MEANING@)),
                    ).push(
                        (LOW_KEY@, JsonView::Text(LOW_MEANING@)),
                    ).push(
                        (SPIKE_KEY@, JsonView::Text(SPIKE_MEANING@)),
                    ),
                ),
            ),
        ).push(
            (
                "upcoming_prices"@,
                JsonView::Array(price_documents(downsampled(price_points(s.prices)))),
            ),
        ),
    )
}

/// Prices and thresholds are found by name, each threshold is explained, and a price tells when it
/// begins and what it is.
pub proof fn lemma_price_fields(s: StateView)
    ensures
        ({
            let doc = prices_document(s);
            let meaning = doc.field("threshold_descriptions"@);
            &&& doc.field("price_unit"@) == Some(JsonView::Text("euro-cents per kWh"@))
            &&& doc.field("current_price_euro_cents_per_kwh"@) == Some(float_view(s.current_price))
            &&& doc.field("heatpump_block_threshold_euro_cents_per_kwh"@) == Some(
                float_view(s.block_threshold),
            )
            &&& doc.field("battery_low_price_charge_threshold_euro_cents_per_kwh"@) == Some(
                float_view(s.low_price_threshold),
            )
            &&& doc.field("battery_spike_threshold_euro_cents_per_kwh"@) == Some(
                float_view(s.spike_threshold),
            )
            &&& field_of(meaning, "heatpump_block_threshold_euro_cents_per_kwh"@) == Some(
                JsonView::Text(
                    "At or above this price the heat-pump compressor is eligible to be blocked."@,
                ),
            )
            &&& field_of(meaning, "battery_low_price_charge_threshold_euro_cents_per_kwh"@) == Some(
                JsonView::Text(
                    "At or below this price the battery is eligible for force-charging."@,
                ),
            )
            &&& field_of(meaning, "battery_spike_threshold_euro_cents_per_kwh"@) == Some(
                JsonView::Text(
                    "A future price above this is treated as a major spike worth pre-charging for."@,
                ),
            )
            &&& items_of(doc.field("upcoming_prices"@)) matches Some(list)
            &&& list.len() <= 48
            &&& s.prices.len() <= 48 ==> list.len() == s.prices.len() && forall|i: int|
                0 <= i < list.len() ==> (#[trigger] list[i]).field("price_euro_cents_per_kwh"@)
                    == Some(float_view(s.prices[i].price)) && list[i].field("interval_start_utc"@)
                    == Some(JsonView::Text(milli_label(s.prices[i].from.millis() as i64 as int)))
            &&& ({
                let shown = downsampled(
                    Seq::new(
                        s.prices.len(),
                        |i: int| (s.prices[i].from.millis() as i64, s.prices[i].price),
                    ),
                );
                &&& list.len() == shown.len()
                &&& forall|i: int|
                    0 <= i < list.len() ==> (#[trigger] list[i]).field(
                        "price_euro_cents_per_kwh"@,
                    ) == Some(float_view(shown[i].1)) && list[i].field("interval_start_utc"@)
                        == Some(JsonView::Text(milli_label(shown[i].0 as int)))
            })
        }),
{
    reveal_strlit("price_unit");
    reveal_strlit("current_price_euro_cents_per_kwh");
    reveal_strlit("heatpump_block_threshold_euro_cents_per_kwh");
    reveal_strlit("battery_low_price_charge_threshold_euro_cents_per_kwh");
    reveal_strlit("battery_spike_threshold_euro_cents_per_kwh");
    reveal_strlit("threshold_descriptions");
    reveal_strlit("upcoming_prices");
    assert("price_unit"@.len() == 10);
    assert("current_price_euro_cents_per_kwh"@.len() == 32);
    assert("heatpump_block_threshold_euro_cents_per_kwh"@.len() == 43);
    assert("battery_low_price_charge_threshold_euro_cents_per_kwh"@.len() == 53);
    assert("battery_spike_threshold_euro_cents_per_kwh"@.len() == 42);
    assert("threshold_descriptions"@.len() == 22);
    assert("upcoming_prices"@.len() == 15);
    let doc = prices_document(s);
    let fields = doc->Object_0;
    lemma_find_at(fields, "price_unit"@, 0, 0);
    lemma_find_at(fields, "current_price_euro_cents_per_kwh"@, 0, 1);
    lemma_find_at(fields, BLOCK_KEY@, 0, 2);
    lemma_find_at(fields, LOW_KEY@, 0, 3);
    lemma_find_at(fields, SPIKE_KEY@, 0, 4);
    lemma_find_at(fields, "threshold_descriptions"@, 0, 5);
    lemma_find_at(fields, "upcoming_prices"@, 0, 6);
    let meanings = fields[5].1->Object_0;
    lemma_find_at(meanings, BLOCK_KEY@, 0, 0);
    lemma_find_at(meanings, LOW_KEY@, 0, 1);
    lemma_find_at(meanings, SPIKE_KEY@, 0, 2);
    let points = downsampled(price_points(s.prices));
    assert(price_points(s.prices) =~= Seq::new(
        s.prices.len(),
        |i: int| (s.prices[i].from.millis() as i64, s.prices[i].price),
    ));
    lemma_downsampled_len(price_points(s.prices));
    let list = price_documents(points);
    assert forall|i: int| 0 <= i < list.len() implies (#[trigger] list[i]).field(
        "price_euro_cents_per_kwh"@,
    ) == Some(float_view(points[i].1)) && list[i].field("interval_start_utc"@) == Some(
        JsonView::Text(milli_label(points[i].0 as int)),
    ) by {
        lemma_price_point(points[i]);
    }
}

proof fn lemma_price_point(point: (i64, Double))
    ensures
        price_document(point).field("price_euro_cents_per_kwh"@) == Some(float_view(point.1)),
        price_document(point).field("interval_start_utc"@) == Some(
            JsonView::Text(milli_label(point.0 as int)),
        ),
{
    reveal_strlit("interval_start_utc");
    reveal_strlit("price_euro_cents_per_kwh");
    assert("interval_start_utc"@.len() == 18);
    assert("price_euro_cents_per_kwh"@.len() == 24);
    let fields = price_document(point)->Object_0;
    lemma_find_at(fields, "interval_start_utc"@, 0, 0);
    lemma_find_at(fields, "price_euro_cents_per_kwh"@, 0, 1);
}

fn points_of_prices(prices: &Vec<PriceInfo>) -> (r: Vec<(i64, Double)>)
    requires
        in_calendar_times(prices@),
    ensures
        r@ == price_points(prices@),
{
    let mut r: Vec<(i64, Double)> = Vec::new();
    let mut i: usize = 0;
    while i < prices.len()
        invariant
            i <= prices.len(),
            in_calendar_times(prices@),
            r@ == price_points(prices@).take(i as int),
        decreases prices.len() - i,
    {
        r.push((prices[i].from.to_millis(), prices[i].price));
        assert(price_points(prices@).take(i + 1) == price_points(prices@).take(i as int).push(
            price_points(prices@)[i as int],
        ));
        i = i + 1;
    }
    assert(price_points(prices@).take(i as int) == price_points(prices@));
    r
}

/// Prices and thresholds.
pub fn price_forecast_json(state: &AppState) -> (r: Json)
    requires
        in_calendar_times(state@.prices),
    ensures
        r@ == prices_document(state@),
        r@.field("current_price_euro_cents_per_kwh"@) == Some(float_view(state.current_price)),
        r@.field("heatpump_block_threshold_euro_cents_per_kwh"@) == Some(
            float_view(state.block_threshold),
        ),
        r@.field("battery_low_price_charge_threshold_euro_cents_per_kwh"@) == Some(
            float_view(state.low_price_threshold),
        ),
        r@.field("battery_spike_threshold_euro_cents_per_kwh"@) == Some(
            float_view(state.spike_threshold),
        ),
{
    proof {
        lemma_price_fields(state@);
    }
    let points: Vec<(i64, Double)> = downsample(&points_of_prices(&state.prices));
    let mut upcoming: Items = Items::new();
    let mut i: usize = 0;
    while i < points.len()
        invariant
            i <= points.len(),
            upcoming@ == price_documents(points@).take(i as int),
        decreases points.len() - i,
    {
        let point: (i64, Double) = points[i];
        let price: Json = Fields::new().with(
            "interval_start_utc",
            Json::text(iso_from_millis(point.0).as_str()),
        ).with("price_euro_cents_per_kwh", Json::double(point.1)).done();
        upcoming = upcoming.with(price);
        assert(price_documents(points@).take(i + 1) == price_documents(points@).take(
            i as int,
        ).push(price_document(point)));
        i = i + 1;
    }
    assert(price_documents(points@).take(i as int) == price_documents(points@));
    let descriptions: Json = Fields::new().with(BLOCK_KEY, Json::text(BLOCK_MEANING)).with(
        LOW_KEY,
        Json::text(LOW_MEANING),
    ).with(SPIKE_KEY, Json::text(SPIKE_MEANING)).done();
    Fields::new().with("price_unit", Json::text("euro-cents per kWh")).with(
        "current_price_euro_cents_per_kwh",
        Json::double(state.current_price),
    ).with(BLOCK_KEY, Json::double(state.block_threshold)).with(
        LOW_KEY,
        Json::double(state.low_price_threshold),
    ).with(SPIKE_KEY, Json::double(state.spike_threshold)).with(
        "threshold_descriptions",
        descriptions,
    ).with("upcoming_prices", upcoming.done()).done()
}

/// A chart as points of a series: whole seconds and value.
pub open spec fn chart_points(chart: Seq<(Double, Double)>) -> Seq<(i64, Double)> {
    chart.map_values(
        |p: (Double, Double)| (saturated_signed(p.0, whole(p.0)) as i64, p.1),
    )
}

/// The text of a time in whole seconds.
pub open spec fn second_text(secs: i64) -> Seq<char> {
    let at = of_int(secs as int);
    second_label(saturated_signed(at, whole(at)))
}

/// An hour of a chart, under the given name.
pub open spec fn hour_document(point: (i64, Double), name: Seq<char>) -> JsonView {
    JsonView::Object(
        no_fields().push(
            ("hour_start_utc"@, JsonView::Text(second_text(point.0))),
        ).push(
            (name, float_view(point.1)),
        ),
    )
}

/// The hours of a chart.
pub open spec fn hour_documents(points: Seq<(i64, Double)>, name: Seq<char>) -> Seq<JsonView> {
    points.map_values(|p: (i64, Double)| hour_document(p, name))
}

/// The forecasts of sun and heating.
pub open spec fn forecast_document(s: StateView) -> JsonView {
    JsonView::Object(
        no_fields().push(
            ("expected_remaining_pv_yield_today_kwh"@, float_view(s.expected_pv_kwh)),
        ).push(
            (
                "hourly_solar_pv_production_forecast_kw"@,
                JsonView::Array(
                    hour_documents(
                        downsampled(chart_points(s.hourly_pv_kw)),
                        "forecast_pv_production_kw"@,
                    ),
                ),
            ),
        ).push(
            (
                "hourly_heating_power_demand_forecast_kw"@,
                JsonView::Array(
                    hour_documents(
                        downsampled(chart_points(s.hourly_heating_kw)),
                        "estimated_heating_demand_kw"@,
                    ),
                ),
            ),
        ),
    )
}

proof fn lemma_hour_point(point: (i64, Double), name: Seq<char>)
    requires
        name != "hour_start_utc"@,
    ensures
        hour_document(point, name).field("hour_start_utc"@) == Some(
            JsonView::Text(second_text(point.0)),
        ),
        hour_document(point, name).field(name) == Some(float_view(point.1)),
{
    let fields = hour_document(point, name)->Object_0;
    lemma_find_at(fields, "hour_start_utc"@, 0, 0);
    lemma_find_at(fields, name, 0, 1);
}

/// The list holds the hours of a chart, each with its time and, under the given name, its value.
/// Charts of more than 48 hours are reduced. Times are whole seconds.
pub open spec fn lists_chart(
    list: Seq<JsonView>,
    chart: Seq<(Double, Double)>,
    name: Seq<char>,
) -> bool {
    &&& list.len() <= 48
    &&& chart.len() <= 48 ==> list.len() == chart.len() && forall|i: int|
        0 <= i < list.len() ==> (#[trigger] list[i]).field(name) == Some(float_view(chart[i].1))
            && list[i].field("hour_start_utc"@) == Some(
            JsonView::Text(second_text(saturated_signed(chart[i].0, whole(chart[i].0)) as i64)),
        )
    &&& ({
        let shown = downsampled(
            Seq::new(
                chart.len(),
                |i: int| (saturated_signed(chart[i].0, whole(chart[i].0)) as i64, chart[i].1),
            ),
        );
        &&& list.len() == shown.len()
        &&& forall|i: int|
            0 <= i < list.len() ==> (#[trigger] list[i]).field(name) == Some(
                float_view(shown[i].1),
            ) && list[i].field("hour_start_utc"@) == Some(JsonView::Text(second_text(shown[i].0)))
    })
}

/// The text of a time in whole seconds is that of the second.
pub proof fn lemma_second_text(secs: i64)
    requires
        0 <= secs < 0x20_0000_0000_0000,
    ensures
        second_text(secs) == second_label(secs as int),
{
    lemma_of_int_exact(secs as nat);
    let at = of_int(secs as int);
    let p = pow2(1074) as int;
    lemma_pow2_pos(1074);
    lemma_whole(at);
    let w = whole(at) as int;
    assert(w == secs) by (nonlinear_arith)
        requires
            w * p <= secs * p < (w + 1) * p,
            p > 0,
    ;
}

proof fn lemma_chart(chart: Seq<(Double, Double)>, name: Seq<char>)
    requires
        name != "hour_start_utc"@,
    ensures
        lists_chart(hour_documents(downsampled(chart_points(chart)), name), chart, name),
{
    let points = downsampled(chart_points(chart));
    assert(chart_points(chart) =~= Seq::new(
        chart.len(),
        |i: int| (saturated_signed(chart[i].0, whole(chart[i].0)) as i64, chart[i].1),
    ));
    lemma_downsampled_len(chart_points(chart));
    let list = hour_documents(points, name);
    assert forall|i: int| 0 <= i < list.len() implies (#[trigger] list[i]).field(name) == Some(
        float_view(points[i].1),
    ) && list[i].field("hour_start_utc"@) == Some(JsonView::Text(second_text(points[i].0))) by {
        lemma_hour_point(points[i], name);
    }
}

/// The forecasts are found by name: the expected yield, the hours of production and the hours of
/// heating demand.
pub proof fn lemma_forecast_fields(s: StateView)
    ensures
        ({
            let doc = forecast_document(s);
            &&& doc.field("expected_remaining_pv_yield_today_kwh"@) == Some(
                float_view(s.expected_pv_kwh),
            )
            &&& items_of(doc.field("hourly_solar_pv_production_forecast_kw"@)) matches Some(sun)
            &&& lists_chart(sun, s.hourly_pv_kw, "forecast_pv_production_kw"@)
            &&& items_of(doc.field("hourly_heating_power_demand_forecast_kw"@)) matches Some(heat)
            &&& lists_chart(heat, s.hourly_heating_kw, "estimated_heating_demand_kw"@)
        }),
{
    reveal_strlit("expected_remaining_pv_yield_today_kwh");
    reveal_strlit("hourly_solar_pv_production_forecast_kw");
    reveal_strlit("hourly_heating_power_demand_forecast_kw");
    reveal_strlit("forecast_pv_production_kw");
    reveal_strlit("estimated_heating_demand_kw");
    reveal_strlit("hour_start_utc");
    assert("expected_remaining_pv_yield_today_kwh"@.len() == 37);
    assert("hourly_solar_pv_production_forecast_kw"@.len() == 38);
    assert("hourly_heating_power_demand_forecast_kw"@.len() == 39);
    assert("forecast_pv_production_kw"@.len() == 25);
    assert("estimated_heating_demand_kw"@.len() == 27);
    assert("hour_start_utc"@.len() == 14);
    let fields = forecast_document(s)->Object_0;
    lemma_find_at(fields, "expected_remaining_pv_yield_today_kwh"@, 0, 0);
    lemma_find_at(fields, "hourly_solar_pv_production_forecast_kw"@, 0, 1);
    lemma_find_at(fields, "hourly_heating_power_demand_forecast_kw"@, 0, 2);
    lemma_chart(s.hourly_pv_kw, "forecast_pv_production_kw"@);
    lemma_chart(s.hourly_heating_kw, "estimated_heating_demand_kw"@);
}

/// A reduced chart, hour by hour.
fn chart_json(chart: &Vec<(Double, Double)>, name: &str) -> (r: Json)
    ensures
        r@ == JsonView::Array(hour_documents(downsampled(chart_points(chart@)), name@)),
{
    let mut whole_seconds: Vec<(i64, Double)> = Vec::new();
    let mut i: usize = 0;
    while i < chart.len()
        invariant
            i <= chart.len(),
            whole_seconds@ == chart_points(chart@).take(i as int),
        decreases chart.len() - i,
    {
        whole_seconds.push((chart[i].0.truncated_i64(), chart[i].1));
        assert(chart_points(chart@).take(i + 1) == chart_points(chart@).take(i as int).push(
            chart_points(chart@)[i as int],
        ));
        i = i + 1;
    }
    assert(chart_points(chart@).take(i as int) == chart_points(chart@));
    let points: Vec<(i64, Double)> = downsample(&whole_seconds);
    let ghost all = hour_documents(points@, name@);
    let mut hours: Items = Items::new();
    let mut j: usize = 0;
    while j < points.len()
        invariant
            j <= points.len(),
            all == hour_documents(points@, name@),
            hours@ == all.take(j as int),
        decreases points.len() - j,
    {
        let point: (i64, Double) = points[j];
        let hour: Json = Fields::new().with(
            "hour_start_utc",
            Json::text(iso_from_seconds(Double::of_i64(point.0)).as_str()),
        ).with(name, Json::double(point.1)).done();
        hours = hours.with(hour);
        assert(all.take(j + 1) == all.take(j as int).push(hour_document(point, name@)));
        j = j + 1;
    }
    assert(all.take(j as int) == all);
    hours.done()
}

/// The forecasts of sun and heating.
pub fn forecast_json(state: &AppState) -> (r: Json)
    ensures
        r@ == forecast_document(state@),
        r@.field("expected_remaining_pv_yield_today_kwh"@) == Some(
            float_view(state.expected_pv_kwh),
        ),
{
    proof {
        lemma_forecast_fields(state@);
    }
    let pv: Json = chart_json(&state.hourly_pv_kw, "forecast_pv_production_kw");
    let heating: Json = chart_json(&state.hourly_heating_kw, "estimated_heating_demand_kw");
    Fields::new().with(
        "expected_remaining_pv_yield_today_kwh",
        Json::double(state.expected_pv_kwh),
    ).with("hourly_solar_pv_production_forecast_kw", pv).with(
        "hourly_heating_power_demand_forecast_kw",
        heating,
    ).done()
}

/// The name of a state of the compressor.
pub open spec fn compressor_name(state: CompressorState) -> Seq<char> {
    match state {
        CompressorState::Allowed => "Allowed"@,
        CompressorState::Blocked => "Blocked"@,
    }
}

/// The decisions.
pub open spec fn decisions_document(s: StateView) -> JsonView {
    JsonView::Object(
        no_fields().push(
            (
                "target_battery_state_of_charge_percent"@,
                JsonView::Number(JsonNumber::Unsigned(s.soc_decision as u64)),
            ),
        ).push(
            (
                "heatpump_compressor_decision"@,
                JsonView::Text(compressor_name(s.compressor_decision)),
            ),
        ).push(
            ("heatpump_compressor_decision_meaning"@, JsonView::Text(DECISION_MEANING@)),
        ).push(
            ("controller_status_message"@, JsonView::Text(s.status_message)),
        ),
    )
}

/// The decisions are found by name.
pub proof fn lemma_decision_fields(s: StateView)
    ensures
        ({
            let doc = decisions_document(s);
            &&& doc.field("target_battery_state_of_charge_percent"@) == Some(
                JsonView::Number(JsonNumber::Unsigned(s.soc_decision as u64)),
            )
            &&& s.compressor_decision is Allowed ==> doc.field("heatpump_compressor_decision"@)
                == Some(JsonView::Text("Allowed"@))
            &&& s.compressor_decision is Blocked ==> doc.field("heatpump_compressor_decision"@)
                == Some(JsonView::Text("Blocked"@))
            &&& doc.field("heatpump_compressor_decision_meaning"@) == Some(
                JsonView::Text(
                    "'Allowed' = compressor may run; 'Blocked' = compressor is being inhibited because the current price is in an expensive percentile."@,
                ),
            )
            &&& doc.field("controller_status_message"@) == Some(JsonView::Text(s.status_message))
        }),
{
    reveal_strlit("target_battery_state_of_charge_percent");
    reveal_strlit("heatpump_compressor_decision");
    reveal_strlit("heatpump_compressor_decision_meaning");
    reveal_strlit("controller_status_message");
    assert("target_battery_state_of_charge_percent"@.len() == 38);
    assert("heatpump_compressor_decision"@.len() == 28);
    assert("heatpump_compressor_decision_meaning"@.len() == 36);
    assert("controller_status_message"@.len() == 25);
    let fields = decisions_document(s)->Object_0;
    lemma_find_at(fields, "target_battery_state_of_charge_percent"@, 0, 0);
    lemma_find_at(fields, "heatpump_compressor_decision"@, 0, 1);
    lemma_find_at(fields, "heatpump_compressor_decision_meaning"@, 0, 2);
    lemma_find_at(fields, "controller_status_message"@, 0, 3);
}

/// The decisions.
pub fn decisions_json(state: &AppState) -> (r: Json)
    ensures
        r@ == decisions_document(state@),
        r@.field("target_battery_state_of_charge_percent"@) == Some(
            JsonView::Number(JsonNumber::Unsigned(state.soc_decision as u64)),
        ),
        r@.field("controller_status_message"@) == Some(JsonView::Text(state.status_message@)),
{
    proof {
        lemma_decision_fields(state@);
    }
    let decision: &str = match state.compressor_decision {
        CompressorState::Allowed => "Allowed",
        CompressorState::Blocked => "Blocked",
    };
    Fields::new().with(
        "target_battery_state_of_charge_percent",
        Json::unsigned(state.soc_decision as u64),
    ).with("heatpump_compressor_decision", Json::text(decision)).with(
        "heatpump_compressor_decision_meaning",
        Json::text(DECISION_MEANING),
    ).with("controller_status_message", Json::text(state.status_message.as_str())).done()
}

} // verus!
