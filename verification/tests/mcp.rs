//! The tools, as clients see them.

use energy_controller::documents::{
    history_metrics, history_series, metric_meta, one_metric_history,
};
use energy_controller::double::Double;
use energy_controller::json::{parse_json, Json, JsonNumber};
use energy_controller::mcp::{
    frame, handle_jsonrpc, tool_text, Outcome, ToolOutput, MCP_PROTOCOL_VERSION, MCP_SERVER_NAME,
};
use energy_controller::moment::Moment;
use energy_controller::prices::PriceInfo;
use energy_controller::series::downsample;
use energy_controller::state::AppState;
use energy_controller::status::SystemStatus;
use energy_controller::transport::{receive_body, Received};
use serde_json::Value;

fn d(x: f64) -> Double {
    Double { bits: x.to_bits() }
}

fn to_json(value: &Value) -> Json {
    match value {
        Value::Null => Json::Null,
        Value::Bool(b) => Json::Bool(*b),
        Value::Number(n) => Json::Number(if let Some(u) = n.as_u64() {
            JsonNumber::Unsigned(u)
        } else if let Some(i) = n.as_i64() {
            JsonNumber::Negative(i)
        } else {
            JsonNumber::Float(d(n.as_f64().unwrap()))
        }),
        Value::String(s) => Json::Text(s.clone()),
        Value::Array(list) => Json::Array(list.iter().map(to_json).collect()),
        Value::Object(map) => {
            Json::Object(map.iter().map(|(k, v)| (k.clone(), to_json(v))).collect())
        }
    }
}

fn to_value(json: &Json) -> Value {
    match json {
        Json::Null => Value::Null,
        Json::Bool(b) => Value::from(*b),
        Json::Number(JsonNumber::Unsigned(n)) => Value::from(*n),
        Json::Number(JsonNumber::Negative(n)) => Value::from(*n),
        Json::Number(JsonNumber::Float(x)) => Value::from(f64::from_bits(x.bits)),
        Json::Text(s) => Value::from(s.clone()),
        Json::Array(list) => Value::Array(list.iter().map(to_value).collect()),
        Json::Object(list) => {
            Value::Object(list.iter().map(|(k, v)| (k.clone(), to_value(v))).collect())
        }
    }
}

fn parse(text: &str) -> Value {
    serde_json::from_str(text).unwrap()
}

/// The message that a request is answered with.
fn answer(request: &Value, snapshot: Option<&AppState>) -> Option<Value> {
    let reply = handle_jsonrpc(&to_json(request), snapshot)?;
    let printed = match &reply.outcome {
        Outcome::Tool(ToolOutput::Document(document)) => {
            serde_json::to_string_pretty(&to_value(document)).unwrap()
        }
        _ => String::new(),
    };
    Some(to_value(&frame(reply, &printed)))
}

/// A state with recognisable values.
fn sample_state() -> AppState {
    let mut status = SystemStatus::default();
    status.soc = 73;
    status.pv_power = d(4.2);
    status.load_power = d(1.1);
    status.grid_power = d(-3.0); // exporting
    status.battery_power = d(0.9); // discharging
    status.soc_histogram = vec![(1_700_000_000_000, d(70.0)), (1_700_003_600_000, d(73.0))];
    status.pv_histogram = vec![(1_700_000_000_000, d(3.5))];

    let mut state = AppState::new_with_status("running normally".to_string());
    state.system_status = status;
    state.current_price = d(18.5);
    state.block_threshold = d(30.0);
    state.low_price_threshold = d(8.0);
    state.spike_threshold = d(45.0);
    state.soc_decision = 50;
    state.prices = vec![PriceInfo {
        from: Moment::of(1_700_000_000, 0).unwrap(),
        price: d(18.5),
    }];
    state.expected_pv_kwh = d(22.4);
    state.hourly_pv_kw = vec![(d(1_700_000_000.0), d(3.5))];
    state.hourly_heating_kw = vec![(d(1_700_000_000.0), d(0.8))];
    state
}

fn call(name: &str, args: &str, state: &AppState) -> Value {
    let request = parse(&format!(
        r#"{{"jsonrpc":"2.0","id":1,"method":"tools/call","params":{{"name":"{}","arguments":{}}}}}"#,
        name, args
    ));
    let resp = answer(&request, Some(state)).expect("request expects a response");
    // Pull the text payload back out and re-parse it as structured JSON.
    let text = resp["result"]["content"][0]["text"].as_str().unwrap();
    parse(text)
}

#[test]
fn initialize_reports_server_identity_and_tool_capability() {
    let req = parse(r#"{"jsonrpc":"2.0","id":0,"method":"initialize","params":{}}"#);
    let resp = answer(&req, None).unwrap();
    assert_eq!(resp["result"]["serverInfo"]["name"], MCP_SERVER_NAME);
    assert_eq!(resp["result"]["protocolVersion"], MCP_PROTOCOL_VERSION);
    assert!(resp["result"]["capabilities"]["tools"].is_object());
}

#[test]
fn notifications_produce_no_response() {
    let req = parse(r#"{"jsonrpc":"2.0","method":"notifications/initialized"}"#);
    assert!(answer(&req, None).is_none());
}

#[test]
fn tools_list_exposes_all_five_tools() {
    let req = parse(r#"{"jsonrpc":"2.0","id":1,"method":"tools/list"}"#);
    let resp = answer(&req, None).unwrap();
    let tools = resp["result"]["tools"].as_array().unwrap();
    let names: Vec<&str> = tools.iter().map(|t| t["name"].as_str().unwrap()).collect();
    assert!(names.contains(&"get_current_household_energy_status"));
    assert!(names.contains(&"get_household_energy_history_24h"));
    assert!(names.contains(&"get_electricity_spot_price_forecast"));
    assert!(names.contains(&"get_solar_and_heating_power_forecast"));
    assert!(names.contains(&"get_battery_and_heatpump_control_decisions"));
}

#[test]
fn current_status_carries_units_and_sign_conventions() {
    let state = sample_state();
    let out = call("get_current_household_energy_status", "{}", &state);
    assert_eq!(out["battery_state_of_charge_percent"], 73);
    assert_eq!(out["solar_pv_production_kw"], 4.2);
    assert_eq!(out["grid_power_kw"], -3.0);
    assert!(out["field_descriptions"]["grid_power_kw"]
        .as_str()
        .unwrap()
        .contains("importing"));
}

#[test]
fn history_single_metric_returns_iso_timestamped_samples() {
    let state = sample_state();
    let out = call(
        "get_household_energy_history_24h",
        r#"{ "metric_name": "battery_state_of_charge_percent" }"#,
        &state,
    );
    let metrics = out["metrics"].as_array().unwrap();
    assert_eq!(metrics.len(), 1);
    assert_eq!(metrics[0]["metric_name"], "battery_state_of_charge_percent");
    assert_eq!(metrics[0]["sample_count"], 2);
    let first = &metrics[0]["samples"][0];
    assert_eq!(first["value"], 70.0);
    assert!(first["timestamp_utc"].as_str().unwrap().starts_with("2023-"));
}

#[test]
fn long_history_is_downsampled_to_48_points() {
    let mut state = sample_state();
    // 288 raw samples (24h at 5-min resolution) must collapse to 48.
    state.system_status.soc_histogram = (0..288)
        .map(|i| (1_700_000_000_000 + i as i64 * 300_000, d(50.0 + (i % 10) as f64)))
        .collect();
    let out = call(
        "get_household_energy_history_24h",
        r#"{ "metric_name": "battery_state_of_charge_percent" }"#,
        &state,
    );
    let metric = &out["metrics"][0];
    assert_eq!(metric["sample_count"], 48);
    assert_eq!(metric["samples"].as_array().unwrap().len(), 48);
}

#[test]
fn short_series_is_returned_unchanged() {
    assert_eq!(
        downsample(&vec![(0, d(1.0)), (1, d(2.0))]),
        vec![(0, d(1.0)), (1, d(2.0))]
    );
}

#[test]
fn history_without_metric_returns_every_channel() {
    let state = sample_state();
    let out = call("get_household_energy_history_24h", "{}", &state);
    assert_eq!(out["metrics"].as_array().unwrap().len(), history_metrics().len());
}

#[test]
fn history_rejects_unknown_metric() {
    let state = sample_state();
    let req = parse(
        r#"{"jsonrpc":"2.0","id":1,"method":"tools/call","params":{"name":"get_household_energy_history_24h","arguments":{"metric_name":"bogus"}}}"#,
    );
    let resp = answer(&req, Some(&state)).unwrap();
    assert_eq!(resp["error"]["code"], -32602);
}

#[test]
fn price_forecast_reports_thresholds_and_prices() {
    let state = sample_state();
    let out = call("get_electricity_spot_price_forecast", "{}", &state);
    assert_eq!(out["current_price_euro_cents_per_kwh"], 18.5);
    assert_eq!(out["heatpump_block_threshold_euro_cents_per_kwh"], 30.0);
    assert_eq!(out["upcoming_prices"].as_array().unwrap().len(), 1);
    assert_eq!(out["upcoming_prices"][0]["price_euro_cents_per_kwh"], 18.5);
}

#[test]
fn tools_call_without_snapshot_reports_no_data_yet() {
    let req = parse(
        r#"{"jsonrpc":"2.0","id":1,"method":"tools/call","params":{"name":"get_current_household_energy_status","arguments":{}}}"#,
    );
    let resp = answer(&req, None).unwrap();
    let text = resp["result"]["content"][0]["text"].as_str().unwrap();
    assert!(text.contains("No energy data is available yet"));
}

#[test]
fn unknown_method_and_tool_are_errors() {
    let state = sample_state();
    let resp = answer(&parse(r#"{"id":"a","method":"nope"}"#), None).unwrap();
    assert_eq!(resp["error"]["code"], -32601);
    assert_eq!(resp["error"]["message"], "method not found: nope");
    assert_eq!(resp["id"], "a");
    let resp = answer(&parse(r#"{"id":null}"#), None).unwrap();
    assert_eq!(resp["error"]["message"], "method not found: ");
    assert_eq!(resp["id"], Value::Null);
    let resp =
        answer(&parse(r#"{"id":7,"method":"tools/call","params":{"name":"x"}}"#), Some(&state))
            .unwrap();
    assert_eq!(resp["error"]["code"], -32602);
    assert_eq!(resp["error"]["message"], "unknown tool: x");
    let resp = answer(&parse(r#"{"id":7,"method":"tools/call"}"#), Some(&state)).unwrap();
    assert_eq!(resp["error"]["message"], "missing params.name");
    assert!(resp.get("result").is_none());
}

#[test]
fn ping_is_answered_with_an_empty_object() {
    let resp = answer(&parse(r#"{"id":[1,{"k":-2.5}],"method":"ping"}"#), None).unwrap();
    assert_eq!(resp, parse(r#"{"jsonrpc":"2.0","id":[1,{"k":-2.5}],"result":{}}"#));
}

#[test]
fn unknown_metric_names_the_valid_ones() {
    let state = sample_state();
    let req = parse(
        r#"{"id":1,"method":"tools/call","params":{"name":"get_household_energy_history_24h","arguments":{"metric_name":"bogus"}}}"#,
    );
    let resp = answer(&req, Some(&state)).unwrap();
    assert_eq!(
        resp["error"]["message"],
        "unknown metric_name 'bogus'; valid values: battery_state_of_charge_percent, \
         solar_pv_production_kw, household_consumption_load_kw, grid_power_kw, battery_power_kw"
    );
}

#[test]
fn forecast_and_decisions_are_reported() {
    let state = sample_state();
    let out = call("get_solar_and_heating_power_forecast", "{}", &state);
    assert_eq!(out["expected_remaining_pv_yield_today_kwh"], 22.4);
    let hour = &out["hourly_solar_pv_production_forecast_kw"][0];
    assert_eq!(hour["hour_start_utc"], "2023-11-14T22:13:20+00:00");
    assert_eq!(hour["forecast_pv_production_kw"], 3.5);
    let hour = &out["hourly_heating_power_demand_forecast_kw"][0];
    assert_eq!(hour["estimated_heating_demand_kw"], 0.8);
    let out = call("get_battery_and_heatpump_control_decisions", "{}", &state);
    assert_eq!(out["target_battery_state_of_charge_percent"], 50);
    assert_eq!(out["heatpump_compressor_decision"], "Allowed");
    assert_eq!(out["controller_status_message"], "running normally");
}

#[test]
fn sample_times_are_written_in_both_forms() {
    let state = sample_state();
    let meta = metric_meta("solar_pv_production_kw").unwrap();
    let doc = to_value(&one_metric_history(&state, meta));
    assert_eq!(doc["unit"], "kW");
    assert_eq!(doc["samples"][0]["timestamp_utc"], "2023-11-14T22:13:20+00:00");
    assert_eq!(doc["samples"][0]["timestamp_unix_ms"], 1_700_000_000_000i64);
    assert!(metric_meta("bogus").is_none());
}

#[test]
fn every_channel_has_a_series() {
    let state = sample_state();
    for metric in history_metrics() {
        assert!(history_series(&state.system_status, metric.key).is_some());
        assert_eq!(metric_meta(metric.key).unwrap().unit, metric.unit);
    }
    assert!(history_series(&state.system_status, "bogus").is_none());
}

#[test]
fn numbers_that_are_not_finite_are_null() {
    let mut state = sample_state();
    state.current_price = d(f64::NAN);
    state.spike_threshold = d(f64::INFINITY);
    let out = call("get_electricity_spot_price_forecast", "{}", &state);
    assert_eq!(out["current_price_euro_cents_per_kwh"], Value::Null);
    assert_eq!(out["battery_spike_threshold_euro_cents_per_kwh"], Value::Null);
}

#[test]
fn texts_are_wrapped_as_content() {
    let value = to_value(&tool_text("hello"));
    assert_eq!(value, parse(r#"{"content":[{"type":"text","text":"hello"}]}"#));
}

#[test]
fn buckets_are_averaged() {
    // 96 points: two per bucket.
    let points: Vec<(i64, Double)> = (0..96).map(|i| (10 * i as i64, d(i as f64))).collect();
    let reduced = downsample(&points);
    assert_eq!(reduced.len(), 48);
    assert_eq!(reduced[0], (5, d(0.5)));
    assert_eq!(reduced[47], (945, d(94.5)));
    // 49 points: the last bucket has two, whose mean time is a half that is rounded away from zero.
    let points: Vec<(i64, Double)> = (0..49).map(|i| (i as i64, d(2.0 * i as f64))).collect();
    let reduced = downsample(&points);
    assert_eq!(reduced[0], (0, d(0.0)));
    assert_eq!(reduced[47], (48, d(95.0)));
    for b in 0..47 {
        assert!(reduced[b].0 <= reduced[b + 1].0);
    }
}

#[test]
fn copies_of_a_document_are_alike() {
    let value = parse(r#"{"a":[1,-2,2.5,null,true,"x"],"b":{"c":[]}}"#);
    let json = to_json(&value);
    assert_eq!(to_value(&json.copied()), value);
    assert!(json.get("a").unwrap().as_array().unwrap()[4].is_true());
    assert!(json.get("zzz").is_none());
}

#[test]
fn reduced_times_lie_within_their_buckets() {
    let points: Vec<(i64, Double)> = (0..100).map(|i| (i * 7 - 350, d(i as f64))).collect();
    let reduced = downsample(&points);
    assert_eq!(reduced.len(), 48);
    for b in 0..48 {
        let (start, end) = (b * 100 / 48, (b + 1) * 100 / 48);
        assert!(points[start].0 <= reduced[b].0 && reduced[b].0 <= points[end - 1].0);
        assert!(b == 0 || reduced[b - 1].0 <= reduced[b].0);
    }
    // Halves are rounded away from zero.
    assert_eq!(reduced[0].0, -347);
}

#[test]
fn texts_are_read_as_json() {
    for text in [
        "null", "true", "[]", "{}", "0", "-7", "18446744073709551615", "18446744073709551616",
        "-9223372036854775808", "1.5", "-0.0", "1e300", r#""a\u00e9\n""#,
        r#"{"b":[1,{"c":null},[2.5,-3]],"a":"x","b":false}"#,
    ] {
        let json = parse_json(text).unwrap();
        assert_eq!(to_value(&json), parse(text));
        assert_eq!(to_value(&to_json(&parse(text))), to_value(&json));
    }
    for text in ["", "{", "nul", "[1,]", "1e400", "{'a':1}", "1 2"] {
        let expected = serde_json::from_str::<Value>(text).unwrap_err().to_string();
        assert_eq!(parse_json(text).unwrap_err(), expected);
    }
}

#[test]
fn bodies_of_messages_are_read() {
    let state = sample_state();
    let taken = |body: &str| match receive_body(Some("s"), body, Some(&state)) {
        Received::Taken(reply) => reply.map(|r| to_value(&frame(r, ""))),
        Received::Refused(h) => panic!("{}", h.body),
    };
    assert_eq!(
        taken(r#"{"jsonrpc":"2.0","id":5,"method":"ping"}"#).unwrap(),
        parse(r#"{"jsonrpc":"2.0","id":5,"result":{}}"#)
    );
    assert!(taken(r#"{"jsonrpc":"2.0","method":"ping"}"#).is_none());
    let refused = |session, body: &str| match receive_body(session, body, None) {
        Received::Refused(h) => (h.status, h.body),
        Received::Taken(_) => panic!("taken"),
    };
    assert_eq!(refused(None, "{}"), (400, "missing sessionId query parameter".to_string()));
    assert_eq!(refused(None, "{"), (400, "missing sessionId query parameter".to_string()));
    let why = serde_json::from_str::<Value>("{").unwrap_err().to_string();
    assert_eq!(refused(Some("s"), "{"), (400, format!("invalid JSON: {}", why)));
}
