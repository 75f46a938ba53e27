//! The data sources: what replies mean and how they are combined.

use energy_controller::config::load_config;
use energy_controller::datasource::{
    is_success, read_body, DataSources, Fetched, Got, LegacySource, LiveSource,
    LiveStatusPayload, SolarEdgeSource, StatusDataPoint,
};
use energy_controller::double::Double;
use energy_controller::environment::Environment;
use energy_controller::huawei::{
    find_devices, find_station, HuaweiSource, LoginReply, Query, Step, Survey,
};
use energy_controller::json::{Json, JsonNumber};
use energy_controller::moment::Moment;
use energy_controller::status::SystemStatus;
use serde_json::Value;

const NOON: i64 = 1_705_320_000; // 2024-01-15 12:00:00 UTC

fn d(x: f64) -> Double {
    Double { bits: x.to_bits() }
}

fn at(secs: i64) -> Moment {
    Moment::of(secs, 0).unwrap()
}

fn to_json(value: &Value) -> Json {
    match value {
        Value::Null => Json::Null,
        Value::Bool(b) => Json::Bool(*b),
        Value::Number(n) => Json::Number(if let Some(u) = n.as_u64() {
            JsonNumber::Unsigned(u)
        } else if let Some(i) = n.as_i64() {
            JsonNumber::Negative(i)
        } else {
            JsonNumber::Float(d(n.as_f64().unwrap()))
        }),
        Value::String(s) => Json::Text(s.clone()),
        Value::Array(list) => Json::Array(list.iter().map(to_json).collect()),
        Value::Object(map) => {
            Json::Object(map.iter().map(|(k, v)| (k.clone(), to_json(v))).collect())
        }
    }
}

fn to_value(json: &Json) -> Value {
    match json {
        Json::Null => Value::Null,
        Json::Bool(b) => Value::from(*b),
        Json::Number(JsonNumber::Unsigned(n)) => Value::from(*n),
        Json::Number(JsonNumber::Negative(n)) => Value::from(*n),
        Json::Number(JsonNumber::Float(x)) => Value::from(f64::from_bits(x.bits)),
        Json::Text(s) => Value::from(s.clone()),
        Json::Array(list) => Value::Array(list.iter().map(to_value).collect()),
        Json::Object(list) => {
            Value::Object(list.iter().map(|(k, v)| (k.clone(), to_value(v))).collect())
        }
    }
}

fn parse(text: &str) -> Value {
    serde_json::from_str(text).unwrap()
}

fn json(text: &str) -> Json {
    to_json(&parse(text))
}

fn reading(soc: u8, pv: f64, load: f64, grid: f64, battery: f64) -> SystemStatus {
    SystemStatus::from_readings(soc, d(pv), d(load), d(grid), d(battery))
}

fn none() -> Fetched {
    Fetched { legacy: None, huawei: None, solaredge: None, live: None }
}

fn sources() -> DataSources {
    DataSources::new(None, None, None, None)
}

#[test]
fn production_and_grid_are_added_up() {
    let mut s = sources();
    let mut fetched = none();
    let mut file = reading(40, 1.5, 2.0, 0.25, -0.5);
    file.soc_histogram = vec![(1, d(39.0))];
    fetched.legacy = Some(Ok(file));
    fetched.huawei = Some(Ok(reading(70, 2.0, 3.0, -1.0, 0.75)));
    fetched.solaredge = Some(Ok(reading(0, 4.0, 0.0, 0.5, 0.0)));
    let status = s.fetch_status(fetched, at(NOON)).unwrap();
    assert_eq!(status.soc, 70);
    assert_eq!(status.pv_power, d(1.5 + 2.0 + 4.0));
    assert_eq!(status.grid_power, d(0.25 - 1.0 + 0.5));
    assert_eq!(status.load_power, d(3.0));
    assert_eq!(status.battery_power, d(0.75));
    // The history is that of the sum.
    assert_eq!(status.soc_histogram, vec![(NOON * 1000, d(70.0))]);
    assert_eq!(status.pv_histogram, vec![(NOON * 1000, d(7.5))]);
    assert_eq!(status.load_histogram, vec![(NOON * 1000, d(3.0))]);
    assert_eq!(status.grid_histogram, vec![(NOON * 1000, d(-0.25))]);
    assert_eq!(status.battuse_histogram, vec![(NOON * 1000, d(0.75))]);
}

#[test]
fn a_single_source_stands_for_itself() {
    let mut s = sources();
    let mut fetched = none();
    fetched.solaredge = Some(Ok(reading(0, 4.0, 0.0, 0.5, 0.0)));
    let status = s.fetch_status(fetched, at(NOON)).unwrap();
    assert_eq!((status.soc, status.pv_power, status.grid_power), (0, d(4.0), d(0.5)));
    let mut fetched = none();
    let mut file = reading(40, 1.5, 2.0, 0.25, -0.5);
    file.pv_histogram = vec![(1, d(1.0)), (2, d(1.5))];
    fetched.legacy = Some(Ok(file));
    fetched.huawei = Some(Err("down".to_string()));
    let status = s.fetch_status(fetched, at(NOON + 60)).unwrap();
    assert_eq!(status.soc, 40);
    // The file's own history is kept.
    assert_eq!(status.pv_histogram, vec![(1, d(1.0)), (2, d(1.5))]);
    assert_eq!(s.history.len(), 1);
}

#[test]
fn the_live_source_replaces_readings_and_not_history() {
    let mut s = sources();
    let mut fetched = none();
    fetched.huawei = Some(Ok(reading(70, 2.0, 3.0, -1.0, 0.75)));
    fetched.live = Some(Ok(reading(79, 9.3, 5.4, 0.2, -4.2)));
    let status = s.fetch_status(fetched, at(NOON)).unwrap();
    assert_eq!(status.soc, 79);
    assert_eq!(status.pv_power, d(9.3));
    assert_eq!(status.load_power, d(5.4));
    assert_eq!(status.grid_power, d(0.2));
    assert_eq!(status.battery_power, d(-4.2));
    assert_eq!(status.soc_histogram, vec![(NOON * 1000, d(70.0))]);
    let mut fetched = none();
    fetched.live = Some(Ok(reading(79, 9.3, 5.4, 0.2, -4.2)));
    let status = s.fetch_status(fetched, at(NOON + 10)).unwrap();
    assert_eq!(status.soc, 79);
    assert!(status.soc_histogram.is_empty());
    assert_eq!(s.history.len(), 1);
}

#[test]
fn failures_are_collected() {
    let mut s = sources();
    assert!(s.is_empty());
    let mut fetched = none();
    fetched.legacy = Some(Err("a".to_string()));
    fetched.solaredge = Some(Err("b".to_string()));
    fetched.live = Some(Err("c".to_string()));
    assert_eq!(fetched.failures(), vec!["legacy: a", "solaredge: b", "live: c"]);
    assert_eq!(
        s.fetch_status(fetched, at(NOON)).unwrap_err(),
        "all configured data sources failed: legacy: a; solaredge: b; live: c"
    );
    assert_eq!(
        s.fetch_status(none(), at(NOON)).unwrap_err(),
        "all configured data sources failed: "
    );
    let mut fetched = none();
    fetched.huawei = Some(Err("x".to_string()));
    assert_eq!(fetched.failures(), vec!["huawei: x"]);
}

#[test]
fn history_reaches_back_a_day() {
    let mut s = sources();
    for hours in [0, 10, 20, 24, 30, 60] {
        let mut fetched = none();
        fetched.huawei = Some(Ok(reading(hours as u8, 0.0, 0.0, 0.0, 0.0)));
        s.fetch_status(fetched, at(NOON + 3600 * hours)).unwrap();
        let newest = (NOON + 3600 * hours) * 1000;
        assert_eq!(s.history.back().unwrap().ts_ms, newest);
        assert!(s.history.iter().all(|x| newest - x.ts_ms <= 86_400_000));
        if hours == 24 {
            assert_eq!(s.history.len(), 4);
        }
        if hours == 30 {
            assert_eq!(s.history.len(), 4);
        }
    }
    assert_eq!(s.history.len(), 1);
}

#[test]
fn the_status_file_is_read() {
    let source = LegacySource { url: "http://x/soc.txt".to_string() };
    let point = |time: i64, soc: f64| StatusDataPoint {
        time,
        battery_soc: d(soc),
        pv: d(1500.0),
        consumption: d(730.0),
        grid: d(-250.0),
        battery_power: d(77.0),
    };
    let status = source
        .fetch(&Got::Body(vec![point(1, 50.9), point(2, 51.9)]))
        .unwrap();
    assert_eq!(status.soc, 51);
    assert_eq!(status.pv_power, d(1.5));
    assert_eq!(status.load_power, d(0.73));
    assert_eq!(status.grid_power, d(-0.25));
    assert_eq!(status.battery_power, d(77.0 / 1000.0));
    assert_eq!(status.soc_histogram, vec![(1, d(50.9)), (2, d(51.9))]);
    assert_eq!(status.load_histogram, vec![(1, d(0.73)), (2, d(0.73))]);
    assert_eq!(status.battuse_histogram.len(), 2);
    assert_eq!(
        source.fetch(&Got::Unreachable).unwrap_err(),
        "Failed to connect to status URL: http://x/soc.txt"
    );
    assert_eq!(
        source.fetch(&Got::Refused("404 Not Found".to_string())).unwrap_err(),
        "Status URL returned 404 Not Found"
    );
    assert_eq!(source.fetch(&Got::Unreadable).unwrap_err(), "Failed to parse status JSON");
    assert_eq!(
        source.fetch(&Got::Body(vec![])).unwrap_err(),
        "Status URL returned an empty array"
    );
}

#[test]
fn live_readings_are_read() {
    let source = LiveSource { url: "http://x/live".to_string() };
    let payload = |soc: f64| LiveStatusPayload {
        soc: d(soc),
        pv: d(9.3),
        consumption: d(5.4),
        grid: d(0.2),
        batteryuse: d(4.2),
    };
    let status = source.fetch(&Got::Body(payload(78.5))).unwrap();
    assert_eq!(status.soc, 79);
    assert_eq!(status.pv_power, d(9.3));
    assert_eq!(status.load_power, d(5.4));
    assert_eq!(status.grid_power, d(0.2));
    // Discharge is reported as positive and counts as negative charging.
    assert_eq!(status.battery_power, d(-4.2));
    assert_eq!(source.fetch(&Got::Body(payload(140.0))).unwrap().soc, 100);
    assert_eq!(source.fetch(&Got::Body(payload(-3.0))).unwrap().soc, 0);
    assert_eq!(
        source.fetch(&Got::Unreachable).unwrap_err(),
        "Failed to connect to live status URL: http://x/live"
    );
    assert_eq!(
        source.fetch(&Got::Refused("500".to_string())).unwrap_err(),
        "Live status URL returned 500"
    );
    assert_eq!(source.fetch(&Got::Unreadable).unwrap_err(), "Failed to parse live status JSON");
}

fn solaredge() -> SolarEdgeSource {
    SolarEdgeSource {
        api_url: "https://monitoringapi.solaredge.com//".to_string(),
        api_key: "KEY".to_string(),
        site_id: "123456".to_string(),
    }
}

#[test]
fn a_power_flow_is_read() {
    let source = solaredge();
    assert_eq!(
        source.flow_url(),
        "https://monitoringapi.solaredge.com/site/123456/currentPowerFlow?api_key=KEY"
    );
    let flow = |text: &str| source.fetch(&Got::Body(json(text)));
    let status = flow(
        r#"{"siteCurrentPowerFlow":{"unit":"w","PV":{"currentPower":3500},"GRID":{"currentPower":1200.5},
            "connections":[{"from":"PV","to":"Load"},{"from":"load","to":"grid"}]}}"#,
    )
    .unwrap();
    assert_eq!(status.pv_power, d(3.5));
    assert_eq!(status.grid_power, d(-1200.5 / 1000.0));
    assert_eq!((status.soc, status.load_power, status.battery_power), (0, d(0.0), d(0.0)));
    let status = flow(
        r#"{"siteCurrentPowerFlow":{"unit":"MW","PV":{"currentPower":0.002},"GRID":{"currentPower":1},
            "connections":[{"from":"GRID","to":"Load"},{"from":"LOAD","to":"Grid"}]}}"#,
    )
    .unwrap();
    assert_eq!(status.pv_power, d(2.0));
    assert_eq!(status.grid_power, d(1000.0));
    let status = flow(r#"{"siteCurrentPowerFlow":{"GRID":{"currentPower":2.5}}}"#).unwrap();
    assert_eq!((status.pv_power, status.grid_power), (d(0.0), d(2.5)));
    assert_eq!(
        flow("{}").unwrap_err(),
        "SolarEdge response missing siteCurrentPowerFlow"
    );
    assert_eq!(
        source.fetch(&Got::Unreachable).unwrap_err(),
        "SolarEdge currentPowerFlow request failed"
    );
    assert_eq!(
        source.fetch(&Got::Refused("429 Too Many Requests".to_string())).unwrap_err(),
        "SolarEdge HTTP 429 Too Many Requests"
    );
    assert_eq!(source.fetch(&Got::Unreadable).unwrap_err(), "SolarEdge JSON parse failed");
}

fn huawei(station: Option<&str>) -> HuaweiSource {
    HuaweiSource::new(
        "https://eu5.fusionsolar.huawei.com/".to_string(),
        "user".to_string(),
        "code".to_string(),
        station.map(|s| s.to_string()),
        false,
    )
}

fn login_reply() -> LoginReply {
    LoginReply {
        success: true,
        status: "200 OK".to_string(),
        cookies: vec![
            " JSESSIONID=abc ; Path=/".to_string(),
            "novalue".to_string(),
            "xsrf-token=tok=en; Secure".to_string(),
        ],
        text: r#"{"success":true}"#.to_string(),
    }
}

#[test]
fn a_login_opens_a_session() {
    let mut h = huawei(None);
    assert_eq!(h.login_url(), "https://eu5.fusionsolar.huawei.com/thirdData/login");
    assert_eq!(
        to_value(&h.login_body()),
        parse(r#"{"userName":"user","systemCode":"code"}"#)
    );
    assert!(h.needs_login(at(NOON)));
    h.finish_login(Some(&login_reply()), at(NOON)).unwrap();
    let session = h.session.as_ref().unwrap();
    assert_eq!(session.xsrf_token, "tok=en");
    assert_eq!(session.cookie_header, "JSESSIONID=abc; xsrf-token=tok=en");
    assert!(!h.needs_login(at(NOON + 26 * 60 - 1)));
    assert!(h.needs_login(at(NOON + 26 * 60)));
}

#[test]
fn logins_that_fail_are_told_apart() {
    let mut h = huawei(None);
    let mut reply = login_reply();
    reply.success = false;
    reply.status = "403 Forbidden".to_string();
    reply.text = "no".to_string();
    assert_eq!(
        h.finish_login(Some(&reply), at(NOON)).unwrap_err(),
        "FusionSolar login HTTP 403 Forbidden: no"
    );
    let mut reply = login_reply();
    for text in [r#"{"success":false}"#, "{}", "[true]", r#"{"success":"true"}"#, "7"] {
        reply.text = text.to_string();
        assert_eq!(
            h.finish_login(Some(&reply), at(NOON)).unwrap_err(),
            format!("FusionSolar login failed: {}", text)
        );
        assert!(h.session.is_none());
        let refused = json(text);
        assert!(h.take_login(&reply, Some(&refused), at(NOON)).is_err());
    }
    let mut reply = login_reply();
    reply.cookies.pop();
    assert_eq!(
        h.finish_login(Some(&reply), at(NOON)).unwrap_err(),
        "FusionSolar login: no XSRF-TOKEN cookie returned"
    );
    assert_eq!(
        h.finish_login(None, at(NOON)).unwrap_err(),
        "FusionSolar login request failed"
    );
    assert!(h.session.is_none());
    // A body that is not JSON is no obstacle.
    let mut reply = login_reply();
    reply.text = "<html>".to_string();
    assert!(h.finish_login(Some(&reply), at(NOON)).is_ok());
    h.session = None;
    assert!(h.take_login(&reply, None, at(NOON)).is_ok());
    assert!(h.session.is_some());
}

#[test]
fn replies_are_checked() {
    let mut h = huawei(None);
    h.finish_login(Some(&login_reply()), at(NOON)).unwrap();
    let check = |h: &mut HuaweiSource, got: Got<Json>| h.check_reply("/p", &got, "shown");
    assert!(check(&mut h, Got::Body(json(r#"{"success":true}"#))).is_ok());
    assert_eq!(check(&mut h, Got::Unreachable).unwrap_err(), "FusionSolar POST /p failed");
    assert_eq!(
        check(&mut h, Got::Refused("502".to_string())).unwrap_err(),
        "FusionSolar POST /p HTTP 502"
    );
    assert_eq!(check(&mut h, Got::Unreadable).unwrap_err(), "FusionSolar parse /p response");
    assert_eq!(
        check(&mut h, Got::Body(json(r#"{"success":false,"failCode":20001}"#))).unwrap_err(),
        "FusionSolar API error on /p: shown"
    );
    assert!(h.session.is_some());
    assert_eq!(
        check(&mut h, Got::Body(json(r#"{"success":true,"failCode":305}"#))).unwrap_err(),
        "FusionSolar token expired (failCode 305)"
    );
    assert!(h.session.is_none());
    assert_eq!(
        check(&mut h, Got::Body(json(r#"{"failCode":401}"#))).unwrap_err(),
        "FusionSolar token expired (failCode 401)"
    );
}

#[test]
fn stations_are_found() {
    let found = |text: &str| find_station(&json(text));
    assert_eq!(found(r#"{"data":{"list":[{"plantCode":"A"},{"plantCode":"B"}]}}"#).unwrap(), "A");
    assert_eq!(found(r#"{"data":[{"stationCode":"S"}]}"#).unwrap(), "S");
    assert_eq!(found(r#"{"data":{}}"#).unwrap_err(), "getStationList: no data array");
    assert_eq!(found(r#"{}"#).unwrap_err(), "getStationList: no data array");
    assert_eq!(found(r#"{"data":{"list":[]}}"#).unwrap_err(), "getStationList: empty list");
    assert_eq!(
        found(r#"{"data":[{"plantCode":5,"stationCode":"S"}]}"#).unwrap_err(),
        "getStationList: no station/plant code field"
    );
}

#[test]
fn devices_are_sorted_by_kind() {
    let list = json(
        r#"[{"id":17,"devTypeId":1},{"id":"x","devTypeId":38},{"devId":-4,"devTypeId":39},
            {"devDn":"NE=1","devTypeId":47},{"id":1.5,"devTypeId":47},{"id":null,"devTypeId":1},
            {"id":3,"devTypeId":62},{"id":4}]"#,
    );
    let shown: Vec<String> = (0..8).map(|i| format!("shown{}", i)).collect();
    let devices = find_devices(list.as_array().unwrap(), &shown);
    assert_eq!(devices.inverter_ids, vec!["17", "x"]);
    assert_eq!(devices.battery_ids, vec!["-4"]);
    assert_eq!(devices.meter_ids, vec!["NE=1", "shown4"]);
}

#[test]
fn replies_are_read_from_their_text() {
    let mut h = huawei(None);
    h.finish_login(Some(&login_reply()), at(NOON)).unwrap();
    let mut read = |text: &str| h.read_reply("/p", Got::Body(text.to_string()));
    let answer = read(
        r#"{"success":true,"data":[{"id":1},{"devId":2.50},{"id":"x","devId":2.5},{},{"devDn":1e30}]}"#,
    )
    .unwrap();
    assert_eq!(answer.ids, vec!["", "2.5", "", "", "1e+30"]);
    assert_eq!(to_value(&answer.json)["data"][0]["id"], 1);
    assert!(read(r#"{"success":true}"#).unwrap().ids.is_empty());
    // What is shown of a reply is the reply written in one line.
    let refused = r#"{ "success" : false, "data": [1.0, "a"] }"#;
    assert_eq!(
        read(refused).unwrap_err(),
        format!("FusionSolar API error on /p: {}", parse(refused))
    );
    assert_eq!(read("{").unwrap_err(), "FusionSolar parse /p response");
    assert_eq!(
        h.read_reply("/p", Got::Unreachable).unwrap_err(),
        "FusionSolar POST /p failed"
    );
    assert!(h.session.is_some());
    assert_eq!(
        h.read_reply("/p", Got::Body(r#"{"failCode":305}"#.to_string())).unwrap_err(),
        "FusionSolar token expired (failCode 305)"
    );
    assert!(h.session.is_none());
}

fn ask(step: Step) -> Query {
    match step {
        Step::Ask(q) => q,
        Step::Finished(r) => panic!("{:?}", r),
    }
}

#[test]
fn a_survey_asks_for_everything_once() {
    let mut h = huawei(None);
    let mut survey = Survey::new();
    let none: Vec<String> = vec![];
    let q = ask(h.begin());
    assert_eq!(q, Query::Stations);
    assert_eq!(q.path(), "/thirdData/stations");
    assert_eq!(to_value(&h.query_body(q)), parse(r#"{"pageNo":1}"#));
    let q = ask(h.proceed(&mut survey, q, Err("no".to_string()), &none));
    assert_eq!(q, Query::StationList);
    assert_eq!(q.path(), "/thirdData/getStationList");
    assert_eq!(to_value(&h.query_body(q)), parse("{}"));
    let q = ask(h.proceed(&mut survey, q, Ok(&json(r#"{"data":[{"stationCode":"S"}]}"#)), &none));
    assert_eq!(q, Query::Devices);
    assert_eq!(q.path(), "/thirdData/getDevList");
    assert_eq!(to_value(&h.query_body(q)), parse(r#"{"stationCodes":"S"}"#));
    let devices = json(
        r#"{"data":[{"id":1,"devTypeId":1},{"id":2,"devTypeId":38},{"id":3,"devTypeId":39},{"id":4,"devTypeId":47}]}"#,
    );
    let q = ask(h.proceed(&mut survey, q, Ok(&devices), &none));
    assert_eq!(q, Query::HomeInverters);
    assert_eq!(q.path(), "/thirdData/getDevRealKpi");
    assert_eq!(to_value(&h.query_body(q)), parse(r#"{"devIds":"1,2","devTypeId":38}"#));
    let empty = json(r#"{"data":[{"dataItemMap":{}}]}"#);
    let q = ask(h.proceed(&mut survey, q, Ok(&empty), &none));
    assert_eq!(q, Query::StringInverters);
    assert_eq!(to_value(&h.query_body(q)), parse(r#"{"devIds":"1,2","devTypeId":1}"#));
    let rows = json(
        r#"{"data":[{"dataItemMap":{"active_power":1.5}},{"x":1},{"dataItemMap":{"active_power":2}}]}"#,
    );
    let q = ask(h.proceed(&mut survey, q, Ok(&rows), &none));
    assert_eq!(q, Query::Batteries);
    assert_eq!(to_value(&h.query_body(q)), parse(r#"{"devIds":"3","devTypeId":39}"#));
    let rows = json(r#"{"data":[{"dataItemMap":{"battery_soc":61.5,"ch_discharge_power":-0.5}}]}"#);
    let q = ask(h.proceed(&mut survey, q, Ok(&rows), &none));
    assert_eq!(q, Query::Meters);
    assert_eq!(to_value(&h.query_body(q)), parse(r#"{"devIds":"4","devTypeId":47}"#));
    let rows = json(r#"{"data":[{"dataItemMap":{"active_power":0.25}}]}"#);
    match h.proceed(&mut survey, q, Ok(&rows), &none) {
        Step::Finished(Ok(status)) => {
            assert_eq!(status.soc, 62);
            assert_eq!(status.pv_power, d(3.5));
            assert_eq!(status.battery_power, d(-0.5));
            assert_eq!(status.grid_power, d(0.25));
            assert_eq!(status.load_power, d(3.25));
        }
        other => panic!("{:?}", other),
    }
    // What is known is not asked again.
    assert_eq!(ask(h.begin()), Query::HomeInverters);
    h.devices = None;
    assert_eq!(ask(h.begin()), Query::Devices);
}

#[test]
fn a_survey_can_end_without_readings() {
    let mut h = huawei(Some("S"));
    h.invert_grid_sign = true;
    let none: Vec<String> = vec![];
    let mut survey = Survey::new();
    let q = ask(h.begin());
    assert_eq!(q, Query::Devices);
    match h.proceed(&mut survey, q, Ok(&json("{}")), &none) {
        Step::Finished(Err(e)) => assert_eq!(e, "getDevList: no data"),
        other => panic!("{:?}", other),
    }
    match h.proceed(&mut survey, q, Err("lost".to_string()), &none) {
        Step::Finished(Err(e)) => assert_eq!(e, "lost"),
        other => panic!("{:?}", other),
    }
    match h.proceed(&mut survey, q, Ok(&json(r#"{"data":[]}"#)), &none) {
        Step::Finished(Err(e)) => assert_eq!(
            e,
            "FusionSolar: no usable data from any device (check station/device IDs)"
        ),
        other => panic!("{:?}", other),
    }
    // A meter alone, with the sign turned: the load is not below zero.
    let q = ask(h.proceed(
        &mut survey,
        Query::Devices,
        Ok(&json(r#"{"data":[{"id":4,"devTypeId":47}]}"#)),
        &none,
    ));
    assert_eq!(q, Query::Meters);
    let rows = json(r#"{"data":[{"dataItemMap":{"active_power":0.25}}]}"#);
    match h.proceed(&mut survey, q, Ok(&rows), &none) {
        Step::Finished(Ok(status)) => {
            assert_eq!(status.grid_power, d(-0.25));
            assert_eq!(status.load_power, d(0.0));
        }
        other => panic!("{:?}", other),
    }
}

#[test]
fn sources_are_those_that_are_switched_on() {
    let load = |list: &[(&str, &str)]| {
        let mut text: Vec<(String, String)> =
            list.iter().map(|(k, v)| (k.to_string(), v.to_string())).collect();
        for k in ["SSH_HOST", "SSH_USER", "SSH_PASS", "SHELLY_IP"] {
            text.push((k.to_string(), "x".to_string()));
        }
        load_config(&Environment { text, numbers: vec![] }).unwrap()
    };
    let s = DataSources::for_config(&load(&[]));
    assert_eq!(s.legacy.unwrap().url, "http://192.168.178.11/status/soc.txt");
    assert!(s.huawei.is_none() && s.solaredge.is_none() && s.live.is_none());
    let s = DataSources::for_config(&load(&[
        ("USE_LEGACY_STATUS", "false"),
        ("USE_LIVE_STATUS", "true"),
        ("USE_SOLAREDGE", "true"),
        ("SOLAREDGE_API_KEY", "k"),
        ("SOLAREDGE_SITE_ID", "7"),
        ("USE_HUAWEI", "true"),
        ("HUAWEI_USERNAME", "u"),
        ("HUAWEI_SYSTEM_CODE", "c"),
    ]));
    assert!(s.legacy.is_none() && !s.is_empty());
    assert_eq!(s.live.unwrap().url, "https://hoxdna.org/getEnergy");
    assert_eq!(s.solaredge.unwrap().site_id, "7");
    let h = s.huawei.unwrap();
    assert_eq!((h.username, h.system_code), ("u".to_string(), "c".to_string()));
    assert!(h.station_code.is_none());
    let s = DataSources::for_config(&load(&[("USE_LEGACY_STATUS", "false")]));
    assert!(s.is_empty());
}

#[test]
fn success_is_the_two_hundreds() {
    assert!(is_success(200) && is_success(299));
    assert!(!is_success(199) && !is_success(300) && !is_success(404));
}

#[test]
fn bodies_are_read_as_json() {
    let body = |text: &str| read_body(Got::Body(text.to_string()));
    assert!(matches!(body("{"), Got::Unreadable));
    assert!(matches!(body(""), Got::Unreadable));
    match body(r#"{"siteCurrentPowerFlow":{"unit":"W","PV":{"currentPower":1500}}}"#) {
        Got::Body(json) => {
            let source = SolarEdgeSource {
                api_url: String::new(),
                api_key: String::new(),
                site_id: String::new(),
            };
            assert_eq!(source.fetch(&Got::Body(json)).unwrap().pv_power, d(1.5));
        }
        _ => panic!("not read"),
    }
    assert!(matches!(read_body(Got::Unreachable), Got::Unreachable));
    assert!(matches!(read_body(Got::Unreadable), Got::Unreadable));
    assert!(matches!(read_body(Got::Refused("404".to_string())), Got::Refused(s) if s == "404"));
}
