//! Times, sessions, addresses and texts.

use energy_controller::analysis::CompressorState;
use energy_controller::commands::{
    price_url, relay_url, soc_command, ssh_address, weather_url, Service, SshOutcome,
};
use energy_controller::config::{load_config, Config};
use energy_controller::double::Double;
use energy_controller::environment::Environment;
use energy_controller::json::Json;
use energy_controller::moment::{iso_from_millis, iso_from_seconds, read_local_hour, Moment};
use energy_controller::order::sort;
use energy_controller::text::{
    find_char, join, read_signed, read_unsigned, replace, same, same_ignoring_case, trim,
    trim_end_slashes, up_to, write_decimal, write_digits,
};
use energy_controller::transport::{
    acknowledge, message_endpoint, new_session_id, receive_message, Delivery, Received, Sessions,
};
use energy_controller::web::{alarm_code_url, fill_page, AlarmReply, ALARM_STATUS_URL};

fn at(secs: i64, nanos: u32) -> Moment {
    Moment::of(secs, nanos).unwrap()
}

fn settings(on_to_block: &str) -> Config {
    let text = [
        ("SSH_HOST", "victron"),
        ("SSH_USER", "root"),
        ("SSH_PASS", "pw"),
        ("SHELLY_IP", "10.0.0.5"),
        ("RELAY_ON_TO_BLOCK", on_to_block),
    ]
    .iter()
    .map(|(k, v)| (k.to_string(), v.to_string()))
    .collect();
    load_config(&Environment { text, numbers: vec![] }).unwrap()
}

#[test]
fn times_are_read_on_the_local_clock() {
    let winter = at(1_705_321_500, 0); // 2024-01-15 12:25 UTC
    assert_eq!(winter.hour_text(), "2024-01-15T13:00");
    assert_eq!(winter.clock_text(), "13:25");
    assert_eq!(winter.local_hour_of_day(), 13);
    assert_eq!(winter.utc_month(), 1);
    let summer = at(1_721_082_300, 0); // 2024-07-15 22:25 UTC
    assert_eq!(summer.hour_text(), "2024-07-16T00:00");
    assert_eq!(summer.clock_text(), "00:25");
    assert_eq!(summer.utc_month(), 7);
    assert_eq!(summer.local_day() - summer.utc_day() as i64, 1);
    let early = at(-1, 500_000_000); // just before 1970
    assert_eq!(early.hour_text(), "1970-01-01T00:00");
    assert_eq!(early.utc_month(), 12);
    assert_eq!(early.to_millis(), -500);
}

#[test]
fn moments_are_checked_and_moved() {
    assert!(Moment::of(0, 999_999_999).is_some());
    assert!(Moment::of(0, 1_000_000_000).is_none());
    // A leap second is the last of a minute.
    let leap = at(1_483_228_799, 1_500_000_000);
    assert!(leap.is_valid() && !leap.is_on_clock());
    assert_eq!(leap.plus_seconds(10), at(1_483_228_809, 500_000_000));
    assert_eq!(leap.plus_seconds(-10), at(1_483_228_790, 500_000_000));
    assert_eq!(leap.plus_seconds(0), leap);
    assert!(Moment::of(-1, 1_200_000_000).is_some());
    assert!(Moment::of(i64::MAX, 0).is_none());
    assert!(at(5, 0).is_before(at(5, 1)) && !at(5, 1).is_before(at(5, 1)));
    assert_eq!(at(7, 5).nanos_since(at(5, 10)), 1_999_999_995);
    assert!(at(0, 0).can_move_hours(24) && !at(0, 0).can_move_hours(i64::MAX));
}

#[test]
fn forecast_times_are_read() {
    let hour = read_local_hour("2024-07-15T12:00").unwrap();
    assert_eq!(hour.secs, 1_721_037_600);
    assert_eq!(hour.day, at(1_721_037_600, 0).local_day());
    let hour = read_local_hour("2024-01-15T00:30").unwrap();
    assert_eq!(hour.secs, 1_705_275_000);
    assert_eq!(hour.day, 738_900);
    assert!(read_local_hour("2024-03-31T02:30").is_none());
    assert!(read_local_hour("2024-10-27T02:30").is_none());
    assert!(read_local_hour("2024-01-15 00:30").is_none());
    assert!(read_local_hour("").is_none());
}

#[test]
fn a_full_hour_is_found_again_by_its_label() {
    for text in ["2024-01-15T00:00", "2024-02-29T23:00", "2024-07-15T12:00", "1999-12-31T09:00"] {
        let hour = read_local_hour(text).unwrap();
        assert_eq!(at(hour.secs, 0).hour_text(), text);
        assert_eq!(at(hour.secs, 0).local_day(), hour.day);
    }
}

#[test]
fn days_have_the_dates_of_the_gregorian_calendar() {
    let date = |day: i32| price_url(day).rsplit('/').next().unwrap().to_string();
    assert_eq!(date(738_945), "2024-02-29");
    assert_eq!(date(738_946), "2024-03-01");
    assert_eq!(date(719_163), "1970-01-01");
    assert_eq!(date(693_655), "1900-03-01");
    assert_eq!(date(693_654), "1900-02-28");
    assert_eq!(date(1), "0001-01-01");
    assert_eq!(date(0), "0000-12-31");
    assert_eq!(date(-366), "-0001-12-31");
    assert_eq!(date(3_652_059), "9999-12-31");
    assert_eq!(date(3_652_060), "+10000-01-01");
    assert_eq!(at(1_709_251_199, 0).utc_month(), 2);
    assert_eq!(at(1_709_251_200, 0).utc_month(), 3);
}

#[test]
fn times_are_written_as_iso_8601() {
    assert_eq!(iso_from_millis(1_700_000_000_000), "2023-11-14T22:13:20+00:00");
    assert_eq!(iso_from_millis(1_700_000_000_123), "2023-11-14T22:13:20.123+00:00");
    assert_eq!(iso_from_millis(-1), "1969-12-31T23:59:59.999+00:00");
    assert_eq!(iso_from_millis(i64::MAX), "");
    // The ends of the calendar.
    let last = 8_210_266_876_799i64;
    let first = -8_334_601_228_800i64;
    for millis in [last * 1000 + 999, last * 1000 + 1000, first * 1000, first * 1000 - 1] {
        let expected = chrono::DateTime::<chrono::Utc>::from_timestamp_millis(millis)
            .map(|t| t.to_rfc3339())
            .unwrap_or_default();
        assert_eq!(iso_from_millis(millis), expected);
        assert_eq!(expected.is_empty(), millis / 1000 > last || millis < first * 1000);
    }
    let seconds = |x: f64| iso_from_seconds(Double { bits: x.to_bits() });
    assert_eq!(seconds(1_700_000_000.9), "2023-11-14T22:13:20+00:00");
    assert_eq!(seconds(1e18), "");
    assert_eq!(seconds(f64::NAN), "1970-01-01T00:00:00+00:00");
}

#[test]
fn sessions_have_names_of_their_own() {
    let now = at(1_705_320_000, 5);
    assert_eq!(new_session_id(now, 0), format!("{:x}-{:x}", 1_705_320_000_000_000_005i64, 0));
    assert_eq!(new_session_id(now, 255), format!("{:x}-ff", 1_705_320_000_000_000_005i64));
    assert_ne!(new_session_id(now, 1), new_session_id(now, 2));
    assert_eq!(new_session_id(at(-1, 0), 3), format!("{:x}-3", -1_000_000_000i64));
    // Too far away for 64 bits.
    assert_eq!(new_session_id(at(10_000_000_000, 0), 3), "0-3");
    assert_eq!(message_endpoint("/energy", "1-2"), "/energy/mcp/messages?sessionId=1-2");
    assert_eq!(message_endpoint("", "1-2"), "/mcp/messages?sessionId=1-2");
}

#[test]
fn sessions_are_opened_and_closed() {
    let now = at(1_705_320_000, 5);
    let mut sessions: Sessions<u8> = Sessions::new();
    assert!(sessions.has_room());
    let first = sessions.open(now, "/energy", 10);
    let second = sessions.open(now, "", 20);
    assert_eq!(first.session, new_session_id(now, 0));
    assert_eq!(first.endpoint, format!("/energy/mcp/messages?sessionId={}", first.session));
    assert_eq!(second.session, new_session_id(now, 1));
    assert_eq!(second.endpoint, format!("/mcp/messages?sessionId={}", second.session));
    assert_eq!(sessions.find(&first.session), Some(&10));
    assert_eq!(sessions.find(&second.session), Some(&20));
    assert_eq!(sessions.find("x"), None);
    assert_eq!(sessions.note_sent("x", None), Delivery::UnknownSession);
    assert_eq!(sessions.note_sent(&first.session, Some(true)), Delivery::Delivered);
    assert_eq!(sessions.find(&first.session), Some(&10));
    assert_eq!(sessions.note_sent(&first.session, Some(false)), Delivery::Closed);
    assert_eq!(sessions.find(&first.session), None);
    assert_eq!(sessions.find(&second.session), Some(&20));
    assert_ne!(sessions.open(now, "", 30).session, first.session);
}

#[test]
fn messages_are_acknowledged() {
    let refused = |r: Received| match r {
        Received::Refused(h) => (h.status, h.body),
        Received::Taken(_) => panic!("taken"),
    };
    let message = Json::Object(vec![("id".to_string(), Json::Bool(true))]);
    assert_eq!(
        refused(receive_message(None, Ok(&message), None)),
        (400, "missing sessionId query parameter".to_string())
    );
    assert_eq!(
        refused(receive_message(Some("s"), Err("EOF"), None)),
        (400, "invalid JSON: EOF".to_string())
    );
    assert!(matches!(
        receive_message(Some("s"), Ok(&message), None),
        Received::Taken(Some(_))
    ));
    assert!(matches!(
        receive_message(Some("s"), Ok(&Json::Null), None),
        Received::Taken(None)
    ));
    let reply = |x: Delivery| {
        let h = acknowledge(x);
        (h.status, h.body)
    };
    assert_eq!(reply(Delivery::Nothing), (202, String::new()));
    assert_eq!(reply(Delivery::Delivered), (202, String::new()));
    assert_eq!(reply(Delivery::UnknownSession), (404, "unknown sessionId".to_string()));
    assert_eq!(reply(Delivery::Closed), (410, "session stream closed".to_string()));
}

#[test]
fn the_relay_is_switched_either_way() {
    let url = |on_to_block: &str, state| relay_url(&settings(on_to_block), state);
    assert_eq!(url("true", CompressorState::Blocked), "http://10.0.0.5/relay/0?turn=on");
    assert_eq!(url("true", CompressorState::Allowed), "http://10.0.0.5/relay/0?turn=off");
    assert_eq!(url("false", CompressorState::Blocked), "http://10.0.0.5/relay/0?turn=off");
    assert_eq!(url("false", CompressorState::Allowed), "http://10.0.0.5/relay/0?turn=on");
}

#[test]
fn requests_are_written() {
    assert_eq!(price_url(738_900), "https://i.spottyenergie.at/api/prices/public/2024-01-15");
    assert_eq!(
        weather_url("48.2082", "16.3738"),
        "https://api.open-meteo.com/v1/forecast?latitude=48.2082&longitude=16.3738&hourly=temperature_2m,shortwave_radiation&forecast_days=2&timezone=auto"
    );
    assert_eq!(alarm_code_url("1234"), "http://192.168.178.11:8081/code/1234");
    assert_eq!(ALARM_STATUS_URL, "http://192.168.178.11:8081/get_status");
    assert_eq!(ssh_address(&settings("true")), "victron:22");
    assert_eq!(
        soc_command(45),
        "dbus-send --system --print-reply --dest=com.victronenergy.settings \
         /Settings/CGwacs/BatteryLife/MinimumSocLimit \
         com.victronenergy.BusItem.SetValue variant:int32:45"
    );
}

#[test]
fn replies_that_are_no_success_are_told() {
    assert!(Service::Relay.check(204, "204 No Content").is_ok());
    assert_eq!(
        Service::Relay.check(500, "500 Internal Server Error").unwrap_err(),
        "Shelly device responded with status: 500 Internal Server Error"
    );
    assert_eq!(
        Service::Prices.check(404, "404 Not Found").unwrap_err(),
        "API request failed with status: 404 Not Found"
    );
    assert_eq!(
        Service::Weather.check(301, "301 Moved Permanently").unwrap_err(),
        "Open-Meteo API failed: 301 Moved Permanently"
    );
}

#[test]
fn commands_succeed_or_tell_why() {
    let config = settings("true");
    assert!(SshOutcome::Exited(0).result(&config).is_ok());
    let error = |x: SshOutcome| x.result(&config).unwrap_err();
    assert_eq!(error(SshOutcome::Exited(-2)), "SSH command failed with exit status -2");
    assert_eq!(error(SshOutcome::Unreachable), "Failed to connect to SSH host victron");
    assert_eq!(
        error(SshOutcome::WrongPassword),
        "SSH authentication failed. Check user/password."
    );
    assert_eq!(error(SshOutcome::NotAuthenticated), "SSH authentication failed silently.");
    assert_eq!(error(SshOutcome::Failed("x".to_string())), "x");
}

#[test]
fn alarm_replies_are_passed_on() {
    let reply = |x: AlarmReply| {
        let h = x.pass_on();
        (h.status, h.body)
    };
    assert_eq!(reply(AlarmReply::Text("armed".to_string())), (200, "armed".to_string()));
    assert_eq!(reply(AlarmReply::Unreadable), (500, "Error reading response".to_string()));
    assert_eq!(
        reply(AlarmReply::Unreachable),
        (502, "Error connecting to alarm system".to_string())
    );
}

#[test]
fn pages_are_filled() {
    assert_eq!(
        fill_page("<a href=\"{{APP_CONTEXT_PATH}}/x\">{{APP_CONTEXT_PATH}}</a>é", "/energy"),
        "<a href=\"/energy/x\">/energy</a>é"
    );
    assert_eq!(fill_page("{{{APP_CONTEXT_PATH}}}", ""), "{}");
    for (s, p, w) in [
        ("aaaa", "aa", "b"),
        ("abcabc", "bc", "xyz"),
        ("", "a", "b"),
        ("a", "ab", "c"),
        ("öäöä", "ä", ""),
    ] {
        assert_eq!(replace(s, p, w), s.replace(p, w));
    }
}

#[test]
fn texts_are_taken_apart() {
    for s in ["", " ", "\t a b \u{a0}", "\u{2003}x\u{3000}", "\u{200b}x", "é "] {
        assert_eq!(trim(s), s.trim());
    }
    for s in ["", "/", "a//", "/a/b", "//"] {
        assert_eq!(trim_end_slashes(s), s.trim_end_matches('/'));
    }
    assert_eq!(up_to("a=b; c", ';'), "a=b");
    assert_eq!(up_to("ab", ';'), "ab");
    assert_eq!(find_char("éx=y=", '='), Some(2));
    assert_eq!(find_char("", '='), None);
    assert!(same("ab", "ab") && !same("ab", "aB") && !same("ab", "abc"));
    for (a, b) in [("XSRF-TOKEN", "xsrf-token"), ("GRID", "Grid"), ("a", "b"), ("É", "é"), ("[", "{")] {
        assert_eq!(same_ignoring_case(a, b), a.eq_ignore_ascii_case(b));
    }
    let list = vec!["a".to_string(), "".to_string(), "b".to_string()];
    assert_eq!(join(&list, ", "), "a, , b");
    assert_eq!(join(&vec![], ", "), "");
}

#[test]
fn numbers_are_written_and_read() {
    for n in [0, 1, 9, 10, 255, 4096, u64::MAX] {
        assert_eq!(write_digits(n, 10), n.to_string());
        assert_eq!(write_digits(n, 16), format!("{:x}", n));
        assert_eq!(read_unsigned(&n.to_string(), u64::MAX), Ok(n));
    }
    for n in [0, -1, 42, i64::MIN, i64::MAX] {
        assert_eq!(write_decimal(n), n.to_string());
        assert_eq!(read_signed(&n.to_string()), Ok(n));
    }
    for s in [
        "", "+", "-", "+5", "-0", "007", " 1", "1_000", "²", "256", "--1", "+-1", "99x", "999x", "9x9",
        "-999", "9223372036854775807", "9223372036854775808", "-9223372036854775808",
        "-9223372036854775809", "99999999999999999999999x", "-99999999999999999999999x", "1é",
    ] {
        assert_eq!(
            read_unsigned(s, 255).map_err(|e| e.text()),
            s.parse::<u8>().map(|n| n as u64).map_err(|e| e.to_string())
        );
        assert_eq!(
            read_signed(s).map_err(|e| e.text()),
            s.parse::<i64>().map_err(|e| e.to_string())
        );
    }
}

#[test]
fn sorting_keeps_the_order_of_equals() {
    let d = |x: f64| Double { bits: x.to_bits() };
    let sorted = sort(&vec![d(3.0), d(-0.0), d(1.0), d(0.0), d(-2.0)]);
    assert_eq!(sorted, vec![d(-2.0), d(-0.0), d(0.0), d(1.0), d(3.0)]);
}
