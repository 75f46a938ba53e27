//! The FusionSolar service of Huawei: sessions, stations, devices and their readings.

use serde_json::Value;
use vstd::prelude::*;
use vstd::string::*;

use crate::datasource::{seen_body, seen_got, seen_result, Got};
use crate::double::{less, opposite, rounded_half_up, saturated, sum, with_sign, Double};
use crate::json::{
    double_of, field_of, find_field, from_value, get_in, integer_of, is_fraction, item_views,
    items_of, no_fields, parse_json, parse_value, parsed_json, print_value, printed_json, seen,
    signed_number, text_of, value_field, value_items, value_view, Fields, Json, JsonNumber,
    JsonView,
};
use crate::moment::Moment;
use crate::status::{reading, StatusView, SystemStatus};
use crate::text::{
    before, decimal, find_char, first_at, join, joined, same_ignoring_case, same_letters, trim,
    trim_end_slashes, trimmed_end, trimmed_start, up_to, views, without_end, write_decimal,
    write_digits,
};

verus! {

/// A login that is in force: the token and the cookies to send, and since when.
#[derive(Debug)]
pub struct HuaweiSession {
    pub xsrf_token: String,
    pub cookie_header: String,
    pub logged_in_at: Moment,
}

/// The devices of a station, by kind.
#[derive(Debug)]
pub struct HuaweiDevices {
    pub inverter_ids: Vec<String>,
    pub battery_ids: Vec<String>,
    pub meter_ids: Vec<String>,
}

/// An account, and what has been learned with it.
#[derive(Debug)]
pub struct HuaweiSource {
    pub api_url: String,
    pub username: String,
    pub system_code: String,
    pub station_code: Option<String>,
    pub invert_grid_sign: bool,
    pub session: Option<HuaweiSession>,
    pub devices: Option<HuaweiDevices>,
}

/// The contents of a session.
#[verifier::ext_equal]
pub struct SessionView {
    pub xsrf_token: Seq<char>,
    pub cookie_header: Seq<char>,
    pub logged_in_at: Moment,
}

/// The contents of a list of devices.
#[verifier::ext_equal]
pub struct DevicesView {
    pub inverter_ids: Seq<Seq<char>>,
    pub battery_ids: Seq<Seq<char>>,
    pub meter_ids: Seq<Seq<char>>,
}

/// The contents of a source.
#[verifier::ext_equal]
pub struct HuaweiView {
    pub api_url: Seq<char>,
    pub username: Seq<char>,
    pub system_code: Seq<char>,
    pub station_code: Option<Seq<char>>,
    pub invert_grid_sign: bool,
    pub session: Option<SessionView>,
    pub devices: Option<DevicesView>,
}

impl View for HuaweiSession {
    type V = SessionView;

    open spec fn view(&self) -> SessionView {
        SessionView {
            xsrf_token: self.xsrf_token@,
            cookie_header: self.cookie_header@,
            logged_in_at: self.logged_in_at,
        }
    }
}

impl View for HuaweiDevices {
    type V = DevicesView;

    open spec fn view(&self) -> DevicesView {
        DevicesView {
            inverter_ids: views(self.inverter_ids@),
            battery_ids: views(self.battery_ids@),
            meter_ids: views(self.meter_ids@),
        }
    }
}

/// The contents of an optional text.
pub open spec fn seen_text(text: Option<String>) -> Option<Seq<char>> {
    match text {
        Some(s) => Some(s@),
        None => None,
    }
}

impl View for HuaweiSource {
    type V = HuaweiView;

    open spec fn view(&self) -> HuaweiView {
        HuaweiView {
            api_url: self.api_url@,
            username: self.username@,
            system_code: self.system_code@,
            station_code: seen_text(self.station_code),
            invert_grid_sign: self.invert_grid_sign,
            session: match self.session {
                Some(s) => Some(s@),
                None => None,
            },
            devices: match self.devices {
                Some(d) => Some(d@),
                None => None,
            },
        }
    }
}

impl HuaweiSource {
    /// An account with which nothing has been done yet.
    pub fn new(
        api_url: String,
        username: String,
        system_code: String,
        station_code: Option<String>,
        invert_grid_sign: bool,
    ) -> (r: HuaweiSource)
        ensures
            r@ == (HuaweiView {
                api_url: api_url@,
                username: username@,
                system_code: system_code@,
                station_code: seen_text(station_code),
                invert_grid_sign,
                session: None,
                devices: None,
            }),
    {
        HuaweiSource {
            api_url,
            username,
            system_code,
            station_code,
            invert_grid_sign,
            session: None,
            devices: None,
        }
    }
}

/// A session lasts 25 whole minutes, which leaves time before it expires.
pub open spec fn is_stale(session: Option<SessionView>, now: Moment) -> bool {
    match session {
        Some(s) => now.since_epoch() - s.logged_in_at.since_epoch() >= 26 * 60_000_000_000,
        None => true,
    }
}

/// The name and the value that a cookie sets.
pub open spec fn cookie_pair(header: Seq<char>) -> Option<(Seq<char>, Seq<char>)> {
    let cookie = cookie_text(header);
    match first_at(cookie, '=') {
        Some(i) => Some((cookie.take(i as int), cookie.skip(i as int + 1))),
        None => None,
    }
}

/// A cookie without its attributes.
pub open spec fn cookie_text(header: Seq<char>) -> Seq<char> {
    trimmed_end(trimmed_start(before(header, ';')))
}

/// The cookies that some headers set.
pub open spec fn cookie_list(headers: Seq<Seq<char>>) -> Seq<Seq<char>>
    decreases headers.len(),
{
    if headers.len() == 0 {
        seq![]
    } else if cookie_pair(headers.last()) is Some {
        cookie_list(headers.drop_last()).push(cookie_text(headers.last()))
    } else {
        cookie_list(headers.drop_last())
    }
}

/// The token that some headers set, the last one where there are several.
pub open spec fn token_of(headers: Seq<Seq<char>>) -> Option<Seq<char>>
    decreases headers.len(),
{
    if headers.len() == 0 {
        None
    } else {
        match cookie_pair(headers.last()) {
            Some(pair) if same_letters(pair.0, "XSRF-TOKEN"@) => Some(pair.1),
            _ => token_of(headers.drop_last()),
        }
    }
}

/// A reply to a login.
#[derive(Debug)]
pub struct LoginReply {
    pub success: bool,
    /// The status as it is to be shown.
    pub status: String,
    /// The `Set-Cookie` headers.
    pub cookies: Vec<String>,
    pub text: String,
}

/// Why a login failed, if it did; there may have been no reply.
pub open spec fn login_problem(reply: Option<&LoginReply>) -> Option<Seq<char>> {
    match reply {
        Some(r) => r.problem(r.body()),
        None => Some("FusionSolar login request failed"@),
    }
}

impl LoginReply {
    /// The text as JSON, where it is JSON.
    pub open spec fn body(&self) -> Option<JsonView> {
        match parsed_json(self.text@) {
            Ok(json) => Some(json),
            Err(_) => None,
        }
    }

    /// Why the login failed, if it did; `body` is the text as JSON, where it is JSON.
    pub open spec fn problem(&self, body: Option<JsonView>) -> Option<Seq<char>> {
        if !self.success {
            Some("FusionSolar login HTTP "@ + self.status@ + ": "@ + self.text@)
        } else if body matches Some(json) && json.field("success"@) != Some(JsonView::Bool(true)) {
            Some("FusionSolar login failed: "@ + self.text@)
        } else if token_of(views(self.cookies@)) is None {
            Some("FusionSolar login: no XSRF-TOKEN cookie returned"@)
        } else {
            None
        }
    }

    /// The session that a login opens.
    pub open spec fn session(&self, now: Moment) -> SessionView {
        SessionView {
            xsrf_token: token_of(views(self.cookies@))->0,
            cookie_header: joined(cookie_list(views(self.cookies@)), "; "@),
            logged_in_at: now,
        }
    }
}

fn split_cookie(header: &str) -> (r: Option<(String, String, String)>)
    ensures
        cookie_pair(header@) == (match r {
            Some(t) => Some((t.0@, t.1@)),
            None => None,
        }),
        r matches Some(t) ==> t.2@ == cookie_text(header@),
{
    let cookie: String = trim(up_to(header, ';').as_str());
    match find_char(cookie.as_str(), '=') {
        Some(i) => {
            let n: usize = cookie.as_str().unicode_len();
            let name: String = cookie.as_str().substring_char(0, i).to_owned();
            let value: String = cookie.as_str().substring_char(i + 1, n).to_owned();
            assert(name@ == cookie@.take(i as int));
            assert(value@ == cookie@.skip(i as int + 1));
            Some((name, value, cookie))
        },
        None => None,
    }
}

impl HuaweiSource {
    /// Whether to log in before the next request.
    pub fn needs_login(&self, now: Moment) -> (r: bool)
        requires
            now.on_clock(),
            self@.session matches Some(s) ==> s.logged_in_at.on_clock(),
        ensures
            r == is_stale(self@.session, now),
    {
        match &self.session {
            Some(s) => now.nanos_since(s.logged_in_at) >= 26 * 60_000_000_000,
            None => true,
        }
    }

    /// The address of a path.
    pub open spec fn address(&self, path: Seq<char>) -> Seq<char> {
        without_end(self.api_url@, '/') + path
    }

    /// Writes the address of a path.
    pub fn url(&self, path: &str) -> (r: String)
        ensures
            r@ == self.address(path@),
    {
        trim_end_slashes(self.api_url.as_str()).concat(path)
    }

    /// Writes the address of the login.
    pub fn login_url(&self) -> (r: String)
        ensures
            r@ == self.address("/thirdData/login"@),
    {
        self.url("/thirdData/login")
    }

    /// Makes the body of a login.
    pub fn login_body(&self) -> (r: Json)
        ensures
            r@ == JsonView::Object(
                no_fields().push(("userName"@, JsonView::Text(self.username@))).push(
                    ("systemCode"@, JsonView::Text(self.system_code@)),
                ),
            ),
            r@.field("userName"@) == Some(JsonView::Text(self.username@)),
            r@.field("systemCode"@) == Some(JsonView::Text(self.system_code@)),
    {
        proof {
            reveal_strlit("userName");
            reveal_strlit("systemCode");
            assert("userName"@.len() == 8 && "systemCode"@.len() == 10);
            reveal_with_fuel(find_field, 3);
        }
        Fields::new().with("userName", Json::text(self.username.as_str())).with(
            "systemCode",
            Json::text(self.system_code.as_str()),
        ).done()
    }

    /// Takes a reply to a login, if there was one.
    pub fn finish_login(&mut self, reply: Option<&LoginReply>, now: Moment) -> (r: Result<
        (),
        String,
    >)
        ensures
            match r {
                Ok(_) => login_problem(reply) is None && final(self)@ == (HuaweiView {
                    session: Some(reply->0.session(now)),
                    ..old(self)@
                }),
                Err(e) => login_problem(reply) == Some(e@) && final(self)@ == old(self)@,
            },
    {
        match reply {
            Some(r) => match parse_json(r.text.as_str()) {
                Ok(json) => self.take_login(r, Some(&json), now),
                Err(_) => self.take_login(r, None, now),
            },
            None => Err("FusionSolar login request failed".to_owned()),
        }
    }

    /// Takes a reply to a login; `body` is its text as JSON, where it is JSON.
    pub fn take_login(
        &mut self,
        reply: &LoginReply,
        body: Option<&Json>,
        now: Moment,
    ) -> (r: Result<(), String>)
        ensures
            match r {
                Ok(_) => reply.problem(seen(body)) is None && final(self)@ == (HuaweiView {
                    session: Some(reply.session(now)),
                    ..old(self)@
                }),
                Err(e) => reply.problem(seen(body)) == Some(e@) && final(self)@ == old(self)@,
            },
    {
        if !reply.success {
            return Err(
                "FusionSolar login HTTP ".to_owned().concat(reply.status.as_str()).concat(
                    ": ",
                ).concat(reply.text.as_str()),
            );
        }
        match body {
            Some(json) => {
                let success: bool = match json.get("success") {
                    Some(j) => j.is_true(),
                    None => false,
                };
                if !success {
                    return Err(
                        "FusionSolar login failed: ".to_owned().concat(reply.text.as_str()),
                    );
                }
            },
            None => {},
        }
        let ghost headers = views(reply.cookies@);
        let mut token: Option<String> = None;
        let mut cookies: Vec<String> = Vec::new();
        let mut i: usize = 0;
        assert(headers.take(0) =~= Seq::<Seq<char>>::empty());
        assert(views(cookies@) =~= Seq::<Seq<char>>::empty());
        while i < reply.cookies.len()
            invariant
                i <= reply.cookies.len(),
                headers == views(reply.cookies@),
                seen_text(token) == token_of(headers.take(i as int)),
                views(cookies@) == cookie_list(headers.take(i as int)),
            decreases reply.cookies.len() - i,
        {
            let ghost now_headers = headers.take(i + 1);
            assert(now_headers.drop_last() == headers.take(i as int));
            assert(now_headers.last() == reply.cookies@[i as int]@);
            match split_cookie(reply.cookies[i].as_str()) {
                Some((name, value, cookie)) => {
                    if same_ignoring_case(name.as_str(), "XSRF-TOKEN") {
                        token = Some(value);
                    }
                    let ghost list = views(cookies@);
                    let ghost text = cookie@;
                    cookies.push(cookie);
                    assert(views(cookies@) =~= list.push(text));
                },
                None => {},
            }
            i = i + 1;
        }
        assert(headers.take(i as int) == headers);
        match token {
            Some(xsrf_token) => {
                self.session = Some(
                    HuaweiSession {
                        xsrf_token,
                        cookie_header: join(&cookies, "; "),
                        logged_in_at: now,
                    },
                );
                Ok(())
            },
            None => Err("FusionSolar login: no XSRF-TOKEN cookie returned".to_owned()),
        }
    }
}

/// The fail code of a reply that stands for an expired session.
pub open spec fn expired(json: JsonView) -> Option<i64> {
    match integer_of(json.field("failCode"@)) {
        Some(code) if code == 305 || code == 401 => Some(code),
        _ => None,
    }
}

/// Why a reply cannot be used, if it cannot; `text` is the reply as it is to be shown.
pub open spec fn reply_problem(path: Seq<char>, got: Got<JsonView>, text: Seq<char>) -> Option<
    Seq<char>,
> {
    match got {
        Got::Unreachable => Some("FusionSolar POST "@ + path + " failed"@),
        Got::Refused(status) => Some("FusionSolar POST "@ + path + " HTTP "@ + status@),
        Got::Unreadable => Some("FusionSolar parse "@ + path + " response"@),
        Got::Body(json) => match expired(json) {
            Some(code) => Some(
                "FusionSolar token expired (failCode "@ + decimal(code as int) + ")"@,
            ),
            None => if json.field("success"@) == Some(JsonView::Bool(true)) {
                None
            } else {
                Some("FusionSolar API error on "@ + path + ": "@ + text)
            },
        },
    }
}

/// What is shown of a reply.
pub open spec fn shown_reply(got: Got<JsonView>) -> Seq<char> {
    match got {
        Got::Body(json) => printed_json(json),
        _ => seq![],
    }
}

/// A reply that can be used, and how the ids in it that are not integers are written, device by
/// device.
#[derive(Debug)]
pub struct Answer {
    pub json: Json,
    pub ids: Vec<String>,
}

impl HuaweiSource {
    /// Reads and checks a reply; one that tells of an expired session ends the session.
    pub fn read_reply(&mut self, path: &str, got: Got<String>) -> (r: Result<Answer, String>)
        ensures
            final(self)@ == (HuaweiView {
                session: if (seen_body(got) matches Got::Body(json) && expired(json) is Some) {
                    None
                } else {
                    old(self)@.session
                },
                ..old(self)@
            }),
            match r {
                Ok(answer) => {
                    &&& seen_body(got) == Got::Body(answer.json@)
                    &&& reply_problem(path@, seen_body(got), shown_reply(seen_body(got))) is None
                    &&& views(answer.ids@) == id_texts(answer.json@)
                },
                Err(e) => reply_problem(path@, seen_body(got), shown_reply(seen_body(got)))
                    == Some(e@),
            },
    {
        let mut shown: String = String::new();
        let mut ids: Vec<String> = Vec::new();
        let read: Got<Json> = match got {
            Got::Unreachable => Got::Unreachable,
            Got::Refused(status) => Got::Refused(status),
            Got::Unreadable => Got::Unreadable,
            Got::Body(text) => match parse_value(text.as_str()) {
                Ok(value) => {
                    shown = print_value(&value);
                    ids = write_ids(&value);
                    Got::Body(from_value(&value))
                },
                Err(_) => Got::Unreadable,
            },
        };
        assert(seen_got(read) == seen_body(got));
        self.check_reply(path, &read, shown.as_str())?;
        match read {
            Got::Body(json) => Ok(Answer { json, ids }),
            _ => Err(shown),
        }
    }

    /// Checks a reply; one that tells of an expired session ends the session.
    pub fn check_reply(&mut self, path: &str, got: &Got<Json>, text: &str) -> (r: Result<
        (),
        String,
    >)
        ensures
            final(self)@ == (HuaweiView {
                session: if (got matches Got::Body(json) && expired(json@) is Some) {
                    None
                } else {
                    old(self)@.session
                },
                ..old(self)@
            }),
            reply_problem(path@, seen_got(*got), text@) == (match r {
                Ok(_) => None,
                Err(e) => Some(e@),
            }),
    {
        match got {
            Got::Unreachable => Err(
                "FusionSolar POST ".to_owned().concat(path).concat(" failed"),
            ),
            Got::Refused(status) => Err(
                "FusionSolar POST ".to_owned().concat(path).concat(" HTTP ").concat(
                    status.as_str(),
                ),
            ),
            Got::Unreadable => Err(
                "FusionSolar parse ".to_owned().concat(path).concat(" response"),
            ),
            Got::Body(json) => {
                let code: Option<i64> = match json.get("failCode") {
                    Some(j) => j.as_i64(),
                    None => None,
                };
                match code {
                    Some(c) => {
                        if c == 305 || c == 401 {
                            self.session = None;
                            return Err(
                                "FusionSolar token expired (failCode ".to_owned().concat(
                                    write_decimal(c).as_str(),
                                ).concat(")"),
                            );
                        }
                    },
                    None => {},
                }
                let success: bool = match json.get("success") {
                    Some(j) => j.is_true(),
                    None => false,
                };
                if success {
                    Ok(())
                } else {
                    Err(
                        "FusionSolar API error on ".to_owned().concat(path).concat(": ").concat(
                            text,
                        ),
                    )
                }
            },
        }
    }
}

/// The stations in a reply.
pub open spec fn stations_of(reply: JsonView) -> Option<Seq<JsonView>> {
    match reply.field("data"@) {
        Some(data) => match items_of(data.field("list"@)) {
            Some(list) => Some(list),
            None => data.items(),
        },
        None => None,
    }
}

/// The code of a station.
pub open spec fn station_name(station: JsonView) -> Option<Seq<char>> {
    text_of(
        if station.field("plantCode"@) is Some {
            station.field("plantCode"@)
        } else {
            station.field("stationCode"@)
        },
    )
}

/// The code of the first station in a reply.
pub open spec fn station_in(reply: JsonView) -> Result<Seq<char>, Seq<char>> {
    match stations_of(reply) {
        None => Err("getStationList: no data array"@),
        Some(list) => if list.len() == 0 {
            Err("getStationList: empty list"@)
        } else {
            match station_name(list[0]) {
                Some(code) => Ok(code),
                None => Err("getStationList: no station/plant code field"@),
            }
        },
    }
}

/// Finds the code of the first station in a reply.
pub fn find_station(reply: &Json) -> (r: Result<String, String>)
    ensures
        station_in(reply@) == (match r {
            Ok(s) => Ok(s@),
            Err(e) => Err(e@),
        }),
{
    let data: Option<&Json> = reply.get("data");
    let mut list: Option<&Vec<Json>> = None;
    match data {
        Some(d) => {
            match d.get("list") {
                Some(l) => {
                    list = l.as_array();
                },
                None => {},
            }
            if list.is_none() {
                list = d.as_array();
            }
        },
        None => {},
    }
    match list {
        None => Err("getStationList: no data array".to_owned()),
        Some(stations) => {
            if stations.len() == 0 {
                return Err("getStationList: empty list".to_owned());
            }
            let first: &Json = &stations[0];
            assert(item_views(stations@)[0] == first@);
            let code: Option<&Json> = match first.get("plantCode") {
                Some(j) => Some(j),
                None => first.get("stationCode"),
            };
            match code {
                Some(j) => match j.as_str() {
                    Some(s) => Ok(s.to_owned()),
                    None => Err("getStationList: no station/plant code field".to_owned()),
                },
                None => Err("getStationList: no station/plant code field".to_owned()),
            }
        },
    }
}

/// The field that holds the id of a device.
pub open spec fn id_field(device: JsonView) -> Option<JsonView> {
    if device.field("id"@) is Some {
        device.field("id"@)
    } else if device.field("devId"@) is Some {
        device.field("devId"@)
    } else {
        device.field("devDn"@)
    }
}

/// The id of a device; `shown` is how an id that is not an integer is written.
pub open spec fn device_id(device: JsonView, shown: Seq<char>) -> Option<Seq<char>> {
    match id_field(device) {
        Some(JsonView::Number(JsonNumber::Unsigned(n))) => Some(decimal(n as int)),
        Some(JsonView::Number(JsonNumber::Negative(n))) => Some(decimal(n as int)),
        Some(JsonView::Number(JsonNumber::Float(_))) => Some(shown),
        Some(JsonView::Text(s)) => Some(s),
        _ => None,
    }
}

/// How the id of the device at `i` is written, where it is not an integer.
pub open spec fn shown_at(shown: Seq<Seq<char>>, i: int) -> Seq<char> {
    if 0 <= i < shown.len() {
        shown[i]
    } else {
        seq![]
    }
}

/// The kinds of devices: inverters of strings and of homes, batteries and meters.
pub open spec fn with_device(
    devices: DevicesView,
    id: Option<Seq<char>>,
    kind: Option<i64>,
) -> DevicesView {
    match (id, kind) {
        (Some(id), Some(kind)) => if kind == 1 || kind == 38 {
            DevicesView { inverter_ids: devices.inverter_ids.push(id), ..devices }
        } else if kind == 39 {
            DevicesView { battery_ids: devices.battery_ids.push(id), ..devices }
        } else if kind == 47 {
            DevicesView { meter_ids: devices.meter_ids.push(id), ..devices }
        } else {
            devices
        },
        _ => devices,
    }
}

/// The devices in the first `n` entries of a list.
pub open spec fn devices_in(list: Seq<JsonView>, shown: Seq<Seq<char>>, n: nat) -> DevicesView
    decreases n,
{
    if n == 0 {
        DevicesView { inverter_ids: seq![], battery_ids: seq![], meter_ids: seq![] }
    } else {
        let i = n - 1;
        with_device(
            devices_in(list, shown, i as nat),
            device_id(list[i], shown_at(shown, i)),
            integer_of(list[i].field("devTypeId"@)),
        )
    }
}

/// Finds the field that holds the id of a device.
fn id_of(device: &Json) -> (r: Option<&Json>)
    ensures
        seen(r) == id_field(device@),
{
    match device.get("id") {
        Some(j) => Some(j),
        None => match device.get("devId") {
            Some(j) => Some(j),
            None => device.get("devDn"),
        },
    }
}

fn find_id(device: &Json, shown: &str) -> (r: Option<String>)
    ensures
        device_id(device@, shown@) == seen_text(r),
{
    match id_of(device) {
        Some(Json::Number(JsonNumber::Unsigned(n))) => Some(write_digits(*n, 10)),
        Some(Json::Number(JsonNumber::Negative(n))) => Some(write_decimal(*n)),
        Some(Json::Number(JsonNumber::Float(_))) => Some(shown.to_owned()),
        Some(Json::Text(s)) => Some(s.as_str().to_owned()),
        _ => None,
    }
}

/// How the id of a device is written, where it is a number that is not an integer.
pub open spec fn id_text(device: JsonView) -> Seq<char> {
    match id_field(device) {
        Some(JsonView::Number(JsonNumber::Float(x))) => printed_json(
            JsonView::Number(JsonNumber::Float(x)),
        ),
        _ => seq![],
    }
}

/// The devices in a reply.
pub open spec fn entries_of(reply: JsonView) -> Seq<JsonView> {
    match items_of(reply.field("data"@)) {
        Some(list) => list,
        None => seq![],
    }
}

/// How the ids of the devices in a reply that are not integers are written, device by device.
pub open spec fn id_texts(reply: JsonView) -> Seq<Seq<char>> {
    entries_of(reply).map_values(|d: JsonView| id_text(d))
}

/// Writes the id of a device, where it is a number that is not an integer.
fn write_id(device: &Value) -> (r: String)
    ensures
        r@ == id_text(value_view(*device)),
{
    let id: Option<&Value> = match value_field(device, "id") {
        Some(v) => Some(v),
        None => match value_field(device, "devId") {
            Some(v) => Some(v),
            None => value_field(device, "devDn"),
        },
    };
    match id {
        Some(v) => if is_fraction(v) {
            print_value(v)
        } else {
            String::new()
        },
        None => String::new(),
    }
}

/// Writes the ids of the devices in a reply that are not integers, device by device.
fn write_ids(reply: &Value) -> (r: Vec<String>)
    ensures
        views(r@) == id_texts(value_view(*reply)),
{
    let ghost expected = id_texts(value_view(*reply));
    let mut r: Vec<String> = Vec::new();
    let list: Option<&Vec<Value>> = match value_field(reply, "data") {
        Some(data) => value_items(data),
        None => None,
    };
    assert(views(r@) =~= expected.take(0));
    match list {
        Some(list) => {
            let ghost items = list@.map_values(|v: Value| value_view(v));
            let mut i: usize = 0;
            while i < list.len()
                invariant
                    i <= list.len(),
                    items == list@.map_values(|v: Value| value_view(v)),
                    expected == items.map_values(|d: JsonView| id_text(d)),
                    views(r@) == expected.take(i as int),
                decreases list.len() - i,
            {
                let ghost before = views(r@);
                let text: String = write_id(&list[i]);
                let ghost seen = text@;
                assert(expected[i as int] == id_text(items[i as int]));
                r.push(text);
                assert(views(r@) =~= before.push(seen));
                assert(expected.take(i + 1) =~= expected.take(i as int).push(seen));
                i = i + 1;
            }
            assert(expected.take(i as int) =~= expected);
        },
        None => {
            assert(views(r@) =~= expected);
        },
    }
    r
}

/// Sorts devices by kind; `shown` is how ids that are not integers are written, entry by entry.
pub fn find_devices(list: &Vec<Json>, shown: &Vec<String>) -> (r: HuaweiDevices)
    ensures
        r@ == devices_in(item_views(list@), views(shown@), list@.len()),
{
    let ghost all = item_views(list@);
    let mut r: HuaweiDevices = HuaweiDevices {
        inverter_ids: Vec::new(),
        battery_ids: Vec::new(),
        meter_ids: Vec::new(),
    };
    assert(r@ =~= devices_in(all, views(shown@), 0));
    let mut i: usize = 0;
    while i < list.len()
        invariant
            i <= list.len(),
            all == item_views(list@),
            r@ == devices_in(all, views(shown@), i as nat),
        decreases list.len() - i,
    {
        let ghost devices = r@;
        assert(all[i as int] == list@[i as int]@);
        let text: &str = if i < shown.len() {
            shown[i].as_str()
        } else {
            ""
        };
        proof {
            reveal_strlit("");
            assert(text@ =~= shown_at(views(shown@), i as int));
        }
        let id: Option<String> = find_id(&list[i], text);
        let kind: Option<i64> = match list[i].get("devTypeId") {
            Some(j) => j.as_i64(),
            None => None,
        };
        match (id, kind) {
            (Some(id), Some(kind)) => {
                let ghost name = id@;
                if kind == 1 || kind == 38 {
                    r.inverter_ids.push(id);
                    assert(views(r.inverter_ids@) =~= devices.inverter_ids.push(name));
                } else if kind == 39 {
                    r.battery_ids.push(id);
                    assert(views(r.battery_ids@) =~= devices.battery_ids.push(name));
                } else if kind == 47 {
                    r.meter_ids.push(id);
                    assert(views(r.meter_ids@) =~= devices.meter_ids.push(name));
                }
            },
            _ => {},
        }
        i = i + 1;
    }
    r
}

/// A reading of a device.
pub open spec fn item_of(entry: JsonView, name: Seq<char>) -> Option<Double> {
    double_of(field_of(entry.field("dataItemMap"@), name))
}

/// The readings of some devices, added to `start` one by one.
pub open spec fn item_sum(rows: Seq<JsonView>, name: Seq<char>, start: Double) -> Double
    decreases rows.len(),
{
    if rows.len() == 0 {
        start
    } else {
        let rest = item_sum(rows.drop_last(), name, start);
        match item_of(rows.last(), name) {
            Some(x) => sum(rest, x),
            None => rest,
        }
    }
}

/// Some device has the reading.
pub open spec fn has_item(rows: Seq<JsonView>, name: Seq<char>) -> bool {
    exists|i: int| 0 <= i < rows.len() && #[trigger] item_of(rows[i], name) is Some
}

/// The charge in percent that the last of some devices to have one reads.
pub open spec fn last_soc(rows: Seq<JsonView>, start: u8) -> u8
    decreases rows.len(),
{
    if rows.len() == 0 {
        start
    } else {
        match item_of(rows.last(), "battery_soc"@) {
            Some(x) => saturated(x, rounded_half_up(x), 100) as u8,
            None => last_soc(rows.drop_last(), start),
        }
    }
}

fn find_item(entry: &Json, name: &str) -> (r: Option<Double>)
    ensures
        r == item_of(entry@, name@),
{
    match get_in(entry.get("dataItemMap"), name) {
        Some(j) => j.as_f64(),
        None => None,
    }
}

/// Adds up a reading and tells whether there was any.
fn add_items(rows: &Vec<Json>, name: &str, start: Double) -> (r: (Double, bool))
    ensures
        r.0 == item_sum(item_views(rows@), name@, start),
        r.1 == has_item(item_views(rows@), name@),
{
    let ghost all = item_views(rows@);
    let mut total: Double = start;
    let mut any: bool = false;
    let mut i: usize = 0;
    assert(all.take(0) =~= Seq::<JsonView>::empty());
    while i < rows.len()
        invariant
            i <= rows.len(),
            all == item_views(rows@),
            total == item_sum(all.take(i as int), name@, start),
            any == exists|j: int| 0 <= j < i && #[trigger] item_of(all[j], name@) is Some,
        decreases rows.len() - i,
    {
        assert(all[i as int] == rows@[i as int]@);
        assert(all.take(i + 1).drop_last() == all.take(i as int));
        assert(all.take(i + 1).last() == all[i as int]);
        match find_item(&rows[i], name) {
            Some(x) => {
                assert(item_of(all[i as int], name@) is Some);
                total = total.plus(x);
                any = true;
            },
            None => {
                assert(item_of(all[i as int], name@) is None);
            },
        }
        i = i + 1;
    }
    assert(all.take(i as int) == all);
    (total, any)
}

fn find_soc(rows: &Vec<Json>, start: u8) -> (r: u8)
    ensures
        r == last_soc(item_views(rows@), start),
{
    let ghost all = item_views(rows@);
    let mut soc: u8 = start;
    let mut i: usize = 0;
    assert(all.take(0) =~= Seq::<JsonView>::empty());
    while i < rows.len()
        invariant
            i <= rows.len(),
            all == item_views(rows@),
            soc == last_soc(all.take(i as int), start),
        decreases rows.len() - i,
    {
        assert(all[i as int] == rows@[i as int]@);
        assert(all.take(i + 1).drop_last() == all.take(i as int));
        assert(all.take(i + 1).last() == all[i as int]);
        match find_item(&rows[i], "battery_soc") {
            Some(x) => {
                soc = x.percent();
            },
            None => {},
        }
        i = i + 1;
    }
    assert(all.take(i as int) == all);
    soc
}

/// A question to the service.
#[derive(Clone, Copy, Debug, PartialEq, Eq, Structural)]
pub enum Query {
    /// The stations of the account.
    Stations,
    /// The same by an older name.
    StationList,
    /// The devices of the station.
    Devices,
    /// The readings of the inverters, taken as those of homes.
    HomeInverters,
    /// The readings of the inverters, taken as those of strings.
    StringInverters,
    Batteries,
    Meters,
}

/// What has been read so far.
#[derive(Clone, Copy, Debug, PartialEq, Eq, Structural)]
pub struct Survey {
    pub pv_kw: Double,
    pub grid_kw: Double,
    pub battery_kw: Double,
    pub soc: u8,
    pub got_inverter: bool,
    pub got_battery: bool,
    pub got_meter: bool,
}

/// What to do next.
#[derive(Debug)]
pub enum Step {
    Ask(Query),
    Finished(Result<SystemStatus, String>),
}

/// The contents of what to do next.
pub enum StepView {
    Ask(Query),
    Finished(Result<StatusView, Seq<char>>),
}

impl View for Step {
    type V = StepView;

    open spec fn view(&self) -> StepView {
        match self {
            Step::Ask(q) => StepView::Ask(*q),
            Step::Finished(r) => StepView::Finished(seen_result(*r)),
        }
    }
}

/// Nothing has been read.
pub open spec fn empty_survey() -> Survey {
    let zero = with_sign(false, 0);
    Survey {
        pv_kw: zero,
        grid_kw: zero,
        battery_kw: zero,
        soc: 0,
        got_inverter: false,
        got_battery: false,
        got_meter: false,
    }
}

impl Survey {
    /// What has been read amounts to: household consumption is what the sun, the battery and the
    /// grid give, and not below zero.
    pub open spec fn outcome(self, invert_grid_sign: bool) -> Result<StatusView, Seq<char>> {
        let zero = with_sign(false, 0);
        let grid = if invert_grid_sign {
            opposite(self.grid_kw)
        } else {
            self.grid_kw
        };
        let load = sum(sum(self.pv_kw, self.battery_kw), grid);
        if self.got_inverter || self.got_battery || self.got_meter {
            Ok(
                reading(
                    self.soc,
                    self.pv_kw,
                    if less(load, zero) {
                        zero
                    } else {
                        load
                    },
                    grid,
                    self.battery_kw,
                ),
            )
        } else {
            Err("FusionSolar: no usable data from any device (check station/device IDs)"@)
        }
    }

    /// The survey with the readings that a reply to the given question holds, if any.
    pub open spec fn with_rows(self, query: Query, rows: Seq<JsonView>) -> Survey {
        match query {
            Query::HomeInverters | Query::StringInverters => Survey {
                pv_kw: item_sum(rows, "active_power"@, self.pv_kw),
                got_inverter: self.got_inverter || has_item(rows, "active_power"@),
                ..self
            },
            Query::Batteries => Survey {
                soc: last_soc(rows, self.soc),
                battery_kw: item_sum(rows, "ch_discharge_power"@, self.battery_kw),
                got_battery: self.got_battery || has_item(rows, "battery_soc"@),
                ..self
            },
            Query::Meters => Survey {
                grid_kw: item_sum(rows, "active_power"@, self.grid_kw),
                got_meter: self.got_meter || has_item(rows, "active_power"@),
                ..self
            },
            _ => self,
        }
    }

    /// The survey after a reply, where the question may have failed.
    pub open spec fn after(self, query: Query, reply: Option<JsonView>) -> Survey {
        match reply {
            Some(json) => match items_of(json.field("data"@)) {
                Some(rows) => self.with_rows(query, rows),
                None => self,
            },
            None => self,
        }
    }
}

impl HuaweiView {
    /// The question about the meters, if there are any, and else the end.
    pub open spec fn from_meters(self, survey: Survey) -> StepView {
        if self.devices->0.meter_ids.len() > 0 {
            StepView::Ask(Query::Meters)
        } else {
            StepView::Finished(survey.outcome(self.invert_grid_sign))
        }
    }

    /// The question about the batteries, if there are any, and else what follows.
    pub open spec fn from_batteries(self, survey: Survey) -> StepView {
        if self.devices->0.battery_ids.len() > 0 {
            StepView::Ask(Query::Batteries)
        } else {
            self.from_meters(survey)
        }
    }

    /// The question about the inverters, if there are any, and else what follows.
    pub open spec fn from_inverters(self, survey: Survey) -> StepView {
        if self.devices->0.inverter_ids.len() > 0 {
            StepView::Ask(Query::HomeInverters)
        } else {
            self.from_batteries(survey)
        }
    }

    /// Where to begin: what is known is not asked again.
    pub open spec fn first_step(self) -> StepView {
        if self.station_code is Some && self.devices is Some {
            self.from_inverters(empty_survey())
        } else if self.station_code is Some {
            StepView::Ask(Query::Devices)
        } else {
            StepView::Ask(Query::Stations)
        }
    }

    /// The source with the station that a reply names.
    pub open spec fn with_station(self, reply: JsonView) -> HuaweiView {
        match station_in(reply) {
            Ok(code) => HuaweiView { station_code: Some(code), ..self },
            Err(_) => self,
        }
    }

    /// What follows a reply that names stations.
    pub open spec fn after_station(reply: JsonView) -> StepView {
        match station_in(reply) {
            Ok(_) => StepView::Ask(Query::Devices),
            Err(e) => StepView::Finished(Err(e)),
        }
    }

    /// The source with the devices that a reply names.
    pub open spec fn with_devices(self, reply: JsonView, shown: Seq<Seq<char>>) -> HuaweiView {
        match items_of(reply.field("data"@)) {
            Some(list) => HuaweiView {
                devices: Some(devices_in(list, shown, list.len())),
                ..self
            },
            None => self,
        }
    }

    /// The source after a reply to a question.
    pub open spec fn after(
        self,
        query: Query,
        reply: Result<JsonView, Seq<char>>,
        shown: Seq<Seq<char>>,
    ) -> HuaweiView {
        match (query, reply) {
            (Query::Stations, Ok(json)) => self.with_station(json),
            (Query::StationList, Ok(json)) => self.with_station(json),
            (Query::Devices, Ok(json)) => self.with_devices(json, shown),
            _ => self,
        }
    }

    /// What to do after a reply to a question; `self` and `survey` are those after the reply.
    pub open spec fn next_step(
        self,
        survey: Survey,
        query: Query,
        reply: Result<JsonView, Seq<char>>,
    ) -> StepView {
        match query {
            Query::Stations => match reply {
                Ok(json) => HuaweiView::after_station(json),
                Err(_) => StepView::Ask(Query::StationList),
            },
            Query::StationList => match reply {
                Ok(json) => HuaweiView::after_station(json),
                Err(e) => StepView::Finished(Err(e)),
            },
            Query::Devices => match reply {
                Ok(json) => match items_of(json.field("data"@)) {
                    Some(_) => self.from_inverters(survey),
                    None => StepView::Finished(Err("getDevList: no data"@)),
                },
                Err(e) => StepView::Finished(Err(e)),
            },
            Query::HomeInverters => if survey.got_inverter {
                self.from_batteries(survey)
            } else {
                StepView::Ask(Query::StringInverters)
            },
            Query::StringInverters => self.from_batteries(survey),
            Query::Batteries => self.from_meters(survey),
            Query::Meters => StepView::Finished(survey.outcome(self.invert_grid_sign)),
        }
    }
}

/// How many questions can follow.
pub open spec fn rank(query: Query) -> nat {
    match query {
        Query::Stations => 6,
        Query::StationList => 5,
        Query::Devices => 4,
        Query::HomeInverters => 3,
        Query::StringInverters => 2,
        Query::Batteries => 1,
        Query::Meters => 0,
    }
}

/// No question is asked twice: each is followed by one of lower rank or by the end, so that a
/// survey asks at most seven.
pub proof fn lemma_survey_ends(
    source: HuaweiView,
    survey: Survey,
    query: Query,
    reply: Result<JsonView, Seq<char>>,
)
    ensures
        source.next_step(survey, query, reply) matches StepView::Ask(next) ==> rank(next) < rank(
            query,
        ),
{
}

/// The contents of a reply.
pub open spec fn seen_reply(reply: Result<&Json, String>) -> Result<JsonView, Seq<char>> {
    match reply {
        Ok(json) => Ok(json@),
        Err(e) => Err(e@),
    }
}

impl Query {
    /// The path that a question is sent to.
    pub open spec fn path_text(self) -> Seq<char> {
        match self {
            Query::Stations => "/thirdData/stations"@,
            Query::StationList => "/thirdData/getStationList"@,
            Query::Devices => "/thirdData/getDevList"@,
            _ => "/thirdData/getDevRealKpi"@,
        }
    }

    /// The path that a question is sent to.
    pub fn path(self) -> (r: &'static str)
        ensures
            r@ == self.path_text(),
    {
        match self {
            Query::Stations => "/thirdData/stations",
            Query::StationList => "/thirdData/getStationList",
            Query::Devices => "/thirdData/getDevList",
            _ => "/thirdData/getDevRealKpi",
        }
    }

    /// The kind of devices that a question is about.
    pub open spec fn kind(self) -> int {
        match self {
            Query::HomeInverters => 38,
            Query::StringInverters => 1,
            Query::Batteries => 39,
            Query::Meters => 47,
            _ => 0,
        }
    }
}

/// The ids of the devices that a question is about.
pub open spec fn ids_for(devices: DevicesView, query: Query) -> Seq<Seq<char>> {
    match query {
        Query::Batteries => devices.battery_ids,
        Query::Meters => devices.meter_ids,
        _ => devices.inverter_ids,
    }
}

/// The body of a question.
pub open spec fn query_document(source: HuaweiView, query: Query) -> JsonView {
    match query {
        Query::Stations => JsonView::Object(
            no_fields().push(("pageNo"@, JsonView::Number(JsonNumber::Unsigned(1)))),
        ),
        Query::StationList => JsonView::Object(no_fields()),
        Query::Devices => JsonView::Object(
            no_fields().push(("stationCodes"@, JsonView::Text(source.station_code->0))),
        ),
        _ => JsonView::Object(
            no_fields().push(
                ("devIds"@, JsonView::Text(joined(ids_for(source.devices->0, query), ","@))),
            ).push(("devTypeId"@, JsonView::Number(signed_number(query.kind() as i64)))),
        ),
    }
}

/// A question that can be put: what it speaks of is known.
pub open spec fn can_ask(source: HuaweiView, query: Query) -> bool {
    match query {
        Query::Stations => true,
        Query::StationList => true,
        Query::Devices => source.station_code is Some,
        _ => source.devices is Some,
    }
}

impl Survey {
    /// Nothing has been read.
    pub fn new() -> (r: Survey)
        ensures
            r == empty_survey(),
    {
        let zero: Double = Double::zero();
        Survey {
            pv_kw: zero,
            grid_kw: zero,
            battery_kw: zero,
            soc: 0,
            got_inverter: false,
            got_battery: false,
            got_meter: false,
        }
    }

    fn finish(self, invert_grid_sign: bool) -> (r: Result<SystemStatus, String>)
        ensures
            seen_result(r) == self.outcome(invert_grid_sign),
    {
        if !self.got_inverter && !self.got_battery && !self.got_meter {
            return Err(
                "FusionSolar: no usable data from any device (check station/device IDs)".to_owned(),
            );
        }
        let grid: Double = if invert_grid_sign {
            self.grid_kw.negated()
        } else {
            self.grid_kw
        };
        let mut load: Double = self.pv_kw.plus(self.battery_kw).plus(grid);
        if load.lt(Double::zero()) {
            load = Double::zero();
        }
        Ok(SystemStatus::from_readings(self.soc, self.pv_kw, load, grid, self.battery_kw))
    }

    fn take_reply(self, query: Query, reply: &Result<&Json, String>) -> (r: Survey)
        ensures
            r == self.after(
                query,
                match *reply {
                    Ok(json) => Some(json@),
                    Err(_) => None,
                },
            ),
    {
        let rows: &Vec<Json> = match reply {
            Ok(json) => match json.get("data") {
                Some(data) => match data.as_array() {
                    Some(rows) => rows,
                    None => {
                        return self;
                    },
                },
                None => {
                    return self;
                },
            },
            Err(_) => {
                return self;
            },
        };
        match query {
            Query::HomeInverters | Query::StringInverters => {
                let (pv_kw, any): (Double, bool) = add_items(rows, "active_power", self.pv_kw);
                Survey { pv_kw, got_inverter: self.got_inverter || any, ..self }
            },
            Query::Batteries => {
                let soc: u8 = find_soc(rows, self.soc);
                let (_, any): (Double, bool) = add_items(rows, "battery_soc", Double::zero());
                let (battery_kw, _): (Double, bool) = add_items(
                    rows,
                    "ch_discharge_power",
                    self.battery_kw,
                );
                Survey { soc, battery_kw, got_battery: self.got_battery || any, ..self }
            },
            Query::Meters => {
                let (grid_kw, any): (Double, bool) = add_items(rows, "active_power", self.grid_kw);
                Survey { grid_kw, got_meter: self.got_meter || any, ..self }
            },
            _ => self,
        }
    }
}

impl HuaweiSource {
    fn meters_on(&self, survey: Survey) -> (r: Step)
        requires
            self@.devices is Some,
        ensures
            r@ == self@.from_meters(survey),
    {
        match &self.devices {
            Some(d) => {
                if d.meter_ids.len() > 0 {
                    Step::Ask(Query::Meters)
                } else {
                    Step::Finished(survey.finish(self.invert_grid_sign))
                }
            },
            None => Step::Finished(survey.finish(self.invert_grid_sign)),
        }
    }

    fn batteries_on(&self, survey: Survey) -> (r: Step)
        requires
            self@.devices is Some,
        ensures
            r@ == self@.from_batteries(survey),
    {
        match &self.devices {
            Some(d) => {
                if d.battery_ids.len() > 0 {
                    Step::Ask(Query::Batteries)
                } else {
                    self.meters_on(survey)
                }
            },
            None => self.meters_on(survey),
        }
    }

    fn inverters_on(&self, survey: Survey) -> (r: Step)
        requires
            self@.devices is Some,
        ensures
            r@ == self@.from_inverters(survey),
    {
        match &self.devices {
            Some(d) => {
                if d.inverter_ids.len() > 0 {
                    Step::Ask(Query::HomeInverters)
                } else {
                    self.batteries_on(survey)
                }
            },
            None => self.batteries_on(survey),
        }
    }

    /// Begins a survey: what is known of station and devices is not asked again.
    pub fn begin(&self) -> (r: Step)
        ensures
            r@ == self@.first_step(),
            r@ matches StepView::Ask(query) ==> can_ask(self@, query),
    {
        if self.station_code.is_some() && self.devices.is_some() {
            self.inverters_on(Survey::new())
        } else if self.station_code.is_some() {
            Step::Ask(Query::Devices)
        } else {
            Step::Ask(Query::Stations)
        }
    }

    /// Makes the body of a question.
    pub fn query_body(&self, query: Query) -> (r: Json)
        requires
            can_ask(self@, query),
        ensures
            r@ == query_document(self@, query),
    {
        match query {
            Query::Stations => Fields::new().with("pageNo", Json::unsigned(1)).done(),
            Query::StationList => Fields::new().done(),
            Query::Devices => {
                let station: &str = match &self.station_code {
                    Some(s) => s.as_str(),
                    None => "",
                };
                Fields::new().with("stationCodes", Json::text(station)).done()
            },
            Query::HomeInverters => self.readings_body(query, 38),
            Query::StringInverters => self.readings_body(query, 1),
            Query::Batteries => self.readings_body(query, 39),
            Query::Meters => self.readings_body(query, 47),
        }
    }

    fn readings_body(&self, query: Query, kind: i64) -> (r: Json)
        requires
            self@.devices is Some,
            kind == query.kind(),
        ensures
            r@ == JsonView::Object(
                no_fields().push(
                    ("devIds"@, JsonView::Text(joined(ids_for(self@.devices->0, query), ","@))),
                ).push(("devTypeId"@, JsonView::Number(signed_number(kind)))),
            ),
    {
        let ids: String = match &self.devices {
            Some(d) => match query {
                Query::Batteries => join(&d.battery_ids, ","),
                Query::Meters => join(&d.meter_ids, ","),
                _ => join(&d.inverter_ids, ","),
            },
            None => String::new(),
        };
        Fields::new().with("devIds", Json::text(ids.as_str())).with(
            "devTypeId",
            Json::signed(kind),
        ).done()
    }

    fn take_station(&mut self, reply: &Json) -> (r: Step)
        ensures
            final(self)@ == old(self)@.with_station(reply@),
            r@ == HuaweiView::after_station(reply@),
    {
        match find_station(reply) {
            Ok(code) => {
                self.station_code = Some(code);
                Step::Ask(Query::Devices)
            },
            Err(e) => Step::Finished(Err(e)),
        }
    }

    /// Takes the reply to a question and tells what to do next; `shown` is how ids that are not
    /// integers are written, device by device.
    pub fn proceed(
        &mut self,
        survey: &mut Survey,
        query: Query,
        reply: Result<&Json, String>,
        shown: &Vec<String>,
    ) -> (r: Step)
        requires
            can_ask(old(self)@, query),
        ensures
            final(self)@ == old(self)@.after(query, seen_reply(reply), views(shown@)),
            *final(survey) == old(survey).after(
                query,
                match reply {
                    Ok(json) => Some(json@),
                    Err(_) => None,
                },
            ),
            r@ == final(self)@.next_step(*final(survey), query, seen_reply(reply)),
            r@ matches StepView::Ask(next) ==> can_ask(final(self)@, next),
    {
        *survey = survey.take_reply(query, &reply);
        match query {
            Query::Stations => match reply {
                Ok(json) => self.take_station(json),
                Err(_) => Step::Ask(Query::StationList),
            },
            Query::StationList => match reply {
                Ok(json) => self.take_station(json),
                Err(e) => Step::Finished(Err(e)),
            },
            Query::Devices => match reply {
                Ok(json) => {
                    let data: Option<&Json> = json.get("data");
                    let list: Option<&Vec<Json>> = match data {
                        Some(j) => j.as_array(),
                        None => None,
                    };
                    match list {
                        Some(entries) => {
                            self.devices = Some(find_devices(entries, shown));
                            self.inverters_on(*survey)
                        },
                        None => Step::Finished(Err("getDevList: no data".to_owned())),
                    }
                },
                Err(e) => Step::Finished(Err(e)),
            },
            Query::HomeInverters => if survey.got_inverter {
                self.batteries_on(*survey)
            } else {
                Step::Ask(Query::StringInverters)
            },
            Query::StringInverters => self.batteries_on(*survey),
            Query::Batteries => self.meters_on(*survey),
            Query::Meters => Step::Finished(survey.finish(self.invert_grid_sign)),
        }
    }
}

} // verus!
