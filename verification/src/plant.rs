//! Laws of the FusionSolar account: its session, its station, its devices and what they are asked.

use vstd::prelude::*;

use crate::datasource::Got;
use crate::huawei::{
    cookie_list, cookie_pair, cookie_text, device_id, devices_in, expired, is_stale, query_document,
    reply_problem, shown_at, station_in, token_of, DevicesView, HuaweiView, LoginReply, Query,
    SessionView, StepView, Survey,
};
use crate::json::{integer_of, items_of, lemma_find_at, text_of, JsonNumber, JsonView};
use crate::moment::Moment;
use crate::text::{
    before, first_at, is_white, joined, lemma_first_at, lemma_trimmed, same_letters, trimmed_end,
    trimmed_start, views,
};

verus! {

/// A session is renewed once more than 25 whole minutes have passed since the login.
pub proof fn lemma_session_age(session: SessionView, now: Moment)
    requires
        now.since_epoch() >= session.logged_in_at.since_epoch(),
    ensures
        is_stale(Some(session), now) <==> (now.since_epoch()
            - session.logged_in_at.since_epoch()) / 60_000_000_000 > 25,
        is_stale(None, now),
{
}

/// The text is free of the character.
pub open spec fn lacks(s: Seq<char>, c: char) -> bool {
    forall|i: int| 0 <= i < s.len() ==> #[trigger] s[i] != c
}

/// The text begins and ends with something other than white space.
pub open spec fn is_tight(s: Seq<char>) -> bool {
    s.len() > 0 ==> !is_white(s[0]) && !is_white(s.last())
}

proof fn lemma_first_is_at(s: Seq<char>, c: char, i: int)
    requires
        0 <= i < s.len(),
        s[i] == c,
        forall|j: int| 0 <= j < i ==> #[trigger] s[j] != c,
    ensures
        first_at(s, c) == Some(i as nat),
{
    lemma_first_at(s, c);
    match first_at(s, c) {
        Some(k) => {
            if k < i {
                assert(s[k as int] != c);
            }
            if i < k {
                assert(s[i] != c);
            }
        },
        None => {
            assert(s[i] != c);
        },
    }
}

/// A tight text is not trimmed.
proof fn lemma_tight_stays(s: Seq<char>)
    requires
        is_tight(s),
    ensures
        trimmed_end(trimmed_start(s)) == s,
{
    assert(trimmed_start(s) == s);
    assert(trimmed_end(s) == s);
}

/// A cookie sets what stands before its first equals sign to what stands behind it, up to the first
/// semicolon; its attributes do not count.
pub proof fn lemma_cookie(name: Seq<char>, value: Seq<char>, attributes: Seq<char>)
    requires
        lacks(name, '='),
        lacks(name, ';'),
        lacks(value, ';'),
        is_tight(name + seq!['='] + value),
    ensures
        cookie_pair(name + seq!['='] + value) == Some((name, value)),
        cookie_pair(name + seq!['='] + value + seq![';'] + attributes) == Some((name, value)),
        cookie_text(name + seq!['='] + value + seq![';'] + attributes) == name + seq!['='] + value,
{
    let cookie = name + seq!['='] + value;
    let header = cookie + seq![';'] + attributes;
    let n = name.len() as int;
    assert forall|j: int| 0 <= j < cookie.len() implies #[trigger] cookie[j] != ';' by {
        if j < n {
            assert(cookie[j] == name[j]);
        } else if j > n {
            assert(cookie[j] == value[j - n - 1]);
        }
    }
    assert forall|j: int| 0 <= j < cookie.len() implies #[trigger] header[j] != ';' by {
        assert(header[j] == cookie[j]);
    }
    lemma_first_is_at(header, ';', cookie.len() as int);
    assert(header.take(cookie.len() as int) =~= cookie);
    lemma_first_at(cookie, ';');
    assert(before(cookie, ';') == cookie) by {
        match first_at(cookie, ';') {
            Some(k) => {
                assert(cookie[k as int] != ';');
            },
            None => {},
        }
    }
    lemma_tight_stays(cookie);
    assert forall|j: int| 0 <= j < n implies #[trigger] cookie[j] != '=' by {
        assert(cookie[j] == name[j]);
    }
    lemma_first_is_at(cookie, '=', n);
    assert(cookie.take(n) =~= name);
    assert(cookie.skip(n + 1) =~= value);
}

/// White space around a cookie does not count.
pub proof fn lemma_cookie_is_tight(header: Seq<char>)
    ensures
        is_tight(cookie_text(header)),
        lacks(cookie_text(header), ';'),
{
    let front = before(header, ';');
    lemma_first_at(header, ';');
    lemma_trimmed(front);
    let text = cookie_text(header);
    let k = front.len() - trimmed_start(front).len();
    assert forall|i: int| 0 <= i < text.len() implies #[trigger] text[i] != ';' by {
        assert(text[i] == front[k + i]);
        assert(front[k + i] == header[k + i]);
    }
}

/// The token is what the last cookie of its name sets, in whatever capitals the name is written,
/// and there is none without such a cookie.
pub proof fn lemma_token(headers: Seq<Seq<char>>, i: int)
    requires
        -1 <= i < headers.len(),
        forall|j: int|
            i < j < headers.len() ==> !(cookie_pair(#[trigger] headers[j]) matches Some(pair)
                && same_letters(pair.0, "xsrf-token"@)),
        i >= 0 ==> (cookie_pair(headers[i]) matches Some(pair) && same_letters(
            pair.0,
            "xsrf-token"@,
        )),
    ensures
        i >= 0 ==> token_of(headers) == Some((cookie_pair(headers[i])->0).1),
        i < 0 ==> token_of(headers) is None,
    decreases headers.len(),
{
    reveal_strlit("xsrf-token");
    reveal_strlit("XSRF-TOKEN");
    if headers.len() > 0 {
        let last = headers[headers.len() - 1];
        assert(cookie_pair(last) matches Some(pair) ==> same_letters(pair.0, "xsrf-token"@)
            == same_letters(pair.0, "XSRF-TOKEN"@)) by {
            lemma_capitals_of_token();
        }
        if i < headers.len() - 1 {
            let rest = headers.drop_last();
            assert forall|j: int| i < j < rest.len() implies !(cookie_pair(
                #[trigger] rest[j],
            ) matches Some(pair) && same_letters(pair.0, "xsrf-token"@)) by {
                assert(headers[j] == rest[j]);
            }
            if i >= 0 {
                assert(rest[i] == headers[i]);
            }
            lemma_token(rest, i);
        }
    }
}

proof fn lemma_capitals_of_token()
    ensures
        forall|s: Seq<char>|
            same_letters(s, "xsrf-token"@) == #[trigger] same_letters(s, "XSRF-TOKEN"@),
{
    reveal_strlit("xsrf-token");
    reveal_strlit("XSRF-TOKEN");
    let a = "xsrf-token"@;
    let b = "XSRF-TOKEN"@;
    assert(a.len() == 10 && b.len() == 10);
    assert(same_letters(a, b));
    assert forall|s: Seq<char>| same_letters(s, a) == #[trigger] same_letters(s, b) by {
        if s.len() == 10 {
            assert forall|i: int| 0 <= i < 10 implies #[trigger] crate::text::lower(a[i])
                == crate::text::lower(b[i]) by {}
        }
    }
}

/// A further header that sets a cookie adds it at the end, and one that sets none changes nothing.
pub proof fn lemma_cookies(headers: Seq<Seq<char>>, header: Seq<char>)
    ensures
        cookie_list(headers.push(header)) == (match first_at(cookie_text(header), '=') {
            Some(_) => cookie_list(headers).push(cookie_text(header)),
            None => cookie_list(headers),
        }),
{
    assert(headers.push(header).drop_last() =~= headers);
}

/// A login succeeds where the reply is a success, does not say otherwise in JSON, and sets the
/// token; the session then sends the token and all cookies.
pub proof fn lemma_login(reply: &LoginReply, body: Option<JsonView>, now: Moment)
    ensures
        reply.problem(body) is None <==> {
            &&& reply.success
            &&& body is None || body->0.field("success"@) == Some(JsonView::Bool(true))
            &&& token_of(views(reply.cookies@)) is Some
        },
        reply.problem(body) is None ==> Some(reply.session(now).xsrf_token) == token_of(
            views(reply.cookies@),
        ),
        reply.session(now).cookie_header == joined(cookie_list(views(reply.cookies@)), "; "@),
        reply.session(now).logged_in_at == now,
{
}

/// A reply can be used where it is JSON that says so and does not tell of an expired session, which
/// the codes 305 and 401 stand for.
pub proof fn lemma_usable_reply(path: Seq<char>, got: Got<JsonView>, text: Seq<char>)
    ensures
        reply_problem(path, got, text) is None <==> (got matches Got::Body(json) && json.field(
            "success"@,
        ) == Some(JsonView::Bool(true)) && integer_of(json.field("failCode"@)) != Some(305i64)
            && integer_of(json.field("failCode"@)) != Some(401i64)),
        got matches Got::Body(json) ==> (expired(json) is Some <==> integer_of(
            json.field("failCode"@),
        ) == Some(305i64) || integer_of(json.field("failCode"@)) == Some(401i64)),
{
}

/// The station is the first that a reply lists, under `data` or under `list` within it, and goes by
/// its `plantCode`, or else by its `stationCode`.
pub proof fn lemma_station(reply: JsonView, list: Seq<JsonView>)
    requires
        list.len() > 0,
        reply.field("data"@) matches Some(data) && (items_of(data.field("list"@)) == Some(list)
            || (items_of(data.field("list"@)) is None && data.items() == Some(list))),
    ensures
        text_of(list[0].field("plantCode"@)) matches Some(code) ==> station_in(reply) == Ok::<
            Seq<char>,
            Seq<char>,
        >(code),
        list[0].field("plantCode"@) is None ==> (text_of(
            list[0].field("stationCode"@),
        ) matches Some(code) ==> station_in(reply) == Ok::<Seq<char>, Seq<char>>(code)),
        list[0].field("plantCode"@) is None && list[0].field("stationCode"@) is None ==> station_in(
            reply,
        ) is Err,
{
}

/// A further device is added to the devices of its kind and to no others: inverters are of the
/// kinds 1 and 38, batteries of the kind 39 and meters of the kind 47. One without an id, without a
/// kind or of another kind is not counted.
pub proof fn lemma_device_is_sorted(list: Seq<JsonView>, shown: Seq<Seq<char>>, device: JsonView)
    ensures
        ({
            let n = list.len();
            let before = devices_in(list, shown, n);
            let after = devices_in(list.push(device), shown, n + 1);
            let id = device_id(device, shown_at(shown, n as int));
            let kind = integer_of(device.field("devTypeId"@));
            &&& (id is Some && (kind == Some(1i64) || kind == Some(38i64)) ==> after == DevicesView {
                inverter_ids: before.inverter_ids.push(id->0),
                battery_ids: before.battery_ids,
                meter_ids: before.meter_ids,
            })
            &&& (id is Some && kind == Some(39i64) ==> after == DevicesView {
                inverter_ids: before.inverter_ids,
                battery_ids: before.battery_ids.push(id->0),
                meter_ids: before.meter_ids,
            })
            &&& (id is Some && kind == Some(47i64) ==> after == DevicesView {
                inverter_ids: before.inverter_ids,
                battery_ids: before.battery_ids,
                meter_ids: before.meter_ids.push(id->0),
            })
            &&& (id is None || kind is None || (kind->0 != 1 && kind->0 != 38 && kind->0 != 39
                && kind->0 != 47) ==> after == before)
        }),
{
    let n = list.len();
    let longer = list.push(device);
    lemma_same_devices(list, longer, shown, n);
    assert(longer[n as int] == device);
}

proof fn lemma_same_devices(a: Seq<JsonView>, b: Seq<JsonView>, shown: Seq<Seq<char>>, n: nat)
    requires
        n <= a.len(),
        n <= b.len(),
        forall|i: int| 0 <= i < n ==> a[i] == b[i],
    ensures
        devices_in(a, shown, n) == devices_in(b, shown, n),
    decreases n,
{
    if n > 0 {
        lemma_same_devices(a, b, shown, (n - 1) as nat);
        assert(a[n - 1] == b[n - 1]);
    }
}

/// A device goes by its `id`, or else its `devId`, or else its `devDn`, be that a text or an
/// integer.
pub proof fn lemma_device_id(device: JsonView, shown: Seq<char>, id: Seq<char>)
    ensures
        device.field("id"@) == Some(JsonView::Text(id)) ==> device_id(device, shown) == Some(id),
        device.field("id"@) is None && device.field("devId"@) == Some(JsonView::Text(id))
            ==> device_id(device, shown) == Some(id),
        device.field("id"@) is None && device.field("devId"@) is None && device.field("devDn"@)
            == Some(JsonView::Text(id)) ==> device_id(device, shown) == Some(id),
        forall|n: u64|
            device.field("id"@) == Some(JsonView::Number(JsonNumber::Unsigned(n))) ==> device_id(
                device,
                shown,
            ) == Some(#[trigger] crate::text::decimal(n as int)),
        device.field("id"@) is None && device.field("devId"@) is None && device.field("devDn"@)
            is None ==> device_id(device, shown) is None,
{
}

/// Readings are asked for by the ids of the devices, with commas between, and by their kind: 38 and
/// then 1 for inverters, 39 for batteries and 47 for meters.
pub proof fn lemma_questions(source: HuaweiView)
    requires
        source.devices is Some,
    ensures
        ({
            let devices = source.devices->0;
            let home = query_document(source, Query::HomeInverters);
            let strings = query_document(source, Query::StringInverters);
            let batteries = query_document(source, Query::Batteries);
            let meters = query_document(source, Query::Meters);
            &&& home.field("devIds"@) == Some(
                JsonView::Text(joined(devices.inverter_ids, ","@)),
            )
            &&& strings.field("devIds"@) == Some(
                JsonView::Text(joined(devices.inverter_ids, ","@)),
            )
            &&& batteries.field("devIds"@) == Some(
                JsonView::Text(joined(devices.battery_ids, ","@)),
            )
            &&& meters.field("devIds"@) == Some(JsonView::Text(joined(devices.meter_ids, ","@)))
            &&& integer_of(home.field("devTypeId"@)) == Some(38i64)
            &&& integer_of(strings.field("devTypeId"@)) == Some(1i64)
            &&& integer_of(batteries.field("devTypeId"@)) == Some(39i64)
            &&& integer_of(meters.field("devTypeId"@)) == Some(47i64)
        }),
{
    reveal_strlit("devIds");
    reveal_strlit("devTypeId");
    assert("devIds"@.len() == 6);
    assert("devTypeId"@.len() == 9);
    lemma_question(query_document(source, Query::HomeInverters)->Object_0);
    lemma_question(query_document(source, Query::StringInverters)->Object_0);
    lemma_question(query_document(source, Query::Batteries)->Object_0);
    lemma_question(query_document(source, Query::Meters)->Object_0);
}

proof fn lemma_question(fields: Seq<(Seq<char>, JsonView)>)
    requires
        fields.len() == 2,
        fields[0].0 == "devIds"@,
        fields[1].0 == "devTypeId"@,
    ensures
        JsonView::Object(fields).field("devIds"@) == Some(fields[0].1),
        JsonView::Object(fields).field("devTypeId"@) == Some(fields[1].1),
{
    reveal_strlit("devIds");
    reveal_strlit("devTypeId");
    assert("devIds"@.len() == 6);
    assert("devTypeId"@.len() == 9);
    lemma_find_at(fields, "devIds"@, 0, 0);
    lemma_find_at(fields, "devTypeId"@, 0, 1);
}

/// Stations are asked for page by page, from the first page, and devices by the station's code.
pub proof fn lemma_first_questions(source: HuaweiView)
    ensures
        integer_of(query_document(source, Query::Stations).field("pageNo"@)) == Some(1i64),
        source.station_code matches Some(code) ==> query_document(source, Query::Devices).field(
            "stationCodes"@,
        ) == Some(JsonView::Text(code)),
        Query::Stations.path_text() == "/thirdData/stations"@,
        Query::StationList.path_text() == "/thirdData/getStationList"@,
        Query::Devices.path_text() == "/thirdData/getDevList"@,
        Query::HomeInverters.path_text() == "/thirdData/getDevRealKpi"@,
        Query::StringInverters.path_text() == "/thirdData/getDevRealKpi"@,
        Query::Batteries.path_text() == "/thirdData/getDevRealKpi"@,
        Query::Meters.path_text() == "/thirdData/getDevRealKpi"@,
{
    lemma_find_at(query_document(source, Query::Stations)->Object_0, "pageNo"@, 0, 0);
    lemma_find_at(query_document(source, Query::Devices)->Object_0, "stationCodes"@, 0, 0);
}

/// Inverters, batteries and meters are asked in that order, each kind where there are such devices,
/// and a failed question does not keep the next from being asked. Once all have been asked, what
/// was read is the outcome. Inverters that give no reading are asked again as those of strings.
pub proof fn lemma_every_kind_is_asked(
    source: HuaweiView,
    survey: Survey,
    reply: Result<JsonView, Seq<char>>,
)
    requires
        source.devices is Some,
    ensures
        ({
            let devices = source.devices->0;
            let end = StepView::Finished(survey.outcome(source.invert_grid_sign));
            let rest = if devices.meter_ids.len() > 0 {
                StepView::Ask(Query::Meters)
            } else {
                end
            };
            let storage = if devices.battery_ids.len() > 0 {
                StepView::Ask(Query::Batteries)
            } else {
                rest
            };
            &&& source.next_step(survey, Query::Meters, reply) == end
            &&& source.next_step(survey, Query::Batteries, reply) == rest
            &&& source.next_step(survey, Query::StringInverters, reply) == storage
            &&& survey.got_inverter ==> source.next_step(survey, Query::HomeInverters, reply)
                == storage
            &&& !survey.got_inverter ==> source.next_step(survey, Query::HomeInverters, reply)
                == StepView::Ask(Query::StringInverters)
            &&& source.station_code is Some && devices.inverter_ids.len() > 0
                ==> source.first_step() == StepView::Ask(Query::HomeInverters)
        }),
{
}

/// The account is asked for what is not known: the station, by its new name and then by its old
/// one, and then its devices. What is known is not asked for.
pub proof fn lemma_account_is_explored(
    source: HuaweiView,
    survey: Survey,
    reply: Result<JsonView, Seq<char>>,
)
    ensures
        source.station_code is None ==> source.first_step() == StepView::Ask(Query::Stations),
        source.station_code is Some && source.devices is None ==> source.first_step()
            == StepView::Ask(Query::Devices),
        reply is Err ==> source.next_step(survey, Query::Stations, reply) == StepView::Ask(
            Query::StationList,
        ),
        reply matches Ok(json) ==> (station_in(json) is Ok ==> source.next_step(
            survey,
            Query::Stations,
            reply,
        ) == StepView::Ask(Query::Devices) && source.next_step(survey, Query::StationList, reply)
            == StepView::Ask(Query::Devices)),
        reply is Err ==> (source.next_step(survey, Query::StationList, reply)
            matches StepView::Finished(r) && r is Err),
        reply is Err ==> (source.next_step(survey, Query::Devices, reply)
            matches StepView::Finished(r) && r is Err),
{
}

/// The account remembers the station and the devices that replies name, and nothing of a reply that
/// could not be had or of readings; its access data and its session stay.
pub proof fn lemma_account_remembers(
    source: HuaweiView,
    query: Query,
    reply: Result<JsonView, Seq<char>>,
    shown: Seq<Seq<char>>,
)
    ensures
        ({
            let after = source.after(query, reply, shown);
            &&& after.api_url == source.api_url
            &&& after.username == source.username
            &&& after.system_code == source.system_code
            &&& after.invert_grid_sign == source.invert_grid_sign
            &&& after.session == source.session
            &&& reply is Err ==> after == source
            &&& !(query is Stations || query is StationList) ==> after.station_code
                == source.station_code
            &&& !(query is Devices) ==> after.devices == source.devices
            &&& query is Stations || query is StationList ==> (reply matches Ok(json) ==> (
            station_in(json) matches Ok(code) ==> after.station_code == Some(code)))
            &&& query is Devices ==> (reply matches Ok(json) ==> (items_of(
                json.field("data"@),
            ) matches Some(list) ==> after.devices == Some(devices_in(list, shown, list.len()))))
        }),
{
}

/// Readings are taken from the entries under `data`; a question that failed, or whose reply has none,
/// leaves what was read.
pub proof fn lemma_readings_are_under_data(survey: Survey, query: Query, reply: JsonView)
    ensures
        survey.after(query, None) == survey,
        items_of(reply.field("data"@)) is None ==> survey.after(query, Some(reply)) == survey,
        items_of(reply.field("data"@)) matches Some(rows) ==> survey.after(query, Some(reply))
            == survey.with_rows(query, rows),
        query is Stations || query is StationList || query is Devices ==> survey.after(
            query,
            Some(reply),
        ) == survey,
{
}

} // verus!
