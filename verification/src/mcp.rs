//! The protocol that the tools are called by: JSON-RPC 2.0 messages, answered over an event stream.
//!
//! A client opens the stream, reads from its first event where to send messages, and receives the
//! answer to each request as a further event.

use vstd::prelude::*;
use vstd::string::*;

use crate::documents::{
    current_status_json, decisions_document, decisions_json, energy_history_json, forecast_document,
    forecast_json, history_of, is_channel, lemma_decision_fields, lemma_forecast_fields,
    lemma_history_fields, lemma_price_fields, lemma_status_fields, price_forecast_json,
    prices_document, status_document, ErrorView, RpcError, BATTERY_KEY, GRID_KEY, INVALID_PARAMS,
    LOAD_KEY, PV_KEY, SOC_KEY,
};
use crate::json::{
    field_of, find_field, float_view, get_in, items_of, lemma_find_at, no_fields, no_items, seen,
    signed_number, text_of, Fields, Items, Json, JsonNumber, JsonView,
};
use crate::prices::in_calendar_times;
use crate::state::{AppState, StateView};
use crate::text::same;

verus! {

pub const MCP_SERVER_NAME: &'static str = "energy-controller";

pub const MCP_SERVER_VERSION: &'static str = "0.1.0";

/// The revision of the protocol.
pub const MCP_PROTOCOL_VERSION: &'static str = "2024-11-05";

/// The code of a request for an unknown method.
pub const METHOD_NOT_FOUND: i64 = -32601;

pub const INSTRUCTIONS: &'static str = "Tools expose a home energy storage controller: live and 24h-historical solar production, household load, grid flow, battery power and state of charge, plus the electricity spot-price forecast and solar/heating forecasts. All powers are in kilowatts (kW), prices in euro-cents per kWh.";

pub const NO_DATA: &'static str = "No energy data is available yet. The controller has not published a snapshot since startup; try again in a moment.";

pub const STATUS_TOOL: &'static str = "get_current_household_energy_status";

pub const HISTORY_TOOL: &'static str = "get_household_energy_history_24h";

pub const PRICE_TOOL: &'static str = "get_electricity_spot_price_forecast";

pub const FORECAST_TOOL: &'static str = "get_solar_and_heating_power_forecast";

pub const DECISION_TOOL: &'static str = "get_battery_and_heatpump_control_decisions";

pub const STATUS_ABOUT: &'static str = "Latest live reading: battery state of charge (%), solar PV, household load, grid and battery power (kW).";

pub const HISTORY_ABOUT: &'static str = "Rolling 24h history (downsampled to <=48 samples) for one or all energy metrics. Each metric block states its unit.";

pub const PRICE_ABOUT: &'static str = "Current electricity price, the controller's percentile thresholds, and upcoming hourly spot prices (euro-cents/kWh).";

pub const FORECAST_ABOUT: &'static str = "Hourly solar PV production and estimated heating demand (kW) for today/tomorrow, plus expected remaining PV yield today (kWh).";

pub const DECISION_ABOUT: &'static str = "Controller's current target battery SoC, heat-pump compressor allow/block decision, and status message.";

/// What a tool returns: a text, or a document that is sent as text.
#[derive(Debug)]
pub enum ToolOutput {
    Text(String),
    Document(Json),
}

/// What a request results in.
#[derive(Debug)]
pub enum Outcome {
    Value(Json),
    Tool(ToolOutput),
    Error(RpcError),
}

/// What a request is answered with.
#[derive(Debug)]
pub struct Reply {
    pub id: Json,
    pub outcome: Outcome,
}

/// The contents of what a tool returns.
#[verifier::ext_equal]
pub enum ToolView {
    Text(Seq<char>),
    Document(JsonView),
}

/// The contents of an outcome.
#[verifier::ext_equal]
pub enum OutcomeView {
    Value(JsonView),
    Tool(ToolView),
    Error(ErrorView),
}

/// The contents of a reply.
#[verifier::ext_equal]
pub struct ReplyView {
    pub id: JsonView,
    pub outcome: OutcomeView,
}

impl View for ToolOutput {
    type V = ToolView;

    open spec fn view(&self) -> ToolView {
        match self {
            ToolOutput::Text(s) => ToolView::Text(s@),
            ToolOutput::Document(j) => ToolView::Document(j@),
        }
    }
}

impl View for Outcome {
    type V = OutcomeView;

    open spec fn view(&self) -> OutcomeView {
        match self {
            Outcome::Value(j) => OutcomeView::Value(j@),
            Outcome::Tool(t) => OutcomeView::Tool(t@),
            Outcome::Error(e) => OutcomeView::Error(e@),
        }
    }
}

impl View for Reply {
    type V = ReplyView;

    open spec fn view(&self) -> ReplyView {
        ReplyView { id: self.id@, outcome: self.outcome@ }
    }
}

/// The answer to `initialize`.
pub open spec fn identity_document() -> JsonView {
    JsonView::Object(
        no_fields().push(("protocolVersion"@, JsonView::Text(MCP_PROTOCOL_VERSION@))).push(
            (
                "capabilities"@,
                JsonView::Object(no_fields().push(("tools"@, JsonView::Object(no_fields())))),
            ),
        ).push(
            (
                "serverInfo"@,
                JsonView::Object(
                    no_fields().push(("name"@, JsonView::Text(MCP_SERVER_NAME@))).push(
                        ("version"@, JsonView::Text(MCP_SERVER_VERSION@)),
                    ),
                ),
            ),
        ).push(("instructions"@, JsonView::Text(INSTRUCTIONS@))),
    )
}

/// The schema of a tool's arguments, which are the given ones and no others.
pub open spec fn schema(properties: Seq<(Seq<char>, JsonView)>) -> JsonView {
    JsonView::Object(
        no_fields().push(("type"@, JsonView::Text("object"@))).push(
            ("properties"@, JsonView::Object(properties)),
        ).push(("additionalProperties"@, JsonView::Bool(false))),
    )
}

/// The description of a tool.
pub open spec fn tool(
    name: Seq<char>,
    about: Seq<char>,
    properties: Seq<(Seq<char>, JsonView)>,
) -> JsonView {
    JsonView::Object(
        no_fields().push(("name"@, JsonView::Text(name))).push(
            ("description"@, JsonView::Text(about)),
        ).push(("inputSchema"@, schema(properties))),
    )
}

/// The argument of the history tool: one of the channels.
pub open spec fn metric_argument() -> Seq<(Seq<char>, JsonView)> {
    no_fields().push(
        (
            "metric_name"@,
            JsonView::Object(
                no_fields().push(("type"@, JsonView::Text("string"@))).push(
                    (
                        "enum"@,
                        JsonView::Array(
                            no_items().push(JsonView::Text(SOC_KEY@)).push(
                                JsonView::Text(PV_KEY@),
                            ).push(JsonView::Text(LOAD_KEY@)).push(JsonView::Text(GRID_KEY@)).push(
                                JsonView::Text(BATTERY_KEY@),
                            ),
                        ),
                    ),
                ).push(("description"@, JsonView::Text("Metric to return; omit for all."@))),
            ),
        ),
    )
}

/// The answer to `tools/list`.
pub open spec fn tools_document() -> JsonView {
    JsonView::Object(
        no_fields().push(
            (
                "tools"@,
                JsonView::Array(
                    no_items().push(tool(STATUS_TOOL@, STATUS_ABOUT@, no_fields())).push(
                        tool(HISTORY_TOOL@, HISTORY_ABOUT@, metric_argument()),
                    ).push(tool(PRICE_TOOL@, PRICE_ABOUT@, no_fields())).push(
                        tool(FORECAST_TOOL@, FORECAST_ABOUT@, no_fields()),
                    ).push(tool(DECISION_TOOL@, DECISION_ABOUT@, no_fields())),
                ),
            ),
        ),
    )
}

/// A text as the result of a tool.
pub open spec fn content(text: Seq<char>) -> JsonView {
    JsonView::Object(
        no_fields().push(
            (
                "content"@,
                JsonView::Array(
                    no_items().push(
                        JsonView::Object(
                            no_fields().push(("type"@, JsonView::Text("text"@))).push(
                                ("text"@, JsonView::Text(text)),
                            ),
                        ),
                    ),
                ),
            ),
        ),
    )
}

/// The name of the tool that a request calls.
pub open spec fn tool_name(request: JsonView) -> Option<Seq<char>> {
    text_of(field_of(request.field("params"@), "name"@))
}

/// The channel that a request asks the history of.
pub open spec fn metric_name(request: JsonView) -> Option<Seq<char>> {
    text_of(field_of(field_of(request.field("params"@), "arguments"@), "metric_name"@))
}

/// The result of a tool called on a state.
pub open spec fn tool_result(name: Seq<char>, metric: Option<Seq<char>>, s: StateView) -> Result<
    ToolView,
    ErrorView,
> {
    if name == STATUS_TOOL@ {
        Ok(ToolView::Document(status_document(s.system_status)))
    } else if name == HISTORY_TOOL@ {
        match history_of(s.system_status, metric) {
            Ok(doc) => Ok(ToolView::Document(doc)),
            Err(e) => Err(e),
        }
    } else if name == PRICE_TOOL@ {
        Ok(ToolView::Document(prices_document(s)))
    } else if name == FORECAST_TOOL@ {
        Ok(ToolView::Document(forecast_document(s)))
    } else if name == DECISION_TOOL@ {
        Ok(ToolView::Document(decisions_document(s)))
    } else {
        Err(ErrorView { code: INVALID_PARAMS, message: "unknown tool: "@ + name })
    }
}

/// The result of a call of a tool.
pub open spec fn call_result(request: JsonView, snapshot: Option<StateView>) -> Result<
    ToolView,
    ErrorView,
> {
    match tool_name(request) {
        None => Err(ErrorView { code: INVALID_PARAMS, message: "missing params.name"@ }),
        Some(name) => match snapshot {
            None => Ok(ToolView::Text(NO_DATA@)),
            Some(s) => tool_result(name, metric_name(request), s),
        },
    }
}

/// The method of a request.
pub open spec fn method_of(request: JsonView) -> Seq<char> {
    match text_of(request.field("method"@)) {
        Some(m) => m,
        None => ""@,
    }
}

/// What a request results in.
pub open spec fn outcome_of(request: JsonView, snapshot: Option<StateView>) -> OutcomeView {
    let method = method_of(request);
    if method == "initialize"@ {
        OutcomeView::Value(identity_document())
    } else if method == "ping"@ {
        OutcomeView::Value(JsonView::Object(no_fields()))
    } else if method == "tools/list"@ {
        OutcomeView::Value(tools_document())
    } else if method == "tools/call"@ {
        match call_result(request, snapshot) {
            Ok(t) => OutcomeView::Tool(t),
            Err(e) => OutcomeView::Error(e),
        }
    } else {
        OutcomeView::Error(
            ErrorView { code: METHOD_NOT_FOUND, message: "method not found: "@ + method },
        )
    }
}

/// What a message is answered with: requests carry an id and are answered under it, notifications
/// carry none and are not answered.
pub open spec fn reply_to(request: JsonView, snapshot: Option<StateView>) -> Option<ReplyView> {
    match request.field("id"@) {
        Some(id) => Some(ReplyView { id, outcome: outcome_of(request, snapshot) }),
        None => None,
    }
}

/// The message that carries a reply; `printed` is the text of its document, where it has one.
pub open spec fn message_of(reply: ReplyView, printed: Seq<char>) -> JsonView {
    let head = no_fields().push(("jsonrpc"@, JsonView::Text("2.0"@))).push(("id"@, reply.id));
    JsonView::Object(
        match reply.outcome {
            OutcomeView::Value(value) => head.push(("result"@, value)),
            OutcomeView::Tool(ToolView::Text(text)) => head.push(("result"@, content(text))),
            OutcomeView::Tool(ToolView::Document(_)) => head.push(("result"@, content(printed))),
            OutcomeView::Error(e) => head.push(
                (
                    "error"@,
                    JsonView::Object(
                        no_fields().push(("code"@, JsonView::Number(signed_number(e.code)))).push(
                            ("message"@, JsonView::Text(e.message)),
                        ),
                    ),
                ),
            ),
        },
    )
}

/// The contents of an optional state.
pub open spec fn state_seen(snapshot: Option<&AppState>) -> Option<StateView> {
    match snapshot {
        Some(s) => Some(s@),
        None => None,
    }
}

fn no_arguments() -> (r: Json)
    ensures
        r@ == schema(no_fields()),
{
    Fields::new().with("type", Json::text("object")).with("properties", Fields::new().done()).with(
        "additionalProperties",
        Json::Bool(false),
    ).done()
}

fn describe(name: &str, about: &str, input_schema: Json) -> (r: Json)
    ensures
        r@ == JsonView::Object(
            no_fields().push(("name"@, JsonView::Text(name@))).push(
                ("description"@, JsonView::Text(about@)),
            ).push(("inputSchema"@, input_schema@)),
        ),
{
    Fields::new().with("name", Json::text(name)).with("description", Json::text(about)).with(
        "inputSchema",
        input_schema,
    ).done()
}

/// The answer to `tools/list`: every tool there is.
pub fn tools_list() -> (r: Json)
    ensures
        r@ == tools_document(),
{
    let keys: Json = Items::new().with(Json::text(SOC_KEY)).with(Json::text(PV_KEY)).with(
        Json::text(LOAD_KEY),
    ).with(Json::text(GRID_KEY)).with(Json::text(BATTERY_KEY)).done();
    let metric: Json = Fields::new().with("type", Json::text("string")).with("enum", keys).with(
        "description",
        Json::text("Metric to return; omit for all."),
    ).done();
    let history_schema: Json = Fields::new().with("type", Json::text("object")).with(
        "properties",
        Fields::new().with("metric_name", metric).done(),
    ).with("additionalProperties", Json::Bool(false)).done();
    let tools: Json = Items::new().with(
        describe(STATUS_TOOL, STATUS_ABOUT, no_arguments()),
    ).with(describe(HISTORY_TOOL, HISTORY_ABOUT, history_schema)).with(
        describe(PRICE_TOOL, PRICE_ABOUT, no_arguments()),
    ).with(describe(FORECAST_TOOL, FORECAST_ABOUT, no_arguments())).with(
        describe(DECISION_TOOL, DECISION_ABOUT, no_arguments()),
    ).done();
    Fields::new().with("tools", tools).done()
}

fn identity() -> (r: Json)
    ensures
        r@ == identity_document(),
{
    let capabilities: Json = Fields::new().with("tools", Fields::new().done()).done();
    let info: Json = Fields::new().with("name", Json::text(MCP_SERVER_NAME)).with(
        "version",
        Json::text(MCP_SERVER_VERSION),
    ).done();
    Fields::new().with("protocolVersion", Json::text(MCP_PROTOCOL_VERSION)).with(
        "capabilities",
        capabilities,
    ).with("serverInfo", info).with("instructions", Json::text(INSTRUCTIONS)).done()
}

/// Wraps a text as the result of a tool.
pub fn tool_text(text: &str) -> (r: Json)
    ensures
        r@ == content(text@),
{
    let item: Json = Fields::new().with("type", Json::text("text")).with(
        "text",
        Json::text(text),
    ).done();
    Fields::new().with("content", Items::new().with(item).done()).done()
}

/// The text in a field.
fn text_in<'a>(json: Option<&'a Json>) -> (r: Option<&'a str>)
    ensures
        text_of(seen(json)) == (match r {
            Some(s) => Some(s@),
            None => None,
        }),
{
    match json {
        Some(j) => j.as_str(),
        None => None,
    }
}

/// Runs the tool that a request calls.
pub fn handle_tools_call(request: &Json, snapshot: Option<&AppState>) -> (r: Result<
    ToolOutput,
    RpcError,
>)
    requires
        snapshot matches Some(s) ==> in_calendar_times(s@.prices),
    ensures
        match (r, call_result(request@, state_seen(snapshot))) {
            (Ok(t), Ok(expected)) => t@ == expected,
            (Err(e), Err(expected)) => e@ == expected,
            _ => false,
        },
{
    let params: Option<&Json> = request.get("params");
    let name: &str = match text_in(get_in(params, "name")) {
        Some(n) => n,
        None => {
            return Err(
                RpcError { code: INVALID_PARAMS, message: "missing params.name".to_owned() },
            );
        },
    };
    let arguments: Option<&Json> = get_in(params, "arguments");
    let state: &AppState = match snapshot {
        Some(s) => s,
        None => {
            return Ok(ToolOutput::Text(NO_DATA.to_owned()));
        },
    };
    if same(name, STATUS_TOOL) {
        Ok(ToolOutput::Document(current_status_json(state)))
    } else if same(name, HISTORY_TOOL) {
        let metric: Option<&str> = text_in(get_in(arguments, "metric_name"));
        match energy_history_json(state, metric) {
            Ok(doc) => Ok(ToolOutput::Document(doc)),
            Err(e) => Err(e),
        }
    } else if same(name, PRICE_TOOL) {
        Ok(ToolOutput::Document(price_forecast_json(state)))
    } else if same(name, FORECAST_TOOL) {
        Ok(ToolOutput::Document(forecast_json(state)))
    } else if same(name, DECISION_TOOL) {
        Ok(ToolOutput::Document(decisions_json(state)))
    } else {
        Err(
            RpcError {
                code: INVALID_PARAMS,
                message: "unknown tool: ".to_owned().concat(name),
            },
        )
    }
}

/// Answers one message: requests, which carry an id, get a reply, notifications get none.
pub fn handle_jsonrpc(request: &Json, snapshot: Option<&AppState>) -> (r: Option<Reply>)
    requires
        snapshot matches Some(s) ==> in_calendar_times(s@.prices),
    ensures
        reply_to(request@, state_seen(snapshot)) == (match r {
            Some(reply) => Some(reply@),
            None => None,
        }),
{
    let id: Json = match request.get("id") {
        Some(i) => i.copied(),
        None => {
            return None;
        },
    };
    let method: &str = match text_in(request.get("method")) {
        Some(m) => m,
        None => "",
    };
    let outcome: Outcome = if same(method, "initialize") {
        Outcome::Value(identity())
    } else if same(method, "ping") {
        Outcome::Value(Fields::new().done())
    } else if same(method, "tools/list") {
        Outcome::Value(tools_list())
    } else if same(method, "tools/call") {
        match handle_tools_call(request, snapshot) {
            Ok(t) => Outcome::Tool(t),
            Err(e) => Outcome::Error(e),
        }
    } else {
        Outcome::Error(
            RpcError {
                code: METHOD_NOT_FOUND,
                message: "method not found: ".to_owned().concat(method),
            },
        )
    };
    Some(Reply { id, outcome })
}

/// Makes the message that carries a reply; `printed` is the text of its document, where it has
/// one.
pub fn frame(reply: Reply, printed: &str) -> (r: Json)
    ensures
        r@ == message_of(reply@, printed@),
{
    let head: Fields = Fields::new().with("jsonrpc", Json::text("2.0")).with("id", reply.id);
    match reply.outcome {
        Outcome::Value(value) => head.with("result", value).done(),
        Outcome::Tool(ToolOutput::Text(text)) => head.with(
            "result",
            tool_text(text.as_str()),
        ).done(),
        Outcome::Tool(ToolOutput::Document(_)) => head.with("result", tool_text(printed)).done(),
        Outcome::Error(e) => {
            let error: Json = Fields::new().with("code", Json::signed(e.code)).with(
                "message",
                Json::Text(e.message),
            ).done();
            head.with("error", error).done()
        },
    }
}

/// A message is answered if and only if it carries an id, and the answer goes by that id.
pub proof fn lemma_answered_by_id(request: JsonView, snapshot: Option<StateView>)
    ensures
        reply_to(request, snapshot) is Some <==> request.field("id"@) is Some,
        reply_to(request, snapshot) matches Some(reply) ==> request.field("id"@) == Some(reply.id),
{
}

/// A message that carries a reply names the version and the id, and has a result or an error and
/// never both.
pub proof fn lemma_message_shape(reply: ReplyView, printed: Seq<char>)
    ensures
        message_of(reply, printed).field("jsonrpc"@) == Some(JsonView::Text("2.0"@)),
        message_of(reply, printed).field("id"@) == Some(reply.id),
        message_of(reply, printed).field("error"@) is Some <==> reply.outcome is Error,
        message_of(reply, printed).field("result"@) is Some <==> !(reply.outcome is Error),
{
    reveal_strlit("jsonrpc");
    reveal_strlit("id");
    reveal_strlit("result");
    reveal_strlit("error");
    reveal_with_fuel(find_field, 4);
    assert("jsonrpc"@.len() == 7);
    assert("id"@.len() == 2);
    assert("result"@.len() == 6);
    assert("error"@.len() == 5);
}

/// The tool is among those that `tools/list` names.
pub open spec fn is_listed(name: Seq<char>) -> bool {
    exists|i: int|
        0 <= i < 5 && (#[trigger] tools_document().field("tools"@)->0->Array_0[i]).field("name"@)
            == Some(JsonView::Text(name))
}

/// The tools that are listed are those that can be called.
pub proof fn lemma_listed_tools_can_be_called(name: Seq<char>, s: StateView)
    ensures
        tools_document().field("tools"@)->0->Array_0.len() == 5,
        is_listed(name) <==> tool_result(name, None, s) is Ok,
{
    let tools = tools_document().field("tools"@)->0->Array_0;
    assert(tools[0].field("name"@) == Some(JsonView::Text(STATUS_TOOL@)));
    assert(tools[1].field("name"@) == Some(JsonView::Text(HISTORY_TOOL@)));
    assert(tools[2].field("name"@) == Some(JsonView::Text(PRICE_TOOL@)));
    assert(tools[3].field("name"@) == Some(JsonView::Text(FORECAST_TOOL@)));
    assert(tools[4].field("name"@) == Some(JsonView::Text(DECISION_TOOL@)));
}

/// A request to call a tool, by the tool's name.
pub open spec fn calls(request: JsonView, name: Seq<char>) -> bool {
    &&& text_of(request.field("method"@)) == Some("tools/call"@)
    &&& text_of(field_of(request.field("params"@), "name"@)) == Some(name)
}

/// The document that a request is answered with.
pub open spec fn document_for(request: JsonView, s: StateView) -> Option<JsonView> {
    match outcome_of(request, Some(s)) {
        OutcomeView::Tool(ToolView::Document(doc)) => Some(doc),
        _ => None,
    }
}

proof fn lemma_tool_names()
    ensures
        STATUS_TOOL@ == "get_current_household_energy_status"@,
        HISTORY_TOOL@ == "get_household_energy_history_24h"@,
        PRICE_TOOL@ == "get_electricity_spot_price_forecast"@,
        FORECAST_TOOL@ == "get_solar_and_heating_power_forecast"@,
        DECISION_TOOL@ == "get_battery_and_heatpump_control_decisions"@,
        STATUS_TOOL@ != HISTORY_TOOL@,
        STATUS_TOOL@ != PRICE_TOOL@,
        STATUS_TOOL@ != FORECAST_TOOL@,
        STATUS_TOOL@ != DECISION_TOOL@,
        HISTORY_TOOL@ != PRICE_TOOL@,
        HISTORY_TOOL@ != FORECAST_TOOL@,
        HISTORY_TOOL@ != DECISION_TOOL@,
        PRICE_TOOL@ != FORECAST_TOOL@,
        PRICE_TOOL@ != DECISION_TOOL@,
        FORECAST_TOOL@ != DECISION_TOOL@,
{
    reveal_strlit("get_current_household_energy_status");
    reveal_strlit("get_household_energy_history_24h");
    reveal_strlit("get_electricity_spot_price_forecast");
    reveal_strlit("get_solar_and_heating_power_forecast");
    reveal_strlit("get_battery_and_heatpump_control_decisions");
    assert("get_current_household_energy_status"@.len() == 35);
    assert("get_household_energy_history_24h"@.len() == 32);
    assert("get_electricity_spot_price_forecast"@.len() == 35);
    assert("get_solar_and_heating_power_forecast"@.len() == 36);
    assert("get_battery_and_heatpump_control_decisions"@.len() == 42);
    assert("get_current_household_energy_status"@[4] == 'c' && "get_electricity_spot_price_forecast"@[4] == 'e');
}

proof fn lemma_method_names()
    ensures
        "initialize"@ != "ping"@,
        "initialize"@ != "tools/list"@,
        "initialize"@ != "tools/call"@,
        "ping"@ != "tools/list"@,
        "ping"@ != "tools/call"@,
        "tools/list"@ != "tools/call"@,
{
    reveal_strlit("initialize");
    reveal_strlit("ping");
    reveal_strlit("tools/list");
    reveal_strlit("tools/call");
    assert("initialize"@.len() == 10);
    assert("ping"@.len() == 4);
    assert("tools/list"@.len() == 10);
    assert("tools/call"@.len() == 10);
    assert("initialize"@[0] == 'i' && "tools/list"@[0] == 't');
    assert("initialize"@[0] == 'i' && "tools/call"@[0] == 't');
    assert("tools/list"@[6] == 'l' && "tools/call"@[6] == 'c');
}

/// Each tool answers with what it is named for: the readings, the prices, the forecasts or the
/// decisions of the present state.
pub proof fn lemma_tools_answer(request: JsonView, s: StateView)
    ensures
        calls(request, "get_current_household_energy_status"@) ==> {
            &&& document_for(request, s) matches Some(doc)
            &&& doc.field("solar_pv_production_kw"@) == Some(
                float_view(s.system_status.pv_power),
            )
            &&& doc.field("household_consumption_load_kw"@) == Some(
                float_view(s.system_status.load_power),
            )
            &&& doc.field("grid_power_kw"@) == Some(float_view(s.system_status.grid_power))
            &&& doc.field("battery_power_kw"@) == Some(float_view(s.system_status.battery_power))
        },
        calls(request, "get_electricity_spot_price_forecast"@) ==> {
            &&& document_for(request, s) matches Some(doc)
            &&& doc.field("current_price_euro_cents_per_kwh"@) == Some(float_view(s.current_price))
        },
        calls(request, "get_solar_and_heating_power_forecast"@) ==> {
            &&& document_for(request, s) matches Some(doc)
            &&& doc.field("expected_remaining_pv_yield_today_kwh"@) == Some(
                float_view(s.expected_pv_kwh),
            )
        },
        calls(request, "get_battery_and_heatpump_control_decisions"@) ==> {
            &&& document_for(request, s) matches Some(doc)
            &&& doc.field("controller_status_message"@) == Some(JsonView::Text(s.status_message))
        },
{
    lemma_tool_names();
    lemma_method_names();
    lemma_status_fields(s.system_status);
    lemma_price_fields(s);
    lemma_forecast_fields(s);
    lemma_decision_fields(s);
}

/// The history tool answers with the channel that its argument names, or with all five where it
/// names none.
pub proof fn lemma_history_tool_answers(request: JsonView, s: StateView)
    requires
        calls(request, "get_household_energy_history_24h"@),
    ensures
        match text_of(
            field_of(field_of(request.field("params"@), "arguments"@), "metric_name"@),
        ) {
            Some(key) => {
                &&& is_channel(key) ==> {
                    &&& document_for(request, s) matches Some(doc)
                    &&& items_of(doc.field("metrics"@)) matches Some(list)
                    &&& list.len() == 1
                    &&& list[0].field("metric_name"@) == Some(JsonView::Text(key))
                }
                &&& !is_channel(key) ==> (outcome_of(request, Some(s)) matches OutcomeView::Error(e)
                    && e.code == -32602)
            },
            None => {
                &&& document_for(request, s) matches Some(doc)
                &&& items_of(doc.field("metrics"@)) matches Some(list)
                &&& list.len() == 5
            },
        },
{
    lemma_tool_names();
    lemma_method_names();
    let key = metric_name(request);
    lemma_history_fields(
        s.system_status,
        if key is Some {
            key->0
        } else {
            ""@
        },
    );
}

/// Methods other than the four that are known, calls without a tool's name and calls of an unknown
/// tool are errors with a code of their own; a call before there is a state is answered with a
/// text.
pub proof fn lemma_calls_that_fail(request: JsonView, snapshot: Option<StateView>)
    ensures
        ({
            let method = match text_of(request.field("method"@)) {
                Some(m) => m,
                None => ""@,
            };
            let name = text_of(field_of(request.field("params"@), "name"@));
            let outcome = outcome_of(request, snapshot);
            &&& method != "initialize"@ && method != "ping"@ && method != "tools/list"@ && method
                != "tools/call"@ ==> outcome == OutcomeView::Error(
                ErrorView { code: -32_601i64, message: "method not found: "@ + method },
            )
            &&& method == "tools/call"@ && name is None ==> outcome == OutcomeView::Error(
                ErrorView { code: -32_602i64, message: "missing params.name"@ },
            )
            &&& method == "tools/call"@ && name is Some && snapshot is None ==> outcome
                == OutcomeView::Tool(
                ToolView::Text(
                    "No energy data is available yet. The controller has not published a snapshot since startup; try again in a moment."@,
                ),
            )
            &&& method == "tools/call"@ && name is Some && snapshot is Some && name->0
                != "get_current_household_energy_status"@ && name->0
                != "get_household_energy_history_24h"@ && name->0
                != "get_electricity_spot_price_forecast"@ && name->0
                != "get_solar_and_heating_power_forecast"@ && name->0
                != "get_battery_and_heatpump_control_decisions"@ ==> outcome
                == OutcomeView::Error(
                ErrorView { code: -32_602i64, message: "unknown tool: "@ + name->0 },
            )
        }),
{
    lemma_method_names();
    lemma_tool_names();
}

/// `initialize` tells the protocol's revision, that there are tools, and the server's name and
/// version; `ping` is answered with an empty object.
pub proof fn lemma_introduction(request: JsonView, snapshot: Option<StateView>)
    ensures
        text_of(request.field("method"@)) == Some("initialize"@) ==> {
            &&& outcome_of(request, snapshot) matches OutcomeView::Value(doc)
            &&& doc.field("protocolVersion"@) == Some(JsonView::Text("2024-11-05"@))
            &&& field_of(doc.field("capabilities"@), "tools"@) is Some
            &&& field_of(doc.field("serverInfo"@), "name"@) == Some(
                JsonView::Text("energy-controller"@),
            )
            &&& field_of(doc.field("serverInfo"@), "version"@) == Some(JsonView::Text("0.1.0"@))
            &&& doc.field("instructions"@) is Some
        },
        text_of(request.field("method"@)) == Some("ping"@) ==> (outcome_of(
            request,
            snapshot,
        ) matches OutcomeView::Value(JsonView::Object(fields)) && fields.len() == 0),
        text_of(request.field("method"@)) == Some("tools/list"@) ==> {
            &&& outcome_of(request, snapshot) matches OutcomeView::Value(doc)
            &&& items_of(doc.field("tools"@)) matches Some(tools)
            &&& tools.len() == 5
            &&& tools[0].field("name"@) == Some(JsonView::Text("get_current_household_energy_status"@))
            &&& tools[1].field("name"@) == Some(JsonView::Text("get_household_energy_history_24h"@))
            &&& tools[2].field("name"@) == Some(JsonView::Text("get_electricity_spot_price_forecast"@))
            &&& tools[3].field("name"@) == Some(JsonView::Text("get_solar_and_heating_power_forecast"@))
            &&& tools[4].field("name"@) == Some(
                JsonView::Text("get_battery_and_heatpump_control_decisions"@),
            )
        },
{
    lemma_method_names();
    lemma_tool_names();
    reveal_strlit("protocolVersion");
    reveal_strlit("capabilities");
    reveal_strlit("serverInfo");
    reveal_strlit("instructions");
    reveal_strlit("name");
    reveal_strlit("version");
    reveal_strlit("tools");
    assert("protocolVersion"@.len() == 15);
    assert("capabilities"@.len() == 12);
    assert("serverInfo"@.len() == 10);
    assert("instructions"@.len() == 12);
    assert("name"@.len() == 4);
    assert("version"@.len() == 7);
    assert("tools"@.len() == 5);
    assert("capabilities"@[0] == 'c' && "instructions"@[0] == 'i');
    let fields = identity_document()->Object_0;
    lemma_find_at(fields, "protocolVersion"@, 0, 0);
    lemma_find_at(fields, "capabilities"@, 0, 1);
    lemma_find_at(fields, "serverInfo"@, 0, 2);
    lemma_find_at(fields, "instructions"@, 0, 3);
    lemma_find_at(fields[1].1->Object_0, "tools"@, 0, 0);
    lemma_find_at(fields[2].1->Object_0, "name"@, 0, 0);
    lemma_find_at(fields[2].1->Object_0, "version"@, 0, 1);
    let list = tools_document()->Object_0;
    lemma_find_at(list, "tools"@, 0, 0);
    let tools = list[0].1->Array_0;
    lemma_find_at(tools[0]->Object_0, "name"@, 0, 0);
    lemma_find_at(tools[1]->Object_0, "name"@, 0, 0);
    lemma_find_at(tools[2]->Object_0, "name"@, 0, 0);
    lemma_find_at(tools[3]->Object_0, "name"@, 0, 0);
    lemma_find_at(tools[4]->Object_0, "name"@, 0, 0);
}

/// A message carries what the request resulted in: a value as it is, a tool's text or printed
/// document as the text of its content, and an error by code and message.
pub proof fn lemma_message_contents(reply: ReplyView, printed: Seq<char>)
    ensures
        ({
            let message = message_of(reply, printed);
            match reply.outcome {
                OutcomeView::Value(value) => message.field("result"@) == Some(value),
                OutcomeView::Tool(t) => {
                    &&& items_of(field_of(message.field("result"@), "content"@)) matches Some(list)
                    &&& list.len() == 1
                    &&& list[0].field("type"@) == Some(JsonView::Text("text"@))
                    &&& list[0].field("text"@) == Some(
                        JsonView::Text(
                            match t {
                                ToolView::Text(text) => text,
                                ToolView::Document(_) => printed,
                            },
                        ),
                    )
                },
                OutcomeView::Error(e) => {
                    let error = message.field("error"@);
                    &&& field_of(error, "code"@) == Some(
                        JsonView::Number(
                            if e.code >= 0 {
                                JsonNumber::Unsigned(e.code as u64)
                            } else {
                                JsonNumber::Negative(e.code)
                            },
                        ),
                    )
                    &&& field_of(error, "message"@) == Some(JsonView::Text(e.message))
                },
            }
        }),
{
    reveal_strlit("jsonrpc");
    reveal_strlit("id");
    reveal_strlit("result");
    reveal_strlit("error");
    reveal_strlit("content");
    reveal_strlit("type");
    reveal_strlit("text");
    reveal_strlit("code");
    reveal_strlit("message");
    assert("jsonrpc"@.len() == 7);
    assert("id"@.len() == 2);
    assert("result"@.len() == 6);
    assert("error"@.len() == 5);
    assert("content"@.len() == 7);
    assert("type"@.len() == 4);
    assert("text"@.len() == 4);
    assert("code"@.len() == 4);
    assert("message"@.len() == 7);
    assert("jsonrpc"@[0] == 'j' && "content"@[0] == 'c');
    assert("jsonrpc"@[0] == 'j' && "message"@[0] == 'm');
    assert("content"@[0] == 'c' && "message"@[0] == 'm');
    assert("type"@[1] == 'y' && "text"@[1] == 'e');
    assert("type"@[0] == 't' && "code"@[0] == 'c');
    assert("text"@[0] == 't' && "code"@[0] == 'c');
    let fields = message_of(reply, printed)->Object_0;
    match reply.outcome {
        OutcomeView::Value(_) => lemma_find_at(fields, "result"@, 0, 2),
        OutcomeView::Tool(_) => {
            lemma_find_at(fields, "result"@, 0, 2);
            let inner = fields[2].1->Object_0;
            lemma_find_at(inner, "content"@, 0, 0);
            let item = inner[0].1->Array_0[0]->Object_0;
            lemma_find_at(item, "type"@, 0, 0);
            lemma_find_at(item, "text"@, 0, 1);
        },
        OutcomeView::Error(_) => {
            lemma_find_at(fields, "error"@, 0, 2);
            let inner = fields[2].1->Object_0;
            lemma_find_at(inner, "code"@, 0, 0);
            lemma_find_at(inner, "message"@, 0, 1);
        },
    }
}

/// A tool's arguments form an object that holds nothing but what is named.
pub open spec fn is_closed_object(input: Option<JsonView>) -> bool {
    &&& field_of(input, "type"@) == Some(JsonView::Text("object"@))
    &&& field_of(input, "additionalProperties"@) == Some(JsonView::Bool(false))
}

proof fn lemma_tool(name: Seq<char>, about: Seq<char>, properties: Seq<(Seq<char>, JsonView)>)
    ensures
        ({
            let doc = tool(name, about, properties);
            let input = doc.field("inputSchema"@);
            &&& doc.field("name"@) == Some(JsonView::Text(name))
            &&& doc.field("description"@) == Some(JsonView::Text(about))
            &&& is_closed_object(input)
            &&& field_of(input, "properties"@) == Some(JsonView::Object(properties))
        }),
{
    reveal_strlit("name");
    reveal_strlit("description");
    reveal_strlit("inputSchema");
    reveal_strlit("type");
    reveal_strlit("properties");
    reveal_strlit("additionalProperties");
    assert("name"@.len() == 4);
    assert("description"@.len() == 11);
    assert("inputSchema"@.len() == 11);
    assert("type"@.len() == 4);
    assert("properties"@.len() == 10);
    assert("additionalProperties"@.len() == 20);
    assert("name"@[0] == 'n' && "type"@[0] == 't');
    assert("description"@[0] == 'd' && "inputSchema"@[0] == 'i');
    let fields = tool(name, about, properties)->Object_0;
    lemma_find_at(fields, "name"@, 0, 0);
    lemma_find_at(fields, "description"@, 0, 1);
    lemma_find_at(fields, "inputSchema"@, 0, 2);
    let inner = schema(properties)->Object_0;
    lemma_find_at(inner, "type"@, 0, 0);
    lemma_find_at(inner, "properties"@, 0, 1);
    lemma_find_at(inner, "additionalProperties"@, 0, 2);
}

/// Each tool is described by what it returns. Only the history tool takes an argument, which is the
/// name of one of the five channels.
pub proof fn lemma_tools_are_described(i: int)
    requires
        0 <= i < 5,
    ensures
        ({
            let tools = items_of(tools_document().field("tools"@))->0;
            let input = tools[i].field("inputSchema"@);
            let about = tools[i].field("description"@);
            let metric = field_of(field_of(input, "properties"@), "metric_name"@);
            &&& is_closed_object(input)
            &&& i == 0 ==> about == Some(
                JsonView::Text(
                    "Latest live reading: battery state of charge (%), solar PV, household load, grid and battery power (kW)."@,
                ),
            )
            &&& i == 1 ==> about == Some(
                JsonView::Text(
                    "Rolling 24h history (downsampled to <=48 samples) for one or all energy metrics. Each metric block states its unit."@,
                ),
            )
            &&& i == 2 ==> about == Some(
                JsonView::Text(
                    "Current electricity price, the controller's percentile thresholds, and upcoming hourly spot prices (euro-cents/kWh)."@,
                ),
            )
            &&& i == 3 ==> about == Some(
                JsonView::Text(
                    "Hourly solar PV production and estimated heating demand (kW) for today/tomorrow, plus expected remaining PV yield today (kWh)."@,
                ),
            )
            &&& i == 4 ==> about == Some(
                JsonView::Text(
                    "Controller's current target battery SoC, heat-pump compressor allow/block decision, and status message."@,
                ),
            )
            &&& i != 1 ==> field_of(input, "properties"@) == Some(JsonView::Object(no_fields()))
            &&& i == 1 ==> {
                &&& field_of(metric, "type"@) == Some(JsonView::Text("string"@))
                &&& items_of(field_of(metric, "enum"@)) matches Some(keys)
                &&& keys.len() == 5
                &&& keys[0] == JsonView::Text("battery_state_of_charge_percent"@)
                &&& keys[1] == JsonView::Text("solar_pv_production_kw"@)
                &&& keys[2] == JsonView::Text("household_consumption_load_kw"@)
                &&& keys[3] == JsonView::Text("grid_power_kw"@)
                &&& keys[4] == JsonView::Text("battery_power_kw"@)
            }
        }),
{
    reveal_strlit("tools");
    reveal_strlit("type");
    reveal_strlit("enum");
    reveal_strlit("description");
    reveal_strlit("metric_name");
    assert("tools"@.len() == 5);
    assert("type"@.len() == 4);
    assert("enum"@.len() == 4);
    assert("description"@.len() == 11);
    assert("metric_name"@.len() == 11);
    assert("type"@[0] == 't' && "enum"@[0] == 'e');
    assert("description"@[0] == 'd' && "metric_name"@[0] == 'm');
    lemma_find_at(tools_document()->Object_0, "tools"@, 0, 0);
    lemma_tool(STATUS_TOOL@, STATUS_ABOUT@, no_fields());
    lemma_tool(HISTORY_TOOL@, HISTORY_ABOUT@, metric_argument());
    lemma_tool(PRICE_TOOL@, PRICE_ABOUT@, no_fields());
    lemma_tool(FORECAST_TOOL@, FORECAST_ABOUT@, no_fields());
    lemma_tool(DECISION_TOOL@, DECISION_ABOUT@, no_fields());
    lemma_find_at(metric_argument(), "metric_name"@, 0, 0);
    let inner = metric_argument()[0].1->Object_0;
    lemma_find_at(inner, "type"@, 0, 0);
    lemma_find_at(inner, "enum"@, 0, 1);
}

} // verus!
