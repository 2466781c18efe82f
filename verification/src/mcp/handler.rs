//! Requests, and which answer each gets.
//!
//! Some requests are answered at once; others take awaiting. [`receive`] decides
//! which, and [`settle`] turns the outcome of the work into the answer.

use super::json;
use super::json::{elements, is_empty_object, is_null, member, members, members_of};
use super::protocol::{
    JsonRpcError, JsonRpcRequest, JsonRpcResponse, ListToolsResult, ToolDescription,
    INTERNAL_ERROR, INVALID_REQUEST,
};
use crate::text::same_text;
use serde_json::Value;
use vstd::prelude::*;

verus! {

/// What a method asks for.
#[derive(Debug, Clone, Copy, PartialEq, Eq, Structural)]
pub enum Route {
    Initialize,
    /// The client has finished initializing: nothing is answered.
    Initialized,
    Ping,
    ListTools,
    CallTool,
    /// The server has no resources.
    Resources,
    /// No resource has contents.
    ResourceContents,
    /// The server has no prompts.
    Prompts,
    Unknown,
}

/// Work that a request needs before it can be answered.
#[derive(Debug)]
pub enum Task {
    /// Describe the server.
    Initialize,
    /// List the tools.
    ListTools,
    /// Call the tool that these parameters name.
    CallTool(Value),
}

/// A request under way.
#[derive(Debug)]
pub enum Exchange {
    /// The exchange is over, with this answer or without one.
    Closed(Option<JsonRpcResponse>),
    /// The answer to `id` waits for `task`. A notification has its work done too,
    /// and no answer.
    Waiting { id: Option<Value>, task: Task },
}

/// The methods that the server knows.
pub open spec fn route(method: Seq<char>) -> Route {
    if method == "initialize"@ {
        Route::Initialize
    } else if method == "notifications/initialized"@ {
        Route::Initialized
    } else if method == "ping"@ {
        Route::Ping
    } else if method == "tools/list"@ {
        Route::ListTools
    } else if method == "tools/call"@ {
        Route::CallTool
    } else if method == "resources/list"@ {
        Route::Resources
    } else if method == "resources/read"@ {
        Route::ResourceContents
    } else if method == "prompts/list"@ {
        Route::Prompts
    } else {
        Route::Unknown
    }
}

/// `v` is the value that was given, and `null` where none was.
pub open spec fn is_given_or_null(v: Value, given: Option<Value>) -> bool {
    match given {
        Some(g) => v == g,
        None => is_null(v),
    }
}

/// An object whose only member is an empty array under `key`.
pub open spec fn is_empty_listing(v: Value, key: Seq<char>) -> bool {
    &&& members(v) matches Some(m) && m.dom() == set![key]
    &&& member(v, key) matches Some(list) && elements(list) == Some(Seq::<Value>::empty())
}

/// The exchange is over: a request has its answer, which bears its id and a value,
/// and a notification has none.
pub open spec fn answered(exchange: Exchange, asked: Option<Value>) -> bool {
    match asked {
        Some(id) => exchange matches Exchange::Closed(Some(response)) && response.id == id
            && response.result is Some && response.error is None,
        None => exchange == Exchange::Closed(None),
    }
}

/// The value that an answered request gave.
pub open spec fn answer(exchange: Exchange) -> Value {
    exchange->Closed_0->0.result->0
}

/// `exchange` is what a request opens, or a notification where it has no id.
pub open spec fn opens(request: JsonRpcRequest, exchange: Exchange) -> bool {
    let expects_answer = request.id is Some;
    match route(request.method@) {
        Route::Initialize => exchange == (Exchange::Waiting {
            id: request.id,
            task: Task::Initialize,
        }),
        Route::Initialized => exchange == Exchange::Closed(None),
        Route::Ping => answered(exchange, request.id) && (expects_answer ==> is_empty_object(
            answer(exchange),
        )),
        Route::ListTools => exchange == (Exchange::Waiting {
            id: request.id,
            task: Task::ListTools,
        }),
        Route::CallTool => exchange matches Exchange::Waiting { id, task } && id == request.id && (
        task matches Task::CallTool(params) && is_given_or_null(params, request.params)),
        Route::Resources => answered(exchange, request.id) && (expects_answer
            ==> is_empty_listing(answer(exchange), "resources"@)),
        Route::ResourceContents => answered(exchange, request.id) && (expects_answer
            ==> is_empty_listing(answer(exchange), "contents"@)),
        Route::Prompts => answered(exchange, request.id) && (expects_answer ==> is_empty_listing(
            answer(exchange),
            "prompts"@,
        )),
        Route::Unknown => match request.id {
            Some(id) => exchange matches Exchange::Closed(Some(response)) && response.fails(
                id,
                INTERNAL_ERROR as int,
                "Method not found: "@ + request.method@,
            ),
            None => exchange == Exchange::Closed(None),
        },
    }
}

/// `answer` is the answer to `id` once its work has ended so; a notification, which
/// has no id, gets none.
pub open spec fn settles(
    id: Option<Value>,
    outcome: Result<Value, String>,
    answer: Option<JsonRpcResponse>,
) -> bool {
    match id {
        Some(id) => answer matches Some(response) && match outcome {
            Ok(value) => response.succeeds(id, value),
            Err(reason) => response.fails(id, INTERNAL_ERROR as int, reason@),
        },
        None => answer is None,
    }
}

/// Whether a message is a request: one without a method is a response, and
/// gets none.
pub fn is_request(msg: &Value) -> (res: bool)
    ensures
        res == (member(*msg, "method"@) is Some),
{
    match json::get(msg, "method") {
        Some(_) => true,
        None => false,
    }
}

/// The answer to a message that has a method and yet is no valid request.
pub fn invalid_request(detail: &str) -> (res: JsonRpcResponse)
    ensures
        is_null(res.id),
        res.fails(res.id, INVALID_REQUEST as int, "Invalid request: "@ + detail@),
{
    JsonRpcResponse::error(
        json::null(),
        JsonRpcError {
            code: INVALID_REQUEST,
            message: "Invalid request: ".to_owned().concat(detail),
            data: None,
        },
    )
}

fn route_of(method: &str) -> (res: Route)
    ensures
        res == route(method@),
{
    if same_text(method, "initialize") {
        Route::Initialize
    } else if same_text(method, "notifications/initialized") {
        Route::Initialized
    } else if same_text(method, "ping") {
        Route::Ping
    } else if same_text(method, "tools/list") {
        Route::ListTools
    } else if same_text(method, "tools/call") {
        Route::CallTool
    } else if same_text(method, "resources/list") {
        Route::Resources
    } else if same_text(method, "resources/read") {
        Route::ResourceContents
    } else if same_text(method, "prompts/list") {
        Route::Prompts
    } else {
        Route::Unknown
    }
}

fn or_null(v: Option<Value>) -> (res: Value)
    ensures
        is_given_or_null(res, v),
{
    match v {
        Some(given) => given,
        None => json::null(),
    }
}

fn empty_listing(key: &str) -> (res: Value)
    ensures
        is_empty_listing(res, key@),
{
    let mut entries: Vec<(String, Value)> = Vec::new();
    entries.push((key.to_owned(), json::array(Vec::new())));
    let res = json::object(entries);
    proof {
        reveal_with_fuel(members_of, 2);
        assert(members(res)->0.dom() =~= set![key@]);
    }
    res
}

/// The end of an exchange that gives `value`.
fn closed(id: Option<Value>, value: Value) -> (res: Exchange)
    ensures
        answered(res, id),
        id is Some ==> answer(res) == value,
{
    Exchange::Closed(settle(id, Ok(value)))
}

/// Opens the exchange of a request: the answer, or the work that it waits for.
pub fn open(request: JsonRpcRequest) -> (res: Exchange)
    ensures
        opens(request, res),
{
    let JsonRpcRequest { id, method, params } = request;
    match route_of(method.as_str()) {
        Route::Initialize => Exchange::Waiting { id, task: Task::Initialize },
        Route::Initialized => Exchange::Closed(None),
        Route::Ping => closed(id, json::object(Vec::new())),
        Route::ListTools => Exchange::Waiting { id, task: Task::ListTools },
        Route::CallTool => Exchange::Waiting { id, task: Task::CallTool(or_null(params)) },
        Route::Resources => closed(id, empty_listing("resources")),
        Route::ResourceContents => closed(id, empty_listing("contents")),
        Route::Prompts => closed(id, empty_listing("prompts")),
        Route::Unknown => Exchange::Closed(
            settle(id, Err("Method not found: ".to_owned().concat(method.as_str()))),
        ),
    }
}

/// `exchange` is what a message opens, `decoded` being the request that it
/// holds or the reason why it holds none.
pub open spec fn receives(
    msg: Value,
    decoded: Result<JsonRpcRequest, String>,
    exchange: Exchange,
) -> bool {
    if member(msg, "method"@) is None {
        exchange == Exchange::Closed(None)
    } else {
        match decoded {
            Ok(request) => opens(request, exchange),
            Err(detail) => exchange matches Exchange::Closed(Some(response)) && is_null(
                response.id,
            ) && response.fails(
                response.id,
                INVALID_REQUEST as int,
                "Invalid request: "@ + detail@,
            ),
        }
    }
}

/// Opens the exchange of a message.
pub fn receive(msg: &Value, decoded: Result<JsonRpcRequest, String>) -> (res: Exchange)
    ensures
        receives(*msg, decoded, res),
{
    if !is_request(msg) {
        return Exchange::Closed(None);
    }
    match decoded {
        Ok(request) => open(request),
        Err(detail) => Exchange::Closed(Some(invalid_request(detail.as_str()))),
    }
}

/// The answer to `id`, once its work has ended with a value or an error's text. A
/// notification, which has no id, gets none.
pub fn settle(id: Option<Value>, outcome: Result<Value, String>) -> (res: Option<JsonRpcResponse>)
    ensures
        settles(id, outcome, res),
{
    match id {
        Some(id) => match outcome {
            Ok(value) => Some(JsonRpcResponse::success(id, value)),
            Err(message) => Some(
                JsonRpcResponse::error(
                    id,
                    JsonRpcError { code: INTERNAL_ERROR, message, data: None },
                ),
            ),
        },
        None => None,
    }
}

/// `listing` holds the tools of `meta` and behind them those of `active`.
pub open spec fn lists(
    listing: ListToolsResult,
    meta: Seq<ToolDescription>,
    active: Seq<ToolDescription>,
) -> bool {
    &&& listing.tools@ == meta + active
    &&& listing.next_cursor is None
}

/// The listing of the tools: the meta-tools, which are always visible, then
/// the domain tools that are loaded.
pub fn list_tools(
    meta: Vec<ToolDescription>,
    active: Vec<ToolDescription>,
) -> (res: ListToolsResult)
    ensures
        lists(res, meta@, active@),
        res.tools@ == meta@ + active@,
        res.next_cursor is None,
{
    let mut tools = meta;
    let mut active = active;
    tools.append(&mut active);
    ListToolsResult { tools, next_cursor: None }
}

} // verus!
