//! Which answer each message gets, method by method.
//!
//! The laws here name methods, members, codes and texts as they stand on the wire.

use super::handler::{lists, receives, settles, Exchange, Task};
use super::json::{elements, is_empty_object, is_null, json_text, member, members};
use super::protocol::{JsonRpcRequest, JsonRpcResponse, ListToolsResult, ToolDescription};
use serde_json::Value;
use vstd::prelude::*;

verus! {

proof fn lemma_methods_differ()
    ensures
        "initialize"@ != "notifications/initialized"@,
        "initialize"@ != "ping"@,
        "initialize"@ != "tools/list"@,
        "initialize"@ != "tools/call"@,
        "initialize"@ != "resources/list"@,
        "initialize"@ != "resources/read"@,
        "initialize"@ != "prompts/list"@,
        "notifications/initialized"@ != "ping"@,
        "notifications/initialized"@ != "tools/list"@,
        "notifications/initialized"@ != "tools/call"@,
        "notifications/initialized"@ != "resources/list"@,
        "notifications/initialized"@ != "resources/read"@,
        "notifications/initialized"@ != "prompts/list"@,
        "ping"@ != "tools/list"@,
        "ping"@ != "tools/call"@,
        "ping"@ != "resources/list"@,
        "ping"@ != "resources/read"@,
        "ping"@ != "prompts/list"@,
        "tools/list"@ != "tools/call"@,
        "tools/list"@ != "resources/list"@,
        "tools/list"@ != "resources/read"@,
        "tools/list"@ != "prompts/list"@,
        "tools/call"@ != "resources/list"@,
        "tools/call"@ != "resources/read"@,
        "tools/call"@ != "prompts/list"@,
        "resources/list"@ != "resources/read"@,
        "resources/list"@ != "prompts/list"@,
        "resources/read"@ != "prompts/list"@,
{
    reveal_strlit("initialize");
    reveal_strlit("notifications/initialized");
    reveal_strlit("ping");
    reveal_strlit("tools/list");
    reveal_strlit("tools/call");
    reveal_strlit("resources/list");
    reveal_strlit("resources/read");
    reveal_strlit("prompts/list");
    assert("initialize"@.len() == 10 && "initialize"@[0] == 'i');
    assert("notifications/initialized"@.len() == 25);
    assert("ping"@.len() == 4);
    assert("tools/list"@.len() == 10 && "tools/list"@[0] == 't' && "tools/list"@[6] == 'l');
    assert("tools/call"@.len() == 10 && "tools/call"@[0] == 't' && "tools/call"@[6] == 'c');
    assert("resources/list"@.len() == 14 && "resources/list"@[10] == 'l');
    assert("resources/read"@.len() == 14 && "resources/read"@[10] == 'r');
    assert("prompts/list"@.len() == 12);
}

/// A member of a value is the member that the object has under that key, and no other
/// value has members.
pub proof fn a_member_is_what_stands_under_its_key(v: Value, key: Seq<char>, found: Value)
    ensures
        member(v, key) == Some(found) <==> (members(v) matches Some(m) && m.contains_key(key)
            && m[key] == found),
        member(v, key) is None <==> (members(v) matches Some(m) ==> !m.contains_key(key)),
        is_null(v) <==> json_text(v) == Some("null"@),
        is_empty_object(v) <==> members(v) == Some(Map::<Seq<char>, Value>::empty()),
{
}

/// A message without a `method` gets no answer and asks for no work, whatever else it
/// holds.
pub proof fn a_response_is_let_pass(
    msg: Value,
    decoded: Result<JsonRpcRequest, String>,
    exchange: Exchange,
)
    requires
        members(msg) matches Some(m) ==> !m.contains_key("method"@),
        receives(msg, decoded, exchange),
    ensures
        exchange == Exchange::Closed(None),
{
}

/// A message with a `method` that is no valid request is told so, under the id `null`.
pub proof fn an_invalid_request_is_told_why(
    msg: Value,
    m: Map<Seq<char>, Value>,
    detail: String,
    exchange: Exchange,
)
    requires
        members(msg) == Some(m),
        m.contains_key("method"@),
        receives(msg, Err(detail), exchange),
    ensures
        exchange matches Exchange::Closed(Some(response)) && json_text(response.id) == Some(
            "null"@,
        ) && response.result is None && (response.error matches Some(error) && error.code == -32600
            && error.message@ == "Invalid request: "@ + detail@ && error.data is None),
{
}

/// A `tools/call` waits, under its request's id, for the call with its own parameters,
/// whatever they are; they are `null` only where the request has none.
pub proof fn a_tool_call_keeps_its_parameters(
    msg: Value,
    m: Map<Seq<char>, Value>,
    request: JsonRpcRequest,
    exchange: Exchange,
)
    requires
        members(msg) == Some(m),
        m.contains_key("method"@),
        receives(msg, Ok(request), exchange),
        request.method@ == "tools/call"@,
    ensures
        request.params matches Some(p) ==> exchange == (Exchange::Waiting {
            id: request.id,
            task: Task::CallTool(p),
        }),
        request.params is None ==> (exchange matches Exchange::Waiting { id, task } && id
            == request.id && (task matches Task::CallTool(params) && json_text(params) == Some(
            "null"@,
        ))),
{
    lemma_methods_differ();
}

/// `initialize` and `tools/list` wait, under their request's id, for the server's
/// description and for the list of its tools.
pub proof fn descriptions_and_listings_wait_for_their_work(
    msg: Value,
    m: Map<Seq<char>, Value>,
    request: JsonRpcRequest,
    exchange: Exchange,
)
    requires
        members(msg) == Some(m),
        m.contains_key("method"@),
        receives(msg, Ok(request), exchange),
    ensures
        request.method@ == "initialize"@ ==> exchange == (Exchange::Waiting {
            id: request.id,
            task: Task::Initialize,
        }),
        request.method@ == "tools/list"@ ==> exchange == (Exchange::Waiting {
            id: request.id,
            task: Task::ListTools,
        }),
        request.method@ == "notifications/initialized"@ ==> exchange == Exchange::Closed(None),
{
    lemma_methods_differ();
}

/// The value of `response` is an object whose one member, an empty array, stands under
/// `key`, and the response bears `id`.
pub open spec fn lists_nothing(response: JsonRpcResponse, id: Value, key: Seq<char>) -> bool {
    &&& response.id == id
    &&& response.error is None
    &&& response.result matches Some(value) && (members(value) matches Some(m) && m.dom()
        == set![key] && elements(m[key]) == Some(Seq::<Value>::empty()))
}

/// `ping` is answered at once with an empty object, and the listings of what the
/// server does not have with an empty array under the name of what was asked for.
pub proof fn what_the_server_lacks_is_answered_at_once(
    msg: Value,
    m: Map<Seq<char>, Value>,
    request: JsonRpcRequest,
    id: Value,
    exchange: Exchange,
)
    requires
        members(msg) == Some(m),
        m.contains_key("method"@),
        receives(msg, Ok(request), exchange),
        request.id == Some(id),
    ensures
        request.method@ == "ping"@ ==> (exchange matches Exchange::Closed(Some(response))
            && response.id == id && response.error is None && (response.result matches Some(value)
            && members(value) == Some(Map::<Seq<char>, Value>::empty()))),
        request.method@ == "resources/list"@ ==> (exchange matches Exchange::Closed(Some(response))
            && lists_nothing(response, id, "resources"@)),
        request.method@ == "resources/read"@ ==> (exchange matches Exchange::Closed(Some(response))
            && lists_nothing(response, id, "contents"@)),
        request.method@ == "prompts/list"@ ==> (exchange matches Exchange::Closed(Some(response))
            && lists_nothing(response, id, "prompts"@)),
{
    lemma_methods_differ();
}

/// Any other method is answered with an error that names it.
pub proof fn an_unknown_method_is_named(
    msg: Value,
    m: Map<Seq<char>, Value>,
    request: JsonRpcRequest,
    id: Value,
    exchange: Exchange,
)
    requires
        members(msg) == Some(m),
        m.contains_key("method"@),
        receives(msg, Ok(request), exchange),
        request.id == Some(id),
        request.method@ != "initialize"@,
        request.method@ != "notifications/initialized"@,
        request.method@ != "ping"@,
        request.method@ != "tools/list"@,
        request.method@ != "tools/call"@,
        request.method@ != "resources/list"@,
        request.method@ != "resources/read"@,
        request.method@ != "prompts/list"@,
    ensures
        exchange matches Exchange::Closed(Some(response)) && response.id == id
            && response.result is None && (response.error matches Some(error) && error.code
            == -32603 && error.message@ == "Method not found: "@ + request.method@
            && error.data is None),
{
}

/// A notification is never answered: where it needs no work the exchange is over, and
/// where it does, it waits under no id. Only the three methods that need work wait.
pub proof fn a_notification_opens_no_answer(
    msg: Value,
    m: Map<Seq<char>, Value>,
    request: JsonRpcRequest,
    exchange: Exchange,
)
    requires
        members(msg) == Some(m),
        m.contains_key("method"@),
        receives(msg, Ok(request), exchange),
        request.id is None,
    ensures
        request.method@ != "initialize"@ && request.method@ != "tools/list"@ && request.method@
            != "tools/call"@ ==> exchange == Exchange::Closed(None),
        exchange matches Exchange::Waiting { id, .. } ==> id is None,
{
}

/// Work is answered under the id it waited under, with the value it gave, or with an
/// error that carries its text; without an id it is not answered.
pub proof fn work_is_answered_with_what_it_gave(
    id: Value,
    value: Value,
    reason: String,
    given: Option<JsonRpcResponse>,
    failed: Option<JsonRpcResponse>,
    silent: Option<JsonRpcResponse>,
    outcome: Result<Value, String>,
)
    requires
        settles(Some(id), Ok(value), given),
        settles(Some(id), Err(reason), failed),
        settles(None, outcome, silent),
    ensures
        given matches Some(response) && response.id == id && response.result == Some(value)
            && response.error is None,
        failed matches Some(response) && response.id == id && response.result is None && (
        response.error matches Some(error) && error.code == -32603 && error.message@ == reason@
            && error.data is None),
        silent is None,
{
}

/// The listing holds every meta-tool and every loaded tool, once and in their order,
/// the meta-tools first, on one page.
pub proof fn a_listing_leaves_no_tool_out(
    listing: ListToolsResult,
    meta: Seq<ToolDescription>,
    active: Seq<ToolDescription>,
    k: int,
)
    requires
        lists(listing, meta, active),
    ensures
        listing.tools@.len() == meta.len() + active.len(),
        0 <= k < meta.len() ==> listing.tools@[k] == meta[k],
        0 <= k < active.len() ==> listing.tools@[meta.len() + k] == active[k],
        listing.next_cursor is None,
{
}

} // verus!
