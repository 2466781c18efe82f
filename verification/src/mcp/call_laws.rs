//! What each step of a tool call does, event by event.
//!
//! The laws here name tools, members and texts as they stand on the wire.

use super::error::{recorded_kind, reports, ErrorKind, ToolErrorKind};
use super::json::{json_text, json_value, members, string_value};
use super::protocol::{content_bytes, CallToolResult, ToolContent};
use super::tool_call::{
    advances, fills_in, fits, json_bytes, records_outcome, CallRecord, CallStatus, Stage,
    ToolAction, ToolCall, ToolEvent, ToolOutcome,
};
use serde_json::Value;
use vstd::prelude::*;
use vstd::utf8::encode_utf8;

verus! {

/// The error kind in an outcome is this text.
pub open spec fn kind_is(outcome: ToolOutcome, kind: Seq<char>) -> bool {
    outcome.error_kind matches Some(k) && k@ == kind
}

/// `result` is marked as an error, and its one block is the text of a JSON object that
/// holds an object with these texts under `error`, and `message` under `message`.
pub open spec fn tells(
    result: CallToolResult,
    fields: Map<Seq<char>, Seq<char>>,
    message: Seq<char>,
) -> bool {
    &&& result.is_error
    &&& result.content@.len() == 1
    &&& result.content@[0] matches ToolContent::Text { text } && (json_value(text@) matches Some(
        body,
    ) && json_text(body) == Some(text@) && (members(body) matches Some(m) && {
        &&& m.dom() == set!["error"@, "message"@]
        &&& string_value(m["message"@]) == Some(message)
        &&& members(m["error"@]) matches Some(e) && e.dom() == fields.dom() && forall|k: Seq<char>|
         #[trigger]
            fields.contains_key(k) ==> string_value(e[k]) == Some(fields[k])
    }))
}

proof fn lemma_reports_tells(result: CallToolResult, kind: ErrorKind, message: Seq<char>)
    requires
        reports(result, kind, message),
    ensures
        tells(result, kind.fields(), message),
{
    reveal_strlit("error");
    reveal_strlit("message");
    assert("error"@.len() != "message"@.len());
}

/// Every error that the library makes tells its kind, what belongs to the kind, and
/// the message for the reader.
pub proof fn an_error_tells_its_kind(
    result: CallToolResult,
    kind: ToolErrorKind,
    message: Seq<char>,
)
    requires
        reports(result, kind@, message),
    ensures
        kind matches ToolErrorKind::HandlerError { reason } ==> tells(
            result,
            map!["kind"@ => "handler_error"@, "reason"@ => reason@],
            message,
        ) && kind@.code() == "handler_error"@,
        kind matches ToolErrorKind::ToolsetNotLoaded { toolset, tool } ==> tells(
            result,
            map!["kind"@ => "toolset_not_loaded"@, "toolset"@ => toolset@, "tool"@ => tool@],
            message,
        ) && kind@.code() == "toolset_not_loaded"@,
        kind matches ToolErrorKind::UnknownTool { tool } ==> tells(
            result,
            map!["kind"@ => "unknown_tool"@, "tool"@ => tool@],
            message,
        ) && kind@.code() == "unknown_tool"@,
{
    lemma_reports_tells(result, kind@, message);
}

/// A handler's result is passed on as it is: the same error flag and the same blocks,
/// all of them in their order. The call is over.
pub proof fn a_handlers_result_is_passed_on(
    name: Seq<char>,
    result: CallToolResult,
    after: Stage,
)
    requires
        advances(name, Stage::Run, ToolEvent::Returned(Ok(result)), after),
    ensures
        after matches Stage::Done(outcome) && outcome.result == result
            && outcome.result.content@ == result.content@ && outcome.result.is_error
            == result.is_error && outcome.status == (if result.is_error {
            CallStatus::Error
        } else {
            CallStatus::Success
        }) && (!result.is_error ==> outcome.error_kind is None) && (result.is_error
            ==> outcome.error_kind is Some),
        recorded_kind(result) is None <==> !result.is_error,
{
}

/// A handler's error is recorded under the kind that its first block names: the text
/// under `kind` of the object under `error` of the block's JSON.
pub proof fn a_named_kind_is_recorded(
    name: Seq<char>,
    result: CallToolResult,
    text: String,
    body: Map<Seq<char>, Value>,
    error: Map<Seq<char>, Value>,
    kind: Seq<char>,
    after: Stage,
)
    requires
        advances(name, Stage::Run, ToolEvent::Returned(Ok(result)), after),
        result.is_error,
        result.content@.len() > 0,
        result.content@[0] == (ToolContent::Text { text }),
        json_value(text@) matches Some(v) && members(v) == Some(body),
        body.contains_key("error"@),
        members(body["error"@]) == Some(error),
        error.contains_key("kind"@),
        string_value(error["kind"@]) == Some(kind),
    ensures
        after matches Stage::Done(outcome) && kind_is(outcome, kind),
        recorded_kind(result) == Some(kind),
{
}

/// A handler's error whose first block names no kind is recorded as `handler_error`.
pub proof fn an_error_without_a_kind_is_a_handler_error(
    name: Seq<char>,
    result: CallToolResult,
    after: Stage,
)
    requires
        advances(name, Stage::Run, ToolEvent::Returned(Ok(result)), after),
        result.is_error,
        result.content@.len() == 0 || (match result.content@[0] {
            ToolContent::Image { .. } => true,
            ToolContent::Text { text } => match json_value(text@) {
                None => true,
                Some(v) => match members(v) {
                    None => true,
                    Some(body) => !body.contains_key("error"@) || (match members(body["error"@]) {
                        None => true,
                        Some(error) => !error.contains_key("kind"@) || string_value(
                            error["kind"@],
                        ) is None,
                    }),
                },
            },
        }),
    ensures
        after matches Stage::Done(outcome) && kind_is(outcome, "handler_error"@),
        recorded_kind(result) == Some("handler_error"@),
{
}

/// A handler that returns an error ends the call with that error's text, in the reason
/// and in the message.
pub proof fn a_handlers_error_is_told(name: Seq<char>, reason: String, after: Stage)
    requires
        advances(name, Stage::Run, ToolEvent::Returned(Err(reason)), after),
    ensures
        after matches Stage::Done(outcome) && outcome.status == CallStatus::Error && kind_is(
            outcome,
            "handler_error"@,
        ) && tells(
            outcome.result,
            map!["kind"@ => "handler_error"@, "reason"@ => reason@],
            "Tool error: "@ + reason@,
        ),
{
    lemma_reports_tells(
        after->Done_0.result,
        ErrorKind::HandlerError { reason: reason@ },
        "Tool error: "@ + reason@,
    );
}

/// A handler that panics ends the call with what the panic said, and with words of its
/// own where the panic said nothing. The message names the tool.
pub proof fn a_panic_is_told(name: Seq<char>, payload: Option<String>, after: Stage)
    requires
        advances(name, Stage::Run, ToolEvent::Panicked(payload), after),
    ensures
        ({
            let detail = match payload {
                Some(said) => said@,
                None => "unknown panic payload"@,
            };
            after matches Stage::Done(outcome) && outcome.status == CallStatus::Error && kind_is(
                outcome,
                "handler_error"@,
            ) && tells(
                outcome.result,
                map!["kind"@ => "handler_error"@, "reason"@ => "handler panicked: "@ + detail],
                "Tool '"@ + name + "' panicked: "@ + detail
                    + ". This is a bug in the tool; the server is still running and other tools are unaffected."@,
            )
        }),
{
    let detail = match payload {
        Some(said) => said@,
        None => "unknown panic payload"@,
    };
    lemma_reports_tells(
        after->Done_0.result,
        ErrorKind::HandlerError { reason: "handler panicked: "@ + detail },
        "Tool '"@ + name + "' panicked: "@ + detail
            + ". This is a bug in the tool; the server is still running and other tools are unaffected."@,
    );
}

/// A tool of a toolset that is not loaded is not found, and the client is told which
/// toolset to load.
pub proof fn a_missing_toolset_is_named(name: Seq<char>, toolset: String, after: Stage)
    requires
        advances(name, Stage::Locate, ToolEvent::Located(Some(toolset)), after),
    ensures
        after matches Stage::Done(outcome) && outcome.status == CallStatus::NotFound && kind_is(
            outcome,
            "toolset_not_loaded"@,
        ) && tells(
            outcome.result,
            map!["kind"@ => "toolset_not_loaded"@, "toolset"@ => toolset@, "tool"@ => name],
            "Tool '"@ + name + "' is in toolset '"@ + toolset@
                + "' which is not currently loaded. Call load_toolset('"@ + toolset@
                + "') first, then retry."@,
        ),
{
    lemma_reports_tells(
        after->Done_0.result,
        ErrorKind::ToolsetNotLoaded { toolset: toolset@, tool: name },
        "Tool '"@ + name + "' is in toolset '"@ + toolset@
            + "' which is not currently loaded. Call load_toolset('"@ + toolset@
            + "') first, then retry."@,
    );
}

/// A tool that no toolset has is not found, and the client is told how to see what
/// there is.
pub proof fn an_unknown_tool_is_named(name: Seq<char>, after: Stage)
    requires
        advances(name, Stage::Locate, ToolEvent::Located(None), after),
    ensures
        after matches Stage::Done(outcome) && outcome.status == CallStatus::NotFound && kind_is(
            outcome,
            "unknown_tool"@,
        ) && tells(
            outcome.result,
            map!["kind"@ => "unknown_tool"@, "tool"@ => name],
            "Tool '"@ + name + "' not found. Use list_toolboxes() to see available toolsets."@,
        ),
{
    lemma_reports_tells(
        after->Done_0.result,
        ErrorKind::UnknownTool { tool: name },
        "Tool '"@ + name + "' not found. Use list_toolboxes() to see available toolsets."@,
    );
}

/// A meta-tool's answer is passed on as it is, without an error kind: at once, or after
/// the clients were told where the tool is `load_toolset` or `unload_toolset`.
pub proof fn a_meta_tools_answer_is_passed_on(
    name: Seq<char>,
    result: CallToolResult,
    after: Stage,
)
    requires
        advances(name, Stage::AskMeta, ToolEvent::Meta(Some(result)), after),
    ensures
        name == "load_toolset"@ || name == "unload_toolset"@ ==> after is Notify,
        name != "load_toolset"@ && name != "unload_toolset"@ ==> after is Done,
        ({
            let outcome = if after is Notify {
                after->Notify_0
            } else {
                after->Done_0
            };
            &&& outcome.result == result
            &&& outcome.status == if result.is_error {
                CallStatus::Error
            } else {
                CallStatus::Success
            }
            &&& outcome.error_kind is None
        }),
{
}

/// Where no meta-tool answers, a loaded tool is looked up; where there is one, it runs,
/// and where there is none, its toolset is looked for. Once the clients were told, the
/// outcome stands as it was.
pub proof fn a_call_goes_from_place_to_place(
    name: Seq<char>,
    outcome: ToolOutcome,
    unanswered: Stage,
    found: Stage,
    missing: Stage,
    told: Stage,
)
    requires
        advances(name, Stage::AskMeta, ToolEvent::Meta(None), unanswered),
        advances(name, Stage::LookUp, ToolEvent::LookedUp(true), found),
        advances(name, Stage::LookUp, ToolEvent::LookedUp(false), missing),
        advances(name, Stage::Notify(outcome), ToolEvent::Notified, told),
    ensures
        unanswered == Stage::LookUp,
        found == Stage::Run,
        missing == Stage::Locate,
        told == Stage::Done(outcome),
{
}

/// Each stage asks for one thing, takes only what answers it, and is left as it is by
/// anything else; a call that is over takes nothing.
pub proof fn each_stage_takes_its_own_events(
    name: Seq<char>,
    call: ToolCall,
    event: ToolEvent,
    after: Stage,
)
    requires
        advances(name, call.stage, event, after),
    ensures
        call.stage is AskMeta ==> call.asks_for() == ToolAction::AskMetaTools && (fits(
            call.stage,
            event,
        ) <==> event is Meta) && (!(event is Meta) ==> after == call.stage),
        call.stage is Notify ==> call.asks_for() == ToolAction::NotifyToolsListChanged && (fits(
            call.stage,
            event,
        ) <==> event is Notified) && (!(event is Notified) ==> after == call.stage),
        call.stage is LookUp ==> call.asks_for() == ToolAction::LookUpTool && (fits(
            call.stage,
            event,
        ) <==> event is LookedUp) && (!(event is LookedUp) ==> after == call.stage),
        call.stage is Run ==> call.asks_for() == ToolAction::RunHandler && (fits(call.stage, event)
            <==> event is Returned || event is Panicked) && (!(event is Returned)
            && !(event is Panicked) ==> after == call.stage),
        call.stage is Locate ==> call.asks_for() == ToolAction::FindToolset && (fits(
            call.stage,
            event,
        ) <==> event is Located) && (!(event is Located) ==> after == call.stage),
        call.stage is Done ==> call.asks_for() == ToolAction::Finish && !fits(call.stage, event)
            && after == call.stage,
{
}

/// Arguments that a request names are handed to the tool as they are, an empty object
/// stands for those that it leaves out, and their size is that of their JSON text.
pub proof fn named_arguments_are_kept(
    given: Value,
    named: Value,
    left_out: Value,
    args: Value,
)
    requires
        fills_in(Some(given), named),
        fills_in(None, left_out),
    ensures
        named == given,
        members(left_out) == Some(Map::<Seq<char>, Value>::empty()),
        json_text(args) matches Some(text) ==> json_bytes(args) == encode_utf8(text).len(),
        json_text(args) is None ==> json_bytes(args) == 0,
{
}

/// The record of a call agrees with its outcome, its duration is that which was
/// measured, as far as a `u64` goes, and its sizes are those of the JSON text of the
/// arguments and of the content.
pub proof fn a_record_agrees_with_its_call(
    record: CallRecord,
    args: Value,
    elapsed_ms: u128,
    outcome: ToolOutcome,
)
    requires
        records_outcome(record, args, elapsed_ms, outcome),
    ensures
        elapsed_ms <= u64::MAX ==> record.dur_ms == elapsed_ms,
        record.status == outcome.status,
        record.error_kind == outcome.error_kind,
        json_text(args) matches Some(text) ==> record.args_bytes == encode_utf8(text).len(),
        json_text(args) is None ==> record.args_bytes == 0,
        record.result_bytes == content_bytes(outcome.result.content@),
{
}

} // verus!
