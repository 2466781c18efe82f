//! Tool calls from their start to their record.

use konnect::mcp::error::{extract_error_kind, ToolErrorKind};
use konnect::mcp::protocol::{
    checked_content_bytes, result_content_bytes, CallToolResult, ToolContent,
};
use konnect::mcp::tool_call::{
    args_bytes, arguments_or_empty, call_record, CallStatus, Stage, ToolAction, ToolCall,
    ToolEvent, ToolOutcome,
};
use serde_json::Value;

fn text_result(text: &str, is_error: bool) -> CallToolResult {
    CallToolResult {
        content: vec![ToolContent::Text { text: text.to_string() }],
        is_error,
    }
}

fn outcome(call: ToolCall) -> ToolOutcome {
    assert_eq!(call.action(), ToolAction::Finish);
    match call.stage {
        Stage::Done(outcome) => outcome,
        other => panic!("not finished: {:?}", other),
    }
}

fn first_text(result: &CallToolResult) -> &str {
    match &result.content[0] {
        ToolContent::Text { text } => text,
        other => panic!("expected a text content block, got {:?}", other),
    }
}

/// A call whose handler is about to run.
fn running(name: &str) -> ToolCall {
    let call = ToolCall::new(name.to_string());
    assert_eq!(call.action(), ToolAction::AskMetaTools);
    let call = call.step(ToolEvent::Meta(None));
    assert_eq!(call.action(), ToolAction::LookUpTool);
    let call = call.step(ToolEvent::LookedUp(true));
    assert_eq!(call.action(), ToolAction::RunHandler);
    call
}

/// What a task that panics leaves behind, as text.
fn text_of_a_panic() -> Option<String> {
    let runtime = tokio::runtime::Builder::new_current_thread()
        .build()
        .expect("a runtime");
    let joined = runtime.block_on(async {
        tokio::spawn(async {
            if true {
                panic!("deliberate panic from a tool handler");
            }
        })
        .await
    });
    let payload = joined.err()?.try_into_panic().ok()?;
    match payload.downcast_ref::<&str>() {
        Some(text) => Some(text.to_string()),
        None => payload.downcast_ref::<String>().cloned(),
    }
}

/// A panicking handler must be contained as one failed call.
#[test]
fn panicking_handler_is_contained_as_a_tool_error() {
    let call = running("panicking_test_tool").step(ToolEvent::Panicked(text_of_a_panic()));
    let result = outcome(call).result;

    assert!(result.is_error, "a panic must surface as an error result");

    let ToolContent::Text { text } = &result.content[0] else {
        panic!("expected a text content block");
    };
    let body: Value = serde_json::from_str(text).expect("structured error body");
    assert_eq!(body["error"]["kind"], "handler_error");
    assert!(
        body["message"].as_str().unwrap().contains("panicked"),
        "message should name the panic, got: {}",
        body["message"]
    );
}

/// The server keeps serving after a panic.
#[test]
fn server_still_dispatches_after_a_handler_panics() {
    let _ = running("panicking_test_tool").step(ToolEvent::Panicked(text_of_a_panic()));

    let call = ToolCall::new("get_active_toolsets".to_string());
    let after = outcome(call.step(ToolEvent::Meta(Some(text_result("[]", false))))).result;
    assert!(!after.is_error, "server must keep serving after a panic");
}

#[test]
fn a_panic_is_reported_with_its_text() {
    let call = running("draw").step(ToolEvent::Panicked(Some("index out of bounds".to_string())));
    let outcome = outcome(call);
    assert_eq!(outcome.status, CallStatus::Error);
    assert_eq!(outcome.error_kind.as_deref(), Some("handler_error"));
    assert_eq!(
        first_text(&outcome.result),
        "{\"error\":{\"kind\":\"handler_error\",\"reason\":\"handler panicked: index out of bounds\"},\
         \"message\":\"Tool 'draw' panicked: index out of bounds. This is a bug in the tool; \
         the server is still running and other tools are unaffected.\"}"
    );
}

#[test]
fn a_panic_without_text_is_reported_all_the_same() {
    let call = running("draw").step(ToolEvent::Panicked(None));
    let outcome = outcome(call);
    let body: Value = serde_json::from_str(first_text(&outcome.result)).expect("JSON");
    assert_eq!(body["error"]["reason"], "handler panicked: unknown panic payload");
}

#[test]
fn a_handlers_error_becomes_a_tool_error() {
    let call = running("draw").step(ToolEvent::Returned(Err("no \"sheet\"".to_string())));
    let outcome = outcome(call);
    assert!(outcome.result.is_error);
    assert_eq!(outcome.status, CallStatus::Error);
    assert_eq!(outcome.error_kind.as_deref(), Some("handler_error"));
    assert_eq!(
        first_text(&outcome.result),
        "{\"error\":{\"kind\":\"handler_error\",\"reason\":\"no \\\"sheet\\\"\"},\
         \"message\":\"Tool error: no \\\"sheet\\\"\"}"
    );
}

#[test]
fn a_handlers_result_is_passed_on() {
    let outcome = outcome(running("draw").step(ToolEvent::Returned(Ok(text_result("ok", false)))));
    assert_eq!(first_text(&outcome.result), "ok");
    assert_eq!(outcome.status, CallStatus::Success);
    assert_eq!(outcome.error_kind, None);
}

#[test]
fn a_plain_error_is_recorded_as_a_handler_error() {
    let outcome = outcome(running("draw").step(ToolEvent::Returned(Ok(text_result("no", true)))));
    assert_eq!(first_text(&outcome.result), "no");
    assert_eq!(outcome.status, CallStatus::Error);
    assert_eq!(outcome.error_kind.as_deref(), Some("handler_error"));
}

#[test]
fn a_structured_error_is_recorded_under_its_own_kind() {
    let body = "{\"error\":{\"kind\":\"kicad_unreachable\"},\"message\":\"start KiCad\"}";
    let outcome = outcome(running("draw").step(ToolEvent::Returned(Ok(text_result(body, true)))));
    assert_eq!(outcome.status, CallStatus::Error);
    assert_eq!(outcome.error_kind.as_deref(), Some("kicad_unreachable"));
}

#[test]
fn a_tool_of_an_unloaded_toolset_names_the_toolset() {
    let call = ToolCall::new("add_wire".to_string())
        .step(ToolEvent::Meta(None))
        .step(ToolEvent::LookedUp(false));
    assert_eq!(call.action(), ToolAction::FindToolset);
    let outcome = outcome(call.step(ToolEvent::Located(Some("sch_edit".to_string()))));
    assert_eq!(outcome.status, CallStatus::NotFound);
    assert_eq!(outcome.error_kind.as_deref(), Some("toolset_not_loaded"));
    let body: Value = serde_json::from_str(first_text(&outcome.result)).expect("JSON");
    assert_eq!(body["error"]["kind"], "toolset_not_loaded");
    assert_eq!(body["error"]["toolset"], "sch_edit");
    assert_eq!(body["error"]["tool"], "add_wire");
    assert_eq!(
        body["message"],
        "Tool 'add_wire' is in toolset 'sch_edit' which is not currently loaded. \
         Call load_toolset('sch_edit') first, then retry."
    );
}

#[test]
fn an_unknown_tool_is_not_found() {
    let call = ToolCall::new("nope".to_string())
        .step(ToolEvent::Meta(None))
        .step(ToolEvent::LookedUp(false))
        .step(ToolEvent::Located(None));
    let outcome = outcome(call);
    assert!(outcome.result.is_error);
    assert_eq!(outcome.status, CallStatus::NotFound);
    assert_eq!(outcome.error_kind.as_deref(), Some("unknown_tool"));
    let body: Value = serde_json::from_str(first_text(&outcome.result)).expect("JSON");
    assert_eq!(body["error"]["kind"], "unknown_tool");
    assert_eq!(body["error"]["tool"], "nope");
    assert_eq!(
        body["message"],
        "Tool 'nope' not found. Use list_toolboxes() to see available toolsets."
    );
}

#[test]
fn a_meta_tool_ends_the_call() {
    let call = ToolCall::new("server_stats".to_string());
    let outcome = outcome(call.step(ToolEvent::Meta(Some(text_result("no", true)))));
    assert_eq!(first_text(&outcome.result), "no");
    assert_eq!(outcome.status, CallStatus::Error);
    assert_eq!(outcome.error_kind, None);
}

#[test]
fn toolset_changes_are_announced_before_the_answer() {
    for name in ["load_toolset", "unload_toolset"] {
        let call = ToolCall::new(name.to_string());
        let call = call.step(ToolEvent::Meta(Some(text_result("done", false))));
        assert_eq!(call.action(), ToolAction::NotifyToolsListChanged);
        let outcome = outcome(call.step(ToolEvent::Notified));
        assert_eq!(first_text(&outcome.result), "done");
        assert_eq!(outcome.status, CallStatus::Success);
        assert_eq!(outcome.error_kind, None);
    }
}

#[test]
fn an_event_that_does_not_fit_changes_nothing() {
    let call = ToolCall::new("draw".to_string()).step(ToolEvent::Notified);
    assert_eq!(call.action(), ToolAction::AskMetaTools);
    let call = running("draw").step(ToolEvent::Located(None));
    assert_eq!(call.action(), ToolAction::RunHandler);
    let call = call.step(ToolEvent::Returned(Ok(text_result("ok", false))));
    let outcome = outcome(call.step(ToolEvent::Panicked(None)));
    assert_eq!(first_text(&outcome.result), "ok");
}

#[test]
fn three_events_end_a_call() {
    let call = ToolCall::new("draw".to_string())
        .step(ToolEvent::Meta(None))
        .step(ToolEvent::LookedUp(true))
        .step(ToolEvent::Returned(Ok(text_result("ok", false))));
    assert_eq!(call.action(), ToolAction::Finish);
    assert_eq!(call.name, "draw");
}

#[test]
fn error_kinds_have_their_codes() {
    let reason = String::new();
    assert_eq!(ToolErrorKind::HandlerError { reason }.code(), "handler_error");
    let (toolset, tool) = (String::new(), String::new());
    assert_eq!(
        ToolErrorKind::ToolsetNotLoaded { toolset, tool }.code(),
        "toolset_not_loaded"
    );
    let tool = String::new();
    assert_eq!(ToolErrorKind::UnknownTool { tool }.code(), "unknown_tool");
}

#[test]
fn an_error_carries_the_kind_that_it_is_recorded_under() {
    let kind = ToolErrorKind::UnknownTool { tool: "t".to_string() };
    let result = CallToolResult::error_kind(kind, "m".to_string());
    assert_eq!(
        first_text(&result),
        "{\"error\":{\"kind\":\"unknown_tool\",\"tool\":\"t\"},\"message\":\"m\"}"
    );
    assert_eq!(extract_error_kind(&result).as_deref(), Some("unknown_tool"));
}

#[test]
fn a_success_has_no_error_kind() {
    let body = "{\"error\":{\"kind\":\"unknown_tool\"}}";
    assert_eq!(extract_error_kind(&text_result(body, false)), None);
}

#[test]
fn a_body_that_names_no_kind_is_a_handler_error() {
    for body in [
        "",
        "plain text",
        "[]",
        "{}",
        "{\"error\":\"x\"}",
        "{\"error\":{}}",
        "{\"error\":{\"kind\":7}}",
    ] {
        let kind = extract_error_kind(&text_result(body, true));
        assert_eq!(kind.as_deref(), Some("handler_error"), "body: {}", body);
    }
    let empty = CallToolResult { content: vec![], is_error: true };
    assert_eq!(extract_error_kind(&empty).as_deref(), Some("handler_error"));
    let image = CallToolResult {
        content: vec![ToolContent::Image {
            data: "QUJD".to_string(),
            mime_type: "image/png".to_string(),
        }],
        is_error: true,
    };
    assert_eq!(extract_error_kind(&image).as_deref(), Some("handler_error"));
}

#[test]
fn content_is_counted_in_bytes() {
    let result = CallToolResult {
        content: vec![
            ToolContent::Text { text: "\u{b5}F".to_string() },
            ToolContent::Image {
                data: "QUJD".to_string(),
                mime_type: "image/png".to_string(),
            },
            ToolContent::Text { text: String::new() },
        ],
        is_error: false,
    };
    assert_eq!(result_content_bytes(&result), 7);
    assert_eq!(checked_content_bytes(&result), Some(7));
    let empty = CallToolResult { content: vec![], is_error: false };
    assert_eq!(result_content_bytes(&empty), 0);
}

#[test]
fn absent_arguments_are_an_empty_object() {
    let args = arguments_or_empty(None);
    assert_eq!(args.to_string(), "{}");
    assert_eq!(args_bytes(&args), 2);
    let given = Value::from("x");
    assert_eq!(arguments_or_empty(Some(given.clone())), given);
}

#[test]
fn arguments_are_counted_as_compact_json() {
    let args: Value = serde_json::from_str("{ \"x\" : 1, \"y\" : \"\u{b5}\" }").expect("JSON");
    assert_eq!(args_bytes(&args), "{\"x\":1,\"y\":\"\u{b5}\"}".len());
    assert_eq!(args_bytes(&Value::Null), 4);
}

#[test]
fn the_record_says_how_the_call_went() {
    let done = outcome(running("draw").step(ToolEvent::Returned(Ok(text_result("no", true)))));
    let args = arguments_or_empty(None);
    let toolset = Some("sch_edit".to_string());
    let record = call_record("id-1".to_string(), 17, "draw", toolset, &args, 250, &done);
    assert_eq!(record.call_id, "id-1");
    assert_eq!(record.ts, 17);
    assert_eq!(record.tool, "draw");
    assert_eq!(record.toolset.as_deref(), Some("sch_edit"));
    assert_eq!(record.dur_ms, 250);
    assert_eq!(record.status, CallStatus::Error);
    assert_eq!(record.error_kind.as_deref(), Some("handler_error"));
    assert_eq!(record.args_bytes, 2);
    assert_eq!(record.result_bytes, 2);
}

#[test]
fn a_duration_keeps_its_low_bits() {
    let done = outcome(running("draw").step(ToolEvent::Returned(Ok(text_result("ok", false)))));
    let elapsed = (1u128 << 64) + 5;
    let record = call_record(String::new(), 0, "draw", None, &Value::Null, elapsed, &done);
    assert_eq!(record.dur_ms, 5);
    assert_eq!(record.toolset, None);
    assert_eq!(record.error_kind, None);
}

#[test]
fn left_out_arguments_count_as_an_empty_object() {
    let done = outcome(running("draw").step(ToolEvent::Returned(Ok(text_result("ok", false)))));
    let given: Value = serde_json::from_str("{}").expect("JSON");
    let left_out = arguments_or_empty(None);
    let named = arguments_or_empty(Some(given));
    assert_eq!(left_out, named);
    for args in [&left_out, &named] {
        let record = call_record(String::new(), 0, "draw", None, args, 0, &done);
        assert_eq!(record.args_bytes, 2);
    }
}

#[test]
fn a_call_works_once_its_toolset_is_loaded() {
    let call = ToolCall::new("add_wire".to_string())
        .step(ToolEvent::Meta(None))
        .step(ToolEvent::LookedUp(false))
        .step(ToolEvent::Located(Some("sch_edit".to_string())));
    assert_eq!(outcome(call).status, CallStatus::NotFound);

    let call = running("add_wire").step(ToolEvent::Returned(Ok(text_result("ok", false))));
    assert_eq!(outcome(call).status, CallStatus::Success);
}
