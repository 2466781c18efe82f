//! Messages, and the answers that they get.

use konnect::mcp::handler::{
    invalid_request, is_request, list_tools, open, receive, settle, Exchange, Task,
};
use konnect::mcp::protocol::{
    JsonRpcError, JsonRpcRequest, JsonRpcResponse, ToolDescription, INTERNAL_ERROR,
    INVALID_REQUEST,
};
use serde_json::Value;

fn request(method: &str) -> JsonRpcRequest {
    JsonRpcRequest {
        id: Some(Value::from(7)),
        method: method.to_string(),
        params: None,
    }
}

fn message(text: &str) -> Value {
    serde_json::from_str(text).expect("JSON")
}

fn closed(exchange: Exchange) -> JsonRpcResponse {
    match exchange {
        Exchange::Closed(Some(response)) => response,
        other => panic!("not answered: {:?}", other),
    }
}

fn tool(name: &str) -> ToolDescription {
    ToolDescription {
        name: name.to_string(),
        description: String::new(),
        input_schema: Value::Null,
    }
}

#[test]
fn a_request_has_a_method() {
    assert!(is_request(&message("{\"method\":\"ping\"}")));
    assert!(is_request(&message("{\"method\":null}")));
    assert!(!is_request(&message("{\"result\":{}}")));
    assert!(!is_request(&message("[\"method\"]")));
    assert!(!is_request(&message("\"method\"")));
}

#[test]
fn a_message_without_a_method_gets_no_answer() {
    let msg = message("{\"id\":1,\"result\":{}}");
    assert!(matches!(receive(&msg, Ok(request("ping"))), Exchange::Closed(None)));
    assert!(matches!(
        receive(&msg, Err("no method".to_string())),
        Exchange::Closed(None)
    ));
}

#[test]
fn a_bad_request_is_answered_with_an_error() {
    let msg = message("{\"id\":1,\"method\":3}");
    let response = closed(receive(&msg, Err("invalid type".to_string())));
    assert_eq!(response.id, Value::Null);
    assert!(response.result.is_none());
    let error = response.error.expect("an error");
    assert_eq!(error.code, INVALID_REQUEST);
    assert_eq!(error.code, -32600);
    assert_eq!(error.message, "Invalid request: invalid type");
    assert!(error.data.is_none());
}

#[test]
fn a_good_request_is_opened() {
    let msg = message("{\"id\":7,\"method\":\"ping\"}");
    let response = closed(receive(&msg, Ok(request("ping"))));
    assert_eq!(response.id, Value::from(7));
}

#[test]
fn invalid_requests_have_no_id() {
    let response = invalid_request("x");
    assert_eq!(response.id, Value::Null);
    assert_eq!(response.error.expect("an error").message, "Invalid request: x");
}

#[test]
fn a_ping_is_answered_with_an_empty_object() {
    let response = closed(open(request("ping")));
    assert_eq!(response.id, Value::from(7));
    assert_eq!(response.result, Some(message("{}")));
    assert!(response.error.is_none());
}

#[test]
fn the_initialized_notification_is_not_answered() {
    assert!(matches!(
        open(request("notifications/initialized")),
        Exchange::Closed(None)
    ));
}

#[test]
fn there_are_no_resources_and_no_prompts() {
    let response = closed(open(request("resources/list")));
    assert_eq!(response.result, Some(message("{\"resources\":[]}")));
    let response = closed(open(request("resources/read")));
    assert_eq!(response.result, Some(message("{\"contents\":[]}")));
    let response = closed(open(request("prompts/list")));
    assert_eq!(response.result, Some(message("{\"prompts\":[]}")));
}

#[test]
fn an_unknown_method_is_an_error() {
    let response = closed(open(request("tools/delete")));
    assert_eq!(response.id, Value::from(7));
    let error = response.error.expect("an error");
    assert_eq!(error.code, INTERNAL_ERROR);
    assert_eq!(error.code, -32603);
    assert_eq!(error.message, "Method not found: tools/delete");
}

#[test]
fn a_notification_is_not_answered() {
    for method in [
        "notifications/cancelled",
        "notifications/initialized",
        "ping",
        "resources/list",
        "resources/read",
        "prompts/list",
        "tools/delete",
    ] {
        let mut notification = request(method);
        notification.id = None;
        assert!(matches!(open(notification), Exchange::Closed(None)), "{}", method);
    }
    let msg = message("{\"jsonrpc\":\"2.0\",\"method\":\"notifications/cancelled\"}");
    let mut cancelled = request("notifications/cancelled");
    cancelled.id = None;
    assert!(matches!(receive(&msg, Ok(cancelled)), Exchange::Closed(None)));
}

#[test]
fn the_work_of_a_notification_is_done_and_not_answered() {
    for method in ["initialize", "tools/list", "tools/call"] {
        let mut notification = request(method);
        notification.id = None;
        match open(notification) {
            Exchange::Waiting { id, .. } => {
                assert_eq!(id, None);
                assert!(settle(id, Ok(Value::Null)).is_none());
            }
            other => panic!("unexpected: {:?}", other),
        }
    }
    assert!(settle(None, Err("failed".to_string())).is_none());
}

#[test]
fn an_id_of_null_is_an_id() {
    let mut anonymous = request("ping");
    anonymous.id = Some(Value::Null);
    assert_eq!(closed(open(anonymous)).id, Value::Null);
}

#[test]
fn work_waits_under_the_requests_id() {
    match open(request("initialize")) {
        Exchange::Waiting { id, task: Task::Initialize } => assert_eq!(id, Some(Value::from(7))),
        other => panic!("unexpected: {:?}", other),
    }
    match open(request("tools/list")) {
        Exchange::Waiting { id, task: Task::ListTools } => assert_eq!(id, Some(Value::from(7))),
        other => panic!("unexpected: {:?}", other),
    }
}

#[test]
fn a_call_carries_its_parameters() {
    let mut call = request("tools/call");
    call.params = Some(message("{\"name\":\"draw\"}"));
    match open(call) {
        Exchange::Waiting { id, task: Task::CallTool(params) } => {
            assert_eq!(id, Some(Value::from(7)));
            assert_eq!(params, message("{\"name\":\"draw\"}"));
        }
        other => panic!("unexpected: {:?}", other),
    }
    match open(request("tools/call")) {
        Exchange::Waiting { task: Task::CallTool(params), .. } => assert_eq!(params, Value::Null),
        other => panic!("unexpected: {:?}", other),
    }
}

#[test]
fn work_is_answered_with_its_value_or_its_error() {
    let response = settle(Some(Value::from("a")), Ok(Value::from(1))).expect("an answer");
    assert_eq!(response.id, Value::from("a"));
    assert_eq!(response.result, Some(Value::from(1)));
    assert!(response.error.is_none());

    let response = settle(Some(Value::from("a")), Err("missing field `name`".to_string()))
        .expect("an answer");
    assert_eq!(response.id, Value::from("a"));
    assert!(response.result.is_none());
    let error = response.error.expect("an error");
    assert_eq!(error.code, INTERNAL_ERROR);
    assert_eq!(error.message, "missing field `name`");
    assert!(error.data.is_none());
}

#[test]
fn meta_tools_are_listed_first() {
    let listing = list_tools(vec![tool("a"), tool("b")], vec![tool("c")]);
    let names: Vec<&str> = listing.tools.iter().map(|t| t.name.as_str()).collect();
    assert_eq!(names, vec!["a", "b", "c"]);
    assert_eq!(listing.next_cursor, None);
    assert_eq!(list_tools(vec![], vec![]).tools.len(), 0);
}

#[test]
fn a_response_holds_a_result_or_an_error() {
    let good = JsonRpcResponse::success(Value::Null, Value::from(true));
    assert_eq!(good.result, Some(Value::from(true)));
    assert!(good.error.is_none());
    let error = JsonRpcError { code: -1, message: "m".to_string(), data: Some(Value::Null) };
    let bad = JsonRpcResponse::error(Value::from(2), error);
    assert_eq!(bad.id, Value::from(2));
    assert!(bad.result.is_none());
    let error = bad.error.expect("an error");
    assert_eq!((error.code, error.message.as_str()), (-1, "m"));
}
