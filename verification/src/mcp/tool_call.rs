//! One tool call, from the client's request to the answer and its record.
//!
//! A call is looked up in three places, in this order: the meta-tools, which
//! are always there; the domain tools that are loaded; and the toolsets that
//! could be loaded, to tell the client which one to load. Looking up and
//! running a tool takes awaiting, so [`ToolCall`] only decides: its caller
//! performs the [`ToolAction`] that a call asks for and hands the outcome
//! back as a [`ToolEvent`].

use super::error::{extract_error_kind, recorded_kind, reports, ErrorKind, ToolErrorKind};
use super::json;
use super::json::{is_empty_object, json_text};
use super::protocol::{content_bytes, result_content_bytes, CallToolResult};
use crate::text::same_text;
use serde_json::Value;
use vstd::prelude::*;
use vstd::utf8::{encode_utf8, is_ascii_chars_encode_utf8};

verus! {

/// How a call ended, for the call log.
#[derive(Debug, Clone, Copy, PartialEq, Eq, Structural)]
pub enum CallStatus {
    Success,
    Error,
    NotFound,
}

/// What a call gives its caller, with what the log needs of it.
#[derive(Debug)]
pub struct ToolOutcome {
    pub result: CallToolResult,
    pub status: CallStatus,
    pub error_kind: Option<String>,
}

/// Where a call stands.
#[derive(Debug)]
pub enum Stage {
    /// The meta-tools are asked first.
    AskMeta,
    /// The set of tools changed: clients are told before the call is answered.
    Notify(ToolOutcome),
    /// No meta-tool has the name: a loaded tool may.
    LookUp,
    /// A loaded tool has the name: its handler runs.
    Run,
    /// No loaded tool has the name: a toolset may.
    Locate,
    /// The call is over.
    Done(ToolOutcome),
}

/// A call of the tool `name`.
#[derive(Debug)]
pub struct ToolCall {
    pub name: String,
    pub stage: Stage,
}

/// What a call asks of its caller.
#[derive(Debug, Clone, Copy, PartialEq, Eq, Structural)]
pub enum ToolAction {
    AskMetaTools,
    NotifyToolsListChanged,
    LookUpTool,
    RunHandler,
    FindToolset,
    Finish,
}

/// How an action went.
#[derive(Debug)]
pub enum ToolEvent {
    /// The answer of the meta-tool of that name, if there is one.
    Meta(Option<CallToolResult>),
    /// The clients were told.
    Notified,
    /// Whether a loaded tool has the name.
    LookedUp(bool),
    /// The handler returned, with a result or with an error's text.
    Returned(Result<CallToolResult, String>),
    /// The handler panicked, with this text where the panic carried one.
    Panicked(Option<String>),
    /// The toolset that has the tool, if there is one.
    Located(Option<String>),
}

/// Meta-tools that change which tools are listed.
pub open spec fn changes_tool_list(name: Seq<char>) -> bool {
    name == "load_toolset"@ || name == "unload_toolset"@
}

/// The status of a call that a tool answered.
pub open spec fn status_of(result: CallToolResult) -> CallStatus {
    if result.is_error {
        CallStatus::Error
    } else {
        CallStatus::Success
    }
}

/// What is said of a panic that carried no text.
pub open spec fn panic_detail(payload: Option<String>) -> Seq<char> {
    match payload {
        Some(text) => text@,
        None => "unknown panic payload"@,
    }
}

/// What the client reads where a handler panicked.
pub open spec fn panic_message(name: Seq<char>, detail: Seq<char>) -> Seq<char> {
    "Tool '"@ + name + "' panicked: "@ + detail
        + ". This is a bug in the tool; the server is still running and other tools are unaffected."@
}

/// What the client reads where the tool's toolset is not loaded.
pub open spec fn not_loaded_message(name: Seq<char>, toolset: Seq<char>) -> Seq<char> {
    "Tool '"@ + name + "' is in toolset '"@ + toolset
        + "' which is not currently loaded. Call load_toolset('"@ + toolset
        + "') first, then retry."@
}

/// What the client reads where no toolset has the tool.
pub open spec fn unknown_message(name: Seq<char>) -> Seq<char> {
    "Tool '"@ + name + "' not found. Use list_toolboxes() to see available toolsets."@
}

impl ToolOutcome {
    /// The outcome of a meta-tool: it is recorded without an error kind.
    pub open spec fn of_meta(self, result: CallToolResult) -> bool {
        &&& self.result == result
        &&& self.status == status_of(result)
        &&& self.error_kind is None
    }

    /// The outcome of a handler that returned a result.
    pub open spec fn of_result(self, result: CallToolResult) -> bool {
        &&& self.result == result
        &&& self.status == status_of(result)
        &&& self.records(recorded_kind(result))
    }

    /// The outcome of a call that the server itself answers with an error.
    pub open spec fn of_failure(
        self,
        kind: ErrorKind,
        message: Seq<char>,
        status: CallStatus,
    ) -> bool {
        &&& reports(self.result, kind, message)
        &&& self.status == status
        &&& self.records(Some(kind.code()))
    }

    /// The error kind that goes to the log.
    pub open spec fn records(self, kind: Option<Seq<char>>) -> bool {
        match self.error_kind {
            Some(k) => kind == Some(k@),
            None => kind is None,
        }
    }
}

/// An event that answers what the call asked for.
pub open spec fn fits(stage: Stage, event: ToolEvent) -> bool {
    match stage {
        Stage::AskMeta => event is Meta,
        Stage::Notify(_) => event is Notified,
        Stage::LookUp => event is LookedUp,
        Stage::Run => event is Returned || event is Panicked,
        Stage::Locate => event is Located,
        Stage::Done(_) => false,
    }
}

/// `after` is where `event` takes a call of `name` that stands at `stage`. An
/// event that does not fit leaves the call where it is.
pub open spec fn advances(name: Seq<char>, stage: Stage, event: ToolEvent, after: Stage) -> bool {
    match (stage, event) {
        (Stage::AskMeta, ToolEvent::Meta(Some(result))) => if changes_tool_list(name) {
            after matches Stage::Notify(outcome) && outcome.of_meta(result)
        } else {
            after matches Stage::Done(outcome) && outcome.of_meta(result)
        },
        (Stage::AskMeta, ToolEvent::Meta(None)) => after is LookUp,
        (Stage::Notify(outcome), ToolEvent::Notified) => after == Stage::Done(outcome),
        (Stage::LookUp, ToolEvent::LookedUp(loaded)) => if loaded {
            after is Run
        } else {
            after is Locate
        },
        (Stage::Run, ToolEvent::Returned(Ok(result))) => after matches Stage::Done(outcome)
            && outcome.of_result(result),
        (Stage::Run, ToolEvent::Returned(Err(reason))) => after matches Stage::Done(outcome)
            && outcome.of_failure(
            ErrorKind::HandlerError { reason: reason@ },
            "Tool error: "@ + reason@,
            CallStatus::Error,
        ),
        (Stage::Run, ToolEvent::Panicked(payload)) => after matches Stage::Done(outcome)
            && outcome.of_failure(
            ErrorKind::HandlerError { reason: "handler panicked: "@ + panic_detail(payload) },
            panic_message(name, panic_detail(payload)),
            CallStatus::Error,
        ),
        (Stage::Locate, ToolEvent::Located(Some(toolset))) => after matches Stage::Done(outcome)
            && outcome.of_failure(
            ErrorKind::ToolsetNotLoaded { toolset: toolset@, tool: name },
            not_loaded_message(name, toolset@),
            CallStatus::NotFound,
        ),
        (Stage::Locate, ToolEvent::Located(None)) => after matches Stage::Done(outcome)
            && outcome.of_failure(
            ErrorKind::UnknownTool { tool: name },
            unknown_message(name),
            CallStatus::NotFound,
        ),
        _ => after == stage,
    }
}

fn status(result: &CallToolResult) -> (res: CallStatus)
    ensures
        res == status_of(*result),
{
    if result.is_error {
        CallStatus::Error
    } else {
        CallStatus::Success
    }
}

fn failure(kind: ToolErrorKind, message: String, status: CallStatus) -> (res: ToolOutcome)
    ensures
        res.of_failure(kind@, message@, status),
{
    let code = kind.code().to_owned();
    ToolOutcome {
        result: CallToolResult::error_kind(kind, message),
        status,
        error_kind: Some(code),
    }
}

/// The end of a call whose handler returned.
fn returned(outcome: Result<CallToolResult, String>) -> (res: ToolOutcome)
    ensures
        outcome matches Ok(result) ==> res.of_result(result),
        outcome matches Err(reason) ==> res.of_failure(
            ErrorKind::HandlerError { reason: reason@ },
            "Tool error: "@ + reason@,
            CallStatus::Error,
        ),
{
    match outcome {
        Ok(result) => {
            let status = status(&result);
            let error_kind = extract_error_kind(&result);
            ToolOutcome { result, status, error_kind }
        },
        Err(reason) => {
            let message = "Tool error: ".to_owned().concat(reason.as_str());
            failure(ToolErrorKind::HandlerError { reason }, message, CallStatus::Error)
        },
    }
}

/// The end of a call whose handler panicked: one failed call, and no more.
fn panicked(name: &str, payload: Option<String>) -> (res: ToolOutcome)
    ensures
        res.of_failure(
            ErrorKind::HandlerError { reason: "handler panicked: "@ + panic_detail(payload) },
            panic_message(name@, panic_detail(payload)),
            CallStatus::Error,
        ),
{
    let detail = match payload {
        Some(text) => text,
        None => "unknown panic payload".to_owned(),
    };
    let reason = "handler panicked: ".to_owned().concat(detail.as_str());
    let message = "Tool '".to_owned().concat(name).concat("' panicked: ").concat(
        detail.as_str(),
    ).concat(
        ". This is a bug in the tool; the server is still running and other tools are unaffected.",
    );
    failure(ToolErrorKind::HandlerError { reason }, message, CallStatus::Error)
}

/// The end of a call of a tool that is not loaded: a hint on how to get it.
fn not_loaded(name: &str, toolset: Option<String>) -> (res: ToolOutcome)
    ensures
        toolset matches Some(toolset) ==> res.of_failure(
            ErrorKind::ToolsetNotLoaded { toolset: toolset@, tool: name@ },
            not_loaded_message(name@, toolset@),
            CallStatus::NotFound,
        ),
        toolset is None ==> res.of_failure(
            ErrorKind::UnknownTool { tool: name@ },
            unknown_message(name@),
            CallStatus::NotFound,
        ),
{
    match toolset {
        Some(toolset) => {
            let message = "Tool '".to_owned().concat(name).concat("' is in toolset '").concat(
                toolset.as_str(),
            ).concat("' which is not currently loaded. Call load_toolset('").concat(
                toolset.as_str(),
            ).concat("') first, then retry.");
            failure(
                ToolErrorKind::ToolsetNotLoaded { toolset, tool: name.to_owned() },
                message,
                CallStatus::NotFound,
            )
        },
        None => {
            let message = "Tool '".to_owned().concat(name).concat(
                "' not found. Use list_toolboxes() to see available toolsets.",
            );
            failure(
                ToolErrorKind::UnknownTool { tool: name.to_owned() },
                message,
                CallStatus::NotFound,
            )
        },
    }
}

impl ToolCall {
    /// A call at its start.
    pub fn new(name: String) -> (res: ToolCall)
        ensures
            res.name == name,
            res.stage is AskMeta,
    {
        ToolCall { name, stage: Stage::AskMeta }
    }

    /// What the call asks for.
    pub open spec fn asks_for(self) -> ToolAction {
        match self.stage {
            Stage::AskMeta => ToolAction::AskMetaTools,
            Stage::Notify(_) => ToolAction::NotifyToolsListChanged,
            Stage::LookUp => ToolAction::LookUpTool,
            Stage::Run => ToolAction::RunHandler,
            Stage::Locate => ToolAction::FindToolset,
            Stage::Done(_) => ToolAction::Finish,
        }
    }

    /// What the call asks for.
    pub fn action(&self) -> (res: ToolAction)
        ensures
            res == self.asks_for(),
    {
        match &self.stage {
            Stage::AskMeta => ToolAction::AskMetaTools,
            Stage::Notify(_) => ToolAction::NotifyToolsListChanged,
            Stage::LookUp => ToolAction::LookUpTool,
            Stage::Run => ToolAction::RunHandler,
            Stage::Locate => ToolAction::FindToolset,
            Stage::Done(_) => ToolAction::Finish,
        }
    }

    /// Takes the call on by what happened.
    pub fn step(self, event: ToolEvent) -> (res: ToolCall)
        ensures
            res.name == self.name,
            advances(self.name@, self.stage, event, res.stage),
    {
        let ToolCall { name, stage } = self;
        let stage = match stage {
            Stage::AskMeta => match event {
                ToolEvent::Meta(Some(result)) => {
                    let status = status(&result);
                    let outcome = ToolOutcome { result, status, error_kind: None };
                    if same_text(name.as_str(), "load_toolset") || same_text(
                        name.as_str(),
                        "unload_toolset",
                    ) {
                        Stage::Notify(outcome)
                    } else {
                        Stage::Done(outcome)
                    }
                },
                ToolEvent::Meta(None) => Stage::LookUp,
                _ => Stage::AskMeta,
            },
            Stage::Notify(outcome) => match event {
                ToolEvent::Notified => Stage::Done(outcome),
                _ => Stage::Notify(outcome),
            },
            Stage::LookUp => match event {
                ToolEvent::LookedUp(loaded) => if loaded {
                    Stage::Run
                } else {
                    Stage::Locate
                },
                _ => Stage::LookUp,
            },
            Stage::Run => match event {
                ToolEvent::Returned(outcome) => Stage::Done(returned(outcome)),
                ToolEvent::Panicked(payload) => Stage::Done(panicked(name.as_str(), payload)),
                _ => Stage::Run,
            },
            Stage::Locate => match event {
                ToolEvent::Located(toolset) => Stage::Done(not_loaded(name.as_str(), toolset)),
                _ => Stage::Locate,
            },
            Stage::Done(outcome) => Stage::Done(outcome),
        };
        ToolCall { name, stage }
    }
}

/// The line that a call leaves in the call log.
#[derive(Debug)]
pub struct CallRecord {
    pub call_id: String,
    /// When the call started, in milliseconds of Unix time.
    pub ts: u64,
    pub tool: String,
    /// The toolset that has the tool, loaded or not.
    pub toolset: Option<String>,
    pub dur_ms: u64,
    pub status: CallStatus,
    pub error_kind: Option<String>,
    pub args_bytes: usize,
    pub result_bytes: usize,
}

/// The bytes of a value's JSON text; none where it has no text.
pub open spec fn json_bytes(v: Value) -> nat {
    match json_text(v) {
        Some(text) => encode_utf8(text).len(),
        None => 0,
    }
}

/// `args` are the arguments of a call whose request names `arguments`: these, or
/// the one object without members where it names none.
pub open spec fn fills_in(arguments: Option<Value>, args: Value) -> bool {
    match arguments {
        Some(given) => args == given,
        None => is_empty_object(args) && forall|other: Value| #[trigger]
            is_empty_object(other) ==> other == args,
    }
}

/// The arguments of a call: an empty object where the request names none.
pub fn arguments_or_empty(arguments: Option<Value>) -> (res: Value)
    ensures
        fills_in(arguments, res),
{
    match arguments {
        Some(given) => given,
        None => json::object(Vec::new()),
    }
}

/// The size of a call's arguments on the wire; an object without members takes
/// two bytes.
pub fn args_bytes(args: &Value) -> (res: usize)
    ensures
        res == json_bytes(*args),
        is_empty_object(*args) ==> res == 2,
{
    match json::to_string(args) {
        Ok(text) => {
            proof {
                reveal_strlit("{}");
                if text@ == "{}"@ {
                    is_ascii_chars_encode_utf8(text@);
                }
            }
            text.as_str().as_bytes().len()
        },
        Err(_) => 0,
    }
}

/// `record` says of a call with this outcome how it went and how large it was.
pub open spec fn records_outcome(
    record: CallRecord,
    args: Value,
    elapsed_ms: u128,
    outcome: ToolOutcome,
) -> bool {
    &&& record.dur_ms == elapsed_ms % 0x1_0000_0000_0000_0000
    &&& record.status == outcome.status
    &&& record.error_kind == outcome.error_kind
    &&& record.args_bytes == json_bytes(args)
    &&& record.result_bytes == content_bytes(outcome.result.content@)
}

/// The record of a finished call.
pub fn call_record(
    call_id: String,
    ts: u64,
    tool: &str,
    toolset: Option<String>,
    args: &Value,
    elapsed_ms: u128,
    outcome: &ToolOutcome,
) -> (res: CallRecord)
    requires
        content_bytes(outcome.result.content@) <= usize::MAX,
    ensures
        res.call_id == call_id,
        res.ts == ts,
        res.tool@ == tool@,
        res.toolset == toolset,
        res.dur_ms == elapsed_ms % 0x1_0000_0000_0000_0000,
        res.status == outcome.status,
        res.error_kind == outcome.error_kind,
        res.args_bytes == json_bytes(*args),
        is_empty_object(*args) ==> res.args_bytes == 2,
        res.result_bytes == content_bytes(outcome.result.content@),
        records_outcome(res, *args, elapsed_ms, *outcome),
{
    assert(elapsed_ms as u64 == elapsed_ms % 0x1_0000_0000_0000_0000) by (bit_vector);
    CallRecord {
        call_id,
        ts,
        tool: tool.to_owned(),
        toolset,
        dur_ms: #[verifier::truncate] (elapsed_ms as u64),
        status: outcome.status,
        error_kind: outcome.error_kind.clone(),
        args_bytes: args_bytes(args),
        result_bytes: result_content_bytes(&outcome.result),
    }
}

} // verus!
