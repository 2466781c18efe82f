//! Tool errors that a client can act on.

use super::json;
use super::json::{
    is_plain_key, is_report, is_text_object, json_text, json_value, member,
    members, members_of, string_value,
};
use super::protocol::{CallToolResult, ToolContent};
use serde_json::Value;
use vstd::prelude::*;

verus! {

/// Why a tool call failed.
#[derive(Debug)]
pub enum ToolErrorKind {
    /// The tool's handler failed or panicked.
    HandlerError { reason: String },
    /// The tool exists, in a toolset that is not loaded.
    ToolsetNotLoaded { toolset: String, tool: String },
    /// There is no such tool.
    UnknownTool { tool: String },
}

/// What a [`ToolErrorKind`] says.
pub enum ErrorKind {
    HandlerError { reason: Seq<char> },
    ToolsetNotLoaded { toolset: Seq<char>, tool: Seq<char> },
    UnknownTool { tool: Seq<char> },
}

impl View for ToolErrorKind {
    type V = ErrorKind;

    open spec fn view(&self) -> ErrorKind {
        match *self {
            ToolErrorKind::HandlerError { reason } => ErrorKind::HandlerError { reason: reason@ },
            ToolErrorKind::ToolsetNotLoaded { toolset, tool } => ErrorKind::ToolsetNotLoaded {
                toolset: toolset@,
                tool: tool@,
            },
            ToolErrorKind::UnknownTool { tool } => ErrorKind::UnknownTool { tool: tool@ },
        }
    }
}

impl ErrorKind {
    /// The name under which the error is reported and recorded.
    pub open spec fn code(self) -> Seq<char> {
        match self {
            ErrorKind::HandlerError { .. } => "handler_error"@,
            ErrorKind::ToolsetNotLoaded { .. } => "toolset_not_loaded"@,
            ErrorKind::UnknownTool { .. } => "unknown_tool"@,
        }
    }

    /// The members of the error's JSON object, each of them a string.
    pub open spec fn fields(self) -> Map<Seq<char>, Seq<char>> {
        let code = Map::<Seq<char>, Seq<char>>::empty().insert("kind"@, self.code());
        match self {
            ErrorKind::HandlerError { reason } => code.insert("reason"@, reason),
            ErrorKind::ToolsetNotLoaded { toolset, tool } => code.insert(
                "toolset"@,
                toolset,
            ).insert("tool"@, tool),
            ErrorKind::UnknownTool { tool } => code.insert("tool"@, tool),
        }
    }
}

/// `v` is an object with exactly these members, all of them strings.
pub open spec fn holds_texts(v: Value, fields: Map<Seq<char>, Seq<char>>) -> bool {
    members(v) matches Some(m) && m.dom() == fields.dom() && forall|k: Seq<char>| #[trigger]
        fields.contains_key(k) ==> string_value(m[k]) == Some(fields[k])
}

/// `body` is the JSON object of an error of this kind: the kind's own object
/// under `error`, and the text for the reader under `message`.
pub open spec fn is_error_body(body: Value, kind: ErrorKind, message: Seq<char>) -> bool {
    &&& members(body) matches Some(m) && m.dom() == set!["error"@, "message"@]
    &&& member(body, "error"@) matches Some(error) && holds_texts(error, kind.fields())
    &&& member(body, "message"@) matches Some(text) && string_value(text) == Some(message)
}

/// `result` reports an error of this kind: it is marked as an error, and its
/// one block is the JSON text of the error's body.
pub open spec fn reports(result: CallToolResult, kind: ErrorKind, message: Seq<char>) -> bool {
    &&& result.is_error
    &&& result.content@.len() == 1
    &&& result.content@[0] matches ToolContent::Text { text } && (json_value(text@) matches Some(
        body,
    ) && is_error_body(body, kind, message) && json_text(body) == Some(text@))
}

proof fn lemma_names()
    ensures
        is_plain_key("kind"@),
        is_plain_key("reason"@),
        is_plain_key("toolset"@),
        is_plain_key("tool"@),
        is_plain_key("error"@),
        is_plain_key("message"@),
        "kind"@ != "reason"@,
        "kind"@ != "toolset"@,
        "kind"@ != "tool"@,
        "toolset"@ != "tool"@,
        "error"@ != "message"@,
{
    reveal_strlit("kind");
    reveal_strlit("reason");
    reveal_strlit("toolset");
    reveal_strlit("tool");
    reveal_strlit("error");
    reveal_strlit("message");
    assert("kind"@[0] != "tool"@[0]);
    assert("toolset"@.len() != "tool"@.len());
    assert("error"@.len() != "message"@.len());
}

impl ToolErrorKind {
    /// The name under which the error is reported and recorded.
    pub fn code(&self) -> (res: &'static str)
        ensures
            res@ == self@.code(),
    {
        match self {
            ToolErrorKind::HandlerError { .. } => "handler_error",
            ToolErrorKind::ToolsetNotLoaded { .. } => "toolset_not_loaded",
            ToolErrorKind::UnknownTool { .. } => "unknown_tool",
        }
    }

    /// The error's JSON object.
    fn to_value(self) -> (res: Value)
        ensures
            holds_texts(res, self@.fields()),
    {
        proof {
            lemma_names();
            reveal_with_fuel(members_of, 4);
        }
        let code = self.code().to_owned();
        let mut entries: Vec<(String, Value)> = Vec::new();
        entries.push(("kind".to_owned(), json::string(code)));
        match self {
            ToolErrorKind::HandlerError { reason } => {
                entries.push(("reason".to_owned(), json::string(reason)));
            },
            ToolErrorKind::ToolsetNotLoaded { toolset, tool } => {
                entries.push(("toolset".to_owned(), json::string(toolset)));
                entries.push(("tool".to_owned(), json::string(tool)));
            },
            ToolErrorKind::UnknownTool { tool } => {
                entries.push(("tool".to_owned(), json::string(tool)));
            },
        }
        let res = json::object(entries);
        assert(members(res)->0.dom() =~= self@.fields().dom());
        res
    }
}

impl CallToolResult {
    /// A result that reports an error of this kind, with a text for the reader.
    pub fn error_kind(kind: ToolErrorKind, message: String) -> (res: CallToolResult)
        ensures
            reports(res, kind@, message@),
    {
        proof {
            lemma_names();
            reveal_with_fuel(members_of, 3);
        }
        let error = kind.to_value();
        let mut entries: Vec<(String, Value)> = Vec::new();
        entries.push(("error".to_owned(), error));
        entries.push(("message".to_owned(), json::string(message)));
        let body = json::object(entries);
        proof {
            assert(members(body)->0.dom() =~= set!["error"@, "message"@]);
            assert(is_text_object(error));
            assert(is_report(body));
        }
        let text = json::report_text(&body);
        let mut content: Vec<ToolContent> = Vec::new();
        content.push(ToolContent::Text { text });
        CallToolResult { content, is_error: true }
    }
}

/// The kind that a block's text names, if it is the JSON text of an error body.
pub open spec fn named_kind(text: Seq<char>) -> Option<Seq<char>> {
    match json_value(text) {
        Some(body) => match member(body, "error"@) {
            Some(error) => match member(error, "kind"@) {
                Some(kind) => string_value(kind),
                None => None,
            },
            None => None,
        },
        None => None,
    }
}

/// The kind under which a result is recorded: none for a success, the kind
/// that an error's first block names, and `handler_error` where it names none.
pub open spec fn recorded_kind(result: CallToolResult) -> Option<Seq<char>> {
    if !result.is_error {
        None
    } else if result.content@.len() > 0 && result.content@[0] is Text && named_kind(
        result.content@[0]->text@,
    ) is Some {
        named_kind(result.content@[0]->text@)
    } else {
        Some("handler_error"@)
    }
}

fn kind_in(text: &str) -> (res: Option<String>)
    ensures
        res matches Some(kind) ==> named_kind(text@) == Some(kind@),
        res is None ==> named_kind(text@) is None,
{
    if let Ok(body) = json::from_str(text) {
        if let Some(error) = json::get(&body, "error") {
            if let Some(kind) = json::get(error, "kind") {
                if let Some(name) = json::as_str(kind) {
                    return Some(name.to_owned());
                }
            }
        }
    }
    None
}

/// The kind under which a result is recorded in the call log.
pub fn extract_error_kind(result: &CallToolResult) -> (res: Option<String>)
    ensures
        res matches Some(kind) ==> recorded_kind(*result) == Some(kind@),
        res is None ==> recorded_kind(*result) is None,
{
    if !result.is_error {
        return None;
    }
    if result.content.len() > 0 {
        if let ToolContent::Text { text } = &result.content[0] {
            if let Some(kind) = kind_in(text.as_str()) {
                return Some(kind);
            }
        }
    }
    Some("handler_error".to_owned())
}

/// A structured error is recorded under the kind that it reports.
pub proof fn structured_errors_carry_their_kind(
    result: CallToolResult,
    kind: ErrorKind,
    message: Seq<char>,
)
    requires
        reports(result, kind, message),
    ensures
        recorded_kind(result) == Some(kind.code()),
{
    lemma_names();
    assert(kind.fields().contains_key("kind"@));
}

} // verus!
