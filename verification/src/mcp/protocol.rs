//! The messages of the protocol.

use serde_json::Value;
use vstd::prelude::*;
use vstd::utf8::encode_utf8;

verus! {

/// JSON-RPC: the message is not a valid request.
pub const INVALID_REQUEST: i64 = -32600;

/// JSON-RPC: the request could not be carried out.
pub const INTERNAL_ERROR: i64 = -32603;

/// A JSON-RPC request, or a notification where `id` is absent: that gets no answer.
#[derive(Debug)]
pub struct JsonRpcRequest {
    pub id: Option<Value>,
    pub method: String,
    pub params: Option<Value>,
}

/// Why a request failed.
#[derive(Debug)]
pub struct JsonRpcError {
    pub code: i64,
    pub message: String,
    pub data: Option<Value>,
}

/// The answer to a request: a result or an error, never both.
#[derive(Debug)]
pub struct JsonRpcResponse {
    pub id: Value,
    pub result: Option<Value>,
    pub error: Option<JsonRpcError>,
}

impl JsonRpcResponse {
    /// The response tells the caller `id` that its request gave `value`.
    pub open spec fn succeeds(self, id: Value, value: Value) -> bool {
        &&& self.id == id
        &&& self.result == Some(value)
        &&& self.error is None
    }

    /// The response tells the caller `id` that its request failed.
    pub open spec fn fails(self, id: Value, code: int, message: Seq<char>) -> bool {
        &&& self.id == id
        &&& self.result is None
        &&& self.error matches Some(e) && e.code == code && e.message@ == message && e.data is None
    }

    /// The response to a request that gave `result`.
    pub fn success(id: Value, result: Value) -> (res: JsonRpcResponse)
        ensures
            res.succeeds(id, result),
    {
        JsonRpcResponse { id, result: Some(result), error: None }
    }

    /// The response to a request that failed with `error`.
    pub fn error(id: Value, error: JsonRpcError) -> (res: JsonRpcResponse)
        ensures
            res.id == id,
            res.result is None,
            res.error == Some(error),
    {
        JsonRpcResponse { id, result: None, error: Some(error) }
    }
}

/// What a `tools/call` request asks for.
#[derive(Debug)]
pub struct CallToolParams {
    pub name: String,
    pub arguments: Option<Value>,
}

/// A tool as it is listed to a client.
#[derive(Debug)]
pub struct ToolDescription {
    pub name: String,
    pub description: String,
    pub input_schema: Value,
}

/// The answer to a `tools/list` request.
#[derive(Debug)]
pub struct ListToolsResult {
    pub tools: Vec<ToolDescription>,
    pub next_cursor: Option<String>,
}

/// A block of a tool's answer.
#[derive(Debug)]
pub enum ToolContent {
    Text { text: String },
    /// An image, its data encoded in base64.
    Image { data: String, mime_type: String },
}

/// What a tool call gives its caller.
#[derive(Debug)]
pub struct CallToolResult {
    pub content: Vec<ToolContent>,
    pub is_error: bool,
}

/// The bytes of one block that a client sees on the wire.
pub open spec fn block_bytes(block: ToolContent) -> nat {
    match block {
        ToolContent::Text { text } => encode_utf8(text@).len(),
        ToolContent::Image { data, .. } => encode_utf8(data@).len(),
    }
}

/// The bytes of a sequence of blocks.
pub open spec fn content_bytes(content: Seq<ToolContent>) -> nat
    decreases content.len(),
{
    if content.len() == 0 {
        0
    } else {
        content_bytes(content.drop_last()) + block_bytes(content.last())
    }
}

proof fn lemma_content_bytes_monotone(content: Seq<ToolContent>, n: int)
    requires
        0 <= n <= content.len(),
    ensures
        content_bytes(content.take(n)) <= content_bytes(content),
    decreases content.len(),
{
    if n == content.len() {
        assert(content.take(n) =~= content);
    } else {
        lemma_content_bytes_monotone(content.drop_last(), n);
        assert(content.drop_last().take(n) =~= content.take(n));
    }
}

fn block_len(block: &ToolContent) -> (res: usize)
    ensures
        res == block_bytes(*block),
{
    match block {
        ToolContent::Text { text } => text.as_str().as_bytes().len(),
        ToolContent::Image { data, .. } => data.as_str().as_bytes().len(),
    }
}

/// The content bytes of a result, or `None` where they exceed a `usize`.
pub fn checked_content_bytes(result: &CallToolResult) -> (res: Option<usize>)
    ensures
        res is Some <==> content_bytes(result.content@) <= usize::MAX,
        res matches Some(total) ==> total == content_bytes(result.content@),
{
    let content = &result.content;
    let mut total: usize = 0;
    let mut i: usize = 0;
    while i < content.len()
        invariant
            i <= content@.len(),
            content@ == result.content@,
            total == content_bytes(content@.take(i as int)),
        decreases content.len() - i,
    {
        proof {
            assert(content@.take(i + 1).drop_last() =~= content@.take(i as int));
            lemma_content_bytes_monotone(content@, i + 1);
        }
        match total.checked_add(block_len(&content[i])) {
            Some(sum) => {
                total = sum;
            },
            None => {
                return None;
            },
        }
        i += 1;
    }
    assert(content@.take(content@.len() as int) =~= content@);
    Some(total)
}

/// The content bytes of a result, for the size accounting of the call log.
/// Images are counted by the length of their base64 data, which is what the
/// client sees over the wire.
pub fn result_content_bytes(result: &CallToolResult) -> (res: usize)
    requires
        content_bytes(result.content@) <= usize::MAX,
    ensures
        res == content_bytes(result.content@),
{
    match checked_content_bytes(result) {
        Some(total) => total,
        None => {
            assert(false);
            0
        },
    }
}

} // verus!
