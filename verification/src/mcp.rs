//! The built-in tool server that tells the time: which answer each request
//! of the tool protocol gets. Reading requests and writing answers, and
//! reading the clock, are the caller's business.

use crate::text::str_eq;
use vstd::prelude::*;

verus! {

/// What a tool call names.
#[derive(Debug, PartialEq, Eq)]
pub enum CallParams {
    /// The parameters are no object.
    NotAnObject,
    /// The parameters are an object without a `name` string.
    Unnamed,
    /// The parameters name this tool.
    Tool(String),
}

/// What the server does with a request.
#[derive(Debug, PartialEq, Eq)]
pub enum McpReply {
    /// Answer with the protocol version and the server's description.
    Initialize,
    /// Answer with the list of tools.
    ToolList,
    /// Answer with the current time.
    CurrentTime,
    /// Answer with an error.
    Error { code: i32, message: String },
    /// Do not answer.
    Silence,
}

/// The mathematical content of a [`McpReply`].
pub ghost enum ReplyView {
    Initialize,
    ToolList,
    CurrentTime,
    Error { code: int, message: Seq<char> },
    Silence,
}

impl View for McpReply {
    type V = ReplyView;

    open spec fn view(&self) -> ReplyView {
        match self {
            McpReply::Initialize => ReplyView::Initialize,
            McpReply::ToolList => ReplyView::ToolList,
            McpReply::CurrentTime => ReplyView::CurrentTime,
            McpReply::Error { code, message } => ReplyView::Error {
                code: *code as int,
                message: message@,
            },
            McpReply::Silence => ReplyView::Silence,
        }
    }
}

/// The error code for a tool that does not exist.
pub const METHOD_NOT_FOUND: i32 = -32601;

/// The error code for unusable parameters.
pub const INVALID_PARAMS: i32 = -32602;

/// The name of the one tool the server offers.
pub open spec fn time_tool() -> Seq<char> {
    "get_current_time"@
}

/// The answer to a tool call with the parameters `params`.
pub open spec fn call_reply(params: CallParams) -> ReplyView {
    match params {
        CallParams::NotAnObject => ReplyView::Error {
            code: INVALID_PARAMS as int,
            message: "Invalid params"@,
        },
        CallParams::Unnamed => ReplyView::Error {
            code: INVALID_PARAMS as int,
            message: "Missing 'name' parameter"@,
        },
        CallParams::Tool(name) => if name@ == time_tool() {
            ReplyView::CurrentTime
        } else {
            ReplyView::Error {
                code: METHOD_NOT_FOUND as int,
                message: "Tool not found: "@ + name@,
            }
        },
    }
}

/// The answer to the request `method`: `initialize`, `tools/list` and
/// `tools/call` are answered, every other method is met with silence.
pub open spec fn reply_of(method: Seq<char>, params: CallParams) -> ReplyView {
    if method == "initialize"@ {
        ReplyView::Initialize
    } else if method == "tools/list"@ {
        ReplyView::ToolList
    } else if method == "tools/call"@ {
        call_reply(params)
    } else {
        ReplyView::Silence
    }
}

/// Whether the built-in server `name` exists: only `time` does.
pub fn is_known_server(name: &str) -> (b: bool)
    ensures
        b == (name@ == "time"@),
{
    str_eq(name, "time")
}

/// Decides the answer to a request: see [`reply_of`].
pub fn mcp_reply(method: &str, params: &CallParams) -> (r: McpReply)
    ensures
        r@ == reply_of(method@, *params),
{
    if str_eq(method, "initialize") {
        McpReply::Initialize
    } else if str_eq(method, "tools/list") {
        McpReply::ToolList
    } else if str_eq(method, "tools/call") {
        match params {
            CallParams::NotAnObject => McpReply::Error {
                code: INVALID_PARAMS,
                message: "Invalid params".to_owned(),
            },
            CallParams::Unnamed => McpReply::Error {
                code: INVALID_PARAMS,
                message: "Missing 'name' parameter".to_owned(),
            },
            CallParams::Tool(name) => {
                if str_eq(name.as_str(), "get_current_time") {
                    McpReply::CurrentTime
                } else {
                    McpReply::Error {
                        code: METHOD_NOT_FOUND,
                        message: "Tool not found: ".to_owned().concat(name.as_str()),
                    }
                }
            },
        }
    } else {
        McpReply::Silence
    }
}

} // verus!
