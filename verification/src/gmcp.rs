//! The GMCP protocol handler: routing JSON-RPC 2.0 request lines and
//! rendering the substrate's answers.
use vstd::prelude::*;
use crate::mission::{json_quoted, json_quote};
use crate::text::{chars_of, equals_str, push_str, seq_starts_with, starts_with, string_of};
use crate::server::HttpMethod;

verus! {

/// The compact JSON text of member `key` of a text parsed with
/// `serde_json` (of the member `parent` of it, when a parent is given):
/// none when the text is not JSON, or the member (or its parent) is
/// absent or not inside an object.
pub uninterp spec fn json_member_json(line: Seq<char>, parent: Option<Seq<char>>, key: Seq<char>) -> Option<Seq<char>>;

/// The text of member `key` of a text parsed with `serde_json` (of its
/// member `parent`, when given), when that member is a JSON string.
pub uninterp spec fn json_member_str(line: Seq<char>, parent: Option<Seq<char>>, key: Seq<char>) -> Option<Seq<char>>;

/// A parent member name, as text.
pub open spec fn parent_text(parent: Option<&str>) -> Option<Seq<char>> {
    match parent {
        Some(p) => Some(p@),
        None => None,
    }
}

/// Parses the line with `serde_json::from_str` into a `Value`, looks the
/// member up with `Value::get` and renders it with `Value::to_string`.
#[verifier::external_body]
pub(crate) fn member_json(line: &str, parent: Option<&str>, key: &str) -> (r: Option<String>)
    ensures
        match json_member_json(line@, parent_text(parent), key@) {
            Some(t) => r matches Some(x) && x@ == t,
            None => r is None,
        },
{
    let v: serde_json::Value = serde_json::from_str(line).ok()?;
    let scope = match parent {
        Some(p) => v.get(p)?,
        None => &v,
    };
    scope.get(key).map(|m| m.to_string())
}

/// Parses the line with `serde_json::from_str` into a `Value`, looks the
/// member up with `Value::get` and reads it with `Value::as_str`.
#[verifier::external_body]
pub(crate) fn member_str(line: &str, parent: Option<&str>, key: &str) -> (r: Option<String>)
    ensures
        match json_member_str(line@, parent_text(parent), key@) {
            Some(t) => r matches Some(x) && x@ == t,
            None => r is None,
        },
{
    let v: serde_json::Value = serde_json::from_str(line).ok()?;
    let scope = match parent {
        Some(p) => v.get(p)?,
        None => &v,
    };
    scope.get(key).and_then(|m| m.as_str()).map(|s| s.to_string())
}

/// How an MCP server is launched: its command, arguments and extra
/// environment.
#[derive(Debug, Clone)]
pub struct McpServerConfig {
    pub command: String,
    pub args: Vec<String>,
    pub env: Option<std::collections::HashMap<String, String>>,
}

/// The MCP servers a host knows, by name.
#[derive(Debug, Clone)]
pub struct McpConfig {
    pub mcp_servers: std::collections::HashMap<String, McpServerConfig>,
}

/// The substrate's unified tool-execution entry point.
pub struct GmcpHost;

/// The substrate's protocol server.
pub struct GmcpServer;

/// What a request asks of the substrate.
#[derive(Debug, Clone, PartialEq, Eq)]
pub enum GmcpRequest {
    Initialize,
    ListTools,
    /// A tool call, as the intent handed to the master agent.
    CallTool(String),
    Unsupported,
}

/// The request id's JSON text (`null` when there is none).
pub open spec fn request_id(line: Seq<char>) -> Seq<char> {
    match json_member_json(line, None, "id"@) {
        Some(t) => t,
        None => "null"@,
    }
}

/// The intent of a tool call: the tool's name (empty when missing) and
/// its arguments' JSON text (`null` when missing).
pub open spec fn call_intent(line: Seq<char>) -> Seq<char> {
    let name = match json_member_str(line, Some("params"@), "name"@) { Some(n) => n, None => Seq::empty() };
    let args = match json_member_json(line, Some("params"@), "arguments"@) { Some(a) => a, None => "null"@ };
    name + " "@ + args
}

/// The answer to `initialize`.
pub open spec fn initialize_answer(id: Seq<char>, version: Seq<char>) -> Seq<char> {
    "{\"id\":"@ + id + ",\"jsonrpc\":\"2.0\",\"result\":{\"capabilities\":{\"tools\":{\"listChanged\":false}},\"protocolVersion\":\"2024-11-05\",\"serverInfo\":{\"name\":\"susi-substrate\",\"version\":"@
        + json_quoted(version) + "}}}"@
}

/// The answer to `tools/list`, given the tool list's JSON text.
pub open spec fn tools_answer(id: Seq<char>, tools: Seq<char>) -> Seq<char> {
    "{\"id\":"@ + id + ",\"jsonrpc\":\"2.0\",\"result\":{\"tools\":"@ + tools + "}}"@
}

/// The answer to `tools/call`, given the result text.
pub open spec fn call_answer(id: Seq<char>, text: Seq<char>) -> Seq<char> {
    "{\"id\":"@ + id + ",\"jsonrpc\":\"2.0\",\"result\":{\"content\":[{\"text\":"@ + json_quoted(text) + ",\"type\":\"text\"}]}}"@
}

/// The answer to any other method.
pub open spec fn not_found_answer(id: Seq<char>) -> Seq<char> {
    "{\"error\":{\"code\":-32601,\"message\":\"Method not found\"},\"id\":"@ + id + ",\"jsonrpc\":\"2.0\"}"@
}

/// The JSON-RPC 2.0 handler of the substrate's protocol.
pub struct GmcpProtocolHandler;

impl GmcpProtocolHandler {
    /// The id of a request line (its JSON text) and what it asks: its
    /// method decides; a tool call carries the tool's name and arguments
    /// as an intent.
    pub fn route(&self, line: &str) -> (r: (String, GmcpRequest))
        ensures
            r.0@ == request_id(line@),
            match json_member_str(line@, None, "method"@) {
                Some(m) => if m == "initialize"@ {
                    r.1 == GmcpRequest::Initialize
                } else if m == "tools/list"@ {
                    r.1 == GmcpRequest::ListTools
                } else if m == "tools/call"@ {
                    r.1 matches GmcpRequest::CallTool(i) && i@ == call_intent(line@)
                } else {
                    r.1 == GmcpRequest::Unsupported
                },
                None => r.1 == GmcpRequest::Unsupported,
            },
    {
        let id = match member_json(line, None, "id") {
            Some(t) => t,
            None => String::from_str("null"),
        };
        let request = match member_str(line, None, "method") {
            Some(m) => {
                let mc = chars_of(m.as_str());
                if equals_str(&mc, "initialize") {
                    GmcpRequest::Initialize
                } else if equals_str(&mc, "tools/list") {
                    GmcpRequest::ListTools
                } else if equals_str(&mc, "tools/call") {
                    let mut intent = match member_str(line, Some("params"), "name") {
                        Some(n) => n,
                        None => String::new(),
                    };
                    push_str(&mut intent, " ");
                    match member_json(line, Some("params"), "arguments") {
                        Some(a) => push_str(&mut intent, a.as_str()),
                        None => push_str(&mut intent, "null"),
                    }
                    GmcpRequest::CallTool(intent)
                } else {
                    GmcpRequest::Unsupported
                }
            },
            None => GmcpRequest::Unsupported,
        };
        (id, request)
    }

    /// The answer to `initialize`, naming the substrate's version.
    pub fn initialize_response(&self, id: &str, version: &str) -> (r: String)
        ensures
            r@ == initialize_answer(id@, version@),
    {
        let mut s = String::new();
        push_str(&mut s, "{\"id\":");
        push_str(&mut s, id);
        push_str(&mut s, ",\"jsonrpc\":\"2.0\",\"result\":{\"capabilities\":{\"tools\":{\"listChanged\":false}},\"protocolVersion\":\"2024-11-05\",\"serverInfo\":{\"name\":\"susi-substrate\",\"version\":");
        push_str(&mut s, json_quote(version).as_str());
        push_str(&mut s, "}}}");
        s
    }

    /// The answer to `tools/list`, given the tool list's JSON text.
    pub fn tools_response(&self, id: &str, tools_json: &str) -> (r: String)
        ensures
            r@ == tools_answer(id@, tools_json@),
    {
        let mut s = String::new();
        push_str(&mut s, "{\"id\":");
        push_str(&mut s, id);
        push_str(&mut s, ",\"jsonrpc\":\"2.0\",\"result\":{\"tools\":");
        push_str(&mut s, tools_json);
        push_str(&mut s, "}}");
        s
    }

    /// The answer to `tools/call`, given the master agent's result text.
    pub fn call_response(&self, id: &str, result_text: &str) -> (r: String)
        ensures
            r@ == call_answer(id@, result_text@),
    {
        let mut s = String::new();
        push_str(&mut s, "{\"id\":");
        push_str(&mut s, id);
        push_str(&mut s, ",\"jsonrpc\":\"2.0\",\"result\":{\"content\":[{\"text\":");
        push_str(&mut s, json_quote(result_text).as_str());
        push_str(&mut s, ",\"type\":\"text\"}]}}");
        s
    }

    /// The answer to a method the substrate does not serve.
    pub fn not_found_response(&self, id: &str) -> (r: String)
        ensures
            r@ == not_found_answer(id@),
    {
        let mut s = String::new();
        push_str(&mut s, "{\"error\":{\"code\":-32601,\"message\":\"Method not found\"},\"id\":");
        push_str(&mut s, id);
        push_str(&mut s, ",\"jsonrpc\":\"2.0\"}");
        s
    }
}


/// Which handler answers a request to the protocol's HTTP endpoint.
#[derive(Debug, Clone, Copy, PartialEq, Eq, Structural)]
pub enum GmcpHttpRoute {
    /// The event stream announcing where messages go.
    Events,
    /// A JSON-RPC message.
    Message,
    /// Anything else.
    NotFound,
}

/// The route of a request to the HTTP endpoint: `GET /sse` opens the event
/// stream, a `POST` to a path under `/messages` carries a message.
pub open spec fn gmcp_route_of(method: HttpMethod, path: Seq<char>) -> GmcpHttpRoute {
    if method == HttpMethod::Get && path == "/sse"@ {
        GmcpHttpRoute::Events
    } else if method == HttpMethod::Post && seq_starts_with(path, "/messages"@) {
        GmcpHttpRoute::Message
    } else {
        GmcpHttpRoute::NotFound
    }
}

/// The event that tells a client where to post its messages.
pub open spec fn endpoint_event_text() -> Seq<char> {
    "event: endpoint\ndata: /messages?session=default-session\n\n"@
}

/// The answer when the handler of a message gave none.
pub open spec fn interrupted_answer() -> Seq<char> {
    "{\"error\":{\"code\":-32000,\"message\":\"Mission Interrupted: Task cancelled or failed.\"},\"jsonrpc\":\"2.0\"}"@
}

impl GmcpServer {
    /// The handler for a request to the HTTP endpoint.
    pub fn http_route(method: HttpMethod, path: &str) -> (r: GmcpHttpRoute)
        ensures
            r == gmcp_route_of(method, path@),
    {
        let p = chars_of(path);
        match method {
            HttpMethod::Get => if equals_str(&p, "/sse") { GmcpHttpRoute::Events } else { GmcpHttpRoute::NotFound },
            HttpMethod::Post => {
                let prefix = chars_of("/messages");
                if starts_with(&p, &prefix) { GmcpHttpRoute::Message } else { GmcpHttpRoute::NotFound }
            },
            _ => GmcpHttpRoute::NotFound,
        }
    }

    /// The event that opens the stream.
    pub fn endpoint_event() -> (r: String)
        ensures
            r@ == endpoint_event_text(),
    {
        let mut s = String::new();
        push_str(&mut s, "event: endpoint\ndata: /messages?session=default-session\n\n");
        s
    }

    /// The answer when a message's handler gave none.
    pub fn interrupted_response() -> (r: String)
        ensures
            r@ == interrupted_answer(),
    {
        let mut s = String::new();
        push_str(&mut s, "{\"error\":{\"code\":-32000,\"message\":\"Mission Interrupted: Task cancelled or failed.\"},\"jsonrpc\":\"2.0\"}");
        s
    }
}

} // verus!
