use susi::gmcp::{GmcpHttpRoute, GmcpProtocolHandler, GmcpRequest, GmcpServer};
use susi::server::HttpMethod;

fn canonical(s: &str) -> String {
    serde_json::from_str::<serde_json::Value>(s).unwrap().to_string()
}

#[test]
fn test_route_reads_id_and_method() {
    let h = GmcpProtocolHandler;
    let (id, req) = h.route(r#"{"jsonrpc":"2.0","id":7,"method":"initialize"}"#);
    assert_eq!(id, "7");
    assert_eq!(req, GmcpRequest::Initialize);
    let (id, req) = h.route(r#"{"id":"abc","method":"tools/list"}"#);
    assert_eq!(id, "\"abc\"");
    assert_eq!(req, GmcpRequest::ListTools);
    let (id, req) = h.route("not json");
    assert_eq!(id, "null");
    assert_eq!(req, GmcpRequest::Unsupported);
    let (_, req) = h.route(r#"{"id":1,"method":"resources/list"}"#);
    assert_eq!(req, GmcpRequest::Unsupported);
}

#[test]
fn test_route_tool_call_intent() {
    let h = GmcpProtocolHandler;
    let (_, req) = h.route(r#"{"id":2,"method":"tools/call","params":{"name":"read_file","arguments":{"path":"a.rs","n":3}}}"#);
    assert_eq!(req, GmcpRequest::CallTool("read_file {\"n\":3,\"path\":\"a.rs\"}".to_string()));
    let (_, req) = h.route(r#"{"id":2,"method":"tools/call"}"#);
    assert_eq!(req, GmcpRequest::CallTool(" null".to_string()));
}

#[test]
fn test_responses_are_canonical_json() {
    let h = GmcpProtocolHandler;
    let init = h.initialize_response("7", "3.1.0");
    assert_eq!(init, canonical(&init));
    assert_eq!(
        serde_json::from_str::<serde_json::Value>(&init).unwrap(),
        serde_json::from_str::<serde_json::Value>(
            r#"{"jsonrpc":"2.0","id":7,"result":{"protocolVersion":"2024-11-05","capabilities":{"tools":{"listChanged":false}},"serverInfo":{"name":"susi-substrate","version":"3.1.0"}}}"#
        )
        .unwrap()
    );
    let tools = h.tools_response("null", "[{\"name\":\"status\"}]");
    assert_eq!(tools, canonical(&tools));
    assert_eq!(tools, "{\"id\":null,\"jsonrpc\":\"2.0\",\"result\":{\"tools\":[{\"name\":\"status\"}]}}");
    let call = h.call_response("\"x\"", "line \"one\"\n");
    assert_eq!(call, canonical(&call));
    assert_eq!(call, "{\"id\":\"x\",\"jsonrpc\":\"2.0\",\"result\":{\"content\":[{\"text\":\"line \\\"one\\\"\\n\",\"type\":\"text\"}]}}");
    let nf = h.not_found_response("4");
    assert_eq!(nf, canonical(&nf));
    assert_eq!(nf, "{\"error\":{\"code\":-32601,\"message\":\"Method not found\"},\"id\":4,\"jsonrpc\":\"2.0\"}");
}

#[test]
fn http_endpoint_routes() {
    assert_eq!(GmcpServer::http_route(HttpMethod::Get, "/sse"), GmcpHttpRoute::Events);
    assert_eq!(GmcpServer::http_route(HttpMethod::Post, "/messages?session=default-session"), GmcpHttpRoute::Message);
    assert_eq!(GmcpServer::http_route(HttpMethod::Post, "/sse"), GmcpHttpRoute::NotFound);
    assert_eq!(GmcpServer::http_route(HttpMethod::Get, "/messages"), GmcpHttpRoute::NotFound);
}

#[test]
fn http_endpoint_texts() {
    assert_eq!(GmcpServer::endpoint_event(), "event: endpoint\ndata: /messages?session=default-session\n\n");
    let v: serde_json::Value = serde_json::from_str(&GmcpServer::interrupted_response()).unwrap();
    assert_eq!(v["error"]["code"], -32000);
    assert_eq!(v["jsonrpc"], "2.0");
}

#[test]
fn call_response_escapes_text_as_json() {
    let h = GmcpProtocolHandler;
    let r = h.call_response("1", "a\u{1}\"\n\\\u{7f}é");
    assert_eq!(
        r,
        "{\"id\":1,\"jsonrpc\":\"2.0\",\"result\":{\"content\":[{\"text\":\"a\\u0001\\\"\\n\\\\\u{7f}é\",\"type\":\"text\"}]}}"
    );
}
