use susi::server::{GemiRoute, GemiServer, HttpMethod};

#[test]
fn requests_are_routed_by_method_and_path() {
    assert_eq!(GemiServer::route(HttpMethod::Get, "/health"), GemiRoute::Status);
    assert_eq!(GemiServer::route(HttpMethod::Get, "/v1/models/abc"), GemiRoute::Models);
    assert_eq!(GemiServer::route(HttpMethod::Get, "/well-known/susi"), GemiRoute::WellKnown);
    assert_eq!(GemiServer::route(HttpMethod::Post, "/v1/chat/completions"), GemiRoute::Completion);
    assert_eq!(GemiServer::route(HttpMethod::Post, "/"), GemiRoute::Completion);
    assert_eq!(GemiServer::route(HttpMethod::Post, "/health"), GemiRoute::NotFound);
    assert_eq!(GemiServer::route(HttpMethod::Options, "/anything"), GemiRoute::Preflight);
    assert_eq!(GemiServer::route(HttpMethod::Other, "/"), GemiRoute::NotFound);
    assert_eq!(GemiServer::route_status(GemiRoute::NotFound), 404);
    assert_eq!(GemiServer::route_status(GemiRoute::Models), 200);
}

#[test]
fn streaming_is_requested_by_any_stream_mention() {
    assert!(GemiServer::is_streaming_request("{\"stream\": true}"));
    assert!(GemiServer::is_streaming_request("{\"stream\":false}"));
    assert!(!GemiServer::is_streaming_request("{\"messages\": []}"));
}

#[test]
fn chat_prompts_read_as_tool_commands() {
    assert_eq!(
        GemiServer::parse_chat_command("  /:READ_FILE   src/main.rs  "),
        ("read_file".to_string(), "src/main.rs".to_string())
    );
    assert_eq!(GemiServer::parse_chat_command("status"), ("status".to_string(), String::new()));
}

#[test]
fn test_api_status_is_pretty_sorted_json() {
    let s = GemiServer::api_status("3.1.0");
    let v: serde_json::Value = serde_json::from_str(&s).unwrap();
    assert_eq!(s, serde_json::to_string_pretty(&v).unwrap());
    assert_eq!(v["version"], "3.1.0");
    assert_eq!(v["endpoints"][1], "/v1/models");
}

#[test]
fn test_models_document_lists_ids() {
    let ids = vec!["a.gguf".to_string(), "b \"x\"".to_string()];
    let s = GemiServer::models_document(&ids);
    let v: serde_json::Value = serde_json::from_str(&s).unwrap();
    assert_eq!(s, v.to_string());
    assert_eq!(v["data"][1]["id"], "b \"x\"");
    assert_eq!(GemiServer::models_document(&vec![]), "{\"data\":[],\"object\":\"list\"}");
}

#[test]
fn test_stream_chunks_and_completion_document() {
    assert_eq!(
        GemiServer::opening_chunk(5, "m"),
        "data: {\"id\":\"chatcmpl-susi-5\",\"object\":\"chat.completion.chunk\",\"created\":5,\"model\":\"m\",\"choices\":[{\"index\":0,\"delta\":{\"role\":\"assistant\"},\"finish_reason\":null}]}\n\n"
    );
    assert_eq!(
        GemiServer::content_chunk(5, "m", "hi\n"),
        "data: {\"id\":\"chatcmpl-susi-5\",\"object\":\"chat.completion.chunk\",\"created\":5,\"model\":\"m\",\"choices\":[{\"index\":0,\"delta\":{\"content\":\"hi\\n\"},\"finish_reason\":null}]}\n\n"
    );
    assert_eq!(
        GemiServer::closing_chunk(5, "m"),
        "data: {\"id\":\"chatcmpl-susi-5\",\"object\":\"chat.completion.chunk\",\"created\":5,\"model\":\"m\",\"choices\":[{\"index\":0,\"delta\":{},\"finish_reason\":\"stop\"}]}\n\n"
    );
    let doc = GemiServer::completion_document(1234, "susi-native-synthesis", "answer");
    let v: serde_json::Value = serde_json::from_str(&doc).unwrap();
    assert_eq!(doc, v.to_string());
    assert_eq!(v["id"], "chatcmpl-susi-1234");
    assert_eq!(v["choices"][0]["message"]["content"], "answer");
}
