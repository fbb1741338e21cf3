use mcp_framework::config::{MCPServerConfig, default_true};
use mcp_framework::connectors::{parse_locator, TransportConfig, ConnectorConfig};
use mcp_framework::envelope::{
    JsonRpcRequest, JsonRpcResponse, JsonRpcError, request_to_json, request_from_json,
    response_to_json, response_from_json, MCP_VERSION,
};
use mcp_framework::json::JsonValue;
use mcp_framework::protocol::{Message, Role, ContentBlock};
use mcp_framework::render::{encode_request, render_json};
use mcp_framework::text::split_whitespace_words;
use mcp_framework::wire::{parse_tools_result, tool_from_json};

#[test]
fn test_jsonrpc_request_creation() {
    let req = JsonRpcRequest::new("tools/list", None);
    assert_eq!(req.method, "tools/list");
    assert_eq!(req.jsonrpc, "2.0");
}

#[test]
fn test_request_id_is_fresh_and_36_chars() {
    let a = JsonRpcRequest::new("tools/list", None);
    let b = JsonRpcRequest::new("tools/list", None);
    assert_eq!(a.id.chars().count(), 36);
    assert_eq!(b.id.chars().count(), 36);
    assert_ne!(a.id, b.id);
}

#[test]
fn test_request_without_params_encodes_empty_object() {
    let req = JsonRpcRequest::new("tools/list", None);
    let tree = request_to_json(&req);
    match tree.obj_get("params") {
        Some(JsonValue::Obj(members)) => assert_eq!(members.len(), 0),
        other => panic!("params member missing or not an object: {:?}", other.is_some()),
    }
}

#[test]
fn test_request_round_trip_keeps_params_as_empty_object() {
    let req = JsonRpcRequest::new("tools/list", None);
    let tree = request_to_json(&req);
    let decoded = request_from_json(&tree).expect("round trip failed");
    assert_eq!(decoded.method, "tools/list");
    assert_eq!(decoded.jsonrpc, "2.0");
    match decoded.params {
        Some(JsonValue::Obj(members)) => assert_eq!(members.len(), 0),
        _ => panic!("params came back absent instead of the empty object"),
    }
}

#[test]
fn test_request_round_trip_keeps_given_params() {
    let params = JsonValue::Obj(vec![("name".to_string(), JsonValue::Str("add".to_string()))]);
    let req = JsonRpcRequest::new("tools/call", Some(params));
    let tree = request_to_json(&req);
    let decoded = request_from_json(&tree).expect("round trip failed");
    match decoded.params {
        Some(JsonValue::Obj(members)) => {
            assert_eq!(members.len(), 1);
            assert_eq!(members[0].0, "name");
        },
        _ => panic!("params lost in the round trip"),
    }
}

#[test]
fn test_response_round_trip() {
    let resp = JsonRpcResponse {
        jsonrpc: "2.0".to_string(),
        id: "7".to_string(),
        result: None,
        error: Some(JsonRpcError {
            code: -32601,
            message: "Method not found: nope".to_string(),
            data: None,
        }),
    };
    let tree = response_to_json(&resp);
    let decoded = response_from_json(&tree).expect("response round trip failed");
    assert_eq!(decoded.id, "7");
    assert!(decoded.result.is_none());
    let err = decoded.error.expect("error object lost");
    assert_eq!(err.code, -32601);
    assert_eq!(err.message, "Method not found: nope");
}

#[test]
fn test_message_creation() {
    let msg = Message::user("Hello");
    assert_eq!(msg.role, Role::User);
}

#[test]
fn test_assistant_message_holds_one_text_block() {
    let msg = Message::assistant("Hi");
    assert_eq!(msg.role, Role::Assistant);
    assert_eq!(msg.content.len(), 1);
    match &msg.content[0] {
        ContentBlock::Text { text } => assert_eq!(text, "Hi"),
        _ => panic!("expected a text block"),
    }
}

#[test]
fn test_mcp_server_config_http() {
    let config = MCPServerConfig::http("test", "http://localhost:3000");
    assert_eq!(config.name, "test");
    assert_eq!(config.url, Some("http://localhost:3000".to_string()));
}

#[test]
fn test_mcp_server_config_from_command() {
    let config = MCPServerConfig::from_command("playwright", "npx @playwright/mcp");
    assert_eq!(config.name, "playwright");
    assert_eq!(config.command, Some("npx".to_string()));
}

#[test]
fn test_from_command_with_no_words() {
    let config = MCPServerConfig::from_command("empty", "   ");
    assert_eq!(config.command, None);
    assert_eq!(config.args, None);
    assert!(config.auto_connect);
}

#[test]
fn test_default_true() {
    assert!(default_true());
}

#[test]
fn test_split_whitespace_words() {
    let words = split_whitespace_words("  one\ttwo  three ");
    assert_eq!(words, vec!["one".to_string(), "two".to_string(), "three".to_string()]);
}

#[test]
fn test_connector_url_detection_http() {
    let result = parse_locator("http://localhost:3000");
    assert!(result.is_ok());
}

#[test]
fn test_connector_url_detection_stdio() {
    let result = parse_locator("stdio://npx @playwright/mcp");
    assert!(result.is_ok());
}

#[test]
fn test_connector_url_detection_invalid() {
    let result = parse_locator("ftp://invalid");
    assert!(result.is_err());
}

#[test]
fn test_stdio_locator_splits_command_and_args() {
    match parse_locator("stdio://somecmd --flag").expect("locator rejected") {
        TransportConfig::Stdio { command, args } => {
            assert_eq!(command, "somecmd");
            assert_eq!(args, vec!["--flag".to_string()]);
        },
        _ => panic!("expected the subprocess transport"),
    }
}

#[test]
fn test_stdio_locator_without_command_is_rejected() {
    assert!(parse_locator("stdio://").is_err());
    assert!(parse_locator("stdio://   ").is_err());
}

#[test]
fn test_http_locator_keeps_url_and_defaults() {
    match parse_locator("https://example.test/mcp").expect("locator rejected") {
        TransportConfig::Http { config } => {
            assert_eq!(config.url, "https://example.test/mcp");
            assert_eq!(config.timeout_secs, 30);
            assert_eq!(config.retry_attempts, 3);
        },
        _ => panic!("expected the HTTP transport"),
    }
}

#[test]
fn test_connector_config_default() {
    let config = ConnectorConfig::default();
    assert_eq!(config.url, "http://localhost:3000");
    assert_eq!(config.timeout_secs, 30);
    assert_eq!(config.retry_attempts, 3);
}

#[test]
fn test_protocol_version_constant() {
    assert_eq!(MCP_VERSION, "2025-11-05");
}

#[test]
fn test_parse_tools_result_reads_listing() {
    let tool = JsonValue::Obj(vec![
        ("name".to_string(), JsonValue::Str("add".to_string())),
        ("description".to_string(), JsonValue::Str("adds".to_string())),
    ]);
    let result = JsonValue::Obj(vec![("tools".to_string(), JsonValue::Arr(vec![tool]))]);
    let tools = parse_tools_result(&result).expect("listing rejected");
    assert_eq!(tools.len(), 1);
    assert_eq!(tools[0].name, "add");
    assert_eq!(tools[0].description, Some("adds".to_string()));
}

#[test]
fn test_parse_tools_result_rejects_missing_member() {
    let result = JsonValue::Obj(vec![]);
    assert!(parse_tools_result(&result).is_err());
}

#[test]
fn test_tool_from_json_requires_name() {
    let v = JsonValue::Obj(vec![("description".to_string(), JsonValue::Str("x".to_string()))]);
    assert!(tool_from_json(&v).is_none());
}

#[test]
fn test_jsonrpc_request_serialization_with_params() {
    // when params are given, they are encoded as they stand
    let params = JsonValue::Obj(vec![("name".to_string(), JsonValue::Str("test".to_string()))]);
    let req = JsonRpcRequest::new("tools/call", Some(params));
    let json = encode_request(&req);
    assert!(json.contains("\"params\":{\"name\":\"test\"}"));
}

#[test]
fn test_jsonrpc_request_serialization_without_params() {
    // when params are absent, they encode as the empty object {}
    let req = JsonRpcRequest::new("tools/list", None);
    let json = encode_request(&req);
    assert!(json.contains("\"params\":{}"), "Expected params: {{}}, got: {}", json);
}

#[test]
fn test_render_json_values() {
    let tree = JsonValue::Obj(vec![
        ("n".to_string(), JsonValue::Int(-42)),
        ("b".to_string(), JsonValue::Bool(true)),
        ("z".to_string(), JsonValue::Null),
        (
            "a".to_string(),
            JsonValue::Arr(vec![JsonValue::Int(1), JsonValue::Str("x\"y".to_string())]),
        ),
    ]);
    assert_eq!(render_json(&tree), "{\"n\":-42,\"b\":true,\"z\":null,\"a\":[1,\"x\\\"y\"]}");
}

#[test]
fn test_split_handles_unicode_whitespace() {
    let words = split_whitespace_words("one\u{A0}two\u{2003}three");
    assert_eq!(words, vec!["one".to_string(), "two".to_string(), "three".to_string()]);
}
