use std::cell::Cell;
use std::rc::Rc;

use mcp_framework::error::Error;
use mcp_framework::json::JsonValue;
use mcp_framework::envelope::JsonRpcRequest;
use mcp_framework::protocol::{ResultContent, Tool, ToolInputSchema};
use mcp_framework::server::{
    McpServer, NoPromptHandler, NoResourceHandler, ServerConfig, ToolHandler,
};

struct TestToolHandler;

impl ToolHandler for TestToolHandler {
    fn execute(&self, _name: &str, _arguments: JsonValue) -> Result<Vec<ResultContent>, Error> {
        Ok(vec![ResultContent::Text { text: "test result".to_string() }])
    }
}

/// Executes `add` with the documented zero-default substitution: a missing
/// numeric field counts as zero instead of failing the call.
struct AddToolHandler;

impl ToolHandler for AddToolHandler {
    fn execute(&self, name: &str, arguments: JsonValue) -> Result<Vec<ResultContent>, Error> {
        if name != "add" {
            return Err(Error::ToolNotFound(name.to_string()));
        }
        let a = arguments.obj_get("a").and_then(|v| v.as_i64()).unwrap_or(0);
        let b = arguments.obj_get("b").and_then(|v| v.as_i64()).unwrap_or(0);
        Ok(vec![ResultContent::Text { text: format!("{}", a + b) }])
    }
}

/// Flags whether the execute capability was ever reached.
struct TracingHandler {
    reached: Rc<Cell<bool>>,
}

impl ToolHandler for TracingHandler {
    fn execute(&self, _name: &str, _arguments: JsonValue) -> Result<Vec<ResultContent>, Error> {
        self.reached.set(true);
        Ok(vec![])
    }
}

fn plain_server<T: ToolHandler>(handler: T) -> McpServer<T, NoResourceHandler, NoPromptHandler> {
    McpServer::new(ServerConfig::default(), handler)
}

fn add_tool() -> Tool {
    let mut properties: Vec<(String, JsonValue)> = Vec::new();
    properties.push(("a".to_string(), JsonValue::Str("number".to_string())));
    properties.push(("b".to_string(), JsonValue::Str("number".to_string())));
    Tool {
        name: "add".to_string(),
        description: Some("Adds two numbers".to_string()),
        input_schema: Some(ToolInputSchema {
            schema_type: "object".to_string(),
            properties,
            required: Some(vec!["a".to_string(), "b".to_string()]),
        }),
    }
}

#[test]
fn test_server_creation() {
    let server = plain_server(TestToolHandler);
    assert_eq!(server.config.name, "MCP Server");
}

#[test]
fn test_register_tool() {
    let mut server = plain_server(TestToolHandler);
    let tool = Tool {
        name: "test_tool".to_string(),
        description: Some("A test tool".to_string()),
        input_schema: Some(ToolInputSchema {
            schema_type: "object".to_string(),
            properties: Vec::new(),
            required: None,
        }),
    };
    server.register_tool(tool);
    assert!(server.has_tool("test_tool"));
}

#[test]
fn test_listing_has_exactly_one_descriptor_per_name() {
    let mut server = plain_server(TestToolHandler);
    server.register_tool(add_tool());
    let mut replacement = add_tool();
    replacement.description = Some("Replaced".to_string());
    server.register_tool(replacement);
    let listing = server.handle_tools_list().expect("listing failed");
    let named: Vec<&Tool> = listing.iter().filter(|t| t.name == "add").collect();
    assert_eq!(named.len(), 1);
    assert_eq!(named[0].description, Some("Replaced".to_string()));
}

#[test]
fn test_listing_twice_is_identical() {
    let mut server = plain_server(TestToolHandler);
    server.register_tool(add_tool());
    let first = server.handle_tools_list().expect("listing failed");
    let second = server.handle_tools_list().expect("listing failed");
    assert_eq!(first.len(), second.len());
    for (a, b) in first.iter().zip(second.iter()) {
        assert_eq!(a.name, b.name);
        assert_eq!(a.description, b.description);
    }
}

#[test]
fn test_unregistered_tool_yields_tool_not_found() {
    let flag = Rc::new(Cell::new(false));
    let server = plain_server(TracingHandler { reached: flag.clone() });
    let result = server.handle_tool_call("missing", JsonValue::Obj(vec![]));
    match result {
        Err(Error::ToolNotFound(name)) => assert_eq!(name, "missing"),
        _ => panic!("expected ToolNotFound"),
    }
}

#[test]
fn test_unregistered_tool_never_reaches_execute() {
    let flag = Rc::new(Cell::new(false));
    let mut server = plain_server(TracingHandler { reached: flag.clone() });
    let _ = server.handle_tool_call("missing", JsonValue::Obj(vec![]));
    assert!(!flag.get());
    server.register_tool(add_tool());
    let _ = server.handle_tool_call("add", JsonValue::Obj(vec![]));
    assert!(flag.get());
}

#[test]
fn test_call_tool_add_returns_5() {
    let mut server = plain_server(AddToolHandler);
    server.register_tool(add_tool());
    let args = JsonValue::Obj(vec![
        ("a".to_string(), JsonValue::Int(2)),
        ("b".to_string(), JsonValue::Int(3)),
    ]);
    let result = server.handle_tool_call("add", args).expect("call failed");
    assert_eq!(result.content.len(), 1);
    match &result.content[0] {
        ResultContent::Text { text } => assert_eq!(text, "5"),
        _ => panic!("expected text content"),
    }
    assert!(result.is_error.is_none());
}

#[test]
fn test_call_tool_add_with_missing_fields_returns_0() {
    let mut server = plain_server(AddToolHandler);
    server.register_tool(add_tool());
    let result = server
        .handle_tool_call("add", JsonValue::Obj(vec![]))
        .expect("zero-default call failed");
    match &result.content[0] {
        ResultContent::Text { text } => assert_eq!(text, "0"),
        _ => panic!("expected text content"),
    }
}

#[test]
fn test_handle_request_unknown_method() {
    let server = plain_server(TestToolHandler);
    let request = JsonRpcRequest::new("nope/nothing", None);
    let id = request.id.clone();
    let response = server.handle_request(request);
    assert_eq!(response.id, id);
    let err = response.error.expect("expected an error");
    assert_eq!(err.code, -32601);
    assert_eq!(err.message, "Method not found: nope/nothing");
}

#[test]
fn test_handle_request_tools_call_without_params() {
    let server = plain_server(TestToolHandler);
    let request = JsonRpcRequest::new("tools/call", None);
    let response = server.handle_request(request);
    let err = response.error.expect("expected an error");
    assert_eq!(err.code, -32602);
}

#[test]
fn test_handle_request_tools_call_unknown_tool_code() {
    let server = plain_server(TestToolHandler);
    let params = JsonValue::Obj(vec![("name".to_string(), JsonValue::Str("ghost".to_string()))]);
    let request = JsonRpcRequest::new("tools/call", Some(params));
    let response = server.handle_request(request);
    let err = response.error.expect("expected an error");
    assert_eq!(err.code, -32001);
}

#[test]
fn test_handle_request_tools_list_carries_catalog() {
    let mut server = plain_server(TestToolHandler);
    server.register_tool(add_tool());
    let request = JsonRpcRequest::new("tools/list", None);
    let response = server.handle_request(request);
    let result = response.result.expect("expected a result");
    match result.obj_get("tools") {
        Some(JsonValue::Arr(items)) => assert_eq!(items.len(), 1),
        _ => panic!("expected a tools array"),
    }
}

#[test]
fn test_handle_initialize_announces_protocol() {
    let server = plain_server(TestToolHandler);
    let response = server.handle_initialize();
    let result = response.result.expect("expected a result");
    match result.obj_get("protocolVersion") {
        Some(JsonValue::Str(v)) => assert_eq!(v, "2024-11-05"),
        _ => panic!("expected the protocol revision"),
    }
}

#[test]
fn test_resource_read_unregistered_uri() {
    let server = plain_server(TestToolHandler);
    match server.handle_resource_read("file://nope") {
        Err(Error::ResourceNotFound(uri)) => assert_eq!(uri, "file://nope"),
        _ => panic!("expected ResourceNotFound"),
    }
}
