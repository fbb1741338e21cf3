use mcp_framework::error::Error;
use mcp_framework::inspector::Inspector;
use mcp_framework::json::JsonValue;
use mcp_framework::logging::{render_line, LogLevel, Logger};

#[test]
fn test_log_level_creation() {
    let _ = LogLevel::Debug;
    let _ = LogLevel::Info;
    let _ = LogLevel::Warn;
    let _ = LogLevel::Error;
}

#[test]
fn test_logger_creation() {
    let _ = Logger;
}

#[test]
fn test_render_line_prefixes_level() {
    assert_eq!(render_line(LogLevel::Debug, "x"), "[DEBUG] x");
    assert_eq!(render_line(LogLevel::Error, "boom"), "[ERROR] boom");
}

#[test]
fn test_inspector_creation() {
    let inspector = Inspector::new("Test Server".to_string(), "1.0.0".to_string());
    assert_eq!(inspector.server_name().as_str(), "Test Server");
}

#[test]
fn test_capture_request() {
    let mut inspector = Inspector::new("Test Server".to_string(), "1.0.0".to_string());
    inspector.capture_request("tools/list".to_string(), None);
    assert_eq!(inspector.request_count(), 1);
}

#[test]
fn test_capture_response() {
    let mut inspector = Inspector::new("Test Server".to_string(), "1.0.0".to_string());
    inspector.capture_response("tools/list".to_string(), Some(JsonValue::Arr(vec![])), None);
    assert_eq!(inspector.response_count(), 1);
}

#[test]
fn test_error_codes() {
    assert_eq!(Error::InvalidRequest("x".to_string()).error_code(), -32600);
    assert_eq!(Error::InvalidParams("x".to_string()).error_code(), -32602);
    assert_eq!(Error::MethodNotFound("x".to_string()).error_code(), -32601);
    assert_eq!(Error::InternalError("x".to_string()).error_code(), -32603);
    assert_eq!(Error::ServerError("x".to_string()).error_code(), -32000);
    assert_eq!(Error::ToolNotFound("x".to_string()).error_code(), -32001);
    assert_eq!(Error::ResourceNotFound("x".to_string()).error_code(), -32002);
    assert_eq!(Error::SerializationError("x".to_string()).error_code(), -32603);
    assert_eq!(Error::RequestError("x".to_string()).error_code(), -32603);
    assert_eq!(Error::Timeout.error_code(), -32604);
    assert_eq!(Error::ConnectionError("x".to_string()).error_code(), -32605);
    assert_eq!(Error::LLMError("x".to_string()).error_code(), -32606);
    assert_eq!(Error::Unknown("x".to_string()).error_code(), -32603);
}

#[test]
fn test_error_messages() {
    assert_eq!(Error::ToolNotFound("add".to_string()).message(), "Tool not found: add");
    assert_eq!(Error::Timeout.message(), "Timeout");
}
