use std::cell::Cell;
use std::cell::RefCell;
use std::rc::Rc;

use mcp_framework::agent::{
    Agent, AgentConfig, AgentEvent, AgentState, LLMProvider, LLMResponse, StopReason,
};
use mcp_framework::client::McpClient;
use mcp_framework::config::MCPServerConfig;
use mcp_framework::connectors::{Connector, TransportConfig};
use mcp_framework::envelope::{JsonRpcError, JsonRpcRequest, JsonRpcResponse};
use mcp_framework::error::Error;
use mcp_framework::json::JsonValue;
use mcp_framework::protocol::{ContentBlock, Message, Tool};
use mcp_framework::session::Session;

/// Answers the protocol methods from canned trees: a one-tool catalog and
/// a fixed text result for every tool call. A connector built for a
/// locator containing `unreachable` refuses every exchange; one built for
/// a locator containing `brokentool` refuses only tool calls.
struct MockConnector {
    connected: Cell<bool>,
    reachable: bool,
    failing_tools: bool,
}

fn ok_response(id: String, result: JsonValue) -> JsonRpcResponse {
    JsonRpcResponse { jsonrpc: "2.0".to_string(), id, result: Some(result), error: None }
}

impl Connector for MockConnector {
    fn from_config(config: TransportConfig) -> Self {
        let locator = match &config {
            TransportConfig::Http { config } => config.url.clone(),
            TransportConfig::Stdio { command, .. } => command.clone(),
        };
        MockConnector {
            connected: Cell::new(false),
            reachable: !locator.contains("unreachable"),
            failing_tools: locator.contains("brokentool"),
        }
    }

    fn connect(&mut self) -> Result<(), Error> {
        self.connected.set(true);
        Ok(())
    }

    fn disconnect(&mut self) -> Result<(), Error> {
        self.connected.set(false);
        Ok(())
    }

    fn is_connected(&self) -> bool {
        self.connected.get()
    }

    fn send_request(&self, request: &JsonRpcRequest) -> Result<JsonRpcResponse, Error> {
        if !self.reachable {
            return Err(Error::ConnectionError("endpoint is unreachable".to_string()));
        }
        let id = request.id.clone();
        if request.method == "initialize" {
            Ok(ok_response(id, JsonValue::Obj(vec![])))
        } else if request.method == "tools/list" {
            let tool = JsonValue::Obj(vec![
                ("name".to_string(), JsonValue::Str("echo".to_string())),
                ("description".to_string(), JsonValue::Str("echoes".to_string())),
            ]);
            let listing = JsonValue::Obj(vec![
                ("tools".to_string(), JsonValue::Arr(vec![tool])),
            ]);
            Ok(ok_response(id, listing))
        } else if request.method == "tools/call" {
            if self.failing_tools {
                return Err(Error::ServerError("tool execution refused".to_string()));
            }
            let content = JsonValue::Arr(vec![JsonValue::Obj(vec![
                ("type".to_string(), JsonValue::Str("text".to_string())),
                ("text".to_string(), JsonValue::Str("echoed".to_string())),
            ])]);
            let result = JsonValue::Obj(vec![("content".to_string(), content)]);
            Ok(ok_response(id, result))
        } else {
            Ok(JsonRpcResponse {
                jsonrpc: "2.0".to_string(),
                id,
                result: None,
                error: Some(JsonRpcError {
                    code: -32601,
                    message: "Method not found".to_string(),
                    data: None,
                }),
            })
        }
    }
}

/// Scripted provider: every call returns the same kind of turn and counts
/// how often it was consulted.
struct ScriptedProvider {
    calls: Rc<Cell<usize>>,
    always_request_tool: bool,
}

impl LLMProvider for ScriptedProvider {
    fn call(&self, messages: &Vec<Message>, _tools: Vec<Tool>) -> Result<LLMResponse, Error> {
        self.calls.set(self.calls.get() + 1);
        assert!(!messages.is_empty());
        if self.always_request_tool {
            Ok(LLMResponse {
                content: vec![ContentBlock::ToolUse {
                    id: format!("call-{}", self.calls.get()),
                    name: "echo".to_string(),
                    input: JsonValue::Obj(vec![]),
                }],
                stop_reason: StopReason::ToolUse,
            })
        } else {
            Ok(LLMResponse {
                content: vec![ContentBlock::Text { text: "final answer".to_string() }],
                stop_reason: StopReason::EndTurn,
            })
        }
    }
}

/// Records what it was asked so a test can replay the exchange.
struct RecordingProvider {
    seen: RefCell<Vec<usize>>,
}

impl LLMProvider for RecordingProvider {
    fn call(&self, messages: &Vec<Message>, _tools: Vec<Tool>) -> Result<LLMResponse, Error> {
        self.seen.borrow_mut().push(messages.len());
        Ok(LLMResponse {
            content: vec![ContentBlock::Text { text: "ok".to_string() }],
            stop_reason: StopReason::EndTurn,
        })
    }
}

#[test]
fn test_client_new() {
    let client: McpClient<MockConnector> = McpClient::new("http://localhost:3000");
    assert!(client.url().is_some());
}

#[test]
fn test_client_multi_mode() {
    let mut client: McpClient<MockConnector> = McpClient::new_multi();
    client.add_server(MCPServerConfig::http("test", "http://localhost:3000"));
    assert_eq!(client.server_names().len(), 1);
}

#[test]
fn test_session_creation() {
    let connector = MockConnector { connected: Cell::new(false), reachable: true, failing_tools: false };
    let session: Session<MockConnector> = Session::new("test", connector);
    assert_eq!(session.name, "test");
    assert!(!session.is_initialized());
}

#[test]
fn test_session_initialize_warms_tool_cache() {
    let connector = MockConnector { connected: Cell::new(false), reachable: true, failing_tools: false };
    let mut session: Session<MockConnector> = Session::new("test", connector);
    session.connect().expect("connect failed");
    session.initialize().expect("handshake failed");
    assert!(session.is_initialized());
    let tools = session.get_tools();
    assert_eq!(tools.len(), 1);
    assert_eq!(tools[0].name, "echo");
    assert!(session.get_tool("echo").is_some());
    assert!(session.get_tool("ghost").is_none());
}

#[test]
fn test_client_lazy_call_leaves_client_uninitialized() {
    let mut client: McpClient<MockConnector> = McpClient::new("http://localhost:3000");
    let tools = client.list_tools().expect("listing failed");
    assert_eq!(tools.len(), 1);
    // the throwaway session was discarded: the client still reports no
    // live connection
    assert!(!client.is_connected());
}

#[test]
fn test_agent_creation() {
    let client: McpClient<MockConnector> = McpClient::new("http://localhost:8000");
    let llm = ScriptedProvider { calls: Rc::new(Cell::new(0)), always_request_tool: false };
    let agent = Agent::new(client, llm, AgentConfig::default());
    assert_eq!(agent.state(), AgentState::Ready);
}

#[test]
fn test_agent_config() {
    let config = AgentConfig::default();
    assert_eq!(config.max_iterations, 10);
}

#[test]
fn test_run_without_tool_request_finishes_in_one_iteration() {
    let client: McpClient<MockConnector> = McpClient::new("http://localhost:8000");
    let calls = Rc::new(Cell::new(0));
    let llm = ScriptedProvider { calls: calls.clone(), always_request_tool: false };
    let mut agent = Agent::new(client, llm, AgentConfig::default());
    let answer = agent.run("hello").expect("run failed");
    assert_eq!(answer, "final answer");
    assert_eq!(agent.state(), AgentState::Done);
    assert_eq!(calls.get(), 1);
}

#[test]
fn test_run_always_requesting_tools_exhausts_budget() {
    let client: McpClient<MockConnector> = McpClient::new("http://localhost:8000");
    let calls = Rc::new(Cell::new(0));
    let llm = ScriptedProvider { calls: calls.clone(), always_request_tool: true };
    let config = AgentConfig { max_iterations: 3, max_tokens: None };
    let mut agent = Agent::new(client, llm, config);
    let outcome = agent.run("loop forever");
    assert!(outcome.is_err());
    assert_eq!(agent.state(), AgentState::Error);
    assert_eq!(calls.get(), 3);
}

#[test]
fn test_run_appends_prompt_and_keeps_history() {
    let client: McpClient<MockConnector> = McpClient::new("http://localhost:8000");
    let llm = RecordingProvider { seen: RefCell::new(Vec::new()) };
    let mut agent = Agent::new(client, llm, AgentConfig::default());
    agent.run("first").expect("first run failed");
    let after_first = agent.conversation().len();
    agent.run("second").expect("second run failed");
    let conversation = agent.conversation();
    assert!(conversation.len() > after_first);
    assert_eq!(conversation[0].role, mcp_framework::protocol::Role::User);
}

#[test]
fn test_disallowed_tools_are_filtered() {
    let client: McpClient<MockConnector> = McpClient::new("http://localhost:8000");
    let llm = ScriptedProvider { calls: Rc::new(Cell::new(0)), always_request_tool: false };
    let mut agent = Agent::new(client, llm, AgentConfig::default());
    agent.disallow_tool("echo".to_string());
    agent.disallow_tool("echo".to_string());
    assert_eq!(agent.get_disallowed_tools(), vec!["echo".to_string()]);
}

#[test]
fn test_run_with_events_emits_lifecycle() {
    let client: McpClient<MockConnector> = McpClient::new("http://localhost:8000");
    let llm = ScriptedProvider { calls: Rc::new(Cell::new(0)), always_request_tool: false };
    let mut agent = Agent::new(client, llm, AgentConfig::default());
    let mut events: Vec<AgentEvent> = Vec::new();
    let answer = agent.run_with_events("hello", &mut events).expect("run failed");
    assert_eq!(answer, "final answer");
    assert!(matches!(events.first(), Some(AgentEvent::Started)));
    assert!(matches!(events.last(), Some(AgentEvent::Finished { .. })));
}

#[test]
fn test_list_all_tools_skips_failing_endpoint() {
    let mut client: McpClient<MockConnector> = McpClient::new_multi();
    client.add_server(MCPServerConfig::http("healthy", "http://good.test"));
    client.add_server(MCPServerConfig::http("broken", "http://unreachable.test"));
    client.create_all_sessions().expect("bulk creation reported failure");
    let pairs = client.list_all_tools().expect("bulk listing reported failure");
    assert_eq!(pairs.len(), 1);
    assert_eq!(pairs[0].0, "healthy");
    assert_eq!(pairs[0].1.len(), 1);
    assert_eq!(pairs[0].1[0].name, "echo");
}

#[test]
fn test_call_tool_on_missing_server() {
    let client: McpClient<MockConnector> = McpClient::new_multi();
    let outcome = client.call_tool_on_server("ghost", "echo", JsonValue::Obj(vec![]));
    assert!(matches!(outcome, Err(Error::ServerError(_))));
}

#[test]
fn test_close_all_sessions_empties_the_table() {
    let mut client: McpClient<MockConnector> = McpClient::new_multi();
    client.add_server(MCPServerConfig::http("one", "http://good.test"));
    client.create_all_sessions().expect("bulk creation reported failure");
    assert!(client.is_connected());
    client.close_all_sessions().expect("cleanup failed");
    assert!(!client.is_connected());
}

#[test]
fn test_run_aborts_in_error_state_when_a_tool_fails() {
    let client: McpClient<MockConnector> = McpClient::new("http://brokentool.test");
    let llm = ScriptedProvider { calls: Rc::new(Cell::new(0)), always_request_tool: true };
    let mut agent = Agent::new(client, llm, AgentConfig::default());
    let before = agent.conversation().len();
    let outcome = agent.run("try a tool");
    assert!(outcome.is_err());
    assert_eq!(agent.state(), AgentState::Error);
    // prompt, then the assistant message holding the turn; the failed
    // call appended no result message
    let conversation = agent.conversation();
    assert_eq!(conversation.len(), before + 2);
}

#[test]
fn test_run_with_events_recovers_from_a_failing_tool() {
    let client: McpClient<MockConnector> = McpClient::new("http://brokentool.test");
    let calls = Rc::new(Cell::new(0));
    let llm = ScriptedProvider { calls: calls.clone(), always_request_tool: true };
    let config = AgentConfig { max_iterations: 2, max_tokens: None };
    let mut agent = Agent::new(client, llm, config);
    let mut events: Vec<AgentEvent> = Vec::new();
    let outcome = agent.run_with_events("keep going", &mut events);
    // the failing tool did not abort the run; only the budget ended it
    assert!(outcome.is_err());
    assert_eq!(agent.state(), AgentState::Error);
    assert_eq!(calls.get(), 2);
    assert!(events.iter().any(|e| matches!(e, AgentEvent::ToolCallFailed { .. })));
    assert!(matches!(events.last(), Some(AgentEvent::Failed { .. })));
    // every requested tool still got a correlated, error-flagged result
    let conversation = agent.conversation();
    let flagged = conversation
        .iter()
        .filter(|m| {
            m.content.iter().any(|b| {
                matches!(b, ContentBlock::ToolResult { is_error: Some(true), .. })
            })
        })
        .count();
    assert_eq!(flagged, 2);
}

#[test]
fn test_missing_session_error_names_the_endpoint() {
    let client: McpClient<MockConnector> = McpClient::new_multi();
    match client.call_tool_on_server("ghost", "echo", JsonValue::Obj(vec![])) {
        Err(Error::ServerError(message)) => {
            assert_eq!(message, "No active session for server 'ghost'");
        },
        _ => panic!("expected a server error"),
    }
}
