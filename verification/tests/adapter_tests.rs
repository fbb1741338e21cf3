use mcp_framework::adapters::{
    anthropic_messages, anthropic_tools, append_tool_results, extract_function_calls,
    extract_text, flatten_input, openai_step, openai_tools, parse_anthropic_response,
    stop_reason_from_tag, OpenAIStep,
};
use mcp_framework::agent::StopReason;
use mcp_framework::json::JsonValue;
use mcp_framework::protocol::{ContentBlock, Message, ResultContent, Role, Tool};

fn text_obj(tag: &str, text: &str) -> JsonValue {
    JsonValue::Obj(vec![
        ("type".to_string(), JsonValue::Str(tag.to_string())),
        ("text".to_string(), JsonValue::Str(text.to_string())),
    ])
}

#[test]
fn test_anthropic_messages_flatten_and_skip_empty() {
    let with_text = Message {
        role: Role::User,
        content: vec![
            ContentBlock::Text { text: "ask".to_string() },
            ContentBlock::ToolResult {
                tool_use_id: "c1".to_string(),
                content: vec![
                    ResultContent::Text { text: "a".to_string() },
                    ResultContent::Text { text: "b".to_string() },
                ],
                is_error: Some(true),
            },
        ],
    };
    let empty = Message { role: Role::Assistant, content: vec![] };
    let wire = anthropic_messages(&vec![with_text, empty]);
    assert_eq!(wire.len(), 1);
    assert_eq!(wire[0].role, "user");
    assert_eq!(wire[0].content, "ask\n[Tool c1 error: a b]");
}

#[test]
fn test_anthropic_tools_translate_one_to_one() {
    let tool = Tool { name: "add".to_string(), description: None, input_schema: None };
    let wire = anthropic_tools(&vec![tool]);
    assert_eq!(wire.len(), 1);
    assert_eq!(wire[0].name, "add");
    assert_eq!(wire[0].description, "");
    assert_eq!(wire[0].input_schema.type_field, "object");
    assert!(wire[0].input_schema.properties.is_empty());
}

#[test]
fn test_parse_anthropic_response_blocks_and_stop() {
    let tool_use = JsonValue::Obj(vec![
        ("type".to_string(), JsonValue::Str("tool_use".to_string())),
        ("id".to_string(), JsonValue::Str("c9".to_string())),
        ("name".to_string(), JsonValue::Str("add".to_string())),
        ("input".to_string(), JsonValue::Obj(vec![])),
    ]);
    let tree = JsonValue::Obj(vec![
        (
            "content".to_string(),
            JsonValue::Arr(vec![text_obj("text", "thinking"), tool_use]),
        ),
        ("stop_reason".to_string(), JsonValue::Str("tool_use".to_string())),
    ]);
    let turn = parse_anthropic_response(&tree).expect("response rejected");
    assert_eq!(turn.stop_reason, StopReason::ToolUse);
    assert_eq!(turn.content.len(), 2);
    match &turn.content[1] {
        ContentBlock::ToolUse { id, name, .. } => {
            assert_eq!(id, "c9");
            assert_eq!(name, "add");
        },
        _ => panic!("expected a tool invocation request"),
    }
}

#[test]
fn test_parse_anthropic_response_rejects_missing_stop() {
    let tree = JsonValue::Obj(vec![("content".to_string(), JsonValue::Arr(vec![]))]);
    assert!(parse_anthropic_response(&tree).is_err());
}

#[test]
fn test_stop_reason_mapping() {
    assert_eq!(stop_reason_from_tag("tool_use"), StopReason::ToolUse);
    assert_eq!(stop_reason_from_tag("max_tokens"), StopReason::MaxTokens);
    assert_eq!(stop_reason_from_tag("end_turn"), StopReason::EndTurn);
    assert_eq!(stop_reason_from_tag("anything"), StopReason::EndTurn);
}

#[test]
fn test_extract_function_calls_skips_other_items() {
    let call = JsonValue::Obj(vec![
        ("type".to_string(), JsonValue::Str("function_call".to_string())),
        ("name".to_string(), JsonValue::Str("add".to_string())),
        ("arguments".to_string(), JsonValue::Str("{\"a\":2}".to_string())),
        ("call_id".to_string(), JsonValue::Str("id-1".to_string())),
    ]);
    let output = vec![text_obj("text", "noise"), call];
    let calls = extract_function_calls(&output);
    assert_eq!(calls.len(), 1);
    assert_eq!(calls[0].name, "add");
    assert_eq!(calls[0].arguments_str, "{\"a\":2}");
    assert_eq!(calls[0].call_id, "id-1");
}

#[test]
fn test_extract_text_joins_message_entries() {
    let message = JsonValue::Obj(vec![
        ("type".to_string(), JsonValue::Str("message".to_string())),
        (
            "content".to_string(),
            JsonValue::Arr(vec![
                text_obj("output_text", "first"),
                text_obj("output_text", "second"),
            ]),
        ),
    ]);
    let output = vec![text_obj("text", "lead"), message];
    assert_eq!(extract_text(&output), "lead\nfirst\nsecond");
}

#[test]
fn test_openai_step_prefers_function_calls() {
    let call = JsonValue::Obj(vec![
        ("type".to_string(), JsonValue::Str("function_call".to_string())),
        ("name".to_string(), JsonValue::Str("add".to_string())),
        ("arguments".to_string(), JsonValue::Str("{}".to_string())),
        ("call_id".to_string(), JsonValue::Str("id-2".to_string())),
    ]);
    match openai_step(&vec![call]) {
        OpenAIStep::CallTools(calls) => assert_eq!(calls.len(), 1),
        _ => panic!("expected a tool round"),
    }
}

#[test]
fn test_openai_step_finishes_with_placeholder() {
    match openai_step(&vec![]) {
        OpenAIStep::Finish(text) => assert_eq!(text, "No response generated."),
        _ => panic!("expected the run to finish"),
    }
}

#[test]
fn test_append_tool_results_lines() {
    let appended = append_tool_results(
        "prompt".to_string(),
        &vec![("id-1".to_string(), "5".to_string())],
    );
    assert_eq!(appended, "prompt\n\nTool execution results:\n- Call ID id-1: 5\n");
}

#[test]
fn test_flatten_input_joins_messages() {
    let first = Message {
        role: Role::User,
        content: vec![
            ContentBlock::Text { text: "a".to_string() },
            ContentBlock::Text { text: "b".to_string() },
        ],
    };
    let second = Message {
        role: Role::Assistant,
        content: vec![ContentBlock::Text { text: "c".to_string() }],
    };
    assert_eq!(flatten_input(&vec![first, second]), "a\nb\n\nc");
}

#[test]
fn test_openai_tools_infer_url_parameter_from_lowered_description() {
    let tool = Tool {
        name: "open_page".to_string(),
        description: Some("Navigate to a URL".to_string()),
        input_schema: None,
    };
    let wire = openai_tools(&vec![tool]);
    assert_eq!(wire.len(), 1);
    let params = wire[0].parameters.as_ref().expect("parameters missing");
    assert!(params.properties.iter().any(|(k, _)| k == "url"));
    assert_eq!(params.required, Some(vec!["url".to_string()]));
}

#[test]
fn test_openai_tools_fall_back_to_generic_parameter() {
    let tool = Tool {
        name: "mystery".to_string(),
        description: Some("does something".to_string()),
        input_schema: None,
    };
    let wire = openai_tools(&vec![tool]);
    let params = wire[0].parameters.as_ref().expect("parameters missing");
    assert_eq!(params.properties.len(), 1);
    assert_eq!(params.properties[0].0, "params");
    assert!(params.required.is_none());
}
