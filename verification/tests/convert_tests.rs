use llm_adapter::anthropic::{ContentBlock, Message, MessagesResponse};
use llm_adapter::openai::{
    ChatMessage, ChatResponse, Choice, ResponseMessage, ResponseToolCall,
    ResponseToolCallFunction, ResponseUsage,
};
use llm_adapter::to_openai::{
    anthropic_response_to_openai, messages_to_openai, response_to_anthropic, tools_to_openai,
};
use llm_adapter::{Json, ToolDefinition, Usage};

fn text(t: &str) -> ContentBlock {
    ContentBlock::Text {
        text: t.to_string(),
    }
}

#[test]
fn system_prompt_leads() {
    let messages = vec![Message::user_text("hi".to_string())];
    let out = messages_to_openai(Some("be brief"), &messages);
    assert_eq!(out.len(), 2);
    assert_eq!(out[0].role, "system");
    assert_eq!(out[0].content.as_deref(), Some("be brief"));
    assert_eq!(out[1].role, "user");
    assert_eq!(out[1].content.as_deref(), Some("hi"));
}

#[test]
fn assistant_text_joined_by_newline_and_thinking_dropped() {
    let messages = vec![Message::assistant(vec![
        text("one"),
        ContentBlock::Thinking {
            thinking: "hmm".to_string(),
            signature: None,
        },
        text("two"),
    ])];
    let out = messages_to_openai(None, &messages);
    assert_eq!(out.len(), 1);
    assert_eq!(out[0].role, "assistant");
    assert_eq!(out[0].content.as_deref(), Some("one\ntwo"));
    assert!(out[0].tool_calls.is_none());
}

#[test]
fn assistant_tool_use_becomes_tool_calls() {
    let input = Json::Obj(vec![("a".to_string(), Json::Num("1".to_string()))]);
    let messages = vec![Message::assistant(vec![ContentBlock::ToolUse {
        id: "call_1".to_string(),
        name: "lookup".to_string(),
        input,
    }])];
    let out = messages_to_openai(None, &messages);
    assert_eq!(out.len(), 1);
    assert!(out[0].content.is_none());
    let tcs = out[0].tool_calls.as_ref().expect("tool calls expected");
    assert_eq!(tcs.len(), 1);
    assert_eq!(tcs[0].id, "call_1");
    assert_eq!(tcs[0].call_type, "function");
    assert_eq!(tcs[0].function.name, "lookup");
    assert_eq!(tcs[0].function.arguments, "{\"a\":1}");
}

#[test]
fn user_tool_results_expand_to_tool_messages() {
    let messages = vec![Message::tool_results(vec![
        ContentBlock::ToolResult {
            tool_use_id: "call_1".to_string(),
            content: "42".to_string(),
            is_error: None,
        },
        text("ignored alongside results"),
        ContentBlock::ToolResult {
            tool_use_id: "call_2".to_string(),
            content: "err".to_string(),
            is_error: Some(true),
        },
    ])];
    let out = messages_to_openai(None, &messages);
    assert_eq!(out.len(), 2);
    assert_eq!(out[0].role, "tool");
    assert_eq!(out[0].tool_call_id.as_deref(), Some("call_1"));
    assert_eq!(out[0].content.as_deref(), Some("42"));
    assert_eq!(out[1].tool_call_id.as_deref(), Some("call_2"));
    assert_eq!(out[1].content.as_deref(), Some("err"));
}

#[test]
fn tools_to_openai_wraps_under_function() {
    let tools = vec![ToolDefinition::new(
        "search".to_string(),
        "find things".to_string(),
        Json::Obj(vec![("type".to_string(), Json::Str("object".to_string()))]),
    )];
    let out = tools_to_openai(&tools);
    assert_eq!(out.len(), 1);
    assert_eq!(out[0].tool_type, "function");
    assert_eq!(out[0].function.name, "search");
    assert_eq!(out[0].function.description, "find things");
    assert_eq!(
        out[0].function.parameters,
        Json::Obj(vec![("type".to_string(), Json::Str("object".to_string()))])
    );
}

fn flat_response(message: ResponseMessage, finish: Option<&str>) -> ChatResponse {
    ChatResponse {
        id: Some("r1".to_string()),
        object: None,
        created: None,
        model: Some("m".to_string()),
        choices: vec![Choice {
            index: Some(0),
            message,
            finish_reason: finish.map(|f| f.to_string()),
        }],
        usage: None,
    }
}

#[test]
fn response_text_and_tool_calls_normalize() {
    let message = ResponseMessage {
        role: Some("assistant".to_string()),
        content: Some("answer".to_string()),
        reasoning_content: None,
        tool_calls: Some(vec![ResponseToolCall {
            id: "c1".to_string(),
            call_type: Some("function".to_string()),
            function: ResponseToolCallFunction {
                name: "f".to_string(),
                arguments: "{\"x\":true}".to_string(),
            },
        }]),
    };
    let resp = response_to_anthropic(flat_response(message, Some("tool_calls"))).unwrap();
    assert_eq!(resp.id.as_deref(), Some("r1"));
    assert_eq!(resp.stop_reason, "tool_use");
    assert_eq!(resp.content.len(), 2);
    assert_eq!(
        resp.content[0],
        ContentBlock::Text {
            text: "answer".to_string()
        }
    );
    assert_eq!(
        resp.content[1],
        ContentBlock::ToolUse {
            id: "c1".to_string(),
            name: "f".to_string(),
            input: Json::Obj(vec![("x".to_string(), Json::Bool(true))]),
        }
    );
}

#[test]
fn malformed_tool_arguments_degrade_to_empty_object() {
    let message = ResponseMessage {
        role: None,
        content: None,
        reasoning_content: None,
        tool_calls: Some(vec![ResponseToolCall {
            id: "c1".to_string(),
            call_type: None,
            function: ResponseToolCallFunction {
                name: "f".to_string(),
                arguments: "{not json".to_string(),
            },
        }]),
    };
    let resp = response_to_anthropic(flat_response(message, None)).unwrap();
    assert_eq!(resp.content.len(), 1);
    assert_eq!(
        resp.content[0],
        ContentBlock::ToolUse {
            id: "c1".to_string(),
            name: "f".to_string(),
            input: Json::Obj(vec![]),
        }
    );
    assert_eq!(resp.stop_reason, "end_turn");
}

#[test]
fn zero_choices_is_an_error() {
    let resp = ChatResponse {
        id: None,
        object: None,
        created: None,
        model: None,
        choices: vec![],
        usage: None,
    };
    let out = response_to_anthropic(resp);
    assert_eq!(out, Err("OpenAI response had no choices".to_string()));
}

#[test]
fn empty_text_is_not_a_block() {
    let message = ResponseMessage {
        role: None,
        content: Some(String::new()),
        reasoning_content: None,
        tool_calls: None,
    };
    let resp = response_to_anthropic(flat_response(message, Some("stop"))).unwrap();
    assert!(resp.content.is_empty());
}

#[test]
fn usage_maps_prompt_and_completion() {
    let message = ResponseMessage {
        role: None,
        content: Some("ok".to_string()),
        reasoning_content: None,
        tool_calls: None,
    };
    let mut resp = flat_response(message, Some("stop"));
    resp.usage = Some(ResponseUsage {
        prompt_tokens: 10,
        completion_tokens: 4,
        total_tokens: 14,
        cache_creation_input_tokens: Some(2),
        cache_read_input_tokens: None,
    });
    let out = response_to_anthropic(resp).unwrap();
    assert_eq!(
        out.usage,
        Some(Usage {
            input_tokens: 10,
            output_tokens: 4,
            cache_creation_input_tokens: Some(2),
            cache_read_input_tokens: None,
        })
    );
}

#[test]
fn reverse_proxy_direction_partitions_blocks() {
    let resp = MessagesResponse {
        id: Some("msg_1".to_string()),
        model: Some("m".to_string()),
        content: vec![
            text("Hello "),
            ContentBlock::Thinking {
                thinking: "step one".to_string(),
                signature: Some("sig".to_string()),
            },
            text("world"),
            ContentBlock::ToolUse {
                id: "c9".to_string(),
                name: "calc".to_string(),
                input: Json::Obj(vec![("n".to_string(), Json::Num("7".to_string()))]),
            },
        ],
        stop_reason: "tool_use".to_string(),
        usage: Some(Usage {
            input_tokens: 3,
            output_tokens: 5,
            cache_creation_input_tokens: None,
            cache_read_input_tokens: Some(1),
        }),
    };
    let out = anthropic_response_to_openai(resp);
    assert_eq!(out.id.as_deref(), Some("msg_1"));
    assert_eq!(out.object.as_deref(), Some("chat.completion"));
    assert!(out.created.is_some());
    assert_eq!(out.choices.len(), 1);
    let choice = &out.choices[0];
    assert_eq!(choice.index, Some(0));
    assert_eq!(choice.finish_reason.as_deref(), Some("tool_calls"));
    let msg = &choice.message;
    assert_eq!(msg.role.as_deref(), Some("assistant"));
    assert_eq!(msg.content.as_deref(), Some("Hello world"));
    assert_eq!(msg.reasoning_content.as_deref(), Some("step one"));
    let tcs = msg.tool_calls.as_ref().unwrap();
    assert_eq!(tcs.len(), 1);
    assert_eq!(tcs[0].id, "c9");
    assert_eq!(tcs[0].function.arguments, "{\"n\":7}");
    let usage = out.usage.unwrap();
    assert_eq!(usage.prompt_tokens, 3);
    assert_eq!(usage.completion_tokens, 5);
    assert_eq!(usage.total_tokens, 8);
    assert_eq!(usage.cache_read_input_tokens, Some(1));
}

#[test]
fn text_round_trip_keeps_joined_text() {
    let messages = vec![Message::user(vec![text("a"), text("b")])];
    let flat = messages_to_openai(None, &messages);
    assert_eq!(flat.len(), 1);
    assert_eq!(flat[0].content.as_deref(), Some("a\nb"));
    // reading the flat message back through the inbound path
    let req = llm_adapter::openai::InboundChatRequest {
        model: None,
        messages: vec![llm_adapter::openai::InboundMessage {
            role: flat[0].role.clone(),
            content: llm_adapter::openai::InboundContent::Text(
                flat[0].content.clone().unwrap(),
            ),
            tool_calls: None,
            tool_call_id: None,
        }],
        max_tokens: None,
        temperature: None,
        stream: None,
        top_p: None,
        tools: None,
        reasoning_effort: None,
    };
    let body = llm_adapter::to_anthropic::inbound_request_to_anthropic(req);
    let expected = Json::Obj(vec![(
        "messages".to_string(),
        Json::Arr(vec![Json::Obj(vec![
            ("role".to_string(), Json::Str("user".to_string())),
            (
                "content".to_string(),
                Json::Arr(vec![Json::Obj(vec![
                    ("type".to_string(), Json::Str("text".to_string())),
                    ("text".to_string(), Json::Str("a\nb".to_string())),
                ])]),
            ),
        ])]),
    )]);
    assert_eq!(body, expected);
}

#[test]
fn response_accessors() {
    let resp = MessagesResponse {
        id: None,
        model: None,
        content: vec![
            text("x"),
            ContentBlock::Thinking {
                thinking: "t1".to_string(),
                signature: None,
            },
            text("y"),
            ContentBlock::ToolUse {
                id: "i".to_string(),
                name: "n".to_string(),
                input: Json::Null,
            },
        ],
        stop_reason: "tool_use".to_string(),
        usage: None,
    };
    assert_eq!(resp.text(), "xy");
    assert_eq!(resp.thinking_text().as_deref(), Some("t1"));
    assert!(resp.has_tool_use());
    assert_eq!(resp.stop(), llm_adapter::StopReason::ToolUse);
    let uses = resp.tool_uses();
    assert_eq!(uses.len(), 1);
    assert!(matches!(uses[0], ContentBlock::ToolUse { .. }));
}

#[test]
fn chat_response_text_accessors() {
    let resp = ChatResponse {
        id: None,
        object: None,
        created: None,
        model: None,
        choices: vec![Choice {
            index: None,
            message: ResponseMessage {
                role: None,
                content: Some("body".to_string()),
                reasoning_content: None,
                tool_calls: None,
            },
            finish_reason: None,
        }],
        usage: None,
    };
    assert_eq!(resp.text(), Some("body"));
    assert_eq!(resp.text_or_err(), Ok("body"));
    let empty = ChatResponse {
        id: None,
        object: None,
        created: None,
        model: None,
        choices: vec![],
        usage: None,
    };
    assert_eq!(empty.text(), None);
    assert_eq!(
        empty.text_or_err(),
        Err("No response content (empty choices)")
    );
}

#[test]
fn chat_message_constructors() {
    let m = ChatMessage::system("s".to_string());
    assert_eq!(m.role, "system");
    let m = ChatMessage::user("u".to_string());
    assert_eq!(m.role, "user");
    let m = ChatMessage::assistant_text("a".to_string());
    assert_eq!(m.role, "assistant");
    assert_eq!(m.content.as_deref(), Some("a"));
    let m = ChatMessage::tool_result("id7".to_string(), "out".to_string());
    assert_eq!(m.role, "tool");
    assert_eq!(m.tool_call_id.as_deref(), Some("id7"));
    assert_eq!(m.content.as_deref(), Some("out"));
}
