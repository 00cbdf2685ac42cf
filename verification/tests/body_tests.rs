use llm_adapter::cache_control::ensure_cache_control;
use llm_adapter::json::json_clone;
use llm_adapter::openai::{
    ImageUrlData, InboundChatRequest, InboundContent, InboundContentPart, InboundFunction,
    InboundMessage, InboundToolCall,
};
use llm_adapter::to_anthropic::{
    inbound_request_to_anthropic, openai_tool_to_anthropic, parse_data_url,
};
use llm_adapter::tool_names::{
    add_mcp_prefix, strip_mcp_prefix, transform_request_tool_names,
    transform_response_tool_names,
};
use llm_adapter::Json;

fn s(v: &str) -> Json {
    Json::Str(v.to_string())
}

fn obj(members: Vec<(&str, Json)>) -> Json {
    Json::Obj(
        members
            .into_iter()
            .map(|(k, v)| (k.to_string(), v))
            .collect(),
    )
}

fn cc() -> Json {
    obj(vec![("type", s("ephemeral"))])
}

#[test]
fn prefix_add_and_strip() {
    assert_eq!(add_mcp_prefix("lookup"), "mcp_lookup");
    assert_eq!(add_mcp_prefix("mcp_lookup"), "mcp_lookup");
    assert_eq!(strip_mcp_prefix("mcp_lookup"), "lookup");
    assert_eq!(strip_mcp_prefix("lookup"), "lookup");
}

#[test]
fn prefix_idempotence() {
    let once = add_mcp_prefix("tool");
    let twice = add_mcp_prefix(&once);
    assert_eq!(once, twice);
    let once = strip_mcp_prefix("mcp_tool");
    let twice = strip_mcp_prefix(&once);
    assert_eq!(once, twice);
}

#[test]
fn request_transform_renames_everywhere() {
    let mut body = obj(vec![
        (
            "tools",
            Json::Arr(vec![
                obj(vec![("name", s("lookup"))]),
                obj(vec![("type", s("web_search")), ("name", s("builtin"))]),
            ]),
        ),
        ("tool_choice", obj(vec![("type", s("tool")), ("name", s("lookup"))])),
        (
            "messages",
            Json::Arr(vec![obj(vec![
                ("role", s("assistant")),
                (
                    "content",
                    Json::Arr(vec![obj(vec![
                        ("type", s("tool_use")),
                        ("name", s("lookup")),
                    ])]),
                ),
            ])]),
        ),
    ]);
    transform_request_tool_names(&mut body);
    let expected = obj(vec![
        (
            "tools",
            Json::Arr(vec![
                obj(vec![("name", s("mcp_lookup"))]),
                obj(vec![("type", s("web_search")), ("name", s("builtin"))]),
            ]),
        ),
        (
            "tool_choice",
            obj(vec![("type", s("tool")), ("name", s("mcp_lookup"))]),
        ),
        (
            "messages",
            Json::Arr(vec![obj(vec![
                ("role", s("assistant")),
                (
                    "content",
                    Json::Arr(vec![obj(vec![
                        ("type", s("tool_use")),
                        ("name", s("mcp_lookup")),
                    ])]),
                ),
            ])]),
        ),
    ]);
    assert_eq!(body, expected);
}

#[test]
fn response_transform_strips() {
    let mut body = obj(vec![(
        "content",
        Json::Arr(vec![
            obj(vec![("type", s("tool_use")), ("name", s("mcp_lookup"))]),
            obj(vec![("type", s("text")), ("text", s("mcp_keep"))]),
        ]),
    )]);
    transform_response_tool_names(&mut body);
    let expected = obj(vec![(
        "content",
        Json::Arr(vec![
            obj(vec![("type", s("tool_use")), ("name", s("lookup"))]),
            obj(vec![("type", s("text")), ("text", s("mcp_keep"))]),
        ]),
    )]);
    assert_eq!(body, expected);
}

fn planner_body() -> Json {
    obj(vec![
        (
            "tools",
            Json::Arr(vec![obj(vec![("name", s("a"))]), obj(vec![("name", s("b"))])]),
        ),
        ("system", s("be nice")),
        (
            "messages",
            Json::Arr(vec![
                obj(vec![("role", s("user")), ("content", s("first"))]),
                obj(vec![("role", s("assistant")), ("content", s("ok"))]),
                obj(vec![("role", s("user")), ("content", s("second"))]),
            ]),
        ),
    ])
}

#[test]
fn planner_annotates_three_zones_in_order() {
    let planned = ensure_cache_control(planner_body());
    let expected = obj(vec![
        (
            "tools",
            Json::Arr(vec![
                obj(vec![("name", s("a"))]),
                obj(vec![("name", s("b")), ("cache_control", cc())]),
            ]),
        ),
        (
            "system",
            Json::Arr(vec![obj(vec![
                ("type", s("text")),
                ("text", s("be nice")),
                ("cache_control", cc()),
            ])]),
        ),
        (
            "messages",
            Json::Arr(vec![
                obj(vec![
                    ("role", s("user")),
                    (
                        "content",
                        Json::Arr(vec![obj(vec![
                            ("type", s("text")),
                            ("text", s("first")),
                            ("cache_control", cc()),
                        ])]),
                    ),
                ]),
                obj(vec![("role", s("assistant")), ("content", s("ok"))]),
                obj(vec![("role", s("user")), ("content", s("second"))]),
            ]),
        ),
    ]);
    assert_eq!(planned, expected);
}

#[test]
fn planner_is_idempotent() {
    let once = ensure_cache_control(planner_body());
    let twice = ensure_cache_control(json_clone(&once));
    assert_eq!(twice, once);
}

#[test]
fn planner_with_saturated_budget_does_nothing() {
    let annotated_tool = obj(vec![("name", s("t")), ("cache_control", cc())]);
    let body = obj(vec![
        (
            "tools",
            Json::Arr(vec![
                json_clone(&annotated_tool),
                json_clone(&annotated_tool),
                json_clone(&annotated_tool),
                json_clone(&annotated_tool),
            ]),
        ),
        ("system", s("would be converted if budget remained")),
    ]);
    let planned = ensure_cache_control(json_clone(&body));
    assert_eq!(planned, body);
}

#[test]
fn planner_skips_zone_with_existing_annotation() {
    let body = obj(vec![(
        "tools",
        Json::Arr(vec![
            obj(vec![("name", s("a")), ("cache_control", cc())]),
            obj(vec![("name", s("b"))]),
        ]),
    )]);
    let planned = ensure_cache_control(json_clone(&body));
    assert_eq!(planned, body);
}

#[test]
fn planner_needs_two_user_turns() {
    let body = obj(vec![(
        "messages",
        Json::Arr(vec![obj(vec![("role", s("user")), ("content", s("only"))])]),
    )]);
    let planned = ensure_cache_control(json_clone(&body));
    assert_eq!(planned, body);
}

#[test]
fn data_url_parsing() {
    assert_eq!(
        parse_data_url("data:image/png;base64,AAA="),
        Some(("image/png".to_string(), "AAA=".to_string()))
    );
    assert_eq!(parse_data_url("https://example.com/x.png"), None);
    assert_eq!(parse_data_url("data:image/png,AAA="), None);
    assert_eq!(parse_data_url("data:image/png;base64"), None);
}

fn inbound_msg(role: &str, content: InboundContent) -> InboundMessage {
    InboundMessage {
        role: role.to_string(),
        content,
        tool_calls: None,
        tool_call_id: None,
    }
}

#[test]
fn inbound_request_reshapes_everything() {
    let req = InboundChatRequest {
        model: Some("sonnet-4-6".to_string()),
        messages: vec![
            inbound_msg("system", InboundContent::Text("sys".to_string())),
            inbound_msg("user", InboundContent::Text("question".to_string())),
            InboundMessage {
                role: "assistant".to_string(),
                content: InboundContent::Text("calling".to_string()),
                tool_calls: Some(vec![InboundToolCall {
                    id: "c1".to_string(),
                    function: InboundFunction {
                        name: "f".to_string(),
                        arguments: "{\"k\":\"v\"}".to_string(),
                    },
                }]),
                tool_call_id: None,
            },
            InboundMessage {
                role: "tool".to_string(),
                content: InboundContent::Text("result".to_string()),
                tool_calls: None,
                tool_call_id: Some("c1".to_string()),
            },
        ],
        max_tokens: Some(1024),
        temperature: Some("0.5".to_string()),
        stream: None,
        top_p: None,
        tools: Some(vec![obj(vec![(
            "function",
            obj(vec![("name", s("f")), ("description", s("d"))]),
        )])]),
        reasoning_effort: None,
    };
    let body = inbound_request_to_anthropic(req);
    let expected = obj(vec![
        (
            "messages",
            Json::Arr(vec![
                obj(vec![
                    ("role", s("user")),
                    (
                        "content",
                        Json::Arr(vec![obj(vec![
                            ("type", s("text")),
                            ("text", s("question")),
                        ])]),
                    ),
                ]),
                obj(vec![
                    ("role", s("assistant")),
                    (
                        "content",
                        Json::Arr(vec![
                            obj(vec![("type", s("text")), ("text", s("calling"))]),
                            obj(vec![
                                ("type", s("tool_use")),
                                ("id", s("c1")),
                                ("name", s("f")),
                                ("input", obj(vec![("k", s("v"))])),
                            ]),
                        ]),
                    ),
                ]),
                obj(vec![
                    ("role", s("user")),
                    (
                        "content",
                        Json::Arr(vec![obj(vec![
                            ("type", s("tool_result")),
                            ("tool_use_id", s("c1")),
                            ("content", s("result")),
                        ])]),
                    ),
                ]),
            ]),
        ),
        ("model", s("sonnet-4-6")),
        ("max_tokens", Json::Num("1024".to_string())),
        ("temperature", Json::Num("0.5".to_string())),
        (
            "system",
            Json::Arr(vec![obj(vec![("type", s("text")), ("text", s("sys"))])]),
        ),
        (
            "tools",
            Json::Arr(vec![obj(vec![
                ("name", s("f")),
                ("description", s("d")),
                (
                    "input_schema",
                    obj(vec![
                        ("type", s("object")),
                        ("properties", Json::Obj(vec![])),
                    ]),
                ),
            ])]),
        ),
    ]);
    assert_eq!(body, expected);
}

#[test]
fn inbound_images_and_empty_turns() {
    let req = InboundChatRequest {
        model: None,
        messages: vec![
            inbound_msg(
                "user",
                InboundContent::Parts(vec![
                    InboundContentPart::Text {
                        text: "look".to_string(),
                    },
                    InboundContentPart::ImageUrl {
                        image_url: ImageUrlData {
                            url: "data:image/png;base64,QUJD".to_string(),
                        },
                    },
                    InboundContentPart::ImageUrl {
                        image_url: ImageUrlData {
                            url: "data:broken".to_string(),
                        },
                    },
                ]),
            ),
            inbound_msg("user", InboundContent::Parts(vec![])),
            inbound_msg("user", InboundContent::Null),
            inbound_msg("assistant", InboundContent::Null),
        ],
        max_tokens: None,
        temperature: None,
        stream: None,
        top_p: None,
        tools: None,
        reasoning_effort: None,
    };
    let body = inbound_request_to_anthropic(req);
    let expected = obj(vec![(
        "messages",
        Json::Arr(vec![
            obj(vec![
                ("role", s("user")),
                (
                    "content",
                    Json::Arr(vec![
                        obj(vec![("type", s("text")), ("text", s("look"))]),
                        obj(vec![
                            ("type", s("image")),
                            (
                                "source",
                                obj(vec![
                                    ("type", s("base64")),
                                    ("media_type", s("image/png")),
                                    ("data", s("QUJD")),
                                ]),
                            ),
                        ]),
                    ]),
                ),
            ]),
            obj(vec![
                ("role", s("user")),
                (
                    "content",
                    Json::Arr(vec![obj(vec![("type", s("text")), ("text", s(""))])]),
                ),
            ]),
        ]),
    )]);
    assert_eq!(body, expected);
}

#[test]
fn tool_conversion_passthrough_without_function() {
    let already = obj(vec![("name", s("f")), ("input_schema", obj(vec![]))]);
    let converted = openai_tool_to_anthropic(json_clone(&already));
    assert_eq!(converted, already);
}

#[test]
fn tool_conversion_defaults() {
    let tool = obj(vec![("function", obj(vec![]))]);
    let converted = openai_tool_to_anthropic(tool);
    let expected = obj(vec![
        ("name", s("unknown")),
        ("description", s("")),
        (
            "input_schema",
            obj(vec![("type", s("object")), ("properties", Json::Obj(vec![]))]),
        ),
    ]);
    assert_eq!(converted, expected);
}

#[test]
fn configs_carry_their_fields() {
    let c = llm_adapter::ClientConfig::anthropic("SECRET-REDACTED".to_string(), "m1".to_string());
    assert_eq!(c.base_url, "https://api.anthropic.com");
    assert_eq!(c.timeout_secs, 180);
    assert_eq!(c.max_tokens, 16384);
    let c = c.timeout(30).max_tokens(2048).base_url("http://localhost".to_string());
    assert_eq!(c.timeout_secs, 30);
    assert_eq!(c.max_tokens, 2048);
    assert_eq!(c.base_url, "http://localhost");
    let e = llm_adapter::EmbeddingsConfig::openrouter("SECRET-REDACTED".to_string(), "e1".to_string());
    assert_eq!(e.base_url, "https://openrouter.ai/api/v1");
    assert_eq!(e.timeout_secs, 120);
}

#[test]
fn decimal_parsing_matches_rust() {
    let parse_u32 = llm_adapter::strutil::parse_u32;
    assert_eq!(parse_u32("0"), Some(0));
    assert_eq!(parse_u32("+17"), Some(17));
    assert_eq!(parse_u32("4294967295"), Some(4294967295));
    assert_eq!(parse_u32("4294967296"), None);
    assert_eq!(parse_u32(""), None);
    assert_eq!(parse_u32("+"), None);
    assert_eq!(parse_u32("12a"), None);
    assert_eq!(parse_u32("-1"), None);
}
