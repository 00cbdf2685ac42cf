use llm_adapter::anthropic::{OutputConfig, ThinkingParam};
use llm_adapter::thinking::{
    build_thinking_for_model, build_thinking_params, parse_model_suffix, supports_adaptive_thinking,
};
use llm_adapter::{EffortLevel, Provider, ResponseFormat, StopReason, ThinkingConfig, Usage};

#[test]
fn thinking_params_adaptive_high_omits_output_config() {
    let config = ThinkingConfig::Adaptive {
        effort: EffortLevel::High,
    };
    let (param, output) = build_thinking_params(Some(&config));
    assert_eq!(param, Some(ThinkingParam::Adaptive));
    assert!(output.is_none());
}

#[test]
fn thinking_params_adaptive_medium_spells_effort() {
    let config = ThinkingConfig::Adaptive {
        effort: EffortLevel::Medium,
    };
    let (param, output) = build_thinking_params(Some(&config));
    assert_eq!(param, Some(ThinkingParam::Adaptive));
    let OutputConfig { effort } = output.expect("effort must be spelled out");
    assert_eq!(effort, "medium");
}

#[test]
fn thinking_params_enabled_carries_budget() {
    let config = ThinkingConfig::Enabled {
        budget_tokens: 4096,
    };
    let (param, output) = build_thinking_params(Some(&config));
    assert_eq!(
        param,
        Some(ThinkingParam::Enabled {
            budget_tokens: 4096
        })
    );
    assert!(output.is_none());
}

#[test]
fn thinking_params_absent_emits_nothing() {
    let (param, output) = build_thinking_params(None);
    assert!(param.is_none());
    assert!(output.is_none());
}

#[test]
fn suffix_valid_named() {
    let (base, suffix) = parse_model_suffix("sonnet-4-5(medium)");
    assert_eq!(base, "sonnet-4-5");
    assert_eq!(suffix.as_deref(), Some("medium"));
}

#[test]
fn suffix_bogus_leaves_model_untouched() {
    let (base, suffix) = parse_model_suffix("sonnet-4-5(bogus)");
    assert_eq!(base, "sonnet-4-5(bogus)");
    assert!(suffix.is_none());
}

#[test]
fn suffix_absent() {
    let (base, suffix) = parse_model_suffix("plain-model");
    assert_eq!(base, "plain-model");
    assert!(suffix.is_none());
}

#[test]
fn suffix_numeric() {
    let (base, suffix) = parse_model_suffix("sonnet-4-5(8192)");
    assert_eq!(base, "sonnet-4-5");
    assert_eq!(suffix.as_deref(), Some("8192"));
}

#[test]
fn suffix_case_insensitive_keeps_original_case() {
    let (base, suffix) = parse_model_suffix("m(XHIGH)");
    assert_eq!(base, "m");
    assert_eq!(suffix.as_deref(), Some("XHIGH"));
}

#[test]
fn suffix_unclosed_paren() {
    let (base, suffix) = parse_model_suffix("model(med");
    assert_eq!(base, "model(med");
    assert!(suffix.is_none());
}

#[test]
fn adaptive_support_by_family_marker() {
    assert!(supports_adaptive_thinking("opus-4-6"));
    assert!(supports_adaptive_thinking("SONNET-4-6-preview"));
    assert!(!supports_adaptive_thinking("sonnet-4-5"));
    assert!(!supports_adaptive_thinking("gpt-4o"));
}

#[test]
fn effort_boundaries_on_adaptive_model() {
    let m = "opus-4-6";
    let low = ThinkingConfig::Adaptive {
        effort: EffortLevel::Low,
    };
    let medium = ThinkingConfig::Adaptive {
        effort: EffortLevel::Medium,
    };
    let high = ThinkingConfig::Adaptive {
        effort: EffortLevel::High,
    };
    let max = ThinkingConfig::Adaptive {
        effort: EffortLevel::Max,
    };
    assert_eq!(build_thinking_for_model(m, "2048"), Some(low));
    assert_eq!(build_thinking_for_model(m, "2049"), Some(medium));
    assert_eq!(build_thinking_for_model(m, "16384"), Some(medium));
    assert_eq!(build_thinking_for_model(m, "16385"), Some(high));
    assert_eq!(build_thinking_for_model(m, "49152"), Some(high));
    assert_eq!(build_thinking_for_model(m, "49153"), Some(max));
}

#[test]
fn effort_words_on_adaptive_model() {
    let m = "sonnet-4-6";
    assert_eq!(build_thinking_for_model(m, "none"), None);
    assert_eq!(build_thinking_for_model(m, "OFF"), None);
    assert_eq!(build_thinking_for_model(m, "0"), None);
    assert_eq!(
        build_thinking_for_model(m, "minimal"),
        Some(ThinkingConfig::Adaptive {
            effort: EffortLevel::Low
        })
    );
    assert_eq!(
        build_thinking_for_model(m, "auto"),
        Some(ThinkingConfig::Adaptive {
            effort: EffortLevel::Medium
        })
    );
    assert_eq!(
        build_thinking_for_model(m, "whatever"),
        Some(ThinkingConfig::Adaptive {
            effort: EffortLevel::High
        })
    );
    assert_eq!(
        build_thinking_for_model(m, "max"),
        Some(ThinkingConfig::Adaptive {
            effort: EffortLevel::Max
        })
    );
}

#[test]
fn effort_budgets_on_older_model() {
    let m = "sonnet-4-5";
    let budget = |n: u32| {
        Some(ThinkingConfig::Enabled { budget_tokens: n })
    };
    assert_eq!(build_thinking_for_model(m, "low"), budget(1024));
    assert_eq!(build_thinking_for_model(m, "med"), budget(8192));
    assert_eq!(build_thinking_for_model(m, "high"), budget(32000));
    assert_eq!(build_thinking_for_model(m, "xhigh"), budget(64000));
    assert_eq!(build_thinking_for_model(m, "auto"), budget(16000));
    assert_eq!(build_thinking_for_model(m, "12345"), budget(12345));
    assert_eq!(build_thinking_for_model(m, "gibberish"), budget(8192));
    assert_eq!(build_thinking_for_model(m, "disabled"), None);
}

#[test]
fn stop_reason_tables() {
    assert_eq!(StopReason::from_anthropic("end_turn"), StopReason::EndTurn);
    assert_eq!(StopReason::from_anthropic("tool_use"), StopReason::ToolUse);
    assert_eq!(
        StopReason::from_anthropic("max_tokens"),
        StopReason::MaxTokens
    );
    assert_eq!(
        StopReason::from_anthropic("weird"),
        StopReason::Other("weird".to_string())
    );
    assert_eq!(StopReason::from_openai("stop"), StopReason::EndTurn);
    assert_eq!(StopReason::from_openai("tool_calls"), StopReason::ToolUse);
    assert_eq!(StopReason::from_openai("length"), StopReason::MaxTokens);
    assert_eq!(StopReason::EndTurn.to_anthropic(), "end_turn");
    assert_eq!(StopReason::EndTurn.to_openai(), "stop");
    assert_eq!(StopReason::ToolUse.to_openai(), "tool_calls");
    assert_eq!(StopReason::MaxTokens.to_anthropic(), "max_tokens");
    assert_eq!(
        StopReason::Other("odd".to_string()).to_openai(),
        "odd"
    );
    assert!(StopReason::ToolUse.is_tool_use());
    assert!(!StopReason::EndTurn.is_tool_use());
}

#[test]
fn provider_strings() {
    assert_eq!(Provider::Anthropic.as_str(), "anthropic");
    assert_eq!(Provider::OpenAiCompatible.as_str(), "openai");
    assert_eq!(
        Provider::Anthropic.default_base_url(),
        "https://api.anthropic.com"
    );
    assert_eq!(
        Provider::OpenAiCompatible.default_base_url(),
        "https://api.openai.com"
    );
    assert_eq!(Provider::from_str("anthropic"), Ok(Provider::Anthropic));
    assert_eq!(Provider::from_str("openai"), Ok(Provider::OpenAiCompatible));
    assert_eq!(
        Provider::from_str("azure"),
        Err("unknown provider: azure".to_string())
    );
}

#[test]
fn effort_level_strings() {
    assert_eq!(EffortLevel::Max.as_str(), "max");
    assert_eq!(EffortLevel::Low.as_str(), "low");
    assert_eq!(
        EffortLevel::all(),
        vec![
            EffortLevel::Max,
            EffortLevel::High,
            EffortLevel::Medium,
            EffortLevel::Low
        ]
    );
    assert_eq!(EffortLevel::from_str("med"), Ok(EffortLevel::Medium));
    assert_eq!(EffortLevel::from_str("minimal"), Ok(EffortLevel::Low));
    assert_eq!(
        EffortLevel::from_str("extreme"),
        Err("unknown effort level: extreme".to_string())
    );
}

#[test]
fn usage_total() {
    let usage = Usage {
        input_tokens: 120,
        output_tokens: 34,
        cache_creation_input_tokens: None,
        cache_read_input_tokens: Some(5),
    };
    assert_eq!(usage.total_tokens(), 154);
}

#[test]
fn response_format_json_object() {
    assert_eq!(ResponseFormat::json_object().format_type, "json_object");
}
