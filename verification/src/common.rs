//! Provider-agnostic core types: provider tag, thinking configuration,
//! effort levels, tool definitions, usage accounting and stop reasons.

use vstd::prelude::*;

use crate::json::{Json, JsonModel};
use crate::strutil::str_eq;

verus! {

/// Which wire protocol the active backend speaks.
#[derive(Debug, Clone, Copy, PartialEq, Eq, Structural)]
pub enum Provider {
    Anthropic,
    OpenAiCompatible,
}

pub open spec fn spec_provider_str(p: Provider) -> Seq<char> {
    match p {
        Provider::Anthropic => "anthropic"@,
        Provider::OpenAiCompatible => "openai"@,
    }
}

impl Provider {
    pub fn as_str(&self) -> (r: &'static str)
        ensures
            r@ == spec_provider_str(*self),
    {
        match self {
            Self::Anthropic => "anthropic",
            Self::OpenAiCompatible => "openai",
        }
    }

    pub fn default_base_url(&self) -> (r: &'static str)
        ensures
            match self {
                Self::Anthropic => r@ == "https://api.anthropic.com"@,
                Self::OpenAiCompatible => r@ == "https://api.openai.com"@,
            },
    {
        match self {
            Self::Anthropic => "https://api.anthropic.com",
            Self::OpenAiCompatible => "https://api.openai.com",
        }
    }

    /// Read a provider tag; unknown tags are reported back in the error.
    pub fn from_str(s: &str) -> (r: Result<Provider, String>)
        ensures
            match r {
                Ok(p) => match p {
                    Provider::Anthropic => s@ == "anthropic"@,
                    Provider::OpenAiCompatible => s@ == "openai"@,
                },
                Err(e) => s@ != "anthropic"@ && s@ != "openai"@ && e@ == "unknown provider: "@
                    + s@,
            },
    {
        if str_eq(s, "anthropic") {
            Ok(Self::Anthropic)
        } else if str_eq(s, "openai") {
            Ok(Self::OpenAiCompatible)
        } else {
            Err(String::from_str("unknown provider: ").concat(s))
        }
    }
}

impl Default for Provider {
    fn default() -> (r: Self)
        ensures
            r == Provider::Anthropic,
    {
        Provider::Anthropic
    }
}

/// Effort level for adaptive thinking, from deepest to shallowest.
#[derive(Debug, Clone, Copy, PartialEq, Eq, Structural)]
pub enum EffortLevel {
    Max,
    High,
    Medium,
    Low,
}

pub open spec fn spec_effort_str(e: EffortLevel) -> Seq<char> {
    match e {
        EffortLevel::Max => "max"@,
        EffortLevel::High => "high"@,
        EffortLevel::Medium => "medium"@,
        EffortLevel::Low => "low"@,
    }
}

impl EffortLevel {
    pub fn as_str(&self) -> (r: &'static str)
        ensures
            r@ == spec_effort_str(*self),
    {
        match self {
            Self::Max => "max",
            Self::High => "high",
            Self::Medium => "medium",
            Self::Low => "low",
        }
    }

    /// Every level, deepest first.
    pub fn all() -> (r: Vec<EffortLevel>)
        ensures
            r@ == seq![EffortLevel::Max, EffortLevel::High, EffortLevel::Medium, EffortLevel::Low],
    {
        let mut v: Vec<EffortLevel> = Vec::new();
        v.push(Self::Max);
        v.push(Self::High);
        v.push(Self::Medium);
        v.push(Self::Low);
        proof {
            assert(v@ =~= seq![
                EffortLevel::Max,
                EffortLevel::High,
                EffortLevel::Medium,
                EffortLevel::Low,
            ]);
        }
        v
    }

    /// Read an effort level from its exact lowercase name.
    pub fn from_str(s: &str) -> (r: Result<EffortLevel, String>)
        ensures
            match r {
                Ok(e) => match e {
                    EffortLevel::Max => s@ == "max"@,
                    EffortLevel::High => s@ == "high"@,
                    EffortLevel::Medium => s@ == "medium"@ || s@ == "med"@,
                    EffortLevel::Low => s@ == "low"@ || s@ == "minimal"@,
                },
                Err(e) => s@ != "max"@ && s@ != "high"@ && s@ != "medium"@ && s@ != "med"@ && s@
                    != "low"@ && s@ != "minimal"@ && e@ == "unknown effort level: "@ + s@,
            },
    {
        if str_eq(s, "max") {
            Ok(Self::Max)
        } else if str_eq(s, "high") {
            Ok(Self::High)
        } else if str_eq(s, "medium") || str_eq(s, "med") {
            Ok(Self::Medium)
        } else if str_eq(s, "low") || str_eq(s, "minimal") {
            Ok(Self::Low)
        } else {
            Err(String::from_str("unknown effort level: ").concat(s))
        }
    }
}

impl Default for EffortLevel {
    fn default() -> (r: Self)
        ensures
            r == EffortLevel::High,
    {
        EffortLevel::High
    }
}

/// Extended thinking configuration: either adaptive (the model decides, with
/// an effort hint) or a manual token budget.
#[derive(Debug, Clone, Copy, PartialEq, Eq, Structural)]
pub enum ThinkingConfig {
    Adaptive { effort: EffortLevel },
    Enabled { budget_tokens: u32 },
}

/// Provider-agnostic tool definition.
#[derive(Debug, PartialEq)]
pub struct ToolDefinition {
    pub name: String,
    pub description: String,
    pub input_schema: Json,
}

/// Model of a tool definition.
pub struct ToolDefinitionV {
    pub name: Seq<char>,
    pub description: Seq<char>,
    pub input_schema: JsonModel,
}

impl DeepView for ToolDefinition {
    type V = ToolDefinitionV;

    open spec fn deep_view(&self) -> ToolDefinitionV {
        ToolDefinitionV {
            name: self.name@,
            description: self.description@,
            input_schema: self.input_schema@,
        }
    }
}

impl View for ToolDefinition {
    type V = ToolDefinitionV;

    open spec fn view(&self) -> ToolDefinitionV {
        self.deep_view()
    }
}

impl ToolDefinition {
    pub fn new(name: String, description: String, input_schema: Json) -> (r: Self)
        ensures
            r@ == (ToolDefinitionV {
                name: name@,
                description: description@,
                input_schema: input_schema@,
            }),
    {
        Self { name, description, input_schema }
    }
}

/// Token usage counters of one request/response pair.
#[derive(Debug, Clone, PartialEq)]
pub struct Usage {
    pub input_tokens: u64,
    pub output_tokens: u64,
    pub cache_creation_input_tokens: Option<u64>,
    pub cache_read_input_tokens: Option<u64>,
}

impl Usage {
    pub fn total_tokens(&self) -> (r: u64)
        requires
            self.input_tokens + self.output_tokens <= u64::MAX,
        ensures
            r == self.input_tokens + self.output_tokens,
    {
        self.input_tokens + self.output_tokens
    }
}

impl Default for Usage {
    fn default() -> (r: Self)
        ensures
            r.input_tokens == 0,
            r.output_tokens == 0,
            r.cache_creation_input_tokens is None,
            r.cache_read_input_tokens is None,
    {
        Usage {
            input_tokens: 0,
            output_tokens: 0,
            cache_creation_input_tokens: None,
            cache_read_input_tokens: None,
        }
    }
}

/// Response format request (JSON mode).
#[derive(Debug, Clone)]
pub struct ResponseFormat {
    pub format_type: String,
}

impl ResponseFormat {
    pub fn json_object() -> (r: Self)
        ensures
            r.format_type@ == "json_object"@,
    {
        Self { format_type: String::from_str("json_object") }
    }
}

/// Stop reason, normalized across providers.
#[derive(Debug, Clone, PartialEq, Eq)]
pub enum StopReason {
    EndTurn,
    ToolUse,
    MaxTokens,
    Other(String),
}

/// Model of a stop reason.
pub enum StopReasonV {
    EndTurn,
    ToolUse,
    MaxTokens,
    Other(Seq<char>),
}

impl DeepView for StopReason {
    type V = StopReasonV;

    open spec fn deep_view(&self) -> StopReasonV {
        match self {
            StopReason::EndTurn => StopReasonV::EndTurn,
            StopReason::ToolUse => StopReasonV::ToolUse,
            StopReason::MaxTokens => StopReasonV::MaxTokens,
            StopReason::Other(s) => StopReasonV::Other(s@),
        }
    }
}

impl View for StopReason {
    type V = StopReasonV;

    open spec fn view(&self) -> StopReasonV {
        self.deep_view()
    }
}

/// The normalization each provider's terminal-state word maps to, and the
/// word each normalized value is written back as.
pub open spec fn spec_stop_from_anthropic(s: Seq<char>) -> StopReasonV {
    if s == "end_turn"@ {
        StopReasonV::EndTurn
    } else if s == "tool_use"@ {
        StopReasonV::ToolUse
    } else if s == "max_tokens"@ {
        StopReasonV::MaxTokens
    } else {
        StopReasonV::Other(s)
    }
}

pub open spec fn spec_stop_from_openai(s: Seq<char>) -> StopReasonV {
    if s == "stop"@ {
        StopReasonV::EndTurn
    } else if s == "tool_calls"@ {
        StopReasonV::ToolUse
    } else if s == "length"@ {
        StopReasonV::MaxTokens
    } else {
        StopReasonV::Other(s)
    }
}

pub open spec fn spec_stop_to_anthropic(v: StopReasonV) -> Seq<char> {
    match v {
        StopReasonV::EndTurn => "end_turn"@,
        StopReasonV::ToolUse => "tool_use"@,
        StopReasonV::MaxTokens => "max_tokens"@,
        StopReasonV::Other(s) => s,
    }
}

pub open spec fn spec_stop_to_openai(v: StopReasonV) -> Seq<char> {
    match v {
        StopReasonV::EndTurn => "stop"@,
        StopReasonV::ToolUse => "tool_calls"@,
        StopReasonV::MaxTokens => "length"@,
        StopReasonV::Other(s) => s,
    }
}

/// Normalizing a structured-format stop word and writing it back yields
/// the word unchanged, for every word: the three known values map through
/// the table, and any other word passes through as itself.
pub proof fn lemma_stop_anthropic_round_trip(s: Seq<char>)
    ensures
        spec_stop_to_anthropic(spec_stop_from_anthropic(s)) == s,
{
}

/// Normalizing a flat-format finish word and writing it back yields the
/// word unchanged, for every word.
pub proof fn lemma_stop_openai_round_trip(s: Seq<char>)
    ensures
        spec_stop_to_openai(spec_stop_from_openai(s)) == s,
{
}

impl StopReason {
    pub fn from_anthropic(s: &str) -> (r: Self)
        ensures
            r@ == spec_stop_from_anthropic(s@),
    {
        if str_eq(s, "end_turn") {
            Self::EndTurn
        } else if str_eq(s, "tool_use") {
            Self::ToolUse
        } else if str_eq(s, "max_tokens") {
            Self::MaxTokens
        } else {
            Self::Other(String::from_str(s))
        }
    }

    pub fn from_openai(s: &str) -> (r: Self)
        ensures
            r@ == spec_stop_from_openai(s@),
    {
        if str_eq(s, "stop") {
            Self::EndTurn
        } else if str_eq(s, "tool_calls") {
            Self::ToolUse
        } else if str_eq(s, "length") {
            Self::MaxTokens
        } else {
            Self::Other(String::from_str(s))
        }
    }

    pub fn to_anthropic(&self) -> (r: &str)
        ensures
            r@ == spec_stop_to_anthropic(self@),
    {
        match self {
            Self::EndTurn => "end_turn",
            Self::ToolUse => "tool_use",
            Self::MaxTokens => "max_tokens",
            Self::Other(s) => s.as_str(),
        }
    }

    pub fn to_openai(&self) -> (r: &str)
        ensures
            r@ == spec_stop_to_openai(self@),
    {
        match self {
            Self::EndTurn => "stop",
            Self::ToolUse => "tool_calls",
            Self::MaxTokens => "length",
            Self::Other(s) => s.as_str(),
        }
    }

    pub fn is_tool_use(&self) -> (r: bool)
        ensures
            r == (self@ is ToolUse),
    {
        matches!(self, Self::ToolUse)
    }
}

} // verus!
