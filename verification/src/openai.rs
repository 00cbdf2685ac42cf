//! The flat role/content chat format: request and response shapes, and the
//! permissive inbound shapes used when this service is the receiving side.

use vstd::prelude::*;

use crate::json::{Json, JsonModel};

verus! {

/// A flat chat message.
#[derive(Debug, PartialEq)]
pub struct ChatMessage {
    pub role: String,
    pub content: Option<String>,
    pub tool_calls: Option<Vec<ToolCallOut>>,
    pub tool_call_id: Option<String>,
}

/// A tool call carried by an assistant message.
#[derive(Debug, PartialEq)]
pub struct ToolCallOut {
    pub id: String,
    pub call_type: String,
    pub function: ToolCallFunction,
}

#[derive(Debug, PartialEq)]
pub struct ToolCallFunction {
    pub name: String,
    pub arguments: String,
}

/// A flat tool declaration.
#[derive(Debug, PartialEq)]
pub struct Tool {
    pub tool_type: String,
    pub function: ToolFunction,
}

#[derive(Debug, PartialEq)]
pub struct ToolFunction {
    pub name: String,
    pub description: String,
    pub parameters: Json,
}

/// Model of a tool call.
pub struct ToolCallOutV {
    pub id: Seq<char>,
    pub call_type: Seq<char>,
    pub function: ToolCallFunctionV,
}

pub struct ToolCallFunctionV {
    pub name: Seq<char>,
    pub arguments: Seq<char>,
}

/// Model of a flat chat message.
pub struct ChatMessageV {
    pub role: Seq<char>,
    pub content: Option<Seq<char>>,
    pub tool_calls: Option<Seq<ToolCallOutV>>,
    pub tool_call_id: Option<Seq<char>>,
}

/// Model of a flat tool declaration.
pub struct ToolV {
    pub tool_type: Seq<char>,
    pub function: ToolFunctionV,
}

pub struct ToolFunctionV {
    pub name: Seq<char>,
    pub description: Seq<char>,
    pub parameters: JsonModel,
}

impl DeepView for ToolCallFunction {
    type V = ToolCallFunctionV;

    open spec fn deep_view(&self) -> ToolCallFunctionV {
        ToolCallFunctionV { name: self.name@, arguments: self.arguments@ }
    }
}

impl DeepView for ToolCallOut {
    type V = ToolCallOutV;

    open spec fn deep_view(&self) -> ToolCallOutV {
        ToolCallOutV {
            id: self.id@,
            call_type: self.call_type@,
            function: self.function.deep_view(),
        }
    }
}

impl DeepView for ChatMessage {
    type V = ChatMessageV;

    open spec fn deep_view(&self) -> ChatMessageV {
        ChatMessageV {
            role: self.role@,
            content: self.content.deep_view(),
            tool_calls: match self.tool_calls {
                Some(ref tcs) => Some(tcs.deep_view()),
                None => None,
            },
            tool_call_id: self.tool_call_id.deep_view(),
        }
    }
}

impl View for ChatMessage {
    type V = ChatMessageV;

    open spec fn view(&self) -> ChatMessageV {
        self.deep_view()
    }
}

impl DeepView for ToolFunction {
    type V = ToolFunctionV;

    open spec fn deep_view(&self) -> ToolFunctionV {
        ToolFunctionV {
            name: self.name@,
            description: self.description@,
            parameters: self.parameters@,
        }
    }
}

impl DeepView for Tool {
    type V = ToolV;

    open spec fn deep_view(&self) -> ToolV {
        ToolV { tool_type: self.tool_type@, function: self.function.deep_view() }
    }
}

impl View for Tool {
    type V = ToolV;

    open spec fn view(&self) -> ToolV {
        self.deep_view()
    }
}

impl ChatMessage {
    pub fn system(content: String) -> (r: Self)
        ensures
            r@ == (ChatMessageV {
                role: "system"@,
                content: Some(content@),
                tool_calls: None,
                tool_call_id: None,
            }),
    {
        Self {
            role: String::from_str("system"),
            content: Some(content),
            tool_calls: None,
            tool_call_id: None,
        }
    }

    pub fn user(content: String) -> (r: Self)
        ensures
            r@ == (ChatMessageV {
                role: "user"@,
                content: Some(content@),
                tool_calls: None,
                tool_call_id: None,
            }),
    {
        Self {
            role: String::from_str("user"),
            content: Some(content),
            tool_calls: None,
            tool_call_id: None,
        }
    }

    pub fn assistant_text(content: String) -> (r: Self)
        ensures
            r@ == (ChatMessageV {
                role: "assistant"@,
                content: Some(content@),
                tool_calls: None,
                tool_call_id: None,
            }),
    {
        Self {
            role: String::from_str("assistant"),
            content: Some(content),
            tool_calls: None,
            tool_call_id: None,
        }
    }

    pub fn tool_result(tool_call_id: String, content: String) -> (r: Self)
        ensures
            r@ == (ChatMessageV {
                role: "tool"@,
                content: Some(content@),
                tool_calls: None,
                tool_call_id: Some(tool_call_id@),
            }),
    {
        Self {
            role: String::from_str("tool"),
            content: Some(content),
            tool_calls: None,
            tool_call_id: Some(tool_call_id),
        }
    }
}

/// A flat chat response.
#[derive(Debug, PartialEq)]
pub struct ChatResponse {
    pub id: Option<String>,
    pub object: Option<String>,
    pub created: Option<u64>,
    pub model: Option<String>,
    pub choices: Vec<Choice>,
    pub usage: Option<ResponseUsage>,
}

#[derive(Debug, PartialEq)]
pub struct Choice {
    pub index: Option<u32>,
    pub message: ResponseMessage,
    pub finish_reason: Option<String>,
}

#[derive(Debug, PartialEq)]
pub struct ResponseMessage {
    pub role: Option<String>,
    pub content: Option<String>,
    pub reasoning_content: Option<String>,
    pub tool_calls: Option<Vec<ResponseToolCall>>,
}

#[derive(Debug, PartialEq)]
pub struct ResponseToolCall {
    pub id: String,
    pub call_type: Option<String>,
    pub function: ResponseToolCallFunction,
}

#[derive(Debug, PartialEq)]
pub struct ResponseToolCallFunction {
    pub name: String,
    pub arguments: String,
}

/// Flat usage counters.
#[derive(Debug, Clone, PartialEq)]
pub struct ResponseUsage {
    pub prompt_tokens: u64,
    pub completion_tokens: u64,
    pub total_tokens: u64,
    pub cache_creation_input_tokens: Option<u64>,
    pub cache_read_input_tokens: Option<u64>,
}

/// Models of the response shapes.
pub struct ChatResponseV {
    pub id: Option<Seq<char>>,
    pub object: Option<Seq<char>>,
    pub created: Option<u64>,
    pub model: Option<Seq<char>>,
    pub choices: Seq<ChoiceV>,
    pub usage: Option<ResponseUsage>,
}

pub struct ChoiceV {
    pub index: Option<u32>,
    pub message: ResponseMessageV,
    pub finish_reason: Option<Seq<char>>,
}

pub struct ResponseMessageV {
    pub role: Option<Seq<char>>,
    pub content: Option<Seq<char>>,
    pub reasoning_content: Option<Seq<char>>,
    pub tool_calls: Option<Seq<ResponseToolCallV>>,
}

pub struct ResponseToolCallV {
    pub id: Seq<char>,
    pub call_type: Option<Seq<char>>,
    pub function: ResponseToolCallFunctionV,
}

pub struct ResponseToolCallFunctionV {
    pub name: Seq<char>,
    pub arguments: Seq<char>,
}

impl DeepView for ResponseToolCallFunction {
    type V = ResponseToolCallFunctionV;

    open spec fn deep_view(&self) -> ResponseToolCallFunctionV {
        ResponseToolCallFunctionV { name: self.name@, arguments: self.arguments@ }
    }
}

impl DeepView for ResponseToolCall {
    type V = ResponseToolCallV;

    open spec fn deep_view(&self) -> ResponseToolCallV {
        ResponseToolCallV {
            id: self.id@,
            call_type: self.call_type.deep_view(),
            function: self.function.deep_view(),
        }
    }
}

impl DeepView for ResponseMessage {
    type V = ResponseMessageV;

    open spec fn deep_view(&self) -> ResponseMessageV {
        ResponseMessageV {
            role: self.role.deep_view(),
            content: self.content.deep_view(),
            reasoning_content: self.reasoning_content.deep_view(),
            tool_calls: match self.tool_calls {
                Some(ref tcs) => Some(tcs.deep_view()),
                None => None,
            },
        }
    }
}

impl DeepView for Choice {
    type V = ChoiceV;

    open spec fn deep_view(&self) -> ChoiceV {
        ChoiceV {
            index: self.index,
            message: self.message.deep_view(),
            finish_reason: self.finish_reason.deep_view(),
        }
    }
}

impl DeepView for ChatResponse {
    type V = ChatResponseV;

    open spec fn deep_view(&self) -> ChatResponseV {
        ChatResponseV {
            id: self.id.deep_view(),
            object: self.object.deep_view(),
            created: self.created,
            model: self.model.deep_view(),
            choices: self.choices.deep_view(),
            usage: self.usage,
        }
    }
}

impl View for ChatResponse {
    type V = ChatResponseV;

    open spec fn view(&self) -> ChatResponseV {
        self.deep_view()
    }
}

impl ChatResponse {
    /// The text content of the first choice.
    pub fn text(&self) -> (r: Option<&str>)
        ensures
            match r {
                Some(t) => self@.choices.len() > 0 && self@.choices[0].message.content == Some(
                    t@,
                ),
                None => self@.choices.len() == 0 || self@.choices[0].message.content is None,
            },
    {
        proof {
            if self.choices@.len() > 0 {
                assert(self.choices.deep_view()[0] == self.choices@[0].deep_view());
            }
        }
        if self.choices.len() == 0 {
            None
        } else {
            match &self.choices[0].message.content {
                Some(c) => Some(c.as_str()),
                None => None,
            }
        }
    }

    /// The text content, or an error when there is none.
    pub fn text_or_err(&self) -> (r: Result<&str, &'static str>)
        ensures
            match r {
                Ok(t) => self@.choices.len() > 0 && self@.choices[0].message.content == Some(t@),
                Err(e) => (self@.choices.len() == 0 || self@.choices[0].message.content is None)
                    && e@ == "No response content (empty choices)"@,
            },
    {
        match self.text() {
            Some(t) => Ok(t),
            None => Err("No response content (empty choices)"),
        }
    }
}

/// A flat embeddings request.
pub struct EmbeddingsRequest {
    pub model: String,
    pub input: Vec<String>,
}

/// A permissive inbound chat request, as a proxy receives it. Numeric
/// sampling knobs are carried as their decimal text.
pub struct InboundChatRequest {
    pub model: Option<String>,
    pub messages: Vec<InboundMessage>,
    pub max_tokens: Option<u32>,
    pub temperature: Option<String>,
    pub stream: Option<bool>,
    pub top_p: Option<String>,
    pub tools: Option<Vec<Json>>,
    pub reasoning_effort: Option<String>,
}

pub struct InboundMessage {
    pub role: String,
    pub content: InboundContent,
    pub tool_calls: Option<Vec<InboundToolCall>>,
    pub tool_call_id: Option<String>,
}

/// Inbound content: a string, a run of parts, or null.
pub enum InboundContent {
    Text(String),
    Parts(Vec<InboundContentPart>),
    Null,
}

pub enum InboundContentPart {
    Text { text: String },
    ImageUrl { image_url: ImageUrlData },
}

pub struct ImageUrlData {
    pub url: String,
}

pub struct InboundToolCall {
    pub id: String,
    pub function: InboundFunction,
}

pub struct InboundFunction {
    pub name: String,
    pub arguments: String,
}

/// Models of the inbound shapes.
pub struct InboundChatRequestV {
    pub model: Option<Seq<char>>,
    pub messages: Seq<InboundMessageV>,
    pub max_tokens: Option<u32>,
    pub temperature: Option<Seq<char>>,
    pub stream: Option<bool>,
    pub top_p: Option<Seq<char>>,
    pub tools: Option<Seq<JsonModel>>,
    pub reasoning_effort: Option<Seq<char>>,
}

pub struct InboundMessageV {
    pub role: Seq<char>,
    pub content: InboundContentV,
    pub tool_calls: Option<Seq<InboundToolCallV>>,
    pub tool_call_id: Option<Seq<char>>,
}

pub enum InboundContentV {
    Text(Seq<char>),
    Parts(Seq<InboundContentPartV>),
    Null,
}

pub enum InboundContentPartV {
    Text { text: Seq<char> },
    ImageUrl { url: Seq<char> },
}

pub struct InboundToolCallV {
    pub id: Seq<char>,
    pub function: InboundFunctionV,
}

pub struct InboundFunctionV {
    pub name: Seq<char>,
    pub arguments: Seq<char>,
}

impl DeepView for InboundFunction {
    type V = InboundFunctionV;

    open spec fn deep_view(&self) -> InboundFunctionV {
        InboundFunctionV { name: self.name@, arguments: self.arguments@ }
    }
}

impl DeepView for InboundToolCall {
    type V = InboundToolCallV;

    open spec fn deep_view(&self) -> InboundToolCallV {
        InboundToolCallV { id: self.id@, function: self.function.deep_view() }
    }
}

impl DeepView for InboundContentPart {
    type V = InboundContentPartV;

    open spec fn deep_view(&self) -> InboundContentPartV {
        match self {
            InboundContentPart::Text { text } => InboundContentPartV::Text { text: text@ },
            InboundContentPart::ImageUrl { image_url } => InboundContentPartV::ImageUrl {
                url: image_url.url@,
            },
        }
    }
}

impl DeepView for InboundContent {
    type V = InboundContentV;

    open spec fn deep_view(&self) -> InboundContentV {
        match self {
            InboundContent::Text(t) => InboundContentV::Text(t@),
            InboundContent::Parts(ps) => InboundContentV::Parts(ps.deep_view()),
            InboundContent::Null => InboundContentV::Null,
        }
    }
}

impl DeepView for InboundMessage {
    type V = InboundMessageV;

    open spec fn deep_view(&self) -> InboundMessageV {
        InboundMessageV {
            role: self.role@,
            content: self.content.deep_view(),
            tool_calls: match self.tool_calls {
                Some(ref tcs) => Some(tcs.deep_view()),
                None => None,
            },
            tool_call_id: self.tool_call_id.deep_view(),
        }
    }
}

impl DeepView for InboundChatRequest {
    type V = InboundChatRequestV;

    open spec fn deep_view(&self) -> InboundChatRequestV {
        InboundChatRequestV {
            model: self.model.deep_view(),
            messages: self.messages.deep_view(),
            max_tokens: self.max_tokens,
            temperature: self.temperature.deep_view(),
            stream: self.stream,
            top_p: self.top_p.deep_view(),
            tools: match self.tools {
                Some(ref ts) => Some(ts.deep_view()),
                None => None,
            },
            reasoning_effort: self.reasoning_effort.deep_view(),
        }
    }
}

impl View for InboundChatRequest {
    type V = InboundChatRequestV;

    open spec fn view(&self) -> InboundChatRequestV {
        self.deep_view()
    }
}

} // verus!
