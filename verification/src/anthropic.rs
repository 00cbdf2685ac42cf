//! The structured content-block message format: the canonical shape that
//! callers always observe.

use vstd::prelude::*;

use crate::common::{spec_stop_from_anthropic, StopReason, ToolDefinition, Usage};
use crate::json::{Json, JsonModel};
use crate::strutil::join_with;

verus! {

/// One content block: the closed set of variants a message may carry.
#[derive(Debug, PartialEq)]
pub enum ContentBlock {
    Text { text: String },
    Thinking { thinking: String, signature: Option<String> },
    ToolUse { id: String, name: String, input: Json },
    ToolResult { tool_use_id: String, content: String, is_error: Option<bool> },
}

/// Model of a content block.
pub enum ContentBlockV {
    Text { text: Seq<char> },
    Thinking { thinking: Seq<char>, signature: Option<Seq<char>> },
    ToolUse { id: Seq<char>, name: Seq<char>, input: JsonModel },
    ToolResult { tool_use_id: Seq<char>, content: Seq<char>, is_error: Option<bool> },
}

impl DeepView for ContentBlock {
    type V = ContentBlockV;

    open spec fn deep_view(&self) -> ContentBlockV {
        match self {
            ContentBlock::Text { text } => ContentBlockV::Text { text: text@ },
            ContentBlock::Thinking { thinking, signature } => ContentBlockV::Thinking {
                thinking: thinking@,
                signature: signature.deep_view(),
            },
            ContentBlock::ToolUse { id, name, input } => ContentBlockV::ToolUse {
                id: id@,
                name: name@,
                input: input@,
            },
            ContentBlock::ToolResult { tool_use_id, content, is_error } => ContentBlockV::ToolResult {
                tool_use_id: tool_use_id@,
                content: content@,
                is_error: *is_error,
            },
        }
    }
}

impl View for ContentBlock {
    type V = ContentBlockV;

    open spec fn view(&self) -> ContentBlockV {
        self.deep_view()
    }
}

/// A structured-format message: a role and an ordered run of content blocks.
#[derive(Debug, PartialEq)]
pub struct Message {
    pub role: String,
    pub content: Vec<ContentBlock>,
}

/// Model of a message.
pub struct MessageV {
    pub role: Seq<char>,
    pub content: Seq<ContentBlockV>,
}

impl DeepView for Message {
    type V = MessageV;

    open spec fn deep_view(&self) -> MessageV {
        MessageV { role: self.role@, content: self.content.deep_view() }
    }
}

impl View for Message {
    type V = MessageV;

    open spec fn view(&self) -> MessageV {
        self.deep_view()
    }
}

impl Message {
    pub fn user(content: Vec<ContentBlock>) -> (r: Self)
        ensures
            r@.role == "user"@,
            r@.content == content.deep_view(),
    {
        Self { role: String::from_str("user"), content }
    }

    pub fn assistant(content: Vec<ContentBlock>) -> (r: Self)
        ensures
            r@.role == "assistant"@,
            r@.content == content.deep_view(),
    {
        Self { role: String::from_str("assistant"), content }
    }

    pub fn user_text(text: String) -> (r: Self)
        ensures
            r@.role == "user"@,
            r@.content =~= seq![ContentBlockV::Text { text: text@ }],
    {
        let ghost t = text@;
        let mut content: Vec<ContentBlock> = Vec::new();
        content.push(ContentBlock::Text { text });
        proof {
            assert(content.deep_view() =~= seq![ContentBlockV::Text { text: t }]);
        }
        Self::user(content)
    }

    pub fn tool_results(results: Vec<ContentBlock>) -> (r: Self)
        ensures
            r@.role == "user"@,
            r@.content == results.deep_view(),
    {
        Self::user(results)
    }
}

/// Extended thinking wire parameter.
#[derive(Debug, Clone, Copy, PartialEq, Eq, Structural)]
pub enum ThinkingParam {
    Adaptive,
    Enabled { budget_tokens: u32 },
}

/// Adaptive-thinking output configuration: an explicit effort string.
#[derive(Debug, Clone, PartialEq)]
pub struct OutputConfig {
    pub effort: String,
}

/// A structured-format request body.
#[derive(Debug, PartialEq)]
pub struct MessagesRequest {
    pub model: String,
    pub max_tokens: u32,
    pub system: Option<String>,
    pub messages: Vec<Message>,
    pub tools: Option<Vec<ToolDefinition>>,
    pub thinking: Option<ThinkingParam>,
    pub output_config: Option<OutputConfig>,
}

/// A structured-format response body.
#[derive(Debug, PartialEq)]
pub struct MessagesResponse {
    pub id: Option<String>,
    pub model: Option<String>,
    pub content: Vec<ContentBlock>,
    pub stop_reason: String,
    pub usage: Option<Usage>,
}

/// Model of a response body.
pub struct MessagesResponseV {
    pub id: Option<Seq<char>>,
    pub model: Option<Seq<char>>,
    pub content: Seq<ContentBlockV>,
    pub stop_reason: Seq<char>,
    pub usage: Option<Usage>,
}

impl DeepView for MessagesResponse {
    type V = MessagesResponseV;

    open spec fn deep_view(&self) -> MessagesResponseV {
        MessagesResponseV {
            id: self.id.deep_view(),
            model: self.model.deep_view(),
            content: self.content.deep_view(),
            stop_reason: self.stop_reason@,
            usage: self.usage,
        }
    }
}

impl View for MessagesResponse {
    type V = MessagesResponseV;

    open spec fn view(&self) -> MessagesResponseV {
        self.deep_view()
    }
}

/// The text payloads of the `Text` blocks, in order.
pub open spec fn spec_text_parts(blocks: Seq<ContentBlockV>) -> Seq<Seq<char>>
    decreases blocks.len(),
{
    if blocks.len() == 0 {
        Seq::empty()
    } else {
        let rest = spec_text_parts(blocks.drop_last());
        match blocks.last() {
            ContentBlockV::Text { text } => rest.push(text),
            _ => rest,
        }
    }
}

/// The thinking payloads of the `Thinking` blocks, in order.
pub open spec fn spec_thinking_parts(blocks: Seq<ContentBlockV>) -> Seq<Seq<char>>
    decreases blocks.len(),
{
    if blocks.len() == 0 {
        Seq::empty()
    } else {
        let rest = spec_thinking_parts(blocks.drop_last());
        match blocks.last() {
            ContentBlockV::Thinking { thinking, .. } => rest.push(thinking),
            _ => rest,
        }
    }
}

/// The `ToolUse` blocks, in order.
pub open spec fn spec_tool_use_blocks(blocks: Seq<ContentBlockV>) -> Seq<ContentBlockV>
    decreases blocks.len(),
{
    if blocks.len() == 0 {
        Seq::empty()
    } else {
        let rest = spec_tool_use_blocks(blocks.drop_last());
        match blocks.last() {
            ContentBlockV::ToolUse { .. } => rest.push(blocks.last()),
            _ => rest,
        }
    }
}

impl MessagesResponse {
    /// All text content, concatenated.
    pub fn text(&self) -> (r: String)
        ensures
            r@ == join_with(spec_text_parts(self@.content), Seq::empty()),
    {
        let mut parts: Vec<String> = Vec::new();
        let mut i: usize = 0;
        while i < self.content.len()
            invariant
                i <= self.content.len(),
                self.content.deep_view().len() == self.content.len(),
                parts.deep_view() == spec_text_parts(self.content.deep_view().take(i as int)),
            decreases self.content.len() - i,
        {
            let ghost dv = self.content.deep_view();
            proof {
                assert(dv.take(i + 1).drop_last() =~= dv.take(i as int));
                assert(dv.take(i + 1).last() == dv[i as int]);
            }
            match &self.content[i] {
                ContentBlock::Text { text } => {
                    parts.push(text.clone());
                    proof {
                        assert(parts.deep_view() =~= spec_text_parts(dv.take(i + 1)));
                    }
                },
                _ => {
                    proof {
                        assert(parts.deep_view() == spec_text_parts(dv.take(i + 1)));
                    }
                },
            }
            i += 1;
        }
        proof {
            assert(self.content.deep_view().take(self.content.len() as int)
                =~= self.content.deep_view());
            reveal_strlit("");
            assert(""@ =~= Seq::<char>::empty());
        }
        crate::strutil::join_strings(&parts, "")
    }

    /// All thinking content concatenated, or `None` when no block thinks.
    pub fn thinking_text(&self) -> (r: Option<String>)
        ensures
            match r {
                Some(t) => spec_thinking_parts(self@.content).len() > 0 && t@ == join_with(
                    spec_thinking_parts(self@.content),
                    Seq::empty(),
                ),
                None => spec_thinking_parts(self@.content).len() == 0,
            },
    {
        let mut parts: Vec<String> = Vec::new();
        let mut i: usize = 0;
        while i < self.content.len()
            invariant
                i <= self.content.len(),
                self.content.deep_view().len() == self.content.len(),
                parts.deep_view() == spec_thinking_parts(self.content.deep_view().take(i as int)),
            decreases self.content.len() - i,
        {
            let ghost dv = self.content.deep_view();
            proof {
                assert(dv.take(i + 1).drop_last() =~= dv.take(i as int));
                assert(dv.take(i + 1).last() == dv[i as int]);
            }
            match &self.content[i] {
                ContentBlock::Thinking { thinking, .. } => {
                    parts.push(thinking.clone());
                    proof {
                        assert(parts.deep_view() =~= spec_thinking_parts(dv.take(i + 1)));
                    }
                },
                _ => {
                    proof {
                        assert(parts.deep_view() == spec_thinking_parts(dv.take(i + 1)));
                    }
                },
            }
            i += 1;
        }
        proof {
            assert(self.content.deep_view().take(self.content.len() as int)
                =~= self.content.deep_view());
        }
        if parts.len() == 0 {
            None
        } else {
            proof {
                reveal_strlit("");
                assert(""@ =~= Seq::<char>::empty());
            }
            Some(crate::strutil::join_strings(&parts, ""))
        }
    }

    /// The stop reason, normalized.
    pub fn stop(&self) -> (r: StopReason)
        ensures
            r@ == spec_stop_from_anthropic(self@.stop_reason),
    {
        StopReason::from_anthropic(self.stop_reason.as_str())
    }

    /// Whether the model stopped to call tools.
    pub fn has_tool_use(&self) -> (r: bool)
        ensures
            r == (spec_stop_from_anthropic(self@.stop_reason) is ToolUse),
    {
        self.stop().is_tool_use()
    }

    /// The `ToolUse` blocks, in order.
    pub fn tool_uses(&self) -> (r: Vec<&ContentBlock>)
        ensures
            r.deep_view() == spec_tool_use_blocks(self@.content),
    {
        let mut out: Vec<&ContentBlock> = Vec::new();
        let mut i: usize = 0;
        while i < self.content.len()
            invariant
                i <= self.content.len(),
                self.content.deep_view().len() == self.content.len(),
                out.deep_view() == spec_tool_use_blocks(self.content.deep_view().take(i as int)),
            decreases self.content.len() - i,
        {
            let ghost dv = self.content.deep_view();
            proof {
                assert(dv.take(i + 1).drop_last() =~= dv.take(i as int));
                assert(dv.take(i + 1).last() == dv[i as int]);
            }
            let b = &self.content[i];
            match b {
                ContentBlock::ToolUse { .. } => {
                    out.push(b);
                    proof {
                        assert(out.deep_view() =~= spec_tool_use_blocks(dv.take(i + 1)));
                    }
                },
                _ => {
                    proof {
                        assert(out.deep_view() == spec_tool_use_blocks(dv.take(i + 1)));
                    }
                },
            }
            i += 1;
        }
        proof {
            assert(self.content.deep_view().take(self.content.len() as int)
                =~= self.content.deep_view());
        }
        out
    }
}

} // verus!
