//! The converters between the structured content-block format and the flat
//! chat format, in both directions.

use vstd::prelude::*;

use crate::anthropic::{
    spec_text_parts, spec_thinking_parts, ContentBlock, ContentBlockV, Message, MessageV,
    MessagesResponse, MessagesResponseV,
};
use crate::common::{
    spec_stop_from_anthropic, spec_stop_from_openai, spec_stop_to_anthropic, spec_stop_to_openai,
    StopReason, ToolDefinition, Usage,
};
use crate::json::{json_clone, Json, JsonModel};
use crate::jsontext::{json_of, json_to_text, parse_json_text, text_of};
use crate::openai::{
    ChatMessage, ChatMessageV, ChatResponse, ChatResponseV, Choice, ChoiceV, ResponseMessage,
    ResponseMessageV, ResponseToolCall, ResponseToolCallFunction, ResponseToolCallFunctionV,
    ResponseToolCallV, ResponseUsage, Tool, ToolCallFunction, ToolCallFunctionV, ToolCallOut,
    ToolCallOutV, ToolFunction, ToolFunctionV, ToolV,
};
use crate::strutil::{join_strings, join_with, str_eq};
use crate::views::{lemma_dv_eq, lemma_dv_seq_drop_last, lemma_dv_seq_push};

verus! {

broadcast use vstd::std_specs::vec::group_vec_axioms, vstd::seq::group_seq_axioms;

/// The flat tool calls of a run of blocks: one per `ToolUse` block, its
/// input serialized to JSON text.
pub open spec fn spec_tool_calls(blocks: Seq<ContentBlockV>) -> Seq<ToolCallOutV>
    decreases blocks.len(),
{
    if blocks.len() == 0 {
        Seq::empty()
    } else {
        let rest = spec_tool_calls(blocks.drop_last());
        match blocks.last() {
            ContentBlockV::ToolUse { id, name, input } => rest.push(
                ToolCallOutV {
                    id: id,
                    call_type: "function"@,
                    function: ToolCallFunctionV { name: name, arguments: text_of(input) },
                },
            ),
            _ => rest,
        }
    }
}

/// Whether any block is a tool result.
pub open spec fn spec_has_tool_result(blocks: Seq<ContentBlockV>) -> bool {
    exists|k: int| 0 <= k < blocks.len() && #[trigger] blocks[k] is ToolResult
}

/// One flat `tool` message per tool-result block.
pub open spec fn spec_tool_result_msgs(blocks: Seq<ContentBlockV>) -> Seq<ChatMessageV>
    decreases blocks.len(),
{
    if blocks.len() == 0 {
        Seq::empty()
    } else {
        let rest = spec_tool_result_msgs(blocks.drop_last());
        match blocks.last() {
            ContentBlockV::ToolResult { tool_use_id, content, .. } => rest.push(
                ChatMessageV {
                    role: "tool"@,
                    content: Some(content),
                    tool_calls: None,
                    tool_call_id: Some(tool_use_id),
                },
            ),
            _ => rest,
        }
    }
}

/// The flat messages one structured message becomes.
pub open spec fn spec_msg_to_chat(m: MessageV) -> Seq<ChatMessageV> {
    if m.role == "assistant"@ {
        let texts = spec_text_parts(m.content);
        let tcs = spec_tool_calls(m.content);
        seq![
            ChatMessageV {
                role: "assistant"@,
                content: if texts.len() == 0 {
                    None
                } else {
                    Some(join_with(texts, "\n"@))
                },
                tool_calls: if tcs.len() == 0 {
                    None
                } else {
                    Some(tcs)
                },
                tool_call_id: None,
            },
        ]
    } else if m.role == "user"@ {
        if spec_has_tool_result(m.content) {
            spec_tool_result_msgs(m.content)
        } else {
            seq![
                ChatMessageV {
                    role: "user"@,
                    content: Some(join_with(spec_text_parts(m.content), "\n"@)),
                    tool_calls: None,
                    tool_call_id: None,
                },
            ]
        }
    } else {
        Seq::empty()
    }
}

pub open spec fn spec_flat_msgs(msgs: Seq<MessageV>) -> Seq<ChatMessageV>
    decreases msgs.len(),
{
    if msgs.len() == 0 {
        Seq::empty()
    } else {
        spec_flat_msgs(msgs.drop_last()) + spec_msg_to_chat(msgs.last())
    }
}

/// What the structured-to-flat conversion yields: an optional leading
/// system message, then each message's flat form in order.
pub open spec fn spec_messages_to_openai(
    system: Option<Seq<char>>,
    msgs: Seq<MessageV>,
) -> Seq<ChatMessageV> {
    (match system {
        Some(s) => seq![
            ChatMessageV { role: "system"@, content: Some(s), tool_calls: None, tool_call_id: None },
        ],
        None => Seq::empty(),
    }) + spec_flat_msgs(msgs)
}

/// The text payloads of the `Text` blocks, as owned strings.
fn collect_text_parts(blocks: &Vec<ContentBlock>) -> (r: Vec<String>)
    ensures
        r.deep_view() == spec_text_parts(blocks.deep_view()),
{
    let ghost dv = blocks.deep_view();
    let mut parts: Vec<String> = Vec::new();
    let mut i: usize = 0;
    while i < blocks.len()
        invariant
            dv == blocks.deep_view(),
            dv.len() == blocks@.len(),
            i <= blocks@.len(),
            parts.deep_view() == spec_text_parts(dv.take(i as int)),
        decreases blocks@.len() - i,
    {
        proof {
            assert(dv.take(i + 1).drop_last() =~= dv.take(i as int));
            assert(dv.take(i + 1).last() == dv[i as int]);
            assert(dv[i as int] == blocks@[i as int].deep_view());
        }
        match &blocks[i] {
            ContentBlock::Text { text } => {
                parts.push(text.clone());
                proof {
                    assert(parts.deep_view() =~= spec_text_parts(dv.take(i + 1)));
                }
            },
            _ => {
                proof {
                    assert(parts.deep_view() == spec_text_parts(dv.take(i + 1)));
                }
            },
        }
        i += 1;
    }
    proof {
        assert(dv.take(blocks@.len() as int) =~= dv);
    }
    parts
}

/// The thinking payloads of the `Thinking` blocks, as owned strings.
fn collect_thinking_parts(blocks: &Vec<ContentBlock>) -> (r: Vec<String>)
    ensures
        r.deep_view() == spec_thinking_parts(blocks.deep_view()),
{
    let ghost dv = blocks.deep_view();
    let mut parts: Vec<String> = Vec::new();
    let mut i: usize = 0;
    while i < blocks.len()
        invariant
            dv == blocks.deep_view(),
            dv.len() == blocks@.len(),
            i <= blocks@.len(),
            parts.deep_view() == spec_thinking_parts(dv.take(i as int)),
        decreases blocks@.len() - i,
    {
        proof {
            assert(dv.take(i + 1).drop_last() =~= dv.take(i as int));
            assert(dv.take(i + 1).last() == dv[i as int]);
            assert(dv[i as int] == blocks@[i as int].deep_view());
        }
        match &blocks[i] {
            ContentBlock::Thinking { thinking, .. } => {
                parts.push(thinking.clone());
                proof {
                    assert(parts.deep_view() =~= spec_thinking_parts(dv.take(i + 1)));
                }
            },
            _ => {
                proof {
                    assert(parts.deep_view() == spec_thinking_parts(dv.take(i + 1)));
                }
            },
        }
        i += 1;
    }
    proof {
        assert(dv.take(blocks@.len() as int) =~= dv);
    }
    parts
}

/// The flat tool calls of a run of blocks.
fn collect_tool_calls(blocks: &Vec<ContentBlock>) -> (r: Vec<ToolCallOut>)
    ensures
        r.deep_view() == spec_tool_calls(blocks.deep_view()),
{
    let ghost dv = blocks.deep_view();
    let mut out: Vec<ToolCallOut> = Vec::new();
    let mut i: usize = 0;
    while i < blocks.len()
        invariant
            dv == blocks.deep_view(),
            dv.len() == blocks@.len(),
            i <= blocks@.len(),
            out.deep_view() == spec_tool_calls(dv.take(i as int)),
        decreases blocks@.len() - i,
    {
        proof {
            assert(dv.take(i + 1).drop_last() =~= dv.take(i as int));
            assert(dv.take(i + 1).last() == dv[i as int]);
            assert(dv[i as int] == blocks@[i as int].deep_view());
        }
        match &blocks[i] {
            ContentBlock::ToolUse { id, name, input } => {
                let args = json_to_text(input);
                out.push(
                    ToolCallOut {
                        id: id.clone(),
                        call_type: String::from_str("function"),
                        function: ToolCallFunction { name: name.clone(), arguments: args },
                    },
                );
                proof {
                    assert(out.deep_view() =~= spec_tool_calls(dv.take(i + 1)));
                }
            },
            _ => {
                proof {
                    assert(out.deep_view() == spec_tool_calls(dv.take(i + 1)));
                }
            },
        }
        i += 1;
    }
    proof {
        assert(dv.take(blocks@.len() as int) =~= dv);
    }
    out
}

/// Whether any block is a tool result.
fn has_tool_result(blocks: &Vec<ContentBlock>) -> (r: bool)
    ensures
        r == spec_has_tool_result(blocks.deep_view()),
{
    let ghost dv = blocks.deep_view();
    let mut i: usize = 0;
    while i < blocks.len()
        invariant
            dv == blocks.deep_view(),
            dv.len() == blocks@.len(),
            i <= blocks@.len(),
            forall|k: int| 0 <= k < i ==> !(#[trigger] dv[k] is ToolResult),
        decreases blocks@.len() - i,
    {
        proof {
            assert(dv[i as int] == blocks@[i as int].deep_view());
        }
        match &blocks[i] {
            ContentBlock::ToolResult { .. } => {
                proof {
                    assert(dv[i as int] is ToolResult);
                }
                return true;
            },
            _ => {},
        }
        i += 1;
    }
    false
}

/// Convert structured messages and an optional system prompt to the flat
/// chat format.
///
/// The system prompt leads as a `system` message. Assistant text joins by
/// newline into `content` and tool uses become the tool-call array; a user
/// turn carrying tool results expands to one `tool` message per result;
/// other user text joins by newline into one `user` message. Thinking
/// blocks are dropped, and roles outside `user`/`assistant` emit nothing.
pub fn messages_to_openai(system: Option<&str>, messages: &Vec<Message>) -> (r: Vec<ChatMessage>)
    ensures
        r.deep_view() == spec_messages_to_openai(
            match system {
                Some(s) => Some(s@),
                None => None,
            },
            messages.deep_view(),
        ),
{
    let ghost sysv: Option<Seq<char>> = match system {
        Some(s) => Some(s@),
        None => None,
    };
    let ghost mdv = messages.deep_view();
    let ghost pfx: Seq<ChatMessageV> = match sysv {
        Some(s) => seq![
            ChatMessageV { role: "system"@, content: Some(s), tool_calls: None, tool_call_id: None },
        ],
        None => Seq::empty(),
    };
    let mut out: Vec<ChatMessage> = Vec::new();
    match system {
        Some(s) => {
            out.push(ChatMessage::system(String::from_str(s)));
            proof {
                assert(out.deep_view() =~= pfx);
            }
        },
        None => {
            proof {
                assert(out.deep_view() =~= pfx);
            }
        },
    }
    let mut i: usize = 0;
    while i < messages.len()
        invariant
            mdv == messages.deep_view(),
            mdv.len() == messages@.len(),
            i <= messages@.len(),
            out.deep_view() == pfx + spec_flat_msgs(mdv.take(i as int)),
        decreases messages@.len() - i,
    {
        proof {
            assert(mdv.take(i + 1).drop_last() =~= mdv.take(i as int));
            assert(mdv.take(i + 1).last() == mdv[i as int]);
            assert(mdv[i as int] == messages@[i as int].deep_view());
        }
        let ghost mv = mdv[i as int];
        let m = &messages[i];
        if str_eq(m.role.as_str(), "assistant") {
            let texts = collect_text_parts(&m.content);
            let tcs = collect_tool_calls(&m.content);
            let content_str: Option<String> = if texts.len() == 0 {
                None
            } else {
                Some(join_strings(&texts, "\n"))
            };
            let tc_opt: Option<Vec<ToolCallOut>> = if tcs.len() == 0 {
                None
            } else {
                Some(tcs)
            };
            let cm = ChatMessage {
                role: String::from_str("assistant"),
                content: content_str,
                tool_calls: tc_opt,
                tool_call_id: None,
            };
            let ghost cmv = cm.deep_view();
            let ghost oseq = out@;
            proof {
                lemma_dv_eq(&out);
            }
            let ghost oprev = out.deep_view();
            out.push(cm);
            proof {
                lemma_dv_eq(&out);
                lemma_dv_seq_push(oseq, cm);
                assert(out.deep_view() == oprev.push(cmv));
                assert(cmv == spec_msg_to_chat(mv)[0]);
                assert(spec_msg_to_chat(mv) =~= seq![cmv]);
                assert(out.deep_view() =~= pfx + spec_flat_msgs(mdv.take(i + 1)));
            }
        } else if str_eq(m.role.as_str(), "user") {
            if has_tool_result(&m.content) {
                let ghost bdv = m.content.deep_view();
                let blocks = &m.content;
                let mut j: usize = 0;
                while j < blocks.len()
                    invariant
                        mdv == messages.deep_view(),
                        mdv.len() == messages@.len(),
                        i < messages@.len(),
                        mv == mdv[i as int],
                        mv.role == "user"@,
                        spec_has_tool_result(mv.content),
                        bdv == blocks.deep_view(),
                        bdv == mv.content,
                        bdv.len() == blocks@.len(),
                        j <= blocks@.len(),
                        out.deep_view() == pfx + spec_flat_msgs(mdv.take(i as int))
                            + spec_tool_result_msgs(bdv.take(j as int)),
                    decreases blocks@.len() - j,
                {
                    proof {
                        assert(bdv.take(j + 1).drop_last() =~= bdv.take(j as int));
                        assert(bdv.take(j + 1).last() == bdv[j as int]);
                        assert(bdv[j as int] == blocks@[j as int].deep_view());
                    }
                    match &blocks[j] {
                        ContentBlock::ToolResult { tool_use_id, content, .. } => {
                            let cm = ChatMessage::tool_result(tool_use_id.clone(), content.clone());
                            let ghost cmv = cm.deep_view();
                            let ghost oseq = out@;
                            proof {
                                lemma_dv_eq(&out);
                            }
                            let ghost oprev = out.deep_view();
                            out.push(cm);
                            proof {
                                lemma_dv_eq(&out);
                                lemma_dv_seq_push(oseq, cm);
                                assert(out.deep_view() == oprev.push(cmv));
                                assert(spec_tool_result_msgs(bdv.take(j + 1))
                                    =~= spec_tool_result_msgs(bdv.take(j as int)).push(cmv));
                                assert(out.deep_view() =~= pfx + spec_flat_msgs(
                                    mdv.take(i as int),
                                ) + spec_tool_result_msgs(bdv.take(j + 1)));
                            }
                        },
                        _ => {
                            proof {
                                assert(out.deep_view() == pfx + spec_flat_msgs(mdv.take(i as int))
                                    + spec_tool_result_msgs(bdv.take(j + 1)));
                            }
                        },
                    }
                    j += 1;
                }
                proof {
                    assert(bdv.take(blocks@.len() as int) =~= bdv);
                    assert(out.deep_view() =~= pfx + spec_flat_msgs(mdv.take(i + 1)));
                }
            } else {
                let texts = collect_text_parts(&m.content);
                let cm = ChatMessage::user(join_strings(&texts, "\n"));
                let ghost cmv = cm.deep_view();
                let ghost oseq = out@;
                proof {
                    lemma_dv_eq(&out);
                }
                let ghost oprev = out.deep_view();
                out.push(cm);
                proof {
                    lemma_dv_eq(&out);
                    lemma_dv_seq_push(oseq, cm);
                    assert(out.deep_view() == oprev.push(cmv));
                    assert(cmv == spec_msg_to_chat(mv)[0]);
                    assert(spec_msg_to_chat(mv) =~= seq![cmv]);
                    assert(out.deep_view() =~= pfx + spec_flat_msgs(mdv.take(i + 1)));
                }
            }
        } else {
            proof {
                assert(spec_msg_to_chat(mv) =~= Seq::<ChatMessageV>::empty());
                assert(out.deep_view() =~= pfx + spec_flat_msgs(mdv.take(i + 1)));
            }
        }
        i += 1;
    }
    proof {
        assert(mdv.take(messages@.len() as int) =~= mdv);
    }
    out
}

/// The flat tool declaration of one provider-agnostic definition.
pub open spec fn spec_tool_to_openai(t: crate::common::ToolDefinitionV) -> ToolV {
    ToolV {
        tool_type: "function"@,
        function: ToolFunctionV {
            name: t.name,
            description: t.description,
            parameters: t.input_schema,
        },
    }
}

pub open spec fn spec_tools_to_openai(ts: Seq<crate::common::ToolDefinitionV>) -> Seq<ToolV>
    decreases ts.len(),
{
    if ts.len() == 0 {
        Seq::empty()
    } else {
        spec_tools_to_openai(ts.drop_last()).push(spec_tool_to_openai(ts.last()))
    }
}

/// Convert provider-agnostic tool definitions to the flat declaration
/// shape, wrapping each under a `function` envelope.
pub fn tools_to_openai(tools: &Vec<ToolDefinition>) -> (r: Vec<Tool>)
    ensures
        r.deep_view() == spec_tools_to_openai(tools.deep_view()),
{
    let ghost dv = tools.deep_view();
    let mut out: Vec<Tool> = Vec::new();
    let mut i: usize = 0;
    while i < tools.len()
        invariant
            dv == tools.deep_view(),
            dv.len() == tools@.len(),
            i <= tools@.len(),
            out.deep_view() == spec_tools_to_openai(dv.take(i as int)),
        decreases tools@.len() - i,
    {
        proof {
            assert(dv.take(i + 1).drop_last() =~= dv.take(i as int));
            assert(dv.take(i + 1).last() == dv[i as int]);
            assert(dv[i as int] == tools@[i as int].deep_view());
        }
        let t = &tools[i];
        out.push(
            Tool {
                tool_type: String::from_str("function"),
                function: ToolFunction {
                    name: t.name.clone(),
                    description: t.description.clone(),
                    parameters: json_clone(&t.input_schema),
                },
            },
        );
        proof {
            assert(out.deep_view() =~= spec_tools_to_openai(dv.take(i + 1)));
        }
        i += 1;
    }
    proof {
        assert(dv.take(tools@.len() as int) =~= dv);
    }
    out
}

/// The tool-call arguments as a tree: the parse of the text, or an empty
/// object when the text is not JSON.
pub open spec fn spec_args_json(s: Seq<char>) -> JsonModel {
    match json_of(s) {
        Some(m) => m,
        None => JsonModel::Obj(Seq::empty()),
    }
}

/// The structured blocks of a flat response message: non-empty text first,
/// then one `ToolUse` block per tool call.
pub open spec fn spec_resp_tool_uses(tcs: Seq<ResponseToolCallV>) -> Seq<ContentBlockV>
    decreases tcs.len(),
{
    if tcs.len() == 0 {
        Seq::empty()
    } else {
        spec_resp_tool_uses(tcs.drop_last()).push(
            ContentBlockV::ToolUse {
                id: tcs.last().id,
                name: tcs.last().function.name,
                input: spec_args_json(tcs.last().function.arguments),
            },
        )
    }
}

pub open spec fn spec_response_content(msg: ResponseMessageV) -> Seq<ContentBlockV> {
    (match msg.content {
        Some(t) => if t.len() > 0 {
            seq![ContentBlockV::Text { text: t }]
        } else {
            Seq::empty()
        },
        None => Seq::empty(),
    }) + (match msg.tool_calls {
        Some(tcs) => spec_resp_tool_uses(tcs),
        None => Seq::empty(),
    })
}

/// What normalizing a flat response yields, when it has a choice.
pub open spec fn spec_response_to_anthropic(rv: ChatResponseV) -> MessagesResponseV
    recommends
        rv.choices.len() > 0,
{
    MessagesResponseV {
        id: rv.id,
        model: rv.model,
        content: spec_response_content(rv.choices[0].message),
        stop_reason: spec_stop_to_anthropic(
            spec_stop_from_openai(
                match rv.choices[0].finish_reason {
                    Some(f) => f,
                    None => "stop"@,
                },
            ),
        ),
        usage: match rv.usage {
            Some(u) => Some(
                Usage {
                    input_tokens: u.prompt_tokens,
                    output_tokens: u.completion_tokens,
                    cache_creation_input_tokens: u.cache_creation_input_tokens,
                    cache_read_input_tokens: u.cache_read_input_tokens,
                },
            ),
            None => None,
        },
    }
}

/// One `ToolUse` block per flat tool call, malformed arguments degrading to
/// an empty object.
fn resp_tool_uses(tcs: Vec<ResponseToolCall>) -> (r: Vec<ContentBlock>)
    ensures
        r.deep_view() == spec_resp_tool_uses(tcs.deep_view()),
    decreases tcs@.len(),
{
    let ghost tv = tcs.deep_view();
    let ghost orig = tcs@;
    proof {
        lemma_dv_eq(&tcs);
    }
    let mut rest = tcs;
    let last = rest.pop();
    match last {
        None => {
            proof {
                assert(tv =~= Seq::empty());
            }
            Vec::new()
        },
        Some(tc) => {
            proof {
                lemma_dv_eq(&rest);
                assert(rest@ =~= orig.drop_last());
                lemma_dv_seq_drop_last(orig);
                assert(rest.deep_view() == tv.drop_last());
                assert(tc.deep_view() == tv.last());
            }
            let mut r = resp_tool_uses(rest);
            let input = match parse_json_text(tc.function.arguments.as_str()) {
                Some(j) => j,
                None => {
                    let empty: Vec<(String, Json)> = Vec::new();
                    proof {
                        crate::json::lemma_obj_view(empty);
                        assert(empty.deep_view() =~= Seq::<(Seq<char>, JsonModel)>::empty());
                    }
                    Json::Obj(empty)
                },
            };
            let cb = ContentBlock::ToolUse { id: tc.id, name: tc.function.name, input };
            let ghost rseq = r@;
            proof {
                lemma_dv_eq(&r);
            }
            let ghost rprev = r.deep_view();
            r.push(cb);
            proof {
                lemma_dv_eq(&r);
                lemma_dv_seq_push(rseq, cb);
                assert(r.deep_view() == rprev.push(cb@));
                assert(cb@ == spec_resp_tool_uses(tv).last());
                assert(r.deep_view() =~= spec_resp_tool_uses(tv));
            }
            r
        },
    }
}

/// Normalize a flat chat response into the structured format.
///
/// Only the first choice counts; a response with no choices is an error.
/// Non-empty text becomes one `Text` block, each tool call a `ToolUse`
/// block whose arguments parse as JSON, an empty object when they do not.
/// The finish reason is normalized through the shared stop-reason table.
pub fn response_to_anthropic(resp: ChatResponse) -> (r: Result<MessagesResponse, String>)
    ensures
        match r {
            Ok(out) => resp@.choices.len() > 0 && out@ == spec_response_to_anthropic(resp@),
            Err(e) => resp@.choices.len() == 0 && e@ == "OpenAI response had no choices"@,
        },
{
    let ghost rv = resp.deep_view();
    if resp.choices.len() == 0 {
        proof {
            assert(rv.choices.len() == 0);
        }
        return Err(String::from_str("OpenAI response had no choices"));
    }
    let mut choices = resp.choices;
    proof {
        lemma_dv_eq(&choices);
    }
    let choice = choices.remove(0);
    proof {
        assert(choice.deep_view() == rv.choices[0]);
    }
    let mut content: Vec<ContentBlock> = Vec::new();
    let ghost tpart: Seq<ContentBlockV> = match rv.choices[0].message.content {
        Some(t) => if t.len() > 0 {
            seq![ContentBlockV::Text { text: t }]
        } else {
            Seq::empty()
        },
        None => Seq::empty(),
    };
    match choice.message.content {
        Some(text) => {
            if !text.as_str().is_empty() {
                content.push(ContentBlock::Text { text });
            }
        },
        None => {},
    }
    proof {
        assert(content.deep_view() =~= tpart);
    }
    match choice.message.tool_calls {
        Some(tcs) => {
            let ghost tcsv = tcs.deep_view();
            let mut tus = resp_tool_uses(tcs);
            let ghost cprev = content@;
            proof {
                lemma_dv_eq(&content);
                lemma_dv_eq(&tus);
            }
            let ghost tusq = tus@;
            content.append(&mut tus);
            proof {
                lemma_dv_eq(&content);
                crate::views::lemma_dv_seq_append(cprev, tusq);
                assert(content.deep_view() =~= spec_response_content(rv.choices[0].message));
            }
        },
        None => {
            proof {
                assert(content.deep_view() =~= spec_response_content(rv.choices[0].message));
            }
        },
    }
    let finish = match &choice.finish_reason {
        Some(f) => f.as_str(),
        None => "stop",
    };
    let stop_reason = String::from_str(StopReason::from_openai(finish).to_anthropic());
    let usage = match resp.usage {
        Some(u) => Some(
            Usage {
                input_tokens: u.prompt_tokens,
                output_tokens: u.completion_tokens,
                cache_creation_input_tokens: u.cache_creation_input_tokens,
                cache_read_input_tokens: u.cache_read_input_tokens,
            },
        ),
        None => None,
    };
    Ok(
        MessagesResponse {
            id: resp.id,
            model: resp.model,
            content,
            stop_reason,
            usage,
        },
    )
}

/// The flat tool calls of a structured response's `ToolUse` blocks.
pub open spec fn spec_out_tool_calls(blocks: Seq<ContentBlockV>) -> Seq<ResponseToolCallV>
    decreases blocks.len(),
{
    if blocks.len() == 0 {
        Seq::empty()
    } else {
        let rest = spec_out_tool_calls(blocks.drop_last());
        match blocks.last() {
            ContentBlockV::ToolUse { id, name, input } => rest.push(
                ResponseToolCallV {
                    id: id,
                    call_type: Some("function"@),
                    function: ResponseToolCallFunctionV { name: name, arguments: text_of(input) },
                },
            ),
            _ => rest,
        }
    }
}

/// The one synthesized choice of the reverse conversion.
pub open spec fn spec_out_choice(rv: MessagesResponseV) -> ChoiceV {
    let texts = spec_text_parts(rv.content);
    let thinks = spec_thinking_parts(rv.content);
    let tcs = spec_out_tool_calls(rv.content);
    ChoiceV {
        index: Some(0),
        message: ResponseMessageV {
            role: Some("assistant"@),
            content: if texts.len() == 0 {
                None
            } else {
                Some(join_with(texts, Seq::empty()))
            },
            reasoning_content: if thinks.len() == 0 {
                None
            } else {
                Some(join_with(thinks, Seq::empty()))
            },
            tool_calls: if tcs.len() == 0 {
                None
            } else {
                Some(tcs)
            },
        },
        finish_reason: Some(spec_stop_to_openai(spec_stop_from_anthropic(rv.stop_reason))),
    }
}

/// Relies on std::time::SystemTime::now and duration_since: the seconds
/// since the Unix epoch, `0` for a clock reading before it. The value
/// depends on the clock, so nothing is claimed of it.
#[verifier::external_body]
fn unix_now() -> u64 {
    match std::time::SystemTime::now().duration_since(std::time::UNIX_EPOCH) {
        Ok(d) => d.as_secs(),
        Err(_) => 0,
    }
}

/// The `ToolUse` blocks as flat response tool calls.
fn collect_out_tool_calls(blocks: &Vec<ContentBlock>) -> (r: Vec<ResponseToolCall>)
    ensures
        r.deep_view() == spec_out_tool_calls(blocks.deep_view()),
{
    let ghost dv = blocks.deep_view();
    let mut out: Vec<ResponseToolCall> = Vec::new();
    let mut i: usize = 0;
    while i < blocks.len()
        invariant
            dv == blocks.deep_view(),
            dv.len() == blocks@.len(),
            i <= blocks@.len(),
            out.deep_view() == spec_out_tool_calls(dv.take(i as int)),
        decreases blocks@.len() - i,
    {
        proof {
            assert(dv.take(i + 1).drop_last() =~= dv.take(i as int));
            assert(dv.take(i + 1).last() == dv[i as int]);
            assert(dv[i as int] == blocks@[i as int].deep_view());
        }
        match &blocks[i] {
            ContentBlock::ToolUse { id, name, input } => {
                let args = json_to_text(input);
                out.push(
                    ResponseToolCall {
                        id: id.clone(),
                        call_type: Some(String::from_str("function")),
                        function: ResponseToolCallFunction { name: name.clone(), arguments: args },
                    },
                );
                proof {
                    assert(out.deep_view() =~= spec_out_tool_calls(dv.take(i + 1)));
                }
            },
            _ => {
                proof {
                    assert(out.deep_view() == spec_out_tool_calls(dv.take(i + 1)));
                }
            },
        }
        i += 1;
    }
    proof {
        assert(dv.take(blocks@.len() as int) =~= dv);
    }
    out
}

/// Convert a structured response to the flat response shape, for the
/// reverse proxy direction.
///
/// Text joins into `content`, thinking into the `reasoning_content`
/// extension, tool uses into the tool-call array; the envelope carries the
/// identifier through, a fixed object tag, one choice at index zero, and
/// the current wall-clock time, of which nothing further is promised.
pub fn anthropic_response_to_openai(resp: MessagesResponse) -> (r: ChatResponse)
    requires
        match resp.usage {
            Some(u) => u.input_tokens + u.output_tokens <= u64::MAX,
            None => true,
        },
    ensures
        r@.id == resp@.id,
        r@.object == Some("chat.completion"@),
        r@.model == resp@.model,
        r@.choices =~= seq![spec_out_choice(resp@)],
        r@.usage == match resp.usage {
            Some(u) => Some(
                ResponseUsage {
                    prompt_tokens: u.input_tokens,
                    completion_tokens: u.output_tokens,
                    total_tokens: (u.input_tokens + u.output_tokens) as u64,
                    cache_creation_input_tokens: u.cache_creation_input_tokens,
                    cache_read_input_tokens: u.cache_read_input_tokens,
                },
            ),
            None => None,
        },
{
    let ghost rv = resp.deep_view();
    let texts = collect_text_parts(&resp.content);
    let thinks = collect_thinking_parts(&resp.content);
    let tcs = collect_out_tool_calls(&resp.content);
    let content: Option<String> = if texts.len() == 0 {
        None
    } else {
        proof {
            reveal_strlit("");
            assert(""@ =~= Seq::<char>::empty());
        }
        Some(join_strings(&texts, ""))
    };
    let reasoning_content: Option<String> = if thinks.len() == 0 {
        None
    } else {
        proof {
            reveal_strlit("");
            assert(""@ =~= Seq::<char>::empty());
        }
        Some(join_strings(&thinks, ""))
    };
    let finish_reason = String::from_str(
        StopReason::from_anthropic(resp.stop_reason.as_str()).to_openai(),
    );
    let tc_opt: Option<Vec<ResponseToolCall>> = if tcs.len() == 0 {
        None
    } else {
        Some(tcs)
    };
    let usage = match resp.usage {
        Some(u) => Some(
            ResponseUsage {
                prompt_tokens: u.input_tokens,
                completion_tokens: u.output_tokens,
                total_tokens: u.input_tokens + u.output_tokens,
                cache_creation_input_tokens: u.cache_creation_input_tokens,
                cache_read_input_tokens: u.cache_read_input_tokens,
            },
        ),
        None => None,
    };
    let choice = Choice {
        index: Some(0),
        message: ResponseMessage {
            role: Some(String::from_str("assistant")),
            content,
            reasoning_content,
            tool_calls: tc_opt,
        },
        finish_reason: Some(finish_reason),
    };
    let ghost chv = choice.deep_view();
    let mut choices: Vec<Choice> = Vec::new();
    choices.push(choice);
    proof {
        assert(chv == spec_out_choice(rv));
        assert(choices.deep_view() =~= seq![spec_out_choice(rv)]);
    }
    ChatResponse {
        id: resp.id,
        object: Some(String::from_str("chat.completion")),
        created: Some(unix_now()),
        model: resp.model,
        choices,
        usage,
    }
}

} // verus!
