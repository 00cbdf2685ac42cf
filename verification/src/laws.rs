//! Cross-converter laws: what holds when a message crosses to the flat
//! format and comes back.

use vstd::prelude::*;

use crate::anthropic::{spec_text_parts, MessageV};
use crate::openai::{
    ChatMessageV, InboundContentV, InboundFunctionV, InboundMessageV, InboundToolCallV,
};
use crate::strutil::join_with;
use crate::to_anthropic::{spec_msg_out, spec_role_msg, spec_text_block};
use crate::to_openai::spec_msg_to_chat;

verus! {

/// A flat chat message, read back as the permissive inbound shape: absent
/// content reads as null, and each tool call keeps its fields.
pub open spec fn chat_as_inbound(c: ChatMessageV) -> InboundMessageV {
    InboundMessageV {
        role: c.role,
        content: match c.content {
            Some(t) => InboundContentV::Text(t),
            None => InboundContentV::Null,
        },
        tool_calls: match c.tool_calls {
            Some(tcs) => Some(
                tcs.map(
                    |i: int, tc: crate::openai::ToolCallOutV|
                        InboundToolCallV {
                            id: tc.id,
                            function: InboundFunctionV {
                                name: tc.function.name,
                                arguments: tc.function.arguments,
                            },
                        },
                ),
            ),
            None => None,
        },
        tool_call_id: c.tool_call_id,
    }
}

/// Round trip: a structured message holding only `Text` blocks becomes one
/// flat message, and reading that flat message back yields one structured
/// message whose single text block holds the joined text exactly.
///
/// An assistant turn whose joined text is empty is excluded: the flat
/// format carries it as an absent content field, and the inbound reader
/// drops such an empty turn rather than inventing one.
pub proof fn lemma_text_round_trip(m: MessageV)
    requires
        forall|k: int| 0 <= k < m.content.len() ==> (#[trigger] m.content[k]) is Text,
        m.role == "user"@ || m.role == "assistant"@,
        m.role == "assistant"@ ==> join_with(spec_text_parts(m.content), "\n"@).len() > 0,
    ensures
        spec_msg_to_chat(m).len() == 1,
        spec_msg_out(chat_as_inbound(spec_msg_to_chat(m)[0])) == seq![
            spec_role_msg(
                m.role,
                seq![spec_text_block(join_with(spec_text_parts(m.content), "\n"@))],
            ),
        ],
{
    reveal_strlit("user");
    reveal_strlit("assistant");
    reveal_strlit("system");
    reveal_strlit("tool");
    assert("user"@.len() == 4);
    assert("assistant"@.len() == 9);
    assert("system"@.len() == 6);
    assert("tool"@.len() == 4);
    assert("user"@[0] == 'u');
    assert("tool"@[0] == 't');
    let joined = join_with(spec_text_parts(m.content), "\n"@);
    if m.role == "assistant"@ {
        lemma_no_tool_calls(m.content);
        assert(spec_text_parts(m.content).len() > 0) by {
            if spec_text_parts(m.content).len() == 0 {
                assert(joined.len() == 0);
            }
        }
        let flat = spec_msg_to_chat(m)[0];
        assert(flat.content == Some(joined));
        assert(flat.tool_calls is None);
        let inb = chat_as_inbound(flat);
        let back = spec_msg_out(inb);
        assert(back =~= seq![spec_role_msg(m.role, seq![spec_text_block(joined)])]);
    } else {
        lemma_no_tool_results(m.content);
        let flat = spec_msg_to_chat(m)[0];
        assert(flat.content == Some(joined));
        let inb = chat_as_inbound(flat);
        let back = spec_msg_out(inb);
        assert(back =~= seq![spec_role_msg(m.role, seq![spec_text_block(joined)])]);
    }
}

/// A run of text blocks yields no tool calls.
proof fn lemma_no_tool_calls(blocks: Seq<crate::anthropic::ContentBlockV>)
    requires
        forall|k: int| 0 <= k < blocks.len() ==> (#[trigger] blocks[k]) is Text,
    ensures
        crate::to_openai::spec_tool_calls(blocks).len() == 0,
    decreases blocks.len(),
{
    if blocks.len() > 0 {
        assert(forall|k: int|
            0 <= k < blocks.len() - 1 ==> (#[trigger] blocks.drop_last()[k]) == blocks[k]);
        lemma_no_tool_calls(blocks.drop_last());
    }
}

/// A run of text blocks holds no tool result.
proof fn lemma_no_tool_results(blocks: Seq<crate::anthropic::ContentBlockV>)
    requires
        forall|k: int| 0 <= k < blocks.len() ==> (#[trigger] blocks[k]) is Text,
    ensures
        !crate::to_openai::spec_has_tool_result(blocks),
{
}

} // verus!
