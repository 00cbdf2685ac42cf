//! The inbound converter: a permissive flat chat request, as a proxy
//! receives it, reshaped into a structured-format request body.

use vstd::prelude::*;

use crate::json::{lemma_arr_view, lemma_obj_view, Json, JsonModel};
use crate::jsontext::parse_json_text;
use crate::openai::{
    InboundChatRequest, InboundChatRequestV, InboundContent, InboundContentPart,
    InboundContentPartV, InboundContentV, InboundMessage, InboundMessageV, InboundToolCall,
    InboundToolCallV,
};
use crate::strutil::{
    find_char, join_strings, join_with, spec_dec_text, spec_find, spec_starts_with, str_eq,
    u32_to_dec, ends_with, spec_ends_with, starts_with,
};
use crate::to_openai::spec_args_json;
use crate::views::{lemma_dv_eq, lemma_dv_seq_push};

verus! {

broadcast use vstd::std_specs::vec::group_vec_axioms, vstd::seq::group_seq_axioms;

/// What splitting a `data:` URL yields: the media type and the payload,
/// split on the first comma, the media type shorn of its `;base64` marker;
/// nothing when any of those parts is missing.
pub open spec fn spec_parse_data_url(u: Seq<char>) -> Option<(Seq<char>, Seq<char>)> {
    if !spec_starts_with(u, "data:"@) {
        None
    } else {
        let rest = u.skip("data:"@.len() as int);
        match spec_find(rest, ',') {
            Some(ci) => {
                let header = rest.subrange(0, ci);
                let data = rest.subrange(ci + 1, rest.len() as int);
                if spec_ends_with(header, ";base64"@) {
                    Some((header.subrange(0, header.len() - ";base64"@.len()), data))
                } else {
                    None
                }
            },
            None => None,
        }
    }
}

/// Split a `data:` URL into its media type and base64 payload.
pub fn parse_data_url(url: &str) -> (r: Option<(String, String)>)
    ensures
        match r {
            Some(p) => spec_parse_data_url(url@) == Some((p.0@, p.1@)),
            None => spec_parse_data_url(url@) is None,
        },
{
    if !starts_with(url, "data:") {
        return None;
    }
    let plen = "data:".unicode_len();
    let len = url.unicode_len();
    let rest = url.substring_char(plen, len);
    proof {
        assert(rest@ =~= url@.skip("data:"@.len() as int));
    }
    let rlen = rest.unicode_len();
    let ci = match find_char(rest, ',') {
        Some(ci) => ci,
        None => {
            return None;
        },
    };
    proof {
        crate::strutil::lemma_find(rest@, ',');
    }
    let header = rest.substring_char(0, ci);
    let data = rest.substring_char(ci + 1, rlen);
    if !ends_with(header, ";base64") {
        return None;
    }
    let blen = ";base64".unicode_len();
    let hlen = header.unicode_len();
    let media = header.substring_char(0, hlen - blen);
    Some((String::from_str(media), String::from_str(data)))
}

/// A `{"type": "text", "text": ...}` block.
pub open spec fn spec_text_block(t: Seq<char>) -> JsonModel {
    JsonModel::Obj(seq![("type"@, JsonModel::Str("text"@)), ("text"@, JsonModel::Str(t))])
}

/// An image block for an inline base64 payload.
pub open spec fn spec_image_block(media: Seq<char>, data: Seq<char>) -> JsonModel {
    JsonModel::Obj(
        seq![
            ("type"@, JsonModel::Str("image"@)),
            (
                "source"@,
                JsonModel::Obj(
                    seq![
                        ("type"@, JsonModel::Str("base64"@)),
                        ("media_type"@, JsonModel::Str(media)),
                        ("data"@, JsonModel::Str(data)),
                    ],
                ),
            ),
        ],
    )
}

/// A `tool_use` block.
pub open spec fn spec_tool_use_block(id: Seq<char>, name: Seq<char>, input: JsonModel) -> JsonModel {
    JsonModel::Obj(
        seq![
            ("type"@, JsonModel::Str("tool_use"@)),
            ("id"@, JsonModel::Str(id)),
            ("name"@, JsonModel::Str(name)),
            ("input"@, input),
        ],
    )
}

/// The text payloads of the `Text` parts, in order.
pub open spec fn spec_part_texts(ps: Seq<InboundContentPartV>) -> Seq<Seq<char>>
    decreases ps.len(),
{
    if ps.len() == 0 {
        Seq::empty()
    } else {
        let rest = spec_part_texts(ps.drop_last());
        match ps.last() {
            InboundContentPartV::Text { text } => rest.push(text),
            _ => rest,
        }
    }
}

/// The flattened text of inbound content, as the system field reads it.
pub open spec fn spec_content_text(c: InboundContentV) -> Seq<char> {
    match c {
        InboundContentV::Text(t) => t,
        InboundContentV::Parts(ps) => join_with(spec_part_texts(ps), Seq::empty()),
        InboundContentV::Null => Seq::empty(),
    }
}

/// The system-prompt blocks: one text block per system message whose
/// flattened text is non-empty.
pub open spec fn spec_system_parts(ms: Seq<InboundMessageV>) -> Seq<JsonModel>
    decreases ms.len(),
{
    if ms.len() == 0 {
        Seq::empty()
    } else {
        let rest = spec_system_parts(ms.drop_last());
        let m = ms.last();
        if m.role == "system"@ && spec_content_text(m.content).len() > 0 {
            rest.push(spec_text_block(spec_content_text(m.content)))
        } else {
            rest
        }
    }
}

/// The blocks a run of content parts becomes: text parts kept, `data:`
/// image URLs decoded, anything else dropped.
pub open spec fn spec_parts_blocks(ps: Seq<InboundContentPartV>) -> Seq<JsonModel>
    decreases ps.len(),
{
    if ps.len() == 0 {
        Seq::empty()
    } else {
        let rest = spec_parts_blocks(ps.drop_last());
        match ps.last() {
            InboundContentPartV::Text { text } => rest.push(spec_text_block(text)),
            InboundContentPartV::ImageUrl { url } => match spec_parse_data_url(url) {
                Some(p) => rest.push(spec_image_block(p.0, p.1)),
                None => rest,
            },
        }
    }
}

/// The text and image blocks of an assistant message's content.
pub open spec fn spec_assistant_text_blocks(c: InboundContentV) -> Seq<JsonModel> {
    match c {
        InboundContentV::Text(t) => if t.len() > 0 {
            seq![spec_text_block(t)]
        } else {
            Seq::empty()
        },
        InboundContentV::Parts(ps) => spec_parts_blocks(ps),
        InboundContentV::Null => Seq::empty(),
    }
}

/// The `tool_use` blocks of an assistant message's tool calls.
pub open spec fn spec_tool_call_blocks(tcs: Seq<InboundToolCallV>) -> Seq<JsonModel>
    decreases tcs.len(),
{
    if tcs.len() == 0 {
        Seq::empty()
    } else {
        spec_tool_call_blocks(tcs.drop_last()).push(
            spec_tool_use_block(
                tcs.last().id,
                tcs.last().function.name,
                spec_args_json(tcs.last().function.arguments),
            ),
        )
    }
}

pub open spec fn spec_assistant_blocks(m: InboundMessageV) -> Seq<JsonModel> {
    spec_assistant_text_blocks(m.content) + (match m.tool_calls {
        Some(tcs) => spec_tool_call_blocks(tcs),
        None => Seq::empty(),
    })
}

/// The blocks of a non-system, non-tool, non-assistant message.
pub open spec fn spec_user_blocks(c: InboundContentV) -> Seq<JsonModel> {
    match c {
        InboundContentV::Text(t) => seq![spec_text_block(t)],
        InboundContentV::Parts(ps) => spec_parts_blocks(ps),
        InboundContentV::Null => seq![spec_text_block(Seq::empty())],
    }
}

/// The tool-result message a `tool` role message becomes.
pub open spec fn spec_tool_msg(m: InboundMessageV) -> JsonModel {
    let content = match m.content {
        InboundContentV::Text(t) => t,
        _ => Seq::empty(),
    };
    let id = match m.tool_call_id {
        Some(s) => s,
        None => Seq::empty(),
    };
    JsonModel::Obj(
        seq![
            ("role"@, JsonModel::Str("user"@)),
            (
                "content"@,
                JsonModel::Arr(
                    seq![
                        JsonModel::Obj(
                            seq![
                                ("type"@, JsonModel::Str("tool_result"@)),
                                ("tool_use_id"@, JsonModel::Str(id)),
                                ("content"@, JsonModel::Str(content)),
                            ],
                        ),
                    ],
                ),
            ),
        ],
    )
}

/// A role/content message object.
pub open spec fn spec_role_msg(role: Seq<char>, blocks: Seq<JsonModel>) -> JsonModel {
    JsonModel::Obj(seq![("role"@, JsonModel::Str(role)), ("content"@, JsonModel::Arr(blocks))])
}

/// What one inbound message contributes to the outgoing message list.
pub open spec fn spec_msg_out(m: InboundMessageV) -> Seq<JsonModel> {
    if m.role == "system"@ {
        Seq::empty()
    } else if m.role == "tool"@ {
        seq![spec_tool_msg(m)]
    } else if m.role == "assistant"@ {
        let bs = spec_assistant_blocks(m);
        if bs.len() > 0 {
            seq![spec_role_msg("assistant"@, bs)]
        } else {
            Seq::empty()
        }
    } else {
        let bs = spec_user_blocks(m.content);
        if bs.len() > 0 {
            seq![spec_role_msg("user"@, bs)]
        } else {
            Seq::empty()
        }
    }
}

pub open spec fn spec_out_msgs(ms: Seq<InboundMessageV>) -> Seq<JsonModel>
    decreases ms.len(),
{
    if ms.len() == 0 {
        Seq::empty()
    } else {
        spec_out_msgs(ms.drop_last()) + spec_msg_out(ms.last())
    }
}

pub open spec fn spec_default_schema() -> JsonModel {
    JsonModel::Obj(
        seq![
            ("type"@, JsonModel::Str("object"@)),
            ("properties"@, JsonModel::Obj(Seq::empty())),
        ],
    )
}

/// The value under `k` when `v` is an object holding it.
pub open spec fn val_get(v: JsonModel, k: Seq<char>) -> Option<JsonModel> {
    match v {
        JsonModel::Obj(m) => crate::json::obj_get(m, k),
        _ => None,
    }
}

/// What converting one flat tool declaration yields: the `function`
/// sub-object's fields moved up, with defaults for missing fields; a value
/// with no `function` member passes through unchanged.
pub open spec fn spec_tool_to_anthropic(t: JsonModel) -> JsonModel {
    match val_get(t, "function"@) {
        Some(f) => {
            let name = match val_get(f, "name"@) {
                Some(n) => n,
                None => JsonModel::Str("unknown"@),
            };
            let desc = match val_get(f, "description"@) {
                Some(d) => d,
                None => JsonModel::Str(Seq::empty()),
            };
            let params = match val_get(f, "parameters"@) {
                Some(p) => p,
                None => spec_default_schema(),
            };
            JsonModel::Obj(
                seq![("name"@, name), ("description"@, desc), ("input_schema"@, params)],
            )
        },
        None => t,
    }
}

pub open spec fn spec_tools_to_anthropic(ts: Seq<JsonModel>) -> Seq<JsonModel>
    decreases ts.len(),
{
    if ts.len() == 0 {
        Seq::empty()
    } else {
        spec_tools_to_anthropic(ts.drop_last()).push(spec_tool_to_anthropic(ts.last()))
    }
}

/// What the inbound conversion yields: the reshaped message list, then the
/// optional model, token limit, temperature, system field and tools, in
/// that member order.
pub open spec fn spec_inbound_request(rv: InboundChatRequestV) -> JsonModel {
    let m0 = seq![("messages"@, JsonModel::Arr(spec_out_msgs(rv.messages)))];
    let m1 = m0 + (match rv.model {
        Some(s) => seq![("model"@, JsonModel::Str(s))],
        None => Seq::empty(),
    });
    let m2 = m1 + (match rv.max_tokens {
        Some(n) => seq![("max_tokens"@, JsonModel::Num(spec_dec_text(n as int)))],
        None => Seq::empty(),
    });
    let m3 = m2 + (match rv.temperature {
        Some(t) => seq![("temperature"@, JsonModel::Num(t))],
        None => Seq::empty(),
    });
    let m4 = m3 + (if spec_system_parts(rv.messages).len() > 0 {
        seq![("system"@, JsonModel::Arr(spec_system_parts(rv.messages)))]
    } else {
        Seq::empty()
    });
    let m5 = m4 + (match rv.tools {
        Some(ts) => seq![("tools"@, JsonModel::Arr(spec_tools_to_anthropic(ts)))],
        None => Seq::empty(),
    });
    JsonModel::Obj(m5)
}

/// A `{"type": "text", "text": ...}` block as a value.
fn text_block(text: String) -> (r: Json)
    ensures
        r@ == spec_text_block(text@),
{
    let ghost t = text@;
    let mut mm: Vec<(String, Json)> = Vec::new();
    mm.push((String::from_str("type"), Json::Str(String::from_str("text"))));
    mm.push((String::from_str("text"), Json::Str(text)));
    proof {
        lemma_obj_view(mm);
        assert(mm.deep_view() =~= seq![
            ("type"@, JsonModel::Str("text"@)),
            ("text"@, JsonModel::Str(t)),
        ]);
    }
    Json::Obj(mm)
}

/// An image block as a value.
fn image_block(media: String, data: String) -> (r: Json)
    ensures
        r@ == spec_image_block(media@, data@),
{
    let ghost mt = media@;
    let ghost d = data@;
    let mut src: Vec<(String, Json)> = Vec::new();
    src.push((String::from_str("type"), Json::Str(String::from_str("base64"))));
    src.push((String::from_str("media_type"), Json::Str(media)));
    src.push((String::from_str("data"), Json::Str(data)));
    proof {
        lemma_obj_view(src);
        assert(src.deep_view() =~= seq![
            ("type"@, JsonModel::Str("base64"@)),
            ("media_type"@, JsonModel::Str(mt)),
            ("data"@, JsonModel::Str(d)),
        ]);
    }
    let mut mm: Vec<(String, Json)> = Vec::new();
    mm.push((String::from_str("type"), Json::Str(String::from_str("image"))));
    mm.push((String::from_str("source"), Json::Obj(src)));
    proof {
        lemma_obj_view(mm);
        assert(mm.deep_view() =~= spec_image_block(mt, d)->Obj_0);
    }
    Json::Obj(mm)
}

/// A `tool_use` block as a value.
fn tool_use_block(id: String, name: String, input: Json) -> (r: Json)
    ensures
        r@ == spec_tool_use_block(id@, name@, input@),
{
    let ghost iv = id@;
    let ghost nv = name@;
    let ghost inv = input@;
    let mut mm: Vec<(String, Json)> = Vec::new();
    mm.push((String::from_str("type"), Json::Str(String::from_str("tool_use"))));
    mm.push((String::from_str("id"), Json::Str(id)));
    mm.push((String::from_str("name"), Json::Str(name)));
    mm.push((String::from_str("input"), input));
    proof {
        lemma_obj_view(mm);
        assert(mm.deep_view() =~= spec_tool_use_block(iv, nv, inv)->Obj_0);
    }
    Json::Obj(mm)
}

/// The flattened text of inbound content.
fn content_text(c: &InboundContent) -> (r: String)
    ensures
        r@ == spec_content_text(c.deep_view()),
{
    match c {
        InboundContent::Text(t) => t.clone(),
        InboundContent::Parts(ps) => {
            let ghost dv = ps.deep_view();
            let mut parts: Vec<String> = Vec::new();
            let mut i: usize = 0;
            while i < ps.len()
                invariant
                    dv == ps.deep_view(),
                    dv.len() == ps@.len(),
                    i <= ps@.len(),
                    parts.deep_view() == spec_part_texts(dv.take(i as int)),
                decreases ps@.len() - i,
            {
                proof {
                    assert(dv.take(i + 1).drop_last() =~= dv.take(i as int));
                    assert(dv.take(i + 1).last() == dv[i as int]);
                    assert(dv[i as int] == ps@[i as int].deep_view());
                }
                match &ps[i] {
                    InboundContentPart::Text { text } => {
                        parts.push(text.clone());
                        proof {
                            assert(parts.deep_view() =~= spec_part_texts(dv.take(i + 1)));
                        }
                    },
                    _ => {
                        proof {
                            assert(parts.deep_view() == spec_part_texts(dv.take(i + 1)));
                        }
                    },
                }
                i += 1;
            }
            proof {
                assert(dv.take(ps@.len() as int) =~= dv);
                reveal_strlit("");
                assert(""@ =~= Seq::<char>::empty());
            }
            join_strings(&parts, "")
        },
        InboundContent::Null => String::new(),
    }
}

/// The blocks of a run of content parts.
fn parts_blocks(ps: &Vec<InboundContentPart>) -> (r: Vec<Json>)
    ensures
        r.deep_view() == spec_parts_blocks(ps.deep_view()),
{
    let ghost dv = ps.deep_view();
    let mut out: Vec<Json> = Vec::new();
    let mut i: usize = 0;
    while i < ps.len()
        invariant
            dv == ps.deep_view(),
            dv.len() == ps@.len(),
            i <= ps@.len(),
            out.deep_view() == spec_parts_blocks(dv.take(i as int)),
        decreases ps@.len() - i,
    {
        proof {
            assert(dv.take(i + 1).drop_last() =~= dv.take(i as int));
            assert(dv.take(i + 1).last() == dv[i as int]);
            assert(dv[i as int] == ps@[i as int].deep_view());
        }
        match &ps[i] {
            InboundContentPart::Text { text } => {
                let b = text_block(text.clone());
                let ghost bv = b@;
                let ghost oseq = out@;
                proof {
                    lemma_dv_eq(&out);
                }
                let ghost oprev = out.deep_view();
                out.push(b);
                proof {
                    lemma_dv_eq(&out);
                    lemma_dv_seq_push(oseq, b);
                    assert(out.deep_view() == oprev.push(bv));
                    assert(out.deep_view() =~= spec_parts_blocks(dv.take(i + 1)));
                }
            },
            InboundContentPart::ImageUrl { image_url } => {
                match parse_data_url(image_url.url.as_str()) {
                    Some(p) => {
                        let b = image_block(p.0, p.1);
                        let ghost bv = b@;
                        let ghost oseq = out@;
                        proof {
                            lemma_dv_eq(&out);
                        }
                        let ghost oprev = out.deep_view();
                        out.push(b);
                        proof {
                            lemma_dv_eq(&out);
                            lemma_dv_seq_push(oseq, b);
                            assert(out.deep_view() == oprev.push(bv));
                            assert(out.deep_view() =~= spec_parts_blocks(dv.take(i + 1)));
                        }
                    },
                    None => {
                        proof {
                            assert(out.deep_view() == spec_parts_blocks(dv.take(i + 1)));
                        }
                    },
                }
            },
        }
        i += 1;
    }
    proof {
        assert(dv.take(ps@.len() as int) =~= dv);
    }
    out
}

/// The `tool_use` blocks of a run of tool calls.
fn tool_call_blocks(tcs: &Vec<InboundToolCall>) -> (r: Vec<Json>)
    ensures
        r.deep_view() == spec_tool_call_blocks(tcs.deep_view()),
{
    let ghost dv = tcs.deep_view();
    let mut out: Vec<Json> = Vec::new();
    let mut i: usize = 0;
    while i < tcs.len()
        invariant
            dv == tcs.deep_view(),
            dv.len() == tcs@.len(),
            i <= tcs@.len(),
            out.deep_view() == spec_tool_call_blocks(dv.take(i as int)),
        decreases tcs@.len() - i,
    {
        proof {
            assert(dv.take(i + 1).drop_last() =~= dv.take(i as int));
            assert(dv.take(i + 1).last() == dv[i as int]);
            assert(dv[i as int] == tcs@[i as int].deep_view());
        }
        let tc = &tcs[i];
        let input = match parse_json_text(tc.function.arguments.as_str()) {
            Some(j) => j,
            None => {
                let empty: Vec<(String, Json)> = Vec::new();
                proof {
                    lemma_obj_view(empty);
                    assert(empty.deep_view() =~= Seq::<(Seq<char>, JsonModel)>::empty());
                }
                Json::Obj(empty)
            },
        };
        let b = tool_use_block(tc.id.clone(), tc.function.name.clone(), input);
        let ghost bv = b@;
        let ghost oseq = out@;
        proof {
            lemma_dv_eq(&out);
        }
        let ghost oprev = out.deep_view();
        out.push(b);
        proof {
            lemma_dv_eq(&out);
            lemma_dv_seq_push(oseq, b);
            assert(out.deep_view() == oprev.push(bv));
            assert(out.deep_view() =~= spec_tool_call_blocks(dv.take(i + 1)));
        }
        i += 1;
    }
    proof {
        assert(dv.take(tcs@.len() as int) =~= dv);
    }
    out
}

/// Convert one flat tool declaration to the structured shape.
pub fn openai_tool_to_anthropic(tool: Json) -> (r: Json)
    ensures
        r@ == spec_tool_to_anthropic(tool@),
{
    match tool {
        Json::Obj(members) => {
            proof {
                lemma_obj_view(members);
            }
            let f: Option<&Json> = crate::json::obj_get_ref(&members, "function");
            match f {
                Some(fv) => {
                    let name: Json = match fv {
                        Json::Obj(fm) => {
                            proof {
                                lemma_obj_view(*fm);
                            }
                            match crate::json::obj_get_ref(fm, "name") {
                                Some(n) => crate::json::json_clone(n),
                                None => Json::Str(String::from_str("unknown")),
                            }
                        },
                        _ => Json::Str(String::from_str("unknown")),
                    };
                    let desc: Json = match fv {
                        Json::Obj(fm) => {
                            proof {
                                lemma_obj_view(*fm);
                            }
                            match crate::json::obj_get_ref(fm, "description") {
                                Some(d) => crate::json::json_clone(d),
                                None => Json::Str(String::new()),
                            }
                        },
                        _ => Json::Str(String::new()),
                    };
                    let params: Json = match fv {
                        Json::Obj(fm) => {
                            proof {
                                lemma_obj_view(*fm);
                            }
                            match crate::json::obj_get_ref(fm, "parameters") {
                                Some(p) => crate::json::json_clone(p),
                                None => default_schema(),
                            }
                        },
                        _ => default_schema(),
                    };
                    let mut mm: Vec<(String, Json)> = Vec::new();
                    mm.push((String::from_str("name"), name));
                    mm.push((String::from_str("description"), desc));
                    mm.push((String::from_str("input_schema"), params));
                    proof {
                        lemma_obj_view(mm);
                        reveal_strlit("");
                        assert(""@ =~= Seq::<char>::empty());
                        assert(mm.deep_view() =~= spec_tool_to_anthropic(
                            (Json::Obj(members))@,
                        )->Obj_0);
                    }
                    Json::Obj(mm)
                },
                None => {
                    proof {
                        lemma_obj_view(members);
                    }
                    Json::Obj(members)
                },
            }
        },
        other => other,
    }
}

/// The default empty-object schema.
fn default_schema() -> (r: Json)
    ensures
        r@ == spec_default_schema(),
{
    let inner: Vec<(String, Json)> = Vec::new();
    proof {
        lemma_obj_view(inner);
        assert(inner.deep_view() =~= Seq::<(Seq<char>, JsonModel)>::empty());
    }
    let mut mm: Vec<(String, Json)> = Vec::new();
    mm.push((String::from_str("type"), Json::Str(String::from_str("object"))));
    mm.push((String::from_str("properties"), Json::Obj(inner)));
    proof {
        lemma_obj_view(mm);
        assert(mm.deep_view() =~= spec_default_schema()->Obj_0);
    }
    Json::Obj(mm)
}

/// The system-prompt blocks of the inbound messages.
fn collect_system_parts(msgs: &Vec<InboundMessage>) -> (r: Vec<Json>)
    ensures
        r.deep_view() == spec_system_parts(msgs.deep_view()),
{
    let ghost dv = msgs.deep_view();
    let mut out: Vec<Json> = Vec::new();
    let mut i: usize = 0;
    while i < msgs.len()
        invariant
            dv == msgs.deep_view(),
            dv.len() == msgs@.len(),
            i <= msgs@.len(),
            out.deep_view() == spec_system_parts(dv.take(i as int)),
        decreases msgs@.len() - i,
    {
        proof {
            assert(dv.take(i + 1).drop_last() =~= dv.take(i as int));
            assert(dv.take(i + 1).last() == dv[i as int]);
            assert(dv[i as int] == msgs@[i as int].deep_view());
        }
        let m = &msgs[i];
        if str_eq(m.role.as_str(), "system") {
            let text = content_text(&m.content);
            if !text.as_str().is_empty() {
                let b = text_block(text);
                let ghost bv = b@;
                let ghost oseq = out@;
                proof {
                    lemma_dv_eq(&out);
                }
                let ghost oprev = out.deep_view();
                out.push(b);
                proof {
                    lemma_dv_eq(&out);
                    lemma_dv_seq_push(oseq, b);
                    assert(out.deep_view() == oprev.push(bv));
                    assert(out.deep_view() =~= spec_system_parts(dv.take(i + 1)));
                }
            } else {
                proof {
                    assert(out.deep_view() == spec_system_parts(dv.take(i + 1)));
                }
            }
        } else {
            proof {
                assert(out.deep_view() == spec_system_parts(dv.take(i + 1)));
            }
        }
        i += 1;
    }
    proof {
        assert(dv.take(msgs@.len() as int) =~= dv);
    }
    out
}

/// The reshaped message list.
fn collect_out_msgs(msgs: &Vec<InboundMessage>) -> (r: Vec<Json>)
    ensures
        r.deep_view() == spec_out_msgs(msgs.deep_view()),
{
    let ghost dv = msgs.deep_view();
    let mut out: Vec<Json> = Vec::new();
    let mut i: usize = 0;
    while i < msgs.len()
        invariant
            dv == msgs.deep_view(),
            dv.len() == msgs@.len(),
            i <= msgs@.len(),
            out.deep_view() == spec_out_msgs(dv.take(i as int)),
        decreases msgs@.len() - i,
    {
        proof {
            assert(dv.take(i + 1).drop_last() =~= dv.take(i as int));
            assert(dv.take(i + 1).last() == dv[i as int]);
            assert(dv[i as int] == msgs@[i as int].deep_view());
        }
        let ghost mv = dv[i as int];
        let m = &msgs[i];
        if str_eq(m.role.as_str(), "system") {
            proof {
                assert(out.deep_view() =~= spec_out_msgs(dv.take(i + 1)));
            }
        } else if str_eq(m.role.as_str(), "tool") {
            let content = match &m.content {
                InboundContent::Text(t) => t.clone(),
                _ => String::new(),
            };
            let id = match &m.tool_call_id {
                Some(s) => s.clone(),
                None => String::new(),
            };
            let ghost cv = content@;
            let ghost idv = id@;
            let mut inner: Vec<(String, Json)> = Vec::new();
            inner.push((String::from_str("type"), Json::Str(String::from_str("tool_result"))));
            inner.push((String::from_str("tool_use_id"), Json::Str(id)));
            inner.push((String::from_str("content"), Json::Str(content)));
            proof {
                lemma_obj_view(inner);
                assert(inner.deep_view() =~= seq![
                    ("type"@, JsonModel::Str("tool_result"@)),
                    ("tool_use_id"@, JsonModel::Str(idv)),
                    ("content"@, JsonModel::Str(cv)),
                ]);
            }
            let block = Json::Obj(inner);
            let ghost blockv = block@;
            let mut arr: Vec<Json> = Vec::new();
            arr.push(block);
            proof {
                lemma_arr_view(arr);
                assert(arr.deep_view() =~= seq![blockv]);
            }
            let mut mm: Vec<(String, Json)> = Vec::new();
            mm.push((String::from_str("role"), Json::Str(String::from_str("user"))));
            mm.push((String::from_str("content"), Json::Arr(arr)));
            proof {
                lemma_obj_view(mm);
                assert(mm.deep_view() =~= spec_tool_msg(mv)->Obj_0);
            }
            let b = Json::Obj(mm);
            let ghost bv = b@;
            let ghost oseq = out@;
            proof {
                lemma_dv_eq(&out);
            }
            let ghost oprev = out.deep_view();
            out.push(b);
            proof {
                lemma_dv_eq(&out);
                lemma_dv_seq_push(oseq, b);
                assert(out.deep_view() == oprev.push(bv));
                assert(bv == spec_tool_msg(mv));
                assert(out.deep_view() =~= spec_out_msgs(dv.take(i + 1)));
            }
        } else if str_eq(m.role.as_str(), "assistant") {
            let mut blocks: Vec<Json> = match &m.content {
                InboundContent::Text(t) => {
                    if !t.as_str().is_empty() {
                        let mut v: Vec<Json> = Vec::new();
                        v.push(text_block(t.clone()));
                        proof {
                            lemma_dv_eq(&v);
                            assert(v.deep_view() =~= spec_assistant_text_blocks(mv.content));
                        }
                        v
                    } else {
                        let v: Vec<Json> = Vec::new();
                        proof {
                            assert(v.deep_view() =~= spec_assistant_text_blocks(mv.content));
                        }
                        v
                    }
                },
                InboundContent::Parts(ps) => {
                    let v = parts_blocks(ps);
                    proof {
                        assert(v.deep_view() == spec_assistant_text_blocks(mv.content));
                    }
                    v
                },
                InboundContent::Null => {
                    let v: Vec<Json> = Vec::new();
                    proof {
                        assert(v.deep_view() =~= spec_assistant_text_blocks(mv.content));
                    }
                    v
                },
            };
            match &m.tool_calls {
                Some(tcs) => {
                    let mut tub = tool_call_blocks(tcs);
                    let ghost bprev = blocks@;
                    let ghost tubq = tub@;
                    proof {
                        lemma_dv_eq(&blocks);
                        lemma_dv_eq(&tub);
                    }
                    let ghost bdv = blocks.deep_view();
                    let ghost tdv = tub.deep_view();
                    blocks.append(&mut tub);
                    proof {
                        lemma_dv_eq(&blocks);
                        crate::views::lemma_dv_seq_append(bprev, tubq);
                        assert(blocks.deep_view() == bdv + tdv);
                        assert(blocks.deep_view() =~= spec_assistant_blocks(mv));
                    }
                },
                None => {
                    proof {
                        assert(blocks.deep_view() =~= spec_assistant_blocks(mv));
                    }
                },
            }
            if blocks.len() > 0 {
                proof {
                    lemma_arr_view(blocks);
                }
                let mut mm: Vec<(String, Json)> = Vec::new();
                mm.push((String::from_str("role"), Json::Str(String::from_str("assistant"))));
                mm.push((String::from_str("content"), Json::Arr(blocks)));
                proof {
                    lemma_obj_view(mm);
                    assert(mm.deep_view() =~= spec_role_msg(
                        "assistant"@,
                        spec_assistant_blocks(mv),
                    )->Obj_0);
                }
                let b = Json::Obj(mm);
                let ghost bv = b@;
                let ghost oseq = out@;
                proof {
                    lemma_dv_eq(&out);
                }
                let ghost oprev = out.deep_view();
                out.push(b);
                proof {
                    lemma_dv_eq(&out);
                    lemma_dv_seq_push(oseq, b);
                    assert(out.deep_view() == oprev.push(bv));
                    assert(bv == spec_role_msg("assistant"@, spec_assistant_blocks(mv)));
                    assert(out.deep_view() =~= spec_out_msgs(dv.take(i + 1)));
                }
            } else {
                proof {
                    assert(out.deep_view() =~= spec_out_msgs(dv.take(i + 1)));
                }
            }
        } else {
            let blocks: Vec<Json> = match &m.content {
                InboundContent::Text(t) => {
                    let mut v: Vec<Json> = Vec::new();
                    v.push(text_block(t.clone()));
                    proof {
                        lemma_dv_eq(&v);
                        assert(v.deep_view() =~= spec_user_blocks(mv.content));
                    }
                    v
                },
                InboundContent::Parts(ps) => {
                    let v = parts_blocks(ps);
                    proof {
                        assert(v.deep_view() == spec_user_blocks(mv.content));
                    }
                    v
                },
                InboundContent::Null => {
                    let mut v: Vec<Json> = Vec::new();
                    v.push(text_block(String::new()));
                    proof {
                        lemma_dv_eq(&v);
                        assert(v.deep_view() =~= spec_user_blocks(mv.content));
                    }
                    v
                },
            };
            if blocks.len() > 0 {
                proof {
                    lemma_arr_view(blocks);
                }
                let mut mm: Vec<(String, Json)> = Vec::new();
                mm.push((String::from_str("role"), Json::Str(String::from_str("user"))));
                mm.push((String::from_str("content"), Json::Arr(blocks)));
                proof {
                    lemma_obj_view(mm);
                    assert(mm.deep_view() =~= spec_role_msg(
                        "user"@,
                        spec_user_blocks(mv.content),
                    )->Obj_0);
                }
                let b = Json::Obj(mm);
                let ghost bv = b@;
                let ghost oseq = out@;
                proof {
                    lemma_dv_eq(&out);
                }
                let ghost oprev = out.deep_view();
                out.push(b);
                proof {
                    lemma_dv_eq(&out);
                    lemma_dv_seq_push(oseq, b);
                    assert(out.deep_view() == oprev.push(bv));
                    assert(bv == spec_role_msg("user"@, spec_user_blocks(mv.content)));
                    assert(out.deep_view() =~= spec_out_msgs(dv.take(i + 1)));
                }
            } else {
                proof {
                    assert(out.deep_view() =~= spec_out_msgs(dv.take(i + 1)));
                }
            }
        }
        i += 1;
    }
    proof {
        assert(dv.take(msgs@.len() as int) =~= dv);
    }
    out
}

/// Convert an inbound flat chat request to a structured-format request
/// body.
///
/// System messages are pulled out and concatenated into the `system`
/// field, dropped when empty. Tool-role messages become user messages with
/// one tool-result block. Assistant messages combine text with their tool
/// calls reshaped into `tool_use` blocks; other roles keep text and inline
/// `data:` images. Messages that resolve to no blocks are omitted, except
/// a null-content user message, which becomes one empty text block.
pub fn inbound_request_to_anthropic(req: InboundChatRequest) -> (r: Json)
    ensures
        r@ == spec_inbound_request(req@),
{
    let ghost rv = req.deep_view();
    let sys_parts = collect_system_parts(&req.messages);
    let msgs = collect_out_msgs(&req.messages);
    proof {
        lemma_arr_view(msgs);
    }
    let mut body: Vec<(String, Json)> = Vec::new();
    body.push((String::from_str("messages"), Json::Arr(msgs)));
    match req.model {
        Some(model) => {
            body.push((String::from_str("model"), Json::Str(model)));
        },
        None => {},
    }
    match req.max_tokens {
        Some(n) => {
            body.push((String::from_str("max_tokens"), Json::Num(u32_to_dec(n))));
        },
        None => {},
    }
    match req.temperature {
        Some(t) => {
            body.push((String::from_str("temperature"), Json::Num(t)));
        },
        None => {},
    }
    if sys_parts.len() > 0 {
        proof {
            lemma_arr_view(sys_parts);
        }
        body.push((String::from_str("system"), Json::Arr(sys_parts)));
    }
    match req.tools {
        Some(tools) => {
            let ghost tsv = tools.deep_view();
            let ts = convert_tools(tools);
            proof {
                lemma_arr_view(ts);
            }
            body.push((String::from_str("tools"), Json::Arr(ts)));
        },
        None => {},
    }
    proof {
        lemma_obj_view(body);
        assert(body.deep_view() =~= spec_inbound_request(rv)->Obj_0);
    }
    Json::Obj(body)
}

/// Map the tool-declaration conversion over the inbound tools.
fn convert_tools(tools: Vec<Json>) -> (r: Vec<Json>)
    ensures
        r.deep_view() == spec_tools_to_anthropic(tools.deep_view()),
    decreases tools@.len(),
{
    let ghost tv = tools.deep_view();
    let ghost orig = tools@;
    proof {
        lemma_dv_eq(&tools);
    }
    let mut rest = tools;
    let last = rest.pop();
    match last {
        None => {
            proof {
                lemma_dv_eq(&rest);
                assert(tv =~= Seq::empty());
                assert(rest.deep_view() =~= Seq::<JsonModel>::empty());
            }
            rest
        },
        Some(t) => {
            proof {
                lemma_dv_eq(&rest);
                assert(rest@ =~= orig.drop_last());
                crate::views::lemma_dv_seq_drop_last(orig);
                assert(rest.deep_view() == tv.drop_last());
                assert(t.deep_view() == tv.last());
            }
            let mut r = convert_tools(rest);
            let tt = openai_tool_to_anthropic(t);
            let ghost rseq = r@;
            proof {
                lemma_dv_eq(&r);
            }
            let ghost rprev = r.deep_view();
            r.push(tt);
            proof {
                lemma_dv_eq(&r);
                lemma_dv_seq_push(rseq, tt);
                assert(r.deep_view() == rprev.push(tt@));
                assert(r.deep_view() =~= spec_tools_to_anthropic(tv));
            }
            r
        },
    }
}

} // verus!
