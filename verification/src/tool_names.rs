//! Tool-name namespacing across a trust boundary: a fixed `mcp_` prefix is
//! added on the request path and stripped on the response path.

use vstd::prelude::*;

use crate::json::{
    lemma_arr_view,
    obj_get, obj_get_ref, obj_set, obj_set_value, obj_take_value, obj_update_value, find_key,
    lemma_okey, lemma_obj_view, Json, JsonModel,
};
use crate::strutil::{spec_starts_with, starts_with, str_eq};
use crate::views::{lemma_dv_eq, lemma_dv_seq_drop_last, lemma_dv_seq_push};

verus! {

/// A name with the namespace prefix added, unless it already carries it.
pub open spec fn spec_add_mcp(s: Seq<char>) -> Seq<char> {
    if spec_starts_with(s, "mcp_"@) {
        s
    } else {
        "mcp_"@ + s
    }
}

/// A name with the namespace prefix stripped, if it carries it.
pub open spec fn spec_strip_mcp(s: Seq<char>) -> Seq<char> {
    if spec_starts_with(s, "mcp_"@) {
        s.skip("mcp_"@.len() as int)
    } else {
        s
    }
}

/// Add the `mcp_` prefix to a tool name if not already present.
pub fn add_mcp_prefix(name: &str) -> (r: String)
    ensures
        r@ == spec_add_mcp(name@),
{
    if starts_with(name, "mcp_") {
        String::from_str(name)
    } else {
        String::from_str("mcp_").concat(name)
    }
}

/// Strip the `mcp_` prefix from a tool name if present.
pub fn strip_mcp_prefix(name: &str) -> (r: String)
    ensures
        r@ == spec_strip_mcp(name@),
{
    if starts_with(name, "mcp_") {
        let plen = "mcp_".unicode_len();
        let len = name.unicode_len();
        let rest = name.substring_char(plen, len);
        proof {
            assert(rest@ =~= name@.skip("mcp_"@.len() as int));
        }
        String::from_str(rest)
    } else {
        String::from_str(name)
    }
}

/// Adding the prefix twice is the same as adding it once.
pub proof fn lemma_add_mcp_idempotent(s: Seq<char>)
    ensures
        spec_add_mcp(spec_add_mcp(s)) == spec_add_mcp(s),
{
    if !spec_starts_with(s, "mcp_"@) {
        let t = "mcp_"@ + s;
        assert(t.subrange(0, "mcp_"@.len() as int) =~= "mcp_"@);
        assert(spec_starts_with(t, "mcp_"@));
    }
}

/// Stripping twice is the same as stripping once, for any name whose
/// once-stripped form does not itself still carry the prefix.
pub proof fn lemma_strip_mcp_idempotent(s: Seq<char>)
    requires
        !spec_starts_with(spec_strip_mcp(s), "mcp_"@),
    ensures
        spec_strip_mcp(spec_strip_mcp(s)) == spec_strip_mcp(s),
{
}

/// One renamed tool definition: built-ins carrying a non-empty `type` are
/// left alone; otherwise a string `name` member gets the prefix.
pub open spec fn spec_transform_tool(t: JsonModel) -> JsonModel {
    match t {
        JsonModel::Obj(m) => {
            let skip = match obj_get(m, "type"@) {
                Some(JsonModel::Str(ty)) => ty.len() > 0,
                _ => false,
            };
            if skip {
                t
            } else {
                match obj_get(m, "name"@) {
                    Some(JsonModel::Str(n)) => JsonModel::Obj(
                        obj_set(m, "name"@, JsonModel::Str(spec_add_mcp(n))),
                    ),
                    _ => t,
                }
            }
        },
        _ => t,
    }
}

pub open spec fn spec_transform_tools(s: Seq<JsonModel>) -> Seq<JsonModel>
    decreases s.len(),
{
    if s.len() == 0 {
        Seq::empty()
    } else {
        spec_transform_tools(s.drop_last()).push(spec_transform_tool(s.last()))
    }
}

pub open spec fn spec_transform_tools_value(v: JsonModel) -> JsonModel {
    match v {
        JsonModel::Arr(ts) => JsonModel::Arr(spec_transform_tools(ts)),
        _ => v,
    }
}

/// One renamed `tool_use` content block.
pub open spec fn spec_transform_block(b: JsonModel) -> JsonModel {
    match b {
        JsonModel::Obj(m) => {
            if obj_get(m, "type"@) == Some(JsonModel::Str("tool_use"@)) {
                match obj_get(m, "name"@) {
                    Some(JsonModel::Str(n)) => JsonModel::Obj(
                        obj_set(m, "name"@, JsonModel::Str(spec_add_mcp(n))),
                    ),
                    _ => b,
                }
            } else {
                b
            }
        },
        _ => b,
    }
}

pub open spec fn spec_transform_blocks(s: Seq<JsonModel>) -> Seq<JsonModel>
    decreases s.len(),
{
    if s.len() == 0 {
        Seq::empty()
    } else {
        spec_transform_blocks(s.drop_last()).push(spec_transform_block(s.last()))
    }
}

pub open spec fn spec_transform_content_value(v: JsonModel) -> JsonModel {
    match v {
        JsonModel::Arr(bs) => JsonModel::Arr(spec_transform_blocks(bs)),
        _ => v,
    }
}

/// One message with its `tool_use` content blocks renamed.
pub open spec fn spec_transform_msg(msg: JsonModel) -> JsonModel {
    match msg {
        JsonModel::Obj(mm) => {
            match obj_get(mm, "content"@) {
                Some(v) => JsonModel::Obj(
                    obj_set(mm, "content"@, spec_transform_content_value(v)),
                ),
                None => msg,
            }
        },
        _ => msg,
    }
}

pub open spec fn spec_transform_msgs(s: Seq<JsonModel>) -> Seq<JsonModel>
    decreases s.len(),
{
    if s.len() == 0 {
        Seq::empty()
    } else {
        spec_transform_msgs(s.drop_last()).push(spec_transform_msg(s.last()))
    }
}

pub open spec fn spec_transform_msgs_value(v: JsonModel) -> JsonModel {
    match v {
        JsonModel::Arr(ms) => JsonModel::Arr(spec_transform_msgs(ms)),
        _ => v,
    }
}

/// A `tool_choice` selector of kind `tool` with a bare, non-empty name gets
/// the prefix.
pub open spec fn spec_transform_tool_choice(tc: JsonModel) -> JsonModel {
    match tc {
        JsonModel::Obj(m) => {
            if obj_get(m, "type"@) == Some(JsonModel::Str("tool"@)) {
                match obj_get(m, "name"@) {
                    Some(JsonModel::Str(n)) => {
                        if n.len() > 0 && !spec_starts_with(n, "mcp_"@) {
                            JsonModel::Obj(obj_set(m, "name"@, JsonModel::Str(spec_add_mcp(n))))
                        } else {
                            tc
                        }
                    },
                    _ => tc,
                }
            } else {
                tc
            }
        },
        _ => tc,
    }
}

/// What the request-path transform yields: tool definitions, the
/// `tool_choice` selector and `tool_use` blocks in the history, renamed.
pub open spec fn spec_transform_request(b: JsonModel) -> JsonModel {
    match b {
        JsonModel::Obj(m0) => {
            let m1 = match obj_get(m0, "tools"@) {
                Some(v) => obj_set(m0, "tools"@, spec_transform_tools_value(v)),
                None => m0,
            };
            let m2 = match obj_get(m1, "tool_choice"@) {
                Some(v) => obj_set(m1, "tool_choice"@, spec_transform_tool_choice(v)),
                None => m1,
            };
            let m3 = match obj_get(m2, "messages"@) {
                Some(v) => obj_set(m2, "messages"@, spec_transform_msgs_value(v)),
                None => m2,
            };
            JsonModel::Obj(m3)
        },
        _ => b,
    }
}

/// One content block with the prefix stripped from a `tool_use` name.
pub open spec fn spec_strip_block(b: JsonModel) -> JsonModel {
    match b {
        JsonModel::Obj(m) => {
            if obj_get(m, "type"@) == Some(JsonModel::Str("tool_use"@)) {
                match obj_get(m, "name"@) {
                    Some(JsonModel::Str(n)) => JsonModel::Obj(
                        obj_set(m, "name"@, JsonModel::Str(spec_strip_mcp(n))),
                    ),
                    _ => b,
                }
            } else {
                b
            }
        },
        _ => b,
    }
}

pub open spec fn spec_strip_blocks(s: Seq<JsonModel>) -> Seq<JsonModel>
    decreases s.len(),
{
    if s.len() == 0 {
        Seq::empty()
    } else {
        spec_strip_blocks(s.drop_last()).push(spec_strip_block(s.last()))
    }
}

pub open spec fn spec_strip_content_value(v: JsonModel) -> JsonModel {
    match v {
        JsonModel::Arr(bs) => JsonModel::Arr(spec_strip_blocks(bs)),
        _ => v,
    }
}

/// What the response-path transform yields: `tool_use` blocks in the
/// `content` array with the prefix stripped.
pub open spec fn spec_transform_response(b: JsonModel) -> JsonModel {
    match b {
        JsonModel::Obj(m) => {
            match obj_get(m, "content"@) {
                Some(v) => JsonModel::Obj(obj_set(m, "content"@, spec_strip_content_value(v))),
                None => b,
            }
        },
        _ => b,
    }
}

/// Whether a member's string value under `"type"` is non-empty.
fn has_nonempty_type(members: &Vec<(String, Json)>) -> (r: bool)
    ensures
        r == match obj_get(members.deep_view(), "type"@) {
            Some(JsonModel::Str(ty)) => ty.len() > 0,
            _ => false,
        },
{
    match obj_get_ref(members, "type") {
        Some(j) => match j {
            Json::Str(ty) => !ty.as_str().is_empty(),
            _ => false,
        },
        None => false,
    }
}

/// Whether the member under `"type"` is exactly the string `want`.
fn type_is(members: &Vec<(String, Json)>, want: &str) -> (r: bool)
    ensures
        r == (obj_get(members.deep_view(), "type"@) == Some(JsonModel::Str(want@))),
{
    match obj_get_ref(members, "type") {
        Some(j) => match j {
            Json::Str(ty) => str_eq(ty.as_str(), want),
            _ => false,
        },
        None => false,
    }
}

/// Rename the `name` member (if a string) by `f`-style prefix handling:
/// `add` selects adding, otherwise stripping.
fn rename_name_member(members: &mut Vec<(String, Json)>, add: bool)
    ensures
        final(members).deep_view() == match obj_get(old(members).deep_view(), "name"@) {
            Some(JsonModel::Str(n)) => obj_set(
                old(members).deep_view(),
                "name"@,
                JsonModel::Str(
                    if add {
                        spec_add_mcp(n)
                    } else {
                        spec_strip_mcp(n)
                    },
                ),
            ),
            _ => old(members).deep_view(),
        },
{
    let new_name: Option<String> = match obj_get_ref(members, "name") {
        Some(j) => match j {
            Json::Str(n) => Some(
                if add {
                    add_mcp_prefix(n.as_str())
                } else {
                    strip_mcp_prefix(n.as_str())
                },
            ),
            _ => None,
        },
        None => None,
    };
    match new_name {
        Some(nn) => {
            obj_set_value(members, "name", Json::Str(nn));
        },
        None => {},
    }
}

/// Rename one tool definition on the request path.
fn transform_tool(t: Json) -> (r: Json)
    ensures
        r@ == spec_transform_tool(t@),
{
    match t {
        Json::Obj(members) => {
            let ghost m0 = members.deep_view();
            proof {
                lemma_obj_view(members);
            }
            let mut members = members;
            if has_nonempty_type(&members) {
                proof {
                    lemma_obj_view(members);
                }
                return Json::Obj(members);
            }
            rename_name_member(&mut members, true);
            proof {
                lemma_obj_view(members);
            }
            Json::Obj(members)
        },
        other => other,
    }
}

/// Rename one `tool_use` block; `add` picks the direction.
fn transform_block(b: Json, add: bool) -> (r: Json)
    ensures
        add ==> r@ == spec_transform_block(b@),
        !add ==> r@ == spec_strip_block(b@),
{
    match b {
        Json::Obj(members) => {
            let ghost m0 = members.deep_view();
            proof {
                lemma_obj_view(members);
            }
            let mut members = members;
            if !type_is(&members, "tool_use") {
                proof {
                    lemma_obj_view(members);
                }
                return Json::Obj(members);
            }
            rename_name_member(&mut members, add);
            proof {
                lemma_obj_view(members);
            }
            Json::Obj(members)
        },
        other => other,
    }
}

/// Rename the `tool_choice` selector.
fn transform_tool_choice(tc: Json) -> (r: Json)
    ensures
        r@ == spec_transform_tool_choice(tc@),
{
    match tc {
        Json::Obj(members) => {
            let ghost m0 = members.deep_view();
            proof {
                lemma_obj_view(members);
            }
            let mut members = members;
            if !type_is(&members, "tool") {
                proof {
                    lemma_obj_view(members);
                }
                return Json::Obj(members);
            }
            let rename = match obj_get_ref(&members, "name") {
                Some(j) => match j {
                    Json::Str(n) => !n.as_str().is_empty() && !starts_with(n.as_str(), "mcp_"),
                    _ => false,
                },
                None => false,
            };
            if rename {
                rename_name_member(&mut members, true);
            }
            proof {
                lemma_obj_view(members);
            }
            Json::Obj(members)
        },
        other => other,
    }
}

/// Map `transform_tool` over an array of tool definitions.
fn transform_tools(tools: Vec<Json>) -> (r: Vec<Json>)
    ensures
        r.deep_view() == spec_transform_tools(tools.deep_view()),
    decreases tools@.len(),
{
    let ghost tv = tools.deep_view();
    let ghost orig = tools@;
    proof {
        lemma_dv_eq(&tools);
    }
    let mut rest = tools;
    let last = rest.pop();
    match last {
        None => {
            proof {
                lemma_dv_eq(&rest);
                assert(tv =~= Seq::empty());
                assert(rest.deep_view() =~= spec_transform_tools(tv));
            }
            rest
        },
        Some(t) => {
            proof {
                lemma_dv_eq(&rest);
                assert(rest@ =~= orig.drop_last());
                lemma_dv_seq_drop_last(orig);
                assert(rest.deep_view() == tv.drop_last());
                assert(t.deep_view() == tv.last());
            }
            let mut r = transform_tools(rest);
            let tt = transform_tool(t);
            let ghost rprev = r.deep_view();
            let ghost rseq = r@;
            proof {
                lemma_dv_eq(&r);
            }
            r.push(tt);
            proof {
                lemma_dv_eq(&r);
                lemma_dv_seq_push(rseq, tt);
                assert(r.deep_view() == rprev.push(tt@));
            }
            r
        },
    }
}

/// Map the block rename over an array of content blocks.
fn transform_blocks(blocks: Vec<Json>, add: bool) -> (r: Vec<Json>)
    ensures
        add ==> r.deep_view() == spec_transform_blocks(blocks.deep_view()),
        !add ==> r.deep_view() == spec_strip_blocks(blocks.deep_view()),
    decreases blocks@.len(),
{
    let ghost tv = blocks.deep_view();
    let ghost orig = blocks@;
    proof {
        lemma_dv_eq(&blocks);
    }
    let mut rest = blocks;
    let last = rest.pop();
    match last {
        None => {
            proof {
                lemma_dv_eq(&rest);
                assert(tv =~= Seq::empty());
                assert(rest.deep_view() =~= Seq::<JsonModel>::empty());
            }
            rest
        },
        Some(t) => {
            proof {
                lemma_dv_eq(&rest);
                assert(rest@ =~= orig.drop_last());
                lemma_dv_seq_drop_last(orig);
                assert(rest.deep_view() == tv.drop_last());
                assert(t.deep_view() == tv.last());
            }
            let mut r = transform_blocks(rest, add);
            let tt = transform_block(t, add);
            let ghost rprev = r.deep_view();
            let ghost rseq = r@;
            proof {
                lemma_dv_eq(&r);
            }
            r.push(tt);
            proof {
                lemma_dv_eq(&r);
                lemma_dv_seq_push(rseq, tt);
                assert(r.deep_view() == rprev.push(tt@));
            }
            r
        },
    }
}

/// Rename the `tool_use` blocks inside one message's `content` array.
fn transform_msg(msg: Json) -> (r: Json)
    ensures
        r@ == spec_transform_msg(msg@),
{
    match msg {
        Json::Obj(members) => {
            proof {
                lemma_obj_view(members);
            }
            let mut members = members;
            let ghost m0 = members.deep_view();
            match find_key(&members, "content") {
                Some(i) => {
                    proof {
                        lemma_okey(m0, "content"@);
                    }
                    let v = obj_take_value(&mut members, i);
                    let ghost vv = v@;
                    let v2 = transform_content_value(v, true);
                    obj_update_value(&mut members, i, v2);
                    proof {
                        assert(members.deep_view() =~= obj_set(
                            m0,
                            "content"@,
                            spec_transform_content_value(vv),
                        ));
                        lemma_obj_view(members);
                    }
                    Json::Obj(members)
                },
                None => {
                    proof {
                        lemma_obj_view(members);
                    }
                    Json::Obj(members)
                },
            }
        },
        other => other,
    }
}

/// Map the message rename over an array of messages.
fn transform_msgs(msgs: Vec<Json>) -> (r: Vec<Json>)
    ensures
        r.deep_view() == spec_transform_msgs(msgs.deep_view()),
    decreases msgs@.len(),
{
    let ghost tv = msgs.deep_view();
    let ghost orig = msgs@;
    proof {
        lemma_dv_eq(&msgs);
    }
    let mut rest = msgs;
    let last = rest.pop();
    match last {
        None => {
            proof {
                lemma_dv_eq(&rest);
                assert(tv =~= Seq::empty());
                assert(rest.deep_view() =~= Seq::<JsonModel>::empty());
            }
            rest
        },
        Some(t) => {
            proof {
                lemma_dv_eq(&rest);
                assert(rest@ =~= orig.drop_last());
                lemma_dv_seq_drop_last(orig);
                assert(rest.deep_view() == tv.drop_last());
                assert(t.deep_view() == tv.last());
            }
            let mut r = transform_msgs(rest);
            let tt = transform_msg(t);
            let ghost rprev = r.deep_view();
            let ghost rseq = r@;
            proof {
                lemma_dv_eq(&r);
            }
            r.push(tt);
            proof {
                lemma_dv_eq(&r);
                lemma_dv_seq_push(rseq, tt);
                assert(r.deep_view() == rprev.push(tt@));
            }
            r
        },
    }
}

/// Apply the tool-definition rename to the value under `tools`.
fn transform_tools_value(v: Json) -> (r: Json)
    ensures
        r@ == spec_transform_tools_value(v@),
{
    match v {
        Json::Arr(items) => {
            proof {
                lemma_arr_view(items);
            }
            let nb = transform_tools(items);
            proof {
                lemma_arr_view(nb);
            }
            Json::Arr(nb)
        },
        other => other,
    }
}

/// Apply the block rename to the value under `content`.
fn transform_content_value(v: Json, add: bool) -> (r: Json)
    ensures
        add ==> r@ == spec_transform_content_value(v@),
        !add ==> r@ == spec_strip_content_value(v@),
{
    match v {
        Json::Arr(items) => {
            proof {
                lemma_arr_view(items);
            }
            let nb = transform_blocks(items, add);
            proof {
                lemma_arr_view(nb);
            }
            Json::Arr(nb)
        },
        other => other,
    }
}

/// Apply the message rename to the value under `messages`.
fn transform_msgs_value(v: Json) -> (r: Json)
    ensures
        r@ == spec_transform_msgs_value(v@),
{
    match v {
        Json::Arr(items) => {
            proof {
                lemma_arr_view(items);
            }
            let nb = transform_msgs(items);
            proof {
                lemma_arr_view(nb);
            }
            Json::Arr(nb)
        },
        other => other,
    }
}

/// The request-path transform, by value.
fn request_renamed(body: Json) -> (r: Json)
    ensures
        r@ == spec_transform_request(body@),
{
    match body {
        Json::Obj(members) => {
            proof {
                lemma_obj_view(members);
            }
            let mut members = members;
            let ghost m0 = members.deep_view();
            match find_key(&members, "tools") {
                Some(i) => {
                    proof {
                        lemma_okey(m0, "tools"@);
                    }
                    let v = obj_take_value(&mut members, i);
                    let ghost vv = v@;
                    let v2 = transform_tools_value(v);
                    obj_update_value(&mut members, i, v2);
                    proof {
                        assert(members.deep_view() =~= obj_set(
                            m0,
                            "tools"@,
                            spec_transform_tools_value(vv),
                        ));
                    }
                },
                None => {},
            }
            let ghost m1 = members.deep_view();
            match find_key(&members, "tool_choice") {
                Some(i) => {
                    proof {
                        lemma_okey(m1, "tool_choice"@);
                    }
                    let v = obj_take_value(&mut members, i);
                    let ghost vv = v@;
                    let v2 = transform_tool_choice(v);
                    obj_update_value(&mut members, i, v2);
                    proof {
                        assert(members.deep_view() =~= obj_set(
                            m1,
                            "tool_choice"@,
                            spec_transform_tool_choice(vv),
                        ));
                    }
                },
                None => {},
            }
            let ghost m2 = members.deep_view();
            match find_key(&members, "messages") {
                Some(i) => {
                    proof {
                        lemma_okey(m2, "messages"@);
                    }
                    let v = obj_take_value(&mut members, i);
                    let ghost vv = v@;
                    let v2 = transform_msgs_value(v);
                    obj_update_value(&mut members, i, v2);
                    proof {
                        assert(members.deep_view() =~= obj_set(
                            m2,
                            "messages"@,
                            spec_transform_msgs_value(vv),
                        ));
                    }
                },
                None => {},
            }
            proof {
                lemma_obj_view(members);
            }
            Json::Obj(members)
        },
        other => other,
    }
}

/// The response-path transform, by value.
fn response_renamed(body: Json) -> (r: Json)
    ensures
        r@ == spec_transform_response(body@),
{
    match body {
        Json::Obj(members) => {
            proof {
                lemma_obj_view(members);
            }
            let mut members = members;
            let ghost m0 = members.deep_view();
            match find_key(&members, "content") {
                Some(i) => {
                    proof {
                        lemma_okey(m0, "content"@);
                    }
                    let v = obj_take_value(&mut members, i);
                    let ghost vv = v@;
                    let v2 = transform_content_value(v, false);
                    obj_update_value(&mut members, i, v2);
                    proof {
                        assert(members.deep_view() =~= obj_set(
                            m0,
                            "content"@,
                            spec_strip_content_value(vv),
                        ));
                        lemma_obj_view(members);
                    }
                    Json::Obj(members)
                },
                None => {
                    proof {
                        lemma_obj_view(members);
                    }
                    Json::Obj(members)
                },
            }
        },
        other => other,
    }
}

/// Add the namespace prefix to every tool name a request body mentions:
/// tool definitions (built-ins excepted), a `tool_choice` selector of kind
/// `tool`, and `tool_use` blocks in the message history.
pub fn transform_request_tool_names(body: &mut Json)
    ensures
        final(body)@ == spec_transform_request(old(body)@),
{
    let mut tmp = Json::Null;
    core::mem::swap(body, &mut tmp);
    let out = request_renamed(tmp);
    *body = out;
}

/// Strip the namespace prefix from every `tool_use` block in a response
/// body's `content` array.
pub fn transform_response_tool_names(body: &mut Json)
    ensures
        final(body)@ == spec_transform_response(old(body)@),
{
    let mut tmp = Json::Null;
    core::mem::swap(body, &mut tmp);
    let out = response_renamed(tmp);
    *body = out;
}

} // verus!
