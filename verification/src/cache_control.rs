//! Cache-breakpoint planner: annotate a structured-format request body with
//! at most four caching hints, in a fixed priority order — tool definitions
//! first, then the system prompt, then the second-to-last user turn.

use vstd::prelude::*;

use crate::json::{
    find_key, lemma_arr_view, lemma_obj_view, lemma_okey, obj_get, obj_get_ref, obj_set,
    obj_set_value, obj_take_value, obj_update_value, Json, JsonModel,
};
use crate::strutil::str_eq;
use crate::views::{lemma_dv_eq, lemma_dv_seq_drop_last, lemma_dv_seq_push};

verus! {

/// The annotation object: `{"cache_control": {"type": "ephemeral"}}` merged
/// into a target carries this value under `cache_control`.
pub open spec fn spec_cc_val() -> JsonModel {
    JsonModel::Obj(seq![("type"@, JsonModel::Str("ephemeral"@))])
}

/// Whether one array item carries an annotation.
pub open spec fn spec_item_has_cc(j: JsonModel) -> bool {
    match j {
        JsonModel::Obj(mm) => crate::json::okey(mm, "cache_control"@) is Some,
        _ => false,
    }
}

/// How many items of the run carry an annotation.
pub open spec fn spec_count_items(s: Seq<JsonModel>) -> int
    decreases s.len(),
{
    if s.len() == 0 {
        0
    } else {
        spec_count_items(s.drop_last()) + if spec_item_has_cc(s.last()) {
            1int
        } else {
            0int
        }
    }
}

/// How many annotations one message's content array carries.
pub open spec fn spec_msg_cc(msg: JsonModel) -> int {
    match msg {
        JsonModel::Obj(mm) => match obj_get(mm, "content"@) {
            Some(JsonModel::Arr(bs)) => spec_count_items(bs),
            _ => 0,
        },
        _ => 0,
    }
}

/// How many annotations a run of messages carries.
pub open spec fn spec_count_msgs(s: Seq<JsonModel>) -> int
    decreases s.len(),
{
    if s.len() == 0 {
        0
    } else {
        spec_count_msgs(s.drop_last()) + spec_msg_cc(s.last())
    }
}

/// The total annotation count of a body, across the three zones.
pub open spec fn spec_count_cc(b: JsonModel) -> int {
    match b {
        JsonModel::Obj(m) => {
            let sys = match obj_get(m, "system"@) {
                Some(JsonModel::Arr(s)) => spec_count_items(s),
                _ => 0,
            };
            let tools = match obj_get(m, "tools"@) {
                Some(JsonModel::Arr(s)) => spec_count_items(s),
                _ => 0,
            };
            let msgs = match obj_get(m, "messages"@) {
                Some(JsonModel::Arr(s)) => spec_count_msgs(s),
                _ => 0,
            };
            sys + tools + msgs
        },
        _ => 0,
    }
}

/// An item with the annotation merged in, when it is an object.
pub open spec fn spec_with_cc(j: JsonModel) -> JsonModel {
    match j {
        JsonModel::Obj(mm) => JsonModel::Obj(obj_set(mm, "cache_control"@, spec_cc_val())),
        _ => j,
    }
}

/// A non-empty run with its last item annotated.
pub open spec fn spec_set_cc_last(s: Seq<JsonModel>) -> Seq<JsonModel>
    recommends
        s.len() > 0,
{
    s.update(s.len() - 1, spec_with_cc(s.last()))
}

/// A one-block array for a bare string prompt, annotated.
pub open spec fn spec_text_block_cc(t: Seq<char>) -> JsonModel {
    JsonModel::Obj(
        seq![
            ("type"@, JsonModel::Str("text"@)),
            ("text"@, JsonModel::Str(t)),
            ("cache_control"@, spec_cc_val()),
        ],
    )
}

/// Annotate the last tool definition, unless the zone already has an
/// annotation or has nothing to annotate.
pub open spec fn spec_inject_tools(b: JsonModel) -> JsonModel {
    match b {
        JsonModel::Obj(m) => match obj_get(m, "tools"@) {
            Some(JsonModel::Arr(ts)) => {
                if ts.len() == 0 || spec_count_items(ts) > 0 {
                    b
                } else {
                    JsonModel::Obj(obj_set(m, "tools"@, JsonModel::Arr(spec_set_cc_last(ts))))
                }
            },
            _ => b,
        },
        _ => b,
    }
}

/// Annotate the last system-prompt block, converting a bare string prompt
/// into a one-element block array first.
pub open spec fn spec_inject_system(b: JsonModel) -> JsonModel {
    match b {
        JsonModel::Obj(m) => match obj_get(m, "system"@) {
            Some(JsonModel::Arr(s)) => {
                if s.len() == 0 || spec_count_items(s) > 0 {
                    b
                } else {
                    JsonModel::Obj(obj_set(m, "system"@, JsonModel::Arr(spec_set_cc_last(s))))
                }
            },
            Some(JsonModel::Str(t)) => JsonModel::Obj(
                obj_set(m, "system"@, JsonModel::Arr(seq![spec_text_block_cc(t)])),
            ),
            _ => b,
        },
        _ => b,
    }
}

/// Whether a message's role member is the string `user`.
pub open spec fn spec_is_user(j: JsonModel) -> bool {
    match j {
        JsonModel::Obj(mm) => obj_get(mm, "role"@) == Some(JsonModel::Str("user"@)),
        _ => false,
    }
}

/// The largest user-turn index below `upto`, if any.
pub open spec fn spec_last_user(s: Seq<JsonModel>, upto: int) -> Option<int>
    decreases upto,
{
    if upto <= 0 {
        None
    } else if spec_is_user(s[upto - 1]) {
        Some(upto - 1)
    } else {
        spec_last_user(s, upto - 1)
    }
}

/// The second-to-last user-turn index, if at least two user turns exist.
pub open spec fn spec_second_last_user(s: Seq<JsonModel>) -> Option<int> {
    match spec_last_user(s, s.len() as int) {
        Some(j1) => spec_last_user(s, j1),
        None => None,
    }
}

/// One message with its content annotated: the last block of an array, or a
/// bare string converted to a one-block array.
pub open spec fn spec_msg_with_cc(msg: JsonModel) -> JsonModel {
    match msg {
        JsonModel::Obj(mm) => match obj_get(mm, "content"@) {
            Some(JsonModel::Arr(bs)) => {
                if bs.len() == 0 {
                    msg
                } else {
                    JsonModel::Obj(obj_set(mm, "content"@, JsonModel::Arr(spec_set_cc_last(bs))))
                }
            },
            Some(JsonModel::Str(t)) => JsonModel::Obj(
                obj_set(mm, "content"@, JsonModel::Arr(seq![spec_text_block_cc(t)])),
            ),
            _ => msg,
        },
        _ => msg,
    }
}

/// Annotate the second-to-last user turn, when no message carries an
/// annotation and at least two user turns exist.
pub open spec fn spec_inject_messages(b: JsonModel) -> JsonModel {
    match b {
        JsonModel::Obj(m) => match obj_get(m, "messages"@) {
            Some(JsonModel::Arr(s)) => {
                if spec_count_msgs(s) > 0 {
                    b
                } else {
                    match spec_second_last_user(s) {
                        Some(j) => JsonModel::Obj(
                            obj_set(
                                m,
                                "messages"@,
                                JsonModel::Arr(s.update(j, spec_msg_with_cc(s[j]))),
                            ),
                        ),
                        None => b,
                    }
                }
            },
            _ => b,
        },
        _ => b,
    }
}

/// What the planner yields: nothing when the budget is already spent, else
/// the three zones in priority order, each only while budget remains.
pub open spec fn spec_plan(b: JsonModel) -> JsonModel {
    if spec_count_cc(b) >= 4 {
        b
    } else {
        let b1 = spec_inject_tools(b);
        let b2 = if spec_count_cc(b1) < 4 {
            spec_inject_system(b1)
        } else {
            b1
        };
        if spec_count_cc(b2) < 4 {
            spec_inject_messages(b2)
        } else {
            b2
        }
    }
}

/// A planner run on a saturated body changes nothing: four annotations
/// anywhere mean zero further mutation.
pub proof fn lemma_plan_saturated(b: JsonModel)
    requires
        spec_count_cc(b) >= 4,
    ensures
        spec_plan(b) == b,
{
}

/// The count of a one-item run.
proof fn lemma_count_singleton(x: JsonModel)
    ensures
        spec_count_items(seq![x]) == if spec_item_has_cc(x) {
            1int
        } else {
            0int
        },
{
    let arr = seq![x];
    assert(arr.len() == 1);
    assert(arr.last() == x);
    assert(arr.drop_last().len() == 0);
    assert(spec_count_items(arr.drop_last()) == 0);
}

/// The zone keys differ from one another.
proof fn lemma_zone_keys()
    ensures
        "tools"@ != "system"@,
        "tools"@ != "messages"@,
        "system"@ != "messages"@,
        "type"@ != "cache_control"@,
        "text"@ != "cache_control"@,
{
    reveal_strlit("tools");
    reveal_strlit("system");
    reveal_strlit("messages");
    reveal_strlit("type");
    reveal_strlit("text");
    reveal_strlit("cache_control");
    assert("tools"@.len() == 5);
    assert("system"@.len() == 6);
    assert("messages"@.len() == 8);
    assert("type"@.len() == 4);
    assert("text"@.len() == 4);
    assert("cache_control"@.len() == 13);
    assert("type"@[1] == 'y');
    assert("text"@[1] == 'e');
}

/// The synthesized text block carries an annotation.
proof fn lemma_text_block_cc_has(t: Seq<char>)
    ensures
        spec_item_has_cc(spec_text_block_cc(t)),
{
    lemma_zone_keys();
    let k = "cache_control"@;
    let m = spec_text_block_cc(t)->Obj_0;
    let t1 = m.drop_first();
    let t2 = t1.drop_first();
    assert(t2.len() == 1 && t2[0] == m[2]);
    assert(t1.len() == 2 && t1[0] == m[1]);
    assert(crate::json::okey(t2, k) == Some(0int));
    assert(t1.drop_first() =~= t2);
    assert(crate::json::okey(t1, k) == Some(1int));
    assert(crate::json::okey(m, k) == Some(2int));
}

/// An annotated object item carries an annotation.
proof fn lemma_with_cc_has(j: JsonModel)
    requires
        j is Obj,
    ensures
        spec_item_has_cc(spec_with_cc(j)),
{
    let mm = j->Obj_0;
    crate::json::lemma_obj_get_set(mm, "cache_control"@, spec_cc_val(), "cache_control"@);
}

/// One message's count is within the whole run's count.
proof fn lemma_msg_cc_le(s: Seq<JsonModel>, j: int)
    requires
        0 <= j < s.len(),
    ensures
        spec_msg_cc(s[j]) <= spec_count_msgs(s),
    decreases s.len(),
{
    lemma_count_msgs_nonneg(s.drop_last());
    match s.last() {
        JsonModel::Obj(mm) => match obj_get(mm, "content"@) {
            Some(JsonModel::Arr(bs)) => {
                lemma_count_items_nonneg(bs);
            },
            _ => {},
        },
        _ => {},
    }
    if j < s.len() - 1 {
        lemma_msg_cc_le(s.drop_last(), j);
        assert(s.drop_last()[j] == s[j]);
    }
}

/// Updating one message shifts the count by that message's difference.
proof fn lemma_count_msgs_update(s: Seq<JsonModel>, j: int, v: JsonModel)
    requires
        0 <= j < s.len(),
    ensures
        spec_count_msgs(s.update(j, v)) == spec_count_msgs(s) - spec_msg_cc(s[j]) + spec_msg_cc(
            v,
        ),
    decreases s.len(),
{
    let s2 = s.update(j, v);
    if j == s.len() - 1 {
        assert(s2.drop_last() =~= s.drop_last());
        assert(s2.last() == v);
    } else {
        assert(s2.drop_last() =~= s.drop_last().update(j, v));
        assert(s2.last() == s.last());
        lemma_count_msgs_update(s.drop_last(), j, v);
        assert(s.drop_last()[j] == s[j]);
    }
}

/// The count of a run with its last item annotated.
proof fn lemma_count_set_cc_last(s: Seq<JsonModel>)
    requires
        s.len() > 0,
    ensures
        spec_count_items(spec_set_cc_last(s)) == spec_count_items(s.drop_last()) + if
            spec_item_has_cc(spec_with_cc(s.last())) {
            1int
        } else {
            0int
        },
{
    let s2 = spec_set_cc_last(s);
    assert(s2.drop_last() =~= s.drop_last());
    assert(s2.last() == spec_with_cc(s.last()));
}

/// Whether the tools zone would change under another injection.
pub open spec fn spec_tools_settled(v: Option<JsonModel>) -> bool {
    match v {
        Some(JsonModel::Arr(ts)) => ts.len() == 0 || spec_count_items(ts) > 0 || spec_set_cc_last(
            ts,
        ) == ts,
        _ => true,
    }
}

/// Whether the system zone would change under another injection.
pub open spec fn spec_system_settled(v: Option<JsonModel>) -> bool {
    match v {
        Some(JsonModel::Arr(ts)) => ts.len() == 0 || spec_count_items(ts) > 0 || spec_set_cc_last(
            ts,
        ) == ts,
        Some(JsonModel::Str(t)) => false,
        _ => true,
    }
}

/// Whether the message zone would change under another injection.
pub open spec fn spec_msgs_settled(v: Option<JsonModel>) -> bool {
    match v {
        Some(JsonModel::Arr(s)) => spec_count_msgs(s) > 0 || match spec_second_last_user(s) {
            Some(j) => s.update(j, spec_msg_with_cc(s[j])) == s,
            None => true,
        },
        _ => true,
    }
}

/// A settled non-empty run stays itself under the last-item annotation.
proof fn lemma_set_cc_last_self(ts: Seq<JsonModel>)
    requires
        ts.len() > 0,
        !(ts.last() is Obj),
    ensures
        spec_set_cc_last(ts) == ts,
{
    assert(spec_set_cc_last(ts) =~= ts);
}

/// The tools zone of an injection result is settled, and the rest of the
/// body is untouched.
proof fn lemma_inj_tools_settles(x: JsonModel)
    ensures
        x is Obj ==> {
            let m2 = spec_inject_tools(x)->Obj_0;
            &&& spec_inject_tools(x) is Obj
            &&& spec_tools_settled(obj_get(m2, "tools"@))
            &&& obj_get(m2, "system"@) == obj_get(x->Obj_0, "system"@)
            &&& obj_get(m2, "messages"@) == obj_get(x->Obj_0, "messages"@)
        },
        !(x is Obj) ==> spec_inject_tools(x) == x,
{
    lemma_zone_keys();
    if x is Obj {
        let m = x->Obj_0;
        match obj_get(m, "tools"@) {
            Some(JsonModel::Arr(ts)) => {
                if ts.len() == 0 || spec_count_items(ts) > 0 {
                } else {
                    let ts2 = spec_set_cc_last(ts);
                    let m2 = obj_set(m, "tools"@, JsonModel::Arr(ts2));
                    crate::json::lemma_obj_get_set(m, "tools"@, JsonModel::Arr(ts2), "tools"@);
                    crate::json::lemma_obj_get_set(m, "tools"@, JsonModel::Arr(ts2), "system"@);
                    crate::json::lemma_obj_get_set(m, "tools"@, JsonModel::Arr(ts2), "messages"@);
                    if ts.last() is Obj {
                        lemma_with_cc_has(ts.last());
                        lemma_count_set_cc_last(ts);
                        lemma_count_items_nonneg(ts.drop_last());
                        assert(spec_count_items(ts2) > 0);
                    } else {
                        lemma_set_cc_last_self(ts);
                        assert(ts2 == ts);
                        assert(spec_set_cc_last(ts2) == ts2);
                    }
                }
            },
            _ => {},
        }
    }
}

/// A settled tools zone makes the injection a no-op.
proof fn lemma_inj_tools_noop(x: JsonModel)
    requires
        x is Obj ==> spec_tools_settled(obj_get(x->Obj_0, "tools"@)),
    ensures
        spec_inject_tools(x) == x,
{
    if x is Obj {
        let m = x->Obj_0;
        match obj_get(m, "tools"@) {
            Some(JsonModel::Arr(ts)) => {
                if ts.len() == 0 || spec_count_items(ts) > 0 {
                } else {
                    assert(spec_set_cc_last(ts) == ts);
                    crate::json::lemma_obj_set_same(m, "tools"@, JsonModel::Arr(ts));
                }
            },
            _ => {},
        }
    }
}

/// The system zone of an injection result is settled, and the rest of the
/// body is untouched.
proof fn lemma_inj_system_settles(x: JsonModel)
    ensures
        x is Obj ==> {
            let m2 = spec_inject_system(x)->Obj_0;
            &&& spec_inject_system(x) is Obj
            &&& spec_system_settled(obj_get(m2, "system"@))
            &&& obj_get(m2, "tools"@) == obj_get(x->Obj_0, "tools"@)
            &&& obj_get(m2, "messages"@) == obj_get(x->Obj_0, "messages"@)
        },
        !(x is Obj) ==> spec_inject_system(x) == x,
{
    lemma_zone_keys();
    if x is Obj {
        let m = x->Obj_0;
        match obj_get(m, "system"@) {
            Some(JsonModel::Arr(ts)) => {
                if ts.len() == 0 || spec_count_items(ts) > 0 {
                } else {
                    let ts2 = spec_set_cc_last(ts);
                    crate::json::lemma_obj_get_set(m, "system"@, JsonModel::Arr(ts2), "system"@);
                    crate::json::lemma_obj_get_set(m, "system"@, JsonModel::Arr(ts2), "tools"@);
                    crate::json::lemma_obj_get_set(m, "system"@, JsonModel::Arr(ts2), "messages"@);
                    if ts.last() is Obj {
                        lemma_with_cc_has(ts.last());
                        lemma_count_set_cc_last(ts);
                        lemma_count_items_nonneg(ts.drop_last());
                        assert(spec_count_items(ts2) > 0);
                    } else {
                        lemma_set_cc_last_self(ts);
                        assert(spec_set_cc_last(ts2) == ts2);
                    }
                }
            },
            Some(JsonModel::Str(t)) => {
                let arr = seq![spec_text_block_cc(t)];
                crate::json::lemma_obj_get_set(m, "system"@, JsonModel::Arr(arr), "system"@);
                crate::json::lemma_obj_get_set(m, "system"@, JsonModel::Arr(arr), "tools"@);
                crate::json::lemma_obj_get_set(m, "system"@, JsonModel::Arr(arr), "messages"@);
                lemma_text_block_cc_has(t);
                lemma_count_singleton(spec_text_block_cc(t));
                assert(spec_count_items(arr) == 1);
            },
            _ => {},
        }
    }
}

/// A settled system zone makes the injection a no-op.
proof fn lemma_inj_system_noop(x: JsonModel)
    requires
        x is Obj ==> spec_system_settled(obj_get(x->Obj_0, "system"@)),
    ensures
        spec_inject_system(x) == x,
{
    if x is Obj {
        let m = x->Obj_0;
        match obj_get(m, "system"@) {
            Some(JsonModel::Arr(ts)) => {
                if ts.len() == 0 || spec_count_items(ts) > 0 {
                } else {
                    assert(spec_set_cc_last(ts) == ts);
                    crate::json::lemma_obj_set_same(m, "system"@, JsonModel::Arr(ts));
                }
            },
            _ => {},
        }
    }
}

/// The message annotated for the second-to-last user turn either carries
/// an annotation or is unchanged.
proof fn lemma_msg_with_cc_cases(msg: JsonModel)
    ensures
        spec_msg_cc(spec_msg_with_cc(msg)) >= 1 || spec_msg_with_cc(msg) == msg,
{
    lemma_zone_keys();
    match msg {
        JsonModel::Obj(mm) => {
            match obj_get(mm, "content"@) {
                Some(JsonModel::Arr(bs)) => {
                    if bs.len() == 0 {
                    } else {
                        let bs2 = spec_set_cc_last(bs);
                        crate::json::lemma_obj_get_set(
                            mm,
                            "content"@,
                            JsonModel::Arr(bs2),
                            "content"@,
                        );
                        if bs.last() is Obj {
                            lemma_with_cc_has(bs.last());
                            lemma_count_set_cc_last(bs);
                            lemma_count_items_nonneg(bs.drop_last());
                            assert(spec_count_items(bs2) >= 1);
                        } else {
                            lemma_set_cc_last_self(bs);
                            crate::json::lemma_obj_set_same(mm, "content"@, JsonModel::Arr(bs));
                        }
                    }
                },
                Some(JsonModel::Str(t)) => {
                    let arr = seq![spec_text_block_cc(t)];
                    crate::json::lemma_obj_get_set(mm, "content"@, JsonModel::Arr(arr), "content"@);
                    lemma_text_block_cc_has(t);
                    lemma_count_singleton(spec_text_block_cc(t));
                    assert(spec_count_items(arr) == 1);
                },
                _ => {},
            }
        },
        _ => {},
    }
}

/// The message zone of an injection result is settled, and the rest of the
/// body is untouched.
proof fn lemma_inj_messages_settles(x: JsonModel)
    ensures
        x is Obj ==> {
            let m2 = spec_inject_messages(x)->Obj_0;
            &&& spec_inject_messages(x) is Obj
            &&& spec_msgs_settled(obj_get(m2, "messages"@))
            &&& obj_get(m2, "tools"@) == obj_get(x->Obj_0, "tools"@)
            &&& obj_get(m2, "system"@) == obj_get(x->Obj_0, "system"@)
        },
        !(x is Obj) ==> spec_inject_messages(x) == x,
{
    lemma_zone_keys();
    if x is Obj {
        let m = x->Obj_0;
        match obj_get(m, "messages"@) {
            Some(JsonModel::Arr(s)) => {
                if spec_count_msgs(s) > 0 {
                } else {
                    match spec_second_last_user(s) {
                        Some(j) => {
                            let msg2 = spec_msg_with_cc(s[j]);
                            let s2 = s.update(j, msg2);
                            crate::json::lemma_obj_get_set(
                                m,
                                "messages"@,
                                JsonModel::Arr(s2),
                                "messages"@,
                            );
                            crate::json::lemma_obj_get_set(
                                m,
                                "messages"@,
                                JsonModel::Arr(s2),
                                "tools"@,
                            );
                            crate::json::lemma_obj_get_set(
                                m,
                                "messages"@,
                                JsonModel::Arr(s2),
                                "system"@,
                            );
                            lemma_last_user_range(s, s.len() as int);
                            lemma_msg_with_cc_cases(s[j]);
                            if spec_msg_cc(msg2) >= 1 {
                                lemma_msg_cc_le(s2, j);
                                assert(s2[j] == msg2);
                                assert(spec_count_msgs(s2) >= 1);
                            } else {
                                assert(msg2 == s[j]);
                                assert(s2 =~= s);
                                assert(s2.update(j, spec_msg_with_cc(s2[j])) == s2);
                            }
                        },
                        None => {},
                    }
                }
            },
            _ => {},
        }
    }
}

/// A settled message zone makes the injection a no-op.
proof fn lemma_inj_messages_noop(x: JsonModel)
    requires
        x is Obj ==> spec_msgs_settled(obj_get(x->Obj_0, "messages"@)),
    ensures
        spec_inject_messages(x) == x,
{
    if x is Obj {
        let m = x->Obj_0;
        match obj_get(m, "messages"@) {
            Some(JsonModel::Arr(s)) => {
                if spec_count_msgs(s) > 0 {
                } else {
                    match spec_second_last_user(s) {
                        Some(j) => {
                            assert(s.update(j, spec_msg_with_cc(s[j])) == s);
                            crate::json::lemma_obj_set_same(m, "messages"@, JsonModel::Arr(s));
                        },
                        None => {},
                    }
                }
            },
            _ => {},
        }
    }
}

/// A found user index lies in range.
proof fn lemma_last_user_range(s: Seq<JsonModel>, upto: int)
    requires
        upto <= s.len(),
    ensures
        match spec_last_user(s, upto) {
            Some(j) => 0 <= j < upto,
            None => true,
        },
        match spec_second_last_user(s) {
            Some(j) => 0 <= j < s.len(),
            None => true,
        },
    decreases upto,
{
    if upto > 0 && !spec_is_user(s[upto - 1]) {
        lemma_last_user_range(s, upto - 1);
    }
    match spec_last_user(s, s.len() as int) {
        Some(j1) => {
            lemma_last_user_range_one(s, s.len() as int);
            lemma_last_user_range_one(s, j1);
        },
        None => {},
    }
}

proof fn lemma_last_user_range_one(s: Seq<JsonModel>, upto: int)
    requires
        upto <= s.len(),
    ensures
        match spec_last_user(s, upto) {
            Some(j) => 0 <= j < upto,
            None => true,
        },
    decreases upto,
{
    if upto > 0 && !spec_is_user(s[upto - 1]) {
        lemma_last_user_range_one(s, upto - 1);
    }
}

/// Applying the planner twice yields the same annotated body as once.
pub proof fn lemma_plan_idempotent(b: JsonModel)
    ensures
        spec_plan(spec_plan(b)) == spec_plan(b),
{
    if spec_count_cc(b) >= 4 {
    } else if !(b is Obj) {
        lemma_inj_tools_settles(b);
        lemma_inj_system_settles(b);
        lemma_inj_messages_settles(b);
        assert(spec_plan(b) == b);
    } else {
        let b1 = spec_inject_tools(b);
        let b2 = if spec_count_cc(b1) < 4 {
            spec_inject_system(b1)
        } else {
            b1
        };
        let b3 = if spec_count_cc(b2) < 4 {
            spec_inject_messages(b2)
        } else {
            b2
        };
        let p = spec_plan(b);
        assert(p == b3);
        if spec_count_cc(p) >= 4 {
        } else {
            lemma_inj_tools_settles(b);
            assert(spec_count_cc(b1) < 4) by {
                if spec_count_cc(b1) >= 4 {
                    assert(b2 == b1 && b3 == b2);
                }
            }
            lemma_inj_system_settles(b1);
            assert(b2 == spec_inject_system(b1));
            assert(spec_count_cc(b2) < 4) by {
                if spec_count_cc(b2) >= 4 {
                    assert(b3 == b2);
                }
            }
            lemma_inj_messages_settles(b2);
            assert(b3 == spec_inject_messages(b2));
            // the tools zone stays settled through the later stages
            assert(spec_tools_settled(obj_get(b3->Obj_0, "tools"@)));
            assert(spec_system_settled(obj_get(b3->Obj_0, "system"@)));
            assert(spec_msgs_settled(obj_get(b3->Obj_0, "messages"@)));
            lemma_inj_tools_noop(p);
            lemma_inj_system_noop(p);
            lemma_inj_messages_noop(p);
            assert(spec_plan(p) == p);
        }
    }
}

/// A planner run keeps a body within the four-annotation budget.
pub proof fn lemma_plan_budget(b: JsonModel)
    requires
        spec_count_cc(b) <= 4,
    ensures
        spec_count_cc(spec_plan(b)) <= 4,
{
    if spec_count_cc(b) >= 4 {
    } else {
        lemma_inj_tools_count(b);
        let b1 = spec_inject_tools(b);
        lemma_inj_system_count(b1);
        let b2 = if spec_count_cc(b1) < 4 {
            spec_inject_system(b1)
        } else {
            b1
        };
        lemma_inj_messages_count(b2);
    }
}

/// One injection adds at most one annotation.
proof fn lemma_inj_tools_count(x: JsonModel)
    ensures
        spec_count_cc(spec_inject_tools(x)) <= spec_count_cc(x) + 1,
{
    lemma_zone_keys();
    if x is Obj {
        let m = x->Obj_0;
        match obj_get(m, "tools"@) {
            Some(JsonModel::Arr(ts)) => {
                if ts.len() == 0 || spec_count_items(ts) > 0 {
                } else {
                    let ts2 = spec_set_cc_last(ts);
                    crate::json::lemma_obj_get_set(m, "tools"@, JsonModel::Arr(ts2), "tools"@);
                    crate::json::lemma_obj_get_set(m, "tools"@, JsonModel::Arr(ts2), "system"@);
                    crate::json::lemma_obj_get_set(m, "tools"@, JsonModel::Arr(ts2), "messages"@);
                    lemma_count_set_cc_last(ts);
                    lemma_count_items_nonneg(ts.drop_last());
                    assert(spec_count_items(ts.drop_last()) <= spec_count_items(ts));
                }
            },
            _ => {},
        }
    }
}

proof fn lemma_inj_system_count(x: JsonModel)
    ensures
        spec_count_cc(spec_inject_system(x)) <= spec_count_cc(x) + 1,
{
    lemma_zone_keys();
    if x is Obj {
        let m = x->Obj_0;
        match obj_get(m, "system"@) {
            Some(JsonModel::Arr(ts)) => {
                if ts.len() == 0 || spec_count_items(ts) > 0 {
                } else {
                    let ts2 = spec_set_cc_last(ts);
                    crate::json::lemma_obj_get_set(m, "system"@, JsonModel::Arr(ts2), "system"@);
                    crate::json::lemma_obj_get_set(m, "system"@, JsonModel::Arr(ts2), "tools"@);
                    crate::json::lemma_obj_get_set(m, "system"@, JsonModel::Arr(ts2), "messages"@);
                    lemma_count_set_cc_last(ts);
                    lemma_count_items_nonneg(ts.drop_last());
                    assert(spec_count_items(ts.drop_last()) <= spec_count_items(ts));
                }
            },
            Some(JsonModel::Str(t)) => {
                let arr = seq![spec_text_block_cc(t)];
                crate::json::lemma_obj_get_set(m, "system"@, JsonModel::Arr(arr), "system"@);
                crate::json::lemma_obj_get_set(m, "system"@, JsonModel::Arr(arr), "tools"@);
                crate::json::lemma_obj_get_set(m, "system"@, JsonModel::Arr(arr), "messages"@);
                lemma_count_singleton(spec_text_block_cc(t));
                assert(spec_count_items(arr) <= 1);
            },
            _ => {},
        }
    }
}

proof fn lemma_inj_messages_count(x: JsonModel)
    ensures
        spec_count_cc(spec_inject_messages(x)) <= spec_count_cc(x) + 1,
{
    lemma_zone_keys();
    if x is Obj {
        let m = x->Obj_0;
        match obj_get(m, "messages"@) {
            Some(JsonModel::Arr(s)) => {
                if spec_count_msgs(s) > 0 {
                } else {
                    match spec_second_last_user(s) {
                        Some(j) => {
                            lemma_last_user_range(s, s.len() as int);
                            let msg2 = spec_msg_with_cc(s[j]);
                            let s2 = s.update(j, msg2);
                            crate::json::lemma_obj_get_set(
                                m,
                                "messages"@,
                                JsonModel::Arr(s2),
                                "messages"@,
                            );
                            crate::json::lemma_obj_get_set(
                                m,
                                "messages"@,
                                JsonModel::Arr(s2),
                                "tools"@,
                            );
                            crate::json::lemma_obj_get_set(
                                m,
                                "messages"@,
                                JsonModel::Arr(s2),
                                "system"@,
                            );
                            lemma_count_msgs_update(s, j, msg2);
                            lemma_msg_cc_le(s, j);
                            lemma_count_msgs_nonneg(s);
                            lemma_msg_with_cc_le_one(s[j]);
                        },
                        None => {},
                    }
                }
            },
            _ => {},
        }
    }
}

/// Annotating one message adds at most one annotation to it.
proof fn lemma_msg_with_cc_le_one(msg: JsonModel)
    ensures
        spec_msg_cc(spec_msg_with_cc(msg)) <= spec_msg_cc(msg) + 1,
{
    lemma_zone_keys();
    match msg {
        JsonModel::Obj(mm) => {
            match obj_get(mm, "content"@) {
                Some(JsonModel::Arr(bs)) => {
                    if bs.len() == 0 {
                    } else {
                        let bs2 = spec_set_cc_last(bs);
                        crate::json::lemma_obj_get_set(
                            mm,
                            "content"@,
                            JsonModel::Arr(bs2),
                            "content"@,
                        );
                        lemma_count_set_cc_last(bs);
                        lemma_count_items_nonneg(bs.drop_last());
                        assert(spec_count_items(bs.drop_last()) <= spec_count_items(bs));
                    }
                },
                Some(JsonModel::Str(t)) => {
                    let arr = seq![spec_text_block_cc(t)];
                    crate::json::lemma_obj_get_set(mm, "content"@, JsonModel::Arr(arr), "content"@);
                    lemma_count_singleton(spec_text_block_cc(t));
                    assert(spec_count_items(arr) <= 1);
                },
                _ => {},
            }
        },
        _ => {},
    }
}

/// The annotation object as a value.
fn cc_json() -> (r: Json)
    ensures
        r@ == spec_cc_val(),
{
    let mut inner: Vec<(String, Json)> = Vec::new();
    inner.push((String::from_str("type"), Json::Str(String::from_str("ephemeral"))));
    proof {
        lemma_obj_view(inner);
        assert(inner.deep_view() =~= seq![("type"@, JsonModel::Str("ephemeral"@))]);
    }
    Json::Obj(inner)
}

/// Whether one item carries an annotation.
fn item_has_cc(j: &Json) -> (r: bool)
    ensures
        r == spec_item_has_cc(j@),
{
    match j {
        Json::Obj(mm) => {
            proof {
                lemma_obj_view(*mm);
            }
            find_key(mm, "cache_control").is_some()
        },
        _ => false,
    }
}

/// Count the annotated items of an array.
fn count_items(items: &Vec<Json>) -> (r: usize)
    ensures
        r == spec_count_items(items.deep_view()),
        r <= items@.len(),
{
    let ghost dv = items.deep_view();
    let mut n: usize = 0;
    let mut i: usize = 0;
    while i < items.len()
        invariant
            dv == items.deep_view(),
            dv.len() == items@.len(),
            i <= items@.len(),
            n <= i,
            n == spec_count_items(dv.take(i as int)),
        decreases items@.len() - i,
    {
        proof {
            assert(dv.take(i + 1).drop_last() =~= dv.take(i as int));
            assert(dv.take(i + 1).last() == dv[i as int]);
            assert(dv[i as int] == items@[i as int].deep_view());
        }
        if item_has_cc(&items[i]) {
            n += 1;
        }
        i += 1;
    }
    proof {
        assert(dv.take(items@.len() as int) =~= dv);
    }
    n
}

/// An item count is never negative.
pub proof fn lemma_count_items_nonneg(s: Seq<JsonModel>)
    ensures
        spec_count_items(s) >= 0,
    decreases s.len(),
{
    if s.len() > 0 {
        lemma_count_items_nonneg(s.drop_last());
    }
}

/// A message count is never negative.
pub proof fn lemma_count_msgs_nonneg(s: Seq<JsonModel>)
    ensures
        spec_count_msgs(s) >= 0,
    decreases s.len(),
{
    if s.len() > 0 {
        lemma_count_msgs_nonneg(s.drop_last());
        match s.last() {
            JsonModel::Obj(mm) => {
                match obj_get(mm, "content"@) {
                    Some(JsonModel::Arr(bs)) => {
                        lemma_count_items_nonneg(bs);
                    },
                    _ => {},
                }
            },
            _ => {},
        }
    }
}

/// Count the annotations a run of messages carries, saturating at the
/// budget: the planner only ever compares this count with zero and four.
fn count_msgs(msgs: &Vec<Json>) -> (r: usize)
    ensures
        spec_count_msgs(msgs.deep_view()) >= 4 ==> r == 4,
        spec_count_msgs(msgs.deep_view()) < 4 ==> r == spec_count_msgs(msgs.deep_view()),
        r <= 4,
{
    let ghost dv = msgs.deep_view();
    let mut n: usize = 0;
    let mut i: usize = 0;
    while i < msgs.len()
        invariant
            dv == msgs.deep_view(),
            dv.len() == msgs@.len(),
            i <= msgs@.len(),
            n <= 4,
            spec_count_msgs(dv.take(i as int)) >= 4 ==> n == 4,
            spec_count_msgs(dv.take(i as int)) < 4 ==> n == spec_count_msgs(dv.take(i as int)),
        decreases msgs@.len() - i,
    {
        proof {
            assert(dv.take(i + 1).drop_last() =~= dv.take(i as int));
            assert(dv.take(i + 1).last() == dv[i as int]);
            assert(dv[i as int] == msgs@[i as int].deep_view());
            lemma_count_msgs_nonneg(dv.take(i as int));
        }
        let c: usize = match &msgs[i] {
            Json::Obj(mm) => {
                proof {
                    lemma_obj_view(*mm);
                }
                match obj_get_ref(mm, "content") {
                    Some(v) => match v {
                        Json::Arr(bs) => {
                            proof {
                                lemma_arr_view(*bs);
                            }
                            count_items(bs)
                        },
                        _ => 0,
                    },
                    None => 0,
                }
            },
            _ => 0,
        };
        proof {
            assert(c == spec_msg_cc(dv[i as int]));
        }
        if c >= 4 {
            n = 4;
        } else {
            n = n + c;
            if n > 4 {
                n = 4;
            }
        }
        i += 1;
    }
    proof {
        assert(dv.take(msgs@.len() as int) =~= dv);
    }
    n
}

/// Whether the whole body already spends the annotation budget.
fn count_ge_4(body: &Json) -> (r: bool)
    ensures
        r == (spec_count_cc(body@) >= 4),
{
    match body {
        Json::Obj(members) => {
            proof {
                lemma_obj_view(*members);
            }
            let ghost m = members.deep_view();
            let sys: usize = match obj_get_ref(members, "system") {
                Some(v) => match v {
                    Json::Arr(s) => {
                        proof {
                            lemma_arr_view(*s);
                        }
                        count_items(s)
                    },
                    _ => 0,
                },
                None => 0,
            };
            let tools: usize = match obj_get_ref(members, "tools") {
                Some(v) => match v {
                    Json::Arr(s) => {
                        proof {
                            lemma_arr_view(*s);
                        }
                        count_items(s)
                    },
                    _ => 0,
                },
                None => 0,
            };
            let msgs: usize = match obj_get_ref(members, "messages") {
                Some(v) => match v {
                    Json::Arr(s) => {
                        proof {
                            lemma_arr_view(*s);
                        }
                        count_msgs(s)
                    },
                    _ => 0,
                },
                None => 0,
            };
            let ghost real_msgs = match obj_get(m, "messages"@) {
                Some(JsonModel::Arr(s)) => spec_count_msgs(s),
                _ => 0int,
            };
            proof {
                match obj_get(m, "messages"@) {
                    Some(JsonModel::Arr(s)) => {
                        lemma_count_msgs_nonneg(s);
                    },
                    _ => {},
                }
                assert(spec_count_cc(body@) == sys + tools + real_msgs);
                if real_msgs >= 4 {
                    assert(msgs == 4);
                } else {
                    assert(msgs == real_msgs);
                }
            }
            let total: u128 = sys as u128 + tools as u128 + msgs as u128;
            total >= 4
        },
        _ => false,
    }
}

/// Merge the annotation into an object item.
fn with_cc(j: Json) -> (r: Json)
    ensures
        r@ == spec_with_cc(j@),
{
    match j {
        Json::Obj(members) => {
            proof {
                lemma_obj_view(members);
            }
            let mut members = members;
            obj_set_value(&mut members, "cache_control", cc_json());
            proof {
                lemma_obj_view(members);
            }
            Json::Obj(members)
        },
        other => other,
    }
}

/// Annotate the last item of a non-empty array.
fn set_cc_last(items: Vec<Json>) -> (r: Vec<Json>)
    requires
        items@.len() > 0,
    ensures
        r.deep_view() == spec_set_cc_last(items.deep_view()),
{
    let ghost dv = items.deep_view();
    let ghost orig = items@;
    proof {
        lemma_dv_eq(&items);
    }
    let mut items = items;
    let last = items.pop();
    match last {
        None => {
            // unreachable: the array is non-empty
            proof {
                assert(false);
            }
            items
        },
        Some(t) => {
            proof {
                lemma_dv_eq(&items);
                assert(items@ =~= orig.drop_last());
                lemma_dv_seq_drop_last(orig);
            }
            let tt = with_cc(t);
            let ghost rseq = items@;
            items.push(tt);
            proof {
                lemma_dv_eq(&items);
                lemma_dv_seq_push(rseq, tt);
                assert(items.deep_view() =~= spec_set_cc_last(dv));
            }
            items
        },
    }
}

/// The one-block array for a bare string prompt.
fn text_block_cc(text: String) -> (r: Json)
    ensures
        r@ == JsonModel::Arr(seq![spec_text_block_cc(text@)]),
{
    let ghost t = text@;
    let mut mm: Vec<(String, Json)> = Vec::new();
    mm.push((String::from_str("type"), Json::Str(String::from_str("text"))));
    mm.push((String::from_str("text"), Json::Str(text)));
    mm.push((String::from_str("cache_control"), cc_json()));
    proof {
        lemma_obj_view(mm);
        assert(mm.deep_view() =~= seq![
            ("type"@, JsonModel::Str("text"@)),
            ("text"@, JsonModel::Str(t)),
            ("cache_control"@, spec_cc_val()),
        ]);
    }
    let block = Json::Obj(mm);
    let mut arr: Vec<Json> = Vec::new();
    arr.push(block);
    proof {
        lemma_arr_view(arr);
        assert(arr.deep_view() =~= seq![spec_text_block_cc(t)]);
    }
    Json::Arr(arr)
}

/// Tool-definition zone of the planner.
fn inject_tools(body: Json) -> (r: Json)
    ensures
        r@ == spec_inject_tools(body@),
{
    match body {
        Json::Obj(members) => {
            proof {
                lemma_obj_view(members);
            }
            let mut members = members;
            let ghost m0 = members.deep_view();
            match find_key(&members, "tools") {
                Some(i) => {
                    proof {
                        lemma_okey(m0, "tools"@);
                    }
                    let v = obj_take_value(&mut members, i);
                    let ghost vv = v@;
                    let v2 = match v {
                        Json::Arr(ts) => {
                            proof {
                                lemma_arr_view(ts);
                            }
                            if ts.len() == 0 || count_items(&ts) > 0 {
                                proof {
                                    lemma_arr_view(ts);
                                }
                                Json::Arr(ts)
                            } else {
                                let nts = set_cc_last(ts);
                                proof {
                                    lemma_arr_view(nts);
                                }
                                Json::Arr(nts)
                            }
                        },
                        other => other,
                    };
                    obj_update_value(&mut members, i, v2);
                    proof {
                        match vv {
                            JsonModel::Arr(ts) => {
                                if ts.len() == 0 || spec_count_items(ts) > 0 {
                                    assert(members.deep_view() =~= m0);
                                } else {
                                    assert(members.deep_view() =~= obj_set(
                                        m0,
                                        "tools"@,
                                        JsonModel::Arr(spec_set_cc_last(ts)),
                                    ));
                                }
                            },
                            _ => {
                                assert(members.deep_view() =~= m0);
                            },
                        }
                        lemma_obj_view(members);
                    }
                    Json::Obj(members)
                },
                None => {
                    proof {
                        lemma_obj_view(members);
                    }
                    Json::Obj(members)
                },
            }
        },
        other => other,
    }
}

/// System-prompt zone of the planner.
fn inject_system(body: Json) -> (r: Json)
    ensures
        r@ == spec_inject_system(body@),
{
    match body {
        Json::Obj(members) => {
            proof {
                lemma_obj_view(members);
            }
            let mut members = members;
            let ghost m0 = members.deep_view();
            match find_key(&members, "system") {
                Some(i) => {
                    proof {
                        lemma_okey(m0, "system"@);
                    }
                    let v = obj_take_value(&mut members, i);
                    let ghost vv = v@;
                    let v2 = match v {
                        Json::Arr(s) => {
                            proof {
                                lemma_arr_view(s);
                            }
                            if s.len() == 0 || count_items(&s) > 0 {
                                proof {
                                    lemma_arr_view(s);
                                }
                                Json::Arr(s)
                            } else {
                                let ns = set_cc_last(s);
                                proof {
                                    lemma_arr_view(ns);
                                }
                                Json::Arr(ns)
                            }
                        },
                        Json::Str(t) => text_block_cc(t),
                        other => other,
                    };
                    obj_update_value(&mut members, i, v2);
                    proof {
                        match vv {
                            JsonModel::Arr(s) => {
                                if s.len() == 0 || spec_count_items(s) > 0 {
                                    assert(members.deep_view() =~= m0);
                                } else {
                                    assert(members.deep_view() =~= obj_set(
                                        m0,
                                        "system"@,
                                        JsonModel::Arr(spec_set_cc_last(s)),
                                    ));
                                }
                            },
                            JsonModel::Str(t) => {
                                assert(members.deep_view() =~= obj_set(
                                    m0,
                                    "system"@,
                                    JsonModel::Arr(seq![spec_text_block_cc(t)]),
                                ));
                            },
                            _ => {
                                assert(members.deep_view() =~= m0);
                            },
                        }
                        lemma_obj_view(members);
                    }
                    Json::Obj(members)
                },
                None => {
                    proof {
                        lemma_obj_view(members);
                    }
                    Json::Obj(members)
                },
            }
        },
        other => other,
    }
}

/// Whether a message is a user turn.
fn is_user(j: &Json) -> (r: bool)
    ensures
        r == spec_is_user(j@),
{
    match j {
        Json::Obj(mm) => {
            proof {
                lemma_obj_view(*mm);
            }
            match obj_get_ref(mm, "role") {
                Some(v) => match v {
                    Json::Str(role) => str_eq(role.as_str(), "user"),
                    _ => false,
                },
                None => false,
            }
        },
        _ => false,
    }
}

/// The largest user-turn index below `upto`.
fn last_user_before(msgs: &Vec<Json>, upto: usize) -> (r: Option<usize>)
    requires
        upto <= msgs@.len(),
    ensures
        match r {
            Some(j) => Some(j as int) == spec_last_user(msgs.deep_view(), upto as int) && j
                < upto,
            None => spec_last_user(msgs.deep_view(), upto as int) is None,
        },
    decreases upto,
{
    if upto == 0 {
        None
    } else {
        proof {
            assert(msgs.deep_view()[upto - 1] == msgs@[upto - 1].deep_view());
        }
        if is_user(&msgs[upto - 1]) {
            Some(upto - 1)
        } else {
            last_user_before(msgs, upto - 1)
        }
    }
}

/// Annotate one message's content.
fn msg_with_cc(msg: Json) -> (r: Json)
    ensures
        r@ == spec_msg_with_cc(msg@),
{
    match msg {
        Json::Obj(members) => {
            proof {
                lemma_obj_view(members);
            }
            let mut members = members;
            let ghost m0 = members.deep_view();
            match find_key(&members, "content") {
                Some(i) => {
                    proof {
                        lemma_okey(m0, "content"@);
                    }
                    let v = obj_take_value(&mut members, i);
                    let ghost vv = v@;
                    let v2 = match v {
                        Json::Arr(bs) => {
                            proof {
                                lemma_arr_view(bs);
                            }
                            if bs.len() == 0 {
                                proof {
                                    lemma_arr_view(bs);
                                }
                                Json::Arr(bs)
                            } else {
                                let nbs = set_cc_last(bs);
                                proof {
                                    lemma_arr_view(nbs);
                                }
                                Json::Arr(nbs)
                            }
                        },
                        Json::Str(t) => text_block_cc(t),
                        other => other,
                    };
                    obj_update_value(&mut members, i, v2);
                    proof {
                        match vv {
                            JsonModel::Arr(bs) => {
                                if bs.len() == 0 {
                                    assert(members.deep_view() =~= m0);
                                } else {
                                    assert(members.deep_view() =~= obj_set(
                                        m0,
                                        "content"@,
                                        JsonModel::Arr(spec_set_cc_last(bs)),
                                    ));
                                }
                            },
                            JsonModel::Str(t) => {
                                assert(members.deep_view() =~= obj_set(
                                    m0,
                                    "content"@,
                                    JsonModel::Arr(seq![spec_text_block_cc(t)]),
                                ));
                            },
                            _ => {
                                assert(members.deep_view() =~= m0);
                            },
                        }
                        lemma_obj_view(members);
                    }
                    Json::Obj(members)
                },
                None => {
                    proof {
                        lemma_obj_view(members);
                    }
                    Json::Obj(members)
                },
            }
        },
        other => other,
    }
}

/// Message zone of the planner.
fn inject_messages(body: Json) -> (r: Json)
    ensures
        r@ == spec_inject_messages(body@),
{
    match body {
        Json::Obj(members) => {
            proof {
                lemma_obj_view(members);
            }
            let mut members = members;
            let ghost m0 = members.deep_view();
            match find_key(&members, "messages") {
                Some(i) => {
                    proof {
                        lemma_okey(m0, "messages"@);
                    }
                    let v = obj_take_value(&mut members, i);
                    let ghost vv = v@;
                    let v2 = match v {
                        Json::Arr(msgs) => {
                            proof {
                                lemma_arr_view(msgs);
                                lemma_count_msgs_nonneg(msgs.deep_view());
                            }
                            if count_msgs(&msgs) > 0 {
                                proof {
                                    lemma_arr_view(msgs);
                                }
                                Json::Arr(msgs)
                            } else {
                                let target = match last_user_before(&msgs, msgs.len()) {
                                    Some(j1) => last_user_before(&msgs, j1),
                                    None => None,
                                };
                                match target {
                                    Some(j) => {
                                        let ghost mdv = msgs.deep_view();
                                        let ghost mseq = msgs@;
                                        let mut msgs = msgs;
                                        let mut tmp = Json::Null;
                                        core::mem::swap(&mut msgs[j], &mut tmp);
                                        let nm = msg_with_cc(tmp);
                                        msgs[j] = nm;
                                        proof {
                                            lemma_dv_eq(&msgs);
                                            assert(msgs@ =~= mseq.update(j as int, nm));
                                            assert forall|x: int|
                                                0 <= x < mseq.len() implies msgs.deep_view()[x]
                                                == mdv.update(
                                                j as int,
                                                spec_msg_with_cc(mdv[j as int]),
                                            )[x] by {
                                                assert(msgs.deep_view()[x] == msgs@[x].deep_view());
                                                if x != j as int {
                                                    assert(msgs@[x] == mseq[x]);
                                                    assert(mdv[x] == mseq[x].deep_view());
                                                }
                                            }
                                            assert(msgs.deep_view() =~= mdv.update(
                                                j as int,
                                                spec_msg_with_cc(mdv[j as int]),
                                            ));
                                            lemma_arr_view(msgs);
                                        }
                                        Json::Arr(msgs)
                                    },
                                    None => {
                                        proof {
                                            lemma_arr_view(msgs);
                                        }
                                        Json::Arr(msgs)
                                    },
                                }
                            }
                        },
                        other => other,
                    };
                    obj_update_value(&mut members, i, v2);
                    proof {
                        match vv {
                            JsonModel::Arr(s) => {
                                if spec_count_msgs(s) > 0 {
                                    assert(members.deep_view() =~= m0);
                                } else {
                                    match spec_second_last_user(s) {
                                        Some(j) => {
                                            assert(members.deep_view() =~= obj_set(
                                                m0,
                                                "messages"@,
                                                JsonModel::Arr(
                                                    s.update(j, spec_msg_with_cc(s[j])),
                                                ),
                                            ));
                                        },
                                        None => {
                                            assert(members.deep_view() =~= m0);
                                        },
                                    }
                                }
                            },
                            _ => {
                                assert(members.deep_view() =~= m0);
                            },
                        }
                        lemma_obj_view(members);
                    }
                    Json::Obj(members)
                },
                None => {
                    proof {
                        lemma_obj_view(members);
                    }
                    Json::Obj(members)
                },
            }
        },
        other => other,
    }
}

/// Inject cache-control breakpoints into a request body, spending at most
/// the four-annotation budget, in priority order: tools, system prompt,
/// second-to-last user turn. Pure and total: a body with no matching zones
/// comes back unchanged.
pub fn ensure_cache_control(body: Json) -> (r: Json)
    ensures
        r@ == spec_plan(body@),
{
    if count_ge_4(&body) {
        return body;
    }
    let b1 = inject_tools(body);
    let b2 = if !count_ge_4(&b1) {
        inject_system(b1)
    } else {
        b1
    };
    if !count_ge_4(&b2) {
        inject_messages(b2)
    } else {
        b2
    }
}

} // verus!
