//! A closed JSON tree type: the shape that request and response bodies take
//! inside the converters, with a mathematical model for contracts.

use vstd::prelude::*;

verus! {

broadcast use vstd::std_specs::vec::group_vec_axioms, vstd::seq::group_seq_axioms;

/// Mathematical model of a JSON value. Numbers carry their decimal text,
/// so the model is exact for any number the wire can carry.
#[verifier::ext_equal]
pub enum JsonModel {
    Null,
    Bool(bool),
    Num(Seq<char>),
    Str(Seq<char>),
    Arr(Seq<JsonModel>),
    Obj(Seq<(Seq<char>, JsonModel)>),
}

/// A JSON value as executable data. Object members keep their order, as the
/// wire formats here rely on member order only for readability, never meaning.
#[derive(Debug, PartialEq)]
pub enum Json {
    Null,
    Bool(bool),
    Num(String),
    Str(String),
    Arr(Vec<Json>),
    Obj(Vec<(String, Json)>),
}

/// The element views of a run of values.
pub open spec fn items_view(s: Seq<Json>) -> Seq<JsonModel>
    decreases s,
{
    Seq::new(
        s.len(),
        |i: int|
            if 0 <= i < s.len() {
                s[i]@
            } else {
                JsonModel::Null
            },
    )
}

/// The member views of a run of key/value pairs.
pub open spec fn pairs_view(m: Seq<(String, Json)>) -> Seq<(Seq<char>, JsonModel)>
    decreases m,
{
    Seq::new(
        m.len(),
        |i: int|
            if 0 <= i < m.len() {
                (m[i].0@, m[i].1@)
            } else {
                (Seq::empty(), JsonModel::Null)
            },
    )
}

impl View for Json {
    type V = JsonModel;

    open spec fn view(&self) -> JsonModel
        decreases self,
    {
        match self {
            Json::Null => JsonModel::Null,
            Json::Bool(b) => JsonModel::Bool(*b),
            Json::Num(s) => JsonModel::Num(s@),
            Json::Str(s) => JsonModel::Str(s@),
            Json::Arr(items) => JsonModel::Arr(items_view(items@)),
            Json::Obj(members) => JsonModel::Obj(pairs_view(members@)),
        }
    }
}

impl DeepView for Json {
    type V = JsonModel;

    open spec fn deep_view(&self) -> JsonModel {
        self.view()
    }
}

/// The view of an array value is the array of the element views.
pub proof fn lemma_arr_view(items: Vec<Json>)
    ensures
        (Json::Arr(items))@ == JsonModel::Arr(items.deep_view()),
{
    assert(items.deep_view().len() == items@.len());
    assert forall|i: int| 0 <= i < items@.len() implies items.deep_view()[i] == items@[i]@ by {
        assert(items.deep_view()[i] == items@[i].deep_view());
    }
    assert forall|i: int| 0 <= i < items@.len() implies items_view(items@)[i] == items@[i]@ by {}
    assert(items_view(items@) =~= items.deep_view());
}

/// The view of an object value is the member list of the member views.
pub proof fn lemma_obj_view(members: Vec<(String, Json)>)
    ensures
        (Json::Obj(members))@ == JsonModel::Obj(members.deep_view()),
{
    assert(members.deep_view().len() == members@.len());
    assert forall|i: int| 0 <= i < members@.len() implies members.deep_view()[i] == (
        members@[i].0@,
        members@[i].1@,
    ) by {
        assert(members.deep_view()[i] == members@[i].deep_view());
    }
    assert forall|i: int| 0 <= i < members@.len() implies pairs_view(members@)[i] == (
        members@[i].0@,
        members@[i].1@,
    ) by {}
    assert(pairs_view(members@) =~= members.deep_view());
}

/// Index of the first member with key `k`, if any.
pub open spec fn okey(m: Seq<(Seq<char>, JsonModel)>, k: Seq<char>) -> Option<int>
    decreases m.len(),
{
    if m.len() == 0 {
        None
    } else if m[0].0 == k {
        Some(0int)
    } else {
        match okey(m.drop_first(), k) {
            Some(i) => Some(i + 1),
            None => None,
        }
    }
}

/// The value under key `k`, if any.
pub open spec fn obj_get(m: Seq<(Seq<char>, JsonModel)>, k: Seq<char>) -> Option<JsonModel> {
    match okey(m, k) {
        Some(i) => Some(m[i].1),
        None => None,
    }
}

/// The members with the value under `k` replaced, or appended when absent.
pub open spec fn obj_set(
    m: Seq<(Seq<char>, JsonModel)>,
    k: Seq<char>,
    v: JsonModel,
) -> Seq<(Seq<char>, JsonModel)> {
    match okey(m, k) {
        Some(i) => m.update(i, (m[i].0, v)),
        None => m.push((k, v)),
    }
}

/// `okey` finds the first member with the key.
pub proof fn lemma_okey(m: Seq<(Seq<char>, JsonModel)>, k: Seq<char>)
    ensures
        match okey(m, k) {
            Some(i) => 0 <= i < m.len() && m[i].0 == k && forall|j: int| 0 <= j < i ==> m[j].0
                != k,
            None => forall|j: int| 0 <= j < m.len() ==> m[j].0 != k,
        },
    decreases m.len(),
{
    if m.len() > 0 && m[0].0 != k {
        let t = m.drop_first();
        lemma_okey(t, k);
        assert(forall|j: int| 0 <= j < t.len() ==> #[trigger] t[j] == m[j + 1]);
        match okey(m, k) {
            Some(i) => {
                assert(t[i - 1] == m[i]);
                assert forall|j: int| 0 <= j < i implies m[j].0 != k by {
                    if j > 0 {
                        assert(t[j - 1] == m[j]);
                    }
                }
            },
            None => {
                assert forall|j: int| 0 <= j < m.len() implies m[j].0 != k by {
                    if j > 0 {
                        assert(t[j - 1] == m[j]);
                    }
                }
            },
        }
    }
}

/// Find the first member of `members` whose key is `key`.
pub fn find_key(members: &Vec<(String, Json)>, key: &str) -> (r: Option<usize>)
    ensures
        match r {
            Some(i) => okey(members.deep_view(), key@) == Some(i as int),
            None => okey(members.deep_view(), key@) is None,
        },
{
    let ghost m = members.deep_view();
    let mut i: usize = 0;
    while i < members.len()
        invariant
            m == members.deep_view(),
            m.len() == members.len(),
            i <= members.len(),
            forall|j: int| 0 <= j < i ==> m[j].0 != key@,
        decreases members.len() - i,
    {
        if crate::strutil::str_eq(members[i].0.as_str(), key) {
            proof {
                lemma_okey(m, key@);
                assert(m[i as int].0 == key@);
                match okey(m, key@) {
                    Some(i2) => {
                        assert(i2 == i as int);
                    },
                    None => {
                        assert(m[i as int].0 != key@);
                        assert(false);
                    },
                }
            }
            return Some(i);
        }
        i += 1;
    }
    proof {
        lemma_okey(m, key@);
        if okey(m, key@) is Some {
            let i2 = okey(m, key@)->0;
            assert(m[i2].0 == key@);
            assert(false);
        }
    }
    None
}

/// Two member lists with the same keys are searched the same way.
pub proof fn lemma_okey_same_keys(
    a: Seq<(Seq<char>, JsonModel)>,
    b: Seq<(Seq<char>, JsonModel)>,
    k: Seq<char>,
)
    requires
        a.len() == b.len(),
        forall|j: int| 0 <= j < a.len() ==> (#[trigger] a[j]).0 == b[j].0,
    ensures
        okey(a, k) == okey(b, k),
    decreases a.len(),
{
    if a.len() > 0 {
        let ta = a.drop_first();
        let tb = b.drop_first();
        assert(forall|j: int| 0 <= j < ta.len() ==> #[trigger] ta[j] == a[j + 1]);
        assert(forall|j: int| 0 <= j < tb.len() ==> #[trigger] tb[j] == b[j + 1]);
        lemma_okey_same_keys(ta, tb, k);
    }
}

/// Searching after a push finds the old member first, the new one last.
pub proof fn lemma_okey_push(
    m: Seq<(Seq<char>, JsonModel)>,
    p: (Seq<char>, JsonModel),
    k: Seq<char>,
)
    ensures
        okey(m.push(p), k) == match okey(m, k) {
            Some(i) => Some(i),
            None => if p.0 == k {
                Some(m.len() as int)
            } else {
                None
            },
        },
    decreases m.len(),
{
    if m.len() == 0 {
        assert(m.push(p)[0] == p);
        assert(m.push(p).len() == 1);
        if p.0 != k {
            assert(m.push(p).drop_first() =~= Seq::empty());
        }
    } else {
        assert(m.push(p)[0] == m[0]);
        if m[0].0 != k {
            assert(m.push(p).drop_first() =~= m.drop_first().push(p));
            lemma_okey_push(m.drop_first(), p, k);
        }
    }
}

/// What a lookup sees after a set: the new value under the same key, the
/// old ones elsewhere.
pub proof fn lemma_obj_get_set(
    m: Seq<(Seq<char>, JsonModel)>,
    k1: Seq<char>,
    v: JsonModel,
    k2: Seq<char>,
)
    ensures
        obj_get(obj_set(m, k1, v), k2) == if k1 == k2 {
            Some(v)
        } else {
            obj_get(m, k2)
        },
{
    lemma_okey(m, k1);
    match okey(m, k1) {
        Some(i) => {
            let m2 = m.update(i, (m[i].0, v));
            assert(forall|j: int| 0 <= j < m.len() ==> (#[trigger] m[j]).0 == m2[j].0);
            lemma_okey_same_keys(m, m2, k2);
            lemma_okey(m, k2);
            match okey(m, k2) {
                Some(i2) => {
                    if k1 == k2 {
                        assert(i2 == i);
                    } else {
                        assert(m[i2].0 == k2);
                        assert(i2 != i);
                    }
                },
                None => {
                    assert(k1 != k2);
                },
            }
        },
        None => {
            lemma_okey_push(m, (k1, v), k2);
            lemma_okey(m, k2);
            let m2 = m.push((k1, v));
            match okey(m, k2) {
                Some(i2) => {
                    assert(m2[i2] == m[i2]);
                    assert(m[i2].0 == k2);
                    assert(k1 == k2 ==> false) by {
                        if k1 == k2 {
                            lemma_okey(m, k1);
                        }
                    }
                },
                None => {
                    if k1 == k2 {
                        assert(m2[m.len() as int] == (k1, v));
                    }
                },
            }
        },
    }
}

/// Setting a key to the value it already holds changes nothing.
pub proof fn lemma_obj_set_same(m: Seq<(Seq<char>, JsonModel)>, k: Seq<char>, v: JsonModel)
    requires
        obj_get(m, k) == Some(v),
    ensures
        obj_set(m, k, v) == m,
{
    lemma_okey(m, k);
    let i = okey(m, k)->0;
    assert((m[i].0, m[i].1) == m[i]);
    assert(obj_set(m, k, v) =~= m);
}

/// A deep copy of a value.
#[verifier::loop_isolation(false)]
pub fn json_clone(j: &Json) -> (r: Json)
    ensures
        r@ == j@,
    decreases *j,
{
    match j {
        Json::Null => Json::Null,
        Json::Bool(b) => Json::Bool(*b),
        Json::Num(s) => Json::Num(s.clone()),
        Json::Str(s) => Json::Str(s.clone()),
        Json::Arr(items) => {
            let mut out: Vec<Json> = Vec::new();
            let mut i: usize = 0;
            while i < items.len()
                invariant
                    i <= items@.len(),
                    out@.len() == i,
                    forall|k: int| 0 <= k < i ==> out@[k]@ == items@[k]@,
                decreases items@.len() - i,
            {
                proof {
                    assert(j->Arr_0 == *items);
                    assert(decreases_to!(*j => j->Arr_0));
                    assert(decreases_to!(*items => items@[i as int]));
                }
                let c = json_clone(&items[i]);
                out.push(c);
                i += 1;
            }
            proof {
                assert(items_view(out@) =~= items_view(items@));
            }
            Json::Arr(out)
        },
        Json::Obj(members) => {
            let mut out: Vec<(String, Json)> = Vec::new();
            let mut i: usize = 0;
            while i < members.len()
                invariant
                    i <= members@.len(),
                    out@.len() == i,
                    forall|k: int|
                        0 <= k < i ==> out@[k].0@ == members@[k].0@ && out@[k].1@
                            == members@[k].1@,
                decreases members@.len() - i,
            {
                proof {
                    assert(j->Obj_0 == *members);
                    assert(decreases_to!(*j => j->Obj_0));
                    assert(decreases_to!(*members => members@[i as int]));
                    assert(decreases_to!(members@[i as int] => members@[i as int].1));
                }
                let c = json_clone(&members[i].1);
                out.push((members[i].0.clone(), c));
                i += 1;
            }
            proof {
                assert(pairs_view(out@) =~= pairs_view(members@));
            }
            Json::Obj(out)
        },
    }
}

/// Borrow the value under `key`, if any.
pub fn obj_get_ref<'a>(members: &'a Vec<(String, Json)>, key: &str) -> (r: Option<&'a Json>)
    ensures
        match r {
            Some(j) => obj_get(members.deep_view(), key@) == Some(j@),
            None => obj_get(members.deep_view(), key@) is None,
        },
{
    match find_key(members, key) {
        Some(i) => {
            proof {
                lemma_okey(members.deep_view(), key@);
                assert(members.deep_view()[i as int] == members@[i as int].deep_view());
            }
            Some(&members[i].1)
        },
        None => None,
    }
}

/// Take the value at member `i` out, leaving `null` in its place.
pub fn obj_take_value(members: &mut Vec<(String, Json)>, i: usize) -> (r: Json)
    requires
        i < old(members)@.len(),
    ensures
        r@ == old(members).deep_view()[i as int].1,
        final(members).deep_view() == old(members).deep_view().update(
            i as int,
            (old(members).deep_view()[i as int].0, JsonModel::Null),
        ),
        final(members)@.len() == old(members)@.len(),
{
    let ghost m0 = old(members).deep_view();
    let ghost old_members = members@;
    let mut tmp = Json::Null;
    core::mem::swap(&mut members[i].1, &mut tmp);
    proof {
        let target = m0.update(i as int, (m0[i as int].0, JsonModel::Null));
        assert(members.deep_view().len() == target.len());
        assert forall|j: int|
            0 <= j < target.len() implies members.deep_view()[j] == target[j] by {
            assert(members.deep_view()[j] == members@[j].deep_view());
            assert(m0[j] == old_members[j].deep_view());
            if j == i as int {
                assert(members@[j] == (old_members[j].0, Json::Null));
            } else {
                assert(members@[j] == old_members[j]);
            }
        }
        assert(members.deep_view() =~= target);
        assert(m0[i as int] == old_members[i as int].deep_view());
    }
    tmp
}

/// Put `v` in as the value of member `i`, keeping its key.
pub fn obj_update_value(members: &mut Vec<(String, Json)>, i: usize, v: Json)
    requires
        i < old(members)@.len(),
    ensures
        final(members).deep_view() == old(members).deep_view().update(
            i as int,
            (old(members).deep_view()[i as int].0, v@),
        ),
{
    let ghost m0 = old(members).deep_view();
    let ghost old_members = members@;
    members[i].1 = v;
    proof {
        let target = m0.update(i as int, (m0[i as int].0, v@));
        assert(members.deep_view().len() == target.len());
        assert forall|j: int|
            0 <= j < target.len() implies members.deep_view()[j] == target[j] by {
            assert(members.deep_view()[j] == members@[j].deep_view());
            assert(m0[j] == old_members[j].deep_view());
            if j == i as int {
                assert(members@[j] == (old_members[j].0, v));
            } else {
                assert(members@[j] == old_members[j]);
            }
        }
        assert(members.deep_view() =~= target);
    }
}

/// Replace the value under `key`, or append the pair when absent.
pub fn obj_set_value(members: &mut Vec<(String, Json)>, key: &str, v: Json)
    ensures
        final(members).deep_view() == obj_set(old(members).deep_view(), key@, v@),
{
    let ghost m0 = old(members).deep_view();
    let found = find_key(members, key);
    match found {
        Some(i) => {
            let ghost old_members = members@;
            proof {
                lemma_okey(m0, key@);
            }
            members[i].1 = v;
            proof {
                let target = obj_set(m0, key@, v@);
                assert(target == m0.update(i as int, (m0[i as int].0, v@)));
                assert(members.deep_view().len() == target.len());
                assert forall|j: int|
                    0 <= j < target.len() implies members.deep_view()[j] == target[j] by {
                    assert(members.deep_view()[j] == members@[j].deep_view());
                    if j == i as int {
                        assert(members@[j] == (old_members[j].0, v));
                        assert(m0[j] == old_members[j].deep_view());
                    } else {
                        assert(members@[j] == old_members[j]);
                        assert(m0[j] == old_members[j].deep_view());
                    }
                }
                assert(members.deep_view() =~= target);
            }
        },
        None => {
            let ghost old_members = members@;
            members.push((String::from_str(key), v));
            proof {
                let target = obj_set(m0, key@, v@);
                assert(target == m0.push((key@, v@)));
                assert(members.deep_view().len() == target.len());
                assert forall|j: int|
                    0 <= j < target.len() implies members.deep_view()[j] == target[j] by {
                    assert(members.deep_view()[j] == members@[j].deep_view());
                    if j < old_members.len() {
                        assert(members@[j] == old_members[j]);
                        assert(m0[j] == old_members[j].deep_view());
                    }
                }
                assert(members.deep_view() =~= target);
            }
        },
    }
}

} // verus!
