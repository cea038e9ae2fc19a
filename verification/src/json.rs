//! The JSON-like value tree that step parameters, execution contexts and
//! persisted records are made of, together with its mathematical model and
//! the deep-merge operation used when contexts are rebuilt.

use vstd::prelude::*;

verus! {

/// The mathematical shape of a JSON value: what contracts speak about.
/// Objects are sequences of key/value pairs; a lookup takes the first pair
/// with a matching key.
#[verifier::ext_equal]
pub enum JsonV {
    Null,
    Bool(bool),
    Num(Seq<char>),
    Text(Seq<char>),
    Arr(Seq<JsonV>),
    Obj(Seq<(Seq<char>, JsonV)>),
}

/// A JSON value. Numbers carry their decimal text, so no value of this type
/// ever holds floating point. Objects keep their entries in insertion order;
/// key order is never semantically meaningful.
#[derive(Debug, PartialEq, Eq)]
pub enum JsonValue {
    Null,
    Bool(bool),
    Num(String),
    Text(String),
    Arr(Vec<JsonValue>),
    Obj(Vec<(String, JsonValue)>),
}

pub open spec fn json_view(v: JsonValue) -> JsonV
    decreases v,
{
    match v {
        JsonValue::Null => JsonV::Null,
        JsonValue::Bool(b) => JsonV::Bool(b),
        JsonValue::Num(s) => JsonV::Num(s@),
        JsonValue::Text(s) => JsonV::Text(s@),
        JsonValue::Arr(elems) => JsonV::Arr(json_view_seq(elems@)),
        JsonValue::Obj(entries) => JsonV::Obj(json_view_entries(entries@)),
    }
}

pub open spec fn json_view_seq(s: Seq<JsonValue>) -> Seq<JsonV>
    decreases s,
{
    if s.len() == 0 {
        Seq::empty()
    } else {
        seq![json_view(s[0])] + json_view_seq(s.drop_first())
    }
}

pub open spec fn json_view_entries(s: Seq<(String, JsonValue)>) -> Seq<(Seq<char>, JsonV)>
    decreases s,
{
    if s.len() == 0 {
        Seq::empty()
    } else {
        seq![(s[0].0@, json_view(s[0].1))] + json_view_entries(s.drop_first())
    }
}

impl View for JsonValue {
    type V = JsonV;

    open spec fn view(&self) -> JsonV {
        json_view(*self)
    }
}

pub broadcast proof fn lemma_json_view_seq(s: Seq<JsonValue>)
    ensures
        #[trigger] json_view_seq(s).len() == s.len(),
        forall|i: int| 0 <= i < s.len() ==> json_view_seq(s)[i] == json_view(s[i]),
    decreases s,
{
    if s.len() > 0 {
        lemma_json_view_seq(s.drop_first());
    }
}

pub broadcast proof fn lemma_json_view_entries(s: Seq<(String, JsonValue)>)
    ensures
        #[trigger] json_view_entries(s).len() == s.len(),
        forall|i: int| 0 <= i < s.len() ==> json_view_entries(s)[i] == (s[i].0@, json_view(
            s[i].1,
        )),
    decreases s,
{
    if s.len() > 0 {
        lemma_json_view_entries(s.drop_first());
    }
}

/// A deep copy whose model is exactly the model of the input.
#[verifier::loop_isolation(false)]
pub fn json_clone(v: &JsonValue) -> (r: JsonValue)
    ensures
        r@ == v@,
    decreases *v,
{
    match v {
        JsonValue::Null => JsonValue::Null,
        JsonValue::Bool(b) => JsonValue::Bool(*b),
        JsonValue::Num(s) => JsonValue::Num(s.clone()),
        JsonValue::Text(s) => JsonValue::Text(s.clone()),
        JsonValue::Arr(elems) => {
            let mut out: Vec<JsonValue> = Vec::new();
            let mut i: usize = 0;
            while i < elems.len()
                invariant
                    i <= elems.len(),
                    out@.len() == i,
                    forall|j: int| 0 <= j < i ==> out@[j]@ == elems@[j]@,
                decreases elems.len() - i,
            {
                proof {
                    assert(decreases_to!(*v => elems@[i as int])) by {
                        assert(decreases_to!(*v => v->Arr_0));
                        assert(v->Arr_0 == *elems);
                        assert(decreases_to!(*elems => elems@[i as int]));
                    }
                }
                out.push(json_clone(&elems[i]));
                i += 1;
            }
            proof {
                lemma_json_view_seq(out@);
                lemma_json_view_seq(elems@);
                assert(json_view_seq(out@) =~= json_view_seq(elems@));
            }
            JsonValue::Arr(out)
        },
        JsonValue::Obj(entries) => {
            let mut out: Vec<(String, JsonValue)> = Vec::new();
            let mut i: usize = 0;
            while i < entries.len()
                invariant
                    i <= entries.len(),
                    out@.len() == i,
                    forall|j: int|
                        0 <= j < i ==> out@[j].0@ == entries@[j].0@ && out@[j].1@
                            == entries@[j].1@,
                decreases entries.len() - i,
            {
                proof {
                    assert(decreases_to!(*v => entries@[i as int].1)) by {
                        assert(decreases_to!(*v => v->Obj_0));
                        assert(v->Obj_0 == *entries);
                        assert(decreases_to!(*entries => entries@[i as int]));
                        assert(decreases_to!(entries@[i as int] => entries@[i as int].1));
                    }
                }
                let k = entries[i].0.clone();
                let val = json_clone(&entries[i].1);
                out.push((k, val));
                i += 1;
            }
            proof {
                lemma_json_view_entries(out@);
                lemma_json_view_entries(entries@);
                assert(json_view_entries(out@) =~= json_view_entries(entries@));
            }
            JsonValue::Obj(out)
        },
    }
}

/// First value bound to `key`, searching entries left to right.
pub open spec fn assoc_get<T>(entries: Seq<(Seq<char>, T)>, key: Seq<char>) -> Option<T>
    decreases entries.len(),
{
    if entries.len() == 0 {
        None
    } else if entries[0].0 == key {
        Some(entries[0].1)
    } else {
        assoc_get(entries.drop_first(), key)
    }
}

/// Entries with the first pair bound to `key` taken out; unchanged when no
/// pair is bound to it.
pub open spec fn assoc_remove<T>(entries: Seq<(Seq<char>, T)>, key: Seq<char>) -> Seq<
    (Seq<char>, T),
>
    decreases entries.len(),
{
    if entries.len() == 0 {
        entries
    } else if entries[0].0 == key {
        entries.drop_first()
    } else {
        seq![entries[0]] + assoc_remove(entries.drop_first(), key)
    }
}

/// Entries with the first pair bound to `key` rebound to `value`; the pair
/// is appended when no pair is bound to it.
pub open spec fn assoc_put<T>(entries: Seq<(Seq<char>, T)>, key: Seq<char>, value: T) -> Seq<
    (Seq<char>, T),
>
    decreases entries.len(),
{
    if entries.len() == 0 {
        seq![(key, value)]
    } else if entries[0].0 == key {
        seq![(entries[0].0, value)] + entries.drop_first()
    } else {
        seq![entries[0]] + assoc_put(entries.drop_first(), key, value)
    }
}

/// Index of the first pair bound to `key`, comparing keys by their
/// characters.
pub fn assoc_index<T>(entries: &Vec<(String, T)>, key: &str) -> (r: Option<usize>)
    ensures
        match r {
            Some(i) => i < entries@.len() && entries@[i as int].0@ == key@ && forall|j: int|
                0 <= j < i ==> entries@[j].0@ != key@,
            None => forall|j: int| 0 <= j < entries@.len() ==> entries@[j].0@ != key@,
        },
{
    let mut i: usize = 0;
    while i < entries.len()
        invariant
            i <= entries@.len(),
            forall|j: int| 0 <= j < i ==> entries@[j].0@ != key@,
        decreases entries@.len() - i,
    {
        if crate::helpers::str_eq(entries[i].0.as_str(), key) {
            return Some(i);
        }
        i += 1;
    }
    None
}

pub proof fn lemma_assoc_get_at<T>(entries: Seq<(Seq<char>, T)>, key: Seq<char>, i: int)
    requires
        0 <= i < entries.len(),
        entries[i].0 == key,
        forall|j: int| 0 <= j < i ==> (#[trigger] entries[j]).0 != key,
    ensures
        assoc_get(entries, key) == Some(entries[i].1),
    decreases entries.len(),
{
    if i > 0 {
        lemma_assoc_get_at(entries.drop_first(), key, i - 1);
    }
}

pub proof fn lemma_assoc_get_none<T>(entries: Seq<(Seq<char>, T)>, key: Seq<char>)
    requires
        forall|j: int| 0 <= j < entries.len() ==> (#[trigger] entries[j]).0 != key,
    ensures
        assoc_get(entries, key) is None,
    decreases entries.len(),
{
    if entries.len() > 0 {
        lemma_assoc_get_none(entries.drop_first(), key);
    }
}

/// The deep merge: for two objects, each entry of `b` is layered over `a` —
/// a null value deletes the key, any other value is merged into what `a`
/// binds the key to; in every other combination `b` replaces `a`.
pub open spec fn json_merged(a: JsonV, b: JsonV) -> JsonV
    decreases b, 0int,
{
    match b {
        JsonV::Obj(be) => match a {
            JsonV::Obj(ae) => JsonV::Obj(merge_entries(ae, be)),
            _ => b,
        },
        _ => b,
    }
}

pub open spec fn merge_entries(
    ae: Seq<(Seq<char>, JsonV)>,
    be: Seq<(Seq<char>, JsonV)>,
) -> Seq<(Seq<char>, JsonV)>
    decreases be, 1int,
{
    if be.len() == 0 {
        ae
    } else {
        let k = be[0].0;
        let v = be[0].1;
        let ae2 = if v is Null {
            assoc_remove(ae, k)
        } else {
            merge_put(ae, k, v)
        };
        merge_entries(ae2, be.drop_first())
    }
}

/// One entry of the merge: `v` is layered over whatever `ae` binds `k` to.
pub open spec fn merge_put(ae: Seq<(Seq<char>, JsonV)>, k: Seq<char>, v: JsonV) -> Seq<
    (Seq<char>, JsonV),
>
    decreases v, 2int,
{
    assoc_put(
        ae,
        k,
        match assoc_get(ae, k) {
            Some(cur) => json_merged(cur, v),
            None => v,
        },
    )
}

/// Distributing the entry view over concatenation.
pub proof fn lemma_view_entries_concat(x: Seq<(String, JsonValue)>, y: Seq<(String, JsonValue)>)
    ensures
        json_view_entries(x + y) == json_view_entries(x) + json_view_entries(y),
{
    lemma_json_view_entries(x);
    lemma_json_view_entries(y);
    lemma_json_view_entries(x + y);
    assert(json_view_entries(x + y) =~= json_view_entries(x) + json_view_entries(y));
}

/// Distributing the entry view over dropping the first entry.
pub proof fn lemma_view_entries_drop_first(s: Seq<(String, JsonValue)>)
    requires
        s.len() > 0,
    ensures
        json_view_entries(s.drop_first()) == json_view_entries(s).drop_first(),
{
    lemma_json_view_entries(s);
    lemma_json_view_entries(s.drop_first());
    assert(json_view_entries(s.drop_first()) =~= json_view_entries(s).drop_first());
}

/// The entry view of a single pair put in front.
pub proof fn lemma_view_entries_cons(e: (String, JsonValue), s: Seq<(String, JsonValue)>)
    ensures
        json_view_entries(seq![e] + s) == seq![(e.0@, json_view(e.1))] + json_view_entries(s),
{
    lemma_json_view_entries(s);
    lemma_json_view_entries(seq![e] + s);
    assert(json_view_entries(seq![e] + s) =~= seq![(e.0@, json_view(e.1))] + json_view_entries(
        s,
    ));
}

/// Entries with the first pair bound to `key` taken out.
fn entries_remove_first(entries: Vec<(String, JsonValue)>, key: &str) -> (r: Vec<
    (String, JsonValue),
>)
    ensures
        json_view_entries(r@) == assoc_remove(json_view_entries(entries@), key@),
    decreases entries@.len(),
{
    let ghost e0 = entries@;
    proof {
        lemma_json_view_entries(e0);
    }
    let mut rest = entries;
    if rest.len() == 0 {
        proof {
            assert(json_view_entries(e0).len() == 0);
        }
        rest
    } else {
        let e = rest.remove(0);
        proof {
            assert(rest@ =~= e0.drop_first());
            assert(json_view_entries(e0)[0] == (e0[0].0@, json_view(e0[0].1)));
        }
        if crate::helpers::str_eq(e.0.as_str(), key) {
            proof {
                lemma_view_entries_drop_first(e0);
            }
            rest
        } else {
            let tail = entries_remove_first(rest, key);
            let ghost tv = tail@;
            let mut out = tail;
            out.insert(0, e);
            proof {
                assert(out@ =~= seq![e] + tv);
                lemma_view_entries_cons(e, tv);
                lemma_view_entries_drop_first(e0);
                assert(json_view_entries(out@) =~= seq![json_view_entries(e0)[0]] + assoc_remove(
                    json_view_entries(e0).drop_first(),
                    key@,
                ));
            }
            out
        }
    }
}

/// Merge `v` over the first pair of `entries` bound to `key`, appending the
/// pair when the key is unbound.
fn entries_merge_put(entries: Vec<(String, JsonValue)>, key: &str, v: &JsonValue) -> (r: Vec<
    (String, JsonValue),
>)
    requires
        !(v@ is Null),
    ensures
        json_view_entries(r@) == merge_put(json_view_entries(entries@), key@, v@),
    decreases *v, 1int, entries@.len(),
{
    let ghost e0 = entries@;
    proof {
        lemma_json_view_entries(e0);
    }
    let mut rest = entries;
    if rest.len() == 0 {
        let mut out = rest;
        out.push((key.to_owned(), json_clone(v)));
        proof {
            assert(json_view_entries(e0).len() == 0);
            lemma_json_view_entries(out@);
            assert(json_view_entries(out@) =~= seq![(key@, v@)]);
            assert(merge_put(json_view_entries(e0), key@, v@) =~= seq![(key@, v@)]);
        }
        out
    } else {
        let e = rest.remove(0);
        proof {
            assert(rest@ =~= e0.drop_first());
            assert(json_view_entries(e0)[0] == (e0[0].0@, json_view(e0[0].1)));
        }
        if crate::helpers::str_eq(e.0.as_str(), key) {
            let merged = merge_values(e.1, v);
            let ghost mv = merged@;
            let ghost k0 = e.0@;
            let ghost rv = rest@;
            let mut out = rest;
            out.insert(0, (e.0, merged));
            proof {
                lemma_view_entries_drop_first(e0);
                lemma_view_entries_cons((out@[0].0, out@[0].1), rv);
                assert(out@ =~= seq![out@[0]] + rv);
                assert((out@[0].0@, json_view(out@[0].1)) == (k0, mv));
                assert(json_view_entries(out@) =~= seq![(k0, mv)] + json_view_entries(e0).drop_first());
                assert(merge_put(json_view_entries(e0), key@, v@) == assoc_put(
                    json_view_entries(e0),
                    key@,
                    json_merged(json_view(e0[0].1), v@),
                ));
                assert(merge_put(json_view_entries(e0), key@, v@) =~= seq![(k0, mv)]
                    + json_view_entries(e0).drop_first());
            }
            out
        } else {
            let tail = entries_merge_put(rest, key, v);
            let ghost tv = tail@;
            let mut out = tail;
            out.insert(0, e);
            proof {
                assert(out@ =~= seq![e] + tv);
                lemma_view_entries_cons(e, tv);
                lemma_view_entries_drop_first(e0);
                let ghost ev = json_view_entries(e0);
                assert(assoc_get(ev, key@) == assoc_get(ev.drop_first(), key@));
                assert(assoc_put(ev, key@, match assoc_get(ev, key@) {
                    Some(cur) => json_merged(cur, v@),
                    None => v@,
                }) =~= seq![ev[0]] + assoc_put(ev.drop_first(), key@, match assoc_get(
                    ev.drop_first(),
                    key@,
                ) {
                    Some(cur) => json_merged(cur, v@),
                    None => v@,
                }));
                assert(json_view_entries(out@) =~= seq![ev[0]] + merge_put(
                    ev.drop_first(),
                    key@,
                    v@,
                ));
            }
            out
        }
    }
}

/// The merge of `b` over `a` as a fresh value.
#[verifier::loop_isolation(false)]
fn merge_values(a: JsonValue, b: &JsonValue) -> (r: JsonValue)
    ensures
        r@ == json_merged(a@, b@),
    decreases *b, 0int, 0int,
{
    match b {
        JsonValue::Obj(be) => {
            match a {
                JsonValue::Obj(ae) => {
                    let ghost ava = json_view_entries(ae@);
                    let ghost bva = json_view_entries(be@);
                    let mut res = ae;
                    let mut j: usize = 0;
                    proof {
                        lemma_json_view_entries(be@);
                        assert(bva.skip(0) =~= bva);
                    }
                    while j < be.len()
                        invariant
                            j <= be@.len(),
                            merge_entries(ava, bva) == merge_entries(
                                json_view_entries(res@),
                                bva.skip(j as int),
                            ),
                        decreases be@.len() - j,
                    {
                        let ghost resv = json_view_entries(res@);
                        proof {
                            assert(decreases_to!(*b => be@[j as int].1)) by {
                                assert(decreases_to!(*b => b->Obj_0));
                                assert(b->Obj_0 == *be);
                                assert(decreases_to!(*be => be@[j as int]));
                                assert(decreases_to!(be@[j as int] => be@[j as int].1));
                            }
                            assert(bva.skip(j as int)[0] == (be@[j as int].0@, json_view(
                                be@[j as int].1,
                            )));
                            assert(bva.skip(j as int).drop_first() =~= bva.skip(j + 1));
                        }
                        let key = &be[j].0;
                        let v = &be[j].1;
                        if matches!(v, JsonValue::Null) {
                            res = entries_remove_first(res, key.as_str());
                        } else {
                            res = entries_merge_put(res, key.as_str(), v);
                        }
                        j += 1;
                    }
                    proof {
                        assert(bva.skip(be@.len() as int) =~= Seq::<(Seq<char>, JsonV)>::empty());
                    }
                    JsonValue::Obj(res)
                },
                _ => json_clone(b),
            }
        },
        _ => json_clone(b),
    }
}


/// Entries with the first pair bound to `key` rebound to `value`; the pair
/// is appended when the key is unbound.
pub fn entries_put(entries: Vec<(String, JsonValue)>, key: &str, value: JsonValue) -> (r: Vec<
    (String, JsonValue),
>)
    ensures
        json_view_entries(r@) == assoc_put(json_view_entries(entries@), key@, value@),
    decreases entries@.len(),
{
    let ghost e0 = entries@;
    let ghost vv = value@;
    proof {
        lemma_json_view_entries(e0);
    }
    let mut rest = entries;
    if rest.len() == 0 {
        let mut out = rest;
        out.push((key.to_owned(), value));
        proof {
            assert(json_view_entries(e0).len() == 0);
            lemma_json_view_entries(out@);
            assert(json_view_entries(out@) =~= seq![(key@, vv)]);
            assert(assoc_put(json_view_entries(e0), key@, vv) =~= seq![(key@, vv)]);
        }
        out
    } else {
        let e = rest.remove(0);
        proof {
            assert(rest@ =~= e0.drop_first());
            assert(json_view_entries(e0)[0] == (e0[0].0@, json_view(e0[0].1)));
        }
        if crate::helpers::str_eq(e.0.as_str(), key) {
            let ghost k0 = e.0@;
            let ghost rv = rest@;
            let mut out = rest;
            out.insert(0, (e.0, value));
            proof {
                lemma_view_entries_drop_first(e0);
                lemma_view_entries_cons((out@[0].0, out@[0].1), rv);
                assert(out@ =~= seq![out@[0]] + rv);
                assert((out@[0].0@, json_view(out@[0].1)) == (k0, vv));
                assert(json_view_entries(out@) =~= seq![(k0, vv)] + json_view_entries(
                    e0,
                ).drop_first());
                assert(assoc_put(json_view_entries(e0), key@, vv) =~= seq![(k0, vv)]
                    + json_view_entries(e0).drop_first());
            }
            out
        } else {
            let tail = entries_put(rest, key, value);
            let ghost tv = tail@;
            let mut out = tail;
            out.insert(0, e);
            proof {
                assert(out@ =~= seq![e] + tv);
                lemma_view_entries_cons(e, tv);
                lemma_view_entries_drop_first(e0);
                let ghost ev = json_view_entries(e0);
                assert(assoc_put(ev, key@, vv) =~= seq![ev[0]] + assoc_put(
                    ev.drop_first(),
                    key@,
                    vv,
                ));
                assert(json_view_entries(out@) =~= seq![ev[0]] + assoc_put(
                    ev.drop_first(),
                    key@,
                    vv,
                ));
            }
            out
        }
    }
}

/// A deep copy of an entry list.
pub fn clone_entries(v: &Vec<(String, JsonValue)>) -> (r: Vec<(String, JsonValue)>)
    ensures
        json_view_entries(r@) == json_view_entries(v@),
{
    let mut out: Vec<(String, JsonValue)> = Vec::new();
    let mut i: usize = 0;
    while i < v.len()
        invariant
            i <= v@.len(),
            out@.len() == i,
            forall|j: int|
                0 <= j < i ==> (#[trigger] out@[j]).0@ == v@[j].0@ && out@[j].1@ == v@[j].1@,
        decreases v@.len() - i,
    {
        let k = v[i].0.clone();
        let val = json_clone(&v[i].1);
        out.push((k, val));
        i += 1;
    }
    proof {
        lemma_json_view_entries(out@);
        lemma_json_view_entries(v@);
        assert(json_view_entries(out@) =~= json_view_entries(v@));
    }
    out
}

/// A copy of a list of string pairs.
pub fn clone_str_pairs(v: &Vec<(String, String)>) -> (r: Vec<(String, String)>)
    ensures
        r@.len() == v@.len(),
        forall|j: int|
            0 <= j < v@.len() ==> (#[trigger] r@[j]).0@ == v@[j].0@ && r@[j].1@ == v@[j].1@,
{
    let mut out: Vec<(String, String)> = Vec::new();
    let mut i: usize = 0;
    while i < v.len()
        invariant
            i <= v@.len(),
            out@.len() == i,
            forall|j: int|
                0 <= j < i ==> (#[trigger] out@[j]).0@ == v@[j].0@ && out@[j].1@ == v@[j].1@,
        decreases v@.len() - i,
    {
        let k = v[i].0.clone();
        let val = v[i].1.clone();
        out.push((k, val));
        i += 1;
    }
    out
}

/// A copy of a list of strings.
pub fn clone_strings(v: &Vec<String>) -> (r: Vec<String>)
    ensures
        r@.len() == v@.len(),
        forall|j: int| 0 <= j < v@.len() ==> (#[trigger] r@[j])@ == v@[j]@,
{
    let mut out: Vec<String> = Vec::new();
    let mut i: usize = 0;
    while i < v.len()
        invariant
            i <= v@.len(),
            out@.len() == i,
            forall|j: int| 0 <= j < i ==> (#[trigger] out@[j])@ == v@[j]@,
        decreases v@.len() - i,
    {
        out.push(v[i].clone());
        i += 1;
    }
    out
}

/// The value of the first pair bound to `key`, as the spec lookup sees it.
pub fn obj_get<'a, T>(entries: &'a Vec<(String, T)>, key: &str) -> (r: Option<&'a T>)
    ensures
        match r {
            Some(val) => assoc_get(key_value_view(entries@), key@) == Some(*val),
            None => assoc_get(key_value_view(entries@), key@) is None,
        },
{
    proof {
        lemma_key_value_view(entries@);
    }
    match assoc_index(entries, key) {
        Some(i) => {
            proof {
                lemma_assoc_get_at(key_value_view(entries@), key@, i as int);
            }
            Some(&entries[i].1)
        },
        None => {
            proof {
                lemma_assoc_get_none(key_value_view(entries@), key@);
            }
            None
        },
    }
}

/// Pairs with their keys viewed as character sequences and their values
/// kept as they are.
pub open spec fn key_value_view<T>(entries: Seq<(String, T)>) -> Seq<(Seq<char>, T)> {
    Seq::new(entries.len(), |i: int| (entries[i].0@, entries[i].1))
}

pub proof fn lemma_key_value_view<T>(entries: Seq<(String, T)>)
    ensures
        key_value_view(entries).len() == entries.len(),
        forall|i: int|
            0 <= i < entries.len() ==> #[trigger] key_value_view(entries)[i] == (
                entries[i].0@,
                entries[i].1,
            ),
{
}

/// The two lookups agree: viewing the values after the lookup is the same
/// as looking up in the fully viewed entries.
pub proof fn lemma_assoc_get_view(entries: Seq<(String, JsonValue)>, key: Seq<char>)
    ensures
        match assoc_get(key_value_view(entries), key) {
            Some(val) => assoc_get(json_view_entries(entries), key) == Some(json_view(val)),
            None => assoc_get(json_view_entries(entries), key) is None,
        },
    decreases entries.len(),
{
    lemma_key_value_view(entries);
    lemma_json_view_entries(entries);
    if entries.len() > 0 {
        assert(key_value_view(entries)[0] == (entries[0].0@, entries[0].1));
        assert(json_view_entries(entries)[0] == (entries[0].0@, json_view(entries[0].1)));
        if entries[0].0@ != key {
            lemma_assoc_get_view(entries.drop_first(), key);
            assert(key_value_view(entries.drop_first()) =~= key_value_view(
                entries,
            ).drop_first());
            assert(json_view_entries(entries.drop_first()) =~= json_view_entries(
                entries,
            ).drop_first());
        }
    }
}

/// After a put, the key reads back as the new value.
pub proof fn lemma_assoc_get_after_put<T>(entries: Seq<(Seq<char>, T)>, key: Seq<char>, value: T)
    ensures
        assoc_get(assoc_put(entries, key, value), key) == Some(value),
    decreases entries.len(),
{
    if entries.len() == 0 {
        assert(assoc_put(entries, key, value)[0] == (key, value));
    } else if entries[0].0 == key {
        assert(assoc_put(entries, key, value)[0] == (entries[0].0, value));
    } else {
        lemma_assoc_get_after_put(entries.drop_first(), key, value);
        assert(assoc_put(entries, key, value)[0] == entries[0]);
        assert(assoc_put(entries, key, value).drop_first() =~= assoc_put(
            entries.drop_first(),
            key,
            value,
        ));
    }
}

/// A put leaves every other key's binding alone.
pub proof fn lemma_assoc_get_after_put_other<T>(
    entries: Seq<(Seq<char>, T)>,
    key: Seq<char>,
    value: T,
    other: Seq<char>,
)
    requires
        other != key,
    ensures
        assoc_get(assoc_put(entries, key, value), other) == assoc_get(entries, other),
    decreases entries.len(),
{
    if entries.len() == 0 {
        assert(assoc_put(entries, key, value)[0] == (key, value));
        assert(assoc_put(entries, key, value).drop_first() =~= entries);
    } else if entries[0].0 == key {
        assert(assoc_put(entries, key, value)[0] == (entries[0].0, value));
        assert(assoc_put(entries, key, value).drop_first() =~= entries.drop_first());
    } else {
        lemma_assoc_get_after_put_other(entries.drop_first(), key, value, other);
        assert(assoc_put(entries, key, value)[0] == entries[0]);
        assert(assoc_put(entries, key, value).drop_first() =~= assoc_put(
            entries.drop_first(),
            key,
            value,
        ));
    }
}

/// Rebinding a key to the value it already has changes nothing.
pub proof fn lemma_assoc_put_redundant<T>(entries: Seq<(Seq<char>, T)>, key: Seq<char>, value: T)
    requires
        assoc_get(entries, key) == Some(value),
    ensures
        assoc_put(entries, key, value) == entries,
    decreases entries.len(),
{
    if entries.len() > 0 {
        if entries[0].0 == key {
            assert((entries[0].0, value) == entries[0]);
            assert(seq![entries[0]] + entries.drop_first() =~= entries);
        } else {
            lemma_assoc_put_redundant(entries.drop_first(), key, value);
            assert(seq![entries[0]] + assoc_put(entries.drop_first(), key, value) =~= entries);
        }
    }
}

/// Merge `b` into `a` in place: the deep merge of the two values replaces
/// `a`.
pub fn json_merge(a: &mut JsonValue, b: JsonValue)
    ensures
        final (a)@ == json_merged(old(a)@, b@),
{
    let mut tmp = JsonValue::Null;
    core::mem::swap(a, &mut tmp);
    let merged = merge_values(tmp, &b);
    *a = merged;
}

} // verus!
