//! The reference resolver and the execution context it walks: declared step
//! parameters may be literals, dot-separated paths into the context, or
//! pointers into the vault, and are resolved recursively into concrete
//! values.

use vstd::prelude::*;

use crate::errors::{SoclessError, SoclessErrorV};
use crate::helpers::{find_char, has_prefix, split_chars, starts_with, strs_view};
use crate::json::{
    assoc_get, clone_entries, json_clone, json_view, json_view_entries, lemma_assoc_get_view,
    lemma_json_view_entries, lemma_view_entries_concat, JsonV, JsonValue,
};
use crate::models::{
    parse_playbook_artifacts, parse_playbook_artifacts_spec, playbook_artifacts_json,
    PlaybookArtifacts, PlaybookArtifactsV,
};

verus! {

/// The vault contents known to the current invocation: object names paired
/// with the stored text. The resolver reads it instead of the blob store;
/// when a name is missing it reports `VaultKeyUnavailable` so the caller
/// can fetch the object and retry.
#[derive(Debug, PartialEq, Eq)]
pub struct Vault {
    pub entries: Vec<(String, String)>,
}

impl View for Vault {
    type V = Seq<(Seq<char>, Seq<char>)>;

    open spec fn view(&self) -> Seq<(Seq<char>, Seq<char>)> {
        crate::models::str_pairs_view(self.entries@)
    }
}

impl Vault {
    /// An empty vault snapshot.
    pub fn new() -> (r: Vault)
        ensures
            r@ == Seq::<(Seq<char>, Seq<char>)>::empty(),
    {
        let v = Vault { entries: Vec::new() };
        proof {
            assert(v@ =~= Seq::<(Seq<char>, Seq<char>)>::empty());
        }
        v
    }

    /// Record the content fetched for one vault object.
    pub fn add(&mut self, key: String, content: String)
        ensures
            final (self)@ == old(self)@.push((key@, content@)),
    {
        let ghost k = key@;
        let ghost c = content@;
        self.entries.push((key, content));
        proof {
            assert(self@ =~= old(self)@.push((k, c)));
        }
    }
}

/// The view of an optional string.
pub open spec fn opt_string_view(o: Option<String>) -> Option<Seq<char>> {
    match o {
        Some(s) => Some(s@),
        None => None,
    }
}

/// The view of an optional entry list.
pub open spec fn opt_entries_view(o: Option<Vec<(String, JsonValue)>>) -> Option<
    Seq<(Seq<char>, JsonV)>,
> {
    match o {
        Some(v) => Some(json_view_entries(v@)),
        None => None,
    }
}

/// The root object that references are evaluated against.
#[derive(Debug, PartialEq, Eq)]
pub struct SoclessContext {
    pub execution_id: Option<String>,
    pub artifacts: Option<Vec<(String, JsonValue)>>,
    pub results: Option<Vec<(String, JsonValue)>>,
    pub errors: Option<Vec<(String, JsonValue)>>,
    pub task_token: Option<String>,
    pub state_name: Option<String>,
    pub other: Vec<(String, JsonValue)>,
}

/// Mathematical view of the execution context.
pub struct SoclessContextV {
    pub execution_id: Option<Seq<char>>,
    pub artifacts: Option<Seq<(Seq<char>, JsonV)>>,
    pub results: Option<Seq<(Seq<char>, JsonV)>>,
    pub errors: Option<Seq<(Seq<char>, JsonV)>>,
    pub task_token: Option<Seq<char>>,
    pub state_name: Option<Seq<char>>,
    pub other: Seq<(Seq<char>, JsonV)>,
}

impl View for SoclessContext {
    type V = SoclessContextV;

    open spec fn view(&self) -> SoclessContextV {
        SoclessContextV {
            execution_id: opt_string_view(self.execution_id),
            artifacts: opt_entries_view(self.artifacts),
            results: opt_entries_view(self.results),
            errors: opt_entries_view(self.errors),
            task_token: opt_string_view(self.task_token),
            state_name: opt_string_view(self.state_name),
            other: json_view_entries(self.other@),
        }
    }
}

/// A present string field serializes as one entry; an absent one as none.
pub open spec fn opt_text_entry(name: Seq<char>, o: Option<Seq<char>>) -> Seq<(Seq<char>, JsonV)> {
    match o {
        Some(t) => seq![(name, JsonV::Text(t))],
        None => Seq::empty(),
    }
}

/// A present mapping field serializes as one entry; an absent one as none.
pub open spec fn opt_obj_entry(name: Seq<char>, o: Option<Seq<(Seq<char>, JsonV)>>) -> Seq<
    (Seq<char>, JsonV),
> {
    match o {
        Some(es) => seq![(name, JsonV::Obj(es))],
        None => Seq::empty(),
    }
}

/// The JSON object the context serializes to: each present field under its
/// own key, then whatever extra entries the context carried.
pub open spec fn ctx_json(c: SoclessContextV) -> JsonV {
    JsonV::Obj(
        opt_text_entry("execution_id"@, c.execution_id) + opt_obj_entry("artifacts"@, c.artifacts)
            + opt_obj_entry("results"@, c.results) + opt_obj_entry("errors"@, c.errors)
            + opt_text_entry("task_token"@, c.task_token) + opt_text_entry(
            "state_name"@,
            c.state_name,
        ) + c.other,
    )
}

impl SoclessContext {
    /// The JSON object this context serializes to.
    pub fn to_json(&self) -> (r: JsonValue)
        ensures
            r@ == ctx_json(self@),
    {
        let ghost p1 = opt_text_entry("execution_id"@, self@.execution_id);
        let ghost p2 = p1 + opt_obj_entry("artifacts"@, self@.artifacts);
        let ghost p3 = p2 + opt_obj_entry("results"@, self@.results);
        let ghost p4 = p3 + opt_obj_entry("errors"@, self@.errors);
        let ghost p5 = p4 + opt_text_entry("task_token"@, self@.task_token);
        let ghost p6 = p5 + opt_text_entry("state_name"@, self@.state_name);
        let mut out: Vec<(String, JsonValue)> = Vec::new();
        if let Some(x) = &self.execution_id {
            out.push(("execution_id".to_owned(), JsonValue::Text(x.clone())));
        }
        proof {
            lemma_json_view_entries(out@);
            assert(json_view_entries(out@) =~= p1);
        }
        if let Some(a) = &self.artifacts {
            out.push(("artifacts".to_owned(), JsonValue::Obj(clone_entries(a))));
        }
        proof {
            lemma_json_view_entries(out@);
            assert(json_view_entries(out@) =~= p2);
        }
        if let Some(a) = &self.results {
            out.push(("results".to_owned(), JsonValue::Obj(clone_entries(a))));
        }
        proof {
            lemma_json_view_entries(out@);
            assert(json_view_entries(out@) =~= p3);
        }
        if let Some(a) = &self.errors {
            out.push(("errors".to_owned(), JsonValue::Obj(clone_entries(a))));
        }
        proof {
            lemma_json_view_entries(out@);
            assert(json_view_entries(out@) =~= p4);
        }
        if let Some(x) = &self.task_token {
            out.push(("task_token".to_owned(), JsonValue::Text(x.clone())));
        }
        proof {
            lemma_json_view_entries(out@);
            assert(json_view_entries(out@) =~= p5);
        }
        if let Some(x) = &self.state_name {
            out.push(("state_name".to_owned(), JsonValue::Text(x.clone())));
        }
        proof {
            lemma_json_view_entries(out@);
            assert(json_view_entries(out@) =~= p6);
        }
        let ghost done = out@;
        let mut rest = clone_entries(&self.other);
        let ghost restv = rest@;
        out.append(&mut rest);
        proof {
            lemma_view_entries_concat(done, restv);
            assert(json_view_entries(out@) =~= p6 + json_view_entries(self.other@));
        }
        JsonValue::Obj(out)
    }
}

/// The addressable part of a reference string: everything before the
/// first conversion marker `!`; the directive after it is reserved and
/// ignored.
pub open spec fn trim_conversion(s: Seq<char>) -> Seq<char> {
    match find_char(s, '!') {
        Some(i) => s.subrange(0, i),
        None => s,
    }
}

/// Restricted dot-path traversal. Each key must index into the current
/// object and find a non-null value; a string value carrying the vault
/// marker is transparently replaced by the named vault object's content
/// before traversal continues.
pub open spec fn walk_path(
    cur: JsonV,
    keys: Seq<Seq<char>>,
    vault: Seq<(Seq<char>, Seq<char>)>,
    path: Seq<char>,
) -> Result<JsonV, SoclessErrorV>
    decreases keys.len(),
{
    if keys.len() == 0 {
        Ok(cur)
    } else {
        let k = keys[0];
        let looked = match cur {
            JsonV::Obj(es) => assoc_get(es, k),
            _ => None,
        };
        match looked {
            None => Err(SoclessErrorV::ResolutionError { key: k, path }),
            Some(v) => if v is Null {
                Err(SoclessErrorV::ResolutionError { key: k, path })
            } else if v is Text && has_prefix(v->Text_0, "vault:"@) {
                let name = (v->Text_0).skip("vault:"@.len() as int);
                match assoc_get(vault, name) {
                    Some(content) => walk_path(
                        JsonV::Text(content),
                        keys.drop_first(),
                        vault,
                        path,
                    ),
                    None => Err(SoclessErrorV::VaultKeyUnavailable { key: name }),
                }
            } else {
                walk_path(v, keys.drop_first(), vault, path)
            },
        }
    }
}

/// How one reference string resolves: a vault pointer fetches the object's
/// text, a path reference walks the context, anything else is a literal.
pub open spec fn resolve_text_spec(
    s: Seq<char>,
    ctx: JsonV,
    vault: Seq<(Seq<char>, Seq<char>)>,
) -> Result<JsonV, SoclessErrorV> {
    let trimmed = trim_conversion(s);
    if has_prefix(trimmed, "vault:"@) {
        let name = trimmed.skip("vault:"@.len() as int);
        match assoc_get(vault, name) {
            Some(content) => Ok(JsonV::Text(content)),
            None => Err(SoclessErrorV::VaultKeyUnavailable { key: name }),
        }
    } else if has_prefix(trimmed, "$."@) {
        walk_path(ctx, split_chars(trimmed.skip("$."@.len() as int), '.'), vault, trimmed)
    } else {
        Ok(JsonV::Text(trimmed))
    }
}

/// How a whole reference value resolves: objects and sequences are resolved
/// member by member, strings by their addressing form, and any other
/// scalar is returned unchanged. The first failure wins.
pub open spec fn resolve_ref(r: JsonV, ctx: JsonV, vault: Seq<(Seq<char>, Seq<char>)>) -> Result<
    JsonV,
    SoclessErrorV,
>
    decreases r, 0int,
{
    match r {
        JsonV::Obj(es) => match resolve_obj_entries(es, ctx, vault) {
            Ok(es2) => Ok(JsonV::Obj(es2)),
            Err(e) => Err(e),
        },
        JsonV::Arr(xs) => match resolve_elems(xs, ctx, vault) {
            Ok(xs2) => Ok(JsonV::Arr(xs2)),
            Err(e) => Err(e),
        },
        JsonV::Text(s) => resolve_text_spec(s, ctx, vault),
        _ => Ok(r),
    }
}

/// Resolve every element of a sequence, in order.
pub open spec fn resolve_elems(
    xs: Seq<JsonV>,
    ctx: JsonV,
    vault: Seq<(Seq<char>, Seq<char>)>,
) -> Result<Seq<JsonV>, SoclessErrorV>
    decreases xs, 1int,
{
    if xs.len() == 0 {
        Ok(Seq::empty())
    } else {
        match resolve_ref(xs[0], ctx, vault) {
            Err(e) => Err(e),
            Ok(v) => match resolve_elems(xs.drop_first(), ctx, vault) {
                Err(e) => Err(e),
                Ok(rest) => Ok(seq![v] + rest),
            },
        }
    }
}

/// Resolve every value of an object, keeping its keys.
pub open spec fn resolve_obj_entries(
    es: Seq<(Seq<char>, JsonV)>,
    ctx: JsonV,
    vault: Seq<(Seq<char>, Seq<char>)>,
) -> Result<Seq<(Seq<char>, JsonV)>, SoclessErrorV>
    decreases es, 1int,
{
    if es.len() == 0 {
        Ok(Seq::empty())
    } else {
        match resolve_ref(es[0].1, ctx, vault) {
            Err(e) => Err(e),
            Ok(v) => match resolve_obj_entries(es.drop_first(), ctx, vault) {
                Err(e) => Err(e),
                Ok(rest) => Ok(seq![(es[0].0, v)] + rest),
            },
        }
    }
}

/// Walk `keys` through `start`, as `walk_path` describes.
#[verifier::loop_isolation(false)]
fn walk_path_exec(start: JsonValue, keys: &Vec<String>, vault: &Vault, path: &String) -> (r:
    Result<JsonValue, SoclessError>)
    ensures
        match r {
            Ok(v) => walk_path(start@, strs_view(keys@), vault@, path@) == Ok::<
                JsonV,
                SoclessErrorV,
            >(v@),
            Err(e) => walk_path(start@, strs_view(keys@), vault@, path@) == Err::<
                JsonV,
                SoclessErrorV,
            >(e@),
        },
{
    let ghost start0 = start@;
    let ghost allkeys = strs_view(keys@);
    let mut cur = start;
    let mut i: usize = 0;
    proof {
        assert(allkeys.skip(0) =~= allkeys);
    }
    while i < keys.len()
        invariant
            i <= keys@.len(),
            walk_path(start0, allkeys, vault@, path@) == walk_path(
                cur@,
                allkeys.skip(i as int),
                vault@,
                path@,
            ),
        decreases keys@.len() - i,
    {
        let ghost rem = allkeys.skip(i as int);
        proof {
            assert(rem[0] == keys@[i as int]@);
            assert(rem.drop_first() =~= allkeys.skip(i + 1));
        }
        let k = &keys[i];
        let next: JsonValue = match &cur {
            JsonValue::Obj(entries) => {
                proof {
                    lemma_assoc_get_view(entries@, k@);
                }
                match crate::json::obj_get(entries, k.as_str()) {
                    None => {
                        return Err(
                            SoclessError::ResolutionError { key: k.clone(), path: path.clone() },
                        );
                    },
                    Some(v) => {
                        if matches!(v, JsonValue::Null) {
                            return Err(
                                SoclessError::ResolutionError {
                                    key: k.clone(),
                                    path: path.clone(),
                                },
                            );
                        }
                        match v {
                            JsonValue::Text(t) => {
                                if starts_with(t.as_str(), "vault:") {
                                    proof {
                                        reveal_strlit("vault:");
                                    }
                                    let name = t.as_str().substring_char(
                                        6,
                                        t.as_str().unicode_len(),
                                    ).to_owned();
                                    proof {
                                        assert(name@ =~= (t@).skip("vault:"@.len() as int));
                                    }
                                    match crate::json::assoc_index(&vault.entries, name.as_str()) {
                                        Some(vi) => {
                                            proof {
                                                crate::json::lemma_assoc_get_at(
                                                    vault@,
                                                    name@,
                                                    vi as int,
                                                );
                                            }
                                            JsonValue::Text(vault.entries[vi].1.clone())
                                        },
                                        None => {
                                            proof {
                                                crate::json::lemma_assoc_get_none(vault@, name@);
                                            }
                                            return Err(
                                                SoclessError::VaultKeyUnavailable { key: name },
                                            );
                                        },
                                    }
                                } else {
                                    json_clone(v)
                                }
                            },
                            _ => json_clone(v),
                        }
                    },
                }
            },
            _ => {
                return Err(SoclessError::ResolutionError { key: k.clone(), path: path.clone() });
            },
        };
        cur = next;
        i += 1;
    }
    proof {
        assert(allkeys.skip(keys@.len() as int) =~= Seq::<Seq<char>>::empty());
    }
    Ok(cur)
}

/// Resolve one reference string against the context and the vault.
fn resolve_text_exec(s: &String, root_obj: &SoclessContext, vault: &Vault) -> (r: Result<
    JsonValue,
    SoclessError,
>)
    ensures
        match r {
            Ok(v) => resolve_text_spec(s@, ctx_json(root_obj@), vault@) == Ok::<
                JsonV,
                SoclessErrorV,
            >(v@),
            Err(e) => resolve_text_spec(s@, ctx_json(root_obj@), vault@) == Err::<
                JsonV,
                SoclessErrorV,
            >(e@),
        },
{
    let trimmed: String = match crate::helpers::find_char_in(s.as_str(), '!') {
        Some(i) => {
            proof {
                crate::helpers::lemma_find_char_props(s@, '!');
            }
            s.as_str().substring_char(0, i).to_owned()
        },
        None => s.clone(),
    };
    proof {
        assert(trimmed@ == trim_conversion(s@));
    }
    if starts_with(trimmed.as_str(), "vault:") {
        proof {
            reveal_strlit("vault:");
        }
        let name = trimmed.as_str().substring_char(6, trimmed.as_str().unicode_len()).to_owned();
        proof {
            assert(name@ =~= trimmed@.skip("vault:"@.len() as int));
        }
        match crate::json::assoc_index(&vault.entries, name.as_str()) {
            Some(vi) => {
                proof {
                    crate::json::lemma_assoc_get_at(vault@, name@, vi as int);
                }
                Ok(JsonValue::Text(vault.entries[vi].1.clone()))
            },
            None => {
                proof {
                    crate::json::lemma_assoc_get_none(vault@, name@);
                }
                Err(SoclessError::VaultKeyUnavailable { key: name })
            },
        }
    } else if starts_with(trimmed.as_str(), "$.") {
        proof {
            reveal_strlit("$.");
        }
        let rest = trimmed.as_str().substring_char(2, trimmed.as_str().unicode_len());
        proof {
            assert(rest@ =~= trimmed@.skip("$."@.len() as int));
        }
        let keys = crate::helpers::split_on_char(rest, '.');
        walk_path_exec(root_obj.to_json(), &keys, vault, &trimmed)
    } else {
        Ok(JsonValue::Text(trimmed))
    }
}

/// Evaluate a reference value against the execution context: objects and
/// sequences member by member, strings by their addressing form, any other
/// scalar unchanged. The vault snapshot stands in for the blob store; a
/// missing vault object is reported as `VaultKeyUnavailable` so the caller
/// can fetch it and call again.
#[verifier::loop_isolation(false)]
pub fn resolve_reference(reference_path: &JsonValue, root_obj: &SoclessContext, vault: &Vault) -> (
    r: Result<JsonValue, SoclessError>)
    ensures
        match r {
            Ok(v) => resolve_ref(reference_path@, ctx_json(root_obj@), vault@) == Ok::<
                JsonV,
                SoclessErrorV,
            >(v@),
            Err(e) => resolve_ref(reference_path@, ctx_json(root_obj@), vault@) == Err::<
                JsonV,
                SoclessErrorV,
            >(e@),
        },
    decreases *reference_path, 0int,
{
    match reference_path {
        JsonValue::Obj(entries) => {
            proof {
                assert(decreases_to!(*reference_path => *entries)) by {
                    assert(decreases_to!(*reference_path => reference_path->Obj_0));
                    assert(reference_path->Obj_0 == *entries);
                }
            }
            match resolve_parameters(entries, root_obj, vault) {
                Ok(out) => Ok(JsonValue::Obj(out)),
                Err(e) => Err(e),
            }
        },
        JsonValue::Arr(elems) => {
            let ghost ctxv = ctx_json(root_obj@);
            let ghost xs = crate::json::json_view_seq(elems@);
            let mut out: Vec<JsonValue> = Vec::new();
            let mut i: usize = 0;
            proof {
                crate::json::lemma_json_view_seq(elems@);
                assert(xs.skip(0) =~= xs);
            }
            while i < elems.len()
                invariant
                    i <= elems@.len(),
                    out@.len() == i,
                    resolve_elems(xs, ctxv, vault@) == (match resolve_elems(
                        xs.skip(i as int),
                        ctxv,
                        vault@,
                    ) {
                        Ok(rest) => Ok(crate::json::json_view_seq(out@) + rest),
                        Err(e) => Err(e),
                    }),
                decreases elems@.len() - i,
            {
                let ghost out0 = out@;
                proof {
                    assert(decreases_to!(*reference_path => elems@[i as int])) by {
                        assert(decreases_to!(*reference_path => reference_path->Arr_0));
                        assert(reference_path->Arr_0 == *elems);
                        assert(decreases_to!(*elems => elems@[i as int]));
                    }
                    assert(xs.skip(i as int)[0] == xs[i as int]);
                    assert(xs.skip(i as int).drop_first() =~= xs.skip(i + 1));
                }
                match resolve_reference(&elems[i], root_obj, vault) {
                    Ok(v) => {
                        let ghost vv = v@;
                        out.push(v);
                        proof {
                            crate::json::lemma_json_view_seq(out0);
                            crate::json::lemma_json_view_seq(out@);
                            assert(crate::json::json_view_seq(out@) =~= crate::json::json_view_seq(
                                out0,
                            ) + seq![vv]);
                            if resolve_elems(xs.skip(i + 1), ctxv, vault@) is Ok {
                                let rest = resolve_elems(xs.skip(i + 1), ctxv, vault@)->Ok_0;
                                assert((crate::json::json_view_seq(out0) + (seq![vv] + rest)) =~= (
                                crate::json::json_view_seq(out@) + rest));
                            }
                        }
                    },
                    Err(e) => {
                        return Err(e);
                    },
                }
                i += 1;
            }
            proof {
                assert(xs.skip(elems@.len() as int) =~= Seq::<JsonV>::empty());
                assert(crate::json::json_view_seq(out@) + Seq::<JsonV>::empty() =~= crate::json::json_view_seq(out@));
            }
            Ok(JsonValue::Arr(out))
        },
        JsonValue::Text(s) => resolve_text_exec(s, root_obj, vault),
        _ => Ok(json_clone(reference_path)),
    }
}

/// Resolve every declared parameter against the context, preserving the
/// parameter names and their order.
#[verifier::loop_isolation(false)]
pub fn resolve_parameters(
    params: &Vec<(String, JsonValue)>,
    socless_context: &SoclessContext,
    vault: &Vault,
) -> (r: Result<Vec<(String, JsonValue)>, SoclessError>)
    ensures
        match r {
            Ok(out) => resolve_obj_entries(
                json_view_entries(params@),
                ctx_json(socless_context@),
                vault@,
            ) == Ok::<Seq<(Seq<char>, JsonV)>, SoclessErrorV>(json_view_entries(out@)),
            Err(e) => resolve_obj_entries(
                json_view_entries(params@),
                ctx_json(socless_context@),
                vault@,
            ) == Err::<Seq<(Seq<char>, JsonV)>, SoclessErrorV>(e@),
        },
    decreases params, 1int,
{
    let ghost ctxv = ctx_json(socless_context@);
    let ghost es = json_view_entries(params@);
    let mut out: Vec<(String, JsonValue)> = Vec::new();
    let mut i: usize = 0;
    proof {
        lemma_json_view_entries(params@);
        assert(es.skip(0) =~= es);
    }
    while i < params.len()
        invariant
            i <= params@.len(),
            out@.len() == i,
            resolve_obj_entries(es, ctxv, vault@) == (match resolve_obj_entries(
                es.skip(i as int),
                ctxv,
                vault@,
            ) {
                Ok(rest) => Ok(json_view_entries(out@) + rest),
                Err(e) => Err(e),
            }),
        decreases params@.len() - i,
    {
        let ghost out0 = out@;
        proof {
            assert(decreases_to!(params => params@[i as int].1)) by {
                assert(decreases_to!(*params => params@[i as int]));
                assert(decreases_to!(params@[i as int] => params@[i as int].1));
            }
            assert(es.skip(i as int)[0] == es[i as int]);
            assert(es.skip(i as int).drop_first() =~= es.skip(i + 1));
        }
        match resolve_reference(&params[i].1, socless_context, vault) {
            Ok(v) => {
                let ghost vv = v@;
                let ghost kk = params@[i as int].0@;
                out.push((params[i].0.clone(), v));
                proof {
                    lemma_json_view_entries(out0);
                    lemma_json_view_entries(out@);
                    assert(json_view_entries(out@) =~= json_view_entries(out0) + seq![(kk, vv)]);
                    if resolve_obj_entries(es.skip(i + 1), ctxv, vault@) is Ok {
                        let rest = resolve_obj_entries(es.skip(i + 1), ctxv, vault@)->Ok_0;
                        assert((json_view_entries(out0) + (seq![(kk, vv)] + rest)) =~= (
                        json_view_entries(out@) + rest));
                    }
                }
            },
            Err(e) => {
                return Err(e);
            },
        }
        i += 1;
    }
    proof {
        assert(es.skip(params@.len() as int) =~= Seq::<(Seq<char>, JsonV)>::empty());
        assert(json_view_entries(out@) + Seq::<(Seq<char>, JsonV)>::empty() =~= json_view_entries(
            out@,
        ));
    }
    Ok(out)
}

/// Entries whose keys are not in `excluded`, in order.
pub open spec fn entries_without(es: Seq<(Seq<char>, JsonV)>, excluded: Seq<Seq<char>>) -> Seq<
    (Seq<char>, JsonV),
>
    decreases es.len(),
{
    if es.len() == 0 {
        es
    } else if excluded.contains(es[0].0) {
        entries_without(es.drop_first(), excluded)
    } else {
        seq![es[0]] + entries_without(es.drop_first(), excluded)
    }
}

/// Copy the entries whose keys are not in `excluded`.
#[verifier::loop_isolation(false)]
fn entries_without_exec(entries: &Vec<(String, JsonValue)>, excluded: &Vec<String>) -> (r: Vec<
    (String, JsonValue),
>)
    ensures
        json_view_entries(r@) == entries_without(json_view_entries(entries@), strs_view(excluded@)),
{
    let ghost full = json_view_entries(entries@);
    let ghost ex = strs_view(excluded@);
    let mut out: Vec<(String, JsonValue)> = Vec::new();
    let mut i: usize = 0;
    proof {
        lemma_json_view_entries(entries@);
        assert(full.skip(0) =~= full);
    }
    while i < entries.len()
        invariant
            i <= entries@.len(),
            entries_without(full, ex) == json_view_entries(out@) + entries_without(
                full.skip(i as int),
                ex,
            ),
        decreases entries@.len() - i,
    {
        let ghost out0 = out@;
        proof {
            assert(full.skip(i as int)[0] == full[i as int]);
            assert(full.skip(i as int).drop_first() =~= full.skip(i + 1));
        }
        if !crate::helpers::contains_str(excluded, entries[i].0.as_str()) {
            let k = entries[i].0.clone();
            let v = json_clone(&entries[i].1);
            out.push((k, v));
            proof {
                lemma_json_view_entries(out0);
                lemma_json_view_entries(out@);
                assert(json_view_entries(out@) =~= json_view_entries(out0) + seq![full[i as int]]);
                assert(json_view_entries(out0) + (seq![full[i as int]] + entries_without(
                    full.skip(i + 1),
                    ex,
                )) =~= json_view_entries(out@) + entries_without(full.skip(i + 1), ex));
            }
        }
        i += 1;
    }
    proof {
        assert(full.skip(entries@.len() as int) =~= Seq::<(Seq<char>, JsonV)>::empty());
        assert(json_view_entries(out@) + Seq::<(Seq<char>, JsonV)>::empty() =~= json_view_entries(
            out@,
        ));
    }
    out
}

/// A step declaration: a name and the mapping of parameter names to
/// reference values, plus whatever extra keys the declaration carried.
#[derive(Debug, PartialEq, Eq)]
pub struct StateConfig {
    pub name: String,
    pub parameters: Vec<(String, JsonValue)>,
    pub other: Vec<(String, JsonValue)>,
}

/// Mathematical view of a step declaration.
pub struct StateConfigV {
    pub name: Seq<char>,
    pub parameters: Seq<(Seq<char>, JsonV)>,
    pub other: Seq<(Seq<char>, JsonV)>,
}

impl View for StateConfig {
    type V = StateConfigV;

    open spec fn view(&self) -> StateConfigV {
        StateConfigV {
            name: self.name@,
            parameters: json_view_entries(self.parameters@),
            other: json_view_entries(self.other@),
        }
    }
}

/// The invocation payload handed to an integration: the step declaration
/// and the workflow-engine bookkeeping around it.
#[derive(Debug, PartialEq, Eq)]
pub struct SoclessLambdaInput {
    pub state_config: StateConfig,
    pub _testing: Option<bool>,
    pub task_token: Option<String>,
    pub sfn_context: Option<JsonValue>,
    pub execution_id: Option<String>,
    pub artifacts: Option<PlaybookArtifacts>,
    pub errors: Option<JsonValue>,
    pub other: Vec<(String, JsonValue)>,
}

/// Mathematical view of the invocation payload.
pub struct SoclessLambdaInputV {
    pub state_config: StateConfigV,
    pub _testing: Option<bool>,
    pub task_token: Option<Seq<char>>,
    pub sfn_context: Option<JsonV>,
    pub execution_id: Option<Seq<char>>,
    pub artifacts: Option<PlaybookArtifactsV>,
    pub errors: Option<JsonV>,
    pub other: Seq<(Seq<char>, JsonV)>,
}

/// The view of an optional JSON value.
pub open spec fn opt_json_view(o: Option<JsonValue>) -> Option<JsonV> {
    match o {
        Some(v) => Some(json_view(v)),
        None => None,
    }
}

/// The view of optional artifacts.
pub open spec fn opt_artifacts_view(o: Option<PlaybookArtifacts>) -> Option<PlaybookArtifactsV> {
    match o {
        Some(a) => Some(a@),
        None => None,
    }
}

impl View for SoclessLambdaInput {
    type V = SoclessLambdaInputV;

    open spec fn view(&self) -> SoclessLambdaInputV {
        SoclessLambdaInputV {
            state_config: self.state_config@,
            _testing: self._testing,
            task_token: opt_string_view(self.task_token),
            sfn_context: opt_json_view(self.sfn_context),
            execution_id: opt_string_view(self.execution_id),
            artifacts: opt_artifacts_view(self.artifacts),
            errors: opt_json_view(self.errors),
            other: json_view_entries(self.other@),
        }
    }
}

/// The two keys a step declaration owns.
pub open spec fn state_config_keys() -> Seq<Seq<char>> {
    seq!["Name"@, "Parameters"@]
}

/// The keys the invocation payload owns.
pub open spec fn input_keys() -> Seq<Seq<char>> {
    seq![
        "State_Config"@,
        "_testing"@,
        "task_token"@,
        "sfn_context"@,
        "execution_id"@,
        "artifacts"@,
        "errors"@,
    ]
}

/// How a step declaration reads back from JSON: `Name` must be a string,
/// `Parameters` an object, and every other key is kept aside.
pub open spec fn parse_state_config_spec(v: JsonV) -> Option<StateConfigV> {
    match v {
        JsonV::Obj(es) => {
            match (
                crate::models::as_text_opt(assoc_get(es, "Name"@)),
                crate::models::as_obj_opt(assoc_get(es, "Parameters"@)),
            ) {
                (Some(name), Some(parameters)) => Some(
                    StateConfigV {
                        name,
                        parameters,
                        other: entries_without(es, state_config_keys()),
                    },
                ),
                _ => None,
            }
        },
        _ => None,
    }
}

/// An optional string field: absent or null reads as nothing, a string as
/// itself, and anything else fails the parse.
pub open spec fn opt_text_field(o: Option<JsonV>) -> Option<Option<Seq<char>>> {
    match o {
        None => Some(None),
        Some(JsonV::Null) => Some(None),
        Some(JsonV::Text(t)) => Some(Some(t)),
        Some(_) => None,
    }
}

/// An optional boolean field, read like `opt_text_field`.
pub open spec fn opt_bool_field(o: Option<JsonV>) -> Option<Option<bool>> {
    match o {
        None => Some(None),
        Some(JsonV::Null) => Some(None),
        Some(JsonV::Bool(b)) => Some(Some(b)),
        Some(_) => None,
    }
}

/// An optional field of arbitrary shape: absent and null both read as
/// nothing.
pub open spec fn opt_any_field(o: Option<JsonV>) -> Option<JsonV> {
    match o {
        None => None,
        Some(JsonV::Null) => None,
        Some(v) => Some(v),
    }
}

/// Optional artifacts: absent or null reads as nothing; anything else must
/// have the artifacts shape.
pub open spec fn opt_artifacts_field(o: Option<JsonV>) -> Option<Option<PlaybookArtifactsV>> {
    match o {
        None => Some(None),
        Some(JsonV::Null) => Some(None),
        Some(av) => match parse_playbook_artifacts_spec(av) {
            Some(a) => Some(Some(a)),
            None => None,
        },
    }
}

/// How the invocation payload reads back from JSON, before any of the
/// rebuilding rules: `State_Config` is required, the optional fields must
/// have their declared shapes, and unknown keys are kept aside.
pub open spec fn parse_socless_lambda_input_spec(v: JsonV) -> Option<SoclessLambdaInputV> {
    match v {
        JsonV::Obj(es) => {
            match assoc_get(es, "State_Config"@) {
                None => None,
                Some(scv) => match parse_state_config_spec(scv) {
                    None => None,
                    Some(state_config) => match (
                        opt_bool_field(assoc_get(es, "_testing"@)),
                        opt_text_field(assoc_get(es, "task_token"@)),
                        opt_text_field(assoc_get(es, "execution_id"@)),
                        opt_artifacts_field(assoc_get(es, "artifacts"@)),
                    ) {
                        (Some(t), Some(tok), Some(eid), Some(arts)) => Some(
                            SoclessLambdaInputV {
                                state_config,
                                _testing: t,
                                task_token: tok,
                                sfn_context: opt_any_field(assoc_get(es, "sfn_context"@)),
                                execution_id: eid,
                                artifacts: arts,
                                errors: opt_any_field(assoc_get(es, "errors"@)),
                                other: entries_without(es, input_keys()),
                            },
                        ),
                        _ => None,
                    },
                },
            }
        },
        _ => None,
    }
}

/// The payload an event outside any playbook run is wrapped into: the
/// whole event becomes the parameters of a step named `direct_invoke`.
pub open spec fn direct_invoke_spec(es: Seq<(Seq<char>, JsonV)>) -> SoclessLambdaInputV {
    SoclessLambdaInputV {
        state_config: StateConfigV {
            name: "direct_invoke"@,
            parameters: es,
            other: Seq::empty(),
        },
        _testing: None,
        task_token: None,
        sfn_context: None,
        execution_id: None,
        artifacts: None,
        errors: None,
        other: Seq::empty(),
    }
}

/// How a raw invocation event becomes the payload: parse it strictly, or
/// wrap a plain object as a direct invocation; an invocation carrying a
/// pause token is rebuilt from the workflow context it carries; and an
/// invocation with neither an execution id nor artifacts runs in test
/// mode.
pub open spec fn from_json_spec(v: JsonV) -> Option<SoclessLambdaInputV> {
    let base_opt = match parse_socless_lambda_input_spec(v) {
        Some(b) => Some(b),
        None => match v {
            JsonV::Obj(es) => Some(direct_invoke_spec(es)),
            _ => None,
        },
    };
    match base_opt {
        None => None,
        Some(base) => {
            let after_tok = match base.task_token {
                None => Some(base),
                Some(tok) => match base.sfn_context {
                    None => None,
                    Some(sc) => match parse_socless_lambda_input_spec(sc) {
                        None => None,
                        Some(x) => Some(SoclessLambdaInputV { task_token: Some(tok), ..x }),
                    },
                },
            };
            match after_tok {
                None => None,
                Some(b2) => Some(
                    if b2.execution_id is None && b2.artifacts is None {
                        SoclessLambdaInputV { _testing: Some(true), ..b2 }
                    } else {
                        b2
                    },
                ),
            }
        },
    }
}

/// Look up an optional string field.
fn get_opt_text(entries: &Vec<(String, JsonValue)>, key: &str) -> (r: Option<Option<String>>)
    ensures
        match r {
            Some(o) => opt_text_field(assoc_get(json_view_entries(entries@), key@)) == Some(
                opt_string_view(o),
            ),
            None => opt_text_field(assoc_get(json_view_entries(entries@), key@)) is None,
        },
{
    proof {
        lemma_assoc_get_view(entries@, key@);
    }
    match crate::json::obj_get(entries, key) {
        None => Some(None),
        Some(JsonValue::Null) => Some(None),
        Some(JsonValue::Text(t)) => Some(Some(t.clone())),
        Some(_) => None,
    }
}

/// Look up an optional boolean field.
fn get_opt_bool(entries: &Vec<(String, JsonValue)>, key: &str) -> (r: Option<Option<bool>>)
    ensures
        match r {
            Some(o) => opt_bool_field(assoc_get(json_view_entries(entries@), key@)) == Some(o),
            None => opt_bool_field(assoc_get(json_view_entries(entries@), key@)) is None,
        },
{
    proof {
        lemma_assoc_get_view(entries@, key@);
    }
    match crate::json::obj_get(entries, key) {
        None => Some(None),
        Some(JsonValue::Null) => Some(None),
        Some(JsonValue::Bool(b)) => Some(Some(*b)),
        Some(_) => None,
    }
}

/// Look up an optional field of arbitrary shape.
fn get_opt_any(entries: &Vec<(String, JsonValue)>, key: &str) -> (r: Option<JsonValue>)
    ensures
        opt_json_view(r) == opt_any_field(assoc_get(json_view_entries(entries@), key@)),
{
    proof {
        lemma_assoc_get_view(entries@, key@);
    }
    match crate::json::obj_get(entries, key) {
        None => None,
        Some(JsonValue::Null) => None,
        Some(v) => Some(json_clone(v)),
    }
}

/// Look up optional artifacts.
fn get_opt_artifacts(entries: &Vec<(String, JsonValue)>, key: &str) -> (r: Option<
    Option<PlaybookArtifacts>,
>)
    ensures
        match r {
            Some(o) => opt_artifacts_field(assoc_get(json_view_entries(entries@), key@)) == Some(
                opt_artifacts_view(o),
            ),
            None => opt_artifacts_field(assoc_get(json_view_entries(entries@), key@)) is None,
        },
{
    proof {
        lemma_assoc_get_view(entries@, key@);
    }
    match crate::json::obj_get(entries, key) {
        None => Some(None),
        Some(JsonValue::Null) => Some(None),
        Some(av) => match parse_playbook_artifacts(av) {
            Some(a) => Some(Some(a)),
            None => None,
        },
    }
}

/// Read a step declaration back from JSON.
pub fn parse_state_config(v: &JsonValue) -> (r: Option<StateConfig>)
    ensures
        match r {
            Some(sc) => parse_state_config_spec(v@) == Some(sc@),
            None => parse_state_config_spec(v@) is None,
        },
{
    let entries = match v {
        JsonValue::Obj(entries) => entries,
        _ => {
            return None;
        },
    };
    proof {
        lemma_assoc_get_view(entries@, "Name"@);
        lemma_assoc_get_view(entries@, "Parameters"@);
    }
    let name = match crate::json::obj_get(entries, "Name") {
        Some(JsonValue::Text(t)) => t.clone(),
        _ => {
            return None;
        },
    };
    let parameters = match crate::json::obj_get(entries, "Parameters") {
        Some(JsonValue::Obj(p)) => clone_entries(p),
        _ => {
            return None;
        },
    };
    let mut excluded: Vec<String> = Vec::new();
    excluded.push(String::from_str("Name"));
    excluded.push(String::from_str("Parameters"));
    proof {
        assert(strs_view(excluded@) =~= state_config_keys());
    }
    let other = entries_without_exec(entries, &excluded);
    Some(StateConfig { name, parameters, other })
}

/// Read the invocation payload back from JSON, strictly.
pub fn parse_socless_lambda_input(v: &JsonValue) -> (r: Option<SoclessLambdaInput>)
    ensures
        match r {
            Some(x) => parse_socless_lambda_input_spec(v@) == Some(x@),
            None => parse_socless_lambda_input_spec(v@) is None,
        },
{
    let entries = match v {
        JsonValue::Obj(entries) => entries,
        _ => {
            return None;
        },
    };
    proof {
        lemma_assoc_get_view(entries@, "State_Config"@);
    }
    let state_config = match crate::json::obj_get(entries, "State_Config") {
        None => {
            return None;
        },
        Some(scv) => match parse_state_config(scv) {
            Some(sc) => sc,
            None => {
                return None;
            },
        },
    };
    let _testing = match get_opt_bool(entries, "_testing") {
        Some(t) => t,
        None => {
            return None;
        },
    };
    let task_token = match get_opt_text(entries, "task_token") {
        Some(t) => t,
        None => {
            return None;
        },
    };
    let execution_id = match get_opt_text(entries, "execution_id") {
        Some(t) => t,
        None => {
            return None;
        },
    };
    let artifacts = match get_opt_artifacts(entries, "artifacts") {
        Some(a) => a,
        None => {
            return None;
        },
    };
    let sfn_context = get_opt_any(entries, "sfn_context");
    let errors = get_opt_any(entries, "errors");
    let mut excluded: Vec<String> = Vec::new();
    excluded.push(String::from_str("State_Config"));
    excluded.push(String::from_str("_testing"));
    excluded.push(String::from_str("task_token"));
    excluded.push(String::from_str("sfn_context"));
    excluded.push(String::from_str("execution_id"));
    excluded.push(String::from_str("artifacts"));
    excluded.push(String::from_str("errors"));
    proof {
        assert(strs_view(excluded@) =~= input_keys());
    }
    let other = entries_without_exec(entries, &excluded);
    Some(
        SoclessLambdaInput {
            state_config,
            _testing,
            task_token,
            sfn_context,
            execution_id,
            artifacts,
            errors,
            other,
        },
    )
}

impl SoclessLambdaInput {
    /// Build the invocation payload from a raw invocation event. An event
    /// without the declared shape is wrapped as a direct invocation when it
    /// is at least an object; an invocation carrying a pause token is
    /// rebuilt from the workflow context it carries; and an invocation
    /// with neither an execution id nor artifacts is flagged as a test
    /// run.
    pub fn from_json(event: JsonValue) -> (r: Result<SoclessLambdaInput, SoclessError>)
        ensures
            match r {
                Ok(x) => from_json_spec(event@) == Some(x@),
                Err(e) => from_json_spec(event@) is None && e is MalformedError,
            },
    {
        let base: SoclessLambdaInput = match parse_socless_lambda_input(&event) {
            Some(b) => b,
            None => {
                match event {
                    JsonValue::Obj(entries) => SoclessLambdaInput {
                        state_config: StateConfig {
                            name: String::from_str("direct_invoke"),
                            parameters: entries,
                            other: Vec::new(),
                        },
                        _testing: None,
                        task_token: None,
                        sfn_context: None,
                        execution_id: None,
                        artifacts: None,
                        errors: None,
                        other: Vec::new(),
                    },
                    _ => {
                        return Err(
                            SoclessError::MalformedError {
                                message: String::from_str(
                                    "unable to read the invocation event as a parameters object",
                                ),
                            },
                        );
                    },
                }
            },
        };
        proof {
            assert(json_view_entries(Seq::<(String, JsonValue)>::empty())
                =~= Seq::<(Seq<char>, JsonV)>::empty());
        }
        let SoclessLambdaInput {
            state_config,
            _testing,
            task_token,
            sfn_context,
            execution_id,
            artifacts,
            errors,
            other,
        } = base;
        let base2: SoclessLambdaInput = match task_token {
            None => SoclessLambdaInput {
                state_config,
                _testing,
                task_token: None,
                sfn_context,
                execution_id,
                artifacts,
                errors,
                other,
            },
            Some(tok) => {
                match sfn_context {
                    None => {
                        return Err(
                            SoclessError::MalformedError {
                                message: String::from_str(
                                    "an invocation with a task token must carry its workflow context",
                                ),
                            },
                        );
                    },
                    Some(sc) => {
                        match parse_socless_lambda_input(&sc) {
                            None => {
                                return Err(
                                    SoclessError::MalformedError {
                                        message: String::from_str(
                                            "the carried workflow context does not have the invocation shape",
                                        ),
                                    },
                                );
                            },
                            Some(x) => {
                                let mut x2 = x;
                                x2.task_token = Some(tok);
                                x2
                            },
                        }
                    },
                }
            },
        };
        let needs_testing = base2.execution_id.is_none() && base2.artifacts.is_none();
        if needs_testing {
            let mut b = base2;
            b._testing = Some(true);
            Ok(b)
        } else {
            Ok(base2)
        }
    }
}

/// A present boolean field serializes as one entry.
pub open spec fn opt_bool_entry(name: Seq<char>, o: Option<bool>) -> Seq<(Seq<char>, JsonV)> {
    match o {
        Some(b) => seq![(name, JsonV::Bool(b))],
        None => Seq::empty(),
    }
}

/// A present field of arbitrary shape serializes as one entry.
pub open spec fn opt_val_entry(name: Seq<char>, o: Option<JsonV>) -> Seq<(Seq<char>, JsonV)> {
    match o {
        Some(v) => seq![(name, v)],
        None => Seq::empty(),
    }
}

/// Present artifacts serialize as one entry.
pub open spec fn opt_artifacts_entry(o: Option<PlaybookArtifactsV>) -> Seq<(Seq<char>, JsonV)> {
    match o {
        Some(a) => seq![("artifacts"@, playbook_artifacts_json(a))],
        None => Seq::empty(),
    }
}

/// The JSON object a step declaration serializes to.
pub open spec fn state_config_json(sc: StateConfigV) -> JsonV {
    JsonV::Obj(
        seq![("Name"@, JsonV::Text(sc.name)), ("Parameters"@, JsonV::Obj(sc.parameters))]
            + sc.other,
    )
}

/// The JSON object the invocation payload serializes to.
pub open spec fn socless_lambda_input_json(x: SoclessLambdaInputV) -> JsonV {
    JsonV::Obj(
        seq![("State_Config"@, state_config_json(x.state_config))] + opt_bool_entry(
            "_testing"@,
            x._testing,
        ) + opt_text_entry("task_token"@, x.task_token) + opt_val_entry(
            "sfn_context"@,
            x.sfn_context,
        ) + opt_text_entry("execution_id"@, x.execution_id) + opt_artifacts_entry(x.artifacts)
            + opt_val_entry("errors"@, x.errors) + x.other,
    )
}

impl StateConfig {
    /// The JSON value this declaration serializes to.
    pub fn to_json(&self) -> (r: JsonValue)
        ensures
            r@ == state_config_json(self@),
    {
        let mut out: Vec<(String, JsonValue)> = Vec::new();
        out.push(("Name".to_owned(), JsonValue::Text(self.name.clone())));
        out.push(("Parameters".to_owned(), JsonValue::Obj(clone_entries(&self.parameters))));
        let ghost done = out@;
        let mut rest = clone_entries(&self.other);
        let ghost restv = rest@;
        out.append(&mut rest);
        proof {
            lemma_view_entries_concat(done, restv);
            lemma_json_view_entries(done);
            assert(json_view_entries(done) =~= seq![
                ("Name"@, JsonV::Text(self.name@)),
                ("Parameters"@, JsonV::Obj(json_view_entries(self.parameters@))),
            ]);
            assert(json_view_entries(out@) =~= state_config_json(self@)->Obj_0);
        }
        JsonValue::Obj(out)
    }
}

impl SoclessLambdaInput {
    /// The JSON value this payload serializes to.
    pub fn to_json(&self) -> (r: JsonValue)
        ensures
            r@ == socless_lambda_input_json(self@),
    {
        let ghost p1 = seq![("State_Config"@, state_config_json(self@.state_config))];
        let ghost p2 = p1 + opt_bool_entry("_testing"@, self@._testing);
        let ghost p3 = p2 + opt_text_entry("task_token"@, self@.task_token);
        let ghost p4 = p3 + opt_val_entry("sfn_context"@, self@.sfn_context);
        let ghost p5 = p4 + opt_text_entry("execution_id"@, self@.execution_id);
        let ghost p6 = p5 + opt_artifacts_entry(self@.artifacts);
        let ghost p7 = p6 + opt_val_entry("errors"@, self@.errors);
        let mut out: Vec<(String, JsonValue)> = Vec::new();
        out.push(("State_Config".to_owned(), self.state_config.to_json()));
        proof {
            lemma_json_view_entries(out@);
            assert(json_view_entries(out@) =~= p1);
        }
        if let Some(b) = &self._testing {
            out.push(("_testing".to_owned(), JsonValue::Bool(*b)));
        }
        proof {
            lemma_json_view_entries(out@);
            assert(json_view_entries(out@) =~= p2);
        }
        if let Some(t) = &self.task_token {
            out.push(("task_token".to_owned(), JsonValue::Text(t.clone())));
        }
        proof {
            lemma_json_view_entries(out@);
            assert(json_view_entries(out@) =~= p3);
        }
        if let Some(v) = &self.sfn_context {
            out.push(("sfn_context".to_owned(), json_clone(v)));
        }
        proof {
            lemma_json_view_entries(out@);
            assert(json_view_entries(out@) =~= p4);
        }
        if let Some(t) = &self.execution_id {
            out.push(("execution_id".to_owned(), JsonValue::Text(t.clone())));
        }
        proof {
            lemma_json_view_entries(out@);
            assert(json_view_entries(out@) =~= p5);
        }
        if let Some(a) = &self.artifacts {
            out.push(("artifacts".to_owned(), a.to_json()));
        }
        proof {
            lemma_json_view_entries(out@);
            assert(json_view_entries(out@) =~= p6);
        }
        if let Some(v) = &self.errors {
            out.push(("errors".to_owned(), json_clone(v)));
        }
        proof {
            lemma_json_view_entries(out@);
            assert(json_view_entries(out@) =~= p7);
        }
        let ghost done = out@;
        let mut rest = clone_entries(&self.other);
        let ghost restv = rest@;
        out.append(&mut rest);
        proof {
            lemma_view_entries_concat(done, restv);
            assert(json_view_entries(out@) =~= p7 + json_view_entries(self.other@));
        }
        JsonValue::Obj(out)
    }

    /// Resolve the declared parameters in place, leaving every other part
    /// of the payload as it was. On failure the payload is unchanged.
    pub fn resolve_state_config_parameters(
        &mut self,
        socless_context: &SoclessContext,
        vault: &Vault,
    ) -> (r: Result<(), SoclessError>)
        ensures
            match r {
                Ok(_) => resolve_obj_entries(
                    old(self)@.state_config.parameters,
                    ctx_json(socless_context@),
                    vault@,
                ) == Ok::<Seq<(Seq<char>, JsonV)>, SoclessErrorV>(
                    final (self)@.state_config.parameters,
                ) && final (self)@ == (SoclessLambdaInputV {
                    state_config: StateConfigV {
                        parameters: final (self)@.state_config.parameters,
                        ..old(self)@.state_config
                    },
                    ..old(self)@
                }),
                Err(e) => resolve_obj_entries(
                    old(self)@.state_config.parameters,
                    ctx_json(socless_context@),
                    vault@,
                ) == Err::<Seq<(Seq<char>, JsonV)>, SoclessErrorV>(e@) && *final (self) == *old(
                    self,
                ),
            },
    {
        match resolve_parameters(&self.state_config.parameters, socless_context, vault) {
            Ok(resolved) => {
                self.state_config.parameters = resolved;
                Ok(())
            },
            Err(e) => Err(e),
        }
    }
}

/// A value that contains no reference at all: no conversion marker, no
/// vault pointer and no path reference anywhere inside it.
pub open spec fn literal_only(r: JsonV) -> bool
    decreases r, 0int,
{
    match r {
        JsonV::Null => true,
        JsonV::Bool(_) => true,
        JsonV::Num(_) => true,
        JsonV::Text(t) => find_char(t, '!') is None && !has_prefix(t, "vault:"@) && !has_prefix(
            t,
            "$."@,
        ),
        JsonV::Arr(xs) => literal_only_seq(xs),
        JsonV::Obj(es) => literal_only_entries(es),
    }
}

pub open spec fn literal_only_seq(xs: Seq<JsonV>) -> bool
    decreases xs, 1int,
{
    if xs.len() == 0 {
        true
    } else {
        literal_only(xs[0]) && literal_only_seq(xs.drop_first())
    }
}

pub open spec fn literal_only_entries(es: Seq<(Seq<char>, JsonV)>) -> bool
    decreases es, 1int,
{
    if es.len() == 0 {
        true
    } else {
        literal_only(es[0].1) && literal_only_entries(es.drop_first())
    }
}

/// Law: the resolver is the identity on literal-only input. Whatever the
/// context and the vault hold, a value without references resolves to
/// itself.
pub proof fn lemma_resolve_literal_identity(
    r: JsonV,
    ctx: JsonV,
    vault: Seq<(Seq<char>, Seq<char>)>,
)
    requires
        literal_only(r),
    ensures
        resolve_ref(r, ctx, vault) == Ok::<JsonV, SoclessErrorV>(r),
    decreases r, 0int,
{
    match r {
        JsonV::Text(t) => {
            assert(trim_conversion(t) == t);
        },
        JsonV::Arr(xs) => {
            lemma_resolve_literal_seq(xs, ctx, vault);
        },
        JsonV::Obj(es) => {
            lemma_resolve_literal_entries(es, ctx, vault);
        },
        _ => {},
    }
}

pub proof fn lemma_resolve_literal_seq(
    xs: Seq<JsonV>,
    ctx: JsonV,
    vault: Seq<(Seq<char>, Seq<char>)>,
)
    requires
        literal_only_seq(xs),
    ensures
        resolve_elems(xs, ctx, vault) == Ok::<Seq<JsonV>, SoclessErrorV>(xs),
    decreases xs, 1int,
{
    if xs.len() > 0 {
        lemma_resolve_literal_identity(xs[0], ctx, vault);
        lemma_resolve_literal_seq(xs.drop_first(), ctx, vault);
        assert(seq![xs[0]] + xs.drop_first() =~= xs);
    } else {
        assert(xs =~= Seq::<JsonV>::empty());
    }
}

pub proof fn lemma_resolve_literal_entries(
    es: Seq<(Seq<char>, JsonV)>,
    ctx: JsonV,
    vault: Seq<(Seq<char>, Seq<char>)>,
)
    requires
        literal_only_entries(es),
    ensures
        resolve_obj_entries(es, ctx, vault) == Ok::<Seq<(Seq<char>, JsonV)>, SoclessErrorV>(es),
    decreases es, 1int,
{
    if es.len() > 0 {
        lemma_resolve_literal_identity(es[0].1, ctx, vault);
        lemma_resolve_literal_entries(es.drop_first(), ctx, vault);
        assert((es[0].0, es[0].1) == es[0]);
        assert(seq![es[0]] + es.drop_first() =~= es);
    } else {
        assert(es =~= Seq::<(Seq<char>, JsonV)>::empty());
    }
}

/// Plain traversal: index into the current object by each key in turn.
pub open spec fn get_path(cur: JsonV, keys: Seq<Seq<char>>) -> Option<JsonV>
    decreases keys.len(),
{
    if keys.len() == 0 {
        Some(cur)
    } else {
        match cur {
            JsonV::Obj(es) => match assoc_get(es, keys[0]) {
                Some(v) => get_path(v, keys.drop_first()),
                None => None,
            },
            _ => None,
        }
    }
}

/// Every step of the traversal finds a plain value: present, non-null,
/// and not a vault pointer.
pub open spec fn path_values_clean(cur: JsonV, keys: Seq<Seq<char>>) -> bool
    decreases keys.len(),
{
    if keys.len() == 0 {
        true
    } else {
        match cur {
            JsonV::Obj(es) => match assoc_get(es, keys[0]) {
                Some(v) => !(v is Null) && !(v is Text && has_prefix(v->Text_0, "vault:"@))
                    && path_values_clean(v, keys.drop_first()),
                None => false,
            },
            _ => false,
        }
    }
}

/// Somewhere along the traversal a key is missing or finds null, and no
/// vault pointer stands before that point.
pub open spec fn path_breaks(cur: JsonV, keys: Seq<Seq<char>>) -> bool
    decreases keys.len(),
{
    keys.len() > 0 && match cur {
        JsonV::Obj(es) => match assoc_get(es, keys[0]) {
            None => true,
            Some(v) => if v is Null {
                true
            } else if v is Text && has_prefix(v->Text_0, "vault:"@) {
                false
            } else {
                path_breaks(v, keys.drop_first())
            },
        },
        _ => true,
    }
}

/// Law, first half: where every segment of a path exists and finds a plain
/// value, traversal returns exactly that value, whatever the vault holds.
pub proof fn lemma_walk_path_found(
    cur: JsonV,
    keys: Seq<Seq<char>>,
    vault: Seq<(Seq<char>, Seq<char>)>,
    path: Seq<char>,
)
    requires
        path_values_clean(cur, keys),
    ensures
        get_path(cur, keys) is Some,
        walk_path(cur, keys, vault, path) == Ok::<JsonV, SoclessErrorV>(get_path(cur, keys)->0),
    decreases keys.len(),
{
    if keys.len() > 0 {
        match cur {
            JsonV::Obj(es) => {
                let v = assoc_get(es, keys[0])->0;
                lemma_walk_path_found(v, keys.drop_first(), vault, path);
            },
            _ => {},
        }
    }
}

/// Law, second half: where a segment of the path is absent (or finds
/// null), traversal fails with a resolution error, whatever the vault
/// holds.
pub proof fn lemma_walk_path_missing(
    cur: JsonV,
    keys: Seq<Seq<char>>,
    vault: Seq<(Seq<char>, Seq<char>)>,
    path: Seq<char>,
)
    requires
        path_breaks(cur, keys),
    ensures
        walk_path(cur, keys, vault, path) matches Err(e) && e is ResolutionError,
    decreases keys.len(),
{
    if keys.len() > 0 {
        match cur {
            JsonV::Obj(es) => {
                match assoc_get(es, keys[0]) {
                    Some(v) => {
                        if !(v is Null) && !(v is Text && has_prefix(v->Text_0, "vault:"@)) {
                            lemma_walk_path_missing(v, keys.drop_first(), vault, path);
                        }
                    },
                    None => {},
                }
            },
            _ => {},
        }
    }
}

/// Law: a path reference `$.a.b...` resolves to exactly the value that
/// plain traversal finds, and fails when a segment is absent.
pub proof fn lemma_resolve_path_reference(
    t: Seq<char>,
    ctx: JsonV,
    vault: Seq<(Seq<char>, Seq<char>)>,
)
    requires
        find_char(t, '!') is None,
        has_prefix(t, "$."@),
    ensures
        path_values_clean(ctx, split_chars(t.skip("$."@.len() as int), '.')) ==> resolve_ref(
            JsonV::Text(t),
            ctx,
            vault,
        ) == Ok::<JsonV, SoclessErrorV>(
            get_path(ctx, split_chars(t.skip("$."@.len() as int), '.'))->0,
        ),
        path_breaks(ctx, split_chars(t.skip("$."@.len() as int), '.')) ==> (resolve_ref(
            JsonV::Text(t),
            ctx,
            vault,
        ) matches Err(e) && e is ResolutionError),
{
    reveal_strlit("$.");
    reveal_strlit("vault:");
    assert(trim_conversion(t) == t);
    assert(t.subrange(0, "$."@.len() as int)[0] == t[0]);
    assert(t[0] == '$');
    if has_prefix(t, "vault:"@) {
        assert(t.subrange(0, "vault:"@.len() as int)[0] == t[0]);
        assert(t[0] == 'v');
    }
    assert(!has_prefix(t, "vault:"@));
    let keys = split_chars(t.skip("$."@.len() as int), '.');
    if path_values_clean(ctx, keys) {
        lemma_walk_path_found(ctx, keys, vault, t);
    }
    if path_breaks(ctx, keys) {
        lemma_walk_path_missing(ctx, keys, vault, t);
    }
}

/// Law: resolving a sequence preserves its length and order — each output
/// element is the resolution of the input element at the same position.
pub proof fn lemma_resolve_sequence_order(
    xs: Seq<JsonV>,
    ctx: JsonV,
    vault: Seq<(Seq<char>, Seq<char>)>,
)
    requires
        resolve_elems(xs, ctx, vault) is Ok,
    ensures
        resolve_elems(xs, ctx, vault)->Ok_0.len() == xs.len(),
        forall|i: int|
            0 <= i < xs.len() ==> resolve_ref(#[trigger] xs[i], ctx, vault) == Ok::<
                JsonV,
                SoclessErrorV,
            >(resolve_elems(xs, ctx, vault)->Ok_0[i]),
    decreases xs.len(),
{
    if xs.len() > 0 {
        lemma_resolve_sequence_order(xs.drop_first(), ctx, vault);
        let v = resolve_ref(xs[0], ctx, vault)->Ok_0;
        let rest = resolve_elems(xs.drop_first(), ctx, vault)->Ok_0;
        assert forall|i: int| 0 <= i < xs.len() implies resolve_ref(
            #[trigger] xs[i],
            ctx,
            vault,
        ) == Ok::<JsonV, SoclessErrorV>((seq![v] + rest)[i]) by {
            if i >= 1 {
                assert(xs.drop_first()[i - 1] == xs[i]);
            }
        }
    }
}

/// Law: resolving an object preserves its keys exactly, each with the
/// resolution of the value it was bound to.
pub proof fn lemma_resolve_object_keys(
    es: Seq<(Seq<char>, JsonV)>,
    ctx: JsonV,
    vault: Seq<(Seq<char>, Seq<char>)>,
)
    requires
        resolve_obj_entries(es, ctx, vault) is Ok,
    ensures
        resolve_obj_entries(es, ctx, vault)->Ok_0.len() == es.len(),
        forall|i: int|
            0 <= i < es.len() ==> (#[trigger] resolve_obj_entries(es, ctx, vault)->Ok_0[i]).0
                == es[i].0 && resolve_ref(es[i].1, ctx, vault) == Ok::<JsonV, SoclessErrorV>(
                resolve_obj_entries(es, ctx, vault)->Ok_0[i].1,
            ),
    decreases es.len(),
{
    if es.len() > 0 {
        lemma_resolve_object_keys(es.drop_first(), ctx, vault);
        let v = resolve_ref(es[0].1, ctx, vault)->Ok_0;
        let rest = resolve_obj_entries(es.drop_first(), ctx, vault)->Ok_0;
        assert forall|i: int| 0 <= i < es.len() implies (#[trigger] (seq![(es[0].0, v)]
            + rest)[i]).0 == es[i].0 && resolve_ref(es[i].1, ctx, vault) == Ok::<
            JsonV,
            SoclessErrorV,
        >((seq![(es[0].0, v)] + rest)[i].1) by {
            if i >= 1 {
                assert(es.drop_first()[i - 1] == es[i]);
            }
        }
    }
}

} // verus!
