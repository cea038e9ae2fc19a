//! The execution-context lifecycle around one step invocation: building
//! the context the resolver walks, and persisting a step's output back
//! into the shared execution record.

use vstd::prelude::*;

use crate::errors::{SoclessError, SoclessErrorV};
use crate::json::{
    assoc_put, clone_entries, entries_put, json_clone, json_merge, json_merged, json_view_entries,
    lemma_assoc_get_after_put, lemma_assoc_get_after_put_other, lemma_assoc_put_redundant,
    lemma_json_view_entries, lemma_view_entries_concat, JsonV, JsonValue,
};
use crate::models::{
    playbook_artifacts_json, PlaybookInput, PlaybookInputV, ResultsTableItem, ResultsTableItemV,
};
use crate::resolver::{
    opt_bool_entry, opt_string_view, opt_val_entry, state_config_json, SoclessContext,
    SoclessContextV, SoclessLambdaInput, SoclessLambdaInputV,
};

verus! {

/// The context a test invocation runs against: built from the invocation's
/// own payload, with no external reads.
pub open spec fn testing_ctx(
    e: SoclessLambdaInputV,
    errors: Option<Seq<(Seq<char>, JsonV)>>,
) -> SoclessContextV {
    SoclessContextV {
        execution_id: e.execution_id,
        artifacts: match e.artifacts {
            Some(a) => Some(playbook_artifacts_json(a)->Obj_0),
            None => None,
        },
        results: None,
        errors,
        task_token: e.task_token,
        state_name: None,
        other: seq![("State_Config"@, state_config_json(e.state_config))] + opt_bool_entry(
            "_testing"@,
            e._testing,
        ) + opt_val_entry("sfn_context"@, e.sfn_context) + e.other,
    }
}

/// The context a real invocation runs against: the loaded execution record
/// overlaid with the invocation's execution id and forwarded errors, plus
/// the pause token and step name when the run is paused.
pub open spec fn run_ctx(
    e: SoclessLambdaInputV,
    record: ResultsTableItemV,
    errors: Option<Seq<(Seq<char>, JsonV)>>,
) -> SoclessContextV {
    SoclessContextV {
        execution_id: e.execution_id,
        artifacts: Some(playbook_artifacts_json(record.results.artifacts)->Obj_0),
        results: Some(record.results.results),
        errors,
        task_token: e.task_token,
        state_name: match e.task_token {
            Some(_) => Some(e.state_config.name),
            None => None,
        },
        other: Seq::empty(),
    }
}

/// How the context is built from the invocation and the loaded record:
/// a test invocation reads nothing and carries its own payload over; any
/// other invocation needs an execution id and the record it names, takes
/// the record's artifacts and results, and overlays the forwarded errors
/// on the record's own error map — absent or null forwarded errors leave
/// the context without any.
pub open spec fn build_socless_context_spec(
    e: SoclessLambdaInputV,
    record: Option<ResultsTableItemV>,
) -> Result<SoclessContextV, SoclessErrorV> {
    if e._testing == Some(true) {
        match e.errors {
            Some(ev) => if ev is Null {
                Ok(testing_ctx(e, None))
            } else if ev is Obj {
                Ok(testing_ctx(e, Some(ev->Obj_0)))
            } else {
                Err(
                    SoclessErrorV::MalformedError {
                        message: "the errors of a test invocation must form an object"@,
                    },
                )
            },
            None => Ok(testing_ctx(e, None)),
        }
    } else {
        match e.execution_id {
            None => Err(
                SoclessErrorV::MalformedError {
                    message: "a non-test invocation must carry an execution id"@,
                },
            ),
            Some(eid) => match record {
                None => Err(
                    SoclessErrorV::NotFoundError { key: eid, table: "SOCLESS_RESULTS_TABLE"@ },
                ),
                Some(rv) => match e.errors {
                    None => Ok(run_ctx(e, rv, None)),
                    Some(ev) => if ev is Null {
                        Ok(run_ctx(e, rv, None))
                    } else {
                        let merged = json_merged(JsonV::Obj(rv.results.errors), ev);
                        if merged is Obj {
                            Ok(run_ctx(e, rv, Some(merged->Obj_0)))
                        } else {
                            Err(
                                SoclessErrorV::MalformedError {
                                    message:
                                        "the forwarded errors must merge into an object"@,
                                },
                            )
                        }
                    },
                },
            },
        }
    }
}

/// Copy an optional string.
fn clone_opt_string(o: &Option<String>) -> (r: Option<String>)
    ensures
        opt_string_view(r) == opt_string_view(*o),
{
    match o {
        Some(s) => Some(s.clone()),
        None => None,
    }
}

/// Construct the root object the resolver walks, as
/// `build_socless_context_spec` describes. The loaded execution record is
/// handed in by the caller; a missing record for a named execution id is
/// fatal.
pub fn build_socless_context(event: &SoclessLambdaInput, record: Option<&ResultsTableItem>) -> (r:
    Result<SoclessContext, SoclessError>)
    ensures
        match r {
            Ok(c) => build_socless_context_spec(
                event@,
                match record {
                    Some(rv) => Some(rv@),
                    None => None,
                },
            ) == Ok::<SoclessContextV, SoclessErrorV>(c@),
            Err(e) => build_socless_context_spec(
                event@,
                match record {
                    Some(rv) => Some(rv@),
                    None => None,
                },
            ) == Err::<SoclessContextV, SoclessErrorV>(e@),
        },
{
    let is_testing = match &event._testing {
        Some(b) => *b,
        None => false,
    };
    if is_testing {
        let errors: Option<Vec<(String, JsonValue)>> = match &event.errors {
            Some(ev) => match ev {
                JsonValue::Null => None,
                JsonValue::Obj(es) => Some(clone_entries(es)),
                _ => {
                    return Err(
                        SoclessError::MalformedError {
                            message: String::from_str(
                                "the errors of a test invocation must form an object",
                            ),
                        },
                    );
                },
            },
            None => None,
        };
        let artifacts: Option<Vec<(String, JsonValue)>> = match &event.artifacts {
            Some(a) => Some(a.to_entries()),
            None => None,
        };
        let ghost p1 = seq![("State_Config"@, state_config_json(event@.state_config))];
        let ghost p2 = p1 + opt_bool_entry("_testing"@, event@._testing);
        let ghost p3 = p2 + opt_val_entry("sfn_context"@, event@.sfn_context);
        let mut other: Vec<(String, JsonValue)> = Vec::new();
        other.push(("State_Config".to_owned(), event.state_config.to_json()));
        proof {
            lemma_json_view_entries(other@);
            assert(json_view_entries(other@) =~= p1);
        }
        if let Some(b) = &event._testing {
            other.push(("_testing".to_owned(), JsonValue::Bool(*b)));
        }
        proof {
            lemma_json_view_entries(other@);
            assert(json_view_entries(other@) =~= p2);
        }
        if let Some(sc) = &event.sfn_context {
            other.push(("sfn_context".to_owned(), json_clone(sc)));
        }
        proof {
            lemma_json_view_entries(other@);
            assert(json_view_entries(other@) =~= p3);
        }
        let ghost done = other@;
        let mut rest = clone_entries(&event.other);
        let ghost restv = rest@;
        other.append(&mut rest);
        proof {
            lemma_view_entries_concat(done, restv);
            assert(json_view_entries(other@) =~= p3 + json_view_entries(event.other@));
        }
        Ok(
            SoclessContext {
                execution_id: clone_opt_string(&event.execution_id),
                artifacts,
                results: None,
                errors,
                task_token: clone_opt_string(&event.task_token),
                state_name: None,
                other,
            },
        )
    } else {
        let execution_id: String = match &event.execution_id {
            Some(eid) => eid.clone(),
            None => {
                return Err(
                    SoclessError::MalformedError {
                        message: String::from_str(
                            "a non-test invocation must carry an execution id",
                        ),
                    },
                );
            },
        };
        let item = match record {
            Some(item) => item,
            None => {
                return Err(
                    SoclessError::NotFoundError {
                        key: execution_id,
                        table: String::from_str("SOCLESS_RESULTS_TABLE"),
                    },
                );
            },
        };
        let errors: Option<Vec<(String, JsonValue)>> = match &event.errors {
            None => None,
            Some(ev) => match ev {
                JsonValue::Null => None,
                _ => {
                    let mut acc = JsonValue::Obj(clone_entries(&item.results.errors));
                    json_merge(&mut acc, json_clone(ev));
                    match acc {
                        JsonValue::Obj(es) => Some(es),
                        _ => {
                            return Err(
                                SoclessError::MalformedError {
                                    message: String::from_str(
                                        "the forwarded errors must merge into an object",
                                    ),
                                },
                            );
                        },
                    }
                },
            },
        };
        let (task_token, state_name): (Option<String>, Option<String>) = match &event.task_token {
            Some(t) => (Some(t.clone()), Some(event.state_config.name.clone())),
            None => (None, None),
        };
        let other: Vec<(String, JsonValue)> = Vec::new();
        proof {
            assert(json_view_entries(other@) =~= Seq::<(Seq<char>, JsonV)>::empty());
        }
        Ok(
            SoclessContext {
                execution_id: Some(execution_id),
                artifacts: Some(item.results.artifacts.to_entries()),
                results: Some(clone_entries(&item.results.results)),
                errors,
                task_token,
                state_name,
                other,
            },
        )
    }
}

/// The key under which the most recent step's output is kept, so it can be
/// read back without knowing the step's name.
pub open spec fn last_saved_results_key() -> Seq<char> {
    "_Last_Saved_Results"@
}

/// What persisting a step's output does to the shared payload: the output
/// is bound to the step's name and to the reserved last-saved key, and a
/// non-empty supplied error map replaces the payload's errors.
pub open spec fn apply_state_results(
    p: PlaybookInputV,
    name: Seq<char>,
    handler_result: JsonV,
    errors: Option<Seq<(Seq<char>, JsonV)>>,
) -> PlaybookInputV {
    PlaybookInputV {
        artifacts: p.artifacts,
        results: assoc_put(
            assoc_put(p.results, name, handler_result),
            last_saved_results_key(),
            handler_result,
        ),
        errors: match errors {
            Some(es) => if es.len() > 0 {
                es
            } else {
                p.errors
            },
            None => p.errors,
        },
    }
}

/// Merge a step's output into the shared payload under the step's name, as
/// one targeted update: never a wholesale replacement of the results map.
pub fn save_state_results(
    results: &mut PlaybookInput,
    state_config_name: &str,
    handler_result: &JsonValue,
    socless_context_errors: Option<Vec<(String, JsonValue)>>,
)
    ensures
        final (results)@ == apply_state_results(
            old(results)@,
            state_config_name@,
            handler_result@,
            match socless_context_errors {
                Some(es) => Some(json_view_entries(es@)),
                None => None,
            },
        ),
{
    let mut tmp: Vec<(String, JsonValue)> = Vec::new();
    core::mem::swap(&mut results.results, &mut tmp);
    let tmp = entries_put(tmp, state_config_name, json_clone(handler_result));
    let tmp = entries_put(tmp, "_Last_Saved_Results", json_clone(handler_result));
    results.results = tmp;
    match socless_context_errors {
        Some(es) => {
            if es.len() > 0 {
                results.errors = es;
            }
        },
        None => {},
    }
}

/// Law: persisting the same output twice is the same as persisting it
/// once — the update is idempotent, so a retried step write cannot change
/// the record further.
pub proof fn lemma_save_state_results_idempotent(
    p: PlaybookInputV,
    name: Seq<char>,
    handler_result: JsonV,
    errors: Option<Seq<(Seq<char>, JsonV)>>,
)
    ensures
        apply_state_results(
            apply_state_results(p, name, handler_result, errors),
            name,
            handler_result,
            errors,
        ) == apply_state_results(p, name, handler_result, errors),
{
    let lkey = last_saved_results_key();
    let once = assoc_put(assoc_put(p.results, name, handler_result), lkey, handler_result);
    lemma_assoc_get_after_put(assoc_put(p.results, name, handler_result), lkey, handler_result);
    if name == lkey {
        lemma_assoc_put_redundant(once, name, handler_result);
        lemma_assoc_get_after_put(once, name, handler_result);
        lemma_assoc_put_redundant(assoc_put(once, name, handler_result), lkey, handler_result);
    } else {
        lemma_assoc_get_after_put(p.results, name, handler_result);
        lemma_assoc_get_after_put_other(
            assoc_put(p.results, name, handler_result),
            lkey,
            handler_result,
            name,
        );
        lemma_assoc_put_redundant(once, name, handler_result);
        lemma_assoc_put_redundant(assoc_put(once, name, handler_result), lkey, handler_result);
    }
}

} // verus!
