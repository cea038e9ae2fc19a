//! The human-interaction bridge: opening a human-response request when a
//! run pauses, and completing it exactly once when the response arrives.

use vstd::prelude::*;

use crate::errors::{SoclessError, SoclessErrorV};
use crate::json::{
    assoc_get, clone_entries, entries_put, json_clone, json_view_entries, lemma_assoc_get_view,
    lemma_json_view_entries, JsonV, JsonValue,
};
use crate::models::{
    as_text_opt, PlaybookInput, PlaybookInputV, ResponsesTableItem, ResponsesTableItemV,
    ResultsTableItem, ResultsTableItemV,
};
use crate::resolver::{opt_string_view, SoclessContext, SoclessContextV};

verus! {

/// The investigation id a paused context carries: the `investigation_id`
/// string of the `event` object inside the context's artifacts.
pub open spec fn ctx_investigation_id(c: SoclessContextV) -> Option<Seq<char>> {
    match c.artifacts {
        Some(arts) => match assoc_get(arts, "event"@) {
            Some(JsonV::Obj(ees)) => as_text_opt(assoc_get(ees, "investigation_id"@)),
            _ => None,
        },
        None => None,
    }
}

/// A context is ready for a human interaction only when it carries an
/// execution id, the receiving step's name, a pause token, and an
/// investigation id inside its artifacts.
pub open spec fn init_ready(c: SoclessContextV) -> bool {
    &&& ctx_investigation_id(c) is Some
    &&& c.execution_id is Some
    &&& c.state_name is Some
    &&& c.task_token is Some
}

/// Open a human-response request: the row that records the pause token,
/// the receiving step and the message, not yet fulfilled. A context
/// without the pause bookkeeping is caller misuse.
pub fn init_human_interaction(
    execution_context: &SoclessContext,
    message_draft: &str,
    message_id: Option<String>,
) -> (r: Result<ResponsesTableItem, SoclessError>)
    ensures
        r is Ok <==> init_ready(execution_context@),
        r matches Ok(row) ==> {
            &&& (opt_string_view(message_id) matches Some(m) ==> row@.message_id == m)
            &&& (opt_string_view(message_id) is None ==> row@.message_id.len() == 36)
            &&& row@.datetime.len() == 27
            &&& row@.message == message_draft@
            &&& !row@.fulfilled
            &&& row@.execution_id == execution_context@.execution_id->0
            &&& row@.investigation_id == ctx_investigation_id(execution_context@)->0
            &&& row@.receiver == execution_context@.state_name->0
            &&& row@.await_token == execution_context@.task_token->0
        },
        r matches Err(e) ==> e is ContractViolation,
{
    let investigation_id: String = match &execution_context.artifacts {
        Some(arts) => {
            proof {
                lemma_assoc_get_view(arts@, "event"@);
            }
            match crate::json::obj_get(arts, "event") {
                Some(JsonValue::Obj(ees)) => {
                    proof {
                        lemma_assoc_get_view(ees@, "investigation_id"@);
                    }
                    match crate::json::obj_get(ees, "investigation_id") {
                        Some(JsonValue::Text(t)) => t.clone(),
                        _ => {
                            return Err(
                                SoclessError::ContractViolation {
                                    message: String::from_str(
                                        "the context carries no investigation id",
                                    ),
                                },
                            );
                        },
                    }
                },
                _ => {
                    return Err(
                        SoclessError::ContractViolation {
                            message: String::from_str("the context carries no triggering event"),
                        },
                    );
                },
            }
        },
        None => {
            return Err(
                SoclessError::ContractViolation {
                    message: String::from_str("the context carries no artifacts"),
                },
            );
        },
    };
    let execution_id: String = match &execution_context.execution_id {
        Some(eid) => eid.clone(),
        None => {
            return Err(
                SoclessError::ContractViolation {
                    message: String::from_str("the context carries no execution id"),
                },
            );
        },
    };
    let receiver: String = match &execution_context.state_name {
        Some(n) => n.clone(),
        None => {
            return Err(
                SoclessError::ContractViolation {
                    message: String::from_str("the context carries no step name"),
                },
            );
        },
    };
    let await_token: String = match &execution_context.task_token {
        Some(t) => t.clone(),
        None => {
            return Err(
                SoclessError::ContractViolation {
                    message: String::from_str("the context carries no pause token"),
                },
            );
        },
    };
    let resolved_msg_id: String = match message_id {
        Some(m) => m,
        None => crate::utils::gen_id(),
    };
    Ok(
        ResponsesTableItem {
            message_id: resolved_msg_id,
            datetime: crate::utils::gen_datetimenow(),
            message: message_draft.to_owned(),
            fulfilled: false,
            execution_id,
            investigation_id,
            receiver,
            await_token,
        },
    )
}

/// Entries overlaid one at a time: each added pair rebinds its key over
/// what is already there.
pub open spec fn extend_entries(
    base: Seq<(Seq<char>, JsonV)>,
    adds: Seq<(Seq<char>, JsonV)>,
) -> Seq<(Seq<char>, JsonV)>
    decreases adds.len(),
{
    if adds.len() == 0 {
        base
    } else {
        extend_entries(
            crate::json::assoc_put(base, adds[0].0, adds[0].1),
            adds.drop_first(),
        )
    }
}

/// The payload signaled back to the workflow engine when a response
/// arrives: the full current execution results — the run's artifacts and
/// accumulated errors, and the record's existing results with the
/// response bound under the receiving step's name and the response's own
/// fields layered alongside. No prior step's entry is lost.
pub open spec fn completion_payload(
    record: ResultsTableItemV,
    receiver: Seq<char>,
    body: JsonV,
) -> PlaybookInputV {
    PlaybookInputV {
        artifacts: record.results.artifacts,
        results: extend_entries(
            crate::json::assoc_put(record.results.results, receiver, body),
            body->Obj_0,
        ),
        errors: record.results.errors,
    }
}

/// Complete a human interaction: forbidden on an already fulfilled row;
/// the response must be an object. On success the execution record takes
/// the response as the receiving step's result, and the returned pair
/// carries the full current execution results to signal the engine with
/// and the row marked fulfilled.
#[verifier::loop_isolation(false)]
pub fn end_human_interaction(
    response: &ResponsesTableItem,
    record: &mut ResultsTableItem,
    response_body: &JsonValue,
) -> (r: Result<(PlaybookInput, ResponsesTableItem), SoclessError>)
    ensures
        response@.fulfilled ==> (r matches Err(e) && e is ContractViolation) && *final (record)
            == *old(record),
        !response@.fulfilled && !(response_body@ is Obj) ==> (r matches Err(e)
            && e is MalformedError) && *final (record) == *old(record),
        !response@.fulfilled && response_body@ is Obj ==> (r matches Ok(out) && {
            &&& final (record)@ == (ResultsTableItemV {
                results: crate::integrations::apply_state_results(
                    old(record)@.results,
                    response@.receiver,
                    response_body@,
                    None,
                ),
                ..old(record)@
            })
            &&& out.0@ == completion_payload(old(record)@, response@.receiver, response_body@)
            &&& out.1@ == (ResponsesTableItemV { fulfilled: true, ..response@ })
        }),
{
    if response.fulfilled {
        let mut message = String::from_str("Message ID ");
        message.append(response.message_id.as_str());
        message.append(" for end_human_interaction already used");
        return Err(SoclessError::ContractViolation { message });
    }
    let body_entries: &Vec<(String, JsonValue)> = match response_body {
        JsonValue::Obj(es) => es,
        _ => {
            return Err(
                SoclessError::MalformedError {
                    message: String::from_str("the human's response must form an object"),
                },
            );
        },
    };
    let ghost adds = json_view_entries(body_entries@);
    proof {
        lemma_json_view_entries(body_entries@);
    }
    // the payload handed back to the engine, built over the record's
    // results as they stand before this response is merged into them
    let artifacts = record.results.artifacts.duplicate();
    let errors = clone_entries(&record.results.errors);
    let ghost prior = json_view_entries(record.results.results@);
    let seeded = clone_entries(&record.results.results);
    let mut out_results: Vec<(String, JsonValue)> = entries_put(
        seeded,
        response.receiver.as_str(),
        json_clone(response_body),
    );
    proof {
        assert(json_view_entries(out_results@) == crate::json::assoc_put(
            prior,
            response@.receiver,
            response_body@,
        ));
        assert(adds.skip(0) =~= adds);
    }
    let mut i: usize = 0;
    while i < body_entries.len()
        invariant
            i <= body_entries@.len(),
            extend_entries(
                crate::json::assoc_put(prior, response@.receiver, response_body@),
                adds,
            ) == extend_entries(json_view_entries(out_results@), adds.skip(i as int)),
        decreases body_entries@.len() - i,
    {
        proof {
            assert(adds.skip(i as int)[0] == adds[i as int]);
            assert(adds.skip(i as int).drop_first() =~= adds.skip(i + 1));
        }
        let mut tmp: Vec<(String, JsonValue)> = Vec::new();
        core::mem::swap(&mut out_results, &mut tmp);
        out_results = entries_put(
            tmp,
            body_entries[i].0.as_str(),
            json_clone(&body_entries[i].1),
        );
        i += 1;
    }
    proof {
        assert(adds.skip(body_entries@.len() as int) =~= Seq::<(Seq<char>, JsonV)>::empty());
    }
    let payload = PlaybookInput { artifacts, results: out_results, errors };
    // the stored record takes the response as the receiving step's result
    crate::integrations::save_state_results(
        &mut record.results,
        response.receiver.as_str(),
        response_body,
        None,
    );
    let row = ResponsesTableItem {
        message_id: response.message_id.clone(),
        datetime: response.datetime.clone(),
        message: response.message.clone(),
        fulfilled: true,
        execution_id: response.execution_id.clone(),
        investigation_id: response.investigation_id.clone(),
        receiver: response.receiver.clone(),
        await_token: response.await_token.clone(),
    };
    Ok((payload, row))
}

} // verus!
