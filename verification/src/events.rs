//! Event ingestion: batch normalization, the content-derived dedup
//! signature, the deduplication decision, and the records that start one
//! workflow run per event.

use vstd::prelude::*;

use vstd::multiset::Multiset;
use vstd::relations::{sorted_by, total_ordering};
use vstd::seq_lib::group_to_multiset_ensures;
use vstd::seq_lib::lemma_sorted_unique;

use crate::errors::SoclessError;
use crate::helpers::{chars_le, chars_lt, contains_str, lemma_chars_lt_asymmetric,
    lemma_chars_lt_connected, lemma_chars_lt_irreflexive, lemma_chars_lt_transitive, str_eq,
    str_lt, strs_view};
use crate::json::{json_view_entries, JsonV, JsonValue};
use crate::models::{strings_view, EventTableItem, SoclessEvent, SoclessEventV};
use crate::utils::{lower_of, lowercase, md5_hex, md5_hex_of};

verus! {

/// The order dedup-key names are sorted in: primarily by their lowercase
/// forms, with the raw names breaking ties so that the order is total.
pub open spec fn name_le(a: Seq<char>, b: Seq<char>) -> bool {
    chars_lt(lower_of(a), lower_of(b)) || (lower_of(a) == lower_of(b) && chars_le(a, b))
}

/// `name_le` as a relation value, for the sorting vocabulary.
pub open spec fn name_order() -> spec_fn(Seq<char>, Seq<char>) -> bool {
    |a: Seq<char>, b: Seq<char>| name_le(a, b)
}

/// Law: the name order is a total order, so a sorted list of names is the
/// unique canonical arrangement of whatever multiset they came in as.
pub proof fn lemma_name_order_total()
    ensures
        total_ordering(name_order()),
{
    let r = name_order();
    assert forall|a: Seq<char>| #[trigger] r(a, a) by {
        assert(name_le(a, a));
    }
    assert forall|a: Seq<char>, b: Seq<char>| #[trigger] r(a, b) && #[trigger] r(b, a) implies a
        == b by {
        if chars_lt(lower_of(a), lower_of(b)) {
            if chars_lt(lower_of(b), lower_of(a)) {
                lemma_chars_lt_asymmetric(lower_of(a), lower_of(b));
            } else {
                lemma_chars_lt_irreflexive(lower_of(a));
            }
        } else {
            if chars_lt(lower_of(b), lower_of(a)) {
                lemma_chars_lt_irreflexive(lower_of(b));
            } else {
                if a != b {
                    assert(chars_lt(a, b) && chars_lt(b, a));
                    lemma_chars_lt_asymmetric(a, b);
                }
            }
        }
    }
    assert forall|a: Seq<char>, b: Seq<char>, c: Seq<char>|
        #[trigger] r(a, b) && #[trigger] r(b, c) implies r(a, c) by {
        let la = lower_of(a);
        let lb = lower_of(b);
        let lc = lower_of(c);
        if chars_lt(la, lb) && chars_lt(lb, lc) {
            lemma_chars_lt_transitive(la, lb, lc);
        } else if la == lb && lb == lc {
            if a == b || b == c {
            } else {
                lemma_chars_lt_transitive(a, b, c);
            }
        }
    }
    assert forall|a: Seq<char>, b: Seq<char>| #[trigger] r(a, b) || #[trigger] r(b, a) by {
        let la = lower_of(a);
        let lb = lower_of(b);
        if la != lb {
            lemma_chars_lt_connected(la, lb);
        } else {
            if a != b {
                lemma_chars_lt_connected(a, b);
            }
        }
    }
}

/// The keys of an object's entries, in order.
pub open spec fn entry_keys(es: Seq<(Seq<char>, JsonV)>) -> Seq<Seq<char>> {
    Seq::new(es.len(), |i: int| es[i].0)
}

/// The detail field names that take part in deduplication: those that are
/// also dedup keys, in the order the details carry them.
pub open spec fn selected_names(
    details: Seq<(Seq<char>, JsonV)>,
    dedup_keys: Seq<Seq<char>>,
) -> Seq<Seq<char>> {
    entry_keys(details).filter(|k: Seq<char>| dedup_keys.contains(k))
}

/// All the names joined with no separator.
pub open spec fn concat_all(names: Seq<Seq<char>>) -> Seq<char>
    decreases names.len(),
{
    if names.len() == 0 {
        Seq::empty()
    } else {
        names[0] + concat_all(names.drop_first())
    }
}

/// The string that is hashed into the dedup signature: the lowercased
/// event type followed by the participating detail names in canonical
/// order.
pub open spec fn dedup_signature_of(e: SoclessEventV) -> Seq<char> {
    lower_of(e.event_type) + concat_all(
        selected_names(e.details, e.dedup_keys).sort_by(name_order()),
    )
}

/// Whether `a` comes no later than `b` in the name order.
fn name_le_exec(a: &String, b: &String) -> (r: bool)
    ensures
        r == name_le(a@, b@),
{
    let la = lowercase(a.as_str());
    let lb = lowercase(b.as_str());
    if str_lt(la.as_str(), lb.as_str()) {
        true
    } else if str_eq(la.as_str(), lb.as_str()) {
        str_eq(a.as_str(), b.as_str()) || str_lt(a.as_str(), b.as_str())
    } else {
        false
    }
}

/// The detail field names that take part in deduplication.
#[verifier::loop_isolation(false)]
fn selected_dedup_names(event: &SoclessEvent) -> (r: Vec<String>)
    ensures
        strs_view(r@) == selected_names(event@.details, event@.dedup_keys),
{
    let ghost dks = event@.dedup_keys;
    let ghost ks = entry_keys(event@.details);
    let ghost pred = |k: Seq<char>| dks.contains(k);
    let mut out: Vec<String> = Vec::new();
    let mut i: usize = 0;
    proof {
        crate::json::lemma_json_view_entries(event.details@);
        assert(ks.subrange(0, 0).filter(pred) =~= strs_view(out@)) by {
            reveal(Seq::filter);
        }
    }
    while i < event.details.len()
        invariant
            i <= event.details@.len(),
            strs_view(out@) == ks.subrange(0, i as int).filter(pred),
        decreases event.details@.len() - i,
    {
        let ghost out0 = out@;
        proof {
            reveal(Seq::filter);
            assert(ks.subrange(0, i + 1).drop_last() =~= ks.subrange(0, i as int));
            assert(ks.subrange(0, i + 1).last() == ks[i as int]);
            assert(ks[i as int] == event.details@[i as int].0@);
        }
        if contains_str(&event.dedup_keys, event.details[i].0.as_str()) {
            proof {
                assert(strings_view(event.dedup_keys@) == dks);
            }
            out.push(event.details[i].0.clone());
            proof {
                assert(strs_view(out@) =~= strs_view(out0).push(ks[i as int]));
            }
        } else {
            proof {
                assert(strings_view(event.dedup_keys@) == dks);
            }
        }
        i += 1;
    }
    proof {
        assert(ks.subrange(0, event.details@.len() as int) =~= ks);
    }
    out
}

/// Sort names into the canonical order.
#[verifier::loop_isolation(false)]
fn sort_names(input: Vec<String>) -> (r: Vec<String>)
    ensures
        strs_view(r@) == strs_view(input@).sort_by(name_order()),
{
    broadcast use group_to_multiset_ensures;

    proof {
        lemma_name_order_total();
    }
    let ghost iv = strs_view(input@);
    let mut out: Vec<String> = Vec::new();
    let mut i: usize = 0;
    proof {
        assert(strs_view(out@) =~= Seq::<Seq<char>>::empty());
        assert(iv.subrange(0, 0) =~= Seq::<Seq<char>>::empty());
        assert(strs_view(out@).to_multiset() =~= iv.subrange(0, 0).to_multiset());
    }
    while i < input.len()
        invariant
            i <= input@.len(),
            sorted_by(strs_view(out@), name_order()),
            strs_view(out@).to_multiset() == iv.subrange(0, i as int).to_multiset(),
        decreases input@.len() - i,
    {
        let ghost ov = strs_view(out@);
        let x = input[i].clone();
        let ghost xv = x@;
        proof {
            assert(xv == iv[i as int]);
        }
        let mut pos: usize = 0;
        while pos < out.len() && name_le_exec(&out[pos], &x)
            invariant
                pos <= out@.len(),
                forall|j: int| 0 <= j < pos ==> name_le((#[trigger] ov[j]), xv),
            decreases out@.len() - pos,
        {
            proof {
                assert(ov[pos as int] == out@[pos as int]@);
            }
            pos += 1;
        }
        proof {
            if pos < out@.len() {
                assert(!name_le(ov[pos as int], xv));
                assert(name_order()(ov[pos as int], xv) || name_order()(xv, ov[pos as int]));
                assert(name_le(xv, ov[pos as int]));
            }
        }
        out.insert(pos, x);
        proof {
            assert(strs_view(out@) =~= ov.insert(pos as int, xv));
            let nv = ov.insert(pos as int, xv);
            ov.insert_ensures(pos as int, xv);
            assert forall|a: int, b: int| 0 <= a < b < nv.len() implies name_order()(
                nv[a],
                nv[b],
            ) by {
                if a < pos && b < pos {
                    assert(nv[a] == ov[a] && nv[b] == ov[b]);
                } else if a < pos && b == pos {
                    assert(nv[a] == ov[a] && nv[b] == xv);
                } else if a < pos && b > pos {
                    assert(nv[a] == ov[a] && nv[b] == ov[b - 1]);
                } else if a == pos && b > pos {
                    assert(nv[a] == xv && nv[b] == ov[b - 1]);
                    if b - 1 == pos {
                        assert(name_le(xv, ov[pos as int]));
                    } else {
                        assert(name_order()(ov[pos as int], ov[b - 1]));
                        assert(name_le(xv, ov[pos as int]));
                        assert(total_ordering(name_order()));
                    }
                } else {
                    assert(a > pos && b > pos);
                    assert(nv[a] == ov[a - 1] && nv[b] == ov[b - 1]);
                }
            }
            assert(iv.subrange(0, i + 1).drop_last() =~= iv.subrange(0, i as int));
            assert(iv.subrange(0, i + 1) =~= iv.subrange(0, i as int).push(xv));
            assert(strs_view(out@).to_multiset() =~= iv.subrange(0, i + 1).to_multiset());
        }
        i += 1;
    }
    proof {
        assert(iv.subrange(0, input@.len() as int) =~= iv);
        iv.lemma_sort_by_ensures(name_order());
        lemma_sorted_unique(strs_view(out@), iv.sort_by(name_order()), name_order());
        assert(strs_view(out@) =~= iv.sort_by(name_order()));
    }
    out
}

/// Compute the deduplication signature of an event: a hash over the
/// lowercased event type and the canonically ordered names of the detail
/// fields that are also dedup keys. The signature depends on those names,
/// never on their values.
#[verifier::loop_isolation(false)]
pub fn build_dedup_hash(event: &SoclessEvent) -> (r: String)
    ensures
        r@ == md5_hex_of(dedup_signature_of(event@)),
        r@.len() == 32,
{
    let names = selected_dedup_names(event);
    let sorted = sort_names(names);
    let ghost sv = strs_view(sorted@);
    let mut signature = lowercase(event.event_type.as_str());
    let mut j: usize = 0;
    proof {
        assert(sv.skip(0) =~= sv);
    }
    while j < sorted.len()
        invariant
            j <= sorted@.len(),
            signature@ + concat_all(sv.skip(j as int)) == lower_of(event@.event_type)
                + concat_all(sv),
        decreases sorted@.len() - j,
    {
        let ghost sig0 = signature@;
        proof {
            assert(sv.skip(j as int)[0] == sv[j as int]);
            assert(sv.skip(j as int).drop_first() =~= sv.skip(j + 1));
            assert(sv[j as int] == sorted@[j as int]@);
        }
        signature.append(sorted[j].as_str());
        proof {
            assert((sig0 + sv[j as int]) + concat_all(sv.skip(j + 1)) =~= sig0 + (sv[j as int]
                + concat_all(sv.skip(j + 1))));
        }
        j += 1;
    }
    proof {
        assert(sv.skip(sorted@.len() as int) =~= Seq::<Seq<char>>::empty());
        assert(signature@ + Seq::<char>::empty() =~= signature@);
        assert(signature@ =~= dedup_signature_of(event@));
    }
    md5_hex(signature.as_str())
}

/// Law: the dedup signature is a pure function of the event type up to
/// case, and of the collection of participating detail names — never of
/// their values or their order. Two events whose lowercased event types
/// agree and whose selected names form the same multiset hash identically.
pub proof fn lemma_dedup_signature_depends_on_names(a: SoclessEventV, b: SoclessEventV)
    requires
        lower_of(a.event_type) == lower_of(b.event_type),
        selected_names(a.details, a.dedup_keys).to_multiset() == selected_names(
            b.details,
            b.dedup_keys,
        ).to_multiset(),
    ensures
        dedup_signature_of(a) == dedup_signature_of(b),
{
    lemma_name_order_total();
    let sa = selected_names(a.details, a.dedup_keys);
    let sb = selected_names(b.details, b.dedup_keys);
    sa.lemma_sort_by_ensures(name_order());
    sb.lemma_sort_by_ensures(name_order());
    lemma_sorted_unique(sa.sort_by(name_order()), sb.sort_by(name_order()), name_order());
    assert(sa.sort_by(name_order()) == sb.sort_by(name_order()));
}

/// An inbound batch of events sharing one type, playbook and metadata.
#[derive(Debug, PartialEq, Eq)]
pub struct SoclessEventBatch {
    pub created_at: Option<String>,
    pub event_type: String,
    pub playbook: String,
    pub details: Vec<JsonValue>,
    pub data_types: Option<Vec<(String, String)>>,
    pub event_meta: Option<Vec<(String, String)>>,
    pub dedup_keys: Option<Vec<String>>,
}

/// Mathematical view of a batch.
pub struct SoclessEventBatchV {
    pub created_at: Option<Seq<char>>,
    pub event_type: Seq<char>,
    pub playbook: Seq<char>,
    pub details: Seq<JsonV>,
    pub data_types: Option<Seq<(Seq<char>, Seq<char>)>>,
    pub event_meta: Option<Seq<(Seq<char>, Seq<char>)>>,
    pub dedup_keys: Option<Seq<Seq<char>>>,
}

impl View for SoclessEventBatch {
    type V = SoclessEventBatchV;

    open spec fn view(&self) -> SoclessEventBatchV {
        SoclessEventBatchV {
            created_at: crate::resolver::opt_string_view(self.created_at),
            event_type: self.event_type@,
            playbook: self.playbook@,
            details: crate::json::json_view_seq(self.details@),
            data_types: match self.data_types {
                Some(m) => Some(crate::models::str_pairs_view(m@)),
                None => None,
            },
            event_meta: match self.event_meta {
                Some(m) => Some(crate::models::str_pairs_view(m@)),
                None => None,
            },
            dedup_keys: match self.dedup_keys {
                Some(k) => Some(strings_view(k@)),
                None => None,
            },
        }
    }
}

/// The outcome of dispatching one event: whether its run started, and a
/// message naming the run or the failure.
#[derive(Debug, PartialEq, Eq)]
pub struct ExecutionStatus {
    pub status: bool,
    pub message: JsonValue,
}

/// The string-pair map a batch field denotes, empty when absent.
pub open spec fn opt_pairs_or_empty(o: Option<Seq<(Seq<char>, Seq<char>)>>) -> Seq<
    (Seq<char>, Seq<char>),
> {
    match o {
        Some(m) => m,
        None => Seq::empty(),
    }
}

/// The name list a batch field denotes, empty when absent.
pub open spec fn opt_names_or_empty(o: Option<Seq<Seq<char>>>) -> Seq<Seq<char>> {
    match o {
        Some(k) => k,
        None => Seq::empty(),
    }
}

/// Expand a batch into one event per details entry, copying the shared
/// fields onto each. Every event of the batch gets the same creation time:
/// the batch's own, or the ingestion time when the batch carries none.
/// Each entry of `details` must be an object.
#[verifier::loop_isolation(false)]
pub fn setup_events(events_batch: SoclessEventBatch) -> (r: Result<Vec<SoclessEvent>, SoclessError>)
    ensures
        match r {
            Ok(events) => {
                &&& forall|i: int|
                    0 <= i < events_batch@.details.len() ==> (#[trigger] events_batch@.details[i])
                        is Obj
                &&& events@.len() == events_batch@.details.len()
                &&& forall|i: int|
                    0 <= i < events@.len() ==> {
                        let ev = (#[trigger] events@[i])@;
                        &&& ev.details == events_batch@.details[i]->Obj_0
                        &&& ev.event_type == events_batch@.event_type
                        &&& ev.playbook == events_batch@.playbook
                        &&& ev.status_ == "open"@
                        &&& !ev.is_duplicate
                        &&& ev.id == ev.investigation_id
                        &&& ev.id.len() == 36
                        &&& ev.data_types == opt_pairs_or_empty(events_batch@.data_types)
                        &&& ev.event_meta == opt_pairs_or_empty(events_batch@.event_meta)
                        &&& ev.dedup_keys == opt_names_or_empty(events_batch@.dedup_keys)
                        &&& (events_batch@.created_at matches Some(c) ==> ev.created_at == c)
                        &&& (events_batch@.created_at is None ==> ev.created_at.len() == 27)
                    }
                &&& forall|i: int, j: int|
                    0 <= i < events@.len() && 0 <= j < events@.len() ==> (#[trigger] events@[i])@
                        .created_at == (#[trigger] events@[j])@.created_at
            },
            Err(e) => e is MalformedError && exists|i: int|
                0 <= i < events_batch@.details.len() && !((#[trigger] events_batch@.details[i])
                    is Obj),
        },
{
    proof {
        crate::json::lemma_json_view_seq(events_batch.details@);
    }
    let created_at: String = match &events_batch.created_at {
        Some(c) => c.clone(),
        None => crate::utils::gen_datetimenow(),
    };
    let mut formatted_events: Vec<SoclessEvent> = Vec::new();
    let mut i: usize = 0;
    while i < events_batch.details.len()
        invariant
            i <= events_batch.details@.len(),
            formatted_events@.len() == i,
            forall|j: int|
                0 <= j < i ==> (#[trigger] events_batch@.details[j]) is Obj,
            forall|j: int|
                0 <= j < i ==> {
                    let ev = (#[trigger] formatted_events@[j])@;
                    &&& ev.details == events_batch@.details[j]->Obj_0
                    &&& ev.event_type == events_batch@.event_type
                    &&& ev.playbook == events_batch@.playbook
                    &&& ev.status_ == "open"@
                    &&& !ev.is_duplicate
                    &&& ev.id == ev.investigation_id
                    &&& ev.id.len() == 36
                    &&& ev.data_types == opt_pairs_or_empty(events_batch@.data_types)
                    &&& ev.event_meta == opt_pairs_or_empty(events_batch@.event_meta)
                    &&& ev.dedup_keys == opt_names_or_empty(events_batch@.dedup_keys)
                    &&& ev.created_at == created_at@
                },
        decreases events_batch.details@.len() - i,
    {
        let details: Vec<(String, JsonValue)> = match &events_batch.details[i] {
            JsonValue::Obj(d) => crate::json::clone_entries(d),
            _ => {
                proof {
                    assert(events_batch@.details[i as int] == crate::json::json_view(
                        events_batch.details@[i as int],
                    ));
                    assert(!((events_batch@.details[i as int]) is Obj));
                }
                return Err(
                    SoclessError::MalformedError {
                        message: String::from_str(
                            "every details entry of a batch must be an object",
                        ),
                    },
                );
            },
        };
        let investigation_id = crate::utils::gen_id();
        let data_types: Vec<(String, String)> = match &events_batch.data_types {
            Some(m) => crate::json::clone_str_pairs(m),
            None => Vec::new(),
        };
        let event_meta: Vec<(String, String)> = match &events_batch.event_meta {
            Some(m) => crate::json::clone_str_pairs(m),
            None => Vec::new(),
        };
        let dedup_keys: Vec<String> = match &events_batch.dedup_keys {
            Some(k) => crate::json::clone_strings(k),
            None => Vec::new(),
        };
        proof {
            assert(crate::models::str_pairs_view(data_types@) =~= opt_pairs_or_empty(
                events_batch@.data_types,
            ));
            assert(crate::models::str_pairs_view(event_meta@) =~= opt_pairs_or_empty(
                events_batch@.event_meta,
            ));
            assert(strings_view(dedup_keys@) =~= opt_names_or_empty(events_batch@.dedup_keys));
        }
        let new_event = SoclessEvent {
            id: investigation_id.clone(),
            investigation_id,
            status_: String::from_str("open"),
            is_duplicate: false,
            created_at: created_at.clone(),
            event_type: events_batch.event_type.clone(),
            playbook: events_batch.playbook.clone(),
            details,
            data_types,
            event_meta,
            dedup_keys,
        };
        formatted_events.push(new_event);
        i += 1;
    }
    Ok(formatted_events)
}

/// Decide whether an event continues an existing investigation: when the
/// dedup index mapped its signature to an investigation whose event record
/// is not closed, the event is closed as a duplicate and adopts that
/// investigation's id; otherwise it is returned unchanged.
pub fn deduplicate(event: SoclessEvent, possible_existing_event: Option<&EventTableItem>) -> (r:
    SoclessEvent)
    ensures
        match possible_existing_event {
            Some(existing) => if existing@.status_ != "closed"@ {
                r@ == SoclessEventV {
                    status_: "closed"@,
                    investigation_id: existing@.investigation_id,
                    is_duplicate: true,
                    ..event@
                }
            } else {
                r@ == event@
            },
            None => r@ == event@,
        },
{
    let mut event = event;
    match possible_existing_event {
        Some(existing) => {
            if !str_eq(existing.status_.as_str(), "closed") {
                event.status_ = String::from_str("closed");
                event.investigation_id = existing.investigation_id.clone();
                event.is_duplicate = true;
            }
        },
        None => {},
    }
    event
}

/// The state-machine identity a playbook runs as: the caller's own region
/// and account, read from its invoked-function identifier, substituted
/// into the fixed template with the playbook name as the resource.
#[verifier::loop_isolation(false)]
pub fn get_playbook_arn(playbook_name: &str, invoked_function_arn: &str) -> (r: Result<
    String,
    SoclessError,
>)
    ensures
        r is Ok <==> crate::helpers::split_chars(invoked_function_arn@, ':').len() >= 5,
        r matches Ok(arn) ==> arn@ == "arn:aws:states:"@ + crate::helpers::split_chars(
            invoked_function_arn@,
            ':',
        )[3] + ":"@ + crate::helpers::split_chars(invoked_function_arn@, ':')[4]
            + ":stateMachine:"@ + playbook_name@,
        r matches Err(e) ==> e is MalformedError,
{
    let parts = crate::helpers::split_on_char(invoked_function_arn, ':');
    if parts.len() < 5 {
        proof {
            assert(strs_view(parts@).len() == parts@.len());
        }
        return Err(
            SoclessError::MalformedError {
                message: String::from_str(
                    "the invoked-function identifier does not carry a region and account",
                ),
            },
        );
    }
    proof {
        assert(strs_view(parts@)[3] == parts@[3]@);
        assert(strs_view(parts@)[4] == parts@[4]@);
    }
    let mut arn = String::from_str("arn:aws:states:");
    arn.append(parts[3].as_str());
    arn.append(":");
    arn.append(parts[4].as_str());
    arn.append(":stateMachine:");
    arn.append(playbook_name);
    Ok(arn)
}

/// The execution record that starts one run for a persisted event: a fresh
/// execution id, the event as the run's artifacts, and empty results and
/// errors.
pub fn prepare_playbook_execution(creation_event: EventTableItem) -> (r:
    crate::models::ResultsTableItem)
    ensures
        r@.execution_id.len() == 36,
        r@.execution_id == r@.results.artifacts.execution_id,
        r@.datetime.len() == 27,
        r@.investigation_id == creation_event@.investigation_id,
        r@.results.artifacts.event == creation_event@,
        r@.results.results == Seq::<(Seq<char>, JsonV)>::empty(),
        r@.results.errors == Seq::<(Seq<char>, JsonV)>::empty(),
{
    let execution_id = crate::utils::gen_id();
    let datetime = crate::utils::gen_datetimenow();
    let investigation_id = creation_event.investigation_id.clone();
    let r = crate::models::ResultsTableItem {
        execution_id: execution_id.clone(),
        investigation_id,
        datetime,
        results: crate::models::PlaybookInput {
            artifacts: crate::models::PlaybookArtifacts { event: creation_event, execution_id },
            results: Vec::new(),
            errors: Vec::new(),
        },
    };
    proof {
        assert(json_view_entries(Seq::<(String, JsonValue)>::empty()) =~= Seq::<
            (Seq<char>, JsonV),
        >::empty());
    }
    r
}

/// The input handed to the workflow engine when a run starts: the
/// execution id and the artifacts.
pub fn start_execution_input(record: &crate::models::ResultsTableItem) -> (r: JsonValue)
    ensures
        r@ == JsonV::Obj(
            seq![
                ("execution_id"@, JsonV::Text(record@.execution_id)),
                ("artifacts"@, crate::models::playbook_artifacts_json(record@.results.artifacts)),
            ],
        ),
{
    let mut out: Vec<(String, JsonValue)> = Vec::new();
    out.push(("execution_id".to_owned(), JsonValue::Text(record.execution_id.clone())));
    out.push(("artifacts".to_owned(), record.results.artifacts.to_json()));
    proof {
        crate::json::lemma_json_view_entries(out@);
        assert(json_view_entries(out@) =~= seq![
            ("execution_id"@, JsonV::Text(record@.execution_id)),
            ("artifacts"@, crate::models::playbook_artifacts_json(record@.results.artifacts)),
        ]);
    }
    JsonValue::Obj(out)
}

/// The status reported for an event whose run started: the engine's
/// execution identifier (when it returned one) and the investigation id.
pub fn execution_success_status(execution_arn: Option<String>, investigation_id: &str) -> (r:
    ExecutionStatus)
    ensures
        r.status == true,
        r.message@ == JsonV::Obj(
            seq![
                (
                    "execution_id"@,
                    match crate::resolver::opt_string_view(execution_arn) {
                        Some(a) => JsonV::Text(a),
                        None => JsonV::Null,
                    },
                ),
                ("investigation_id"@, JsonV::Text(investigation_id@)),
            ],
        ),
{
    let arn_value = match execution_arn {
        Some(a) => JsonValue::Text(a),
        None => JsonValue::Null,
    };
    let mut out: Vec<(String, JsonValue)> = Vec::new();
    out.push(("execution_id".to_owned(), arn_value));
    out.push(("investigation_id".to_owned(), JsonValue::Text(investigation_id.to_owned())));
    proof {
        crate::json::lemma_json_view_entries(out@);
        assert(json_view_entries(out@) =~= seq![
            (
                "execution_id"@,
                match crate::resolver::opt_string_view(execution_arn) {
                    Some(a) => JsonV::Text(a),
                    None => JsonV::Null,
                },
            ),
            ("investigation_id"@, JsonV::Text(investigation_id@)),
        ]);
    }
    ExecutionStatus { status: true, message: JsonValue::Obj(out) }
}

/// The status reported for an event whose run could not start, carrying
/// the engine's own words.
pub fn execution_failure_status(error_text: &str) -> (r: ExecutionStatus)
    ensures
        r.status == false,
        r.message@ == JsonV::Obj(
            seq![
                ("error"@, JsonV::Text("Error during State Machine Start: "@ + error_text@)),
            ],
        ),
{
    let mut text = String::from_str("Error during State Machine Start: ");
    text.append(error_text);
    let mut out: Vec<(String, JsonValue)> = Vec::new();
    out.push(("error".to_owned(), JsonValue::Text(text)));
    proof {
        crate::json::lemma_json_view_entries(out@);
        assert(json_view_entries(out@) =~= seq![
            ("error"@, JsonV::Text("Error during State Machine Start: "@ + error_text@)),
        ]);
    }
    ExecutionStatus { status: false, message: JsonValue::Obj(out) }
}

/// Filtering with predicates that agree everywhere gives the same result.
proof fn lemma_filter_congruence<A>(s: Seq<A>, p1: spec_fn(A) -> bool, p2: spec_fn(A) -> bool)
    requires
        forall|x: A| #[trigger] p1(x) == p2(x),
    ensures
        s.filter(p1) == s.filter(p2),
    decreases s.len(),
{
    reveal(Seq::filter);
    if s.len() > 0 {
        lemma_filter_congruence(s.drop_last(), p1, p2);
    }
}

/// How often a value occurs in a filtered sequence: as often as in the
/// whole sequence when the predicate keeps it, never otherwise.
proof fn lemma_filter_multiset_count<A>(s: Seq<A>, p: spec_fn(A) -> bool, x: A)
    ensures
        s.filter(p).to_multiset().count(x) == if p(x) {
            s.to_multiset().count(x)
        } else {
            0
        },
    decreases s.len(),
{
    broadcast use group_to_multiset_ensures;
    broadcast use vstd::multiset::group_multiset_axioms;

    reveal(Seq::filter);
    if s.len() == 0 {
        assert(s.filter(p) =~= s);
        assert(s.to_multiset() =~= Multiset::<A>::empty());
    } else {
        lemma_filter_multiset_count(s.drop_last(), p, x);
        assert(s =~= s.drop_last().push(s.last()));
        assert(s.to_multiset() == s.drop_last().push(s.last()).to_multiset());
    }
}

/// Law: which names an event selects for deduplication depends only on
/// the collection of its detail names and on which names are dedup keys —
/// never on the order either list carries them in.
pub proof fn lemma_selected_names_multiset(
    d1: Seq<(Seq<char>, JsonV)>,
    d2: Seq<(Seq<char>, JsonV)>,
    k1: Seq<Seq<char>>,
    k2: Seq<Seq<char>>,
)
    requires
        entry_keys(d1).to_multiset() == entry_keys(d2).to_multiset(),
        forall|x: Seq<char>| #[trigger] k1.contains(x) <==> k2.contains(x),
    ensures
        selected_names(d1, k1).to_multiset() == selected_names(d2, k2).to_multiset(),
{
    broadcast use vstd::multiset::group_multiset_axioms;

    let p1 = |k: Seq<char>| k1.contains(k);
    let p2 = |k: Seq<char>| k2.contains(k);
    lemma_filter_congruence(entry_keys(d2), p2, p1);
    assert forall|x: Seq<char>|
        #[trigger] selected_names(d1, k1).to_multiset().count(x) == selected_names(
            d2,
            k2,
        ).to_multiset().count(x) by {
        lemma_filter_multiset_count(entry_keys(d1), p1, x);
        lemma_filter_multiset_count(entry_keys(d2), p1, x);
    }
    assert(selected_names(d1, k1).to_multiset() =~= selected_names(d2, k2).to_multiset());
}

/// Law: two events whose event types agree up to case, whose detail names
/// form the same collection, and whose dedup keys name the same set hash
/// identically, whatever the detail values and whatever order anything
/// arrived in.
pub proof fn lemma_dedup_signature_permutation_invariant(a: SoclessEventV, b: SoclessEventV)
    requires
        lower_of(a.event_type) == lower_of(b.event_type),
        entry_keys(a.details).to_multiset() == entry_keys(b.details).to_multiset(),
        forall|x: Seq<char>| #[trigger] a.dedup_keys.contains(x) <==> b.dedup_keys.contains(x),
    ensures
        dedup_signature_of(a) == dedup_signature_of(b),
{
    lemma_selected_names_multiset(a.details, b.details, a.dedup_keys, b.dedup_keys);
    lemma_dedup_signature_depends_on_names(a, b);
}

} // verus!
