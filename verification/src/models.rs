//! The persisted record shapes: events, execution records and
//! human-interaction rows, with their mathematical views and their JSON
//! forms.

use vstd::prelude::*;

use crate::json::{
    assoc_get, clone_entries, clone_str_pairs, json_view, json_view_entries, lemma_json_view_entries,
    JsonV, JsonValue,
};

verus! {

/// One deduplicable occurrence reported to the framework, as normalized
/// from a batch.
#[derive(Debug, PartialEq, Eq)]
pub struct SoclessEvent {
    pub id: String,
    pub investigation_id: String,
    pub status_: String,
    pub is_duplicate: bool,
    pub created_at: String,
    pub event_type: String,
    pub playbook: String,
    pub details: Vec<(String, JsonValue)>,
    pub data_types: Vec<(String, String)>,
    pub event_meta: Vec<(String, String)>,
    pub dedup_keys: Vec<String>,
}

/// The persisted form of an event: everything but the dedup key list.
#[derive(Debug, PartialEq, Eq)]
pub struct EventTableItem {
    pub id: String,
    pub investigation_id: String,
    pub status_: String,
    pub is_duplicate: bool,
    pub created_at: String,
    pub event_type: String,
    pub playbook: String,
    pub details: Vec<(String, JsonValue)>,
    pub data_types: Vec<(String, String)>,
    pub event_meta: Vec<(String, String)>,
}

/// The artifacts of one workflow run: the triggering event and the run's id.
#[derive(Debug, PartialEq, Eq)]
pub struct PlaybookArtifacts {
    pub event: EventTableItem,
    pub execution_id: String,
}

/// The full shared payload of one run: artifacts plus the accumulated
/// per-step results and errors.
#[derive(Debug, PartialEq, Eq)]
pub struct PlaybookInput {
    pub artifacts: PlaybookArtifacts,
    pub results: Vec<(String, JsonValue)>,
    pub errors: Vec<(String, JsonValue)>,
}

/// The execution record persisted once per run and updated after every
/// step.
#[derive(Debug, PartialEq, Eq)]
pub struct ResultsTableItem {
    pub execution_id: String,
    pub investigation_id: String,
    pub datetime: String,
    pub results: PlaybookInput,
}

/// One outstanding human-response request.
#[derive(Debug, PartialEq, Eq)]
pub struct ResponsesTableItem {
    pub message_id: String,
    pub datetime: String,
    pub message: String,
    pub fulfilled: bool,
    pub execution_id: String,
    pub investigation_id: String,
    pub receiver: String,
    pub await_token: String,
}

/// The view of a list of string pairs.
pub open spec fn str_pairs_view(s: Seq<(String, String)>) -> Seq<(Seq<char>, Seq<char>)> {
    Seq::new(s.len(), |i: int| (s[i].0@, s[i].1@))
}

/// The view of a list of strings.
pub open spec fn strings_view(s: Seq<String>) -> Seq<Seq<char>> {
    Seq::new(s.len(), |i: int| s[i]@)
}

/// Mathematical view of an event.
pub struct SoclessEventV {
    pub id: Seq<char>,
    pub investigation_id: Seq<char>,
    pub status_: Seq<char>,
    pub is_duplicate: bool,
    pub created_at: Seq<char>,
    pub event_type: Seq<char>,
    pub playbook: Seq<char>,
    pub details: Seq<(Seq<char>, JsonV)>,
    pub data_types: Seq<(Seq<char>, Seq<char>)>,
    pub event_meta: Seq<(Seq<char>, Seq<char>)>,
    pub dedup_keys: Seq<Seq<char>>,
}

impl View for SoclessEvent {
    type V = SoclessEventV;

    open spec fn view(&self) -> SoclessEventV {
        SoclessEventV {
            id: self.id@,
            investigation_id: self.investigation_id@,
            status_: self.status_@,
            is_duplicate: self.is_duplicate,
            created_at: self.created_at@,
            event_type: self.event_type@,
            playbook: self.playbook@,
            details: json_view_entries(self.details@),
            data_types: str_pairs_view(self.data_types@),
            event_meta: str_pairs_view(self.event_meta@),
            dedup_keys: strings_view(self.dedup_keys@),
        }
    }
}

/// Mathematical view of a persisted event.
pub struct EventTableItemV {
    pub id: Seq<char>,
    pub investigation_id: Seq<char>,
    pub status_: Seq<char>,
    pub is_duplicate: bool,
    pub created_at: Seq<char>,
    pub event_type: Seq<char>,
    pub playbook: Seq<char>,
    pub details: Seq<(Seq<char>, JsonV)>,
    pub data_types: Seq<(Seq<char>, Seq<char>)>,
    pub event_meta: Seq<(Seq<char>, Seq<char>)>,
}

impl View for EventTableItem {
    type V = EventTableItemV;

    open spec fn view(&self) -> EventTableItemV {
        EventTableItemV {
            id: self.id@,
            investigation_id: self.investigation_id@,
            status_: self.status_@,
            is_duplicate: self.is_duplicate,
            created_at: self.created_at@,
            event_type: self.event_type@,
            playbook: self.playbook@,
            details: json_view_entries(self.details@),
            data_types: str_pairs_view(self.data_types@),
            event_meta: str_pairs_view(self.event_meta@),
        }
    }
}

/// Mathematical view of the artifacts.
pub struct PlaybookArtifactsV {
    pub event: EventTableItemV,
    pub execution_id: Seq<char>,
}

impl View for PlaybookArtifacts {
    type V = PlaybookArtifactsV;

    open spec fn view(&self) -> PlaybookArtifactsV {
        PlaybookArtifactsV { event: self.event@, execution_id: self.execution_id@ }
    }
}

/// Mathematical view of the shared payload.
pub struct PlaybookInputV {
    pub artifacts: PlaybookArtifactsV,
    pub results: Seq<(Seq<char>, JsonV)>,
    pub errors: Seq<(Seq<char>, JsonV)>,
}

impl View for PlaybookInput {
    type V = PlaybookInputV;

    open spec fn view(&self) -> PlaybookInputV {
        PlaybookInputV {
            artifacts: self.artifacts@,
            results: json_view_entries(self.results@),
            errors: json_view_entries(self.errors@),
        }
    }
}

/// Mathematical view of the execution record.
pub struct ResultsTableItemV {
    pub execution_id: Seq<char>,
    pub investigation_id: Seq<char>,
    pub datetime: Seq<char>,
    pub results: PlaybookInputV,
}

impl View for ResultsTableItem {
    type V = ResultsTableItemV;

    open spec fn view(&self) -> ResultsTableItemV {
        ResultsTableItemV {
            execution_id: self.execution_id@,
            investigation_id: self.investigation_id@,
            datetime: self.datetime@,
            results: self.results@,
        }
    }
}

/// Mathematical view of a human-response row.
pub struct ResponsesTableItemV {
    pub message_id: Seq<char>,
    pub datetime: Seq<char>,
    pub message: Seq<char>,
    pub fulfilled: bool,
    pub execution_id: Seq<char>,
    pub investigation_id: Seq<char>,
    pub receiver: Seq<char>,
    pub await_token: Seq<char>,
}

impl View for ResponsesTableItem {
    type V = ResponsesTableItemV;

    open spec fn view(&self) -> ResponsesTableItemV {
        ResponsesTableItemV {
            message_id: self.message_id@,
            datetime: self.datetime@,
            message: self.message@,
            fulfilled: self.fulfilled,
            execution_id: self.execution_id@,
            investigation_id: self.investigation_id@,
            receiver: self.receiver@,
            await_token: self.await_token@,
        }
    }
}

impl From<SoclessEvent> for EventTableItem {
    /// The persisted form keeps every field of the event except
    /// `dedup_keys`.
    fn from(event: SoclessEvent) -> (r: EventTableItem) {
        EventTableItem {
            id: event.id,
            investigation_id: event.investigation_id,
            status_: event.status_,
            is_duplicate: event.is_duplicate,
            created_at: event.created_at,
            event_type: event.event_type,
            playbook: event.playbook,
            details: event.details,
            data_types: event.data_types,
            event_meta: event.event_meta,
        }
    }
}

impl vstd::std_specs::convert::FromSpecImpl<SoclessEvent> for EventTableItem {
    open spec fn obeys_from_spec() -> bool {
        true
    }

    open spec fn from_spec(event: SoclessEvent) -> EventTableItem {
        EventTableItem {
            id: event.id,
            investigation_id: event.investigation_id,
            status_: event.status_,
            is_duplicate: event.is_duplicate,
            created_at: event.created_at,
            event_type: event.event_type,
            playbook: event.playbook,
            details: event.details,
            data_types: event.data_types,
            event_meta: event.event_meta,
        }
    }
}

/// String maps serialize with each value as a JSON string.
pub open spec fn str_map_json(s: Seq<(Seq<char>, Seq<char>)>) -> Seq<(Seq<char>, JsonV)> {
    Seq::new(s.len(), |i: int| (s[i].0, JsonV::Text(s[i].1)))
}

/// The JSON form of a persisted event.
pub open spec fn event_table_item_json(e: EventTableItemV) -> JsonV {
    JsonV::Obj(
        seq![
            ("id"@, JsonV::Text(e.id)),
            ("investigation_id"@, JsonV::Text(e.investigation_id)),
            ("status_"@, JsonV::Text(e.status_)),
            ("is_duplicate"@, JsonV::Bool(e.is_duplicate)),
            ("created_at"@, JsonV::Text(e.created_at)),
            ("event_type"@, JsonV::Text(e.event_type)),
            ("playbook"@, JsonV::Text(e.playbook)),
            ("details"@, JsonV::Obj(e.details)),
            ("data_types"@, JsonV::Obj(str_map_json(e.data_types))),
            ("event_meta"@, JsonV::Obj(str_map_json(e.event_meta))),
        ],
    )
}

/// The JSON form of the artifacts.
pub open spec fn playbook_artifacts_json(a: PlaybookArtifactsV) -> JsonV {
    JsonV::Obj(
        seq![
            ("event"@, event_table_item_json(a.event)),
            ("execution_id"@, JsonV::Text(a.execution_id)),
        ],
    )
}

/// The JSON form of the shared payload.
pub open spec fn playbook_input_json(p: PlaybookInputV) -> JsonV {
    JsonV::Obj(
        seq![
            ("artifacts"@, playbook_artifacts_json(p.artifacts)),
            ("results"@, JsonV::Obj(p.results)),
            ("errors"@, JsonV::Obj(p.errors)),
        ],
    )
}

/// The JSON form of the execution record.
pub open spec fn results_table_item_json(r: ResultsTableItemV) -> JsonV {
    JsonV::Obj(
        seq![
            ("execution_id"@, JsonV::Text(r.execution_id)),
            ("investigation_id"@, JsonV::Text(r.investigation_id)),
            ("datetime"@, JsonV::Text(r.datetime)),
            ("results"@, playbook_input_json(r.results)),
        ],
    )
}

/// A string map as a JSON object value.
pub fn str_map_to_json(v: &Vec<(String, String)>) -> (r: JsonValue)
    ensures
        r@ == JsonV::Obj(str_map_json(str_pairs_view(v@))),
{
    let mut out: Vec<(String, JsonValue)> = Vec::new();
    let mut i: usize = 0;
    while i < v.len()
        invariant
            i <= v@.len(),
            out@.len() == i,
            forall|j: int|
                0 <= j < i ==> (#[trigger] out@[j]).0@ == v@[j].0@ && out@[j].1@ == JsonV::Text(
                    v@[j].1@,
                ),
        decreases v@.len() - i,
    {
        out.push((v[i].0.clone(), JsonValue::Text(v[i].1.clone())));
        i += 1;
    }
    proof {
        lemma_json_view_entries(out@);
        assert(json_view_entries(out@) =~= str_map_json(str_pairs_view(v@)));
    }
    JsonValue::Obj(out)
}

impl EventTableItem {
    /// The JSON value this record serializes to.
    pub fn to_json(&self) -> (r: JsonValue)
        ensures
            r@ == event_table_item_json(self@),
    {
        let mut out: Vec<(String, JsonValue)> = Vec::new();
        out.push(("id".to_owned(), JsonValue::Text(self.id.clone())));
        out.push(("investigation_id".to_owned(), JsonValue::Text(self.investigation_id.clone())));
        out.push(("status_".to_owned(), JsonValue::Text(self.status_.clone())));
        out.push(("is_duplicate".to_owned(), JsonValue::Bool(self.is_duplicate)));
        out.push(("created_at".to_owned(), JsonValue::Text(self.created_at.clone())));
        out.push(("event_type".to_owned(), JsonValue::Text(self.event_type.clone())));
        out.push(("playbook".to_owned(), JsonValue::Text(self.playbook.clone())));
        out.push(("details".to_owned(), JsonValue::Obj(clone_entries(&self.details))));
        out.push(("data_types".to_owned(), str_map_to_json(&self.data_types)));
        out.push(("event_meta".to_owned(), str_map_to_json(&self.event_meta)));
        proof {
            lemma_json_view_entries(out@);
            assert(json_view_entries(out@) =~= event_table_item_json(self@)->Obj_0);
        }
        JsonValue::Obj(out)
    }
}

impl PlaybookArtifacts {
    /// The entries of the JSON object this record serializes to.
    pub fn to_entries(&self) -> (r: Vec<(String, JsonValue)>)
        ensures
            json_view_entries(r@) == playbook_artifacts_json(self@)->Obj_0,
    {
        let mut out: Vec<(String, JsonValue)> = Vec::new();
        out.push(("event".to_owned(), self.event.to_json()));
        out.push(("execution_id".to_owned(), JsonValue::Text(self.execution_id.clone())));
        proof {
            lemma_json_view_entries(out@);
            assert(json_view_entries(out@) =~= playbook_artifacts_json(self@)->Obj_0);
        }
        out
    }

    /// The JSON value this record serializes to.
    pub fn to_json(&self) -> (r: JsonValue)
        ensures
            r@ == playbook_artifacts_json(self@),
    {
        JsonValue::Obj(self.to_entries())
    }
}

impl PlaybookInput {
    /// The JSON value this record serializes to.
    pub fn to_json(&self) -> (r: JsonValue)
        ensures
            r@ == playbook_input_json(self@),
    {
        let mut out: Vec<(String, JsonValue)> = Vec::new();
        out.push(("artifacts".to_owned(), self.artifacts.to_json()));
        out.push(("results".to_owned(), JsonValue::Obj(clone_entries(&self.results))));
        out.push(("errors".to_owned(), JsonValue::Obj(clone_entries(&self.errors))));
        proof {
            lemma_json_view_entries(out@);
            assert(json_view_entries(out@) =~= playbook_input_json(self@)->Obj_0);
        }
        JsonValue::Obj(out)
    }
}

impl ResultsTableItem {
    /// The JSON value this record serializes to.
    pub fn to_json(&self) -> (r: JsonValue)
        ensures
            r@ == results_table_item_json(self@),
    {
        let mut out: Vec<(String, JsonValue)> = Vec::new();
        out.push(("execution_id".to_owned(), JsonValue::Text(self.execution_id.clone())));
        out.push(("investigation_id".to_owned(), JsonValue::Text(self.investigation_id.clone())));
        out.push(("datetime".to_owned(), JsonValue::Text(self.datetime.clone())));
        out.push(("results".to_owned(), self.results.to_json()));
        proof {
            lemma_json_view_entries(out@);
            assert(json_view_entries(out@) =~= results_table_item_json(self@)->Obj_0);
        }
        JsonValue::Obj(out)
    }
}

impl EventTableItem {
    /// A copy whose model is exactly the model of this record.
    pub fn duplicate(&self) -> (r: EventTableItem)
        ensures
            r@ == self@,
    {
        let r = EventTableItem {
            id: self.id.clone(),
            investigation_id: self.investigation_id.clone(),
            status_: self.status_.clone(),
            is_duplicate: self.is_duplicate,
            created_at: self.created_at.clone(),
            event_type: self.event_type.clone(),
            playbook: self.playbook.clone(),
            details: clone_entries(&self.details),
            data_types: clone_str_pairs(&self.data_types),
            event_meta: clone_str_pairs(&self.event_meta),
        };
        proof {
            assert(str_pairs_view(r.data_types@) =~= str_pairs_view(self.data_types@));
            assert(str_pairs_view(r.event_meta@) =~= str_pairs_view(self.event_meta@));
        }
        r
    }
}

impl PlaybookArtifacts {
    /// A copy whose model is exactly the model of these artifacts.
    pub fn duplicate(&self) -> (r: PlaybookArtifacts)
        ensures
            r@ == self@,
    {
        PlaybookArtifacts {
            event: self.event.duplicate(),
            execution_id: self.execution_id.clone(),
        }
    }
}

/// A JSON string value, when the lookup found one.
pub open spec fn as_text_opt(o: Option<JsonV>) -> Option<Seq<char>> {
    match o {
        Some(JsonV::Text(t)) => Some(t),
        _ => None,
    }
}

/// A JSON boolean value, when the lookup found one.
pub open spec fn as_bool_opt(o: Option<JsonV>) -> Option<bool> {
    match o {
        Some(JsonV::Bool(b)) => Some(b),
        _ => None,
    }
}

/// A JSON object's entries, when the lookup found an object.
pub open spec fn as_obj_opt(o: Option<JsonV>) -> Option<Seq<(Seq<char>, JsonV)>> {
    match o {
        Some(JsonV::Obj(es)) => Some(es),
        _ => None,
    }
}

/// Every value of the object is a JSON string.
pub open spec fn all_text(es: Seq<(Seq<char>, JsonV)>) -> bool {
    forall|i: int| 0 <= i < es.len() ==> (#[trigger] es[i]).1 is Text
}

/// The entries of an all-string object as a string map.
pub open spec fn text_values(es: Seq<(Seq<char>, JsonV)>) -> Seq<(Seq<char>, Seq<char>)> {
    Seq::new(es.len(), |i: int| (es[i].0, es[i].1->Text_0))
}

/// An object read as a string map: defined exactly when every value is a
/// string.
pub open spec fn as_str_map_opt(o: Option<JsonV>) -> Option<Seq<(Seq<char>, Seq<char>)>> {
    match as_obj_opt(o) {
        Some(es) => if all_text(es) {
            Some(text_values(es))
        } else {
            None
        },
        None => None,
    }
}

/// How a persisted event reads back from JSON: an object with every
/// required field of its type, read by the first binding of each key;
/// unknown keys are ignored.
pub open spec fn parse_event_table_item_spec(v: JsonV) -> Option<EventTableItemV> {
    match v {
        JsonV::Obj(es) => {
            if as_text_opt(assoc_get(es, "id"@)) is Some && as_text_opt(
                assoc_get(es, "investigation_id"@),
            ) is Some && as_text_opt(assoc_get(es, "status_"@)) is Some && as_bool_opt(
                assoc_get(es, "is_duplicate"@),
            ) is Some && as_text_opt(assoc_get(es, "created_at"@)) is Some && as_text_opt(
                assoc_get(es, "event_type"@),
            ) is Some && as_text_opt(assoc_get(es, "playbook"@)) is Some && as_obj_opt(
                assoc_get(es, "details"@),
            ) is Some && as_str_map_opt(assoc_get(es, "data_types"@)) is Some && as_str_map_opt(
                assoc_get(es, "event_meta"@),
            ) is Some {
                Some(
                    EventTableItemV {
                        id: as_text_opt(assoc_get(es, "id"@))->0,
                        investigation_id: as_text_opt(assoc_get(es, "investigation_id"@))->0,
                        status_: as_text_opt(assoc_get(es, "status_"@))->0,
                        is_duplicate: as_bool_opt(assoc_get(es, "is_duplicate"@))->0,
                        created_at: as_text_opt(assoc_get(es, "created_at"@))->0,
                        event_type: as_text_opt(assoc_get(es, "event_type"@))->0,
                        playbook: as_text_opt(assoc_get(es, "playbook"@))->0,
                        details: as_obj_opt(assoc_get(es, "details"@))->0,
                        data_types: as_str_map_opt(assoc_get(es, "data_types"@))->0,
                        event_meta: as_str_map_opt(assoc_get(es, "event_meta"@))->0,
                    },
                )
            } else {
                None
            }
        },
        _ => None,
    }
}

/// How the artifacts read back from JSON.
pub open spec fn parse_playbook_artifacts_spec(v: JsonV) -> Option<PlaybookArtifactsV> {
    match v {
        JsonV::Obj(es) => {
            match (assoc_get(es, "event"@), as_text_opt(assoc_get(es, "execution_id"@))) {
                (Some(ev), Some(eid)) => match parse_event_table_item_spec(ev) {
                    Some(event) => Some(PlaybookArtifactsV { event, execution_id: eid }),
                    None => None,
                },
                _ => None,
            }
        },
        _ => None,
    }
}

/// How the shared payload reads back from JSON.
pub open spec fn parse_playbook_input_spec(v: JsonV) -> Option<PlaybookInputV> {
    match v {
        JsonV::Obj(es) => {
            match (
                assoc_get(es, "artifacts"@),
                as_obj_opt(assoc_get(es, "results"@)),
                as_obj_opt(assoc_get(es, "errors"@)),
            ) {
                (Some(av), Some(results), Some(errors)) => match parse_playbook_artifacts_spec(
                    av,
                ) {
                    Some(artifacts) => Some(PlaybookInputV { artifacts, results, errors }),
                    None => None,
                },
                _ => None,
            }
        },
        _ => None,
    }
}

/// How the execution record reads back from JSON.
pub open spec fn parse_results_table_item_spec(v: JsonV) -> Option<ResultsTableItemV> {
    match v {
        JsonV::Obj(es) => {
            match (
                as_text_opt(assoc_get(es, "execution_id"@)),
                as_text_opt(assoc_get(es, "investigation_id"@)),
                as_text_opt(assoc_get(es, "datetime"@)),
                assoc_get(es, "results"@),
            ) {
                (Some(eid), Some(inv), Some(dt), Some(rv)) => match parse_playbook_input_spec(
                    rv,
                ) {
                    Some(results) => Some(
                        ResultsTableItemV {
                            execution_id: eid,
                            investigation_id: inv,
                            datetime: dt,
                            results,
                        },
                    ),
                    None => None,
                },
                _ => None,
            }
        },
        _ => None,
    }
}

/// Read an object whose values must all be strings as a string map.
#[verifier::loop_isolation(false)]
pub fn entries_to_str_map(entries: &Vec<(String, JsonValue)>) -> (r: Option<Vec<(String, String)>>)
    ensures
        match r {
            Some(m) => all_text(json_view_entries(entries@)) && str_pairs_view(m@) == text_values(
                json_view_entries(entries@),
            ),
            None => !all_text(json_view_entries(entries@)),
        },
{
    proof {
        lemma_json_view_entries(entries@);
    }
    let mut out: Vec<(String, String)> = Vec::new();
    let mut i: usize = 0;
    while i < entries.len()
        invariant
            i <= entries@.len(),
            out@.len() == i,
            forall|j: int| 0 <= j < i ==> (#[trigger] json_view_entries(entries@)[j]).1 is Text,
            forall|j: int|
                0 <= j < i ==> (#[trigger] out@[j]).0@ == entries@[j].0@ && out@[j].1@
                    == json_view_entries(entries@)[j].1->Text_0,
        decreases entries@.len() - i,
    {
        match &entries[i].1 {
            JsonValue::Text(t) => {
                out.push((entries[i].0.clone(), t.clone()));
            },
            _ => {
                proof {
                    assert(!(json_view_entries(entries@)[i as int].1 is Text));
                }
                return None;
            },
        }
        i += 1;
    }
    proof {
        assert(str_pairs_view(out@) =~= text_values(json_view_entries(entries@)));
    }
    Some(out)
}

/// Read a persisted event back from JSON.
pub fn parse_event_table_item(v: &JsonValue) -> (r: Option<EventTableItem>)
    ensures
        match r {
            Some(e) => parse_event_table_item_spec(v@) == Some(e@),
            None => parse_event_table_item_spec(v@) is None,
        },
{
    let entries = match v {
        JsonValue::Obj(entries) => entries,
        _ => {
            return None;
        },
    };
    proof {
        lemma_json_view_entries(entries@);
    }
    let id = match get_text(entries, "id") {
        Some(t) => t,
        None => {
            return None;
        },
    };
    let investigation_id = match get_text(entries, "investigation_id") {
        Some(t) => t,
        None => {
            return None;
        },
    };
    let status_ = match get_text(entries, "status_") {
        Some(t) => t,
        None => {
            return None;
        },
    };
    let is_duplicate = match get_bool(entries, "is_duplicate") {
        Some(b) => b,
        None => {
            return None;
        },
    };
    let created_at = match get_text(entries, "created_at") {
        Some(t) => t,
        None => {
            return None;
        },
    };
    let event_type = match get_text(entries, "event_type") {
        Some(t) => t,
        None => {
            return None;
        },
    };
    let playbook = match get_text(entries, "playbook") {
        Some(t) => t,
        None => {
            return None;
        },
    };
    let details = match get_obj_entries(entries, "details") {
        Some(d) => d,
        None => {
            return None;
        },
    };
    let data_types = match get_str_map(entries, "data_types") {
        Some(m) => m,
        None => {
            return None;
        },
    };
    let event_meta = match get_str_map(entries, "event_meta") {
        Some(m) => m,
        None => {
            return None;
        },
    };
    Some(
        EventTableItem {
            id,
            investigation_id,
            status_,
            is_duplicate,
            created_at,
            event_type,
            playbook,
            details,
            data_types,
            event_meta,
        },
    )
}

/// Look up `key` and expect a JSON string.
fn get_text(entries: &Vec<(String, JsonValue)>, key: &str) -> (r: Option<String>)
    ensures
        match r {
            Some(t) => as_text_opt(assoc_get(json_view_entries(entries@), key@)) == Some(t@),
            None => as_text_opt(assoc_get(json_view_entries(entries@), key@)) is None,
        },
{
    proof {
        crate::json::lemma_assoc_get_view(entries@, key@);
    }
    match crate::json::obj_get(entries, key) {
        Some(JsonValue::Text(t)) => Some(t.clone()),
        _ => None,
    }
}

/// Look up `key` and expect a JSON boolean.
fn get_bool(entries: &Vec<(String, JsonValue)>, key: &str) -> (r: Option<bool>)
    ensures
        match r {
            Some(b) => as_bool_opt(assoc_get(json_view_entries(entries@), key@)) == Some(b),
            None => as_bool_opt(assoc_get(json_view_entries(entries@), key@)) is None,
        },
{
    proof {
        crate::json::lemma_assoc_get_view(entries@, key@);
    }
    match crate::json::obj_get(entries, key) {
        Some(JsonValue::Bool(b)) => Some(*b),
        _ => None,
    }
}

/// Look up `key` and expect a JSON object, copied.
fn get_obj_entries(entries: &Vec<(String, JsonValue)>, key: &str) -> (r: Option<
    Vec<(String, JsonValue)>,
>)
    ensures
        match r {
            Some(d) => as_obj_opt(assoc_get(json_view_entries(entries@), key@)) == Some(
                json_view_entries(d@),
            ),
            None => as_obj_opt(assoc_get(json_view_entries(entries@), key@)) is None,
        },
{
    proof {
        crate::json::lemma_assoc_get_view(entries@, key@);
    }
    match crate::json::obj_get(entries, key) {
        Some(JsonValue::Obj(d)) => Some(clone_entries(d)),
        _ => None,
    }
}

/// Look up `key` and expect an object whose values are all strings.
fn get_str_map(entries: &Vec<(String, JsonValue)>, key: &str) -> (r: Option<Vec<(String, String)>>)
    ensures
        match r {
            Some(m) => as_str_map_opt(assoc_get(json_view_entries(entries@), key@)) == Some(
                str_pairs_view(m@),
            ),
            None => as_str_map_opt(assoc_get(json_view_entries(entries@), key@)) is None,
        },
{
    proof {
        crate::json::lemma_assoc_get_view(entries@, key@);
    }
    match crate::json::obj_get(entries, key) {
        Some(JsonValue::Obj(d)) => entries_to_str_map(d),
        _ => None,
    }
}

/// Read the artifacts back from JSON.
pub fn parse_playbook_artifacts(v: &JsonValue) -> (r: Option<PlaybookArtifacts>)
    ensures
        match r {
            Some(a) => parse_playbook_artifacts_spec(v@) == Some(a@),
            None => parse_playbook_artifacts_spec(v@) is None,
        },
{
    let entries = match v {
        JsonValue::Obj(entries) => entries,
        _ => {
            return None;
        },
    };
    proof {
        crate::json::lemma_assoc_get_view(entries@, "event"@);
    }
    let event = match crate::json::obj_get(entries, "event") {
        Some(ev) => match parse_event_table_item(ev) {
            Some(event) => event,
            None => {
                return None;
            },
        },
        None => {
            return None;
        },
    };
    let execution_id = match get_text(entries, "execution_id") {
        Some(t) => t,
        None => {
            return None;
        },
    };
    Some(PlaybookArtifacts { event, execution_id })
}

/// Read the shared payload back from JSON.
pub fn parse_playbook_input(v: &JsonValue) -> (r: Option<PlaybookInput>)
    ensures
        match r {
            Some(p) => parse_playbook_input_spec(v@) == Some(p@),
            None => parse_playbook_input_spec(v@) is None,
        },
{
    let entries = match v {
        JsonValue::Obj(entries) => entries,
        _ => {
            return None;
        },
    };
    proof {
        crate::json::lemma_assoc_get_view(entries@, "artifacts"@);
    }
    let artifacts = match crate::json::obj_get(entries, "artifacts") {
        Some(av) => match parse_playbook_artifacts(av) {
            Some(a) => a,
            None => {
                return None;
            },
        },
        None => {
            return None;
        },
    };
    let results = match get_obj_entries(entries, "results") {
        Some(d) => d,
        None => {
            return None;
        },
    };
    let errors = match get_obj_entries(entries, "errors") {
        Some(d) => d,
        None => {
            return None;
        },
    };
    Some(PlaybookInput { artifacts, results, errors })
}

/// Read the execution record back from JSON.
pub fn parse_results_table_item(v: &JsonValue) -> (r: Option<ResultsTableItem>)
    ensures
        match r {
            Some(t) => parse_results_table_item_spec(v@) == Some(t@),
            None => parse_results_table_item_spec(v@) is None,
        },
{
    let entries = match v {
        JsonValue::Obj(entries) => entries,
        _ => {
            return None;
        },
    };
    let execution_id = match get_text(entries, "execution_id") {
        Some(t) => t,
        None => {
            return None;
        },
    };
    let investigation_id = match get_text(entries, "investigation_id") {
        Some(t) => t,
        None => {
            return None;
        },
    };
    let datetime = match get_text(entries, "datetime") {
        Some(t) => t,
        None => {
            return None;
        },
    };
    proof {
        crate::json::lemma_assoc_get_view(entries@, "results"@);
    }
    let results = match crate::json::obj_get(entries, "results") {
        Some(rv) => match parse_playbook_input(rv) {
            Some(p) => p,
            None => {
                return None;
            },
        },
        None => {
            return None;
        },
    };
    Some(ResultsTableItem { execution_id, investigation_id, datetime, results })
}

} // verus!
