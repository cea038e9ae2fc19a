use socless::humaninteraction::{end_human_interaction, init_human_interaction};
use socless::json::JsonValue;
use socless::models::{
    EventTableItem, PlaybookArtifacts, PlaybookInput, ResultsTableItem,
};
use socless::resolver::SoclessContext;
use socless::SoclessError;

fn jt(s: &str) -> JsonValue {
    JsonValue::Text(s.to_string())
}

fn obj(entries: Vec<(&str, JsonValue)>) -> JsonValue {
    JsonValue::Obj(
        entries
            .into_iter()
            .map(|(k, v)| (k.to_string(), v))
            .collect(),
    )
}

fn paused_context() -> SoclessContext {
    let event = obj(vec![("investigation_id", jt("987654-98765"))]);
    let artifacts = match obj(vec![("event", event)]) {
        JsonValue::Obj(entries) => entries,
        _ => unreachable!(),
    };
    SoclessContext {
        execution_id: Some("12345-asdf-1234".to_string()),
        artifacts: Some(artifacts),
        results: None,
        errors: None,
        task_token: Some("await-token-1".to_string()),
        state_name: Some("Await_Approval".to_string()),
        other: Vec::new(),
    }
}

fn execution_record() -> ResultsTableItem {
    ResultsTableItem {
        execution_id: "12345-asdf-1234".to_string(),
        investigation_id: "987654-98765".to_string(),
        datetime: "2021-02-02T16:19:53.032610Z".to_string(),
        results: PlaybookInput {
            artifacts: PlaybookArtifacts {
                event: EventTableItem {
                    id: "987654-98765".to_string(),
                    investigation_id: "987654-98765".to_string(),
                    status_: "open".to_string(),
                    is_duplicate: false,
                    created_at: "2021-02-02T16:19:52.567359Z".to_string(),
                    event_type: "mock_testing_event".to_string(),
                    playbook: "MockTestingPlaybook".to_string(),
                    details: Vec::new(),
                    data_types: Vec::new(),
                    event_meta: Vec::new(),
                },
                execution_id: "12345-asdf-1234".to_string(),
            },
            results: vec![(
                "Earlier_Step".to_string(),
                JsonValue::Obj(vec![("status".to_string(), JsonValue::Text("success".to_string()))]),
            )],
            errors: Vec::new(),
        },
    }
}

#[test]
fn test_init_human_interaction_builds_unfulfilled_row() {
    let row = init_human_interaction(
        &paused_context(),
        "please approve",
        Some("message-1".to_string()),
    )
    .unwrap();

    assert_eq!(row.message_id, "message-1");
    assert_eq!(row.message, "please approve");
    assert!(!row.fulfilled);
    assert_eq!(row.execution_id, "12345-asdf-1234");
    assert_eq!(row.investigation_id, "987654-98765");
    assert_eq!(row.receiver, "Await_Approval");
    assert_eq!(row.await_token, "await-token-1");
    assert_eq!(row.datetime.len(), 27);
}

#[test]
fn test_init_human_interaction_generates_message_id() {
    let row = init_human_interaction(&paused_context(), "please approve", None).unwrap();
    assert_eq!(row.message_id.len(), 36);
}

#[test]
fn test_init_human_interaction_requires_pause_token() {
    let mut context = paused_context();
    context.task_token = None;

    let result = init_human_interaction(&context, "please approve", None);
    assert!(matches!(
        result,
        Err(SoclessError::ContractViolation { .. })
    ));
}

#[test]
fn test_init_human_interaction_requires_investigation_id() {
    let mut context = paused_context();
    context.artifacts = Some(Vec::new());

    let result = init_human_interaction(&context, "please approve", None);
    assert!(matches!(
        result,
        Err(SoclessError::ContractViolation { .. })
    ));
}

#[test]
fn test_end_human_interaction_merges_response() {
    let row = init_human_interaction(
        &paused_context(),
        "please approve",
        Some("message-1".to_string()),
    )
    .unwrap();
    let mut record = execution_record();
    let response_body = obj(vec![("approved", JsonValue::Bool(true))]);

    let (payload, fulfilled_row) =
        end_human_interaction(&row, &mut record, &response_body).unwrap();

    // the record took the response as the receiving step's result, on top
    // of what the run had already accumulated
    assert_eq!(
        record.results.results,
        vec![
            (
                "Earlier_Step".to_string(),
                obj(vec![("status", jt("success"))])
            ),
            (
                "Await_Approval".to_string(),
                obj(vec![("approved", JsonValue::Bool(true))])
            ),
            (
                "_Last_Saved_Results".to_string(),
                obj(vec![("approved", JsonValue::Bool(true))])
            ),
        ]
    );
    // the payload signaled to the engine carries the full current
    // execution results: the earlier step's output survives, the response
    // is bound under the receiver's name, and the response's own fields
    // are layered alongside
    assert_eq!(
        payload.results,
        vec![
            (
                "Earlier_Step".to_string(),
                obj(vec![("status", jt("success"))])
            ),
            (
                "Await_Approval".to_string(),
                obj(vec![("approved", JsonValue::Bool(true))])
            ),
            ("approved".to_string(), JsonValue::Bool(true)),
        ]
    );
    assert!(fulfilled_row.fulfilled);
    assert_eq!(fulfilled_row.message_id, "message-1");
}

#[test]
fn test_end_human_interaction_rejects_second_completion() {
    // completing the same message twice: the first call succeeds and marks
    // the row fulfilled; the second fails as caller misuse, and the engine
    // is signaled at most once
    let row = init_human_interaction(
        &paused_context(),
        "please approve",
        Some("message-1".to_string()),
    )
    .unwrap();
    let mut record = execution_record();
    let response_body = obj(vec![("approved", JsonValue::Bool(true))]);
    let mut signals_sent = 0;

    let first = end_human_interaction(&row, &mut record, &response_body);
    let stored_row = match first {
        Ok((_payload, fulfilled_row)) => {
            signals_sent += 1;
            fulfilled_row
        }
        Err(_) => panic!("the first completion must succeed"),
    };
    assert!(stored_row.fulfilled);

    let second = end_human_interaction(&stored_row, &mut record, &response_body);
    match second {
        Err(SoclessError::ContractViolation { .. }) => {}
        _ => panic!("the second completion must fail as caller misuse"),
    }
    assert_eq!(signals_sent, 1);
}

#[test]
fn test_end_human_interaction_requires_object_response() {
    let row = init_human_interaction(
        &paused_context(),
        "please approve",
        Some("message-1".to_string()),
    )
    .unwrap();
    let mut record = execution_record();

    let result = end_human_interaction(&row, &mut record, &jt("not an object"));
    assert!(matches!(result, Err(SoclessError::MalformedError { .. })));
    assert_eq!(record, execution_record());
}
