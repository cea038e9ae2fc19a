use socless::events::{
    build_dedup_hash, deduplicate, execution_failure_status, execution_success_status,
    get_playbook_arn, prepare_playbook_execution, setup_events, start_execution_input,
    SoclessEventBatch,
};
use socless::json::JsonValue;
use socless::models::{EventTableItem, SoclessEvent};
use socless::{gen_datetimenow, gen_id, SoclessError};

fn jt(s: &str) -> JsonValue {
    JsonValue::Text(s.to_string())
}

fn mock_details() -> Vec<(String, JsonValue)> {
    vec![
        ("api_app_id".to_string(), jt("A1234567")),
        ("channel_id".to_string(), jt("G123456")),
        ("channel_name".to_string(), jt("privategroup")),
        ("command".to_string(), jt("/update_config")),
        ("enterprise_id".to_string(), jt("EF1234567")),
        ("enterprise_name".to_string(), jt("A-Company")),
        (
            "response_url".to_string(),
            jt("https://hooks.slack.com/commands/T1234567/123456678/alsdfjlasjf"),
        ),
        ("team_domain".to_string(), jt("test_domain")),
        ("team_id".to_string(), jt("T123456")),
        ("text".to_string(), jt("testing123")),
        (
            "trigger_id".to_string(),
            jt("123456789.123456789.b11d2434423456789"),
        ),
        ("user_id".to_string(), jt("W12345")),
        ("user_name".to_string(), jt("shunt")),
    ]
}

fn mock_socless_event() -> SoclessEvent {
    SoclessEvent {
        id: "005366e8-c64a-4587-af8e-343d5775d3b3".to_string(),
        investigation_id: "005366e8-c64a-4587-af8e-343d5775d3b3".to_string(),
        status_: "open".to_string(),
        is_duplicate: false,
        created_at: "2020-11-24T08:52:27.916090Z".to_string(),
        event_type: "SoclessUtilsIntegrationTest".to_string(),
        playbook: "SoclessUtilsIntegrationTest".to_string(),
        details: mock_details(),
        data_types: Vec::new(),
        event_meta: Vec::new(),
        dedup_keys: vec!["trigger_id".to_string()],
    }
}

#[test]
fn test_build_dedup_hash() {
    let dedup_hash = build_dedup_hash(&mock_socless_event());

    assert_eq!("3dc424cb39725b818a72b796d7a64376".to_string(), dedup_hash);
}

#[test]
fn test_build_dedup_hash_is_case_insensitive() {
    let mut event = mock_socless_event();
    event.event_type = "soclessutilsintegrationtest".to_string();

    assert_eq!(
        build_dedup_hash(&event),
        "3dc424cb39725b818a72b796d7a64376".to_string()
    );
}

#[test]
fn test_build_dedup_hash_ignores_detail_order_and_values() {
    let mut event = mock_socless_event();
    event.details.reverse();
    for pair in event.details.iter_mut() {
        if pair.0 == "trigger_id" {
            pair.1 = jt("another value entirely");
        }
    }

    assert_eq!(
        build_dedup_hash(&event),
        "3dc424cb39725b818a72b796d7a64376".to_string()
    );
}

#[test]
fn test_build_dedup_hash_sorts_names_case_insensitively() {
    let mut event = mock_socless_event();
    event.details = vec![
        ("Beta".to_string(), jt("1")),
        ("alpha".to_string(), jt("2")),
    ];
    event.dedup_keys = vec!["Beta".to_string(), "alpha".to_string()];
    let hash_one = build_dedup_hash(&event);

    // the signature concatenates alpha before Beta whatever order the
    // details carry them in
    event.details = vec![
        ("alpha".to_string(), jt("2")),
        ("Beta".to_string(), jt("1")),
    ];
    let hash_two = build_dedup_hash(&event);
    assert_eq!(hash_one, hash_two);
}

#[test]
fn test_get_playbook_arn() {
    let invoked_function_arn =
        "arn:aws:lambda:us-west-2:12345678901:function:_socless_rust_create_events_slash_command";

    assert_eq!(
        get_playbook_arn("testing_playbook", invoked_function_arn).unwrap(),
        "arn:aws:states:us-west-2:12345678901:stateMachine:testing_playbook"
    );
}

#[test]
fn test_get_playbook_arn_rejects_short_identifier() {
    let result = get_playbook_arn("testing_playbook", "not-an-arn");
    assert!(matches!(
        result,
        Err(SoclessError::MalformedError { .. })
    ));
}

#[test]
fn test_gen_id() {
    assert_eq!(36, gen_id().len());
}

#[test]
fn test_gen_datetimenow() {
    assert_eq!(27, gen_datetimenow().len());
}

#[test]
fn test_setup_events_expands_batch() {
    let batch = SoclessEventBatch {
        created_at: Some("2020-11-24T08:52:27.916090Z".to_string()),
        event_type: "TestEvent".to_string(),
        playbook: "TestPlaybook".to_string(),
        details: vec![
            JsonValue::Obj(vec![("assignee".to_string(), jt("jfutz"))]),
            JsonValue::Obj(vec![("assignee".to_string(), jt("shunt"))]),
        ],
        data_types: None,
        event_meta: None,
        dedup_keys: Some(vec!["assignee".to_string()]),
    };

    let events = setup_events(batch).unwrap();
    assert_eq!(events.len(), 2);
    for event in &events {
        assert_eq!(event.event_type, "TestEvent");
        assert_eq!(event.playbook, "TestPlaybook");
        assert_eq!(event.status_, "open");
        assert!(!event.is_duplicate);
        assert_eq!(event.id, event.investigation_id);
        assert_eq!(event.id.len(), 36);
        assert_eq!(event.created_at, "2020-11-24T08:52:27.916090Z");
        assert_eq!(event.dedup_keys, vec!["assignee".to_string()]);
    }
    assert_eq!(events[0].details, vec![("assignee".to_string(), jt("jfutz"))]);
    assert_eq!(events[1].details, vec![("assignee".to_string(), jt("shunt"))]);
    assert_ne!(events[0].id, events[1].id);
}

#[test]
fn test_setup_events_defaults_created_at() {
    let batch = SoclessEventBatch {
        created_at: None,
        event_type: "TestEvent".to_string(),
        playbook: "TestPlaybook".to_string(),
        details: vec![JsonValue::Obj(Vec::new())],
        data_types: None,
        event_meta: None,
        dedup_keys: None,
    };

    let events = setup_events(batch).unwrap();
    assert_eq!(events.len(), 1);
    assert_eq!(events[0].created_at.len(), 27);
}

#[test]
fn test_setup_events_rejects_non_object_details() {
    let batch = SoclessEventBatch {
        created_at: None,
        event_type: "TestEvent".to_string(),
        playbook: "TestPlaybook".to_string(),
        details: vec![jt("not an object")],
        data_types: None,
        event_meta: None,
        dedup_keys: None,
    };

    assert!(matches!(
        setup_events(batch),
        Err(SoclessError::MalformedError { .. })
    ));
}

#[test]
fn test_deduplicate_without_existing_investigation() {
    let event = mock_socless_event();
    let deduplicated = deduplicate(event, None);
    assert_eq!(deduplicated, mock_socless_event());
}

#[test]
fn test_deduplicate_adopts_open_investigation() {
    let event = mock_socless_event();
    let existing = EventTableItem {
        id: "11111111-2222-3333-4444-555555555555".to_string(),
        investigation_id: "11111111-2222-3333-4444-555555555555".to_string(),
        status_: "open".to_string(),
        is_duplicate: false,
        created_at: "2020-11-20T00:00:00.000000Z".to_string(),
        event_type: "SoclessUtilsIntegrationTest".to_string(),
        playbook: "SoclessUtilsIntegrationTest".to_string(),
        details: Vec::new(),
        data_types: Vec::new(),
        event_meta: Vec::new(),
    };

    let deduplicated = deduplicate(event, Some(&existing));
    assert_eq!(deduplicated.status_, "closed");
    assert!(deduplicated.is_duplicate);
    assert_eq!(
        deduplicated.investigation_id,
        "11111111-2222-3333-4444-555555555555"
    );
    assert_eq!(deduplicated.id, "005366e8-c64a-4587-af8e-343d5775d3b3");
}

#[test]
fn test_deduplicate_ignores_closed_investigation() {
    let event = mock_socless_event();
    let existing = EventTableItem {
        id: "11111111-2222-3333-4444-555555555555".to_string(),
        investigation_id: "11111111-2222-3333-4444-555555555555".to_string(),
        status_: "closed".to_string(),
        is_duplicate: false,
        created_at: "2020-11-20T00:00:00.000000Z".to_string(),
        event_type: "SoclessUtilsIntegrationTest".to_string(),
        playbook: "SoclessUtilsIntegrationTest".to_string(),
        details: Vec::new(),
        data_types: Vec::new(),
        event_meta: Vec::new(),
    };

    let deduplicated = deduplicate(event, Some(&existing));
    assert_eq!(deduplicated, mock_socless_event());
}

#[test]
fn test_scenario_single_event_batch_starts_one_execution() {
    // one event, dedup_keys = ["trigger_id"], no existing dedup mapping:
    // one open event record, one execution record, one start input, one
    // successful status
    let batch = SoclessEventBatch {
        created_at: Some("2020-11-24T08:52:27.916090Z".to_string()),
        event_type: "SoclessUtilsIntegrationTest".to_string(),
        playbook: "SoclessUtilsIntegrationTest".to_string(),
        details: vec![JsonValue::Obj(vec![(
            "trigger_id".to_string(),
            jt("123456789.123456789.b11d2434423456789"),
        )])],
        data_types: None,
        event_meta: None,
        dedup_keys: Some(vec!["trigger_id".to_string()]),
    };

    let mut events = setup_events(batch).unwrap();
    assert_eq!(events.len(), 1);
    let event = events.remove(0);

    // the dedup index holds no mapping for this signature
    let deduplicated = deduplicate(event, None);
    assert_eq!(deduplicated.status_, "open");
    assert!(!deduplicated.is_duplicate);

    let event_record = EventTableItem::from(deduplicated);
    assert_eq!(event_record.status_, "open");
    assert!(!event_record.is_duplicate);

    let investigation_id = event_record.investigation_id.clone();
    let execution_record = prepare_playbook_execution(event_record);
    assert_eq!(execution_record.investigation_id, investigation_id);
    assert_eq!(execution_record.execution_id.len(), 36);
    assert_eq!(
        execution_record.execution_id,
        execution_record.results.artifacts.execution_id
    );
    assert!(execution_record.results.results.is_empty());
    assert!(execution_record.results.errors.is_empty());

    let start_input = start_execution_input(&execution_record);
    match start_input {
        JsonValue::Obj(entries) => {
            assert_eq!(entries[0].0, "execution_id");
            assert_eq!(
                entries[0].1,
                jt(execution_record.execution_id.as_str())
            );
            assert_eq!(entries[1].0, "artifacts");
        }
        _ => panic!("the start input must be an object"),
    }

    let statuses = vec![execution_success_status(
        Some("arn:aws:states:us-west-2:12345678901:execution:x:y".to_string()),
        investigation_id.as_str(),
    )];
    assert_eq!(statuses.len(), 1);
    assert!(statuses[0].status);
}

#[test]
fn test_execution_failure_status_carries_engine_words() {
    let status = execution_failure_status("the engine said no");
    assert!(!status.status);
    assert_eq!(
        status.message,
        JsonValue::Obj(vec![(
            "error".to_string(),
            jt("Error during State Machine Start: the engine said no")
        )])
    );
}
