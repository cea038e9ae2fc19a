use socless::integrations::{build_socless_context, save_state_results};
use socless::json::{json_merge, JsonValue};
use socless::models::{
    EventTableItem, PlaybookArtifacts, PlaybookInput, ResultsTableItem,
};
use socless::resolver::{SoclessLambdaInput, StateConfig};
use socless::SoclessError;

fn jt(s: &str) -> JsonValue {
    JsonValue::Text(s.to_string())
}

fn obj(entries: Vec<(&str, JsonValue)>) -> JsonValue {
    JsonValue::Obj(
        entries
            .into_iter()
            .map(|(k, v)| (k.to_string(), v))
            .collect(),
    )
}

fn mock_event_record() -> EventTableItem {
    EventTableItem {
        id: "987654-98765".to_string(),
        investigation_id: "987654-98765".to_string(),
        status_: "open".to_string(),
        is_duplicate: false,
        created_at: "2021-02-02T16:19:52.567359Z".to_string(),
        event_type: "mock_testing_event".to_string(),
        playbook: "MockTestingPlaybook".to_string(),
        details: vec![("assignee".to_string(), jt("jfutz"))],
        data_types: Vec::new(),
        event_meta: Vec::new(),
    }
}

fn mock_execution_record() -> ResultsTableItem {
    ResultsTableItem {
        execution_id: "12345-asdf-1234".to_string(),
        investigation_id: "987654-98765".to_string(),
        datetime: "2021-02-02T16:19:53.032610Z".to_string(),
        results: PlaybookInput {
            artifacts: PlaybookArtifacts {
                event: mock_event_record(),
                execution_id: "12345-asdf-1234".to_string(),
            },
            results: vec![(
                "Earlier_Step".to_string(),
                obj(vec![("status", jt("success"))]),
            )],
            errors: vec![("Failed_Step".to_string(), jt("boom"))],
        },
    }
}

#[test]
fn test_json_merge_unions_objects() {
    let mut mutable_json_object = obj(vec![("foo", jt("bar"))]);
    let object_to_merge = obj(vec![("baz", jt("spam"))]);
    json_merge(&mut mutable_json_object, object_to_merge);
    assert_eq!(
        mutable_json_object,
        obj(vec![("foo", jt("bar")), ("baz", jt("spam"))])
    );
}

#[test]
fn test_json_merge_null_removes_key() {
    let mut target = obj(vec![("foo", jt("bar")), ("baz", jt("spam"))]);
    json_merge(&mut target, obj(vec![("baz", JsonValue::Null)]));
    assert_eq!(target, obj(vec![("foo", jt("bar"))]));
}

#[test]
fn test_json_merge_merges_nested_objects() {
    let mut target = obj(vec![("nested", obj(vec![("keep", jt("old"))]))]);
    json_merge(
        &mut target,
        obj(vec![("nested", obj(vec![("add", jt("new"))]))]),
    );
    assert_eq!(
        target,
        obj(vec![(
            "nested",
            obj(vec![("keep", jt("old")), ("add", jt("new"))])
        )])
    );
}

#[test]
fn test_json_merge_non_object_replaces() {
    let mut target = obj(vec![("foo", jt("bar"))]);
    json_merge(&mut target, jt("replacement"));
    assert_eq!(target, jt("replacement"));
}

#[test]
fn test_save_state_results_sets_step_and_last_saved() {
    let mut results = mock_execution_record().results;
    let output = obj(vec![("status", jt("success"))]);

    save_state_results(&mut results, "Add_Comment", &output, None);

    assert_eq!(
        results.results,
        vec![
            (
                "Earlier_Step".to_string(),
                obj(vec![("status", jt("success"))])
            ),
            ("Add_Comment".to_string(), obj(vec![("status", jt("success"))])),
            (
                "_Last_Saved_Results".to_string(),
                obj(vec![("status", jt("success"))])
            ),
        ]
    );
    assert_eq!(
        results.errors,
        vec![("Failed_Step".to_string(), jt("boom"))]
    );
}

#[test]
fn test_save_state_results_is_idempotent() {
    let mut once = mock_execution_record().results;
    let output = obj(vec![("status", jt("success"))]);
    save_state_results(&mut once, "Add_Comment", &output, None);

    let mut twice = mock_execution_record().results;
    save_state_results(&mut twice, "Add_Comment", &output, None);
    save_state_results(&mut twice, "Add_Comment", &output, None);

    assert_eq!(once, twice);
}

#[test]
fn test_save_state_results_replaces_errors_when_supplied() {
    let mut results = mock_execution_record().results;
    let output = obj(vec![("status", jt("success"))]);
    let forwarded = vec![("Broken_Step".to_string(), jt("details"))];

    save_state_results(&mut results, "Add_Comment", &output, Some(forwarded));

    assert_eq!(
        results.errors,
        vec![("Broken_Step".to_string(), jt("details"))]
    );
}

#[test]
fn test_build_socless_context_for_test_invocation() {
    let event = SoclessLambdaInput {
        state_config: StateConfig {
            name: "direct_invoke".to_string(),
            parameters: vec![("user_id".to_string(), jt("U12345"))],
            other: Vec::new(),
        },
        _testing: Some(true),
        task_token: None,
        sfn_context: None,
        execution_id: None,
        artifacts: None,
        errors: None,
        other: Vec::new(),
    };

    let context = build_socless_context(&event, None).unwrap();
    assert_eq!(context.execution_id, None);
    assert_eq!(context.artifacts, None);
    assert_eq!(context.results, None);
    assert_eq!(context.errors, None);
    assert_eq!(context.task_token, None);
    assert_eq!(context.state_name, None);
    assert_eq!(context.other.len(), 2);
    assert_eq!(context.other[0].0, "State_Config");
    assert_eq!(context.other[1].0, "_testing");
}

#[test]
fn test_build_socless_context_from_record() {
    let event = SoclessLambdaInput {
        state_config: StateConfig {
            name: "Await_Approval".to_string(),
            parameters: Vec::new(),
            other: Vec::new(),
        },
        _testing: None,
        task_token: Some("token-1".to_string()),
        sfn_context: None,
        execution_id: Some("12345-asdf-1234".to_string()),
        artifacts: None,
        errors: None,
        other: Vec::new(),
    };
    let record = mock_execution_record();

    let context = build_socless_context(&event, Some(&record)).unwrap();
    assert_eq!(context.execution_id, Some("12345-asdf-1234".to_string()));
    assert_eq!(
        context.results,
        Some(vec![(
            "Earlier_Step".to_string(),
            obj(vec![("status", jt("success"))])
        )])
    );
    // the engine forwarded no errors, so the context carries none
    assert_eq!(context.errors, None);
    assert_eq!(context.task_token, Some("token-1".to_string()));
    assert_eq!(context.state_name, Some("Await_Approval".to_string()));
    let artifacts = context.artifacts.unwrap();
    assert_eq!(artifacts[0].0, "event");
    assert_eq!(artifacts[1].0, "execution_id");
    assert_eq!(artifacts[1].1, jt("12345-asdf-1234"));
}

#[test]
fn test_build_socless_context_merges_forwarded_errors() {
    let event = SoclessLambdaInput {
        state_config: StateConfig {
            name: "Step".to_string(),
            parameters: Vec::new(),
            other: Vec::new(),
        },
        _testing: None,
        task_token: None,
        sfn_context: None,
        execution_id: Some("12345-asdf-1234".to_string()),
        artifacts: None,
        errors: Some(obj(vec![("New_Failure", jt("details"))])),
        other: Vec::new(),
    };
    let record = mock_execution_record();

    let context = build_socless_context(&event, Some(&record)).unwrap();
    assert_eq!(
        context.errors,
        Some(vec![
            ("Failed_Step".to_string(), jt("boom")),
            ("New_Failure".to_string(), jt("details")),
        ])
    );
}

#[test]
fn test_build_socless_context_requires_record() {
    let event = SoclessLambdaInput {
        state_config: StateConfig {
            name: "Step".to_string(),
            parameters: Vec::new(),
            other: Vec::new(),
        },
        _testing: None,
        task_token: None,
        sfn_context: None,
        execution_id: Some("12345-asdf-1234".to_string()),
        artifacts: None,
        errors: None,
        other: Vec::new(),
    };

    let result = build_socless_context(&event, None);
    assert_eq!(
        result,
        Err(SoclessError::NotFoundError {
            key: "12345-asdf-1234".to_string(),
            table: "SOCLESS_RESULTS_TABLE".to_string()
        })
    );
}

#[test]
fn test_build_socless_context_requires_execution_id() {
    let event = SoclessLambdaInput {
        state_config: StateConfig {
            name: "Step".to_string(),
            parameters: Vec::new(),
            other: Vec::new(),
        },
        _testing: None,
        task_token: None,
        sfn_context: None,
        execution_id: None,
        artifacts: None,
        errors: None,
        other: Vec::new(),
    };

    assert!(matches!(
        build_socless_context(&event, None),
        Err(SoclessError::MalformedError { .. })
    ));
}
