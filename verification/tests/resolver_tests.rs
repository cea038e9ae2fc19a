use socless::json::JsonValue;
use socless::resolver::{
    resolve_parameters, resolve_reference, SoclessContext, SoclessLambdaInput, Vault,
};
use socless::SoclessError;

fn jt(s: &str) -> JsonValue {
    JsonValue::Text(s.to_string())
}

fn obj(entries: Vec<(&str, JsonValue)>) -> JsonValue {
    JsonValue::Obj(
        entries
            .into_iter()
            .map(|(k, v)| (k.to_string(), v))
            .collect(),
    )
}

/// The root object most resolver tests run against.
fn build_mock_root_obj() -> SoclessContext {
    let details = obj(vec![
        ("firstname", jt("Sterling")),
        ("middlename", jt("Malory")),
        ("lastname", jt("Archer")),
        ("a_map", obj(vec![("jfutz", jt("littleboyblew"))])),
        ("vault_test", jt("vault:socless_vault_tests.txt")),
    ]);
    let event = obj(vec![("details", details)]);
    let artifacts = match obj(vec![("event", event)]) {
        JsonValue::Obj(entries) => entries,
        _ => unreachable!(),
    };
    SoclessContext {
        execution_id: None,
        artifacts: Some(artifacts),
        results: None,
        errors: None,
        task_token: None,
        state_name: None,
        other: Vec::new(),
    }
}

/// The invocation event most input tests run against, in the field order
/// the payload serializes back to.
fn mock_event_value_boilerplate() -> JsonValue {
    let details = obj(vec![
        ("firstname", jt("Sterling")),
        ("middlename", jt("Malory")),
        ("lastname", jt("Archer")),
        ("a_map", obj(vec![("jfutz", jt("littleboyblew"))])),
    ]);
    let event = obj(vec![
        ("id", jt("1234-45678-abcd")),
        ("investigation_id", jt("1234-45678-abcd")),
        ("status_", jt("open")),
        ("is_duplicate", JsonValue::Bool(false)),
        ("created_at", jt("2021-01-16T00:57:06.573112Z")),
        ("event_type", jt("mock_test_event")),
        ("playbook", jt("MockTestPlaybook")),
        ("details", details),
        ("data_types", obj(vec![])),
        ("event_meta", obj(vec![])),
    ]);
    let state_config = obj(vec![
        ("Name", jt("Authenticate_User")),
        (
            "Parameters",
            obj(vec![
                ("firstname", jt("$.artifacts.event.details.firstname")),
                ("lastname", jt("$.artifacts.event.details.lastname")),
                ("middlename", jt("Malory")),
                (
                    "acquaintances",
                    JsonValue::Arr(vec![obj(vec![
                        ("firstname", jt("$.artifacts.event.details.middlename")),
                        ("lastname", jt("$.artifacts.event.details.lastname")),
                    ])]),
                ),
            ]),
        ),
    ]);
    obj(vec![
        ("State_Config", state_config),
        ("execution_id", jt("98123-1234567")),
        (
            "artifacts",
            obj(vec![("event", event), ("execution_id", jt("98123-1234567"))]),
        ),
    ])
}

#[test]
fn test_build_socless_event_struct_from_direct_invoke() {
    let mock_event_data = obj(vec![("user_id", jt("U12345")), ("channel_id", jt("C123458"))]);

    let test = SoclessLambdaInput::from_json(mock_event_data).unwrap();
    assert_eq!(test.state_config.name, "direct_invoke");
    assert_eq!(test._testing, Some(true));
    assert_eq!(test.state_config.parameters.len(), 2);
}

#[test]
fn test_resolve_jsonpath_string() {
    let mock_root_obj = build_mock_root_obj();
    let vault = Vault::new();

    let result = resolve_reference(
        &jt("$.artifacts.event.details.firstname"),
        &mock_root_obj,
        &vault,
    )
    .unwrap();
    assert_eq!(result, jt("Sterling"));
}

#[test]
fn test_resolve_jsonpath_map() {
    let mock_root_obj = build_mock_root_obj();
    let vault = Vault::new();

    let result = resolve_reference(
        &jt("$.artifacts.event.details.a_map"),
        &mock_root_obj,
        &vault,
    )
    .unwrap();
    assert_eq!(result, obj(vec![("jfutz", jt("littleboyblew"))]));
}

#[test]
fn test_resolve_reference_string_passthrough() {
    let mock_root_obj = build_mock_root_obj();
    let vault = Vault::new();

    let result = resolve_reference(&jt("hello"), &mock_root_obj, &vault).unwrap();
    assert_eq!(result, jt("hello"));
}

#[test]
fn test_resolve_reference_jsonpath_map() {
    let mock_root_obj = build_mock_root_obj();
    let vault = Vault::new();

    let result = resolve_reference(
        &jt("$.artifacts.event.details.a_map"),
        &mock_root_obj,
        &vault,
    )
    .unwrap();
    assert_eq!(result, obj(vec![("jfutz", jt("littleboyblew"))]));
}

#[test]
fn test_resolve_reference_jsonpath_map_2() {
    let mock_root_obj = build_mock_root_obj();
    let vault = Vault::new();

    let result = resolve_reference(
        &obj(vec![("firstname", jt("$.artifacts.event.details.firstname"))]),
        &mock_root_obj,
        &vault,
    )
    .unwrap();
    assert_eq!(result, obj(vec![("firstname", jt("Sterling"))]));
}

#[test]
fn test_resolve_reference_array_passthrough() {
    let mock_root_obj = build_mock_root_obj();
    let vault = Vault::new();

    let result =
        resolve_reference(&JsonValue::Arr(vec![jt("test")]), &mock_root_obj, &vault).unwrap();
    assert_eq!(result, JsonValue::Arr(vec![jt("test")]));
}

#[test]
fn test_resolve_reference_jsonpath_nested_array() {
    let mock_root_obj = build_mock_root_obj();
    let vault = Vault::new();

    let result = resolve_reference(
        &JsonValue::Arr(vec![
            obj(vec![("firstname", jt("$.artifacts.event.details.firstname"))]),
            jt("$.artifacts.event.details.lastname"),
        ]),
        &mock_root_obj,
        &vault,
    )
    .unwrap();
    assert_eq!(
        result,
        JsonValue::Arr(vec![obj(vec![("firstname", jt("Sterling"))]), jt("Archer")])
    );
}

#[test]
fn test_resolve_state_config_parameters() {
    let mock_root_obj = build_mock_root_obj();
    let vault = Vault::new();
    let mut event_with_state_config =
        SoclessLambdaInput::from_json(mock_event_value_boilerplate()).unwrap();

    event_with_state_config
        .resolve_state_config_parameters(&mock_root_obj, &vault)
        .unwrap();

    let expected = vec![
        ("firstname".to_string(), jt("Sterling")),
        ("lastname".to_string(), jt("Archer")),
        ("middlename".to_string(), jt("Malory")),
        (
            "acquaintances".to_string(),
            JsonValue::Arr(vec![obj(vec![
                ("firstname", jt("Malory")),
                ("lastname", jt("Archer")),
            ])]),
        ),
    ];
    assert_eq!(event_with_state_config.state_config.parameters, expected);
}

#[test]
fn test_build_socless_boilerplate_with_complete_event_already_set_up() {
    let event_with_state_config =
        SoclessLambdaInput::from_json(mock_event_value_boilerplate()).unwrap();
    assert_eq!(
        event_with_state_config.to_json(),
        mock_event_value_boilerplate()
    );
}

#[test]
fn test_resolve_vault_reference() {
    let mock_root_obj = build_mock_root_obj();
    let mut vault = Vault::new();
    vault.add(
        "socless_vault_tests.txt".to_string(),
        "this came out of the vault".to_string(),
    );

    let result =
        resolve_reference(&jt("vault:socless_vault_tests.txt"), &mock_root_obj, &vault).unwrap();
    assert_eq!(result, jt("this came out of the vault"));
}

#[test]
fn test_resolve_vault_reference_not_fetched_yet() {
    let mock_root_obj = build_mock_root_obj();
    let vault = Vault::new();

    let result = resolve_reference(&jt("vault:socless_vault_tests.txt"), &mock_root_obj, &vault);
    assert_eq!(
        result,
        Err(SoclessError::VaultKeyUnavailable {
            key: "socless_vault_tests.txt".to_string()
        })
    );
}

#[test]
fn test_resolve_vault_reference_one_hop_removed() {
    // a path whose value is itself a vault pointer is fetched transparently
    let mock_root_obj = build_mock_root_obj();
    let mut vault = Vault::new();
    vault.add(
        "socless_vault_tests.txt".to_string(),
        "indirect content".to_string(),
    );

    let result = resolve_reference(
        &jt("$.artifacts.event.details.vault_test"),
        &mock_root_obj,
        &vault,
    )
    .unwrap();
    assert_eq!(result, jt("indirect content"));
}

#[test]
fn test_resolve_conversion_marker_is_stripped() {
    let mock_root_obj = build_mock_root_obj();
    let vault = Vault::new();

    let result = resolve_reference(
        &jt("$.artifacts.event.details.firstname!json"),
        &mock_root_obj,
        &vault,
    )
    .unwrap();
    assert_eq!(result, jt("Sterling"));
}

#[test]
fn test_resolve_missing_path_fails() {
    let mock_root_obj = build_mock_root_obj();
    let vault = Vault::new();

    let result = resolve_reference(
        &jt("$.artifacts.event.details.nickname"),
        &mock_root_obj,
        &vault,
    );
    assert_eq!(
        result,
        Err(SoclessError::ResolutionError {
            key: "nickname".to_string(),
            path: "$.artifacts.event.details.nickname".to_string()
        })
    );
}

#[test]
fn test_resolve_parameters_mixed() {
    let mock_root_obj = build_mock_root_obj();
    let vault = Vault::new();
    let params = vec![
        (
            "firstname".to_string(),
            jt("$.artifacts.event.details.firstname"),
        ),
        ("literal".to_string(), jt("just text")),
        ("count".to_string(), JsonValue::Num("3".to_string())),
    ];

    let resolved = resolve_parameters(&params, &mock_root_obj, &vault).unwrap();
    assert_eq!(
        resolved,
        vec![
            ("firstname".to_string(), jt("Sterling")),
            ("literal".to_string(), jt("just text")),
            ("count".to_string(), JsonValue::Num("3".to_string())),
        ]
    );
}

#[test]
fn test_from_json_rebuilds_from_carried_workflow_context() {
    // an invocation carrying a pause token is rebuilt from the workflow
    // context it carries, keeping the token
    let carried = mock_event_value_boilerplate();
    let event = obj(vec![
        (
            "State_Config",
            obj(vec![("Name", jt("Await_Approval")), ("Parameters", obj(vec![]))]),
        ),
        ("task_token", jt("await-token-1")),
        ("sfn_context", carried),
    ]);

    let input = SoclessLambdaInput::from_json(event).unwrap();
    assert_eq!(input.task_token, Some("await-token-1".to_string()));
    assert_eq!(input.state_config.name, "Authenticate_User");
    assert_eq!(input.execution_id, Some("98123-1234567".to_string()));
    assert_eq!(input._testing, None);
}

#[test]
fn test_from_json_requires_carried_context_with_token() {
    let event = obj(vec![
        (
            "State_Config",
            obj(vec![("Name", jt("Await_Approval")), ("Parameters", obj(vec![]))]),
        ),
        ("task_token", jt("await-token-1")),
    ]);

    let result = SoclessLambdaInput::from_json(event);
    assert!(matches!(result, Err(SoclessError::MalformedError { .. })));
}

#[test]
fn test_from_json_falls_back_to_direct_invoke_on_malformed_declaration() {
    // when the event does not have the declared invocation shape, the
    // whole event becomes the parameters of a direct invocation
    let event = obj(vec![("State_Config", jt("bogus"))]);

    let input = SoclessLambdaInput::from_json(event).unwrap();
    assert_eq!(input.state_config.name, "direct_invoke");
    assert_eq!(
        input.state_config.parameters,
        vec![("State_Config".to_string(), jt("bogus"))]
    );
    assert_eq!(input._testing, Some(true));
}
