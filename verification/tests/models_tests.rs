use socless::json::JsonValue;
use socless::models::{parse_results_table_item, EventTableItem};
use socless::SoclessEvent;

fn jt(s: &str) -> JsonValue {
    JsonValue::Text(s.to_string())
}

fn obj(entries: Vec<(&str, JsonValue)>) -> JsonValue {
    JsonValue::Obj(
        entries
            .into_iter()
            .map(|(k, v)| (k.to_string(), v))
            .collect(),
    )
}

#[test]
fn test_results_table_struct() {
    let mock_event_data = obj(vec![
        ("datetime", jt("2021-02-02T16:19:53.032610Z")),
        ("execution_id", jt("12345-asdf-1234")),
        ("investigation_id", jt("987654-98765")),
        (
            "results",
            obj(vec![
                (
                    "artifacts",
                    obj(vec![
                        (
                            "event",
                            obj(vec![
                                ("created_at", jt("2021-02-02T16:19:52.567359Z")),
                                ("data_types", obj(vec![])),
                                (
                                    "details",
                                    obj(vec![
                                        ("assignee", jt("jfutz")),
                                        ("attachment_name", jt("test_attachment.txt")),
                                    ]),
                                ),
                                ("event_meta", obj(vec![])),
                                ("event_type", jt("mock_testing_event")),
                                ("id", jt("987654-98765")),
                                ("investigation_id", jt("987654-98765")),
                                ("is_duplicate", JsonValue::Bool(false)),
                                ("playbook", jt("MockTestingPlaybook")),
                                ("status_", jt("open")),
                            ]),
                        ),
                        ("execution_id", jt("12345-asdf-1234")),
                    ]),
                ),
                ("errors", obj(vec![])),
                (
                    "results",
                    obj(vec![
                        (
                            "_Last_Saved_Results",
                            obj(vec![("result", jt("success"))]),
                        ),
                        (
                            "Add_Comment",
                            obj(vec![
                                (
                                    "author",
                                    obj(vec![
                                        ("active", JsonValue::Bool(true)),
                                        ("displayName", jt("jfutz")),
                                        ("emailAddress", jt("littleboyblew@kronish.com")),
                                        ("key", jt("sumthin")),
                                        ("name", jt("sumthin")),
                                        ("timeZone", jt("America/Los_Angeles")),
                                    ]),
                                ),
                                ("body", jt("this is an added comment")),
                                ("created", jt("2021-02-02T16:20:17.747+0000")),
                            ]),
                        ),
                        ("Add_Labels", obj(vec![("status", jt("success"))])),
                        (
                            "Assign_Ticket",
                            obj(vec![
                                ("status", jt("success")),
                                ("username", jt("jfutz")),
                            ]),
                        ),
                    ]),
                ),
            ]),
        ),
    ]);

    let mock_results_table_item = parse_results_table_item(&mock_event_data).unwrap();
    assert_eq!(mock_results_table_item.execution_id, "12345-asdf-1234");
    assert_eq!(mock_results_table_item.investigation_id, "987654-98765");
    assert_eq!(
        mock_results_table_item.results.artifacts.event.playbook,
        "MockTestingPlaybook"
    );
}

#[test]
fn test_results_table_parse_rejects_missing_field() {
    let missing_results = obj(vec![
        ("datetime", jt("2021-02-02T16:19:53.032610Z")),
        ("execution_id", jt("12345-asdf-1234")),
        ("investigation_id", jt("987654-98765")),
    ]);
    assert!(parse_results_table_item(&missing_results).is_none());
}

#[test]
fn test_event_table_item_from_event_drops_dedup_keys() {
    let event = SoclessEvent {
        id: "id-1".to_string(),
        investigation_id: "id-1".to_string(),
        status_: "open".to_string(),
        is_duplicate: false,
        created_at: "2021-02-02T16:19:52.567359Z".to_string(),
        event_type: "mock_testing_event".to_string(),
        playbook: "MockTestingPlaybook".to_string(),
        details: vec![("assignee".to_string(), jt("jfutz"))],
        data_types: Vec::new(),
        event_meta: Vec::new(),
        dedup_keys: vec!["assignee".to_string()],
    };

    let item = EventTableItem::from(event);
    assert_eq!(item.id, "id-1");
    assert_eq!(item.details, vec![("assignee".to_string(), jt("jfutz"))]);
}
