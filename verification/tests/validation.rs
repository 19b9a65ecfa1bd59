use todo_api::dto::UpdateTodoRequest;
use todo_api::service::{normalize_desc, normalize_title, normalize_update_payload, TodoError};

#[test]
fn normalize_title_should_fail_when_empty() {
    let result = normalize_title("   ".to_string());
    assert!(matches!(result, Err(TodoError::Validation(_))));
}

#[test]
fn normalize_update_payload_should_support_partial_update() {
    let payload = normalize_update_payload(UpdateTodoRequest {
        title: Some(" Updated ".to_string()),
        desc: None,
        iscompleted: Some(true),
    })
    .expect("payload should be valid");

    assert_eq!(payload.title, Some("Updated".to_string()));
    assert_eq!(payload.desc, None);
    assert_eq!(payload.iscompleted, Some(true));
}

#[test]
fn normalize_title_trims_and_returns_the_title() {
    let result = normalize_title("  hello world \n".to_string());
    assert_eq!(result.ok(), Some("hello world".to_string()));
}

#[test]
fn normalize_title_empty_message_is_exact() {
    match normalize_title(" \t ".to_string()) {
        Err(TodoError::Validation(m)) => assert_eq!(m, "title must not be empty"),
        _ => panic!("expected a validation error"),
    }
}

#[test]
fn normalize_title_accepts_exactly_200_characters() {
    let title = "x".repeat(200);
    assert_eq!(normalize_title(title.clone()).ok(), Some(title));
}

#[test]
fn normalize_title_rejects_201_characters() {
    match normalize_title("y".repeat(201)) {
        Err(TodoError::Validation(m)) => {
            assert_eq!(m, "title must be at most 200 characters")
        }
        _ => panic!("expected a validation error"),
    }
}

#[test]
fn normalize_title_counts_length_after_trimming() {
    let padded = format!("   {}   ", "z".repeat(200));
    assert_eq!(normalize_title(padded).ok(), Some("z".repeat(200)));
}

#[test]
fn normalize_title_counts_characters_not_bytes() {
    let title = "é".repeat(200);
    assert_eq!(normalize_title(title.clone()).ok(), Some(title));
}

#[test]
fn normalize_desc_counts_characters_not_bytes() {
    let desc = "é".repeat(2000);
    assert_eq!(normalize_desc(Some(desc.clone())).ok(), Some(Some(desc)));
}

#[test]
fn normalize_desc_passes_absent_and_short_values_through() {
    assert_eq!(normalize_desc(None).ok(), Some(None));
    let desc = "d".repeat(2000);
    assert_eq!(normalize_desc(Some(desc.clone())).ok(), Some(Some(desc)));
}

#[test]
fn normalize_desc_never_trims() {
    let desc = "  spaced out  ".to_string();
    assert_eq!(normalize_desc(Some(desc.clone())).ok(), Some(Some(desc)));
}

#[test]
fn normalize_desc_rejects_2001_characters() {
    match normalize_desc(Some("d".repeat(2001))) {
        Err(TodoError::Validation(m)) => {
            assert_eq!(m, "desc must be at most 2000 characters")
        }
        _ => panic!("expected a validation error"),
    }
}

#[test]
fn normalize_update_payload_checks_title_before_desc() {
    match normalize_update_payload(UpdateTodoRequest {
        title: Some("   ".to_string()),
        desc: Some("d".repeat(2001)),
        iscompleted: None,
    }) {
        Err(TodoError::Validation(m)) => assert_eq!(m, "title must not be empty"),
        _ => panic!("expected a validation error"),
    }
}

#[test]
fn normalize_update_payload_reports_long_desc() {
    match normalize_update_payload(UpdateTodoRequest {
        title: Some("fine".to_string()),
        desc: Some("d".repeat(2001)),
        iscompleted: None,
    }) {
        Err(TodoError::Validation(m)) => {
            assert_eq!(m, "desc must be at most 2000 characters")
        }
        _ => panic!("expected a validation error"),
    }
}

#[test]
fn normalize_update_payload_keeps_absent_fields_absent() {
    let payload = normalize_update_payload(UpdateTodoRequest {
        title: None,
        desc: None,
        iscompleted: None,
    })
    .expect("payload should be valid");
    assert_eq!(payload.title, None);
    assert_eq!(payload.desc, None);
    assert_eq!(payload.iscompleted, None);
}
