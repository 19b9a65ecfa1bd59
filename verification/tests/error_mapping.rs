use todo_api::dto::{SuccessResponse, TodoResponse, UpdateTodoPayload, UpdateTodoRequest};
use todo_api::error::ApiError;
use todo_api::handler::map_todo_error;
use todo_api::service::TodoError;

#[test]
fn validation_errors_become_bad_requests_with_their_message() {
    let api = map_todo_error(TodoError::Validation("title must not be empty".to_string()));
    assert_eq!(api.status, 400);
    assert_eq!(api.code, "BAD_REQUEST");
    assert_eq!(api.message, "title must not be empty");
}

#[test]
fn not_found_becomes_a_generic_404() {
    let api = map_todo_error(TodoError::NotFound);
    assert_eq!(api.status, 404);
    assert_eq!(api.code, "NOT_FOUND");
    assert_eq!(api.message, "todo not found");
}

#[test]
fn database_errors_become_500_and_the_cause_is_hidden() {
    let api = map_todo_error(TodoError::Database(
        "connection reset by peer".to_string(),
    ));
    assert_eq!(api.status, 500);
    assert_eq!(api.code, "INTERNAL_ERROR");
    assert_eq!(api.message, "unexpected database error");
}

#[test]
fn the_envelope_carries_code_and_message() {
    let api = ApiError::bad_request("nope".to_string());
    let (status, envelope) = api.into_envelope();
    assert_eq!(status, 400);
    assert_eq!(envelope.error.code, "BAD_REQUEST");
    assert_eq!(envelope.error.message, "nope");
}

#[test]
fn success_envelope_wraps_the_payload() {
    let envelope = SuccessResponse {
        data: TodoResponse {
            id: 1,
            user_id: 2,
            title: "wrapped".to_string(),
            desc: None,
            iscompleted: false,
            created_at: 3,
            updated_at: 3,
        },
    };
    assert_eq!(envelope.data.title, "wrapped");
    assert_eq!(envelope.data.user_id, 2);
}

#[test]
fn update_payload_from_request_moves_every_field() {
    let payload = UpdateTodoPayload::from(UpdateTodoRequest {
        title: Some("t".to_string()),
        desc: Some("d".to_string()),
        iscompleted: Some(false),
    });
    assert_eq!(payload.title, Some("t".to_string()));
    assert_eq!(payload.desc, Some("d".to_string()));
    assert_eq!(payload.iscompleted, Some(false));
}
