//! Request and response shapes of the todo API, and their conversions.

use vstd::prelude::*;

use crate::store::TodoRecord;

verus! {

/// Body of a create request. A missing description stays `None`.
#[derive(Debug)]
pub struct CreateTodoRequest {
    pub title: String,
    pub desc: Option<String>,
}

/// Body of a partial-update request; every field is optional, and an
/// absent field means "leave unchanged", not "clear".
#[derive(Debug)]
pub struct UpdateTodoRequest {
    pub title: Option<String>,
    pub desc: Option<String>,
    pub iscompleted: Option<bool>,
}

/// Validated changes handed to the store; `None` leaves the field
/// untouched.
#[derive(Debug)]
pub struct UpdateTodoPayload {
    pub title: Option<String>,
    pub desc: Option<String>,
    pub iscompleted: Option<bool>,
}

/// The todo row as it is sent back to the client; every field is always
/// present.
#[derive(Debug)]
pub struct TodoResponse {
    pub id: u128,
    pub user_id: u128,
    pub title: String,
    pub desc: Option<String>,
    pub iscompleted: bool,
    pub created_at: i64,
    pub updated_at: i64,
}

/// Wrapper around every successful response body.
#[derive(Debug)]
pub struct SuccessResponse<T> {
    pub data: T,
}

impl From<UpdateTodoRequest> for UpdateTodoPayload {
    /// Field-for-field move of an update request into a payload.
    fn from(value: UpdateTodoRequest) -> (r: Self) {
        UpdateTodoPayload { title: value.title, desc: value.desc, iscompleted: value.iscompleted }
    }
}

impl vstd::std_specs::convert::FromSpecImpl<UpdateTodoRequest> for UpdateTodoPayload {
    open spec fn obeys_from_spec() -> bool {
        true
    }

    open spec fn from_spec(value: UpdateTodoRequest) -> Self {
        UpdateTodoPayload { title: value.title, desc: value.desc, iscompleted: value.iscompleted }
    }
}

impl From<TodoRecord> for TodoResponse {
    /// Field-for-field mapping of a stored row to the response shape.
    fn from(value: TodoRecord) -> (r: Self) {
        TodoResponse {
            id: value.id,
            user_id: value.user_id,
            title: value.title,
            desc: value.desc,
            iscompleted: value.iscompleted,
            created_at: value.created_at,
            updated_at: value.updated_at,
        }
    }
}

impl vstd::std_specs::convert::FromSpecImpl<TodoRecord> for TodoResponse {
    open spec fn obeys_from_spec() -> bool {
        true
    }

    open spec fn from_spec(value: TodoRecord) -> Self {
        TodoResponse {
            id: value.id,
            user_id: value.user_id,
            title: value.title,
            desc: value.desc,
            iscompleted: value.iscompleted,
            created_at: value.created_at,
            updated_at: value.updated_at,
        }
    }
}

} // verus!
