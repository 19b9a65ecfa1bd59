//! The transport boundary's only translation: domain errors to HTTP
//! status and envelope, and the status codes of successful operations.

use vstd::prelude::*;
use vstd::string::StringExecFns;

use crate::error::ApiError;
use crate::service::TodoError;

verus! {

/// Status of a successful create.
pub const STATUS_CREATED: u16 = 201;

/// Status of a successful list, fetch or update.
pub const STATUS_OK: u16 = 200;

/// Status of a successful delete, which carries no body.
pub const STATUS_NO_CONTENT: u16 = 204;

/// The one exhaustive mapping from domain errors to API errors:
/// `Validation` keeps its message as a 400, `NotFound` becomes a generic
/// 404, and `Database` becomes a 500 whose message is replaced with a
/// fixed generic string — the raw cause never reaches a client.
pub fn map_todo_error(err: TodoError) -> (r: ApiError)
    ensures
        match err {
            TodoError::Validation(m) => r.status == 400 && r.code@ == "BAD_REQUEST"@ && r.message
                == m,
            TodoError::NotFound => r.status == 404 && r.code@ == "NOT_FOUND"@ && r.message@
                == "todo not found"@,
            TodoError::Database(_) => r.status == 500 && r.code@ == "INTERNAL_ERROR"@ && r.message@
                == "unexpected database error"@,
        },
{
    match err {
        TodoError::Validation(message) => ApiError::bad_request(message),
        TodoError::NotFound => ApiError::not_found(String::from_str("todo not found")),
        TodoError::Database(_) => ApiError::internal(
            String::from_str("unexpected database error"),
        ),
    }
}

} // verus!
