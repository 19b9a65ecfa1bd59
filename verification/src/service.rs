//! Input normalization and validation, the three-kind domain error
//! taxonomy, and the orchestration of store operations.

use vstd::prelude::*;
use vstd::string::StrSliceExecFns;

use crate::dto::{CreateTodoRequest, UpdateTodoPayload, UpdateTodoRequest};
use crate::store::{apply_update, TodoRecord, TodoStore};
use crate::text::{trim_spec, trim_str};

verus! {

/// Longest accepted title, counted in characters after trimming.
pub const MAX_TITLE_LEN: usize = 200;

/// Longest accepted description, counted in characters.
pub const MAX_DESC_LEN: usize = 2000;

/// The three domain error kinds; every storage failure collapses into
/// `Database`, whose text never reaches a client verbatim.
#[derive(Debug)]
pub enum TodoError {
    Validation(String),
    NotFound,
    Database(String),
}

/// A raw title is acceptable when its trimmed form is non-empty and at
/// most [`MAX_TITLE_LEN`] characters long.
pub open spec fn title_valid(raw: Seq<char>) -> bool {
    0 < trim_spec(raw).len() <= MAX_TITLE_LEN
}

/// A description is acceptable when absent, or at most
/// [`MAX_DESC_LEN`] characters long; it is never trimmed.
pub open spec fn desc_valid(raw: Option<String>) -> bool {
    raw is Some ==> raw->0@.len() <= MAX_DESC_LEN
}

/// An update request is acceptable when each present field is.
pub open spec fn update_request_valid(request: UpdateTodoRequest) -> bool {
    (request.title is Some ==> title_valid(request.title->0@)) && desc_valid(request.desc)
}

/// The exact complaint that title validation raises on a bad title.
pub open spec fn title_error_message(raw: Seq<char>) -> Seq<char> {
    if trim_spec(raw).len() == 0 {
        "title must not be empty"@
    } else {
        "title must be at most 200 characters"@
    }
}

/// Trim the title and enforce the length rule. Fails with `Validation`
/// exactly when the trimmed title is empty or longer than
/// [`MAX_TITLE_LEN`]; otherwise returns the trimmed title.
pub fn normalize_title(raw_title: String) -> (r: Result<String, TodoError>)
    ensures
        r is Ok <==> title_valid(raw_title@),
        match r {
            Ok(t) => t@ == trim_spec(raw_title@),
            Err(e) => match e {
                TodoError::Validation(m) => m@ == title_error_message(raw_title@),
                _ => false,
            },
        },
{
    let title = trim_str(raw_title.as_str());
    let n = title.as_str().unicode_len();
    if n == 0 {
        Err(TodoError::Validation("title must not be empty".to_owned()))
    } else if n > MAX_TITLE_LEN {
        Err(TodoError::Validation("title must be at most 200 characters".to_owned()))
    } else {
        Ok(title)
    }
}

/// Enforce the length rule on a description, if one was sent at all.
/// Fails with `Validation` exactly when a description is present and
/// longer than [`MAX_DESC_LEN`]; the value passes through untrimmed.
pub fn normalize_desc(raw_desc: Option<String>) -> (r: Result<Option<String>, TodoError>)
    ensures
        r is Ok <==> desc_valid(raw_desc),
        match r {
            Ok(d) => d == raw_desc,
            Err(e) => match e {
                TodoError::Validation(m) => m@ == "desc must be at most 2000 characters"@,
                _ => false,
            },
        },
{
    match raw_desc {
        Some(desc) => {
            if desc.as_str().unicode_len() > MAX_DESC_LEN {
                Err(TodoError::Validation("desc must be at most 2000 characters".to_owned()))
            } else {
                Ok(Some(desc))
            }
        },
        None => Ok(None),
    }
}

/// Validate only the fields present in an update request; absent fields
/// stay absent. The title rule is checked before the description rule.
pub fn normalize_update_payload(request: UpdateTodoRequest) -> (r: Result<
    UpdateTodoPayload,
    TodoError,
>)
    ensures
        r is Ok <==> update_request_valid(request),
        match r {
            Ok(p) => {
                &&& request.title is Some ==> p.title is Some && p.title->0@ == trim_spec(
                    request.title->0@,
                )
                &&& request.title is None ==> p.title is None
                &&& p.desc == request.desc
                &&& p.iscompleted == request.iscompleted
            },
            Err(e) => match e {
                TodoError::Validation(m) => if request.title is Some && !title_valid(
                    request.title->0@,
                ) {
                    m@ == title_error_message(request.title->0@)
                } else {
                    m@ == "desc must be at most 2000 characters"@
                },
                _ => false,
            },
        },
{
    let title = match request.title {
        Some(value) => match normalize_title(value) {
            Ok(t) => Some(t),
            Err(e) => {
                return Err(e);
            },
        },
        None => None,
    };
    let desc = match normalize_desc(request.desc) {
        Ok(d) => d,
        Err(e) => {
            return Err(e);
        },
    };
    Ok(UpdateTodoPayload { title, desc, iscompleted: request.iscompleted })
}

/// Relies on `uuid::Uuid::new_v4`, which draws a fresh random identifier;
/// nothing is promised of the value, and the store treats a clash like any
/// other key conflict. `new_v4` itself panics if the operating system's
/// random source fails; it takes no input, so no precondition can rule
/// that out.
#[verifier::external_body]
fn new_todo_id() -> u128 {
    uuid::Uuid::new_v4().as_u128()
}

/// Relies on `chrono::Utc::now`, the current wall-clock time, reduced to
/// microseconds since the Unix epoch; nothing is promised of the value.
/// `Utc::now` itself panics if the system clock reports a pre-epoch
/// time; it takes no input, so no precondition can rule that out.
#[verifier::external_body]
fn now_micros() -> i64 {
    chrono::Utc::now().timestamp_micros()
}

/// Create a todo from a request, with the fresh id and the creation time
/// passed in. Succeeds exactly when the request validates and the id is
/// not yet taken; on success the new row is appended, with
/// `created_at == updated_at == now` and completion off.
pub fn create_todo_with(
    store: &mut TodoStore,
    default_user_id: u128,
    request: CreateTodoRequest,
    id: u128,
    now: i64,
) -> (r: Result<TodoRecord, TodoError>)
    requires
        old(store).wf(),
    ensures
        final(store).wf(),
        final(store).users == old(store).users,
        r is Ok <==> title_valid(request.title@) && desc_valid(request.desc) && !old(
            store,
        ).has_todo_id(id),
        match r {
            Ok(rec) => {
                &&& rec.id == id
                &&& rec.user_id == default_user_id
                &&& rec.title@ == trim_spec(request.title@)
                &&& rec.desc == request.desc
                &&& !rec.iscompleted
                &&& rec.created_at == now
                &&& rec.updated_at == now
                &&& final(store).todos@ == old(store).todos@.push(rec)
            },
            Err(e) => *final(store) == *old(store) && match e {
                TodoError::Validation(m) => if !title_valid(request.title@) {
                    m@ == title_error_message(request.title@)
                } else {
                    !desc_valid(request.desc) && m@ == "desc must be at most 2000 characters"@
                },
                TodoError::Database(_) => title_valid(request.title@) && desc_valid(request.desc)
                    && old(store).has_todo_id(id),
                TodoError::NotFound => false,
            },
        },
{
    let title = match normalize_title(request.title) {
        Ok(t) => t,
        Err(e) => {
            return Err(e);
        },
    };
    let desc = match normalize_desc(request.desc) {
        Ok(d) => d,
        Err(e) => {
            return Err(e);
        },
    };
    proof {
        crate::text::lemma_trim_idempotent(request.title@);
    }
    match store.create_todo(default_user_id, title, desc, id, now) {
        Some(rec) => Ok(rec),
        None => Err(TodoError::Database("duplicate todo id".to_owned())),
    }
}

/// Create a todo after normalizing title and description, with a fresh
/// random id and the current time. Validation failures are reported
/// exactly; an id clash surfaces as a `Database` error, which can only
/// happen when the table already holds a row — on an empty table a valid
/// request is guaranteed to succeed.
pub fn create_todo(store: &mut TodoStore, default_user_id: u128, request: CreateTodoRequest) -> (r:
    Result<TodoRecord, TodoError>)
    requires
        old(store).wf(),
    ensures
        final(store).wf(),
        final(store).users == old(store).users,
        r is Err ==> *final(store) == *old(store),
        old(store).todos@.len() == 0 && title_valid(request.title@) && desc_valid(request.desc)
            ==> r is Ok,
        r matches Err(TodoError::Database(_)) ==> old(store).todos@.len() > 0,
        match r {
            Ok(rec) => {
                &&& title_valid(request.title@) && desc_valid(request.desc)
                &&& rec.user_id == default_user_id
                &&& rec.title@ == trim_spec(request.title@)
                &&& rec.desc == request.desc
                &&& !rec.iscompleted
                &&& rec.created_at == rec.updated_at
                &&& final(store).todos@ == old(store).todos@.push(rec)
            },
            Err(e) => match e {
                TodoError::Validation(m) => if !title_valid(request.title@) {
                    m@ == title_error_message(request.title@)
                } else {
                    !desc_valid(request.desc) && m@ == "desc must be at most 2000 characters"@
                },
                TodoError::Database(_) => title_valid(request.title@) && desc_valid(request.desc),
                TodoError::NotFound => false,
            },
        },
{
    let id = new_todo_id();
    let now = now_micros();
    create_todo_with(store, default_user_id, request, id, now)
}

/// All todos of the user, most recently created first. The model store
/// cannot fail a read, so the result is always `Ok`.
pub fn list_todos(store: &TodoStore, default_user_id: u128) -> (r: Result<
    Vec<TodoRecord>,
    TodoError,
>)
    requires
        store.wf(),
    ensures
        r is Ok,
        match r {
            Ok(items) => {
                &&& crate::store::sorted_by_created_desc(items@)
                &&& items@.to_multiset() == store.todos_of(default_user_id).to_multiset()
                &&& items@.len() == store.todos_of(default_user_id).len()
                &&& forall|i: int|
                    0 <= i < items@.len() ==> items@[i].user_id == default_user_id
            },
            Err(_) => false,
        },
{
    Ok(store.list_todos(default_user_id))
}

/// Fetch one todo in the user's scope. Fails with `NotFound` exactly when
/// no row with that id is owned by the user — whether the id was never
/// created or belongs to someone else.
pub fn get_todo(store: &TodoStore, default_user_id: u128, todo_id: u128) -> (r: Result<
    TodoRecord,
    TodoError,
>)
    requires
        store.wf(),
    ensures
        r is Ok <==> store.has_todo(default_user_id, todo_id),
        match r {
            Ok(rec) => rec.id == todo_id && rec.user_id == default_user_id
                && store.todos@.contains(rec),
            Err(e) => e is NotFound,
        },
{
    match store.find_todo_by_id(default_user_id, todo_id) {
        Some(rec) => Ok(rec),
        None => Err(TodoError::NotFound),
    }
}

/// Partially update a todo in the user's scope, with the mutation time
/// passed in. The scoped fetch comes first, so an unknown id fails with
/// `NotFound` even when the payload is also invalid; then the present
/// fields are validated and applied, and `updated_at` is refreshed.
pub fn update_todo_with(
    store: &mut TodoStore,
    default_user_id: u128,
    todo_id: u128,
    request: UpdateTodoRequest,
    now: i64,
) -> (r: Result<TodoRecord, TodoError>)
    requires
        old(store).wf(),
    ensures
        final(store).wf(),
        final(store).users == old(store).users,
        r is Ok <==> old(store).has_todo(default_user_id, todo_id) && update_request_valid(
            request,
        ),
        match r {
            Ok(rec) => exists|i: int|
                {
                    &&& 0 <= i < old(store).todos@.len()
                    &&& #[trigger] old(store).todos@[i].id == todo_id
                    &&& old(store).todos@[i].user_id == default_user_id
                    &&& rec.id == todo_id
                    &&& rec.user_id == default_user_id
                    &&& rec.created_at == old(store).todos@[i].created_at
                    &&& rec.updated_at == now
                    &&& request.title is Some ==> rec.title@ == trim_spec(request.title->0@)
                    &&& request.title is None ==> rec.title == old(store).todos@[i].title
                    &&& request.desc is Some ==> rec.desc == request.desc
                    &&& request.desc is None ==> rec.desc == old(store).todos@[i].desc
                    &&& request.iscompleted is Some ==> rec.iscompleted == request.iscompleted->0
                    &&& request.iscompleted is None ==> rec.iscompleted == old(
                        store,
                    ).todos@[i].iscompleted
                    &&& final(store).todos@ == old(store).todos@.update(i, rec)
                },
            Err(e) => *final(store) == *old(store) && match e {
                TodoError::NotFound => !old(store).has_todo(default_user_id, todo_id),
                TodoError::Validation(m) => old(store).has_todo(default_user_id, todo_id)
                    && !update_request_valid(request) && (if request.title is Some && !title_valid(
                    request.title->0@,
                ) {
                    m@ == title_error_message(request.title->0@)
                } else {
                    m@ == "desc must be at most 2000 characters"@
                }),
                TodoError::Database(_) => false,
            },
        },
{
    let existing = match store.find_todo_by_id(default_user_id, todo_id) {
        Some(rec) => rec,
        None => {
            return Err(TodoError::NotFound);
        },
    };
    let changes = match normalize_update_payload(request) {
        Ok(p) => p,
        Err(e) => {
            return Err(e);
        },
    };
    proof {
        assert(store.has_todo_id(todo_id)) by {
            let j = choose|j: int|
                0 <= j < store.todos@.len() && store.todos@[j] == existing;
            assert(store.todos@[j].id == todo_id);
        }
        if request.title is Some {
            crate::text::lemma_trim_idempotent(request.title->0@);
        }
    }
    match store.update_todo(todo_id, &changes, now) {
        Some(rec) => {
            proof {
                let i = choose|i: int|
                    0 <= i < old(store).todos@.len() && #[trigger] old(store).todos@[i].id
                        == todo_id && rec == apply_update(old(store).todos@[i], changes, now)
                        && store.todos@ == old(store).todos@.update(i, rec);
                let j = choose|j: int|
                    0 <= j < old(store).todos@.len() && old(store).todos@[j] == existing;
                assert(old(store).todos@[j].id == todo_id);
                assert(i == j);
                assert(old(store).todos@[i].user_id == default_user_id);
            }
            Ok(rec)
        },
        None => vstd::pervasive::unreached(),
    }
}

/// Partially update a todo in the user's scope, stamping the mutation
/// with the current time.
pub fn update_todo(
    store: &mut TodoStore,
    default_user_id: u128,
    todo_id: u128,
    request: UpdateTodoRequest,
) -> (r: Result<TodoRecord, TodoError>)
    requires
        old(store).wf(),
    ensures
        final(store).wf(),
        final(store).users == old(store).users,
        r is Ok <==> old(store).has_todo(default_user_id, todo_id) && update_request_valid(
            request,
        ),
        match r {
            Ok(rec) => exists|i: int|
                {
                    &&& 0 <= i < old(store).todos@.len()
                    &&& #[trigger] old(store).todos@[i].id == todo_id
                    &&& old(store).todos@[i].user_id == default_user_id
                    &&& rec.id == todo_id
                    &&& rec.user_id == default_user_id
                    &&& rec.created_at == old(store).todos@[i].created_at
                    &&& request.title is Some ==> rec.title@ == trim_spec(request.title->0@)
                    &&& request.title is None ==> rec.title == old(store).todos@[i].title
                    &&& request.desc is Some ==> rec.desc == request.desc
                    &&& request.desc is None ==> rec.desc == old(store).todos@[i].desc
                    &&& request.iscompleted is Some ==> rec.iscompleted == request.iscompleted->0
                    &&& request.iscompleted is None ==> rec.iscompleted == old(
                        store,
                    ).todos@[i].iscompleted
                    &&& final(store).todos@ == old(store).todos@.update(i, rec)
                },
            Err(e) => *final(store) == *old(store) && match e {
                TodoError::NotFound => !old(store).has_todo(default_user_id, todo_id),
                TodoError::Validation(m) => old(store).has_todo(default_user_id, todo_id)
                    && !update_request_valid(request) && (if request.title is Some && !title_valid(
                    request.title->0@,
                ) {
                    m@ == title_error_message(request.title->0@)
                } else {
                    m@ == "desc must be at most 2000 characters"@
                }),
                TodoError::Database(_) => false,
            },
        },
{
    let now = now_micros();
    update_todo_with(store, default_user_id, todo_id, request, now)
}

/// Delete a todo in the user's scope: `Ok` exactly when a row was
/// removed, `NotFound` otherwise — never a success for an unknown id.
/// Afterwards the scoped id is gone either way.
pub fn delete_todo(store: &mut TodoStore, default_user_id: u128, todo_id: u128) -> (r: Result<
    (),
    TodoError,
>)
    requires
        old(store).wf(),
    ensures
        final(store).wf(),
        final(store).users == old(store).users,
        r is Ok <==> old(store).has_todo(default_user_id, todo_id),
        !final(store).has_todo(default_user_id, todo_id),
        match r {
            Ok(_) => exists|i: int|
                0 <= i < old(store).todos@.len() && #[trigger] old(store).todos@[i].id == todo_id
                    && old(store).todos@[i].user_id == default_user_id
                    && final(store).todos@ == old(store).todos@.remove(i),
            Err(e) => e is NotFound && *final(store) == *old(store),
        },
{
    let deleted = store.delete_todo(default_user_id, todo_id);
    if !deleted {
        return Err(TodoError::NotFound);
    }
    Ok(())
}

} // verus!
