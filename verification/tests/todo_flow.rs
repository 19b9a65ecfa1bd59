use todo_api::dto::{CreateTodoRequest, TodoResponse, UpdateTodoRequest};
use todo_api::handler::{map_todo_error, STATUS_CREATED, STATUS_NO_CONTENT, STATUS_OK};
use todo_api::service::{
    create_todo, create_todo_with, delete_todo, get_todo, list_todos, update_todo,
    update_todo_with, TodoError,
};
use todo_api::store::TodoStore;

const USER: u128 = 1;
const OTHER_USER: u128 = 2;

fn store_with_user() -> TodoStore {
    let mut store = TodoStore::new();
    store.ensure_default_user(USER);
    store
}

#[test]
fn todo_crud_flow_should_succeed() {
    let mut store = store_with_user();

    let created = create_todo_with(
        &mut store,
        USER,
        CreateTodoRequest {
            title: "integration todo".to_string(),
            desc: Some("from test".to_string()),
        },
        10,
        1_000,
    )
    .expect("create should succeed");
    assert_eq!(created.title, "integration todo");
    assert_eq!(created.desc, Some("from test".to_string()));
    assert!(!created.iscompleted);

    let fetched = get_todo(&store, USER, created.id).expect("todo must be fetchable");
    assert_eq!(fetched.title, "integration todo");

    let updated = update_todo_with(
        &mut store,
        USER,
        created.id,
        UpdateTodoRequest {
            title: Some("integration todo updated".to_string()),
            desc: None,
            iscompleted: Some(true),
        },
        2_000,
    )
    .expect("update should succeed");
    assert!(updated.iscompleted);
    assert_eq!(updated.title, "integration todo updated");

    delete_todo(&mut store, USER, created.id).expect("delete should succeed");
    let after = get_todo(&store, USER, created.id);
    assert!(matches!(after, Err(TodoError::NotFound)));
}

#[test]
fn delete_unknown_todo_should_return_404() {
    let mut store = store_with_user();
    let result = delete_todo(&mut store, USER, 999);
    let err = result.expect_err("deleting an unknown id must fail");
    let api = map_todo_error(err);
    assert_eq!(api.status, 404);
    assert_eq!(api.code, "NOT_FOUND");
}

#[test]
fn update_invalid_payload_should_return_400() {
    let mut store = store_with_user();
    let created = create_todo_with(
        &mut store,
        USER,
        CreateTodoRequest {
            title: "todo for invalid update".to_string(),
            desc: None,
        },
        10,
        1_000,
    )
    .expect("create should succeed");

    let result = update_todo_with(
        &mut store,
        USER,
        created.id,
        UpdateTodoRequest {
            title: Some("   ".to_string()),
            desc: None,
            iscompleted: None,
        },
        2_000,
    );
    let err = result.expect_err("whitespace title must fail");
    let api = map_todo_error(err);
    assert_eq!(api.status, 400);
    assert_eq!(api.code, "BAD_REQUEST");

    let unchanged = get_todo(&store, USER, created.id).expect("row must still exist");
    assert_eq!(unchanged.title, "todo for invalid update");
    assert_eq!(unchanged.updated_at, 1_000);
}

#[test]
fn creating_a_todo_defaults_to_not_completed() {
    let mut store = store_with_user();
    let created = create_todo(
        &mut store,
        USER,
        CreateTodoRequest {
            title: "integration todo".to_string(),
            desc: Some("from test".to_string()),
        },
    )
    .expect("create should succeed");
    assert!(!created.iscompleted);
    assert_eq!(created.title, "integration todo");
    assert_eq!(created.created_at, created.updated_at);
    assert_eq!(STATUS_CREATED, 201);
}

#[test]
fn fetching_unknown_or_foreign_todo_yields_not_found() {
    let mut store = store_with_user();
    store.ensure_default_user(OTHER_USER);
    let created = create_todo_with(
        &mut store,
        OTHER_USER,
        CreateTodoRequest {
            title: "not yours".to_string(),
            desc: None,
        },
        77,
        1_000,
    )
    .expect("create should succeed");

    let missing = get_todo(&store, USER, 12345);
    let foreign = get_todo(&store, USER, created.id);
    for result in [missing, foreign] {
        let api = map_todo_error(result.expect_err("lookup must fail"));
        assert_eq!(api.status, 404);
        assert_eq!(api.code, "NOT_FOUND");
    }
}

#[test]
fn partial_update_changes_only_completion_and_updated_at() {
    let mut store = store_with_user();
    let created = create_todo_with(
        &mut store,
        USER,
        CreateTodoRequest {
            title: "stable title".to_string(),
            desc: Some("stable desc".to_string()),
        },
        5,
        1_000,
    )
    .expect("create should succeed");

    let updated = update_todo_with(
        &mut store,
        USER,
        created.id,
        UpdateTodoRequest {
            title: None,
            desc: None,
            iscompleted: Some(true),
        },
        9_000,
    )
    .expect("update should succeed");

    assert!(updated.iscompleted);
    assert_eq!(updated.title, "stable title");
    assert_eq!(updated.desc, Some("stable desc".to_string()));
    assert_eq!(updated.created_at, 1_000);
    assert_eq!(updated.updated_at, 9_000);
    assert_eq!(STATUS_OK, 200);
}

#[test]
fn list_returns_exactly_the_users_todos_most_recent_first() {
    let mut store = store_with_user();
    store.ensure_default_user(OTHER_USER);
    for (id, at) in [(1u128, 10i64), (2, 30), (3, 20)] {
        create_todo_with(
            &mut store,
            USER,
            CreateTodoRequest {
                title: format!("todo {id}"),
                desc: None,
            },
            id,
            at,
        )
        .expect("create should succeed");
    }
    create_todo_with(
        &mut store,
        OTHER_USER,
        CreateTodoRequest {
            title: "foreign".to_string(),
            desc: None,
        },
        99,
        40,
    )
    .expect("create should succeed");

    let items = list_todos(&store, USER).expect("list cannot fail");
    assert_eq!(items.len(), 3);
    let ids: Vec<u128> = items.iter().map(|t| t.id).collect();
    assert_eq!(ids, vec![2, 3, 1]);
    assert!(items.iter().all(|t| t.user_id == USER));
}

#[test]
fn deleting_twice_reports_not_found_the_second_time() {
    let mut store = store_with_user();
    let created = create_todo_with(
        &mut store,
        USER,
        CreateTodoRequest {
            title: "short lived".to_string(),
            desc: None,
        },
        8,
        1_000,
    )
    .expect("create should succeed");

    assert!(delete_todo(&mut store, USER, created.id).is_ok());
    let again = delete_todo(&mut store, USER, created.id);
    assert!(matches!(again, Err(TodoError::NotFound)));
    assert_eq!(STATUS_NO_CONTENT, 204);
}

#[test]
fn duplicate_id_surfaces_as_internal_error() {
    let mut store = store_with_user();
    let request = || CreateTodoRequest {
        title: "same id".to_string(),
        desc: None,
    };
    create_todo_with(&mut store, USER, request(), 4, 1_000).expect("first create should succeed");
    let clash = create_todo_with(&mut store, USER, request(), 4, 2_000);
    let err = clash.expect_err("second create with the same id must fail");
    let api = map_todo_error(err);
    assert_eq!(api.status, 500);
    assert_eq!(api.message, "unexpected database error");
}

#[test]
fn ensure_default_user_twice_keeps_one_row() {
    let mut store = TodoStore::new();
    store.ensure_default_user(USER);
    store.ensure_default_user(USER);
    assert_eq!(store.users.len(), 1);
    assert_eq!(store.users[0].id, USER);
}

#[test]
fn ensure_default_user_derives_the_row_content() {
    let mut store = TodoStore::new();
    store.ensure_default_user(USER);
    let row = &store.users[0];
    assert_eq!(row.id, USER);
    assert_eq!(
        row.email,
        "default-00000000-0000-0000-0000-000000000001@local.todo"
    );
    assert_eq!(row.password_hash, "no-auth-yet");
    assert_eq!(row.full_name, "Default User");
}

#[test]
fn update_of_unknown_id_fails_before_validation() {
    let mut store = store_with_user();
    let result = update_todo(
        &mut store,
        USER,
        31337,
        UpdateTodoRequest {
            title: Some("   ".to_string()),
            desc: None,
            iscompleted: None,
        },
    );
    assert!(matches!(result, Err(TodoError::NotFound)));
}

#[test]
fn todo_response_mirrors_the_record() {
    let mut store = store_with_user();
    let created = create_todo_with(
        &mut store,
        USER,
        CreateTodoRequest {
            title: "mapped".to_string(),
            desc: Some("fields".to_string()),
        },
        21,
        1_234,
    )
    .expect("create should succeed");

    let response = TodoResponse::from(created);
    assert_eq!(response.id, 21);
    assert_eq!(response.user_id, USER);
    assert_eq!(response.title, "mapped");
    assert_eq!(response.desc, Some("fields".to_string()));
    assert!(!response.iscompleted);
    assert_eq!(response.created_at, 1_234);
    assert_eq!(response.updated_at, 1_234);
}
