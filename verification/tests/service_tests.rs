use todo_app::handlers::{fallback_response, ServeOutcome};
use todo_app::models::UpdateTodo;
use todo_app::routes::Method;
use todo_app::service::handle_api_request;
use todo_app::store::TodoStore;

#[test]
fn end_to_end_create_list_delete_delete() {
    let mut store = TodoStore::new();

    let created = handle_api_request(&mut store, &Method::Post, "/api/todo/create", "Buy milk", None)
        .expect("an API route");
    assert_eq!(created.status, 200);
    assert_eq!(created.body, "{\"id\":1,\"title\":\"Buy milk\",\"is_completed\":false}");

    let listed = handle_api_request(&mut store, &Method::Get, "/api/todo/list", "", None)
        .expect("an API route");
    assert_eq!(listed.status, 200);
    assert_eq!(listed.body, "[{\"id\":1,\"title\":\"Buy milk\",\"is_completed\":false}]");

    let deleted = handle_api_request(&mut store, &Method::Delete, "/api/todo/1", "", None)
        .expect("an API route");
    assert_eq!(deleted.status, 200);
    assert_eq!(deleted.body, "");

    let again = handle_api_request(&mut store, &Method::Delete, "/api/todo/1", "", None)
        .expect("an API route");
    assert_eq!(again.status, 404);
    assert_eq!(again.body, "No todo item exists with id `1` or todo item could not be deleted.");
}

#[test]
fn get_by_id_answers_null_after_a_delete() {
    let mut store = TodoStore::new();
    handle_api_request(&mut store, &Method::Post, "/api/todo/create", "gone", None).unwrap();
    handle_api_request(&mut store, &Method::Delete, "/api/todo/1", "", None).unwrap();
    let got = handle_api_request(&mut store, &Method::Get, "/api/todo/1", "", None).unwrap();
    assert_eq!(got.status, 200);
    assert_eq!(got.body, "null");
}

#[test]
fn put_with_decoded_body_updates_the_row() {
    let mut store = TodoStore::new();
    handle_api_request(&mut store, &Method::Post, "/api/todo/create", "old", None).unwrap();
    let update = UpdateTodo { title: Some("new".to_string()), is_completed: None };
    let r = handle_api_request(&mut store, &Method::Put, "/api/todo/1", "", Some(update)).unwrap();
    assert_eq!(r.status, 200);
    assert_eq!(r.body, "{\"id\":1,\"title\":\"new\",\"is_completed\":false}");
}

#[test]
fn put_for_a_missing_id_is_404_naming_it() {
    let mut store = TodoStore::new();
    let update = UpdateTodo { title: Some("x".to_string()), is_completed: None };
    let r = handle_api_request(&mut store, &Method::Put, "/api/todo/9", "", Some(update)).unwrap();
    assert_eq!(r.status, 404);
    assert_eq!(r.body, "No todo item exists with id `9`");
}

#[test]
fn put_with_undecodable_body_is_400() {
    let mut store = TodoStore::new();
    handle_api_request(&mut store, &Method::Post, "/api/todo/create", "kept", None).unwrap();
    let r = handle_api_request(&mut store, &Method::Put, "/api/todo/1", "", None).unwrap();
    assert_eq!(r.status, 400);
    let listed = handle_api_request(&mut store, &Method::Get, "/api/todo/list", "", None).unwrap();
    assert_eq!(listed.body, "[{\"id\":1,\"title\":\"kept\",\"is_completed\":false}]");
}

#[test]
fn list_path_is_served_even_when_no_file_matches() {
    let mut store = TodoStore::new();
    let r = handle_api_request(&mut store, &Method::Get, "/api/todo/list", "", None);
    assert!(r.is_some(), "the list endpoint must never fall through to static serving");
}

#[test]
fn unmatched_path_falls_back_to_the_index_document() {
    let mut store = TodoStore::new();
    let api = handle_api_request(&mut store, &Method::Get, "/todos", "", None);
    assert!(api.is_none());
    let r = fallback_response(ServeOutcome::Missing, Some("<html>app</html>".to_string()));
    assert_eq!(r.status, 200);
    assert_eq!(r.body, "<html>app</html>");
}

#[test]
fn bad_id_segment_is_400() {
    let mut store = TodoStore::new();
    let r = handle_api_request(&mut store, &Method::Get, "/api/todo/abc", "", None).unwrap();
    assert_eq!(r.status, 400);
}

#[test]
fn wrong_method_on_a_bound_path_is_405() {
    let mut store = TodoStore::new();
    let r = handle_api_request(&mut store, &Method::Put, "/api/todo/create", "", None).unwrap();
    assert_eq!(r.status, 405);
}

#[test]
fn created_response_round_trips_through_a_json_parser() {
    let mut store = TodoStore::new();
    let r = handle_api_request(&mut store, &Method::Post, "/api/todo/create", "A", None).unwrap();
    assert_eq!(r.status, 200);
    let v: serde_json::Value = serde_json::from_str(&r.body).expect("the response must be JSON");
    assert!(v["id"].as_i64().is_some(), "the id must be a populated integer");
    assert_eq!(v["id"].as_i64(), Some(1));
    assert_eq!(v["title"].as_str(), Some("A"));
    assert_eq!(v["is_completed"].as_bool(), Some(false));
}
