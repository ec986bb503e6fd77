use todo_app::handlers::{
    create_todo, delete_todo, fallback_response, get_todo, get_todos, internal_error,
    update_todo, HttpResponse, ServeOutcome,
};
use todo_app::models::Todo;

fn sample() -> Todo {
    Todo { id: 1, title: "Buy milk".to_string(), is_completed: false }
}

#[test]
fn internal_error_maps_to_500_with_the_message() {
    let (status, body) = internal_error("boom".to_string());
    assert_eq!(status, 500);
    assert_eq!(body, "boom");
}

#[test]
fn list_success_is_200_with_json_array() {
    let r = get_todos(Ok(vec![sample()]));
    assert_eq!(r.status, 200);
    assert_eq!(r.body, "[{\"id\":1,\"title\":\"Buy milk\",\"is_completed\":false}]");
}

#[test]
fn list_storage_failure_is_500_with_the_message() {
    let r = get_todos(Err("db down".to_string()));
    assert_eq!(r.status, 500);
    assert_eq!(r.body, "db down");
}

#[test]
fn get_present_is_200_with_the_object() {
    let r = get_todo(Ok(Some(sample())));
    assert_eq!(r.status, 200);
    assert_eq!(r.body, "{\"id\":1,\"title\":\"Buy milk\",\"is_completed\":false}");
}

#[test]
fn get_absent_is_200_with_null_not_404() {
    let r = get_todo(Ok(None));
    assert_eq!(r.status, 200);
    assert_eq!(r.body, "null");
}

#[test]
fn create_success_is_200_with_the_object() {
    let r = create_todo(Ok(sample()));
    assert_eq!(r.status, 200);
    assert_eq!(r.body, "{\"id\":1,\"title\":\"Buy milk\",\"is_completed\":false}");
}

#[test]
fn create_storage_failure_is_500() {
    let r = create_todo(Err("no connection".to_string()));
    assert_eq!(r.status, 500);
    assert_eq!(r.body, "no connection");
}

#[test]
fn update_absent_is_404_naming_the_id() {
    let r = update_todo(12, Ok(None));
    assert_eq!(r.status, 404);
    assert_eq!(r.body, "No todo item exists with id `12`");
}

#[test]
fn update_present_is_200_with_the_object() {
    let r = update_todo(1, Ok(Some(sample())));
    assert_eq!(r.status, 200);
    assert_eq!(r.body, "{\"id\":1,\"title\":\"Buy milk\",\"is_completed\":false}");
}

#[test]
fn delete_present_is_200_with_empty_body() {
    let r = delete_todo(1, Ok(true));
    assert_eq!(r.status, 200);
    assert_eq!(r.body, "");
}

#[test]
fn delete_absent_is_404_naming_the_id() {
    let r = delete_todo(3, Ok(false));
    assert_eq!(r.status, 404);
    assert_eq!(r.body, "No todo item exists with id `3` or todo item could not be deleted.");
}

#[test]
fn delete_storage_failure_is_500() {
    let r = delete_todo(3, Err("pool exhausted".to_string()));
    assert_eq!(r.status, 500);
    assert_eq!(r.body, "pool exhausted");
}

#[test]
fn fallback_serves_index_for_a_missing_file() {
    let r = fallback_response(ServeOutcome::Missing, Some("<html>index</html>".to_string()));
    assert_eq!(r.status, 200);
    assert_eq!(r.body, "<html>index</html>");
}

#[test]
fn fallback_without_index_is_404() {
    let r = fallback_response(ServeOutcome::Missing, None);
    assert_eq!(r.status, 404);
    assert_eq!(r.body, "Index file was not found.");
}

#[test]
fn fallback_passes_a_served_file_through() {
    let served = HttpResponse { status: 200, body: "asset".to_string() };
    let r = fallback_response(ServeOutcome::Found(served), None);
    assert_eq!(r.status, 200);
    assert_eq!(r.body, "asset");
}

#[test]
fn fallback_failure_is_500_with_the_error() {
    let r = fallback_response(ServeOutcome::Failed("denied".to_string()), None);
    assert_eq!(r.status, 500);
    assert_eq!(r.body, "error: denied");
}
