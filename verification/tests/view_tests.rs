use todo_app::models::Todo;
use todo_app::view::{
    client_route, fetch_create_error, fetch_list_error, needs_fetch, step, Route, ViewAction,
    ViewEvent,
};

#[test]
fn view_starts_by_fetching() {
    assert!(needs_fetch(&None));
    assert!(!needs_fetch(&Some(Ok(Vec::new()))));
    assert!(!needs_fetch(&Some(Err("x".to_string()))));
}

#[test]
fn finished_fetch_is_stored() {
    let rows = vec![Todo { id: 1, title: "a".to_string(), is_completed: false }];
    let (state, action) = step(None, ViewEvent::FetchFinished(Ok(rows)));
    assert!(matches!(action, ViewAction::Idle));
    match state {
        Some(Ok(ts)) => {
            assert_eq!(ts.len(), 1);
            assert_eq!(ts[0].title, "a");
        },
        _ => panic!("the fetched rows must be stored"),
    }
}

#[test]
fn failed_fetch_is_stored_as_the_message() {
    let (state, _) = step(None, ViewEvent::FetchFinished(Err("offline".to_string())));
    match state {
        Some(Err(msg)) => assert_eq!(msg, "offline"),
        _ => panic!("the failure message must be stored"),
    }
}

#[test]
fn create_click_sends_the_fixed_title_and_forces_a_refetch() {
    let loaded = Some(Ok(Vec::new()));
    let (state, action) = step(loaded, ViewEvent::CreateClicked);
    assert!(state.is_none(), "the cached list must be dropped");
    match action {
        ViewAction::SendCreate(title) => assert_eq!(title, "New Todo"),
        _ => panic!("a create request must be sent"),
    }
}

#[test]
fn delete_click_sends_the_id_and_forces_a_refetch() {
    let loaded = Some(Ok(Vec::new()));
    let (state, action) = step(loaded, ViewEvent::DeleteClicked(4));
    assert!(state.is_none());
    match action {
        ViewAction::SendDelete(id) => assert_eq!(id, 4),
        _ => panic!("a delete request must be sent"),
    }
}

#[test]
fn fetch_error_messages_name_the_status_line() {
    assert_eq!(fetch_list_error(500, "Internal Server Error"),
        "Error getting todos 500 (Internal Server Error)");
    assert_eq!(fetch_create_error(404, "Not Found"), "Error creating todo 404 (Not Found)");
}

#[test]
fn browser_paths_resolve_to_pages() {
    assert!(matches!(client_route("/"), Some(Route::Home)));
    assert!(matches!(client_route("/todos"), Some(Route::Todos)));
    assert!(client_route("/elsewhere").is_none());
}
