use todo_app::routes::{match_route, Method, RouteMatch};

#[test]
fn list_path_with_get() {
    assert_eq!(match_route(&Method::Get, "/api/todo/list"), RouteMatch::TodoList);
}

#[test]
fn list_path_with_other_methods_is_not_allowed_never_fallback() {
    assert_eq!(match_route(&Method::Post, "/api/todo/list"), RouteMatch::MethodNotAllowed);
    assert_eq!(match_route(&Method::Put, "/api/todo/list"), RouteMatch::MethodNotAllowed);
    assert_eq!(match_route(&Method::Delete, "/api/todo/list"), RouteMatch::MethodNotAllowed);
    assert_eq!(match_route(&Method::Other, "/api/todo/list"), RouteMatch::MethodNotAllowed);
}

#[test]
fn create_path_with_post() {
    assert_eq!(match_route(&Method::Post, "/api/todo/create"), RouteMatch::TodoCreate);
}

#[test]
fn create_path_with_get_is_not_allowed() {
    assert_eq!(match_route(&Method::Get, "/api/todo/create"), RouteMatch::MethodNotAllowed);
}

#[test]
fn id_path_serves_get_put_delete() {
    assert_eq!(match_route(&Method::Get, "/api/todo/5"), RouteMatch::TodoGet(5));
    assert_eq!(match_route(&Method::Put, "/api/todo/5"), RouteMatch::TodoUpdate(5));
    assert_eq!(match_route(&Method::Delete, "/api/todo/5"), RouteMatch::TodoDelete(5));
    assert_eq!(match_route(&Method::Post, "/api/todo/5"), RouteMatch::MethodNotAllowed);
}

#[test]
fn id_bounds_of_i32_are_respected() {
    assert_eq!(
        match_route(&Method::Get, "/api/todo/2147483647"),
        RouteMatch::TodoGet(2147483647)
    );
    assert_eq!(match_route(&Method::Get, "/api/todo/2147483648"), RouteMatch::BadId);
    assert_eq!(
        match_route(&Method::Get, "/api/todo/-2147483648"),
        RouteMatch::TodoGet(-2147483648)
    );
    assert_eq!(match_route(&Method::Get, "/api/todo/-2147483649"), RouteMatch::BadId);
}

#[test]
fn leading_zeros_parse() {
    assert_eq!(match_route(&Method::Get, "/api/todo/007"), RouteMatch::TodoGet(7));
    assert_eq!(
        match_route(&Method::Get, "/api/todo/0000000000000001"),
        RouteMatch::TodoGet(1)
    );
}

#[test]
fn non_numeric_segment_is_a_bad_id() {
    assert_eq!(match_route(&Method::Get, "/api/todo/abc"), RouteMatch::BadId);
    assert_eq!(match_route(&Method::Get, "/api/todo/1x"), RouteMatch::BadId);
    assert_eq!(match_route(&Method::Get, "/api/todo/-"), RouteMatch::BadId);
}

#[test]
fn unbound_paths_fall_back_to_static_serving() {
    assert_eq!(match_route(&Method::Get, "/"), RouteMatch::Fallback);
    assert_eq!(match_route(&Method::Get, "/todos"), RouteMatch::Fallback);
    assert_eq!(match_route(&Method::Get, "/api/todo/5/extra"), RouteMatch::Fallback);
    assert_eq!(match_route(&Method::Get, "/api/todo/"), RouteMatch::Fallback);
    assert_eq!(match_route(&Method::Get, "/api/other"), RouteMatch::Fallback);
}
