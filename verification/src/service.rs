use vstd::prelude::*;
use crate::models::{TodoView, UpdateTodo};
use crate::store::{contains_id, spec_delete, spec_get, spec_update, TodoStore};
use crate::handlers::{self, no_todo_delete_message, no_todo_message, opt_todo_json, HttpResponse};
use crate::json::{todo_json, todo_list_json};
use crate::routes::{match_route, spec_route, Method, RouteMatch};

verus! {

/// Serves one API request against the table. `body` is the plain-text body
/// of a create request; `update` carries the decoded body of an update
/// request, with `None` standing for a body that did not decode. The result
/// is absent exactly when no API route matches, and static serving decides.
pub fn handle_api_request(
    store: &mut TodoStore,
    m: &Method,
    path: &str,
    body: &str,
    update: Option<UpdateTodo>,
) -> (r: Option<HttpResponse>)
    requires
        old(store).wf(),
        spec_route(*m, path@) matches RouteMatch::TodoCreate ==> old(store).can_assign_id(),
    ensures
        final(store).wf(),
        match spec_route(*m, path@) {
            RouteMatch::TodoList => {
                &&& final(store)@ == old(store)@
                &&& r matches Some(resp) && resp.status == 200 && resp.body@ == todo_list_json(
                    old(store)@,
                )
            },
            RouteMatch::TodoCreate => {
                let t = TodoView {
                    id: old(store).spec_next_id(),
                    title: body@,
                    is_completed: false,
                };
                &&& final(store)@ == old(store)@.push(t)
                &&& r matches Some(resp) && resp.status == 200 && resp.body@ == todo_json(t)
            },
            RouteMatch::TodoGet(id) => {
                &&& final(store)@ == old(store)@
                &&& r matches Some(resp) && resp.status == 200 && resp.body@ == opt_todo_json(
                    spec_get(old(store)@, id as int),
                )
            },
            RouteMatch::TodoUpdate(id) => match update {
                Some(u) => {
                    &&& final(store)@ == spec_update(
                        old(store)@,
                        id as int,
                        u.title_view(),
                        u.is_completed,
                    )
                    &&& if contains_id(old(store)@, id as int) {
                        r matches Some(resp) && resp.status == 200 && resp.body@ == opt_todo_json(
                            spec_get(final(store)@, id as int),
                        )
                    } else {
                        r matches Some(resp) && resp.status == 404 && resp.body@ == no_todo_message(
                            id as int,
                        )
                    }
                },
                None => {
                    &&& final(store)@ == old(store)@
                    &&& r matches Some(resp) && resp.status == 400
                },
            },
            RouteMatch::TodoDelete(id) => {
                &&& final(store)@ == spec_delete(old(store)@, id as int)
                &&& if contains_id(old(store)@, id as int) {
                    r matches Some(resp) && resp.status == 200 && resp.body@ == Seq::<
                        char,
                    >::empty()
                } else {
                    r matches Some(resp) && resp.status == 404 && resp.body@
                        == no_todo_delete_message(id as int)
                }
            },
            RouteMatch::BadId => {
                &&& final(store)@ == old(store)@
                &&& r matches Some(resp) && resp.status == 400
            },
            RouteMatch::MethodNotAllowed => {
                &&& final(store)@ == old(store)@
                &&& r matches Some(resp) && resp.status == 405
            },
            RouteMatch::Fallback => final(store)@ == old(store)@ && r is None,
        },
{
    match match_route(m, path) {
        RouteMatch::TodoList => {
            let ts = store.get_todos();
            Some(handlers::get_todos(Ok(ts)))
        },
        RouteMatch::TodoCreate => {
            let t = store.create_todo(body);
            Some(handlers::create_todo(Ok(t)))
        },
        RouteMatch::TodoGet(id) => {
            let o = store.get_todo(id);
            Some(handlers::get_todo(Ok(o)))
        },
        RouteMatch::TodoUpdate(id) => match update {
            Some(u) => {
                let o = store.update_todo(id, u);
                Some(handlers::update_todo(id, Ok(o)))
            },
            None => Some(HttpResponse { status: 400, body: String::new() }),
        },
        RouteMatch::TodoDelete(id) => {
            let b = store.delete_todo(id);
            Some(handlers::delete_todo(id, Ok(b)))
        },
        RouteMatch::BadId => Some(HttpResponse { status: 400, body: String::new() }),
        RouteMatch::MethodNotAllowed => Some(HttpResponse { status: 405, body: String::new() }),
        RouteMatch::Fallback => None,
    }
}

} // verus!
