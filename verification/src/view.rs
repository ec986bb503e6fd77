use vstd::prelude::*;
use crate::models::Todo;
use crate::json::{chars_to_string, push_str};
use crate::fmt::{int_dec_seq, push_i32_dec};

verus! {

/// The pages of the site.
pub enum Route {
    Home,
    Todos,
}

/// The page a browser path leads to.
pub open spec fn spec_client_route(path: Seq<char>) -> Option<Route> {
    if path == "/"@ {
        Some(Route::Home)
    } else if path == "/todos"@ {
        Some(Route::Todos)
    } else {
        None
    }
}

/// Resolves a browser path to a page.
pub fn client_route(path: &str) -> (r: Option<Route>)
    ensures
        match r {
            Some(Route::Home) => path@ == "/"@,
            Some(Route::Todos) => path@ == "/todos"@,
            None => spec_client_route(path@) is None,
        },
        r == spec_client_route(path@),
{
    let chars = crate::json::str_chars(path);
    if crate::routes::chars_eq_str(chars.as_slice(), "/") {
        Some(Route::Home)
    } else if crate::routes::chars_eq_str(chars.as_slice(), "/todos") {
        Some(Route::Todos)
    } else {
        None
    }
}

/// What the list view does in response to an event.
pub enum ViewAction {
    /// Nothing to send.
    Idle,
    /// Send the create request with this title, then refetch.
    SendCreate(String),
    /// Send the delete request for this id, then refetch.
    SendDelete(i32),
}

/// An event the list view reacts to.
pub enum ViewEvent {
    /// A fetch of the list finished, well or badly.
    FetchFinished(Result<Vec<Todo>, String>),
    /// The user asked for a new item.
    CreateClicked,
    /// The user asked to delete the item with this id.
    DeleteClicked(i32),
}

/// True while the view has no fetch result and must issue a fetch.
pub fn needs_fetch(state: &Option<Result<Vec<Todo>, String>>) -> (r: bool)
    ensures
        r == (state is None),
{
    match state {
        None => true,
        Some(_) => false,
    }
}

/// One step of the list view: a finished fetch is stored; a create or a
/// delete sends its request and drops the stored result, which forces a
/// refetch; nothing is inserted or removed optimistically.
pub fn step(state: Option<Result<Vec<Todo>, String>>, event: ViewEvent) -> (r: (
    Option<Result<Vec<Todo>, String>>,
    ViewAction,
))
    ensures
        match event {
            ViewEvent::FetchFinished(res) => r.0 == Some(res) && r.1 is Idle,
            ViewEvent::CreateClicked => {
                &&& r.0 is None
                &&& r.1 matches ViewAction::SendCreate(t) && t@ == "New Todo"@
            },
            ViewEvent::DeleteClicked(id) => {
                &&& r.0 is None
                &&& r.1 matches ViewAction::SendDelete(d) && d == id
            },
        },
{
    match event {
        ViewEvent::FetchFinished(res) => (Some(res), ViewAction::Idle),
        ViewEvent::CreateClicked => (
            None,
            ViewAction::SendCreate(String::from_str("New Todo")),
        ),
        ViewEvent::DeleteClicked(id) => (None, ViewAction::SendDelete(id)),
    }
}

/// The message shown when fetching the list fails with an HTTP status.
pub open spec fn list_error_message(status: int, status_text: Seq<char>) -> Seq<char> {
    "Error getting todos "@ + int_dec_seq(status) + " ("@ + status_text + ")"@
}

/// The message shown when creating an item fails with an HTTP status.
pub open spec fn create_error_message(status: int, status_text: Seq<char>) -> Seq<char> {
    "Error creating todo "@ + int_dec_seq(status) + " ("@ + status_text + ")"@
}

/// The text of the list-fetch failure for a status line.
pub fn fetch_list_error(status: u16, status_text: &str) -> (r: String)
    ensures
        r@ == list_error_message(status as int, status_text@),
{
    let mut out: Vec<char> = Vec::new();
    push_str(&mut out, "Error getting todos ");
    push_i32_dec(&mut out, status as i32);
    push_str(&mut out, " (");
    push_str(&mut out, status_text);
    push_str(&mut out, ")");
    proof {
        assert(out@ =~= list_error_message(status as int, status_text@));
    }
    chars_to_string(&out)
}

/// The text of the create failure for a status line.
pub fn fetch_create_error(status: u16, status_text: &str) -> (r: String)
    ensures
        r@ == create_error_message(status as int, status_text@),
{
    let mut out: Vec<char> = Vec::new();
    push_str(&mut out, "Error creating todo ");
    push_i32_dec(&mut out, status as i32);
    push_str(&mut out, " (");
    push_str(&mut out, status_text);
    push_str(&mut out, ")");
    proof {
        assert(out@ =~= create_error_message(status as int, status_text@));
    }
    chars_to_string(&out)
}

} // verus!
