use vstd::prelude::*;
use crate::models::{Todo, TodoView};
use crate::store::todos_view;
use crate::json::{todo_json, todo_list_json, todo_json_string, todo_list_json_string, chars_to_string, push_str};
use crate::fmt::{int_dec_seq, push_i32_dec};

verus! {

/// An HTTP response: a status code and a body.
pub struct HttpResponse {
    pub status: u16,
    pub body: String,
}

/// The body of the not-found response for an update of a missing id.
pub open spec fn no_todo_message(id: int) -> Seq<char> {
    "No todo item exists with id `"@ + int_dec_seq(id) + "`"@
}

/// The body of the not-found response for a delete of a missing id.
pub open spec fn no_todo_delete_message(id: int) -> Seq<char> {
    "No todo item exists with id `"@ + int_dec_seq(id)
        + "` or todo item could not be deleted."@
}

/// The body written for an optional item: the item's JSON object, or the
/// JSON null.
pub open spec fn opt_todo_json(o: Option<TodoView>) -> Seq<char> {
    match o {
        Some(t) => todo_json(t),
        None => "null"@,
    }
}

fn not_found_update_body(id: i32) -> (r: String)
    ensures
        r@ == no_todo_message(id as int),
{
    let mut out: Vec<char> = Vec::new();
    push_str(&mut out, "No todo item exists with id `");
    push_i32_dec(&mut out, id);
    push_str(&mut out, "`");
    proof {
        assert(out@ =~= no_todo_message(id as int));
    }
    chars_to_string(&out)
}

fn not_found_delete_body(id: i32) -> (r: String)
    ensures
        r@ == no_todo_delete_message(id as int),
{
    let mut out: Vec<char> = Vec::new();
    push_str(&mut out, "No todo item exists with id `");
    push_i32_dec(&mut out, id);
    push_str(&mut out, "` or todo item could not be deleted.");
    proof {
        assert(out@ =~= no_todo_delete_message(id as int));
    }
    chars_to_string(&out)
}

/// Maps a storage failure message to the internal-error status and body.
pub fn internal_error(err: String) -> (r: (u16, String))
    ensures
        r.0 == 500,
        r.1 == err,
{
    (500, err)
}

/// Response for the list endpoint: the whole table as a JSON array, or the
/// storage failure as plain text.
pub fn get_todos(result: Result<Vec<Todo>, String>) -> (r: HttpResponse)
    ensures
        match result {
            Ok(ts) => r.status == 200 && r.body@ == todo_list_json(todos_view(ts@)),
            Err(e) => r.status == 500 && r.body == e,
        },
{
    match result {
        Ok(ts) => HttpResponse { status: 200, body: todo_list_json_string(&ts) },
        Err(e) => {
            let (status, body) = internal_error(e);
            HttpResponse { status, body }
        },
    }
}

/// Response for the get endpoint: the item or the JSON null, always with
/// success; absence is not an error here.
pub fn get_todo(result: Result<Option<Todo>, String>) -> (r: HttpResponse)
    ensures
        match result {
            Ok(o) => r.status == 200 && r.body@ == opt_todo_json(crate::store::opt_view(o)),
            Err(e) => r.status == 500 && r.body == e,
        },
{
    match result {
        Ok(Some(t)) => HttpResponse { status: 200, body: todo_json_string(&t) },
        Ok(None) => HttpResponse { status: 200, body: String::from_str("null") },
        Err(e) => {
            let (status, body) = internal_error(e);
            HttpResponse { status, body }
        },
    }
}

/// Response for the create endpoint: the stored row as JSON.
pub fn create_todo(result: Result<Todo, String>) -> (r: HttpResponse)
    ensures
        match result {
            Ok(t) => r.status == 200 && r.body@ == todo_json(t@),
            Err(e) => r.status == 500 && r.body == e,
        },
{
    match result {
        Ok(t) => HttpResponse { status: 200, body: todo_json_string(&t) },
        Err(e) => {
            let (status, body) = internal_error(e);
            HttpResponse { status, body }
        },
    }
}

/// Response for the update endpoint: the post-update row as JSON, or a
/// not-found naming the id.
pub fn update_todo(id: i32, result: Result<Option<Todo>, String>) -> (r: HttpResponse)
    ensures
        match result {
            Ok(Some(t)) => r.status == 200 && r.body@ == todo_json(t@),
            Ok(None) => r.status == 404 && r.body@ == no_todo_message(id as int),
            Err(e) => r.status == 500 && r.body == e,
        },
{
    match result {
        Ok(Some(t)) => HttpResponse { status: 200, body: todo_json_string(&t) },
        Ok(None) => HttpResponse { status: 404, body: not_found_update_body(id) },
        Err(e) => {
            let (status, body) = internal_error(e);
            HttpResponse { status, body }
        },
    }
}

/// Response for the delete endpoint: an empty success when a row went away,
/// or a not-found naming the id.
pub fn delete_todo(id: i32, result: Result<bool, String>) -> (r: HttpResponse)
    ensures
        match result {
            Ok(true) => r.status == 200 && r.body@ == Seq::<char>::empty(),
            Ok(false) => r.status == 404 && r.body@ == no_todo_delete_message(id as int),
            Err(e) => r.status == 500 && r.body == e,
        },
{
    match result {
        Ok(true) => HttpResponse { status: 200, body: String::new() },
        Ok(false) => HttpResponse { status: 404, body: not_found_delete_body(id) },
        Err(e) => {
            let (status, body) = internal_error(e);
            HttpResponse { status, body }
        },
    }
}

/// What the static file service produced for an unmatched path: a response
/// it served, no matching file, or a failure.
pub enum ServeOutcome {
    Found(HttpResponse),
    Missing,
    Failed(String),
}

/// Decides the response of the static fallback: a served file passes
/// through; a missing file is answered with the index document when it
/// could be read, else with a not-found; a failure is reported as an
/// internal error.
pub fn fallback_response(outcome: ServeOutcome, index: Option<String>) -> (r: HttpResponse)
    ensures
        match outcome {
            ServeOutcome::Found(resp) => r == resp,
            ServeOutcome::Missing => match index {
                Some(content) => r.status == 200 && r.body == content,
                None => r.status == 404 && r.body@ == "Index file was not found."@,
            },
            ServeOutcome::Failed(msg) => r.status == 500 && r.body@ == "error: "@ + msg@,
        },
{
    match outcome {
        ServeOutcome::Found(resp) => resp,
        ServeOutcome::Missing => match index {
            Some(content) => HttpResponse { status: 200, body: content },
            None => HttpResponse {
                status: 404,
                body: String::from_str("Index file was not found."),
            },
        },
        ServeOutcome::Failed(msg) => {
            let mut body = String::from_str("error: ");
            body.append(msg.as_str());
            HttpResponse { status: 500, body }
        },
    }
}

} // verus!
