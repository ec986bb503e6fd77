use vstd::prelude::*;

verus! {

/// A todo item as persisted in the table: generated identifier, title,
/// completion flag.
#[derive(Debug)]
pub struct Todo {
    pub id: i32,
    pub title: String,
    pub is_completed: bool,
}

/// The mathematical value of a todo item.
pub ghost struct TodoView {
    pub id: int,
    pub title: Seq<char>,
    pub is_completed: bool,
}

impl View for Todo {
    type V = TodoView;

    open spec fn view(&self) -> TodoView {
        TodoView { id: self.id as int, title: self.title@, is_completed: self.is_completed }
    }
}

impl Clone for Todo {
    fn clone(&self) -> (r: Self)
        ensures
            r@ == self@,
    {
        Todo { id: self.id, title: self.title.clone(), is_completed: self.is_completed }
    }
}

/// Payload of the create operation: the title of the row to insert.
#[derive(Debug)]
pub struct CreateTodo {
    pub title: String,
}

/// Payload sent by the list view when the user asks for a new item.
#[derive(Debug)]
pub struct CreateTodoDto {
    pub title: String,
}

/// Payload of the update operation: a field left as `None` keeps the
/// stored value.
#[derive(Debug)]
pub struct UpdateTodo {
    pub title: Option<String>,
    pub is_completed: Option<bool>,
}

impl UpdateTodo {
    /// The mathematical value of the optional new title.
    pub open spec fn title_view(&self) -> Option<Seq<char>> {
        match self.title {
            Some(s) => Some(s@),
            None => None,
        }
    }
}

/// A registered user; present in the schema but not reachable from any
/// endpoint.
#[derive(Debug)]
pub struct User {
    pub id: i32,
    pub username: String,
    pub email: String,
}

} // verus!
