use vstd::prelude::*;
use crate::models::{Todo, TodoView, UpdateTodo};

verus! {

/// True when no two entries of `s` share an identifier.
pub open spec fn unique_ids(s: Seq<TodoView>) -> bool {
    forall|i: int, j: int|
        #![trigger s[i], s[j]]
        0 <= i < s.len() && 0 <= j < s.len() && i != j ==> s[i].id != s[j].id
}

/// True when some entry of `s` carries the identifier `id`.
pub open spec fn contains_id(s: Seq<TodoView>, id: int) -> bool {
    exists|i: int| 0 <= i < s.len() && (#[trigger] s[i]).id == id
}

/// The index of the entry carrying `id`; meaningful only when
/// `contains_id(s, id)` holds and, to be unique, when `unique_ids(s)` holds.
pub open spec fn index_of_id(s: Seq<TodoView>, id: int) -> int {
    choose|i: int| 0 <= i < s.len() && (#[trigger] s[i]).id == id
}

/// What the get operation returns: the entry addressed by `id`, or absence.
pub open spec fn spec_get(s: Seq<TodoView>, id: int) -> Option<TodoView> {
    if contains_id(s, id) {
        Some(s[index_of_id(s, id)])
    } else {
        None
    }
}

/// One entry after a partial update: a field left as `None` keeps its value.
pub open spec fn apply_update(
    t: TodoView,
    title: Option<Seq<char>>,
    is_completed: Option<bool>,
) -> TodoView {
    TodoView {
        id: t.id,
        title: match title {
            Some(new_title) => new_title,
            None => t.title,
        },
        is_completed: match is_completed {
            Some(flag) => flag,
            None => t.is_completed,
        },
    }
}

/// The table after a partial update of the entry addressed by `id`; every
/// other entry is unchanged, and a missing id changes nothing.
pub open spec fn spec_update(
    s: Seq<TodoView>,
    id: int,
    title: Option<Seq<char>>,
    is_completed: Option<bool>,
) -> Seq<TodoView> {
    s.map_values(
        |t: TodoView|
            if t.id == id {
                apply_update(t, title, is_completed)
            } else {
                t
            },
    )
}

/// The table after deleting the entry addressed by `id`; a missing id
/// changes nothing.
pub open spec fn spec_delete(s: Seq<TodoView>, id: int) -> Seq<TodoView> {
    if contains_id(s, id) {
        s.remove(index_of_id(s, id))
    } else {
        s
    }
}

/// The views of a sequence of items.
pub open spec fn todos_view(ts: Seq<Todo>) -> Seq<TodoView> {
    ts.map_values(|t: Todo| t@)
}

/// The view of an optional item.
pub open spec fn opt_view(o: Option<Todo>) -> Option<TodoView> {
    match o {
        Some(t) => Some(t@),
        None => None,
    }
}

/// In-memory model of the persisted `todo` table: the rows in insertion
/// order, and the identifier the next insertion will be assigned.
pub struct TodoStore {
    pub todos: Vec<Todo>,
    pub next_id: i32,
}

impl View for TodoStore {
    type V = Seq<TodoView>;

    open spec fn view(&self) -> Seq<TodoView> {
        todos_view(self.todos@)
    }
}

impl TodoStore {
    /// Identifiers are unique, start at 1, and stay below the identifier of
    /// the next insertion.
    pub open spec fn wf(&self) -> bool {
        &&& unique_ids(self@)
        &&& forall|i: int| 0 <= i < self@.len() ==> 1 <= (#[trigger] self@[i]).id < self.next_id
        &&& 1 <= self.next_id
    }

    /// The identifier that the next create will assign.
    pub open spec fn spec_next_id(&self) -> int {
        self.next_id as int
    }

    /// True while the store can still assign a fresh identifier.
    pub open spec fn can_assign_id(&self) -> bool {
        self.next_id < i32::MAX
    }

    pub fn new() -> (r: TodoStore)
        ensures
            r.wf(),
            r@ == Seq::<TodoView>::empty(),
            r.spec_next_id() == 1,
    {
        let r = TodoStore { todos: Vec::new(), next_id: 1 };
        proof {
            assert(r@ =~= Seq::<TodoView>::empty());
        }
        r
    }

    /// All rows, in the table's own order.
    #[verifier::loop_isolation(false)]
    pub fn get_todos(&self) -> (r: Vec<Todo>)
        ensures
            todos_view(r@) == self@,
    {
        let mut out: Vec<Todo> = Vec::new();
        let n = self.todos.len();
        for i in 0..n
            invariant
                n == self.todos.len(),
                todos_view(out@) =~= self@.subrange(0, i as int),
        {
            out.push(self.todos[i].clone());
        }
        proof {
            assert(todos_view(out@) =~= self@);
        }
        out
    }

    /// The row addressed by `id`, or absence; never a failure.
    #[verifier::loop_isolation(false)]
    pub fn get_todo(&self, id: i32) -> (r: Option<Todo>)
        requires
            self.wf(),
        ensures
            opt_view(r) == spec_get(self@, id as int),
    {
        let n = self.todos.len();
        for i in 0..n
            invariant
                n == self.todos.len(),
                self.wf(),
                forall|j: int| 0 <= j < i ==> (#[trigger] self@[j]).id != id as int,
        {
            if self.todos[i].id == id {
                let found = self.todos[i].clone();
                proof {
                    assert(self@[i as int] == self.todos@[i as int]@);
                    assert((#[trigger] self@[i as int]).id == id as int);
                    assert(contains_id(self@, id as int));
                    let w = index_of_id(self@, id as int);
                    assert(self@[w].id == id as int);
                    assert(w == i as int);
                }
                return Some(found);
            }
        }
        proof {
            assert(!contains_id(self@, id as int));
        }
        None
    }

    /// Inserts a row with the given title and a false completion flag, and
    /// returns the fully populated row, generated identifier included.
    pub fn create_todo(&mut self, title: &str) -> (r: Todo)
        requires
            old(self).wf(),
            old(self).can_assign_id(),
        ensures
            final(self).wf(),
            r@ == (TodoView { id: old(self).spec_next_id(), title: title@, is_completed: false }),
            final(self)@ == old(self)@.push(r@),
            final(self).spec_next_id() == old(self).spec_next_id() + 1,
            !contains_id(old(self)@, r@.id),
    {
        let row = Todo { id: self.next_id, title: title.to_owned(), is_completed: false };
        let copy = row.clone();
        self.todos.push(row);
        self.next_id = self.next_id + 1;
        proof {
            assert(self@ =~= old(self)@.push(copy@));
        }
        copy
    }

    /// Updates only the supplied fields of the row addressed by `id` and
    /// returns the post-update row, or absence when no row matched.
    #[verifier::loop_isolation(false)]
    pub fn update_todo(&mut self, id: i32, update: UpdateTodo) -> (r: Option<Todo>)
        requires
            old(self).wf(),
        ensures
            final(self).wf(),
            final(self)@ == spec_update(old(self)@, id as int, update.title_view(), update.is_completed),
            opt_view(r) == spec_get(final(self)@, id as int),
            r is Some <==> contains_id(old(self)@, id as int),
            final(self).spec_next_id() == old(self).spec_next_id(),
    {
        let ghost updated = spec_update(
            old(self)@,
            id as int,
            update.title_view(),
            update.is_completed,
        );
        let n = self.todos.len();
        let mut i: usize = 0;
        while i < n
            invariant
                n == self.todos.len(),
                self == old(self),
                forall|j: int| 0 <= j < i ==> (#[trigger] old(self)@[j]).id != id as int,
            decreases n - i,
        {
            if self.todos[i].id == id {
                proof {
                    assert(old(self)@[i as int] == self.todos@[i as int]@);
                    assert((#[trigger] old(self)@[i as int]).id == id as int);
                    assert(contains_id(old(self)@, id as int));
                    let w = index_of_id(old(self)@, id as int);
                    assert(old(self)@[w].id == id as int);
                    assert(w == i as int);
                }
                let mut row = self.todos[i].clone();
                match update.title {
                    Some(new_title) => { row.title = new_title; }
                    None => {}
                }
                match update.is_completed {
                    Some(flag) => { row.is_completed = flag; }
                    None => {}
                }
                let copy = row.clone();
                self.todos.set(i, row);
                proof {
                    assert(self@ =~= updated);
                    assert(contains_id(updated, id as int)) by {
                        assert(updated[i as int].id == id as int);
                    }
                    let w2 = index_of_id(updated, id as int);
                    assert(updated[w2].id == id as int);
                    assert(w2 == i as int);
                }
                return Some(copy);
            }
            i = i + 1;
        }
        proof {
            assert(!contains_id(old(self)@, id as int));
            assert(self@ =~= updated);
            assert(!contains_id(updated, id as int)) by {
                assert(forall|j: int|
                    0 <= j < updated.len() ==> (#[trigger] updated[j]).id == old(self)@[j].id);
            }
        }
        None
    }

    /// Removes the row addressed by `id`; returns whether a row was removed,
    /// so a caller can tell "deleted now" from "already gone".
    #[verifier::loop_isolation(false)]
    pub fn delete_todo(&mut self, id: i32) -> (r: bool)
        requires
            old(self).wf(),
        ensures
            final(self).wf(),
            final(self)@ == spec_delete(old(self)@, id as int),
            r == contains_id(old(self)@, id as int),
            final(self).spec_next_id() == old(self).spec_next_id(),
    {
        let n = self.todos.len();
        let mut i: usize = 0;
        while i < n
            invariant
                n == self.todos.len(),
                self == old(self),
                forall|j: int| 0 <= j < i ==> (#[trigger] old(self)@[j]).id != id as int,
            decreases n - i,
        {
            if self.todos[i].id == id {
                proof {
                    assert(old(self)@[i as int] == self.todos@[i as int]@);
                    assert((#[trigger] old(self)@[i as int]).id == id as int);
                    assert(contains_id(old(self)@, id as int));
                    let w = index_of_id(old(self)@, id as int);
                    assert(old(self)@[w].id == id as int);
                    assert(w == i as int);
                }
                self.todos.remove(i);
                proof {
                    assert(self@ =~= old(self)@.remove(i as int));
                }
                return true;
            }
            i = i + 1;
        }
        proof {
            assert(!contains_id(old(self)@, id as int));
        }
        false
    }
}


/// Law: creating an item under a fresh identifier and then getting that
/// identifier yields exactly the created item, with a false completion flag.
pub proof fn lemma_create_then_get(s: Seq<TodoView>, id: int, title: Seq<char>)
    requires
        !contains_id(s, id),
    ensures
        spec_get(s.push(TodoView { id, title, is_completed: false }), id)
            == Some(TodoView { id, title, is_completed: false }),
{
    let t = TodoView { id, title, is_completed: false };
    let s2 = s.push(t);
    assert(s2[s.len() as int] == t);
    assert(contains_id(s2, id));
    let w = index_of_id(s2, id);
    assert(s2[w].id == id);
    if w < s.len() {
        assert(s2[w] == s[w]);
        assert(contains_id(s, id));
    }
    assert(w == s.len() as int);
}

/// Law: an identifier that is absent from the table is returned as absent by
/// get, and update and delete leave the table unchanged.
pub proof fn lemma_missing_id_is_absent(
    s: Seq<TodoView>,
    id: int,
    title: Option<Seq<char>>,
    is_completed: Option<bool>,
)
    requires
        !contains_id(s, id),
    ensures
        spec_get(s, id) is None,
        spec_update(s, id, title, is_completed) == s,
        spec_delete(s, id) == s,
{
    let u = spec_update(s, id, title, is_completed);
    assert forall|k: int| 0 <= k < s.len() implies #[trigger] u[k] == s[k] by {
        assert(s[k].id != id);
    }
    assert(u =~= s);
}

/// Law: deleting an identifier is idempotent; after a delete the identifier
/// is gone, and deleting it again changes nothing.
pub proof fn lemma_delete_idempotent(s: Seq<TodoView>, id: int)
    requires
        unique_ids(s),
    ensures
        !contains_id(spec_delete(s, id), id),
        spec_delete(spec_delete(s, id), id) == spec_delete(s, id),
{
    if contains_id(s, id) {
        let w = index_of_id(s, id);
        assert(s[w].id == id);
        let d = spec_delete(s, id);
        assert(d == s.remove(w));
        assert forall|k: int| 0 <= k < d.len() implies (#[trigger] d[k]).id != id by {
            if k < w {
                assert(d[k] == s[k]);
            } else {
                assert(d[k] == s[k + 1]);
            }
        }
        assert(!contains_id(d, id));
    }
}

/// Law: an update that supplies only a title changes only titles; the
/// identifiers and completion flags of every row, and every row whose
/// identifier differs, are unchanged.
pub proof fn lemma_update_title_only(s: Seq<TodoView>, id: int, title: Seq<char>)
    ensures
        spec_update(s, id, Some(title), None).len() == s.len(),
        forall|k: int| 0 <= k < s.len()
            ==> (#[trigger] spec_update(s, id, Some(title), None)[k]).id == s[k].id,
        forall|k: int| 0 <= k < s.len()
            ==> (#[trigger] spec_update(s, id, Some(title), None)[k]).is_completed
                == s[k].is_completed,
        forall|k: int| 0 <= k < s.len() && s[k].id != id
            ==> #[trigger] spec_update(s, id, Some(title), None)[k] == s[k],
        forall|k: int| 0 <= k < s.len() && s[k].id == id
            ==> (#[trigger] spec_update(s, id, Some(title), None)[k]).title == title,
{
}

/// Law: an update that supplies no field is a no-op.
pub proof fn lemma_update_noop(s: Seq<TodoView>, id: int)
    ensures
        spec_update(s, id, None, None) == s,
{
    assert(spec_update(s, id, None, None) =~= s);
}

} // verus!
