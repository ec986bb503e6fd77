use todo_app::models::UpdateTodo;
use todo_app::store::TodoStore;

#[test]
fn create_then_get_returns_created_item() {
    let mut store = TodoStore::new();
    let created = store.create_todo("Buy milk");
    assert_eq!(created.id, 1);
    assert_eq!(created.title, "Buy milk");
    assert!(!created.is_completed);
    let fetched = store.get_todo(created.id).expect("created row must be found");
    assert_eq!(fetched.id, 1);
    assert_eq!(fetched.title, "Buy milk");
    assert!(!fetched.is_completed);
}

#[test]
fn identifiers_are_assigned_in_order() {
    let mut store = TodoStore::new();
    assert_eq!(store.create_todo("a").id, 1);
    assert_eq!(store.create_todo("b").id, 2);
    assert_eq!(store.create_todo("c").id, 3);
}

#[test]
fn get_missing_id_is_absent() {
    let store = TodoStore::new();
    assert!(store.get_todo(42).is_none());
}

#[test]
fn update_missing_id_is_absent() {
    let mut store = TodoStore::new();
    let r = store.update_todo(
        7,
        UpdateTodo { title: Some("x".to_string()), is_completed: Some(true) },
    );
    assert!(r.is_none());
}

#[test]
fn delete_missing_id_returns_false() {
    let mut store = TodoStore::new();
    assert!(!store.delete_todo(7));
}

#[test]
fn delete_twice_first_true_then_false() {
    let mut store = TodoStore::new();
    let t = store.create_todo("once");
    assert!(store.delete_todo(t.id));
    assert!(!store.delete_todo(t.id));
}

#[test]
fn partial_update_changes_only_supplied_fields() {
    let mut store = TodoStore::new();
    let t = store.create_todo("before");
    let done = store
        .update_todo(t.id, UpdateTodo { title: None, is_completed: Some(true) })
        .expect("row exists");
    assert_eq!(done.title, "before");
    assert!(done.is_completed);

    let renamed = store
        .update_todo(t.id, UpdateTodo { title: Some("x".to_string()), is_completed: None })
        .expect("row exists");
    assert_eq!(renamed.title, "x");
    assert!(renamed.is_completed, "completion flag must be untouched by a title-only update");
}

#[test]
fn empty_update_is_a_noop_returning_the_row() {
    let mut store = TodoStore::new();
    let t = store.create_todo("same");
    let r = store
        .update_todo(t.id, UpdateTodo { title: None, is_completed: None })
        .expect("row exists");
    assert_eq!(r.id, t.id);
    assert_eq!(r.title, "same");
    assert!(!r.is_completed);
}

#[test]
fn update_leaves_other_rows_alone() {
    let mut store = TodoStore::new();
    let a = store.create_todo("a");
    let b = store.create_todo("b");
    store
        .update_todo(b.id, UpdateTodo { title: Some("b2".to_string()), is_completed: Some(true) })
        .expect("row exists");
    let a_after = store.get_todo(a.id).expect("row exists");
    assert_eq!(a_after.title, "a");
    assert!(!a_after.is_completed);
}

#[test]
fn list_returns_all_rows_in_insertion_order() {
    let mut store = TodoStore::new();
    store.create_todo("first");
    store.create_todo("second");
    let all = store.get_todos();
    assert_eq!(all.len(), 2);
    assert_eq!(all[0].title, "first");
    assert_eq!(all[1].title, "second");
}

#[test]
fn delete_removes_only_the_addressed_row() {
    let mut store = TodoStore::new();
    let a = store.create_todo("a");
    let b = store.create_todo("b");
    assert!(store.delete_todo(a.id));
    assert!(store.get_todo(a.id).is_none());
    let b_after = store.get_todo(b.id).expect("other row must remain");
    assert_eq!(b_after.title, "b");
}
