use todo_app::json::{todo_json_string, todo_list_json_string};
use todo_app::models::Todo;

#[test]
fn todo_json_exact_text() {
    let t = Todo { id: 1, title: "Buy milk".to_string(), is_completed: false };
    assert_eq!(todo_json_string(&t), "{\"id\":1,\"title\":\"Buy milk\",\"is_completed\":false}");
}

#[test]
fn todo_json_completed_and_large_id() {
    let t = Todo { id: 2147483647, title: "x".to_string(), is_completed: true };
    assert_eq!(
        todo_json_string(&t),
        "{\"id\":2147483647,\"title\":\"x\",\"is_completed\":true}"
    );
}

#[test]
fn todo_json_negative_id() {
    let t = Todo { id: -5, title: "n".to_string(), is_completed: false };
    assert_eq!(todo_json_string(&t), "{\"id\":-5,\"title\":\"n\",\"is_completed\":false}");
}

#[test]
fn todo_json_escapes_quote_backslash_and_controls() {
    let t = Todo { id: 3, title: "a\"b\\c\nd".to_string(), is_completed: false };
    assert_eq!(
        todo_json_string(&t),
        "{\"id\":3,\"title\":\"a\\\"b\\\\c\\u000ad\",\"is_completed\":false}"
    );
}

#[test]
fn empty_list_is_empty_array() {
    let ts: Vec<Todo> = Vec::new();
    assert_eq!(todo_list_json_string(&ts), "[]");
}

#[test]
fn list_members_are_comma_separated() {
    let ts = vec![
        Todo { id: 1, title: "a".to_string(), is_completed: false },
        Todo { id: 2, title: "b".to_string(), is_completed: true },
    ];
    assert_eq!(
        todo_list_json_string(&ts),
        "[{\"id\":1,\"title\":\"a\",\"is_completed\":false},{\"id\":2,\"title\":\"b\",\"is_completed\":true}]"
    );
}

#[test]
fn written_object_parses_as_json_with_the_same_fields() {
    let t = Todo { id: 9, title: "tea \"now\"\t".to_string(), is_completed: true };
    let text = todo_json_string(&t);
    let v: serde_json::Value = serde_json::from_str(&text).expect("writer must emit valid JSON");
    assert_eq!(v["id"].as_i64(), Some(9));
    assert_eq!(v["title"].as_str(), Some("tea \"now\"\t"));
    assert_eq!(v["is_completed"].as_bool(), Some(true));
}

#[test]
fn written_list_parses_as_json_array() {
    let ts = vec![
        Todo { id: 1, title: "a".to_string(), is_completed: false },
        Todo { id: 2, title: "b\\".to_string(), is_completed: true },
    ];
    let text = todo_list_json_string(&ts);
    let v: serde_json::Value = serde_json::from_str(&text).expect("writer must emit valid JSON");
    let arr = v.as_array().expect("an array");
    assert_eq!(arr.len(), 2);
    assert_eq!(arr[1]["title"].as_str(), Some("b\\"));
    assert_eq!(arr[1]["is_completed"].as_bool(), Some(true));
}

#[test]
fn parser_undoes_the_writer() {
    let t = Todo { id: 42, title: "tea \"now\"\\later\nplease".to_string(), is_completed: true };
    let text = todo_json_string(&t);
    let back = todo_app::parse::parse_todo(&text).expect("written text must parse");
    assert_eq!(back.id, 42);
    assert_eq!(back.title, "tea \"now\"\\later\nplease");
    assert!(back.is_completed);
}

#[test]
fn parser_undoes_the_writer_for_lists() {
    let ts = vec![
        Todo { id: 1, title: "a".to_string(), is_completed: false },
        Todo { id: -7, title: "b,\"c\"".to_string(), is_completed: true },
        Todo { id: 2147483647, title: "".to_string(), is_completed: false },
    ];
    let text = todo_list_json_string(&ts);
    let back = todo_app::parse::parse_todo_list(&text).expect("written text must parse");
    assert_eq!(back.len(), 3);
    assert_eq!(back[0].id, 1);
    assert_eq!(back[1].title, "b,\"c\"");
    assert!(back[1].is_completed);
    assert_eq!(back[2].id, 2147483647);
    assert_eq!(back[2].title, "");
}

#[test]
fn parser_parses_the_empty_array() {
    let back = todo_app::parse::parse_todo_list("[]").expect("the empty array parses");
    assert!(back.is_empty());
}

#[test]
fn parser_rejects_what_the_writer_never_emits() {
    assert!(todo_app::parse::parse_todo("").is_none());
    assert!(todo_app::parse::parse_todo("{}").is_none());
    assert!(todo_app::parse::parse_todo("{\"id\":1}").is_none());
    assert!(todo_app::parse::parse_todo(
        "{\"id\":1,\"title\":\"a\",\"is_completed\":false} "
    )
    .is_none());
    assert!(todo_app::parse::parse_todo(
        "{\"id\":9999999999999,\"title\":\"a\",\"is_completed\":false}"
    )
    .is_none());
    assert!(todo_app::parse::parse_todo_list("[,]").is_none());
    assert!(todo_app::parse::parse_todo_list(
        "[{\"id\":1,\"title\":\"a\",\"is_completed\":false},]"
    )
    .is_none());
}
