use leviathan_plugins::core_commands::{
    bool_arg, close_tab, install_grammar, open_repository, reorder_tabs, required_string_arg, select_tab,
    string_arg, string_list_arg, CoreCommandAction, CoreCommandActions,
};
use leviathan_plugins::json::JsonValue;

fn object(entries: Vec<(&str, JsonValue)>) -> JsonValue {
    JsonValue::Object(entries.into_iter().map(|(k, v)| (k.to_string(), v)).collect())
}

#[test]
fn string_arguments_must_be_non_empty_strings() {
    let args = object(vec![
        ("path", JsonValue::Str("/repo".into())),
        ("empty", JsonValue::Str(String::new())),
        ("n", JsonValue::Integer(1)),
    ]);
    assert_eq!(string_arg(&args, "path").as_deref(), Some("/repo"));
    assert_eq!(string_arg(&args, "empty"), None);
    assert_eq!(string_arg(&args, "n"), None);
    assert_eq!(string_arg(&JsonValue::Null, "path"), None);
    assert_eq!(required_string_arg(&args, "missing").unwrap_err(), "missing required arg `missing`");
}

#[test]
fn list_and_bool_arguments() {
    let args = object(vec![
        ("paths", JsonValue::Str(" a, ,b ,c".into())),
        ("force", JsonValue::Bool(true)),
        ("dry", JsonValue::Str("true".into())),
    ]);
    assert_eq!(string_list_arg(&args, "paths"), vec!["a", "b", "c"]);
    assert!(string_list_arg(&args, "none").is_empty());
    assert!(bool_arg(&args, "force"));
    assert!(!bool_arg(&args, "dry"));
    assert!(!bool_arg(&args, "none"));
}

#[test]
fn builders_queue_the_right_actions() {
    let with_path = object(vec![("path", JsonValue::Str("/r".into()))]);
    assert!(matches!(open_repository(&with_path), Ok(CoreCommandAction::OpenRepositoryPath(ref p)) if p == "/r"));
    assert!(matches!(open_repository(&JsonValue::Null), Ok(CoreCommandAction::OpenRepositoryDialog)));
    assert!(matches!(close_tab(&JsonValue::Null), Ok(CoreCommandAction::CloseTab { path: None })));
    assert!(matches!(select_tab(&with_path), Ok(CoreCommandAction::SelectTab { ref path }) if path == "/r"));
    assert_eq!(select_tab(&JsonValue::Null).unwrap_err(), "missing required arg `path`");
    let reorder = object(vec![("paths", JsonValue::Str("/a,/b".into()))]);
    match reorder_tabs(&reorder) {
        Ok(CoreCommandAction::ReorderTabs { paths }) => assert_eq!(paths, vec!["/a", "/b"]),
        _ => panic!("expected reorder"),
    }
    assert_eq!(install_grammar(&JsonValue::Null).unwrap_err(), "missing required arg `language`");
}

#[test]
fn actions_drain_in_order() {
    let mut q = CoreCommandActions::new();
    q.push(CoreCommandAction::OpenRepositoryDialog);
    q.push(CoreCommandAction::SelectTab { path: "/x".into() });
    let drained = q.drain();
    assert_eq!(drained.len(), 2);
    assert!(matches!(drained[0], CoreCommandAction::OpenRepositoryDialog));
    assert!(q.drain().is_empty());
}
