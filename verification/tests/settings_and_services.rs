use leviathan_plugins::json::JsonValue;
use leviathan_plugins::services::{decl_from_name_version, parse_decl, parse_u32_text, ParseIntErrorKind};
use leviathan_plugins::settings_values::{merge_object, prune_to_schema};

fn object(entries: Vec<(&str, JsonValue)>) -> JsonValue {
    JsonValue::Object(entries.into_iter().map(|(k, v)| (k.to_string(), v)).collect())
}

fn entries(v: &JsonValue) -> Vec<(String, String)> {
    match v {
        JsonValue::Object(m) => m.iter().map(|(k, v)| (k.clone(), format!("{v:?}"))).collect(),
        other => panic!("not a table: {other:?}"),
    }
}

#[test]
fn merge_sets_incoming_keys_on_current() {
    let current = object(vec![("theme", JsonValue::Str("dark".into())), ("size", JsonValue::Integer(12))]);
    let incoming = object(vec![("size", JsonValue::Integer(14)), ("wrap", JsonValue::Bool(true))]);
    let merged = merge_object(current, incoming);
    assert_eq!(
        entries(&merged),
        vec![
            ("theme".to_string(), format!("{:?}", JsonValue::Str("dark".into()))),
            ("size".to_string(), format!("{:?}", JsonValue::Integer(14))),
            ("wrap".to_string(), format!("{:?}", JsonValue::Bool(true))),
        ]
    );
}

#[test]
fn merge_with_a_non_table_replaces() {
    let merged = merge_object(JsonValue::Integer(1), object(vec![("a", JsonValue::Null)]));
    assert_eq!(entries(&merged).len(), 1);
    let merged = merge_object(object(vec![("a", JsonValue::Null)]), JsonValue::Bool(false));
    assert!(matches!(merged, JsonValue::Bool(false)));
}

#[test]
fn prune_keeps_schema_keys_only() {
    let schema = object(vec![("theme", JsonValue::Null), ("size", JsonValue::Null)]);
    let values = object(vec![
        ("size", JsonValue::Integer(12)),
        ("stale", JsonValue::Bool(true)),
        ("theme", JsonValue::Str("dark".into())),
    ]);
    let pruned = prune_to_schema(&schema, &values, JsonValue::Null);
    let keys: Vec<String> = entries(&pruned).into_iter().map(|(k, _)| k).collect();
    assert_eq!(keys, vec!["theme".to_string(), "size".to_string()]);
}

#[test]
fn prune_fallbacks() {
    let fallback = object(vec![("x", JsonValue::Integer(1))]);
    let pruned = prune_to_schema(&JsonValue::Null, &object(vec![]), fallback);
    assert_eq!(entries(&pruned).len(), 1);
    let pruned = prune_to_schema(&object(vec![("a", JsonValue::Null)]), &JsonValue::Integer(3), JsonValue::Null);
    assert_eq!(entries(&pruned).len(), 0);
}

#[test]
fn service_declarations_parse() {
    let d = parse_decl("git.status@2").unwrap();
    assert_eq!(d.name, "git.status");
    assert_eq!(d.version, 2);
    assert!(d.required);
    assert_eq!(parse_decl("git.status").unwrap_err(), "service must be 'name@version'");
    assert_eq!(parse_decl("svc@").unwrap_err(), "cannot parse integer from empty string");
    assert_eq!(parse_decl("svc@x").unwrap_err(), "invalid digit found in string");
    assert_eq!(parse_decl("a@b@2").unwrap_err(), "invalid digit found in string");
    assert_eq!(parse_decl("svc@99999999999").unwrap_err(), "number too large to fit in target type");
    assert_eq!(parse_decl("svc@+7").unwrap().version, 7);
}

#[test]
fn u32_text_matches_std_parse() {
    for text in ["", "+", "-", "0", "+12", "-3", "4294967295", "4294967296", "12a", "99999999999x", " 1"] {
        let ours = parse_u32_text(text);
        let std = text.parse::<u32>();
        match (ours, std) {
            (Ok(a), Ok(b)) => assert_eq!(a, b, "{text}"),
            (Err(kind), Err(e)) => {
                let expected = match kind {
                    ParseIntErrorKind::Empty => "cannot parse integer from empty string",
                    ParseIntErrorKind::InvalidDigit => "invalid digit found in string",
                    ParseIntErrorKind::PosOverflow => "number too large to fit in target type",
                };
                assert_eq!(e.to_string(), expected, "{text}");
            }
            (a, b) => panic!("{text}: {a:?} vs {b:?}"),
        }
    }
}

#[test]
fn service_from_name_and_version() {
    let d = decl_from_name_version("svc", 3).unwrap();
    assert_eq!((d.name.as_str(), d.version), ("svc", 3));
    assert_eq!(decl_from_name_version("svc", -1).unwrap_err(), "service version must be a non-negative u32: -1");
    assert_eq!(
        decl_from_name_version("svc", 4294967296).unwrap_err(),
        "service version must be a non-negative u32: 4294967296"
    );
}
