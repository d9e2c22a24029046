use leviathan_plugins::activation::{
    validate, LazyEntry, LazyRegistry, LazyStatus, PluginActivation, ActivationKeymap,
    RepositoryShapePredicate, MAX_ACTIVATION_FAILURES,
};
use leviathan_plugins::diagnostic::{DiagnosticStore, SourceSpan};
use leviathan_plugins::json::JsonValue;

fn fixture_entry(plugin_id: &str, command: &str) -> LazyEntry {
    LazyEntry {
        plugin_id: plugin_id.into(),
        plugin_dir: String::new(),
        manual: false,
        commands: vec![command.into()],
        keymaps: vec![],
        events: vec![],
        regions: vec![],
        files: vec![],
        repository_shape: None,
        status: LazyStatus::Lazy,
        activations: 0,
        last_activation_unix_ms: None,
        last_activation_trigger: None,
        last_error: None,
        consecutive_failures: 0,
    }
}

#[test]
fn validate_drops_unknown_event() {
    let mut diags = DiagnosticStore::new();
    let activation = PluginActivation {
        events: vec!["NopeNotAnEvent".into()],
        ..Default::default()
    };
    let canonical = vec!["FetchStarted".to_string()];
    let v = validate("p", "plugin.toml", &activation, &canonical, &mut diags);
    assert!(v.events.is_empty());
    let found = diags.tail(10);
    assert!(found
        .iter()
        .any(|d| d.code == "activation.unknown_event" && d.message.contains("NopeNotAnEvent")));
}

#[test]
fn registry_tracks_first_match_wins() {
    let mut reg = LazyRegistry::new();
    reg.insert(fixture_entry("a", "x"));
    reg.insert(fixture_entry("b", "x"));
    let m = reg.match_command("x").expect("match");
    assert_eq!(m.plugin_id, "a");
}

#[test]
fn poison_threshold() {
    let mut reg = LazyRegistry::new();
    reg.insert(fixture_entry("p", "c"));
    assert!(!reg.mark_failure("p", "fail #1".into()));
    assert!(reg.mark_failure("p", "fail #2".into()));
    let entry = reg.lookup("p").unwrap();
    assert_eq!(entry.status, LazyStatus::Poisoned);
    assert_eq!(entry.consecutive_failures, MAX_ACTIVATION_FAILURES);
    assert!(reg.match_command("c").is_none());
}

#[test]
fn mark_active_records_trigger_descriptor() {
    let mut reg = LazyRegistry::new();
    reg.insert(fixture_entry("p", "c"));
    reg.mark_active("p", 1234, "command:c".into());
    let entry = reg.lookup("p").unwrap();
    assert_eq!(entry.status, LazyStatus::Active);
    assert_eq!(entry.activations, 1);
    assert_eq!(entry.last_activation_trigger.as_deref(), Some("command:c"));
    assert_eq!(entry.last_activation_unix_ms, Some(1234));
    assert!(reg.match_command("c").is_none());
}

#[test]
fn activation_clears_failures() {
    let mut reg = LazyRegistry::new();
    reg.insert(fixture_entry("p", "c"));
    assert!(!reg.mark_failure("p", "once".into()));
    reg.mark_active("p", 1, "event:FetchStarted".into());
    let entry = reg.lookup("p").unwrap();
    assert_eq!(entry.consecutive_failures, 0);
    assert!(entry.last_error.is_none());
    assert!(!reg.mark_failure("unknown", "x".into()));
}

#[test]
fn insert_replaces_row_of_same_plugin() {
    let mut reg = LazyRegistry::new();
    reg.insert(fixture_entry("p", "old"));
    reg.insert(fixture_entry("p", "new"));
    assert_eq!(reg.entries().len(), 1);
    assert!(reg.match_command("new").is_some());
    assert!(reg.match_command("old").is_none());
}

#[test]
fn events_and_repository_shape_match_lazy_rows() {
    let mut reg = LazyRegistry::new();
    let mut e = fixture_entry("p", "c");
    e.events = vec!["FetchStarted".into()];
    e.repository_shape = Some(RepositoryShapePredicate { has_remote: Some(true), has_branch: Some("main".into()) });
    reg.insert(e);
    assert_eq!(reg.match_event("FetchStarted").unwrap().plugin_id, "p");
    assert!(reg.match_event("Other").is_none());
    assert!(reg.match_repo_shape("main", true).is_some());
    assert!(reg.match_repo_shape("main", false).is_none());
    assert!(reg.match_repo_shape("dev", true).is_none());
    assert!(!fixture_entry("q", "c").matches_repo("main", true));
}

#[test]
fn validate_drops_blank_and_repeated_entries() {
    let mut diags = DiagnosticStore::new();
    let activation = PluginActivation {
        commands: vec!["a".into(), " ".into(), "a".into(), "b".into()],
        keymaps: vec![
            ActivationKeymap { context: "global".into(), key: "x".into() },
            ActivationKeymap { context: "".into(), key: "y".into() },
            ActivationKeymap { context: "global".into(), key: "x".into() },
        ],
        events: vec!["FetchStarted".into(), "FetchStarted".into(), "".into()],
        regions: vec!["r".into()],
        files: vec!["src/a.rs".into(), "src//a.rs".into(), "src/b.rs".into()],
        repository_shape: None,
        manual: true,
    };
    let canonical = vec!["FetchStarted".to_string()];
    let v = validate("p", "plugin.toml", &activation, &canonical, &mut diags);
    assert_eq!(v.commands, vec!["a", "b"]);
    assert_eq!(v.keymaps.len(), 1);
    assert_eq!(v.events, vec!["FetchStarted"]);
    assert_eq!(v.regions, vec!["r"]);
    assert_eq!(v.files, vec!["src/a.rs", "src/b.rs"]);
    assert!(v.manual);
    let messages: Vec<String> = diags.tail(10).into_iter().map(|d| d.message).collect();
    assert_eq!(
        messages,
        vec![
            "activation.commands entry is empty",
            "activation.keymaps entry has empty context or key",
            "activation.events entry is empty",
        ]
    );
}

#[test]
fn lazy_status_names() {
    assert_eq!(LazyStatus::Lazy.as_str(), "lazy");
    assert_eq!(LazyStatus::Active.as_str(), "active");
    assert_eq!(LazyStatus::Poisoned.as_str(), "poisoned");
}

#[test]
fn an_unknown_event_diagnostic_names_the_event() {
    let mut diags = DiagnosticStore::new();
    let activation = PluginActivation {
        events: vec!["NopeNotAnEvent".into()],
        ..Default::default()
    };
    validate("p", "plugin.toml", &activation, &vec!["FetchStarted".to_string()], &mut diags);
    let d = diags.tail(1).remove(0);
    assert_eq!(d.code, "activation.unknown_event");
    match d.context {
        Some(JsonValue::Object(entries)) => {
            assert_eq!(entries.len(), 1);
            assert_eq!(entries[0].0, "event");
            assert!(matches!(&entries[0].1, JsonValue::Str(s) if s == "NopeNotAnEvent"));
        }
        other => panic!("unexpected detail: {:?}", other),
    }
}

#[test]
fn activation_diagnostics_point_at_the_manifest() {
    let mut diags = DiagnosticStore::new();
    let activation = PluginActivation {
        commands: vec!["  ".into()],
        events: vec!["NopeNotAnEvent".into()],
        ..Default::default()
    };
    validate("p", "plugins/p/plugin.toml", &activation, &vec!["FetchStarted".to_string()], &mut diags);
    let found = diags.tail(2);
    assert_eq!(found[0].code, "manifest.activation_invalid");
    assert!(matches!(&found[0].source,
        Some(SourceSpan::Manifest { path, key: Some(k) }) if path == "plugins/p/plugin.toml" && k == "activation"));
    assert_eq!(found[1].code, "activation.unknown_event");
    assert!(matches!(&found[1].source,
        Some(SourceSpan::Manifest { path, key: Some(k) }) if path == "plugins/p/plugin.toml" && k == "activation.events"));
}
