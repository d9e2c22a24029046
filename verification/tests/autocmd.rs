use leviathan_plugins::autocmd::{AutocmdBuild, AutocmdOptionsInput};

fn options(group: Option<u64>) -> AutocmdOptionsInput {
    AutocmdOptionsInput { group, once: None, pattern: None, debounce_ms: None, priority: None }
}

#[test]
fn group_by_name_returns_the_same_id() {
    let mut build = AutocmdBuild::new();
    let a = build.group("my_plugin", false, None);
    let b = build.group("other", false, None);
    let again = build.group("my_plugin", true, Some("init.lua:3".into()));
    assert_eq!(a, 1);
    assert_eq!(b, 2);
    assert_eq!(again, a);
    assert_eq!(build.groups().len(), 2);
    assert_eq!(build.clears().len(), 1);
    assert_eq!(build.clears()[0].local_id, a);
    assert_eq!(build.clears()[0].sequence, 3);
    assert_eq!(build.clears()[0].source_location.as_deref(), Some("init.lua:3"));
}

#[test]
fn decode_fills_defaults() {
    let build = AutocmdBuild::new();
    let d = build.decode_options(options(None)).unwrap();
    assert_eq!(d.local_group, None);
    assert!(!d.once);
    assert_eq!(d.pattern, None);
    assert_eq!(d.debounce_ms, 0);
    assert_eq!(d.priority, 0);
}

#[test]
fn decode_drops_empty_pattern_and_clamps_debounce() {
    let mut build = AutocmdBuild::new();
    let g = build.group("g", false, None);
    let d = build
        .decode_options(AutocmdOptionsInput {
            group: Some(g),
            once: Some(true),
            pattern: Some(String::new()),
            debounce_ms: Some(-5),
            priority: Some(10),
        })
        .unwrap();
    assert_eq!(d.local_group, Some(g));
    assert!(d.once);
    assert_eq!(d.pattern, None);
    assert_eq!(d.debounce_ms, 0);
    assert_eq!(d.priority, 10);
    let d = build
        .decode_options(AutocmdOptionsInput { pattern: Some("feature/*".into()), debounce_ms: Some(50), ..options(None) })
        .unwrap();
    assert_eq!(d.pattern.as_deref(), Some("feature/*"));
    assert_eq!(d.debounce_ms, 50);
}

#[test]
fn decode_rejects_unknown_group() {
    let build = AutocmdBuild::new();
    let err = build.decode_options(options(Some(7))).unwrap_err();
    assert_eq!(err, "leviathan.autocmd: group handle 7 was not allocated by leviathan.autocmd.group in this plugin");
}

#[test]
fn create_and_clear_are_sequenced_in_source_order() {
    let mut build = AutocmdBuild::new();
    let g = build.group("g", false, None);
    let opts = build.decode_options(options(Some(g))).unwrap();
    build.create("CommitSelected", 11, &opts, None);
    build.create("FetchStart", 12, &opts, None);
    build.clear(g, None);
    assert_eq!(build.autocmds().len(), 2);
    assert_eq!(build.autocmds()[0].event, "CommitSelected");
    assert_eq!(build.autocmds()[0].callback, 11);
    assert_eq!(build.autocmds()[0].local_group, Some(g));
    assert_eq!(build.autocmds()[0].sequence, 2);
    assert_eq!(build.autocmds()[1].sequence, 3);
    assert_eq!(build.clears()[0].sequence, 4);
    assert_eq!(build.last_sequence_value(), 4);
}
