use leviathan_plugins::git_events::PendingGitEvents;
use leviathan_plugins::health::{HealthContext, HealthItem, HealthReport, PluginHealth, Severity};
use leviathan_plugins::naming::{
    compose_container, default_target_plugin_id, nth_dot_split, parse_migration_stem, slot_handle, slot_mutation_caps,
    slot_target, DispatchScope,
};

#[test]
fn report_finds_plugin_sections() {
    let mut ctx = HealthContext::new();
    ctx.record(Severity::Pass, "ready");
    ctx.record(Severity::Warn, "slow");
    let report = HealthReport {
        plugins: vec![
            PluginHealth { plugin_id: "a".into(), items: ctx.items },
            PluginHealth { plugin_id: "b".into(), items: vec![HealthItem { severity: Severity::Error, message: "x".into() }] },
        ],
    };
    let a = report.for_plugin("a").unwrap();
    assert_eq!(a.items.len(), 2);
    assert_eq!(a.items[1].severity, Severity::Warn);
    assert_eq!(a.items[1].message, "slow");
    assert!(report.for_plugin("c").is_none());
}

#[test]
fn git_events_queue_in_order() {
    let mut q: PendingGitEvents<u32> = PendingGitEvents::new();
    assert!(q.is_empty());
    q.push_many(vec![("HeadChanged", 1), ("RefsChanged", 2)]);
    q.push_many(Vec::new());
    q.push_many(vec![("IndexChanged", 3)]);
    assert_eq!(q.drain(), vec![("HeadChanged", 1), ("RefsChanged", 2), ("IndexChanged", 3)]);
    assert!(q.is_empty());
}

#[test]
fn slot_and_container_names() {
    assert_eq!(compose_container(Some("left"), "top"), "left.top");
    assert_eq!(compose_container(None, "top"), "top");
    assert_eq!(slot_handle("repository", "toolbar", "x"), "repository:toolbar:x");
    assert_eq!(slot_target("r", "c", "i"), "r:c:i");
    assert_eq!(default_target_plugin_id("me", "builtin.graph", "builtin"), "builtin");
    assert_eq!(default_target_plugin_id("me", "mine", "builtin"), "me");
}

#[test]
fn nth_dot_split_examples() {
    assert_eq!(nth_dot_split("repository.diff.context_menu", 1), ("repository", Some("diff.context_menu")));
    assert_eq!(nth_dot_split("repository.diff.context_menu", 2), ("repository.diff", Some("context_menu")));
    assert_eq!(nth_dot_split("repository.diff.context_menu", 3), ("repository.diff.context_menu", None));
    assert_eq!(nth_dot_split("nodots", 1), ("nodots", None));
}

#[test]
fn scope_storage_keys() {
    assert_eq!(DispatchScope::Screen { screen_id: "s" }.storage_key(), "screen:s");
    assert_eq!(
        DispatchScope::Slot { region: "r", container: "c", slot_id: "i" }.storage_key(),
        "slot:r:c:i"
    );
    assert_eq!(DispatchScope::Overlay { overlay_id: "o" }.storage_key(), "overlay:o");
}

#[test]
fn migration_stems() {
    assert_eq!(parse_migration_stem("1_to_2"), Some((1, 2)));
    assert_eq!(parse_migration_stem("v3_to_v4"), Some((3, 4)));
    assert_eq!(parse_migration_stem("v3_to_4"), Some((3, 4)));
    assert_eq!(parse_migration_stem("+5_to_6"), Some((5, 6)));
    assert_eq!(parse_migration_stem("1_to_"), None);
    assert_eq!(parse_migration_stem("x_to_2"), None);
    assert_eq!(parse_migration_stem("1-to-2"), None);
    assert_eq!(parse_migration_stem("4294967296_to_1"), None);
    assert_eq!(parse_migration_stem("4294967295_to_1"), Some((4294967295, 1)));
}

#[test]
fn slot_mutation_needs_no_extra_capability_for_own_slots() {
    assert!(slot_mutation_caps("remove", Some("me"), "me", "builtin", "main_bar", "left", "clock").is_empty());
    assert!(slot_mutation_caps("remove", None, "me", "builtin", "main_bar", "left", "clock").is_empty());
}

#[test]
fn slot_mutation_of_builtin_and_foreign_slots() {
    assert_eq!(
        slot_mutation_caps("replace", None, "me", "builtin", "main_bar", "left", "builtin.branch"),
        vec!["ui:replace:builtin".to_string(), "ui:replace:main_bar:left:builtin.branch".to_string()]
    );
    assert_eq!(
        slot_mutation_caps("remove", Some("builtin"), "me", "builtin", "tab_bar", "right", "x"),
        vec!["ui:remove:builtin".to_string(), "ui:remove:tab_bar:right:x".to_string()]
    );
    assert_eq!(
        slot_mutation_caps("remove", Some("other"), "me", "builtin", "status_bar", "center", "y"),
        vec!["ui:remove:status_bar:center:y".to_string()]
    );
}
