use leviathan_plugins::audit::{AuditLog, AuditOutcome};
use leviathan_plugins::grants::{
    audit_grant_event, prompt_for_undecided, AutoGrantPolicy, CapabilityGrantSummary,
    CheckOutcome, DecidedBy, Decision, GrantStore, OverlayDescriptor, PendingDecision,
    PendingPromptSummary, PromptState,
};

fn pending(id: &str, ver: &str, cap: &str) -> PendingDecision {
    PendingDecision {
        plugin_id: id.into(),
        plugin_version: ver.into(),
        capability: cap.into(),
    }
}

#[test]
fn record_then_lookup_round_trips() {
    let mut store = GrantStore::new_in_memory();
    store
        .record_decision(
            "demo",
            "0.1.0",
            "fs:read:plugin",
            Decision::Allow,
            DecidedBy::User,
            None,
        )
        .unwrap();
    let row = store.lookup("demo", "0.1.0", "fs:read:plugin").unwrap();
    assert_eq!(row.decision, Decision::Allow);
    assert_eq!(row.decided_by, DecidedBy::User);
}

#[test]
fn check_returns_requires_prompt_when_unknown() {
    let store = GrantStore::new_in_memory();
    assert_eq!(
        store.check("plug", "1.0.0", "fs:read:plugin"),
        CheckOutcome::RequiresPrompt
    );
}

#[test]
fn check_allow_then_deny_after_revoke() {
    let mut store = GrantStore::new_in_memory();
    store
        .record_decision(
            "p",
            "1.0.0",
            "fs:read:plugin",
            Decision::Allow,
            DecidedBy::User,
            None,
        )
        .unwrap();
    assert_eq!(
        store.check("p", "1.0.0", "fs:read:plugin"),
        CheckOutcome::Allow
    );
    store.revoke("p", "1.0.0", "fs:read:plugin").unwrap();
    match store.check("p", "1.0.0", "fs:read:plugin") {
        CheckOutcome::Deny { .. } => {}
        other => panic!("expected Deny, got {other:?}"),
    }
}

#[test]
fn auto_grant_bundled_grants_only_undecided() {
    let mut store = GrantStore::new_in_memory();
    // Pre-record a Deny so auto-grant must not overwrite it.
    store
        .record_decision(
            "bundled",
            "1.0.0",
            "fs:read:any",
            Decision::Deny,
            DecidedBy::User,
            None,
        )
        .unwrap();
    let granted = store.auto_grant_bundled(
        "bundled",
        "1.0.0",
        &["fs:read:any".to_string(), "env".to_string()],
    );
    assert_eq!(granted.len(), 1);
    assert_eq!(granted[0].capability, "env");
    // The pre-existing Deny is untouched.
    let row = store.lookup("bundled", "1.0.0", "fs:read:any").unwrap();
    assert_eq!(row.decision, Decision::Deny);
}

#[test]
fn prompt_finalize_defaults_undecided_to_deny() {
    let pending = vec![
        PendingDecision {
            plugin_id: "p".into(),
            plugin_version: "1.0.0".into(),
            capability: "env".into(),
        },
        PendingDecision {
            plugin_id: "p".into(),
            plugin_version: "1.0.0".into(),
            capability: "fs:read:plugin".into(),
        },
    ];
    let mut prompt = PromptState::new(pending);
    prompt.decide("p", "1.0.0", "env", Decision::Allow);
    let resolved = prompt.finalize();
    assert_eq!(resolved.len(), 2);
    assert_eq!(resolved[0].3, Decision::Allow);
    assert_eq!(resolved[1].3, Decision::Deny);
}

#[test]
fn auto_grant_policy_recognises_bundled_root() {
    let mut policy = AutoGrantPolicy::new();
    policy.trust_bundled_root("/opt/leviathan/plugins");
    assert!(policy.is_bundled("/opt/leviathan/plugins/file_explorer"));
    assert!(!policy.is_bundled("/opt/leviathan/pluginsx/file_explorer"));
    assert!(!policy.is_bundled("/home/user/plugins/file_explorer"));
}

#[test]
fn deny_reason_names_the_capability() {
    let mut store = GrantStore::new_in_memory();
    store
        .record_decision("p", "1.0.0", "env", Decision::Deny, DecidedBy::User, None)
        .unwrap();
    assert_eq!(
        store.check("p", "1.0.0", "env"),
        CheckOutcome::Deny {
            reason: "capability denied: env".to_string()
        }
    );
}

#[test]
fn pending_decision_row_still_requires_prompt() {
    let mut store = GrantStore::new_in_memory();
    store
        .record_decision("p", "1.0.0", "env", Decision::Pending, DecidedBy::Policy, None)
        .unwrap();
    assert_eq!(store.check("p", "1.0.0", "env"), CheckOutcome::RequiresPrompt);
}

#[test]
fn revoke_marks_row_with_note() {
    let mut store = GrantStore::new_in_memory();
    store.revoke("p", "1.0.0", "env").unwrap();
    let row = store.lookup("p", "1.0.0", "env").unwrap();
    assert_eq!(row.decision, Decision::Deny);
    assert_eq!(row.decided_by, DecidedBy::User);
    assert_eq!(row.notes.as_deref(), Some("revoked"));
}

#[test]
fn record_replaces_row_for_same_key() {
    let mut store = GrantStore::new_in_memory();
    store
        .record_decision("p", "1", "env", Decision::Allow, DecidedBy::User, None)
        .unwrap();
    store
        .record_decision("p", "1", "env", Decision::Deny, DecidedBy::Policy, Some("x".into()))
        .unwrap();
    assert_eq!(store.rows().len(), 1);
    let row = store.lookup("p", "1", "env").unwrap();
    assert_eq!(row.decision, Decision::Deny);
    assert_eq!(row.decided_by, DecidedBy::Policy);
}

#[test]
fn rows_are_sorted_by_key() {
    let mut store = GrantStore::new_in_memory();
    for (id, ver, cap) in [
        ("b", "1", "env"),
        ("a", "2", "env"),
        ("a", "1", "fs:read:plugin"),
        ("a", "1", "env"),
    ] {
        store
            .record_decision(id, ver, cap, Decision::Allow, DecidedBy::User, None)
            .unwrap();
    }
    let keys: Vec<(String, String, String)> = store
        .rows()
        .into_iter()
        .map(|r| (r.plugin_id, r.plugin_version, r.capability))
        .collect();
    let expected: Vec<(String, String, String)> = [
        ("a", "1", "env"),
        ("a", "1", "fs:read:plugin"),
        ("a", "2", "env"),
        ("b", "1", "env"),
    ]
    .iter()
    .map(|(a, b, c)| (a.to_string(), b.to_string(), c.to_string()))
    .collect();
    assert_eq!(keys, expected);
}

#[test]
fn granted_at_is_rfc3339_shaped() {
    let mut store = GrantStore::new_in_memory();
    let row = store
        .record_decision("p", "1", "env", Decision::Allow, DecidedBy::User, None)
        .unwrap();
    let t = row.granted_at.as_bytes();
    assert_eq!(t.len(), 20);
    assert_eq!(t[4], b'-');
    assert_eq!(t[10], b'T');
    assert_eq!(t[19], b'Z');
}

#[test]
fn undecided_for_skips_allowed_and_denied_rows() {
    let mut store = GrantStore::new_in_memory();
    store
        .record_decision("p", "1", "env", Decision::Deny, DecidedBy::User, None)
        .unwrap();
    store
        .record_decision("p", "1", "net", Decision::Allow, DecidedBy::User, None)
        .unwrap();
    let undecided = store.undecided_for(
        "p",
        "1",
        &["env".to_string(), "fs:read:any".to_string(), "net".to_string()],
    );
    assert_eq!(undecided, vec!["fs:read:any".to_string()]);
}

#[test]
fn open_and_resolve_prompt_commits_decisions() {
    let mut store = GrantStore::new_in_memory();
    let mut prompt = prompt_for_undecided(&store, "p", "1", &["env".into(), "net".into()]).unwrap();
    prompt.decide("p", "1", "net", Decision::Allow);
    assert!(!prompt.is_resolved());
    store.open_prompt(prompt).unwrap();
    assert!(store.has_pending_prompt("p", "1"));
    assert_eq!(store.pending_prompts().len(), 1);
    let rows = store.resolve_prompt("p", "1").unwrap();
    assert_eq!(rows.len(), 2);
    assert_eq!(rows[0].capability, "env");
    assert_eq!(rows[0].decision, Decision::Deny);
    assert_eq!(rows[1].decision, Decision::Allow);
    assert!(!store.has_pending_prompt("p", "1"));
    assert_eq!(store.check("p", "1", "net"), CheckOutcome::Allow);
    assert!(store.resolve_prompt("p", "1").unwrap().is_empty());
}

#[test]
fn open_prompt_refuses_empty_prompt() {
    let mut store = GrantStore::new_in_memory();
    assert_eq!(
        store.open_prompt(PromptState::new(Vec::new())),
        Err("prompt has no pending decisions".to_string())
    );
}

#[test]
fn prompt_for_undecided_is_none_when_all_decided() {
    let mut store = GrantStore::new_in_memory();
    store
        .record_decision("p", "1", "env", Decision::Allow, DecidedBy::User, None)
        .unwrap();
    assert!(prompt_for_undecided(&store, "p", "1", &["env".into()]).is_none());
}

#[test]
fn overlay_and_summary_describe_prompt() {
    let prompt = PromptState::new(vec![pending("demo", "0.2", "env"), pending("demo", "0.2", "net")]);
    let overlay = OverlayDescriptor::from_prompt(&prompt).unwrap();
    assert_eq!(overlay.kind, "PluginCapabilityPrompt");
    assert_eq!(overlay.title, "demo v0.2 requests 2 capabilities");
    assert_eq!(overlay.pending.len(), 2);
    let summary = PendingPromptSummary::from_prompt(&prompt).unwrap();
    assert_eq!(summary.pending, vec!["env".to_string(), "net".to_string()]);
    assert!(OverlayDescriptor::from_prompt(&PromptState::new(Vec::new())).is_none());
}

#[test]
fn grant_summary_spells_out_decision() {
    let mut store = GrantStore::new_in_memory();
    let row = store
        .record_decision("p", "1", "env", Decision::Allow, DecidedBy::Default, None)
        .unwrap();
    let s = CapabilityGrantSummary::from_row(row);
    assert_eq!(s.decision, "allow");
    assert_eq!(s.decided_by, "default");
    assert_eq!(Decision::Pending.as_str(), "pending");
    assert_eq!(DecidedBy::Policy.as_str(), "policy");
}

#[test]
fn audit_grant_event_records_decider() {
    let mut log = AuditLog::new();
    audit_grant_event(&mut log, "p", "grant.allowed", "env", Some(DecidedBy::User));
    audit_grant_event(&mut log, "p", "grant.revoked", "env", None);
    let entries = log.entries();
    assert_eq!(entries.len(), 2);
    assert_eq!(entries[0].target, "env|by=user");
    assert_eq!(entries[0].capability, "grant.allowed");
    assert_eq!(entries[0].outcome, AuditOutcome::Allowed);
    assert_eq!(entries[1].target, "env");
    log.clear();
    assert!(log.entries().is_empty());
}

#[test]
fn reloaded_rows_give_the_same_grants() {
    let mut store = GrantStore::new_in_memory();
    store
        .record_decision("p", "1.0", "fs.read", Decision::Allow, DecidedBy::User, None)
        .unwrap();
    store
        .record_decision("p", "1.0", "network", Decision::Deny, DecidedBy::User, None)
        .unwrap();
    let rows = store.rows();
    let mut reloaded = GrantStore::new_in_memory();
    reloaded.load_rows(rows.clone());
    assert_eq!(reloaded.rows().len(), 2);
    assert!(matches!(reloaded.check("p", "1.0", "fs.read"), CheckOutcome::Allow));
    assert!(matches!(reloaded.check("p", "1.0", "network"), CheckOutcome::Deny { .. }));
    let original = store.lookup("p", "1.0", "fs.read").unwrap();
    let restored = reloaded.lookup("p", "1.0", "fs.read").unwrap();
    assert_eq!(original.granted_at, restored.granted_at);
}

#[test]
fn load_rows_lets_a_later_row_win() {
    let mut store = GrantStore::new_in_memory();
    let mut first = store
        .record_decision("p", "1.0", "env", Decision::Allow, DecidedBy::User, None)
        .unwrap();
    first.decision = Decision::Deny;
    let mut other = GrantStore::new_in_memory();
    let allow = store.lookup("p", "1.0", "env").unwrap();
    other.load_rows(vec![allow, first]);
    assert!(matches!(other.check("p", "1.0", "env"), CheckOutcome::Deny { .. }));
    assert_eq!(other.rows().len(), 1);
}

#[test]
fn repeated_auto_grant_grants_nothing() {
    let mut store = GrantStore::new_in_memory();
    let requested = ["env".to_string(), "net".to_string()];
    assert_eq!(store.auto_grant_bundled("bundled", "1.0.0", &requested).len(), 2);
    assert!(store.auto_grant_bundled("bundled", "1.0.0", &requested).is_empty());
    assert_eq!(store.lookup("bundled", "1.0.0", "net").unwrap().decision, Decision::Allow);
}

#[test]
fn a_capability_left_pending_is_committed_as_deny() {
    let mut prompt = PromptState::new(vec![pending("p", "1.0.0", "env"), pending("p", "1.0.0", "net")]);
    prompt.decide("p", "1.0.0", "env", Decision::Pending);
    prompt.decide("p", "1.0.0", "net", Decision::Allow);
    let resolved = prompt.finalize();
    assert_eq!(resolved[0].3, Decision::Deny);
    assert_eq!(resolved[1].3, Decision::Allow);
}
