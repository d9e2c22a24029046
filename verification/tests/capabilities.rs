use leviathan_plugins::audit::{AuditLog, AuditOutcome};
use leviathan_plugins::capabilities::{CapabilityGuard, FsAccess, FsGrant, FsScope, ScopeResolver};
use leviathan_plugins::diagnostic::{DiagnosticStore, SourceSpan};
use leviathan_plugins::grants::{DecidedBy, Decision, GrantStore};
use leviathan_plugins::json::JsonValue;

fn guard(plugin_id: &str, requested: Vec<&str>) -> CapabilityGuard {
    CapabilityGuard::new(
        plugin_id,
        "1.0.0",
        requested.into_iter().map(String::from).collect(),
        "/plugins/p",
        "/state/p",
        "/config/p",
        None,
    )
}

fn fs_check(g: &mut CapabilityGuard, store: &GrantStore, path: &str, requested: &[(String, FsGrant)]) -> Result<(), String> {
    let resolved = g.resolver().resolve(path);
    g.check_fs_self(store, requested, path, &resolved, FsAccess::Read)
}

#[test]
fn check_named_allows_after_grant() {
    let mut store = GrantStore::new_in_memory();
    let mut g = guard("p", vec!["env"]);
    assert!(g.check_named(&store, "env", None).is_err(), "no grant yet");
    store.record_decision("p", "1.0.0", "env", Decision::Allow, DecidedBy::Default, None).unwrap();
    assert!(g.check_named(&store, "env", None).is_ok());
}

#[test]
fn check_named_rejects_undeclared_even_if_granted() {
    let mut store = GrantStore::new_in_memory();
    let mut g = guard("p", vec![]);
    store.record_decision("p", "1.0.0", "env", Decision::Allow, DecidedBy::Default, None).unwrap();
    assert_eq!(g.check_named(&store, "env", None).unwrap_err(), "capability not declared: env");
}

#[test]
fn fs_read_uses_grant_store_for_scope_check() {
    let mut store = GrantStore::new_in_memory();
    let mut g = guard("p", vec!["fs:read:plugin"]);
    let requested = vec![("fs:read:plugin".to_string(), FsGrant::Read { scope: FsScope::Plugin })];
    assert!(fs_check(&mut g, &store, "a.txt", &requested).is_err());
    store.record_decision("p", "1.0.0", "fs:read:plugin", Decision::Allow, DecidedBy::Default, None).unwrap();
    assert!(fs_check(&mut g, &store, "a.txt", &requested).is_ok());
    assert!(fs_check(&mut g, &store, "/etc/passwd", &requested).is_err());
}

#[test]
fn audit_records_denial() {
    let store = GrantStore::new_in_memory();
    let mut g = guard("test_plugin", vec![]).with_audit(AuditLog::new());
    let _ = fs_check(&mut g, &store, "/etc/passwd", &[]);
    let entries = g.audit_log().unwrap().entries();
    assert_eq!(entries.len(), 1);
    assert_eq!(entries[0].plugin_id, "test_plugin");
    assert_eq!(entries[0].outcome, AuditOutcome::Denied);
    assert_eq!(entries[0].capability, "fs:read");
}

#[test]
fn audit_records_allowance() {
    let mut store = GrantStore::new_in_memory();
    store.record_decision("p", "1.0.0", "fs:read:plugin", Decision::Allow, DecidedBy::Default, None).unwrap();
    let mut g = guard("p", vec!["fs:read:plugin"]).with_audit(AuditLog::new());
    let requested = vec![("fs:read:plugin".to_string(), FsGrant::Read { scope: FsScope::Plugin })];
    let _ = fs_check(&mut g, &store, "/plugins/p/anything.txt", &requested);
    let entries = g.audit_log().unwrap().entries();
    assert_eq!(entries.len(), 1);
    assert_eq!(entries[0].outcome, AuditOutcome::Allowed);
}

#[test]
fn audit_off_when_not_attached() {
    let log = AuditLog::new();
    let store = GrantStore::new_in_memory();
    let mut g = guard("p", vec![]);
    let _ = fs_check(&mut g, &store, "/x", &[]);
    assert!(log.entries().is_empty(), "log should be empty when no audit attached");
    assert!(g.audit_log().is_none());
}

#[test]
fn scope_resolver_blocks_symlink_outside_granted_scope() {
    let resolver = ScopeResolver {
        plugin_root: "/tmp/t",
        state_dir: "/tmp/t",
        config_dir: "/tmp/t",
        workdir: None,
    };
    let granted = vec![FsGrant::ReadDir { dir: "/tmp/t/safe".into(), canonical_dir: "/tmp/t/safe".into() }];
    let target = "/tmp/t/safe/link/secret.txt";
    // `safe/link` is a symlink to `/tmp/t/denied`.
    let canonical = "/tmp/t/denied/secret.txt";
    let err = resolver.check_scope(target, target, canonical, &granted, FsAccess::Read).unwrap_err();
    assert_eq!(err.0, "capability.path_outside_scope");
    assert_eq!(err.1, "path `/tmp/t/safe/link/secret.txt` resolves outside scope `/tmp/t/safe` via symlink");
    let ok = resolver.check_scope("/tmp/t/safe/a", "/tmp/t/safe/a", "/tmp/t/safe/a", &granted, FsAccess::Read).unwrap();
    assert_eq!(ok, "/tmp/t/safe/a");
    let denied = resolver.check_scope("x", "/tmp/t/x", "/tmp/t/x", &granted, FsAccess::Write).unwrap_err();
    assert_eq!(denied, ("capability.denied".to_string(), "capability denied: fs:write for x".to_string()));
}

#[test]
fn revoked_grant_is_reported_as_revoked() {
    let mut store = GrantStore::new_in_memory();
    store.record_decision("p", "1.0.0", "env", Decision::Allow, DecidedBy::Default, None).unwrap();
    store.revoke("p", "1.0.0", "env").unwrap();
    let mut g = guard("p", vec!["env"]).with_diagnostics(DiagnosticStore::new(), "p", 7);
    assert_eq!(g.check_named(&store, "env", None).unwrap_err(), "capability denied: env");
    let d = g.diagnostics().unwrap().tail(1).remove(0);
    assert_eq!(d.code, "capability.revoked");
    assert_eq!(d.generation_id, Some(7));
}

#[test]
fn service_caller_must_hold_the_capability_too() {
    let mut store = GrantStore::new_in_memory();
    store.record_decision("svc", "1.0.0", "git:write", Decision::Allow, DecidedBy::Default, None).unwrap();
    let mut service = guard("svc", vec!["git:write"]);
    let mut caller = guard("client", vec!["git:write"]);
    let err = service.check_named(&store, "git:write", Some(&mut caller)).unwrap_err();
    assert_eq!(
        err,
        "service caller `client` lacks capability `git:write`: capability denied: git:write (no decision recorded)"
    );
    assert!(service.check_named(&store, "git:write", None).is_ok());
}

#[test]
fn fs_check_asks_the_service_caller_too() {
    let mut store = GrantStore::new_in_memory();
    store.record_decision("p", "1.0.0", "fs:read:any", Decision::Allow, DecidedBy::User, None).unwrap();
    let requested = vec![("fs:read:any".to_string(), FsGrant::Read { scope: FsScope::Any })];
    let mut g = guard("p", vec!["fs:read:any"]);
    let mut caller = guard("q", vec![]);
    let err = g
        .check_fs(&store, &requested, "/etc/hosts", "/etc/hosts", FsAccess::Read, Some(&mut caller), &[], "/etc/hosts")
        .unwrap_err();
    assert_eq!(err, "service caller `q` lacks fs:read access for `/etc/hosts`: capability denied: fs:read for /etc/hosts");
    assert!(g.check_fs(&store, &requested, "/etc/hosts", "/etc/hosts", FsAccess::Read, None, &[], "").is_ok());
    let mut same = guard("p", vec![]);
    assert!(g
        .check_fs(&store, &requested, "/etc/hosts", "/etc/hosts", FsAccess::Read, Some(&mut same), &[], "/etc/hosts")
        .is_ok());
}

#[test]
fn env_check_needs_the_env_capability() {
    let mut store = GrantStore::new_in_memory();
    let mut undeclared = guard("p", vec![]);
    assert_eq!(undeclared.check_env(&store, None).unwrap_err(), "capability not declared: env");
    store.record_decision("p", "1.0.0", "env", Decision::Allow, DecidedBy::User, None).unwrap();
    let mut g = guard("p", vec!["env"]);
    assert!(g.check_env(&store, None).is_ok());
    let mut caller = guard("q", vec!["env"]);
    assert_eq!(
        g.check_env(&store, Some(&mut caller)).unwrap_err(),
        "service caller `q` lacks env access: capability denied: env (no decision recorded)"
    );
}

#[test]
fn a_capability_diagnostic_names_capability_target_and_version() {
    let store = GrantStore::new_in_memory();
    let mut g = guard("p", vec!["env"]).with_diagnostics(DiagnosticStore::new(), "p", 3);
    assert!(g.check_named(&store, "git:write", None).is_err());
    let d = g.diagnostics().unwrap().tail(1).remove(0);
    assert_eq!(d.code, "capability.denied");
    assert!(matches!(&d.source, Some(SourceSpan::ApiFunction { name }) if name == "capability:git:write"));
    let ctx = d.context.expect("capability detail");
    let fields: Vec<(String, String)> = match ctx {
        JsonValue::Object(entries) => entries
            .into_iter()
            .map(|(k, v)| match v {
                JsonValue::Str(s) => (k, s),
                _ => (k, String::from("?")),
            })
            .collect(),
        _ => Vec::new(),
    };
    assert_eq!(
        fields,
        vec![
            ("capability".to_string(), "git:write".to_string()),
            ("target".to_string(), String::new()),
            ("plugin_version".to_string(), "1.0.0".to_string()),
        ]
    );
}
