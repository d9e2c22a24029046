//! Capability enforcement for plugin host calls.
//!
//! A [`CapabilityGuard`] is a plugin's handle on its capabilities: what
//! its manifest requested, and where its files live. A capability is
//! usable only when the manifest requested it and the grant store holds
//! an `Allow` decision for it; every check is written to the audit log
//! and every denial to the diagnostics, when those are attached.
//!
//! File-system checks go through a [`ScopeResolver`], which decides from
//! a path as given, as resolved against the plugin root, and as
//! canonicalised (symlinks followed), so that a link that leads out of a
//! granted directory is refused.

use vstd::prelude::*;
use crate::text::{str_to_string, str_concat, str_eq, cat3, cat5, contains_str, string_views, opt_str_view};
use crate::paths::{path_starts_with, path_starts_with_str, join_spec, resolve_for_read};
use crate::audit::{AuditLog, AuditOutcome, AuditEntryV};
use crate::diagnostic::{DiagnosticSeverity, PluginDiagnostic, DiagnosticStore, DiagnosticView, SourceSpan, SourceSpanV};
use crate::json::{JsonValue, JsonV, json_view, entry_json_views, str_json, put_field};
use crate::grants::{GrantStore, GrantKey, GrantRowV, Decision, CheckOutcome};

verus! {

/// A named directory a file-system capability can cover.
#[derive(Debug, Clone, Copy, PartialEq, Eq, Structural)]
pub enum FsScope {
    Plugin,
    State,
    Config,
    Workdir,
    /// Every path.
    Any,
}

/// A granted file-system capability. Directory grants carry the
/// directory as written and as canonicalised.
#[derive(Debug, Clone)]
pub enum FsGrant {
    Read { scope: FsScope },
    Write { scope: FsScope },
    ReadDir { dir: String, canonical_dir: String },
    WriteDir { dir: String, canonical_dir: String },
    Watch { scope: FsScope },
    WatchDir { dir: String, canonical_dir: String },
}

/// The directories the named scopes stand for.
pub struct ScopeResolver<'a> {
    pub plugin_root: &'a str,
    pub state_dir: &'a str,
    pub config_dir: &'a str,
    pub workdir: Option<&'a str>,
}

/// Which kind of access a check is for.
#[derive(Debug, Clone, Copy, PartialEq, Eq, Structural)]
pub enum FsAccess {
    Read,
    Write,
    Watch,
}

pub open spec fn access_label(a: FsAccess) -> Seq<char> {
    match a {
        FsAccess::Read => "read"@,
        FsAccess::Write => "write"@,
        FsAccess::Watch => "watch"@,
    }
}

/// The capability label an access is audited under.
pub open spec fn access_capability(a: FsAccess) -> Seq<char> {
    "fs:"@ + access_label(a)
}

pub open spec fn outside_scope_message(path: Seq<char>, dir: Seq<char>) -> Seq<char> {
    "path `"@ + path + "` resolves outside scope `"@ + dir + "` via symlink"@
}

pub open spec fn scope_denied_message(a: FsAccess, path: Seq<char>) -> Seq<char> {
    "capability denied: fs:"@ + access_label(a) + " for "@ + path
}

/// The plugin root, state, config and work directories.
pub type Dirs = (Seq<char>, Seq<char>, Seq<char>, Option<Seq<char>>);

pub open spec fn resolver_dirs(r: ScopeResolver) -> Dirs {
    (r.plugin_root@, r.state_dir@, r.config_dir@, match r.workdir {
        Some(w) => Some(w@),
        None => None,
    })
}

pub open spec fn scope_root_spec(d: Dirs, scope: FsScope) -> Option<Seq<char>> {
    match scope {
        FsScope::Plugin => Some(d.0),
        FsScope::State => Some(d.1),
        FsScope::Config => Some(d.2),
        FsScope::Workdir => d.3,
        FsScope::Any => Some("/"@),
    }
}

/// The scope and directory a grant covers for access `a`, if it is of
/// the matching kind.
pub open spec fn grant_scope(g: FsGrant, a: FsAccess) -> Option<FsScope> {
    match (g, a) {
        (FsGrant::Read { scope }, FsAccess::Read) => Some(scope),
        (FsGrant::Write { scope }, FsAccess::Write) => Some(scope),
        (FsGrant::Watch { scope }, FsAccess::Watch) => Some(scope),
        _ => None,
    }
}

pub open spec fn grant_dir(g: FsGrant, a: FsAccess) -> Option<(Seq<char>, Seq<char>)> {
    match (g, a) {
        (FsGrant::ReadDir { dir, canonical_dir }, FsAccess::Read) => Some((dir@, canonical_dir@)),
        (FsGrant::WriteDir { dir, canonical_dir }, FsAccess::Write) => Some((dir@, canonical_dir@)),
        (FsGrant::WatchDir { dir, canonical_dir }, FsAccess::Watch) => Some((dir@, canonical_dir@)),
        _ => None,
    }
}

/// The decision on access `a` to `path` (resolved against the plugin
/// root to `resolved`, canonicalised to `canonical`) under `granted`,
/// the first grant that decides winning: a scope grant allows a path
/// inside its directory; a directory grant allows a path inside its
/// canonical directory, and refuses one that lies inside the directory
/// as written but not once canonicalised (a symlink out). Without a
/// deciding grant the access is denied.
pub open spec fn scope_decision(
    r: Dirs,
    path: Seq<char>,
    resolved: Seq<char>,
    canonical: Seq<char>,
    granted: Seq<FsGrant>,
    a: FsAccess,
) -> Result<Seq<char>, (Seq<char>, Seq<char>)>
    decreases granted.len(),
{
    if granted.len() == 0 {
        Err(("capability.denied"@, scope_denied_message(a, path)))
    } else {
        let g = granted[0];
        let rest = scope_decision(r, path, resolved, canonical, granted.drop_first(), a);
        match grant_scope(g, a) {
            Some(scope) => match scope_root_spec(r, scope) {
                Some(root) => if path_starts_with(canonical, root) { Ok(canonical) } else { rest },
                None => rest,
            },
            None => match grant_dir(g, a) {
                Some((dir, cdir)) => if path_starts_with(canonical, cdir) {
                    Ok(canonical)
                } else if path_starts_with(resolved, dir) {
                    Err(("capability.path_outside_scope"@, outside_scope_message(path, dir)))
                } else {
                    rest
                },
                None => rest,
            },
        }
    }
}

pub open spec fn decision_view(d: Result<String, (String, String)>) -> Result<Seq<char>, (Seq<char>, Seq<char>)> {
    match d {
        Ok(p) => Ok(p@),
        Err((c, m)) => Err((c@, m@)),
    }
}

impl<'a> ScopeResolver<'a> {
    pub fn scope_root(&self, scope: FsScope) -> (r: Option<&'a str>)
        ensures
            match r {
                Some(s) => scope_root_spec(resolver_dirs(*self), scope) == Some(s@),
                None => scope_root_spec(resolver_dirs(*self), scope) is None,
            },
    {
        match scope {
            FsScope::Plugin => Some(self.plugin_root),
            FsScope::State => Some(self.state_dir),
            FsScope::Config => Some(self.config_dir),
            FsScope::Workdir => self.workdir,
            FsScope::Any => Some("/"),
        }
    }

    /// `path` as an absolute location: itself when absolute, else joined
    /// onto the plugin root.
    pub fn resolve(&self, path: &str) -> (r: String)
        ensures
            r@ == join_spec(self.plugin_root@, path@),
    {
        resolve_for_read(self.plugin_root, path)
    }

    /// Decide access `access` to `path`; see [`scope_decision`]. `resolved`
    /// is [`ScopeResolver::resolve`] of `path` and `canonical` its
    /// canonical form (or `resolved` itself when it cannot be
    /// canonicalised). Gives the canonical path, or the diagnostic code and
    /// message of the refusal.
    pub fn check_scope(
        &self,
        path: &str,
        resolved: &str,
        canonical: &str,
        granted: &[FsGrant],
        access: FsAccess,
    ) -> (r: Result<String, (String, String)>)
        ensures
            decision_view(r) == scope_decision(resolver_dirs(*self), path@, resolved@, canonical@, granted@, access),
    {
        let mut i: usize = 0;
        assert(granted@.subrange(0, granted@.len() as int) =~= granted@);
        while i < granted.len()
            invariant
                i <= granted.len(),
                scope_decision(resolver_dirs(*self), path@, resolved@, canonical@, granted@, access) == scope_decision(
                    resolver_dirs(*self),
                    path@,
                    resolved@,
                    canonical@,
                    granted@.subrange(i as int, granted@.len() as int),
                    access,
                ),
            decreases granted.len() - i,
        {
            let ghost rest = granted@.subrange(i as int, granted@.len() as int);
            assert(rest[0] == granted@[i as int]);
            assert(rest.drop_first() =~= granted@.subrange(i + 1, granted@.len() as int));
            let g = &granted[i];
            let scope: Option<FsScope> = match (g, access) {
                (FsGrant::Read { scope }, FsAccess::Read) => Some(*scope),
                (FsGrant::Write { scope }, FsAccess::Write) => Some(*scope),
                (FsGrant::Watch { scope }, FsAccess::Watch) => Some(*scope),
                _ => None,
            };
            match scope {
                Some(s) => {
                    match self.scope_root(s) {
                        Some(root) => {
                            if path_starts_with_str(canonical, root) {
                                return Ok(str_to_string(canonical));
                            }
                        },
                        None => {},
                    }
                },
                None => {
                    let dir: Option<(&String, &String)> = match (g, access) {
                        (FsGrant::ReadDir { dir, canonical_dir }, FsAccess::Read) => Some((dir, canonical_dir)),
                        (FsGrant::WriteDir { dir, canonical_dir }, FsAccess::Write) => Some((dir, canonical_dir)),
                        (FsGrant::WatchDir { dir, canonical_dir }, FsAccess::Watch) => Some((dir, canonical_dir)),
                        _ => None,
                    };
                    match dir {
                        Some((d, cd)) => {
                            if path_starts_with_str(canonical, cd.as_str()) {
                                return Ok(str_to_string(canonical));
                            }
                            if path_starts_with_str(resolved, d.as_str()) {
                                let msg = cat5("path `", path, "` resolves outside scope `", d.as_str(), "` via symlink");
                                return Err((str_to_string("capability.path_outside_scope"), msg));
                            }
                        },
                        None => {},
                    }
                },
            }
            i += 1;
        }
        let label = match access {
            FsAccess::Read => "read",
            FsAccess::Write => "write",
            FsAccess::Watch => "watch",
        };
        let mut msg = cat3("capability denied: fs:", label, " for ");
        msg.append(path);
        Err((str_to_string("capability.denied"), msg))
    }
}

// ---------------------------------------------------------------------
// The guard

/// What a check by name answers, what the audit log records, and the
/// diagnostic code and message of a denial: a capability the manifest
/// did not request is refused outright; otherwise the grant store
/// decides, a missing or pending decision counting as a denial.
pub open spec fn named_outcome(
    requested: Seq<Seq<char>>,
    grants: Map<GrantKey, GrantRowV>,
    plugin_id: Seq<char>,
    plugin_version: Seq<char>,
    cap: Seq<char>,
) -> (Result<(), Seq<char>>, AuditOutcome, Option<(Seq<char>, Seq<char>)>) {
    let k = (plugin_id, plugin_version, cap);
    if !requested.contains(cap) {
        (
            Err("capability not declared: "@ + cap),
            AuditOutcome::Denied,
            Some(("capability.denied"@, "capability `"@ + cap + "` not declared in plugin.toml"@)),
        )
    } else if !grants.contains_key(k) || grants[k].decision == Decision::Pending {
        let msg = "capability denied: "@ + cap + " (no decision recorded)"@;
        (Err(msg), AuditOutcome::Denied, Some(("capability.denied"@, msg)))
    } else if grants[k].decision == Decision::Allow {
        (Ok(()), AuditOutcome::Allowed, None)
    } else {
        let reason = "capability denied: "@ + cap;
        let code = if grants[k].notes == Some("revoked"@) { "capability.revoked"@ } else { "capability.denied"@ };
        (Err(reason), AuditOutcome::Denied, Some((code, reason)))
    }
}

pub open spec fn unit_view(r: Result<(), String>) -> Result<(), Seq<char>> {
    match r {
        Ok(u) => Ok(u),
        Err(e) => Err(e@),
    }
}

/// Where a guard sends diagnostics: the store, and the plugin and
/// generation they are filed under.
pub struct DiagnosticSink {
    pub store: DiagnosticStore,
    pub plugin_id: String,
    pub generation_id: u64,
}

/// A plugin's handle on its capabilities.
pub struct CapabilityGuard {
    plugin_id: String,
    plugin_version: String,
    requested: Vec<String>,
    plugin_root: String,
    state_dir: String,
    config_dir: String,
    workdir: Option<String>,
    audit: Option<AuditLog>,
    diagnostics: Option<DiagnosticSink>,
}

pub open spec fn audit_after(a: Option<Seq<AuditEntryV>>, e: AuditEntryV) -> Option<Seq<AuditEntryV>> {
    match a {
        Some(l) => Some(l.push(e)),
        None => None,
    }
}

/// The detail a capability diagnostic carries.
pub open spec fn guard_context(capability: Seq<char>, target: Seq<char>, plugin_version: Seq<char>) -> JsonV {
    JsonV::Object(
        Seq::empty()
            .push(("capability"@, JsonV::Str(capability)))
            .push(("target"@, JsonV::Str(target)))
            .push(("plugin_version"@, JsonV::Str(plugin_version))),
    )
}

/// The diagnostics after a check of `capability` on `target` by version
/// `plugin_version` that leaves `note` (code and message), if any.
pub open spec fn diags_after(
    d: Option<(Seq<DiagnosticView>, Seq<char>, u64)>,
    note: Option<(Seq<char>, Seq<char>)>,
    capability: Seq<char>,
    target: Seq<char>,
    plugin_version: Seq<char>,
) -> Option<(Seq<DiagnosticView>, Seq<char>, u64)> {
    match (d, note) {
        (Some((l, p, g)), Some((code, msg))) => Some((
            l.push(DiagnosticView {
                plugin_id: p,
                severity: DiagnosticSeverity::Error,
                code,
                message: msg,
                generation_id: Some(g),
                source: Some(SourceSpanV::ApiFunction("capability:"@ + capability)),
                context: Some(guard_context(capability, target, plugin_version)),
            }),
            p,
            g,
        )),
        _ => d,
    }
}

fn guard_context_json(capability: &str, target: &str, plugin_version: &str) -> (r: JsonValue)
    ensures
        json_view(r) == guard_context(capability@, target@, plugin_version@),
{
    let mut f: Vec<(String, JsonValue)> = Vec::new();
    assert(entry_json_views(f@) == Seq::<(Seq<char>, JsonV)>::empty());
    put_field(&mut f, "capability", str_json(capability));
    put_field(&mut f, "target", str_json(target));
    put_field(&mut f, "plugin_version", str_json(plugin_version));
    let r = JsonValue::Object(f);
    assert(json_view(r) == JsonV::Object(entry_json_views(f@)));
    r
}

impl CapabilityGuard {
    pub closed spec fn id(&self) -> Seq<char> {
        self.plugin_id@
    }

    pub closed spec fn version(&self) -> Seq<char> {
        self.plugin_version@
    }

    /// The requested capabilities, in string form.
    pub closed spec fn requested_caps(&self) -> Seq<Seq<char>> {
        string_views(self.requested@)
    }

    /// The attached audit log's entries.
    pub closed spec fn audit_spec(&self) -> Option<Seq<AuditEntryV>> {
        match self.audit {
            Some(l) => Some(l.log()),
            None => None,
        }
    }

    /// The attached diagnostics: entries, plugin and generation filed under.
    pub closed spec fn diag_spec(&self) -> Option<(Seq<DiagnosticView>, Seq<char>, u64)> {
        match self.diagnostics {
            Some(s) => Some((s.store.log(), s.plugin_id@, s.generation_id)),
            None => None,
        }
    }

    pub closed spec fn dirs(&self) -> (Seq<char>, Seq<char>, Seq<char>, Option<Seq<char>>) {
        (self.plugin_root@, self.state_dir@, self.config_dir@, opt_str_view(self.workdir))
    }

    pub fn new(
        plugin_id: &str,
        plugin_version: &str,
        requested: Vec<String>,
        plugin_root: &str,
        state_dir: &str,
        config_dir: &str,
        workdir: Option<String>,
    ) -> (r: Self)
        ensures
            r.id() == plugin_id@,
            r.version() == plugin_version@,
            r.requested_caps() == string_views(requested@),
            r.dirs() == (plugin_root@, state_dir@, config_dir@, opt_str_view(workdir)),
            r.audit_spec() is None,
            r.diag_spec() is None,
    {
        CapabilityGuard {
            plugin_id: str_to_string(plugin_id),
            plugin_version: str_to_string(plugin_version),
            requested,
            plugin_root: str_to_string(plugin_root),
            state_dir: str_to_string(state_dir),
            config_dir: str_to_string(config_dir),
            workdir,
            audit: None,
            diagnostics: None,
        }
    }

    /// The same guard, recording every check in `log`.
    pub fn with_audit(self, log: AuditLog) -> (r: Self)
        ensures
            r.audit_spec() == Some(log.log()),
            r.id() == self.id() && r.version() == self.version() && r.requested_caps() == self.requested_caps(),
            r.dirs() == self.dirs() && r.diag_spec() == self.diag_spec(),
    {
        CapabilityGuard { audit: Some(log), ..self }
    }

    /// The same guard, filing every denial as an error diagnostic in
    /// `store` under `plugin_id` and `generation_id`.
    pub fn with_diagnostics(self, store: DiagnosticStore, plugin_id: &str, generation_id: u64) -> (r: Self)
        ensures
            r.diag_spec() == Some((store.log(), plugin_id@, generation_id)),
            r.id() == self.id() && r.version() == self.version() && r.requested_caps() == self.requested_caps(),
            r.dirs() == self.dirs() && r.audit_spec() == self.audit_spec(),
    {
        CapabilityGuard {
            diagnostics: Some(DiagnosticSink { store, plugin_id: str_to_string(plugin_id), generation_id }),
            ..self
        }
    }

    pub fn plugin_id(&self) -> (r: &str)
        ensures
            r@ == self.id(),
    {
        self.plugin_id.as_str()
    }

    pub fn plugin_version(&self) -> (r: &str)
        ensures
            r@ == self.version(),
    {
        self.plugin_version.as_str()
    }

    pub fn plugin_root(&self) -> (r: &str)
        ensures
            r@ == self.dirs().0,
    {
        self.plugin_root.as_str()
    }

    pub fn audit_log(&self) -> (r: Option<&AuditLog>)
        ensures
            match r {
                Some(l) => self.audit_spec() == Some(l.log()),
                None => self.audit_spec() is None,
            },
    {
        match &self.audit {
            Some(l) => Some(l),
            None => None,
        }
    }

    pub fn diagnostics(&self) -> (r: Option<&DiagnosticStore>)
        ensures
            match r {
                Some(s) => self.diag_spec() matches Some((l, _, _)) && l == s.log(),
                None => self.diag_spec() is None,
            },
    {
        match &self.diagnostics {
            Some(s) => Some(&s.store),
            None => None,
        }
    }

    /// The manifest requested `capability` (granted or not).
    pub fn requested(&self, capability: &str) -> (r: bool)
        ensures
            r == self.requested_caps().contains(capability@),
    {
        contains_str(&self.requested, capability)
    }

    /// The directories the guard's scopes stand for.
    pub fn resolver(&self) -> (r: ScopeResolver<'_>)
        ensures
            r.plugin_root@ == self.dirs().0,
            r.state_dir@ == self.dirs().1,
            r.config_dir@ == self.dirs().2,
            match r.workdir {
                Some(w) => self.dirs().3 == Some(w@),
                None => self.dirs().3 is None,
            },
    {
        ScopeResolver {
            plugin_root: self.plugin_root.as_str(),
            state_dir: self.state_dir.as_str(),
            config_dir: self.config_dir.as_str(),
            workdir: match &self.workdir {
                Some(w) => Some(w.as_str()),
                None => None,
            },
        }
    }

    fn record(&mut self, capability: &str, target: &str, outcome: AuditOutcome, note: Option<(&str, &str)>)
        ensures
            final(self).id() == old(self).id(),
            final(self).version() == old(self).version(),
            final(self).requested_caps() == old(self).requested_caps(),
            final(self).dirs() == old(self).dirs(),
            final(self).audit_spec() == audit_after(
                old(self).audit_spec(),
                AuditEntryV { plugin_id: old(self).id(), capability: capability@, target: target@, outcome },
            ),
            final(self).diag_spec() == diags_after(
                old(self).diag_spec(),
                match note {
                    Some((c, m)) => Some((c@, m@)),
                    None => None,
                },
                capability@,
                target@,
                old(self).version(),
            ),
    {
        match &mut self.audit {
            Some(log) => log.record(self.plugin_id.as_str(), capability, target, outcome),
            None => {},
        }
        match note {
            Some((code, message)) => match &mut self.diagnostics {
                Some(sink) => {
                    let d = PluginDiagnostic::new(
                        sink.plugin_id.clone(),
                        DiagnosticSeverity::Error,
                        code,
                        str_to_string(message),
                    ).with_generation(sink.generation_id).with_source(SourceSpan::ApiFunction { name: str_concat("capability:", capability) }).with_context(
                        guard_context_json(capability, target, self.plugin_version.as_str()),
                    );
                    sink.store.record(d);
                },
                None => {},
            },
            None => {},
        }
    }

    /// Check `capability` for this plugin alone; see [`named_outcome`].
    pub fn check_named_self(&mut self, store: &GrantStore, capability: &str) -> (r: Result<(), String>)
        ensures
            ({
                let o = named_outcome(old(self).requested_caps(), store.grants(), old(self).id(), old(self).version(), capability@);
                &&& unit_view(r) == o.0
                &&& final(self).audit_spec() == audit_after(
                    old(self).audit_spec(),
                    AuditEntryV { plugin_id: old(self).id(), capability: capability@, target: Seq::empty(), outcome: o.1 },
                )
                &&& final(self).diag_spec() == diags_after(old(self).diag_spec(), o.2, capability@, Seq::empty(), old(self).version())
            }),
            final(self).id() == old(self).id(),
            final(self).version() == old(self).version(),
            final(self).requested_caps() == old(self).requested_caps(),
            final(self).dirs() == old(self).dirs(),
    {
        proof {
            reveal_strlit("");
            assert(""@ =~= Seq::<char>::empty());
        }
        if !contains_str(&self.requested, capability) {
            let msg = cat3("capability `", capability, "` not declared in plugin.toml");
            self.record(capability, "", AuditOutcome::Denied, Some(("capability.denied", msg.as_str())));
            return Err(str_concat("capability not declared: ", capability));
        }
        let id = self.plugin_id.clone();
        let ver = self.plugin_version.clone();
        match store.check(id.as_str(), ver.as_str(), capability) {
            CheckOutcome::Allow => {
                self.record(capability, "", AuditOutcome::Allowed, None);
                Ok(())
            },
            CheckOutcome::Deny { reason } => {
                let revoked = match store.lookup(id.as_str(), ver.as_str(), capability) {
                    Some(row) => match &row.notes {
                        Some(n) => str_eq(n.as_str(), "revoked"),
                        None => false,
                    },
                    None => false,
                };
                let code = if revoked { "capability.revoked" } else { "capability.denied" };
                self.record(capability, "", AuditOutcome::Denied, Some((code, reason.as_str())));
                Err(reason)
            },
            CheckOutcome::RequiresPrompt => {
                let msg = cat3("capability denied: ", capability, " (no decision recorded)");
                self.record(capability, "", AuditOutcome::Denied, Some(("capability.denied", msg.as_str())));
                Err(msg)
            },
        }
    }

    /// Check `capability` for this plugin and, when another plugin's
    /// service call is running on its behalf (`caller`), for that caller
    /// too: the caller's refusal is reported as
    /// `service caller <id> lacks capability <capability>: <reason>`.
    pub fn check_named(
        &mut self,
        store: &GrantStore,
        capability: &str,
        caller: Option<&mut CapabilityGuard>,
    ) -> (r: Result<(), String>)
        ensures
            ({
                let own = named_outcome(old(self).requested_caps(), store.grants(), old(self).id(), old(self).version(), capability@);
                match own.0 {
                    Err(e) => r matches Err(x) && x@ == e,
                    Ok(_) => match caller {
                        Some(c) => if (*c).id() != old(self).id() {
                            match named_outcome((*c).requested_caps(), store.grants(), (*c).id(), (*c).version(), capability@).0 {
                                Ok(_) => r is Ok,
                                Err(e) => r matches Err(x) && x@ == "service caller `"@ + (*c).id() + "` lacks capability `"@ + capability@ + "`: "@ + e,
                            }
                        } else {
                            r is Ok
                        },
                        None => r is Ok,
                    },
                }
            }),
            final(self).id() == old(self).id(),
            final(self).requested_caps() == old(self).requested_caps(),
    {
        match self.check_named_self(store, capability) {
            Err(e) => return Err(e),
            Ok(()) => {},
        }
        match caller {
            Some(c) => {
                if str_eq(c.plugin_id.as_str(), self.plugin_id.as_str()) {
                    return Ok(());
                }
                match c.check_named_self(store, capability) {
                    Ok(()) => Ok(()),
                    Err(reason) => {
                        let mut msg = cat5("service caller `", c.plugin_id.as_str(), "` lacks capability `", capability, "`: ");
                        msg.append(reason.as_str());
                        Err(msg)
                    },
                }
            },
            None => Ok(()),
        }
    }

    /// Record the decision on a file-system access to `path` (from
    /// [`ScopeResolver::check_scope`]): allowed or denied in the audit
    /// log under `fs:read`, `fs:write` or `fs:watch`, with the decision's
    /// diagnostic on a denial.
    pub fn record_fs_decision(&mut self, path: &str, access: FsAccess, decision: Result<String, (String, String)>) -> (r: Result<(), String>)
        ensures
            match decision_view(decision) {
                Ok(_) => {
                    &&& r is Ok
                    &&& final(self).audit_spec() == audit_after(
                        old(self).audit_spec(),
                        AuditEntryV { plugin_id: old(self).id(), capability: access_capability(access), target: path@, outcome: AuditOutcome::Allowed },
                    )
                    &&& final(self).diag_spec() == old(self).diag_spec()
                },
                Err((code, msg)) => {
                    &&& r matches Err(e) && e@ == msg
                    &&& final(self).audit_spec() == audit_after(
                        old(self).audit_spec(),
                        AuditEntryV { plugin_id: old(self).id(), capability: access_capability(access), target: path@, outcome: AuditOutcome::Denied },
                    )
                    &&& final(self).diag_spec() == diags_after(old(self).diag_spec(), Some((code, msg)), access_capability(access), path@, old(self).version())
                },
            },
            final(self).id() == old(self).id(),
            final(self).version() == old(self).version(),
            final(self).requested_caps() == old(self).requested_caps(),
            final(self).dirs() == old(self).dirs(),
    {
        let label = match access {
            FsAccess::Read => "fs:read",
            FsAccess::Write => "fs:write",
            FsAccess::Watch => "fs:watch",
        };
        proof {
            reveal_strlit("fs:read");
            reveal_strlit("fs:write");
            reveal_strlit("fs:watch");
            reveal_strlit("fs:");
            reveal_strlit("read");
            reveal_strlit("write");
            reveal_strlit("watch");
            assert(label@ =~= access_capability(access));
        }
        match decision {
            Ok(_) => {
                self.record(label, path, AuditOutcome::Allowed, None);
                Ok(())
            },
            Err((code, msg)) => {
                self.record(label, path, AuditOutcome::Denied, Some((code.as_str(), msg.as_str())));
                Err(msg)
            },
        }
    }
}

/// Capabilities at use time: a check by name succeeds exactly when the
/// manifest requested the capability and the grant store holds an
/// `Allow` decision for it; an allowed check is audited as allowed and
/// files no diagnostic, every other one is audited as denied.
pub proof fn lemma_named_check_needs_request_and_grant(
    requested: Seq<Seq<char>>,
    grants: Map<GrantKey, GrantRowV>,
    plugin_id: Seq<char>,
    plugin_version: Seq<char>,
    cap: Seq<char>,
)
    ensures
        ({
            let o = named_outcome(requested, grants, plugin_id, plugin_version, cap);
            let k = (plugin_id, plugin_version, cap);
            &&& (o.0 is Ok) <==> (requested.contains(cap) && grants.contains_key(k) && grants[k].decision == Decision::Allow)
            &&& (o.0 is Ok) <==> (o.1 == AuditOutcome::Allowed)
            &&& (o.0 is Ok) <==> (o.2 is None)
        }),
{
}

impl FsGrant {
    pub fn duplicate(&self) -> (r: Self)
        ensures
            grant_scope(r, FsAccess::Read) == grant_scope(*self, FsAccess::Read),
            grant_scope(r, FsAccess::Write) == grant_scope(*self, FsAccess::Write),
            grant_scope(r, FsAccess::Watch) == grant_scope(*self, FsAccess::Watch),
            grant_dir(r, FsAccess::Read) == grant_dir(*self, FsAccess::Read),
            grant_dir(r, FsAccess::Write) == grant_dir(*self, FsAccess::Write),
            grant_dir(r, FsAccess::Watch) == grant_dir(*self, FsAccess::Watch),
    {
        match self {
            FsGrant::Read { scope } => FsGrant::Read { scope: *scope },
            FsGrant::Write { scope } => FsGrant::Write { scope: *scope },
            FsGrant::ReadDir { dir, canonical_dir } => FsGrant::ReadDir { dir: dir.clone(), canonical_dir: canonical_dir.clone() },
            FsGrant::WriteDir { dir, canonical_dir } => FsGrant::WriteDir { dir: dir.clone(), canonical_dir: canonical_dir.clone() },
            FsGrant::Watch { scope } => FsGrant::Watch { scope: *scope },
            FsGrant::WatchDir { dir, canonical_dir } => FsGrant::WatchDir { dir: dir.clone(), canonical_dir: canonical_dir.clone() },
        }
    }
}

/// The grants among `requested` (each with its capability string) that
/// the grant store allows for this plugin version, in order.
pub open spec fn allowed_grants(
    grants: Map<GrantKey, GrantRowV>,
    plugin_id: Seq<char>,
    plugin_version: Seq<char>,
    requested: Seq<(String, FsGrant)>,
) -> Seq<FsGrant>
    decreases requested.len(),
{
    if requested.len() == 0 {
        Seq::empty()
    } else {
        let prev = allowed_grants(grants, plugin_id, plugin_version, requested.drop_last());
        let (cap, g) = requested.last();
        let k = (plugin_id, plugin_version, cap@);
        if grants.contains_key(k) && grants[k].decision == Decision::Allow { prev.push(g) } else { prev }
    }
}

/// `a` and `b` hold the same grants, item by item.
pub open spec fn same_grants(a: Seq<FsGrant>, b: Seq<FsGrant>) -> bool {
    &&& a.len() == b.len()
    &&& forall|i: int| 0 <= i < a.len() ==> {
        &&& grant_scope(#[trigger] a[i], FsAccess::Read) == grant_scope(b[i], FsAccess::Read)
        &&& grant_scope(a[i], FsAccess::Write) == grant_scope(b[i], FsAccess::Write)
        &&& grant_scope(a[i], FsAccess::Watch) == grant_scope(b[i], FsAccess::Watch)
        &&& grant_dir(a[i], FsAccess::Read) == grant_dir(b[i], FsAccess::Read)
        &&& grant_dir(a[i], FsAccess::Write) == grant_dir(b[i], FsAccess::Write)
        &&& grant_dir(a[i], FsAccess::Watch) == grant_dir(b[i], FsAccess::Watch)
    }
}

impl CapabilityGuard {
    /// The requested file-system capabilities that are granted: those
    /// whose capability string has an `Allow` decision.
    pub fn granted_capabilities(&self, store: &GrantStore, requested: &[(String, FsGrant)]) -> (r: Vec<FsGrant>)
        ensures
            same_grants(r@, allowed_grants(store.grants(), self.id(), self.version(), requested@)),
    {
        let mut out: Vec<FsGrant> = Vec::new();
        let mut i: usize = 0;
        while i < requested.len()
            invariant
                i <= requested.len(),
                same_grants(out@, allowed_grants(store.grants(), self.id(), self.version(), requested@.subrange(0, i as int))),
            decreases requested.len() - i,
        {
            let ghost prev = allowed_grants(store.grants(), self.id(), self.version(), requested@.subrange(0, i as int));
            assert(requested@.subrange(0, i + 1).drop_last() =~= requested@.subrange(0, i as int));
            assert(requested@.subrange(0, i + 1).last() == requested@[i as int]);
            let (cap, g) = (&requested[i].0, &requested[i].1);
            match store.check(self.plugin_id.as_str(), self.plugin_version.as_str(), cap.as_str()) {
                CheckOutcome::Allow => {
                    let ghost before = out@;
                    out.push(g.duplicate());
                    assert(out@.len() == before.len() + 1);
                    assert forall|k: int| 0 <= k < out@.len() implies {
                        &&& grant_scope(#[trigger] out@[k], FsAccess::Read) == grant_scope(prev.push(*g)[k], FsAccess::Read)
                        &&& grant_scope(out@[k], FsAccess::Write) == grant_scope(prev.push(*g)[k], FsAccess::Write)
                        &&& grant_scope(out@[k], FsAccess::Watch) == grant_scope(prev.push(*g)[k], FsAccess::Watch)
                        &&& grant_dir(out@[k], FsAccess::Read) == grant_dir(prev.push(*g)[k], FsAccess::Read)
                        &&& grant_dir(out@[k], FsAccess::Write) == grant_dir(prev.push(*g)[k], FsAccess::Write)
                        &&& grant_dir(out@[k], FsAccess::Watch) == grant_dir(prev.push(*g)[k], FsAccess::Watch)
                    } by {
                        if k < before.len() {
                            assert(out@[k] == before[k]);
                        }
                    }
                },
                _ => {},
            }
            i += 1;
        }
        assert(requested@.subrange(0, requested.len() as int) =~= requested@);
        out
    }
}


/// `scope_decision` reads the grants only through what each covers.
proof fn lemma_scope_decision_same_grants(
    d: Dirs,
    path: Seq<char>,
    resolved: Seq<char>,
    canonical: Seq<char>,
    a: Seq<FsGrant>,
    b: Seq<FsGrant>,
    acc: FsAccess,
)
    requires
        same_grants(a, b),
    ensures
        scope_decision(d, path, resolved, canonical, a, acc) == scope_decision(d, path, resolved, canonical, b, acc),
    decreases a.len(),
{
    if a.len() > 0 {
        assert(same_grants(a.drop_first(), b.drop_first())) by {
            assert forall|i: int| 0 <= i < a.drop_first().len() implies {
                &&& grant_scope(#[trigger] a.drop_first()[i], FsAccess::Read) == grant_scope(b.drop_first()[i], FsAccess::Read)
                &&& grant_scope(a.drop_first()[i], FsAccess::Write) == grant_scope(b.drop_first()[i], FsAccess::Write)
                &&& grant_scope(a.drop_first()[i], FsAccess::Watch) == grant_scope(b.drop_first()[i], FsAccess::Watch)
                &&& grant_dir(a.drop_first()[i], FsAccess::Read) == grant_dir(b.drop_first()[i], FsAccess::Read)
                &&& grant_dir(a.drop_first()[i], FsAccess::Write) == grant_dir(b.drop_first()[i], FsAccess::Write)
                &&& grant_dir(a.drop_first()[i], FsAccess::Watch) == grant_dir(b.drop_first()[i], FsAccess::Watch)
            } by {
                assert(a.drop_first()[i] == a[i + 1]);
                assert(b.drop_first()[i] == b[i + 1]);
            }
        }
        lemma_scope_decision_same_grants(d, path, resolved, canonical, a.drop_first(), b.drop_first(), acc);
        assert(grant_scope(a[0], acc) == grant_scope(b[0], acc));
        assert(grant_dir(a[0], acc) == grant_dir(b[0], acc));
    }
}

/// The decision on access `a` to `path` for a plugin with directories
/// `dirs`: `path` is resolved against the plugin root, and the requested
/// file-system capabilities that are granted decide (see
/// [`scope_decision`]); `canonical` is the resolved path canonicalised.
pub open spec fn fs_decision(
    dirs: Dirs,
    grants: Map<GrantKey, GrantRowV>,
    plugin_id: Seq<char>,
    plugin_version: Seq<char>,
    requested: Seq<(String, FsGrant)>,
    path: Seq<char>,
    canonical: Seq<char>,
    a: FsAccess,
) -> Result<Seq<char>, (Seq<char>, Seq<char>)> {
    scope_decision(dirs, path, join_spec(dirs.0, path), canonical, allowed_grants(grants, plugin_id, plugin_version, requested), a)
}

impl CapabilityGuard {
    /// Check access `access` to `path` for this plugin alone and record
    /// the decision; see [`fs_decision`]. `canonical` is the canonical form
    /// of `self.resolver().resolve(path)` (or that path itself when it
    /// cannot be canonicalised).
    pub fn check_fs_self(
        &mut self,
        store: &GrantStore,
        requested: &[(String, FsGrant)],
        path: &str,
        canonical: &str,
        access: FsAccess,
    ) -> (r: Result<(), String>)
        ensures
            match fs_decision(old(self).dirs(), store.grants(), old(self).id(), old(self).version(), requested@, path@, canonical@, access) {
                Ok(_) => {
                    &&& r is Ok
                    &&& final(self).audit_spec() == audit_after(
                        old(self).audit_spec(),
                        AuditEntryV { plugin_id: old(self).id(), capability: access_capability(access), target: path@, outcome: AuditOutcome::Allowed },
                    )
                    &&& final(self).diag_spec() == old(self).diag_spec()
                },
                Err((code, msg)) => {
                    &&& r matches Err(e) && e@ == msg
                    &&& final(self).audit_spec() == audit_after(
                        old(self).audit_spec(),
                        AuditEntryV { plugin_id: old(self).id(), capability: access_capability(access), target: path@, outcome: AuditOutcome::Denied },
                    )
                    &&& final(self).diag_spec() == diags_after(old(self).diag_spec(), Some((code, msg)), access_capability(access), path@, old(self).version())
                },
            },
            final(self).id() == old(self).id(),
            final(self).version() == old(self).version(),
            final(self).requested_caps() == old(self).requested_caps(),
            final(self).dirs() == old(self).dirs(),
    {
        let granted = self.granted_capabilities(store, requested);
        let decision = {
            let resolver = self.resolver();
            let resolved = resolver.resolve(path);
            let d = resolver.check_scope(path, resolved.as_str(), canonical, granted.as_slice(), access);
            proof {
                lemma_scope_decision_same_grants(
                    resolver_dirs(resolver),
                    path@,
                    resolved@,
                    canonical@,
                    granted@,
                    allowed_grants(store.grants(), self.id(), self.version(), requested@),
                    access,
                );
            }
            d
        };
        self.record_fs_decision(path, access, decision)
    }

    /// Check access `access` to `path` for this plugin and, when another
    /// plugin's service call runs on its behalf (`caller`, with its own
    /// requested file-system capabilities and its own canonical form of
    /// the path), for that caller too; the caller's refusal is reported as
    /// `service caller <id> lacks fs:<access> access for <path>: <reason>`.
    pub fn check_fs(
        &mut self,
        store: &GrantStore,
        requested: &[(String, FsGrant)],
        path: &str,
        canonical: &str,
        access: FsAccess,
        caller: Option<&mut CapabilityGuard>,
        caller_requested: &[(String, FsGrant)],
        caller_canonical: &str,
    ) -> (r: Result<(), String>)
        ensures
            match fs_decision(old(self).dirs(), store.grants(), old(self).id(), old(self).version(), requested@, path@, canonical@, access) {
                Err((_, msg)) => r matches Err(x) && x@ == msg,
                Ok(_) => match caller {
                    Some(c) => if (*c).id() != old(self).id() {
                        match fs_decision((*c).dirs(), store.grants(), (*c).id(), (*c).version(), caller_requested@, path@, caller_canonical@, access) {
                            Ok(_) => r is Ok,
                            Err((_, m)) => r matches Err(x) && x@ == "service caller `"@ + (*c).id() + "` lacks "@
                                + access_capability(access) + " access for `"@ + path@ + "`: "@ + m,
                        }
                    } else {
                        r is Ok
                    },
                    None => r is Ok,
                },
            },
            final(self).id() == old(self).id(),
            final(self).requested_caps() == old(self).requested_caps(),
    {
        match self.check_fs_self(store, requested, path, canonical, access) {
            Err(e) => return Err(e),
            Ok(()) => {},
        }
        match caller {
            Some(c) => {
                if str_eq(c.plugin_id.as_str(), self.plugin_id.as_str()) {
                    return Ok(());
                }
                match c.check_fs_self(store, caller_requested, path, caller_canonical, access) {
                    Ok(()) => Ok(()),
                    Err(reason) => {
                        let label = match access {
                            FsAccess::Read => "fs:read",
                            FsAccess::Write => "fs:write",
                            FsAccess::Watch => "fs:watch",
                        };
                        proof {
                            reveal_strlit("fs:read");
                            reveal_strlit("fs:write");
                            reveal_strlit("fs:watch");
                            reveal_strlit("fs:");
                            reveal_strlit("read");
                            reveal_strlit("write");
                            reveal_strlit("watch");
                            assert(label@ =~= access_capability(access));
                        }
                        let mut msg = cat5("service caller `", c.plugin_id.as_str(), "` lacks ", label, " access for `");
                        msg.append(path);
                        msg.append("`: ");
                        msg.append(reason.as_str());
                        Err(msg)
                    },
                }
            },
            None => Ok(()),
        }
    }

    /// Check the `env` capability for this plugin and, when another
    /// plugin's service call runs on its behalf, for that caller too; the
    /// caller's refusal is reported as
    /// `service caller <id> lacks env access: <reason>`.
    pub fn check_env(&mut self, store: &GrantStore, caller: Option<&mut CapabilityGuard>) -> (r: Result<(), String>)
        ensures
            match named_outcome(old(self).requested_caps(), store.grants(), old(self).id(), old(self).version(), "env"@).0 {
                Err(e) => r matches Err(x) && x@ == e,
                Ok(_) => match caller {
                    Some(c) => if (*c).id() != old(self).id() {
                        match named_outcome((*c).requested_caps(), store.grants(), (*c).id(), (*c).version(), "env"@).0 {
                            Ok(_) => r is Ok,
                            Err(e) => r matches Err(x) && x@ == "service caller `"@ + (*c).id() + "` lacks env access: "@ + e,
                        }
                    } else {
                        r is Ok
                    },
                    None => r is Ok,
                },
            },
            final(self).id() == old(self).id(),
            final(self).requested_caps() == old(self).requested_caps(),
    {
        match self.check_named_self(store, "env") {
            Err(e) => return Err(e),
            Ok(()) => {},
        }
        match caller {
            Some(c) => {
                if str_eq(c.plugin_id.as_str(), self.plugin_id.as_str()) {
                    return Ok(());
                }
                match c.check_named_self(store, "env") {
                    Ok(()) => Ok(()),
                    Err(reason) => {
                        let mut msg = cat3("service caller `", c.plugin_id.as_str(), "` lacks env access: ");
                        msg.append(reason.as_str());
                        Err(msg)
                    },
                }
            },
            None => Ok(()),
        }
    }
}

} // verus!
