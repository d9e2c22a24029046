//! Lazy activation registry.
//!
//! A plugin whose manifest declares activation triggers is parked here
//! instead of being loaded: the registry remembers its triggers, and the
//! first matching trigger activates it. Only entries still `Lazy` match a
//! trigger, so a plugin activates once; repeated activation failures
//! poison it, and a poisoned plugin is not retried.

use vstd::prelude::*;
use crate::text::{clone_opt_string, contains_str, str_eq, str_to_string, trim, trim_str, string_views, opt_str_view, clone_strings, chars_of};
use crate::keyed::{first_index, lemma_first_index, lemma_first_index_props};
use crate::diagnostic::{DiagnosticSeverity, PluginDiagnostic, DiagnosticStore, DiagnosticView, SourceSpan, SourceSpanV};
use crate::json::{JsonValue, JsonV, json_view, entry_json_views, str_json, put_field};
use crate::paths::{components, same_path};

verus! {

/// Consecutive failures after which a lazy plugin is poisoned.
pub const MAX_ACTIVATION_FAILURES: u32 = 2;

/// Lifecycle of a plugin in the lazy registry.
#[derive(Debug, Clone, Copy, PartialEq, Eq, Structural)]
pub enum LazyStatus {
    /// Parked; the plugin is not loaded.
    Lazy,
    /// Activated and loaded.
    Active,
    /// Failed too often; not retried until re-enabled.
    Poisoned,
}

impl LazyStatus {
    pub open spec fn text(self) -> Seq<char> {
        match self {
            LazyStatus::Lazy => "lazy"@,
            LazyStatus::Active => "active"@,
            LazyStatus::Poisoned => "poisoned"@,
        }
    }

    pub fn as_str(self) -> (r: &'static str)
        ensures
            r@ == self.text(),
    {
        match self {
            LazyStatus::Lazy => "lazy",
            LazyStatus::Active => "active",
            LazyStatus::Poisoned => "poisoned",
        }
    }
}

/// A keymap trigger: a key in a context.
#[derive(Debug, Clone, PartialEq, Eq)]
pub struct ActivationKeymap {
    pub context: String,
    pub key: String,
}

/// A repository-shape trigger: each field that is set must match.
#[derive(Debug, Clone, PartialEq, Eq)]
pub struct RepositoryShapePredicate {
    pub has_remote: Option<bool>,
    pub has_branch: Option<String>,
}

/// The `[activation]` section of a manifest.
#[derive(Debug, Clone)]
pub struct PluginActivation {
    pub commands: Vec<String>,
    pub keymaps: Vec<ActivationKeymap>,
    pub events: Vec<String>,
    pub regions: Vec<String>,
    pub files: Vec<String>,
    pub repository_shape: Option<RepositoryShapePredicate>,
    pub manual: bool,
}

impl Default for PluginActivation {
    fn default() -> (r: Self)
        ensures
            r.commands@.len() == 0,
            r.keymaps@.len() == 0,
            r.events@.len() == 0,
            r.regions@.len() == 0,
            r.files@.len() == 0,
            r.repository_shape is None,
            !r.manual,
    {
        PluginActivation {
            commands: Vec::new(),
            keymaps: Vec::new(),
            events: Vec::new(),
            regions: Vec::new(),
            files: Vec::new(),
            repository_shape: None,
            manual: false,
        }
    }
}

/// One plugin parked in the lazy registry.
#[derive(Debug, Clone)]
pub struct LazyEntry {
    pub plugin_id: String,
    pub plugin_dir: String,
    pub manual: bool,
    pub commands: Vec<String>,
    pub keymaps: Vec<ActivationKeymap>,
    pub events: Vec<String>,
    pub regions: Vec<String>,
    pub files: Vec<String>,
    pub repository_shape: Option<RepositoryShapePredicate>,
    pub status: LazyStatus,
    pub activations: u64,
    pub last_activation_unix_ms: Option<u128>,
    /// What woke the plugin up last (`command:foo`, `event:FetchStarted`, ...).
    pub last_activation_trigger: Option<String>,
    pub last_error: Option<String>,
    pub consecutive_failures: u32,
}

pub open spec fn shape_view(s: Option<RepositoryShapePredicate>) -> Option<(Option<bool>, Option<Seq<char>>)> {
    match s {
        Some(p) => Some((p.has_remote, opt_str_view(p.has_branch))),
        None => None,
    }
}

/// A repository on branch `branch`, with or without a remote, has the
/// shape `shape` asks for.
pub open spec fn shape_matches(shape: Option<RepositoryShapePredicate>, branch: Seq<char>, has_remote: bool) -> bool {
    match shape {
        None => false,
        Some(s) => {
            &&& (s.has_remote is None || s.has_remote == Some(has_remote))
            &&& (s.has_branch is None || opt_str_view(s.has_branch) == Some(branch))
        },
    }
}

/// What a repository shape asks of a repository on `branch`, with or
/// without a remote: an entry with no shape is never woken by one; a
/// shape asks nothing of what it leaves unset (no `has_branch`: any
/// branch; no `has_remote`: either way); what it sets must hold (a branch
/// of that name, a remote present or absent as asked); and a shape that
/// sets nothing fits every repository.
pub proof fn lemma_shape_matches(shape: Option<RepositoryShapePredicate>, branch: Seq<char>, other_branch: Seq<char>, has_remote: bool)
    ensures
        shape is None ==> !shape_matches(shape, branch, has_remote),
        shape is Some && shape->0.has_branch is None ==> shape_matches(shape, branch, has_remote) == shape_matches(
            shape,
            other_branch,
            has_remote,
        ),
        shape is Some && shape->0.has_remote is None ==> shape_matches(shape, branch, has_remote) == shape_matches(
            shape,
            branch,
            !has_remote,
        ),
        shape is Some && shape->0.has_branch is None ==> (shape_matches(shape, branch, has_remote) <==> (
        shape->0.has_remote is None || shape->0.has_remote == Some(has_remote))),
        shape is Some && shape->0.has_remote is None ==> (shape_matches(shape, branch, has_remote) <==> (
        shape->0.has_branch is None || opt_str_view(shape->0.has_branch) == Some(branch))),
        shape is Some && shape->0.has_branch is None && shape->0.has_remote is None ==> shape_matches(shape, branch, has_remote),
        shape is Some && shape_matches(shape, branch, has_remote) && shape->0.has_branch is Some ==> shape->0.has_branch->0@
            == branch,
        shape is Some && shape_matches(shape, branch, has_remote) && shape->0.has_remote is Some ==> shape->0.has_remote->0
            == has_remote,
{
}

impl LazyEntry {
    /// The entry declares a repository shape, and a repository on
    /// `current_branch` with or without a remote has it.
    pub fn matches_repo(&self, current_branch: &str, has_remote: bool) -> (r: bool)
        ensures
            r == shape_matches(self.repository_shape, current_branch@, has_remote),
    {
        let shape = match &self.repository_shape {
            Some(s) => s,
            None => return false,
        };
        match shape.has_remote {
            Some(want) => {
                if want != has_remote {
                    return false;
                }
            },
            None => {},
        }
        match &shape.has_branch {
            Some(want) => {
                if !str_eq(want.as_str(), current_branch) {
                    return false;
                }
            },
            None => {},
        }
        true
    }
}

/// Entries of plugin `plugin_id`.
pub open spec fn lazy_id_is(plugin_id: Seq<char>) -> spec_fn(LazyEntry) -> bool {
    |e: LazyEntry| e.plugin_id@ == plugin_id
}

/// Lazy entries that wake up on event `name`.
pub open spec fn lazy_on_event(name: Seq<char>) -> spec_fn(LazyEntry) -> bool {
    |e: LazyEntry| e.status == LazyStatus::Lazy && string_views(e.events@).contains(name)
}

/// Lazy entries that wake up on command `name`.
pub open spec fn lazy_on_command(name: Seq<char>) -> spec_fn(LazyEntry) -> bool {
    |e: LazyEntry| e.status == LazyStatus::Lazy && string_views(e.commands@).contains(name)
}

/// Lazy entries whose repository shape a repository has.
pub open spec fn lazy_on_shape(branch: Seq<char>, has_remote: bool) -> spec_fn(LazyEntry) -> bool {
    |e: LazyEntry| e.status == LazyStatus::Lazy && shape_matches(e.repository_shape, branch, has_remote)
}

/// The entry after a successful activation by `trigger` at `now`.
pub open spec fn activated(e: LazyEntry, now_unix_ms: u128, trigger: String) -> LazyEntry {
    LazyEntry {
        status: LazyStatus::Active,
        activations: (e.activations + 1) as u64,
        last_activation_unix_ms: Some(now_unix_ms),
        last_activation_trigger: Some(trigger),
        last_error: None,
        consecutive_failures: 0,
        ..e
    }
}

/// Failure count after one more failure (saturating).
pub open spec fn failures_after(n: u32) -> u32 {
    if n == u32::MAX { n } else { (n + 1) as u32 }
}

/// The entry after a failed activation with `error`: one more failure,
/// poisoned once the count reaches [`MAX_ACTIVATION_FAILURES`].
pub open spec fn failed(e: LazyEntry, error: String) -> LazyEntry {
    let n = failures_after(e.consecutive_failures);
    LazyEntry {
        consecutive_failures: n,
        last_error: Some(error),
        status: if n >= MAX_ACTIVATION_FAILURES { LazyStatus::Poisoned } else { e.status },
        ..e
    }
}

/// Parked plugins, at most one row per plugin id, in insertion order.
pub struct LazyRegistry {
    entries: Vec<LazyEntry>,
}

impl LazyRegistry {
    pub closed spec fn rows(&self) -> Seq<LazyEntry> {
        self.entries@
    }

    pub fn new() -> (r: Self)
        ensures
            r.rows() == Seq::<LazyEntry>::empty(),
    {
        LazyRegistry { entries: Vec::new() }
    }

    pub fn entries(&self) -> (r: &[LazyEntry])
        ensures
            r@ == self.rows(),
    {
        self.entries.as_slice()
    }

    fn position_of(&self, plugin_id: &str) -> (r: Option<usize>)
        ensures
            match first_index(self.rows(), lazy_id_is(plugin_id@)) {
                Some(i) => r is Some && r->0 == i,
                None => r is None,
            },
            match r {
                Some(i) => i < self.rows().len(),
                None => true,
            },
    {
        let mut i: usize = 0;
        while i < self.entries.len()
            invariant
                i <= self.entries.len(),
                forall|k: int| 0 <= k < i ==> !lazy_id_is(plugin_id@)(#[trigger] self.entries@[k]),
            decreases self.entries.len() - i,
        {
            if str_eq(self.entries[i].plugin_id.as_str(), plugin_id) {
                proof {
                    lemma_first_index(self.entries@, lazy_id_is(plugin_id@), i as int);
                }
                return Some(i);
            }
            i += 1;
        }
        proof {
            lemma_first_index(self.entries@, lazy_id_is(plugin_id@), i as int);
        }
        None
    }

    /// The row of `plugin_id`.
    pub fn lookup(&self, plugin_id: &str) -> (r: Option<&LazyEntry>)
        ensures
            match first_index(self.rows(), lazy_id_is(plugin_id@)) {
                Some(i) => r matches Some(e) && *e == self.rows()[i],
                None => r is None,
            },
    {
        match self.position_of(plugin_id) {
            Some(i) => Some(&self.entries[i]),
            None => None,
        }
    }

    /// Park a plugin, replacing its earlier row in place when it has one.
    pub fn insert(&mut self, entry: LazyEntry)
        ensures
            match first_index(old(self).rows(), lazy_id_is(entry.plugin_id@)) {
                Some(i) => final(self).rows() == old(self).rows().update(i, entry),
                None => final(self).rows() == old(self).rows().push(entry),
            },
    {
        match self.position_of(entry.plugin_id.as_str()) {
            Some(i) => {
                self.entries.set(i, entry);
            },
            None => {
                self.entries.push(entry);
            },
        }
    }

    /// The first still-lazy plugin that wakes up on event `name`.
    pub fn match_event(&self, name: &str) -> (r: Option<&LazyEntry>)
        ensures
            match first_index(self.rows(), lazy_on_event(name@)) {
                Some(i) => r matches Some(e) && *e == self.rows()[i],
                None => r is None,
            },
    {
        let mut i: usize = 0;
        while i < self.entries.len()
            invariant
                i <= self.entries.len(),
                forall|k: int| 0 <= k < i ==> !lazy_on_event(name@)(#[trigger] self.entries@[k]),
            decreases self.entries.len() - i,
        {
            let e = &self.entries[i];
            if e.status == LazyStatus::Lazy && contains_str(&e.events, name) {
                proof {
                    lemma_first_index(self.entries@, lazy_on_event(name@), i as int);
                }
                return Some(e);
            }
            i += 1;
        }
        proof {
            lemma_first_index(self.entries@, lazy_on_event(name@), i as int);
        }
        None
    }

    /// The first still-lazy plugin that wakes up on command `name`.
    pub fn match_command(&self, name: &str) -> (r: Option<&LazyEntry>)
        ensures
            match first_index(self.rows(), lazy_on_command(name@)) {
                Some(i) => r matches Some(e) && *e == self.rows()[i],
                None => r is None,
            },
    {
        let mut i: usize = 0;
        while i < self.entries.len()
            invariant
                i <= self.entries.len(),
                forall|k: int| 0 <= k < i ==> !lazy_on_command(name@)(#[trigger] self.entries@[k]),
            decreases self.entries.len() - i,
        {
            let e = &self.entries[i];
            if e.status == LazyStatus::Lazy && contains_str(&e.commands, name) {
                proof {
                    lemma_first_index(self.entries@, lazy_on_command(name@), i as int);
                }
                return Some(e);
            }
            i += 1;
        }
        proof {
            lemma_first_index(self.entries@, lazy_on_command(name@), i as int);
        }
        None
    }

    /// The first still-lazy plugin whose repository shape a repository on
    /// `current_branch`, with or without a remote, has.
    pub fn match_repo_shape(&self, current_branch: &str, has_remote: bool) -> (r: Option<&LazyEntry>)
        ensures
            match first_index(self.rows(), lazy_on_shape(current_branch@, has_remote)) {
                Some(i) => r matches Some(e) && *e == self.rows()[i],
                None => r is None,
            },
    {
        let mut i: usize = 0;
        while i < self.entries.len()
            invariant
                i <= self.entries.len(),
                forall|k: int| 0 <= k < i ==> !lazy_on_shape(current_branch@, has_remote)(#[trigger] self.entries@[k]),
            decreases self.entries.len() - i,
        {
            let e = &self.entries[i];
            if e.status == LazyStatus::Lazy && e.matches_repo(current_branch, has_remote) {
                proof {
                    lemma_first_index(self.entries@, lazy_on_shape(current_branch@, has_remote), i as int);
                }
                return Some(e);
            }
            i += 1;
        }
        proof {
            lemma_first_index(self.entries@, lazy_on_shape(current_branch@, has_remote), i as int);
        }
        None
    }

    /// Record a successful activation of `plugin_id` by the trigger
    /// described by `trigger_descriptor`: the plugin is active, its
    /// failures are forgotten. No effect for an unknown plugin.
    pub fn mark_active(&mut self, plugin_id: &str, now_unix_ms: u128, trigger_descriptor: String)
        requires
            forall|i: int| 0 <= i < old(self).rows().len() ==> (#[trigger] old(self).rows()[i]).activations < u64::MAX,
        ensures
            match first_index(old(self).rows(), lazy_id_is(plugin_id@)) {
                Some(i) => final(self).rows() == old(self).rows().update(
                    i,
                    activated(old(self).rows()[i], now_unix_ms, trigger_descriptor),
                ),
                None => final(self).rows() == old(self).rows(),
            },
    {
        match self.position_of(plugin_id) {
            Some(i) => {
                let mut e = self.entries.remove(i);
                e.status = LazyStatus::Active;
                e.activations = e.activations + 1;
                e.last_activation_unix_ms = Some(now_unix_ms);
                e.last_activation_trigger = Some(trigger_descriptor);
                e.last_error = None;
                e.consecutive_failures = 0;
                self.entries.insert(i, e);
                assert(self.entries@ =~= old(self).rows().update(
                    i as int,
                    activated(old(self).rows()[i as int], now_unix_ms, trigger_descriptor),
                ));
            },
            None => {},
        }
    }

    /// Record a failed activation of `plugin_id`. Returns whether this
    /// failure poisoned it (its consecutive failures reached
    /// [`MAX_ACTIVATION_FAILURES`]); `false` for an unknown plugin.
    pub fn mark_failure(&mut self, plugin_id: &str, error: String) -> (r: bool)
        ensures
            match first_index(old(self).rows(), lazy_id_is(plugin_id@)) {
                Some(i) => {
                    &&& final(self).rows() == old(self).rows().update(i, failed(old(self).rows()[i], error))
                    &&& r == (failures_after(old(self).rows()[i].consecutive_failures) >= MAX_ACTIVATION_FAILURES)
                },
                None => final(self).rows() == old(self).rows() && !r,
            },
    {
        match self.position_of(plugin_id) {
            Some(i) => {
                let mut e = self.entries.remove(i);
                e.consecutive_failures = e.consecutive_failures.saturating_add(1);
                e.last_error = Some(error);
                let poisoned = e.consecutive_failures >= MAX_ACTIVATION_FAILURES;
                if poisoned {
                    e.status = LazyStatus::Poisoned;
                }
                self.entries.insert(i, e);
                assert(self.entries@ =~= old(self).rows().update(i as int, failed(old(self).rows()[i as int], error)));
                poisoned
            },
            None => false,
        }
    }
}

/// Two failed activations in a row, from a row with no failures, poison
/// the plugin, and a poisoned plugin matches no trigger.
pub proof fn lemma_two_failures_poison(e: LazyEntry, first: String, second: String, event: Seq<char>, command: Seq<char>)
    requires
        e.consecutive_failures == 0,
    ensures
        failed(e, first).status == e.status,
        failed(failed(e, first), second).status == LazyStatus::Poisoned,
        !lazy_on_event(event)(failed(failed(e, first), second)),
        !lazy_on_command(command)(failed(failed(e, first), second)),
{
}

/// A failure never un-poisons: once poisoned, a row stays poisoned
/// through further failures.
pub proof fn lemma_poison_sticks(e: LazyEntry, error: String)
    requires
        e.status == LazyStatus::Poisoned,
    ensures
        failed(e, error).status == LazyStatus::Poisoned,
{
}

// ---------------------------------------------------------------------
// Validating an activation section

/// Only whitespace (or nothing).
pub open spec fn blank(s: Seq<char>) -> bool {
    trim(s).len() == 0
}

pub fn is_blank(s: &str) -> (r: bool)
    ensures
        r == blank(s@),
{
    let v = chars_of(s);
    let t = crate::text::trim_range(&v, 0, v.len());
    assert(v@.subrange(0, v.len() as int) == v@);
    t.len() == 0
}

/// The non-blank entries of `s`, each kept at its first occurrence.
pub open spec fn kept_entries(s: Seq<Seq<char>>) -> Seq<Seq<char>>
    decreases s.len(),
{
    if s.len() == 0 {
        Seq::empty()
    } else {
        let prev = kept_entries(s.drop_last());
        let x = s.last();
        if blank(x) || prev.contains(x) { prev } else { prev.push(x) }
    }
}

/// `x` names the same path as one of `s`.
pub open spec fn has_same_path(s: Seq<Seq<char>>, x: Seq<char>) -> bool {
    exists|i: int| 0 <= i < s.len() && components(#[trigger] s[i]) == components(x)
}

/// The non-blank file entries, each path kept at its first occurrence
/// (paths compared component by component).
pub open spec fn kept_files(s: Seq<Seq<char>>) -> Seq<Seq<char>>
    decreases s.len(),
{
    if s.len() == 0 {
        Seq::empty()
    } else {
        let prev = kept_files(s.drop_last());
        let x = s.last();
        if blank(x) || has_same_path(prev, x) { prev } else { prev.push(x) }
    }
}

/// The non-blank, canonical events, each kept at its first occurrence.
pub open spec fn kept_events(s: Seq<Seq<char>>, canonical: Seq<Seq<char>>) -> Seq<Seq<char>>
    decreases s.len(),
{
    if s.len() == 0 {
        Seq::empty()
    } else {
        let prev = kept_events(s.drop_last(), canonical);
        let x = s.last();
        if blank(x) || !canonical.contains(x) || prev.contains(x) { prev } else { prev.push(x) }
    }
}

pub open spec fn keymap_view(k: ActivationKeymap) -> (Seq<char>, Seq<char>) {
    (k.context@, k.key@)
}

pub open spec fn keymap_views(s: Seq<ActivationKeymap>) -> Seq<(Seq<char>, Seq<char>)> {
    s.map_values(|k: ActivationKeymap| keymap_view(k))
}

/// The keymaps with a non-blank context and key, each (context, key)
/// kept at its first occurrence.
pub open spec fn kept_keymaps(s: Seq<(Seq<char>, Seq<char>)>) -> Seq<(Seq<char>, Seq<char>)>
    decreases s.len(),
{
    if s.len() == 0 {
        Seq::empty()
    } else {
        let prev = kept_keymaps(s.drop_last());
        let x = s.last();
        if blank(x.0) || blank(x.1) || prev.contains(x) { prev } else { prev.push(x) }
    }
}

/// The `manifest.activation_invalid` diagnostic with `message`.
pub open spec fn invalid_diag(plugin_id: Seq<char>, path: Seq<char>, message: Seq<char>) -> DiagnosticView {
    DiagnosticView {
        plugin_id,
        severity: DiagnosticSeverity::Warning,
        code: "manifest.activation_invalid"@,
        message,
        generation_id: None,
        source: Some(SourceSpanV::Manifest(path, Some("activation"@))),
        context: None,
    }
}

/// One `invalid_diag` per blank entry.
pub open spec fn blank_diags(s: Seq<Seq<char>>, plugin_id: Seq<char>, path: Seq<char>, message: Seq<char>) -> Seq<DiagnosticView>
    decreases s.len(),
{
    if s.len() == 0 {
        Seq::empty()
    } else {
        let prev = blank_diags(s.drop_last(), plugin_id, path, message);
        if blank(s.last()) { prev.push(invalid_diag(plugin_id, path, message)) } else { prev }
    }
}

/// One diagnostic per keymap with a blank context or key.
pub open spec fn keymap_diags(s: Seq<(Seq<char>, Seq<char>)>, plugin_id: Seq<char>, path: Seq<char>) -> Seq<DiagnosticView>
    decreases s.len(),
{
    if s.len() == 0 {
        Seq::empty()
    } else {
        let prev = keymap_diags(s.drop_last(), plugin_id, path);
        if blank(s.last().0) || blank(s.last().1) {
            prev.push(invalid_diag(plugin_id, path, "activation.keymaps entry has empty context or key"@))
        } else {
            prev
        }
    }
}

pub open spec fn unknown_event_diag(plugin_id: Seq<char>, path: Seq<char>, event: Seq<char>) -> DiagnosticView {
    DiagnosticView {
        plugin_id,
        severity: DiagnosticSeverity::Warning,
        code: "activation.unknown_event"@,
        message: "activation.events lists `"@ + event + "` which is not a canonical event"@,
        generation_id: None,
        source: Some(SourceSpanV::Manifest(path, Some("activation.events"@))),
        context: Some(JsonV::Object(Seq::empty().push(("event"@, JsonV::Str(event))))),
    }
}

fn event_context_json(event: &str) -> (r: JsonValue)
    ensures
        json_view(r) == JsonV::Object(Seq::empty().push(("event"@, JsonV::Str(event@)))),
{
    let mut f: Vec<(String, JsonValue)> = Vec::new();
    assert(entry_json_views(f@) == Seq::<(Seq<char>, JsonV)>::empty());
    put_field(&mut f, "event", str_json(event));
    let r = JsonValue::Object(f);
    assert(json_view(r) == JsonV::Object(entry_json_views(f@)));
    r
}

/// One diagnostic per blank event and per event that is not canonical.
pub open spec fn event_diags(s: Seq<Seq<char>>, canonical: Seq<Seq<char>>, plugin_id: Seq<char>, path: Seq<char>) -> Seq<DiagnosticView>
    decreases s.len(),
{
    if s.len() == 0 {
        Seq::empty()
    } else {
        let prev = event_diags(s.drop_last(), canonical, plugin_id, path);
        let x = s.last();
        if blank(x) {
            prev.push(invalid_diag(plugin_id, path, "activation.events entry is empty"@))
        } else if !canonical.contains(x) {
            prev.push(unknown_event_diag(plugin_id, path, x))
        } else {
            prev
        }
    }
}

/// The triggers of an activation section that survived validation.
pub struct ValidatedActivation {
    pub commands: Vec<String>,
    pub keymaps: Vec<ActivationKeymap>,
    pub events: Vec<String>,
    pub regions: Vec<String>,
    pub files: Vec<String>,
    pub repository_shape: Option<RepositoryShapePredicate>,
    pub manual: bool,
}

/// Record a `manifest.activation_invalid` warning.
pub fn record_invalid(diagnostics: &mut DiagnosticStore, plugin_id: &str, manifest_path: &str, message: &str)
    ensures
        final(diagnostics).log() == old(diagnostics).log().push(invalid_diag(plugin_id@, manifest_path@, message@)),
{
    diagnostics.record(
        PluginDiagnostic::new(
            str_to_string(plugin_id),
            DiagnosticSeverity::Warning,
            "manifest.activation_invalid",
            str_to_string(message),
        ).with_source(SourceSpan::Manifest { path: str_to_string(manifest_path), key: Some(str_to_string("activation")) }),
    );
}

fn keep_entries(items: &Vec<String>, plugin_id: &str, manifest_path: &str, message: &str, diagnostics: &mut DiagnosticStore) -> (r: Vec<String>)
    ensures
        string_views(r@) == kept_entries(string_views(items@)),
        final(diagnostics).log() == old(diagnostics).log() + blank_diags(string_views(items@), plugin_id@, manifest_path@, message@),
{
    let ghost all = string_views(items@);
    let mut out: Vec<String> = Vec::new();
    let mut i: usize = 0;
    while i < items.len()
        invariant
            i <= items.len(),
            all == string_views(items@),
            string_views(out@) == kept_entries(all.subrange(0, i as int)),
            diagnostics.log() == old(diagnostics).log() + blank_diags(all.subrange(0, i as int), plugin_id@, manifest_path@, message@),
        decreases items.len() - i,
    {
        let x = items[i].as_str();
        let ghost pre = all.subrange(0, i + 1);
        assert(pre.drop_last() =~= all.subrange(0, i as int));
        assert(pre.last() == x@);
        let ghost before_log = diagnostics.log();
        if is_blank(x) {
            record_invalid(diagnostics, plugin_id, manifest_path, message);
            assert(diagnostics.log() =~= old(diagnostics).log() + blank_diags(pre, plugin_id@, manifest_path@, message@));
        } else {
            assert(blank_diags(pre, plugin_id@, manifest_path@, message@) == blank_diags(all.subrange(0, i as int), plugin_id@, manifest_path@, message@));
            if !contains_str(&out, x) {
                let ghost prev = string_views(out@);
                out.push(str_to_string(x));
                assert(string_views(out@) =~= prev.push(x@));
            }
        }
        i += 1;
    }
    assert(all.subrange(0, items.len() as int) == all);
    out
}

fn contains_path(items: &Vec<String>, x: &str) -> (r: bool)
    ensures
        r == has_same_path(string_views(items@), x@),
{
    let mut i: usize = 0;
    while i < items.len()
        invariant
            i <= items.len(),
            forall|k: int| 0 <= k < i ==> components(#[trigger] string_views(items@)[k]) != components(x@),
        decreases items.len() - i,
    {
        if same_path(items[i].as_str(), x) {
            assert(components(string_views(items@)[i as int]) == components(x@));
            return true;
        }
        assert(string_views(items@)[i as int] == items@[i as int]@);
        i += 1;
    }
    false
}

fn keep_files(items: &Vec<String>, plugin_id: &str, manifest_path: &str, diagnostics: &mut DiagnosticStore) -> (r: Vec<String>)
    ensures
        string_views(r@) == kept_files(string_views(items@)),
        final(diagnostics).log() == old(diagnostics).log() + blank_diags(
            string_views(items@),
            plugin_id@, manifest_path@,
            "activation.files entry is empty"@,
        ),
{
    let ghost all = string_views(items@);
    let mut out: Vec<String> = Vec::new();
    let mut i: usize = 0;
    while i < items.len()
        invariant
            i <= items.len(),
            all == string_views(items@),
            string_views(out@) == kept_files(all.subrange(0, i as int)),
            diagnostics.log() == old(diagnostics).log() + blank_diags(
                all.subrange(0, i as int),
                plugin_id@, manifest_path@,
                "activation.files entry is empty"@,
            ),
        decreases items.len() - i,
    {
        let x = items[i].as_str();
        let ghost pre = all.subrange(0, i + 1);
        assert(pre.drop_last() =~= all.subrange(0, i as int));
        assert(pre.last() == x@);
        if is_blank(x) {
            record_invalid(diagnostics, plugin_id, manifest_path, "activation.files entry is empty");
            assert(diagnostics.log() =~= old(diagnostics).log() + blank_diags(
                pre,
                plugin_id@, manifest_path@,
                "activation.files entry is empty"@,
            ));
        } else {
            assert(blank_diags(pre, plugin_id@, manifest_path@, "activation.files entry is empty"@) == blank_diags(
                all.subrange(0, i as int),
                plugin_id@, manifest_path@,
                "activation.files entry is empty"@,
            ));
            if !contains_path(&out, x) {
                let ghost prev = string_views(out@);
                out.push(str_to_string(x));
                assert(string_views(out@) =~= prev.push(x@));
            }
        }
        i += 1;
    }
    assert(all.subrange(0, items.len() as int) == all);
    out
}

fn keep_events(
    items: &Vec<String>,
    canonical: &Vec<String>,
    plugin_id: &str,
    manifest_path: &str,
    diagnostics: &mut DiagnosticStore,
) -> (r: Vec<String>)
    ensures
        string_views(r@) == kept_events(string_views(items@), string_views(canonical@)),
        final(diagnostics).log() == old(diagnostics).log() + event_diags(
            string_views(items@),
            string_views(canonical@),
            plugin_id@, manifest_path@,
        ),
{
    let ghost all = string_views(items@);
    let ghost canon = string_views(canonical@);
    let mut out: Vec<String> = Vec::new();
    let mut i: usize = 0;
    while i < items.len()
        invariant
            i <= items.len(),
            all == string_views(items@),
            canon == string_views(canonical@),
            string_views(out@) == kept_events(all.subrange(0, i as int), canon),
            diagnostics.log() == old(diagnostics).log() + event_diags(all.subrange(0, i as int), canon, plugin_id@, manifest_path@),
        decreases items.len() - i,
    {
        let x = items[i].as_str();
        let ghost pre = all.subrange(0, i + 1);
        assert(pre.drop_last() =~= all.subrange(0, i as int));
        assert(pre.last() == x@);
        if is_blank(x) {
            record_invalid(diagnostics, plugin_id, manifest_path, "activation.events entry is empty");
            assert(diagnostics.log() =~= old(diagnostics).log() + event_diags(pre, canon, plugin_id@, manifest_path@));
        } else if !contains_str(canonical, x) {
            let msg = crate::text::cat3("activation.events lists `", x, "` which is not a canonical event");
            diagnostics.record(
                PluginDiagnostic::new(str_to_string(plugin_id), DiagnosticSeverity::Warning, "activation.unknown_event", msg)
                    .with_source(SourceSpan::Manifest {
                        path: str_to_string(manifest_path),
                        key: Some(str_to_string("activation.events")),
                    })
                    .with_context(event_context_json(x)),
            );
            assert(diagnostics.log() =~= old(diagnostics).log() + event_diags(pre, canon, plugin_id@, manifest_path@));
        } else {
            assert(event_diags(pre, canon, plugin_id@, manifest_path@) == event_diags(all.subrange(0, i as int), canon, plugin_id@, manifest_path@));
            if !contains_str(&out, x) {
                let ghost prev = string_views(out@);
                out.push(str_to_string(x));
                assert(string_views(out@) =~= prev.push(x@));
            }
        }
        i += 1;
    }
    assert(all.subrange(0, items.len() as int) == all);
    out
}

fn contains_keymap(items: &Vec<ActivationKeymap>, context: &str, key: &str) -> (r: bool)
    ensures
        r == keymap_views(items@).contains((context@, key@)),
{
    let mut i: usize = 0;
    while i < items.len()
        invariant
            i <= items.len(),
            forall|k: int| 0 <= k < i ==> #[trigger] keymap_views(items@)[k] != (context@, key@),
        decreases items.len() - i,
    {
        if str_eq(items[i].context.as_str(), context) && str_eq(items[i].key.as_str(), key) {
            assert(keymap_views(items@)[i as int] == (context@, key@));
            return true;
        }
        i += 1;
    }
    false
}

fn keep_keymaps(items: &Vec<ActivationKeymap>, plugin_id: &str, manifest_path: &str, diagnostics: &mut DiagnosticStore) -> (r: Vec<ActivationKeymap>)
    ensures
        keymap_views(r@) == kept_keymaps(keymap_views(items@)),
        final(diagnostics).log() == old(diagnostics).log() + keymap_diags(keymap_views(items@), plugin_id@, manifest_path@),
{
    let ghost all = keymap_views(items@);
    let mut out: Vec<ActivationKeymap> = Vec::new();
    let mut i: usize = 0;
    while i < items.len()
        invariant
            i <= items.len(),
            all == keymap_views(items@),
            keymap_views(out@) == kept_keymaps(all.subrange(0, i as int)),
            diagnostics.log() == old(diagnostics).log() + keymap_diags(all.subrange(0, i as int), plugin_id@, manifest_path@),
        decreases items.len() - i,
    {
        let km = &items[i];
        let ghost pre = all.subrange(0, i + 1);
        assert(pre.drop_last() =~= all.subrange(0, i as int));
        assert(pre.last() == keymap_view(*km));
        if is_blank(km.context.as_str()) || is_blank(km.key.as_str()) {
            record_invalid(diagnostics, plugin_id, manifest_path, "activation.keymaps entry has empty context or key");
            assert(diagnostics.log() =~= old(diagnostics).log() + keymap_diags(pre, plugin_id@, manifest_path@));
        } else {
            assert(keymap_diags(pre, plugin_id@, manifest_path@) == keymap_diags(all.subrange(0, i as int), plugin_id@, manifest_path@));
            if !contains_keymap(&out, km.context.as_str(), km.key.as_str()) {
                let ghost prev = keymap_views(out@);
                out.push(ActivationKeymap { context: km.context.clone(), key: km.key.clone() });
                assert(keymap_views(out@) =~= prev.push(keymap_view(*km)));
            }
        }
        i += 1;
    }
    assert(all.subrange(0, items.len() as int) == all);
    out
}

/// Check an activation section: blank entries are dropped with a
/// `manifest.activation_invalid` warning each, events that are not in
/// `canonical_events` are dropped with `activation.unknown_event`, and
/// each remaining trigger is kept once, at its first occurrence.
/// Diagnostics come in the order commands, keymaps, events, regions,
/// files, each pointing at the manifest file `manifest_path`.
pub fn validate(
    plugin_id: &str,
    manifest_path: &str,
    activation: &PluginActivation,
    canonical_events: &Vec<String>,
    diagnostics: &mut DiagnosticStore,
) -> (r: ValidatedActivation)
    ensures
        string_views(r.commands@) == kept_entries(string_views(activation.commands@)),
        keymap_views(r.keymaps@) == kept_keymaps(keymap_views(activation.keymaps@)),
        string_views(r.events@) == kept_events(string_views(activation.events@), string_views(canonical_events@)),
        string_views(r.regions@) == kept_entries(string_views(activation.regions@)),
        string_views(r.files@) == kept_files(string_views(activation.files@)),
        shape_view(r.repository_shape) == shape_view(activation.repository_shape),
        r.manual == activation.manual,
        final(diagnostics).log() == old(diagnostics).log() + blank_diags(
            string_views(activation.commands@),
            plugin_id@, manifest_path@,
            "activation.commands entry is empty"@,
        ) + keymap_diags(keymap_views(activation.keymaps@), plugin_id@, manifest_path@) + event_diags(
            string_views(activation.events@),
            string_views(canonical_events@),
            plugin_id@, manifest_path@,
        ) + blank_diags(string_views(activation.regions@), plugin_id@, manifest_path@, "activation.regions entry is empty"@)
            + blank_diags(string_views(activation.files@), plugin_id@, manifest_path@, "activation.files entry is empty"@),
{
    let commands = keep_entries(&activation.commands, plugin_id, manifest_path, "activation.commands entry is empty", diagnostics);
    let keymaps = keep_keymaps(&activation.keymaps, plugin_id, manifest_path, diagnostics);
    let events = keep_events(&activation.events, canonical_events, plugin_id, manifest_path, diagnostics);
    let regions = keep_entries(&activation.regions, plugin_id, manifest_path, "activation.regions entry is empty", diagnostics);
    let files = keep_files(&activation.files, plugin_id, manifest_path, diagnostics);
    let repository_shape = match &activation.repository_shape {
        Some(s) => Some(RepositoryShapePredicate { has_remote: s.has_remote, has_branch: clone_opt_string(&s.has_branch) }),
        None => None,
    };
    ValidatedActivation { commands, keymaps, events, regions, files, repository_shape, manual: activation.manual }
}

} // verus!
