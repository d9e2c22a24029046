//! Capability grants: per `(plugin_id, plugin_version, capability)`
//! decisions, the security prompt that collects them, and the checks
//! every sensitive host call makes.
//!
//! The store is an in-memory table; mirroring it to disk is the
//! application's job (it serialises [`GrantStore::rows`] after each
//! change).

use vstd::prelude::*;
use crate::audit::{AuditLog, AuditOutcome, AuditEntryV};
use crate::clock::{decimal_string, dec_digits};
use crate::paths::{components, path_starts_with, chars_start_with};
use vstd::string::StringExecFns;
use crate::order::{chars_lt, str_lt, lemma_chars_lt_irrefl, lemma_chars_lt_total, lemma_chars_lt_asym, lemma_chars_lt_trans};
use crate::keyed::{keyed_map, unique_keys, lemma_keyed_dom, lemma_keyed_at, lemma_keyed_update, lemma_keyed_push, lemma_keyed_remove, lemma_keyed_congruent, lemma_keyed_prefix_agree, lemma_keyed_len};
use crate::clock::unix_now_secs;
use crate::text::{str_to_string, string_of, chars_of, str_concat, string_views, opt_str_view, clone_opt_string};

verus! {

/// Decision recorded for one `(plugin_id, plugin_version, capability)`
/// triple. `Pending` exists only inside a prompt; committed rows are
/// `Allow` or `Deny`.
#[derive(Debug, Clone, Copy, PartialEq, Eq, Structural)]
pub enum Decision {
    Allow,
    Deny,
    Pending,
}

pub open spec fn decision_str(d: Decision) -> Seq<char> {
    match d {
        Decision::Allow => "allow"@,
        Decision::Deny => "deny"@,
        Decision::Pending => "pending"@,
    }
}

impl Decision {
    pub fn as_str(self) -> (r: &'static str)
        ensures
            r@ == decision_str(self),
    {
        match self {
            Decision::Allow => "allow",
            Decision::Deny => "deny",
            Decision::Pending => "pending",
        }
    }
}

/// Who decided a capability grant.
#[derive(Debug, Clone, Copy, PartialEq, Eq, Structural)]
pub enum DecidedBy {
    User,
    Default,
    Policy,
}

pub open spec fn decided_by_str(d: DecidedBy) -> Seq<char> {
    match d {
        DecidedBy::User => "user"@,
        DecidedBy::Default => "default"@,
        DecidedBy::Policy => "policy"@,
    }
}

impl DecidedBy {
    pub fn as_str(self) -> (r: &'static str)
        ensures
            r@ == decided_by_str(self),
    {
        match self {
            DecidedBy::User => "user",
            DecidedBy::Default => "default",
            DecidedBy::Policy => "policy",
        }
    }
}

/// Lookup key of a grant: plugin id, plugin version, capability.
pub type GrantKey = (Seq<char>, Seq<char>, Seq<char>);

/// One grant row as plain values.
pub struct GrantRowV {
    pub plugin_id: Seq<char>,
    pub plugin_version: Seq<char>,
    pub capability: Seq<char>,
    pub granted_at: Seq<char>,
    pub decision: Decision,
    pub decided_by: DecidedBy,
    pub notes: Option<Seq<char>>,
}

impl GrantRowV {
    pub open spec fn key(self) -> GrantKey {
        (self.plugin_id, self.plugin_version, self.capability)
    }
}

/// One committed grant row. The key is `plugin_id + plugin_version +
/// capability`.
#[derive(Debug, Clone)]
pub struct GrantRow {
    pub plugin_id: String,
    pub plugin_version: String,
    pub capability: String,
    pub granted_at: String,
    pub decision: Decision,
    pub decided_by: DecidedBy,
    pub notes: Option<String>,
}

impl View for GrantRow {
    type V = GrantRowV;

    open spec fn view(&self) -> GrantRowV {
        GrantRowV {
            plugin_id: self.plugin_id@,
            plugin_version: self.plugin_version@,
            capability: self.capability@,
            granted_at: self.granted_at@,
            decision: self.decision,
            decided_by: self.decided_by,
            notes: opt_str_view(self.notes),
        }
    }
}

impl GrantRow {
    /// A copy with the same contents.
    pub fn duplicate(&self) -> (r: GrantRow)
        ensures
            r@ == self@,
    {
        GrantRow {
            plugin_id: self.plugin_id.clone(),
            plugin_version: self.plugin_version.clone(),
            capability: self.capability.clone(),
            granted_at: self.granted_at.clone(),
            decision: self.decision,
            decided_by: self.decided_by,
            notes: clone_opt_string(&self.notes),
        }
    }
}

/// Outcome of a single [`GrantStore::check`] call.
#[derive(Debug, Clone, PartialEq, Eq)]
pub enum CheckOutcome {
    Allow,
    Deny { reason: String },
    /// No decision yet: the host must prompt and re-check.
    RequiresPrompt,
}

/// Map view of a sequence of rows: later rows win for a repeated key.
pub open spec fn rows_map(s: Seq<GrantRowV>) -> Map<GrantKey, GrantRowV> {
    keyed_map(s, row_key_fn(), row_val_fn())
}

pub open spec fn row_key_fn() -> spec_fn(GrantRowV) -> GrantKey {
    |r: GrantRowV| r.key()
}

pub open spec fn row_val_fn() -> spec_fn(GrantRowV) -> GrantRowV {
    |r: GrantRowV| r
}

pub open spec fn row_views(s: Seq<GrantRow>) -> Seq<GrantRowV> {
    s.map_values(|r: GrantRow| r@)
}

/// No two rows share a key.
pub open spec fn keys_unique(s: Seq<GrantRowV>) -> bool {
    unique_keys(s, row_key_fn())
}

/// One decision the prompt is waiting on.
#[derive(Debug, Clone)]
pub struct PendingDecision {
    pub plugin_id: String,
    pub plugin_version: String,
    pub capability: String,
}

impl View for PendingDecision {
    type V = GrantKey;

    open spec fn view(&self) -> GrantKey {
        (self.plugin_id@, self.plugin_version@, self.capability@)
    }
}

impl PendingDecision {
    pub fn duplicate(&self) -> (r: PendingDecision)
        ensures
            r@ == self@,
    {
        PendingDecision {
            plugin_id: self.plugin_id.clone(),
            plugin_version: self.plugin_version.clone(),
            capability: self.capability.clone(),
        }
    }
}

pub open spec fn pending_views(s: Seq<PendingDecision>) -> Seq<GrantKey> {
    s.map_values(|p: PendingDecision| p@)
}

fn same_key(a_id: &String, a_ver: &String, a_cap: &String, b_id: &String, b_ver: &String, b_cap: &String) -> (r: bool)
    ensures
        r == ((a_id@, a_ver@, a_cap@) == (b_id@, b_ver@, b_cap@)),
{
    *a_id == *b_id && *a_ver == *b_ver && *a_cap == *b_cap
}

/// The headless security prompt: which capabilities await a decision and
/// what the user has chosen so far.
#[derive(Debug, Clone)]
pub struct PromptState {
    pending: Vec<PendingDecision>,
    decisions: Vec<(PendingDecision, Decision)>,
}

/// Map view of recorded prompt decisions (later entries win).
pub open spec fn decisions_map(s: Seq<(PendingDecision, Decision)>) -> Map<GrantKey, Decision> {
    keyed_map(s, decision_key_fn(), decision_val_fn())
}

pub open spec fn decision_key_fn() -> spec_fn((PendingDecision, Decision)) -> GrantKey {
    |e: (PendingDecision, Decision)| e.0@
}

pub open spec fn decision_val_fn() -> spec_fn((PendingDecision, Decision)) -> Decision {
    |e: (PendingDecision, Decision)| e.1
}

/// Decision committed for one pending key when the prompt closes: the
/// user's `Allow` or `Deny`; `Deny` when the key was left undecided (or
/// still `Pending`, which never becomes a committed row).
pub open spec fn final_decision(m: Map<GrantKey, Decision>, k: GrantKey) -> Decision {
    if m.contains_key(k) && m[k] == Decision::Allow {
        Decision::Allow
    } else {
        Decision::Deny
    }
}

impl PromptState {
    /// Capabilities the prompt lists, in order.
    pub closed spec fn pending_view(&self) -> Seq<GrantKey> {
        pending_views(self.pending@)
    }

    /// Decisions the user has made so far.
    pub closed spec fn decided(&self) -> Map<GrantKey, Decision> {
        decisions_map(self.decisions@)
    }

    pub fn new(pending: Vec<PendingDecision>) -> (r: Self)
        ensures
            r.pending_view() == pending_views(pending@),
            r.decided() == Map::<GrantKey, Decision>::empty(),
    {
        PromptState { pending, decisions: Vec::new() }
    }

    pub fn pending(&self) -> (r: &[PendingDecision])
        ensures
            pending_views(r@) == self.pending_view(),
    {
        self.pending.as_slice()
    }

    /// Record the user's choice for one capability. A later call with the
    /// same key overwrites the earlier choice.
    pub fn decide(&mut self, plugin_id: &str, plugin_version: &str, capability: &str, decision: Decision)
        ensures
            final(self).pending_view() == old(self).pending_view(),
            final(self).decided() == old(self).decided().insert(
                (plugin_id@, plugin_version@, capability@),
                decision,
            ),
    {
        let key = PendingDecision {
            plugin_id: str_to_string(plugin_id),
            plugin_version: str_to_string(plugin_version),
            capability: str_to_string(capability),
        };
        let ghost before = self.decisions@;
        self.decisions.push((key, decision));
        assert(self.decisions@.drop_last() == before);
        assert(decisions_map(self.decisions@) == decisions_map(before).insert(
            (plugin_id@, plugin_version@, capability@),
            decision,
        ));
    }

    fn lookup_decision(&self, k: &PendingDecision) -> (r: Option<Decision>)
        ensures
            match r {
                Some(d) => self.decided().contains_key(k@) && self.decided()[k@] == d,
                None => !self.decided().contains_key(k@),
            },
    {
        let mut i: usize = self.decisions.len();
        while i > 0
            invariant
                i <= self.decisions.len(),
                forall|j: int| i <= j < self.decisions.len() ==> self.decisions@[j].0@ != k@,
            decreases i,
        {
            let e = &self.decisions[i - 1];
            if same_key(&e.0.plugin_id, &e.0.plugin_version, &e.0.capability, &k.plugin_id, &k.plugin_version, &k.capability) {
                proof {
                    lemma_keyed_prefix_agree(self.decisions@, decision_key_fn(), decision_val_fn(), i as int, k@);
                    assert(self.decisions@.subrange(0, i as int).drop_last() == self.decisions@.subrange(0, i - 1));
                }
                return Some(e.1);
            }
            i -= 1;
        }
        proof {
            lemma_keyed_prefix_agree(self.decisions@, decision_key_fn(), decision_val_fn(), 0, k@);
        }
        None
    }

    /// A copy with the same pending list and decisions.
    pub fn duplicate(&self) -> (r: PromptState)
        ensures
            r.pending_view() == self.pending_view(),
            r.decided() == self.decided(),
    {
        let mut pending: Vec<PendingDecision> = Vec::new();
        let mut i: usize = 0;
        while i < self.pending.len()
            invariant
                i <= self.pending.len(),
                pending@.len() == i,
                forall|j: int| 0 <= j < i ==> pending@[j]@ == self.pending@[j]@,
            decreases self.pending.len() - i,
        {
            pending.push(self.pending[i].duplicate());
            i += 1;
        }
        let mut decisions: Vec<(PendingDecision, Decision)> = Vec::new();
        let mut i: usize = 0;
        while i < self.decisions.len()
            invariant
                i <= self.decisions.len(),
                decisions@.len() == i,
                forall|j: int| 0 <= j < i ==> decisions@[j].0@ == self.decisions@[j].0@ && decisions@[j].1 == self.decisions@[j].1,
            decreases self.decisions.len() - i,
        {
            decisions.push((self.decisions[i].0.duplicate(), self.decisions[i].1));
            i += 1;
        }
        proof {
            lemma_keyed_congruent(decisions@, self.decisions@, decision_key_fn(), decision_val_fn(), decision_key_fn(), decision_val_fn());
            assert(pending_views(pending@) =~= pending_views(self.pending@));
        }
        PromptState { pending, decisions }
    }

    /// Every pending capability has a decision.
    pub fn is_resolved(&self) -> (r: bool)
        ensures
            r == forall|i: int|
                0 <= i < self.pending_view().len() ==> self.decided().contains_key(
                    #[trigger] self.pending_view()[i],
                ),
    {
        let mut i: usize = 0;
        while i < self.pending.len()
            invariant
                i <= self.pending.len(),
                forall|j: int| 0 <= j < i ==> self.decided().contains_key(#[trigger] self.pending_view()[j]),
            decreases self.pending.len() - i,
        {
            if self.lookup_decision(&self.pending[i]).is_none() {
                assert(self.pending_view()[i as int] == self.pending@[i as int]@);
                return false;
            }
            assert(self.pending_view()[i as int] == self.pending@[i as int]@);
            i += 1;
        }
        true
    }

    /// Close the prompt: one `(plugin_id, plugin_version, capability,
    /// decision)` per pending entry, in order, each `Allow` or `Deny`. A
    /// capability the user did not decide on (or left `Pending`) is
    /// committed as `Deny`.
    pub fn finalize(self) -> (out: Vec<(String, String, String, Decision)>)
        ensures
            out@.len() == self.pending_view().len(),
            forall|i: int|
                0 <= i < out@.len() ==> {
                    let k = #[trigger] self.pending_view()[i];
                    &&& out@[i].0@ == k.0
                    &&& out@[i].1@ == k.1
                    &&& out@[i].2@ == k.2
                    &&& out@[i].3 == final_decision(self.decided(), k)
                },
    {
        let mut out: Vec<(String, String, String, Decision)> = Vec::new();
        let mut i: usize = 0;
        while i < self.pending.len()
            invariant
                i <= self.pending.len(),
                out@.len() == i,
                forall|j: int|
                    0 <= j < i ==> {
                        let k = #[trigger] self.pending_view()[j];
                        &&& out@[j].0@ == k.0
                        &&& out@[j].1@ == k.1
                        &&& out@[j].2@ == k.2
                        &&& out@[j].3 == final_decision(self.decided(), k)
                    },
            decreases self.pending.len() - i,
        {
            let d = &self.pending[i];
            let decision = match self.lookup_decision(d) {
                Some(Decision::Allow) => Decision::Allow,
                _ => Decision::Deny,
            };
            assert(self.pending_view()[i as int] == d@);
            out.push((d.plugin_id.clone(), d.plugin_version.clone(), d.capability.clone(), decision));
            i += 1;
        }
        out
    }
}


/// Serialised shape of a prompt for the devtools overlay.
#[derive(Debug, Clone)]
pub struct OverlayDescriptor {
    pub kind: &'static str,
    pub title: String,
    pub plugin_id: String,
    pub plugin_version: String,
    pub pending: Vec<PendingDecision>,
}

/// The grant table plus the prompts the host has opened but the user has
/// not resolved yet (at most one per plugin version).
#[derive(Debug)]
pub struct GrantStore {
    rows: Vec<GrantRow>,
    prompts: Vec<PromptState>,
}

/// Prompt key: plugin id and plugin version.
pub type PromptKey = (Seq<char>, Seq<char>);

pub open spec fn prompt_key(p: PromptState) -> PromptKey {
    (p.pending_view()[0].0, p.pending_view()[0].1)
}

pub open spec fn prompt_key_fn() -> spec_fn(PromptState) -> PromptKey {
    |p: PromptState| prompt_key(p)
}

/// A prompt as plain values: what it lists and what has been decided.
pub struct PromptV {
    pub pending: Seq<GrantKey>,
    pub decided: Map<GrantKey, Decision>,
}

pub open spec fn prompt_view_fn() -> spec_fn(PromptState) -> PromptV {
    |p: PromptState| PromptV { pending: p.pending_view(), decided: p.decided() }
}

/// `m` with `rows` inserted one after another.
pub open spec fn apply_rows(m: Map<GrantKey, GrantRowV>, rows: Seq<GrantRowV>) -> Map<GrantKey, GrantRowV>
    decreases rows.len(),
{
    if rows.len() == 0 {
        m
    } else {
        apply_rows(m, rows.drop_last()).insert(rows.last().key(), rows.last())
    }
}

/// `r` is what a check of key `k` against grant map `m` answers: `Allow`
/// for an allowed row, `Deny` (with reason `capability denied: <cap>`)
/// for a denied row, `RequiresPrompt` for no row or a pending row.
pub open spec fn check_matches(r: CheckOutcome, m: Map<GrantKey, GrantRowV>, k: GrantKey, cap: Seq<char>) -> bool {
    if !m.contains_key(k) {
        r is RequiresPrompt
    } else {
        match m[k].decision {
            Decision::Allow => r is Allow,
            Decision::Deny => r matches CheckOutcome::Deny { reason } && reason@ == "capability denied: "@ + cap,
            Decision::Pending => r is RequiresPrompt,
        }
    }
}

/// `requested` without the capabilities that already have a row.
pub open spec fn undecided_spec(m: Map<GrantKey, GrantRowV>, id: Seq<char>, ver: Seq<char>, requested: Seq<Seq<char>>) -> Seq<Seq<char>>
    decreases requested.len(),
{
    if requested.len() == 0 {
        Seq::empty()
    } else {
        let rest = undecided_spec(m, id, ver, requested.drop_last());
        if m.contains_key((id, ver, requested.last())) {
            rest
        } else {
            rest.push(requested.last())
        }
    }
}

/// Timestamp for a newly committed row: the RFC-3339 text of the current
/// second count (which second it is depends on the clock).
fn now_rfc3339() -> (r: String)
    ensures
        exists|secs: u64| #[trigger] crate::clock::rfc3339_spec(secs) == r@,
{
    let secs = unix_now_secs();
    let r = crate::clock::format_rfc3339(secs);
    assert(crate::clock::rfc3339_spec(secs) == r@);
    r
}

impl GrantStore {
    /// Committed grant rows by key.
    pub closed spec fn grants(&self) -> Map<GrantKey, GrantRowV> {
        rows_map(row_views(self.rows@))
    }

    /// The open prompts by `(plugin_id, plugin_version)`.
    pub closed spec fn prompts(&self) -> Map<PromptKey, PromptV> {
        keyed_map(self.prompts@, prompt_key_fn(), prompt_view_fn())
    }

    /// One row per key, one prompt per plugin version, and every open
    /// prompt lists at least one entry.
    pub closed spec fn consistent(&self) -> bool {
        &&& keys_unique(row_views(self.rows@))
        &&& unique_keys(self.prompts@, prompt_key_fn())
        &&& forall|i: int| 0 <= i < self.prompts@.len() ==> #[trigger] self.prompts@[i].pending_view().len() > 0
    }

    /// Every store value is consistent.
    #[verifier::type_invariant]
    closed spec fn wf(&self) -> bool {
        self.consistent()
    }

    /// An empty in-memory store.
    pub fn new_in_memory() -> (r: Self)
        ensures
            r.consistent(),
            r.grants() == Map::<GrantKey, GrantRowV>::empty(),
            r.prompts() == Map::<PromptKey, PromptV>::empty(),
    {
        let r = GrantStore { rows: Vec::new(), prompts: Vec::new() };
        assert(row_views(r.rows@) =~= Seq::<GrantRowV>::empty());
        r
    }

    fn find_row(&self, plugin_id: &String, plugin_version: &String, capability: &String) -> (r: Option<usize>)
        ensures
            match r {
                Some(i) => i < self.rows@.len() && self.rows@[i as int]@.key() == (plugin_id@, plugin_version@, capability@),
                None => !self.grants().contains_key((plugin_id@, plugin_version@, capability@)),
            },
    {
        let ghost k = (plugin_id@, plugin_version@, capability@);
        let ghost rv = row_views(self.rows@);
        let mut i: usize = 0;
        while i < self.rows.len()
            invariant
                i <= self.rows.len(),
                rv == row_views(self.rows@),
                rv.len() == self.rows@.len(),
                k == (plugin_id@, plugin_version@, capability@),
                forall|j: int| 0 <= j < i ==> rv[j].key() != k,
            decreases self.rows.len() - i,
        {
            let r = &self.rows[i];
            assert(rv[i as int] == r@);
            assert(rv[i as int].key() == (r.plugin_id@, r.plugin_version@, r.capability@));
            if same_key(&r.plugin_id, &r.plugin_version, &r.capability, plugin_id, plugin_version, capability) {
                return Some(i);
            }
            i += 1;
        }
        proof {
            lemma_keyed_dom(rv, row_key_fn(), row_val_fn(), k);
        }
        None
    }

    /// Insert `row`, replacing the row with the same key if there is one.
    fn upsert_row(&mut self, row: GrantRow)
        ensures
            final(self).prompts() == old(self).prompts(),
            final(self).grants() == old(self).grants().insert(row@.key(), row@),
    {
        proof {
            use_type_invariant(&*self);
        }
        let ghost old_views = row_views(self.rows@);
        match self.find_row(&row.plugin_id, &row.plugin_version, &row.capability) {
            Some(i) => {
                proof {
                    lemma_keyed_update(old_views, row_key_fn(), row_val_fn(), i as int, row@);
                }
                let mut rows: Vec<GrantRow> = Vec::new();
                std::mem::swap(&mut rows, &mut self.rows);
                rows.set(i, row);
                assert(row_views(rows@) =~= old_views.update(i as int, row@));
                self.rows = rows;
            },
            None => {
                proof {
                    assert forall|j: int| 0 <= j < old_views.len() implies old_views[j].key() != row@.key() by {
                        if old_views[j].key() == row@.key() {
                            lemma_keyed_dom(old_views, row_key_fn(), row_val_fn(), row@.key());
                        }
                    }
                    lemma_keyed_push(old_views, row_key_fn(), row_val_fn(), row@);
                }
                let mut rows: Vec<GrantRow> = Vec::new();
                std::mem::swap(&mut rows, &mut self.rows);
                rows.push(row);
                assert(row_views(rows@) =~= old_views.push(row@));
                self.rows = rows;
            },
        }
    }

    /// Insert the rows one after another, a later row replacing an earlier
    /// one with the same key (how a persisted grant file is read back).
    pub fn load_rows(&mut self, rows: Vec<GrantRow>)
        ensures
            final(self).prompts() == old(self).prompts(),
            final(self).grants() == apply_rows(old(self).grants(), row_views(rows@)),
    {
        let ghost m0 = self.grants();
        let mut i: usize = 0;
        while i < rows.len()
            invariant
                i <= rows.len(),
                self.prompts() == old(self).prompts(),
                self.grants() == apply_rows(m0, row_views(rows@.take(i as int))),
            decreases rows.len() - i,
        {
            proof {
                use_type_invariant(&*self);
            }
            proof {
                assert(row_views(rows@.take(i + 1)).drop_last() =~= row_views(rows@.take(i as int)));
                assert(row_views(rows@.take(i + 1)).last() == rows@[i as int]@);
            }
            self.upsert_row(rows[i].duplicate());
            i += 1;
        }
        assert(rows@.take(rows@.len() as int) =~= rows@);
    }

    /// Insert or replace the row for `(plugin_id, plugin_version,
    /// capability)`, stamped with the current time, and return it.
    pub fn record_decision(
        &mut self,
        plugin_id: &str,
        plugin_version: &str,
        capability: &str,
        decision: Decision,
        decided_by: DecidedBy,
        notes: Option<String>,
    ) -> (r: Result<GrantRow, String>)
        ensures
            final(self).prompts() == old(self).prompts(),
            r is Ok,
            ({
                let row = r->Ok_0@;
                &&& row.plugin_id == plugin_id@
                &&& row.plugin_version == plugin_version@
                &&& row.capability == capability@
                &&& row.decision == decision
                &&& row.decided_by == decided_by
                &&& row.notes == opt_str_view(notes)
                &&& final(self).grants() == old(self).grants().insert(row.key(), row)
            }),
    {
        let stamp = now_rfc3339();
        let row = GrantRow {
            plugin_id: str_to_string(plugin_id),
            plugin_version: str_to_string(plugin_version),
            capability: str_to_string(capability),
            granted_at: stamp,
            decision,
            decided_by,
            notes,
        };
        self.upsert_row(row.duplicate());
        Ok(row)
    }

    /// Mark a capability as denied by the user, with the note `revoked`.
    pub fn revoke(&mut self, plugin_id: &str, plugin_version: &str, capability: &str) -> (r: Result<(), String>)
        ensures
            r is Ok,
            final(self).prompts() == old(self).prompts(),
            ({
                let k = (plugin_id@, plugin_version@, capability@);
                let row = final(self).grants()[k];
                &&& final(self).grants().contains_key(k)
                &&& row.key() == k
                &&& row.decision == Decision::Deny
                &&& row.decided_by == DecidedBy::User
                &&& row.notes == Some("revoked"@)
                &&& final(self).grants() == old(self).grants().insert(k, row)
            }),
    {
        let note = str_to_string("revoked");
        match self.record_decision(plugin_id, plugin_version, capability, Decision::Deny, DecidedBy::User, Some(note)) {
            Ok(_) => Ok(()),
            Err(e) => Err(e),
        }
    }

    /// The row for one key, when a decision has been recorded.
    pub fn lookup(&self, plugin_id: &str, plugin_version: &str, capability: &str) -> (r: Option<GrantRow>)
        ensures
            match r {
                Some(row) => self.grants().contains_key((plugin_id@, plugin_version@, capability@))
                    && row@ == self.grants()[(plugin_id@, plugin_version@, capability@)],
                None => !self.grants().contains_key((plugin_id@, plugin_version@, capability@)),
            },
    {
        proof {
            use_type_invariant(self);
        }
        let id = str_to_string(plugin_id);
        let ver = str_to_string(plugin_version);
        let cap = str_to_string(capability);
        match self.find_row(&id, &ver, &cap) {
            Some(i) => {
                proof {
                    lemma_keyed_at(row_views(self.rows@), row_key_fn(), row_val_fn(), i as int);
                    assert(row_views(self.rows@)[i as int] == self.rows@[i as int]@);
                }
                Some(self.rows[i].duplicate())
            },
            None => None,
        }
    }

    /// Run a check at use time: `Allow` for an allowed row, `Deny` with
    /// the reason `capability denied: <capability>` for a denied row, and
    /// `RequiresPrompt` when no decision (or only a pending one) exists.
    pub fn check(&self, plugin_id: &str, plugin_version: &str, capability: &str) -> (r: CheckOutcome)
        ensures
            check_matches(r, self.grants(), (plugin_id@, plugin_version@, capability@), capability@),
    {
        proof {
            use_type_invariant(self);
        }
        match self.lookup(plugin_id, plugin_version, capability) {
            None => CheckOutcome::RequiresPrompt,
            Some(row) => match row.decision {
                Decision::Allow => CheckOutcome::Allow,
                Decision::Deny => CheckOutcome::Deny { reason: str_concat("capability denied: ", capability) },
                Decision::Pending => CheckOutcome::RequiresPrompt,
            },
        }
    }

    /// The requested capabilities of this plugin version that have no row
    /// yet, in request order (allowed and denied rows both count as
    /// decided).
    pub fn undecided_for(&self, plugin_id: &str, plugin_version: &str, requested: &[String]) -> (r: Vec<String>)
        ensures
            string_views(r@) == undecided_spec(self.grants(), plugin_id@, plugin_version@, string_views(requested@)),
    {
        let id = str_to_string(plugin_id);
        let ver = str_to_string(plugin_version);
        let mut out: Vec<String> = Vec::new();
        let mut i: usize = 0;
        let ghost req = string_views(requested@);
        while i < requested.len()
            invariant
                i <= requested.len(),
                id@ == plugin_id@,
                ver@ == plugin_version@,
                req == string_views(requested@),
                string_views(out@) == undecided_spec(self.grants(), plugin_id@, plugin_version@, req.subrange(0, i as int)),
            decreases requested.len() - i,
        {
            proof {
                use_type_invariant(self);
            }
            let ghost prev = out@;
            let cap = &requested[i];
            assert(req.subrange(0, i + 1).drop_last() == req.subrange(0, i as int));
            assert(req[i as int] == cap@);
            match self.find_row(&id, &ver, cap) {
                Some(j) => {
                    proof {
                        lemma_keyed_at(row_views(self.rows@), row_key_fn(), row_val_fn(), j as int);
                        assert(row_views(self.rows@)[j as int] == self.rows@[j as int]@);
                    }
                },
                None => {
                    out.push(cap.clone());
                    assert(string_views(out@) =~= string_views(prev).push(cap@));
                },
            }
            i += 1;
        }
        assert(req.subrange(0, requested.len() as int) == req);
        out
    }
}

impl GrantStore {
    /// Commit `Allow` (decided by `Default`, note `bundled plugin
    /// auto-grant`) for every requested capability that has no row yet.
    /// Returns the committed rows; rows that already existed, allowed or
    /// denied, are left as they were.
    pub fn auto_grant_bundled(&mut self, plugin_id: &str, plugin_version: &str, requested: &[String]) -> (r: Vec<GrantRow>)
        ensures
            final(self).prompts() == old(self).prompts(),
            ({
                let caps = undecided_spec(old(self).grants(), plugin_id@, plugin_version@, string_views(requested@));
                &&& r@.len() == caps.len()
                &&& forall|i: int| 0 <= i < r@.len() ==> {
                    let row = #[trigger] r@[i]@;
                    &&& row.plugin_id == plugin_id@
                    &&& row.plugin_version == plugin_version@
                    &&& row.capability == caps[i]
                    &&& row.decision == Decision::Allow
                    &&& row.decided_by == DecidedBy::Default
                    &&& row.notes == Some("bundled plugin auto-grant"@)
                }
                &&& final(self).grants() == apply_rows(old(self).grants(), row_views(r@))
            }),
    {
        let to_grant = self.undecided_for(plugin_id, plugin_version, requested);
        let ghost caps = string_views(to_grant@);
        let ghost m0 = self.grants();
        let mut out: Vec<GrantRow> = Vec::new();
        let mut i: usize = 0;
        while i < to_grant.len()
            invariant
                i <= to_grant.len(),
                self.prompts() == old(self).prompts(),
                caps == string_views(to_grant@),
                out@.len() == i,
                forall|j: int| 0 <= j < i ==> {
                    let row = #[trigger] out@[j]@;
                    &&& row.plugin_id == plugin_id@
                    &&& row.plugin_version == plugin_version@
                    &&& row.capability == caps[j]
                    &&& row.decision == Decision::Allow
                    &&& row.decided_by == DecidedBy::Default
                    &&& row.notes == Some("bundled plugin auto-grant"@)
                },
                self.grants() == apply_rows(m0, row_views(out@)),
            decreases to_grant.len() - i,
        {
            proof {
                use_type_invariant(&*self);
            }
            let note = str_to_string("bundled plugin auto-grant");
            let ghost prev = out@;
            let res = self.record_decision(plugin_id, plugin_version, to_grant[i].as_str(), Decision::Allow, DecidedBy::Default, Some(note));
            match res {
                Ok(row) => {
                    out.push(row);
                    assert(row_views(out@).drop_last() =~= row_views(prev));
                },
                Err(_) => {},
            }
            i += 1;
        }
        out
    }

    fn find_prompt(&self, plugin_id: &String, plugin_version: &String) -> (r: Option<usize>)
        ensures
            match r {
                Some(i) => i < self.prompts@.len() && prompt_key(self.prompts@[i as int]) == (plugin_id@, plugin_version@),
                None => !self.prompts().contains_key((plugin_id@, plugin_version@)),
            },
    {
        let ghost k = (plugin_id@, plugin_version@);
        let mut i: usize = 0;
        while i < self.prompts.len()
            invariant
                i <= self.prompts.len(),
                k == (plugin_id@, plugin_version@),
                forall|j: int| 0 <= j < i ==> prompt_key(self.prompts@[j]) != k,
            decreases self.prompts.len() - i,
        {
            proof {
                use_type_invariant(self);
            }
            let p = &self.prompts[i];
            assert(p.pending_view().len() > 0);
            let first = &p.pending[0];
            assert(p.pending_view()[0] == first@);
            if first.plugin_id == *plugin_id && first.plugin_version == *plugin_version {
                return Some(i);
            }
            i += 1;
        }
        proof {
            lemma_keyed_dom(self.prompts@, prompt_key_fn(), prompt_view_fn(), k);
        }
        None
    }

    /// Open a prompt for the plugin version its first entry names,
    /// replacing any prompt already open for it. A prompt with no entries
    /// is refused.
    pub fn open_prompt(&mut self, prompt: PromptState) -> (r: Result<(), String>)
        ensures
            final(self).grants() == old(self).grants(),
            prompt.pending_view().len() == 0 <==> r is Err,
            r matches Err(e) ==> e@ == "prompt has no pending decisions"@ && final(self).prompts() == old(self).prompts(),
            r is Ok ==> final(self).prompts() == old(self).prompts().insert(
                prompt_key(prompt),
                PromptV { pending: prompt.pending_view(), decided: prompt.decided() },
            ),
    {
        if prompt.pending.len() == 0 {
            assert(prompt.pending_view().len() == 0);
            return Err(str_to_string("prompt has no pending decisions"));
        }
        assert(prompt.pending_view().len() > 0);
        proof {
            use_type_invariant(&*self);
        }
        let id = prompt.pending[0].plugin_id.clone();
        let ver = prompt.pending[0].plugin_version.clone();
        assert(prompt.pending_view()[0] == prompt.pending@[0]@);
        let ghost old_prompts = self.prompts@;
        let found = self.find_prompt(&id, &ver);
        let mut prompts: Vec<PromptState> = Vec::new();
        std::mem::swap(&mut prompts, &mut self.prompts);
        match found {
            Some(i) => {
                proof {
                    lemma_keyed_update(old_prompts, prompt_key_fn(), prompt_view_fn(), i as int, prompt);
                }
                prompts.set(i, prompt);
                assert(prompts@ == old_prompts.update(i as int, prompt));
            },
            None => {
                proof {
                    lemma_keyed_push(old_prompts, prompt_key_fn(), prompt_view_fn(), prompt);
                }
                prompts.push(prompt);
            },
        }
        assert forall|i: int| 0 <= i < prompts@.len() implies #[trigger] prompts@[i].pending_view().len() > 0 by {
            if i < old_prompts.len() && prompts@[i] == old_prompts[i] {
            }
        }
        self.prompts = prompts;
        Ok(())
    }

    /// True when a prompt is open for this plugin version.
    pub fn has_pending_prompt(&self, plugin_id: &str, plugin_version: &str) -> (r: bool)
        ensures
            r == self.prompts().contains_key((plugin_id@, plugin_version@)),
    {
        proof {
            use_type_invariant(self);
        }
        let id = str_to_string(plugin_id);
        let ver = str_to_string(plugin_version);
        match self.find_prompt(&id, &ver) {
            Some(i) => {
                proof {
                    lemma_keyed_at(self.prompts@, prompt_key_fn(), prompt_view_fn(), i as int);
                }
                true
            },
            None => false,
        }
    }

    /// A copy of every open prompt (one per plugin version).
    pub fn pending_prompts(&self) -> (r: Vec<PromptState>)
        ensures
            r@.len() == self.prompts().len(),
            forall|i: int| 0 <= i < r@.len() ==> {
                let p = #[trigger] r@[i];
                &&& p.pending_view().len() > 0
                &&& self.prompts().contains_key(prompt_key(p))
                &&& self.prompts()[prompt_key(p)] == PromptV { pending: p.pending_view(), decided: p.decided() }
            },
            forall|i: int, j: int| 0 <= i < r@.len() && 0 <= j < r@.len() && i != j ==> prompt_key(r@[i]) != prompt_key(r@[j]),
    {
        proof {
            use_type_invariant(self);
        }
        let mut out: Vec<PromptState> = Vec::new();
        let mut i: usize = 0;
        while i < self.prompts.len()
            invariant
                i <= self.prompts.len(),
                out@.len() == i,
                forall|j: int| 0 <= j < i ==> (#[trigger] out@[j]).pending_view() == self.prompts@[j].pending_view()
                    && out@[j].decided() == self.prompts@[j].decided(),
            decreases self.prompts.len() - i,
        {
            proof {
                use_type_invariant(self);
            }
            out.push(self.prompts[i].duplicate());
            i += 1;
        }
        proof {
            assert forall|i: int| 0 <= i < out@.len() implies {
                let p = #[trigger] out@[i];
                &&& p.pending_view().len() > 0
                &&& self.prompts().contains_key(prompt_key(p))
                &&& self.prompts()[prompt_key(p)] == PromptV { pending: p.pending_view(), decided: p.decided() }
            } by {
                assert(self.prompts@[i].pending_view().len() > 0);
                lemma_keyed_at(self.prompts@, prompt_key_fn(), prompt_view_fn(), i);
            }
            assert forall|i: int, j: int| 0 <= i < out@.len() && 0 <= j < out@.len() && i != j implies prompt_key(out@[i]) != prompt_key(out@[j]) by {
                assert(prompt_key(out@[i]) == prompt_key(self.prompts@[i]));
                assert(prompt_key(out@[j]) == prompt_key(self.prompts@[j]));
            }
            lemma_keyed_len(self.prompts@, prompt_key_fn(), prompt_view_fn());
        }
        out
    }

    /// Close and remove the prompt for `(plugin_id, plugin_version)` and
    /// commit each of its entries as decided by the user (undecided
    /// entries as `Deny`). Returns the committed rows in prompt order;
    /// with no open prompt nothing changes and the list is empty.
    pub fn resolve_prompt(&mut self, plugin_id: &str, plugin_version: &str) -> (r: Result<Vec<GrantRow>, String>)
        ensures
            r is Ok,
            final(self).prompts() == old(self).prompts().remove((plugin_id@, plugin_version@)),
            !old(self).prompts().contains_key((plugin_id@, plugin_version@)) ==> r->Ok_0@.len() == 0
                && final(self).grants() == old(self).grants(),
            old(self).prompts().contains_key((plugin_id@, plugin_version@)) ==> ({
                let p = old(self).prompts()[(plugin_id@, plugin_version@)];
                let rows = r->Ok_0@;
                &&& rows.len() == p.pending.len()
                &&& forall|i: int| 0 <= i < rows.len() ==> {
                    let row = #[trigger] rows[i]@;
                    &&& row.key() == p.pending[i]
                    &&& row.decision == final_decision(p.decided, p.pending[i])
                    &&& row.decided_by == DecidedBy::User
                    &&& row.notes is None
                }
                &&& final(self).grants() == apply_rows(old(self).grants(), row_views(rows))
            }),
    {
        proof {
            use_type_invariant(&*self);
        }
        let id = str_to_string(plugin_id);
        let ver = str_to_string(plugin_version);
        let ghost old_prompts = self.prompts@;
        let idx = self.find_prompt(&id, &ver);
        match idx {
            None => {
                assert(old(self).prompts().remove((plugin_id@, plugin_version@)) =~= old(self).prompts());
                return Ok(Vec::new());
            },
            Some(i) => {
                proof {
                    lemma_keyed_at(old_prompts, prompt_key_fn(), prompt_view_fn(), i as int);
                    lemma_keyed_remove(old_prompts, prompt_key_fn(), prompt_view_fn(), i as int);
                }
                let mut prompts: Vec<PromptState> = Vec::new();
                std::mem::swap(&mut prompts, &mut self.prompts);
                let prompt = prompts.remove(i);
                assert(prompts@ == old_prompts.remove(i as int));
                assert forall|j: int| 0 <= j < prompts@.len() implies #[trigger] prompts@[j].pending_view().len() > 0 by {
                    let j2 = if j < i { j } else { j + 1 };
                    assert(prompts@[j] == old_prompts[j2]);
                }
                self.prompts = prompts;
                proof {
                    use_type_invariant(&*self);
                }
                let ghost pv = prompt.pending_view();
                let ghost dm = prompt.decided();
                let resolutions = prompt.finalize();
                let ghost m0 = self.grants();
                let mut committed: Vec<GrantRow> = Vec::new();
                let mut k: usize = 0;
                while k < resolutions.len()
                    invariant
                        k <= resolutions.len(),
                        resolutions@.len() == pv.len(),
                        forall|j: int|
                            0 <= j < resolutions@.len() ==> {
                                let key = #[trigger] pv[j];
                                &&& resolutions@[j].0@ == key.0
                                &&& resolutions@[j].1@ == key.1
                                &&& resolutions@[j].2@ == key.2
                                &&& resolutions@[j].3 == final_decision(dm, key)
                            },
                        self.prompts() == old(self).prompts().remove((plugin_id@, plugin_version@)),
                        committed@.len() == k,
                        forall|j: int| 0 <= j < k ==> {
                            let row = #[trigger] committed@[j]@;
                            &&& row.key() == pv[j]
                            &&& row.decision == final_decision(dm, pv[j])
                            &&& row.decided_by == DecidedBy::User
                            &&& row.notes is None
                        },
                        self.grants() == apply_rows(m0, row_views(committed@)),
                    decreases resolutions.len() - k,
                {
                    proof {
                        use_type_invariant(&*self);
                    }
                    let e = &resolutions[k];
                    let ghost prev = committed@;
                    let res = self.record_decision(e.0.as_str(), e.1.as_str(), e.2.as_str(), e.3, DecidedBy::User, None);
                    match res {
                        Ok(row) => {
                            committed.push(row);
                            assert(row_views(committed@).drop_last() =~= row_views(prev));
                        },
                        Err(e) => {
                            return Err(e);
                        },
                    }
                    k += 1;
                }
                Ok(committed)
            },
        }
    }
}

/// Strict order on grant keys: by plugin id, then version, then capability.
pub open spec fn key_lt(a: GrantKey, b: GrantKey) -> bool {
    chars_lt(a.0, b.0) || (a.0 == b.0 && (chars_lt(a.1, b.1) || (a.1 == b.1 && chars_lt(a.2, b.2))))
}

proof fn lemma_key_lt_order(a: GrantKey, b: GrantKey, c: GrantKey)
    ensures
        !key_lt(a, a),
        key_lt(a, b) && key_lt(b, c) ==> key_lt(a, c),
        a == b || key_lt(a, b) || key_lt(b, a),
        !(key_lt(a, b) && key_lt(b, a)),
{
    lemma_chars_lt_irrefl(a.0);
    lemma_chars_lt_irrefl(a.1);
    lemma_chars_lt_irrefl(a.2);
    lemma_chars_lt_total(a.0, b.0);
    lemma_chars_lt_total(a.1, b.1);
    lemma_chars_lt_total(a.2, b.2);
    lemma_chars_lt_asym(a.0, b.0);
    lemma_chars_lt_asym(a.1, b.1);
    lemma_chars_lt_asym(a.2, b.2);
    if key_lt(a, b) && key_lt(b, c) {
        if chars_lt(a.0, b.0) && chars_lt(b.0, c.0) {
            lemma_chars_lt_trans(a.0, b.0, c.0);
        }
        if a.0 == b.0 && b.0 == c.0 {
            if chars_lt(a.1, b.1) && chars_lt(b.1, c.1) {
                lemma_chars_lt_trans(a.1, b.1, c.1);
            }
            if a.1 == b.1 && b.1 == c.1 {
                lemma_chars_lt_trans(a.2, b.2, c.2);
            }
        }
    }
}

/// Each key sorts strictly before the next.
pub open spec fn sorted_by_key(s: Seq<GrantRowV>) -> bool {
    forall|i: int, j: int| 0 <= i < j < s.len() ==> key_lt(s[i].key(), s[j].key())
}

fn row_key_lt(a: &GrantRow, b: &GrantRow) -> (r: bool)
    ensures
        r == key_lt(a@.key(), b@.key()),
{
    if str_lt(a.plugin_id.as_str(), b.plugin_id.as_str()) {
        return true;
    }
    if a.plugin_id != b.plugin_id {
        return false;
    }
    if str_lt(a.plugin_version.as_str(), b.plugin_version.as_str()) {
        return true;
    }
    if a.plugin_version != b.plugin_version {
        return false;
    }
    str_lt(a.capability.as_str(), b.capability.as_str())
}

impl GrantStore {
    /// Every grant row, ordered by `(plugin_id, plugin_version,
    /// capability)`.
    pub fn rows(&self) -> (r: Vec<GrantRow>)
        ensures
            r@.len() == self.grants().len(),
            forall|i: int| 0 <= i < r@.len() ==> {
                &&& self.grants().contains_key((#[trigger] r@[i])@.key())
                &&& self.grants()[r@[i]@.key()] == r@[i]@
            },
            sorted_by_key(row_views(r@)),
    {
        proof {
            use_type_invariant(self);
        }
        let ghost rv = row_views(self.rows@);
        let mut out: Vec<GrantRow> = Vec::new();
        let mut i: usize = 0;
        while i < self.rows.len()
            invariant
                i <= self.rows.len(),
                rv == row_views(self.rows@),
                rv.len() == self.rows@.len(),
                out@.len() == i,
                sorted_by_key(row_views(out@)),
                forall|j: int| 0 <= j < out@.len() ==> exists|k: int| 0 <= k < i && (#[trigger] out@[j])@ == rv[k],
                forall|k: int| 0 <= k < i ==> exists|j: int| 0 <= j < out@.len() && out@[j]@ == #[trigger] rv[k],
            decreases self.rows.len() - i,
        {
            proof {
                use_type_invariant(self);
            }
            let row = self.rows[i].duplicate();
            assert(row@ == rv[i as int]);
            let ghost ov = row_views(out@);
            assert(ov.len() == out@.len());
            let mut p: usize = 0;
            while p < out.len() && !row_key_lt(&row, &out[p])
                invariant
                    p <= out@.len(),
                    forall|j: int| 0 <= j < p ==> !key_lt(row@.key(), (#[trigger] out@[j])@.key()),
                decreases out@.len() - p,
            {
                p += 1;
            }
            proof {
                assert forall|j: int| 0 <= j < p implies key_lt(ov[j].key(), row@.key()) by {
                    assert(ov[j] == out@[j]@);
                    let k = choose|k: int| 0 <= k < i && out@[j]@ == rv[k];
                    assert(rv[k].key() != rv[i as int].key());
                    lemma_key_lt_order(ov[j].key(), row@.key(), row@.key());
                }
                assert forall|j: int| p <= j < ov.len() implies key_lt(row@.key(), ov[j].key()) by {
                    assert(ov[p as int] == out@[p as int]@);
                    if j > p {
                        lemma_key_lt_order(row@.key(), ov[p as int].key(), ov[j].key());
                    }
                }
            }
            let ghost old_out = out@;
            out.insert(p, row);
            proof {
                assert(out@ == old_out.insert(p as int, row));
                let nv = row_views(out@);
                assert(nv =~= ov.insert(p as int, row@));
                assert forall|a: int, b: int| 0 <= a < b < nv.len() implies key_lt(nv[a].key(), nv[b].key()) by {
                    if a < p && b < p {
                    } else if a < p && b == p {
                    } else if a < p && b > p {
                        lemma_key_lt_order(ov[a].key(), row@.key(), ov[b - 1].key());
                    } else if a == p {
                    } else {
                        assert(key_lt(ov[a - 1].key(), ov[b - 1].key()));
                    }
                }
                assert forall|j: int| 0 <= j < out@.len() implies exists|k: int| 0 <= k < i + 1 && (#[trigger] out@[j])@ == rv[k] by {
                    if j < p {
                        assert(out@[j] == old_out[j]);
                        let k = choose|k: int| 0 <= k < i && old_out[j]@ == rv[k];
                    } else if j == p {
                        assert(out@[j]@ == rv[i as int]);
                    } else {
                        assert(out@[j] == old_out[j - 1]);
                        let k = choose|k: int| 0 <= k < i && old_out[j - 1]@ == rv[k];
                    }
                }
                assert forall|k: int| 0 <= k < i + 1 implies exists|j: int| 0 <= j < out@.len() && out@[j]@ == #[trigger] rv[k] by {
                    if k == i {
                        assert(out@[p as int]@ == rv[k]);
                    } else {
                        let j = choose|j: int| 0 <= j < old_out.len() && old_out[j]@ == rv[k];
                        if j < p {
                            assert(out@[j] == old_out[j]);
                        } else {
                            assert(out@[j + 1] == old_out[j]);
                        }
                    }
                }
            }
            i += 1;
        }
        proof {
            lemma_keyed_len(rv, row_key_fn(), row_val_fn());
            assert forall|j: int| 0 <= j < out@.len() implies {
                &&& self.grants().contains_key((#[trigger] out@[j])@.key())
                &&& self.grants()[out@[j]@.key()] == out@[j]@
            } by {
                let k = choose|k: int| 0 <= k < rv.len() && out@[j]@ == rv[k];
                lemma_keyed_at(rv, row_key_fn(), row_val_fn(), k);
            }
        }
        out
    }
}

impl OverlayDescriptor {
    /// Overlay for a prompt: titled `<id> v<version> requests <n>
    /// capabilities` after its first entry; `None` for an empty prompt.
    pub fn from_prompt(prompt: &PromptState) -> (r: Option<Self>)
        ensures
            prompt.pending_view().len() == 0 <==> r is None,
            r matches Some(o) ==> {
                let first = prompt.pending_view()[0];
                &&& o.kind@ == "PluginCapabilityPrompt"@
                &&& o.plugin_id@ == first.0
                &&& o.plugin_version@ == first.1
                &&& o.title@ == first.0 + " v"@ + first.1 + " requests "@ + dec_digits(prompt.pending_view().len()) + " capabilities"@
                &&& pending_views(o.pending@) == prompt.pending_view()
            },
    {
        let pending = prompt.pending();
        if pending.len() == 0 {
            return None;
        }
        let first = &pending[0];
        let plugin_id = first.plugin_id.clone();
        let plugin_version = first.plugin_version.clone();
        let mut title = plugin_id.clone();
        title.append(" v");
        title.append(plugin_version.as_str());
        title.append(" requests ");
        let n = decimal_string(pending.len() as u64);
        title.append(n.as_str());
        title.append(" capabilities");
        let mut copy: Vec<PendingDecision> = Vec::new();
        let mut i: usize = 0;
        while i < pending.len()
            invariant
                i <= pending@.len(),
                copy@.len() == i,
                forall|j: int| 0 <= j < i ==> copy@[j]@ == pending@[j]@,
            decreases pending@.len() - i,
        {
            copy.push(pending[i].duplicate());
            i += 1;
        }
        assert(pending_views(copy@) =~= pending_views(pending@));
        Some(OverlayDescriptor { kind: "PluginCapabilityPrompt", title, plugin_id, plugin_version, pending: copy })
    }
}

/// Inspector projection of one open prompt.
#[derive(Debug, Clone)]
pub struct PendingPromptSummary {
    pub plugin_id: String,
    pub plugin_version: String,
    pub pending: Vec<String>,
}

impl PendingPromptSummary {
    /// The prompt's plugin (from its first entry) and the capabilities it
    /// lists; `None` for an empty prompt.
    pub fn from_prompt(prompt: &PromptState) -> (r: Option<Self>)
        ensures
            prompt.pending_view().len() == 0 <==> r is None,
            r matches Some(o) ==> {
                &&& o.plugin_id@ == prompt.pending_view()[0].0
                &&& o.plugin_version@ == prompt.pending_view()[0].1
                &&& o.pending@.len() == prompt.pending_view().len()
                &&& forall|i: int| 0 <= i < o.pending@.len() ==> (#[trigger] o.pending@[i])@ == prompt.pending_view()[i].2
            },
    {
        let pending = prompt.pending();
        if pending.len() == 0 {
            return None;
        }
        let mut caps: Vec<String> = Vec::new();
        let mut i: usize = 0;
        while i < pending.len()
            invariant
                i <= pending@.len(),
                caps@.len() == i,
                pending_views(pending@) == prompt.pending_view(),
                forall|j: int| 0 <= j < i ==> (#[trigger] caps@[j])@ == prompt.pending_view()[j].2,
            decreases pending@.len() - i,
        {
            assert(prompt.pending_view()[i as int] == pending@[i as int]@);
            caps.push(pending[i].capability.clone());
            i += 1;
        }
        assert(prompt.pending_view()[0] == pending@[0]@);
        Some(PendingPromptSummary {
            plugin_id: pending[0].plugin_id.clone(),
            plugin_version: pending[0].plugin_version.clone(),
            pending: caps,
        })
    }
}

/// Inspector projection of one grant row, with the decision and decider
/// spelled out.
#[derive(Debug, Clone)]
pub struct CapabilityGrantSummary {
    pub plugin_id: String,
    pub plugin_version: String,
    pub capability: String,
    pub decision: String,
    pub decided_by: String,
    pub granted_at: String,
    pub notes: Option<String>,
}

impl CapabilityGrantSummary {
    /// The inspector row for a grant row.
    pub fn from_row(row: GrantRow) -> (r: Self)
        ensures
            r.plugin_id@ == row.plugin_id@,
            r.plugin_version@ == row.plugin_version@,
            r.capability@ == row.capability@,
            r.decision@ == decision_str(row.decision),
            r.decided_by@ == decided_by_str(row.decided_by),
            r.granted_at@ == row.granted_at@,
            opt_str_view(r.notes) == opt_str_view(row.notes),
    {
        CapabilityGrantSummary {
            plugin_id: row.plugin_id,
            plugin_version: row.plugin_version,
            capability: row.capability,
            decision: str_to_string(row.decision.as_str()),
            decided_by: str_to_string(row.decided_by.as_str()),
            granted_at: row.granted_at,
            notes: row.notes,
        }
    }
}

/// A prompt for `(plugin_id, plugin_version)` listing the requested
/// capabilities that have no row yet; `None` when every one is decided.
pub fn prompt_for_undecided(store: &GrantStore, plugin_id: &str, plugin_version: &str, requested: &[String]) -> (r: Option<PromptState>)
    ensures
        ({
            let caps = undecided_spec(store.grants(), plugin_id@, plugin_version@, string_views(requested@));
            &&& caps.len() == 0 <==> r is None
            &&& r matches Some(p) ==> {
                &&& p.decided() == Map::<GrantKey, Decision>::empty()
                &&& p.pending_view().len() == caps.len()
                &&& forall|i: int| 0 <= i < caps.len() ==> #[trigger] p.pending_view()[i] == (plugin_id@, plugin_version@, caps[i])
            }
        }),
{
    let undecided = store.undecided_for(plugin_id, plugin_version, requested);
    if undecided.len() == 0 {
        return None;
    }
    let mut pending: Vec<PendingDecision> = Vec::new();
    let mut i: usize = 0;
    while i < undecided.len()
        invariant
            i <= undecided@.len(),
            pending@.len() == i,
            forall|j: int| 0 <= j < i ==> (#[trigger] pending@[j])@ == (plugin_id@, plugin_version@, undecided@[j]@),
        decreases undecided@.len() - i,
    {
        pending.push(PendingDecision {
            plugin_id: str_to_string(plugin_id),
            plugin_version: str_to_string(plugin_version),
            capability: undecided[i].clone(),
        });
        i += 1;
    }
    let p = PromptState::new(pending);
    assert forall|j: int| 0 <= j < string_views(undecided@).len() implies #[trigger] p.pending_view()[j] == (plugin_id@, plugin_version@, string_views(undecided@)[j]) by {
        assert(p.pending_view()[j] == pending@[j]@);
    }
    Some(p)
}

/// Record a grant lifecycle event on the audit log under `code`; the
/// target is the capability, followed by `|by=<decider>` when known.
pub fn audit_grant_event(log: &mut AuditLog, plugin_id: &str, code: &str, capability: &str, decided_by: Option<DecidedBy>)
    ensures
        final(log).log() == old(log).log().push(
            AuditEntryV {
                plugin_id: plugin_id@,
                capability: code@,
                target: match decided_by {
                    Some(d) => capability@ + "|by="@ + decided_by_str(d),
                    None => capability@,
                },
                outcome: AuditOutcome::Allowed,
            },
        ),
{
    let target = match decided_by {
        Some(d) => {
            let mut t = str_concat(capability, "|by=");
            t.append(d.as_str());
            t
        },
        None => str_to_string(capability),
    };
    log.record(plugin_id, code, target.as_str(), AuditOutcome::Allowed);
}

/// Bundled-plugin roots. A plugin whose (canonical) root lies under one
/// of them gets its requested capabilities auto-granted.
#[derive(Debug, Clone)]
pub struct AutoGrantPolicy {
    bundled_roots: Vec<String>,
}

impl AutoGrantPolicy {
    /// The trusted roots, in the order they were added.
    pub closed spec fn roots(&self) -> Seq<Seq<char>> {
        string_views(self.bundled_roots@)
    }

    pub fn new() -> (r: Self)
        ensures
            r.roots() == Seq::<Seq<char>>::empty(),
    {
        let r = AutoGrantPolicy { bundled_roots: Vec::new() };
        assert(r.roots() =~= Seq::<Seq<char>>::empty());
        r
    }

    /// Trust an already-canonicalised root; a root naming the same path
    /// (component for component) as a trusted one is not added twice.
    pub fn trust_bundled_root(&mut self, canonical_root: &str)
        ensures
            (exists|i: int| 0 <= i < old(self).roots().len() && components(#[trigger] old(self).roots()[i]) == components(canonical_root@))
                ==> final(self).roots() == old(self).roots(),
            !(exists|i: int| 0 <= i < old(self).roots().len() && components(#[trigger] old(self).roots()[i]) == components(canonical_root@))
                ==> final(self).roots() == old(self).roots().push(canonical_root@),
    {
        let c = chars_of(canonical_root);
        let mut i: usize = 0;
        while i < self.bundled_roots.len()
            invariant
                i <= self.bundled_roots.len(),
                c@ == canonical_root@,
                self.roots() == string_views(self.bundled_roots@),
                forall|j: int| 0 <= j < i ==> components(#[trigger] self.roots()[j]) != components(canonical_root@),
            decreases self.bundled_roots.len() - i,
        {
            let r = chars_of(self.bundled_roots[i].as_str());
            assert(self.roots()[i as int] == r@);
            if chars_start_with(&r, &c) && chars_start_with(&c, &r) {
                assert(components(r@) == components(c@)) by {
                    assert(components(r@).subrange(0, components(c@).len() as int) == components(c@));
                }
                return;
            }
            proof {
                if components(r@) == components(c@) {
                    assert(components(r@).subrange(0, components(c@).len() as int) =~= components(c@));
                }
            }
            i += 1;
        }
        let ghost before = self.bundled_roots@;
        self.bundled_roots.push(str_to_string(canonical_root));
        assert(string_views(self.bundled_roots@) =~= string_views(before).push(canonical_root@));
    }

    /// True when the canonical plugin root lies under a trusted root
    /// (component-wise prefix).
    pub fn is_bundled(&self, canonical_plugin_root: &str) -> (r: bool)
        ensures
            r == exists|i: int| 0 <= i < self.roots().len() && path_starts_with(canonical_plugin_root@, #[trigger] self.roots()[i]),
    {
        let c = chars_of(canonical_plugin_root);
        let mut i: usize = 0;
        while i < self.bundled_roots.len()
            invariant
                i <= self.bundled_roots.len(),
                c@ == canonical_plugin_root@,
                self.roots() == string_views(self.bundled_roots@),
                forall|j: int| 0 <= j < i ==> !path_starts_with(canonical_plugin_root@, #[trigger] self.roots()[j]),
            decreases self.bundled_roots.len() - i,
        {
            let r = chars_of(self.bundled_roots[i].as_str());
            assert(self.roots()[i as int] == r@);
            if chars_start_with(&c, &r) {
                return true;
            }
            i += 1;
        }
        false
    }
}

// ---------------------------------------------------------------------
// Laws

/// A check reads the last decision recorded for its key: after a row is
/// recorded (or revoked, which records a denial), checking that key
/// answers `Allow` for an allowed row, `Deny` for a denied one and
/// `RequiresPrompt` for a pending one, whatever was recorded before.
pub proof fn lemma_check_reads_recorded_decision(m: Map<GrantKey, GrantRowV>, row: GrantRowV, r: CheckOutcome)
    requires
        check_matches(r, m.insert(row.key(), row), row.key(), row.capability),
    ensures
        row.decision == Decision::Allow ==> r is Allow,
        row.decision == Decision::Deny ==> (r matches CheckOutcome::Deny { reason } && reason@ == "capability denied: "@ + row.capability),
        row.decision == Decision::Pending ==> r is RequiresPrompt,
{
}

/// A key without any row always needs a prompt.
pub proof fn lemma_unknown_key_requires_prompt(m: Map<GrantKey, GrantRowV>, k: GrantKey, r: CheckOutcome)
    requires
        !m.contains_key(k),
        check_matches(r, m, k, k.2),
    ensures
        r is RequiresPrompt,
{
}

/// The capabilities left undecided have no row.
pub proof fn lemma_undecided_have_no_row(m: Map<GrantKey, GrantRowV>, id: Seq<char>, ver: Seq<char>, requested: Seq<Seq<char>>)
    ensures
        forall|i: int| 0 <= i < undecided_spec(m, id, ver, requested).len() ==> !m.contains_key(
            (id, ver, #[trigger] undecided_spec(m, id, ver, requested)[i]),
        ),
        forall|i: int| 0 <= i < undecided_spec(m, id, ver, requested).len() ==> requested.contains(
            #[trigger] undecided_spec(m, id, ver, requested)[i],
        ),
    decreases requested.len(),
{
    if requested.len() > 0 {
        lemma_undecided_have_no_row(m, id, ver, requested.drop_last());
        let rest = undecided_spec(m, id, ver, requested.drop_last());
        assert forall|i: int| 0 <= i < rest.len() implies requested.contains(#[trigger] rest[i]) by {
            let j = choose|j: int| 0 <= j < requested.drop_last().len() && requested.drop_last()[j] == rest[i];
            assert(requested[j] == rest[i]);
        }
        if !m.contains_key((id, ver, requested.last())) {
            assert(requested[requested.len() - 1] == requested.last());
        }
    }
}

/// Applying rows changes no key that none of them names.
pub proof fn lemma_apply_rows_keeps_other_keys(m: Map<GrantKey, GrantRowV>, rows: Seq<GrantRowV>, k: GrantKey)
    requires
        forall|i: int| 0 <= i < rows.len() ==> (#[trigger] rows[i]).key() != k,
    ensures
        apply_rows(m, rows).contains_key(k) == m.contains_key(k),
        m.contains_key(k) ==> apply_rows(m, rows)[k] == m[k],
    decreases rows.len(),
{
    if rows.len() > 0 {
        assert forall|i: int| 0 <= i < rows.drop_last().len() implies (#[trigger] rows.drop_last()[i]).key() != k by {
            assert(rows.drop_last()[i] == rows[i]);
        }
        lemma_apply_rows_keeps_other_keys(m, rows.drop_last(), k);
        assert(rows.last() == rows[rows.len() - 1]);
    }
}

/// Reading rows into an empty map is the keyed map of those rows.
proof fn lemma_apply_rows_empty(rows: Seq<GrantRowV>)
    ensures
        apply_rows(Map::empty(), rows) == rows_map(rows),
    decreases rows.len(),
{
    if rows.len() > 0 {
        lemma_apply_rows_empty(rows.drop_last());
    }
}

/// Reading back what `rows` lists (as a persisted grant file holds it)
/// into an empty store gives the grants of the store it came from.
pub proof fn lemma_rows_reload_round_trip(store: GrantStore, rows: Seq<GrantRowV>)
    requires
        store.consistent(),
        rows.len() == store.grants().len(),
        forall|i: int| 0 <= i < rows.len() ==> {
            &&& store.grants().contains_key((#[trigger] rows[i]).key())
            &&& store.grants()[rows[i].key()] == rows[i]
        },
        sorted_by_key(rows),
    ensures
        apply_rows(Map::empty(), rows) == store.grants(),
{
    lemma_apply_rows_empty(rows);
    let m = store.grants();
    let a = rows_map(rows);
    assert(unique_keys(rows, row_key_fn())) by {
        assert forall|i: int, j: int| 0 <= i < rows.len() && 0 <= j < rows.len() && i != j
            implies (row_key_fn())(rows[i]) != (row_key_fn())(rows[j]) by {
            lemma_key_lt_order(rows[i].key(), rows[j].key(), rows[j].key());
            lemma_key_lt_order(rows[j].key(), rows[i].key(), rows[i].key());
        }
    }
    lemma_keyed_len(rows, row_key_fn(), row_val_fn());
    lemma_keyed_len(row_views(store.rows@), row_key_fn(), row_val_fn());
    assert forall|k: GrantKey| #[trigger] a.dom().contains(k) implies m.dom().contains(k) && a[k] == m[k] by {
        lemma_keyed_dom(rows, row_key_fn(), row_val_fn(), k);
        let i = choose|i: int| 0 <= i < rows.len() && (row_key_fn())(rows[i]) == k;
        lemma_keyed_at(rows, row_key_fn(), row_val_fn(), i);
    }
    assert(a.dom() =~= m.dom()) by {
        if exists|k: GrantKey| m.contains_key(k) && !a.contains_key(k) {
            let k = choose|k: GrantKey| m.contains_key(k) && !a.contains_key(k);
            assert forall|x: GrantKey| #[trigger] a.dom().contains(x) implies m.dom().remove(k).contains(x) by {
                assert(a.contains_key(x));
            }
            vstd::set_lib::lemma_len_subset(a.dom(), m.dom().remove(k));
        }
    }
    assert(a =~= m);
}

/// Auto-granting a bundled plugin never overrides a decision: every row
/// that existed before keeps its value, and every capability that is
/// granted had no row.
pub proof fn lemma_auto_grant_keeps_decisions(
    m: Map<GrantKey, GrantRowV>,
    id: Seq<char>,
    ver: Seq<char>,
    requested: Seq<Seq<char>>,
    rows: Seq<GrantRowV>,
    k: GrantKey,
)
    requires
        rows.len() == undecided_spec(m, id, ver, requested).len(),
        forall|i: int| 0 <= i < rows.len() ==> (#[trigger] rows[i]).key() == (id, ver, undecided_spec(m, id, ver, requested)[i]),
        m.contains_key(k),
    ensures
        apply_rows(m, rows).contains_key(k),
        apply_rows(m, rows)[k] == m[k],
{
    lemma_undecided_have_no_row(m, id, ver, requested);
    assert forall|i: int| 0 <= i < rows.len() implies (#[trigger] rows[i]).key() != k by {
        assert(!m.contains_key((id, ver, undecided_spec(m, id, ver, requested)[i])));
    }
    lemma_apply_rows_keeps_other_keys(m, rows, k);
}

/// A prompt commits a denial for every capability the user left
/// undecided, the user's choice for every capability decided `Allow` or
/// `Deny`, and never `Pending`.
pub proof fn lemma_finalize_defaults_to_deny(m: Map<GrantKey, Decision>, k: GrantKey)
    ensures
        !m.contains_key(k) ==> final_decision(m, k) == Decision::Deny,
        m.contains_key(k) && m[k] != Decision::Pending ==> final_decision(m, k) == m[k],
        final_decision(m, k) != Decision::Pending,
{
}

proof fn lemma_undecided_lists_missing(m: Map<GrantKey, GrantRowV>, id: Seq<char>, ver: Seq<char>, requested: Seq<Seq<char>>, j: int)
    requires
        0 <= j < requested.len(),
        !m.contains_key((id, ver, requested[j])),
    ensures
        undecided_spec(m, id, ver, requested).contains(requested[j]),
    decreases requested.len(),
{
    let rest = undecided_spec(m, id, ver, requested.drop_last());
    if j == requested.len() - 1 {
        assert(undecided_spec(m, id, ver, requested) == rest.push(requested.last()));
        assert(undecided_spec(m, id, ver, requested)[rest.len() as int] == requested[j]);
    } else {
        assert(requested.drop_last()[j] == requested[j]);
        lemma_undecided_lists_missing(m, id, ver, requested.drop_last(), j);
        let w = choose|x: int| 0 <= x < rest.len() && rest[x] == requested[j];
        assert(undecided_spec(m, id, ver, requested)[w] == rest[w]);
    }
}

proof fn lemma_apply_rows_has_keys(m: Map<GrantKey, GrantRowV>, rows: Seq<GrantRowV>, i: int)
    requires
        0 <= i < rows.len(),
    ensures
        apply_rows(m, rows).contains_key(rows[i].key()),
    decreases rows.len(),
{
    if i < rows.len() - 1 {
        assert(rows.drop_last()[i] == rows[i]);
        lemma_apply_rows_has_keys(m, rows.drop_last(), i);
    }
}

proof fn lemma_undecided_empty(m: Map<GrantKey, GrantRowV>, id: Seq<char>, ver: Seq<char>, requested: Seq<Seq<char>>)
    requires
        forall|j: int| 0 <= j < requested.len() ==> m.contains_key((id, ver, #[trigger] requested[j])),
    ensures
        undecided_spec(m, id, ver, requested).len() == 0,
    decreases requested.len(),
{
    if requested.len() > 0 {
        let d = requested.drop_last();
        assert forall|j: int| 0 <= j < d.len() implies m.contains_key((id, ver, #[trigger] d[j])) by {
            assert(d[j] == requested[j]);
        }
        lemma_undecided_empty(m, id, ver, d);
        assert(m.contains_key((id, ver, requested[requested.len() - 1])));
    }
}

/// Auto-granting is idempotent: once the rows for the undecided
/// capabilities are in, none of the requested capabilities is undecided,
/// so an immediately repeated call grants nothing and changes nothing.
pub proof fn lemma_auto_grant_idempotent(
    m: Map<GrantKey, GrantRowV>,
    id: Seq<char>,
    ver: Seq<char>,
    requested: Seq<Seq<char>>,
    rows: Seq<GrantRowV>,
)
    requires
        rows.len() == undecided_spec(m, id, ver, requested).len(),
        forall|i: int| 0 <= i < rows.len() ==> (#[trigger] rows[i]).key() == (id, ver, undecided_spec(m, id, ver, requested)[i]),
    ensures
        undecided_spec(apply_rows(m, rows), id, ver, requested).len() == 0,
        apply_rows(apply_rows(m, rows), Seq::empty()) == apply_rows(m, rows),
{
    let m2 = apply_rows(m, rows);
    let u = undecided_spec(m, id, ver, requested);
    assert forall|j: int| 0 <= j < requested.len() implies m2.contains_key((id, ver, #[trigger] requested[j])) by {
        let k = (id, ver, requested[j]);
        if m.contains_key(k) {
            lemma_auto_grant_keeps_decisions(m, id, ver, requested, rows, k);
        } else {
            lemma_undecided_lists_missing(m, id, ver, requested, j);
            let x = choose|x: int| 0 <= x < u.len() && u[x] == requested[j];
            assert(rows[x].key() == k);
            lemma_apply_rows_has_keys(m, rows, x);
        }
    }
    lemma_undecided_empty(m2, id, ver, requested);
}

} // verus!
