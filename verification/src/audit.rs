//! Capability audit log: one entry per allow/deny decision a guard makes.

use vstd::prelude::*;
use crate::clock::system_now;
use crate::text::str_to_string;
use std::time::SystemTime;

verus! {

#[derive(Debug, Clone, Copy, PartialEq, Eq, Structural)]
pub enum AuditOutcome {
    Allowed,
    Denied,
}

/// One audit entry as plain values (the wall-clock timestamp is left out).
pub struct AuditEntryV {
    pub plugin_id: Seq<char>,
    pub capability: Seq<char>,
    pub target: Seq<char>,
    pub outcome: AuditOutcome,
}

#[derive(Debug, Clone)]
pub struct AuditEntry {
    pub plugin_id: String,
    pub capability: String,
    pub target: String,
    pub outcome: AuditOutcome,
    pub timestamp: SystemTime,
}

impl View for AuditEntry {
    type V = AuditEntryV;

    open spec fn view(&self) -> AuditEntryV {
        AuditEntryV {
            plugin_id: self.plugin_id@,
            capability: self.capability@,
            target: self.target@,
            outcome: self.outcome,
        }
    }
}

impl AuditEntry {
    pub fn duplicate(&self) -> (r: AuditEntry)
        ensures
            r@ == self@,
            r.timestamp == self.timestamp,
    {
        AuditEntry {
            plugin_id: self.plugin_id.clone(),
            capability: self.capability.clone(),
            target: self.target.clone(),
            outcome: self.outcome,
            timestamp: self.timestamp,
        }
    }
}

pub open spec fn audit_views(s: Seq<AuditEntry>) -> Seq<AuditEntryV> {
    s.map_values(|e: AuditEntry| e@)
}

/// Append-only record of capability decisions.
#[derive(Debug)]
pub struct AuditLog {
    inner: Vec<AuditEntry>,
}

impl AuditLog {
    /// The recorded entries, oldest first.
    pub closed spec fn log(&self) -> Seq<AuditEntryV> {
        audit_views(self.inner@)
    }

    pub fn new() -> (r: Self)
        ensures
            r.log() == Seq::<AuditEntryV>::empty(),
    {
        AuditLog { inner: Vec::new() }
    }

    /// Append one entry stamped with the current time.
    pub fn record(&mut self, plugin_id: &str, capability: &str, target: &str, outcome: AuditOutcome)
        ensures
            final(self).log() == old(self).log().push(
                AuditEntryV {
                    plugin_id: plugin_id@,
                    capability: capability@,
                    target: target@,
                    outcome,
                },
            ),
    {
        let entry = AuditEntry {
            plugin_id: str_to_string(plugin_id),
            capability: str_to_string(capability),
            target: str_to_string(target),
            outcome,
            timestamp: system_now(),
        };
        self.inner.push(entry);
        assert(audit_views(self.inner@) =~= audit_views(old(self).inner@).push(entry@));
    }

    /// A copy of every entry, oldest first.
    pub fn entries(&self) -> (r: Vec<AuditEntry>)
        ensures
            audit_views(r@) == self.log(),
    {
        let mut out: Vec<AuditEntry> = Vec::new();
        let mut i: usize = 0;
        while i < self.inner.len()
            invariant
                i <= self.inner.len(),
                out@.len() == i,
                audit_views(out@) == audit_views(self.inner@.subrange(0, i as int)),
            decreases self.inner.len() - i,
        {
            let ghost prev = out@;
            let d = self.inner[i].duplicate();
            out.push(d);
            assert(out@ == prev.push(d));
            assert(out@[i as int]@ == self.inner@[i as int]@);
            assert(audit_views(out@)[i as int] == out@[i as int]@);
            assert(audit_views(out@).len() == i + 1);
            assert(self.inner@.subrange(0, i + 1) == self.inner@.subrange(0, i as int).push(
                self.inner@[i as int],
            ));
            assert forall|k: int| 0 <= k < i + 1 implies #[trigger] audit_views(out@)[k]
                == audit_views(self.inner@.subrange(0, i + 1))[k] by {
                if k < i {
                    assert(audit_views(prev)[k] == audit_views(self.inner@.subrange(0, i as int))[k]);
                }
            }
            assert(audit_views(out@) =~= audit_views(self.inner@.subrange(0, i + 1)));
            i += 1;
        }
        assert(self.inner@.subrange(0, self.inner.len() as int) == self.inner@);
        out
    }

    /// Drop every entry.
    pub fn clear(&mut self)
        ensures
            final(self).log() == Seq::<AuditEntryV>::empty(),
    {
        self.inner.clear();
        assert(audit_views(self.inner@) =~= Seq::<AuditEntryV>::empty());
    }
}

} // verus!
