//! Plugin health checks: the items a check reports and the report that
//! gathers them per plugin.

use vstd::prelude::*;
use crate::text::{str_eq, str_to_string};
use crate::keyed::{first_index, lemma_first_index};

verus! {

/// How an item rates the plugin's health.
#[derive(Debug, Clone, Copy, PartialEq, Eq, Structural)]
pub enum Severity {
    /// Everything is fine.
    Pass,
    Info,
    Warn,
    Error,
}

#[derive(Debug, Clone)]
pub struct HealthItem {
    pub severity: Severity,
    pub message: String,
}

/// Every item one plugin's check reported, in order.
#[derive(Debug, Clone)]
pub struct PluginHealth {
    pub plugin_id: String,
    pub items: Vec<HealthItem>,
}

#[derive(Debug, Clone)]
pub struct HealthReport {
    pub plugins: Vec<PluginHealth>,
}

pub open spec fn health_of(plugin_id: Seq<char>) -> spec_fn(PluginHealth) -> bool {
    |p: PluginHealth| p.plugin_id@ == plugin_id
}

impl HealthReport {
    pub fn new() -> (r: Self)
        ensures
            r.plugins@.len() == 0,
    {
        HealthReport { plugins: Vec::new() }
    }

    /// The first section for plugin `id`.
    pub fn for_plugin(&self, id: &str) -> (r: Option<&PluginHealth>)
        ensures
            match first_index(self.plugins@, health_of(id@)) {
                Some(i) => r matches Some(p) && *p == self.plugins@[i],
                None => r is None,
            },
    {
        let mut i: usize = 0;
        while i < self.plugins.len()
            invariant
                i <= self.plugins.len(),
                forall|k: int| 0 <= k < i ==> !health_of(id@)(#[trigger] self.plugins@[k]),
            decreases self.plugins.len() - i,
        {
            if str_eq(self.plugins[i].plugin_id.as_str(), id) {
                proof {
                    lemma_first_index(self.plugins@, health_of(id@), i as int);
                }
                return Some(&self.plugins[i]);
            }
            i += 1;
        }
        proof {
            lemma_first_index(self.plugins@, health_of(id@), i as int);
        }
        None
    }
}

/// What a running check has reported so far.
pub struct HealthContext {
    pub items: Vec<HealthItem>,
}

impl HealthContext {
    pub fn new() -> (r: Self)
        ensures
            r.items@.len() == 0,
    {
        HealthContext { items: Vec::new() }
    }

    /// Add one item (`ctx:ok`, `ctx:info`, `ctx:warn`, `ctx:error`).
    pub fn record(&mut self, severity: Severity, message: &str)
        ensures
            final(self).items@.len() == old(self).items@.len() + 1,
            final(self).items@.subrange(0, old(self).items@.len() as int) == old(self).items@,
            final(self).items@.last().severity == severity,
            final(self).items@.last().message@ == message@,
    {
        self.items.push(HealthItem { severity, message: str_to_string(message) });
        assert(self.items@.subrange(0, old(self).items@.len() as int) =~= old(self).items@);
    }
}

} // verus!
