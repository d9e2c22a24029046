//! `leviathan.autocmd`: what a plugin's init declares about its event
//! subscriptions: groups (found again by name), the autocmds created with
//! their options, and the clears, each stamped with a declaration
//! sequence so that the host can replay them in source order.

use vstd::prelude::*;
use crate::text::{chars_of, str_to_string, str_eq, opt_str_view};
use crate::clock::decimal_string;

verus! {

/// One autocmd a plugin created: its event, the handle of its callback and
/// its options.
#[derive(Debug, Clone)]
pub struct RawAutocmd {
    pub event: String,
    pub callback: u64,
    pub local_group: Option<u64>,
    pub once: bool,
    pub pattern: Option<String>,
    pub debounce_ms: u64,
    pub priority: i32,
    pub sequence: u64,
    pub source_location: Option<String>,
}

/// A group a plugin allocated.
#[derive(Debug, Clone)]
pub struct RawAutocmdGroup {
    pub local_id: u64,
    pub name: String,
    pub clear: bool,
    pub sequence: u64,
    pub source_location: Option<String>,
}

/// A request to clear the autocmds of a group declared before it.
#[derive(Debug, Clone)]
pub struct RawAutocmdClear {
    pub local_id: u64,
    pub sequence: u64,
    pub source_location: Option<String>,
}

/// The options of `autocmd.create` as the plugin wrote them.
#[derive(Debug, Clone)]
pub struct AutocmdOptionsInput {
    pub group: Option<u64>,
    pub once: Option<bool>,
    pub pattern: Option<String>,
    pub debounce_ms: Option<i64>,
    pub priority: Option<i32>,
}

/// The options with their defaults filled in.
#[derive(Debug, Clone)]
pub struct DecodedOptions {
    pub local_group: Option<u64>,
    pub once: bool,
    pub pattern: Option<String>,
    pub debounce_ms: u64,
    pub priority: i32,
}

/// The autocmd declarations of one plugin init.
#[derive(Debug)]
pub struct AutocmdBuild {
    autocmds: Vec<RawAutocmd>,
    groups: Vec<RawAutocmdGroup>,
    clears: Vec<RawAutocmdClear>,
    next_local_group_id: u64,
    next_sequence: u64,
}

/// Index of the last group called `name`.
pub open spec fn last_named(gs: Seq<RawAutocmdGroup>, name: Seq<char>) -> Option<int>
    decreases gs.len(),
{
    if gs.len() == 0 {
        None
    } else if gs.last().name@ == name {
        Some(gs.len() - 1)
    } else {
        last_named(gs.drop_last(), name)
    }
}

/// `id` is the id of a group of `gs`.
pub open spec fn has_group(gs: Seq<RawAutocmdGroup>, id: u64) -> bool {
    exists|i: int| 0 <= i < gs.len() && (#[trigger] gs[i]).local_id == id
}

pub open spec fn unknown_group_message(g: u64) -> Seq<char> {
    "leviathan.autocmd: group handle "@ + crate::clock::dec_digits(g as nat)
        + " was not allocated by leviathan.autocmd.group in this plugin"@
}

impl AutocmdBuild {
    pub closed spec fn autocmds_spec(&self) -> Seq<RawAutocmd> {
        self.autocmds@
    }

    pub closed spec fn groups_spec(&self) -> Seq<RawAutocmdGroup> {
        self.groups@
    }

    pub closed spec fn clears_spec(&self) -> Seq<RawAutocmdClear> {
        self.clears@
    }

    /// The last group id handed out (0 before the first).
    pub closed spec fn last_group_id(&self) -> u64 {
        self.next_local_group_id
    }

    /// The last declaration sequence handed out (0 before the first).
    pub closed spec fn last_sequence(&self) -> u64 {
        self.next_sequence
    }

    /// Group ids are distinct and no larger than the last one handed out;
    /// every declaration's sequence is no larger than the last one.
    pub closed spec fn consistent(&self) -> bool {
        &&& forall|i: int, j: int| 0 <= i < j < self.groups@.len() ==> self.groups@[i].local_id != self.groups@[j].local_id
        &&& forall|i: int| 0 <= i < self.groups@.len() ==> 0 < (#[trigger] self.groups@[i]).local_id <= self.next_local_group_id
        &&& forall|i: int| 0 <= i < self.groups@.len() ==> (#[trigger] self.groups@[i]).sequence <= self.next_sequence
        &&& forall|i: int| 0 <= i < self.clears@.len() ==> (#[trigger] self.clears@[i]).sequence <= self.next_sequence
        &&& forall|i: int| 0 <= i < self.autocmds@.len() ==> (#[trigger] self.autocmds@[i]).sequence <= self.next_sequence
    }

    #[verifier::type_invariant]
    closed spec fn wf(&self) -> bool {
        self.consistent()
    }

    pub fn new() -> (r: Self)
        ensures
            r.consistent(),
            r.autocmds_spec().len() == 0,
            r.groups_spec().len() == 0,
            r.clears_spec().len() == 0,
            r.last_group_id() == 0,
            r.last_sequence() == 0,
    {
        AutocmdBuild { autocmds: Vec::new(), groups: Vec::new(), clears: Vec::new(), next_local_group_id: 0, next_sequence: 0 }
    }

    pub fn autocmds(&self) -> (r: &[RawAutocmd])
        ensures
            r@ == self.autocmds_spec(),
    {
        self.autocmds.as_slice()
    }

    pub fn groups(&self) -> (r: &[RawAutocmdGroup])
        ensures
            r@ == self.groups_spec(),
    {
        self.groups.as_slice()
    }

    pub fn clears(&self) -> (r: &[RawAutocmdClear])
        ensures
            r@ == self.clears_spec(),
    {
        self.clears.as_slice()
    }

    pub fn last_sequence_value(&self) -> (r: u64)
        ensures
            r == self.last_sequence(),
    {
        self.next_sequence
    }

    pub fn last_group_id_value(&self) -> (r: u64)
        ensures
            r == self.last_group_id(),
    {
        self.next_local_group_id
    }

    fn find_last_named(&self, name: &str) -> (r: Option<usize>)
        ensures
            match r {
                Some(k) => k < self.groups@.len() && last_named(self.groups@, name@) == Some(k as int),
                None => last_named(self.groups@, name@) is None,
            },
    {
        let ghost gs = self.groups@;
        let mut k: usize = self.groups.len();
        assert(gs.take(k as int) =~= gs);
        while k > 0
            invariant
                k <= gs.len(),
                gs == self.groups@,
                last_named(gs, name@) == last_named(gs.take(k as int), name@),
            decreases k,
        {
            assert(gs.take(k as int).drop_last() =~= gs.take(k - 1));
            assert(gs.take(k as int).last() == gs[k - 1]);
            if str_eq(self.groups[k - 1].name.as_str(), name) {
                return Some(k - 1);
            }
            k -= 1;
        }
        None
    }

    /// `autocmd.group(name, { clear })`: the id of the last group called
    /// `name` (recording a clear of it when `clear`), or a new group.
    pub fn group(&mut self, name: &str, clear: bool, source_location: Option<String>) -> (r: u64)
        requires
            old(self).last_sequence() < u64::MAX,
            old(self).last_group_id() < u64::MAX,
        ensures
            final(self).consistent(),
            final(self).last_sequence() == old(self).last_sequence() + 1,
            final(self).autocmds_spec() == old(self).autocmds_spec(),
            last_named(final(self).groups_spec(), name@) matches Some(i) && final(self).groups_spec()[i].local_id == r,
            match last_named(old(self).groups_spec(), name@) {
                Some(i) => {
                    &&& r == old(self).groups_spec()[i].local_id
                    &&& final(self).groups_spec() == old(self).groups_spec()
                    &&& final(self).last_group_id() == old(self).last_group_id()
                    &&& if clear {
                        &&& final(self).clears_spec().len() == old(self).clears_spec().len() + 1
                        &&& final(self).clears_spec().drop_last() == old(self).clears_spec()
                        &&& final(self).clears_spec().last().local_id == r
                        &&& final(self).clears_spec().last().sequence == final(self).last_sequence()
                        &&& final(self).clears_spec().last().source_location == source_location
                    } else {
                        final(self).clears_spec() == old(self).clears_spec()
                    }
                },
                None => {
                    &&& r == old(self).last_group_id() + 1
                    &&& final(self).last_group_id() == r
                    &&& final(self).clears_spec() == old(self).clears_spec()
                    &&& final(self).groups_spec().len() == old(self).groups_spec().len() + 1
                    &&& final(self).groups_spec().drop_last() == old(self).groups_spec()
                    &&& final(self).groups_spec().last().local_id == r
                    &&& final(self).groups_spec().last().name@ == name@
                    &&& final(self).groups_spec().last().clear == clear
                    &&& final(self).groups_spec().last().sequence == final(self).last_sequence()
                    &&& final(self).groups_spec().last().source_location == source_location
                },
            },
    {
        proof {
            use_type_invariant(&*self);
        }
        let sequence = self.next_sequence + 1;
        self.next_sequence = sequence;
        match self.find_last_named(name) {
            Some(k) => {
                let existing = self.groups[k].local_id;
                if clear {
                    let mut clears: Vec<RawAutocmdClear> = Vec::new();
                    std::mem::swap(&mut clears, &mut self.clears);
                    let ghost before = clears@;
                    clears.push(RawAutocmdClear { local_id: existing, sequence, source_location });
                    assert(clears@.drop_last() =~= before);
                    self.clears = clears;
                }
                proof {
                    use_type_invariant(&*self);
                }
                return existing;
            },
            None => {},
        }
        let local_id = self.next_local_group_id + 1;
        let mut groups: Vec<RawAutocmdGroup> = Vec::new();
        std::mem::swap(&mut groups, &mut self.groups);
        let ghost before = groups@;
        groups.push(RawAutocmdGroup { local_id, name: str_to_string(name), clear, sequence, source_location });
        assert(groups@.drop_last() =~= before);
        assert(last_named(groups@, name@) == Some(before.len() as int));
        self.next_local_group_id = local_id;
        self.groups = groups;
        proof {
            use_type_invariant(&*self);
        }
        local_id
    }

    /// Fill in the defaults of `autocmd.create` options: not once, no
    /// pattern (an empty one counts as none), no debounce (a negative one
    /// counts as 0), priority 0. A group must be one this build allocated.
    pub fn decode_options(&self, input: AutocmdOptionsInput) -> (r: Result<DecodedOptions, String>)
        ensures
            match input.group {
                Some(g) if !has_group(self.groups_spec(), g) => r matches Err(e) && e@ == unknown_group_message(g),
                _ => r matches Ok(d) && {
                    &&& d.local_group == input.group
                    &&& d.once == (input.once == Some(true))
                    &&& opt_str_view(d.pattern) == match input.pattern {
                        Some(p) => if p@.len() > 0 { Some(p@) } else { None },
                        None => None,
                    }
                    &&& d.debounce_ms == match input.debounce_ms {
                        Some(v) => if v < 0 { 0 } else { v as u64 },
                        None => 0,
                    }
                    &&& d.priority == match input.priority {
                        Some(p) => p,
                        None => 0i32,
                    }
                },
            },
    {
        let once = match input.once {
            Some(b) => b,
            None => false,
        };
        let pattern = match input.pattern {
            Some(p) => if chars_of(p.as_str()).len() > 0 { Some(p) } else { None },
            None => None,
        };
        let debounce_ms: u64 = match input.debounce_ms {
            Some(v) => if v < 0 { 0 } else { v as u64 },
            None => 0,
        };
        let priority: i32 = match input.priority {
            Some(p) => p,
            None => 0,
        };
        match input.group {
            Some(g) => {
                let mut i: usize = 0;
                let mut known = false;
                while i < self.groups.len()
                    invariant
                        i <= self.groups@.len(),
                        known == exists|j: int| 0 <= j < i && (#[trigger] self.groups@[j]).local_id == g,
                    decreases self.groups@.len() - i,
                {
                    if self.groups[i].local_id == g {
                        known = true;
                    }
                    i += 1;
                }
                if !known {
                    let digits = decimal_string(g);
                    let msg = crate::text::cat3("leviathan.autocmd: group handle ", digits.as_str(),
                        " was not allocated by leviathan.autocmd.group in this plugin");
                    return Err(msg);
                }
            },
            None => {},
        }
        Ok(DecodedOptions { local_group: input.group, once, pattern, debounce_ms, priority })
    }

    /// Record autocmd `event` with callback `callback` and options `opts`.
    pub fn create(&mut self, event: &str, callback: u64, opts: &DecodedOptions, source_location: Option<String>)
        requires
            old(self).last_sequence() < u64::MAX,
        ensures
            final(self).consistent(),
            final(self).last_sequence() == old(self).last_sequence() + 1,
            final(self).last_group_id() == old(self).last_group_id(),
            final(self).groups_spec() == old(self).groups_spec(),
            final(self).clears_spec() == old(self).clears_spec(),
            final(self).autocmds_spec().len() == old(self).autocmds_spec().len() + 1,
            final(self).autocmds_spec().drop_last() == old(self).autocmds_spec(),
            ({
                let a = final(self).autocmds_spec().last();
                &&& a.event@ == event@
                &&& a.callback == callback
                &&& a.local_group == opts.local_group
                &&& a.once == opts.once
                &&& opt_str_view(a.pattern) == opt_str_view(opts.pattern)
                &&& a.debounce_ms == opts.debounce_ms
                &&& a.priority == opts.priority
                &&& a.sequence == final(self).last_sequence()
                &&& a.source_location == source_location
            }),
    {
        proof {
            use_type_invariant(&*self);
        }
        let sequence = self.next_sequence + 1;
        let mut autocmds: Vec<RawAutocmd> = Vec::new();
        std::mem::swap(&mut autocmds, &mut self.autocmds);
        let ghost before = autocmds@;
        autocmds.push(RawAutocmd {
            event: str_to_string(event),
            callback,
            local_group: opts.local_group,
            once: opts.once,
            pattern: crate::text::clone_opt_string(&opts.pattern),
            debounce_ms: opts.debounce_ms,
            priority: opts.priority,
            sequence,
            source_location,
        });
        assert(autocmds@.drop_last() =~= before);
        self.next_sequence = sequence;
        self.autocmds = autocmds;
        proof {
            use_type_invariant(&*self);
        }
    }

    /// `autocmd.clear(group)`: clear the autocmds of `group` declared so far.
    pub fn clear(&mut self, group: u64, source_location: Option<String>)
        requires
            old(self).last_sequence() < u64::MAX,
        ensures
            final(self).consistent(),
            final(self).last_sequence() == old(self).last_sequence() + 1,
            final(self).last_group_id() == old(self).last_group_id(),
            final(self).groups_spec() == old(self).groups_spec(),
            final(self).autocmds_spec() == old(self).autocmds_spec(),
            final(self).clears_spec().len() == old(self).clears_spec().len() + 1,
            final(self).clears_spec().drop_last() == old(self).clears_spec(),
            final(self).clears_spec().last().local_id == group,
            final(self).clears_spec().last().sequence == final(self).last_sequence(),
            final(self).clears_spec().last().source_location == source_location,
    {
        proof {
            use_type_invariant(&*self);
        }
        let sequence = self.next_sequence + 1;
        let mut clears: Vec<RawAutocmdClear> = Vec::new();
        std::mem::swap(&mut clears, &mut self.clears);
        let ghost before = clears@;
        clears.push(RawAutocmdClear { local_id: group, sequence, source_location });
        assert(clears@.drop_last() =~= before);
        self.next_sequence = sequence;
        self.clears = clears;
        proof {
            use_type_invariant(&*self);
        }
    }
}

} // verus!
