//! The memo of decoded plugin images: one entry per resolved path, each
//! stamped with the tick of its last use. A full cache gives up its
//! least recently used entry for a new path, and a plugin's reload clears
//! every entry resolved under its root.

use vstd::prelude::*;
use crate::keyed::{keyed_map, unique_keys, lemma_keyed_at, lemma_keyed_dom, lemma_keyed_len, lemma_keyed_push,
    lemma_keyed_remove, lemma_keyed_update};
use crate::paths::{path_starts_with, path_starts_with_str};
use crate::text::str_eq;

verus! {

/// Most entries the cache holds at once.
pub const MAX_CACHE_ENTRIES: usize = 128;

/// One memoised result, under the absolute path it was resolved to.
pub struct CacheSlot<T> {
    pub path: String,
    pub value: T,
    pub last_used: u64,
}

/// Memo of decoded images keyed by resolved path, bounded by
/// [`MAX_CACHE_ENTRIES`].
pub struct ImageCache<T> {
    slots: Vec<CacheSlot<T>>,
    tick: u64,
}

pub open spec fn slot_key<T>() -> spec_fn(CacheSlot<T>) -> Seq<char> {
    |s: CacheSlot<T>| s.path@
}

pub open spec fn slot_val<T>() -> spec_fn(CacheSlot<T>) -> (T, u64) {
    |s: CacheSlot<T>| (s.value, s.last_used)
}

/// The tick after `t` (the counter wraps).
pub open spec fn next_tick(t: u64) -> u64 {
    if t == u64::MAX {
        0
    } else {
        (t + 1) as u64
    }
}

/// `entries` with every path under `root` taken out.
pub open spec fn outside_root<T>(entries: Map<Seq<char>, (T, u64)>, root: Seq<char>) -> Map<Seq<char>, (T, u64)> {
    entries.restrict(entries.dom().filter(|k: Seq<char>| !path_starts_with(k, root)))
}

impl<T> ImageCache<T> {
    /// Each path's value and the tick of its last use.
    pub closed spec fn entries(&self) -> Map<Seq<char>, (T, u64)> {
        keyed_map(self.slots@, slot_key(), slot_val())
    }

    /// The tick the next use is stamped with.
    pub closed spec fn clock(&self) -> u64 {
        self.tick
    }

    #[verifier::type_invariant]
    closed spec fn wf(&self) -> bool {
        &&& unique_keys(self.slots@, slot_key::<T>())
        &&& self.slots@.len() <= MAX_CACHE_ENTRIES
    }

    /// An empty cache whose clock starts at 0.
    pub fn new() -> (r: Self)
        ensures
            r.entries() == Map::<Seq<char>, (T, u64)>::empty(),
            r.clock() == 0,
    {
        ImageCache { slots: Vec::new(), tick: 0 }
    }

    fn find(&self, path: &str) -> (r: Option<usize>)
        ensures
            match r {
                Some(i) => i < self.slots@.len() && self.slots@[i as int].path@ == path@,
                None => forall|j: int| 0 <= j < self.slots@.len() ==> (#[trigger] self.slots@[j]).path@ != path@,
            },
    {
        let mut i: usize = 0;
        while i < self.slots.len()
            invariant
                i <= self.slots@.len(),
                forall|j: int| 0 <= j < i ==> (#[trigger] self.slots@[j]).path@ != path@,
            decreases self.slots@.len() - i,
        {
            if str_eq(self.slots[i].path.as_str(), path) {
                return Some(i);
            }
            i += 1;
        }
        None
    }

    /// The value memoised for `path`, if any.
    pub fn get(&self, path: &str) -> (r: Option<&T>)
        ensures
            match r {
                Some(v) => self.entries().contains_key(path@) && *v == self.entries()[path@].0,
                None => !self.entries().contains_key(path@),
            },
    {
        proof {
            use_type_invariant(self);
        }
        match self.find(path) {
            Some(i) => {
                proof {
                    lemma_keyed_at(self.slots@, slot_key::<T>(), slot_val::<T>(), i as int);
                }
                Some(&self.slots[i].value)
            },
            None => {
                proof {
                    lemma_keyed_dom(self.slots@, slot_key::<T>(), slot_val::<T>(), path@);
                }
                None
            },
        }
    }

    /// Mark `path` as used now: its entry takes the current tick and the
    /// clock moves on. False (and nothing changes) when `path` has no
    /// entry.
    pub fn touch(&mut self, path: &str) -> (r: bool)
        ensures
            r == old(self).entries().contains_key(path@),
            r ==> final(self).entries() == old(self).entries().insert(
                path@,
                (old(self).entries()[path@].0, old(self).clock()),
            ),
            r ==> final(self).clock() == next_tick(old(self).clock()),
            !r ==> final(self).entries() == old(self).entries() && final(self).clock() == old(self).clock(),
    {
        proof {
            use_type_invariant(&*self);
        }
        match self.find(path) {
            Some(i) => {
                proof {
                    lemma_keyed_at(self.slots@, slot_key::<T>(), slot_val::<T>(), i as int);
                }
                let now = self.tick;
                let mut slots: Vec<CacheSlot<T>> = Vec::new();
                std::mem::swap(&mut slots, &mut self.slots);
                let ghost before = slots@;
                let mut slot = slots.remove(i);
                slot.last_used = now;
                slots.insert(i, slot);
                proof {
                    assert(slots@ == before.update(i as int, slot));
                    lemma_keyed_update(before, slot_key::<T>(), slot_val::<T>(), i as int, slot);
                }
                self.slots = slots;
                self.tick = if now == u64::MAX { 0 } else { now + 1 };
                true
            },
            None => {
                proof {
                    lemma_keyed_dom(self.slots@, slot_key::<T>(), slot_val::<T>(), path@);
                }
                false
            },
        }
    }

    fn least_recent(&self) -> (r: usize)
        requires
            self.slots@.len() > 0,
        ensures
            r < self.slots@.len(),
            forall|j: int| 0 <= j < self.slots@.len() ==> self.slots@[r as int].last_used <= (#[trigger] self.slots@[j]).last_used,
    {
        let mut best: usize = 0;
        let mut i: usize = 1;
        while i < self.slots.len()
            invariant
                1 <= i <= self.slots@.len(),
                best < i,
                forall|j: int| 0 <= j < i ==> self.slots@[best as int].last_used <= (#[trigger] self.slots@[j]).last_used,
            decreases self.slots@.len() - i,
        {
            if self.slots[i].last_used < self.slots[best].last_used {
                best = i;
            }
            i += 1;
        }
        best
    }

    /// Memoise `value` for `path`, stamped with the current tick. A path
    /// that already has an entry keeps it untouched (the first result
    /// stays). A new path in a full cache first takes out an entry with
    /// the oldest tick, which is returned.
    pub fn insert(&mut self, path: String, value: T) -> (evicted: Option<String>)
        ensures
            old(self).entries().contains_key(path@) ==> {
                &&& final(self).entries() == old(self).entries()
                &&& final(self).clock() == old(self).clock()
                &&& evicted is None
            },
            !old(self).entries().contains_key(path@) ==> {
                &&& final(self).clock() == next_tick(old(self).clock())
                &&& match evicted {
                    None => {
                        &&& old(self).entries().len() < MAX_CACHE_ENTRIES
                        &&& final(self).entries() == old(self).entries().insert(path@, (value, old(self).clock()))
                    },
                    Some(v) => {
                        &&& old(self).entries().len() == MAX_CACHE_ENTRIES
                        &&& old(self).entries().contains_key(v@)
                        &&& forall|k: Seq<char>| #[trigger] old(self).entries().contains_key(k)
                            ==> old(self).entries()[v@].1 <= old(self).entries()[k].1
                        &&& final(self).entries() == old(self).entries().remove(v@).insert(
                            path@,
                            (value, old(self).clock()),
                        )
                    },
                }
            },
    {
        proof {
            use_type_invariant(&*self);
            lemma_keyed_len(self.slots@, slot_key::<T>(), slot_val::<T>());
        }
        match self.find(path.as_str()) {
            Some(i) => {
                proof {
                    lemma_keyed_at(self.slots@, slot_key::<T>(), slot_val::<T>(), i as int);
                }
                return None;
            },
            None => {
                proof {
                    lemma_keyed_dom(self.slots@, slot_key::<T>(), slot_val::<T>(), path@);
                }
            },
        }
        let ghost m0 = self.entries();
        let now = self.tick;
        let mut slots: Vec<CacheSlot<T>> = Vec::new();
        let mut evicted: Option<String> = None;
        if self.slots.len() >= MAX_CACHE_ENTRIES {
            let v = self.least_recent();
            std::mem::swap(&mut slots, &mut self.slots);
            let ghost before = slots@;
            proof {
                lemma_keyed_at(before, slot_key::<T>(), slot_val::<T>(), v as int);
                assert forall|k: Seq<char>| #[trigger] m0.contains_key(k) implies m0[before[v as int].path@].1
                    <= m0[k].1 by {
                    lemma_keyed_dom(before, slot_key::<T>(), slot_val::<T>(), k);
                    let j = choose|j: int| 0 <= j < before.len() && (slot_key::<T>())(before[j]) == k;
                    lemma_keyed_at(before, slot_key::<T>(), slot_val::<T>(), j);
                }
                lemma_keyed_remove(before, slot_key::<T>(), slot_val::<T>(), v as int);
            }
            let gone = slots.remove(v);
            evicted = Some(gone.path);
        } else {
            std::mem::swap(&mut slots, &mut self.slots);
        }
        let ghost mid = slots@;
        let slot = CacheSlot { path, value, last_used: now };
        proof {
            lemma_keyed_dom(mid, slot_key::<T>(), slot_val::<T>(), slot.path@);
            if keyed_map(mid, slot_key::<T>(), slot_val::<T>()).contains_key(slot.path@) {
                assert(m0.contains_key(slot.path@));
            }
            lemma_keyed_push(mid, slot_key::<T>(), slot_val::<T>(), slot);
        }
        slots.push(slot);
        self.slots = slots;
        self.tick = if now == u64::MAX { 0 } else { now + 1 };
        evicted
    }
}

/// Drop every entry resolved under `plugin_root` (a component-wise path
/// prefix), so that results memoised for one generation of a plugin do
/// not outlive it. Entries of other roots stay as they were.
pub fn clear_for_root<T>(cache: &mut ImageCache<T>, plugin_root: &str)
    ensures
        final(cache).entries() == outside_root(old(cache).entries(), plugin_root@),
        final(cache).clock() == old(cache).clock(),
{
    proof {
        use_type_invariant(&*cache);
    }
    let ghost m0 = cache.entries();
    let ghost root = plugin_root@;
    let mut slots: Vec<CacheSlot<T>> = Vec::new();
    std::mem::swap(&mut slots, &mut cache.slots);
    let mut i: usize = 0;
    while i < slots.len()
        invariant
            i <= slots@.len() <= MAX_CACHE_ENTRIES,
            root == plugin_root@,
            unique_keys(slots@, slot_key::<T>()),
            forall|k: Seq<char>| #[trigger] keyed_map(slots@, slot_key::<T>(), slot_val::<T>()).contains_key(k)
                ==> m0.contains_key(k) && keyed_map(slots@, slot_key::<T>(), slot_val::<T>())[k] == m0[k],
            forall|k: Seq<char>| #[trigger] m0.contains_key(k) && !path_starts_with(k, root)
                ==> keyed_map(slots@, slot_key::<T>(), slot_val::<T>()).contains_key(k),
            forall|j: int| 0 <= j < i ==> !path_starts_with((#[trigger] slots@[j]).path@, root),
        decreases slots@.len() - i,
    {
        if path_starts_with_str(slots[i].path.as_str(), plugin_root) {
            let ghost before = slots@;
            proof {
                lemma_keyed_remove(before, slot_key::<T>(), slot_val::<T>(), i as int);
            }
            let _gone = slots.remove(i);
            proof {
                assert forall|j: int| 0 <= j < i implies !path_starts_with((#[trigger] slots@[j]).path@, root) by {
                    assert(slots@[j] == before[j]);
                }
            }
        } else {
            i += 1;
        }
    }
    proof {
        let m1 = keyed_map(slots@, slot_key::<T>(), slot_val::<T>());
        assert forall|k: Seq<char>| m1.contains_key(k) implies !path_starts_with(k, root) by {
            lemma_keyed_dom(slots@, slot_key::<T>(), slot_val::<T>(), k);
        }
        assert(m1 =~= outside_root(m0, root));
    }
    cache.slots = slots;
}

} // verus!
