//! Order of a directory listing handed to plugins: directories first,
//! then by name, entries that tie keeping the order they were read in.

use vstd::prelude::*;
use vstd::seq_lib::*;
use crate::order::{chars_lt, lemma_chars_lt_trans, lemma_chars_lt_irrefl, str_lt};

verus! {

/// One directory entry as the listing reports it.
pub struct DirEntry {
    pub name: String,
    pub path: String,
    pub is_dir: bool,
    pub is_symlink: bool,
    /// Size in bytes; 0 for directories.
    pub size: u64,
    /// Last modification, seconds since the Unix epoch (0 when unknown).
    pub modified: i64,
}

/// `a` is listed strictly before `b`: a directory before a non-directory,
/// otherwise the smaller name first.
pub open spec fn entry_before(a: DirEntry, b: DirEntry) -> bool {
    (a.is_dir && !b.is_dir) || (a.is_dir == b.is_dir && chars_lt(a.name@, b.name@))
}

/// No entry of `s` belongs before an entry that precedes it.
pub open spec fn listed_in_order(s: Seq<DirEntry>) -> bool {
    forall|i: int, j: int| 0 <= i < j < s.len() ==> !entry_before(#[trigger] s[j], #[trigger] s[i])
}

/// Where `e` goes in `s`: before the first entry that belongs after it.
pub open spec fn insert_pos(s: Seq<DirEntry>, e: DirEntry) -> int
    decreases s.len(),
{
    if s.len() == 0 {
        0
    } else if entry_before(e, s[0]) {
        0
    } else {
        1 + insert_pos(s.drop_first(), e)
    }
}

/// The listing of `s`: each entry, in the order read, placed after every
/// entry already placed that does not belong after it.
pub open spec fn listing(s: Seq<DirEntry>) -> Seq<DirEntry>
    decreases s.len(),
{
    if s.len() == 0 {
        s
    } else {
        let rest = listing(s.drop_last());
        rest.insert(insert_pos(rest, s.last()), s.last())
    }
}

proof fn lemma_entry_before_trans(a: DirEntry, b: DirEntry, c: DirEntry)
    requires
        entry_before(a, b),
        entry_before(b, c),
    ensures
        entry_before(a, c),
{
    if a.is_dir == b.is_dir && b.is_dir == c.is_dir {
        lemma_chars_lt_trans(a.name@, b.name@, c.name@);
    }
}

proof fn lemma_insert_pos_is(s: Seq<DirEntry>, e: DirEntry, p: int)
    requires
        0 <= p <= s.len(),
        p < s.len() ==> entry_before(e, s[p]),
        forall|k: int| 0 <= k < p ==> !entry_before(e, #[trigger] s[k]),
    ensures
        insert_pos(s, e) == p,
    decreases s.len(),
{
    if s.len() > 0 && !entry_before(e, s[0]) {
        assert(p > 0) by {
            if p == 0 {
                assert(entry_before(e, s[0]));
            }
        }
        let d = s.drop_first();
        assert forall|k: int| 0 <= k < p - 1 implies !entry_before(e, #[trigger] d[k]) by {
            assert(d[k] == s[k + 1]);
        }
        if p - 1 < d.len() {
            assert(d[p - 1] == s[p]);
        }
        lemma_insert_pos_is(d, e, p - 1);
    }
}

proof fn lemma_insert_pos_bounds(s: Seq<DirEntry>, e: DirEntry)
    ensures
        0 <= insert_pos(s, e) <= s.len(),
        insert_pos(s, e) < s.len() ==> entry_before(e, s[insert_pos(s, e)]),
        forall|k: int| 0 <= k < insert_pos(s, e) ==> !entry_before(e, #[trigger] s[k]),
    decreases s.len(),
{
    if s.len() > 0 && !entry_before(e, s[0]) {
        let d = s.drop_first();
        lemma_insert_pos_bounds(d, e);
        assert forall|k: int| 0 <= k < insert_pos(s, e) implies !entry_before(e, #[trigger] s[k]) by {
            if k > 0 {
                assert(s[k] == d[k - 1]);
            }
        }
        if insert_pos(s, e) < s.len() {
            assert(s[insert_pos(s, e)] == d[insert_pos(d, e)]);
        }
    }
}

proof fn lemma_insert_keeps_order(s: Seq<DirEntry>, e: DirEntry)
    requires
        listed_in_order(s),
    ensures
        listed_in_order(s.insert(insert_pos(s, e), e)),
{
    lemma_insert_pos_bounds(s, e);
    let p = insert_pos(s, e);
    let t = s.insert(p, e);
    assert forall|i: int, j: int| 0 <= i < j < t.len() implies !entry_before(
        #[trigger] t[j],
        #[trigger] t[i],
    ) by {
        if j < p {
            assert(t[i] == s[i] && t[j] == s[j]);
        } else if j == p {
            assert(t[i] == s[i] && t[j] == e);
        } else if i < p {
            assert(t[i] == s[i] && t[j] == s[j - 1]);
            if i < j - 1 {
                assert(!entry_before(s[j - 1], s[i]));
            }
        } else if i == p {
            assert(t[i] == e && t[j] == s[j - 1]);
            if entry_before(s[j - 1], e) {
                assert(entry_before(e, s[p]));
                lemma_entry_before_trans(s[j - 1], e, s[p]);
                if j - 1 > p {
                    assert(!entry_before(s[j - 1], s[p]));
                } else {
                    lemma_chars_lt_irrefl(s[p].name@);
                }
            }
        } else {
            assert(t[i] == s[i - 1] && t[j] == s[j - 1]);
        }
    }
}

/// A listing is in order and holds exactly the entries it was given.
pub proof fn lemma_listing_sorted(s: Seq<DirEntry>)
    ensures
        listed_in_order(listing(s)),
        listing(s).to_multiset() == s.to_multiset(),
    decreases s.len(),
{
    broadcast use to_multiset_build, to_multiset_insert;

    if s.len() > 0 {
        let rest = listing(s.drop_last());
        lemma_listing_sorted(s.drop_last());
        lemma_insert_keeps_order(rest, s.last());
        lemma_insert_pos_bounds(rest, s.last());
        assert(s == s.drop_last().push(s.last()));
    } else {
        assert(listing(s) == s);
    }
}

fn entry_before_exec(a: &DirEntry, b: &DirEntry) -> (r: bool)
    ensures
        r == entry_before(*a, *b),
{
    if a.is_dir && !b.is_dir {
        true
    } else if a.is_dir == b.is_dir {
        str_lt(a.name.as_str(), b.name.as_str())
    } else {
        false
    }
}

/// Put entries read from a directory in listing order (directories
/// first, then by name; ties keep the order they were read in).
pub fn sort_entries(entries: Vec<DirEntry>) -> (r: Vec<DirEntry>)
    ensures
        r@ == listing(entries@),
        listed_in_order(r@),
        r@.to_multiset() == entries@.to_multiset(),
{
    let ghost all = entries@;
    let mut input = entries;
    let mut out: Vec<DirEntry> = Vec::new();
    let ghost mut k: int = 0;
    assert(all.take(0) == Seq::<DirEntry>::empty());
    while input.len() > 0
        invariant
            0 <= k <= all.len(),
            input@ == all.subrange(k, all.len() as int),
            out@ == listing(all.take(k)),
        decreases input.len(),
    {
        let e = input.remove(0);
        let mut p: usize = 0;
        while p < out.len() && !entry_before_exec(&e, &out[p])
            invariant
                p <= out.len(),
                forall|j: int| 0 <= j < p ==> !entry_before(e, #[trigger] out@[j]),
            decreases out.len() - p,
        {
            p += 1;
        }
        proof {
            lemma_insert_pos_is(out@, e, p as int);
            let tk = all.take(k + 1);
            assert(tk.drop_last() == all.take(k));
            assert(tk.last() == all[k]);
            assert(all[k] == e);
        }
        out.insert(p, e);
        proof {
            k = k + 1;
            assert(input@ == all.subrange(k, all.len() as int));
        }
    }
    assert(all.take(all.len() as int) == all);
    proof {
        lemma_listing_sorted(all);
    }
    out
}

} // verus!
