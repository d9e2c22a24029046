//! The commit record handed to plugins (`leviathan.repository.commit`
//! and the commit context of commands).

use vstd::prelude::*;
use crate::text::{str_to_string, string_views, opt_str_view, clone_opt_string, clone_strings, chars_of, string_of, find_char, lemma_find_char_is};

verus! {

/// Kind of a row in the history list.
#[derive(Debug, Clone, Copy, PartialEq, Eq, Structural)]
pub enum CommitKind {
    Commit,
    Dirty,
    Stash,
}

/// A history row as the repository view holds it.
#[derive(Debug, Clone)]
pub struct Commit {
    pub kind: CommitKind,
    pub hash: String,
    pub short_hash: String,
    pub message: String,
    pub author: String,
    pub date: String,
    pub parent_hashes: Vec<String>,
    pub is_merge_in_progress: bool,
}

/// A commit as the repository service reports it.
#[derive(Debug, Clone)]
pub struct CommitSnapshot {
    pub hash: String,
    pub message: String,
    pub author_name: String,
    pub authored_at: i64,
    pub parent_hashes: Vec<String>,
}

#[derive(Debug, Clone, PartialEq, Eq)]
pub struct CommitActionAvailability {
    pub enabled: bool,
    pub reason: Option<String>,
}

#[derive(Debug, Clone, PartialEq, Eq)]
pub struct CommitActions {
    pub reword: CommitActionAvailability,
}

#[derive(Debug, Clone, PartialEq, Eq)]
pub struct CommitData {
    pub kind: String,
    pub hash: String,
    pub short_hash: String,
    pub summary: String,
    pub message: String,
    pub author: String,
    pub date: String,
    pub timestamp: Option<i64>,
    pub parents: Vec<String>,
    pub index: Option<usize>,
    pub is_merge: bool,
    pub is_merge_in_progress: bool,
    pub actions: CommitActions,
}

impl CommitActionAvailability {
    pub fn enabled() -> (r: Self)
        ensures
            r.enabled,
            r.reason is None,
    {
        CommitActionAvailability { enabled: true, reason: None }
    }

    pub fn disabled(reason: &str) -> (r: Self)
        ensures
            !r.enabled,
            opt_str_view(r.reason) == Some(reason@),
    {
        CommitActionAvailability { enabled: false, reason: Some(str_to_string(reason)) }
    }
}

impl CommitActions {
    pub fn with_reword(reword: CommitActionAvailability) -> (r: Self)
        ensures
            r.reword == reword,
    {
        CommitActions { reword }
    }
}

pub open spec fn kind_name(kind: CommitKind) -> Seq<char> {
    match kind {
        CommitKind::Commit => "commit"@,
        CommitKind::Dirty => "dirty"@,
        CommitKind::Stash => "stash"@,
    }
}

/// `commit`, `dirty` or `stash`.
pub fn commit_kind_name(kind: CommitKind) -> (r: &'static str)
    ensures
        r@ == kind_name(kind),
{
    match kind {
        CommitKind::Commit => "commit",
        CommitKind::Dirty => "dirty",
        CommitKind::Stash => "stash",
    }
}

/// The first seven characters of a hash (all of a shorter one).
pub open spec fn short_hash_spec(hash: Seq<char>) -> Seq<char> {
    if hash.len() <= 7 { hash } else { hash.take(7) }
}

/// The first line of a message (`str::lines`): up to the first `\n`,
/// without a `\r` just before it; the whole text when there is no `\n`.
pub open spec fn summary_spec(message: Seq<char>) -> Seq<char> {
    let e = find_char(message, '\n');
    if e < message.len() {
        let line = message.subrange(0, e);
        if line.len() > 0 && line.last() == '\r' { line.drop_last() } else { line }
    } else {
        message
    }
}

pub fn short_hash(hash: &str) -> (r: String)
    ensures
        r@ == short_hash_spec(hash@),
{
    let v = chars_of(hash);
    let mut out: Vec<char> = Vec::new();
    let mut i: usize = 0;
    while i < v.len() && i < 7
        invariant
            i <= v.len(),
            i <= 7,
            v@ == hash@,
            out@ == v@.take(i as int),
        decreases v.len() - i,
    {
        out.push(v[i]);
        assert(v@.take(i + 1) == v@.take(i as int).push(v@[i as int]));
        i += 1;
    }
    assert(v@.len() <= 7 ==> v@.take(v@.len() as int) =~= v@);
    string_of(&out)
}

pub fn summary(message: &str) -> (r: String)
    ensures
        r@ == summary_spec(message@),
{
    let v = chars_of(message);
    let mut e: usize = 0;
    while e < v.len() && v[e] != '\n'
        invariant
            e <= v.len(),
            forall|k: int| 0 <= k < e ==> v@[k] != '\n',
        decreases v.len() - e,
    {
        e += 1;
    }
    proof {
        lemma_find_char_is(v@, '\n', e as int);
    }
    if e == v.len() {
        return str_to_string(message);
    }
    let mut end = e;
    if end > 0 && v[end - 1] == '\r' {
        end = end - 1;
    }
    let mut out: Vec<char> = Vec::new();
    let mut i: usize = 0;
    while i < end
        invariant
            i <= end <= e < v.len(),
            out@ == v@.subrange(0, i as int),
        decreases end - i,
    {
        out.push(v[i]);
        assert(v@.subrange(0, i + 1) == v@.subrange(0, i as int).push(v@[i as int]));
        i += 1;
    }
    assert(end < e ==> v@.subrange(0, end as int) =~= v@.subrange(0, e as int).drop_last());
    string_of(&out)
}

impl CommitData {
    /// The record of a history row.
    pub fn from_commit(commit: &Commit, index: Option<usize>, timestamp: Option<i64>, actions: CommitActions) -> (r: Self)
        ensures
            r.kind@ == kind_name(commit.kind),
            r.hash@ == commit.hash@,
            r.short_hash@ == commit.short_hash@,
            r.summary@ == summary_spec(commit.message@),
            r.message@ == commit.message@,
            r.author@ == commit.author@,
            r.date@ == commit.date@,
            r.timestamp == timestamp,
            string_views(r.parents@) == string_views(commit.parent_hashes@),
            r.index == index,
            r.is_merge == (commit.parent_hashes@.len() > 1),
            r.is_merge_in_progress == commit.is_merge_in_progress,
            r.actions == actions,
    {
        CommitData {
            kind: str_to_string(commit_kind_name(commit.kind)),
            hash: commit.hash.clone(),
            short_hash: commit.short_hash.clone(),
            summary: summary(commit.message.as_str()),
            message: commit.message.clone(),
            author: commit.author.clone(),
            date: commit.date.clone(),
            timestamp,
            parents: clone_strings(&commit.parent_hashes),
            index,
            is_merge: commit.parent_hashes.len() > 1,
            is_merge_in_progress: commit.is_merge_in_progress,
            actions,
        }
    }

    /// The record of a commit the repository service reported; it has no
    /// display date and no merge in progress.
    pub fn from_snapshot(commit: &CommitSnapshot, index: Option<usize>, reword: CommitActionAvailability) -> (r: Self)
        ensures
            r.kind@ == "commit"@,
            r.hash@ == commit.hash@,
            r.short_hash@ == short_hash_spec(commit.hash@),
            r.summary@ == summary_spec(commit.message@),
            r.message@ == commit.message@,
            r.author@ == commit.author_name@,
            r.date@ == Seq::<char>::empty(),
            r.timestamp == Some(commit.authored_at),
            string_views(r.parents@) == string_views(commit.parent_hashes@),
            r.index == index,
            r.is_merge == (commit.parent_hashes@.len() > 1),
            !r.is_merge_in_progress,
            r.actions.reword == reword,
    {
        CommitData {
            kind: str_to_string("commit"),
            hash: commit.hash.clone(),
            short_hash: short_hash(commit.hash.as_str()),
            summary: summary(commit.message.as_str()),
            message: commit.message.clone(),
            author: commit.author_name.clone(),
            date: String::new(),
            timestamp: Some(commit.authored_at),
            parents: clone_strings(&commit.parent_hashes),
            index,
            is_merge: commit.parent_hashes.len() > 1,
            is_merge_in_progress: false,
            actions: CommitActions::with_reword(reword),
        }
    }

    /// A placeholder record when only the hash is known: no message, no
    /// author, and reword disabled with `commit_data_unavailable`.
    pub fn from_hash(hash: &str) -> (r: Self)
        ensures
            r.kind@ == "commit"@,
            r.hash@ == hash@,
            r.short_hash@ == short_hash_spec(hash@),
            r.summary@ == Seq::<char>::empty(),
            r.message@ == Seq::<char>::empty(),
            r.author@ == Seq::<char>::empty(),
            r.date@ == Seq::<char>::empty(),
            r.timestamp is None,
            r.parents@.len() == 0,
            r.index is None,
            !r.is_merge,
            !r.is_merge_in_progress,
            !r.actions.reword.enabled,
            opt_str_view(r.actions.reword.reason) == Some("commit_data_unavailable"@),
    {
        CommitData {
            kind: str_to_string("commit"),
            hash: str_to_string(hash),
            short_hash: short_hash(hash),
            summary: String::new(),
            message: String::new(),
            author: String::new(),
            date: String::new(),
            timestamp: None,
            parents: Vec::new(),
            index: None,
            is_merge: false,
            is_merge_in_progress: false,
            actions: CommitActions::with_reword(CommitActionAvailability::disabled("commit_data_unavailable")),
        }
    }
}

} // verus!
