//! `leviathan.repository`: the read-only snapshot of the active repository
//! that plugins see: its branches, remote branches and tags, which local
//! branch is current, the upstream each local branch tracks, and the
//! repository's state flags.

use vstd::prelude::*;
use crate::text::{chars_of, str_to_string, find_char, char_position, string_between, str_eq};

verus! {

/// What a ref is.
#[derive(Debug, Clone, Copy, PartialEq, Eq, Structural)]
pub enum RepoRefKind {
    LocalBranch,
    RemoteBranch,
    Tag,
}

/// One ref of the repository, as the host reads it.
#[derive(Debug, Clone)]
pub struct RepoRef {
    pub name: String,
    pub kind: RepoRefKind,
    pub target_hash: String,
    /// The remote of a remote branch.
    pub remote_name: Option<String>,
    /// A local branch checked out in the work tree.
    pub is_current: bool,
    /// The upstream of a local branch, in short form (`origin/main`).
    pub upstream_ref: Option<String>,
}

/// A remote branch of the snapshot.
#[derive(Debug, Clone)]
pub struct RemoteBranch {
    pub name: String,
    /// Empty when the ref names no remote.
    pub remote_name: String,
    pub hash: String,
}

pub struct RemoteV {
    pub name: Seq<char>,
    pub remote_name: Seq<char>,
    pub hash: Seq<char>,
}

impl View for RemoteBranch {
    type V = RemoteV;

    open spec fn view(&self) -> RemoteV {
        RemoteV { name: self.name@, remote_name: self.remote_name@, hash: self.hash@ }
    }
}

/// A local branch of the snapshot; `upstream` is the index of its upstream
/// in the snapshot's remote branches (the same entry, not a copy).
#[derive(Debug, Clone)]
pub struct LocalBranch {
    pub name: String,
    pub hash: String,
    pub is_current: bool,
    pub upstream: Option<usize>,
}

pub struct LocalV {
    pub name: Seq<char>,
    pub hash: Seq<char>,
    pub is_current: bool,
    pub upstream: Option<int>,
}

pub open spec fn opt_index(o: Option<usize>) -> Option<int> {
    match o {
        Some(i) => Some(i as int),
        None => None,
    }
}

impl View for LocalBranch {
    type V = LocalV;

    open spec fn view(&self) -> LocalV {
        LocalV { name: self.name@, hash: self.hash@, is_current: self.is_current, upstream: opt_index(self.upstream) }
    }
}

/// A tag of the snapshot.
#[derive(Debug, Clone)]
pub struct TagRef {
    pub name: String,
    pub hash: String,
}

pub struct TagV {
    pub name: Seq<char>,
    pub hash: Seq<char>,
}

impl View for TagRef {
    type V = TagV;

    open spec fn view(&self) -> TagV {
        TagV { name: self.name@, hash: self.hash@ }
    }
}

/// The snapshot; `current_branch` is the index of the current local branch.
#[derive(Debug, Clone)]
pub struct RepositorySnapshot {
    pub name: String,
    pub workdir_path: String,
    pub current_branch_name: String,
    pub head_hash: String,
    pub default_remote_name: String,
    pub is_open: bool,
    pub is_detached: bool,
    pub is_unborn: bool,
    pub is_bare: bool,
    pub current_branch: Option<usize>,
    pub local_branches: Vec<LocalBranch>,
    pub remote_branches: Vec<RemoteBranch>,
    pub tags: Vec<TagRef>,
}

pub open spec fn remote_views(s: Seq<RemoteBranch>) -> Seq<RemoteV> {
    s.map_values(|r: RemoteBranch| r@)
}

pub open spec fn local_views(s: Seq<LocalBranch>) -> Seq<LocalV> {
    s.map_values(|l: LocalBranch| l@)
}

pub open spec fn tag_views(s: Seq<TagRef>) -> Seq<TagV> {
    s.map_values(|t: TagRef| t@)
}

/// The refs of kind `k`, in order.
pub open spec fn of_kind(refs: Seq<RepoRef>, k: RepoRefKind) -> Seq<RepoRef>
    decreases refs.len(),
{
    if refs.len() == 0 {
        Seq::empty()
    } else {
        let rest = of_kind(refs.drop_last(), k);
        if refs.last().kind == k {
            rest.push(refs.last())
        } else {
            rest
        }
    }
}

pub open spec fn remote_v(r: RepoRef) -> RemoteV {
    RemoteV {
        name: r.name@,
        remote_name: match r.remote_name {
            Some(x) => x@,
            None => Seq::empty(),
        },
        hash: r.target_hash@,
    }
}

/// The remote branches of `refs`, in order.
pub open spec fn remotes_spec(refs: Seq<RepoRef>) -> Seq<RemoteV> {
    of_kind(refs, RepoRefKind::RemoteBranch).map_values(|r: RepoRef| remote_v(r))
}

/// The tags of `refs`, in order.
pub open spec fn tags_spec(refs: Seq<RepoRef>) -> Seq<TagV> {
    of_kind(refs, RepoRefKind::Tag).map_values(|r: RepoRef| TagV { name: r.name@, hash: r.target_hash@ })
}

/// Index of the last remote branch `branch` of remote `remote` in `rs`.
pub open spec fn last_remote(rs: Seq<RemoteV>, remote: Seq<char>, branch: Seq<char>) -> Option<int>
    decreases rs.len(),
{
    if rs.len() == 0 {
        None
    } else if rs.last().remote_name == remote && rs.last().name == branch {
        Some(rs.len() - 1)
    } else {
        last_remote(rs.drop_last(), remote, branch)
    }
}

/// The remote branch an upstream short ref `<remote>/<branch>` names,
/// split at its first `/`; nothing without a `/` or a matching branch.
pub open spec fn upstream_spec(up: Option<String>, rs: Seq<RemoteV>) -> Option<int> {
    match up {
        Some(s) => {
            let e = find_char(s@, '/');
            if e < s@.len() {
                last_remote(rs, s@.subrange(0, e), s@.subrange(e + 1, s@.len() as int))
            } else {
                None
            }
        },
        None => None,
    }
}

pub open spec fn local_v_of(r: RepoRef, rs: Seq<RemoteV>) -> LocalV {
    LocalV { name: r.name@, hash: r.target_hash@, is_current: r.is_current, upstream: upstream_spec(r.upstream_ref, rs) }
}

/// The local branches of `refs`, in order, each with its upstream.
pub open spec fn locals_spec(refs: Seq<RepoRef>) -> Seq<LocalV> {
    of_kind(refs, RepoRefKind::LocalBranch).map_values(|r: RepoRef| local_v_of(r, remotes_spec(refs)))
}

/// Index of the last current branch among local branches `ls`.
pub open spec fn last_current(ls: Seq<RepoRef>) -> Option<int>
    decreases ls.len(),
{
    if ls.len() == 0 {
        None
    } else if ls.last().is_current {
        Some(ls.len() - 1)
    } else {
        last_current(ls.drop_last())
    }
}

proof fn lemma_of_kind_step(refs: Seq<RepoRef>, i: int, k: RepoRefKind)
    requires
        0 <= i < refs.len(),
    ensures
        of_kind(refs.take(i + 1), k) == if refs[i].kind == k {
            of_kind(refs.take(i), k).push(refs[i])
        } else {
            of_kind(refs.take(i), k)
        },
{
    assert(refs.take(i + 1).drop_last() =~= refs.take(i));
    assert(refs.take(i + 1).last() == refs[i]);
}

fn last_remote_index(rs: &Vec<RemoteBranch>, remote: &String, branch: &String) -> (r: Option<usize>)
    ensures
        opt_index(r) == last_remote(remote_views(rs@), remote@, branch@),
{
    let ghost all = remote_views(rs@);
    let mut k: usize = rs.len();
    assert(all.take(k as int) =~= all);
    while k > 0
        invariant
            k <= rs@.len(),
            all == remote_views(rs@),
            last_remote(all, remote@, branch@) == last_remote(all.take(k as int), remote@, branch@),
        decreases k,
    {
        let ghost t = all.take(k as int);
        assert(t.last() == rs@[k - 1]@);
        assert(t.drop_last() =~= all.take(k - 1));
        if str_eq(rs[k - 1].remote_name.as_str(), remote.as_str()) && str_eq(rs[k - 1].name.as_str(), branch.as_str()) {
            return Some(k - 1);
        }
        k -= 1;
    }
    None
}

fn resolve_upstream(up: &Option<String>, rs: &Vec<RemoteBranch>) -> (r: Option<usize>)
    ensures
        opt_index(r) == upstream_spec(*up, remote_views(rs@)),
{
    match up {
        Some(s) => {
            let v = chars_of(s.as_str());
            let e = char_position(&v, '/');
            proof {
                crate::text::lemma_find_char_bounds(v@, '/');
            }
            if e < v.len() {
                let remote = string_between(&v, 0, e);
                let branch = string_between(&v, e + 1, v.len());
                last_remote_index(rs, &remote, &branch)
            } else {
                None
            }
        },
        None => None,
    }
}

/// The snapshot of a repository named `repo_name` (empty when none is
/// open) from its refs.
pub fn build_snapshot(
    repo_name: &str,
    workdir_path: &str,
    current_branch_name: &str,
    head_hash: &str,
    default_remote_name: &str,
    refs: &[RepoRef],
) -> (r: RepositorySnapshot)
    ensures
        r.name@ == repo_name@,
        r.workdir_path@ == workdir_path@,
        r.current_branch_name@ == current_branch_name@,
        r.head_hash@ == head_hash@,
        r.default_remote_name@ == default_remote_name@,
        remote_views(r.remote_branches@) == remotes_spec(refs@),
        local_views(r.local_branches@) == locals_spec(refs@),
        tag_views(r.tags@) == tags_spec(refs@),
        opt_index(r.current_branch) == last_current(of_kind(refs@, RepoRefKind::LocalBranch)),
        r.is_open == (repo_name@.len() > 0),
        r.is_detached == (head_hash@.len() > 0 && r.current_branch is None),
        r.is_unborn == (workdir_path@.len() > 0 && head_hash@.len() == 0),
        r.is_bare == (repo_name@.len() > 0 && workdir_path@.len() == 0),
{
    let ghost all = refs@;
    let mut remotes: Vec<RemoteBranch> = Vec::new();
    let mut tags: Vec<TagRef> = Vec::new();
    let mut local_idx: Vec<usize> = Vec::new();
    let mut i: usize = 0;
    while i < refs.len()
        invariant
            i <= refs@.len(),
            all == refs@,
            remote_views(remotes@) == remotes_spec(all.take(i as int)),
            tag_views(tags@) == tags_spec(all.take(i as int)),
            local_idx@.len() == of_kind(all.take(i as int), RepoRefKind::LocalBranch).len(),
            forall|j: int| 0 <= j < local_idx@.len() ==> {
                &&& (#[trigger] local_idx@[j]) < i
                &&& all[local_idx@[j] as int] == of_kind(all.take(i as int), RepoRefKind::LocalBranch)[j]
            },
        decreases refs@.len() - i,
    {
        let r = &refs[i];
        proof {
            lemma_of_kind_step(all, i as int, RepoRefKind::RemoteBranch);
            lemma_of_kind_step(all, i as int, RepoRefKind::Tag);
            lemma_of_kind_step(all, i as int, RepoRefKind::LocalBranch);
        }
        match r.kind {
            RepoRefKind::RemoteBranch => {
                let remote_name = match &r.remote_name {
                    Some(x) => x.clone(),
                    None => String::new(),
                };
                let ghost prev = remotes@;
                remotes.push(RemoteBranch { name: r.name.clone(), remote_name, hash: r.target_hash.clone() });
                assert(remote_views(remotes@) =~= remote_views(prev).push(remote_v(all[i as int])));
                assert(remotes_spec(all.take(i + 1)) =~= remotes_spec(all.take(i as int)).push(remote_v(all[i as int])));
                assert(tags_spec(all.take(i + 1)) == tags_spec(all.take(i as int)));
            },
            RepoRefKind::Tag => {
                let ghost prev = tags@;
                tags.push(TagRef { name: r.name.clone(), hash: r.target_hash.clone() });
                assert(tag_views(tags@) =~= tag_views(prev).push(TagV { name: all[i as int].name@, hash: all[i as int].target_hash@ }));
                assert(tags_spec(all.take(i + 1)) =~= tags_spec(all.take(i as int)).push(TagV { name: all[i as int].name@, hash: all[i as int].target_hash@ }));
                assert(remotes_spec(all.take(i + 1)) == remotes_spec(all.take(i as int)));
            },
            RepoRefKind::LocalBranch => {
                local_idx.push(i);
                assert(remotes_spec(all.take(i + 1)) == remotes_spec(all.take(i as int)));
                assert(tags_spec(all.take(i + 1)) == tags_spec(all.take(i as int)));
            },
        }
        i += 1;
    }
    assert(all.take(all.len() as int) =~= all);
    let ghost locals = of_kind(all, RepoRefKind::LocalBranch);
    let ghost rs = remotes_spec(all);
    let mut out: Vec<LocalBranch> = Vec::new();
    let mut current: Option<usize> = None;
    let mut j: usize = 0;
    while j < local_idx.len()
        invariant
            j <= local_idx@.len(),
            local_idx@.len() == locals.len(),
            locals == of_kind(all, RepoRefKind::LocalBranch),
            all == refs@,
            rs == remotes_spec(all),
            remote_views(remotes@) == rs,
            forall|k: int| 0 <= k < local_idx@.len() ==> {
                &&& (#[trigger] local_idx@[k]) < all.len()
                &&& all[local_idx@[k] as int] == locals[k]
            },
            local_views(out@) == locals.take(j as int).map_values(|r: RepoRef| local_v_of(r, rs)),
            opt_index(current) == last_current(locals.take(j as int)),
        decreases local_idx@.len() - j,
    {
        let k = local_idx[j];
        let r = &refs[k];
        assert(all[k as int] == locals[j as int]);
        let upstream = resolve_upstream(&r.upstream_ref, &remotes);
        let ghost prev = out@;
        out.push(LocalBranch { name: r.name.clone(), hash: r.target_hash.clone(), is_current: r.is_current, upstream });
        proof {
            assert(locals.take(j + 1) =~= locals.take(j as int).push(locals[j as int]));
            assert(local_views(out@) =~= local_views(prev).push(local_v_of(locals[j as int], rs)));
            assert(locals.take(j + 1).map_values(|r: RepoRef| local_v_of(r, rs)) =~= locals.take(j as int).map_values(
                |r: RepoRef| local_v_of(r, rs),
            ).push(local_v_of(locals[j as int], rs)));
            assert(locals.take(j + 1).drop_last() =~= locals.take(j as int));
        }
        if r.is_current {
            current = Some(j);
        }
        j += 1;
    }
    assert(locals.take(locals.len() as int) =~= locals);
    let is_open = chars_of(repo_name).len() > 0;
    let head_set = chars_of(head_hash).len() > 0;
    let has_workdir = chars_of(workdir_path).len() > 0;
    RepositorySnapshot {
        name: str_to_string(repo_name),
        workdir_path: str_to_string(workdir_path),
        current_branch_name: str_to_string(current_branch_name),
        head_hash: str_to_string(head_hash),
        default_remote_name: str_to_string(default_remote_name),
        is_open,
        is_detached: head_set && current.is_none(),
        is_unborn: has_workdir && !head_set,
        is_bare: is_open && !has_workdir,
        current_branch: current,
        local_branches: out,
        remote_branches: remotes,
        tags,
    }
}


proof fn lemma_last_remote_props(rs: Seq<RemoteV>, remote: Seq<char>, branch: Seq<char>)
    ensures
        last_remote(rs, remote, branch) matches Some(u) ==> 0 <= u < rs.len() && rs[u].remote_name == remote
            && rs[u].name == branch,
    decreases rs.len(),
{
    if rs.len() > 0 {
        lemma_last_remote_props(rs.drop_last(), remote, branch);
    }
}

proof fn lemma_last_current_props(ls: Seq<RepoRef>)
    ensures
        match last_current(ls) {
            Some(i) => 0 <= i < ls.len() && ls[i].is_current,
            None => forall|i: int| 0 <= i < ls.len() ==> !(#[trigger] ls[i]).is_current,
        },
    decreases ls.len(),
{
    if ls.len() > 0 {
        lemma_last_current_props(ls.drop_last());
        if !ls.last().is_current {
            assert forall|i: int| 0 <= i < ls.len() - 1 implies ls[i] == ls.drop_last()[i] by {}
        }
    }
}

/// The links of a snapshot hold: the current branch is a local branch
/// marked current (and without one no local branch is current), and the
/// upstream of a local branch is one of the snapshot's remote branches,
/// the one whose `<remote>/<name>` is the branch's upstream ref.
pub proof fn lemma_snapshot_links(refs: Seq<RepoRef>)
    ensures
        match last_current(of_kind(refs, RepoRefKind::LocalBranch)) {
            Some(i) => 0 <= i < locals_spec(refs).len() && locals_spec(refs)[i].is_current,
            None => forall|i: int| 0 <= i < locals_spec(refs).len() ==> !(#[trigger] locals_spec(refs)[i]).is_current,
        },
        forall|i: int| 0 <= i < locals_spec(refs).len() ==> match (#[trigger] locals_spec(refs)[i]).upstream {
            Some(u) => {
                &&& 0 <= u < remotes_spec(refs).len()
                &&& of_kind(refs, RepoRefKind::LocalBranch)[i].upstream_ref matches Some(up)
                    && up@ == remotes_spec(refs)[u].remote_name + "/"@ + remotes_spec(refs)[u].name
            },
            None => true,
        },
{
    let ls = of_kind(refs, RepoRefKind::LocalBranch);
    let rs = remotes_spec(refs);
    lemma_last_current_props(ls);
    assert forall|i: int| 0 <= i < locals_spec(refs).len() implies match (#[trigger] locals_spec(refs)[i]).upstream {
        Some(u) => {
            &&& 0 <= u < rs.len()
            &&& ls[i].upstream_ref matches Some(up) && up@ == rs[u].remote_name + "/"@ + rs[u].name
        },
        None => true,
    } by {
        match ls[i].upstream_ref {
            Some(up) => {
                let e = find_char(up@, '/');
                crate::text::lemma_find_char_bounds(up@, '/');
                if e < up@.len() {
                    let remote = up@.subrange(0, e);
                    let branch = up@.subrange(e + 1, up@.len() as int);
                    lemma_last_remote_props(rs, remote, branch);
                    reveal_strlit("/");
                    assert(up@ =~= remote + "/"@ + branch);
                }
            },
            None => {},
        }
    }
}

} // verus!
