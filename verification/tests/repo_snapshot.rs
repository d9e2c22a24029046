use leviathan_plugins::repo_snapshot::{build_snapshot, RepoRef, RepoRefKind, RepositorySnapshot};

fn local(name: &str, hash: &str, is_current: bool, upstream: Option<&str>) -> RepoRef {
    RepoRef {
        name: name.to_string(),
        kind: RepoRefKind::LocalBranch,
        target_hash: hash.to_string(),
        remote_name: None,
        is_current,
        upstream_ref: upstream.map(str::to_string),
    }
}

fn remote(name: &str, remote_name: &str, hash: &str) -> RepoRef {
    RepoRef {
        name: name.to_string(),
        kind: RepoRefKind::RemoteBranch,
        target_hash: hash.to_string(),
        remote_name: Some(remote_name.to_string()),
        is_current: false,
        upstream_ref: None,
    }
}

fn tag(name: &str, hash: &str) -> RepoRef {
    RepoRef {
        name: name.to_string(),
        kind: RepoRefKind::Tag,
        target_hash: hash.to_string(),
        remote_name: None,
        is_current: false,
        upstream_ref: None,
    }
}

fn build(name: &str, workdir: &str, current: &str, head: &str, default_remote: &str, refs: &[RepoRef]) -> RepositorySnapshot {
    build_snapshot(name, workdir, current, head, default_remote, refs)
}

#[test]
fn workdir_path_is_exposed_on_table() {
    let t = build("repo", "/home/u/proj", "HEAD", "", "", &[]);
    assert_eq!(t.workdir_path, "/home/u/proj");
}

#[test]
fn head_hash_is_exposed_on_table() {
    let t = build("repo", "/tmp/repo", "HEAD", "deadbeef", "", &[]);
    assert_eq!(t.head_hash, "deadbeef");
}

#[test]
fn default_remote_name_is_exposed_on_table() {
    let t = build("repo", "/tmp/repo", "main", "", "origin", &[]);
    assert_eq!(t.default_remote_name, "origin");
}

#[test]
fn empty_default_remote_name_round_trips_as_empty_string() {
    let t = build("", "", "", "", "", &[]);
    assert_eq!(t.default_remote_name, "");
}

#[test]
fn empty_head_hash_round_trips_as_empty_string() {
    let t = build("", "", "", "", "", &[]);
    assert_eq!(t.head_hash, "");
}

#[test]
fn empty_workdir_path_round_trips_as_empty_string() {
    let t = build("", "", "", "", "", &[]);
    assert_eq!(t.workdir_path, "");
}

#[test]
fn empty_refs_produce_empty_table() {
    let t = build("repo", "/tmp/repo", "HEAD", "", "", &[]);
    assert_eq!(t.name, "repo");
    assert_eq!(t.current_branch_name, "HEAD");
    assert!(t.current_branch.is_none());
    assert_eq!(t.local_branches.len(), 0);
}

#[test]
fn local_without_upstream_has_nil_upstream_branch() {
    let refs = vec![local("main", "aaaa", false, None)];
    let t = build("repo", "/tmp/repo", "main", "", "", &refs);
    assert_eq!(t.local_branches.len(), 1);
    let b = &t.local_branches[0];
    assert_eq!(b.name, "main");
    assert_eq!(b.hash, "aaaa");
    assert!(b.upstream.is_none());
}

#[test]
fn upstream_resolves_from_short_ref() {
    let refs = vec![local("main", "aaaa", true, Some("origin/main")), remote("main", "origin", "bbbb")];
    let t = build("repo", "/tmp/repo", "main", "", "", &refs);
    let b = &t.local_branches[0];
    let up = &t.remote_branches[b.upstream.unwrap()];
    assert_eq!(up.name, "main");
    assert_eq!(up.remote_name, "origin");
    assert_eq!(up.hash, "bbbb");
}

#[test]
fn current_branch_is_the_is_current_local() {
    let refs = vec![local("main", "aaaa", false, None), local("feature", "bbbb", true, None)];
    let t = build("repo", "/tmp/repo", "feature", "", "", &refs);
    let current = &t.local_branches[t.current_branch.unwrap()];
    assert_eq!(current.name, "feature");
}

#[test]
fn is_detached_true_when_head_at_commit_with_no_current_branch() {
    let refs = vec![local("main", "aaaa", false, None)];
    let t = build("repo", "/tmp/repo", "HEAD", "deadbeef", "", &refs);
    assert!(t.is_detached);
}

#[test]
fn is_detached_false_when_on_a_local_branch() {
    let refs = vec![local("main", "aaaa", true, None)];
    let t = build("repo", "/tmp/repo", "main", "aaaa", "", &refs);
    assert!(!t.is_detached);
}

#[test]
fn is_detached_false_when_no_repo_open() {
    let t = build("", "", "", "", "", &[]);
    assert!(!t.is_detached);
}

#[test]
fn is_unborn_true_when_repo_open_but_no_head_hash() {
    let t = build("repo", "/tmp/repo", "main", "", "", &[]);
    assert!(t.is_unborn);
}

#[test]
fn is_unborn_false_when_no_repo_open() {
    let t = build("", "", "", "", "", &[]);
    assert!(!t.is_unborn);
}

#[test]
fn is_unborn_false_when_head_has_commit() {
    let refs = vec![local("main", "aaaa", true, None)];
    let t = build("repo", "/tmp/repo", "main", "aaaa", "", &refs);
    assert!(!t.is_unborn);
}

#[test]
fn is_unborn_false_when_detached() {
    let t = build("repo", "/tmp/repo", "HEAD", "deadbeef", "", &[]);
    assert!(!t.is_unborn);
}

#[test]
fn is_open_true_when_repo_has_a_name() {
    let refs = vec![local("main", "aaaa", true, None)];
    let t = build("repo", "/tmp/repo", "main", "aaaa", "", &refs);
    assert!(t.is_open);
}

#[test]
fn is_open_true_for_bare_repo() {
    let t = build("repo", "", "main", "aaaa", "", &[]);
    assert!(t.is_open);
}

#[test]
fn is_open_false_when_no_repo_loaded() {
    let t = build("", "", "", "", "", &[]);
    assert!(!t.is_open);
}

#[test]
fn is_bare_true_when_repo_open_with_empty_workdir() {
    let t = build("repo", "", "main", "", "", &[]);
    assert!(t.is_bare);
}

#[test]
fn is_bare_false_when_no_repo_open() {
    let t = build("", "", "", "", "", &[]);
    assert!(!t.is_bare);
}

#[test]
fn is_bare_false_when_repo_has_workdir() {
    let refs = vec![local("main", "aaaa", true, None)];
    let t = build("repo", "/tmp/repo", "main", "aaaa", "", &refs);
    assert!(!t.is_bare);
}

#[test]
fn detached_head_gives_nil_current_branch() {
    let refs = vec![local("main", "aaaa", false, None)];
    let t = build("repo", "/tmp/repo", "HEAD", "", "", &refs);
    assert!(t.current_branch.is_none());
}

#[test]
fn empty_refs_produce_empty_remote_branches() {
    let t = build("repo", "/tmp/repo", "HEAD", "", "", &[]);
    assert_eq!(t.remote_branches.len(), 0);
}

#[test]
fn remote_branches_lists_every_remote_ref() {
    let refs = vec![remote("main", "origin", "bbbb"), remote("feature", "origin", "cccc"), remote("main", "fork", "dddd")];
    let t = build("repo", "/tmp/repo", "HEAD", "", "", &refs);
    assert_eq!(t.remote_branches.len(), 3);
    let r1 = &t.remote_branches[0];
    assert_eq!(r1.name, "main");
    assert_eq!(r1.remote_name, "origin");
    assert_eq!(r1.hash, "bbbb");
    let r3 = &t.remote_branches[2];
    assert_eq!(r3.remote_name, "fork");
}

#[test]
fn empty_refs_produce_empty_tags() {
    let t = build("repo", "/tmp/repo", "HEAD", "", "", &[]);
    assert_eq!(t.tags.len(), 0);
}

#[test]
fn tags_lists_every_tag_ref() {
    let refs = vec![local("main", "aaaa", true, None), tag("v1.0.0", "bbbb"), tag("v1.1.0", "cccc")];
    let t = build("repo", "/tmp/repo", "main", "", "", &refs);
    assert_eq!(t.tags.len(), 2);
    assert_eq!(t.tags[0].name, "v1.0.0");
    assert_eq!(t.tags[0].hash, "bbbb");
    assert_eq!(t.tags[1].name, "v1.1.0");
    assert_eq!(t.tags[1].hash, "cccc");
}

#[test]
fn local_branch_exposes_is_current_flag() {
    let refs = vec![local("main", "aaaa", false, None), local("feature", "bbbb", true, None)];
    let t = build("repo", "/tmp/repo", "feature", "", "", &refs);
    assert!(!t.local_branches[0].is_current);
    assert!(t.local_branches[1].is_current);
}

#[test]
fn upstream_branch_shares_identity_with_remote_branches_entry() {
    let refs = vec![local("main", "aaaa", true, Some("origin/main")), remote("main", "origin", "bbbb")];
    let t = build("repo", "/tmp/repo", "main", "", "", &refs);
    assert_eq!(
        t.local_branches[0].upstream,
        Some(0),
        "upstream_branch must be the same entry as the remote_branches entry"
    );
}

#[test]
fn upstream_splits_at_the_first_slash_and_takes_the_last_match() {
    let refs = vec![
        local("topic", "aaaa", false, Some("origin/feature/x")),
        remote("feature/x", "origin", "bbbb"),
        remote("feature/x", "origin", "cccc"),
        local("lonely", "dddd", false, Some("noslash")),
    ];
    let t = build("repo", "/tmp/repo", "HEAD", "", "", &refs);
    assert_eq!(t.local_branches[0].upstream, Some(1));
    assert_eq!(t.local_branches[1].upstream, None);
}

#[test]
fn the_last_current_local_wins() {
    let refs = vec![local("a", "1", true, None), local("b", "2", true, None)];
    let t = build("repo", "/tmp/repo", "b", "2", "", &refs);
    assert_eq!(t.current_branch, Some(1));
    assert!(!t.is_detached);
}
