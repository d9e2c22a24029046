use leviathan_plugins::commit_data::{
    commit_kind_name, short_hash, summary, Commit, CommitActionAvailability, CommitActions, CommitData,
    CommitKind, CommitSnapshot,
};

#[test]
fn short_hash_keeps_seven_characters() {
    assert_eq!(short_hash("0123456789abcdef"), "0123456");
    assert_eq!(short_hash("abc"), "abc");
    assert_eq!(short_hash(""), "");
}

#[test]
fn summary_is_the_first_line() {
    assert_eq!(summary("subject\n\nbody"), "subject");
    assert_eq!(summary("subject\r\nbody"), "subject");
    assert_eq!(summary("only"), "only");
    assert_eq!(summary(""), "");
    assert_eq!(summary("\nsecond"), "");
}

#[test]
fn from_commit_copies_and_derives_fields() {
    let commit = Commit {
        kind: CommitKind::Stash,
        hash: "deadbeefcafe".into(),
        short_hash: "deadbee".into(),
        message: "Fix it\n\nDetails".into(),
        author: "Ann".into(),
        date: "2024-01-01".into(),
        parent_hashes: vec!["a".into(), "b".into()],
        is_merge_in_progress: true,
    };
    let d = CommitData::from_commit(&commit, Some(3), Some(17), CommitActions::with_reword(CommitActionAvailability::enabled()));
    assert_eq!(d.kind, "stash");
    assert_eq!(d.summary, "Fix it");
    assert_eq!(d.short_hash, "deadbee");
    assert!(d.is_merge);
    assert!(d.is_merge_in_progress);
    assert_eq!(d.index, Some(3));
    assert_eq!(d.timestamp, Some(17));
    assert!(d.actions.reword.enabled);
}

#[test]
fn from_snapshot_and_from_hash() {
    let snap = CommitSnapshot {
        hash: "0123456789".into(),
        message: "Add\nmore".into(),
        author_name: "Bob".into(),
        authored_at: 99,
        parent_hashes: vec!["p".into()],
    };
    let d = CommitData::from_snapshot(&snap, None, CommitActionAvailability::disabled("no"));
    assert_eq!(d.kind, "commit");
    assert_eq!(d.short_hash, "0123456");
    assert_eq!(d.summary, "Add");
    assert_eq!(d.author, "Bob");
    assert_eq!(d.timestamp, Some(99));
    assert!(!d.is_merge);
    assert_eq!(d.actions.reword.reason.as_deref(), Some("no"));
    let h = CommitData::from_hash("abcdef0123");
    assert_eq!(h.short_hash, "abcdef0");
    assert_eq!(h.message, "");
    assert!(!h.actions.reword.enabled);
    assert_eq!(h.actions.reword.reason.as_deref(), Some("commit_data_unavailable"));
}

#[test]
fn kind_names() {
    assert_eq!(commit_kind_name(CommitKind::Commit), "commit");
    assert_eq!(commit_kind_name(CommitKind::Dirty), "dirty");
    assert_eq!(commit_kind_name(CommitKind::Stash), "stash");
}
