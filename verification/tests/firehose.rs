use blexicon::firehose::{repoOp, CommitRecord, Frame};

#[test]
fn frame_keeps_what_it_was_made_with() {
    let frame = Frame::new(1, "#commit".to_string());
    assert_eq!(frame.op(), 1);
    assert_eq!(frame.t(), "#commit");
}

#[test]
fn commit_frame_is_recognized() {
    assert!(Frame::new(1, "#commit".to_string()).is_commit());
}

#[test]
fn other_frames_are_not_commits() {
    assert!(!Frame::new(1, "#handle".to_string()).is_commit());
    assert!(!Frame::new(1, "commit".to_string()).is_commit());
    assert!(!Frame::new(1, "#commit ".to_string()).is_commit());
    assert!(!Frame::new(1, "#Commit".to_string()).is_commit());
    assert!(!Frame::new(0, String::new()).is_commit());
}

#[test]
fn commit_record_holds_its_fields() {
    let record = CommitRecord {
        seq: 42,
        rebase: false,
        tooBig: Some(true),
        repo: "did:plc:example".to_string(),
        commit: vec![1, 2, 3],
    };
    let copy = record.clone();
    assert_eq!(copy.seq, 42);
    assert!(!copy.rebase);
    assert_eq!(copy.tooBig, Some(true));
    assert_eq!(copy.repo, "did:plc:example");
    assert_eq!(copy.commit, vec![1, 2, 3]);
}

#[test]
fn repo_op_holds_its_fields() {
    let op = repoOp {
        action: "create".to_string(),
        path: "app.bsky.feed.post/3k".to_string(),
        cid: None,
    };
    assert_eq!(op.action, "create");
    assert_eq!(op.path, "app.bsky.feed.post/3k");
    assert!(op.cid.is_none());
}
