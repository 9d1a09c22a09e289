//! The values carried by the frames of a repository event stream.

use vstd::prelude::*;
use crate::text::same_text;

verus! {

/// The header of a frame: the operation, and the kind of the message that
/// follows the header.
#[derive(Debug, Clone)]
pub struct Frame {
    op: u64,
    t: String,
}

/// A commit to a repository.
#[allow(non_snake_case)]
#[derive(Debug, Clone)]
pub struct CommitRecord {
    /// The stream sequence number of this message.
    pub seq: i64,
    /// No longer used.
    pub rebase: bool,
    /// Whether the commit held too many operations, or too much data, to be
    /// carried whole.
    pub tooBig: Option<bool>,
    /// The repository that the event comes from.
    pub repo: String,
    /// The identifier of the commit object.
    pub commit: Vec<u8>,
}

/// One operation of a commit on a record of the repository.
#[allow(non_camel_case_types)]
#[derive(Debug, Clone)]
pub struct repoOp {
    pub action: String,
    pub path: String,
    /// The identifier of the new record; none for a deletion.
    pub cid: Option<String>,
}

impl Frame {
    /// The operation of a header.
    pub closed spec fn operation(self) -> u64 {
        self.op
    }

    /// The kind of the message that follows a header.
    pub closed spec fn message_kind(self) -> Seq<char> {
        self.t@
    }

    /// A header with the given operation and message kind.
    pub fn new(op: u64, t: String) -> (frame: Frame)
        ensures
            frame.operation() == op,
            frame.message_kind() == t@,
    {
        Frame { op, t }
    }

    /// The operation.
    pub fn op(&self) -> (op: u64)
        ensures
            op == self.operation(),
    {
        self.op
    }

    /// The kind of the message that follows.
    pub fn t(&self) -> (t: &str)
        ensures
            t@ == self.message_kind(),
    {
        self.t.as_str()
    }

    /// Whether a commit follows the header: whether the kind of the message
    /// is `#commit`.
    pub fn is_commit(&self) -> (commit: bool)
        ensures
            commit == (self.message_kind() == "#commit"@),
    {
        same_text(self.t.as_str(), "#commit")
    }
}

} // verus!
