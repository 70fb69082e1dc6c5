use vstd::prelude::*;

verus! {

/// One version-control mutation the driver asks its caller to perform.
#[derive(Debug, Clone, PartialEq, Eq)]
pub enum VcsAction {
    /// Stage every pending change.
    AddAll,
    /// Create a commit with the given message.
    Commit { message: String },
    /// Delete the local tag by that name.
    DeleteLocalTag { tag: String },
    /// Ask one remote to drop the tag; a refusal is ignored.
    DeleteRemoteTag { remote: String, tag: String },
    /// Create an annotated tag with the given message.
    CreateTag { tag: String, message: String },
    /// Push the current branch head to one remote.
    PushBranch { remote: String },
    /// Push all tags to one remote.
    PushTags { remote: String },
}

} // verus!
