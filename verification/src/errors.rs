//! The structured error taxonomy. Every failure the library reports is a
//! machine-checkable kind carrying its context; rendering a user-facing
//! message is a pure presentation step over that structure, so callers
//! never have to match on message text.

use vstd::prelude::*;
use crate::strutil::concat2;

verus! {

/// Every way an operation of this library can fail.
#[derive(Debug)]
pub enum SkillError {
    /// A source (local path, git repository, registry download) could not
    /// be fetched or resolved.
    SourceUnavailable { detail: String },
    /// The source root holds several candidate skills and no subpath was
    /// chosen; the caller should re-invoke with a selection.
    AmbiguousSelection { candidates: Vec<String> },
    /// The name chosen for a new skill is already taken.
    DestinationConflict { path: String },
    /// The destination path already exists and no overwrite was requested;
    /// carries the path so the caller can retry with overwrite.
    TargetExists { path: String },
    /// The destination tool adapter reports the tool as not installed.
    ToolNotInstalled { tool: String },
    /// The remote host rejected the credentials.
    AuthenticationFailed { username: String },
    /// The remote host could not be reached.
    ConnectionFailed { detail: String },
    /// A remote command exited with a non-zero status; carries the command
    /// and the captured stderr for diagnostics.
    RemoteCommandFailed { command: String, exit_code: i64, stderr: String },
    /// Every item of a batch failed; carries the per-item reports.
    AllBatchItemsFailed { failures: Vec<String> },
    /// A record and the filesystem state it describes disagree.
    StorageInconsistency { detail: String },
    /// A referenced record does not exist.
    NotFound { what: String },
    /// An argument was rejected before any work was done.
    InvalidInput { detail: String },
}

impl SkillError {
    /// Renders the stable machine-readable message for this error: a kind
    /// tag, a `'|'` separator, and the principal context value. Front ends
    /// rely on the `TARGET_EXISTS|` and `TOOL_NOT_INSTALLED|` prefixes for
    /// their recovery flows. An ambiguous selection renders its tag alone:
    /// the candidate list travels in the error value, not in the message.
    /// Transient generated paths stay out of messages structurally: the
    /// library never puts a staging or temporary path into a `detail`
    /// field, and callers are expected to supply durable context there,
    /// so no textual redaction pass is needed.
    pub fn message(&self) -> (r: String)
        ensures
            match self {
                SkillError::SourceUnavailable { detail } => r@ == "SOURCE_UNAVAILABLE|"@
                    + detail@,
                SkillError::AmbiguousSelection { .. } => r@ == "MULTI_SKILLS|"@,
                SkillError::DestinationConflict { path } => r@ == "DESTINATION_CONFLICT|"@
                    + path@,
                SkillError::TargetExists { path } => r@ == "TARGET_EXISTS|"@ + path@,
                SkillError::ToolNotInstalled { tool } => r@ == "TOOL_NOT_INSTALLED|"@ + tool@,
                SkillError::AuthenticationFailed { username } => r@ == "AUTH_FAILED|"@
                    + username@,
                SkillError::ConnectionFailed { detail } => r@ == "CONNECTION_FAILED|"@ + detail@,
                SkillError::RemoteCommandFailed { stderr, .. } => r@
                    == "REMOTE_COMMAND_FAILED|"@ + stderr@,
                SkillError::AllBatchItemsFailed { .. } => r@ == "ALL_ITEMS_FAILED|"@,
                SkillError::StorageInconsistency { detail } => r@ == "STORAGE_INCONSISTENCY|"@
                    + detail@,
                SkillError::NotFound { what } => r@ == "NOT_FOUND|"@ + what@,
                SkillError::InvalidInput { detail } => r@ == "INVALID_INPUT|"@ + detail@,
            },
    {
        match self {
            SkillError::SourceUnavailable { detail } => concat2("SOURCE_UNAVAILABLE|", detail.as_str()),
            SkillError::AmbiguousSelection { .. } => "MULTI_SKILLS|".to_owned(),
            SkillError::DestinationConflict { path } => concat2("DESTINATION_CONFLICT|", path.as_str()),
            SkillError::TargetExists { path } => concat2("TARGET_EXISTS|", path.as_str()),
            SkillError::ToolNotInstalled { tool } => concat2("TOOL_NOT_INSTALLED|", tool.as_str()),
            SkillError::AuthenticationFailed { username } => concat2("AUTH_FAILED|", username.as_str()),
            SkillError::ConnectionFailed { detail } => concat2("CONNECTION_FAILED|", detail.as_str()),
            SkillError::RemoteCommandFailed { stderr, .. } => concat2(
                "REMOTE_COMMAND_FAILED|",
                stderr.as_str(),
            ),
            SkillError::AllBatchItemsFailed { .. } => "ALL_ITEMS_FAILED|".to_owned(),
            SkillError::StorageInconsistency { detail } => concat2(
                "STORAGE_INCONSISTENCY|",
                detail.as_str(),
            ),
            SkillError::NotFound { what } => concat2("NOT_FOUND|", what.as_str()),
            SkillError::InvalidInput { detail } => concat2("INVALID_INPUT|", detail.as_str()),
        }
    }
}

} // verus!
