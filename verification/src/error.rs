//! The errors that the library reports, and the message of each.
use vstd::prelude::*;
use crate::text::{chars_of, dec, dec_chars, int_dec, int_dec_chars, push_all, push_str, string_of, trim, trim_chars};

verus! {

/// An error of the library. Each variant holds what its message names.
#[derive(Debug, Clone, PartialEq, Eq)]
pub enum SlurmError {
    InvalidLogJobId(String),
    InvalidCancelJobId(String),
    NoJobIds,
    EmptyScriptPath,
    QuotedScriptPath,
    SubmitRegexInvalid,
    SubmittedJobIdNotFound(String),
    SubmitCaptureMissing,
    SqueueFieldCount { line: usize, got: usize },
    SqueueNodeCount { line: usize },
    RemoteMissingHost,
    RemoteMissingUsername,
    EmptyJumpHost,
    JumpHostMissingHost(String),
    JumpHostMissingUsername(String),
    MissingSrunCommand,
    RunningRow(String),
    PendingRow(String),
    PartitionNodeRow(String),
    PartitionJobsRow(String),
    PartitionRegexInvalid,
    CommandFailed { what: String, exit_code: i32, stderr: String },
    QueryFailed { what: String, stderr: String },
    ResourceNodeMissingHost,
    ResourceNodeMissingUser,
    ResourceNodeMissingJumpHost,
    EmptySessionId,
    EmptySessionType,
    DescriptionTooLong,
    MissingUsername,
    EnvNotSet(String),
    ConnectionNotFound(String),
    SessionNotFound(String),
}

/// The message of an error.
pub open spec fn message_of(e: SlurmError) -> Seq<char> {
    match e {
        SlurmError::InvalidLogJobId(id) => "invalid job id for log query: "@ + id@,
        SlurmError::InvalidCancelJobId(id) => "invalid job id for cancel query: "@ + id@,
        SlurmError::NoJobIds => "must provide at least one job id"@,
        SlurmError::EmptyScriptPath => "script path must not be empty"@,
        SlurmError::QuotedScriptPath => "script path must not contain single quotes"@,
        SlurmError::SubmitRegexInvalid => "failed to compile submit regex"@,
        SlurmError::SubmittedJobIdNotFound(raw) => "failed to parse submitted job id from output: "@
            + raw@,
        SlurmError::SubmitCaptureMissing => "submit output missing job id capture"@,
        SlurmError::SqueueFieldCount { line, got } => "failed to parse squeue line "@ + dec(
            line as nat,
        ) + ": expected 8 fields, got "@ + dec(got as nat),
        SlurmError::SqueueNodeCount { line } => "failed to parse node count on line "@ + dec(
            line as nat,
        ),
        SlurmError::RemoteMissingHost => "remote connection missing host"@,
        SlurmError::RemoteMissingUsername => "remote connection missing username"@,
        SlurmError::EmptyJumpHost => "jump host must not be empty"@,
        SlurmError::JumpHostMissingHost(id) => "jump host connection `"@ + id@ + "` missing host"@,
        SlurmError::JumpHostMissingUsername(id) => "jump host connection `"@ + id@
            + "` missing username"@,
        SlurmError::MissingSrunCommand => "must provide command for srun"@,
        SlurmError::RunningRow(line) => "failed to parse running node-jobs row: "@ + line@,
        SlurmError::PendingRow(line) => "failed to parse pending node-jobs row: "@ + line@,
        SlurmError::PartitionNodeRow(line) => "failed to parse partition node row: "@ + line@,
        SlurmError::PartitionJobsRow(line) => "failed to parse partition jobs row: "@ + line@,
        SlurmError::PartitionRegexInvalid => "failed to compile partition-info GPU usage regex"@,
        SlurmError::CommandFailed { what, exit_code, stderr } => what@ + " failed with exit code "@
            + int_dec(exit_code as int) + ": "@ + trim(stderr@),
        SlurmError::QueryFailed { what, stderr } => what@ + " failed: "@ + trim(stderr@),
        SlurmError::ResourceNodeMissingHost => "resource_node connection requires --host"@,
        SlurmError::ResourceNodeMissingUser => "resource_node connection requires --user"@,
        SlurmError::ResourceNodeMissingJumpHost => "resource_node connection requires --jump-host"@,
        SlurmError::EmptySessionId => "session id must not be empty"@,
        SlurmError::EmptySessionType => "session type must not be empty"@,
        SlurmError::DescriptionTooLong => "session description too long (max 256 characters)"@,
        SlurmError::MissingUsername => "missing username for slurm jobs query"@,
        SlurmError::EnvNotSet(name) => name@ + " not set"@,
        SlurmError::ConnectionNotFound(id) => "connection not found: "@ + id@,
        SlurmError::SessionNotFound(id) => "session not found: "@ + id@,
    }
}

fn text_then(a: &str, b: &String) -> (r: Vec<char>)
    ensures
        r@ == a@ + b@,
{
    let mut v = chars_of(a);
    let bs = chars_of(b.as_str());
    push_all(&mut v, bs.as_slice());
    v
}

impl SlurmError {
    /// The message of this error.
    pub fn message(&self) -> (r: String)
        ensures
            r@ == message_of(*self),
    {
        let v: Vec<char> = match self {
            SlurmError::InvalidLogJobId(id) => text_then("invalid job id for log query: ", id),
            SlurmError::InvalidCancelJobId(id) => text_then(
                "invalid job id for cancel query: ",
                id,
            ),
            SlurmError::NoJobIds => chars_of("must provide at least one job id"),
            SlurmError::EmptyScriptPath => chars_of("script path must not be empty"),
            SlurmError::QuotedScriptPath => chars_of("script path must not contain single quotes"),
            SlurmError::SubmitRegexInvalid => chars_of("failed to compile submit regex"),
            SlurmError::SubmittedJobIdNotFound(raw) => text_then(
                "failed to parse submitted job id from output: ",
                raw,
            ),
            SlurmError::SubmitCaptureMissing => chars_of("submit output missing job id capture"),
            SlurmError::SqueueFieldCount { line, got } => {
                let mut v = chars_of("failed to parse squeue line ");
                let l = dec_chars(*line as u64);
                push_all(&mut v, l.as_slice());
                push_str(&mut v, ": expected 8 fields, got ");
                let g = dec_chars(*got as u64);
                push_all(&mut v, g.as_slice());
                v
            },
            SlurmError::SqueueNodeCount { line } => {
                let mut v = chars_of("failed to parse node count on line ");
                let l = dec_chars(*line as u64);
                push_all(&mut v, l.as_slice());
                v
            },
            SlurmError::RemoteMissingHost => chars_of("remote connection missing host"),
            SlurmError::RemoteMissingUsername => chars_of("remote connection missing username"),
            SlurmError::EmptyJumpHost => chars_of("jump host must not be empty"),
            SlurmError::JumpHostMissingHost(id) => {
                let mut v = text_then("jump host connection `", id);
                push_str(&mut v, "` missing host");
                v
            },
            SlurmError::JumpHostMissingUsername(id) => {
                let mut v = text_then("jump host connection `", id);
                push_str(&mut v, "` missing username");
                v
            },
            SlurmError::MissingSrunCommand => chars_of("must provide command for srun"),
            SlurmError::RunningRow(line) => text_then(
                "failed to parse running node-jobs row: ",
                line,
            ),
            SlurmError::PendingRow(line) => text_then(
                "failed to parse pending node-jobs row: ",
                line,
            ),
            SlurmError::PartitionNodeRow(line) => text_then(
                "failed to parse partition node row: ",
                line,
            ),
            SlurmError::PartitionJobsRow(line) => text_then(
                "failed to parse partition jobs row: ",
                line,
            ),
            SlurmError::PartitionRegexInvalid => chars_of(
                "failed to compile partition-info GPU usage regex",
            ),
            SlurmError::CommandFailed { what, exit_code, stderr } => {
                let mut v = chars_of(what.as_str());
                push_str(&mut v, " failed with exit code ");
                let c = int_dec_chars(*exit_code as i64);
                push_all(&mut v, c.as_slice());
                push_str(&mut v, ": ");
                let e = chars_of(stderr.as_str());
                let t = trim_chars(e.as_slice());
                push_all(&mut v, t.as_slice());
                v
            },
            SlurmError::QueryFailed { what, stderr } => {
                let mut v = chars_of(what.as_str());
                push_str(&mut v, " failed: ");
                let e = chars_of(stderr.as_str());
                let t = trim_chars(e.as_slice());
                push_all(&mut v, t.as_slice());
                v
            },
            SlurmError::ResourceNodeMissingHost => chars_of(
                "resource_node connection requires --host",
            ),
            SlurmError::ResourceNodeMissingUser => chars_of(
                "resource_node connection requires --user",
            ),
            SlurmError::ResourceNodeMissingJumpHost => chars_of(
                "resource_node connection requires --jump-host",
            ),
            SlurmError::EmptySessionId => chars_of("session id must not be empty"),
            SlurmError::EmptySessionType => chars_of("session type must not be empty"),
            SlurmError::DescriptionTooLong => chars_of(
                "session description too long (max 256 characters)",
            ),
            SlurmError::MissingUsername => chars_of("missing username for slurm jobs query"),
            SlurmError::EnvNotSet(name) => {
                let mut v = chars_of(name.as_str());
                push_str(&mut v, " not set");
                v
            },
            SlurmError::ConnectionNotFound(id) => text_then("connection not found: ", id),
            SlurmError::SessionNotFound(id) => text_then("session not found: ", id),
        };
        string_of(v.as_slice())
    }
}

} // verus!
