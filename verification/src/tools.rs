//! What every tool shares: the server that holds the configuration, what
//! a tool is told of the disk, and what it answers.
//!
//! A tool of this library neither reads nor writes. Its caller looks at the
//! disk and hands in what it saw; the tool decides, and answers with what
//! is to be written, what is to be said to the agent, and what is to go
//! into the audit journal.

use vstd::prelude::*;
use crate::config::AppConfig;
use crate::sandbox::{
    destructive_validation, validate_destructive, validate_path, validate_writable,
    validation, writable_validation, FolderProbe, ValidatedPath,
};

verus! {

/// Why a tool refused or failed.
#[derive(Debug, Clone, Copy, PartialEq, Eq, Structural)]
pub enum ErrorKind {
    /// The sandbox denied a path: out of scope, excluded, read-only, or
    /// missing where it must exist.
    SandboxDenial,
    NotFound,
    SizeLimit,
    UnsupportedType,
    /// A glob or a regular expression is malformed.
    MalformedPattern,
    /// The arguments cannot be acted on.
    InvalidInput,
    /// The disk refused.
    Io,
}

/// A refusal or failure, with the message for the agent.
pub struct ToolError {
    pub kind: ErrorKind,
    pub message: String,
}

/// What goes into the audit journal for one successful call.
pub struct AuditRecord {
    pub tool: String,
    /// One of `read`, `write`, `delete`, `system`, `security`.
    pub category: String,
    pub path: Option<String>,
    pub summary: String,
}

/// The answer of a tool: the text for the agent and the audit record.
pub struct ToolReply {
    pub text: String,
    pub audit: AuditRecord,
}

/// What is found at a path.
#[derive(Debug, Clone, Copy, PartialEq, Eq, Structural)]
pub enum PathKind {
    Missing,
    File,
    Directory,
    Other,
}

/// What the disk says of a path that a tool was given.
pub struct Located {
    /// The absolute form of the path, made without resolving links.
    pub absolute: String,
    pub kind: PathKind,
}

/// The server: the configuration that every call is decided against.
pub struct OmniDriveServer {
    pub config: AppConfig,
}

/// The text of an optional string.
pub open spec fn opt_text(s: Option<String>) -> Option<Seq<char>> {
    match s {
        Some(t) => Some(t@),
        None => None,
    }
}

/// `reply` holds exactly this text and this audit record.
pub open spec fn is_reply(
    reply: ToolReply,
    text: Seq<char>,
    tool: Seq<char>,
    category: Seq<char>,
    path: Option<Seq<char>>,
    summary: Seq<char>,
) -> bool {
    reply.text@ == text && reply.audit.tool@ == tool && reply.audit.category@ == category
        && opt_text(reply.audit.path) == path && reply.audit.summary@ == summary
}

/// `r` is a failure of this kind with this message.
pub open spec fn fails_with<T>(r: Result<T, ToolError>, kind: ErrorKind, message: Seq<char>) -> bool {
    r matches Err(e) && e.kind == kind && e.message@ == message
}

/// A successful answer and its audit record.
pub fn success_log(tool: &str, category: &str, path: Option<&str>, summary: &str, text: String) -> (reply:
    ToolReply)
    ensures
        is_reply(
            reply,
            text@,
            tool@,
            category@,
            match path {
                Some(p) => Some(p@),
                None => None,
            },
            summary@,
        ),
{
    let path = match path {
        Some(p) => Some(p.to_owned()),
        None => None,
    };
    ToolReply {
        text,
        audit: AuditRecord {
            tool: tool.to_owned(),
            category: category.to_owned(),
            path,
            summary: summary.to_owned(),
        },
    }
}

/// A failure of kind `kind` with the message `message`.
pub fn failure(kind: ErrorKind, message: String) -> (e: ToolError)
    ensures
        e.kind == kind,
        e.message == message,
{
    ToolError { kind, message }
}

/// The page that a listing starts at where none is asked for.
pub fn default_page() -> (n: usize)
    ensures
        n == 1,
{
    1
}

/// The page size of a listing where none is asked for.
pub fn default_page_size() -> (n: usize)
    ensures
        n == 50,
{
    50
}

/// The depth of a recursive listing where none is asked for.
pub fn default_max_depth() -> (n: usize)
    ensures
        n == 3,
{
    3
}

/// The number of matches that a content search returns where none is
/// asked for.
pub fn default_max_results() -> (n: usize)
    ensures
        n == 50,
{
    50
}

/// `r`, read as the outcome of a sandbox check, has become a tool's
/// outcome: the validated path as it was, or a sandbox denial with the
/// sandbox's message.
pub open spec fn denial_of(r: Result<ValidatedPath, String>, out: Result<ValidatedPath, ToolError>) -> bool {
    match r {
        Ok(v) => out == Ok::<ValidatedPath, ToolError>(v),
        Err(m) => out matches Err(e) && e.kind == ErrorKind::SandboxDenial && e.message == m,
    }
}

fn as_denial(r: Result<ValidatedPath, String>) -> (out: Result<ValidatedPath, ToolError>)
    ensures
        denial_of(r, out),
{
    match r {
        Ok(v) => Ok(v),
        Err(m) => Err(ToolError { kind: ErrorKind::SandboxDenial, message: m }),
    }
}

/// What a tool makes of the decision of the sandbox: the folder and the
/// path, or a sandbox denial with the sandbox's message.
pub open spec fn admits(
    out: Result<ValidatedPath, ToolError>,
    decision: Result<int, Seq<char>>,
    target: Seq<char>,
    config: AppConfig,
) -> bool {
    match decision {
        Ok(i) => out matches Ok(v) && 0 <= i < config.folders@.len() && v.folder
            == config.folders@[i] && v.canonical_path@ == target,
        Err(m) => fails_with(out, ErrorKind::SandboxDenial, m),
    }
}

impl OmniDriveServer {
    /// A server that decides against `config`.
    pub fn new(config: AppConfig) -> (server: Self)
        ensures
            server.config == config,
    {
        OmniDriveServer { config }
    }

    /// The sandbox check for a path that is only read.
    pub fn check_readable(&self, path: &str, absolute: &str, probes: &Vec<FolderProbe>) -> (out:
        Result<ValidatedPath, ToolError>)
        ensures
            admits(
                out,
                validation(path@, absolute@, self.config.folders@, probes@),
                absolute@,
                self.config,
            ),
    {
        as_denial(validate_path(path, absolute, &self.config, probes))
    }

    /// The sandbox check for a path that is written.
    pub fn check_writable(&self, path: &str, absolute: &str, probes: &Vec<FolderProbe>) -> (out:
        Result<ValidatedPath, ToolError>)
        ensures
            admits(
                out,
                writable_validation(path@, absolute@, self.config.folders@, probes@),
                absolute@,
                self.config,
            ),
    {
        as_denial(validate_writable(path, absolute, &self.config, probes))
    }

    /// The sandbox check for a path that is moved away or deleted.
    pub fn check_destructive(
        &self,
        path: &str,
        absolute: &str,
        probes: &Vec<FolderProbe>,
        exists: bool,
    ) -> (out: Result<ValidatedPath, ToolError>)
        ensures
            admits(
                out,
                destructive_validation(path@, absolute@, self.config.folders@, probes@, exists),
                absolute@,
                self.config,
            ),
    {
        as_denial(validate_destructive(path, absolute, &self.config, probes, exists))
    }
}

} // verus!
