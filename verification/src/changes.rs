//! The tools that change the disk: write, move, copy, delete and patch.
//!
//! Each decides what is to be done and what is to be answered once it is
//! done. The caller carries it out.

use vstd::prelude::*;
use crate::patch::{
    none_fails, op_fails, ordered_ops, patch_text, patched_text, range_valid, ranges_valid,
    summary_line, LinePatchOp, PatchError, PatchOp,
};
use crate::pattern::regex_complaint;
use crate::sandbox::{
    destructive_validation, validation, writable_validation, FolderProbe, ValidatedPath,
};
use crate::size::{push_size, size_text};
use crate::text::{
    byte_len, byte_length, chars_of, concat2, concat3, concat4, decimal, join_strings,
    join_with, push_decimal, push_str, string_of, strings,
};
use crate::tools::{
    admits, fails_with, failure, is_reply, success_log, ErrorKind, Located, OmniDriveServer,
    PathKind, ToolError, ToolReply,
};

verus! {

/// A source and a destination.
pub struct MoveFileParams {
    pub source: String,
    pub destination: String,
}

/// What is to be done after a rename was tried.
pub enum MoveStep {
    /// The rename did it: this is the answer.
    Done(ToolReply),
    /// The rename failed and the source is a file: copy it to the
    /// destination, then delete it.
    CopyThenDelete,
    /// The rename failed and the source is no file.
    Refused(ToolError),
}

/// How a path is deleted.
#[derive(Debug, Clone, Copy, PartialEq, Eq, Structural)]
pub enum DeleteAction {
    RemoveFile,
    /// Remove the directory, which the disk refuses unless it is empty.
    RemoveEmptyDir,
}

/// What a patch is asked.
pub struct PatchFileParams {
    pub path: String,
    /// Carried out first, in the order given.
    pub search_replace: Vec<PatchOp>,
    /// Carried out on the lines of what the search-and-replace operations
    /// left, from the highest start line to the lowest.
    pub line_replace: Vec<LinePatchOp>,
}

/// A patch that is ready to be written.
pub struct PatchPlan {
    /// What the file is to hold.
    pub content: String,
    /// The answer once it is written.
    pub reply: ToolReply,
}

/// The report of a patch: one line for each operation.
pub open spec fn summary_lines(content: Seq<char>, sr: Seq<PatchOp>, lr: Seq<LinePatchOp>) -> Seq<
    Seq<char>,
> {
    Seq::new(sr.len() + lr.len(), |i: int| summary_line(content, sr, lr, i))
}

/// The answer of a patch of `path` that left `content`, with the report
/// `summary`.
pub open spec fn patch_answer(path: Seq<char>, summary: Seq<Seq<char>>, content: Seq<char>) -> Seq<
    char,
> {
    "Patched "@ + path + "\n\n"@ + join_with(summary, "\n"@) + "\n\nFinal size: "@ + size_text(
        byte_len(content) as nat,
    )
}

impl OmniDriveServer {
    /// Decides whether the file at `path` may be written. The caller makes
    /// the directories above it and writes.
    pub fn write_file(&self, path: &str, absolute: &str, probes: &Vec<FolderProbe>) -> (r: Result<
        ValidatedPath,
        ToolError,
    >)
        ensures
            admits(
                r,
                writable_validation(path@, absolute@, self.config.folders@, probes@),
                absolute@,
                self.config,
            ),
    {
        self.check_writable(path, absolute, probes)
    }

    /// Decides whether `args.source` may be moved to `args.destination`:
    /// the source must pass the sandbox as a path that is written and must
    /// exist, the destination must pass it as a path that is written and
    /// must not exist. Returns the two paths, source first.
    pub fn move_file(
        &self,
        args: &MoveFileParams,
        source: &Located,
        destination: &Located,
        probes: &Vec<FolderProbe>,
    ) -> (r: Result<(ValidatedPath, ValidatedPath), ToolError>)
        ensures
            match destructive_validation(
                args.source@,
                source.absolute@,
                self.config.folders@,
                probes@,
                source.kind != PathKind::Missing,
            ) {
                Err(m) => fails_with(r, ErrorKind::SandboxDenial, m),
                Ok(i) => match writable_validation(
                    args.destination@,
                    destination.absolute@,
                    self.config.folders@,
                    probes@,
                ) {
                    Err(m) => fails_with(r, ErrorKind::SandboxDenial, m),
                    Ok(j) => if destination.kind != PathKind::Missing {
                        fails_with(
                            r,
                            ErrorKind::InvalidInput,
                            "Destination already exists: "@ + args.destination@
                                + ". Delete it first or choose a different name."@,
                        )
                    } else {
                        r matches Ok(pair) && pair.0.folder == self.config.folders@[i]
                            && pair.0.canonical_path@ == source.absolute@ && pair.1.folder
                            == self.config.folders@[j] && pair.1.canonical_path@
                            == destination.absolute@
                    },
                },
            },
    {
        let exists = match source.kind {
            PathKind::Missing => false,
            _ => true,
        };
        let from = match self.check_destructive(
            args.source.as_str(),
            source.absolute.as_str(),
            probes,
            exists,
        ) {
            Err(e) => {
                return Err(e);
            },
            Ok(v) => v,
        };
        let to = match self.check_writable(
            args.destination.as_str(),
            destination.absolute.as_str(),
            probes,
        ) {
            Err(e) => {
                return Err(e);
            },
            Ok(v) => v,
        };
        match destination.kind {
            PathKind::Missing => Ok((from, to)),
            _ => Err(
                failure(
                    ErrorKind::InvalidInput,
                    concat3(
                        "Destination already exists: ",
                        args.destination.as_str(),
                        ". Delete it first or choose a different name.",
                    ),
                ),
            ),
        }
    }

    /// Decides how `path` is deleted: a file is removed, and so is a
    /// directory, which the disk does only where it is empty. The path
    /// must pass the sandbox as a path that is written, and must exist.
    pub fn delete_file(&self, path: &str, target: &Located, probes: &Vec<FolderProbe>) -> (r: Result<
        DeleteAction,
        ToolError,
    >)
        ensures
            match destructive_validation(
                path@,
                target.absolute@,
                self.config.folders@,
                probes@,
                target.kind != PathKind::Missing,
            ) {
                Err(m) => fails_with(r, ErrorKind::SandboxDenial, m),
                Ok(_) => match target.kind {
                    PathKind::File => r == Ok::<DeleteAction, ToolError>(DeleteAction::RemoveFile),
                    PathKind::Directory => r == Ok::<DeleteAction, ToolError>(
                        DeleteAction::RemoveEmptyDir,
                    ),
                    _ => fails_with(r, ErrorKind::Io, "Unknown file type at: "@ + path@),
                },
            },
    {
        let exists = match target.kind {
            PathKind::Missing => false,
            _ => true,
        };
        match self.check_destructive(path, target.absolute.as_str(), probes, exists) {
            Err(e) => {
                return Err(e);
            },
            Ok(_) => {},
        }
        match target.kind {
            PathKind::File => Ok(DeleteAction::RemoveFile),
            PathKind::Directory => Ok(DeleteAction::RemoveEmptyDir),
            _ => Err(failure(ErrorKind::Io, concat2("Unknown file type at: ", path))),
        }
    }

    /// Decides whether the file at `args.source` may be copied to
    /// `args.destination`: the source must pass the sandbox and be a file,
    /// the destination must pass it as a path that is written. Returns the
    /// two paths, source first.
    pub fn copy_file(
        &self,
        args: &MoveFileParams,
        source: &Located,
        destination: &Located,
        probes: &Vec<FolderProbe>,
    ) -> (r: Result<(ValidatedPath, ValidatedPath), ToolError>)
        ensures
            match validation(args.source@, source.absolute@, self.config.folders@, probes@) {
                Err(m) => fails_with(r, ErrorKind::SandboxDenial, m),
                Ok(i) => match writable_validation(
                    args.destination@,
                    destination.absolute@,
                    self.config.folders@,
                    probes@,
                ) {
                    Err(m) => fails_with(r, ErrorKind::SandboxDenial, m),
                    Ok(j) => if source.kind != PathKind::File {
                        fails_with(
                            r,
                            ErrorKind::InvalidInput,
                            "Source is not a file: "@ + args.source@
                                + ". Only files can be copied."@,
                        )
                    } else {
                        r matches Ok(pair) && pair.0.folder == self.config.folders@[i]
                            && pair.0.canonical_path@ == source.absolute@ && pair.1.folder
                            == self.config.folders@[j] && pair.1.canonical_path@
                            == destination.absolute@
                    },
                },
            },
    {
        let from = match self.check_readable(
            args.source.as_str(),
            source.absolute.as_str(),
            probes,
        ) {
            Err(e) => {
                return Err(e);
            },
            Ok(v) => v,
        };
        let to = match self.check_writable(
            args.destination.as_str(),
            destination.absolute.as_str(),
            probes,
        ) {
            Err(e) => {
                return Err(e);
            },
            Ok(v) => v,
        };
        match source.kind {
            PathKind::File => Ok((from, to)),
            _ => Err(
                failure(
                    ErrorKind::InvalidInput,
                    concat3(
                        "Source is not a file: ",
                        args.source.as_str(),
                        ". Only files can be copied.",
                    ),
                ),
            ),
        }
    }

    /// Decides whether the file at `args.path` may be patched, before it is
    /// read: the path must pass the sandbox as a path that is written and
    /// be a file, and there must be an operation.
    pub fn patch_check(&self, args: &PatchFileParams, file: &Located, probes: &Vec<FolderProbe>) -> (r:
        Result<ValidatedPath, ToolError>)
        ensures
            match writable_validation(
                args.path@,
                file.absolute@,
                self.config.folders@,
                probes@,
            ) {
                Err(m) => fails_with(r, ErrorKind::SandboxDenial, m),
                Ok(i) => if file.kind != PathKind::File {
                    fails_with(r, ErrorKind::NotFound, "File not found: "@ + args.path@)
                } else if args.search_replace@.len() == 0 && args.line_replace@.len() == 0 {
                    fails_with(
                        r,
                        ErrorKind::InvalidInput,
                        "No operations provided. Provide at least one search_replace or line_replace operation."@,
                    )
                } else {
                    r matches Ok(v) && v.folder == self.config.folders@[i] && v.canonical_path@
                        == file.absolute@
                },
            },
    {
        let validated = match self.check_writable(
            args.path.as_str(),
            file.absolute.as_str(),
            probes,
        ) {
            Err(e) => {
                return Err(e);
            },
            Ok(v) => v,
        };
        match file.kind {
            PathKind::File => {},
            _ => {
                return Err(
                    failure(ErrorKind::NotFound, concat2("File not found: ", args.path.as_str())),
                );
            },
        }
        if args.search_replace.len() == 0 && args.line_replace.len() == 0 {
            return Err(
                failure(
                    ErrorKind::InvalidInput,
                    "No operations provided. Provide at least one search_replace or line_replace operation.".to_owned(),
                ),
            );
        }
        Ok(validated)
    }
}

/// What is to be done once a rename was tried: nothing more where it did
/// it; else a file is copied and deleted, and a directory is not moved at
/// all.
pub fn move_after_rename(args: &MoveFileParams, renamed: bool, source_is_file: bool) -> (step:
    MoveStep)
    ensures
        if renamed {
            step matches MoveStep::Done(reply) && is_reply(
                reply,
                "Moved "@ + args.source@ + " → "@ + args.destination@,
                "move_file"@,
                "delete"@,
                Some(args.source@),
                "Moved to "@ + args.destination@,
            )
        } else if source_is_file {
            step is CopyThenDelete
        } else {
            step matches MoveStep::Refused(e) && e.kind == ErrorKind::Io && e.message@
                == "Cross-device directory moves are not supported. Copy manually and delete the source."@
        },
{
    if renamed {
        let text = concat4("Moved ", args.source.as_str(), " → ", args.destination.as_str());
        let summary = concat2("Moved to ", args.destination.as_str());
        MoveStep::Done(
            success_log(
                "move_file",
                "delete",
                Some(args.source.as_str()),
                summary.as_str(),
                text,
            ),
        )
    } else if source_is_file {
        MoveStep::CopyThenDelete
    } else {
        MoveStep::Refused(
            failure(
                ErrorKind::Io,
                "Cross-device directory moves are not supported. Copy manually and delete the source.".to_owned(),
            ),
        )
    }
}

/// The answer once a file was moved by copying it and deleting the
/// source.
pub fn move_copied_reply(args: &MoveFileParams) -> (reply: ToolReply)
    ensures
        is_reply(
            reply,
            "Moved "@ + args.source@ + " → "@ + args.destination@ + " (cross-device)"@,
            "move_file"@,
            "delete"@,
            Some(args.source@),
            "Moved to "@ + args.destination@,
        ),
{
    let text = concat4("Moved ", args.source.as_str(), " → ", args.destination.as_str());
    let text = concat2(text.as_str(), " (cross-device)");
    let summary = concat2("Moved to ", args.destination.as_str());
    success_log("move_file", "delete", Some(args.source.as_str()), summary.as_str(), text)
}

/// The answer once the file at `path` was written.
pub fn write_reply(path: &str) -> (reply: ToolReply)
    ensures
        is_reply(
            reply,
            "Successfully wrote to "@ + path@,
            "write_file"@,
            "write"@,
            Some(path@),
            "Wrote file: "@ + path@,
        ),
{
    let text = concat2("Successfully wrote to ", path);
    let summary = concat2("Wrote file: ", path);
    success_log("write_file", "write", Some(path), summary.as_str(), text)
}

/// The answer once `path` was deleted.
pub fn delete_reply(path: &str, action: DeleteAction) -> (reply: ToolReply)
    ensures
        is_reply(
            reply,
            match action {
                DeleteAction::RemoveFile => "Deleted file: "@ + path@,
                DeleteAction::RemoveEmptyDir => "Deleted empty directory: "@ + path@,
            },
            "delete_file"@,
            "delete"@,
            Some(path@),
            "Deleted file/dir"@,
        ),
{
    let text = match action {
        DeleteAction::RemoveFile => concat2("Deleted file: ", path),
        DeleteAction::RemoveEmptyDir => concat2("Deleted empty directory: ", path),
    };
    success_log("delete_file", "delete", Some(path), "Deleted file/dir", text)
}

/// The answer once `bytes` bytes were copied.
pub fn copy_reply(args: &MoveFileParams, bytes: u64) -> (reply: ToolReply)
    ensures
        is_reply(
            reply,
            "Copied "@ + args.source@ + " → "@ + args.destination@ + " ("@ + size_text(
                bytes as nat,
            ) + ")"@,
            "copy_file"@,
            "write"@,
            Some(args.destination@),
            "Copied from "@ + args.source@,
        ),
{
    let mut v = chars_of("Copied ");
    push_str(&mut v, args.source.as_str());
    push_str(&mut v, " → ");
    push_str(&mut v, args.destination.as_str());
    push_str(&mut v, " (");
    push_size(&mut v, bytes);
    push_str(&mut v, ")");
    let summary = concat2("Copied from ", args.source.as_str());
    success_log(
        "copy_file",
        "write",
        Some(args.destination.as_str()),
        summary.as_str(),
        string_of(&v),
    )
}

/// Patches `content`, which the file at `args.path` holds, and tells what
/// is to be written and answered.
///
/// The search-and-replace operations are carried out in the order given,
/// then the line operations from the highest start line to the lowest. An
/// operation at fault stops the patch before anything is written: a search
/// text that is meant as a regular expression and is none, or a line range
/// that is empty or inverted.
pub fn patch_file(args: &PatchFileParams, content: &str) -> (r: Result<PatchPlan, ToolError>)
    ensures
        if args.search_replace@.len() == 0 && args.line_replace@.len() == 0 {
            fails_with(
                r,
                ErrorKind::InvalidInput,
                "No operations provided. Provide at least one search_replace or line_replace operation."@,
            )
        } else if !none_fails(args.search_replace@, args.search_replace@.len() as int) {
            r matches Err(e) && e.kind == ErrorKind::MalformedPattern && exists|op: int|
                1 <= op <= args.search_replace@.len() && op_fails(
                    #[trigger] args.search_replace@[op - 1],
                ) && none_fails(args.search_replace@, op - 1) && e.message@
                    == "Invalid regex in operation "@ + decimal(op as nat) + ": "@
                    + regex_complaint(args.search_replace@[op - 1].search@)
        } else if !ranges_valid(
            ordered_ops(args.line_replace@),
            args.line_replace@.len() as int,
        ) {
            r matches Err(e) && e.kind == ErrorKind::InvalidInput && exists|k: int|
                0 <= k < args.line_replace@.len() && ranges_valid(
                    ordered_ops(args.line_replace@),
                    k,
                ) && !range_valid(#[trigger] ordered_ops(args.line_replace@)[k]) && e.message@
                    == "Invalid line range in line_replace op: "@ + decimal(
                    ordered_ops(args.line_replace@)[k].start_line as nat,
                ) + "-"@ + decimal(ordered_ops(args.line_replace@)[k].end_line as nat)
                    + " (1-indexed, start <= end)"@
        } else {
            r matches Ok(plan) && plan.content@ == patched_text(
                content@,
                args.search_replace@,
                args.line_replace@,
            ) && is_reply(
                plan.reply,
                patch_answer(
                    args.path@,
                    summary_lines(content@, args.search_replace@, args.line_replace@),
                    plan.content@,
                ),
                "patch_file"@,
                "write"@,
                Some(args.path@),
                "Patched file contents"@,
            )
        },
{
    match patch_text(content, &args.search_replace, &args.line_replace) {
        Err(PatchError::NoOperations) => Err(
            failure(
                ErrorKind::InvalidInput,
                "No operations provided. Provide at least one search_replace or line_replace operation.".to_owned(),
            ),
        ),
        Err(PatchError::InvalidRegex { op, detail }) => {
            let mut v = chars_of("Invalid regex in operation ");
            push_decimal(&mut v, op as u64);
            push_str(&mut v, ": ");
            push_str(&mut v, detail.as_str());
            assert(op_fails(args.search_replace@[op - 1]));
            Err(failure(ErrorKind::MalformedPattern, string_of(&v)))
        },
        Err(PatchError::InvalidRange { start_line, end_line }) => {
            let mut v = chars_of("Invalid line range in line_replace op: ");
            push_decimal(&mut v, start_line as u64);
            push_str(&mut v, "-");
            push_decimal(&mut v, end_line as u64);
            push_str(&mut v, " (1-indexed, start <= end)");
            proof {
                let ordered = ordered_ops(args.line_replace@);
                let k = choose|k: int|
                    0 <= k < args.line_replace@.len() && ranges_valid(ordered, k) && !range_valid(
                        #[trigger] ordered[k],
                    ) && ordered[k].start_line == start_line && ordered[k].end_line == end_line;
                assert(!range_valid(ordered[k]));
            }
            Err(failure(ErrorKind::InvalidInput, string_of(&v)))
        },
        Ok(patched) => {
            let mut v = chars_of("Patched ");
            push_str(&mut v, args.path.as_str());
            push_str(&mut v, "\n\n");
            let joined = join_strings(&patched.summary, "\n");
            push_str(&mut v, joined.as_str());
            push_str(&mut v, "\n\nFinal size: ");
            push_size(&mut v, byte_length(patched.content.as_str()) as u64);
            assert(strings(patched.summary@) =~= summary_lines(
                content@,
                args.search_replace@,
                args.line_replace@,
            ));
            let reply = success_log(
                "patch_file",
                "write",
                Some(args.path.as_str()),
                "Patched file contents",
                string_of(&v),
            );
            Ok(PatchPlan { content: patched.content, reply })
        },
    }
}

} // verus!
