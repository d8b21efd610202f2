//! The tools that read: a whole file, a range of its lines, its facts.

use vstd::prelude::*;
use crate::config::Permission;
use crate::encoding::{base64_standard, encode_base64, guess_media_type, media_type};
use crate::names::{file_name, file_name_of};
use crate::sandbox::{
    binary_name, is_binary_file, is_pdf, is_supported_extension, pdf_name, supported_name,
    validation, FolderProbe,
};
use crate::size::{as_double, nearest_double, push_size, push_two_decimals, size_text, two_decimals};
use crate::text::{
    byte_len, byte_length, concat3, join_strings, join_with, strings,
    chars_of, concat2, concat4, decimal, lines_of, padded_left, push_all, push_decimal,
    push_decimal_wide, push_padded_left, push_str, split_lines, string_of, texts,
};
use crate::tools::{
    fails_with, failure, is_reply, success_log, ErrorKind, Located, OmniDriveServer, PathKind,
    ToolError, ToolReply,
};

verus! {

/// How the content of a file is handed to an agent.
#[derive(Debug, Clone, Copy, PartialEq, Eq, Structural)]
pub enum ReadStrategy {
    /// The text is extracted from a PDF document.
    PdfText,
    /// The bytes are encoded as base64.
    Binary,
    /// The file is read as text.
    Text,
}

/// The strategy for a file of this name; `None` where files of its kind
/// are not shared.
pub open spec fn strategy_for(filename: Seq<char>) -> Option<ReadStrategy> {
    if pdf_name(filename) {
        Some(ReadStrategy::PdfText)
    } else if binary_name(filename) {
        Some(ReadStrategy::Binary)
    } else if supported_name(filename) {
        Some(ReadStrategy::Text)
    } else {
        None
    }
}

/// A file whose name is shared, and that is neither a PDF document nor
/// served as bytes, is read as text: what was written to it is what an
/// agent is handed.
pub proof fn lemma_text_files_are_read_as_text(filename: Seq<char>)
    requires
        supported_name(filename),
        !binary_name(filename),
    ensures
        strategy_for(filename) == Some(ReadStrategy::Text),
{
}

/// What is said of a file above the size limit.
pub open spec fn too_large_text(size: nat, limit_mb: nat) -> Seq<char> {
    "File too large: "@ + two_decimals(size, 1048576) + " MB (limit: "@ + decimal(limit_mb)
        + " MB). Use read_lines tool for partial reads."@
}

/// The text that stands for the bytes of a binary file.
pub open spec fn binary_text(path: Seq<char>, bytes: Seq<u8>) -> Seq<char> {
    "[Image/Binary content evaluated as base64]\ndata:"@ + media_type(path) + ";base64,"@
        + base64_standard(bytes)
}

/// The index of the first line shown and the index behind the last, for a
/// file of `total` lines.
///
/// With `tail`, the last `tail` lines. Else from `start_line`, counted from
/// 1 and held between 1 and one past the last line, to `end_line`, which
/// is 100 lines on where it is not given and the last line at most.
pub open spec fn line_range(
    total: int,
    start_line: Option<usize>,
    end_line: Option<usize>,
    tail: Option<usize>,
) -> (int, int) {
    match tail {
        Some(n) => if n < total {
            (total - n, total)
        } else {
            (0, total)
        },
        None => {
            let asked = match start_line {
                Some(s) => if s < 1 {
                    1
                } else {
                    s as int
                },
                None => 1,
            };
            let start = if asked > total + 1 {
                total
            } else {
                asked - 1
            };
            let until = match end_line {
                Some(e) => e as int,
                None => start + 100,
            };
            (
                start,
                if until > total {
                    total
                } else {
                    until
                },
            )
        },
    }
}

/// The numbered lines from index `from` up to `to`.
pub open spec fn numbered_lines(lines: Seq<Seq<char>>, from: int, to: int) -> Seq<char>
    decreases to - from,
{
    if to <= from {
        Seq::empty()
    } else {
        numbered_lines(lines, from, to - 1) + padded_left(decimal(to as nat), 6) + " | "@
            + lines[to - 1] + "\n"@
    }
}

/// The answer to a request for lines of the file `path` that holds
/// `content`. A range whose end lies before its start shows no line.
pub open spec fn lines_answer(
    path: Seq<char>,
    content: Seq<char>,
    start_line: Option<usize>,
    end_line: Option<usize>,
    tail: Option<usize>,
) -> Seq<char> {
    let lines = lines_of(content);
    let range = line_range(lines.len() as int, start_line, end_line, tail);
    "File: "@ + path + " ("@ + decimal(lines.len()) + " total lines)\nShowing lines "@
        + decimal((range.0 + 1) as nat) + "-"@ + decimal(range.1 as nat) + ":\n\n"@
        + numbered_lines(lines, range.0, range.1)
}

impl OmniDriveServer {
    /// Whether a file of `size` bytes is above the size limit: the size in
    /// mebibytes, as a double holds it, is greater than the limit.
    pub open spec fn above_limit(&self, size: u64) -> bool {
        nearest_double(size as nat) > self.config.max_file_size_mb * 1048576
    }

    /// Decides how the file at `path` is read. `file` tells what the disk
    /// holds there and `size` how many bytes.
    ///
    /// The path must pass the sandbox and be a file that is not above the
    /// size limit and whose kind is shared.
    pub fn read_plan(&self, path: &str, file: &Located, probes: &Vec<FolderProbe>, size: u64) -> (r:
        Result<ReadStrategy, ToolError>)
        ensures
            match validation(path@, file.absolute@, self.config.folders@, probes@) {
                Err(m) => fails_with(r, ErrorKind::SandboxDenial, m),
                Ok(_) => if file.kind != PathKind::File {
                    fails_with(r, ErrorKind::NotFound, "File not found: "@ + path@)
                } else if self.above_limit(size) {
                    fails_with(
                        r,
                        ErrorKind::SizeLimit,
                        too_large_text(size as nat, self.config.max_file_size_mb as nat),
                    )
                } else {
                    match strategy_for(file_name(file.absolute@)) {
                        Some(s) => r == Ok::<ReadStrategy, ToolError>(s),
                        None => fails_with(
                            r,
                            ErrorKind::UnsupportedType,
                            "Unsupported file type: "@ + file_name(file.absolute@),
                        ),
                    }
                },
            },
    {
        match self.check_readable(path, file.absolute.as_str(), probes) {
            Err(e) => {
                return Err(e);
            },
            Ok(_) => {},
        }
        match file.kind {
            PathKind::File => {},
            _ => {
                return Err(failure(ErrorKind::NotFound, concat2("File not found: ", path)));
            },
        }
        if as_double(size) > (self.config.max_file_size_mb as u128) * 1048576 {
            let mut v = chars_of("File too large: ");
            push_two_decimals(&mut v, size, 1048576);
            push_str(&mut v, " MB (limit: ");
            push_decimal(&mut v, self.config.max_file_size_mb as u64);
            push_str(&mut v, " MB). Use read_lines tool for partial reads.");
            return Err(failure(ErrorKind::SizeLimit, string_of(&v)));
        }
        let name = string_of(&file_name_of(&chars_of(file.absolute.as_str())));
        if is_pdf(name.as_str()) {
            Ok(ReadStrategy::PdfText)
        } else if is_binary_file(name.as_str()) {
            Ok(ReadStrategy::Binary)
        } else if is_supported_extension(name.as_str()) {
            Ok(ReadStrategy::Text)
        } else {
            Err(
                failure(
                    ErrorKind::UnsupportedType,
                    concat2("Unsupported file type: ", name.as_str()),
                ),
            )
        }
    }
}

/// The answer that hands `text` to the agent as the content of `path`:
/// the text of a file read as text, or the text extracted from a PDF. The
/// text goes out as it came in.
pub fn read_text_reply(path: &str, text: String) -> (reply: ToolReply)
    ensures
        is_reply(reply, text@, "read_file"@, "read"@, Some(path@), "Read file contents"@),
{
    success_log("read_file", "read", Some(path), "Read file contents", text)
}

/// The answer that hands the bytes of the binary file at `absolute` to the
/// agent, as base64 under the media type that its name suggests. Bytes
/// whose base64 text would not fit a string are refused.
pub fn read_binary_reply(path: &str, absolute: &str, bytes: &Vec<u8>) -> (r: Result<
    ToolReply,
    ToolError,
>)
    ensures
        if bytes.len() / 3 < usize::MAX / 4 {
            r matches Ok(reply) && is_reply(
                reply,
                binary_text(absolute@, bytes@),
                "read_file"@,
                "read"@,
                Some(path@),
                "Read file contents"@,
            )
        } else {
            fails_with(r, ErrorKind::SizeLimit, "File too large to encode: "@ + path@)
        },
{
    if bytes.len() / 3 >= usize::MAX / 4 {
        return Err(failure(ErrorKind::SizeLimit, concat2("File too large to encode: ", path)));
    }
    let mime = guess_media_type(absolute);
    let encoded = encode_base64(bytes);
    let text = concat4(
        "[Image/Binary content evaluated as base64]\ndata:",
        mime.as_str(),
        ";base64,",
        encoded.as_str(),
    );
    Ok(success_log("read_file", "read", Some(path), "Read file contents", text))
}

/// What a request for lines of a file asks.
pub struct ReadLinesParams {
    pub path: String,
    /// The first line, from 1; line 1 where it is not given.
    pub start_line: Option<usize>,
    /// The last line; 100 lines on from the first where it is not given.
    pub end_line: Option<usize>,
    /// The number of lines to show from the end of the file; where given,
    /// the two above are not looked at.
    pub tail: Option<usize>,
}

fn range_of(total: usize, args: &ReadLinesParams) -> (range: (usize, usize))
    ensures
        (range.0 as int, range.1 as int) == line_range(
            total as int,
            args.start_line,
            args.end_line,
            args.tail,
        ),
        range.0 <= total,
        range.1 <= total,
{
    match args.tail {
        Some(n) => if n < total {
            (total - n, total)
        } else {
            (0, total)
        },
        None => {
            let asked: usize = match args.start_line {
                Some(s) => if s < 1 {
                    1
                } else {
                    s
                },
                None => 1,
            };
            let start: usize = if asked > total {
                total
            } else {
                asked - 1
            };
            let end: usize = match args.end_line {
                Some(e) => if e > total {
                    total
                } else {
                    e
                },
                None => if total - start < 100 {
                    total
                } else {
                    start + 100
                },
            };
            (start, end)
        },
    }
}

impl OmniDriveServer {
    /// Shows lines of the file at `args.path`, which holds `content`:
    /// the range asked for, the last lines, or the first hundred.
    ///
    /// The path must pass the sandbox and be a file.
    pub fn read_lines(
        &self,
        args: &ReadLinesParams,
        file: &Located,
        probes: &Vec<FolderProbe>,
        content: &str,
    ) -> (r: Result<ToolReply, ToolError>)
        ensures
            match validation(args.path@, file.absolute@, self.config.folders@, probes@) {
                Err(m) => fails_with(r, ErrorKind::SandboxDenial, m),
                Ok(_) => if file.kind != PathKind::File {
                    fails_with(r, ErrorKind::NotFound, "File not found: "@ + args.path@)
                } else {
                    r matches Ok(reply) && is_reply(
                        reply,
                        lines_answer(
                            args.path@,
                            content@,
                            args.start_line,
                            args.end_line,
                            args.tail,
                        ),
                        "read_lines"@,
                        "read"@,
                        Some(args.path@),
                        "Read file lines"@,
                    )
                },
            },
    {
        match self.check_readable(args.path.as_str(), file.absolute.as_str(), probes) {
            Err(e) => {
                return Err(e);
            },
            Ok(_) => {},
        }
        match file.kind {
            PathKind::File => {},
            _ => {
                return Err(
                    failure(ErrorKind::NotFound, concat2("File not found: ", args.path.as_str())),
                );
            },
        }
        let lines = split_lines(&chars_of(content));
        let total: usize = lines.len();
        let (start, end) = range_of(total, args);
        let mut v = chars_of("File: ");
        push_str(&mut v, args.path.as_str());
        push_str(&mut v, " (");
        push_decimal(&mut v, total as u64);
        push_str(&mut v, " total lines)\nShowing lines ");
        push_decimal_wide(&mut v, (start as u128) + 1);
        push_str(&mut v, "-");
        push_decimal(&mut v, end as u64);
        push_str(&mut v, ":\n\n");
        let ghost header = v@;
        let mut k: usize = start;
        assert(v@ == header + numbered_lines(texts(lines@), start as int, k as int));
        while k < end
            invariant
                start <= k,
                k <= end || k == start,
                end <= lines.len(),
                v@ == header + numbered_lines(texts(lines@), start as int, k as int),
            decreases end - k,
        {
            let ghost before = v@;
            let mut number: Vec<char> = Vec::new();
            push_decimal_wide(&mut number, (k as u128) + 1);
            assert(number@ == decimal((k + 1) as nat));
            push_padded_left(&mut v, &number, 6);
            push_str(&mut v, " | ");
            push_all(&mut v, &lines[k]);
            push_str(&mut v, "\n");
            assert(texts(lines@)[k as int] == lines@[k as int]@);
            assert(v@ == header + numbered_lines(texts(lines@), start as int, k + 1));
            k += 1;
        }
        assert(end <= start ==> numbered_lines(texts(lines@), start as int, end as int)
            == Seq::<char>::empty());
        Ok(
            success_log(
                "read_lines",
                "read",
                Some(args.path.as_str()),
                "Read file lines",
                string_of(&v),
            ),
        )
    }
}


/// What the disk says of a path whose facts are asked for.
pub struct FileFacts {
    /// The size in bytes.
    pub size: u64,
    /// When the path was last changed, as text; `None` where the disk does
    /// not tell.
    pub modified: Option<String>,
    /// The content of a file whose lines are to be counted, where it could
    /// be read as text.
    pub content: Option<String>,
    /// The number of entries of a directory, where it could be read.
    pub children: Option<usize>,
}

/// Whether the lines of the file at `absolute` are counted: those of files
/// that are shared as text.
pub open spec fn counts_lines(absolute: Seq<char>) -> bool {
    supported_name(file_name(absolute)) && !binary_name(file_name(absolute))
}

/// Whether the lines of the file at `absolute` are counted.
pub fn wants_line_count(absolute: &str) -> (r: bool)
    ensures
        r == counts_lines(absolute@),
{
    let name = string_of(&file_name_of(&chars_of(absolute)));
    is_supported_extension(name.as_str()) && !is_binary_file(name.as_str())
}

/// The name of a kind of path.
pub open spec fn kind_text(kind: PathKind) -> Seq<char> {
    match kind {
        PathKind::File => "file"@,
        PathKind::Directory => "directory"@,
        _ => "symlink/other"@,
    }
}

/// The name of a permission.
pub open spec fn permission_text(permission: Permission) -> Seq<char> {
    match permission {
        Permission::ReadOnly => "read-only"@,
        Permission::ReadWrite => "read-write"@,
    }
}

/// The lines that only a file or only a directory has.
pub open spec fn detail_text(absolute: Seq<char>, kind: PathKind, facts: FileFacts) -> Seq<char> {
    match kind {
        PathKind::File => "MIME type: "@ + media_type(absolute) + "\n"@ + (match facts.content {
            Some(c) => if counts_lines(absolute) {
                "Line count: "@ + decimal(lines_of(c@).len()) + "\n"@
            } else {
                Seq::empty()
            },
            None => Seq::empty(),
        }),
        PathKind::Directory => match facts.children {
            Some(n) => "Children: "@ + decimal(n as nat) + " items\n"@,
            None => Seq::empty(),
        },
        _ => Seq::empty(),
    }
}

/// The facts of a path as they are told.
pub open spec fn info_text(
    path: Seq<char>,
    absolute: Seq<char>,
    kind: PathKind,
    permission: Permission,
    facts: FileFacts,
) -> Seq<char> {
    "Path: "@ + path + "\nType: "@ + kind_text(kind) + "\nSize: "@ + size_text(facts.size as nat)
        + " ("@ + decimal(facts.size as nat) + " bytes)\nModified: "@ + (match facts.modified {
        Some(m) => m@,
        None => "unknown"@,
    }) + "\nPermission: "@ + permission_text(permission) + "\n"@ + detail_text(
        absolute,
        kind,
        facts,
    )
}

impl OmniDriveServer {
    /// Tells the facts of the path `path`: kind, size, time of the last
    /// change, permission, and for a file its media type and, where it is
    /// shared as text, the number of its lines; for a directory the number
    /// of its entries.
    ///
    /// The path must pass the sandbox and exist.
    pub fn get_file_info(
        &self,
        path: &str,
        target: &Located,
        probes: &Vec<FolderProbe>,
        facts: &FileFacts,
    ) -> (r: Result<ToolReply, ToolError>)
        ensures
            match validation(path@, target.absolute@, self.config.folders@, probes@) {
                Err(m) => fails_with(r, ErrorKind::SandboxDenial, m),
                Ok(i) => if target.kind == PathKind::Missing {
                    fails_with(r, ErrorKind::NotFound, "Path not found: "@ + path@)
                } else {
                    r matches Ok(reply) && is_reply(
                        reply,
                        info_text(
                            path@,
                            target.absolute@,
                            target.kind,
                            self.config.folders@[i].permission,
                            *facts,
                        ),
                        "get_file_info"@,
                        "read"@,
                        Some(path@),
                        "Read file metadata"@,
                    )
                },
            },
    {
        let validated = match self.check_readable(path, target.absolute.as_str(), probes) {
            Err(e) => {
                return Err(e);
            },
            Ok(v) => v,
        };
        match target.kind {
            PathKind::Missing => {
                return Err(failure(ErrorKind::NotFound, concat2("Path not found: ", path)));
            },
            _ => {},
        }
        let mut v = chars_of("Path: ");
        push_str(&mut v, path);
        push_str(&mut v, "\nType: ");
        match target.kind {
            PathKind::File => push_str(&mut v, "file"),
            PathKind::Directory => push_str(&mut v, "directory"),
            _ => push_str(&mut v, "symlink/other"),
        }
        push_str(&mut v, "\nSize: ");
        push_size(&mut v, facts.size);
        push_str(&mut v, " (");
        push_decimal(&mut v, facts.size);
        push_str(&mut v, " bytes)\nModified: ");
        match &facts.modified {
            Some(m) => push_str(&mut v, m.as_str()),
            None => push_str(&mut v, "unknown"),
        }
        push_str(&mut v, "\nPermission: ");
        match validated.folder.permission {
            Permission::ReadOnly => push_str(&mut v, "read-only"),
            Permission::ReadWrite => push_str(&mut v, "read-write"),
        }
        push_str(&mut v, "\n");
        let mut detail: Vec<char> = Vec::new();
        match target.kind {
            PathKind::File => {
                let mime = guess_media_type(target.absolute.as_str());
                detail = chars_of("MIME type: ");
                push_str(&mut detail, mime.as_str());
                push_str(&mut detail, "\n");
                let ghost first = detail@;
                let mut count: Vec<char> = Vec::new();
                match &facts.content {
                    Some(c) => {
                        if wants_line_count(target.absolute.as_str()) {
                            let lines = split_lines(&chars_of(c.as_str()));
                            count = chars_of("Line count: ");
                            push_decimal(&mut count, lines.len() as u64);
                            push_str(&mut count, "\n");
                            assert(texts(lines@).len() == lines.len());
                        }
                    },
                    None => {},
                }
                push_all(&mut detail, &count);
            },
            PathKind::Directory => {
                match facts.children {
                    Some(n) => {
                        detail = chars_of("Children: ");
                        push_decimal(&mut detail, n as u64);
                        push_str(&mut detail, " items\n");
                    },
                    None => {},
                }
            },
            _ => {},
        }
        assert(detail@ =~= detail_text(target.absolute@, target.kind, *facts));
        push_all(&mut v, &detail);
        Ok(success_log("get_file_info", "read", Some(path), "Read file metadata", string_of(&v)))
    }
}


/// What a request for several files at once asks.
pub struct BatchReadParams {
    pub paths: Vec<String>,
    /// The most bytes of content that the answer holds in all.
    pub max_bytes: u64,
    /// The same limit in mebibytes, as it is shown to the agent.
    pub limit_label: String,
}

/// A request for several files under way.
pub struct BatchRead {
    /// The bytes of content recorded so far.
    pub total_bytes: u64,
    /// Whether a file was turned away because it would have taken the
    /// answer above its limit. From then on no file is read.
    pub exhausted: bool,
    /// One record for each path dealt with so far.
    pub results: Vec<String>,
}

/// The record of a path that is not read, with the reason.
pub open spec fn batch_note(path: Seq<char>, reason: Seq<char>) -> Seq<char> {
    "--- "@ + path + " ---\n"@ + reason + "\n"@
}

/// What is recorded of a path once it was tried to read its file.
pub open spec fn batch_content(path: Seq<char>, read: Result<String, String>) -> Seq<char> {
    match read {
        Ok(content) => batch_note(path, content@),
        Err(e) => batch_note(path, "ERROR: "@ + e@),
    }
}

/// The bytes recorded once `read` is added to `total`: those of the
/// content, held at the most that is counted.
pub open spec fn batch_total(total: u64, read: Result<String, String>) -> u64 {
    match read {
        Ok(content) => if total + byte_len(content@) > u64::MAX {
            u64::MAX
        } else {
            (total + byte_len(content@)) as u64
        },
        Err(_) => total,
    }
}

/// The answer of a request for several files.
pub open spec fn batch_answer(count: nat, total: u64, results: Seq<Seq<char>>) -> Seq<char> {
    "Batch read: "@ + decimal(count) + " file(s), "@ + size_text(total as nat) + "\n\n"@
        + join_with(results, "\n"@)
}

impl OmniDriveServer {
    /// Whether the file at `path` is one that could be read but for the
    /// limit of the answer: it passes the sandbox, is a file whose size the
    /// disk tells, and either that size would take the answer above its
    /// limit or an earlier file was turned away for that reason.
    pub open spec fn exceeds_budget(
        &self,
        args: &BatchReadParams,
        total: u64,
        exhausted: bool,
        path: Seq<char>,
        file: &Located,
        probes: Seq<FolderProbe>,
        size: Result<u64, String>,
    ) -> bool {
        validation(path, file.absolute@, self.config.folders@, probes) is Ok && file.kind
            == PathKind::File && (size matches Ok(n) && (exhausted || total + n
            > args.max_bytes))
    }

    /// Why the file at `path` is not read, as it is recorded: the path is
    /// denied, is no file, has no size that the disk tells, would take the
    /// answer above its limit or comes after a file that would have, or
    /// is binary. `None` where it is read.
    pub open spec fn batch_refusal(
        &self,
        args: &BatchReadParams,
        total: u64,
        exhausted: bool,
        path: Seq<char>,
        file: &Located,
        probes: Seq<FolderProbe>,
        size: Result<u64, String>,
    ) -> Option<Seq<char>> {
        match validation(path, file.absolute@, self.config.folders@, probes) {
            Err(m) => Some(batch_note(path, "ERROR: "@ + m)),
            Ok(_) => if file.kind != PathKind::File {
                Some(batch_note(path, "ERROR: Not a file"@))
            } else {
                match size {
                    Err(e) => Some(batch_note(path, "ERROR: "@ + e@)),
                    Ok(n) => if exhausted || total + n > args.max_bytes {
                        Some(
                            batch_note(
                                path,
                                "SKIPPED: Would exceed max_total_size_mb ("@
                                    + args.limit_label@ + " MB). Use a separate call."@,
                            ),
                        )
                    } else if binary_name(file_name(file.absolute@)) {
                        Some(
                            batch_note(
                                path,
                                "SKIPPED: Binary file. Use read_file for binary content."@,
                            ),
                        )
                    } else {
                        None
                    },
                }
            },
        }
    }

    /// Once a file was turned away for the limit of the answer, no later
    /// file is read.
    pub proof fn lemma_exhausted_reads_nothing(
        &self,
        args: &BatchReadParams,
        total: u64,
        path: Seq<char>,
        file: &Located,
        probes: Seq<FolderProbe>,
        size: Result<u64, String>,
    )
        ensures
            self.batch_refusal(args, total, true, path, file, probes, size) is Some,
    {
    }

    /// Decides whether the file at `path` is read, and records why where it
    /// is not. Returns whether it is read. A file that would take the
    /// answer above its limit is turned away, and so is every file after
    /// it.
    pub fn batch_check(
        &self,
        args: &BatchReadParams,
        state: &mut BatchRead,
        path: &str,
        file: &Located,
        probes: &Vec<FolderProbe>,
        size: &Result<u64, String>,
    ) -> (read: bool)
        ensures
            final(state).total_bytes == old(state).total_bytes,
            final(state).exhausted == self.exceeds_budget(
                args,
                old(state).total_bytes,
                old(state).exhausted,
                path@,
                file,
                probes@,
                *size,
            ) || old(state).exhausted,
            match self.batch_refusal(
                args,
                old(state).total_bytes,
                old(state).exhausted,
                path@,
                file,
                probes@,
                *size,
            ) {
                None => read && final(state).results@ == old(state).results@,
                Some(note) => !read && strings(final(state).results@) == strings(
                    old(state).results@,
                ).push(note),
            },
    {
        let ghost before = state.results@;
        let reason: String = match self.check_readable(path, file.absolute.as_str(), probes) {
            Err(e) => concat2("ERROR: ", e.message.as_str()),
            Ok(_) => {
                match file.kind {
                    PathKind::File => {
                        match size {
                            Err(e) => concat2("ERROR: ", e.as_str()),
                            Ok(n) => {
                                if state.exhausted || (state.total_bytes as u128) + (*n
                                    as u128) > args.max_bytes as u128 {
                                    state.exhausted = true;
                                    concat3(
                                        "SKIPPED: Would exceed max_total_size_mb (",
                                        args.limit_label.as_str(),
                                        " MB). Use a separate call.",
                                    )
                                } else {
                                    let name = string_of(
                                        &file_name_of(&chars_of(file.absolute.as_str())),
                                    );
                                    if is_binary_file(name.as_str()) {
                                        "SKIPPED: Binary file. Use read_file for binary content.".to_owned()
                                    } else {
                                        return true;
                                    }
                                }
                            },
                        }
                    },
                    _ => "ERROR: Not a file".to_owned(),
                }
            },
        };
        let note = concat4("--- ", path, " ---\n", reason.as_str());
        let note = concat2(note.as_str(), "\n");
        state.results.push(note);
        assert(strings(state.results@) =~= strings(before).push(note@));
        false
    }
}

/// Opens a request for several files: it must name at least one path and
/// at most fifty.
pub fn batch_begin(args: &BatchReadParams) -> (r: Result<BatchRead, ToolError>)
    ensures
        if args.paths@.len() == 0 {
            fails_with(
                r,
                ErrorKind::InvalidInput,
                "paths array is empty. Provide at least one file path."@,
            )
        } else if args.paths@.len() > 50 {
            fails_with(
                r,
                ErrorKind::InvalidInput,
                "Too many paths (max 50). Split into multiple calls."@,
            )
        } else {
            r matches Ok(state) && state.total_bytes == 0 && !state.exhausted
                && state.results@.len() == 0
        },
{
    if args.paths.len() == 0 {
        Err(
            failure(
                ErrorKind::InvalidInput,
                "paths array is empty. Provide at least one file path.".to_owned(),
            ),
        )
    } else if args.paths.len() > 50 {
        Err(
            failure(
                ErrorKind::InvalidInput,
                "Too many paths (max 50). Split into multiple calls.".to_owned(),
            ),
        )
    } else {
        Ok(BatchRead { total_bytes: 0, exhausted: false, results: Vec::new() })
    }
}

/// Records what came of reading the file at `path`: its content, whose
/// bytes are counted, or the error.
pub fn batch_record(state: &mut BatchRead, path: &str, read: &Result<String, String>)
    ensures
        final(state).total_bytes == batch_total(old(state).total_bytes, *read),
        final(state).exhausted == old(state).exhausted,
        strings(final(state).results@) == strings(old(state).results@).push(
            batch_content(path@, *read),
        ),
{
    let ghost before = state.results@;
    let body: String = match read {
        Ok(content) => {
            let n: usize = byte_length(content.as_str());
            state.total_bytes = if (state.total_bytes as u128) + (n as u128) > u64::MAX as u128 {
                u64::MAX
            } else {
                state.total_bytes + (n as u64)
            };
            content.clone()
        },
        Err(e) => concat2("ERROR: ", e.as_str()),
    };
    let note = concat4("--- ", path, " ---\n", body.as_str());
    let note = concat2(note.as_str(), "\n");
    state.results.push(note);
    assert(strings(state.results@) =~= strings(before).push(note@));
}

/// Ends a request for several files and answers.
pub fn batch_finish(args: &BatchReadParams, state: BatchRead) -> (reply: ToolReply)
    ensures
        is_reply(
            reply,
            batch_answer(args.paths@.len(), state.total_bytes, strings(state.results@)),
            "batch_read"@,
            "read"@,
            Some(decimal(args.paths@.len()) + " paths"@),
            "Batch read files"@,
        ),
{
    let mut v = chars_of("Batch read: ");
    push_decimal(&mut v, args.paths.len() as u64);
    push_str(&mut v, " file(s), ");
    push_size(&mut v, state.total_bytes);
    push_str(&mut v, "\n\n");
    let joined = join_strings(&state.results, "\n");
    push_str(&mut v, joined.as_str());
    let mut label: Vec<char> = Vec::new();
    push_decimal(&mut label, args.paths.len() as u64);
    push_str(&mut label, " paths");
    assert(label@ =~= decimal(args.paths@.len()) + " paths"@);
    let label = string_of(&label);
    success_log("batch_read", "read", Some(label.as_str()), "Batch read files", string_of(&v))
}

} // verus!
