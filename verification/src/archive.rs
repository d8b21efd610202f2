//! Archives: what goes into one under which name, and where each entry of
//! one may be extracted to.

use vstd::prelude::*;
use crate::names::{
    below, file_name, file_name_of, is_rooted, join_path, path_is_absolute, std_is_absolute,
};
use crate::sandbox::{
    is_separator, is_within, relative_part, skip_lead, validation, within, writable_validation,
    FolderProbe, ValidatedPath,
};
use crate::size::{push_size, size_text};
use crate::text::{
    chars_of, concat3, decimal, join_strings, join_with, push_all, push_decimal, push_str,
    slice_of, starts_with, string_of, strings,
};
use crate::tools::{
    admits, fails_with, failure, is_reply, success_log, ErrorKind, Located, OmniDriveServer,
    PathKind, ToolError, ToolReply,
};

verus! {

/// What the packing of an archive is asked.
pub struct ZipFilesParams {
    /// The files and directories that go into the archive.
    pub paths: Vec<String>,
    /// Where the archive is written.
    pub output_path: String,
}

/// What goes into an archive for one of the paths asked for.
pub enum ZipSource {
    /// The file itself, under this name.
    File { name: String },
    /// Every file below the directory, each as `zip_member` names it.
    Directory,
    /// Nothing: the path does not pass the sandbox, or is neither a file
    /// nor a directory. The note says which and goes into the answer;
    /// the packing goes on with the next path.
    Skipped { note: String },
}

/// What is done with one entry of an archive that is extracted.
pub enum ExtractStep {
    /// The entry is left out: it would not stay below the destination.
    Skip,
    /// The directory at this path is made.
    MakeDir(String),
    /// The file at this path is written.
    WriteFile(String),
}

/// Whether the component of `p` that starts at index `i` is `..`.
pub open spec fn parent_at(p: Seq<char>, i: int) -> bool {
    0 <= i && i + 2 <= p.len() && p[i] == '.' && p[i + 1] == '.' && (i == 0 || is_separator(
        p[i - 1],
    )) && (i + 2 == p.len() || is_separator(p[i + 2]))
}

/// Whether some component of `p` is `..`.
pub open spec fn has_parent_component(p: Seq<char>) -> bool {
    exists|i: int| parent_at(p, i)
}

/// Whether an entry of this name stays below the place it is extracted
/// to: the name does not start with a separator, is not absolute for the
/// platform, and none of its components is `..`.
pub open spec fn stays_inside(name: Seq<char>) -> bool {
    !is_rooted(name) && !(name.len() > 0 && name[0] == '\\') && !path_is_absolute(name)
        && !has_parent_component(name)
}

/// The name under which the file `member`, found below the directory
/// `root`, goes into an archive: its path as seen from `root`.
pub open spec fn member_name(root: Seq<char>, member: Seq<char>) -> Seq<char> {
    if within(member, root) {
        relative_part(member, root)
    } else {
        member
    }
}

/// The name under which a single file goes into an archive.
pub open spec fn single_name(absolute: Seq<char>) -> Seq<char> {
    if file_name(absolute).len() == 0 {
        "file"@
    } else {
        file_name(absolute)
    }
}

fn parent_component(p: &Vec<char>) -> (r: bool)
    ensures
        r == has_parent_component(p@),
{
    let mut i: usize = 0;
    while i < p.len()
        invariant
            i <= p.len(),
            forall|j: int| 0 <= j < i ==> !parent_at(p@, j),
        decreases p.len() - i,
    {
        if p[i] == '.' && p.len() - i >= 2 && p[i + 1] == '.' && (i == 0 || p[i - 1] == '/'
            || p[i - 1] == '\\') && (i + 2 == p.len() || p[i + 2] == '/' || p[i + 2] == '\\') {
            assert(parent_at(p@, i as int));
            return true;
        }
        i += 1;
    }
    false
}

/// Decides what is done with the entry `name` of an archive that is
/// extracted to `dest`, by its name as the archive holds it. An entry
/// whose name starts with a separator, is absolute or has a component
/// `..` is skipped; every other is made or written at its name below
/// `dest`.
pub fn unzip_entry(dest: &str, name: &str, is_dir: bool) -> (step: ExtractStep)
    ensures
        !stays_inside(name@) ==> step is Skip,
        stays_inside(name@) && is_dir ==> (step matches ExtractStep::MakeDir(p) && p@ == below(
            dest@,
            name@,
        )),
        stays_inside(name@) && !is_dir ==> (step matches ExtractStep::WriteFile(p) && p@
            == below(dest@, name@)),
{
    let n = chars_of(name);
    if (n.len() > 0 && (n[0] == '/' || n[0] == '\\')) || std_is_absolute(name)
        || parent_component(&n) {
        return ExtractStep::Skip;
    }
    let path = join_path(dest, name);
    if is_dir {
        ExtractStep::MakeDir(path)
    } else {
        ExtractStep::WriteFile(path)
    }
}

/// The path of an entry that is not skipped begins with the destination,
/// and what follows is the entry's name, none of whose components is
/// `..`: nothing is made or written outside the destination.
pub proof fn lemma_extraction_stays_inside(dest: Seq<char>, name: Seq<char>)
    requires
        stays_inside(name),
    ensures
        starts_with(below(dest, name), dest),
        below(dest, name).subrange(
            below(dest, name).len() - name.len(),
            below(dest, name).len() as int,
        ) == name,
        !has_parent_component(name),
        !is_rooted(name),
{
    let j = below(dest, name);
    assert(j.subrange(0, dest.len() as int) =~= dest);
    assert(j.subrange(j.len() - name.len(), j.len() as int) =~= name);
}

impl OmniDriveServer {
    /// Decides whether an archive may be packed: it must have a path to
    /// pack, and its output path must pass the sandbox as a path that is
    /// written.
    pub fn zip_files(&self, args: &ZipFilesParams, output: &str, probes: &Vec<FolderProbe>) -> (r:
        Result<ValidatedPath, ToolError>)
        ensures
            if args.paths@.len() == 0 {
                fails_with(r, ErrorKind::InvalidInput, "paths array is empty."@)
            } else {
                admits(
                    r,
                    writable_validation(
                        args.output_path@,
                        output@,
                        self.config.folders@,
                        probes@,
                    ),
                    output@,
                    self.config,
                )
            },
    {
        if args.paths.len() == 0 {
            return Err(failure(ErrorKind::InvalidInput, "paths array is empty.".to_owned()));
        }
        self.check_writable(args.output_path.as_str(), output, probes)
    }

    /// Decides what goes into the archive for `path`, one of the paths
    /// asked for: a file goes in under its name, a directory with every
    /// file below it. A path that does not pass the sandbox, or that is
    /// neither, is left out with a note, and the packing goes on.
    pub fn zip_source(&self, path: &str, source: &Located, probes: &Vec<FolderProbe>) -> (r:
        ZipSource)
        ensures
            match validation(path@, source.absolute@, self.config.folders@, probes@) {
                Err(m) => r matches ZipSource::Skipped { note } && note@ == zip_note(path@, m),
                Ok(_) => match source.kind {
                    PathKind::File => r matches ZipSource::File { name } && name@ == single_name(
                        source.absolute@,
                    ),
                    PathKind::Directory => r is Directory,
                    _ => r matches ZipSource::Skipped { note } && note@ == zip_note(
                        path@,
                        "Not a file or directory"@,
                    ),
                },
            },
    {
        match self.check_readable(path, source.absolute.as_str(), probes) {
            Err(e) => {
                return ZipSource::Skipped { note: zip_failure(path, e.message.as_str()) };
            },
            Ok(_) => {},
        }
        match source.kind {
            PathKind::File => {
                let name = file_name_of(&chars_of(source.absolute.as_str()));
                if name.len() == 0 {
                    ZipSource::File { name: "file".to_owned() }
                } else {
                    ZipSource::File { name: string_of(&name) }
                }
            },
            PathKind::Directory => ZipSource::Directory,
            _ => ZipSource::Skipped { note: zip_failure(path, "Not a file or directory") },
        }
    }

    /// Decides whether the file `member`, found below the directory `root`
    /// that is packed, goes into the archive, and under which name. A file
    /// that does not pass the sandbox is left out.
    pub fn zip_member(&self, root: &str, member: &str, probes: &Vec<FolderProbe>) -> (r: Option<
        String,
    >)
        ensures
            match validation(member@, member@, self.config.folders@, probes@) {
                Err(_) => r is None,
                Ok(_) => r matches Some(name) && name@ == member_name(root@, member@),
            },
    {
        match self.check_readable(member, member, probes) {
            Err(_) => {
                return None;
            },
            Ok(_) => {},
        }
        let m = chars_of(member);
        let base = chars_of(root);
        if !is_within(&m, &base) {
            return Some(string_of(&m));
        }
        let mut i: usize = base.len();
        while i < m.len() && (m[i] == '/' || m[i] == '\\' || (m[i] == '.' && (i + 1 == m.len()
            || m[i + 1] == '/' || m[i + 1] == '\\')))
            invariant
                base.len() <= i <= m.len(),
                skip_lead(m@, base.len() as int) == skip_lead(m@, i as int),
            decreases m.len() - i,
        {
            i += 1;
        }
        Some(string_of(&slice_of(&m, i, m.len())))
    }

    /// Decides whether the archive at `archive_path` may be extracted to
    /// `destination`: the archive must pass the sandbox, the destination
    /// must pass it as a path that is written. Returns the two paths,
    /// archive first.
    pub fn unzip_files(
        &self,
        archive_path: &str,
        destination: &str,
        archive_abs: &str,
        destination_abs: &str,
        probes: &Vec<FolderProbe>,
    ) -> (r: Result<(ValidatedPath, ValidatedPath), ToolError>)
        ensures
            match validation(archive_path@, archive_abs@, self.config.folders@, probes@) {
                Err(m) => fails_with(r, ErrorKind::SandboxDenial, m),
                Ok(i) => match writable_validation(
                    destination@,
                    destination_abs@,
                    self.config.folders@,
                    probes@,
                ) {
                    Err(m) => fails_with(r, ErrorKind::SandboxDenial, m),
                    Ok(j) => r matches Ok(pair) && pair.0.folder == self.config.folders@[i]
                        && pair.0.canonical_path@ == archive_abs@ && pair.1.folder
                        == self.config.folders@[j] && pair.1.canonical_path@
                        == destination_abs@,
                },
            },
    {
        let from = match self.check_readable(archive_path, archive_abs, probes) {
            Err(e) => {
                return Err(e);
            },
            Ok(v) => v,
        };
        let to = match self.check_writable(destination, destination_abs, probes) {
            Err(e) => {
                return Err(e);
            },
            Ok(v) => v,
        };
        Ok((from, to))
    }
}

/// The note on a path that did not go into an archive, with the reason.
pub open spec fn zip_note(path: Seq<char>, reason: Seq<char>) -> Seq<char> {
    path + ": "@ + reason
}

/// The note on a path that did not go into an archive, with the reason:
/// for a path that the disk refused as for one that the sandbox denied.
pub fn zip_failure(path: &str, reason: &str) -> (note: String)
    ensures
        note@ == zip_note(path@, reason@),
{
    concat3(path, ": ", reason)
}

/// The answer of a packing: the archive, the number of files in it and
/// its size, and below that one line for each path that was left out.
pub open spec fn zip_answer(
    output: Seq<char>,
    files: nat,
    size: Option<u64>,
    notes: Seq<Seq<char>>,
) -> Seq<char> {
    "Created zip archive: "@ + output + " ("@ + decimal(files) + " files, "@ + (match size {
        Some(n) => size_text(n as nat),
        None => Seq::empty(),
    }) + ")"@ + (if notes.len() == 0 {
        Seq::empty()
    } else {
        "\n\nSkipped:\n"@ + join_with(notes, "\n"@)
    })
}

/// The answer once an archive of `files` files was packed; `size` is its
/// size in bytes where the disk tells it, and `notes` holds one note for
/// each path that was left out.
pub fn zip_reply(args: &ZipFilesParams, files: u32, size: Option<u64>, notes: &Vec<String>) -> (reply:
    ToolReply)
    ensures
        is_reply(
            reply,
            zip_answer(args.output_path@, files as nat, size, strings(notes@)),
            "zip_files"@,
            "write"@,
            Some(args.output_path@),
            "Created zip archive"@,
        ),
{
    let mut v = chars_of("Created zip archive: ");
    push_str(&mut v, args.output_path.as_str());
    push_str(&mut v, " (");
    push_decimal(&mut v, files as u64);
    push_str(&mut v, " files, ");
    let ghost before = v@;
    match size {
        Some(n) => push_size(&mut v, n),
        None => {
            assert(v@ =~= before + Seq::<char>::empty());
        },
    }
    push_str(&mut v, ")");
    let ghost head = v@;
    if notes.len() > 0 {
        let mut tail = chars_of("\n\nSkipped:\n");
        let joined = join_strings(notes, "\n");
        push_str(&mut tail, joined.as_str());
        push_all(&mut v, &tail);
    } else {
        assert(v@ =~= head + Seq::<char>::empty());
    }
    success_log(
        "zip_files",
        "write",
        Some(args.output_path.as_str()),
        "Created zip archive",
        string_of(&v),
    )
}

/// The answer once `files` files were extracted to `destination`.
pub fn unzip_reply(destination: &str, files: u32) -> (reply: ToolReply)
    ensures
        is_reply(
            reply,
            "Extracted "@ + decimal(files as nat) + " files to "@ + destination@,
            "unzip_files"@,
            "write"@,
            Some(destination@),
            "Extracted zip archive"@,
        ),
{
    let mut v = chars_of("Extracted ");
    push_decimal(&mut v, files as u64);
    push_str(&mut v, " files to ");
    push_str(&mut v, destination);
    success_log("unzip_files", "write", Some(destination), "Extracted zip archive", string_of(&v))
}

} // verus!
