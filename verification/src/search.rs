//! Search for files by name: which globs are run, which of the paths they
//! find are reported, and how.

use vstd::prelude::*;
use crate::config::SharedFolder;
use crate::sandbox::{validation, FolderProbe};
use crate::text::{
    chars_of, decimal, has_char, has_prefix, join_strings, join_with, push_all, push_decimal,
    push_str, starts_with, string_of, strings, trim, trimmed,
};
use crate::tools::{is_reply, success_log, OmniDriveServer, ToolReply};

verus! {

/// What a search by name is asked.
pub struct SearchFilesParams {
    /// A glob. Without a separator it is looked for at any depth.
    pub pattern: String,
    /// Where given, only folders that lie in this path, or that it lies
    /// in, are searched.
    pub root_path: Option<String>,
}

/// The most paths that a search reports.
pub open spec fn search_limit() -> int {
    100
}

/// Whether `folder` is searched: it is enabled and, where a root is given,
/// one of the two paths begins with the other.
pub open spec fn searches(folder: SharedFolder, root: Option<String>) -> bool {
    folder.enabled && match root {
        Some(r) => starts_with(folder.path@, r@) || starts_with(r@, folder.path@),
        None => true,
    }
}

/// The glob that is run in the folder at `folder_path`.
pub open spec fn folder_glob(folder_path: Seq<char>, pattern: Seq<char>) -> Seq<char> {
    let p = trimmed(pattern);
    if p.contains('/') || p.contains('\\') {
        folder_path + "/"@ + p
    } else {
        folder_path + "/**/"@ + p
    }
}

/// The globs for those of the first `n` folders that are searched, in the
/// order of the configuration.
pub open spec fn globs_of(folders: Seq<SharedFolder>, args: &SearchFilesParams, n: int) -> Seq<
    Seq<char>,
>
    decreases n,
{
    if n <= 0 {
        Seq::empty()
    } else if searches(folders[n - 1], args.root_path) {
        globs_of(folders, args, n - 1).push(folder_glob(folders[n - 1].path@, args.pattern@))
    } else {
        globs_of(folders, args, n - 1)
    }
}

/// The first hundred of `found` and, where there are more, a line that
/// tells how many.
pub open spec fn capped(found: Seq<Seq<char>>) -> Seq<Seq<char>> {
    if found.len() > search_limit() {
        found.subrange(0, search_limit()).push(
            "... and "@ + decimal((found.len() - search_limit()) as nat) + " more results"@,
        )
    } else {
        found
    }
}

/// The answer of a search that found `found`.
pub open spec fn search_answer(found: Seq<Seq<char>>) -> Seq<char> {
    if found.len() == 0 {
        "No matching files found."@
    } else {
        join_with(capped(found), "\n"@)
    }
}

impl OmniDriveServer {
    /// The globs to run, one for each folder that is searched.
    pub fn search_globs(&self, args: &SearchFilesParams) -> (globs: Vec<String>)
        ensures
            strings(globs@) == globs_of(
                self.config.folders@,
                args,
                self.config.folders@.len() as int,
            ),
    {
        let pattern = trim(&chars_of(args.pattern.as_str()));
        let exact = has_char(&pattern, '/') || has_char(&pattern, '\\');
        let mut globs: Vec<String> = Vec::new();
        let mut i: usize = 0;
        assert(strings(globs@) =~= globs_of(self.config.folders@, args, 0));
        while i < self.config.folders.len()
            invariant
                i <= self.config.folders.len(),
                pattern@ == trimmed(args.pattern@),
                exact == (pattern@.contains('/') || pattern@.contains('\\')),
                strings(globs@) == globs_of(self.config.folders@, args, i as int),
            decreases self.config.folders.len() - i,
        {
            let folder = &self.config.folders[i];
            let path = chars_of(folder.path.as_str());
            let wanted = folder.enabled && match &args.root_path {
                Some(r) => {
                    let root = chars_of(r.as_str());
                    has_prefix(&path, &root) || has_prefix(&root, &path)
                },
                None => true,
            };
            if wanted {
                let ghost before = globs@;
                let mut glob = chars_of(folder.path.as_str());
                if exact {
                    push_str(&mut glob, "/");
                } else {
                    push_str(&mut glob, "/**/");
                }
                push_all(&mut glob, &pattern);
                let text = string_of(&glob);
                globs.push(text);
                assert(strings(globs@) =~= strings(before).push(text@));
            }
            i += 1;
        }
        globs
    }

    /// Whether a path that a glob found is reported: it must be a file and
    /// pass the sandbox.
    pub fn search_accepts(&self, path: &str, is_file: bool, probes: &Vec<FolderProbe>) -> (r: bool)
        ensures
            r == (is_file && validation(path@, path@, self.config.folders@, probes@) is Ok),
    {
        is_file && self.check_readable(path, path, probes).is_ok()
    }
}

/// The answer of a search that found the paths `found`, in the order in
/// which they were found.
pub fn search_reply(args: &SearchFilesParams, found: Vec<String>) -> (reply: ToolReply)
    ensures
        is_reply(
            reply,
            search_answer(strings(found@)),
            "search_files"@,
            "read"@,
            Some(args.pattern@),
            "Searched files"@,
        ),
{
    let mut found = found;
    let ghost all = found@;
    let text: String = if found.len() == 0 {
        "No matching files found.".to_owned()
    } else {
        if found.len() > 100 {
            let extra: usize = found.len() - 100;
            found.truncate(100);
            let mut v = chars_of("... and ");
            push_decimal(&mut v, extra as u64);
            push_str(&mut v, " more results");
            let line = string_of(&v);
            found.push(line);
            assert(strings(found@) =~= capped(strings(all)));
        }
        join_strings(&found, "\n")
    };
    success_log(
        "search_files",
        "read",
        Some(args.pattern.as_str()),
        "Searched files",
        text,
    )
}

} // verus!
