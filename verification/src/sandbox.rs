//! The path sandbox: whether a path lies in a shared folder that is
//! enabled, and is not excluded by that folder's rules.
//!
//! The sandbox decides on text. What only the disk can tell is handed in:
//! the absolute form of the path asked for, and for each folder of the
//! configuration a `FolderProbe`.

use vstd::prelude::*;
use crate::config::{copy_folder, AppConfig, Permission, SharedFolder};
use crate::file_filter::{bare_name, is_bare_name, is_image_extension};
use crate::names::{extension, extension_of, file_name, file_name_of};
use crate::pattern::{compile_glob, glob_accepts, glob_compiles, glob_matches};
use crate::text::{
    chars_of, concat2, concat3, concat5, contains_text, has_char, has_prefix, has_text,
    lines_of, lowercase, lowered, push_all, push_str, same_str, slice_of, split_lines,
    starts_with, string_of, text_of_bytes, texts, trim, trimmed,
};

verus! {

/// What the disk says of one shared folder at the time of a check.
pub struct FolderProbe {
    /// The canonical form of the folder's path; `None` where the path
    /// cannot be resolved, which keeps the folder out of every match.
    pub canonical_root: Option<String>,
    /// The text of the exclusion file at the folder's root; `None` where
    /// there is none or it cannot be read.
    pub ignore_rules: Option<String>,
}

/// A path that passed the sandbox: the folder it lies in and its absolute
/// form.
pub struct ValidatedPath {
    pub folder: SharedFolder,
    pub canonical_path: String,
}

/// The characters that end a path component.
pub open spec fn is_separator(c: char) -> bool {
    c == '/' || c == '\\'
}

/// `target` is `root` itself or `root` followed by a separator and more.
pub open spec fn within(target: Seq<char>, root: Seq<char>) -> bool {
    starts_with(target, root) && (target.len() == root.len() || is_separator(
        target[root.len() as int],
    ))
}

/// `target` holds two dots in a row.
pub open spec fn has_traversal(target: Seq<char>) -> bool {
    contains_text(target, ".."@)
}

/// The index at or after `from` where the first component of `s` starts
/// that is not the single dot: separators and such dots are passed over.
pub open spec fn skip_lead(s: Seq<char>, from: int) -> int
    decreases s.len() - from,
{
    if from < 0 || from >= s.len() {
        s.len() as int
    } else if is_separator(s[from]) {
        skip_lead(s, from + 1)
    } else if s[from] == '.' && (from + 1 == s.len() || is_separator(s[from + 1])) {
        skip_lead(s, from + 1)
    } else {
        from
    }
}

/// The path of `target` as seen from `root`: what follows the root,
/// without leading separators.
pub open spec fn relative_part(target: Seq<char>, root: Seq<char>) -> Seq<char> {
    target.subrange(skip_lead(target, root.len() as int), target.len() as int)
}

/// The glob that one line of an exclusion file stands for. Blank lines and
/// lines that start with `#` stand for none; a name without `/` matches at
/// any depth.
pub open spec fn rule_pattern(line: Seq<char>) -> Option<Seq<char>> {
    let p = trimmed(line);
    if p.len() == 0 || p[0] == '#' {
        None
    } else if p.contains('/') {
        Some(p)
    } else {
        Some("**/"@ + p)
    }
}

/// The end of `p[..end]` once final `/` are dropped.
pub open spec fn slashless_end(p: Seq<char>, end: int) -> int
    decreases end,
{
    if end <= 0 || end > p.len() {
        0
    } else if p[end - 1] == '/' {
        slashless_end(p, end - 1)
    } else {
        end
    }
}

/// The glob for everything beneath what `glob` matches.
pub open spec fn deep_pattern(glob: Seq<char>) -> Seq<char> {
    glob.subrange(0, slashless_end(glob, glob.len() as int)) + "/**"@
}

/// Whether one line of an exclusion file excludes `relative`: its glob
/// matches the path, or a directory above it. A line that is no valid glob
/// excludes nothing.
pub open spec fn rule_excludes(line: Seq<char>, relative: Seq<char>) -> bool {
    match rule_pattern(line) {
        None => false,
        Some(g) => glob_compiles(g) && (glob_accepts(g, relative) || (glob_compiles(
            deep_pattern(g),
        ) && glob_accepts(deep_pattern(g), relative))),
    }
}

/// Whether some line of the exclusion file `rules` excludes `relative`.
pub open spec fn rules_exclude(rules: Seq<char>, relative: Seq<char>) -> bool {
    exists|i: int|
        0 <= i < lines_of(rules).len() && rule_excludes(#[trigger] lines_of(rules)[i], relative)
}

/// Whether the rules at `root` exclude `target`.
pub open spec fn ignored(target: Seq<char>, root: Seq<char>, rules: Seq<char>) -> bool {
    within(target, root) && rules_exclude(rules, relative_part(target, root))
}

/// The index of the first line feed of `bytes` at or after `from`, or the
/// length of `bytes`.
pub open spec fn byte_line_end(bytes: Seq<u8>, from: int) -> int
    decreases bytes.len() - from,
{
    if from < 0 || from >= bytes.len() {
        bytes.len() as int
    } else if bytes[from] == 0x0A {
        from
    } else {
        byte_line_end(bytes, from + 1)
    }
}

/// What one line of an exclusion file adds to its rules: the line as
/// text, ended by a line feed, or nothing where the line is no text.
pub open spec fn rule_line(line: Seq<u8>) -> Seq<char> {
    if vstd::utf8::valid_utf8(line) {
        vstd::utf8::decode_utf8(line).push('\n')
    } else {
        Seq::empty()
    }
}

/// The rules that the bytes of an exclusion file hold from index `from`
/// on.
pub open spec fn rules_from(bytes: Seq<u8>, from: int) -> Seq<char>
    decreases bytes.len() - from,
{
    if from < 0 || from > bytes.len() {
        Seq::empty()
    } else {
        let e = byte_line_end(bytes, from);
        if from <= e < bytes.len() {
            rule_line(bytes.subrange(from, e)) + rules_from(bytes, e + 1)
        } else {
            rule_line(bytes.subrange(from, bytes.len() as int))
        }
    }
}

/// The rules that an exclusion file holds, as text: its lines, which line
/// feeds end, one by one; a line that is not UTF-8 is left out, and does
/// not keep the lines around it from being read.
pub fn exclusion_rules(bytes: &Vec<u8>) -> (rules: String)
    ensures
        rules@ == rules_from(bytes@, 0),
{
    let mut out: Vec<char> = Vec::new();
    let mut from: usize = 0;
    assert(out@ + rules_from(bytes@, 0) == rules_from(bytes@, 0));
    loop
        invariant
            from <= bytes.len(),
            out@ + rules_from(bytes@, from as int) == rules_from(bytes@, 0),
        decreases bytes.len() - from,
    {
        let mut line: Vec<u8> = Vec::new();
        let mut e: usize = from;
        while e < bytes.len() && bytes[e] != 0x0A
            invariant
                from <= e <= bytes.len(),
                byte_line_end(bytes@, from as int) == byte_line_end(bytes@, e as int),
                line@ == bytes@.subrange(from as int, e as int),
            decreases bytes.len() - e,
        {
            line.push(bytes[e]);
            assert(line@ =~= bytes@.subrange(from as int, e + 1));
            e += 1;
        }
        let ghost before = out@;
        match text_of_bytes(&line) {
            Some(text) => {
                push_str(&mut out, text.as_str());
                out.push('\n');
                assert(out@ =~= before + rule_line(line@));
            },
            None => {
                assert(out@ =~= before + rule_line(line@));
            },
        }
        if e >= bytes.len() {
            return string_of(&out);
        }
        from = e + 1;
    }
}

/// Whether `target` is `root` or lies beneath it.
pub fn is_within(target: &Vec<char>, root: &Vec<char>) -> (r: bool)
    ensures
        r == within(target@, root@),
{
    if !has_prefix(target, root) {
        return false;
    }
    if target.len() == root.len() {
        return true;
    }
    let c = target[root.len()];
    c == '/' || c == '\\'
}

fn relative_of(target: &Vec<char>, root: &Vec<char>) -> (rel: Vec<char>)
    requires
        root.len() <= target.len(),
    ensures
        rel@ == relative_part(target@, root@),
{
    let mut i: usize = root.len();
    while i < target.len() && (target[i] == '/' || target[i] == '\\' || (target[i] == '.' && (i
        + 1 == target.len() || target[i + 1] == '/' || target[i + 1] == '\\')))
        invariant
            root.len() <= i <= target.len(),
            skip_lead(target@, root.len() as int) == skip_lead(target@, i as int),
        decreases target.len() - i,
    {
        i += 1;
    }
    slice_of(target, i, target.len())
}

fn line_excludes(line: &Vec<char>, relative: &str) -> (r: bool)
    ensures
        r == rule_excludes(line@, relative@),
{
    let p = trim(line);
    if p.len() == 0 || p[0] == '#' {
        return false;
    }
    let mut glob: Vec<char> = Vec::new();
    if has_char(&p, '/') {
        push_all(&mut glob, &p);
        assert(glob@ == p@);
    } else {
        glob = chars_of("**/");
        push_all(&mut glob, &p);
    }
    let glob_text = string_of(&glob);
    match compile_glob(glob_text.as_str()) {
        Err(_) => false,
        Ok(compiled) => {
            if glob_matches(&compiled, relative) {
                return true;
            }
            let mut e: usize = glob.len();
            while e > 0 && glob[e - 1] == '/'
                invariant
                    e <= glob.len(),
                    slashless_end(glob@, glob.len() as int) == slashless_end(glob@, e as int),
                decreases e,
            {
                e -= 1;
            }
            let mut deep = slice_of(&glob, 0, e);
            push_str(&mut deep, "/**");
            let deep_text = string_of(&deep);
            match compile_glob(deep_text.as_str()) {
                Err(_) => false,
                Ok(compiled_deep) => glob_matches(&compiled_deep, relative),
            }
        },
    }
}

/// Whether the exclusion rules `rules`, read at `folder_root`, exclude
/// `target`. A target that does not lie in the folder is not excluded.
pub fn is_ignored(target: &str, folder_root: &str, rules: &str) -> (r: bool)
    ensures
        r == ignored(target@, folder_root@, rules@),
{
    let t = chars_of(target);
    let root = chars_of(folder_root);
    if !is_within(&t, &root) {
        return false;
    }
    let relative = string_of(&relative_of(&t, &root));
    let lines = split_lines(&chars_of(rules));
    let mut i: usize = 0;
    while i < lines.len()
        invariant
            i <= lines.len(),
            texts(lines@) == lines_of(rules@),
            within(target@, folder_root@),
            relative@ == relative_part(target@, folder_root@),
            forall|j: int|
                0 <= j < i ==> !rule_excludes(#[trigger] lines_of(rules@)[j], relative@),
        decreases lines.len() - i,
    {
        assert(lines_of(rules@)[i as int] == lines@[i as int]@) by {
            assert(texts(lines@)[i as int] == lines@[i as int]@);
        }
        if line_excludes(&lines[i], relative.as_str()) {
            assert(rule_excludes(lines_of(rules@)[i as int], relative@));
            return true;
        }
        i += 1;
    }
    false
}

/// The root under which folder `i` is matched: that of its probe, where
/// the folder is enabled and its path could be resolved.
pub open spec fn match_root(folders: Seq<SharedFolder>, probes: Seq<FolderProbe>, i: int) -> Option<
    Seq<char>,
> {
    if 0 <= i < folders.len() && i < probes.len() && folders[i].enabled {
        match probes[i].canonical_root {
            Some(root) => Some(root@),
            None => None,
        }
    } else {
        None
    }
}

/// Whether `target` lies in folder `i`.
pub open spec fn folder_matches(
    target: Seq<char>,
    folders: Seq<SharedFolder>,
    probes: Seq<FolderProbe>,
    i: int,
) -> bool {
    match match_root(folders, probes, i) {
        Some(root) => within(target, root),
        None => false,
    }
}

/// Whether the rules of folder `i` exclude `target`.
pub open spec fn folder_excludes(
    target: Seq<char>,
    folders: Seq<SharedFolder>,
    probes: Seq<FolderProbe>,
    i: int,
) -> bool {
    match (match_root(folders, probes, i), probes[i].ignore_rules) {
        (Some(root), Some(rules)) => ignored(target, root, rules@),
        _ => false,
    }
}

/// The first folder at or after `from`, in the order of the
/// configuration, in which `target` lies.
pub open spec fn first_match(
    target: Seq<char>,
    folders: Seq<SharedFolder>,
    probes: Seq<FolderProbe>,
    from: int,
) -> Option<int>
    decreases folders.len() - from,
{
    if from < 0 || from >= folders.len() {
        None
    } else if folder_matches(target, folders, probes, from) {
        Some(from)
    } else {
        first_match(target, folders, probes, from + 1)
    }
}

/// What is said of a path that holds two dots in a row.
pub open spec fn traversal_message(path: Seq<char>) -> Seq<char> {
    "Access denied: Path traversal characters '..' are not allowed: "@ + path
}

/// What is said of a path that a folder's rules exclude.
pub open spec fn excluded_message(path: Seq<char>) -> Seq<char> {
    "Access denied: '"@ + path + "' is excluded by .mcpignore rules."@
}

/// What is said of a path that lies in no shared folder.
pub open spec fn outside_message(path: Seq<char>) -> Seq<char> {
    "Access denied: Path '"@ + path + "' is not within any shared folder."@
}

/// What is said of a write into a folder that is shared read-only.
pub open spec fn read_only_message(path: Seq<char>, folder_path: Seq<char>) -> Seq<char> {
    "Write access denied: '"@ + path + "' is in a read-only shared folder. The folder '"@
        + folder_path + "' must be set to Read/Write mode in OmniDrive."@
}

/// What is said where a path that is to be moved or deleted does not
/// exist.
pub open spec fn missing_message(path: Seq<char>) -> Seq<char> {
    "Path not found: '"@ + path
        + "'. Cannot perform destructive operation on a non-existent path."@
}

/// The decision on `target`, the absolute form of the path `path`: the
/// index of the folder it lies in, or the reason why it is denied.
///
/// A path with two dots in a row is denied. Else the first enabled folder
/// whose resolved root the path lies in decides: the path is denied where
/// that folder's rules exclude it and allowed where they do not. A path
/// that lies in no such folder is denied.
pub open spec fn validation(
    path: Seq<char>,
    target: Seq<char>,
    folders: Seq<SharedFolder>,
    probes: Seq<FolderProbe>,
) -> Result<int, Seq<char>> {
    if has_traversal(target) {
        Err(traversal_message(path))
    } else {
        match first_match(target, folders, probes, 0) {
            None => Err(outside_message(path)),
            Some(i) => if folder_excludes(target, folders, probes, i) {
                Err(excluded_message(path))
            } else {
                Ok(i)
            },
        }
    }
}

/// The decision on a path that is to be written: as `validation`, and the
/// folder must be shared for reading and writing.
pub open spec fn writable_validation(
    path: Seq<char>,
    target: Seq<char>,
    folders: Seq<SharedFolder>,
    probes: Seq<FolderProbe>,
) -> Result<int, Seq<char>> {
    match validation(path, target, folders, probes) {
        Err(m) => Err(m),
        Ok(i) => if folders[i].permission == Permission::ReadWrite {
            Ok(i)
        } else {
            Err(read_only_message(path, folders[i].path@))
        },
    }
}

/// The decision on a path that is to be moved or deleted: as
/// `writable_validation`, and the path must exist.
pub open spec fn destructive_validation(
    path: Seq<char>,
    target: Seq<char>,
    folders: Seq<SharedFolder>,
    probes: Seq<FolderProbe>,
    exists: bool,
) -> Result<int, Seq<char>> {
    match writable_validation(path, target, folders, probes) {
        Err(m) => Err(m),
        Ok(i) => if exists {
            Ok(i)
        } else {
            Err(missing_message(path))
        },
    }
}

/// `r` is what `decision` says: the folder named and the target as the
/// path, or the message.
pub open spec fn carries(
    r: Result<ValidatedPath, String>,
    decision: Result<int, Seq<char>>,
    target: Seq<char>,
    folders: Seq<SharedFolder>,
) -> bool {
    match decision {
        Ok(i) => r matches Ok(v) && 0 <= i < folders.len() && v.folder == folders[i]
            && v.canonical_path@ == target,
        Err(m) => r matches Err(e) && e@ == m,
    }
}



/// Decides whether `path` may be touched at all. `target_abs` is the
/// absolute form of `path`, made without resolving links and whether or
/// not anything exists there; `probes` holds, folder by folder, what the
/// disk says of the folders of `config`.
pub fn validate_path(
    path: &str,
    target_abs: &str,
    config: &AppConfig,
    probes: &Vec<FolderProbe>,
) -> (r: Result<ValidatedPath, String>)
    ensures
        carries(
            r,
            validation(path@, target_abs@, config.folders@, probes@),
            target_abs@,
            config.folders@,
        ),
{
    let target = chars_of(target_abs);
    if has_text(&target, &chars_of("..")) {
        return Err(
            concat2("Access denied: Path traversal characters '..' are not allowed: ", path),
        );
    }
    let mut i: usize = 0;
    while i < config.folders.len()
        invariant
            i <= config.folders.len(),
            target@ == target_abs@,
            !has_traversal(target_abs@),
            first_match(target_abs@, config.folders@, probes@, 0) == first_match(
                target_abs@,
                config.folders@,
                probes@,
                i as int,
            ),
        decreases config.folders.len() - i,
    {
        let folder = &config.folders[i];
        if folder.enabled && i < probes.len() {
            let probe = &probes[i];
            match &probe.canonical_root {
                None => {},
                Some(root_text) => {
                    let root = chars_of(root_text.as_str());
                    if is_within(&target, &root) {
                        let excluded = match &probe.ignore_rules {
                            None => false,
                            Some(rules) => is_ignored(
                                target_abs,
                                root_text.as_str(),
                                rules.as_str(),
                            ),
                        };
                        if excluded {
                            return Err(
                                concat3(
                                    "Access denied: '",
                                    path,
                                    "' is excluded by .mcpignore rules.",
                                ),
                            );
                        }
                        return Ok(
                            ValidatedPath {
                                folder: copy_folder(folder),
                                canonical_path: string_of(&target),
                            },
                        );
                    }
                },
            }
        }
        i += 1;
    }
    Err(concat3("Access denied: Path '", path, "' is not within any shared folder."))
}



/// Decides whether `path` may be written: it must pass `validate_path`,
/// and its folder must be shared for reading and writing.
pub fn validate_writable(
    path: &str,
    target_abs: &str,
    config: &AppConfig,
    probes: &Vec<FolderProbe>,
) -> (r: Result<ValidatedPath, String>)
    ensures
        carries(
            r,
            writable_validation(path@, target_abs@, config.folders@, probes@),
            target_abs@,
            config.folders@,
        ),
{
    match validate_path(path, target_abs, config, probes) {
        Err(m) => Err(m),
        Ok(validated) => {
            match validated.folder.permission {
                Permission::ReadWrite => Ok(validated),
                Permission::ReadOnly => Err(
                    concat5(
                        "Write access denied: '",
                        path,
                        "' is in a read-only shared folder. The folder '",
                        validated.folder.path.as_str(),
                        "' must be set to Read/Write mode in OmniDrive.",
                    ),
                ),
            }
        },
    }
}

/// Decides whether `path` may be moved or deleted: it must pass
/// `validate_writable`, and something must exist there, which `exists`
/// tells.
pub fn validate_destructive(
    path: &str,
    target_abs: &str,
    config: &AppConfig,
    probes: &Vec<FolderProbe>,
    exists: bool,
) -> (r: Result<ValidatedPath, String>)
    ensures
        carries(
            r,
            destructive_validation(path@, target_abs@, config.folders@, probes@, exists),
            target_abs@,
            config.folders@,
        ),
{
    match validate_writable(path, target_abs, config, probes) {
        Err(m) => Err(m),
        Ok(validated) => {
            if exists {
                Ok(validated)
            } else {
                Err(
                    concat3(
                        "Path not found: '",
                        path,
                        "'. Cannot perform destructive operation on a non-existent path.",
                    ),
                )
            }
        },
    }
}

/// A path that lies in no enabled folder whose root could be resolved is
/// denied, whatever the folders that are disabled.
pub proof fn lemma_outside_is_denied(
    path: Seq<char>,
    target: Seq<char>,
    folders: Seq<SharedFolder>,
    probes: Seq<FolderProbe>,
)
    requires
        forall|i: int|
            0 <= i < folders.len() && folders[i].enabled ==> !folder_matches(
                target,
                folders,
                probes,
                i,
            ),
    ensures
        validation(path, target, folders, probes) is Err,
        writable_validation(path, target, folders, probes) is Err,
{
    lemma_no_match(target, folders, probes, 0);
}

proof fn lemma_no_match(
    target: Seq<char>,
    folders: Seq<SharedFolder>,
    probes: Seq<FolderProbe>,
    from: int,
)
    requires
        0 <= from,
        forall|i: int| from <= i < folders.len() ==> !folder_matches(target, folders, probes, i),
    ensures
        first_match(target, folders, probes, from) is None,
    decreases folders.len() - from,
{
    if from < folders.len() {
        lemma_no_match(target, folders, probes, from + 1);
    }
}

proof fn lemma_first_match(
    target: Seq<char>,
    folders: Seq<SharedFolder>,
    probes: Seq<FolderProbe>,
    from: int,
    i: int,
)
    requires
        0 <= from <= i,
        folder_matches(target, folders, probes, i),
        forall|j: int| from <= j < i ==> !folder_matches(target, folders, probes, j),
    ensures
        first_match(target, folders, probes, from) == Some(i),
    decreases i - from,
{
    if from < i {
        lemma_first_match(target, folders, probes, from + 1, i);
    }
}

/// A path without two dots in a row that is the resolved root of an
/// enabled folder, or that root followed by a separator and more, and that
/// the folder's rules do not exclude, is allowed in the first such folder.
pub proof fn lemma_inside_is_allowed(
    path: Seq<char>,
    target: Seq<char>,
    folders: Seq<SharedFolder>,
    probes: Seq<FolderProbe>,
    i: int,
)
    requires
        !has_traversal(target),
        folder_matches(target, folders, probes, i),
        forall|j: int| 0 <= j < i ==> !folder_matches(target, folders, probes, j),
        !folder_excludes(target, folders, probes, i),
    ensures
        validation(path, target, folders, probes) == Ok::<int, Seq<char>>(i),
{
    lemma_first_match(target, folders, probes, 0, i);
}

proof fn lemma_first_match_is_first(
    target: Seq<char>,
    folders: Seq<SharedFolder>,
    probes: Seq<FolderProbe>,
    from: int,
)
    requires
        0 <= from,
    ensures
        match first_match(target, folders, probes, from) {
            Some(i) => from <= i < folders.len() && folder_matches(target, folders, probes, i)
                && forall|j: int| from <= j < i ==> !folder_matches(target, folders, probes, j),
            None => forall|j: int|
                from <= j < folders.len() ==> !folder_matches(target, folders, probes, j),
        },
    decreases folders.len() - from,
{
    if from < folders.len() && !folder_matches(target, folders, probes, from) {
        lemma_first_match_is_first(target, folders, probes, from + 1);
    }
}

/// Whatever is allowed lies in the sandbox: the path holds no two dots in
/// a row, the folder returned is enabled, its root could be resolved, the
/// path is that root or goes on behind it with a separator, the folder's
/// rules do not exclude it, and no folder before it has the path in it.
pub proof fn lemma_allowed_is_inside(
    path: Seq<char>,
    target: Seq<char>,
    folders: Seq<SharedFolder>,
    probes: Seq<FolderProbe>,
)
    requires
        validation(path, target, folders, probes) is Ok,
    ensures
        ({
            let i = validation(path, target, folders, probes)->Ok_0;
            &&& 0 <= i < folders.len()
            &&& !has_traversal(target)
            &&& folders[i].enabled
            &&& folder_matches(target, folders, probes, i)
            &&& !folder_excludes(target, folders, probes, i)
            &&& forall|j: int| 0 <= j < i ==> !folder_matches(target, folders, probes, j)
        }),
{
    lemma_first_match_is_first(target, folders, probes, 0);
}

/// A folder has `target` in it only where the folder is enabled, its root
/// could be resolved, and `target` is that root or goes on behind it with
/// a separator: a path that only shares the root's first characters, as
/// `/a/foo` does with `/a/f`, is not in it.
pub proof fn lemma_match_needs_boundary(
    target: Seq<char>,
    folders: Seq<SharedFolder>,
    probes: Seq<FolderProbe>,
    i: int,
)
    requires
        folder_matches(target, folders, probes, i),
    ensures
        0 <= i < folders.len(),
        folders[i].enabled,
        probes[i].canonical_root is Some,
        starts_with(target, probes[i].canonical_root->0@),
        target.len() == probes[i].canonical_root->0@.len() || is_separator(
            target[probes[i].canonical_root->0@.len() as int],
        ),
{
}

/// The extensions of the files that are served as bytes, not as text.
pub open spec fn is_binary_extension(e: Seq<char>) -> bool {
    e == "png"@ || e == "jpg"@ || e == "jpeg"@ || e == "gif"@ || e == "webp"@ || e == "bmp"@
        || e == "ico"@ || e == "pdf"@
}

/// The extensions that `is_supported_extension` accepts.
pub open spec fn is_shared_extension(e: Seq<char>) -> bool {
    e == "rs"@ || e == "py"@ || e == "js"@ || e == "ts"@ || e == "tsx"@ || e == "jsx"@
        || e == "go"@ || e == "java"@ || e == "c"@ || e == "cpp"@ || e == "h"@ || e == "hpp"@
        || e == "rb"@ || e == "php"@ || e == "swift"@ || e == "kt"@ || e == "sh"@ || e == "bat"@
        || e == "ps1"@ || e == "r"@ || e == "scala"@ || e == "lua"@ || e == "dart"@ || e == "zig"@
        || e == "nim"@ || e == "ex"@ || e == "exs"@ || e == "clj"@ || e == "hs"@ || e == "ml"@
        || e == "fs"@ || e == "cs"@ || e == "txt"@ || e == "md"@ || e == "csv"@ || e == "log"@
        || e == "env"@ || e == "gitignore"@ || e == "dockerignore"@ || e == "json"@
        || e == "yaml"@ || e == "yml"@ || e == "toml"@ || e == "xml"@ || e == "html"@
        || e == "htm"@ || e == "css"@ || e == "scss"@ || e == "less"@ || e == "sql"@
        || e == "graphql"@ || e == "proto"@ || e == "ini"@ || e == "cfg"@ || e == "conf"@
        || e == "pdf"@ || e == "png"@ || e == "jpg"@ || e == "jpeg"@ || e == "gif"@
        || e == "webp"@ || e == "svg"@ || e == "bmp"@ || e == "ico"@
}

/// Whether a file of this name is shared with agents at all.
pub open spec fn supported_name(filename: Seq<char>) -> bool {
    match extension(filename) {
        Some(e) => is_shared_extension(lowered(e)),
        None => is_bare_name(file_name(filename)),
    }
}

/// Whether a file of this name is served as bytes.
pub open spec fn binary_name(filename: Seq<char>) -> bool {
    match extension(filename) {
        Some(e) => is_binary_extension(lowered(e)),
        None => false,
    }
}

/// Whether a file of this name is a PDF document.
pub open spec fn pdf_name(filename: Seq<char>) -> bool {
    match extension(filename) {
        Some(e) => lowered(e) == "pdf"@,
        None => false,
    }
}

/// Whether a file of this name is an image.
pub open spec fn image_name(filename: Seq<char>) -> bool {
    match extension(filename) {
        Some(e) => is_image_extension(lowered(e)),
        None => false,
    }
}

fn shared_extension(e: &Vec<char>) -> (r: bool)
    ensures
        r == is_shared_extension(e@),
{
    same_str(e, "rs") || same_str(e, "py") || same_str(e, "js") || same_str(e, "ts")
        || same_str(e, "tsx") || same_str(e, "jsx") || same_str(e, "go") || same_str(e, "java")
        || same_str(e, "c") || same_str(e, "cpp") || same_str(e, "h") || same_str(e, "hpp")
        || same_str(e, "rb") || same_str(e, "php") || same_str(e, "swift") || same_str(e, "kt")
        || same_str(e, "sh") || same_str(e, "bat") || same_str(e, "ps1") || same_str(e, "r")
        || same_str(e, "scala") || same_str(e, "lua") || same_str(e, "dart") || same_str(e, "zig")
        || same_str(e, "nim") || same_str(e, "ex") || same_str(e, "exs") || same_str(e, "clj")
        || same_str(e, "hs") || same_str(e, "ml") || same_str(e, "fs") || same_str(e, "cs")
        || same_str(e, "txt") || same_str(e, "md") || same_str(e, "csv") || same_str(e, "log")
        || same_str(e, "env") || same_str(e, "gitignore") || same_str(e, "dockerignore")
        || same_str(e, "json") || same_str(e, "yaml") || same_str(e, "yml") || same_str(e, "toml")
        || same_str(e, "xml") || same_str(e, "html") || same_str(e, "htm") || same_str(e, "css")
        || same_str(e, "scss") || same_str(e, "less") || same_str(e, "sql")
        || same_str(e, "graphql") || same_str(e, "proto") || same_str(e, "ini")
        || same_str(e, "cfg") || same_str(e, "conf") || same_str(e, "pdf") || same_str(e, "png")
        || same_str(e, "jpg") || same_str(e, "jpeg") || same_str(e, "gif") || same_str(e, "webp")
        || same_str(e, "svg") || same_str(e, "bmp") || same_str(e, "ico")
}

/// Whether a file of this name is shared with agents: by its extension,
/// whatever its case, or by its name where it has no extension.
pub fn is_supported_extension(filename: &str) -> (r: bool)
    ensures
        r == supported_name(filename@),
{
    let path = chars_of(filename);
    match extension_of(&path) {
        Some(e) => shared_extension(&lowercase(&e)),
        None => bare_name(&file_name_of(&path)),
    }
}

/// Whether a file of this name is served as bytes rather than as text.
pub fn is_binary_file(filename: &str) -> (r: bool)
    ensures
        r == binary_name(filename@),
{
    match extension_of(&chars_of(filename)) {
        Some(e) => {
            let e = lowercase(&e);
            same_str(&e, "png") || same_str(&e, "jpg") || same_str(&e, "jpeg")
                || same_str(&e, "gif") || same_str(&e, "webp") || same_str(&e, "bmp")
                || same_str(&e, "ico") || same_str(&e, "pdf")
        },
        None => false,
    }
}

/// Whether a file of this name is a PDF document.
pub fn is_pdf(filename: &str) -> (r: bool)
    ensures
        r == pdf_name(filename@),
{
    match extension_of(&chars_of(filename)) {
        Some(e) => same_str(&lowercase(&e), "pdf"),
        None => false,
    }
}

/// Whether a file of this name is an image.
pub fn is_image(filename: &str) -> (r: bool)
    ensures
        r == image_name(filename@),
{
    match extension_of(&chars_of(filename)) {
        Some(e) => {
            let e = lowercase(&e);
            same_str(&e, "png") || same_str(&e, "jpg") || same_str(&e, "jpeg")
                || same_str(&e, "gif") || same_str(&e, "webp") || same_str(&e, "svg")
                || same_str(&e, "bmp") || same_str(&e, "ico")
        },
        None => false,
    }
}

} // verus!
