//! The list of shared folders as the control surface changes it.
//!
//! Each change is made on the configuration held in memory. Whoever calls
//! has looked at the disk before and writes the configuration out after.

use vstd::prelude::*;
use crate::config::{copy_folder, AppConfig, FolderScanResult, Permission, SharedFolder};
use crate::file_filter::{file_supported, is_file_supported};
use crate::text::{chars_of, concat2, concat3, has_prefix, same_text, starts_with};
use crate::tools::PathKind;

verus! {

/// The configuration that the control surface holds.
pub struct AppState {
    pub config: AppConfig,
}

/// The most names of files that are not supported that a scan lists.
pub open spec fn scan_list_limit() -> int {
    50
}

/// The number of the first `n` names whose files are supported.
pub open spec fn supported_count(names: Seq<String>, n: int) -> int
    decreases n,
{
    if n <= 0 {
        0
    } else if file_supported(names[n - 1]@) {
        supported_count(names, n - 1) + 1
    } else {
        supported_count(names, n - 1)
    }
}

/// Those of the first `n` names whose files are not supported, the first
/// fifty at most.
pub open spec fn unsupported_names(names: Seq<String>, n: int) -> Seq<String>
    decreases n,
{
    if n <= 0 {
        Seq::empty()
    } else if !file_supported(names[n - 1]@) && unsupported_names(names, n - 1).len()
        < scan_list_limit() {
        unsupported_names(names, n - 1).push(names[n - 1])
    } else {
        unsupported_names(names, n - 1)
    }
}

/// Counts which of the files of the folder at `path` agents can be given.
/// `kind` tells what the disk holds at `path`, `file_names` the names of
/// the files that lie in the folder itself.
pub fn scan_folder(path: &str, kind: PathKind, file_names: &Vec<String>) -> (r: Result<
    FolderScanResult,
    String,
>)
    ensures
        match kind {
            PathKind::Missing => r matches Err(m) && m@ == "Path does not exist: "@ + path@,
            PathKind::Directory => r matches Ok(scan) && scan.total_files == file_names.len()
                && scan.supported_files == supported_count(
                file_names@,
                file_names.len() as int,
            ) && scan.unsupported_files == file_names.len() - scan.supported_files
                && scan.unsupported_list@ == unsupported_names(
                file_names@,
                file_names.len() as int,
            ),
            _ => r matches Err(m) && m@ == "Path is not a directory: "@ + path@,
        },
{
    match kind {
        PathKind::Missing => {
            return Err(concat2("Path does not exist: ", path));
        },
        PathKind::Directory => {},
        _ => {
            return Err(concat2("Path is not a directory: ", path));
        },
    }
    let mut supported: usize = 0;
    let mut unsupported: usize = 0;
    let mut list: Vec<String> = Vec::new();
    let mut i: usize = 0;
    while i < file_names.len()
        invariant
            i <= file_names.len(),
            supported == supported_count(file_names@, i as int),
            supported + unsupported == i,
            list@ == unsupported_names(file_names@, i as int),
            list.len() <= 50,
        decreases file_names.len() - i,
    {
        if is_file_supported(file_names[i].as_str()) {
            supported += 1;
        } else {
            unsupported += 1;
            if list.len() < 50 {
                list.push(file_names[i].clone());
            }
        }
        i += 1;
    }
    Ok(
        FolderScanResult {
            total_files: file_names.len(),
            supported_files: supported,
            unsupported_files: unsupported,
            unsupported_list: list,
        },
    )
}

/// Whether one of two canonical paths begins with the other.
pub open spec fn overlaps(a: Seq<char>, b: Seq<char>) -> bool {
    starts_with(a, b) || starts_with(b, a)
}

/// Whether folder `i` overlaps with the new folder: its path could be
/// resolved, and one of the two canonical paths begins with the other.
pub open spec fn overlap_at(roots: Seq<Option<String>>, new_root: Seq<char>, i: int) -> bool {
    0 <= i < roots.len() && (roots[i] matches Some(r) && overlaps(new_root, r@))
}

/// The first of the folders below `limit`, at or after `from`, that
/// overlaps with the new one.
pub open spec fn first_overlap(
    roots: Seq<Option<String>>,
    new_root: Seq<char>,
    from: int,
    limit: int,
) -> Option<int>
    decreases roots.len() - from,
{
    if from < 0 || from >= roots.len() || from >= limit {
        None
    } else if overlap_at(roots, new_root, from) {
        Some(from)
    } else {
        first_overlap(roots, new_root, from + 1, limit)
    }
}

/// The path of the first shared folder that lies in the new folder or
/// that the new folder lies in. `roots` holds the canonical path of each
/// folder of `existing` where it could be resolved, and `new_root` that of
/// the new folder; a new folder that cannot be resolved overlaps with
/// none.
pub fn check_folder_overlap(
    existing: &Vec<SharedFolder>,
    roots: &Vec<Option<String>>,
    new_root: Option<&str>,
) -> (r: Option<String>)
    ensures
        match new_root {
            None => r is None,
            Some(n) => match first_overlap(roots@, n@, 0, existing.len() as int) {
                Some(i) => r matches Some(p) && 0 <= i < existing.len() && p == existing[i].path,
                None => r is None,
            },
        },
{
    let new_chars = match new_root {
        None => {
            return None;
        },
        Some(n) => chars_of(n),
    };
    let mut i: usize = 0;
    while i < existing.len() && i < roots.len()
        invariant
            i <= existing.len(),
            i <= roots.len(),
            new_root matches Some(n) && new_chars@ == n@,
            first_overlap(roots@, new_chars@, 0, existing.len() as int) == first_overlap(
                roots@,
                new_chars@,
                i as int,
                existing.len() as int,
            ),
        decreases existing.len() - i,
    {
        match &roots[i] {
            None => {},
            Some(r) => {
                let old = chars_of(r.as_str());
                if has_prefix(&new_chars, &old) || has_prefix(&old, &new_chars) {
                    return Some(existing[i].path.clone());
                }
            },
        }
        i += 1;
    }
    None
}

/// Whether one of the folders has the path `path`.
pub open spec fn has_folder(folders: Seq<SharedFolder>, path: Seq<char>) -> bool {
    exists|i: int| 0 <= i < folders.len() && (#[trigger] folders[i]).path@ == path
}

/// The index of the first folder at or after `from` with the path `path`.
pub open spec fn folder_index(folders: Seq<SharedFolder>, path: Seq<char>, from: int) -> Option<
    int,
>
    decreases folders.len() - from,
{
    if from < 0 || from >= folders.len() {
        None
    } else if folders[from].path@ == path {
        Some(from)
    } else {
        folder_index(folders, path, from + 1)
    }
}

fn find_folder(folders: &Vec<SharedFolder>, path: &str) -> (r: Option<usize>)
    ensures
        match r {
            Some(i) => folder_index(folders@, path@, 0) == Some(i as int) && i < folders.len()
                && folders[i as int].path@ == path@,
            None => folder_index(folders@, path@, 0) is None && !has_folder(folders@, path@),
        },
{
    let wanted = chars_of(path);
    let mut i: usize = 0;
    while i < folders.len()
        invariant
            i <= folders.len(),
            wanted@ == path@,
            folder_index(folders@, path@, 0) == folder_index(folders@, path@, i as int),
            forall|j: int| 0 <= j < i ==> (#[trigger] folders@[j]).path@ != path@,
        decreases folders.len() - i,
    {
        if same_text(&chars_of(folders[i].path.as_str()), &wanted) {
            return Some(i);
        }
        i += 1;
    }
    None
}

/// Those of the first `n` folders whose path is not `path`, in their
/// order.
pub open spec fn without_folder(folders: Seq<SharedFolder>, path: Seq<char>, n: int) -> Seq<
    SharedFolder,
>
    decreases n,
{
    if n <= 0 {
        Seq::empty()
    } else if folders[n - 1].path@ == path {
        without_folder(folders, path, n - 1)
    } else {
        without_folder(folders, path, n - 1).push(folders[n - 1])
    }
}

/// What is said of a folder that overlaps with the folder at `other`.
pub open spec fn overlap_message(other: Seq<char>) -> Seq<char> {
    "OVERLAP:This folder overlaps with an existing shared folder: "@ + other
        + ". Consider using the parent folder instead."@
}

/// Why the folder at `path` cannot be shared, if it cannot: it is shared
/// already, it does not exist or is no directory, or it overlaps with a
/// folder that is shared.
pub open spec fn add_refusal(
    folders: Seq<SharedFolder>,
    path: Seq<char>,
    kind: PathKind,
    overlap: Option<String>,
) -> Option<Seq<char>> {
    if has_folder(folders, path) {
        Some("Folder is already shared"@)
    } else if kind == PathKind::Missing {
        Some("Path does not exist: "@ + path)
    } else if kind != PathKind::Directory {
        Some("Path is not a directory: "@ + path)
    } else {
        match overlap {
            Some(other) => Some(overlap_message(other@)),
            None => None,
        }
    }
}

/// Shares the folder at `path`: read-only and enabled, behind the folders
/// shared so far. `kind` tells what the disk holds at `path`, `overlap`
/// what `check_folder_overlap` found, and `file_names` the names of the
/// files in the folder, which are counted as `scan_folder` counts them.
pub fn add_folder(
    state: &mut AppState,
    path: String,
    kind: PathKind,
    overlap: Option<String>,
    file_names: &Vec<String>,
) -> (r: Result<FolderScanResult, String>)
    ensures
        final(state).config.max_file_size_mb == old(state).config.max_file_size_mb,
        match add_refusal(old(state).config.folders@, path@, kind, overlap) {
            Some(m) => (r matches Err(e) && e@ == m) && final(state).config.folders@ == old(state).config.folders@,
            None => (r matches Ok(scan) && scan.total_files == file_names.len()
                && scan.supported_files == supported_count(
                file_names@,
                file_names.len() as int,
            ) && scan.unsupported_list@ == unsupported_names(
                file_names@,
                file_names.len() as int,
            )) && final(state).config.folders@.len() == old(state).config.folders@.len() + 1
                && final(state).config.folders@.drop_last() == old(state).config.folders@ && ({
                let added = final(state).config.folders@.last();
                added.path == path && added.permission == Permission::ReadOnly && added.enabled
                    && added.available
            }),
        },
{
    if find_folder(&state.config.folders, path.as_str()).is_some() {
        return Err("Folder is already shared".to_owned());
    }
    match kind {
        PathKind::Missing => {
            return Err(concat2("Path does not exist: ", path.as_str()));
        },
        PathKind::Directory => {},
        _ => {
            return Err(concat2("Path is not a directory: ", path.as_str()));
        },
    }
    match overlap {
        Some(other) => {
            return Err(
                concat3(
                    "OVERLAP:This folder overlaps with an existing shared folder: ",
                    other.as_str(),
                    ". Consider using the parent folder instead.",
                ),
            );
        },
        None => {},
    }
    let scan = match scan_folder(path.as_str(), kind, file_names) {
        Ok(s) => s,
        Err(e) => {
            return Err(e);
        },
    };
    let ghost before = state.config.folders@;
    state.config.folders.push(
        SharedFolder { path, permission: Permission::ReadOnly, enabled: true, available: true },
    );
    assert(state.config.folders@.drop_last() =~= before);
    Ok(scan)
}

/// Takes the folder at `path` off the list. Fails where no folder has
/// that path.
pub fn remove_folder(state: &mut AppState, path: &str) -> (r: Result<(), String>)
    ensures
        final(state).config.max_file_size_mb == old(state).config.max_file_size_mb,
        if has_folder(old(state).config.folders@, path@) {
            r is Ok && final(state).config.folders@ == without_folder(
                old(state).config.folders@,
                path@,
                old(state).config.folders@.len() as int,
            )
        } else {
            (r matches Err(m) && m@ == "Folder not found"@) && final(state).config.folders@
                == old(state).config.folders@
        },
{
    if find_folder(&state.config.folders, path).is_none() {
        return Err("Folder not found".to_owned());
    }
    let wanted = chars_of(path);
    let mut left: Vec<SharedFolder> = Vec::new();
    let mut i: usize = 0;
    while i < state.config.folders.len()
        invariant
            i <= state.config.folders.len(),
            wanted@ == path@,
            state.config == old(state).config,
            left@ == without_folder(state.config.folders@, path@, i as int),
        decreases state.config.folders.len() - i,
    {
        if !same_text(&chars_of(state.config.folders[i].path.as_str()), &wanted) {
            left.push(copy_folder(&state.config.folders[i]));
        }
        i += 1;
    }
    state.config.folders = left;
    Ok(())
}

/// The folders with `available` set anew: to what `availability` says of
/// each folder, and to false where it says nothing.
pub open spec fn with_availability(folders: Seq<SharedFolder>, availability: Seq<bool>) -> Seq<
    SharedFolder,
> {
    Seq::new(
        folders.len(),
        |i: int|
            SharedFolder {
                path: folders[i].path,
                permission: folders[i].permission,
                enabled: folders[i].enabled,
                available: i < availability.len() && availability[i],
            },
    )
}

/// Lists the shared folders, each with whether it is there now:
/// `availability` tells of each folder whether its path is a directory.
/// The list held is brought up to date and a copy of it returned.
pub fn list_folders(state: &mut AppState, availability: &Vec<bool>) -> (folders: Vec<SharedFolder>)
    ensures
        final(state).config.max_file_size_mb == old(state).config.max_file_size_mb,
        final(state).config.folders@ == with_availability(
            old(state).config.folders@,
            availability@,
        ),
        folders@ == final(state).config.folders@,
{
    let mut fresh: Vec<SharedFolder> = Vec::new();
    let mut copy: Vec<SharedFolder> = Vec::new();
    let mut i: usize = 0;
    while i < state.config.folders.len()
        invariant
            i <= state.config.folders.len(),
            state.config == old(state).config,
            fresh@ == with_availability(state.config.folders@, availability@).take(i as int),
            copy@ == fresh@,
        decreases state.config.folders.len() - i,
    {
        let f = &state.config.folders[i];
        let available = i < availability.len() && availability[i];
        fresh.push(
            SharedFolder {
                path: f.path.clone(),
                permission: f.permission,
                enabled: f.enabled,
                available,
            },
        );
        copy.push(
            SharedFolder {
                path: f.path.clone(),
                permission: f.permission,
                enabled: f.enabled,
                available,
            },
        );
        assert(fresh@ =~= with_availability(state.config.folders@, availability@).take(i + 1));
        i += 1;
    }
    assert(fresh@ =~= with_availability(state.config.folders@, availability@));
    state.config.folders = fresh;
    copy
}

/// Sets the permission of the first folder at `path`. Fails where no
/// folder has that path.
pub fn toggle_permission(state: &mut AppState, path: &str, permission: Permission) -> (r: Result<
    (),
    String,
>)
    ensures
        final(state).config.max_file_size_mb == old(state).config.max_file_size_mb,
        match folder_index(old(state).config.folders@, path@, 0) {
            Some(i) => r is Ok && final(state).config.folders@ == old(state).config.folders@.update(
                i,
                SharedFolder {
                    path: old(state).config.folders@[i].path,
                    permission,
                    enabled: old(state).config.folders@[i].enabled,
                    available: old(state).config.folders@[i].available,
                },
            ),
            None => (r matches Err(m) && m@ == "Folder not found"@) && final(state).config.folders@ == old(state).config.folders@,
        },
{
    match find_folder(&state.config.folders, path) {
        None => Err("Folder not found".to_owned()),
        Some(i) => {
            let f = &state.config.folders[i];
            let changed = SharedFolder {
                path: f.path.clone(),
                permission,
                enabled: f.enabled,
                available: f.available,
            };
            state.config.folders.set(i, changed);
            Ok(())
        },
    }
}

/// Enables or disables the first folder at `path`. Fails where no folder
/// has that path.
pub fn toggle_folder_enabled(state: &mut AppState, path: &str, enabled: bool) -> (r: Result<
    (),
    String,
>)
    ensures
        final(state).config.max_file_size_mb == old(state).config.max_file_size_mb,
        match folder_index(old(state).config.folders@, path@, 0) {
            Some(i) => r is Ok && final(state).config.folders@ == old(state).config.folders@.update(
                i,
                SharedFolder {
                    path: old(state).config.folders@[i].path,
                    permission: old(state).config.folders@[i].permission,
                    enabled,
                    available: old(state).config.folders@[i].available,
                },
            ),
            None => (r matches Err(m) && m@ == "Folder not found"@) && final(state).config.folders@ == old(state).config.folders@,
        },
{
    match find_folder(&state.config.folders, path) {
        None => Err("Folder not found".to_owned()),
        Some(i) => {
            let f = &state.config.folders[i];
            let changed = SharedFolder {
                path: f.path.clone(),
                permission: f.permission,
                enabled,
                available: f.available,
            };
            state.config.folders.set(i, changed);
            Ok(())
        },
    }
}

/// A copy of the configuration held.
pub fn get_app_config(state: &AppState) -> (config: AppConfig)
    ensures
        config.folders@ == state.config.folders@,
        config.max_file_size_mb == state.config.max_file_size_mb,
{
    let mut folders: Vec<SharedFolder> = Vec::new();
    let mut i: usize = 0;
    while i < state.config.folders.len()
        invariant
            i <= state.config.folders.len(),
            folders@ == state.config.folders@.take(i as int),
        decreases state.config.folders.len() - i,
    {
        folders.push(copy_folder(&state.config.folders[i]));
        assert(folders@ =~= state.config.folders@.take(i + 1));
        i += 1;
    }
    assert(folders@ =~= state.config.folders@);
    AppConfig { folders, max_file_size_mb: state.config.max_file_size_mb }
}

/// Sets the largest file, in mebibytes, that is served whole.
pub fn update_max_file_size(state: &mut AppState, max_size_mb: u32)
    ensures
        final(state).config.max_file_size_mb == max_size_mb,
        final(state).config.folders == old(state).config.folders,
{
    state.config.max_file_size_mb = max_size_mb;
}

} // verus!
