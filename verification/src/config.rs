//! The configuration that a sandbox is decided against: the shared folders
//! and the size limit.

use vstd::prelude::*;

verus! {

/// What an agent may do in a shared folder.
#[derive(Debug, Clone, Copy, PartialEq, Eq, Structural)]
pub enum Permission {
    ReadOnly,
    ReadWrite,
}

impl Default for Permission {
    fn default() -> (p: Self)
        ensures
            p == Permission::ReadOnly,
    {
        Permission::ReadOnly
    }
}

/// A folder that an administrator has approved for agents.
#[derive(Debug, Clone)]
pub struct SharedFolder {
    pub path: String,
    pub permission: Permission,
    pub enabled: bool,
    /// Whether the path was a directory when it was last looked at. It is
    /// derived again whenever folders are listed and never trusted from
    /// storage.
    pub available: bool,
}

/// The folders shared with agents, in the order in which they are tried,
/// and the largest file, in mebibytes, that is served whole.
#[derive(Debug, Clone)]
pub struct AppConfig {
    pub folders: Vec<SharedFolder>,
    pub max_file_size_mb: u32,
}

/// What `available` is taken to be where a stored folder does not say.
pub fn default_true() -> (b: bool)
    ensures
        b,
{
    true
}

/// The size limit, in mebibytes, where a stored configuration names none.
pub fn default_max_file_size() -> (limit: u32)
    ensures
        limit == 50,
{
    50
}

impl Default for AppConfig {
    /// No folder, and the default size limit.
    fn default() -> (c: Self)
        ensures
            c.folders@.len() == 0,
            c.max_file_size_mb == 50,
    {
        AppConfig { folders: Vec::new(), max_file_size_mb: default_max_file_size() }
    }
}

/// A copy of `folder`.
pub fn copy_folder(folder: &SharedFolder) -> (copy: SharedFolder)
    ensures
        copy == *folder,
{
    SharedFolder {
        path: folder.path.clone(),
        permission: folder.permission,
        enabled: folder.enabled,
        available: folder.available,
    }
}

/// How many files of a folder agents can be given, and which cannot.
#[derive(Debug, Clone)]
pub struct FolderScanResult {
    pub total_files: usize,
    pub supported_files: usize,
    pub unsupported_files: usize,
    /// The names of the first fifty files that are not supported.
    pub unsupported_list: Vec<String>,
}

/// The kind of content that a file extension stands for.
#[derive(Debug, Clone, Copy, PartialEq, Eq, Structural)]
pub enum FileCategory {
    Code,
    Text,
    Data,
    Document,
    Image,
    Unsupported,
}

} // verus!
