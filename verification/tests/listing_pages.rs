use omnidrive::config::{AppConfig, Permission, SharedFolder};
use omnidrive::listing::{walk_depth, ListDirectoryParams, ListedEntry};
use omnidrive::paging::page_of;
use omnidrive::sandbox::FolderProbe;
use omnidrive::tools::{ErrorKind, Located, OmniDriveServer, PathKind};

fn server() -> (OmniDriveServer, Vec<FolderProbe>) {
    let config = AppConfig {
        folders: vec![SharedFolder {
            path: "/share".to_string(),
            permission: Permission::ReadOnly,
            enabled: true,
            available: true,
        }],
        max_file_size_mb: 50,
    };
    let probes = vec![FolderProbe {
        canonical_root: Some("/share".to_string()),
        ignore_rules: Some("hidden\n".to_string()),
    }];
    (OmniDriveServer::new(config), probes)
}

fn entry(name: &str, is_dir: bool, size: u64, depth: usize) -> ListedEntry {
    ListedEntry {
        name: name.rsplit('/').next().unwrap().to_string(),
        path: format!("/share/{}", name),
        is_dir,
        size,
        depth,
    }
}

fn args(page: usize, page_size: usize, recursive: bool) -> ListDirectoryParams {
    ListDirectoryParams { path: "/share".to_string(), page, page_size, recursive, max_depth: 3 }
}

fn dir() -> Located {
    Located { absolute: "/share".to_string(), kind: PathKind::Directory }
}

fn twenty_five() -> Vec<ListedEntry> {
    (1..=25).map(|i| entry(&format!("f{:02}.txt", i), false, 10, 1)).collect()
}

#[test]
fn second_page_of_twenty_five_holds_entries_eleven_to_twenty() {
    let (server, probes) = server();
    let reply = server.list_directory(&args(2, 10, false), &dir(), &probes, &twenty_five()).ok().unwrap();
    let rows: Vec<&str> = reply.text.lines().skip(5).collect();
    assert_eq!(rows.len(), 10);
    for (k, row) in rows.iter().enumerate() {
        assert_eq!(*row, format!("FIL   | 10 B       | f{:02}.txt", k + 11));
    }
    assert!(reply.text.starts_with("Directory listing for: /share\nPage 2 of 3 (25 items)\n\n"));
    assert_eq!(reply.audit.tool, "list_directory");
    assert_eq!(reply.audit.category, "read");
    assert_eq!(reply.audit.path, Some("/share".to_string()));
    assert_eq!(reply.audit.summary, "Listed directory items");
}

#[test]
fn page_behind_the_last_entry_is_answered_with_a_message() {
    let (server, probes) = server();
    let reply = server.list_directory(&args(4, 10, false), &dir(), &probes, &twenty_five()).ok().unwrap();
    assert_eq!(reply.text, "Page 4 is out of range. Total items: 25 (3 pages)");
    let reply = server.list_directory(&args(3, 10, false), &dir(), &probes, &twenty_five()).ok().unwrap();
    assert_eq!(reply.text.lines().skip(5).count(), 5);
}

#[test]
fn flat_listing_text() {
    let (server, probes) = server();
    let entries = vec![
        entry("b.txt", false, 2048, 1),
        entry("Zeta", true, 0, 1),
        entry("a.exe", false, 5, 1),
        entry("alpha", true, 0, 1),
        entry("A.md", false, 1, 1),
        entry("hidden", true, 0, 1),
    ];
    let reply = server.list_directory(&args(0, 0, false), &dir(), &probes, &entries).ok().unwrap();
    assert_eq!(
        reply.text,
        "Directory listing for: /share\nPage 1 of 4 (4 items)\n\n\
         Type  | Size       | Name\n\
         ------+------------+---------------------------------------------\n\
         <DIR> | -          | alpha\n"
    );
    let reply = server.list_directory(&args(1, 500, false), &dir(), &probes, &entries).ok().unwrap();
    assert_eq!(
        reply.text,
        "Directory listing for: /share\nPage 1 of 1 (4 items)\n\n\
         Type  | Size       | Name\n\
         ------+------------+---------------------------------------------\n\
         <DIR> | -          | alpha\n\
         <DIR> | -          | Zeta\n\
         FIL   | 1 B        | A.md\n\
         FIL   | 2.0 KB     | b.txt\n"
    );
}

#[test]
fn empty_directory_lists_no_rows() {
    let (server, probes) = server();
    let reply = server.list_directory(&args(3, 10, false), &dir(), &probes, &vec![]).ok().unwrap();
    assert_eq!(
        reply.text,
        "Directory listing for: /share\nPage 3 of 0 (0 items)\n\n\
         Type  | Size       | Name\n\
         ------+------------+---------------------------------------------\n"
    );
}

#[test]
fn equal_names_keep_their_order() {
    let (server, probes) = server();
    let entries = vec![entry("B.txt", false, 1, 1), entry("b.txt", false, 2, 1), entry("a.txt", false, 3, 1)];
    let reply = server.list_directory(&args(1, 10, false), &dir(), &probes, &entries).ok().unwrap();
    let rows: Vec<&str> = reply.text.lines().skip(5).collect();
    assert_eq!(rows, vec!["FIL   | 3 B        | a.txt", "FIL   | 1 B        | B.txt", "FIL   | 2 B        | b.txt"]);
}

#[test]
fn listing_needs_a_directory_in_the_sandbox() {
    let (server, probes) = server();
    let file = Located { absolute: "/share".to_string(), kind: PathKind::File };
    let e = server.list_directory(&args(1, 10, false), &file, &probes, &vec![]).err().unwrap();
    assert_eq!(e.kind, ErrorKind::InvalidInput);
    assert_eq!(e.message, "Path is not a directory: /share");
    let out = Located { absolute: "/elsewhere".to_string(), kind: PathKind::Directory };
    let e = server.list_directory(&args(1, 10, false), &out, &probes, &vec![]).err().unwrap();
    assert_eq!(e.kind, ErrorKind::SandboxDenial);
    assert_eq!(e.message, "Access denied: Path '/share' is not within any shared folder.");
}

#[test]
fn tree_listing_text() {
    let (server, probes) = server();
    let entries = vec![
        entry("", true, 0, 0),
        entry("docs", true, 0, 1),
        entry("docs/guide.md", false, 1536, 2),
        entry("docs/tool.exe", false, 7, 2),
        entry("docs/deep", true, 0, 2),
        entry("docs/deep/x.rs", false, 3, 3),
        entry("hidden", true, 0, 1),
        entry("hidden/y.rs", false, 3, 2),
        entry("z.txt", false, 0, 1),
    ];
    let reply = server.list_directory(&args(1, 50, true), &dir(), &probes, &entries).ok().unwrap();
    assert_eq!(
        reply.text,
        "Tree: /share (depth: 3, page 1/1)\n5 items total\n\n\
         📁 docs\n  📄 guide.md (1.5 KB)\n  📁 deep\n    📄 x.rs (3 B)\n📄 z.txt (0 B)\n"
    );
    assert_eq!(reply.audit.tool, "list_directory_recursive");
    assert_eq!(reply.audit.summary, "Listed directory recursively");
    let reply = server.list_directory(&args(2, 2, true), &dir(), &probes, &entries).ok().unwrap();
    assert_eq!(
        reply.text,
        "Tree: /share (depth: 3, page 2/3)\n5 items total\n\n  📁 deep\n    📄 x.rs (3 B)\n"
    );
    let reply = server.list_directory(&args(9, 2, true), &dir(), &probes, &entries).ok().unwrap();
    assert_eq!(reply.text, "Page 9 is out of range. Total items: 5 (3 pages)");
}

#[test]
fn walk_depth_is_held_between_one_and_ten() {
    let mut a = args(1, 1, true);
    a.max_depth = 0;
    assert_eq!(walk_depth(&a), 1);
    a.max_depth = 7;
    assert_eq!(walk_depth(&a), 7);
    a.max_depth = 99;
    assert_eq!(walk_depth(&a), 10);
}

#[test]
fn page_bounds() {
    let p = page_of(25, 2, 10, 100);
    assert_eq!((p.number, p.size, p.pages, p.start, p.end, p.beyond), (2, 10, 3, 10, 20, false));
    let p = page_of(25, 3, 10, 100);
    assert_eq!((p.start, p.end, p.beyond), (20, 25, false));
    let p = page_of(25, 4, 10, 100);
    assert_eq!((p.start, p.end, p.beyond), (25, 25, true));
    let p = page_of(25, 0, 0, 100);
    assert_eq!((p.number, p.size, p.pages, p.start, p.end), (1, 1, 25, 0, 1));
    let p = page_of(25, 1, 1000, 100);
    assert_eq!((p.size, p.pages, p.end), (100, 1, 25));
    let p = page_of(0, 5, 10, 100);
    assert_eq!((p.pages, p.start, p.end, p.beyond), (0, 0, 0, false));
    let p = page_of(3, usize::MAX, usize::MAX, 200);
    assert_eq!((p.size, p.start, p.end, p.beyond), (200, 3, 3, true));
}
