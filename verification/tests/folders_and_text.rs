use omnidrive::config::{default_max_file_size, default_true, AppConfig, Permission, SharedFolder};
use omnidrive::folders::{
    add_folder, check_folder_overlap, get_app_config, list_folders, remove_folder, scan_folder,
    toggle_folder_enabled, toggle_permission, update_max_file_size, AppState,
};
use omnidrive::names::{absolute_form, extension_of, file_name_of, join_path};
use omnidrive::options::{default_port, origins_of, parse_arguments, port_of, ServerOptions};
use omnidrive::order::order_by_key;
use omnidrive::text::{
    chars_of, comes_before, is_whitespace, lowercase, same_ignoring_ascii_case, split_lines,
    string_of, trim,
};
use omnidrive::tools::{
    default_max_depth, default_max_results, default_page, default_page_size, PathKind,
};

fn chars(s: &str) -> Vec<char> {
    s.chars().collect()
}

fn text(v: &Vec<char>) -> String {
    v.iter().collect()
}

fn names(list: &[&str]) -> Vec<String> {
    list.iter().map(|s| s.to_string()).collect()
}

fn state_with(paths: &[&str]) -> AppState {
    AppState {
        config: AppConfig {
            folders: paths
                .iter()
                .map(|p| SharedFolder {
                    path: p.to_string(),
                    permission: Permission::ReadOnly,
                    enabled: true,
                    available: true,
                })
                .collect(),
            max_file_size_mb: 50,
        },
    }
}

fn paths(state: &AppState) -> Vec<&str> {
    state.config.folders.iter().map(|f| f.path.as_str()).collect()
}

#[test]
fn defaults() {
    assert!(default_true());
    assert_eq!(default_max_file_size(), 50);
    let c = AppConfig::default();
    assert!(c.folders.is_empty());
    assert_eq!(c.max_file_size_mb, 50);
    assert_eq!(Permission::default(), Permission::ReadOnly);
    assert_eq!((default_page(), default_page_size(), default_max_depth(), default_max_results()), (1, 50, 3, 50));
}

#[test]
fn scan_counts_supported_files() {
    let files = names(&["a.rs", "b.exe", "Makefile", "c.sass", "d", "e.PNG"]);
    let scan = scan_folder("/x", PathKind::Directory, &files).ok().unwrap();
    assert_eq!((scan.total_files, scan.supported_files, scan.unsupported_files), (6, 4, 2));
    assert_eq!(scan.unsupported_list, names(&["b.exe", "d"]));
    assert_eq!(scan_folder("/x", PathKind::Missing, &files).err().unwrap(), "Path does not exist: /x");
    assert_eq!(scan_folder("/x", PathKind::File, &files).err().unwrap(), "Path is not a directory: /x");
    let many: Vec<String> = (0..70).map(|i| format!("f{}.bin", i)).collect();
    let scan = scan_folder("/x", PathKind::Directory, &many).ok().unwrap();
    assert_eq!((scan.total_files, scan.supported_files, scan.unsupported_files), (70, 0, 70));
    assert_eq!(scan.unsupported_list, many[..50].to_vec());
}

#[test]
fn overlap_with_a_shared_folder() {
    let state = state_with(&["/a/b", "/c", "/gone"]);
    let roots = vec![Some("/real/a/b".to_string()), Some("/c".to_string()), None];
    let folders = &state.config.folders;
    assert_eq!(check_folder_overlap(folders, &roots, Some("/real/a")), Some("/a/b".to_string()));
    assert_eq!(check_folder_overlap(folders, &roots, Some("/c/inner")), Some("/c".to_string()));
    assert_eq!(check_folder_overlap(folders, &roots, Some("/cc")), Some("/c".to_string()));
    assert_eq!(check_folder_overlap(folders, &roots, Some("/d")), None);
    assert_eq!(check_folder_overlap(folders, &roots, None), None);
    assert_eq!(check_folder_overlap(folders, &vec![], Some("/c")), None);
}

#[test]
fn adding_a_folder() {
    let mut state = state_with(&["/a"]);
    let files = names(&["x.rs", "y.bin"]);
    let scan = add_folder(&mut state, "/b".to_string(), PathKind::Directory, None, &files).ok().unwrap();
    assert_eq!((scan.total_files, scan.supported_files, scan.unsupported_files), (2, 1, 1));
    assert_eq!(paths(&state), vec!["/a", "/b"]);
    let added = &state.config.folders[1];
    assert_eq!((added.permission, added.enabled, added.available), (Permission::ReadOnly, true, true));
    assert_eq!(add_folder(&mut state, "/b".to_string(), PathKind::Missing, None, &files).err().unwrap(), "Folder is already shared");
    assert_eq!(add_folder(&mut state, "/c".to_string(), PathKind::Missing, None, &files).err().unwrap(), "Path does not exist: /c");
    assert_eq!(add_folder(&mut state, "/c".to_string(), PathKind::File, None, &files).err().unwrap(), "Path is not a directory: /c");
    assert_eq!(
        add_folder(&mut state, "/a/in".to_string(), PathKind::Directory, Some("/a".to_string()), &files).err().unwrap(),
        "OVERLAP:This folder overlaps with an existing shared folder: /a. Consider using the parent folder instead."
    );
    assert_eq!(paths(&state), vec!["/a", "/b"]);
}

#[test]
fn removing_and_toggling() {
    let mut state = state_with(&["/a", "/b", "/a", "/c"]);
    assert_eq!(toggle_permission(&mut state, "/a", Permission::ReadWrite), Ok(()));
    assert_eq!(state.config.folders[0].permission, Permission::ReadWrite);
    assert_eq!(state.config.folders[2].permission, Permission::ReadOnly);
    assert_eq!(toggle_folder_enabled(&mut state, "/c", false), Ok(()));
    assert!(!state.config.folders[3].enabled);
    assert_eq!(toggle_permission(&mut state, "/z", Permission::ReadWrite), Err("Folder not found".to_string()));
    assert_eq!(toggle_folder_enabled(&mut state, "/z", true), Err("Folder not found".to_string()));
    assert_eq!(remove_folder(&mut state, "/z"), Err("Folder not found".to_string()));
    assert_eq!(remove_folder(&mut state, "/a"), Ok(()));
    assert_eq!(paths(&state), vec!["/b", "/c"]);
    update_max_file_size(&mut state, 7);
    let copy = get_app_config(&state);
    assert_eq!(copy.max_file_size_mb, 7);
    assert_eq!(copy.folders.len(), 2);
    assert!(!copy.folders[1].enabled);
}

#[test]
fn listing_folders_derives_availability() {
    let mut state = state_with(&["/a", "/b", "/c"]);
    let listed = list_folders(&mut state, &vec![true, false]);
    let seen: Vec<bool> = listed.iter().map(|f| f.available).collect();
    assert_eq!(seen, vec![true, false, false]);
    let held: Vec<bool> = state.config.folders.iter().map(|f| f.available).collect();
    assert_eq!(held, vec![true, false, false]);
    assert_eq!(paths(&state), vec!["/a", "/b", "/c"]);
}

#[test]
fn lines_as_the_standard_library_splits_them() {
    for s in ["", "\n", "a", "a\n", "a\nb", "a\r\nb\r\n", "a\r", "\r\n", "a\n\nb\n\n", "\r\r\n", "x\ny\r", "\n\r\n\r"] {
        let ours: Vec<String> = split_lines(&chars(s)).iter().map(text).collect();
        let std: Vec<String> = s.lines().map(|l| l.to_string()).collect();
        assert_eq!(ours, std, "for {:?}", s);
    }
}

#[test]
fn whitespace_as_the_standard_library_knows_it() {
    let mut n: u32 = 0;
    while n <= 0x10FFFF {
        if let Some(c) = char::from_u32(n) {
            assert_eq!(is_whitespace(c), c.is_whitespace(), "at {:x}", n);
        }
        n += 1;
    }
    for s in ["", "  a b \t\n", "\u{3000}x\u{a0}", " \r\n ", "x", "\u{200b}x"] {
        assert_eq!(text(&trim(&chars(s))), s.trim(), "for {:?}", s);
    }
}

#[test]
fn lowercase_agrees_with_the_standard_library() {
    for s in ["", "ABC", "MiXeD.Rs", "straße", "ΣΑΣ", "İ", "\u{212A}", "a\u{212A}B", "ÀB"] {
        assert_eq!(text(&lowercase(&chars(s))), s.to_lowercase(), "for {:?}", s);
    }
    let mut n: u32 = 0;
    while n < 128 {
        let c = char::from_u32(n).unwrap();
        assert_eq!(text(&lowercase(&vec![c])), c.to_string().to_lowercase());
        n += 1;
    }
    assert!(same_ignoring_ascii_case(&chars("Rs"), &chars("rS")));
    assert!(!same_ignoring_ascii_case(&chars("É"), &chars("é")));
    assert!(!same_ignoring_ascii_case(&chars("rs"), &chars("rss")));
}

#[test]
fn order_of_strings() {
    let samples = ["", "a", "A", "ab", "b", "é", "z", "\u{10000}", "\u{ffff}", "aa", "a\u{0}"];
    for a in samples {
        for b in samples {
            assert_eq!(comes_before(&chars(a), &chars(b)), a < b, "for {:?} and {:?}", a, b);
        }
    }
    let keys: Vec<Vec<char>> = ["b", "a", "c", "a", "B"].iter().map(|s| chars(s)).collect();
    assert_eq!(order_by_key(&keys, false), vec![4, 1, 3, 0, 2]);
    assert_eq!(order_by_key(&keys, true), vec![2, 0, 1, 3, 4]);
}

#[test]
fn names_and_extensions() {
    let cases: [(&str, &str, Option<&str>); 12] = [
        ("a.txt", "a.txt", Some("txt")),
        ("/x/y/a.tar.gz", "a.tar.gz", Some("gz")),
        (".bashrc", ".bashrc", None),
        ("a.", "a.", Some("")),
        ("..", "..", None),
        ("...", "...", Some("")),
        ("dir/", "dir", None),
        ("dir.d//", "dir.d", Some("d")),
        ("", "", None),
        ("/", "", None),
        ("noext", "noext", None),
        ("a/.b.c", ".b.c", Some("c")),
    ];
    for (path, name, ext) in cases {
        assert_eq!(text(&file_name_of(&chars(path))), name, "name of {:?}", path);
        assert_eq!(extension_of(&chars(path)).map(|e| text(&e)), ext.map(|e| e.to_string()), "extension of {:?}", path);
        if !path.ends_with('/') || path == "dir/" || path == "dir.d//" {
            let std_ext = std::path::Path::new(path).extension().and_then(|e| e.to_str()).map(|e| e.to_string());
            assert_eq!(ext.map(|e| e.to_string()), std_ext, "std extension of {:?}", path);
        }
    }
    assert_eq!(string_of(&chars_of("h\u{00e9}llo")), "h\u{00e9}llo");
}

#[test]
fn ports_as_the_standard_library_reads_them() {
    let samples = [
        "", "+", "-", "0", "00080", "+80", "++80", "-0", "-1", "65535", "65536", "065535", "99999",
        "4294967296", "18446744073709551616", " 80", "80 ", "8 0", "0x50", "８０", "3199", "+0",
        "1e3", "6553a", "655350", "+65535", "+65536", "٣", "12345678901234567890123",
    ];
    for s in samples {
        assert_eq!(port_of(s), s.parse::<u16>().ok(), "for {:?}", s);
    }
    let mut n: u32 = 0;
    while n < 70000 {
        let s = n.to_string();
        assert_eq!(port_of(&s), s.parse::<u16>().ok());
        n += 7;
    }
}

#[test]
fn origins_split_at_commas() {
    for s in ["a,b", "", ",", "a,", ",a", " a , b ,, c ", "https://x.example,https://y.example:8"] {
        let std: Vec<String> = s.split(',').map(|p| p.trim().to_string()).collect();
        assert_eq!(origins_of(s), std, "for {:?}", s);
    }
}

fn options(use_sse: bool, port: u16, origins: &[&str]) -> ServerOptions {
    ServerOptions { use_sse, port, allowed_origins: names(origins) }
}

fn parsed(args: &[&str]) -> (bool, u16, Vec<String>) {
    let o = parse_arguments(&names(args), options(false, default_port(), &["https://one.example"]));
    (o.use_sse, o.port, o.allowed_origins)
}

#[test]
fn server_arguments() {
    let keep = names(&["https://one.example"]);
    assert_eq!(parsed(&[]), (false, 3199, keep.clone()));
    assert_eq!(parsed(&["server"]), (false, 3199, keep.clone()));
    assert_eq!(parsed(&["--transport", "sse"]), (false, 3199, keep.clone()));
    assert_eq!(parsed(&["server", "--transport", "sse"]), (true, 3199, keep.clone()));
    assert_eq!(parsed(&["server", "--transport", "stdio", "sse"]), (false, 3199, keep.clone()));
    assert_eq!(parsed(&["server", "--transport"]), (false, 3199, keep.clone()));
    assert_eq!(parsed(&["server", "--port", "8080", "--transport", "sse"]), (true, 8080, keep.clone()));
    assert_eq!(parsed(&["server", "--port", "70000"]), (false, 3199, keep.clone()));
    assert_eq!(parsed(&["server", "--port", "--transport", "sse"]), (false, 3199, keep.clone()));
    assert_eq!(parsed(&["server", "--port", "1", "--port", "2", "--port", "x"]), (false, 2, keep.clone()));
    assert_eq!(parsed(&["server", "--allowed-origins", "  "]), (false, 3199, keep.clone()));
    assert_eq!(parsed(&["server", "--allowed-origins"]), (false, 3199, keep.clone()));
    assert_eq!(
        parsed(&["server", "x", "--allowed-origins", "https://a, https://b ,", "--transport", "sse"]),
        (true, 3199, names(&["https://a", "https://b", ""]))
    );
    let o = parse_arguments(&names(&["s", "--transport", "other"]), options(true, 1, &[]));
    assert_eq!((o.use_sse, o.port, o.allowed_origins), (true, 1, names(&[])));
}

#[test]
fn absolute_forms() {
    assert_eq!(absolute_form("/a/b", Some("/cwd")), "/a/b");
    assert_eq!(absolute_form("a/b", Some("/cwd")), "/cwd/a/b");
    assert_eq!(absolute_form("a/b", Some("/cwd/")), "/cwd/a/b");
    assert_eq!(absolute_form("./a/../b", Some("/cwd")), "/cwd/./a/../b");
    assert_eq!(absolute_form("", Some("/cwd")), "/cwd/");
    assert_eq!(absolute_form("a", None), "a");
    assert_eq!(absolute_form("a", Some("")), "a");
    assert_eq!(absolute_form("a", Some("/")), "/a");
    for dir in ["/cwd", "/cwd/", "/", "", "rel", "/a b/ç"] {
        for name in ["x", "x/y", "", "./x", "/abs", "x/", "..", "é.txt"] {
            let std = std::path::Path::new(dir).join(name).to_string_lossy().to_string();
            if name.starts_with('/') {
                assert_eq!(absolute_form(name, Some(dir)), std, "for {:?} and {:?}", dir, name);
            } else {
                assert_eq!(join_path(dir, name), std, "for {:?} and {:?}", dir, name);
                assert_eq!(absolute_form(name, Some(dir)), std, "for {:?} and {:?}", dir, name);
            }
        }
    }
}
