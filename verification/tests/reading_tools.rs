use omnidrive::config::{AppConfig, Permission, SharedFolder};
use omnidrive::grep::{
    escape_literal, grep_file, grep_finish, grep_walk_depth, GrepCandidate, GrepContentParams,
};
use omnidrive::reading::{
    batch_begin, batch_finish, batch_record, read_binary_reply, read_text_reply, wants_line_count,
    BatchReadParams, FileFacts, ReadLinesParams, ReadStrategy,
};
use omnidrive::sandbox::FolderProbe;
use omnidrive::search::{search_reply, SearchFilesParams};
use omnidrive::tools::{ErrorKind, Located, OmniDriveServer, PathKind};

fn server(limit_mb: u32) -> (OmniDriveServer, Vec<FolderProbe>) {
    let config = AppConfig {
        folders: vec![
            SharedFolder { path: "/share".to_string(), permission: Permission::ReadOnly, enabled: true, available: true },
            SharedFolder { path: "/work".to_string(), permission: Permission::ReadWrite, enabled: true, available: true },
            SharedFolder { path: "/off".to_string(), permission: Permission::ReadWrite, enabled: false, available: true },
        ],
        max_file_size_mb: limit_mb,
    };
    let probes = vec![
        FolderProbe { canonical_root: Some("/share".to_string()), ignore_rules: Some("secret\n".to_string()) },
        FolderProbe { canonical_root: Some("/work".to_string()), ignore_rules: None },
        FolderProbe { canonical_root: Some("/off".to_string()), ignore_rules: None },
    ];
    (OmniDriveServer::new(config), probes)
}

fn file(path: &str) -> Located {
    Located { absolute: path.to_string(), kind: PathKind::File }
}

#[test]
fn read_plan_picks_the_strategy_by_name() {
    let (s, p) = server(50);
    assert_eq!(s.read_plan("a.pdf", &file("/share/a.PDF"), &p, 10).ok().unwrap(), ReadStrategy::PdfText);
    assert_eq!(s.read_plan("a.png", &file("/share/a.png"), &p, 10).ok().unwrap(), ReadStrategy::Binary);
    assert_eq!(s.read_plan("a.rs", &file("/share/a.rs"), &p, 10).ok().unwrap(), ReadStrategy::Text);
    assert_eq!(s.read_plan("a.svg", &file("/share/a.svg"), &p, 10).ok().unwrap(), ReadStrategy::Text);
    assert_eq!(s.read_plan("Makefile", &file("/share/Makefile"), &p, 10).ok().unwrap(), ReadStrategy::Text);
    let e = s.read_plan("a.exe", &file("/share/bin/a.exe"), &p, 10).err().unwrap();
    assert_eq!(e.kind, ErrorKind::UnsupportedType);
    assert_eq!(e.message, "Unsupported file type: a.exe");
}

#[test]
fn read_plan_errors_in_order() {
    let (s, p) = server(1);
    let e = s.read_plan("/etc/x.rs", &file("/etc/x.rs"), &p, 10).err().unwrap();
    assert_eq!(e.kind, ErrorKind::SandboxDenial);
    let missing = Located { absolute: "/share/x.rs".to_string(), kind: PathKind::Missing };
    let e = s.read_plan("x.rs", &missing, &p, 10).err().unwrap();
    assert_eq!((e.kind, e.message.as_str()), (ErrorKind::NotFound, "File not found: x.rs"));
    let d = Located { absolute: "/share/x.rs".to_string(), kind: PathKind::Directory };
    assert_eq!(s.read_plan("x.rs", &d, &p, 10).err().unwrap().kind, ErrorKind::NotFound);
    // Exactly at the limit is served, one byte above is not.
    assert!(s.read_plan("x.rs", &file("/share/x.rs"), &p, 1048576).is_ok());
    let e = s.read_plan("x.rs", &file("/share/x.rs"), &p, 1048577).err().unwrap();
    assert_eq!(e.kind, ErrorKind::SizeLimit);
    assert_eq!(e.message, "File too large: 1.00 MB (limit: 1 MB). Use read_lines tool for partial reads.");
    let e = s.read_plan("x.exe", &file("/share/x.exe"), &p, 3 * 1048576 + 524288).err().unwrap();
    assert_eq!(e.message, "File too large: 3.50 MB (limit: 1 MB). Use read_lines tool for partial reads.");
    let e = s.read_plan("x", &file("/share/secret/x.rs"), &p, 1).err().unwrap();
    assert_eq!(e.message, "Access denied: 'x' is excluded by .mcpignore rules.");
}

#[test]
fn text_goes_out_as_it_came_in() {
    let text = "fn main() {}\n\u{00e9}\u{1F600}\r\n\tend";
    let reply = read_text_reply("src/main.rs", text.to_string());
    assert_eq!(reply.text, text);
    assert_eq!(reply.audit.tool, "read_file");
    assert_eq!(reply.audit.category, "read");
    assert_eq!(reply.audit.path, Some("src/main.rs".to_string()));
    assert_eq!(reply.audit.summary, "Read file contents");
}

#[test]
fn binary_is_base64_under_its_media_type() {
    let reply = read_binary_reply("logo.png", "/share/logo.png", &vec![0u8, 1, 2, 250, 255]).ok().unwrap();
    assert_eq!(reply.text, "[Image/Binary content evaluated as base64]\ndata:image/png;base64,AAEC+v8=");
    let reply = read_binary_reply("x", "/share/x.unknownext", &b"hi".to_vec()).ok().unwrap();
    assert_eq!(reply.text, "[Image/Binary content evaluated as base64]\ndata:text/plain;base64,aGk=");
    let reply = read_binary_reply("x", "/share/x.pdf", &vec![]).ok().unwrap();
    assert_eq!(reply.text, "[Image/Binary content evaluated as base64]\ndata:application/pdf;base64,");
}

fn lines_args(start: Option<usize>, end: Option<usize>, tail: Option<usize>) -> ReadLinesParams {
    ReadLinesParams { path: "a.txt".to_string(), start_line: start, end_line: end, tail }
}

#[test]
fn read_lines_ranges() {
    let (s, p) = server(50);
    let f = file("/share/a.txt");
    let content = "one\ntwo\nthree\nfour\n";
    let r = s.read_lines(&lines_args(Some(2), Some(3), None), &f, &p, content).ok().unwrap();
    assert_eq!(r.text, "File: a.txt (4 total lines)\nShowing lines 2-3:\n\n     2 | two\n     3 | three\n");
    let r = s.read_lines(&lines_args(None, None, Some(1)), &f, &p, content).ok().unwrap();
    assert_eq!(r.text, "File: a.txt (4 total lines)\nShowing lines 4-4:\n\n     4 | four\n");
    let r = s.read_lines(&lines_args(Some(1), None, Some(99)), &f, &p, content).ok().unwrap();
    assert!(r.text.starts_with("File: a.txt (4 total lines)\nShowing lines 1-4:\n\n     1 | one\n"));
    let r = s.read_lines(&lines_args(None, None, None), &f, &p, content).ok().unwrap();
    assert!(r.text.ends_with("     4 | four\n"));
    // A start behind the end of the file is held at the end.
    let r = s.read_lines(&lines_args(Some(50), None, None), &f, &p, content).ok().unwrap();
    assert_eq!(r.text, "File: a.txt (4 total lines)\nShowing lines 5-4:\n\n");
    let r = s.read_lines(&lines_args(Some(0), Some(1), None), &f, &p, content).ok().unwrap();
    assert_eq!(r.text, "File: a.txt (4 total lines)\nShowing lines 1-1:\n\n     1 | one\n");
    // An inverted range shows nothing.
    let r = s.read_lines(&lines_args(Some(3), Some(1), None), &f, &p, content).ok().unwrap();
    assert_eq!(r.text, "File: a.txt (4 total lines)\nShowing lines 3-1:\n\n");
    assert_eq!(r.audit.tool, "read_lines");
    assert_eq!(r.audit.summary, "Read file lines");
}

#[test]
fn read_lines_defaults_to_the_first_hundred() {
    let (s, p) = server(50);
    let content: String = (1..=250).map(|i| format!("l{}\n", i)).collect();
    let r = s.read_lines(&lines_args(None, None, None), &file("/share/a.txt"), &p, &content).ok().unwrap();
    assert!(r.text.starts_with("File: a.txt (250 total lines)\nShowing lines 1-100:\n\n     1 | l1\n"));
    assert!(r.text.ends_with("   100 | l100\n"));
    let r = s.read_lines(&lines_args(Some(200), None, None), &file("/share/a.txt"), &p, &content).ok().unwrap();
    assert!(r.text.contains("Showing lines 200-250:"));
    let missing = Located { absolute: "/share/a.txt".to_string(), kind: PathKind::Missing };
    let e = s.read_lines(&lines_args(None, None, None), &missing, &p, "").err().unwrap();
    assert_eq!((e.kind, e.message.as_str()), (ErrorKind::NotFound, "File not found: a.txt"));
}

#[test]
fn file_info_of_a_text_file() {
    let (s, p) = server(50);
    let facts = FileFacts {
        size: 2048,
        modified: Some("2024-05-01 10:00:00".to_string()),
        content: Some("a\nb\nc".to_string()),
        children: None,
    };
    let r = s.get_file_info("notes.md", &file("/work/notes.md"), &p, &facts).ok().unwrap();
    assert_eq!(
        r.text,
        "Path: notes.md\nType: file\nSize: 2.0 KB (2048 bytes)\nModified: 2024-05-01 10:00:00\n\
         Permission: read-write\nMIME type: text/markdown\nLine count: 3\n"
    );
    assert_eq!(r.audit.tool, "get_file_info");
    assert_eq!(r.audit.summary, "Read file metadata");
}

#[test]
fn file_info_of_other_kinds() {
    let (s, p) = server(50);
    let facts = FileFacts { size: 7, modified: None, content: Some("x".to_string()), children: Some(4) };
    let r = s.get_file_info("a.png", &file("/share/a.png"), &p, &facts).ok().unwrap();
    assert_eq!(
        r.text,
        "Path: a.png\nType: file\nSize: 7 B (7 bytes)\nModified: unknown\nPermission: read-only\nMIME type: image/png\n"
    );
    let d = Located { absolute: "/share/sub".to_string(), kind: PathKind::Directory };
    let r = s.get_file_info("sub", &d, &p, &facts).ok().unwrap();
    assert!(r.text.ends_with("Permission: read-only\nChildren: 4 items\n"));
    assert!(r.text.contains("Type: directory\n"));
    let o = Located { absolute: "/share/sock".to_string(), kind: PathKind::Other };
    let r = s.get_file_info("sock", &o, &p, &facts).ok().unwrap();
    assert!(r.text.ends_with("Type: symlink/other\nSize: 7 B (7 bytes)\nModified: unknown\nPermission: read-only\n"));
    let m = Located { absolute: "/share/none".to_string(), kind: PathKind::Missing };
    let e = s.get_file_info("none", &m, &p, &facts).err().unwrap();
    assert_eq!((e.kind, e.message.as_str()), (ErrorKind::NotFound, "Path not found: none"));
    assert!(wants_line_count("/share/a.rs"));
    assert!(!wants_line_count("/share/a.png"));
    assert!(!wants_line_count("/share/a.bin"));
}

fn batch_args(paths: usize, max_bytes: u64) -> BatchReadParams {
    BatchReadParams {
        paths: (0..paths).map(|i| format!("/share/f{}.txt", i)).collect(),
        max_bytes,
        limit_label: "5.0".to_string(),
    }
}

#[test]
fn batch_read_bounds() {
    let e = batch_begin(&batch_args(0, 10)).err().unwrap();
    assert_eq!((e.kind, e.message.as_str()), (ErrorKind::InvalidInput, "paths array is empty. Provide at least one file path."));
    let e = batch_begin(&batch_args(51, 10)).err().unwrap();
    assert_eq!(e.message, "Too many paths (max 50). Split into multiple calls.");
    assert!(batch_begin(&batch_args(50, 10)).is_ok());
}

#[test]
fn batch_read_goes_on_past_errors() {
    let (s, p) = server(50);
    let args = batch_args(7, 10);
    let mut state = batch_begin(&args).ok().unwrap();
    assert!(!s.batch_check(&args, &mut state, "/etc/x", &file("/etc/x"), &p, &Ok(1)));
    let d = Located { absolute: "/share/d".to_string(), kind: PathKind::Directory };
    assert!(!s.batch_check(&args, &mut state, "/share/d", &d, &p, &Ok(1)));
    assert!(!s.batch_check(&args, &mut state, "/share/m", &file("/share/m"), &p, &Err("denied".to_string())));
    assert!(!s.batch_check(&args, &mut state, "/share/c.png", &file("/share/c.png"), &p, &Ok(4)));
    assert!(s.batch_check(&args, &mut state, "/share/a.txt", &file("/share/a.txt"), &p, &Ok(6)));
    batch_record(&mut state, "/share/a.txt", &Ok("h\u{00e9}llo".to_string()));
    assert_eq!(state.total_bytes, 6);
    assert!(!state.exhausted);
    assert!(!s.batch_check(&args, &mut state, "/share/b.txt", &file("/share/b.txt"), &p, &Ok(5)));
    assert!(state.exhausted);
    assert!(!s.batch_check(&args, &mut state, "/share/e.txt", &file("/share/e.txt"), &p, &Ok(4)));
    assert_eq!(state.total_bytes, 6);
    let reply = batch_finish(&args, state);
    assert_eq!(
        reply.text,
        "Batch read: 7 file(s), 6 B\n\n\
         --- /etc/x ---\nERROR: Access denied: Path '/etc/x' is not within any shared folder.\n\n\
         --- /share/d ---\nERROR: Not a file\n\n\
         --- /share/m ---\nERROR: denied\n\n\
         --- /share/c.png ---\nSKIPPED: Binary file. Use read_file for binary content.\n\n\
         --- /share/a.txt ---\nh\u{00e9}llo\n\n\
         --- /share/b.txt ---\nSKIPPED: Would exceed max_total_size_mb (5.0 MB). Use a separate call.\n\n\
         --- /share/e.txt ---\nSKIPPED: Would exceed max_total_size_mb (5.0 MB). Use a separate call.\n"
    );
    assert_eq!(reply.audit.tool, "batch_read");
    assert_eq!(reply.audit.path, Some("7 paths".to_string()));
    assert_eq!(reply.audit.summary, "Batch read files");
}

#[test]
fn batch_read_goes_on_past_a_file_that_cannot_be_read() {
    let (s, p) = server(50);
    let args = batch_args(2, 10);
    let mut state = batch_begin(&args).ok().unwrap();
    assert!(s.batch_check(&args, &mut state, "/share/e.txt", &file("/share/e.txt"), &p, &Ok(4)));
    batch_record(&mut state, "/share/e.txt", &Err("bad utf-8".to_string()));
    assert_eq!(state.total_bytes, 0);
    assert!(!state.exhausted);
    assert!(s.batch_check(&args, &mut state, "/share/a.txt", &file("/share/a.txt"), &p, &Ok(10)));
    batch_record(&mut state, "/share/a.txt", &Ok("0123456789".to_string()));
    let reply = batch_finish(&args, state);
    assert_eq!(
        reply.text,
        "Batch read: 2 file(s), 10 B\n\n--- /share/e.txt ---\nERROR: bad utf-8\n\n\
         --- /share/a.txt ---\n0123456789\n"
    );
}

#[test]
fn batch_read_accepts_nothing_once_the_budget_is_reached() {
    let (s, p) = server(50);
    let args = batch_args(4, 10);
    let mut state = batch_begin(&args).ok().unwrap();
    assert!(s.batch_check(&args, &mut state, "/share/a.txt", &file("/share/a.txt"), &p, &Ok(6)));
    batch_record(&mut state, "/share/a.txt", &Ok("aaaaaa".to_string()));
    // b would take the answer to 11 bytes of 10.
    assert!(!s.batch_check(&args, &mut state, "/share/b.txt", &file("/share/b.txt"), &p, &Ok(5)));
    assert!(state.exhausted);
    // c would fit, and is not read either.
    assert!(!s.batch_check(&args, &mut state, "/share/c.txt", &file("/share/c.txt"), &p, &Ok(4)));
    assert!(!s.batch_check(&args, &mut state, "/share/d.txt", &file("/share/d.txt"), &p, &Ok(0)));
    // A path that is denied keeps its own reason.
    assert!(!s.batch_check(&args, &mut state, "/etc/x", &file("/etc/x"), &p, &Ok(1)));
    assert_eq!(state.total_bytes, 6);
    let reply = batch_finish(&args, state);
    let skipped = "SKIPPED: Would exceed max_total_size_mb (5.0 MB). Use a separate call.";
    assert_eq!(
        reply.text,
        format!(
            "Batch read: 4 file(s), 6 B\n\n--- /share/a.txt ---\naaaaaa\n\n\
             --- /share/b.txt ---\n{0}\n\n--- /share/c.txt ---\n{0}\n\n--- /share/d.txt ---\n{0}\n\n\
             --- /etc/x ---\nERROR: Access denied: Path '/etc/x' is not within any shared folder.\n",
            skipped
        )
    );
}

#[test]
fn batch_read_takes_a_file_that_fills_the_budget() {
    let (s, p) = server(50);
    let args = batch_args(2, 10);
    let mut state = batch_begin(&args).ok().unwrap();
    assert!(s.batch_check(&args, &mut state, "/share/a.txt", &file("/share/a.txt"), &p, &Ok(10)));
    batch_record(&mut state, "/share/a.txt", &Ok("0123456789".to_string()));
    assert!(!state.exhausted);
    assert!(s.batch_check(&args, &mut state, "/share/b.txt", &file("/share/b.txt"), &p, &Ok(0)));
    assert!(!s.batch_check(&args, &mut state, "/share/c.txt", &file("/share/c.txt"), &p, &Ok(1)));
    assert!(state.exhausted);
}

fn grep_args(pattern: &str, is_regex: bool, ci: bool, max: usize, exts: Option<Vec<&str>>) -> GrepContentParams {
    GrepContentParams {
        pattern: pattern.to_string(),
        root_path: "/share".to_string(),
        is_regex,
        case_insensitive: ci,
        max_results: max,
        include_extensions: exts.map(|v| v.into_iter().map(|s| s.to_string()).collect()),
    }
}

fn root() -> Located {
    Located { absolute: "/share".to_string(), kind: PathKind::Directory }
}

fn text_lines(lines: &[&str]) -> Vec<Option<String>> {
    lines.iter().map(|l| Some(l.to_string())).collect()
}

#[test]
fn grep_literal_pattern_is_escaped() {
    let (s, p) = server(50);
    let args = grep_args("a.c", false, false, 0, None);
    let mut search = s.grep_begin(&args, &root(), &p).ok().unwrap();
    assert_eq!(search.limit(), 50);
    assert_eq!(search.pattern(), "a\\.c");
    let full = grep_file(&mut search, "/share/x.txt", &text_lines(&["abc", "xa.cx", "A.C"]));
    assert!(!full);
    assert_eq!(*search.results(), vec!["/share/x.txt:2:xa.cx".to_string()]);
    let reply = grep_finish(&args, search);
    assert_eq!(reply.text, "Found 1 match(es) for 'a.c':\n\n/share/x.txt:2:xa.cx");
    assert_eq!(reply.audit.tool, "grep_content");
    assert_eq!(reply.audit.summary, "Grepped for a.c");
    assert_eq!(reply.audit.path, Some("/share".to_string()));
}

#[test]
fn grep_regex_and_case() {
    let (s, p) = server(50);
    let args = grep_args("^fn\\s+\\w+", true, true, 500, None);
    let mut search = s.grep_begin(&args, &root(), &p).ok().unwrap();
    assert_eq!(search.limit(), 200);
    assert_eq!(search.pattern(), "(?i)^fn\\s+\\w+");
    let lines = vec![Some("FN main()".to_string()), None, Some(" fn x".to_string()), Some("fn  y()".to_string())];
    grep_file(&mut search, "/share/a.rs", &lines);
    assert_eq!(*search.results(), vec!["/share/a.rs:1:FN main()".to_string(), "/share/a.rs:4:fn  y()".to_string()]);
    let args = grep_args("(", true, false, 1, None);
    let e = s.grep_begin(&args, &root(), &p).err().unwrap();
    assert_eq!(e.kind, ErrorKind::MalformedPattern);
    assert_eq!(e.message, format!("Invalid regex '(': {}", regex::Regex::new("(").err().unwrap()));
    // The same text is fine as a literal.
    assert!(s.grep_begin(&grep_args("(", false, false, 1, None), &root(), &p).is_ok());
}

#[test]
fn grep_stops_at_its_limit_and_clips_lines() {
    let (s, p) = server(50);
    let args = grep_args("x", false, false, 2, None);
    let mut search = s.grep_begin(&args, &root(), &p).ok().unwrap();
    let long: String = "x".repeat(150) + &"\u{00e9}".repeat(100);
    assert!(!grep_file(&mut search, "/share/a.txt", &text_lines(&["no", &long])));
    assert_eq!(search.results()[0], format!("/share/a.txt:2:{}{}", "x".repeat(150), "\u{00e9}".repeat(50)));
    assert!(grep_file(&mut search, "/share/b.txt", &text_lines(&["x1", "x2", "x3"])));
    assert_eq!(search.results().len(), 2);
    assert_eq!(search.results()[1], "/share/b.txt:1:x1");
    // A search that is full takes nothing more.
    assert!(grep_file(&mut search, "/share/c.txt", &text_lines(&["x"])));
    assert_eq!(search.results().len(), 2);
}

#[test]
fn grep_without_match() {
    let (s, p) = server(50);
    let args = grep_args("needle", false, false, 5, None);
    let mut search = s.grep_begin(&args, &root(), &p).ok().unwrap();
    grep_file(&mut search, "/share/a.txt", &text_lines(&["hay"]));
    let reply = grep_finish(&args, search);
    assert_eq!(reply.text, "No matches found for 'needle' in /share");
}

#[test]
fn grep_root_must_be_a_directory() {
    let (s, p) = server(50);
    let args = grep_args("x", false, false, 5, None);
    let e = s.grep_begin(&args, &file("/share"), &p).err().unwrap();
    assert_eq!((e.kind, e.message.as_str()), (ErrorKind::InvalidInput, "root_path must be a directory: /share"));
    let out = Located { absolute: "/nope".to_string(), kind: PathKind::Directory };
    assert_eq!(s.grep_begin(&args, &out, &p).err().unwrap().kind, ErrorKind::SandboxDenial);
    assert_eq!(grep_walk_depth(), 20);
}

fn candidate(path: &str, is_file: bool, size: Option<u64>) -> GrepCandidate {
    GrepCandidate { path: path.to_string(), is_file, size }
}

#[test]
fn grep_file_filter() {
    let (s, p) = server(1);
    let any = grep_args("x", false, false, 5, None);
    assert!(s.grep_accepts(&any, &candidate("/share/a.rs", true, Some(10)), &p));
    assert!(s.grep_accepts(&any, &candidate("/share/a.rs", true, None), &p));
    assert!(s.grep_accepts(&any, &candidate("/share/a.rs", true, Some(1048576)), &p));
    assert!(!s.grep_accepts(&any, &candidate("/share/a.rs", true, Some(1048577)), &p));
    assert!(!s.grep_accepts(&any, &candidate("/share/a.rs", false, Some(1)), &p));
    assert!(!s.grep_accepts(&any, &candidate("/share/a.png", true, Some(1)), &p));
    assert!(!s.grep_accepts(&any, &candidate("/share/a.exe", true, Some(1)), &p));
    assert!(!s.grep_accepts(&any, &candidate("/share/secret/a.rs", true, Some(1)), &p));
    assert!(!s.grep_accepts(&any, &candidate("/other/a.rs", true, Some(1)), &p));
    let only = grep_args("x", false, false, 5, Some(vec!["PY", "Rs"]));
    assert!(s.grep_accepts(&only, &candidate("/share/a.rs", true, Some(1)), &p));
    assert!(s.grep_accepts(&only, &candidate("/share/a.py", true, Some(1)), &p));
    assert!(!s.grep_accepts(&only, &candidate("/share/a.md", true, Some(1)), &p));
    assert!(!s.grep_accepts(&only, &candidate("/share/Makefile", true, Some(1)), &p));
    let empty = grep_args("x", false, false, 5, Some(vec![""]));
    assert!(s.grep_accepts(&empty, &candidate("/share/Makefile", true, Some(1)), &p));
}

#[test]
fn search_globs_per_folder() {
    let (s, _) = server(50);
    let args = SearchFilesParams { pattern: "  *.rs ".to_string(), root_path: None };
    assert_eq!(s.search_globs(&args), vec!["/share/**/*.rs".to_string(), "/work/**/*.rs".to_string()]);
    let args = SearchFilesParams { pattern: "src/*.rs".to_string(), root_path: Some("/work/sub".to_string()) };
    assert_eq!(s.search_globs(&args), vec!["/work/src/*.rs".to_string()]);
    let args = SearchFilesParams { pattern: "a\\b".to_string(), root_path: Some("/".to_string()) };
    assert_eq!(s.search_globs(&args), vec!["/share/a\\b".to_string(), "/work/a\\b".to_string()]);
    let args = SearchFilesParams { pattern: "x".to_string(), root_path: Some("/elsewhere".to_string()) };
    assert!(s.search_globs(&args).is_empty());
}

#[test]
fn search_reports_files_in_the_sandbox() {
    let (s, p) = server(50);
    assert!(s.search_accepts("/share/a.rs", true, &p));
    assert!(!s.search_accepts("/share/a.rs", false, &p));
    assert!(!s.search_accepts("/share/secret/a.rs", true, &p));
    assert!(!s.search_accepts("/off/a.rs", true, &p));
}

#[test]
fn search_reply_caps_at_a_hundred() {
    let args = SearchFilesParams { pattern: "*.rs".to_string(), root_path: None };
    let reply = search_reply(&args, vec![]);
    assert_eq!(reply.text, "No matching files found.");
    assert_eq!(reply.audit.tool, "search_files");
    assert_eq!(reply.audit.path, Some("*.rs".to_string()));
    assert_eq!(reply.audit.summary, "Searched files");
    let reply = search_reply(&args, vec!["/a".to_string(), "/b".to_string()]);
    assert_eq!(reply.text, "/a\n/b");
    let hundred: Vec<String> = (0..100).map(|i| format!("/f{}", i)).collect();
    let reply = search_reply(&args, hundred.clone());
    assert_eq!(reply.text, hundred.join("\n"));
    let many: Vec<String> = (0..137).map(|i| format!("/f{}", i)).collect();
    let reply = search_reply(&args, many);
    assert_eq!(reply.text, hundred.join("\n") + "\n... and 37 more results");
}

#[test]
fn literal_patterns_escape_every_meta_character() {
    let (s, p) = server(50);
    let pattern = "\\.+*?()|[]{}^$#&-~ plain_09/%é";
    let search = s.grep_begin(&grep_args(pattern, false, false, 1, None), &root(), &p).ok().unwrap();
    assert_eq!(
        search.pattern(),
        "\\\\\\.\\+\\*\\?\\(\\)\\|\\[\\]\\{\\}\\^\\$\\#\\&\\-\\~ plain_09/%é"
    );
    assert_eq!(search.pattern(), regex::escape(pattern));
    assert_eq!(escape_literal(pattern), regex::escape(pattern));
    let mut n: u32 = 0;
    while n < 0x3000 {
        if let Some(c) = char::from_u32(n) {
            let text = format!("a{}b", c);
            assert_eq!(escape_literal(&text), regex::escape(&text), "at {:x}", n);
        }
        n += 1;
    }
    assert_eq!(escape_literal(""), "");
    let search = s.grep_begin(&grep_args(pattern, false, true, 1, None), &root(), &p).ok().unwrap();
    assert_eq!(search.pattern(), format!("(?i){}", regex::escape(pattern)));
}
