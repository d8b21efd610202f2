use omnidrive::config::{AppConfig, Permission, SharedFolder};
use omnidrive::sandbox::{
    exclusion_rules, is_ignored, validate_destructive, validate_path, validate_writable,
    FolderProbe,
};

fn folder(path: &str, permission: Permission, enabled: bool) -> SharedFolder {
    SharedFolder { path: path.to_string(), permission, enabled, available: true }
}

fn probe(root: Option<&str>, rules: Option<&str>) -> FolderProbe {
    FolderProbe {
        canonical_root: root.map(|s| s.to_string()),
        ignore_rules: rules.map(|s| s.to_string()),
    }
}

fn test_config() -> AppConfig {
    AppConfig {
        folders: vec![folder("/tmp/test-shared", Permission::ReadWrite, true)],
        max_file_size_mb: 50,
    }
}

fn check(path: &str, config: &AppConfig, probes: &Vec<FolderProbe>) -> Result<String, String> {
    validate_path(path, path, config, probes).map(|v| v.folder.path)
}

#[test]
fn path_inside_an_enabled_folder_is_allowed() {
    let config = test_config();
    let probes = vec![probe(Some("/tmp/test-shared"), None)];
    let v = validate_path("notes.txt", "/tmp/test-shared/notes.txt", &config, &probes).ok().unwrap();
    assert_eq!(v.canonical_path, "/tmp/test-shared/notes.txt");
    assert_eq!(v.folder.path, "/tmp/test-shared");
    assert_eq!(check("/tmp/test-shared", &config, &probes), Ok("/tmp/test-shared".to_string()));
    assert_eq!(check("/tmp/test-shared/", &config, &probes), Ok("/tmp/test-shared".to_string()));
    assert_eq!(check("/tmp/test-shared\\a", &config, &probes), Ok("/tmp/test-shared".to_string()));
}

#[test]
fn path_outside_every_folder_is_denied() {
    let config = test_config();
    let probes = vec![probe(Some("/tmp/test-shared"), None)];
    assert_eq!(
        check("/etc/passwd", &config, &probes),
        Err("Access denied: Path '/etc/passwd' is not within any shared folder.".to_string())
    );
    assert_eq!(
        check("/tmp", &config, &probes),
        Err("Access denied: Path '/tmp' is not within any shared folder.".to_string())
    );
}

#[test]
fn shared_prefix_without_boundary_is_denied() {
    let config = AppConfig {
        folders: vec![folder("/a/f", Permission::ReadOnly, true)],
        max_file_size_mb: 50,
    };
    let probes = vec![probe(Some("/a/f"), None)];
    assert!(check("/a/foo", &config, &probes).is_err());
    assert!(check("/a/f.txt", &config, &probes).is_err());
    assert!(check("/a/f/oo", &config, &probes).is_ok());
    assert!(check("/a/f", &config, &probes).is_ok());
}

#[test]
fn disabled_or_unresolved_folders_match_nothing() {
    let config = AppConfig {
        folders: vec![
            folder("/one", Permission::ReadWrite, false),
            folder("/two", Permission::ReadWrite, true),
            folder("/three", Permission::ReadWrite, true),
        ],
        max_file_size_mb: 50,
    };
    let probes = vec![probe(Some("/one"), None), probe(None, None)];
    assert!(check("/one/x", &config, &probes).is_err());
    assert!(check("/two/x", &config, &probes).is_err());
    // No probe at all for the third folder.
    assert!(check("/three/x", &config, &probes).is_err());
}

#[test]
fn the_first_matching_folder_decides() {
    let config = AppConfig {
        folders: vec![
            folder("/data", Permission::ReadOnly, true),
            folder("/data/inner", Permission::ReadWrite, true),
        ],
        max_file_size_mb: 50,
    };
    let probes = vec![probe(Some("/data"), None), probe(Some("/data/inner"), None)];
    let v = validate_path("/data/inner/x", "/data/inner/x", &config, &probes).ok().unwrap();
    assert_eq!(v.folder.path, "/data");
    assert_eq!(v.folder.permission, Permission::ReadOnly);
}

#[test]
fn traversal_is_vetoed_even_inside_a_name() {
    let config = test_config();
    let probes = vec![probe(Some("/tmp/test-shared"), None)];
    assert_eq!(
        validate_path("../x", "/tmp/test-shared/../x", &config, &probes).err().unwrap(),
        "Access denied: Path traversal characters '..' are not allowed: ../x"
    );
    // Two dots inside a file name are refused as well.
    assert_eq!(
        check("/tmp/test-shared/archive..old.zip", &config, &probes),
        Err("Access denied: Path traversal characters '..' are not allowed: /tmp/test-shared/archive..old.zip".to_string())
    );
    assert!(check("/tmp/test-shared/archive.old.zip", &config, &probes).is_ok());
}

#[test]
fn bare_name_rule_excludes_at_any_depth() {
    let rules = "node_modules\n";
    assert!(is_ignored("/root/node_modules", "/root", rules));
    assert!(is_ignored("/root/pkg/node_modules/x/y", "/root", rules));
    assert!(is_ignored("/root/node_modules/x", "/root", rules));
    assert!(!is_ignored("/root/node_modules_old", "/root", rules));
    assert!(!is_ignored("/root/src/main.rs", "/root", rules));
    assert!(!is_ignored("/root", "/root", rules));
}

#[test]
fn directory_rule_excludes_every_descendant() {
    let rules = "build/\n";
    assert!(is_ignored("/root/build/out.txt", "/root", rules));
    assert!(is_ignored("/root/build/a/b/c.o", "/root", rules));
    assert!(!is_ignored("/root/src/build.rs", "/root", rules));
    assert!(!is_ignored("/root/rebuild/x", "/root", rules));
}

#[test]
fn rule_file_syntax() {
    let rules = "# comment\n\n   \n  *.log  \r\nsecret/*.key\n[\n";
    assert!(is_ignored("/r/app.log", "/r", rules));
    assert!(is_ignored("/r/deep/er/app.log", "/r", rules));
    assert!(is_ignored("/r/secret/a.key", "/r", rules));
    assert!(!is_ignored("/r/other/a.key", "/r", rules));
    assert!(!is_ignored("/r/comment", "/r", rules));
    assert!(!is_ignored("/r/#", "/r", "#\n"));
    // A target outside the root is not excluded by its rules.
    assert!(!is_ignored("/s/app.log", "/r", rules));
}

#[test]
fn relative_path_skips_separators_and_dot_components() {
    assert!(is_ignored("/r//x.log", "/r", "/x.log\nx.log"));
    assert!(is_ignored("/r/./tmp", "/r", "tmp"));
    assert!(is_ignored("/r/a/tmp", "/r", "a/tmp"));
    assert!(!is_ignored("/r/.tmp", "/r", "tmp"));
}

#[test]
fn excluded_path_has_its_own_reason() {
    let config = test_config();
    let probes = vec![probe(Some("/tmp/test-shared"), Some("node_modules\n"))];
    assert_eq!(
        check("/tmp/test-shared/node_modules/a.js", &config, &probes),
        Err("Access denied: '/tmp/test-shared/node_modules/a.js' is excluded by .mcpignore rules.".to_string())
    );
    assert!(check("/tmp/test-shared/src/a.js", &config, &probes).is_ok());
}

#[test]
fn writable_needs_read_write() {
    let config = AppConfig {
        folders: vec![
            folder("/ro", Permission::ReadOnly, true),
            folder("/rw", Permission::ReadWrite, true),
        ],
        max_file_size_mb: 50,
    };
    let probes = vec![probe(Some("/ro"), None), probe(Some("/rw"), None)];
    assert_eq!(
        validate_writable("/ro/a", "/ro/a", &config, &probes).err().unwrap(),
        "Write access denied: '/ro/a' is in a read-only shared folder. The folder '/ro' must be set to Read/Write mode in OmniDrive."
    );
    assert!(validate_writable("/rw/a", "/rw/a", &config, &probes).is_ok());
    assert_eq!(
        validate_writable("/x/a", "/x/a", &config, &probes).err().unwrap(),
        "Access denied: Path '/x/a' is not within any shared folder."
    );
}

#[test]
fn destructive_needs_an_existing_path() {
    let config = test_config();
    let probes = vec![probe(Some("/tmp/test-shared"), None)];
    assert_eq!(
        validate_destructive("/tmp/test-shared/a", "/tmp/test-shared/a", &config, &probes, false)
            .err()
            .unwrap(),
        "Path not found: '/tmp/test-shared/a'. Cannot perform destructive operation on a non-existent path."
    );
    assert!(validate_destructive("/tmp/test-shared/a", "/tmp/test-shared/a", &config, &probes, true).is_ok());
}

#[test]
fn exclusion_file_is_read_line_by_line() {
    assert_eq!(exclusion_rules(&b"".to_vec()), "\n");
    assert_eq!(exclusion_rules(&b"a\nb".to_vec()), "a\nb\n");
    assert_eq!(exclusion_rules(&b"a\r\n\nb\n".to_vec()), "a\r\n\nb\n\n");
    // A line that is no UTF-8 is left out; the lines around it stay.
    let mut bytes = b"node_modules\n".to_vec();
    bytes.extend_from_slice(&[0xff, 0xfe, b'x', b'\n']);
    bytes.extend_from_slice("caf\u{00e9}/\n".as_bytes());
    bytes.extend_from_slice(&[0xc3]);
    assert_eq!(exclusion_rules(&bytes), "node_modules\ncaf\u{00e9}/\n");
    let rules = exclusion_rules(&bytes);
    assert!(is_ignored("/r/node_modules/x", "/r", &rules));
    assert!(is_ignored("/r/caf\u{00e9}/x", "/r", &rules));
    assert!(!is_ignored("/r/x", "/r", &rules));
}
