use omnidrive::config::FileCategory;
use omnidrive::file_filter::{get_file_category, is_file_supported, is_supported};
use omnidrive::sandbox::{is_binary_file, is_image, is_pdf, is_supported_extension};

#[test]
fn test_supported_extensions() {
    assert!(is_supported_extension("test.rs"));
    assert!(is_supported_extension("test.py"));
    assert!(is_supported_extension("test.json"));
    assert!(is_supported_extension("test.pdf"));
    assert!(is_supported_extension("test.png"));
}

#[test]
fn sandbox_test_unsupported_extensions() {
    assert!(!is_supported_extension("test.exe"));
    assert!(!is_supported_extension("test.zip"));
    assert!(!is_supported_extension("test.pptx"));
    assert!(!is_supported_extension("test.mp4"));
}

#[test]
fn test_binary_detection() {
    assert!(is_binary_file("test.png"));
    assert!(is_binary_file("test.pdf"));
    assert!(!is_binary_file("test.rs"));
    assert!(!is_binary_file("test.md"));
}

#[test]
fn sandbox_test_extensionless_files() {
    assert!(is_supported_extension("Makefile"));
    assert!(is_supported_extension("Dockerfile"));
    assert!(!is_supported_extension("randomname"));
}

#[test]
fn test_supported_code_extensions() {
    assert!(is_supported("rs"));
    assert!(is_supported("py"));
    assert!(is_supported("js"));
    assert!(is_supported("tsx"));
}

#[test]
fn test_supported_text_extensions() {
    assert!(is_supported("txt"));
    assert!(is_supported("md"));
    assert!(is_supported("csv"));
}

#[test]
fn test_supported_data_extensions() {
    assert!(is_supported("json"));
    assert!(is_supported("yaml"));
    assert!(is_supported("toml"));
}

#[test]
fn test_supported_image_extensions() {
    assert!(is_supported("png"));
    assert!(is_supported("jpg"));
    assert!(is_supported("svg"));
}

#[test]
fn mod_test_unsupported_extensions() {
    assert!(!is_supported("exe"));
    assert!(!is_supported("dll"));
    assert!(!is_supported("zip"));
    assert!(!is_supported("mp4"));
    assert!(!is_supported("pptx"));
    assert!(!is_supported("docx"));
    assert!(!is_supported("xlsx"));
}

#[test]
fn test_case_insensitive() {
    assert!(is_supported("RS"));
    assert!(is_supported("Py"));
    assert!(is_supported("JSON"));
}

#[test]
fn mod_test_extensionless_files() {
    assert!(is_file_supported("Makefile"));
    assert!(is_file_supported("Dockerfile"));
    assert!(is_file_supported("LICENSE"));
    assert!(!is_file_supported("randomfile"));
}

#[test]
fn test_file_category() {
    assert_eq!(get_file_category("rs"), FileCategory::Code);
    assert_eq!(get_file_category("md"), FileCategory::Text);
    assert_eq!(get_file_category("json"), FileCategory::Data);
    assert_eq!(get_file_category("pdf"), FileCategory::Document);
    assert_eq!(get_file_category("png"), FileCategory::Image);
    assert_eq!(get_file_category("exe"), FileCategory::Unsupported);
}

#[test]
fn category_ignores_leading_dots_and_case() {
    assert_eq!(get_file_category(".RS"), FileCategory::Code);
    assert_eq!(get_file_category("..Json"), FileCategory::Data);
    assert_eq!(get_file_category("sass"), FileCategory::Data);
    assert_eq!(get_file_category("editorconfig"), FileCategory::Text);
    assert_eq!(get_file_category(""), FileCategory::Unsupported);
}

#[test]
fn sandbox_list_leaves_out_two_filter_extensions() {
    assert!(is_file_supported("style.sass"));
    assert!(!is_supported_extension("style.sass"));
    assert!(is_file_supported("x.editorconfig"));
    assert!(!is_supported_extension("x.editorconfig"));
}

#[test]
fn extension_is_read_from_the_last_component() {
    assert!(is_supported_extension("dir.d/notes.TXT"));
    assert!(!is_supported_extension("dir.rs/notes"));
    assert!(is_supported_extension("dir.rs/Makefile"));
    assert!(!is_supported_extension(".gitignore"));
    assert!(is_supported_extension("a.gitignore"));
    assert!(!is_supported_extension(".."));
    assert!(!is_supported_extension(""));
    assert!(is_supported_extension("Makefile/"));
}

#[test]
fn non_ascii_extension_goes_through_unicode_lowercase() {
    // The Kelvin sign lowers to an ASCII `k`.
    assert!(is_supported_extension("main.\u{212A}t"));
    assert!(!is_supported_extension("main.\u{00C9}t"));
    assert!(is_supported("\u{212A}T"));
}

#[test]
fn pdf_and_image_names() {
    assert!(is_pdf("a.PDF"));
    assert!(!is_pdf("pdf"));
    assert!(is_image("logo.SVG"));
    assert!(!is_binary_file("logo.svg"));
    assert!(is_image("x.ico"));
    assert!(!is_image("x.pdf"));
}
