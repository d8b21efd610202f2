//! Which files agents can be given, by extension.

use vstd::prelude::*;
use crate::config::FileCategory;
use crate::names::{extension, extension_of, file_name, file_name_of};
use crate::text::{chars_of, lowercase, lowered, same_str, slice_of};

verus! {

/// The extensions of source code.
pub open spec fn is_code_extension(e: Seq<char>) -> bool {
    e == "rs"@ || e == "py"@ || e == "js"@ || e == "ts"@ || e == "tsx"@ || e == "jsx"@
        || e == "go"@ || e == "java"@ || e == "c"@ || e == "cpp"@ || e == "h"@ || e == "hpp"@
        || e == "rb"@ || e == "php"@ || e == "swift"@ || e == "kt"@ || e == "sh"@ || e == "bat"@
        || e == "ps1"@ || e == "r"@ || e == "scala"@ || e == "lua"@ || e == "dart"@ || e == "zig"@
        || e == "nim"@ || e == "ex"@ || e == "exs"@ || e == "clj"@ || e == "hs"@ || e == "ml"@
        || e == "fs"@ || e == "cs"@
}

/// The extensions of plain text.
pub open spec fn is_text_extension(e: Seq<char>) -> bool {
    e == "txt"@ || e == "md"@ || e == "csv"@ || e == "log"@ || e == "env"@ || e == "gitignore"@
        || e == "dockerignore"@ || e == "editorconfig"@
}

/// The extensions of data and markup.
pub open spec fn is_data_extension(e: Seq<char>) -> bool {
    e == "json"@ || e == "yaml"@ || e == "yml"@ || e == "toml"@ || e == "xml"@ || e == "html"@
        || e == "htm"@ || e == "css"@ || e == "scss"@ || e == "sass"@ || e == "less"@
        || e == "sql"@ || e == "graphql"@ || e == "proto"@ || e == "ini"@ || e == "cfg"@
        || e == "conf"@
}

/// The extensions of documents.
pub open spec fn is_document_extension(e: Seq<char>) -> bool {
    e == "pdf"@
}

/// The extensions of images.
pub open spec fn is_image_extension(e: Seq<char>) -> bool {
    e == "png"@ || e == "jpg"@ || e == "jpeg"@ || e == "gif"@ || e == "webp"@ || e == "svg"@
        || e == "bmp"@ || e == "ico"@
}

/// The file names without an extension that count as text.
pub open spec fn is_bare_name(name: Seq<char>) -> bool {
    name == "Makefile"@ || name == "Dockerfile"@ || name == "Jenkinsfile"@
        || name == "Vagrantfile"@ || name == "Gemfile"@ || name == "Rakefile"@
        || name == "Procfile"@ || name == "LICENSE"@ || name == "README"@ || name == "CHANGELOG"@
        || name == "CONTRIBUTING"@ || name == "AUTHORS"@
}

fn code_extension(e: &Vec<char>) -> (r: bool)
    ensures
        r == is_code_extension(e@),
{
    same_str(e, "rs") || same_str(e, "py") || same_str(e, "js") || same_str(e, "ts")
        || same_str(e, "tsx") || same_str(e, "jsx") || same_str(e, "go") || same_str(e, "java")
        || same_str(e, "c") || same_str(e, "cpp") || same_str(e, "h") || same_str(e, "hpp")
        || same_str(e, "rb") || same_str(e, "php") || same_str(e, "swift") || same_str(e, "kt")
        || same_str(e, "sh") || same_str(e, "bat") || same_str(e, "ps1") || same_str(e, "r")
        || same_str(e, "scala") || same_str(e, "lua") || same_str(e, "dart") || same_str(e, "zig")
        || same_str(e, "nim") || same_str(e, "ex") || same_str(e, "exs") || same_str(e, "clj")
        || same_str(e, "hs") || same_str(e, "ml") || same_str(e, "fs") || same_str(e, "cs")
}

fn text_extension(e: &Vec<char>) -> (r: bool)
    ensures
        r == is_text_extension(e@),
{
    same_str(e, "txt") || same_str(e, "md") || same_str(e, "csv") || same_str(e, "log")
        || same_str(e, "env") || same_str(e, "gitignore") || same_str(e, "dockerignore")
        || same_str(e, "editorconfig")
}

fn data_extension(e: &Vec<char>) -> (r: bool)
    ensures
        r == is_data_extension(e@),
{
    same_str(e, "json") || same_str(e, "yaml") || same_str(e, "yml") || same_str(e, "toml")
        || same_str(e, "xml") || same_str(e, "html") || same_str(e, "htm") || same_str(e, "css")
        || same_str(e, "scss") || same_str(e, "sass") || same_str(e, "less") || same_str(e, "sql")
        || same_str(e, "graphql") || same_str(e, "proto") || same_str(e, "ini")
        || same_str(e, "cfg") || same_str(e, "conf")
}

fn document_extension(e: &Vec<char>) -> (r: bool)
    ensures
        r == is_document_extension(e@),
{
    same_str(e, "pdf")
}

fn image_extension(e: &Vec<char>) -> (r: bool)
    ensures
        r == is_image_extension(e@),
{
    same_str(e, "png") || same_str(e, "jpg") || same_str(e, "jpeg") || same_str(e, "gif")
        || same_str(e, "webp") || same_str(e, "svg") || same_str(e, "bmp") || same_str(e, "ico")
}

/// Whether `name` is a file name without an extension that counts as text.
pub fn bare_name(name: &Vec<char>) -> (r: bool)
    ensures
        r == is_bare_name(name@),
{
    same_str(name, "Makefile") || same_str(name, "Dockerfile") || same_str(name, "Jenkinsfile")
        || same_str(name, "Vagrantfile") || same_str(name, "Gemfile")
        || same_str(name, "Rakefile") || same_str(name, "Procfile") || same_str(name, "LICENSE")
        || same_str(name, "README") || same_str(name, "CHANGELOG")
        || same_str(name, "CONTRIBUTING") || same_str(name, "AUTHORS")
}

/// The index of the first character of `s` at or after `from` that is no
/// dot, or the length of `s`.
pub open spec fn skip_dots(s: Seq<char>, from: int) -> int
    decreases s.len() - from,
{
    if from < 0 || from >= s.len() {
        s.len() as int
    } else if s[from] == '.' {
        skip_dots(s, from + 1)
    } else {
        from
    }
}

/// An extension as the category lists hold it: in lowercase and without
/// leading dots.
pub open spec fn normal_extension(extension: Seq<char>) -> Seq<char> {
    let low = lowered(extension);
    low.subrange(skip_dots(low, 0), low.len() as int)
}

/// The category of an extension in normal form.
pub open spec fn category_of(e: Seq<char>) -> FileCategory {
    if is_code_extension(e) {
        FileCategory::Code
    } else if is_text_extension(e) {
        FileCategory::Text
    } else if is_data_extension(e) {
        FileCategory::Data
    } else if is_document_extension(e) {
        FileCategory::Document
    } else if is_image_extension(e) {
        FileCategory::Image
    } else {
        FileCategory::Unsupported
    }
}

/// Whether a file with this name can be given to agents: by its extension
/// where it has one, else by its name.
pub open spec fn file_supported(filename: Seq<char>) -> bool {
    match extension(filename) {
        Some(e) => category_of(normal_extension(e)) != FileCategory::Unsupported,
        None => is_bare_name(file_name(filename)),
    }
}

fn category_of_chars(extension: &Vec<char>) -> (c: FileCategory)
    ensures
        c == category_of(normal_extension(extension@)),
{
    let low = lowercase(extension);
    let mut a: usize = 0;
    while a < low.len() && low[a] == '.'
        invariant
            a <= low.len(),
            skip_dots(low@, 0) == skip_dots(low@, a as int),
        decreases low.len() - a,
    {
        a += 1;
    }
    let e = slice_of(&low, a, low.len());
    if code_extension(&e) {
        FileCategory::Code
    } else if text_extension(&e) {
        FileCategory::Text
    } else if data_extension(&e) {
        FileCategory::Data
    } else if document_extension(&e) {
        FileCategory::Document
    } else if image_extension(&e) {
        FileCategory::Image
    } else {
        FileCategory::Unsupported
    }
}

/// The category of a file extension, whatever its case and with or without
/// a leading dot.
pub fn get_file_category(extension: &str) -> (c: FileCategory)
    ensures
        c == category_of(normal_extension(extension@)),
{
    category_of_chars(&chars_of(extension))
}

/// Whether files with this extension can be given to agents.
pub fn is_supported(extension: &str) -> (r: bool)
    ensures
        r == (category_of(normal_extension(extension@)) != FileCategory::Unsupported),
{
    get_file_category(extension) != FileCategory::Unsupported
}

/// Whether a file with this name can be given to agents. A name without an
/// extension is accepted where it is one of the well-known names of text
/// files, such as `Makefile`.
pub fn is_file_supported(filename: &str) -> (r: bool)
    ensures
        r == file_supported(filename@),
{
    let path = chars_of(filename);
    match extension_of(&path) {
        Some(e) => category_of_chars(&e) != FileCategory::Unsupported,
        None => bare_name(&file_name_of(&path)),
    }
}

} // verus!
