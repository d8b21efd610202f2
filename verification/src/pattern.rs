//! The two pattern languages this library relies on: regular expressions
//! (crate `regex`) and shell globs (crate `glob`).
//!
//! Nothing in this file is proved. Each item states what the outside crate
//! documents, over names for what its compiler and its matcher compute.

use vstd::prelude::*;

verus! {

#[verifier::external_type_specification]
#[verifier::external_body]
pub struct ExRegex(regex::Regex);

#[verifier::external_type_specification]
#[verifier::external_body]
pub struct ExRegexError(regex::Error);

#[verifier::external_type_specification]
#[verifier::external_body]
pub struct ExGlobPattern(glob::Pattern);

#[verifier::external_type_specification]
#[verifier::external_body]
pub struct ExGlobPatternError(glob::PatternError);

/// The pattern text that a compiled regular expression was built from
/// (what `Regex::as_str` returns).
pub uninterp spec fn regex_source(re: regex::Regex) -> Seq<char>;

/// Whether `Regex::new` accepts `pattern`.
pub uninterp spec fn regex_compiles(pattern: Seq<char>) -> bool;

/// What `Regex::new` says of a `pattern` that it does not accept.
pub uninterp spec fn regex_complaint(pattern: Seq<char>) -> Seq<char>;

/// The text that a `regex::Error` is shown as.
pub uninterp spec fn regex_error_shown(e: regex::Error) -> Seq<char>;

/// Whether the expression `pattern` has a match anywhere in `text`.
pub uninterp spec fn regex_is_match(pattern: Seq<char>, text: Seq<char>) -> bool;

/// The number of successive non-overlapping matches of `pattern` in `text`.
pub uninterp spec fn regex_match_count(pattern: Seq<char>, text: Seq<char>) -> nat;

/// `text` with every match of `pattern` replaced by `replacement`, in which
/// `$name` stands for a capture group.
pub uninterp spec fn regex_replace_all(
    pattern: Seq<char>,
    text: Seq<char>,
    replacement: Seq<char>,
) -> Seq<char>;

/// `text` with the first `limit` matches of `pattern` replaced by
/// `replacement`, taken literally.
pub uninterp spec fn regex_replace_literal(
    pattern: Seq<char>,
    text: Seq<char>,
    limit: nat,
    replacement: Seq<char>,
) -> Seq<char>;

/// The text that a glob pattern was compiled from (what
/// `Pattern::as_str` returns).
pub uninterp spec fn glob_source(p: glob::Pattern) -> Seq<char>;

/// Whether `Pattern::new` accepts `pattern`.
pub uninterp spec fn glob_compiles(pattern: Seq<char>) -> bool;

/// Whether the glob `pattern` matches all of `text`, with the crate's
/// default match options and the path separators of the platform the
/// library is built for.
pub uninterp spec fn glob_accepts(pattern: Seq<char>, text: Seq<char>) -> bool;

/// `regex::Regex::new`: compiles `pattern`. Whether it succeeds, and what
/// the error says where it does not, depends on the pattern alone; the
/// compiled expression remembers its source.
#[verifier::external_body]
pub(crate) fn compile_regex(pattern: &str) -> (r: Result<regex::Regex, regex::Error>)
    ensures
        r is Ok <==> regex_compiles(pattern@),
        r matches Ok(re) ==> regex_source(re) == pattern@,
        r matches Err(e) ==> regex_error_shown(e) == regex_complaint(pattern@),
{
    regex::Regex::new(pattern)
}

/// The `Display` text of a `regex::Error`.
#[verifier::external_body]
pub(crate) fn regex_error_text(e: &regex::Error) -> (r: String)
    ensures
        r@ == regex_error_shown(*e),
{
    e.to_string()
}

/// `regex::Regex::as_str`: the text that the expression was compiled
/// from.
#[verifier::external_body]
pub(crate) fn regex_text(re: &regex::Regex) -> (r: String)
    ensures
        r@ == regex_source(*re),
{
    re.as_str().to_string()
}

/// `regex::Regex::is_match`: true if and only if there is a match for the
/// expression anywhere in `text`.
#[verifier::external_body]
pub(crate) fn regex_matches(re: &regex::Regex, text: &str) -> (r: bool)
    ensures
        r == regex_is_match(regex_source(*re), text@),
{
    re.is_match(text)
}

/// `regex::Regex::find_iter`, counted: the number of successive
/// non-overlapping matches in `text`.
#[verifier::external_body]
pub(crate) fn regex_count(re: &regex::Regex, text: &str) -> (r: usize)
    ensures
        r == regex_match_count(regex_source(*re), text@),
{
    re.find_iter(text).count()
}

/// `regex::Regex::replace_all` with a replacement string. The crate
/// documents that a text without a match is returned unchanged.
#[verifier::external_body]
pub(crate) fn regex_replace(re: &regex::Regex, text: &str, replacement: &str) -> (r: String)
    ensures
        r@ == regex_replace_all(regex_source(*re), text@, replacement@),
        regex_match_count(regex_source(*re), text@) == 0 ==> r@ == text@,
{
    re.replace_all(text, replacement).into_owned()
}

/// `regex::Regex::replacen` with a `NoExpand` replacement: at most `limit`
/// matches are replaced by `replacement` as it stands. The crate documents
/// that a text without a match is returned unchanged.
#[verifier::external_body]
pub(crate) fn regex_replace_first(
    re: &regex::Regex,
    text: &str,
    limit: usize,
    replacement: &str,
) -> (r: String)
    requires
        limit > 0,
    ensures
        r@ == regex_replace_literal(regex_source(*re), text@, limit as nat, replacement@),
        regex_match_count(regex_source(*re), text@) == 0 ==> r@ == text@,
{
    re.replacen(text, limit, regex::NoExpand(replacement)).into_owned()
}

/// `glob::Pattern::new`: compiles `pattern`. Whether it succeeds depends on
/// the pattern alone; the compiled pattern remembers its source.
#[verifier::external_body]
pub(crate) fn compile_glob(pattern: &str) -> (r: Result<glob::Pattern, glob::PatternError>)
    ensures
        r is Ok <==> glob_compiles(pattern@),
        r matches Ok(p) ==> glob_source(p) == pattern@,
{
    glob::Pattern::new(pattern)
}

/// `glob::Pattern::matches`.
#[verifier::external_body]
pub(crate) fn glob_matches(p: &glob::Pattern, text: &str) -> (r: bool)
    ensures
        r == glob_accepts(glob_source(*p), text@),
{
    p.matches(text)
}

} // verus!
