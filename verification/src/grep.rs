//! Content search: which files of a walk are searched, which of their
//! lines match, and what is answered.

use vstd::prelude::*;
use crate::names::{extension, extension_of};
use crate::pattern::{
    compile_regex, regex_complaint, regex_compiles, regex_error_text, regex_is_match,
    regex_matches, regex_source, regex_text,
};
use crate::sandbox::{
    binary_name, is_binary_file, is_supported_extension, supported_name, validation, FolderProbe,
};
use crate::text::{
    ascii_folded, chars_of, concat2, concat4, decimal, join_strings, join_with, push_decimal,
    push_range, push_str, same_ignoring_ascii_case, string_of, strings,
};
use crate::tools::{
    fails_with, failure, is_reply, success_log, ErrorKind, Located, OmniDriveServer,
    PathKind, ToolError, ToolReply,
};

verus! {

/// What a content search is asked.
pub struct GrepContentParams {
    /// The text, or regular expression, to search for.
    pub pattern: String,
    /// The directory to search in.
    pub root_path: String,
    /// Whether `pattern` is a regular expression.
    pub is_regex: bool,
    pub case_insensitive: bool,
    /// The most matches to return; 0 stands for 50, and 200 is the most.
    pub max_results: usize,
    /// Where given, only files with one of these extensions are searched.
    pub include_extensions: Option<Vec<String>>,
}

/// A file that the walk below the root came upon.
pub struct GrepCandidate {
    /// The path of the file, absolute as the root is.
    pub path: String,
    pub is_file: bool,
    /// The size in bytes, where the disk told it.
    pub size: Option<u64>,
}

/// A content search under way. Only `grep_begin` makes one, so that its
/// expression is always one that was compiled from the pattern asked for.
pub struct GrepSearch {
    matcher: regex::Regex,
    limit: usize,
    results: Vec<String>,
}

impl GrepSearch {
    /// The regular expression that is searched for.
    pub closed spec fn searched_for(&self) -> Seq<char> {
        regex_source(self.matcher)
    }

    /// The number of matches at which the search ends.
    pub closed spec fn cap(&self) -> usize {
        self.limit
    }

    /// The matches so far, each as `path:line:text`.
    pub closed spec fn matches(&self) -> Seq<Seq<char>> {
        strings(self.results@)
    }

    /// The regular expression that is searched for.
    pub fn pattern(&self) -> (text: String)
        ensures
            text@ == self.searched_for(),
    {
        regex_text(&self.matcher)
    }

    /// The number of matches at which the search ends.
    pub fn limit(&self) -> (n: usize)
        ensures
            n == self.cap(),
    {
        self.limit
    }

    /// The matches so far.
    pub fn results(&self) -> (found: &Vec<String>)
        ensures
            strings(found@) == self.matches(),
    {
        &self.results
    }
}

/// The characters that have a meaning of their own in a regular
/// expression.
pub open spec fn is_meta_character(c: char) -> bool {
    c == '\\' || c == '.' || c == '+' || c == '*' || c == '?' || c == '(' || c == ')' || c == '|'
        || c == '[' || c == ']' || c == '{' || c == '}' || c == '^' || c == '$' || c == '#' || c
        == '&' || c == '-' || c == '~'
}

/// `text` with a backslash put in front of each of its meta characters:
/// the regular expression that matches `text` and nothing else.
pub open spec fn regex_escaped(text: Seq<char>) -> Seq<char>
    decreases text.len(),
{
    if text.len() == 0 {
        Seq::empty()
    } else if is_meta_character(text.last()) {
        regex_escaped(text.drop_last()).push('\\').push(text.last())
    } else {
        regex_escaped(text.drop_last()).push(text.last())
    }
}

/// The regular expression that matches `text` and nothing else.
pub fn escape_literal(text: &str) -> (escaped: String)
    ensures
        escaped@ == regex_escaped(text@),
{
    let s = chars_of(text);
    let mut out: Vec<char> = Vec::new();
    let mut i: usize = 0;
    assert(s@.take(0) =~= Seq::<char>::empty());
    while i < s.len()
        invariant
            i <= s.len(),
            out@ == regex_escaped(s@.take(i as int)),
        decreases s.len() - i,
    {
        let c: char = s[i];
        assert(s@.take(i + 1).drop_last() =~= s@.take(i as int));
        assert(s@.take(i + 1).last() == c);
        if c == '\\' || c == '.' || c == '+' || c == '*' || c == '?' || c == '(' || c == ')'
            || c == '|' || c == '[' || c == ']' || c == '{' || c == '}' || c == '^' || c == '$'
            || c == '#' || c == '&' || c == '-' || c == '~' {
            out.push('\\');
        }
        out.push(c);
        i += 1;
    }
    assert(s@.take(s.len() as int) =~= s@);
    string_of(&out)
}

/// The depth to which the walk below the root goes.
pub fn grep_walk_depth() -> (depth: usize)
    ensures
        depth == 20,
{
    20
}

/// The number of matches at which a search ends.
pub open spec fn grep_limit(max_results: usize) -> usize {
    if max_results == 0 {
        50
    } else if max_results > 200 {
        200
    } else {
        max_results
    }
}

/// The regular expression that is searched for: the pattern itself or, for
/// a literal search, the pattern with its meta characters escaped; behind
/// `(?i)` where case is to be ignored.
pub open spec fn grep_pattern(pattern: Seq<char>, is_regex: bool, case_insensitive: bool) -> Seq<
    char,
> {
    let base = if is_regex {
        pattern
    } else {
        regex_escaped(pattern)
    };
    if case_insensitive {
        "(?i)"@ + base
    } else {
        base
    }
}

/// What is said of a pattern that does not compile: for a regular
/// expression the pattern and what the compiler said of the expression
/// searched for; for a literal pattern only the latter.
pub open spec fn pattern_error(pattern: Seq<char>, is_regex: bool, case_insensitive: bool) -> Seq<
    char,
> {
    if is_regex {
        "Invalid regex '"@ + pattern + "': "@ + regex_complaint(
            grep_pattern(pattern, is_regex, case_insensitive),
        )
    } else {
        "Internal regex error: "@ + regex_complaint(
            grep_pattern(pattern, is_regex, case_insensitive),
        )
    }
}

/// One match as it is reported: path, line number from 1, and the first
/// 200 characters of the line.
pub open spec fn match_entry(path: Seq<char>, index: int, line: Seq<char>) -> Seq<char> {
    path + ":"@ + decimal((index + 1) as nat) + ":"@ + line.subrange(
        0,
        if line.len() > 200 {
            200
        } else {
            line.len() as int
        },
    )
}

/// Whether line `i` of `lines` could be read and matches.
pub open spec fn line_matches(pattern: Seq<char>, lines: Seq<Option<String>>, i: int) -> bool {
    match lines[i] {
        Some(line) => regex_is_match(pattern, line@),
        None => false,
    }
}

/// The matches once the lines from `from` on are searched, where `found`
/// holds the matches so far: each matching line adds an entry, until
/// `limit` entries are held.
pub open spec fn scanned(
    pattern: Seq<char>,
    path: Seq<char>,
    lines: Seq<Option<String>>,
    from: int,
    found: Seq<Seq<char>>,
    limit: int,
) -> Seq<Seq<char>>
    decreases lines.len() - from,
{
    if from < 0 || from >= lines.len() || found.len() >= limit {
        found
    } else if line_matches(pattern, lines, from) {
        scanned(
            pattern,
            path,
            lines,
            from + 1,
            found.push(match_entry(path, from, lines[from]->0@)),
            limit,
        )
    } else {
        scanned(pattern, path, lines, from + 1, found, limit)
    }
}

/// A search never holds more matches than its limit, and what it held
/// before a file is searched stays in front.
pub proof fn lemma_scanned_is_capped(
    pattern: Seq<char>,
    path: Seq<char>,
    lines: Seq<Option<String>>,
    from: int,
    found: Seq<Seq<char>>,
    limit: int,
)
    requires
        0 <= from,
        found.len() <= limit,
    ensures
        found.len() <= scanned(pattern, path, lines, from, found, limit).len() <= limit,
        scanned(pattern, path, lines, from, found, limit).subrange(0, found.len() as int)
            == found,
    decreases lines.len() - from,
{
    let all = scanned(pattern, path, lines, from, found, limit);
    if from >= lines.len() || found.len() >= limit {
        assert(all.subrange(0, found.len() as int) =~= found);
    } else if line_matches(pattern, lines, from) {
        let more = found.push(match_entry(path, from, lines[from]->0@));
        lemma_scanned_is_capped(pattern, path, lines, from + 1, more, limit);
        assert(all.subrange(0, found.len() as int) =~= more.subrange(0, found.len() as int));
        assert(more.subrange(0, found.len() as int) =~= found);
    } else {
        lemma_scanned_is_capped(pattern, path, lines, from + 1, found, limit);
    }
}

/// The extension of `path`, or the empty text where it has none.
pub open spec fn extension_or_empty(path: Seq<char>) -> Seq<char> {
    match extension(path) {
        Some(e) => e,
        None => Seq::empty(),
    }
}

/// Whether `ext` is one of `wanted`, the case of ASCII letters aside.
pub open spec fn extension_wanted(wanted: Seq<String>, ext: Seq<char>) -> bool {
    exists|i: int|
        0 <= i < wanted.len() && ascii_folded((#[trigger] wanted[i])@) == ascii_folded(ext)
}

fn entry_of(path: &str, index: usize, line: &str) -> (entry: String)
    requires
        index < usize::MAX,
    ensures
        entry@ == match_entry(path@, index as int, line@),
{
    let mut v = chars_of(path);
    push_str(&mut v, ":");
    push_decimal(&mut v, (index + 1) as u64);
    push_str(&mut v, ":");
    let chars = chars_of(line);
    let end: usize = if chars.len() > 200 {
        200
    } else {
        chars.len()
    };
    push_range(&mut v, &chars, 0, end);
    string_of(&v)
}

fn wanted_extension(wanted: &Vec<String>, ext: &Vec<char>) -> (r: bool)
    ensures
        r == extension_wanted(wanted@, ext@),
{
    let mut i: usize = 0;
    while i < wanted.len()
        invariant
            i <= wanted.len(),
            forall|j: int|
                0 <= j < i ==> ascii_folded((#[trigger] wanted@[j])@) != ascii_folded(ext@),
        decreases wanted.len() - i,
    {
        if same_ignoring_ascii_case(&chars_of(wanted[i].as_str()), ext) {
            return true;
        }
        i += 1;
    }
    false
}

impl OmniDriveServer {
    /// Whether the file `candidate` of the walk is searched: a file that is
    /// shared as text, has one of the extensions asked for where any are,
    /// passes the sandbox, and is not known to be above the size limit.
    pub open spec fn grep_takes(
        &self,
        args: &GrepContentParams,
        candidate: &GrepCandidate,
        probes: Seq<FolderProbe>,
    ) -> bool {
        let p = candidate.path@;
        &&& candidate.is_file
        &&& supported_name(p)
        &&& !binary_name(p)
        &&& (args.include_extensions matches Some(wanted) ==> extension_wanted(
            wanted@,
            extension_or_empty(p),
        ))
        &&& validation(p, p, self.config.folders@, probes) is Ok
        &&& (candidate.size matches Some(n) ==> n <= self.config.max_file_size_mb * 1048576)
    }

    /// Opens a content search below `args.root_path`, of which `root` tells
    /// what the disk holds.
    ///
    /// The root must pass the sandbox and be a directory, and the pattern
    /// must compile; a literal pattern is escaped first.
    pub fn grep_begin(&self, args: &GrepContentParams, root: &Located, probes: &Vec<FolderProbe>) -> (r:
        Result<GrepSearch, ToolError>)
        ensures
            match validation(args.root_path@, root.absolute@, self.config.folders@, probes@) {
                Err(m) => fails_with(r, ErrorKind::SandboxDenial, m),
                Ok(_) => if root.kind != PathKind::Directory {
                    fails_with(
                        r,
                        ErrorKind::InvalidInput,
                        "root_path must be a directory: "@ + args.root_path@,
                    )
                } else if !regex_compiles(
                    grep_pattern(args.pattern@, args.is_regex, args.case_insensitive),
                ) {
                    fails_with(
                        r,
                        ErrorKind::MalformedPattern,
                        pattern_error(args.pattern@, args.is_regex, args.case_insensitive),
                    )
                } else {
                    r matches Ok(search) && search.searched_for() == grep_pattern(
                        args.pattern@,
                        args.is_regex,
                        args.case_insensitive,
                    ) && search.cap() == grep_limit(args.max_results) && search.matches().len()
                        == 0
                },
            },
    {
        match self.check_readable(args.root_path.as_str(), root.absolute.as_str(), probes) {
            Err(e) => {
                return Err(e);
            },
            Ok(_) => {},
        }
        match root.kind {
            PathKind::Directory => {},
            _ => {
                return Err(
                    failure(
                        ErrorKind::InvalidInput,
                        concat2("root_path must be a directory: ", args.root_path.as_str()),
                    ),
                );
            },
        }
        let limit: usize = if args.max_results == 0 {
            50
        } else if args.max_results > 200 {
            200
        } else {
            args.max_results
        };
        let base: String = if args.is_regex {
            args.pattern.clone()
        } else {
            escape_literal(args.pattern.as_str())
        };
        let source: String = if args.case_insensitive {
            concat2("(?i)", base.as_str())
        } else {
            base
        };
        match compile_regex(source.as_str()) {
            Ok(matcher) => Ok(GrepSearch { matcher, limit, results: Vec::new() }),
            Err(e) => {
                let detail = regex_error_text(&e);
                let message = if args.is_regex {
                    concat4("Invalid regex '", args.pattern.as_str(), "': ", detail.as_str())
                } else {
                    concat2("Internal regex error: ", detail.as_str())
                };
                Err(failure(ErrorKind::MalformedPattern, message))
            },
        }
    }

    /// Whether the file `candidate` of the walk is searched.
    pub fn grep_accepts(
        &self,
        args: &GrepContentParams,
        candidate: &GrepCandidate,
        probes: &Vec<FolderProbe>,
    ) -> (r: bool)
        ensures
            r == self.grep_takes(args, candidate, probes@),
    {
        if !candidate.is_file {
            return false;
        }
        let path = candidate.path.as_str();
        if !is_supported_extension(path) || is_binary_file(path) {
            return false;
        }
        match &args.include_extensions {
            None => {},
            Some(wanted) => {
                let ext = match extension_of(&chars_of(path)) {
                    Some(e) => e,
                    None => Vec::new(),
                };
                if !wanted_extension(wanted, &ext) {
                    return false;
                }
            },
        }
        match self.check_readable(path, path, probes) {
            Err(_) => {
                return false;
            },
            Ok(_) => {},
        }
        match candidate.size {
            None => true,
            Some(n) => n <= (self.config.max_file_size_mb as u64) * 1048576,
        }
    }
}

/// Searches the lines of the file at `path`. A line that could not be read
/// as text is `None`: it is counted and not searched. Returns whether the
/// search has reached its limit and ends.
pub fn grep_file(search: &mut GrepSearch, path: &str, lines: &Vec<Option<String>>) -> (full: bool)
    ensures
        final(search).searched_for() == old(search).searched_for(),
        final(search).cap() == old(search).cap(),
        final(search).matches() == scanned(
            old(search).searched_for(),
            path@,
            lines@,
            0,
            old(search).matches(),
            old(search).cap() as int,
        ),
        full == (final(search).matches().len() >= old(search).cap()),
{
    let mut i: usize = 0;
    while i < lines.len() && search.results.len() < search.limit
        invariant
            i <= lines.len(),
            search.matcher == old(search).matcher,
            search.limit == old(search).limit,
            scanned(
                regex_source(old(search).matcher),
                path@,
                lines@,
                i as int,
                strings(search.results@),
                old(search).limit as int,
            ) == scanned(
                regex_source(old(search).matcher),
                path@,
                lines@,
                0,
                strings(old(search).results@),
                old(search).limit as int,
            ),
        decreases lines.len() - i,
    {
        match &lines[i] {
            None => {},
            Some(line) => {
                if regex_matches(&search.matcher, line.as_str()) {
                    let ghost before = search.results@;
                    let entry = entry_of(path, i, line.as_str());
                    search.results.push(entry);
                    assert(strings(search.results@) =~= strings(before).push(entry@));
                }
            },
        }
        i += 1;
    }
    search.results.len() >= search.limit
}

/// The answer of a content search for `args` that found `results`.
pub open spec fn grep_answer(args: &GrepContentParams, results: Seq<Seq<char>>) -> Seq<char> {
    if results.len() == 0 {
        "No matches found for '"@ + args.pattern@ + "' in "@ + args.root_path@
    } else {
        "Found "@ + decimal(results.len()) + " match(es) for '"@ + args.pattern@ + "':\n\n"@
            + join_with(results, "\n"@)
    }
}

/// Ends a content search and answers.
pub fn grep_finish(args: &GrepContentParams, search: GrepSearch) -> (reply: ToolReply)
    ensures
        is_reply(
            reply,
            grep_answer(args, search.matches()),
            "grep_content"@,
            "read"@,
            Some(args.root_path@),
            "Grepped for "@ + args.pattern@,
        ),
{
    let text = if search.results.len() == 0 {
        concat4("No matches found for '", args.pattern.as_str(), "' in ", args.root_path.as_str())
    } else {
        let mut v = chars_of("Found ");
        push_decimal(&mut v, search.results.len() as u64);
        push_str(&mut v, " match(es) for '");
        push_str(&mut v, args.pattern.as_str());
        push_str(&mut v, "':\n\n");
        let joined = join_strings(&search.results, "\n");
        push_str(&mut v, joined.as_str());
        string_of(&v)
    };
    let summary = concat2("Grepped for ", args.pattern.as_str());
    success_log("grep_content", "read", Some(args.root_path.as_str()), summary.as_str(), text)
}

} // verus!
