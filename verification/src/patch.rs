//! The patch engine: search-and-replace over a whole text, then line-range
//! replacement over its lines.

use vstd::prelude::*;
use crate::pattern::{
    compile_regex, regex_complaint, regex_compiles, regex_count, regex_error_text,
    regex_match_count,
    regex_replace, regex_replace_all, regex_replace_first, regex_replace_literal,
};
use crate::text::{
    chars_of, contains_text, decimal, find_from, first_occurrence, join_texts, join_with,
    lemma_first_occurrence, lines_of, push_all, push_decimal, push_range, push_str, split_lines,
    string_of, texts,
};

verus! {

/// One search-and-replace operation.
pub struct PatchOp {
    /// The text, or regular expression, to search for.
    pub search: String,
    /// What each match is replaced with.
    pub replace: String,
    /// Whether `search` is a regular expression.
    pub regex: bool,
    /// The most replacements to make; `None` and `Some(0)` set no limit.
    pub count: Option<usize>,
}

/// One line-range replacement. Lines count from 1 and both ends are
/// included.
pub struct LinePatchOp {
    pub start_line: usize,
    pub end_line: usize,
    /// The lines that take the place of the range.
    pub content: String,
}

/// What is left to write once `done` replacements are made and the scan of
/// `s` stands at index `from`: each further occurrence of `pat` is replaced
/// by `rep`, from left to right and without overlap, until `limit`
/// replacements are made in all (`limit` 0 sets no limit).
pub open spec fn replaced_from(
    s: Seq<char>,
    pat: Seq<char>,
    rep: Seq<char>,
    limit: nat,
    done: nat,
    from: int,
) -> Seq<char>
    decreases s.len() - from, limit - done,
{
    if from < 0 || from > s.len() || (limit > 0 && done >= limit) || (limit == 0 && pat.len()
        == 0) {
        s.subrange(from, s.len() as int)
    } else {
        match first_occurrence(s, pat, from) {
            Some(p) => if from <= p && p + pat.len() <= s.len() {
                s.subrange(from, p) + rep + replaced_from(
                    s,
                    pat,
                    rep,
                    limit,
                    done + 1,
                    p + pat.len(),
                )
            } else {
                s.subrange(from, s.len() as int)
            },
            None => s.subrange(from, s.len() as int),
        }
    }
}

/// The number of replacements that `replaced_from` makes in all.
pub open spec fn replaced_count(
    s: Seq<char>,
    pat: Seq<char>,
    limit: nat,
    done: nat,
    from: int,
) -> nat
    decreases s.len() - from, limit - done,
{
    if from < 0 || from > s.len() || (limit > 0 && done >= limit) || (limit == 0 && pat.len()
        == 0) {
        done
    } else {
        match first_occurrence(s, pat, from) {
            Some(p) => if from <= p && p + pat.len() <= s.len() {
                replaced_count(s, pat, limit, done + 1, p + pat.len())
            } else {
                done
            },
            None => done,
        }
    }
}

/// `s` with the occurrences of `pat` replaced by `rep`.
pub open spec fn replace_text(s: Seq<char>, pat: Seq<char>, rep: Seq<char>, limit: nat) -> Seq<
    char,
> {
    replaced_from(s, pat, rep, limit, 0, 0)
}

/// The number of replacements that `replace_text` makes.
pub open spec fn replace_total(s: Seq<char>, pat: Seq<char>, limit: nat) -> nat {
    replaced_count(s, pat, limit, 0, 0)
}

/// Replaces the occurrences of `pat` in `s` by `rep`, from left to right
/// and without overlap; `limit` 0 sets no limit. An empty `pat` occurs
/// at the start of any text, so with a limit `rep` is put in front of `s`
/// that many times; without one nothing is replaced.
pub fn replace_literal(s: &Vec<char>, pat: &Vec<char>, rep: &Vec<char>, limit: usize) -> (out: (
    Vec<char>,
    usize,
))
    ensures
        out.0@ == replace_text(s@, pat@, rep@, limit as nat),
        out.1 == replace_total(s@, pat@, limit as nat),
{
    let mut result: Vec<char> = Vec::new();
    let mut count: usize = 0;
    let mut pos: usize = 0;
    if limit == 0 && pat.len() == 0 {
        push_all(&mut result, s);
        assert(s@.subrange(0, s.len() as int) == s@);
        return (result, 0);
    }
    loop
        invariant
            pos <= s.len(),
            limit > 0 || pat.len() > 0,
            limit > 0 ==> count <= limit,
            limit == 0 ==> count <= pos,
            result@ + replaced_from(s@, pat@, rep@, limit as nat, count as nat, pos as int)
                == replace_text(s@, pat@, rep@, limit as nat),
            replaced_count(s@, pat@, limit as nat, count as nat, pos as int) == replace_total(
                s@,
                pat@,
                limit as nat,
            ),
        ensures
            (limit > 0 && count >= limit) || first_occurrence(s@, pat@, pos as int) is None,
        decreases s.len() - pos, limit - count,
    {
        if limit > 0 && count >= limit {
            break ;
        }
        match find_from(s, pat, pos) {
            None => {
                break ;
            },
            Some(p) => {
                proof {
                    lemma_first_occurrence(s@, pat@, pos as int);
                }
                let ghost before = result@;
                push_range(&mut result, s, pos, p);
                push_all(&mut result, rep);
                assert(result@ + replaced_from(
                    s@,
                    pat@,
                    rep@,
                    limit as nat,
                    (count + 1) as nat,
                    p + pat.len(),
                ) == before + (s@.subrange(pos as int, p as int) + rep@ + replaced_from(
                    s@,
                    pat@,
                    rep@,
                    limit as nat,
                    (count + 1) as nat,
                    p + pat.len(),
                )));
                pos = p + pat.len();
                count = count + 1;
            },
        }
    }
    push_range(&mut result, s, pos, s.len());
    (result, count)
}

/// A text in which `pat` does not occur comes back unchanged, with no
/// replacement counted.
pub proof fn lemma_replace_without_match(
    s: Seq<char>,
    pat: Seq<char>,
    rep: Seq<char>,
    limit: nat,
)
    requires
        !contains_text(s, pat),
    ensures
        replace_text(s, pat, rep, limit) == s,
        replace_total(s, pat, limit) == 0,
{
    assert(s.subrange(0, s.len() as int) == s);
}


/// Whether a line range is well formed: both ends at least 1, start not
/// after end.
pub open spec fn range_valid(op: LinePatchOp) -> bool {
    op.start_line >= 1 && op.end_line >= 1 && op.start_line <= op.end_line
}

/// `sorted` with `x` put behind every operation that starts at the same
/// line or later.
pub open spec fn insert_by_start(sorted: Seq<LinePatchOp>, x: LinePatchOp) -> Seq<LinePatchOp>
    decreases sorted.len(),
{
    if sorted.len() == 0 {
        seq![x]
    } else if sorted.last().start_line >= x.start_line {
        sorted.push(x)
    } else {
        insert_by_start(sorted.drop_last(), x).push(sorted.last())
    }
}

/// The operations in the order in which they are carried out: from the
/// highest start line to the lowest, and in the order given where two start
/// at the same line.
pub open spec fn ordered_ops(ops: Seq<LinePatchOp>) -> Seq<LinePatchOp>
    decreases ops.len(),
{
    if ops.len() == 0 {
        Seq::empty()
    } else {
        insert_by_start(ordered_ops(ops.drop_last()), ops.last())
    }
}

/// No operation starts at a higher line than one before it.
pub open spec fn descending_starts(ops: Seq<LinePatchOp>) -> bool {
    forall|i: int, j: int|
        0 <= i < j < ops.len() ==> (#[trigger] ops[i]).start_line >= (#[trigger] ops[j]).start_line
}

proof fn lemma_insert_by_start(s: Seq<LinePatchOp>, x: LinePatchOp)
    requires
        descending_starts(s),
    ensures
        insert_by_start(s, x).len() == s.len() + 1,
        insert_by_start(s, x).to_multiset() == s.to_multiset().insert(x),
        descending_starts(insert_by_start(s, x)),
        forall|k: int|
            0 <= k < insert_by_start(s, x).len() ==> (#[trigger] insert_by_start(s, x)[k]) == x
                || insert_by_start(s, x)[k].start_line >= s.last().start_line,
    decreases s.len(),
{
    vstd::seq_lib::to_multiset_build(s, x);
    let r = insert_by_start(s, x);
    if s.len() == 0 {
        assert(r =~= s.push(x));
    } else if s.last().start_line >= x.start_line {
        assert forall|i: int, j: int| 0 <= i < j < r.len() implies (#[trigger] r[i]).start_line
            >= (#[trigger] r[j]).start_line by {
            if j < s.len() {
                assert(r[i] == s[i] && r[j] == s[j]);
            } else {
                assert(r[i] == s[i]);
                assert(s[i].start_line >= s[s.len() - 1].start_line);
            }
        }
        assert forall|k: int| 0 <= k < r.len() implies (#[trigger] r[k]) == x
            || r[k].start_line >= s.last().start_line by {
            if k < s.len() {
                assert(r[k] == s[k]);
                assert(s[k].start_line >= s[s.len() - 1].start_line);
            }
        }
    } else {
        let rest = s.drop_last();
        assert(descending_starts(rest)) by {
            assert forall|i: int, j: int| 0 <= i < j < rest.len() implies (
            #[trigger] rest[i]).start_line >= (#[trigger] rest[j]).start_line by {
                assert(rest[i] == s[i] && rest[j] == s[j]);
            }
        }
        lemma_insert_by_start(rest, x);
        let inner = insert_by_start(rest, x);
        assert(s == rest.push(s.last()));
        vstd::seq_lib::to_multiset_build(rest, s.last());
        vstd::seq_lib::to_multiset_build(inner, s.last());
        assert(r.to_multiset() =~= s.to_multiset().insert(x));
        assert forall|k: int| 0 <= k < r.len() implies (#[trigger] r[k]) == x
            || r[k].start_line >= s.last().start_line by {
            if k < inner.len() {
                assert(r[k] == inner[k]);
                if inner[k] != x && rest.len() > 0 {
                    assert(rest.last() == s[s.len() - 2]);
                    assert(s[s.len() - 2].start_line >= s[s.len() - 1].start_line);
                }
            }
        }
        assert forall|i: int, j: int| 0 <= i < j < r.len() implies (#[trigger] r[i]).start_line
            >= (#[trigger] r[j]).start_line by {
            if j < inner.len() {
                assert(r[i] == inner[i] && r[j] == inner[j]);
            } else {
                assert(r[j] == s.last());
                assert(r[i] == inner[i]);
            }
        }
    }
}

/// The line operations are carried out each once, from the highest start
/// line to the lowest.
pub proof fn lemma_ordered_ops(ops: Seq<LinePatchOp>)
    ensures
        ordered_ops(ops).len() == ops.len(),
        ordered_ops(ops).to_multiset() == ops.to_multiset(),
        descending_starts(ordered_ops(ops)),
    decreases ops.len(),
{
    if ops.len() == 0 {
        assert(ordered_ops(ops) =~= ops);
    } else {
        let rest = ops.drop_last();
        lemma_ordered_ops(rest);
        lemma_insert_by_start(ordered_ops(rest), ops.last());
        assert(ops == rest.push(ops.last()));
        vstd::seq_lib::to_multiset_build(rest, ops.last());
    }
}

/// The operations that the indices in `order` pick from `ops`.
pub open spec fn picked(ops: Seq<LinePatchOp>, order: Seq<usize>) -> Seq<LinePatchOp> {
    Seq::new(order.len(), |k: int| ops[order[k] as int])
}

proof fn lemma_insert_position(s: Seq<LinePatchOp>, x: LinePatchOp, j: int)
    requires
        0 <= j <= s.len(),
        forall|k: int| j <= k < s.len() ==> s[k].start_line < x.start_line,
        j > 0 ==> s[j - 1].start_line >= x.start_line,
    ensures
        insert_by_start(s, x) == s.insert(j, x),
    decreases s.len(),
{
    if s.len() == 0 {
        assert(s.insert(0, x) =~= seq![x]);
    } else if s.last().start_line >= x.start_line {
        assert(j == s.len());
        assert(s.insert(j, x) =~= s.push(x));
    } else {
        assert(j < s.len());
        lemma_insert_position(s.drop_last(), x, j);
        assert(s.drop_last().insert(j, x).push(s.last()) =~= s.insert(j, x));
    }
}

/// The indices of `ops` in the order in which the operations are carried
/// out.
pub fn order_by_start(ops: &Vec<LinePatchOp>) -> (order: Vec<usize>)
    ensures
        order.len() == ops.len(),
        forall|k: int| 0 <= k < order.len() ==> order[k] < ops.len(),
        picked(ops@, order@) == ordered_ops(ops@),
{
    let mut order: Vec<usize> = Vec::new();
    let mut i: usize = 0;
    assert(picked(ops@, order@) =~= ordered_ops(ops@.take(0)));
    while i < ops.len()
        invariant
            i <= ops.len(),
            order.len() == i,
            forall|k: int| 0 <= k < order.len() ==> order[k] < ops.len(),
            picked(ops@, order@) == ordered_ops(ops@.take(i as int)),
        decreases ops.len() - i,
    {
        let key: usize = ops[i].start_line;
        let mut j: usize = order.len();
        while j > 0 && ops[order[j - 1]].start_line < key
            invariant
                j <= order.len(),
                i < ops.len(),
                key == ops@[i as int].start_line,
                forall|k: int| 0 <= k < order.len() ==> order[k] < ops.len(),
                forall|k: int|
                    j <= k < order.len() ==> picked(ops@, order@)[k].start_line < key,
            decreases j,
        {
            j -= 1;
        }
        proof {
            let before = picked(ops@, order@);
            lemma_insert_position(before, ops@[i as int], j as int);
            assert(ops@.take(i + 1).drop_last() == ops@.take(i as int));
            assert(picked(ops@, order@.insert(j as int, i)) =~= before.insert(
                j as int,
                ops@[i as int],
            ));
        }
        order.insert(j, i);
        i += 1;
    }
    assert(ops@.take(ops.len() as int) == ops@);
    order
}


/// The most replacements that `op` makes; 0 sets no limit.
pub open spec fn op_limit(op: PatchOp) -> nat {
    match op.count {
        Some(n) => n as nat,
        None => 0,
    }
}

/// Whether `op` cannot be carried out: its search text is meant as a
/// regular expression and is none.
pub open spec fn op_fails(op: PatchOp) -> bool {
    op.regex && !regex_compiles(op.search@)
}

/// The number of replacements that `op` makes in `content`.
pub open spec fn op_count(content: Seq<char>, op: PatchOp) -> nat {
    if op.regex {
        let total = regex_match_count(op.search@, content);
        if op_limit(op) > 0 && total > op_limit(op) {
            op_limit(op)
        } else {
            total
        }
    } else {
        replace_total(content, op.search@, op_limit(op))
    }
}

/// `content` after `op`. A regular expression without a match leaves the
/// text as it is. With a limit its matches are replaced by the replacement
/// as it stands; without one, `$name` in the replacement stands for a
/// capture group.
pub open spec fn op_text(content: Seq<char>, op: PatchOp) -> Seq<char> {
    if op.regex {
        if regex_match_count(op.search@, content) == 0 {
            content
        } else if op_limit(op) > 0 {
            regex_replace_literal(op.search@, content, op_limit(op), op.replace@)
        } else {
            regex_replace_all(op.search@, content, op.replace@)
        }
    } else {
        replace_text(content, op.search@, op.replace@, op_limit(op))
    }
}

/// The report on the operation with number `number` (counted from 1) that
/// made `n` replacements.
pub open spec fn op_summary(number: nat, op: PatchOp, n: nat) -> Seq<char> {
    if op.regex {
        "Op "@ + decimal(number) + ": regex '"@ + op.search@ + "' → "@ + decimal(n)
            + " replacement(s)"@
    } else {
        "Op "@ + decimal(number) + ": '"@ + op.search@ + "' → "@ + decimal(n)
            + " replacement(s)"@
    }
}

/// Carries out one search-and-replace operation. The error holds what the
/// expression compiler said.
pub fn apply_op(content: &str, op: &PatchOp) -> (r: Result<(String, usize), String>)
    ensures
        r is Err <==> op_fails(*op),
        r matches Err(detail) ==> detail@ == regex_complaint(op.search@),
        r matches Ok(out) ==> out.0@ == op_text(content@, *op) && out.1 == op_count(
            content@,
            *op,
        ),
{
    let limit: usize = match op.count {
        Some(n) => n,
        None => 0,
    };
    if op.regex {
        match compile_regex(op.search.as_str()) {
            Err(e) => Err(regex_error_text(&e)),
            Ok(re) => {
                let total: usize = regex_count(&re, content);
                if limit > 0 {
                    let text = regex_replace_first(&re, content, limit, op.replace.as_str());
                    let n: usize = if total > limit {
                        limit
                    } else {
                        total
                    };
                    Ok((text, n))
                } else {
                    let text = regex_replace(&re, content, op.replace.as_str());
                    Ok((text, total))
                }
            },
        }
    } else {
        let s = chars_of(content);
        let pat = chars_of(op.search.as_str());
        let rep = chars_of(op.replace.as_str());
        let (text, n) = replace_literal(&s, &pat, &rep, limit);
        Ok((string_of(&text), n))
    }
}

fn summary_of_op(number: usize, op: &PatchOp, n: usize) -> (line: String)
    ensures
        line@ == op_summary(number as nat, *op, n as nat),
{
    let mut v = chars_of("Op ");
    push_decimal(&mut v, number as u64);
    if op.regex {
        push_str(&mut v, ": regex '");
    } else {
        push_str(&mut v, ": '");
    }
    push_str(&mut v, op.search.as_str());
    push_str(&mut v, "' → ");
    push_decimal(&mut v, n as u64);
    push_str(&mut v, " replacement(s)");
    string_of(&v)
}


/// `content` after the first `k` operations of `ops`, in the order given.
pub open spec fn searched(content: Seq<char>, ops: Seq<PatchOp>, k: int) -> Seq<char>
    decreases k,
{
    if k <= 0 {
        content
    } else {
        op_text(searched(content, ops, k - 1), ops[k - 1])
    }
}

/// None of the first `k` operations fails.
pub open spec fn none_fails(ops: Seq<PatchOp>, k: int) -> bool {
    forall|i: int| 0 <= i < k ==> !op_fails(#[trigger] ops[i])
}

/// The lines that take the place of the range of `op`.
pub open spec fn new_lines(op: LinePatchOp) -> Seq<Seq<char>> {
    lines_of(op.content@)
}

/// The index of the first line that `op` replaces in `lines`.
pub open spec fn splice_start(lines: Seq<Seq<char>>, op: LinePatchOp) -> int {
    if op.start_line - 1 < lines.len() {
        op.start_line - 1
    } else {
        lines.len() as int
    }
}

/// The index behind the last line that `op` replaces in `lines`.
pub open spec fn splice_end(lines: Seq<Seq<char>>, op: LinePatchOp) -> int {
    if op.end_line < lines.len() {
        op.end_line as int
    } else {
        lines.len() as int
    }
}

/// `lines` with the range of `op` replaced. A range that reaches past the
/// last line ends there, and one that starts past it adds lines at the end.
pub open spec fn spliced(lines: Seq<Seq<char>>, op: LinePatchOp) -> Seq<Seq<char>> {
    lines.subrange(0, splice_start(lines, op)) + new_lines(op) + lines.subrange(
        splice_end(lines, op),
        lines.len() as int,
    )
}

/// `lines` after the first `k` of the operations `ops`.
pub open spec fn lines_after(lines: Seq<Seq<char>>, ops: Seq<LinePatchOp>, k: int) -> Seq<
    Seq<char>,
>
    decreases k,
{
    if k <= 0 {
        lines
    } else {
        spliced(lines_after(lines, ops, k - 1), ops[k - 1])
    }
}

/// Each of the first `k` operations has a well-formed range.
pub open spec fn ranges_valid(ops: Seq<LinePatchOp>, k: int) -> bool {
    forall|i: int| 0 <= i < k ==> range_valid(#[trigger] ops[i])
}

/// The report on the line operation carried out as number `number`
/// (counted from 1) on `lines`.
pub open spec fn line_summary(number: nat, op: LinePatchOp, lines: Seq<Seq<char>>) -> Seq<char> {
    "Line op "@ + decimal(number) + ": replaced lines "@ + decimal(op.start_line as nat) + "-"@
        + decimal(op.end_line as nat) + " ("@ + decimal(
        (splice_end(lines, op) - splice_start(lines, op)) as nat,
    ) + " lines → "@ + decimal(new_lines(op).len()) + " lines)"@
}

proof fn lemma_texts_concat(a: Seq<Vec<char>>, b: Seq<Vec<char>>)
    ensures
        texts(a + b) == texts(a) + texts(b),
{
    assert(texts(a + b) =~= texts(a) + texts(b));
}

proof fn lemma_texts_subrange(a: Seq<Vec<char>>, i: int, j: int)
    requires
        0 <= i <= j <= a.len(),
    ensures
        texts(a.subrange(i, j)) == texts(a).subrange(i, j),
{
    assert(texts(a.subrange(i, j)) =~= texts(a).subrange(i, j));
}

/// Replaces the range of `op` in `lines`.
fn splice(lines: &mut Vec<Vec<char>>, op: &LinePatchOp) -> (counts: (usize, usize))
    requires
        range_valid(*op),
    ensures
        texts(final(lines)@) == spliced(texts(old(lines)@), *op),
        counts.0 == splice_end(texts(old(lines)@), *op) - splice_start(texts(old(lines)@), *op),
        counts.1 == new_lines(*op).len(),
{
    let ghost before = lines@;
    let start: usize = if op.start_line - 1 < lines.len() {
        op.start_line - 1
    } else {
        lines.len()
    };
    let end: usize = if op.end_line < lines.len() {
        op.end_line
    } else {
        lines.len()
    };
    let mut fresh = split_lines(&chars_of(op.content.as_str()));
    let added: usize = fresh.len();
    let ghost fresh_view = fresh@;
    let mut tail = lines.split_off(end);
    lines.truncate(start);
    lines.append(&mut fresh);
    lines.append(&mut tail);
    proof {
        assert(before.subrange(0, end as int).subrange(0, start as int) == before.subrange(
            0,
            start as int,
        ));
        lemma_texts_concat(before.subrange(0, start as int) + fresh_view, before.subrange(
            end as int,
            before.len() as int,
        ));
        lemma_texts_concat(before.subrange(0, start as int), fresh_view);
        lemma_texts_subrange(before, 0, start as int);
        lemma_texts_subrange(before, end as int, before.len() as int);
    }
    (end - start, added)
}

fn summary_of_line_op(number: usize, op: &LinePatchOp, removed: usize, added: usize) -> (line:
    String)
    ensures
        line@ == "Line op "@ + decimal(number as nat) + ": replaced lines "@ + decimal(
            op.start_line as nat,
        ) + "-"@ + decimal(op.end_line as nat) + " ("@ + decimal(removed as nat) + " lines → "@
            + decimal(added as nat) + " lines)"@,
{
    let mut v = chars_of("Line op ");
    push_decimal(&mut v, number as u64);
    push_str(&mut v, ": replaced lines ");
    push_decimal(&mut v, op.start_line as u64);
    push_str(&mut v, "-");
    push_decimal(&mut v, op.end_line as u64);
    push_str(&mut v, " (");
    push_decimal(&mut v, removed as u64);
    push_str(&mut v, " lines → ");
    push_decimal(&mut v, added as u64);
    push_str(&mut v, " lines)");
    string_of(&v)
}


/// Why a patch was not carried out.
pub enum PatchError {
    /// No operation was given.
    NoOperations,
    /// The search text of operation `op` (counted from 1) is no regular
    /// expression; `detail` is what the expression compiler said.
    InvalidRegex { op: usize, detail: String },
    /// A line range is empty or inverted.
    InvalidRange { start_line: usize, end_line: usize },
}

/// A patched text, with one line of report for each operation.
pub struct Patched {
    pub content: String,
    pub summary: Vec<String>,
}

/// Whether `s` ends in a line feed.
pub open spec fn ends_in_newline(s: Seq<char>) -> bool {
    s.len() > 0 && s.last() == '\n'
}

/// `lines` joined by line feeds. Where `keep` says that the text the lines
/// came from ended in a line feed, the result ends in one too.
pub open spec fn rejoined(lines: Seq<Seq<char>>, keep: bool) -> Seq<char> {
    let joined = join_with(lines, "\n"@);
    if keep && !ends_in_newline(joined) {
        joined + "\n"@
    } else {
        joined
    }
}

/// `content` after the search-and-replace operations `sr`, in the order
/// given, and then the line operations `lr`, from the highest start line to
/// the lowest.
pub open spec fn patched_text(content: Seq<char>, sr: Seq<PatchOp>, lr: Seq<LinePatchOp>) -> Seq<
    char,
> {
    let mid = searched(content, sr, sr.len() as int);
    if lr.len() == 0 {
        mid
    } else {
        rejoined(
            lines_after(lines_of(mid), ordered_ops(lr), lr.len() as int),
            ends_in_newline(mid),
        )
    }
}

/// Line `i` of the report: first the search-and-replace operations in the
/// order given, then the line operations in the order carried out.
pub open spec fn summary_line(
    content: Seq<char>,
    sr: Seq<PatchOp>,
    lr: Seq<LinePatchOp>,
    i: int,
) -> Seq<char> {
    if i < sr.len() {
        op_summary((i + 1) as nat, sr[i], op_count(searched(content, sr, i), sr[i]))
    } else {
        let k = i - sr.len();
        line_summary(
            (k + 1) as nat,
            ordered_ops(lr)[k],
            lines_after(lines_of(searched(content, sr, sr.len() as int)), ordered_ops(lr), k),
        )
    }
}

/// Applies the search-and-replace operations `sr` to `content`, one after
/// the other, and then the line operations `lr` to the lines of the result.
///
/// Nothing is done without an operation, with a search text that is meant
/// as a regular expression and is none, or with a line range that is empty
/// or inverted; the first operation at fault is reported.
pub fn patch_text(content: &str, sr: &Vec<PatchOp>, lr: &Vec<LinePatchOp>) -> (r: Result<
    Patched,
    PatchError,
>)
    ensures
        r matches Err(PatchError::NoOperations) <==> sr.len() == 0 && lr.len() == 0,
        r matches Err(PatchError::InvalidRegex { .. }) <==> !none_fails(sr@, sr.len() as int),
        r matches Err(PatchError::InvalidRegex { op, detail }) ==> 1 <= op <= sr.len()
            && op_fails(sr@[op - 1]) && none_fails(sr@, op - 1) && detail@ == regex_complaint(
            sr@[op - 1].search@,
        ),
        r matches Err(PatchError::InvalidRange { .. }) <==> none_fails(sr@, sr.len() as int)
            && !ranges_valid(ordered_ops(lr@), lr.len() as int),
        r matches Err(PatchError::InvalidRange { start_line, end_line }) ==> exists|k: int|
            0 <= k < lr.len() && ranges_valid(ordered_ops(lr@), k) && !range_valid(
                #[trigger] ordered_ops(lr@)[k],
            ) && ordered_ops(lr@)[k].start_line == start_line && ordered_ops(lr@)[k].end_line
                == end_line,
        r matches Ok(p) ==> p.content@ == patched_text(content@, sr@, lr@) && p.summary.len()
            == sr.len() + lr.len() && forall|i: int|
            0 <= i < p.summary.len() ==> (#[trigger] p.summary@[i])@ == summary_line(
                content@,
                sr@,
                lr@,
                i,
            ),
{
    if sr.len() == 0 && lr.len() == 0 {
        return Err(PatchError::NoOperations);
    }
    let mut text: String = content.to_owned();
    let mut summary: Vec<String> = Vec::new();
    let mut i: usize = 0;
    while i < sr.len()
        invariant
            i <= sr.len(),
            none_fails(sr@, i as int),
            text@ == searched(content@, sr@, i as int),
            summary.len() == i,
            forall|j: int|
                0 <= j < i ==> (#[trigger] summary@[j])@ == summary_line(content@, sr@, lr@, j),
        decreases sr.len() - i,
    {
        match apply_op(text.as_str(), &sr[i]) {
            Err(detail) => {
                return Err(PatchError::InvalidRegex { op: i + 1, detail });
            },
            Ok((next, n)) => {
                summary.push(summary_of_op(i + 1, &sr[i], n));
                text = next;
            },
        }
        i += 1;
    }
    if lr.len() == 0 {
        return Ok(Patched { content: text, summary });
    }
    let mid = chars_of(text.as_str());
    let keep: bool = mid.len() > 0 && mid[mid.len() - 1] == '\n';
    let mut lines = split_lines(&mid);
    let order = order_by_start(lr);
    let ghost ordered = ordered_ops(lr@);
    let mut k: usize = 0;
    while k < order.len()
        invariant
            k <= order.len(),
            order.len() == lr.len(),
            none_fails(sr@, sr.len() as int),
            ordered == ordered_ops(lr@),
            picked(lr@, order@) == ordered,
            forall|j: int| 0 <= j < order.len() ==> order[j] < lr.len(),
            ranges_valid(ordered, k as int),
            texts(lines@) == lines_after(lines_of(mid@), ordered, k as int),
            mid@ == searched(content@, sr@, sr.len() as int),
            summary.len() == sr.len() + k,
            forall|j: int|
                0 <= j < summary.len() ==> (#[trigger] summary@[j])@ == summary_line(
                    content@,
                    sr@,
                    lr@,
                    j,
                ),
        decreases order.len() - k,
    {
        let op = &lr[order[k]];
        assert(*op == ordered[k as int]);
        if op.start_line == 0 || op.end_line == 0 || op.start_line > op.end_line {
            return Err(
                PatchError::InvalidRange { start_line: op.start_line, end_line: op.end_line },
            );
        }
        let (removed, added) = splice(&mut lines, op);
        summary.push(summary_of_line_op(k + 1, op, removed, added));
        k += 1;
    }
    let mut joined = join_texts(&lines, "\n");
    if keep && !(joined.len() > 0 && joined[joined.len() - 1] == '\n') {
        push_str(&mut joined, "\n");
    }
    Ok(Patched { content: string_of(&joined), summary })
}


/// `op` finds nothing to replace in `content`.
pub open spec fn finds_nothing(content: Seq<char>, op: PatchOp) -> bool {
    if op.regex {
        regex_match_count(op.search@, content) == 0
    } else {
        !contains_text(content, op.search@)
    }
}

/// A patch whose search-and-replace operations all find nothing, and which
/// has no line operation, leaves the text as it is and reports no
/// replacement for any operation.
pub proof fn lemma_patch_without_match(content: Seq<char>, sr: Seq<PatchOp>)
    requires
        forall|i: int| 0 <= i < sr.len() ==> finds_nothing(content, #[trigger] sr[i]),
    ensures
        patched_text(content, sr, Seq::empty()) == content,
        forall|i: int|
            0 <= i < sr.len() ==> op_count(searched(content, sr, i), #[trigger] sr[i]) == 0,
{
    lemma_searched_without_match(content, sr, sr.len() as int);
    assert forall|i: int| 0 <= i < sr.len() implies op_count(
        searched(content, sr, i),
        #[trigger] sr[i],
    ) == 0 by {
        lemma_searched_without_match(content, sr, i);
        if !sr[i].regex {
            lemma_replace_without_match(content, sr[i].search@, sr[i].replace@, op_limit(sr[i]));
        }
    }
}

proof fn lemma_searched_without_match(content: Seq<char>, sr: Seq<PatchOp>, k: int)
    requires
        0 <= k <= sr.len(),
        forall|i: int| 0 <= i < sr.len() ==> finds_nothing(content, #[trigger] sr[i]),
    ensures
        searched(content, sr, k) == content,
    decreases k,
{
    if k > 0 {
        lemma_searched_without_match(content, sr, k - 1);
        let op = sr[k - 1];
        assert(finds_nothing(content, op));
        if !op.regex {
            lemma_replace_without_match(content, op.search@, op.replace@, op_limit(op));
        }
    }
}

/// Two line operations that start at different lines give the same text
/// whichever is written first: the one that starts further down is
/// carried out first.
pub proof fn lemma_line_order_is_immaterial(
    content: Seq<char>,
    sr: Seq<PatchOp>,
    a: LinePatchOp,
    b: LinePatchOp,
)
    requires
        a.start_line != b.start_line,
    ensures
        ordered_ops(seq![a, b]) == ordered_ops(seq![b, a]),
        ordered_ops(seq![a, b]) == if a.start_line > b.start_line {
            seq![a, b]
        } else {
            seq![b, a]
        },
        patched_text(content, sr, seq![a, b]) == patched_text(content, sr, seq![b, a]),
{
    lemma_ordered_pair(a, b);
    lemma_ordered_pair(b, a);
}

proof fn lemma_ordered_pair(a: LinePatchOp, b: LinePatchOp)
    ensures
        ordered_ops(seq![a, b]) == if a.start_line >= b.start_line {
            seq![a, b]
        } else {
            seq![b, a]
        },
{
    let ab = seq![a, b];
    assert(ab.drop_last() =~= seq![a]);
    assert(seq![a].drop_last() =~= Seq::<LinePatchOp>::empty());
    assert(ordered_ops(seq![a].drop_last()) =~= Seq::<LinePatchOp>::empty());
    assert(ordered_ops(seq![a]) =~= seq![a]);
    assert(ab.last() == b);
    if a.start_line >= b.start_line {
        assert(insert_by_start(seq![a], b) =~= seq![a, b]);
    } else {
        assert(seq![a].drop_last() =~= Seq::<LinePatchOp>::empty());
        assert(insert_by_start(seq![a].drop_last(), b) =~= seq![b]);
        assert(insert_by_start(seq![a], b) =~= seq![b, a]);
    }
}

} // verus!
