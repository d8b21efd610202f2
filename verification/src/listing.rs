//! Directory listings: which entries are shown, in what order, and on
//! which page.

use vstd::prelude::*;
use crate::paging::{
    out_of_range, out_of_range_message, out_of_range_text, page_count, page_end, page_first,
    page_number, page_of, page_size_of,
};
use crate::sandbox::{is_supported_extension, supported_name, validation, FolderProbe};
use crate::size::{push_size, size_text};
use crate::text::{
    chars_of, comes_before, concat2, decimal, lemma_lex_asymmetric, lemma_lex_not_before_chain,
    lex_before, lowercase, lowered, padded_right, push_all,
    push_decimal, push_padded_right, push_str, repeated, string_of,
};
use crate::tools::{
    fails_with, failure, is_reply, success_log, ErrorKind, Located, OmniDriveServer, PathKind,
    ToolError, ToolReply,
};

verus! {

/// What a listing is asked.
pub struct ListDirectoryParams {
    pub path: String,
    /// The page to show, from 1.
    pub page: usize,
    pub page_size: usize,
    /// Whether the directories below are listed too, as a tree.
    pub recursive: bool,
    /// How deep a recursive listing goes; held between 1 and 10.
    pub max_depth: usize,
}

/// One entry that the disk showed in or below the directory listed.
pub struct ListedEntry {
    pub name: String,
    /// The path of the entry, absolute as the directory is.
    pub path: String,
    pub is_dir: bool,
    /// The size in bytes of a file; 0 where the disk did not tell.
    pub size: u64,
    /// How far below the directory the entry lies: 1 for its own entries.
    pub depth: usize,
}

/// The entries that the indices in `order` pick from `entries`.
pub open spec fn picked_entries(entries: Seq<ListedEntry>, order: Seq<usize>) -> Seq<ListedEntry> {
    Seq::new(order.len(), |k: int| entries[order[k] as int])
}

/// Whether `a` is shown before `b`: directories before files, and
/// within each by name, the case of letters aside.
pub open spec fn shown_before(a: ListedEntry, b: ListedEntry) -> bool {
    if a.is_dir != b.is_dir {
        a.is_dir
    } else {
        lex_before(lowered(a.name@), lowered(b.name@))
    }
}

/// `sorted` with `x` put in front of the entries that it is shown before,
/// and behind all others.
pub open spec fn insert_entry(sorted: Seq<ListedEntry>, x: ListedEntry) -> Seq<ListedEntry>
    decreases sorted.len(),
{
    if sorted.len() == 0 {
        seq![x]
    } else if shown_before(x, sorted.last()) {
        insert_entry(sorted.drop_last(), x).push(sorted.last())
    } else {
        sorted.push(x)
    }
}

/// The entries in the order in which they are shown. Entries that differ
/// in neither kind nor name keep the order in which they came.
pub open spec fn sorted_entries(entries: Seq<ListedEntry>) -> Seq<ListedEntry>
    decreases entries.len(),
{
    if entries.len() == 0 {
        Seq::empty()
    } else {
        insert_entry(sorted_entries(entries.drop_last()), entries.last())
    }
}

proof fn lemma_insert_entry_position(s: Seq<ListedEntry>, x: ListedEntry, j: int)
    requires
        0 <= j <= s.len(),
        forall|k: int| j <= k < s.len() ==> shown_before(x, s[k]),
        j > 0 ==> !shown_before(x, s[j - 1]),
    ensures
        insert_entry(s, x) == s.insert(j, x),
    decreases s.len(),
{
    if s.len() == 0 {
        assert(s.insert(0, x) =~= seq![x]);
    } else if shown_before(x, s.last()) {
        assert(j < s.len());
        lemma_insert_entry_position(s.drop_last(), x, j);
        assert(s.drop_last().insert(j, x).push(s.last()) =~= s.insert(j, x));
    } else {
        assert(j == s.len());
        assert(s.insert(j, x) =~= s.push(x));
    }
}

/// No entry that is shown later is one that is shown before an earlier
/// one.
pub open spec fn in_shown_order(entries: Seq<ListedEntry>) -> bool {
    forall|i: int, j: int|
        0 <= i < j < entries.len() ==> !shown_before(#[trigger] entries[j], #[trigger] entries[i])
}

proof fn lemma_shown_before_is_an_order(a: ListedEntry, b: ListedEntry, c: ListedEntry)
    ensures
        shown_before(a, b) ==> !shown_before(b, a),
        !shown_before(a, b) && !shown_before(b, c) ==> !shown_before(a, c),
{
    lemma_lex_asymmetric(lowered(a.name@), lowered(b.name@), 0);
    if !lex_before(lowered(a.name@), lowered(b.name@)) && !lex_before(
        lowered(b.name@),
        lowered(c.name@),
    ) {
        lemma_lex_not_before_chain(lowered(a.name@), lowered(b.name@), lowered(c.name@), 0);
    }
}

proof fn lemma_insert_entry_members(s: Seq<ListedEntry>, x: ListedEntry)
    ensures
        insert_entry(s, x).len() == s.len() + 1,
        insert_entry(s, x).to_multiset() == s.to_multiset().insert(x),
        forall|k: int|
            0 <= k < insert_entry(s, x).len() ==> (#[trigger] insert_entry(s, x)[k]) == x
                || s.contains(insert_entry(s, x)[k]),
    decreases s.len(),
{
    vstd::seq_lib::to_multiset_build(s, x);
    if s.len() == 0 {
        assert(insert_entry(s, x) =~= s.push(x));
    } else if shown_before(x, s.last()) {
        let rest = s.drop_last();
        lemma_insert_entry_members(rest, x);
        let inner = insert_entry(rest, x);
        assert(s == rest.push(s.last()));
        vstd::seq_lib::to_multiset_build(rest, s.last());
        vstd::seq_lib::to_multiset_build(inner, s.last());
        assert(inner.push(s.last()).to_multiset() =~= s.to_multiset().insert(x));
        assert forall|k: int| 0 <= k < insert_entry(s, x).len() implies (#[trigger] insert_entry(
            s,
            x,
        )[k]) == x || s.contains(insert_entry(s, x)[k]) by {
            if k < inner.len() {
                if inner[k] != x {
                    let j = choose|j: int| 0 <= j < rest.len() && rest[j] == inner[k];
                    assert(s[j] == inner[k]);
                }
            } else {
                assert(s[s.len() - 1] == insert_entry(s, x)[k]);
            }
        }
    } else {
    }
}

proof fn lemma_insert_entry_keeps_order(s: Seq<ListedEntry>, x: ListedEntry)
    requires
        in_shown_order(s),
    ensures
        in_shown_order(insert_entry(s, x)),
    decreases s.len(),
{
    let r = insert_entry(s, x);
    if s.len() == 0 {
    } else if shown_before(x, s.last()) {
        let rest = s.drop_last();
        assert(in_shown_order(rest)) by {
            assert forall|i: int, j: int| 0 <= i < j < rest.len() implies !shown_before(
                #[trigger] rest[j],
                #[trigger] rest[i],
            ) by {
                assert(rest[j] == s[j] && rest[i] == s[i]);
            }
        }
        lemma_insert_entry_keeps_order(rest, x);
        lemma_insert_entry_members(rest, x);
        let inner = insert_entry(rest, x);
        assert forall|i: int, j: int| 0 <= i < j < r.len() implies !shown_before(
            #[trigger] r[j],
            #[trigger] r[i],
        ) by {
            if j < inner.len() {
                assert(r[j] == inner[j] && r[i] == inner[i]);
            } else {
                assert(r[j] == s.last());
                assert(r[i] == inner[i]);
                if inner[i] == x {
                    lemma_shown_before_is_an_order(x, s.last(), x);
                } else {
                    let k = choose|k: int| 0 <= k < rest.len() && rest[k] == inner[i];
                    assert(s[k] == inner[i]);
                    assert(!shown_before(s[s.len() - 1], s[k]));
                }
            }
        }
    } else {
        assert forall|i: int, j: int| 0 <= i < j < r.len() implies !shown_before(
            #[trigger] r[j],
            #[trigger] r[i],
        ) by {
            if j < s.len() {
                assert(r[j] == s[j] && r[i] == s[i]);
            } else {
                assert(r[j] == x);
                assert(r[i] == s[i]);
                if i < s.len() - 1 {
                    assert(!shown_before(s[s.len() - 1], s[i]));
                    lemma_shown_before_is_an_order(x, s.last(), s[i]);
                }
            }
        }
    }
}

/// A listing shows the entries it was given, each once, with directories
/// before files and, within each, names in ascending order, the case of
/// letters aside.
pub proof fn lemma_sorted_entries(entries: Seq<ListedEntry>)
    ensures
        sorted_entries(entries).len() == entries.len(),
        sorted_entries(entries).to_multiset() == entries.to_multiset(),
        in_shown_order(sorted_entries(entries)),
    decreases entries.len(),
{
    if entries.len() == 0 {
        assert(sorted_entries(entries) =~= entries);
    } else {
        let rest = entries.drop_last();
        lemma_sorted_entries(rest);
        lemma_insert_entry_members(sorted_entries(rest), entries.last());
        lemma_insert_entry_keeps_order(sorted_entries(rest), entries.last());
        assert(entries == rest.push(entries.last()));
        vstd::seq_lib::to_multiset_build(rest, entries.last());
    }
}

/// One row of the table of a flat listing.
pub open spec fn entry_row(e: ListedEntry) -> Seq<char> {
    if e.is_dir {
        padded_right("<DIR>"@, 5) + " | "@ + padded_right("-"@, 10) + " | "@ + e.name@ + "\n"@
    } else {
        padded_right("FIL"@, 5) + " | "@ + padded_right(size_text(e.size as nat), 10) + " | "@
            + e.name@ + "\n"@
    }
}

/// The rows of the entries from index `from` up to `to`.
pub open spec fn entry_rows(entries: Seq<ListedEntry>, from: int, to: int) -> Seq<char>
    decreases to - from,
{
    if to <= from {
        Seq::empty()
    } else {
        entry_rows(entries, from, to - 1) + entry_row(entries[to - 1])
    }
}

/// One line of the tree of a recursive listing.
pub open spec fn tree_line(e: ListedEntry) -> Seq<char> {
    if e.is_dir {
        repeated(' ', 2 * (e.depth - 1)) + "📁"@ + " "@ + e.name@ + "\n"@
    } else {
        repeated(' ', 2 * (e.depth - 1)) + "📄"@ + " "@ + e.name@ + " ("@ + size_text(
            e.size as nat,
        ) + ")"@ + "\n"@
    }
}

/// The tree lines of the entries from index `from` up to `to`.
pub open spec fn tree_lines(entries: Seq<ListedEntry>, from: int, to: int) -> Seq<char>
    decreases to - from,
{
    if to <= from {
        Seq::empty()
    } else {
        tree_lines(entries, from, to - 1) + tree_line(entries[to - 1])
    }
}

/// How deep a recursive listing goes: the depth asked for, at least 1 and
/// at most 10.
pub open spec fn tree_depth(max_depth: usize) -> usize {
    if max_depth < 1 {
        1
    } else if max_depth > 10 {
        10
    } else {
        max_depth
    }
}

/// How deep the disk is walked for a recursive listing.
pub fn walk_depth(args: &ListDirectoryParams) -> (depth: usize)
    ensures
        depth == tree_depth(args.max_depth),
{
    if args.max_depth < 1 {
        1
    } else if args.max_depth > 10 {
        10
    } else {
        args.max_depth
    }
}

fn push_row(dst: &mut Vec<char>, e: &ListedEntry)
    ensures
        final(dst)@ == old(dst)@ + entry_row(*e),
{
    let ghost before = dst@;
    let mut row: Vec<char> = Vec::new();
    if e.is_dir {
        push_padded_right(&mut row, &chars_of("<DIR>"), 5);
        push_str(&mut row, " | ");
        push_padded_right(&mut row, &chars_of("-"), 10);
    } else {
        push_padded_right(&mut row, &chars_of("FIL"), 5);
        push_str(&mut row, " | ");
        let mut size: Vec<char> = Vec::new();
        push_size(&mut size, e.size);
        assert(size@ == size_text(e.size as nat));
        push_padded_right(&mut row, &size, 10);
    }
    push_str(&mut row, " | ");
    push_str(&mut row, e.name.as_str());
    push_str(&mut row, "\n");
    assert(row@ =~= entry_row(*e));
    push_all(dst, &row);
}

fn push_tree_line(dst: &mut Vec<char>, e: &ListedEntry)
    requires
        e.depth >= 1,
    ensures
        final(dst)@ == old(dst)@ + tree_line(*e),
{
    let mut line: Vec<char> = Vec::new();
    let mut d: usize = 1;
    while d < e.depth
        invariant
            1 <= d <= e.depth,
            line@ == repeated(' ', 2 * (d - 1)),
        decreases e.depth - d,
    {
        push_str(&mut line, "  ");
        proof {
            reveal_strlit("  ");
            assert(line@ =~= repeated(' ', 2 * d));
        }
        d += 1;
    }
    if e.is_dir {
        push_str(&mut line, "📁");
    } else {
        push_str(&mut line, "📄");
    }
    push_str(&mut line, " ");
    push_str(&mut line, e.name.as_str());
    if !e.is_dir {
        push_str(&mut line, " (");
        push_size(&mut line, e.size);
        push_str(&mut line, ")");
    }
    push_str(&mut line, "\n");
    assert(line@ =~= tree_line(*e));
    push_all(dst, &line);
}


/// The answer of a flat listing of `path` whose entries to show, in order,
/// are `shown`.
pub open spec fn flat_answer(path: Seq<char>, shown: Seq<ListedEntry>, page: usize, page_size: usize) -> Seq<
    char,
> {
    let size = page_size_of(page_size, 100);
    let number = page_number(page);
    let total = shown.len() as int;
    if out_of_range(total, number, size) {
        out_of_range_text(total, number, size)
    } else {
        "Directory listing for: "@ + path + "\nPage "@ + decimal(number as nat) + " of "@
            + decimal(page_count(total, size) as nat) + " ("@ + decimal(total as nat)
            + " items)\n\n"@ + "Type  | Size       | Name\n"@
            + "------+------------+---------------------------------------------\n"@
            + entry_rows(shown, page_first(total, number, size), page_end(total, number, size))
    }
}

/// The answer of a recursive listing of `path` whose entries to show, in
/// the order of the walk, are `shown`.
pub open spec fn tree_answer(
    path: Seq<char>,
    shown: Seq<ListedEntry>,
    page: usize,
    page_size: usize,
    max_depth: usize,
) -> Seq<char> {
    let size = page_size_of(page_size, 200);
    let number = page_number(page);
    let total = shown.len() as int;
    if out_of_range(total, number, size) {
        out_of_range_text(total, number, size)
    } else {
        "Tree: "@ + path + " (depth: "@ + decimal(tree_depth(max_depth) as nat) + ", page "@
            + decimal(number as nat) + "/"@ + decimal(page_count(total, size) as nat) + ")\n"@
            + decimal(total as nat) + " items total\n\n"@ + tree_lines(
            shown,
            page_first(total, number, size),
            page_end(total, number, size),
        )
    }
}

impl OmniDriveServer {
    /// Whether the entry `e` is shown: a directory or a file that is shared,
    /// which passes the sandbox; in a tree, the directory listed itself is
    /// left out.
    pub open spec fn shows(&self, e: ListedEntry, probes: Seq<FolderProbe>, tree: bool) -> bool {
        &&& (tree ==> e.depth >= 1)
        &&& (e.is_dir || supported_name(e.name@))
        &&& validation(e.path@, e.path@, self.config.folders@, probes) is Ok
    }

    /// Those of the first `n` entries that are shown, in the order in which
    /// they came.
    pub open spec fn kept(
        &self,
        entries: Seq<ListedEntry>,
        probes: Seq<FolderProbe>,
        tree: bool,
        n: int,
    ) -> Seq<ListedEntry>
        decreases n,
    {
        if n <= 0 {
            Seq::empty()
        } else if self.shows(entries[n - 1], probes, tree) {
            self.kept(entries, probes, tree, n - 1).push(entries[n - 1])
        } else {
            self.kept(entries, probes, tree, n - 1)
        }
    }

    fn kept_order(&self, entries: &Vec<ListedEntry>, probes: &Vec<FolderProbe>, tree: bool) -> (keep:
        Vec<usize>)
        ensures
            forall|k: int| 0 <= k < keep.len() ==> keep[k] < entries.len(),
            picked_entries(entries@, keep@) == self.kept(
                entries@,
                probes@,
                tree,
                entries.len() as int,
            ),
    {
        let mut keep: Vec<usize> = Vec::new();
        let mut i: usize = 0;
        assert(picked_entries(entries@, keep@) =~= self.kept(entries@, probes@, tree, 0));
        while i < entries.len()
            invariant
                i <= entries.len(),
                forall|k: int| 0 <= k < keep.len() ==> keep[k] < entries.len(),
                picked_entries(entries@, keep@) == self.kept(entries@, probes@, tree, i as int),
            decreases entries.len() - i,
        {
            let e = &entries[i];
            let shown = (!tree || e.depth >= 1) && (e.is_dir || is_supported_extension(
                e.name.as_str(),
            )) && self.check_readable(e.path.as_str(), e.path.as_str(), probes).is_ok();
            if shown {
                let ghost before = picked_entries(entries@, keep@);
                keep.push(i);
                assert(picked_entries(entries@, keep@) =~= before.push(entries@[i as int]));
            }
            i += 1;
        }
        keep
    }
}

fn lowered_names(entries: &Vec<ListedEntry>) -> (keys: Vec<Vec<char>>)
    ensures
        keys.len() == entries.len(),
        forall|i: int| 0 <= i < keys.len() ==> (#[trigger] keys[i])@ == lowered(entries[i].name@),
{
    let mut keys: Vec<Vec<char>> = Vec::new();
    let mut i: usize = 0;
    while i < entries.len()
        invariant
            i <= entries.len(),
            keys.len() == i,
            forall|j: int| 0 <= j < i ==> (#[trigger] keys[j])@ == lowered(entries[j].name@),
        decreases entries.len() - i,
    {
        keys.push(lowercase(&chars_of(entries[i].name.as_str())));
        i += 1;
    }
    keys
}

fn sorted_order(entries: &Vec<ListedEntry>, keep: &Vec<usize>) -> (order: Vec<usize>)
    requires
        forall|k: int| 0 <= k < keep.len() ==> keep[k] < entries.len(),
    ensures
        order.len() == keep.len(),
        forall|k: int| 0 <= k < order.len() ==> order[k] < entries.len(),
        picked_entries(entries@, order@) == sorted_entries(picked_entries(entries@, keep@)),
{
    let keys = lowered_names(entries);
    let ghost base = picked_entries(entries@, keep@);
    let mut order: Vec<usize> = Vec::new();
    let mut i: usize = 0;
    assert(picked_entries(entries@, order@) =~= sorted_entries(base.take(0)));
    while i < keep.len()
        invariant
            i <= keep.len(),
            order.len() == i,
            keys.len() == entries.len(),
            base == picked_entries(entries@, keep@),
            forall|j: int|
                0 <= j < keys.len() ==> (#[trigger] keys[j])@ == lowered(entries[j].name@),
            forall|k: int| 0 <= k < keep.len() ==> keep[k] < entries.len(),
            forall|k: int| 0 <= k < order.len() ==> order[k] < entries.len(),
            picked_entries(entries@, order@) == sorted_entries(base.take(i as int)),
        decreases keep.len() - i,
    {
        let x: usize = keep[i];
        let mut j: usize = order.len();
        loop
            invariant
                j <= order.len(),
                x < entries.len(),
                keys.len() == entries.len(),
                forall|k: int|
                    0 <= k < keys.len() ==> (#[trigger] keys[k])@ == lowered(entries[k].name@),
                forall|k: int| 0 <= k < order.len() ==> order[k] < entries.len(),
                forall|k: int|
                    j <= k < order.len() ==> shown_before(
                        entries@[x as int],
                        picked_entries(entries@, order@)[k],
                    ),
            ensures
                j > 0 ==> !shown_before(
                    entries@[x as int],
                    picked_entries(entries@, order@)[j - 1],
                ),
            decreases j,
        {
            if j == 0 {
                break ;
            }
            let y: usize = order[j - 1];
            let before = if entries[x].is_dir != entries[y].is_dir {
                entries[x].is_dir
            } else {
                comes_before(&keys[x], &keys[y])
            };
            if !before {
                break ;
            }
            j -= 1;
        }
        proof {
            let sorted = picked_entries(entries@, order@);
            lemma_insert_entry_position(sorted, entries@[x as int], j as int);
            assert(base.take(i + 1).drop_last() == base.take(i as int));
            assert(base.take(i + 1).last() == entries@[x as int]);
            assert(picked_entries(entries@, order@.insert(j as int, x)) =~= sorted.insert(
                j as int,
                entries@[x as int],
            ));
        }
        order.insert(j, x);
        i += 1;
    }
    assert(base.take(keep.len() as int) == base);
    order
}


impl OmniDriveServer {
    /// The entries that a listing shows, in the order in which it shows
    /// them: for a tree in the order of the walk; else directories first,
    /// then by name.
    pub open spec fn listed(
        &self,
        entries: Seq<ListedEntry>,
        probes: Seq<FolderProbe>,
        tree: bool,
    ) -> Seq<ListedEntry> {
        if tree {
            self.kept(entries, probes, true, entries.len() as int)
        } else {
            sorted_entries(self.kept(entries, probes, false, entries.len() as int))
        }
    }

    /// Lists the directory `args.path`, of which `dir` tells what the disk
    /// holds and `entries` what it showed: the entries of the directory
    /// itself or, for a recursive listing, those of a walk to the depth of
    /// `walk_depth`, in the order of the walk.
    ///
    /// Files that are not shared and entries that do not pass the sandbox
    /// are left out. A page behind the last entry is answered with a
    /// message, not an error.
    pub fn list_directory(
        &self,
        args: &ListDirectoryParams,
        dir: &Located,
        probes: &Vec<FolderProbe>,
        entries: &Vec<ListedEntry>,
    ) -> (r: Result<ToolReply, ToolError>)
        ensures
            match validation(args.path@, dir.absolute@, self.config.folders@, probes@) {
                Err(m) => fails_with(r, ErrorKind::SandboxDenial, m),
                Ok(_) => if dir.kind != PathKind::Directory {
                    fails_with(
                        r,
                        ErrorKind::InvalidInput,
                        "Path is not a directory: "@ + args.path@,
                    )
                } else if args.recursive {
                    r matches Ok(reply) && is_reply(
                        reply,
                        tree_answer(
                            args.path@,
                            self.listed(entries@, probes@, true),
                            args.page,
                            args.page_size,
                            args.max_depth,
                        ),
                        "list_directory_recursive"@,
                        "read"@,
                        Some(args.path@),
                        "Listed directory recursively"@,
                    )
                } else {
                    r matches Ok(reply) && is_reply(
                        reply,
                        flat_answer(
                            args.path@,
                            self.listed(entries@, probes@, false),
                            args.page,
                            args.page_size,
                        ),
                        "list_directory"@,
                        "read"@,
                        Some(args.path@),
                        "Listed directory items"@,
                    )
                },
            },
    {
        match self.check_readable(args.path.as_str(), dir.absolute.as_str(), probes) {
            Err(e) => {
                return Err(e);
            },
            Ok(_) => {},
        }
        match dir.kind {
            PathKind::Directory => {},
            _ => {
                return Err(
                    failure(
                        ErrorKind::InvalidInput,
                        concat2("Path is not a directory: ", args.path.as_str()),
                    ),
                );
            },
        }
        if args.recursive {
            return Ok(self.list_directory_recursive(args, probes, entries));
        }
        let keep = self.kept_order(entries, probes, false);
        let order = sorted_order(entries, &keep);
        let ghost shown = picked_entries(entries@, order@);
        let total: usize = order.len();
        let page = page_of(total, args.page, args.page_size, 100);
        let text = if page.beyond {
            out_of_range_message(total, &page)
        } else {
            let mut v = chars_of("Directory listing for: ");
            push_str(&mut v, args.path.as_str());
            push_str(&mut v, "\nPage ");
            push_decimal(&mut v, page.number as u64);
            push_str(&mut v, " of ");
            push_decimal(&mut v, page.pages as u64);
            push_str(&mut v, " (");
            push_decimal(&mut v, total as u64);
            push_str(&mut v, " items)\n\n");
            push_str(&mut v, "Type  | Size       | Name\n");
            push_str(
                &mut v,
                "------+------------+---------------------------------------------\n",
            );
            let ghost header = v@;
            let mut k: usize = page.start;
            assert(v@ == header + entry_rows(shown, page.start as int, k as int));
            while k < page.end
                invariant
                    page.start <= k <= page.end <= order.len(),
                    shown == picked_entries(entries@, order@),
                    forall|j: int| 0 <= j < order.len() ==> order[j] < entries.len(),
                    v@ == header + entry_rows(shown, page.start as int, k as int),
                decreases page.end - k,
            {
                push_row(&mut v, &entries[order[k]]);
                assert(shown[k as int] == entries@[order@[k as int] as int]);
                assert(v@ == header + entry_rows(shown, page.start as int, k + 1));
                k += 1;
            }
            string_of(&v)
        };
        Ok(
            success_log(
                "list_directory",
                "read",
                Some(args.path.as_str()),
                "Listed directory items",
                text,
            ),
        )
    }

    /// Lists what a walk below the directory `args.path` showed, as a tree:
    /// each entry on a line of its own, indented by its depth, in the order
    /// of the walk.
    pub fn list_directory_recursive(
        &self,
        args: &ListDirectoryParams,
        probes: &Vec<FolderProbe>,
        entries: &Vec<ListedEntry>,
    ) -> (reply: ToolReply)
        ensures
            is_reply(
                reply,
                tree_answer(
                    args.path@,
                    self.listed(entries@, probes@, true),
                    args.page,
                    args.page_size,
                    args.max_depth,
                ),
                "list_directory_recursive"@,
                "read"@,
                Some(args.path@),
                "Listed directory recursively"@,
            ),
    {
        let order = self.kept_order(entries, probes, true);
        let ghost shown = picked_entries(entries@, order@);
        let total: usize = order.len();
        let page = page_of(total, args.page, args.page_size, 200);
        let text = if page.beyond {
            out_of_range_message(total, &page)
        } else {
            let mut v = chars_of("Tree: ");
            push_str(&mut v, args.path.as_str());
            push_str(&mut v, " (depth: ");
            push_decimal(&mut v, walk_depth(args) as u64);
            push_str(&mut v, ", page ");
            push_decimal(&mut v, page.number as u64);
            push_str(&mut v, "/");
            push_decimal(&mut v, page.pages as u64);
            push_str(&mut v, ")\n");
            push_decimal(&mut v, total as u64);
            push_str(&mut v, " items total\n\n");
            let ghost header = v@;
            let mut k: usize = page.start;
            assert(v@ == header + tree_lines(shown, page.start as int, k as int));
            while k < page.end
                invariant
                    page.start <= k <= page.end <= order.len(),
                    shown == picked_entries(entries@, order@),
                    shown == self.kept(entries@, probes@, true, entries.len() as int),
                    forall|j: int| 0 <= j < order.len() ==> order[j] < entries.len(),
                    v@ == header + tree_lines(shown, page.start as int, k as int),
                decreases page.end - k,
            {
                let e = &entries[order[k]];
                assert(shown[k as int] == *e);
                proof {
                    self.lemma_kept_are_shown(entries@, probes@, true, entries.len() as int);
                }
                push_tree_line(&mut v, e);
                assert(v@ == header + tree_lines(shown, page.start as int, k + 1));
                k += 1;
            }
            string_of(&v)
        };
        success_log(
            "list_directory_recursive",
            "read",
            Some(args.path.as_str()),
            "Listed directory recursively",
            text,
        )
    }

    /// Every entry that is kept is one that is shown.
    pub proof fn lemma_kept_are_shown(
        &self,
        entries: Seq<ListedEntry>,
        probes: Seq<FolderProbe>,
        tree: bool,
        n: int,
    )
        ensures
            forall|k: int|
                0 <= k < self.kept(entries, probes, tree, n).len() ==> self.shows(
                    #[trigger] self.kept(entries, probes, tree, n)[k],
                    probes,
                    tree,
                ),
        decreases n,
    {
        if n > 0 {
            self.lemma_kept_are_shown(entries, probes, tree, n - 1);
            let rest = self.kept(entries, probes, tree, n - 1);
            let all = self.kept(entries, probes, tree, n);
            assert forall|k: int| 0 <= k < all.len() implies self.shows(
                #[trigger] all[k],
                probes,
                tree,
            ) by {
                if k < rest.len() {
                    assert(all[k] == rest[k]);
                }
            }
        }
    }
}

} // verus!
