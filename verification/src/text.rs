//! Text as sequences of characters.
//!
//! Every rule of this library that reads or builds text is stated over
//! `Seq<char>`. The executable side works on `Vec<char>`, which gives
//! constant-time indexing, and converts from and to `String` at the edges.

use vstd::prelude::*;
use vstd::string::*;

verus! {

/// `String::push` appends one character.
pub assume_specification[ String::push ](s: &mut String, c: char)
    ensures
        final(s)@ == old(s)@.push(c),
;

/// The characters of `s`, in order.
pub fn chars_of(s: &str) -> (v: Vec<char>)
    ensures
        v@ == s@,
{
    let mut v: Vec<char> = Vec::new();
    for c in it: s.chars()
        invariant
            v@ == s@.take(it.index() as int),
            it.seq() == s@,
    {
        v.push(c);
    }
    v
}

/// The string made of the characters of `v`.
pub fn string_of(v: &Vec<char>) -> (s: String)
    ensures
        s@ == v@,
{
    let mut s = String::new();
    let mut i: usize = 0;
    while i < v.len()
        invariant
            i <= v.len(),
            s@ == v@.take(i as int),
        decreases v.len() - i,
    {
        s.push(v[i]);
        i += 1;
    }
    s
}

/// Appends `src[from..to]` to `dst`.
pub fn push_range(dst: &mut Vec<char>, src: &Vec<char>, from: usize, to: usize)
    requires
        from <= to <= src.len(),
    ensures
        final(dst)@ == old(dst)@ + src@.subrange(from as int, to as int),
{
    let mut i: usize = from;
    while i < to
        invariant
            from <= i <= to <= src.len(),
            dst@ == old(dst)@ + src@.subrange(from as int, i as int),
        decreases to - i,
    {
        dst.push(src[i]);
        i += 1;
    }
}

/// Appends all of `src` to `dst`.
pub fn push_all(dst: &mut Vec<char>, src: &Vec<char>)
    ensures
        final(dst)@ == old(dst)@ + src@,
{
    push_range(dst, src, 0, src.len());
    assert(src@.subrange(0, src.len() as int) == src@);
}

/// Appends the characters of `src` to `dst`.
pub fn push_str(dst: &mut Vec<char>, src: &str)
    ensures
        final(dst)@ == old(dst)@ + src@,
{
    let ghost before = dst@;
    for c in it: src.chars()
        invariant
            dst@ == before + src@.take(it.index() as int),
            it.seq() == src@,
    {
        dst.push(c);
    }
}

/// A copy of `src[from..to]`.
pub fn slice_of(src: &Vec<char>, from: usize, to: usize) -> (out: Vec<char>)
    requires
        from <= to <= src.len(),
    ensures
        out@ == src@.subrange(from as int, to as int),
{
    let mut out: Vec<char> = Vec::new();
    push_range(&mut out, src, from, to);
    out
}


/// Whether two texts hold the same characters.
pub fn same_text(a: &Vec<char>, b: &Vec<char>) -> (r: bool)
    ensures
        r == (a@ == b@),
{
    if a.len() != b.len() {
        return false;
    }
    let mut i: usize = 0;
    while i < a.len()
        invariant
            i <= a.len(),
            a.len() == b.len(),
            a@.take(i as int) == b@.take(i as int),
        decreases a.len() - i,
    {
        if a[i] != b[i] {
            return false;
        }
        assert(a@.take(i + 1) == a@.take(i as int).push(a@[i as int]));
        assert(b@.take(i + 1) == b@.take(i as int).push(b@[i as int]));
        i += 1;
    }
    assert(a@.take(a.len() as int) == a@);
    assert(b@.take(b.len() as int) == b@);
    true
}

/// `pat` stands in `s` at index `i`.
pub open spec fn occurs_at(s: Seq<char>, pat: Seq<char>, i: int) -> bool {
    0 <= i && i + pat.len() <= s.len() && s.subrange(i, i + pat.len()) == pat
}

/// The least index at or after `from` where `pat` stands in `s`.
pub open spec fn first_occurrence(s: Seq<char>, pat: Seq<char>, from: int) -> Option<int>
    decreases s.len() - from,
{
    if from < 0 || from + pat.len() > s.len() {
        None
    } else if occurs_at(s, pat, from) {
        Some(from)
    } else if from + pat.len() == s.len() {
        None
    } else {
        first_occurrence(s, pat, from + 1)
    }
}

/// `pat` stands somewhere in `s`.
pub open spec fn contains_text(s: Seq<char>, pat: Seq<char>) -> bool {
    first_occurrence(s, pat, 0) is Some
}

/// `p` is an initial part of `s`.
pub open spec fn starts_with(s: Seq<char>, p: Seq<char>) -> bool {
    occurs_at(s, p, 0)
}


/// What `first_occurrence` finds is an occurrence, and the first one.
pub proof fn lemma_first_occurrence(s: Seq<char>, pat: Seq<char>, from: int)
    requires
        0 <= from,
    ensures
        match first_occurrence(s, pat, from) {
            Some(p) => from <= p && occurs_at(s, pat, p) && forall|j: int|
                from <= j < p ==> !occurs_at(s, pat, j),
            None => forall|j: int| from <= j ==> !occurs_at(s, pat, j),
        },
    decreases s.len() - from,
{
    if from + pat.len() > s.len() {
    } else if occurs_at(s, pat, from) {
    } else if from + pat.len() == s.len() {
    } else {
        lemma_first_occurrence(s, pat, from + 1);
    }
}

/// Whether `pat` stands in `s` at index `i`.
pub fn matches_at(s: &Vec<char>, pat: &Vec<char>, i: usize) -> (r: bool)
    ensures
        r == occurs_at(s@, pat@, i as int),
{
    if pat.len() > s.len() || i > s.len() - pat.len() {
        return false;
    }
    let mut k: usize = 0;
    while k < pat.len()
        invariant
            k <= pat.len(),
            i + pat.len() <= s.len(),
            forall|j: int| 0 <= j < k ==> s@[i + j] == pat@[j],
        decreases pat.len() - k,
    {
        if s[i + k] != pat[k] {
            assert(s@.subrange(i as int, i + pat.len())[k as int] != pat@[k as int]);
            return false;
        }
        k += 1;
    }
    assert(s@.subrange(i as int, i + pat.len()) =~= pat@);
    true
}

/// The first index at or after `from` where `pat` stands in `s`.
pub fn find_from(s: &Vec<char>, pat: &Vec<char>, from: usize) -> (r: Option<usize>)
    ensures
        match r {
            Some(p) => first_occurrence(s@, pat@, from as int) == Some(p as int),
            None => first_occurrence(s@, pat@, from as int) is None,
        },
{
    if pat.len() > s.len() || from > s.len() - pat.len() {
        return None;
    }
    let last: usize = s.len() - pat.len();
    let mut i: usize = from;
    loop
        invariant
            from <= i <= last,
            last + pat.len() == s.len(),
            first_occurrence(s@, pat@, from as int) == first_occurrence(s@, pat@, i as int),
        decreases last - i,
    {
        if matches_at(s, pat, i) {
            return Some(i);
        }
        if i == last {
            return None;
        }
        i += 1;
    }
}

/// Whether `s` begins with `p`.
pub fn has_prefix(s: &Vec<char>, p: &Vec<char>) -> (r: bool)
    ensures
        r == starts_with(s@, p@),
{
    matches_at(s, p, 0)
}


/// Whether `pat` stands somewhere in `s`.
pub fn has_text(s: &Vec<char>, pat: &Vec<char>) -> (r: bool)
    ensures
        r == contains_text(s@, pat@),
{
    find_from(s, pat, 0).is_some()
}

/// Whether the character `c` occurs in `s`.
pub fn has_char(s: &Vec<char>, c: char) -> (r: bool)
    ensures
        r == s@.contains(c),
{
    let mut i: usize = 0;
    while i < s.len()
        invariant
            i <= s.len(),
            forall|j: int| 0 <= j < i ==> s@[j] != c,
        decreases s.len() - i,
    {
        if s[i] == c {
            return true;
        }
        i += 1;
    }
    false
}


/// The views of a list of texts.
pub open spec fn texts(v: Seq<Vec<char>>) -> Seq<Seq<char>> {
    Seq::new(v.len(), |i: int| v[i]@)
}

/// The views of a list of strings.
pub open spec fn strings(v: Seq<String>) -> Seq<Seq<char>> {
    Seq::new(v.len(), |i: int| v[i]@)
}

/// The index of the first line feed at or after `from`, or the length of
/// `s` where there is none.
pub open spec fn line_end(s: Seq<char>, from: int) -> int
    decreases s.len() - from,
{
    if from < 0 || from >= s.len() {
        s.len() as int
    } else if s[from] == '\n' {
        from
    } else {
        line_end(s, from + 1)
    }
}

/// `line` without one final carriage return.
pub open spec fn strip_cr(line: Seq<char>) -> Seq<char> {
    if line.len() > 0 && line.last() == '\r' {
        line.drop_last()
    } else {
        line
    }
}

/// The lines of `s` from index `from` on.
pub open spec fn lines_from(s: Seq<char>, from: int) -> Seq<Seq<char>>
    decreases s.len() - from,
{
    if from < 0 || from >= s.len() {
        Seq::empty()
    } else {
        let e = line_end(s, from);
        if from <= e < s.len() {
            seq![strip_cr(s.subrange(from, e))] + lines_from(s, e + 1)
        } else {
            seq![s.subrange(from, s.len() as int)]
        }
    }
}

/// The lines of `s`. A line ends at a line feed, or at a carriage return
/// directly followed by one; the end of the text ends the last line, and a
/// text that ends in a line feed has no empty line after it.
pub open spec fn lines_of(s: Seq<char>) -> Seq<Seq<char>> {
    lines_from(s, 0)
}

/// The lines of `s`, as `lines_of` defines them.
pub fn split_lines(s: &Vec<char>) -> (out: Vec<Vec<char>>)
    ensures
        texts(out@) == lines_of(s@),
{
    let mut out: Vec<Vec<char>> = Vec::new();
    let mut i: usize = 0;
    assert(texts(out@) + lines_from(s@, 0) == lines_of(s@));
    while i < s.len()
        invariant
            i <= s.len(),
            texts(out@) + lines_from(s@, i as int) == lines_of(s@),
        decreases s.len() - i,
    {
        let mut e: usize = i;
        while e < s.len() && s[e] != '\n'
            invariant
                i <= e <= s.len(),
                line_end(s@, i as int) == line_end(s@, e as int),
            decreases s.len() - e,
        {
            e += 1;
        }
        let ghost before = out@;
        if e < s.len() {
            let stop: usize = if e > i && s[e - 1] == '\r' {
                e - 1
            } else {
                e
            };
            let line = slice_of(s, i, stop);
            assert(line@ == strip_cr(s@.subrange(i as int, e as int)));
            out.push(line);
            assert(texts(out@) == texts(before) + seq![line@]);
            i = e + 1;
        } else {
            let line = slice_of(s, i, e);
            out.push(line);
            assert(texts(out@) == texts(before) + seq![line@]);
            i = e;
        }
    }
    out
}

/// `parts` with `sep` between each two neighbours.
pub open spec fn join_with(parts: Seq<Seq<char>>, sep: Seq<char>) -> Seq<char>
    decreases parts.len(),
{
    if parts.len() == 0 {
        Seq::empty()
    } else if parts.len() == 1 {
        parts[0]
    } else {
        join_with(parts.drop_last(), sep) + sep + parts.last()
    }
}

/// Joins `parts` with `sep` between each two neighbours.
pub fn join_texts(parts: &Vec<Vec<char>>, sep: &str) -> (out: Vec<char>)
    ensures
        out@ == join_with(texts(parts@), sep@),
{
    let mut out: Vec<char> = Vec::new();
    let mut i: usize = 0;
    while i < parts.len()
        invariant
            i <= parts.len(),
            out@ == join_with(texts(parts@).take(i as int), sep@),
        decreases parts.len() - i,
    {
        let ghost done = texts(parts@).take(i as int);
        let ghost next = texts(parts@).take(i + 1);
        assert(next.drop_last() == done);
        assert(next.last() == parts@[i as int]@);
        if i > 0 {
            push_str(&mut out, sep);
        }
        push_all(&mut out, &parts[i]);
        i += 1;
    }
    assert(texts(parts@).take(parts.len() as int) == texts(parts@));
    out
}

/// Joins strings with `sep` between each two neighbours.
pub fn join_strings(parts: &Vec<String>, sep: &str) -> (out: String)
    ensures
        out@ == join_with(strings(parts@), sep@),
{
    let mut out = String::new();
    let mut i: usize = 0;
    while i < parts.len()
        invariant
            i <= parts.len(),
            out@ == join_with(strings(parts@).take(i as int), sep@),
        decreases parts.len() - i,
    {
        let ghost done = strings(parts@).take(i as int);
        let ghost next = strings(parts@).take(i + 1);
        assert(next.drop_last() == done);
        assert(next.last() == parts@[i as int]@);
        if i > 0 {
            out.append(sep);
        }
        out.append(parts[i].as_str());
        i += 1;
    }
    assert(strings(parts@).take(parts.len() as int) == strings(parts@));
    out
}

/// White space as Unicode's `White_Space` property lists it.
pub open spec fn is_space(c: char) -> bool {
    let n = c as u32;
    (0x09 <= n <= 0x0D) || n == 0x20 || n == 0x85 || n == 0xA0 || n == 0x1680 || (0x2000 <= n
        <= 0x200A) || n == 0x2028 || n == 0x2029 || n == 0x202F || n == 0x205F || n == 0x3000
}

/// Whether `c` is white space.
pub fn is_whitespace(c: char) -> (r: bool)
    ensures
        r == is_space(c),
{
    let n: u32 = c as u32;
    (0x09 <= n && n <= 0x0D) || n == 0x20 || n == 0x85 || n == 0xA0 || n == 0x1680 || (0x2000
        <= n && n <= 0x200A) || n == 0x2028 || n == 0x2029 || n == 0x202F || n == 0x205F || n
        == 0x3000
}

/// The index of the first character at or after `from` that is no white
/// space, or the length of `s`.
pub open spec fn skip_spaces(s: Seq<char>, from: int) -> int
    decreases s.len() - from,
{
    if from < 0 || from >= s.len() {
        s.len() as int
    } else if is_space(s[from]) {
        skip_spaces(s, from + 1)
    } else {
        from
    }
}

/// The end of the text that remains of `s[floor..to]` once its final white
/// space is dropped.
pub open spec fn drop_spaces(s: Seq<char>, floor: int, to: int) -> int
    decreases to - floor,
{
    if to <= floor || to > s.len() || floor < 0 {
        floor
    } else if is_space(s[to - 1]) {
        drop_spaces(s, floor, to - 1)
    } else {
        to
    }
}

/// `s` without the white space at its two ends.
pub open spec fn trimmed(s: Seq<char>) -> Seq<char> {
    let a = skip_spaces(s, 0);
    s.subrange(a, drop_spaces(s, a, s.len() as int))
}

/// `s` without the white space at its two ends.
pub fn trim(s: &Vec<char>) -> (out: Vec<char>)
    ensures
        out@ == trimmed(s@),
{
    let mut a: usize = 0;
    while a < s.len() && is_whitespace(s[a])
        invariant
            a <= s.len(),
            skip_spaces(s@, 0) == skip_spaces(s@, a as int),
        decreases s.len() - a,
    {
        a += 1;
    }
    let mut b: usize = s.len();
    while b > a && is_whitespace(s[b - 1])
        invariant
            a <= b <= s.len(),
            drop_spaces(s@, a as int, s.len() as int) == drop_spaces(s@, a as int, b as int),
        decreases b - a,
    {
        b -= 1;
    }
    slice_of(s, a, b)
}

/// The decimal digit for `d`.
pub open spec fn digit_char(d: int) -> char {
    if d == 0 {
        '0'
    } else if d == 1 {
        '1'
    } else if d == 2 {
        '2'
    } else if d == 3 {
        '3'
    } else if d == 4 {
        '4'
    } else if d == 5 {
        '5'
    } else if d == 6 {
        '6'
    } else if d == 7 {
        '7'
    } else if d == 8 {
        '8'
    } else {
        '9'
    }
}

/// `n` in decimal, without leading zeros.
pub open spec fn decimal(n: nat) -> Seq<char>
    decreases n,
{
    if n < 10 {
        seq![digit_char(n as int)]
    } else {
        decimal(n / 10).push(digit_char((n % 10) as int))
    }
}

fn digit(d: u128) -> (c: char)
    requires
        d < 10,
    ensures
        c == digit_char(d as int),
{
    if d == 0 {
        '0'
    } else if d == 1 {
        '1'
    } else if d == 2 {
        '2'
    } else if d == 3 {
        '3'
    } else if d == 4 {
        '4'
    } else if d == 5 {
        '5'
    } else if d == 6 {
        '6'
    } else if d == 7 {
        '7'
    } else if d == 8 {
        '8'
    } else {
        '9'
    }
}

/// Appends `n` in decimal to `dst`.
pub fn push_decimal_wide(dst: &mut Vec<char>, n: u128)
    ensures
        final(dst)@ == old(dst)@ + decimal(n as nat),
    decreases n,
{
    if n >= 10 {
        push_decimal_wide(dst, n / 10);
    }
    dst.push(digit(n % 10));
    assert(final(dst)@ =~= old(dst)@ + decimal(n as nat));
}

/// Appends `n` in decimal to `dst`.
pub fn push_decimal(dst: &mut Vec<char>, n: u64)
    ensures
        final(dst)@ == old(dst)@ + decimal(n as nat),
{
    push_decimal_wide(dst, n as u128);
}


/// `n` copies of `c`.
pub open spec fn repeated(c: char, n: int) -> Seq<char> {
    Seq::new(
        if n > 0 {
            n as nat
        } else {
            0
        },
        |i: int| c,
    )
}

/// Appends `n` copies of `c` to `dst`.
pub fn push_repeated(dst: &mut Vec<char>, c: char, n: usize)
    ensures
        final(dst)@ == old(dst)@ + repeated(c, n as int),
{
    let mut i: usize = 0;
    while i < n
        invariant
            i <= n,
            dst@ == old(dst)@ + repeated(c, i as int),
        decreases n - i,
    {
        dst.push(c);
        i += 1;
    }
}

/// `s` followed by as many blanks as it takes to reach `width` characters.
pub open spec fn padded_right(s: Seq<char>, width: int) -> Seq<char> {
    s + repeated(' ', width - s.len())
}

/// `s` preceded by as many blanks as it takes to reach `width` characters.
pub open spec fn padded_left(s: Seq<char>, width: int) -> Seq<char> {
    repeated(' ', width - s.len()) + s
}

/// Appends `s`, padded with blanks on the right to `width` characters.
pub fn push_padded_right(dst: &mut Vec<char>, s: &Vec<char>, width: usize)
    ensures
        final(dst)@ == old(dst)@ + padded_right(s@, width as int),
{
    push_all(dst, s);
    let fill: usize = if width > s.len() {
        width - s.len()
    } else {
        0
    };
    push_repeated(dst, ' ', fill);
    assert(repeated(' ', fill as int) == repeated(' ', width - s.len()));
    assert(final(dst)@ =~= old(dst)@ + padded_right(s@, width as int));
}

/// Appends `s`, padded with blanks on the left to `width` characters.
pub fn push_padded_left(dst: &mut Vec<char>, s: &Vec<char>, width: usize)
    ensures
        final(dst)@ == old(dst)@ + padded_left(s@, width as int),
{
    let fill: usize = if width > s.len() {
        width - s.len()
    } else {
        0
    };
    push_repeated(dst, ' ', fill);
    push_all(dst, s);
    assert(repeated(' ', fill as int) == repeated(' ', width - s.len()));
    assert(final(dst)@ =~= old(dst)@ + padded_left(s@, width as int));
}


/// Whether `v` holds the characters of `lit`.
pub fn same_str(v: &Vec<char>, lit: &str) -> (r: bool)
    ensures
        r == (v@ == lit@),
{
    let other = chars_of(lit);
    same_text(v, &other)
}

/// Whether every character of `s` is an ASCII character.
pub open spec fn all_ascii(s: Seq<char>) -> bool {
    forall|i: int| 0 <= i < s.len() ==> (#[trigger] s[i] as u32) < 128
}

/// `c` with an ASCII capital letter turned into its small letter.
pub open spec fn ascii_lower_char(c: char) -> char {
    if 0x41 <= c as u32 <= 0x5A {
        ((c as u32 + 32) as u8) as char
    } else {
        c
    }
}

/// What `str::to_lowercase` makes of `s`: its lowercase form by the
/// Unicode mapping of the standard library.
pub uninterp spec fn unicode_lowercase(s: Seq<char>) -> Seq<char>;

/// The lowercase form of `s`. Text that is all ASCII has each capital
/// letter turned into its small letter; other text is lowered by the
/// standard library's Unicode mapping.
pub open spec fn lowered(s: Seq<char>) -> Seq<char> {
    if all_ascii(s) {
        Seq::new(s.len(), |i: int| ascii_lower_char(s[i]))
    } else {
        unicode_lowercase(s)
    }
}

/// `str::to_lowercase`, whose result gets a name: the mapping is a
/// function of the text alone and takes tables to state.
#[verifier::external_body]
fn to_lowercase_std(s: &str) -> (r: String)
    ensures
        r@ == unicode_lowercase(s@),
{
    s.to_lowercase()
}

fn lower_ascii_char(c: char) -> (r: char)
    ensures
        r == ascii_lower_char(c),
{
    let n: u32 = c as u32;
    if 0x41 <= n && n <= 0x5A {
        ((n + 32) as u8) as char
    } else {
        c
    }
}

/// The lowercase form of `s`.
pub fn lowercase(s: &Vec<char>) -> (out: Vec<char>)
    ensures
        out@ == lowered(s@),
{
    let mut out: Vec<char> = Vec::new();
    let mut i: usize = 0;
    while i < s.len()
        invariant
            i <= s.len(),
            out.len() == i,
            forall|j: int| 0 <= j < i ==> (#[trigger] s@[j] as u32) < 128,
            forall|j: int| 0 <= j < i ==> out@[j] == ascii_lower_char(s@[j]),
        decreases s.len() - i,
    {
        let c = s[i];
        if c as u32 >= 128 {
            let whole = string_of(s);
            let low = to_lowercase_std(whole.as_str());
            assert(!all_ascii(s@));
            return chars_of(low.as_str());
        }
        out.push(lower_ascii_char(c));
        i += 1;
    }
    assert(all_ascii(s@));
    assert(out@ =~= lowered(s@));
    out
}


/// `a` followed by `b`.
pub fn concat2(a: &str, b: &str) -> (m: String)
    ensures
        m@ == a@ + b@,
{
    let mut v = chars_of(a);
    push_str(&mut v, b);
    string_of(&v)
}

/// `a`, `b` and `c` in a row.
pub fn concat3(a: &str, b: &str, c: &str) -> (m: String)
    ensures
        m@ == a@ + b@ + c@,
{
    let mut v = chars_of(a);
    push_str(&mut v, b);
    push_str(&mut v, c);
    string_of(&v)
}

/// `a`, `b`, `c` and `d` in a row.
pub fn concat4(a: &str, b: &str, c: &str, d: &str) -> (m: String)
    ensures
        m@ == a@ + b@ + c@ + d@,
{
    let mut v = chars_of(a);
    push_str(&mut v, b);
    push_str(&mut v, c);
    push_str(&mut v, d);
    string_of(&v)
}

/// `a`, `b`, `c`, `d` and `e` in a row.
pub fn concat5(a: &str, b: &str, c: &str, d: &str, e: &str) -> (m: String)
    ensures
        m@ == a@ + b@ + c@ + d@ + e@,
{
    let mut v = chars_of(a);
    push_str(&mut v, b);
    push_str(&mut v, c);
    push_str(&mut v, d);
    push_str(&mut v, e);
    string_of(&v)
}


/// `s` with each ASCII capital letter turned into its small letter.
pub open spec fn ascii_folded(s: Seq<char>) -> Seq<char> {
    Seq::new(s.len(), |i: int| ascii_lower_char(s[i]))
}

/// Whether `a` and `b` are the same but for the case of ASCII letters.
pub fn same_ignoring_ascii_case(a: &Vec<char>, b: &Vec<char>) -> (r: bool)
    ensures
        r == (ascii_folded(a@) == ascii_folded(b@)),
{
    if a.len() != b.len() {
        assert(ascii_folded(a@).len() != ascii_folded(b@).len());
        return false;
    }
    let mut i: usize = 0;
    while i < a.len()
        invariant
            i <= a.len(),
            a.len() == b.len(),
            forall|j: int| 0 <= j < i ==> ascii_lower_char(a@[j]) == ascii_lower_char(b@[j]),
        decreases a.len() - i,
    {
        if lower_ascii_char(a[i]) != lower_ascii_char(b[i]) {
            assert(ascii_folded(a@)[i as int] != ascii_folded(b@)[i as int]);
            return false;
        }
        i += 1;
    }
    assert(ascii_folded(a@) =~= ascii_folded(b@));
    true
}


/// Whether `a` comes before `b` from index `i` on, character by character
/// in the order of their code points; a text comes before each text that
/// it begins.
pub open spec fn lex_before_from(a: Seq<char>, b: Seq<char>, i: int) -> bool
    decreases a.len() - i,
{
    if i < 0 || i >= b.len() {
        false
    } else if i >= a.len() {
        true
    } else if a[i] != b[i] {
        (a[i] as u32) < (b[i] as u32)
    } else {
        lex_before_from(a, b, i + 1)
    }
}

/// Whether `a` comes before `b` in the order of strings.
pub open spec fn lex_before(a: Seq<char>, b: Seq<char>) -> bool {
    lex_before_from(a, b, 0)
}

/// Whether `a` comes before `b` in the order of strings.
pub fn comes_before(a: &Vec<char>, b: &Vec<char>) -> (r: bool)
    ensures
        r == lex_before(a@, b@),
{
    let mut i: usize = 0;
    while i < a.len() && i < b.len()
        invariant
            i <= a.len(),
            i <= b.len(),
            lex_before(a@, b@) == lex_before_from(a@, b@, i as int),
        decreases a.len() - i,
    {
        let ca: char = a[i];
        let cb: char = b[i];
        if ca != cb {
            return (ca as u32) < (cb as u32);
        }
        i += 1;
    }
    i < b.len()
}


/// The number of bytes that `s` takes in UTF-8, as the length of a string
/// tells it.
pub open spec fn byte_len(s: Seq<char>) -> usize {
    vstd::utf8::encode_utf8(s).len() as usize
}

/// The number of bytes that `s` takes in UTF-8.
pub fn byte_length(s: &str) -> (n: usize)
    ensures
        n == byte_len(s@),
{
    s.len()
}


/// No text comes before itself, and of two texts at most one comes before
/// the other.
pub proof fn lemma_lex_asymmetric(a: Seq<char>, b: Seq<char>, i: int)
    requires
        0 <= i,
    ensures
        lex_before_from(a, b, i) ==> !lex_before_from(b, a, i),
    decreases a.len() - i,
{
    if i < a.len() && i < b.len() && a[i] == b[i] {
        lemma_lex_asymmetric(a, b, i + 1);
    }
}

proof fn lemma_code_is_injective(a: char, b: char)
    ensures
        a as u32 == b as u32 ==> a == b,
{
}

/// Where `x` does not come before `y` and `y` does not come before `z`,
/// `x` does not come before `z`.
pub proof fn lemma_lex_not_before_chain(x: Seq<char>, y: Seq<char>, z: Seq<char>, i: int)
    requires
        0 <= i,
        !lex_before_from(x, y, i),
        !lex_before_from(y, z, i),
    ensures
        !lex_before_from(x, z, i),
    decreases z.len() - i,
{
    if i < z.len() {
        assert(i < y.len());
        assert(i < x.len());
        lemma_code_is_injective(x[i], y[i]);
        if x[i] == y[i] && y[i] == z[i] {
            lemma_lex_not_before_chain(x, y, z, i + 1);
        }
    }
}


/// `std::str::from_utf8`: the text that `bytes` hold in UTF-8, and none
/// where they hold no UTF-8.
#[verifier::external_body]
pub(crate) fn text_of_bytes(bytes: &Vec<u8>) -> (r: Option<String>)
    ensures
        r is Some <==> vstd::utf8::valid_utf8(bytes@),
        r matches Some(s) ==> s@ == vstd::utf8::decode_utf8(bytes@),
{
    std::str::from_utf8(bytes).ok().map(|s| s.to_string())
}

} // verus!
