//! Pages of a list.

use vstd::prelude::*;
use crate::text::{chars_of, decimal, push_decimal, push_str, string_of};

verus! {

/// The page size used: the one asked for, at least 1 and at most `most`.
pub open spec fn page_size_of(asked: usize, most: usize) -> int {
    if asked < 1 {
        1
    } else if asked > most {
        most as int
    } else {
        asked as int
    }
}

/// The page shown: the one asked for, at least 1.
pub open spec fn page_number(asked: usize) -> int {
    if asked < 1 {
        1
    } else {
        asked as int
    }
}

/// The index of the first item of page `page`.
pub open spec fn page_start(page: int, size: int) -> int {
    (page - 1) * size
}

/// The number of pages that `total` items fill.
pub open spec fn page_count(total: int, size: int) -> int {
    (total + size - 1) / size
}

/// Whether page `page` lies behind the last item of a list that is not
/// empty.
pub open spec fn out_of_range(total: int, page: int, size: int) -> bool {
    total > 0 && page_start(page, size) >= total
}

/// The index of the first item shown of page `page`: the length of the
/// list where the page lies behind its last item.
pub open spec fn page_first(total: int, page: int, size: int) -> int {
    if page_start(page, size) >= total {
        total
    } else {
        page_start(page, size)
    }
}

/// The index behind the last item of page `page`.
pub open spec fn page_end(total: int, page: int, size: int) -> int {
    if page_start(page, size) >= total {
        total
    } else if page_start(page, size) + size > total {
        total
    } else {
        page_start(page, size) + size
    }
}


/// A page of a list that is not empty lies behind its last item exactly
/// where its number is above the number of pages. Every other page starts
/// at the item that `size` items per earlier page lead to, and holds
/// `size` items or, as the last page, the items that are left, at least
/// one.
pub proof fn lemma_pages(total: int, page: int, size: int)
    requires
        total > 0,
        page >= 1,
        size >= 1,
    ensures
        out_of_range(total, page, size) <==> page > page_count(total, size),
        !out_of_range(total, page, size) ==> {
            &&& page_first(total, page, size) == (page - 1) * size
            &&& page_end(total, page, size) - page_first(total, page, size) >= 1
            &&& page_end(total, page, size) - page_first(total, page, size) <= size
            &&& (page < page_count(total, size) ==> page_end(total, page, size) - page_first(
                total,
                page,
                size,
            ) == size)
            &&& (page == page_count(total, size) ==> page_end(total, page, size) == total)
        },
{
    let pages = page_count(total, size);
    assert((pages - 1) * size < total <= pages * size) by (nonlinear_arith)
        requires
            total > 0,
            size >= 1,
            pages == (total + size - 1) / size,
    ;
    assert(page > pages ==> (page - 1) * size >= pages * size) by (nonlinear_arith)
        requires
            size >= 1,
    ;
    assert(page <= pages ==> (page - 1) * size <= (pages - 1) * size) by (nonlinear_arith)
        requires
            size >= 1,
    ;
    assert(page < pages ==> (page - 1) * size + size <= (pages - 1) * size) by (nonlinear_arith)
        requires
            size >= 1,
    ;
    assert(page == pages ==> (page - 1) * size + size == pages * size) by (nonlinear_arith);
}

/// What is said where the page asked for lies behind the last item.
pub open spec fn out_of_range_text(total: int, page: int, size: int) -> Seq<char> {
    "Page "@ + decimal(page as nat) + " is out of range. Total items: "@ + decimal(total as nat)
        + " ("@ + decimal(page_count(total, size) as nat) + " pages)"@
}

/// The bounds of one page of a list.
pub struct Page {
    /// The page shown, from 1.
    pub number: usize,
    /// The page size used.
    pub size: usize,
    /// The number of pages in all.
    pub pages: usize,
    /// The index of the first item shown.
    pub start: usize,
    /// The index behind the last item shown.
    pub end: usize,
    /// Whether the page lies behind the last item of a list that is not
    /// empty; `start` and `end` are then both the length of the list.
    pub beyond: bool,
}

/// The bounds of page `page` of a list of `total` items, for a page size
/// `page_size` that is held between 1 and `most`.
pub fn page_of(total: usize, page: usize, page_size: usize, most: usize) -> (p: Page)
    requires
        most >= 1,
    ensures
        p.number == page_number(page),
        p.size == page_size_of(page_size, most),
        p.pages == page_count(total as int, p.size as int),
        p.beyond == out_of_range(total as int, p.number as int, p.size as int),
        p.start <= p.end <= total,
        p.end == page_end(total as int, p.number as int, p.size as int),
        p.start == page_first(total as int, p.number as int, p.size as int),
{
    let size: usize = if page_size < 1 {
        1
    } else if page_size > most {
        most
    } else {
        page_size
    };
    let number: usize = if page < 1 {
        1
    } else {
        page
    };
    let pages: usize = if total == 0 {
        0
    } else {
        (total - 1) / size + 1
    };
    assert(pages == page_count(total as int, size as int)) by (nonlinear_arith)
        requires
            size >= 1,
            total >= 0,
            pages == if total == 0 {
                0
            } else {
                (total - 1) / (size as int) + 1
            },
    ;
    assert((number - 1) * size <= 0xFFFF_FFFF_FFFF_FFFF * 0xFFFF_FFFF_FFFF_FFFF)
        by (nonlinear_arith)
        requires
            0 <= number - 1 <= 0xFFFF_FFFF_FFFF_FFFF,
            0 <= size <= 0xFFFF_FFFF_FFFF_FFFF,
    ;
    let first: u128 = ((number - 1) as u128) * (size as u128);
    if first >= total as u128 {
        Page { number, size, pages, start: total, end: total, beyond: total > 0 }
    } else {
        let start: usize = first as usize;
        let end: usize = if size > total - start {
            total
        } else {
            start + size
        };
        Page { number, size, pages, start, end, beyond: false }
    }
}

/// What is said where the page asked for lies behind the last item.
pub fn out_of_range_message(total: usize, p: &Page) -> (text: String)
    ensures
        text@ == "Page "@ + decimal(p.number as nat) + " is out of range. Total items: "@
            + decimal(total as nat) + " ("@ + decimal(p.pages as nat) + " pages)"@,
{
    let mut v = chars_of("Page ");
    push_decimal(&mut v, p.number as u64);
    push_str(&mut v, " is out of range. Total items: ");
    push_decimal(&mut v, total as u64);
    push_str(&mut v, " (");
    push_decimal(&mut v, p.pages as u64);
    push_str(&mut v, " pages)");
    string_of(&v)
}

} // verus!
