//! The pagination bar's arithmetic: how many pages there are, which page
//! buttons are shown around the current one, and when the jump-to-end
//! shortcuts with their ellipses appear.

use vstd::prelude::*;

verus! {

/// How many pages a data set of `data_size` items spans at `page_size`
/// items per page: the integer quotient plus one.
pub fn max_pages(data_size: usize, page_size: usize) -> (r: usize)
    requires
        page_size > 0,
        (data_size as int) / (page_size as int) < (usize::MAX as int),
    ensures
        r as int == (data_size as int) / (page_size as int) + 1,
{
    data_size / page_size + 1
}

/// Whether the jump-to-first-page button and its ellipsis are shown: only
/// once the current page is past page 2.
pub fn shows_leading_jump(page_number: usize) -> (r: bool)
    ensures
        r == (page_number > 2),
{
    page_number > 2
}

/// Whether the ellipsis and jump-to-last-page button are shown: only while
/// the current page is at least two pages from the end.
pub fn shows_trailing_jump(page_number: usize, max_pages: usize) -> (r: bool)
    ensures
        r == (page_number as int <= if max_pages >= 2 {
            max_pages - 2
        } else {
            0
        }),
{
    let threshold: usize = if max_pages >= 2 {
        max_pages - 2
    } else {
        0
    };
    page_number <= threshold
}

/// The inclusive range of numbered page buttons shown: from one page below
/// the current one to one page above, clamped to stay within page 1 and
/// `max_pages`.
pub fn page_window(page_number: usize, max_pages: usize) -> (r: (usize, usize))
    ensures
        r.0 as int == if page_number >= 2 {
            page_number - 1
        } else {
            1
        },
        r.1 as int == if page_number as int + 1 <= max_pages as int {
            page_number + 1
        } else {
            max_pages as int
        },
{
    let start: usize = if page_number >= 2 {
        page_number - 1
    } else {
        1
    };
    let end: usize = if page_number < max_pages {
        page_number + 1
    } else {
        max_pages
    };
    (start, end)
}

} // verus!
