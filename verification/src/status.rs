use crate::area::CellRect;
use crate::layout::PageLayout;
use vstd::prelude::*;

verus! {

/// The page numbers that the status line shows, counted from one: the first
/// visible page and, where more than one page of the document is visible,
/// the last one.
pub open spec fn shown_pages(current_page: usize, layout: PageLayout, page_count: usize) -> (nat, Option<nat>) {
    let first = (current_page + 1) as nat;
    let last = if current_page + layout.across() < page_count {
        (current_page + layout.across()) as nat
    } else {
        page_count as nat
    };
    if last > first {
        (first, Some(last))
    } else {
        (first, None)
    }
}

/// Computes the page numbers that the status line shows.
pub fn status_pages(current_page: usize, layout: PageLayout, page_count: usize) -> (r: (usize, Option<usize>))
    requires
        current_page < page_count,
    ensures
        r.0 == shown_pages(current_page, layout, page_count).0,
        match r.1 {
            Some(last) => shown_pages(current_page, layout, page_count).1 == Some(last as nat),
            None => shown_pages(current_page, layout, page_count).1 is None,
        },
{
    let n: usize = layout.pages_across();
    let first: usize = current_page + 1;
    let last: usize = if page_count - current_page > n {
        current_page + n
    } else {
        page_count
    };
    if last > first {
        (first, Some(last))
    } else {
        (first, None)
    }
}

/// How many blanks stand between the left and the right part of a status
/// line `width` cells wide: what the two parts leave free, or none.
pub open spec fn gap_width(width: u16, left: usize, right: usize) -> nat {
    if left + right >= width {
        0
    } else {
        (width - left - right) as nat
    }
}

/// Computes the blanks between the two parts of the status line.
pub fn status_gap(width: u16, left: usize, right: usize) -> (r: usize)
    ensures
        r == gap_width(width, left, right),
{
    let w: usize = width as usize;
    if left >= w || right >= w - left {
        0
    } else {
        w - left - right
    }
}

/// The row in which the notice of a page that is still loading stands: the
/// middle row of the page's area, over its whole width.
pub open spec fn notice_row(area: CellRect) -> CellRect {
    CellRect { x: area.x, y: (area.y + area.height / 2) as u16, width: area.width, height: 1 }
}

/// Computes the row for the notice of a page that is still loading.
pub fn loading_row(area: CellRect) -> (r: CellRect)
    requires
        area.fits(),
    ensures
        r == notice_row(area),
        area.height >= 1 ==> area.contains_rect(r),
{
    CellRect { x: area.x, y: area.y + area.height / 2, width: area.width, height: 1 }
}

} // verus!
