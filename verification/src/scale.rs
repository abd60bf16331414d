use crate::layout::PageLayout;
use crate::units::{POINT_UNIT, SCALE_UNIT, ZOOM_MAX, ZOOM_UNIT};
use vstd::prelude::*;

verus! {

/// The zoom that counts for the render scale: a zoom below one asks for no
/// less resolution than a zoom of one.
pub open spec fn effective_zoom(zoom: u32) -> nat {
    if zoom < ZOOM_UNIT {
        ZOOM_UNIT as nat
    } else {
        zoom as nat
    }
}

/// The scale, in millionths, at which a page extent of `page` thousandths
/// of a point fills `cells` cells of `cell_px` pixels shared by `across`
/// pages, times the zoom in hundredths, rounded down. A page without extent
/// sets no limit: the largest scale there is.
pub open spec fn axis_scale(cells: nat, cell_px: nat, across: nat, page: nat, zoom: nat) -> nat {
    if page == 0 {
        u64::MAX as nat
    } else {
        ((cells * cell_px * zoom * SCALE_UNIT * POINT_UNIT) / (ZOOM_UNIT * across * page) as int) as nat
    }
}

/// The render scale for a terminal of `cols` columns and `rows` usable rows
/// with cells of `cell` pixels, showing pages of `page` thousandths of a
/// point side by side as `layout` says: the larger of the two scales at
/// which a page fits its share of the columns and the rows, times the
/// effective zoom.
pub open spec fn render_scale_of(cols: u16, rows: u16, cell: (u16, u16), layout: PageLayout, page: (u32, u32), zoom: u32) -> nat {
    let by_width = axis_scale(
        cols as nat,
        cell.0 as nat,
        layout.across(),
        page.0 as nat,
        effective_zoom(zoom),
    );
    let by_height = axis_scale(rows as nat, cell.1 as nat, 1, page.1 as nat, effective_zoom(zoom));
    if by_width <= by_height {
        by_width
    } else {
        by_height
    }
}

fn axis_fit(cells: u16, cell_px: u16, across: usize, page: u32, zoom: u32) -> (r: u64)
    requires
        1 <= across <= 3,
        ZOOM_UNIT <= zoom <= ZOOM_MAX,
    ensures
        r == axis_scale(cells as nat, cell_px as nat, across as nat, page as nat, zoom as nat),
{
    if page == 0 {
        return u64::MAX;
    }
    assert(cells * cell_px * zoom <= 0xffff * 0xffff * 400) by (nonlinear_arith)
        requires
            cells <= 0xffff,
            cell_px <= 0xffff,
            zoom <= 400,
    ;
    assert(cells * cell_px <= 0xffff * 0xffff) by (nonlinear_arith)
        requires
            cells <= 0xffff,
            cell_px <= 0xffff,
    ;
    assert(1 <= across * page <= 3 * 0xffff_ffff) by (nonlinear_arith)
        requires
            1 <= across <= 3,
            1 <= page <= 0xffff_ffff,
    ;
    let px: u128 = (cells as u128) * (cell_px as u128);
    let zoomed: u128 = px * (zoom as u128);
    let numerator: u128 = zoomed * 1_000_000_000;
    let denominator: u128 = 100 * ((across as u128) * (page as u128));
    let quotient: u128 = numerator / denominator;
    assert(quotient <= 0xffff * 0xffff * 400 * 10_000_000) by (nonlinear_arith)
        requires
            quotient == numerator / denominator,
            numerator <= 0xffff * 0xffff * 400 * 1_000_000_000,
            denominator >= 100,
    ;
    assert(cells * cell_px * zoom * SCALE_UNIT * POINT_UNIT == numerator) by (nonlinear_arith)
        requires
            numerator == cells * cell_px * zoom * 1_000_000_000,
            SCALE_UNIT == 1_000_000,
            POINT_UNIT == 1000,
    ;
    assert(ZOOM_UNIT * across * page == denominator) by (nonlinear_arith)
        requires
            denominator == 100 * (across * page),
            ZOOM_UNIT == 100,
    ;
    quotient as u64
}

/// Computes the render scale, in millionths of a pixel per point. `zoom` is
/// in hundredths, `font_size` is the extent of a cell in pixels and
/// `page_bounds` the extent of a page in thousandths of a point.
pub fn fit_scale(
    cols: u16,
    rows: u16,
    font_size: (u16, u16),
    layout: PageLayout,
    page_bounds: (u32, u32),
    zoom: u32,
) -> (r: u64)
    requires
        zoom <= ZOOM_MAX,
    ensures
        r == render_scale_of(cols, rows, font_size, layout, page_bounds, zoom),
{
    let z: u32 = if zoom < ZOOM_UNIT {
        ZOOM_UNIT
    } else {
        zoom
    };
    let by_width: u64 = axis_fit(cols, font_size.0, layout.pages_across(), page_bounds.0, z);
    let by_height: u64 = axis_fit(rows, font_size.1, 1, page_bounds.1, z);
    if by_width <= by_height {
        by_width
    } else {
        by_height
    }
}

/// Zooming out below one asks for the same scale as a zoom of one.
pub proof fn lemma_zoom_out_keeps_scale(cols: u16, rows: u16, cell: (u16, u16), layout: PageLayout, page: (u32, u32), zoom: u32)
    requires
        zoom <= ZOOM_UNIT,
    ensures
        render_scale_of(cols, rows, cell, layout, page, zoom) == render_scale_of(
            cols,
            rows,
            cell,
            layout,
            page,
            ZOOM_UNIT,
        ),
{
}

} // verus!
