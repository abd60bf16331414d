use crate::units::ZOOM_UNIT;
use vstd::prelude::*;

verus! {

/// A rectangle of terminal cells: the column and row of its top left cell,
/// and its extent.
#[derive(Clone, Copy, PartialEq, Eq, Structural, Debug)]
pub struct CellRect {
    pub x: u16,
    pub y: u16,
    pub width: u16,
    pub height: u16,
}

impl CellRect {
    /// The rectangle's right and bottom edges are columns and rows that a
    /// terminal can have.
    pub open spec fn fits(self) -> bool {
        &&& self.x + self.width <= u16::MAX
        &&& self.y + self.height <= u16::MAX
    }

    /// The rectangle `inner` covers no cell outside this one.
    pub open spec fn contains_rect(self, inner: CellRect) -> bool {
        &&& self.x <= inner.x
        &&& self.y <= inner.y
        &&& inner.x + inner.width <= self.x + self.width
        &&& inner.y + inner.height <= self.y + self.height
    }
}

/// Where a page stands in its column when it is narrower than the column.
#[derive(Clone, Copy, PartialEq, Eq, Structural, Debug)]
pub enum HAlign {
    Left,
    Center,
    Right,
}

/// `n / d`, rounded upwards.
pub open spec fn ceil_div(n: nat, d: nat) -> nat {
    ((n + d - 1) / d as int) as nat
}

/// The scale at which a picture of `img_w` by `img_h` pixels is shown in an
/// area of `area_w` by `area_h` pixels, as a fraction: the larger of the two
/// scales at which it fits, times the zoom where the zoom is below one.
pub open spec fn display_scale(img_w: nat, img_h: nat, area_w: nat, area_h: nat, zoom: nat) -> (nat, nat) {
    let z = if zoom < ZOOM_UNIT {
        zoom
    } else {
        ZOOM_UNIT as nat
    };
    if area_w * img_h <= area_h * img_w {
        (area_w * z, img_w * 100)
    } else {
        (area_h * z, img_h * 100)
    }
}

/// How many cells of `cell` pixels an axis of `img` pixels takes at the scale
/// `num / den`: rounded upwards, at least one, at most the `limit`.
pub open spec fn used_cells(img: nat, num: nat, den: nat, cell: nat, limit: nat) -> nat {
    let used = if cell == 0 {
        0
    } else {
        ceil_div(img * num, den * cell)
    };
    if used > limit {
        if limit < 1 {
            1
        } else {
            limit
        }
    } else if used < 1 {
        1
    } else {
        used
    }
}

/// The cells a picture of `img_w` by `img_h` pixels takes inside `area` when
/// it is fitted into it, with cells of `cell` pixels and at `zoom`: centred
/// from top to bottom, and placed from left to right as `halign` says. An
/// empty area or an empty picture leaves the area as it is.
pub open spec fn aligned_area(img_w: u32, img_h: u32, area: CellRect, cell: (u16, u16), zoom: u32, halign: HAlign) -> CellRect {
    if area.width == 0 || area.height == 0 || img_w == 0 || img_h == 0 {
        area
    } else {
        let (num, den) = display_scale(
            img_w as nat,
            img_h as nat,
            (area.width * cell.0) as nat,
            (area.height * cell.1) as nat,
            zoom as nat,
        );
        let w = used_cells(img_w as nat, num, den, cell.0 as nat, area.width as nat);
        let h = used_cells(img_h as nat, num, den, cell.1 as nat, area.height as nat);
        let x_off = match halign {
            HAlign::Left => 0,
            HAlign::Center => (area.width - w) / 2,
            HAlign::Right => area.width - w,
        };
        let y_off = (area.height - h) / 2;
        CellRect {
            x: (area.x + x_off) as u16,
            y: (area.y + y_off) as u16,
            width: w as u16,
            height: h as u16,
        }
    }
}

fn cells_of(img: u32, num: u128, den: u128, cell: u16, limit: u16) -> (r: u16)
    requires
        img >= 1,
        limit >= 1,
        num <= 0xffff_ffff * 100,
        1 <= den <= 0xffff_ffff * 100,
    ensures
        r == used_cells(img as nat, num as nat, den as nat, cell as nat, limit as nat),
        1 <= r <= limit,
{
    if cell == 0 {
        1
    } else {
        assert((img as int) * (num as int) <= 0xffff_ffff * (0xffff_ffff * 100)) by (nonlinear_arith)
            requires
                0 <= img <= 0xffff_ffff,
                0 <= num <= 0xffff_ffff * 100,
        ;
        assert(1 <= (den as int) * (cell as int) <= (0xffff_ffff * 100) * 0xffff) by (nonlinear_arith)
            requires
                1 <= den <= 0xffff_ffff * 100,
                1 <= cell <= 0xffff,
        ;
        let n: u128 = (img as u128) * num;
        let d: u128 = den * (cell as u128);
        let used: u128 = (n + d - 1) / d;
        if used > limit as u128 {
            limit
        } else if used < 1 {
            1
        } else {
            used as u16
        }
    }
}

/// Computes the cells that a picture of `img_w` by `img_h` pixels takes
/// inside `area`; `font_size` is the extent of one cell in pixels and `zoom`
/// is in hundredths. The result covers no cell outside `area`.
pub fn aligned_image_area(
    img_w: u32,
    img_h: u32,
    area: CellRect,
    font_size: (u16, u16),
    zoom: u32,
    halign: HAlign,
) -> (r: CellRect)
    requires
        area.fits(),
    ensures
        r == aligned_area(img_w, img_h, area, font_size, zoom, halign),
        area.contains_rect(r),
        r.fits(),
        area.width >= 1 && area.height >= 1 ==> r.width >= 1 && r.height >= 1,
{
    if area.width == 0 || area.height == 0 || img_w == 0 || img_h == 0 {
        return area;
    }
    assert(area.width * font_size.0 <= 0xffff * 0xffff && area.height * font_size.1 <= 0xffff
        * 0xffff) by (nonlinear_arith)
        requires
            area.width <= 0xffff,
            area.height <= 0xffff,
            font_size.0 <= 0xffff,
            font_size.1 <= 0xffff,
    ;
    let area_w: u128 = (area.width as u128) * (font_size.0 as u128);
    let area_h: u128 = (area.height as u128) * (font_size.1 as u128);
    let z: u128 = if zoom < ZOOM_UNIT {
        zoom as u128
    } else {
        ZOOM_UNIT as u128
    };
    assert(area_w * (img_h as u128) <= (0xffff * 0xffff) * 0xffff_ffff && area_h * (img_w as u128)
        <= (0xffff * 0xffff) * 0xffff_ffff) by (nonlinear_arith)
        requires
            area_w <= 0xffff * 0xffff,
            area_h <= 0xffff * 0xffff,
            img_h <= 0xffff_ffff,
            img_w <= 0xffff_ffff,
    ;
    assert(area_w * z <= (0xffff * 0xffff) * 100 && area_h * z <= (0xffff * 0xffff) * 100)
        by (nonlinear_arith)
        requires
            area_w <= 0xffff * 0xffff,
            area_h <= 0xffff * 0xffff,
            z <= 100,
    ;
    let width_bound: bool = area_w * (img_h as u128) <= area_h * (img_w as u128);
    let num: u128 = if width_bound {
        area_w * z
    } else {
        area_h * z
    };
    let den: u128 = if width_bound {
        (img_w as u128) * 100
    } else {
        (img_h as u128) * 100
    };
    let w: u16 = cells_of(img_w, num, den, font_size.0, area.width);
    let h: u16 = cells_of(img_h, num, den, font_size.1, area.height);
    let x_off: u16 = match halign {
        HAlign::Left => 0,
        HAlign::Center => (area.width - w) / 2,
        HAlign::Right => area.width - w,
    };
    let y_off: u16 = (area.height - h) / 2;
    CellRect { x: area.x + x_off, y: area.y + y_off, width: w, height: h }
}

/// Where the page in column `index` of `count` columns stands in its column:
/// the first against its right edge, the last against its left edge, so that
/// the pages meet in the middle; any other in the centre.
pub open spec fn column_halign(index: nat, count: nat) -> HAlign {
    if index == 0 {
        HAlign::Right
    } else if index + 1 == count {
        HAlign::Left
    } else {
        HAlign::Center
    }
}

/// Picks the alignment of the page in column `index` of `count` columns.
pub fn column_align(index: usize, count: usize) -> (r: HAlign)
    ensures
        r == column_halign(index as nat, count as nat),
{
    if index == 0 {
        HAlign::Right
    } else if count > 0 && index == count - 1 {
        HAlign::Left
    } else {
        HAlign::Center
    }
}

} // verus!
