use crate::bitmap::{crop_rgb, Bitmap};
use crate::units::{PAN_LIMIT, ZOOM_UNIT};
use vstd::prelude::*;

verus! {

/// A rectangle of pixels inside a bitmap.
#[derive(Clone, Copy, PartialEq, Eq, Structural, Debug)]
pub struct CropRegion {
    pub x: u32,
    pub y: u32,
    pub width: u32,
    pub height: u32,
}

impl CropRegion {
    /// The rectangle lies inside a bitmap of `width` by `height` pixels.
    pub open spec fn inside(self, width: nat, height: nat) -> bool {
        &&& self.x + self.width <= width
        &&& self.y + self.height <= height
    }
}

/// `n / d` rounded to the nearest whole number, halves upwards.
pub open spec fn round_div(n: nat, d: nat) -> nat {
    (2 * n + d) / (2 * d)
}

/// How many pixels of an axis `full` pixels long stay visible at `zoom`.
/// Up to a zoom of one that is the whole axis; beyond it `full / zoom`,
/// rounded, and never less than one pixel of a bitmap that has any.
pub open spec fn crop_span(full: nat, zoom: nat) -> nat {
    if zoom <= ZOOM_UNIT || full == 0 {
        full
    } else {
        let span = round_div(100 * full, zoom);
        if span < 1 {
            1
        } else if span > full {
            full
        } else {
            span
        }
    }
}

/// Where the visible span starts on an axis `full` pixels long. The pan runs
/// from the near edge (`-PAN_LIMIT`) over the centre (0) to the far edge
/// (`PAN_LIMIT`) and is clamped to that range; the start is the matching share
/// of the pixels that do not fit, rounded.
pub open spec fn crop_start(full: nat, span: nat, pan: int) -> nat {
    let slack = (full - span) as nat;
    let share: nat = if pan < -PAN_LIMIT {
        0
    } else if pan > PAN_LIMIT {
        200
    } else {
        (pan + PAN_LIMIT) as nat
    };
    (share * slack + 100) / 200
}

/// The part of a bitmap of `width` by `height` pixels that is visible at
/// `zoom`, panned by `pan_x` and `pan_y`.
pub open spec fn visible_region(width: nat, height: nat, zoom: nat, pan_x: int, pan_y: int) -> (nat, nat, nat, nat) {
    let w = crop_span(width, zoom);
    let h = crop_span(height, zoom);
    (crop_start(width, w, pan_x), crop_start(height, h, pan_y), w, h)
}

/// The visible span is part of the axis, and at least one pixel of an axis
/// that has any.
pub proof fn lemma_crop_span_bounds(full: nat, zoom: nat)
    ensures
        crop_span(full, zoom) <= full,
        full >= 1 ==> crop_span(full, zoom) >= 1,
        zoom <= ZOOM_UNIT ==> crop_span(full, zoom) == full,
{
}

/// The visible span, wherever it is panned to, ends inside the axis.
pub proof fn lemma_crop_start_bounds(full: nat, span: nat, pan: int)
    requires
        span <= full,
    ensures
        crop_start(full, span, pan) + span <= full,
        span == full ==> crop_start(full, span, pan) == 0,
{
    let slack = (full - span) as nat;
    let share: nat = if pan < -PAN_LIMIT {
        0
    } else if pan > PAN_LIMIT {
        200
    } else {
        (pan + PAN_LIMIT) as nat
    };
    assert(share * slack <= 200 * slack) by (nonlinear_arith)
        requires
            share <= 200,
    ;
}

/// A pan of zero centres the visible span, the two limits put it at the two
/// ends of the axis.
pub proof fn lemma_crop_start_anchors(full: nat, span: nat)
    requires
        span <= full,
    ensures
        crop_start(full, span, -(PAN_LIMIT as int)) == 0,
        crop_start(full, span, PAN_LIMIT as int) == full - span,
        crop_start(full, span, 0) == (full - span + 1) / 2,
{
    let slack = (full - span) as nat;
    assert(0 * slack == 0) by (nonlinear_arith);
    assert(200 * slack + 100 == 200 * slack + 100);
    assert((200 * slack + 100) / 200 == slack);
    assert((100 * slack + 100) / 200 == (slack + 1) / 2);
}

/// Whatever the zoom and the pan, the visible region lies inside the bitmap,
/// and it holds at least one pixel each way unless the bitmap holds none.
/// Up to a zoom of one it is the whole bitmap.
pub proof fn lemma_visible_region_inside(width: nat, height: nat, zoom: nat, pan_x: int, pan_y: int)
    ensures
        visible_region(width, height, zoom, pan_x, pan_y).0 + visible_region(
            width,
            height,
            zoom,
            pan_x,
            pan_y,
        ).2 <= width,
        visible_region(width, height, zoom, pan_x, pan_y).1 + visible_region(
            width,
            height,
            zoom,
            pan_x,
            pan_y,
        ).3 <= height,
        width >= 1 ==> visible_region(width, height, zoom, pan_x, pan_y).2 >= 1,
        height >= 1 ==> visible_region(width, height, zoom, pan_x, pan_y).3 >= 1,
        zoom <= ZOOM_UNIT ==> visible_region(width, height, zoom, pan_x, pan_y) == (
            0nat,
            0nat,
            width,
            height,
        ),
{
    lemma_crop_span_bounds(width, zoom);
    lemma_crop_span_bounds(height, zoom);
    lemma_crop_start_bounds(width, crop_span(width, zoom), pan_x);
    lemma_crop_start_bounds(height, crop_span(height, zoom), pan_y);
}

fn span_of(full: u32, zoom: u32) -> (r: u32)
    ensures
        r == crop_span(full as nat, zoom as nat),
        r <= full,
        full >= 1 ==> r >= 1,
{
    if zoom <= ZOOM_UNIT || full == 0 {
        full
    } else {
        let n: u64 = 100 * (full as u64);
        let span: u64 = (2 * n + zoom as u64) / (2 * (zoom as u64));
        if span < 1 {
            1
        } else if span > full as u64 {
            full
        } else {
            span as u32
        }
    }
}

fn start_of(full: u32, span: u32, pan: i32) -> (r: u32)
    requires
        span <= full,
    ensures
        r == crop_start(full as nat, span as nat, pan as int),
        r + span <= full,
{
    let slack: u64 = (full - span) as u64;
    let share: u64 = if pan < -PAN_LIMIT {
        0
    } else if pan > PAN_LIMIT {
        200
    } else {
        (pan + PAN_LIMIT) as u64
    };
    proof {
        lemma_crop_start_bounds(full as nat, span as nat, pan as int);
        assert(share * slack <= 200 * slack) by (nonlinear_arith)
            requires
                share <= 200,
        ;
    }
    let start: u64 = (share * slack + 100) / 200;
    start as u32
}

/// Computes the part of a bitmap that is visible at `zoom` (in hundredths),
/// panned by `pan_x` and `pan_y` (in hundredths). The part lies inside the
/// bitmap and, unless the bitmap is empty, holds at least one pixel each way.
pub fn crop_region(width: u32, height: u32, zoom: u32, pan_x: i32, pan_y: i32) -> (r: CropRegion)
    ensures
        (r.x as nat, r.y as nat, r.width as nat, r.height as nat) == visible_region(
            width as nat,
            height as nat,
            zoom as nat,
            pan_x as int,
            pan_y as int,
        ),
        r.inside(width as nat, height as nat),
        width >= 1 ==> r.width >= 1,
        height >= 1 ==> r.height >= 1,
        zoom <= ZOOM_UNIT ==> r == (CropRegion { x: 0, y: 0, width, height }),
{
    let w: u32 = span_of(width, zoom);
    let h: u32 = span_of(height, zoom);
    let x: u32 = start_of(width, w, pan_x);
    let y: u32 = start_of(height, h, pan_y);
    proof {
        lemma_crop_start_bounds(width as nat, w as nat, pan_x as int);
        lemma_crop_start_bounds(height as nat, h as nat, pan_y as int);
    }
    CropRegion { x, y, width: w, height: h }
}

/// The picture that shows of `img` at `zoom`, panned by `pan_x` and `pan_y`.
/// Up to a zoom of one that is `img` itself; beyond it the visible region,
/// cut out.
pub open spec fn cropped_view(img: crate::bitmap::PixelGrid, zoom: nat, pan_x: int, pan_y: int) -> crate::bitmap::PixelGrid {
    if zoom <= ZOOM_UNIT {
        img
    } else {
        let (x, y, w, h) = visible_region(img.width, img.height, zoom, pan_x, pan_y);
        img.cropped(x, y, w, h)
    }
}

/// Cuts out of `img` the part that is visible at `zoom`, panned by `pan_x`
/// and `pan_y`. At a zoom of one or less nothing is cut: the result has the
/// pixels of `img`.
pub fn crop_with_pan(img: &Bitmap, zoom: u32, pan_x: i32, pan_y: i32) -> (r: Bitmap)
    ensures
        r@ == cropped_view(img@, zoom as nat, pan_x as int, pan_y as int),
        zoom <= ZOOM_UNIT ==> r@ == img@,
        r@.width <= img@.width,
        r@.height <= img@.height,
        img@.width >= 1 ==> r@.width >= 1,
        img@.height >= 1 ==> r@.height >= 1,
{
    if zoom <= ZOOM_UNIT {
        img.duplicate()
    } else {
        let region = crop_region(img.width(), img.height(), zoom, pan_x, pan_y);
        crop_rgb(img, region.x, region.y, region.width, region.height)
    }
}

} // verus!
