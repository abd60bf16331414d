use vstd::prelude::*;

verus! {

/// Zoom factors are held in hundredths: `ZOOM_UNIT` is a zoom of one.
pub const ZOOM_UNIT: u32 = 100;

/// The smallest zoom the viewer allows (a quarter).
pub const ZOOM_MIN: u32 = 25;

/// The largest zoom the viewer allows (four).
pub const ZOOM_MAX: u32 = 400;

/// Pan offsets are held in hundredths: `PAN_LIMIT` is a pan of one, the far
/// right or bottom edge; its negation is the far left or top edge.
pub const PAN_LIMIT: i32 = 100;

/// Render scales are held in millionths of a pixel per point.
pub const SCALE_UNIT: u64 = 1_000_000;

/// Two scales closer than this (a hundredth) count as the same scale.
pub const SCALE_TOLERANCE: u64 = 10_000;

/// Page extents are held in thousandths of a point.
pub const POINT_UNIT: u32 = 1000;

/// The distance between two scales.
pub open spec fn scale_distance(a: u64, b: u64) -> nat {
    if a >= b {
        (a - b) as nat
    } else {
        (b - a) as nat
    }
}

/// Whether two scales count as the same scale: they differ by less than the
/// tolerance.
pub open spec fn scale_eq(a: u64, b: u64) -> bool {
    scale_distance(a, b) < SCALE_TOLERANCE
}

/// Compares two scales under the tolerance.
pub fn scales_match(a: u64, b: u64) -> (r: bool)
    ensures
        r == scale_eq(a, b),
{
    if a >= b {
        a - b < SCALE_TOLERANCE
    } else {
        b - a < SCALE_TOLERANCE
    }
}

/// Whether a zoom lies in the range the viewer allows.
pub open spec fn zoom_in_range(zoom: u32) -> bool {
    ZOOM_MIN <= zoom <= ZOOM_MAX
}

/// Whether a pan offset lies between the two edges.
pub open spec fn pan_in_range(pan: i32) -> bool {
    -PAN_LIMIT <= pan <= PAN_LIMIT
}

/// Every scale equals itself.
pub proof fn lemma_scale_eq_reflexive(a: u64)
    ensures
        scale_eq(a, a),
{
}

/// Scale equality does not depend on the order of its arguments.
pub proof fn lemma_scale_eq_symmetric(a: u64, b: u64)
    ensures
        scale_eq(a, b) == scale_eq(b, a),
{
}

/// Scale equality chains only up to twice the tolerance: two scales that
/// both equal a third one lie less than two tolerances apart, and need not
/// equal one another.
pub proof fn lemma_scale_eq_chain(a: u64, b: u64, c: u64)
    requires
        scale_eq(a, b),
        scale_eq(b, c),
    ensures
        scale_distance(a, c) < 2 * SCALE_TOLERANCE,
{
}

/// Within half the tolerance scale equality is transitive.
pub proof fn lemma_scale_eq_transitive_within_half(a: u64, b: u64, c: u64)
    requires
        2 * scale_distance(a, b) <= SCALE_TOLERANCE,
        2 * scale_distance(b, c) < SCALE_TOLERANCE,
    ensures
        scale_eq(a, c),
{
}

} // verus!
