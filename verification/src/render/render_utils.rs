use vstd::prelude::*;

use crate::render::bearings::half;
use crate::render::utils::{marker_arith_fits, marker_content, max_i};

verus! {

/// The box around a node marker whose dot and label are centred together
/// on `(cx, cy)`, padded by `pad` (at least zero) and at least 8 pixels
/// each way.
pub open spec fn centered_bounds_spec(
    cx: i32,
    cy: i32,
    dot_half: i32,
    label_gap: i32,
    label_w: i32,
    label_h: i32,
    pad: i32,
) -> (int, int, int, int) {
    let p = max_i(pad as int, 0);
    let (content_w, content_h) = marker_content(dot_half, label_gap, label_w, label_h);
    (
        cx - half(content_w) - p,
        cy - half(content_h) - p,
        max_i(content_w + p * 2, 8),
        max_i(content_h + p * 2, 8),
    )
}

pub fn node_marker_bounds(
    cx: i32,
    cy: i32,
    dot_half: i32,
    label_gap: i32,
    label_w: i32,
    label_h: i32,
    pad: i32,
) -> (r: (i32, i32, i32, i32))
    requires
        marker_arith_fits(
            cx - half(marker_content(dot_half, label_gap, label_w, label_h).0),
            cy,
            dot_half,
            label_gap,
            label_w,
            label_h,
            pad,
        ),
    ensures
        (r.0 as int, r.1 as int, r.2 as int, r.3 as int) == centered_bounds_spec(
            cx,
            cy,
            dot_half,
            label_gap,
            label_w,
            label_h,
            pad,
        ),
{
    let p: i32 = if pad < 0 {
        0
    } else {
        pad
    };
    let dot_d: i32 = if dot_half * 2 < 1 {
        1
    } else {
        dot_half * 2
    };
    let gap: i32 = if label_gap < 0 {
        0
    } else {
        label_gap
    };
    let lw: i32 = if label_w < 0 {
        0
    } else {
        label_w
    };
    let cw0: i32 = dot_d + gap + lw;
    let content_w: i32 = if cw0 < dot_d {
        dot_d
    } else {
        cw0
    };
    let ch0: i32 = if dot_d < label_h {
        label_h
    } else {
        dot_d
    };
    let content_h: i32 = if ch0 < 1 {
        1
    } else {
        ch0
    };
    let x0: i32 = cx - (content_w / 2) - p;
    let y0: i32 = cy - (content_h / 2) - p;
    let w0: i32 = content_w + p * 2;
    let h0: i32 = content_h + p * 2;
    (x0, y0, if w0 < 8 {
        8
    } else {
        w0
    }, if h0 < 8 {
        8
    } else {
        h0
    })
}

} // verus!
