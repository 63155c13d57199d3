use vstd::prelude::*;

use crate::render::frame::fits_i32;

verus! {

/// The layer a layer-shell surface sits in, bottom to top.
#[derive(Clone, Copy, Debug, PartialEq, Eq, Structural)]
pub enum LayerKind {
    Background,
    Bottom,
    Top,
    Overlay,
}

/// Whether layer-shell surfaces get a blurred backdrop.
#[derive(Clone, Copy, Debug, PartialEq, Eq, Structural)]
pub enum ClientBlurMode {
    Off,
    /// Only the top and overlay layers (panels, launchers).
    Auto,
    /// Every layer but the background.
    Always,
}

/// A layer-shell surface in `layer` is drawn over a blurred backdrop.
pub fn layer_shell_blur_enabled(blur_enabled: bool, mode: ClientBlurMode, layer: LayerKind) -> (r:
    bool)
    ensures
        r == (blur_enabled && match mode {
            ClientBlurMode::Off => false,
            ClientBlurMode::Auto => layer == LayerKind::Top || layer == LayerKind::Overlay,
            ClientBlurMode::Always => layer != LayerKind::Background,
        }),
{
    if !blur_enabled {
        return false;
    }
    match mode {
        ClientBlurMode::Off => false,
        ClientBlurMode::Auto => layer == LayerKind::Top || layer == LayerKind::Overlay,
        ClientBlurMode::Always => layer != LayerKind::Background,
    }
}

/// Moves a popup back onto the output along each axis: a popup sticking
/// out at the start is pushed in; otherwise one sticking out at the end is
/// pulled back (a popup larger than the output ends up flush with its
/// start).
pub open spec fn clamp_axis(origin: int, bbox_offset: int, bbox_len: int, output_len: int) -> int {
    let start = origin + bbox_offset;
    let end = start + bbox_len;
    if start < 0 {
        origin - start
    } else if end > output_len {
        origin - (end - output_len)
    } else {
        origin
    }
}

/// Every step of `clamp_axis` stays within `i32`.
pub open spec fn clamp_axis_fits(origin: int, bbox_offset: int, bbox_len: int, output_len: int) -> bool {
    let start = origin + bbox_offset;
    let end = start + bbox_len;
    &&& fits_i32(start)
    &&& fits_i32(end)
    &&& start < 0 ==> fits_i32(origin - start)
    &&& start >= 0 && end > output_len ==> fits_i32(end - output_len) && fits_i32(
        origin - (end - output_len),
    )
}

pub fn clamp_layer_popup_origin(
    bbox: (i32, i32, i32, i32),
    popup_origin: (i32, i32),
    output_size: (i32, i32),
) -> (r: (i32, i32))
    requires
        clamp_axis_fits(popup_origin.0 as int, bbox.0 as int, bbox.2 as int, output_size.0 as int),
        clamp_axis_fits(popup_origin.1 as int, bbox.1 as int, bbox.3 as int, output_size.1 as int),
    ensures
        r.0 == clamp_axis(popup_origin.0 as int, bbox.0 as int, bbox.2 as int, output_size.0 as int),
        r.1 == clamp_axis(popup_origin.1 as int, bbox.1 as int, bbox.3 as int, output_size.1 as int),
{
    let mut origin_x: i32 = popup_origin.0;
    let mut origin_y: i32 = popup_origin.1;
    let left: i32 = origin_x + bbox.0;
    let right: i32 = left + bbox.2;
    if left < 0 {
        origin_x = origin_x - left;
    } else if right > output_size.0 {
        origin_x = origin_x - (right - output_size.0);
    }
    let top: i32 = origin_y + bbox.1;
    let bottom: i32 = top + bbox.3;
    if top < 0 {
        origin_y = origin_y - top;
    } else if bottom > output_size.1 {
        origin_y = origin_y - (bottom - output_size.1);
    }
    (origin_x, origin_y)
}

/// A popup that fits on the output ends up wholly on it.
pub proof fn law_clamped_popup_fits(origin: int, bbox_offset: int, bbox_len: int, output_len: int)
    requires
        0 <= bbox_len <= output_len,
    ensures
        0 <= clamp_axis(origin, bbox_offset, bbox_len, output_len) + bbox_offset,
        clamp_axis(origin, bbox_offset, bbox_len, output_len) + bbox_offset + bbox_len
            <= output_len,
{
}

/// The smallest rectangle `(x, y, w, h)` holding both.
pub open spec fn merge_spec(a: (int, int, int, int), b: (int, int, int, int)) -> (int, int, int, int) {
    let x = if a.0 < b.0 {
        a.0
    } else {
        b.0
    };
    let y = if a.1 < b.1 {
        a.1
    } else {
        b.1
    };
    let r = if a.0 + a.2 > b.0 + b.2 {
        a.0 + a.2
    } else {
        b.0 + b.2
    };
    let btm = if a.1 + a.3 > b.1 + b.3 {
        a.1 + a.3
    } else {
        b.1 + b.3
    };
    (x, y, r - x, btm - y)
}

pub open spec fn as_int4(r: (i32, i32, i32, i32)) -> (int, int, int, int) {
    (r.0 as int, r.1 as int, r.2 as int, r.3 as int)
}

pub open spec fn merge_all(rects: Seq<(i32, i32, i32, i32)>) -> (int, int, int, int)
    recommends
        rects.len() > 0,
    decreases rects.len(),
{
    if rects.len() <= 1 {
        as_int4(rects[0])
    } else {
        merge_spec(merge_all(rects.drop_last()), as_int4(rects.last()))
    }
}

/// Where a layer surface's elements are drawn: the box around all of them,
/// or, without elements, the placement at `origin` with the given size
/// (at least a pixel).
pub fn layer_group_dst(
    element_rects: &[(i32, i32, i32, i32)],
    origin: (i32, i32),
    size: (i32, i32),
) -> (r: (i32, i32, i32, i32))
    requires
        element_rects@.len() > 0 ==> fits_i32(merge_all(element_rects@).2) && fits_i32(
            merge_all(element_rects@).3,
        ),
    ensures
        element_rects@.len() > 0 ==> as_int4(r) == merge_all(element_rects@),
        element_rects@.len() == 0 ==> r == (origin.0, origin.1, if size.0 < 1 {
            1
        } else {
            size.0
        }, if size.1 < 1 {
            1
        } else {
            size.1
        }),
{
    if element_rects.len() == 0 {
        return (origin.0, origin.1, if size.0 < 1 {
            1
        } else {
            size.0
        }, if size.1 < 1 {
            1
        } else {
            size.1
        });
    }
    let first: (i32, i32, i32, i32) = element_rects[0];
    let mut x: i64 = first.0 as i64;
    let mut y: i64 = first.1 as i64;
    let mut right: i64 = first.0 as i64 + first.2 as i64;
    let mut bottom: i64 = first.1 as i64 + first.3 as i64;
    let mut i: usize = 1;
    proof {
        assert(element_rects@.take(1) =~= seq![element_rects@[0]]);
    }
    while i < element_rects.len()
        invariant
            1 <= i <= element_rects@.len(),
            i32::MIN <= x <= i32::MAX,
            i32::MIN <= y <= i32::MAX,
            2 * i32::MIN <= right <= 2 * i32::MAX,
            2 * i32::MIN <= bottom <= 2 * i32::MAX,
            (x as int, y as int, right - x, bottom - y) == merge_all(
                element_rects@.take(i as int),
            ),
        decreases element_rects.len() - i,
    {
        let b: (i32, i32, i32, i32) = element_rects[i];
        proof {
            assert(element_rects@.take(i + 1).drop_last() =~= element_rects@.take(i as int));
            assert(element_rects@.take(i + 1).last() == b);
        }
        let br: i64 = b.0 as i64 + b.2 as i64;
        let bb: i64 = b.1 as i64 + b.3 as i64;
        if (b.0 as i64) < x {
            x = b.0 as i64;
        }
        if (b.1 as i64) < y {
            y = b.1 as i64;
        }
        if br > right {
            right = br;
        }
        if bb > bottom {
            bottom = bb;
        }
        i = i + 1;
    }
    proof {
        assert(element_rects@.take(element_rects@.len() as int) =~= element_rects@);
    }
    (x as i32, y as i32, (right - x) as i32, (bottom - y) as i32)
}

} // verus!
