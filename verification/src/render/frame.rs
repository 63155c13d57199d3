use vstd::prelude::*;

verus! {

// ---------------------------------------------------------------------------
// Decisions of a frame
// ---------------------------------------------------------------------------

/// A monitor is repainted in full while it shows the cluster overlay, a
/// banner or a toast.
pub fn monitor_overlay_requires_full_repaint(
    cluster_mode_active: bool,
    has_banner: bool,
    has_toast: bool,
) -> (r: bool)
    ensures
        r == (cluster_mode_active || has_banner || has_toast),
{
    cluster_mode_active || has_banner || has_toast
}

/// Overlapping windows are pushed apart each frame unless state checks are
/// suspended or a resize runs.
pub fn tick_live_overlap(suspend_state_checks: bool, resize_active: bool) -> (r: bool)
    ensures
        r == (!suspend_state_checks && !resize_active),
{
    !suspend_state_checks && !resize_active
}

/// The time stamp frame callbacks carry: milliseconds since the compositor
/// started, held to `u32`.
pub fn frame_callback_time(elapsed_ms: u128) -> (r: u32)
    ensures
        r == (if elapsed_ms > u32::MAX {
            u32::MAX as u128
        } else {
            elapsed_ms
        }),
{
    if elapsed_ms > u32::MAX as u128 {
        u32::MAX
    } else {
        elapsed_ms as u32
    }
}

// ---------------------------------------------------------------------------
// Window drags, one frame at a time
// ---------------------------------------------------------------------------

/// What a frame does with the window being dragged.
#[derive(Clone, Copy, Debug, PartialEq, Eq, Structural)]
pub enum DragTickAction {
    /// No drag runs: the grabbed-edge pan state is cleared.
    ClearEdgePan,
    /// The drag has no authority node: it is dropped.
    DropDrag,
    /// The drag is dropped and the grabbed-edge pan state cleared: the
    /// authority is another node, or the window cannot be held at the
    /// edge.
    DropDragAndClearEdgePan,
    /// The window follows the pointer onto the pointer's monitor (the edge
    /// pan state cleared).
    TransferToPointerMonitor,
    /// The window follows the pointer without edge panning (the edge pan
    /// state cleared).
    FollowPointer,
    /// The window is held at the monitor edge while the view pans.
    EdgePan,
}

/// The frame's action for a drag: `has_drag` when a drag runs,
/// `authority` the node the input state gives the drag to, `drag_node`
/// the dragged node; `edge_clamp_found` when the window can be held at
/// the monitor edge (asked only of a drag that may edge-pan).
pub open spec fn drag_tick_spec(
    has_drag: bool,
    authority: Option<u64>,
    drag_node: u64,
    allow_monitor_transfer: bool,
    edge_pan_eligible: bool,
    edge_clamp_found: bool,
) -> DragTickAction {
    if !has_drag {
        DragTickAction::ClearEdgePan
    } else if authority is None {
        DragTickAction::DropDrag
    } else if authority != Some(drag_node) {
        DragTickAction::DropDragAndClearEdgePan
    } else if allow_monitor_transfer {
        DragTickAction::TransferToPointerMonitor
    } else if !edge_pan_eligible {
        DragTickAction::FollowPointer
    } else if edge_clamp_found {
        DragTickAction::EdgePan
    } else {
        DragTickAction::DropDragAndClearEdgePan
    }
}

pub fn drag_tick_action(
    has_drag: bool,
    authority: Option<u64>,
    drag_node: u64,
    allow_monitor_transfer: bool,
    edge_pan_eligible: bool,
    edge_clamp_found: bool,
) -> (r: DragTickAction)
    ensures
        r == drag_tick_spec(
            has_drag,
            authority,
            drag_node,
            allow_monitor_transfer,
            edge_pan_eligible,
            edge_clamp_found,
        ),
{
    if !has_drag {
        return DragTickAction::ClearEdgePan;
    }
    match authority {
        None => DragTickAction::DropDrag,
        Some(a) => if a != drag_node {
            DragTickAction::DropDragAndClearEdgePan
        } else if allow_monitor_transfer {
            DragTickAction::TransferToPointerMonitor
        } else if !edge_pan_eligible {
            DragTickAction::FollowPointer
        } else if edge_clamp_found {
            DragTickAction::EdgePan
        } else {
            DragTickAction::DropDragAndClearEdgePan
        },
    }
}

/// The pan direction of one axis after the window touched the edge: an
/// axis panning (`-1` or `1`) keeps its direction only while the window
/// touches the edge on that side (`contact`), else it goes free (`0`).
pub fn edge_pan_axis_after_contact(axis: i8, contact: i8) -> (r: i8)
    ensures
        r == (if axis != 0 && contact != axis {
            0
        } else {
            axis
        }),
{
    if axis != 0 && contact != axis {
        0
    } else {
        axis
    }
}

/// The edge pan runs while either axis has a direction.
pub fn edge_pan_active(x: i8, y: i8) -> (r: bool)
    ensures
        r == (x != 0 || y != 0),
{
    x != 0 || y != 0
}

/// A drag asks for maintenance when the window moved or a cluster member
/// was reordered.
pub fn drag_needs_maintenance(moved: bool, live_reordered: bool) -> (r: bool)
    ensures
        r == (moved || live_reordered),
{
    moved || live_reordered
}

/// An edge pan never survives a frame in which the window left the edge
/// on its panning side: both axes that lost contact go free, and the pan
/// stops when neither keeps a direction.
pub proof fn law_edge_pan_needs_contact(x: i8, y: i8, cx: i8, cy: i8)
    requires
        cx != x,
        cy != y,
    ensures
        (if x != 0 && cx != x {
            0i8
        } else {
            x
        }) == 0,
        (if y != 0 && cy != y {
            0i8
        } else {
            y
        }) == 0,
{
}

// ---------------------------------------------------------------------------
// Blur textures
// ---------------------------------------------------------------------------

/// Downsampling steps of the blur, held to 1..=5.
pub fn blur_levels(levels: u32) -> (r: u32)
    ensures
        r == (if levels < 1 {
            1
        } else if levels > 5 {
            5
        } else {
            levels
        }),
{
    if levels < 1 {
        1
    } else if levels > 5 {
        5
    } else {
        levels
    }
}

pub open spec fn halve_times(v: int, n: nat) -> int
    decreases n,
{
    if n == 0 {
        v
    } else {
        halve_times(v, (n - 1) as nat) / 2
    }
}

proof fn lemma_halve_negative(v: int, n: nat)
    requires
        v < 0,
    ensures
        halve_times(v, n) < 0,
    decreases n,
{
    if n > 0 {
        lemma_halve_negative(v, (n - 1) as nat);
    }
}

fn halved(v: i32, times: u32) -> (r: i32)
    requires
        v >= 0,
    ensures
        r == halve_times(v as int, times as nat),
        r >= 0,
{
    let mut w: i32 = v;
    let mut k: u32 = 0;
    while k < times
        invariant
            k <= times,
            w == halve_times(v as int, k as nat),
            w >= 0,
        decreases times - k,
    {
        w = w / 2;
        k = k + 1;
    }
    w
}

/// The size of blur level `level`: the output halved `level + 1` times
/// (an arithmetic shift right), at least a pixel each way.
pub fn level_size(size: (i32, i32), level: u32) -> (r: (i32, i32))
    requires
        level < 31,
    ensures
        r.0 == (if halve_times(size.0 as int, (level + 1) as nat) < 1 {
            1
        } else {
            halve_times(size.0 as int, (level + 1) as nat)
        }),
        r.1 == (if halve_times(size.1 as int, (level + 1) as nat) < 1 {
            1
        } else {
            halve_times(size.1 as int, (level + 1) as nat)
        }),
{
    let w: i32 = if size.0 < 0 {
        proof {
            lemma_halve_negative(size.0 as int, (level + 1) as nat);
        }
        1
    } else {
        let v: i32 = halved(size.0, level + 1);
        if v < 1 {
            1
        } else {
            v
        }
    };
    let h: i32 = if size.1 < 0 {
        proof {
            lemma_halve_negative(size.1 as int, (level + 1) as nat);
        }
        1
    } else {
        let v: i32 = halved(size.1, level + 1);
        if v < 1 {
            1
        } else {
            v
        }
    };
    (w, h)
}

/// A blur texture pool can be kept: it was made for this output size and
/// this number of levels.
pub fn blur_textures_reusable(existing: Option<((i32, i32), u32)>, size: (i32, i32), levels: u32) -> (r:
    bool)
    ensures
        r == (existing matches Some((s, l)) && s == size && l == blur_levels_spec(levels)),
{
    let l: u32 = blur_levels(levels);
    match existing {
        Some((s, el)) => s.0 == size.0 && s.1 == size.1 && el == l,
        None => false,
    }
}

pub open spec fn blur_levels_spec(levels: u32) -> u32 {
    if levels < 1 {
        1
    } else if levels > 5 {
        5
    } else {
        levels
    }
}

/// A scratch texture can be kept when it is at least as large as needed
/// (the needed size is at least a pixel each way).
pub fn scratch_texture_fits(existing: Option<(i32, i32)>, size: (i32, i32)) -> (r: bool)
    ensures
        r == (existing matches Some((w, h)) && w >= (if size.0 < 1 {
            1
        } else {
            size.0
        }) && h >= (if size.1 < 1 {
            1
        } else {
            size.1
        })),
{
    let need_w: i32 = if size.0 < 1 {
        1
    } else {
        size.0
    };
    let need_h: i32 = if size.1 < 1 {
        1
    } else {
        size.1
    };
    match existing {
        Some((w, h)) => w >= need_w && h >= need_h,
        None => false,
    }
}

/// The blurred layer groups, as `(blurred, width, height)`.
pub open spec fn mask_size_from(groups: Seq<(bool, i32, i32)>) -> Option<(i32, i32)>
    decreases groups.len(),
{
    if groups.len() == 0 {
        None
    } else {
        let acc = mask_size_from(groups.drop_last());
        let g = groups.last();
        if g.0 && g.1 > 0 && g.2 > 0 {
            match acc {
                Some((w, h)) => Some((if w < g.1 {
                    g.1
                } else {
                    w
                }, if h < g.2 {
                    g.2
                } else {
                    h
                })),
                None => Some((g.1, g.2)),
            }
        } else {
            acc
        }
    }
}

/// The size a blur mask needs: the largest width and height over the
/// blurred layer groups with an area; none without such a group.
pub fn max_layer_mask_size(groups: &[(bool, i32, i32)]) -> (r: Option<(i32, i32)>)
    ensures
        r == mask_size_from(groups@),
{
    let mut acc: Option<(i32, i32)> = None;
    let mut i: usize = 0;
    while i < groups.len()
        invariant
            i <= groups@.len(),
            acc == mask_size_from(groups@.take(i as int)),
        decreases groups.len() - i,
    {
        proof {
            assert(groups@.take(i + 1).drop_last() =~= groups@.take(i as int));
        }
        let g: (bool, i32, i32) = groups[i];
        if g.0 && g.1 > 0 && g.2 > 0 {
            acc = match acc {
                Some((w, h)) => Some((if w < g.1 {
                    g.1
                } else {
                    w
                }, if h < g.2 {
                    g.2
                } else {
                    h
                })),
                None => Some((g.1, g.2)),
            };
        }
        i = i + 1;
    }
    proof {
        assert(groups@.take(groups@.len() as int) =~= groups@);
    }
    acc
}

// ---------------------------------------------------------------------------
// Outlines clipped to the framebuffer
// ---------------------------------------------------------------------------

pub open spec fn min_i(a: int, b: int) -> int {
    if a < b {
        a
    } else {
        b
    }
}

pub open spec fn max_i(a: int, b: int) -> int {
    if a < b {
        b
    } else {
        a
    }
}

/// The part of `a` inside `b`, when they overlap with some area.
pub open spec fn intersection_spec(a: (int, int, int, int), b: (int, int, int, int)) -> Option<
    (int, int, int, int),
> {
    let x1 = max_i(a.0, b.0);
    let y1 = max_i(a.1, b.1);
    let x2 = min_i(a.0 + a.2, b.0 + b.2);
    let y2 = min_i(a.1 + a.3, b.1 + b.3);
    if x1 < x2 && y1 < y2 {
        Some((x1, y1, x2 - x1, y2 - y1))
    } else {
        None
    }
}

pub open spec fn rect_int(r: (i32, i32, i32, i32)) -> (int, int, int, int) {
    (r.0 as int, r.1 as int, r.2 as int, r.3 as int)
}

pub open spec fn fits_i32(v: int) -> bool {
    i32::MIN <= v <= i32::MAX
}

/// The part of `a` inside `b` (the rectangles' overlap, when it has area).
fn intersect(a: (i32, i32, i32, i32), b: (i32, i32, i32, i32)) -> (r: Option<(i32, i32, i32, i32)>)
    ensures
        match intersection_spec(rect_int(a), rect_int(b)) {
            Some(v) => r matches Some(x) && rect_int(x) == v,
            None => r is None,
        },
{
    let x1: i64 = if a.0 < b.0 {
        b.0 as i64
    } else {
        a.0 as i64
    };
    let y1: i64 = if a.1 < b.1 {
        b.1 as i64
    } else {
        a.1 as i64
    };
    let ax2: i64 = a.0 as i64 + a.2 as i64;
    let bx2: i64 = b.0 as i64 + b.2 as i64;
    let ay2: i64 = a.1 as i64 + a.3 as i64;
    let by2: i64 = b.1 as i64 + b.3 as i64;
    let x2: i64 = if ax2 < bx2 {
        ax2
    } else {
        bx2
    };
    let y2: i64 = if ay2 < by2 {
        ay2
    } else {
        by2
    };
    if x1 < x2 && y1 < y2 {
        proof {
            assert(x2 - x1 <= a.2 && x2 - x1 <= b.2);
            assert(y2 - y1 <= a.3 && y2 - y1 <= b.3);
        }
        Some((x1 as i32, y1 as i32, (x2 - x1) as i32, (y2 - y1) as i32))
    } else {
        None
    }
}

/// The four edges of an outline `line_width` thick (at least one) around
/// `rect` (at least a pixel each way): top, bottom, left, right.
pub open spec fn outline_edges_spec(rect: (i32, i32, i32, i32), line_width: i32) -> Seq<
    (int, int, int, int),
> {
    let lw = max_i(1, line_width as int);
    let w = max_i(1, rect.2 as int);
    let h = max_i(1, rect.3 as int);
    let x = rect.0 as int;
    let y = rect.1 as int;
    seq![(x, y, w, lw), (x, y + h - lw, w, lw), (x, y, lw, h), (x + w - lw, y, lw, h)]
}

/// The edges with area, each cut to `fb`, in order; those wholly outside
/// are dropped.
pub open spec fn clip_edges(edges: Seq<(int, int, int, int)>, fb: (int, int, int, int)) -> Seq<
    (int, int, int, int),
>
    decreases edges.len(),
{
    if edges.len() == 0 {
        Seq::empty()
    } else {
        let rest = clip_edges(edges.drop_last(), fb);
        let e = edges.last();
        if e.2 > 0 && e.3 > 0 {
            match intersection_spec(e, fb) {
                Some(v) => rest.push(v),
                None => rest,
            }
        } else {
            rest
        }
    }
}

/// The four edges of an outline (`line_width` thick, at least one; the
/// rectangle at least a pixel each way), each cut to the framebuffer;
/// edges outside it are dropped.
pub fn clamped_outline_edges(
    rect: (i32, i32, i32, i32),
    line_width: i32,
    framebuffer: (i32, i32),
) -> (r: Vec<(i32, i32, i32, i32)>)
    requires
        fits_i32(rect.1 + max_i(1, rect.3 as int)),
        fits_i32(rect.1 + max_i(1, rect.3 as int) - max_i(1, line_width as int)),
        fits_i32(rect.0 + max_i(1, rect.2 as int)),
        fits_i32(rect.0 + max_i(1, rect.2 as int) - max_i(1, line_width as int)),
    ensures
        r@.map_values(|e: (i32, i32, i32, i32)| rect_int(e)) == clip_edges(
            outline_edges_spec(rect, line_width),
            (0, 0, framebuffer.0 as int, framebuffer.1 as int),
        ),
{
    let lw: i32 = if line_width < 1 {
        1
    } else {
        line_width
    };
    let w: i32 = if rect.2 < 1 {
        1
    } else {
        rect.2
    };
    let h: i32 = if rect.3 < 1 {
        1
    } else {
        rect.3
    };
    let fb: (i32, i32, i32, i32) = (0, 0, framebuffer.0, framebuffer.1);
    let edges: [(i32, i32, i32, i32); 4] = [
        (rect.0, rect.1, w, lw),
        (rect.0, rect.1 + h - lw, w, lw),
        (rect.0, rect.1, lw, h),
        (rect.0 + w - lw, rect.1, lw, h),
    ];
    let ghost want = outline_edges_spec(rect, line_width);
    proof {
        assert(edges@.map_values(|e: (i32, i32, i32, i32)| rect_int(e)) =~= want);
    }
    let mut out: Vec<(i32, i32, i32, i32)> = Vec::new();
    let mut i: usize = 0;
    proof {
        assert(want.take(0) =~= Seq::<(int, int, int, int)>::empty());
        assert(out@.map_values(|e: (i32, i32, i32, i32)| rect_int(e)) =~= Seq::<
            (int, int, int, int),
        >::empty());
    }
    while i < 4
        invariant
            i <= 4,
            edges@.len() == 4,
            want.len() == 4,
            fb == (0i32, 0i32, framebuffer.0, framebuffer.1),
            forall|k: int| 0 <= k < 4 ==> rect_int(#[trigger] edges@[k]) == want[k],
            out@.map_values(|e: (i32, i32, i32, i32)| rect_int(e)) == clip_edges(
                want.take(i as int),
                rect_int(fb),
            ),
        decreases 4 - i,
    {
        let e: (i32, i32, i32, i32) = edges[i];
        let ghost before = out@;
        proof {
            assert(want.take(i + 1).drop_last() =~= want.take(i as int));
            assert(want.take(i + 1).last() == want[i as int]);
            assert(rect_int(e) == want[i as int]);
        }
        if e.2 > 0 && e.3 > 0 {
            match intersect(e, fb) {
                Some(v) => {
                    out.push(v);
                    proof {
                        assert(out@.map_values(|e: (i32, i32, i32, i32)| rect_int(e)) =~= before.map_values(
                            |e: (i32, i32, i32, i32)| rect_int(e),
                        ).push(rect_int(v)));
                    }
                },
                None => {},
            }
        }
        i = i + 1;
    }
    proof {
        assert(want.take(4) =~= want);
    }
    out
}

/// Where a window's border is drawn and which part of it a frame
/// repaints: the window rectangle grown by `border_px` on every side (at
/// least a pixel each way), and the part of it inside both the
/// framebuffer and the damage, relative to the border rectangle. `None`
/// when the border is not drawn: no width, or nothing of it to repaint.
pub open spec fn border_region_spec(
    rect: (i32, i32, i32, i32),
    border_px: i32,
    framebuffer: (i32, i32),
    damage: (i32, i32, i32, i32),
) -> Option<((int, int, int, int), (int, int, int, int))> {
    if border_px <= 0 {
        None
    } else {
        let dst = (
            rect.0 - border_px,
            rect.1 - border_px,
            max_i(1, rect.2 + 2 * border_px),
            max_i(1, rect.3 + 2 * border_px),
        );
        match intersection_spec(dst, (0, 0, framebuffer.0 as int, framebuffer.1 as int)) {
            None => None,
            Some(on_screen) => match intersection_spec(on_screen, rect_int(damage)) {
                None => None,
                Some(v) => Some((dst, (v.0 - dst.0, v.1 - dst.1, v.2, v.3))),
            },
        }
    }
}

/// The border rectangle and the part of it to repaint (see
/// `border_region_spec`).
pub fn border_draw_region(
    rect: (i32, i32, i32, i32),
    border_px: i32,
    framebuffer: (i32, i32),
    damage: (i32, i32, i32, i32),
) -> (r: Option<((i32, i32, i32, i32), (i32, i32, i32, i32))>)
    requires
        border_px > 0 ==> fits_i32(rect.0 - border_px) && fits_i32(rect.1 - border_px)
            && fits_i32(2 * border_px) && fits_i32(rect.2 + 2 * border_px) && fits_i32(rect.3 + 2 * border_px),
    ensures
        match border_region_spec(rect, border_px, framebuffer, damage) {
            None => r is None,
            Some((dst, local)) => r matches Some((d, l)) && rect_int(d) == dst && rect_int(l)
                == local,
        },
{
    if border_px <= 0 {
        return None;
    }
    let w: i32 = rect.2 + border_px * 2;
    let h: i32 = rect.3 + border_px * 2;
    let dst: (i32, i32, i32, i32) = (
        rect.0 - border_px,
        rect.1 - border_px,
        if w < 1 {
            1
        } else {
            w
        },
        if h < 1 {
            1
        } else {
            h
        },
    );
    let on_screen = match intersect(dst, (0, 0, framebuffer.0, framebuffer.1)) {
        Some(v) => v,
        None => {
            return None;
        },
    };
    match intersect(on_screen, damage) {
        Some(v) => {
            proof {
                assert(v.0 >= dst.0 && v.1 >= dst.1);
                assert(v.0 < dst.0 + dst.2 && v.1 < dst.1 + dst.3);
            }
            Some((dst, (v.0 - dst.0, v.1 - dst.1, v.2, v.3)))
        },
        None => None,
    }
}

} // verus!
