use vstd::prelude::*;

use crate::node_id::NodeId;
use crate::render::frame::fits_i32;
use crate::strings::{chars_of, concat, decimal, is_blank, string_from_chars, trim, trim_ws, u64_to_decimal};

verus! {

// ---------------------------------------------------------------------------
// Bearings: chips at the screen edge pointing at off-screen windows
// ---------------------------------------------------------------------------

pub const CHIP_PAD_X: i32 = 10;
pub const CHIP_PAD_Y: i32 = 7;
pub const EDGE_PAD: i32 = 16;
pub const ICON_SIZE: i32 = 16;
pub const ICON_TEXT_GAP: i32 = 6;
pub const DISTANCE_GAP: i32 = 4;
pub const META_PAD_X: i32 = 7;
pub const META_PAD_Y: i32 = 4;
pub const GROUP_GAP: i32 = 10;
pub const MAX_LABEL_CHARS: usize = 24;

/// The screen edge (or corner) a bearing sits on.
#[derive(Clone, Copy, Debug, PartialEq, Eq, Structural)]
pub enum BearingLane {
    NW,
    N,
    NE,
    W,
    E,
    SW,
    S,
    SE,
}

impl BearingLane {
    /// Every lane, in the order lanes are laid out.
    pub fn all() -> (r: [BearingLane; 8])
        ensures
            r@ == seq![
                BearingLane::NW,
                BearingLane::N,
                BearingLane::NE,
                BearingLane::W,
                BearingLane::E,
                BearingLane::SW,
                BearingLane::S,
                BearingLane::SE,
            ],
    {
        let r: [BearingLane; 8] = [
            BearingLane::NW,
            BearingLane::N,
            BearingLane::NE,
            BearingLane::W,
            BearingLane::E,
            BearingLane::SW,
            BearingLane::S,
            BearingLane::SE,
        ];
        proof {
            assert(r@ =~= seq![
                BearingLane::NW,
                BearingLane::N,
                BearingLane::NE,
                BearingLane::W,
                BearingLane::E,
                BearingLane::SW,
                BearingLane::S,
                BearingLane::SE,
            ]);
        }
        r
    }

    pub open spec fn horizontal(self) -> bool {
        self == BearingLane::N || self == BearingLane::S
    }

    /// Chips on the top and bottom edges line up along the horizontal axis.
    pub fn uses_horizontal_axis(self) -> (r: bool)
        ensures
            r == self.horizontal(),
    {
        match self {
            BearingLane::N | BearingLane::S => true,
            _ => false,
        }
    }
}

/// The measured size of a bearing chip and of the distance tag above it.
#[derive(Clone, Copy, Debug, PartialEq, Eq, Structural)]
pub struct BearingSize {
    pub chip_w: i32,
    pub chip_h: i32,
    pub show_icon: bool,
    pub distance_rect_w: i32,
    pub distance_rect_h: i32,
    pub distance_block_h: i32,
}

impl BearingSize {
    /// Height of the chip with its distance tag.
    pub fn total_height(self) -> (r: i32)
        requires
            self.distance_block_h + self.chip_h <= i32::MAX,
            self.distance_block_h + self.chip_h >= i32::MIN,
        ensures
            r == self.distance_block_h + self.chip_h,
    {
        self.distance_block_h + self.chip_h
    }

    /// The extent along the lane: the width on the top and bottom edges,
    /// the total height on the others.
    pub fn primary_extent(self, lane: BearingLane) -> (r: i32)
        requires
            self.distance_block_h + self.chip_h <= i32::MAX,
            self.distance_block_h + self.chip_h >= i32::MIN,
        ensures
            r == (if lane.horizontal() {
                self.chip_w as int
            } else {
                self.distance_block_h + self.chip_h
            }),
    {
        if lane.uses_horizontal_axis() {
            self.chip_w
        } else {
            self.total_height()
        }
    }
}

/// `v / 2` rounded toward zero, as integer division does.
pub open spec fn half(v: int) -> int {
    if v >= 0 {
        v / 2
    } else {
        -((-v) / 2)
    }
}

pub open spec fn max_i(a: int, b: int) -> int {
    if a < b {
        b
    } else {
        a
    }
}

/// The size of a chip showing a label of `label_size` (width, height), with
/// or without the application icon, and a distance tag with text of
/// `distance_size` when distances are shown.
pub open spec fn bearing_size_spec(
    label_size: (i32, i32),
    show_icon: bool,
    distance_size: Option<(i32, i32)>,
) -> BearingSize {
    let icon_gap: int = if show_icon {
        ICON_SIZE + ICON_TEXT_GAP
    } else {
        0
    };
    let chip_w = max_i(CHIP_PAD_X * 2 + icon_gap + label_size.0, 44);
    let chip_h = max_i(
        CHIP_PAD_Y * 2 + max_i(
            label_size.1 as int,
            if show_icon {
                ICON_SIZE as int
            } else {
                0
            },
        ),
        24,
    );
    let (dw, dh, db): (int, int, int) = match distance_size {
        Some((tw, th)) => (tw + META_PAD_X * 2, th + META_PAD_Y * 2, th + META_PAD_Y * 2
            + DISTANCE_GAP),
        None => (0, 0, 0),
    };
    BearingSize {
        chip_w: chip_w as i32,
        chip_h: chip_h as i32,
        show_icon,
        distance_rect_w: dw as i32,
        distance_rect_h: dh as i32,
        distance_block_h: db as i32,
    }
}

pub fn bearing_size(label_size: (i32, i32), show_icon: bool, distance_size: Option<(i32, i32)>) -> (r:
    BearingSize)
    requires
        fits_i32(CHIP_PAD_X * 2 + (if show_icon {
            ICON_SIZE + ICON_TEXT_GAP
        } else {
            0
        }) + label_size.0),
        fits_i32(CHIP_PAD_Y * 2 + max_i(
            label_size.1 as int,
            if show_icon {
                ICON_SIZE as int
            } else {
                0
            },
        )),
        distance_size matches Some((w, h)) ==> fits_i32(w + META_PAD_X * 2) && fits_i32(
            h + META_PAD_Y * 2,
        ) && fits_i32(h + META_PAD_Y * 2 + DISTANCE_GAP),
    ensures
        r == bearing_size_spec(label_size, show_icon, distance_size),
{
    let icon_gap: i32 = if show_icon {
        ICON_SIZE + ICON_TEXT_GAP
    } else {
        0
    };
    let w0: i32 = CHIP_PAD_X * 2 + icon_gap + label_size.0;
    let chip_w: i32 = if w0 < 44 {
        44
    } else {
        w0
    };
    let icon_h: i32 = if show_icon {
        ICON_SIZE
    } else {
        0
    };
    let inner: i32 = if label_size.1 < icon_h {
        icon_h
    } else {
        label_size.1
    };
    let h0: i32 = CHIP_PAD_Y * 2 + inner;
    let chip_h: i32 = if h0 < 24 {
        24
    } else {
        h0
    };
    let (dw, dh, db): (i32, i32, i32) = match distance_size {
        Some((tw, th)) => (tw + META_PAD_X * 2, th + META_PAD_Y * 2, th + META_PAD_Y * 2
            + DISTANCE_GAP),
        None => (0, 0, 0),
    };
    BearingSize {
        chip_w,
        chip_h,
        show_icon,
        distance_rect_w: dw,
        distance_rect_h: dh,
        distance_block_h: db,
    }
}

/// A label cut to `MAX_LABEL_CHARS` characters, with `...` when cut.
pub open spec fn truncate_spec(label: Seq<char>) -> Seq<char> {
    if label.len() > MAX_LABEL_CHARS {
        label.take(MAX_LABEL_CHARS as int) + "..."@
    } else {
        label
    }
}

pub fn truncate_label(label: &str) -> (r: String)
    ensures
        r@ == truncate_spec(label@),
{
    let c: Vec<char> = chars_of(label);
    if c.len() > MAX_LABEL_CHARS {
        let head: Vec<char> = crate::strings::prefix_to(c.as_slice(), MAX_LABEL_CHARS);
        let dots: Vec<char> = chars_of("...");
        string_from_chars(concat(head.as_slice(), dots.as_slice()).as_slice())
    } else {
        string_from_chars(c.as_slice())
    }
}

/// The text of a bearing: the window title (trimmed) when it has one,
/// else its application id, else `Node <id>`; cut to the chip's length.
pub open spec fn bearing_label_spec(node_id: NodeId, title: Seq<char>, app_id: Option<Seq<char>>) -> Seq<
    char,
> {
    let base = if !is_blank(title) {
        trim_ws(title)
    } else {
        match app_id {
            Some(a) => a,
            None => "Node "@ + decimal(node_id.0 as nat),
        }
    };
    truncate_spec(base)
}

pub fn bearing_label(node_id: NodeId, title: &str, app_id: Option<&str>) -> (r: String)
    ensures
        r@ == bearing_label_spec(
            node_id,
            title@,
            match app_id {
                Some(a) => Some(a@),
                None => None,
            },
        ),
{
    let t: Vec<char> = trim(chars_of(title).as_slice());
    let base: String = if t.len() > 0 {
        string_from_chars(t.as_slice())
    } else {
        match app_id {
            Some(a) => string_from_chars(chars_of(a).as_slice()),
            None => {
                let head: Vec<char> = chars_of("Node ");
                let digits: Vec<char> = u64_to_decimal(node_id.0);
                string_from_chars(concat(head.as_slice(), digits.as_slice()).as_slice())
            },
        }
    };
    truncate_label(base.as_str())
}

/// `(x, y)` lies in the rectangle `(left, top, width, height)`.
pub open spec fn rect_contains_spec(rect: (i32, i32, i32, i32), x: i32, y: i32) -> bool {
    x >= rect.0 && x < rect.0 + rect.2 && y >= rect.1 && y < rect.1 + rect.3
}

pub fn rect_contains(rect: (i32, i32, i32, i32), x: i32, y: i32) -> (r: bool)
    ensures
        r == rect_contains_spec(rect, x, y),
{
    let right: i64 = rect.0 as i64 + rect.2 as i64;
    let bottom: i64 = rect.1 as i64 + rect.3 as i64;
    x >= rect.0 && (x as i64) < right && y >= rect.1 && (y as i64) < bottom
}

/// Where a chip goes: centred on `center` along the top and bottom
/// edges; against the left or right edge otherwise, with its distance tag
/// block centred on `center` vertically.
pub open spec fn chip_origin_spec(
    lane: BearingLane,
    center: i32,
    size: BearingSize,
    screen_w: i32,
    screen_h: i32,
) -> (int, int) {
    let total_h = size.distance_block_h + size.chip_h;
    let total_top = center - half(total_h);
    let chip_y_vertical = total_top + size.distance_block_h;
    match lane {
        BearingLane::N => (center - half(size.chip_w as int), EDGE_PAD + size.distance_block_h),
        BearingLane::S => (center - half(size.chip_w as int), screen_h - EDGE_PAD - size.chip_h),
        BearingLane::W | BearingLane::NW | BearingLane::SW => (EDGE_PAD as int, chip_y_vertical),
        BearingLane::E | BearingLane::NE | BearingLane::SE => (
            screen_w - EDGE_PAD - size.chip_w,
            chip_y_vertical,
        ),
    }
}

/// A chip's rectangles: the chip, the icon inside it (when shown) and the
/// distance tag above it (when there is one).
#[derive(Clone, Copy, Debug)]
pub struct ChipRects {
    pub chip: (i32, i32, i32, i32),
    pub icon: Option<(i32, i32, i32, i32)>,
    pub distance: Option<(i32, i32, i32, i32)>,
}

pub open spec fn chip_rects_spec(
    lane: BearingLane,
    center: i32,
    size: BearingSize,
    screen_w: i32,
    screen_h: i32,
    has_distance: bool,
) -> ChipRects {
    let (x, y) = chip_origin_spec(lane, center, size, screen_w, screen_h);
    ChipRects {
        chip: (x as i32, y as i32, size.chip_w, size.chip_h),
        icon: if size.show_icon {
            Some(
                (
                    (x + CHIP_PAD_X) as i32,
                    (y + half(size.chip_h - ICON_SIZE)) as i32,
                    ICON_SIZE,
                    ICON_SIZE,
                ),
            )
        } else {
            None
        },
        distance: if has_distance {
            Some(
                (
                    (x + half(size.chip_w - size.distance_rect_w)) as i32,
                    (y - DISTANCE_GAP - size.distance_rect_h) as i32,
                    size.distance_rect_w,
                    size.distance_rect_h,
                ),
            )
        } else {
            None
        },
    }
}

/// Every step of a chip's layout stays within `i32`.
pub open spec fn chip_arith_fits(
    lane: BearingLane,
    center: i32,
    size: BearingSize,
    screen_w: i32,
    screen_h: i32,
    has_distance: bool,
) -> bool {
    let total_h = size.distance_block_h + size.chip_h;
    let total_top = center - half(total_h);
    let (x, y) = chip_origin_spec(lane, center, size, screen_w, screen_h);
    &&& fits_i32(total_h)
    &&& fits_i32(total_top)
    &&& fits_i32(total_top + size.distance_block_h)
    &&& match lane {
        BearingLane::N => fits_i32(center - half(size.chip_w as int)) && fits_i32(
            EDGE_PAD + size.distance_block_h,
        ),
        BearingLane::S => fits_i32(center - half(size.chip_w as int)) && fits_i32(
            screen_h - EDGE_PAD,
        ) && fits_i32(screen_h - EDGE_PAD - size.chip_h),
        BearingLane::W | BearingLane::NW | BearingLane::SW => true,
        BearingLane::E | BearingLane::NE | BearingLane::SE => fits_i32(screen_w - EDGE_PAD)
            && fits_i32(screen_w - EDGE_PAD - size.chip_w),
    }
    &&& size.show_icon ==> fits_i32(x + CHIP_PAD_X) && fits_i32(size.chip_h - ICON_SIZE) && fits_i32(
        y + half(size.chip_h - ICON_SIZE),
    )
    &&& has_distance ==> fits_i32(size.chip_w - size.distance_rect_w) && fits_i32(
        x + half(size.chip_w - size.distance_rect_w),
    ) && fits_i32(y - DISTANCE_GAP) && fits_i32(y - DISTANCE_GAP - size.distance_rect_h)
}

/// Lays out one chip around its (rounded) centre along the lane.
pub fn chip_rects(
    lane: BearingLane,
    center: i32,
    size: BearingSize,
    screen_w: i32,
    screen_h: i32,
    has_distance: bool,
) -> (r: ChipRects)
    requires
        chip_arith_fits(lane, center, size, screen_w, screen_h, has_distance),
    ensures
        r == chip_rects_spec(lane, center, size, screen_w, screen_h, has_distance),
{
    let total_h: i32 = size.distance_block_h + size.chip_h;
    let total_top: i32 = center - total_h / 2;
    let chip_y_vertical: i32 = total_top + size.distance_block_h;
    let (x, y): (i32, i32) = match lane {
        BearingLane::N => (center - size.chip_w / 2, EDGE_PAD + size.distance_block_h),
        BearingLane::S => (center - size.chip_w / 2, screen_h - EDGE_PAD - size.chip_h),
        BearingLane::W | BearingLane::NW | BearingLane::SW => (EDGE_PAD, chip_y_vertical),
        BearingLane::E | BearingLane::NE | BearingLane::SE => (
            screen_w - EDGE_PAD - size.chip_w,
            chip_y_vertical,
        ),
    };
    let icon: Option<(i32, i32, i32, i32)> = if size.show_icon {
        Some((x + CHIP_PAD_X, y + (size.chip_h - ICON_SIZE) / 2, ICON_SIZE, ICON_SIZE))
    } else {
        None
    };
    let distance: Option<(i32, i32, i32, i32)> = if has_distance {
        Some(
            (
                x + (size.chip_w - size.distance_rect_w) / 2,
                y - DISTANCE_GAP - size.distance_rect_h,
                size.distance_rect_w,
                size.distance_rect_h,
            ),
        )
    } else {
        None
    };
    ChipRects { chip: (x, y, size.chip_w, size.chip_h), icon, distance }
}

/// Where the distance text goes inside its tag, for text `text_h` high.
pub fn distance_text_pos(rect: (i32, i32, i32, i32), text_h: i32) -> (r: (i32, i32))
    requires
        fits_i32(rect.0 + META_PAD_X),
        fits_i32(rect.3 - text_h),
        fits_i32(rect.1 + half(rect.3 - text_h)),
    ensures
        r == ((rect.0 + META_PAD_X) as i32, (rect.1 + half(rect.3 - text_h)) as i32),
{
    (rect.0 + META_PAD_X, rect.1 + (rect.3 - text_h) / 2)
}

} // verus!
