use vstd::prelude::*;

use crate::node_id::NodeId;
use crate::render::monitor_map::MonitorMap;
use crate::render::node_map::{lemma_take_one_more, NodeMap};
use crate::render::window::CycleDirection;
use crate::strings::{chars_eq, chars_of, string_from_chars};

verus! {

// ---------------------------------------------------------------------------
// Timed animations
// ---------------------------------------------------------------------------

/// How long a landmark slides to its new place.
pub const LANDMARK_SLIDE_DURATION_MS: u64 = 520;

/// Milliseconds from `started_at_ms` to `now_ms`, zero for a start in the
/// future (`Instant::saturating_duration_since`).
pub open spec fn elapsed_since(now_ms: u64, started_at_ms: u64) -> int {
    if now_ms >= started_at_ms {
        now_ms - started_at_ms
    } else {
        0
    }
}

/// An animation started at `started_at_ms` and lasting `duration_ms` still
/// runs at `now_ms`.
pub fn animation_running(started_at_ms: u64, duration_ms: u64, now_ms: u64) -> (r: bool)
    ensures
        r == (elapsed_since(now_ms, started_at_ms) < duration_ms),
{
    now_ms.saturating_sub(started_at_ms) < duration_ms
}

/// The duration an animation is given: at least one millisecond.
pub fn animation_duration(duration_ms: u64) -> (r: u64)
    ensures
        r == (if duration_ms < 1 {
            1
        } else {
            duration_ms
        }),
        r >= 1,
{
    if duration_ms < 1 {
        1
    } else {
        duration_ms
    }
}

// ---------------------------------------------------------------------------
// Stack cycle transitions, one per monitor
// ---------------------------------------------------------------------------

/// A running stack cycle: when it started, how long it lasts, the cards
/// before and after, and the old places when they were given (`R`, as the
/// renderer keeps them).
#[derive(Debug)]
pub struct StackCycleTransitionState<R> {
    pub direction: CycleDirection,
    pub started_at_ms: u64,
    pub duration_ms: u64,
    pub old_visible: Vec<NodeId>,
    pub new_visible: Vec<NodeId>,
    pub source_rects: Option<R>,
}

/// How far a running transition is.
#[derive(Clone, Copy, Debug, PartialEq, Eq, Structural)]
pub struct TransitionProgress {
    pub elapsed_ms: u64,
    pub duration_ms: u64,
}

/// Starts a stack cycle on `monitor`, given the old places when there are
/// any. A cycle that changes nothing and carries no old places clears the
/// monitor's transition instead.
pub fn start_stack_cycle_transition<R>(
    transitions: &mut MonitorMap<StackCycleTransitionState<R>>,
    monitor: &str,
    direction: CycleDirection,
    old_visible: Vec<NodeId>,
    new_visible: Vec<NodeId>,
    source_rects: Option<R>,
    now_ms: u64,
    duration_ms: u64,
)
    requires
        old(transitions).wf(),
    ensures
        final(transitions).wf(),
        old_visible@ == new_visible@ && source_rects is None ==> final(transitions).get_spec(
            monitor@,
        ) is None,
        !(old_visible@ == new_visible@ && source_rects is None) ==> (final(transitions).get_spec(
            monitor@,
        ) matches Some(s) && s.direction == direction && s.started_at_ms == now_ms
            && s.duration_ms == (if duration_ms < 1 {
            1
        } else {
            duration_ms
        }) && s.old_visible@ == old_visible@ && s.new_visible@ == new_visible@ && s.source_rects
            == source_rects),
        forall|m: Seq<char>| m != monitor@ ==> #[trigger] final(transitions).get_spec(m) == old(
            transitions,
        ).get_spec(m),
{
    let same: bool = same_ids(&old_visible, &new_visible);
    if same && source_rects.is_none() {
        let _ = transitions.remove(monitor);
        return;
    }
    let state: StackCycleTransitionState<R> = StackCycleTransitionState {
        direction,
        started_at_ms: now_ms,
        duration_ms: animation_duration(duration_ms),
        old_visible,
        new_visible,
        source_rects,
    };
    transitions.insert(monitor, state);
}

fn same_ids(a: &Vec<NodeId>, b: &Vec<NodeId>) -> (r: bool)
    ensures
        r == (a@ == b@),
{
    if a.len() != b.len() {
        return false;
    }
    let mut i: usize = 0;
    while i < a.len()
        invariant
            i <= a@.len(),
            a@.len() == b@.len(),
            forall|j: int| 0 <= j < i ==> a@[j] == b@[j],
        decreases a.len() - i,
    {
        if a[i] != b[i] {
            return false;
        }
        i = i + 1;
    }
    proof {
        assert(a@ =~= b@);
    }
    true
}

/// How far the monitor's stack cycle is; a finished one is dropped and
/// reported as none.
pub fn stack_cycle_transition_for_monitor<R>(
    transitions: &mut MonitorMap<StackCycleTransitionState<R>>,
    monitor: &str,
    now_ms: u64,
) -> (r: Option<TransitionProgress>)
    requires
        old(transitions).wf(),
    ensures
        final(transitions).wf(),
        match old(transitions).get_spec(monitor@) {
            None => r is None && final(transitions).get_spec(monitor@) is None,
            Some(s) => {
                &&& r == transition_progress_spec(s, now_ms)
                &&& r is None ==> final(transitions).get_spec(monitor@) is None
                &&& r is Some ==> final(transitions).get_spec(monitor@) == Some(s)
            },
        },
        forall|m: Seq<char>| m != monitor@ ==> #[trigger] final(transitions).get_spec(m) == old(
            transitions,
        ).get_spec(m),
{
    let (started, duration): (u64, u64) = match transitions.get(monitor) {
        Some(s) => (s.started_at_ms, s.duration_ms),
        None => {
            return None;
        },
    };
    let elapsed: u64 = now_ms.saturating_sub(started);
    if elapsed >= duration {
        let _ = transitions.remove(monitor);
        return None;
    }
    Some(TransitionProgress { elapsed_ms: elapsed, duration_ms: duration })
}

/// The progress of a transition at `now_ms`, or none once it is over.
pub open spec fn transition_progress_spec<R>(s: StackCycleTransitionState<R>, now_ms: u64) -> Option<
    TransitionProgress,
> {
    if elapsed_since(now_ms, s.started_at_ms) >= s.duration_ms {
        None
    } else {
        Some(
            TransitionProgress {
                elapsed_ms: elapsed_since(now_ms, s.started_at_ms) as u64,
                duration_ms: s.duration_ms,
            },
        )
    }
}

/// A started stack cycle is reported from its start until its duration
/// has run out, with the time elapsed since the start, and never after.
pub proof fn law_transition_runs_for_its_duration<R>(
    s: StackCycleTransitionState<R>,
    now_ms: u64,
)
    requires
        s.duration_ms >= 1,
        s.started_at_ms <= now_ms,
    ensures
        now_ms - s.started_at_ms < s.duration_ms ==> transition_progress_spec(s, now_ms) == Some(
            TransitionProgress {
                elapsed_ms: (now_ms - s.started_at_ms) as u64,
                duration_ms: s.duration_ms,
            },
        ),
        now_ms - s.started_at_ms >= s.duration_ms ==> transition_progress_spec(s, now_ms) is None,
        transition_progress_spec(s, s.started_at_ms) is Some,
{
}

// ---------------------------------------------------------------------------
// Toasts, one per monitor
// ---------------------------------------------------------------------------

/// What a toast tells.
#[derive(Clone, Copy, Debug, PartialEq, Eq, Structural)]
pub enum OverlayToastKind {
    Info,
    /// An error toast stays while hovered, scrolls, and can be dismissed.
    Error,
}

/// A monitor's toast: its text, how long it shows, and until when.
#[derive(Clone, Debug)]
pub struct OverlayToastState {
    pub message: Option<String>,
    pub kind: OverlayToastKind,
    pub duration_ms: u64,
    pub hovered: bool,
    pub scroll_x: i32,
    pub scroll_y: i32,
    pub visible_until_ms: u64,
}

/// `a + b`, at most `u64::MAX`.
pub open spec fn sat_add(a: u64, b: u64) -> u64 {
    if a + b > u64::MAX {
        u64::MAX
    } else {
        (a + b) as u64
    }
}

/// Shows `message` on `monitor` for `duration_ms` (at least one), from
/// `now_ms`: not hovered, scrolled to the start.
pub fn show_overlay_toast_with_kind(
    toasts: &mut MonitorMap<OverlayToastState>,
    monitor: &str,
    message: &str,
    kind: OverlayToastKind,
    duration_ms: u64,
    now_ms: u64,
)
    requires
        old(toasts).wf(),
    ensures
        final(toasts).wf(),
        final(toasts).get_spec(monitor@) matches Some(t) && t.message matches Some(m) && m@
            == message@ && t.kind == kind && t.duration_ms == (if duration_ms < 1 {
            1
        } else {
            duration_ms
        }) && !t.hovered && t.scroll_x == 0 && t.scroll_y == 0 && t.visible_until_ms == sat_add(
            now_ms,
            t.duration_ms,
        ),
        forall|m: Seq<char>| m != monitor@ ==> #[trigger] final(toasts).get_spec(m) == old(
            toasts,
        ).get_spec(m),
{
    let duration: u64 = animation_duration(duration_ms);
    let state: OverlayToastState = OverlayToastState {
        message: Some(string_from_chars(chars_of(message).as_slice())),
        kind,
        duration_ms: duration,
        hovered: false,
        scroll_x: 0,
        scroll_y: 0,
        visible_until_ms: now_ms.saturating_add(duration),
    };
    toasts.insert(monitor, state);
}

/// `v` held to `0..=max` (a negative `max` counts as zero).
pub open spec fn clamp_scroll(v: int, max: i32) -> i32 {
    let hi: int = if max < 0 {
        0
    } else {
        max as int
    };
    if v < 0 {
        0
    } else if v > hi {
        hi as i32
    } else {
        v as i32
    }
}

/// `a + b` held to the `i32` range.
pub open spec fn sat_add_i32(a: i32, b: i32) -> int {
    if a + b > i32::MAX {
        i32::MAX as int
    } else if a + b < i32::MIN {
        i32::MIN as int
    } else {
        a + b
    }
}

fn saturating_add_i32(a: i32, b: i32) -> (r: i32)
    ensures
        r == sat_add_i32(a, b),
{
    let s: i64 = a as i64 + b as i64;
    if s > i32::MAX as i64 {
        i32::MAX
    } else if s < i32::MIN as i64 {
        i32::MIN
    } else {
        s as i32
    }
}

fn clamp_scroll_exec(v: i32, max: i32) -> (r: i32)
    ensures
        r == clamp_scroll(v as int, max),
{
    let hi: i32 = if max < 0 {
        0
    } else {
        max
    };
    if v < 0 {
        0
    } else if v > hi {
        hi
    } else {
        v
    }
}

/// Scrolls the monitor's error toast by `(dx, dy)` within `0..=max`; says
/// whether the scroll position moved. Only an error toast with a message
/// scrolls.
pub fn adjust_overlay_error_toast_scroll(
    toasts: &mut MonitorMap<OverlayToastState>,
    monitor: &str,
    dx: i32,
    dy: i32,
    max_x: i32,
    max_y: i32,
) -> (r: bool)
    requires
        old(toasts).wf(),
    ensures
        final(toasts).wf(),
        forall|m: Seq<char>| m != monitor@ ==> #[trigger] final(toasts).get_spec(m) == old(
            toasts,
        ).get_spec(m),
        match old(toasts).get_spec(monitor@) {
            Some(t) => if t.kind == OverlayToastKind::Error && t.message is Some {
                let nx = clamp_scroll(sat_add_i32(t.scroll_x, dx), max_x);
                let ny = clamp_scroll(sat_add_i32(t.scroll_y, dy), max_y);
                &&& final(toasts).get_spec(monitor@) == Some(
                    OverlayToastState { scroll_x: nx, scroll_y: ny, ..t },
                )
                &&& r == (nx != t.scroll_x || ny != t.scroll_y)
            } else {
                !r && final(toasts).get_spec(monitor@) == Some(t)
            },
            None => !r && final(toasts).get_spec(monitor@) is None,
        },
{
    let i: usize = match toasts.find(monitor) {
        Some(i) => i,
        None => {
            return false;
        },
    };
    let t: &OverlayToastState = &toasts.entries[i].1;
    if t.kind != OverlayToastKind::Error || t.message.is_none() {
        return false;
    }
    let nx: i32 = clamp_scroll_exec(saturating_add_i32(t.scroll_x, dx), max_x);
    let ny: i32 = clamp_scroll_exec(saturating_add_i32(t.scroll_y, dy), max_y);
    let changed: bool = nx != t.scroll_x || ny != t.scroll_y;
    let updated: OverlayToastState = OverlayToastState {
        message: t.message.clone(),
        kind: t.kind,
        duration_ms: t.duration_ms,
        hovered: t.hovered,
        scroll_x: nx,
        scroll_y: ny,
        visible_until_ms: t.visible_until_ms,
    };
    toasts.insert(monitor, updated);
    changed
}

/// Marks the monitor's error toast hovered or not; when the pointer
/// leaves it, the toast shows for its whole duration again from `now_ms`.
pub fn set_overlay_error_toast_hovered(
    toasts: &mut MonitorMap<OverlayToastState>,
    monitor: &str,
    hovered: bool,
    now_ms: u64,
)
    requires
        old(toasts).wf(),
    ensures
        final(toasts).wf(),
        forall|m: Seq<char>| m != monitor@ ==> #[trigger] final(toasts).get_spec(m) == old(
            toasts,
        ).get_spec(m),
        match old(toasts).get_spec(monitor@) {
            Some(t) => if t.kind == OverlayToastKind::Error && t.message is Some {
                final(toasts).get_spec(monitor@) == Some(
                    OverlayToastState {
                        hovered: hovered,
                        visible_until_ms: if t.hovered && !hovered {
                            sat_add(
                                now_ms,
                                if t.duration_ms < 1 {
                                    1
                                } else {
                                    t.duration_ms
                                },
                            )
                        } else {
                            t.visible_until_ms
                        },
                        ..t
                    },
                )
            } else {
                final(toasts).get_spec(monitor@) == Some(t)
            },
            None => final(toasts).get_spec(monitor@) is None,
        },
{
    let i: usize = match toasts.find(monitor) {
        Some(i) => i,
        None => {
            return;
        },
    };
    let t: &OverlayToastState = &toasts.entries[i].1;
    if t.kind != OverlayToastKind::Error || t.message.is_none() {
        return;
    }
    let until: u64 = if t.hovered && !hovered {
        now_ms.saturating_add(animation_duration(t.duration_ms))
    } else {
        t.visible_until_ms
    };
    let updated: OverlayToastState = OverlayToastState {
        message: t.message.clone(),
        kind: t.kind,
        duration_ms: t.duration_ms,
        hovered,
        scroll_x: t.scroll_x,
        scroll_y: t.scroll_y,
        visible_until_ms: until,
    };
    toasts.insert(monitor, updated);
}

/// Dismisses the monitor's toast if it is an error toast; says whether it
/// did.
pub fn dismiss_overlay_error_toast(toasts: &mut MonitorMap<OverlayToastState>, monitor: &str) -> (r:
    bool)
    requires
        old(toasts).wf(),
    ensures
        final(toasts).wf(),
        r == (old(toasts).get_spec(monitor@) matches Some(t) && t.kind == OverlayToastKind::Error),
        r ==> final(toasts).get_spec(monitor@) is None,
        !r ==> final(toasts).get_spec(monitor@) == old(toasts).get_spec(monitor@),
        forall|m: Seq<char>| m != monitor@ ==> #[trigger] final(toasts).get_spec(m) == old(
            toasts,
        ).get_spec(m),
{
    let is_error: bool = match toasts.get(monitor) {
        Some(t) => t.kind == OverlayToastKind::Error,
        None => false,
    };
    if !is_error {
        return false;
    }
    toasts.remove(monitor)
}

/// The toast should be shown at `now_ms`: it has a message, and its time
/// has not run out (or it is an error toast under the pointer).
pub open spec fn toast_visible_spec(toast: OverlayToastState, now_ms: u64) -> bool {
    toast.message is Some && (now_ms < toast.visible_until_ms || (toast.kind
        == OverlayToastKind::Error && toast.hovered))
}

pub fn toast_target_visible(toast: &OverlayToastState, now_ms: u64) -> (r: bool)
    ensures
        r == toast_visible_spec(*toast, now_ms),
{
    toast.message.is_some() && (now_ms < toast.visible_until_ms || (toast.kind
        == OverlayToastKind::Error && toast.hovered))
}

/// A toast shown at `now_ms` is visible from then until its duration has
/// run out.
pub proof fn law_toast_visible_for_its_duration(
    t: OverlayToastState,
    now_ms: u64,
    later_ms: u64,
)
    requires
        t.message is Some,
        t.duration_ms >= 1,
        t.visible_until_ms == sat_add(now_ms, t.duration_ms),
        now_ms + t.duration_ms <= u64::MAX,
        now_ms <= later_ms,
        later_ms - now_ms < t.duration_ms,
    ensures
        toast_visible_spec(t, later_ms),
{
}

/// Any monitor asks to confirm exiting.
pub fn exit_confirm_visible(visible_by_monitor: &[(String, bool)]) -> (r: bool)
    ensures
        r == exists|i: int| 0 <= i < visible_by_monitor@.len() && #[trigger] visible_by_monitor@[i].1,
{
    let mut i: usize = 0;
    while i < visible_by_monitor.len()
        invariant
            i <= visible_by_monitor@.len(),
            forall|j: int| 0 <= j < i ==> !#[trigger] visible_by_monitor@[j].1,
        decreases visible_by_monitor.len() - i,
    {
        if visible_by_monitor[i].1 {
            return true;
        }
        i = i + 1;
    }
    false
}

// ---------------------------------------------------------------------------
// Bearings visibility
// ---------------------------------------------------------------------------

/// Whether the bearings (direction markers to off-screen windows) show.
#[derive(Clone, Copy, Debug, PartialEq, Eq, Structural)]
pub struct BearingsVisibility {
    pub visible: bool,
}

impl BearingsVisibility {
    /// Sets the visibility; says whether it changed.
    pub fn set_bearings_visible(&mut self, visible: bool) -> (changed: bool)
        ensures
            final(self).visible == visible,
            changed == (old(self).visible != visible),
    {
        if self.visible == visible {
            return false;
        }
        self.visible = visible;
        true
    }

    /// Flips the visibility; returns the new one.
    pub fn toggle_bearings_visible(&mut self) -> (next: bool)
        ensures
            next == !old(self).visible,
            *final(self) == toggle_spec(*old(self)),
    {
        let next: bool = !self.visible;
        let _ = self.set_bearings_visible(next);
        next
    }
}

/// The visibility after a toggle.
pub open spec fn toggle_spec(b: BearingsVisibility) -> BearingsVisibility {
    BearingsVisibility { visible: !b.visible }
}

/// Toggling the bearings twice leaves them as they were, and each toggle
/// changes them.
pub proof fn law_toggle_twice_restores(b: BearingsVisibility)
    ensures
        toggle_spec(toggle_spec(b)) == b,
        toggle_spec(b) != b,
{
}

// ---------------------------------------------------------------------------
// Offscreen window images
// ---------------------------------------------------------------------------

/// The cached offscreen image of a window: the surface-tree size it was
/// made for, whether it must be redrawn, when it was last used, and the
/// texture and bounding box the renderer keeps for it.
#[derive(Debug)]
pub struct WindowOffscreenCache<T, B> {
    pub width: i32,
    pub height: i32,
    pub dirty: bool,
    pub last_used_at_ms: Option<u64>,
    pub texture: Option<T>,
    pub bbox: Option<B>,
    pub has_content: bool,
}

pub open spec fn at_least_one(v: i32) -> i32 {
    if v < 1 {
        1
    } else {
        v
    }
}

impl<T, B> WindowOffscreenCache<T, B> {
    /// A fresh entry: zero size, clean, unused, empty.
    pub fn new() -> (r: Self)
        ensures
            r.width == 0 && r.height == 0 && !r.dirty && r.last_used_at_ms is None
                && r.texture is None && r.bbox is None && !r.has_content,
    {
        WindowOffscreenCache {
            width: 0,
            height: 0,
            dirty: false,
            last_used_at_ms: None,
            texture: None,
            bbox: None,
            has_content: false,
        }
    }

    pub fn matches_size(&self, width: i32, height: i32) -> (r: bool)
        ensures
            r == (self.width == width && self.height == height),
    {
        self.width == width && self.height == height
    }

    pub fn mark_dirty(&mut self)
        ensures
            final(self).dirty,
            final(self).width == old(self).width && final(self).height == old(self).height,
            final(self).last_used_at_ms == old(self).last_used_at_ms,
            final(self).texture == old(self).texture && final(self).bbox == old(self).bbox,
            final(self).has_content == old(self).has_content,
    {
        self.dirty = true;
    }

    pub fn mark_clean(&mut self, now_ms: u64)
        ensures
            !final(self).dirty,
            final(self).last_used_at_ms == Some(now_ms),
            final(self).width == old(self).width && final(self).height == old(self).height,
            final(self).texture == old(self).texture && final(self).bbox == old(self).bbox,
            final(self).has_content == old(self).has_content,
    {
        self.dirty = false;
        self.last_used_at_ms = Some(now_ms);
    }

    /// Readies the entry for a window whose surface tree is `width` x
    /// `height` (each at least one): an entry made for another size loses
    /// its image and is marked dirty; either way it counts as used now.
    pub fn ensure_size(&mut self, width: i32, height: i32, now_ms: u64)
        ensures
            *final(self) == ensure_size_spec(*old(self), width, height, now_ms),
    {
        let w: i32 = if width < 1 {
            1
        } else {
            width
        };
        let h: i32 = if height < 1 {
            1
        } else {
            height
        };
        if !self.matches_size(w, h) {
            self.width = w;
            self.height = h;
            self.texture = None;
            self.bbox = None;
            self.has_content = false;
            self.dirty = true;
        }
        self.last_used_at_ms = Some(now_ms);
    }
}

/// Whether a window's offscreen image is kept when the cache is pruned:
/// the window must still exist, and the image must be kept warm (a
/// cluster member) or have been used within the last five seconds.
pub fn keep_offscreen_cache(
    alive: bool,
    keep_warm: bool,
    last_used_at_ms: Option<u64>,
    now_ms: u64,
) -> (r: bool)
    ensures
        r == (alive && (keep_warm || match last_used_at_ms {
            None => true,
            Some(t) => elapsed_since(now_ms, t) < 5000,
        })),
{
    alive && (keep_warm || match last_used_at_ms {
        None => true,
        Some(t) => now_ms.saturating_sub(t) / 1000 < 5,
    })
}

/// A visible window's offscreen image is missing before a frame: there is
/// no entry, or the entry was made for another size, or it lacks a
/// texture, a bounding box or content.
pub fn offscreen_cache_missing<T, B>(
    cache: Option<&WindowOffscreenCache<T, B>>,
    width: i32,
    height: i32,
) -> (r: bool)
    ensures
        r == match cache {
            None => true,
            Some(c) => !(c.width == width && c.height == height) || c.texture is None
                || c.bbox is None || !c.has_content,
        },
{
    match cache {
        None => true,
        Some(c) => !c.matches_size(width, height) || c.texture.is_none() || c.bbox.is_none()
            || !c.has_content,
    }
}

/// A readied entry must be drawn again: it is dirty, or lacks a texture,
/// a bounding box or content.
pub fn offscreen_needs_render<T, B>(cache: &WindowOffscreenCache<T, B>) -> (r: bool)
    ensures
        r == !(!cache.dirty && cache.texture is Some && cache.bbox is Some && cache.has_content),
{
    !(!cache.dirty && cache.texture.is_some() && cache.bbox.is_some() && cache.has_content)
}

/// A closing window can be captured for its animation: the node still
/// exists, its offscreen image has a texture, a bounding box and content,
/// and the monitor's output has an area.
pub fn closing_capture_possible<T, B>(
    node_present: bool,
    cache: Option<&WindowOffscreenCache<T, B>>,
    output_size: (i32, i32),
) -> (r: bool)
    ensures
        r == (node_present && match cache {
            None => false,
            Some(c) => c.texture is Some && c.bbox is Some && c.has_content,
        } && output_size.0 > 0 && output_size.1 > 0),
{
    if !node_present {
        return false;
    }
    match cache {
        None => false,
        Some(c) => c.texture.is_some() && c.bbox.is_some() && c.has_content && output_size.0 > 0
            && output_size.1 > 0,
    }
}

/// A closing window is drawn without decorations when it is fullscreen on
/// the monitor it closes on.
pub fn closing_capture_undecorated(fullscreen_monitor: Option<&str>, monitor: &str) -> (r: bool)
    ensures
        r == (fullscreen_monitor matches Some(m) && m@ == monitor@),
{
    match fullscreen_monitor {
        Some(m) => chars_eq(chars_of(m).as_slice(), chars_of(monitor).as_slice()),
        None => false,
    }
}

/// The entry after it was readied for `width` x `height` at `now_ms`.
pub open spec fn ensure_size_spec<T, B>(
    c: WindowOffscreenCache<T, B>,
    width: i32,
    height: i32,
    now_ms: u64,
) -> WindowOffscreenCache<T, B> {
    if c.width == at_least_one(width) && c.height == at_least_one(height) {
        WindowOffscreenCache { last_used_at_ms: Some(now_ms), ..c }
    } else {
        WindowOffscreenCache {
            width: at_least_one(width),
            height: at_least_one(height),
            dirty: true,
            last_used_at_ms: Some(now_ms),
            texture: None,
            bbox: None,
            has_content: false,
        }
    }
}

/// Readying an image twice for the same size keeps, the second time, the
/// texture and content it had after the first; readying it for another
/// size always drops them.
pub proof fn law_same_size_keeps_image<T, B>(
    c: WindowOffscreenCache<T, B>,
    width: i32,
    height: i32,
    t1: u64,
    t2: u64,
)
    ensures
        ensure_size_spec(ensure_size_spec(c, width, height, t1), width, height, t2).texture
            == ensure_size_spec(c, width, height, t1).texture,
        ensure_size_spec(ensure_size_spec(c, width, height, t1), width, height, t2).has_content
            == ensure_size_spec(c, width, height, t1).has_content,
        (c.width != at_least_one(width) || c.height != at_least_one(height)) ==> {
            let n = ensure_size_spec(c, width, height, t1);
            n.texture is None && !n.has_content && n.dirty
        },
{
}

/// The offscreen images of the windows (or the frozen stills of the
/// focus-cycle neighbours), by node.
pub type WindowOffscreenCaches<T, B> = NodeMap<WindowOffscreenCache<T, B>>;

/// A fresh entry: zero size, clean, unused, empty.
pub open spec fn fresh_offscreen_cache<T, B>() -> WindowOffscreenCache<T, B> {
    WindowOffscreenCache {
        width: 0,
        height: 0,
        dirty: false,
        last_used_at_ms: None,
        texture: None,
        bbox: None,
        has_content: false,
    }
}

/// The entry of `node` after it was readied for `width` x `height`.
pub open spec fn ensured_entry<T, B>(
    caches: Map<NodeId, WindowOffscreenCache<T, B>>,
    node: NodeId,
    width: i32,
    height: i32,
    now_ms: u64,
) -> WindowOffscreenCache<T, B> {
    ensure_size_spec(
        if caches.contains_key(node) {
            caches[node]
        } else {
            fresh_offscreen_cache()
        },
        width,
        height,
        now_ms,
    )
}

/// Readies the offscreen image entry of `node` for a surface tree of
/// `width` x `height`, creating it when missing (see `ensure_size`).
pub fn ensure_window_offscreen_cache<T, B>(
    caches: &mut WindowOffscreenCaches<T, B>,
    node_id: NodeId,
    width: i32,
    height: i32,
    now_ms: u64,
)
    ensures
        final(caches).map() == old(caches).map().insert(
            node_id,
            ensured_entry(old(caches).map(), node_id, width, height, now_ms),
        ),
{
    let mut entry: WindowOffscreenCache<T, B> = match caches.remove(node_id) {
        Some(c) => c,
        None => WindowOffscreenCache::new(),
    };
    entry.ensure_size(width, height, now_ms);
    caches.insert(node_id, entry);
}

/// Readies the frozen focus-cycle still of `node` for `width` x `height`;
/// a resized neighbour loses its still and is captured again.
pub fn ensure_focus_cycle_still<T, B>(
    stills: &mut WindowOffscreenCaches<T, B>,
    node_id: NodeId,
    width: i32,
    height: i32,
    now_ms: u64,
)
    ensures
        final(stills).map() == old(stills).map().insert(
            node_id,
            ensured_entry(old(stills).map(), node_id, width, height, now_ms),
        ),
{
    ensure_window_offscreen_cache(stills, node_id, width, height, now_ms);
}

/// Drops one node's frozen still.
pub fn clear_focus_cycle_still_for<T, B>(stills: &mut WindowOffscreenCaches<T, B>, node_id: NodeId)
    ensures
        final(stills).map() == old(stills).map().remove(node_id),
{
    let _ = stills.remove(node_id);
}

fn listed(ids: &[NodeId], id: NodeId) -> (r: bool)
    ensures
        r == ids@.contains(id),
{
    let mut i: usize = 0;
    while i < ids.len()
        invariant
            i <= ids@.len(),
            forall|j: int| 0 <= j < i ==> ids@[j] != id,
        decreases ids.len() - i,
    {
        if ids[i] == id {
            return true;
        }
        i = i + 1;
    }
    false
}

/// Drops the frozen stills of nodes no longer in the visible focus-cycle
/// slots.
pub fn prune_focus_cycle_still<T, B>(stills: &mut WindowOffscreenCaches<T, B>, keep: &[NodeId])
    ensures
        forall|k: NodeId|
            #[trigger] final(stills).map().contains_key(k) <==> (old(stills).map().contains_key(k)
                && keep@.contains(k)),
        forall|k: NodeId|
            #[trigger] final(stills).map().contains_key(k) ==> final(stills).map()[k] == old(stills).map()[k],
{
    let ghost pred = |k: NodeId, c: WindowOffscreenCache<T, B>| keep@.contains(k);
    let ids: Vec<NodeId> = stills.nodes();
    let mut flags: Vec<bool> = Vec::new();
    let mut i: usize = 0;
    while i < ids.len()
        invariant
            i <= ids@.len(),
            flags@.len() == i,
            forall|j: int| 0 <= j < i ==> flags@[j] == keep@.contains(#[trigger] ids@[j]),
        decreases ids.len() - i,
    {
        flags.push(listed(keep, ids[i]));
        i = i + 1;
    }
    proof {
        assert forall|j: int| 0 <= j < ids@.len() implies flags@[j] == pred(
            #[trigger] ids@[j],
            stills.map()[ids@[j]],
        ) by {
            assert(flags@[j] == keep@.contains(ids@[j]));
        }
    }
    stills.drop_unmarked(&ids, &flags, Ghost(pred));
}

/// Drops every frozen still (the focus-cycle session ended).
pub fn clear_focus_cycle_still<T, B>(stills: &mut WindowOffscreenCaches<T, B>)
    ensures
        final(stills).map() == Map::<NodeId, WindowOffscreenCache<T, B>>::empty(),
{
    stills.clear();
}

/// Marks the offscreen image of `node` for redrawing, when it has one.
pub fn mark_window_offscreen_dirty<T, B>(caches: &mut WindowOffscreenCaches<T, B>, node_id: NodeId)
    ensures
        old(caches).map().contains_key(node_id) ==> final(caches).map() == old(caches).map().insert(
            node_id,
            WindowOffscreenCache { dirty: true, ..old(caches).map()[node_id] },
        ),
        !old(caches).map().contains_key(node_id) ==> final(caches).map() == old(caches).map(),
{
    match caches.remove(node_id) {
        Some(mut c) => {
            c.mark_dirty();
            caches.insert(node_id, c);
            proof {
                assert(old(caches).map().remove(node_id).insert(node_id, WindowOffscreenCache { dirty: true, ..old(caches).map()[node_id] }) =~= old(caches).map().insert(node_id, WindowOffscreenCache { dirty: true, ..old(caches).map()[node_id] }));
            }
        },
        None => {
            proof {
                assert(old(caches).map().remove(node_id) =~= old(caches).map());
            }
        },
    }
}

/// Drops the offscreen image of `node`.
pub fn clear_window_offscreen_cache_for<T, B>(caches: &mut WindowOffscreenCaches<T, B>, node_id: NodeId)
    ensures
        final(caches).map() == old(caches).map().remove(node_id),
{
    let _ = caches.remove(node_id);
}

/// Drops every offscreen image.
pub fn clear_window_offscreen_caches<T, B>(caches: &mut WindowOffscreenCaches<T, B>)
    ensures
        final(caches).map() == Map::<NodeId, WindowOffscreenCache<T, B>>::empty(),
{
    caches.clear();
}

/// An offscreen image survives a prune (see `keep_offscreen_cache`).
pub open spec fn keep_offscreen_spec<T, B>(
    alive: Seq<NodeId>,
    keep_warm: Seq<NodeId>,
    k: NodeId,
    c: WindowOffscreenCache<T, B>,
    now_ms: u64,
) -> bool {
    alive.contains(k) && (keep_warm.contains(k) || match c.last_used_at_ms {
        None => true,
        Some(t) => elapsed_since(now_ms, t) < 5000,
    })
}

/// Frees the offscreen images of windows that are gone, or that were not
/// used within five seconds and are not kept warm.
pub fn prune_window_offscreen_cache<T, B>(
    caches: &mut WindowOffscreenCaches<T, B>,
    alive: &[NodeId],
    keep_warm: &[NodeId],
    now_ms: u64,
)
    ensures
        forall|k: NodeId|
            #[trigger] final(caches).map().contains_key(k) <==> (old(caches).map().contains_key(k)
                && keep_offscreen_spec(alive@, keep_warm@, k, old(caches).map()[k], now_ms)),
        forall|k: NodeId|
            #[trigger] final(caches).map().contains_key(k) ==> final(caches).map()[k] == old(caches).map()[k],
{
    let ghost pred = |k: NodeId, c: WindowOffscreenCache<T, B>|
        keep_offscreen_spec(alive@, keep_warm@, k, c, now_ms);
    let ids: Vec<NodeId> = caches.nodes();
    let mut flags: Vec<bool> = Vec::new();
    let mut i: usize = 0;
    while i < ids.len()
        invariant
            i <= ids@.len(),
            flags@.len() == i,
            forall|k: NodeId| #[trigger] ids@.contains(k) <==> caches.map().contains_key(k),
            forall|j: int|
                0 <= j < i ==> flags@[j] == keep_offscreen_spec(
                    alive@,
                    keep_warm@,
                    #[trigger] ids@[j],
                    caches.map()[ids@[j]],
                    now_ms,
                ),
        decreases ids.len() - i,
    {
        let id: NodeId = ids[i];
        proof {
            assert(ids@.contains(id));
        }
        let keep: bool = match caches.get(id) {
            Some(c) => keep_offscreen_cache(
                listed(alive, id),
                listed(keep_warm, id),
                c.last_used_at_ms,
                now_ms,
            ),
            None => false,
        };
        flags.push(keep);
        i = i + 1;
    }
    proof {
        assert forall|j: int| 0 <= j < ids@.len() implies flags@[j] == pred(
            #[trigger] ids@[j],
            caches.map()[ids@[j]],
        ) by {
            assert(flags@[j] == keep_offscreen_spec(
                alive@,
                keep_warm@,
                ids@[j],
                caches.map()[ids@[j]],
                now_ms,
            ));
        }
    }
    caches.drop_unmarked(&ids, &flags, Ghost(pred));
}

// ---------------------------------------------------------------------------
// Closing animations, one per node
// ---------------------------------------------------------------------------

/// What a closing animation shows: a window shrinking away (its style,
/// border rectangles and captured textures) or a node fading out (its
/// place, label and state).
#[derive(Debug)]
pub enum ClosingWindowAnimationKind<S, B, T, P, N> {
    Window { style: S, border_rects: Vec<B>, offscreen_textures: Vec<T> },
    Node { pos: P, label: String, state: N },
}

/// A running closing animation: the monitor it plays on, when it started,
/// how long it lasts, and what it shows.
#[derive(Debug)]
pub struct ClosingWindowAnimationState<K> {
    pub monitor: String,
    pub started_at_ms: u64,
    pub duration_ms: u64,
    pub kind: K,
}

/// The closing animations, by node.
pub type ClosingWindowAnimations<K> = NodeMap<ClosingWindowAnimationState<K>>;

/// The animation still plays at `now_ms`.
pub open spec fn closing_running<K>(a: ClosingWindowAnimationState<K>, now_ms: u64) -> bool {
    elapsed_since(now_ms, a.started_at_ms) < a.duration_ms
}

/// Some closing animation on `monitor` still plays at `now_ms`.
pub fn closing_window_animation_active_for_monitor<K>(
    anims: &ClosingWindowAnimations<K>,
    monitor: &str,
    now_ms: u64,
) -> (r: bool)
    ensures
        r == exists|k: NodeId|
            #[trigger] anims.map().contains_key(k) && anims.map()[k].monitor@ == monitor@
                && closing_running(anims.map()[k], now_ms),
{
    let want: Vec<char> = chars_of(monitor);
    let ids: Vec<NodeId> = anims.nodes();
    let mut i: usize = 0;
    while i < ids.len()
        invariant
            i <= ids@.len(),
            want@ == monitor@,
            forall|k: NodeId| #[trigger] ids@.contains(k) <==> anims.map().contains_key(k),
            forall|j: int|
                0 <= j < i ==> !(anims.map()[#[trigger] ids@[j]].monitor@ == monitor@
                    && closing_running(anims.map()[ids@[j]], now_ms)),
        decreases ids.len() - i,
    {
        let id: NodeId = ids[i];
        proof {
            assert(ids@.contains(id));
        }
        match anims.get(id) {
            Some(a) => {
                let here: Vec<char> = chars_of(a.monitor.as_str());
                if chars_eq(here.as_slice(), want.as_slice()) && animation_running(
                    a.started_at_ms,
                    a.duration_ms,
                    now_ms,
                ) {
                    return true;
                }
            },
            None => {},
        }
        i = i + 1;
    }
    proof {
        assert forall|k: NodeId| #[trigger] anims.map().contains_key(k) implies !(
        anims.map()[k].monitor@ == monitor@ && closing_running(anims.map()[k], now_ms)) by {
            assert(ids@.contains(k));
            let j = choose|j: int| 0 <= j < ids@.len() && ids@[j] == k;
            assert(ids@[j] == k);
        }
    }
    false
}

/// Drops the closing animations that have finished by `now_ms`.
fn prune_closing_window_animations<K>(anims: &mut ClosingWindowAnimations<K>, now_ms: u64)
    ensures
        forall|k: NodeId|
            #[trigger] final(anims).map().contains_key(k) <==> (old(anims).map().contains_key(k)
                && closing_running(old(anims).map()[k], now_ms)),
        forall|k: NodeId|
            #[trigger] final(anims).map().contains_key(k) ==> final(anims).map()[k] == old(anims).map()[k],
{
    let ghost pred = |k: NodeId, a: ClosingWindowAnimationState<K>| closing_running(a, now_ms);
    let ids: Vec<NodeId> = anims.nodes();
    let mut keep: Vec<bool> = Vec::new();
    let mut i: usize = 0;
    while i < ids.len()
        invariant
            i <= ids@.len(),
            keep@.len() == i,
            forall|k: NodeId| #[trigger] ids@.contains(k) <==> anims.map().contains_key(k),
            forall|j: int|
                0 <= j < i ==> keep@[j] == closing_running(anims.map()[#[trigger] ids@[j]], now_ms),
        decreases ids.len() - i,
    {
        let id: NodeId = ids[i];
        proof {
            assert(ids@.contains(id));
        }
        let running: bool = match anims.get(id) {
            Some(a) => animation_running(a.started_at_ms, a.duration_ms, now_ms),
            None => false,
        };
        keep.push(running);
        i = i + 1;
    }
    proof {
        assert forall|j: int| 0 <= j < ids@.len() implies keep@[j] == pred(
            #[trigger] ids@[j],
            anims.map()[ids@[j]],
        ) by {
            assert(keep@[j] == closing_running(anims.map()[ids@[j]], now_ms));
        }
    }
    anims.drop_unmarked(&ids, &keep, Ghost(pred));
}

/// The nodes whose closing animations play on `monitor` at `now_ms`, after
/// the finished animations are dropped.
pub fn closing_window_animation_snapshots<K>(
    anims: &mut ClosingWindowAnimations<K>,
    monitor: &str,
    now_ms: u64,
) -> (r: Vec<NodeId>)
    ensures
        forall|k: NodeId|
            #[trigger] final(anims).map().contains_key(k) <==> (old(anims).map().contains_key(k)
                && closing_running(old(anims).map()[k], now_ms)),
        forall|k: NodeId|
            #[trigger] final(anims).map().contains_key(k) ==> final(anims).map()[k] == old(anims).map()[k],
        r@.no_duplicates(),
        forall|k: NodeId|
            #[trigger] r@.contains(k) <==> (final(anims).map().contains_key(k) && final(anims).map()[k].monitor@ == monitor@),
{
    prune_closing_window_animations(anims, now_ms);
    let want: Vec<char> = chars_of(monitor);
    let ids: Vec<NodeId> = anims.nodes();
    let mut out: Vec<NodeId> = Vec::new();
    let mut i: usize = 0;
    while i < ids.len()
        invariant
            i <= ids@.len(),
            want@ == monitor@,
            ids@.no_duplicates(),
            forall|k: NodeId| #[trigger] ids@.contains(k) <==> anims.map().contains_key(k),
            out@.no_duplicates(),
            forall|k: NodeId|
                #[trigger] out@.contains(k) <==> (ids@.take(i as int).contains(k)
                    && anims.map()[k].monitor@ == monitor@),
        decreases ids.len() - i,
    {
        let id: NodeId = ids[i];
        proof {
            assert(ids@.contains(id));
            assert(ids@.take(i + 1) =~= ids@.take(i as int).push(id));
            assert(!ids@.take(i as int).contains(id)) by {
                if ids@.take(i as int).contains(id) {
                    let j = choose|j: int| 0 <= j < i && ids@.take(i as int)[j] == id;
                    assert(ids@[j] == ids@[i as int]);
                }
            }
        }
        let on_monitor: bool = match anims.get(id) {
            Some(a) => {
                let here: Vec<char> = chars_of(a.monitor.as_str());
                chars_eq(here.as_slice(), want.as_slice())
            },
            None => false,
        };
        proof {
            assert(on_monitor == (anims.map()[id].monitor@ == monitor@));
        }
        if on_monitor {
            let ghost before = out@;
            out.push(id);
            proof {
                assert forall|a: int, b: int|
                    0 <= a < out@.len() && 0 <= b < out@.len() && a != b implies out@[a]
                    != out@[b] by {
                    if a == before.len() as int {
                        assert(before[b] == out@[b]);
                        assert(before.contains(out@[b]));
                    } else if b == before.len() as int {
                        assert(before[a] == out@[a]);
                        assert(before.contains(out@[a]));
                    } else {
                        assert(before[a] == out@[a] && before[b] == out@[b]);
                    }
                }
                assert forall|k: NodeId| #[trigger] out@.contains(k) <==> (ids@.take(i + 1).contains(
                    k,
                ) && anims.map()[k].monitor@ == monitor@) by {
                    lemma_take_one_more(ids@, i as int, k);
                    if out@.contains(k) && k != id {
                        let m = choose|m: int| 0 <= m < out@.len() && out@[m] == k;
                        assert(before[m] == k);
                    }
                    if k == id {
                        assert(out@[before.len() as int] == id);
                    }
                    if before.contains(k) {
                        let m = choose|m: int| 0 <= m < before.len() && before[m] == k;
                        assert(out@[m] == k);
                    }
                }
            }
        } else {
            proof {
                assert forall|k: NodeId| #[trigger] out@.contains(k) <==> (ids@.take(i + 1).contains(
                    k,
                ) && anims.map()[k].monitor@ == monitor@) by {
                    lemma_take_one_more(ids@, i as int, k);
                }
            }
        }
        i = i + 1;
    }
    proof {
        assert(ids@.take(ids@.len() as int) =~= ids@);
    }
    out
}

/// Starts the closing animation of a window, unless there is nothing of
/// it to show (no border rectangle and no captured texture).
pub fn start_closing_window_animation<S, B, T, P, N>(
    anims: &mut ClosingWindowAnimations<ClosingWindowAnimationKind<S, B, T, P, N>>,
    node_id: NodeId,
    monitor: &str,
    now_ms: u64,
    duration_ms: u64,
    style: S,
    border_rects: Vec<B>,
    offscreen_textures: Vec<T>,
)
    ensures
        border_rects@.len() == 0 && offscreen_textures@.len() == 0 ==> final(anims).map() == old(anims).map(),
        border_rects@.len() > 0 || offscreen_textures@.len() > 0 ==> final(anims).map() == old(anims).map().insert(
            node_id,
            ClosingWindowAnimationState {
                monitor: final(anims).map()[node_id].monitor,
                started_at_ms: now_ms,
                duration_ms: if duration_ms < 1 {
                    1
                } else {
                    duration_ms
                },
                kind: ClosingWindowAnimationKind::Window { style, border_rects, offscreen_textures },
            },
        ) && final(anims).map()[node_id].monitor@ == monitor@,
{
    if border_rects.len() == 0 && offscreen_textures.len() == 0 {
        return;
    }
    let m: String = string_from_chars(chars_of(monitor).as_slice());
    let anim = ClosingWindowAnimationState {
        monitor: m,
        started_at_ms: now_ms,
        duration_ms: animation_duration(duration_ms),
        kind: ClosingWindowAnimationKind::Window { style, border_rects, offscreen_textures },
    };
    anims.insert(node_id, anim);
}

/// Starts the closing animation of a node shown as a marker.
pub fn start_closing_node_animation<S, B, T, P, N>(
    anims: &mut ClosingWindowAnimations<ClosingWindowAnimationKind<S, B, T, P, N>>,
    node_id: NodeId,
    monitor: &str,
    now_ms: u64,
    duration_ms: u64,
    pos: P,
    label: String,
    state: N,
)
    ensures
        final(anims).map() == old(anims).map().insert(
            node_id,
            ClosingWindowAnimationState {
                monitor: final(anims).map()[node_id].monitor,
                started_at_ms: now_ms,
                duration_ms: if duration_ms < 1 {
                    1
                } else {
                    duration_ms
                },
                kind: ClosingWindowAnimationKind::Node { pos, label, state },
            },
        ),
        final(anims).map()[node_id].monitor@ == monitor@,
{
    let m: String = string_from_chars(chars_of(monitor).as_slice());
    let anim = ClosingWindowAnimationState {
        monitor: m,
        started_at_ms: now_ms,
        duration_ms: animation_duration(duration_ms),
        kind: ClosingWindowAnimationKind::Node { pos, label, state },
    };
    anims.insert(node_id, anim);
}

/// A closing animation plays at every instant of its duration and at none
/// after it; while it plays, its monitor has a closing animation running.
pub proof fn law_closing_animation_plays_for_its_duration<K>(
    anims: ClosingWindowAnimations<K>,
    node: NodeId,
    now_ms: u64,
)
    requires
        anims.map().contains_key(node),
        anims.map()[node].started_at_ms <= now_ms,
    ensures
        now_ms < anims.map()[node].started_at_ms + anims.map()[node].duration_ms
            <==> closing_running(anims.map()[node], now_ms),
        now_ms < anims.map()[node].started_at_ms + anims.map()[node].duration_ms ==> exists|
            k: NodeId,
        |
            #[trigger] anims.map().contains_key(k) && anims.map()[k].monitor@
                == anims.map()[node].monitor@ && closing_running(anims.map()[k], now_ms),
{
}

} // verus!
