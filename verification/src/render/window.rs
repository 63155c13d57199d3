use vstd::prelude::*;

use crate::node_id::NodeId;
use crate::strings::{chars_of, concat, decimal_i64, i64_to_decimal, string_from_chars};

verus! {

// ---------------------------------------------------------------------------
// Small decisions of the window pass
// ---------------------------------------------------------------------------

/// During an interactive resize, a window under the resized one gets the
/// overlap overlay when its geometry (at least one pixel each way)
/// intersects the resize rectangle `(left, top, right, bottom, node)`;
/// never the resized window itself, and never when the resized window is
/// allowed to overlap.
pub open spec fn resize_overlap_spec(
    resize_rect_px: Option<(i32, i32, i32, i32, NodeId)>,
    node_id: NodeId,
    geometry_rect: (i32, i32, i32, i32),
    resizing_node_has_overlap_policy: bool,
) -> bool {
    match resize_rect_px {
        None => false,
        Some((rl, rt, rr, rb, rid)) => {
            if resizing_node_has_overlap_policy || node_id == rid {
                false
            } else {
                let (gx, gy, gw, gh) = geometry_rect;
                let wr = gx + (if gw < 1 {
                    1
                } else {
                    gw as int
                });
                let wb = gy + (if gh < 1 {
                    1
                } else {
                    gh as int
                });
                gx < rr && rl < wr && gy < rb && rt < wb
            }
        },
    }
}

pub fn should_draw_resize_overlap_overlay(
    resize_rect_px: Option<(i32, i32, i32, i32, NodeId)>,
    node_id: NodeId,
    geometry_rect: (i32, i32, i32, i32),
    resizing_node_has_overlap_policy: bool,
) -> (r: bool)
    requires
        resize_rect_px matches Some(r) && !resizing_node_has_overlap_policy && node_id != r.4
            ==> geometry_rect.0 + (if geometry_rect.2 < 1 {
            1
        } else {
            geometry_rect.2 as int
        }) <= i32::MAX && geometry_rect.1 + (if geometry_rect.3 < 1 {
            1
        } else {
            geometry_rect.3 as int
        }) <= i32::MAX,
    ensures
        r == resize_overlap_spec(
            resize_rect_px,
            node_id,
            geometry_rect,
            resizing_node_has_overlap_policy,
        ),
{
    let (rl, rt, rr, rb, rid) = match resize_rect_px {
        Some(r) => r,
        None => {
            return false;
        },
    };
    if resizing_node_has_overlap_policy || node_id == rid {
        return false;
    }
    let (gx, gy, gw, gh) = geometry_rect;
    let wl: i32 = gx;
    let wt: i32 = gy;
    let wr: i32 = gx + if gw < 1 {
        1
    } else {
        gw
    };
    let wb: i32 = gy + if gh < 1 {
        1
    } else {
        gh
    };
    wl < rr && rl < wr && wt < rb && rt < wb
}

/// A window with client-side decorations and square corners takes the
/// strict clipping path while a transition runs.
pub fn strict_square_csd_transition_mode(
    no_csd: bool,
    effective_corner_radius_px: i32,
    transition_active: bool,
) -> (r: bool)
    ensures
        r == (!no_csd && effective_corner_radius_px == 0 && transition_active),
{
    !no_csd && effective_corner_radius_px == 0 && transition_active
}

/// `(x,y wxh)`, as the render path logs a rectangle.
pub fn rect4_str(x: i32, y: i32, w: i32, h: i32) -> (r: String)
    ensures
        r@ == seq!['('] + decimal_i64(x as int) + seq![','] + decimal_i64(y as int) + seq![' ']
            + decimal_i64(w as int) + seq!['x'] + decimal_i64(h as int) + seq![')'],
{
    let mut out: Vec<char> = Vec::new();
    out.push('(');
    out = concat(out.as_slice(), i64_to_decimal(x as i64).as_slice());
    out.push(',');
    out = concat(out.as_slice(), i64_to_decimal(y as i64).as_slice());
    out.push(' ');
    out = concat(out.as_slice(), i64_to_decimal(w as i64).as_slice());
    out.push('x');
    out = concat(out.as_slice(), i64_to_decimal(h as i64).as_slice());
    out.push(')');
    proof {
        assert(out@ =~= seq!['('] + decimal_i64(x as int) + seq![','] + decimal_i64(y as int)
            + seq![' '] + decimal_i64(w as int) + seq!['x'] + decimal_i64(h as int) + seq![')']);
    }
    string_from_chars(out.as_slice())
}

// ---------------------------------------------------------------------------
// Draw order of a stack
// ---------------------------------------------------------------------------

/// Draw order of the member at `index` of a stack listed front to back:
/// the front member is drawn last.
pub open spec fn draw_order_at(len: int, index: int) -> int {
    len - index - 1
}

/// The draw order of each member of a stack listed front to back, as
/// `(member, order)` pairs in list order.
pub fn stack_draw_order_map(front_to_back: &[NodeId]) -> (r: Vec<(NodeId, i32)>)
    requires
        front_to_back@.len() <= i32::MAX,
    ensures
        r@.len() == front_to_back@.len(),
        forall|i: int|
            0 <= i < r@.len() ==> #[trigger] r@[i] == (front_to_back@[i], draw_order_at(
                front_to_back@.len() as int,
                i,
            ) as i32),
{
    let len: i32 = front_to_back.len() as i32;
    let mut out: Vec<(NodeId, i32)> = Vec::new();
    let mut i: usize = 0;
    while i < front_to_back.len()
        invariant
            i <= front_to_back@.len() <= i32::MAX,
            len == front_to_back@.len(),
            out@.len() == i,
            forall|j: int|
                0 <= j < i ==> #[trigger] out@[j] == (front_to_back@[j], draw_order_at(
                    front_to_back@.len() as int,
                    j,
                ) as i32),
        decreases front_to_back.len() - i,
    {
        out.push((front_to_back[i], len - i as i32 - 1));
        i = i + 1;
    }
    out
}

/// The draw order a member has in an order map: its last entry's, the
/// way a map built from the pairs keeps the last.
pub open spec fn order_in(map: Seq<(NodeId, i32)>, id: NodeId) -> Option<i32>
    decreases map.len(),
{
    if map.len() == 0 {
        None
    } else if map.last().0 == id {
        Some(map.last().1)
    } else {
        order_in(map.drop_last(), id)
    }
}

pub fn draw_order_of(map: &[(NodeId, i32)], id: NodeId) -> (r: Option<i32>)
    ensures
        r == order_in(map@, id),
{
    let mut i: usize = map.len();
    proof {
        assert(map@.take(map.len() as int) =~= map@);
    }
    while i > 0
        invariant
            i <= map@.len(),
            order_in(map@, id) == order_in(map@.take(i as int), id),
        decreases i,
    {
        proof {
            assert(map@.take(i as int).drop_last() =~= map@.take(i - 1));
        }
        if map[i - 1].0 == id {
            return Some(map[i - 1].1);
        }
        i = i - 1;
    }
    None
}

// ---------------------------------------------------------------------------
// Which camera a monitor renders with
// ---------------------------------------------------------------------------

/// The view of the first entry for `monitor`, if any.
pub open spec fn monitor_view_in<V>(monitors: Seq<(String, V)>, monitor: Seq<char>, i: int) -> Option<V>
    decreases monitors.len() - i,
{
    if i < 0 || i >= monitors.len() {
        None
    } else if monitors[i].0@ == monitor {
        Some(monitors[i].1)
    } else {
        monitor_view_in(monitors, monitor, i + 1)
    }
}

/// The camera to render a monitor with: the live one for the current
/// monitor, the monitor's own one otherwise, and the live one for a
/// monitor that has none.
pub fn render_view_for_monitor<V: Copy>(
    current_monitor: &str,
    live_view: V,
    monitors: &[(String, V)],
    monitor: &str,
) -> (r: V)
    ensures
        current_monitor@ == monitor@ ==> r == live_view,
        current_monitor@ != monitor@ ==> r == match monitor_view_in(monitors@, monitor@, 0) {
            Some(v) => v,
            None => live_view,
        },
{
    let cur: Vec<char> = chars_of(current_monitor);
    let want: Vec<char> = chars_of(monitor);
    if crate::strings::chars_eq(cur.as_slice(), want.as_slice()) {
        return live_view;
    }
    let mut i: usize = 0;
    while i < monitors.len()
        invariant
            i <= monitors@.len(),
            want@ == monitor@,
            current_monitor@ != monitor@,
            monitor_view_in(monitors@, monitor@, 0) == monitor_view_in(monitors@, monitor@, i as int),
        decreases monitors.len() - i,
    {
        let name: Vec<char> = chars_of(monitors[i].0.as_str());
        if crate::strings::chars_eq(name.as_slice(), want.as_slice()) {
            return monitors[i].1;
        }
        i = i + 1;
    }
    live_view
}

// ---------------------------------------------------------------------------
// The plan of a stack cycling animation
// ---------------------------------------------------------------------------

/// Which way a stack cycles.
#[derive(Clone, Copy, Debug, PartialEq, Eq, Structural)]
pub enum CycleDirection {
    Next,
    Prev,
}

/// How a card moves during a stack cycle. Positions and the easing are
/// computed by the renderer from the kind and the card's old and new
/// rectangles.
#[derive(Clone, Copy, Debug, PartialEq, Eq, Structural)]
pub enum PoseKind {
    /// The card that wraps around on `Next`: shown in its new place,
    /// fading in.
    WrappedArrive,
    /// Its copy on `Next`: leaves its old place to the left, fading out.
    WrappedDepart,
    /// The card that wraps around on `Prev`: slides in from the left of its
    /// new place, fading in.
    WrappedSlideIn,
    /// In both sets: moves and resizes from its old to its new place.
    Move,
    /// The front card leaving on `Next`: slides out to the left, fading out.
    SlideOut,
    /// The back card leaving on `Prev`: drifts down and right, fading out.
    SinkOut,
    /// Another leaving card: fades out in place.
    FadeOut,
    /// The front card arriving on `Prev`: slides in from the left, fading
    /// in.
    SlideIn,
    /// Another arriving card: fades in at its new place.
    FadeIn,
}

/// One card of the plan and the order it is drawn in.
#[derive(Clone, Copy, Debug, PartialEq, Eq, Structural)]
pub struct PlannedPose {
    pub node: NodeId,
    pub kind: PoseKind,
    pub draw_order: i32,
}

/// A stack cycle: the cards shown before and after (front to back), and
/// whether the old places were given rather than laid out.
#[derive(Clone, Debug)]
pub struct StackCycleTransition {
    pub old_visible: Vec<NodeId>,
    pub new_visible: Vec<NodeId>,
    pub has_source_rects: bool,
    pub direction: CycleDirection,
}

/// The plan: a pose for each card, and extra copies drawn besides.
#[derive(Clone, Debug)]
pub struct StackTransitionPlan {
    pub poses: Vec<PlannedPose>,
    pub extra_instances: Vec<PlannedPose>,
}

/// `ids` followed by those of `more` not in it yet.
pub open spec fn merge_ids(ids: Seq<NodeId>, more: Seq<NodeId>) -> Seq<NodeId>
    decreases more.len(),
{
    if more.len() == 0 {
        ids
    } else {
        let m = merge_ids(ids, more.drop_last());
        if m.contains(more.last()) {
            m
        } else {
            m.push(more.last())
        }
    }
}

/// The members of `s` without repeats, each where it first occurs.
pub open spec fn distinct_ids(s: Seq<NodeId>) -> Seq<NodeId> {
    merge_ids(Seq::empty(), s)
}

pub open spec fn first_of(s: Seq<NodeId>) -> Option<NodeId> {
    if s.len() > 0 {
        Some(s[0])
    } else {
        None
    }
}

pub open spec fn last_of(s: Seq<NodeId>) -> Option<NodeId> {
    if s.len() > 0 {
        Some(s.last())
    } else {
        None
    }
}

/// The same cards before and after, only rotated.
pub open spec fn same_set(t: StackCycleTransition) -> bool {
    &&& !t.has_source_rects
    &&& t.old_visible@.len() == t.new_visible@.len()
    &&& forall|i: int| 0 <= i < t.old_visible@.len() ==> t.new_visible@.contains(
        #[trigger] t.old_visible@[i],
    )
}

/// The card that wraps from one end of the stack to the other, if the
/// cycle is a pure rotation.
pub open spec fn wrapped_node(t: StackCycleTransition) -> Option<NodeId> {
    match t.direction {
        CycleDirection::Next => if same_set(t) && first_of(t.old_visible@) == last_of(
            t.new_visible@,
        ) {
            first_of(t.old_visible@)
        } else {
            None
        },
        CycleDirection::Prev => if same_set(t) && last_of(t.old_visible@) == first_of(
            t.new_visible@,
        ) {
            last_of(t.old_visible@)
        } else {
            None
        },
    }
}

pub open spec fn order_or_zero(t: StackCycleTransition, id: NodeId) -> i32 {
    let map = Seq::new(
        t.new_visible@.len(),
        |i: int| (t.new_visible@[i], draw_order_at(t.new_visible@.len() as int, i) as i32),
    );
    match order_in(map, id) {
        Some(o) => o,
        None => 0,
    }
}

/// The pose of one card, given whether it has an old and a new place.
pub open spec fn pose_spec(
    t: StackCycleTransition,
    id: NodeId,
    has_old: bool,
    has_new: bool,
) -> Option<PlannedPose> {
    let topmost = (t.new_visible@.len() + 1) as i32;
    if wrapped_node(t) == Some(id) && has_old && has_new {
        match t.direction {
            CycleDirection::Next => Some(
                PlannedPose { node: id, kind: PoseKind::WrappedArrive, draw_order: order_or_zero(t, id) },
            ),
            CycleDirection::Prev => Some(
                PlannedPose { node: id, kind: PoseKind::WrappedSlideIn, draw_order: topmost },
            ),
        }
    } else if has_old && has_new {
        Some(PlannedPose { node: id, kind: PoseKind::Move, draw_order: order_or_zero(t, id) })
    } else if has_old {
        if t.direction == CycleDirection::Next && first_of(t.old_visible@) == Some(id) {
            Some(PlannedPose { node: id, kind: PoseKind::SlideOut, draw_order: topmost })
        } else if t.direction == CycleDirection::Prev && last_of(t.old_visible@) == Some(id) {
            Some(PlannedPose { node: id, kind: PoseKind::SinkOut, draw_order: 0 })
        } else {
            Some(PlannedPose { node: id, kind: PoseKind::FadeOut, draw_order: 0 })
        }
    } else if has_new {
        if t.direction == CycleDirection::Prev && first_of(t.new_visible@) == Some(id) {
            Some(PlannedPose { node: id, kind: PoseKind::SlideIn, draw_order: topmost })
        } else {
            Some(PlannedPose { node: id, kind: PoseKind::FadeIn, draw_order: order_or_zero(t, id) })
        }
    } else {
        None
    }
}

/// The extra copy a card gets: only the card wrapping around on `Next`.
pub open spec fn extra_spec(
    t: StackCycleTransition,
    id: NodeId,
    has_old: bool,
    has_new: bool,
) -> Option<PlannedPose> {
    if wrapped_node(t) == Some(id) && has_old && has_new && t.direction == CycleDirection::Next {
        Some(
            PlannedPose {
                node: id,
                kind: PoseKind::WrappedDepart,
                draw_order: (t.new_visible@.len() + 1) as i32,
            },
        )
    } else {
        None
    }
}

/// The values of `f` over `ids`, where it has one.
pub open spec fn collect_poses(
    ids: Seq<NodeId>,
    f: spec_fn(NodeId) -> Option<PlannedPose>,
) -> Seq<PlannedPose>
    decreases ids.len(),
{
    if ids.len() == 0 {
        Seq::empty()
    } else {
        let rest = collect_poses(ids.drop_last(), f);
        match f(ids.last()) {
            Some(p) => rest.push(p),
            None => rest,
        }
    }
}

proof fn lemma_merge_ids_distinct(ids: Seq<NodeId>, more: Seq<NodeId>)
    requires
        ids.no_duplicates(),
    ensures
        merge_ids(ids, more).no_duplicates(),
    decreases more.len(),
{
    if more.len() > 0 {
        lemma_merge_ids_distinct(ids, more.drop_last());
        let m = merge_ids(ids, more.drop_last());
        if !m.contains(more.last()) {
            assert forall|a: int, b: int|
                0 <= a < m.push(more.last()).len() && 0 <= b < m.push(more.last()).len() && a
                    != b implies m.push(more.last())[a] != m.push(more.last())[b] by {
                if a == m.len() as int {
                    assert(m[b] == m.push(more.last())[b]);
                } else if b == m.len() as int {
                    assert(m[a] == m.push(more.last())[a]);
                }
            }
        }
    }
}

pub open spec fn pose_nodes(poses: Seq<PlannedPose>) -> Seq<NodeId> {
    poses.map_values(|p: PlannedPose| p.node)
}

proof fn lemma_collect_poses_nodes(ids: Seq<NodeId>, f: spec_fn(NodeId) -> Option<PlannedPose>)
    requires
        forall|id: NodeId| #[trigger] f(id) matches Some(p) ==> p.node == id,
    ensures
        forall|k: int|
            0 <= k < collect_poses(ids, f).len() ==> ids.contains(
                #[trigger] pose_nodes(collect_poses(ids, f))[k],
            ),
        ids.no_duplicates() ==> pose_nodes(collect_poses(ids, f)).no_duplicates(),
    decreases ids.len(),
{
    if ids.len() > 0 {
        let d = ids.drop_last();
        lemma_collect_poses_nodes(d, f);
        let rest = collect_poses(d, f);
        assert forall|k: int| 0 <= k < rest.len() implies ids.contains(
            #[trigger] pose_nodes(rest)[k],
        ) by {
            let j = choose|j: int| 0 <= j < d.len() && d[j] == pose_nodes(rest)[k];
            assert(ids[j] == d[j]);
        }
        match f(ids.last()) {
            Some(p) => {
                let all = rest.push(p);
                assert(pose_nodes(all) =~= pose_nodes(rest).push(ids.last()));
                assert(ids[ids.len() - 1] == ids.last());
                if ids.no_duplicates() {
                    assert(d.no_duplicates()) by {
                        assert forall|a: int, b: int|
                            0 <= a < d.len() && 0 <= b < d.len() && a != b implies d[a]
                            != d[b] by {
                            assert(d[a] == ids[a] && d[b] == ids[b]);
                        }
                    }
                    assert(!pose_nodes(rest).contains(ids.last())) by {
                        if pose_nodes(rest).contains(ids.last()) {
                            let k = choose|k: int|
                                0 <= k < pose_nodes(rest).len() && pose_nodes(rest)[k]
                                    == ids.last();
                            let j = choose|j: int| 0 <= j < d.len() && d[j] == pose_nodes(rest)[k];
                            assert(ids[j] == ids[ids.len() - 1]);
                        }
                    }
                    let pn = pose_nodes(rest);
                    assert forall|a: int, b: int|
                        0 <= a < pn.push(ids.last()).len() && 0 <= b < pn.push(ids.last()).len()
                            && a != b implies pn.push(ids.last())[a] != pn.push(ids.last())[b] by {
                        if a == pn.len() as int {
                            assert(pn[b] == pn.push(ids.last())[b]);
                        } else if b == pn.len() as int {
                            assert(pn[a] == pn.push(ids.last())[a]);
                        }
                    }
                }
                assert forall|k: int| 0 <= k < all.len() implies ids.contains(
                    #[trigger] pose_nodes(all)[k],
                ) by {
                    if k < rest.len() {
                        assert(pose_nodes(all)[k] == pose_nodes(rest)[k]);
                    }
                }
            },
            None => {
                if ids.no_duplicates() {
                    assert(d.no_duplicates()) by {
                        assert forall|a: int, b: int|
                            0 <= a < d.len() && 0 <= b < d.len() && a != b implies d[a]
                            != d[b] by {
                            assert(d[a] == ids[a] && d[b] == ids[b]);
                        }
                    }
                }
            },
        }
    }
}

/// In the plan of a stack cycle every card gets at most one pose; and
/// where the cards shown before are each shown once, at most one card (the
/// one wrapping around) gets an extra copy.
pub proof fn law_stack_plan_poses_once(
    t: StackCycleTransition,
    old_rects: Seq<NodeId>,
    new_rects: Seq<NodeId>,
)
    ensures
        pose_nodes(
            collect_poses(
                distinct_ids(merge_ids(t.old_visible@, t.new_visible@)),
                |id: NodeId| pose_spec(t, id, old_rects.contains(id), new_rects.contains(id)),
            ),
        ).no_duplicates(),
        t.old_visible@.no_duplicates() ==> collect_poses(
            merge_ids(t.old_visible@, t.new_visible@),
            |id: NodeId| extra_spec(t, id, old_rects.contains(id), new_rects.contains(id)),
        ).len() <= 1,
{
    let ids = merge_ids(t.old_visible@, t.new_visible@);
    let pf = |id: NodeId| pose_spec(t, id, old_rects.contains(id), new_rects.contains(id));
    let ef = |id: NodeId| extra_spec(t, id, old_rects.contains(id), new_rects.contains(id));
    assert(Seq::<NodeId>::empty().no_duplicates());
    lemma_merge_ids_distinct(Seq::empty(), ids);
    lemma_collect_poses_nodes(distinct_ids(ids), pf);
    if t.old_visible@.no_duplicates() {
        lemma_merge_ids_distinct(t.old_visible@, t.new_visible@);
        lemma_collect_poses_nodes(ids, ef);
        let ex = collect_poses(ids, ef);
        if ex.len() >= 2 {
            assert forall|id: NodeId| (#[trigger] ef(id)) is Some implies Some(ef(id)->0.node)
                == wrapped_node(t) by {}
            lemma_collect_poses_of(ids, ef, wrapped_node(t));
            assert(pose_nodes(ex)[0] == ex[0].node);
            assert(pose_nodes(ex)[1] == ex[1].node);
        }
    }
}

proof fn lemma_merge_ids_has(ids: Seq<NodeId>, more: Seq<NodeId>, x: NodeId)
    ensures
        (ids.contains(x) || more.contains(x)) ==> merge_ids(ids, more).contains(x),
        merge_ids(ids, more).contains(x) ==> (ids.contains(x) || more.contains(x)),
    decreases more.len(),
{
    if more.len() > 0 {
        let d = more.drop_last();
        lemma_merge_ids_has(ids, d, x);
        let m = merge_ids(ids, d);
        if more.contains(x) && !d.contains(x) {
            let j = choose|j: int| 0 <= j < more.len() && more[j] == x;
            if j < d.len() {
                assert(d[j] == x);
            }
            assert(x == more.last());
            if !m.contains(x) {
                assert(m.push(x)[m.len() as int] == x);
            }
        }
        if d.contains(x) {
            let j = choose|j: int| 0 <= j < d.len() && d[j] == x;
            assert(more[j] == x);
        }
        if !m.contains(more.last()) {
            let mp = m.push(more.last());
            if m.contains(x) {
                let j = choose|j: int| 0 <= j < m.len() && m[j] == x;
                assert(mp[j] == x);
            }
            if mp.contains(x) && x != more.last() {
                let j = choose|j: int| 0 <= j < mp.len() && mp[j] == x;
                assert(m[j] == x);
            }
            if x == more.last() {
                assert(more[more.len() - 1] == x);
            }
        }
    }
}

proof fn lemma_collect_poses_has(
    ids: Seq<NodeId>,
    f: spec_fn(NodeId) -> Option<PlannedPose>,
    x: NodeId,
)
    requires
        ids.contains(x),
        f(x) is Some,
    ensures
        collect_poses(ids, f).contains(f(x)->0),
    decreases ids.len(),
{
    let d = ids.drop_last();
    let rest = collect_poses(d, f);
    if x == ids.last() {
        assert(collect_poses(ids, f) == rest.push(f(x)->0));
        assert(rest.push(f(x)->0)[rest.len() as int] == f(x)->0);
    } else {
        let j = choose|j: int| 0 <= j < ids.len() && ids[j] == x;
        assert(j < d.len());
        assert(d[j] == x);
        lemma_collect_poses_has(d, f, x);
        let k = choose|k: int| 0 <= k < rest.len() && rest[k] == f(x)->0;
        match f(ids.last()) {
            Some(p) => {
                assert(rest.push(p)[k] == f(x)->0);
            },
            None => {},
        }
    }
}

proof fn lemma_collect_poses_from(ids: Seq<NodeId>, f: spec_fn(NodeId) -> Option<PlannedPose>, k: int)
    requires
        0 <= k < collect_poses(ids, f).len(),
    ensures
        exists|x: NodeId| ids.contains(x) && f(x) == Some(#[trigger] collect_poses(ids, f)[k]),
    decreases ids.len(),
{
    let d = ids.drop_last();
    let rest = collect_poses(d, f);
    let x = ids.last();
    assert(ids[ids.len() - 1] == x);
    if k < rest.len() {
        lemma_collect_poses_from(d, f, k);
        let y = choose|y: NodeId| d.contains(y) && f(y) == Some(rest[k]);
        let j = choose|j: int| 0 <= j < d.len() && d[j] == y;
        assert(ids[j] == y);
        assert(ids.contains(y));
        match f(x) {
            Some(p) => {
                assert(collect_poses(ids, f) == rest.push(p));
                assert(collect_poses(ids, f)[k] == rest[k]);
            },
            None => {},
        }
        assert(f(y) == Some(collect_poses(ids, f)[k]));
    } else {
        match f(x) {
            Some(p) => {
                assert(collect_poses(ids, f) == rest.push(p));
                assert(collect_poses(ids, f)[k] == p);
            },
            None => {},
        }
        assert(ids.contains(x));
        assert(f(x) == Some(collect_poses(ids, f)[k]));
    }
}

proof fn lemma_order_in_bounded(map: Seq<(NodeId, i32)>, id: NodeId, bound: int)
    requires
        forall|i: int| 0 <= i < map.len() ==> (#[trigger] map[i]).1 < bound,
    ensures
        order_in(map, id) matches Some(o) ==> o < bound,
    decreases map.len(),
{
    if map.len() > 0 {
        assert(map[map.len() - 1] == map.last());
        let d = map.drop_last();
        assert forall|i: int| 0 <= i < d.len() implies (#[trigger] d[i]).1 < bound by {
            assert(d[i] == map[i]);
        }
        lemma_order_in_bounded(d, id, bound);
    }
}

/// Cycling a stack backward, the card that arrives at the front without
/// having been shown before slides in from the left, drawn above every
/// other card of the plan (its draw order is one more than the number of
/// cards shown after the cycle, which no other pose reaches).
pub proof fn law_prev_front_arrival_slides_in_on_top(
    t: StackCycleTransition,
    old_rects: Seq<NodeId>,
    new_rects: Seq<NodeId>,
)
    requires
        t.direction == CycleDirection::Prev,
        0 < t.new_visible@.len() < i32::MAX,
        new_rects.contains(t.new_visible@[0]),
        !old_rects.contains(t.new_visible@[0]),
    ensures
        ({
            let front = t.new_visible@[0];
            let top = (t.new_visible@.len() + 1) as i32;
            let poses = collect_poses(
                distinct_ids(merge_ids(t.old_visible@, t.new_visible@)),
                |id: NodeId| pose_spec(t, id, old_rects.contains(id), new_rects.contains(id)),
            );
            &&& poses.contains(PlannedPose { node: front, kind: PoseKind::SlideIn, draw_order: top })
            &&& forall|k: int|
                0 <= k < poses.len() && (#[trigger] poses[k]).node != front ==> poses[k].draw_order
                    < top
        }),
{
    let front = t.new_visible@[0];
    let len = t.new_visible@.len();
    let top = (len + 1) as i32;
    let pf = |id: NodeId| pose_spec(t, id, old_rects.contains(id), new_rects.contains(id));
    let ids = merge_ids(t.old_visible@, t.new_visible@);
    let dids = distinct_ids(ids);
    assert(t.new_visible@.contains(front));
    lemma_merge_ids_has(t.old_visible@, t.new_visible@, front);
    lemma_merge_ids_has(Seq::empty(), ids, front);
    assert(wrapped_node(t) != Some(front) || !old_rects.contains(front));
    assert(pf(front) == Some(PlannedPose { node: front, kind: PoseKind::SlideIn, draw_order: top }));
    lemma_collect_poses_has(dids, pf, front);
    let map = Seq::new(len, |i: int| (t.new_visible@[i], draw_order_at(len as int, i) as i32));
    assert forall|i: int| 0 <= i < map.len() implies (#[trigger] map[i]).1 < len as int by {}
    let poses = collect_poses(dids, pf);
    assert forall|k: int| 0 <= k < poses.len() && (#[trigger] poses[k]).node != front implies poses[k].draw_order
        < top by {
        lemma_collect_poses_from(dids, pf, k);
        let x = choose|x: NodeId| dids.contains(x) && pf(x) == Some(poses[k]);
        lemma_order_in_bounded(map, x, len as int);
        assert(order_or_zero(t, x) < len);
        assert(x != front);
        if wrapped_node(t) == Some(x) {
            assert(last_of(t.old_visible@) == first_of(t.new_visible@));
        }
    }
}

proof fn lemma_order_in_absent(map: Seq<(NodeId, i32)>, id: NodeId)
    requires
        forall|j: int| 0 <= j < map.len() ==> (#[trigger] map[j]).0 != id,
    ensures
        order_in(map, id) is None,
    decreases map.len(),
{
    if map.len() > 0 {
        let d = map.drop_last();
        assert(map[map.len() - 1] == map.last());
        assert forall|j: int| 0 <= j < d.len() implies (#[trigger] d[j]).0 != id by {
            assert(d[j] == map[j]);
        }
        lemma_order_in_absent(d, id);
    }
}

proof fn lemma_order_in_unique(map: Seq<(NodeId, i32)>, id: NodeId, i: int)
    requires
        0 <= i < map.len(),
        map[i].0 == id,
        forall|j: int| 0 <= j < map.len() && j != i ==> (#[trigger] map[j]).0 != id,
    ensures
        order_in(map, id) == Some(map[i].1),
    decreases map.len(),
{
    let d = map.drop_last();
    assert(map[map.len() - 1] == map.last());
    if i < map.len() - 1 {
        assert(d[i] == map[i]);
        assert forall|j: int| 0 <= j < d.len() && j != i implies (#[trigger] d[j]).0 != id by {
            assert(d[j] == map[j]);
        }
        lemma_order_in_unique(d, id, i);
    }
}

/// The pose a card shown before or after a stack cycle gets, by whether it
/// has an old place (`old_rects`) and a new one (`new_rects`):
/// - neither: no pose;
/// - the wrapping card (the cards are the same set, only rotated, and this
///   one goes from the front to the back on `Next`, or from the back to the
///   front on `Prev`): on `Next` it arrives at its new place in its new draw
///   order, and a copy leaves its old place drawn on top; on `Prev` it
///   slides in, drawn on top;
/// - both places otherwise: it moves, in its new draw order;
/// - only an old place: the front card on `Next` slides out drawn on top,
///   the back card on `Prev` sinks out drawn at the bottom, any other fades
///   out at the bottom;
/// - only a new place: it fades in in its new draw order (the front card on
///   `Prev` slides in instead, see `law_prev_front_arrival_slides_in_on_top`).
/// The new draw order of the card at position `i` of the cards shown after
/// the cycle (front first, each once) is `len - 1 - i`: the front is drawn
/// last; a card not shown after the cycle has draw order 0; "on top" is
/// `len + 1`.
pub proof fn law_stack_plan_pose_table(
    t: StackCycleTransition,
    old_rects: Seq<NodeId>,
    new_rects: Seq<NodeId>,
    id: NodeId,
    i: int,
)
    requires
        t.old_visible@.contains(id) || t.new_visible@.contains(id),
        t.new_visible@.len() < i32::MAX,
        t.new_visible@.no_duplicates(),
        t.new_visible@.contains(id) ==> 0 <= i < t.new_visible@.len() && t.new_visible@[i] == id,
    ensures
        ({
            let old = t.old_visible@;
            let new = t.new_visible@;
            let len = new.len();
            let top = (len + 1) as i32;
            let order = if new.contains(id) {
                (len - 1 - i) as i32
            } else {
                0i32
            };
            let has_old = old_rects.contains(id);
            let has_new = new_rects.contains(id);
            let rotated = !t.has_source_rects && old.len() == len && (forall|j: int|
                0 <= j < old.len() ==> new.contains(#[trigger] old[j]));
            let wraps = has_old && has_new && rotated && match t.direction {
                CycleDirection::Next => old.len() > 0 && old[0] == id && new[len - 1] == id,
                CycleDirection::Prev => old.len() > 0 && old[old.len() - 1] == id && new[0] == id,
            };
            let poses = collect_poses(
                distinct_ids(merge_ids(old, new)),
                |x: NodeId| pose_spec(t, x, old_rects.contains(x), new_rects.contains(x)),
            );
            let extras = collect_poses(
                merge_ids(old, new),
                |x: NodeId| extra_spec(t, x, old_rects.contains(x), new_rects.contains(x)),
            );
            &&& !has_old && !has_new ==> forall|k: int|
                0 <= k < poses.len() ==> (#[trigger] poses[k]).node != id
            &&& wraps && t.direction == CycleDirection::Next ==> poses.contains(
                PlannedPose { node: id, kind: PoseKind::WrappedArrive, draw_order: order },
            ) && extras.contains(
                PlannedPose { node: id, kind: PoseKind::WrappedDepart, draw_order: top },
            )
            &&& wraps && t.direction == CycleDirection::Prev ==> poses.contains(
                PlannedPose { node: id, kind: PoseKind::WrappedSlideIn, draw_order: top },
            )
            &&& has_old && has_new && !wraps ==> poses.contains(
                PlannedPose { node: id, kind: PoseKind::Move, draw_order: order },
            )
            &&& has_old && !has_new && t.direction == CycleDirection::Next && old.len() > 0
                && old[0] == id ==> poses.contains(PlannedPose { node: id, kind: PoseKind::SlideOut, draw_order: top })
            &&& has_old && !has_new && t.direction == CycleDirection::Prev && old.len() > 0
                && old[old.len() - 1] == id ==> poses.contains(
                PlannedPose { node: id, kind: PoseKind::SinkOut, draw_order: 0 },
            )
            &&& has_old && !has_new && !(t.direction == CycleDirection::Next && old.len() > 0
                && old[0] == id) && !(t.direction == CycleDirection::Prev && old.len() > 0
                && old[old.len() - 1] == id) ==> poses.contains(
                PlannedPose { node: id, kind: PoseKind::FadeOut, draw_order: 0 },
            )
            &&& !has_old && has_new && !(t.direction == CycleDirection::Prev && len > 0 && new[0]
                == id) ==> poses.contains(PlannedPose { node: id, kind: PoseKind::FadeIn, draw_order: order })
        }),
{
    let old = t.old_visible@;
    let new = t.new_visible@;
    let len = new.len();
    let pf = |x: NodeId| pose_spec(t, x, old_rects.contains(x), new_rects.contains(x));
    let ef = |x: NodeId| extra_spec(t, x, old_rects.contains(x), new_rects.contains(x));
    let ids = merge_ids(old, new);
    let dids = distinct_ids(ids);
    lemma_merge_ids_has(old, new, id);
    lemma_merge_ids_has(Seq::empty(), ids, id);
    let map = Seq::new(len, |j: int| (new[j], draw_order_at(len as int, j) as i32));
    if new.contains(id) {
        assert forall|j: int| 0 <= j < map.len() && j != i implies (#[trigger] map[j]).0 != id by {
            assert(new[j] != new[i]);
        }
        lemma_order_in_unique(map, id, i);
        assert(order_or_zero(t, id) == (len - 1 - i) as i32);
    }
    if old.len() > 0 {
        assert(old.contains(old[0]));
        assert(old.contains(old[old.len() - 1]));
    }
    if len > 0 {
        assert(new.contains(new[0]));
        assert(new.contains(new[len - 1]));
    }
    if new.contains(id) && new[0] == id {
        assert(i == 0);
    }
    if new.contains(id) && new[len - 1] == id {
        assert(i == len - 1);
    }
    let rotated = !t.has_source_rects && old.len() == len && (forall|j: int|
        0 <= j < old.len() ==> new.contains(#[trigger] old[j]));
    assert(rotated == same_set(t));
    if !new.contains(id) {
        assert(order_in(map, id) is None) by {
            assert forall|j: int| 0 <= j < map.len() implies (#[trigger] map[j]).0 != id by {
                assert(map[j].0 == new[j]);
            }
            lemma_order_in_absent(map, id);
        }
    }
    if pf(id) is Some {
        lemma_collect_poses_has(dids, pf, id);
    }
    if ef(id) is Some {
        lemma_collect_poses_has(ids, ef, id);
    }
    let poses = collect_poses(dids, pf);
    if !old_rects.contains(id) && !new_rects.contains(id) {
        assert forall|k: int| 0 <= k < poses.len() implies (#[trigger] poses[k]).node != id by {
            lemma_collect_poses_from(dids, pf, k);
        }
    }
}

proof fn lemma_collect_poses_of(
    ids: Seq<NodeId>,
    f: spec_fn(NodeId) -> Option<PlannedPose>,
    w: Option<NodeId>,
)
    requires
        forall|id: NodeId| #[trigger] f(id) matches Some(p) ==> Some(p.node) == w,
    ensures
        forall|k: int|
            0 <= k < collect_poses(ids, f).len() ==> Some(#[trigger] collect_poses(ids, f)[k].node)
                == w,
    decreases ids.len(),
{
    if ids.len() > 0 {
        lemma_collect_poses_of(ids.drop_last(), f, w);
    }
}

fn contains_id(ids: &Vec<NodeId>, id: NodeId) -> (r: bool)
    ensures
        r == ids@.contains(id),
{
    let mut i: usize = 0;
    while i < ids.len()
        invariant
            i <= ids@.len(),
            forall|j: int| 0 <= j < i ==> ids@[j] != id,
        decreases ids.len() - i,
    {
        if ids[i] == id {
            return true;
        }
        i = i + 1;
    }
    false
}

fn merged_ids(old: &Vec<NodeId>, new: &Vec<NodeId>) -> (r: Vec<NodeId>)
    ensures
        r@ == merge_ids(old@, new@),
{
    let mut ids: Vec<NodeId> = old.clone();
    let mut i: usize = 0;
    proof {
        assert(ids@ =~= old@);
        assert(new@.take(0) =~= Seq::<NodeId>::empty());
    }
    while i < new.len()
        invariant
            i <= new@.len(),
            ids@ == merge_ids(old@, new@.take(i as int)),
        decreases new.len() - i,
    {
        proof {
            assert(new@.take(i + 1).drop_last() =~= new@.take(i as int));
        }
        if !contains_id(&ids, new[i]) {
            ids.push(new[i]);
        }
        i = i + 1;
    }
    proof {
        assert(new@.take(new.len() as int) =~= new@);
    }
    ids
}

fn first_id(v: &Vec<NodeId>) -> (r: Option<NodeId>)
    ensures
        r == first_of(v@),
{
    if v.len() > 0 {
        Some(v[0])
    } else {
        None
    }
}

fn last_id(v: &Vec<NodeId>) -> (r: Option<NodeId>)
    ensures
        r == last_of(v@),
{
    if v.len() > 0 {
        Some(v[v.len() - 1])
    } else {
        None
    }
}

fn wrapped_node_of(t: &StackCycleTransition) -> (r: Option<NodeId>)
    ensures
        r == wrapped_node(*t),
{
    let mut same: bool = !t.has_source_rects && t.old_visible.len() == t.new_visible.len();
    let mut i: usize = 0;
    while i < t.old_visible.len() && same
        invariant
            i <= t.old_visible@.len(),
            same ==> !t.has_source_rects && t.old_visible@.len() == t.new_visible@.len(),
            same ==> forall|j: int| 0 <= j < i ==> t.new_visible@.contains(
                #[trigger] t.old_visible@[j],
            ),
            !same ==> !same_set(*t),
        decreases t.old_visible.len() - i,
    {
        if !contains_id(&t.new_visible, t.old_visible[i]) {
            same = false;
        }
        i = i + 1;
    }
    proof {
        if same {
            assert(same_set(*t));
        }
    }
    match t.direction {
        CycleDirection::Next => {
            if same && first_id(&t.old_visible) == last_id(&t.new_visible) {
                first_id(&t.old_visible)
            } else {
                None
            }
        },
        CycleDirection::Prev => {
            if same && last_id(&t.old_visible) == first_id(&t.new_visible) {
                last_id(&t.old_visible)
            } else {
                None
            }
        },
    }
}

/// Plans a stack cycle: every card shown before or after (the old ones
/// first, then the new ones) gets one pose by whether it has an old and a
/// new place (`old_rects` and `new_rects` list the cards that have one); a
/// card that has neither is left out. The card that wraps around on `Next`
/// gets an extra copy leaving its old place, once for each time it is
/// listed.
pub fn build_stack_transition_plan(
    transition: &StackCycleTransition,
    old_rects: &Vec<NodeId>,
    new_rects: &Vec<NodeId>,
) -> (r: StackTransitionPlan)
    requires
        transition.new_visible@.len() < i32::MAX,
    ensures
        r.poses@ == collect_poses(
            distinct_ids(merge_ids(transition.old_visible@, transition.new_visible@)),
            |id: NodeId| pose_spec(*transition, id, old_rects@.contains(id), new_rects@.contains(id)),
        ),
        r.extra_instances@ == collect_poses(
            merge_ids(transition.old_visible@, transition.new_visible@),
            |id: NodeId| extra_spec(*transition, id, old_rects@.contains(id), new_rects@.contains(id)),
        ),
{
    let ids: Vec<NodeId> = merged_ids(&transition.old_visible, &transition.new_visible);
    let orders: Vec<(NodeId, i32)> = stack_draw_order_map(transition.new_visible.as_slice());
    let topmost: i32 = transition.new_visible.len() as i32 + 1;
    let wrapped: Option<NodeId> = wrapped_node_of(transition);
    let old_top: Option<NodeId> = first_id(&transition.old_visible);
    let old_bottom: Option<NodeId> = last_id(&transition.old_visible);
    let new_top: Option<NodeId> = first_id(&transition.new_visible);
    let ghost t = *transition;
    let ghost pf = |id: NodeId| pose_spec(t, id, old_rects@.contains(id), new_rects@.contains(id));
    let ghost ef = |id: NodeId| extra_spec(t, id, old_rects@.contains(id), new_rects@.contains(id));
    proof {
        let map = Seq::new(
            t.new_visible@.len(),
            |i: int| (t.new_visible@[i], draw_order_at(t.new_visible@.len() as int, i) as i32),
        );
        assert(orders@ =~= map);
    }
    let mut poses: Vec<PlannedPose> = Vec::new();
    let mut extras: Vec<PlannedPose> = Vec::new();
    let mut seen: Vec<NodeId> = Vec::new();
    let mut i: usize = 0;
    proof {
        assert(ids@.take(0) =~= Seq::<NodeId>::empty());
    }
    while i < ids.len()
        invariant
            i <= ids@.len(),
            t == *transition,
            topmost == (t.new_visible@.len() + 1) as i32,
            wrapped == wrapped_node(t),
            old_top == first_of(t.old_visible@),
            old_bottom == last_of(t.old_visible@),
            new_top == first_of(t.new_visible@),
            orders@ == Seq::new(
                t.new_visible@.len(),
                |i: int| (t.new_visible@[i], draw_order_at(t.new_visible@.len() as int, i) as i32),
            ),
            pf == (|id: NodeId| pose_spec(t, id, old_rects@.contains(id), new_rects@.contains(id))),
            ef == (|id: NodeId| extra_spec(t, id, old_rects@.contains(id), new_rects@.contains(id))),
            seen@ == distinct_ids(ids@.take(i as int)),
            poses@ == collect_poses(seen@, pf),
            extras@ == collect_poses(ids@.take(i as int), ef),
        decreases ids.len() - i,
    {
        let id: NodeId = ids[i];
        let has_old: bool = contains_id(old_rects, id);
        let has_new: bool = contains_id(new_rects, id);
        let order: i32 = match draw_order_of(orders.as_slice(), id) {
            Some(o) => o,
            None => 0,
        };
        proof {
            assert(ids@.take(i + 1).drop_last() =~= ids@.take(i as int));
            assert(ids@.take(i + 1).last() == id);
            assert(order == order_or_zero(t, id));
        }
        let pose: Option<PlannedPose> = if wrapped == Some(id) && has_old && has_new {
            match transition.direction {
                CycleDirection::Next => Some(
                    PlannedPose { node: id, kind: PoseKind::WrappedArrive, draw_order: order },
                ),
                CycleDirection::Prev => Some(
                    PlannedPose { node: id, kind: PoseKind::WrappedSlideIn, draw_order: topmost },
                ),
            }
        } else if has_old && has_new {
            Some(PlannedPose { node: id, kind: PoseKind::Move, draw_order: order })
        } else if has_old {
            if transition.direction == CycleDirection::Next && old_top == Some(id) {
                Some(PlannedPose { node: id, kind: PoseKind::SlideOut, draw_order: topmost })
            } else if transition.direction == CycleDirection::Prev && old_bottom == Some(id) {
                Some(PlannedPose { node: id, kind: PoseKind::SinkOut, draw_order: 0 })
            } else {
                Some(PlannedPose { node: id, kind: PoseKind::FadeOut, draw_order: 0 })
            }
        } else if has_new {
            if transition.direction == CycleDirection::Prev && new_top == Some(id) {
                Some(PlannedPose { node: id, kind: PoseKind::SlideIn, draw_order: topmost })
            } else {
                Some(PlannedPose { node: id, kind: PoseKind::FadeIn, draw_order: order })
            }
        } else {
            None
        };
        proof {
            assert(pose == pf(id));
        }
        if !contains_id(&seen, id) {
            proof {
                assert(seen@.push(id).drop_last() =~= seen@);
            }
            seen.push(id);
            match pose {
                Some(p) => {
                    poses.push(p);
                },
                None => {},
            }
        }
        if wrapped == Some(id) && has_old && has_new && transition.direction
            == CycleDirection::Next {
            extras.push(
                PlannedPose { node: id, kind: PoseKind::WrappedDepart, draw_order: topmost },
            );
        }
        proof {
            assert(ef(id) == if wrapped == Some(id) && has_old && has_new && t.direction
                == CycleDirection::Next {
                Some(PlannedPose { node: id, kind: PoseKind::WrappedDepart, draw_order: topmost })
            } else {
                None
            });
        }
        i = i + 1;
    }
    proof {
        assert(ids@.take(ids.len() as int) =~= ids@);
    }
    StackTransitionPlan { poses, extra_instances: extras }
}

// ---------------------------------------------------------------------------
// Drawing the units of a stack in draw order
// ---------------------------------------------------------------------------

/// Where a unit with draw order `key` goes among `sorted` (from `i` on):
/// after every unit whose order is not larger, so that equal orders keep
/// their order.
pub open spec fn draw_insert_position<T>(sorted: Seq<(i32, T)>, key: i32, i: int) -> int
    decreases sorted.len() - i,
{
    if i < 0 || i >= sorted.len() {
        sorted.len() as int
    } else if key < sorted[i].0 {
        i
    } else {
        draw_insert_position(sorted, key, i + 1)
    }
}

/// The units sorted by draw order, equal orders in their given order (the
/// stable `sort_by_key` of the renderer).
pub open spec fn sort_by_draw_order<T>(s: Seq<(i32, T)>) -> Seq<(i32, T)>
    decreases s.len(),
{
    if s.len() == 0 {
        s
    } else {
        let sorted = sort_by_draw_order(s.drop_last());
        sorted.insert(draw_insert_position(sorted, s.last().0, 0), s.last())
    }
}

proof fn lemma_draw_insert_position<T>(sorted: Seq<(i32, T)>, key: i32, i: int)
    requires
        0 <= i <= sorted.len(),
    ensures
        i <= draw_insert_position(sorted, key, i) <= sorted.len(),
        forall|k: int|
            i <= k < draw_insert_position(sorted, key, i) ==> #[trigger] sorted[k].0 <= key,
        draw_insert_position(sorted, key, i) < sorted.len() ==> key < sorted[draw_insert_position(
            sorted,
            key,
            i,
        )].0,
    decreases sorted.len() - i,
{
    if i < sorted.len() && !(key < sorted[i].0) {
        lemma_draw_insert_position(sorted, key, i + 1);
    }
}

/// Orders the units of a stack for drawing: by draw order, lowest first,
/// equal orders in their given order.
pub fn sort_stack_window_units<T>(units: Vec<(i32, T)>) -> (r: Vec<(i32, T)>)
    ensures
        r@ == sort_by_draw_order(units@),
{
    let ghost all = units@;
    let mut rest: Vec<(i32, T)> = units;
    let mut out: Vec<(i32, T)> = Vec::new();
    let ghost mut k: int = 0;
    proof {
        assert(all.take(0) =~= Seq::<(i32, T)>::empty());
        assert(all.skip(0) =~= all);
    }
    while rest.len() > 0
        invariant
            0 <= k <= all.len(),
            rest@ == all.skip(k),
            out@ == sort_by_draw_order(all.take(k)),
        decreases rest.len(),
    {
        let x: (i32, T) = rest.remove(0);
        let ghost sorted = out@;
        proof {
            assert(rest@ =~= all.skip(k + 1));
            assert(x == all[k]);
            assert(all.take(k + 1).drop_last() =~= all.take(k));
            assert(all.take(k + 1).last() == x);
            lemma_draw_insert_position(sorted, x.0, 0);
        }
        let mut j: usize = 0;
        while j < out.len() && !(x.0 < out[j].0)
            invariant
                j <= out@.len(),
                out@ == sorted,
                draw_insert_position(sorted, x.0, 0) == draw_insert_position(sorted, x.0, j as int),
            decreases out.len() - j,
        {
            j = j + 1;
        }
        proof {
            assert(draw_insert_position(sorted, x.0, 0) == j);
        }
        out.insert(j, x);
        proof {
            k = k + 1;
        }
    }
    proof {
        assert(all.take(k) =~= all);
    }
    out
}

/// The sorted units come in draw order, and they are the units given, each
/// as often as given.
pub proof fn law_stack_units_sorted<T>(units: Seq<(i32, T)>)
    ensures
        forall|i: int, j: int|
            0 <= i < j < sort_by_draw_order(units).len() ==> #[trigger] sort_by_draw_order(units)[i].0
                <= #[trigger] sort_by_draw_order(units)[j].0,
        sort_by_draw_order(units).to_multiset() == units.to_multiset(),
    decreases units.len(),
{
    broadcast use vstd::seq_lib::group_to_multiset_ensures;

    if units.len() > 0 {
        let d = units.drop_last();
        let x = units.last();
        law_stack_units_sorted(d);
        let so = sort_by_draw_order(d);
        let p = draw_insert_position(so, x.0, 0);
        lemma_draw_insert_position(so, x.0, 0);
        let n = so.insert(p, x);
        assert(sort_by_draw_order(units) == n);
        assert forall|i: int, j: int| 0 <= i < j < n.len() implies #[trigger] n[i].0 <= #[trigger] n[j].0 by {
            if j < p {
                assert(n[i] == so[i] && n[j] == so[j]);
            } else if j == p {
                assert(n[i] == so[i] && n[j] == x);
            } else if i > p {
                assert(n[i] == so[i - 1] && n[j] == so[j - 1]);
            } else if i == p {
                assert(n[i] == x && n[j] == so[j - 1]);
                assert(x.0 < so[p].0);
                if j - 1 > p {
                    assert(so[p].0 <= so[j - 1].0);
                }
            } else {
                assert(n[i] == so[i] && n[j] == so[j - 1]);
            }
        }
        assert(units =~= d.push(x));
    }
}

} // verus!
