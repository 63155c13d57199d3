use halley_wl::node_id::NodeId;
use halley_wl::render::window::{
    build_stack_transition_plan, draw_order_of, rect4_str, render_view_for_monitor,
    should_draw_resize_overlap_overlay, sort_stack_window_units, stack_draw_order_map,
    strict_square_csd_transition_mode,
    CycleDirection, PoseKind, StackCycleTransition,
};

#[test]
fn resize_overlap_overlay_skips_underlay_for_overlap_policy_resize() {
    assert!(!should_draw_resize_overlap_overlay(
        Some((0, 0, 100, 100, NodeId::new(1))),
        NodeId::new(2),
        (20, 20, 40, 40),
        true,
    ));
}

#[test]
fn resize_overlap_overlay_marks_intersecting_underlay_for_normal_resize() {
    assert!(should_draw_resize_overlap_overlay(
        Some((0, 0, 100, 100, NodeId::new(1))),
        NodeId::new(2),
        (20, 20, 40, 40),
        false,
    ));
}

#[test]
fn square_csd_steady_state_keeps_legacy_visual_path() {
    assert!(!strict_square_csd_transition_mode(false, 0, false));
}

#[test]
fn square_csd_transition_uses_strict_clip_path() {
    assert!(strict_square_csd_transition_mode(false, 0, true));
    assert!(!strict_square_csd_transition_mode(true, 0, true));
    assert!(!strict_square_csd_transition_mode(false, 8, true));
}

#[test]
fn resize_overlap_overlay_never_marks_the_resized_window() {
    assert!(!should_draw_resize_overlap_overlay(
        Some((0, 0, 100, 100, NodeId::new(1))),
        NodeId::new(1),
        (20, 20, 40, 40),
        false,
    ));
}

#[test]
fn resize_overlap_overlay_needs_a_resize_and_an_intersection() {
    assert!(!should_draw_resize_overlap_overlay(None, NodeId::new(2), (20, 20, 40, 40), false));
    // Touching edges do not intersect.
    assert!(!should_draw_resize_overlap_overlay(
        Some((0, 0, 100, 100, NodeId::new(1))),
        NodeId::new(2),
        (100, 0, 40, 40),
        false,
    ));
    // A zero-size window still counts as one pixel.
    assert!(should_draw_resize_overlap_overlay(
        Some((0, 0, 100, 100, NodeId::new(1))),
        NodeId::new(2),
        (99, 99, 0, 0),
        false,
    ));
}

#[test]
fn rect_text_matches_render_log_format() {
    assert_eq!(rect4_str(10, -20, 300, 40), "(10,-20 300x40)");
}

#[test]
fn stack_front_card_is_drawn_last() {
    let members = vec![NodeId::new(1), NodeId::new(2), NodeId::new(3)];
    let map = stack_draw_order_map(&members);
    assert_eq!(map, vec![(NodeId::new(1), 2), (NodeId::new(2), 1), (NodeId::new(3), 0)]);
    assert_eq!(draw_order_of(&map, NodeId::new(1)), Some(2));
    assert_eq!(draw_order_of(&map, NodeId::new(4)), None);
}

#[test]
fn repeated_stack_member_takes_its_last_draw_order() {
    let members = vec![NodeId::new(1), NodeId::new(2), NodeId::new(1)];
    let map = stack_draw_order_map(&members);
    assert_eq!(draw_order_of(&map, NodeId::new(1)), Some(0));
    assert_eq!(draw_order_of(&map, NodeId::new(2)), Some(1));
}

#[test]
fn monitor_camera_falls_back_to_live_view() {
    let monitors = vec![("HDMI-A-1".to_string(), (1, 2)), ("DP-1".to_string(), (3, 4))];
    assert_eq!(render_view_for_monitor("eDP-1", (9, 9), &monitors, "eDP-1"), (9, 9));
    assert_eq!(render_view_for_monitor("eDP-1", (9, 9), &monitors, "DP-1"), (3, 4));
    assert_eq!(render_view_for_monitor("eDP-1", (9, 9), &monitors, "DP-2"), (9, 9));
}

#[test]
fn rotating_stack_forward_wraps_front_card_with_a_departing_copy() {
    let t = StackCycleTransition {
        old_visible: vec![NodeId::new(1), NodeId::new(2), NodeId::new(3)],
        new_visible: vec![NodeId::new(2), NodeId::new(3), NodeId::new(1)],
        has_source_rects: false,
        direction: CycleDirection::Next,
    };
    let all = vec![NodeId::new(1), NodeId::new(2), NodeId::new(3)];
    let plan = build_stack_transition_plan(&t, &all, &all);
    assert_eq!(plan.poses.len(), 3);
    assert_eq!(plan.poses[0].node, NodeId::new(1));
    assert_eq!(plan.poses[0].kind, PoseKind::WrappedArrive);
    assert_eq!(plan.poses[0].draw_order, 0);
    assert_eq!(plan.poses[1].kind, PoseKind::Move);
    assert_eq!(plan.poses[1].draw_order, 2);
    assert_eq!(plan.extra_instances.len(), 1);
    assert_eq!(plan.extra_instances[0].kind, PoseKind::WrappedDepart);
    assert_eq!(plan.extra_instances[0].draw_order, 4);
}

#[test]
fn rotating_stack_backward_slides_back_card_in_on_top() {
    let t = StackCycleTransition {
        old_visible: vec![NodeId::new(1), NodeId::new(2), NodeId::new(3)],
        new_visible: vec![NodeId::new(3), NodeId::new(1), NodeId::new(2)],
        has_source_rects: false,
        direction: CycleDirection::Prev,
    };
    let all = vec![NodeId::new(1), NodeId::new(2), NodeId::new(3)];
    let plan = build_stack_transition_plan(&t, &all, &all);
    assert_eq!(plan.poses[2].node, NodeId::new(3));
    assert_eq!(plan.poses[2].kind, PoseKind::WrappedSlideIn);
    assert_eq!(plan.poses[2].draw_order, 4);
    assert!(plan.extra_instances.is_empty());
}

#[test]
fn cards_leaving_and_arriving_fade_or_slide() {
    let t = StackCycleTransition {
        old_visible: vec![NodeId::new(1), NodeId::new(2)],
        new_visible: vec![NodeId::new(2), NodeId::new(5)],
        has_source_rects: false,
        direction: CycleDirection::Next,
    };
    let old_rects = vec![NodeId::new(1), NodeId::new(2)];
    let new_rects = vec![NodeId::new(2), NodeId::new(5)];
    let plan = build_stack_transition_plan(&t, &old_rects, &new_rects);
    let kinds: Vec<PoseKind> = plan.poses.iter().map(|p| p.kind).collect();
    assert_eq!(kinds, vec![PoseKind::SlideOut, PoseKind::Move, PoseKind::FadeIn]);
    assert_eq!(plan.poses[0].draw_order, 3);
    assert_eq!(plan.poses[2].draw_order, 0);
}

#[test]
fn each_card_posed_once_and_one_extra_copy_at_most() {
    let t = StackCycleTransition {
        old_visible: vec![NodeId::new(1), NodeId::new(2), NodeId::new(3), NodeId::new(4)],
        new_visible: vec![NodeId::new(2), NodeId::new(3), NodeId::new(4), NodeId::new(1)],
        has_source_rects: false,
        direction: CycleDirection::Next,
    };
    let all = vec![NodeId::new(1), NodeId::new(2), NodeId::new(3), NodeId::new(4)];
    let plan = build_stack_transition_plan(&t, &all, &all);
    let mut nodes: Vec<u64> = plan.poses.iter().map(|p| p.node.as_u64()).collect();
    nodes.sort();
    nodes.dedup();
    assert_eq!(nodes.len(), plan.poses.len());
    assert_eq!(plan.poses.len(), 4);
    assert_eq!(plan.extra_instances.len(), 1);
    assert_eq!(plan.extra_instances[0].node, NodeId::new(1));
}

#[test]
fn card_listed_twice_gets_one_pose() {
    let t = StackCycleTransition {
        old_visible: vec![NodeId::new(1), NodeId::new(2), NodeId::new(1)],
        new_visible: vec![NodeId::new(2), NodeId::new(3)],
        has_source_rects: false,
        direction: CycleDirection::Prev,
    };
    let old_rects = vec![NodeId::new(1), NodeId::new(2)];
    let new_rects = vec![NodeId::new(2), NodeId::new(3)];
    let plan = build_stack_transition_plan(&t, &old_rects, &new_rects);
    let nodes: Vec<NodeId> = plan.poses.iter().map(|p| p.node).collect();
    assert_eq!(nodes, vec![NodeId::new(1), NodeId::new(2), NodeId::new(3)]);
    assert_eq!(plan.poses[0].kind, PoseKind::SinkOut);
    assert_eq!(plan.poses[2].kind, PoseKind::FadeIn);
    assert!(plan.extra_instances.is_empty());
}

#[test]
fn stack_units_are_drawn_back_to_front_keeping_ties_in_order() {
    let units = vec![(2, "a"), (0, "b"), (2, "c"), (-1, "d"), (0, "e")];
    assert_eq!(
        sort_stack_window_units(units),
        vec![(-1, "d"), (0, "b"), (0, "e"), (2, "a"), (2, "c")]
    );
    assert!(sort_stack_window_units(Vec::<(i32, u8)>::new()).is_empty());
}
