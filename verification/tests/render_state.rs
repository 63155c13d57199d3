use halley_wl::render::node_map::NodeMap;
use halley_wl::render::state::{
    clear_focus_cycle_still, clear_focus_cycle_still_for, clear_window_offscreen_cache_for,
    clear_window_offscreen_caches, closing_capture_possible, closing_capture_undecorated,
    closing_window_animation_active_for_monitor,
    closing_window_animation_snapshots, ensure_focus_cycle_still, ensure_window_offscreen_cache,
    mark_window_offscreen_dirty, offscreen_cache_missing, offscreen_needs_render,
    prune_focus_cycle_still, prune_window_offscreen_cache, start_closing_node_animation,
    start_closing_window_animation, ClosingWindowAnimationKind, ClosingWindowAnimations,
    WindowOffscreenCaches,
};
use halley_wl::node_id::NodeId;
use halley_wl::render::monitor_map::MonitorMap;
use halley_wl::render::state::{
    adjust_overlay_error_toast_scroll, animation_duration, animation_running,
    dismiss_overlay_error_toast, exit_confirm_visible, keep_offscreen_cache,
    set_overlay_error_toast_hovered, show_overlay_toast_with_kind,
    stack_cycle_transition_for_monitor, start_stack_cycle_transition, toast_target_visible,
    BearingsVisibility, OverlayToastKind, OverlayToastState, StackCycleTransitionState,
    TransitionProgress, WindowOffscreenCache, LANDMARK_SLIDE_DURATION_MS,
};
use halley_wl::render::window::CycleDirection;

#[test]
fn monitor_map_keeps_one_entry_per_monitor() {
    let mut m: MonitorMap<u32> = MonitorMap::new();
    m.insert("DP-1", 1);
    m.insert("HDMI-A-1", 2);
    m.insert("DP-1", 3);
    assert_eq!(m.entries.len(), 2);
    assert_eq!(m.get("DP-1"), Some(&3));
    assert!(m.remove("DP-1"));
    assert!(!m.remove("DP-1"));
    assert_eq!(m.get("DP-1"), None);
    assert_eq!(m.get("HDMI-A-1"), Some(&2));
}

#[test]
fn timed_animations() {
    assert!(animation_running(100, 50, 149));
    assert!(!animation_running(100, 50, 150));
    assert!(animation_running(100, 50, 10));
    assert_eq!(animation_duration(0), 1);
    assert_eq!(LANDMARK_SLIDE_DURATION_MS, 520);
}

#[test]
fn stack_cycle_transition_runs_then_ends() {
    let mut t: MonitorMap<StackCycleTransitionState<()>> = MonitorMap::new();
    let a = vec![NodeId::new(1), NodeId::new(2)];
    let b = vec![NodeId::new(2), NodeId::new(1)];
    start_stack_cycle_transition(&mut t, "DP-1", CycleDirection::Next, a.clone(), b, None, 1000, 0);
    assert_eq!(
        stack_cycle_transition_for_monitor(&mut t, "DP-1", 1000),
        Some(TransitionProgress { elapsed_ms: 0, duration_ms: 1 })
    );
    assert_eq!(stack_cycle_transition_for_monitor(&mut t, "DP-1", 1001), None);
    assert!(t.get("DP-1").is_none());

    start_stack_cycle_transition(&mut t, "DP-1", CycleDirection::Prev, a.clone(), a.clone(), Some(()), 0, 200);
    assert_eq!(
        stack_cycle_transition_for_monitor(&mut t, "DP-1", 150),
        Some(TransitionProgress { elapsed_ms: 150, duration_ms: 200 })
    );
    // A cycle that changes nothing clears the monitor's transition.
    start_stack_cycle_transition(&mut t, "DP-1", CycleDirection::Prev, a.clone(), a, None, 0, 200);
    assert!(t.get("DP-1").is_none());
}

#[test]
fn error_toasts_scroll_hover_and_dismiss() {
    let mut toasts: MonitorMap<OverlayToastState> = MonitorMap::new();
    show_overlay_toast_with_kind(&mut toasts, "DP-1", "saved", OverlayToastKind::Info, 0, 100);
    let t = toasts.get("DP-1").unwrap();
    assert_eq!((t.duration_ms, t.visible_until_ms), (1, 101));
    assert!(toast_target_visible(t, 100));
    assert!(!toast_target_visible(t, 101));
    assert!(!adjust_overlay_error_toast_scroll(&mut toasts, "DP-1", 5, 5, 10, 10));
    assert!(!dismiss_overlay_error_toast(&mut toasts, "DP-1"));

    show_overlay_toast_with_kind(&mut toasts, "DP-1", "boom", OverlayToastKind::Error, 1000, 100);
    assert!(adjust_overlay_error_toast_scroll(&mut toasts, "DP-1", 25, -3, 10, 10));
    let t = toasts.get("DP-1").unwrap();
    assert_eq!((t.scroll_x, t.scroll_y), (10, 0));
    assert!(!adjust_overlay_error_toast_scroll(&mut toasts, "DP-1", 1, 0, 10, 10));
    set_overlay_error_toast_hovered(&mut toasts, "DP-1", true, 500);
    assert!(toast_target_visible(toasts.get("DP-1").unwrap(), 5000));
    set_overlay_error_toast_hovered(&mut toasts, "DP-1", false, 6000);
    assert_eq!(toasts.get("DP-1").unwrap().visible_until_ms, 7000);
    assert!(dismiss_overlay_error_toast(&mut toasts, "DP-1"));
    assert!(toasts.get("DP-1").is_none());
}

#[test]
fn exit_confirm_and_bearings() {
    assert!(!exit_confirm_visible(&[("DP-1".to_string(), false)]));
    assert!(exit_confirm_visible(&[("DP-1".to_string(), false), ("DP-2".to_string(), true)]));
    let mut b = BearingsVisibility { visible: false };
    assert!(b.set_bearings_visible(true));
    assert!(!b.set_bearings_visible(true));
    assert!(!b.toggle_bearings_visible());
    assert!(b.toggle_bearings_visible());
    assert!(b.visible);
}

#[test]
fn offscreen_cache_resets_on_resize_only() {
    let mut c: WindowOffscreenCache<u8, u8> = WindowOffscreenCache::new();
    c.ensure_size(0, 300, 10);
    assert_eq!((c.width, c.height, c.dirty, c.last_used_at_ms), (1, 300, true, Some(10)));
    c.texture = Some(1);
    c.has_content = true;
    c.mark_clean(20);
    c.ensure_size(-5, 300, 30);
    assert_eq!((c.texture, c.has_content, c.dirty, c.last_used_at_ms), (Some(1), true, false, Some(30)));
    c.ensure_size(2, 300, 40);
    assert_eq!((c.texture, c.has_content, c.dirty), (None, false, true));
    assert!(keep_offscreen_cache(true, false, Some(1000), 5999));
    assert!(!keep_offscreen_cache(true, false, Some(1000), 6000));
    assert!(keep_offscreen_cache(true, true, Some(1000), 60000));
    assert!(!keep_offscreen_cache(false, true, None, 0));
    assert!(keep_offscreen_cache(true, false, None, 0));
}

type Kind = ClosingWindowAnimationKind<u8, u32, u32, (i32, i32), u8>;

#[test]
fn closing_animations_play_for_their_duration_on_their_monitor() {
    let mut anims: ClosingWindowAnimations<Kind> = NodeMap::new();
    start_closing_window_animation(&mut anims, NodeId::new(1), "eDP-1", 1000, 0, 7u8, vec![], vec![]);
    assert!(anims.get(NodeId::new(1)).is_none());
    start_closing_window_animation(&mut anims, NodeId::new(1), "eDP-1", 1000, 200, 7u8, vec![3u32], vec![]);
    start_closing_node_animation(&mut anims, NodeId::new(2), "DP-1", 1100, 0, (4, 5), "n".to_string(), 1u8);
    let a = anims.get(NodeId::new(1)).unwrap();
    assert_eq!(a.duration_ms, 200);
    assert_eq!(anims.get(NodeId::new(2)).unwrap().duration_ms, 1);
    assert!(closing_window_animation_active_for_monitor(&anims, "eDP-1", 1199));
    assert!(!closing_window_animation_active_for_monitor(&anims, "eDP-1", 1200));
    assert!(closing_window_animation_active_for_monitor(&anims, "DP-1", 1100));
    assert!(!closing_window_animation_active_for_monitor(&anims, "DP-1", 1101));
    assert!(!closing_window_animation_active_for_monitor(&anims, "HDMI-A-1", 1100));

    let on_edp = closing_window_animation_snapshots(&mut anims, "eDP-1", 1150);
    assert_eq!(on_edp, vec![NodeId::new(1)]);
    assert!(anims.get(NodeId::new(2)).is_none());

    start_closing_node_animation(&mut anims, NodeId::new(1), "DP-1", 1150, 50, (0, 0), "again".to_string(), 2u8);
    assert_eq!(anims.len(), 1);
    assert!(closing_window_animation_snapshots(&mut anims, "eDP-1", 1160).is_empty());
    assert!(closing_window_animation_snapshots(&mut anims, "DP-1", 1200).is_empty());
    assert_eq!(anims.len(), 0);
}

#[test]
fn offscreen_caches_by_node() {
    let mut caches: WindowOffscreenCaches<u8, u8> = NodeMap::new();
    ensure_window_offscreen_cache(&mut caches, NodeId::new(1), 100, 50, 10);
    let c = caches.get(NodeId::new(1)).unwrap();
    assert_eq!((c.width, c.height, c.dirty, c.last_used_at_ms), (100, 50, true, Some(10)));
    let mut entry = caches.remove(NodeId::new(1)).unwrap();
    entry.texture = Some(9);
    entry.has_content = true;
    entry.mark_clean(11);
    caches.insert(NodeId::new(1), entry);
    ensure_window_offscreen_cache(&mut caches, NodeId::new(1), 100, 50, 12);
    assert_eq!(caches.get(NodeId::new(1)).unwrap().texture, Some(9));
    mark_window_offscreen_dirty(&mut caches, NodeId::new(1));
    assert!(caches.get(NodeId::new(1)).unwrap().dirty);
    mark_window_offscreen_dirty(&mut caches, NodeId::new(7));
    assert!(caches.get(NodeId::new(7)).is_none());
    ensure_window_offscreen_cache(&mut caches, NodeId::new(1), 0, -5, 13);
    let c = caches.get(NodeId::new(1)).unwrap();
    assert_eq!((c.width, c.height, c.texture), (1, 1, None));

    ensure_window_offscreen_cache(&mut caches, NodeId::new(2), 10, 10, 0);
    ensure_window_offscreen_cache(&mut caches, NodeId::new(3), 10, 10, 0);
    // Node 1 was used at 13; node 2 and 3 at 0; node 3 is gone.
    prune_window_offscreen_cache(&mut caches, &[NodeId::new(1), NodeId::new(2)], &[], 5012);
    assert!(caches.get(NodeId::new(1)).is_some());
    assert!(caches.get(NodeId::new(2)).is_none());
    assert!(caches.get(NodeId::new(3)).is_none());
    ensure_window_offscreen_cache(&mut caches, NodeId::new(2), 10, 10, 0);
    prune_window_offscreen_cache(&mut caches, &[NodeId::new(1), NodeId::new(2)], &[NodeId::new(2)], 9000);
    assert!(caches.get(NodeId::new(1)).is_none());
    assert!(caches.get(NodeId::new(2)).is_some());
    clear_window_offscreen_cache_for(&mut caches, NodeId::new(2));
    assert_eq!(caches.len(), 0);
    ensure_window_offscreen_cache(&mut caches, NodeId::new(4), 10, 10, 0);
    clear_window_offscreen_caches(&mut caches);
    assert_eq!(caches.len(), 0);

    let mut stills: WindowOffscreenCaches<u8, u8> = NodeMap::new();
    for id in [1u64, 2, 3] {
        ensure_focus_cycle_still(&mut stills, NodeId::new(id), 20, 20, 0);
    }
    prune_focus_cycle_still(&mut stills, &[NodeId::new(2), NodeId::new(3), NodeId::new(9)]);
    assert_eq!(stills.len(), 2);
    clear_focus_cycle_still_for(&mut stills, NodeId::new(2));
    assert!(stills.get(NodeId::new(3)).is_some());
    clear_focus_cycle_still(&mut stills);
    assert_eq!(stills.len(), 0);
}

#[test]
fn offscreen_images_are_redrawn_when_missing_or_resized() {
    let mut c: WindowOffscreenCache<u8, u8> = WindowOffscreenCache::new();
    assert!(offscreen_cache_missing::<u8, u8>(None, 10, 10));
    assert!(offscreen_cache_missing(Some(&c), 0, 0));
    c.ensure_size(10, 20, 5);
    assert!(offscreen_needs_render(&c));
    c.texture = Some(1);
    c.bbox = Some(2);
    c.has_content = true;
    c.mark_clean(6);
    assert!(!offscreen_cache_missing(Some(&c), 10, 20));
    assert!(!offscreen_needs_render(&c));
    assert!(offscreen_cache_missing(Some(&c), 11, 20));
    c.ensure_size(11, 20, 7);
    assert!(offscreen_needs_render(&c));
    assert!(c.texture.is_none());
}

#[test]
fn closing_windows_are_captured_only_with_a_full_image() {
    let mut c: WindowOffscreenCache<u8, u8> = WindowOffscreenCache::new();
    assert!(!closing_capture_possible::<u8, u8>(true, None, (1920, 1080)));
    assert!(!closing_capture_possible(true, Some(&c), (1920, 1080)));
    c.texture = Some(1);
    c.bbox = Some(2);
    assert!(!closing_capture_possible(true, Some(&c), (1920, 1080)));
    c.has_content = true;
    assert!(closing_capture_possible(true, Some(&c), (1920, 1080)));
    assert!(!closing_capture_possible(false, Some(&c), (1920, 1080)));
    assert!(!closing_capture_possible(true, Some(&c), (0, 1080)));
    assert!(closing_capture_undecorated(Some("DP-1"), "DP-1"));
    assert!(!closing_capture_undecorated(Some("DP-1"), "eDP-1"));
    assert!(!closing_capture_undecorated(None, "DP-1"));
}

#[test]
fn node_map_lists_each_node_once() {
    let mut m: NodeMap<u32> = NodeMap::new();
    m.insert(NodeId::new(5), 1);
    m.insert(NodeId::new(2), 2);
    m.insert(NodeId::new(5), 3);
    m.insert(NodeId::new(9), 4);
    assert_eq!(m.remove(NodeId::new(9)), Some(4));
    let mut nodes: Vec<u64> = m.nodes().iter().map(|n| n.as_u64()).collect();
    nodes.sort();
    assert_eq!(nodes, vec![2, 5]);
    assert_eq!(m.get(NodeId::new(5)), Some(&3));
    assert_eq!(m.len(), 2);
    m.clear();
    assert!(m.nodes().is_empty());
}
