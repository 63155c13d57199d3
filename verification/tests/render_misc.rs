use halley_wl::node_id::NodeId;
use halley_wl::render::background::{
    background_animates, expand_env_vars, expand_user_path, field_shader_choice, shader_key,
    BackgroundMode, BackgroundResource, ShaderChoice,
};
use halley_wl::render::bearings::{
    bearing_label, bearing_size, chip_rects, distance_text_pos, rect_contains, truncate_label,
    BearingLane, BearingSize,
};
use halley_wl::render::cursor_theme::{
    cursor_size, cursor_sprite_from_file, cursor_theme_candidates, cursor_theme_name,
    pick_best_cursor_image, XcursorImage,
};
use halley_wl::render::frame::{
    drag_needs_maintenance, drag_tick_action, edge_pan_active, edge_pan_axis_after_contact,
    DragTickAction,
    blur_levels, blur_textures_reusable, border_draw_region, clamped_outline_edges, frame_callback_time, level_size,
    max_layer_mask_size, monitor_overlay_requires_full_repaint, scratch_texture_fits,
    tick_live_overlap,
};
use halley_wl::render::layer_shell::{
    clamp_layer_popup_origin, layer_group_dst, layer_shell_blur_enabled, ClientBlurMode, LayerKind,
};
use halley_wl::render::node::{hover_preview_origin, node_icon_glyph, preview_base_side};
use halley_wl::render::raster::{normalize_icon_canvas, raster_icon_from_bytes, RasterFormat, RgbaPixels};
use halley_wl::render::render_utils;
use halley_wl::render::utils::{node_marker_bounds, node_marker_metrics, outline_rect_strips};

#[test]
fn bearing_lanes_and_sizes() {
    let lanes = BearingLane::all();
    assert_eq!(lanes.len(), 8);
    assert!(BearingLane::N.uses_horizontal_axis());
    assert!(!BearingLane::NE.uses_horizontal_axis());
    let size = bearing_size((100, 14), true, Some((30, 8)));
    assert_eq!(size.chip_w, 20 + 22 + 100);
    assert_eq!(size.chip_h, 30);
    assert_eq!(size.distance_rect_w, 44);
    assert_eq!(size.distance_rect_h, 16);
    assert_eq!(size.distance_block_h, 20);
    assert_eq!(size.total_height(), 50);
    assert_eq!(size.primary_extent(BearingLane::S), 142);
    assert_eq!(size.primary_extent(BearingLane::W), 50);
    let small = bearing_size((4, 2), false, None);
    assert_eq!((small.chip_w, small.chip_h, small.distance_block_h), (44, 24, 0));
}

#[test]
fn bearing_labels() {
    assert_eq!(truncate_label("short"), "short");
    assert_eq!(truncate_label("abcdefghijklmnopqrstuvwxyz"), "abcdefghijklmnopqrstuvwx...");
    assert_eq!(bearing_label(NodeId::new(7), "  Terminal ", Some("foot")), "Terminal");
    assert_eq!(bearing_label(NodeId::new(7), "  ", Some("foot")), "foot");
    assert_eq!(bearing_label(NodeId::new(7), "", None), "Node 7");
}

#[test]
fn bearing_chip_placement() {
    let size = BearingSize { chip_w: 100, chip_h: 30, show_icon: true, distance_rect_w: 40, distance_rect_h: 16, distance_block_h: 20 };
    let r = chip_rects(BearingLane::N, 500, size, 1920, 1080, true);
    assert_eq!(r.chip, (450, 36, 100, 30));
    assert_eq!(r.icon, Some((460, 43, 16, 16)));
    assert_eq!(r.distance, Some((480, 16, 40, 16)));
    let r = chip_rects(BearingLane::SE, 500, size, 1920, 1080, false);
    assert_eq!(r.chip, (1804, 495, 100, 30));
    assert_eq!(r.distance, None);
    assert_eq!(distance_text_pos((480, 16, 40, 16), 7), (487, 20));
    assert!(rect_contains((0, 0, 10, 10), 9, 9));
    assert!(!rect_contains((0, 0, 10, 10), 10, 9));
}

#[test]
fn marker_bounds_and_metrics() {
    assert_eq!(node_marker_metrics(4), (17, 14, 72, 26));
    assert_eq!(node_marker_metrics(11), (17, 14, 105, 26));
    assert_eq!(node_marker_metrics(1000), (17, 14, 420, 26));
    assert_eq!(node_marker_bounds(100, 100, 17, 14, 72, 26, 4), (79, 79, 128, 42));
    assert_eq!(render_utils::node_marker_bounds(100, 100, 17, 14, 72, 26, 4), (36, 79, 128, 42));
    assert_eq!(node_marker_bounds(0, 0, 0, -5, -5, 0, -3), (0, 0, 8, 8));
    assert_eq!(outline_rect_strips(10, 20, 30, 40), vec![(10, 20, 30, 2), (10, 58, 30, 2), (10, 20, 2, 40), (38, 20, 2, 40)]);
    assert!(outline_rect_strips(10, 20, 1, 40).is_empty());
}

#[test]
fn node_glyphs() {
    assert_eq!(node_icon_glyph(Some("org.mozilla.firefox"), "x"), Some('O'));
    assert_eq!(node_icon_glyph(Some("--"), "x"), None);
    assert_eq!(node_icon_glyph(None, "-9lives"), Some('9'));
}

#[test]
fn frame_decisions() {
    assert!(monitor_overlay_requires_full_repaint(false, false, true));
    assert!(!monitor_overlay_requires_full_repaint(false, false, false));
    assert!(tick_live_overlap(false, false));
    assert!(!tick_live_overlap(false, true));
    assert_eq!(frame_callback_time(12), 12);
    assert_eq!(frame_callback_time(u64::MAX as u128), u32::MAX);
    assert_eq!(blur_levels(0), 1);
    assert_eq!(blur_levels(9), 5);
    assert_eq!(level_size((1920, 1080), 0), (960, 540));
    assert_eq!(level_size((1920, 1080), 4), (60, 33));
    assert_eq!(level_size((3, 3), 2), (1, 1));
    assert!(blur_textures_reusable(Some(((1920, 1080), 5)), (1920, 1080), 7));
    assert!(!blur_textures_reusable(Some(((1920, 1080), 3)), (1920, 1080), 4));
    assert!(!blur_textures_reusable(None, (1920, 1080), 4));
    assert!(scratch_texture_fits(Some((100, 100)), (0, 50)));
    assert!(!scratch_texture_fits(Some((100, 100)), (101, 50)));
    assert_eq!(max_layer_mask_size(&[(true, 100, 20), (false, 900, 900), (true, 50, 40), (true, 0, 500)]), Some((100, 40)));
    assert_eq!(max_layer_mask_size(&[(false, 1, 1)]), None);
}

#[test]
fn outlines_are_cut_to_the_framebuffer() {
    let edges = clamped_outline_edges((-5, -5, 20, 20), 2, (100, 100));
    // The top and left edges lie wholly outside and are dropped.
    assert_eq!(edges, vec![(0, 13, 15, 2), (13, 0, 2, 15)]);
    let inside = clamped_outline_edges((10, 10, 20, 20), 2, (100, 100));
    assert_eq!(inside, vec![(10, 10, 20, 2), (10, 28, 20, 2), (10, 10, 2, 20), (28, 10, 2, 20)]);
    assert!(clamped_outline_edges((200, 200, 20, 20), 2, (100, 100)).is_empty());
}

#[test]
fn layer_shell_placement() {
    assert!(layer_shell_blur_enabled(true, ClientBlurMode::Auto, LayerKind::Top));
    assert!(!layer_shell_blur_enabled(true, ClientBlurMode::Auto, LayerKind::Bottom));
    assert!(layer_shell_blur_enabled(true, ClientBlurMode::Always, LayerKind::Bottom));
    assert!(!layer_shell_blur_enabled(true, ClientBlurMode::Always, LayerKind::Background));
    assert!(!layer_shell_blur_enabled(false, ClientBlurMode::Always, LayerKind::Overlay));
    assert_eq!(clamp_layer_popup_origin((0, 0, 50, 50), (-10, 1900), (1920, 1080)), (0, 1030));
    assert_eq!(clamp_layer_popup_origin((5, 5, 50, 50), (1900, 10), (1920, 1080)), (1865, 10));
    assert_eq!(layer_group_dst(&[(0, 0, 10, 10), (20, 5, 10, 10)], (0, 0), (1, 1)), (0, 0, 30, 15));
    assert_eq!(layer_group_dst(&[], (3, 4), (0, 20)), (3, 4, 1, 20));
}

#[test]
fn background_settings() {
    assert!(background_animates(BackgroundMode::FieldShader, true));
    assert!(!background_animates(BackgroundMode::Classic, true));
    assert!(!background_animates(BackgroundMode::Disabled, true));
    let env = vec![("HOME".to_string(), "/home/a".to_string()), ("X".to_string(), "y".to_string())];
    assert_eq!(expand_env_vars("$env.HOME/bg-$env.X.png", &env), "/home/a/bg-y.png");
    assert_eq!(expand_env_vars("$env.MISSING/a", &env), "/a");
    assert_eq!(expand_env_vars("cost$env.", &env), "cost$env.");
    assert_eq!(expand_user_path(" \"~/pics/a.png\" ", Some("/home/a"), &env), "/home/a/pics/a.png");
    match field_shader_choice("", " Stars ", Some("/home/a"), &env) {
        ShaderChoice::BuiltinStars => {}
        _ => panic!("expected the built-in shader"),
    }
    match field_shader_choice("", " ~/S.frag ", Some("/home/a"), &env) {
        ShaderChoice::Path(p) => assert_eq!(p, "/home/a/s.frag"),
        _ => panic!("expected a shader file"),
    }
    assert_eq!(shader_key(&ShaderChoice::BuiltinStars), "builtin:stars");
    assert_eq!(shader_key(&ShaderChoice::Path("/a".into())), "path:/a");
}

#[test]
fn background_resources_load_once_per_key() {
    let mut r = BackgroundResource { key: None, loaded: false, failed_key: None };
    assert!(r.needs_load("/a.png"));
    r.record_failure("/a.png");
    assert!(!r.needs_load("/a.png"));
    assert!(r.needs_load("/b.png"));
    r.record_success("/b.png");
    assert!(!r.needs_load("/b.png"));
    assert!(r.needs_load("/a.png"));
}

#[test]
fn cursor_settings() {
    assert_eq!(cursor_theme_name("  "), "Adwaita");
    assert_eq!(cursor_theme_name(" Bibata "), "Bibata");
    assert_eq!(cursor_size(4), 8);
    assert_eq!(cursor_size(300), 128);
    assert_eq!(cursor_size(24), 24);
    assert_eq!(cursor_theme_candidates("Adwaita"), vec!["Adwaita".to_string()]);
    assert_eq!(cursor_theme_candidates("Bibata"), vec!["Bibata".to_string(), "Adwaita".to_string()]);
}

fn image(size: u32, width: u32, delay: u32) -> XcursorImage {
    XcursorImage { size, width, height: width, xhot: 0, yhot: 0, delay, pixels_rgba: vec![] }
}

#[test]
fn best_cursor_image_is_nearest_in_size() {
    let imgs = vec![image(32, 32, 10), image(24, 24, 50), image(24, 24, 20), image(24, 24, 20)];
    assert_eq!(pick_best_cursor_image(&imgs, 24), Some(2));
    assert_eq!(pick_best_cursor_image(&imgs, 40), Some(0));
    assert_eq!(pick_best_cursor_image(&[], 24), None);
}

fn push_u32(out: &mut Vec<u8>, v: u32) {
    out.extend_from_slice(&v.to_le_bytes());
}

fn xcursor_file(images: &[(u32, u32, u32, u32, u32)]) -> Vec<u8> {
    // Header, table of contents, then the image chunks.
    let mut out = Vec::new();
    out.extend_from_slice(b"Xcur");
    push_u32(&mut out, 16);
    push_u32(&mut out, 0x1_0000);
    push_u32(&mut out, images.len() as u32);
    let mut pos = 16 + 12 * images.len() as u32;
    for &(size, w, h, _, _) in images {
        push_u32(&mut out, 0xfffd_0002);
        push_u32(&mut out, size);
        push_u32(&mut out, pos);
        pos += 36 + 4 * w * h;
    }
    for &(size, w, h, xhot, yhot) in images {
        push_u32(&mut out, 36);
        push_u32(&mut out, 0xfffd_0002);
        push_u32(&mut out, size);
        push_u32(&mut out, 1);
        push_u32(&mut out, w);
        push_u32(&mut out, h);
        push_u32(&mut out, xhot);
        push_u32(&mut out, yhot);
        push_u32(&mut out, 0);
        for i in 0..(w * h) {
            out.extend_from_slice(&[i as u8, 1, 2, 3]);
        }
    }
    out
}

#[test]
fn cursor_sprite_from_xcursor_bytes() {
    let file = xcursor_file(&[(32, 32, 32, 4, 5), (24, 2, 2, 2, 2)]);
    let sprite = cursor_sprite_from_file(&file, 24).expect("sprite");
    assert_eq!((sprite.width, sprite.height), (2, 2));
    // The hotspot is kept inside the image.
    assert_eq!((sprite.hotspot_x, sprite.hotspot_y), (1, 1));
    assert_eq!(sprite.pixels_bgra, vec![0, 1, 2, 3, 1, 1, 2, 3, 2, 1, 2, 3, 3, 1, 2, 3]);
    let big = cursor_sprite_from_file(&file, 48).expect("sprite");
    assert_eq!((big.width, big.hotspot_x, big.hotspot_y), (32, 4, 5));
    assert!(cursor_sprite_from_file(b"not a cursor", 24).is_none());
}

#[test]
fn icon_canvas_is_always_the_raster_size() {
    let empty = RgbaPixels { width: 0, height: 0, data: vec![] };
    let canvas = normalize_icon_canvas(empty);
    assert_eq!((canvas.width, canvas.height, canvas.data.len()), (64, 64, 64 * 64 * 4));
    assert!(canvas.data.iter().all(|b| *b == 0));
    let red = RgbaPixels::from_pixel(128, 96, [255, 0, 0, 255]);
    let canvas = normalize_icon_canvas(red);
    assert_eq!((canvas.width, canvas.height), (64, 64));
    assert_eq!(canvas.get_pixel(0, 0), [255, 0, 0, 255]);
    assert_eq!(canvas.get_pixel(63, 63), [255, 0, 0, 255]);
}

#[test]
fn window_borders_repaint_only_what_is_damaged_on_screen() {
    // A 100x50 window at (10, 10) with a 3-pixel border, all damaged.
    assert_eq!(
        border_draw_region((10, 10, 100, 50), 3, (1920, 1080), (0, 0, 1920, 1080)),
        Some(((7, 7, 106, 56), (0, 0, 106, 56)))
    );
    // Damage covering only the right part of the border.
    assert_eq!(
        border_draw_region((10, 10, 100, 50), 3, (1920, 1080), (100, 0, 50, 50)),
        Some(((7, 7, 106, 56), (93, 0, 13, 43)))
    );
    // Partly off screen to the left.
    assert_eq!(
        border_draw_region((-20, 0, 40, 40), 2, (100, 100), (0, 0, 100, 100)),
        Some(((-22, -2, 44, 44), (22, 2, 22, 42)))
    );
    assert_eq!(border_draw_region((10, 10, 100, 50), 0, (1920, 1080), (0, 0, 1920, 1080)), None);
    assert_eq!(border_draw_region((10, 10, 100, 50), 3, (1920, 1080), (500, 500, 10, 10)), None);
    assert_eq!(border_draw_region((3000, 10, 100, 50), 3, (1920, 1080), (0, 0, 4000, 1080)), None);
    assert_eq!(level_size((-8, 64), 1), (1, 16));
}

#[test]
fn window_drags_follow_the_authority_and_the_edge() {
    assert_eq!(drag_tick_action(false, Some(1), 1, false, true, true), DragTickAction::ClearEdgePan);
    assert_eq!(drag_tick_action(true, None, 1, true, true, true), DragTickAction::DropDrag);
    assert_eq!(drag_tick_action(true, Some(2), 1, true, true, true), DragTickAction::DropDragAndClearEdgePan);
    assert_eq!(drag_tick_action(true, Some(1), 1, true, true, false), DragTickAction::TransferToPointerMonitor);
    assert_eq!(drag_tick_action(true, Some(1), 1, false, false, false), DragTickAction::FollowPointer);
    assert_eq!(drag_tick_action(true, Some(1), 1, false, true, true), DragTickAction::EdgePan);
    assert_eq!(drag_tick_action(true, Some(1), 1, false, true, false), DragTickAction::DropDragAndClearEdgePan);
    assert_eq!(edge_pan_axis_after_contact(1, 1), 1);
    assert_eq!(edge_pan_axis_after_contact(1, 0), 0);
    assert_eq!(edge_pan_axis_after_contact(-1, 1), 0);
    assert_eq!(edge_pan_axis_after_contact(0, 1), 0);
    assert!(edge_pan_active(0, -1));
    assert!(!edge_pan_active(0, 0));
    assert!(drag_needs_maintenance(false, true));
    assert!(!drag_needs_maintenance(false, false));
}

#[test]
fn hover_previews_stay_on_screen() {
    assert_eq!(preview_base_side(800, 600, 324), 324);
    assert_eq!(preview_base_side(50, 80, 324), 120);
    assert_eq!(preview_base_side(150, 0, 324), 170);
    assert_eq!(preview_base_side(-5, -9, 220), 120);
    // Centred on the marker.
    assert_eq!(hover_preview_origin((500, 400, 40, 20), 200, (1920, 1080)), (420, 310));
    // Pushed in from the top-left and pulled back from the bottom-right.
    assert_eq!(hover_preview_origin((0, 0, 16, 16), 200, (1920, 1080)), (10, 10));
    assert_eq!(hover_preview_origin((1900, 1070, 16, 16), 200, (1920, 1080)), (1710, 870));
    // A screen too small keeps it at the top-left margin.
    assert_eq!(hover_preview_origin((50, 50, 16, 16), 200, (100, 100)), (10, 10));
}

fn encoded(img: &image::RgbaImage, format: image::ImageFormat) -> Vec<u8> {
    let mut bytes = std::io::Cursor::new(Vec::new());
    img.write_to(&mut bytes, format).unwrap();
    bytes.into_inner()
}

#[test]
fn raster_icon_files_are_decoded_onto_the_canvas() {
    let red = image::RgbaImage::from_pixel(8, 4, image::Rgba([255, 0, 0, 255]));
    let png = encoded(&red, image::ImageFormat::Png);
    let icon = raster_icon_from_bytes(&png, RasterFormat::Png).unwrap();
    assert_eq!((icon.width, icon.height), (64, 64));
    assert_eq!(icon.data.len(), 64 * 64 * 4);
    assert_eq!(icon.get_pixel(0, 0), [255, 0, 0, 255]);
    assert_eq!(icon.get_pixel(63, 63), [255, 0, 0, 255]);
    // Bytes that do not decode, or decode as another format, give nothing.
    assert!(raster_icon_from_bytes(b"not an image", RasterFormat::Png).is_none());
    assert!(raster_icon_from_bytes(&png, RasterFormat::Jpeg).is_none());
    let rgb = image::RgbImage::from_pixel(4, 4, image::Rgb([0, 0, 255]));
    let mut jpg = std::io::Cursor::new(Vec::new());
    rgb.write_to(&mut jpg, image::ImageFormat::Jpeg).unwrap();
    let icon = raster_icon_from_bytes(&jpg.into_inner(), RasterFormat::Jpeg).unwrap();
    assert_eq!(icon.get_pixel(32, 32)[3], 255);
}
