use halley_wl::run::drm::{
    choose_crtc, connector_encoder, connectors_to_disable, drm_card_candidates,
    drm_probe_failure_message, no_drm_card_message, select_tty_scanout, ConnectorModes,
    EncoderState, ScanoutChoice, ViewportRequest,
};
use halley_wl::run::logging::{configured_halley_log_file, expand_user_path, parse_log_level, LogLevel};
use halley_wl::run::viewports::{
    keep_last_good_tty_viewport, preserve_viewport_section, viewport_section_changed,
    TtyViewport, ViewportSection,
};

fn vp(connector: &str, x: i32, width: u32) -> TtyViewport {
    TtyViewport {
        connector: connector.to_string(),
        enabled: true,
        offset_x: x,
        offset_y: 0,
        width,
        height: 1080,
        refresh_millihz: Some(60000),
        transform_degrees: 0,
        vrr: "off".to_string(),
    }
}

#[test]
fn log_levels() {
    assert_eq!(parse_log_level(" TRACE "), Some(LogLevel::Debug));
    assert_eq!(parse_log_level("warning"), Some(LogLevel::Warning));
    assert_eq!(parse_log_level("off"), Some(LogLevel::Off));
    assert_eq!(parse_log_level("loud"), None);
}

#[test]
fn log_file_setting() {
    assert_eq!(configured_halley_log_file(None, Some("/home/a")), None);
    assert_eq!(configured_halley_log_file(Some("  "), Some("/home/a")), None);
    assert_eq!(configured_halley_log_file(Some("FALSE"), Some("/home/a")), Some(None));
    assert_eq!(
        configured_halley_log_file(Some(" ~/logs/h.log "), Some("/home/a")),
        Some(Some("/home/a/logs/h.log".to_string()))
    );
    assert_eq!(expand_user_path("~", Some("/home/a")), "/home/a");
    assert_eq!(expand_user_path("~", None), "~");
    assert_eq!(expand_user_path("~user/x", Some("/home/a")), "~user/x");
}

#[test]
fn card_candidates_put_the_primary_first_once() {
    let all = vec!["/dev/dri/card1".to_string(), "/dev/dri/card0".to_string(), "/dev/dri/card1".to_string()];
    assert_eq!(
        drm_card_candidates(Some("/dev/dri/card0".to_string()), &all),
        vec!["/dev/dri/card0".to_string(), "/dev/dri/card1".to_string()]
    );
    assert_eq!(drm_card_candidates(None, &[]), Vec::<String>::new());
}

#[test]
fn probe_messages() {
    assert_eq!(no_drm_card_message("seat0"), "no drm card devices found for seat=seat0");
    let tried = vec!["/dev/dri/card0".to_string(), "/dev/dri/card1".to_string()];
    assert_eq!(
        drm_probe_failure_message("seat0", &tried, Some("busy".to_string())),
        "failed to initialize tty drm device for seat=seat0 (tried: /dev/dri/card0, /dev/dri/card1): busy"
    );
    assert_eq!(
        drm_probe_failure_message("seat0", &[], None),
        "failed to initialize tty drm device for seat=seat0 (tried: ): unknown error"
    );
}

#[test]
fn scanout_without_configuration_takes_the_first_connector() {
    let conns = vec![
        ConnectorModes { name: "eDP-1".into(), modes: vec![(2560, 1600), (1920, 1200)] },
        ConnectorModes { name: "HDMI-A-1".into(), modes: vec![(1920, 1080)] },
    ];
    assert_eq!(select_tty_scanout(&conns, &[]), Ok(ScanoutChoice { connector: 0, mode: 0 }));
    assert_eq!(
        select_tty_scanout(&[], &[]),
        Err("no connected drm connector with a usable mode found".to_string())
    );
    let bare = vec![ConnectorModes { name: "DP-2".into(), modes: vec![] }];
    assert_eq!(select_tty_scanout(&bare, &[]), Err("connector DP-2 has no modes".to_string()));
}

#[test]
fn scanout_follows_the_first_connected_configured_output() {
    let conns = vec![
        ConnectorModes { name: "eDP-1".into(), modes: vec![(2560, 1600), (1920, 1200)] },
        ConnectorModes { name: "HDMI-A-1".into(), modes: vec![(3840, 2160), (1920, 1080)] },
    ];
    let wanted = vec![
        ViewportRequest { connector: "DP-9".into(), width: 1920, height: 1080 },
        ViewportRequest { connector: "HDMI-A-1".into(), width: 1920, height: 1080 },
    ];
    assert_eq!(select_tty_scanout(&conns, &wanted), Ok(ScanoutChoice { connector: 1, mode: 1 }));
    let bad_mode = vec![ViewportRequest { connector: "eDP-1".into(), width: 800, height: 600 }];
    assert_eq!(
        select_tty_scanout(&conns, &bad_mode),
        Err("configured viewport eDP-1 requests 800x600, but no such mode is available".to_string())
    );
    let absent = vec![
        ViewportRequest { connector: "DP-1".into(), width: 1, height: 1 },
        ViewportRequest { connector: "DP-2".into(), width: 1, height: 1 },
    ];
    assert_eq!(
        select_tty_scanout(&conns, &absent),
        Err("none of configured viewport connectors are connected: DP-1, DP-2".to_string())
    );
    // A configured width is cut to the 16 bits a mode holds.
    let wide = vec![ViewportRequest { connector: "eDP-1".into(), width: 65536 + 2560, height: 1600 }];
    assert_eq!(select_tty_scanout(&conns, &wide), Ok(ScanoutChoice { connector: 0, mode: 0 }));
}

#[test]
fn crtc_and_connector_choices() {
    assert_eq!(connector_encoder(Some(7), &[1, 2]), Some(7));
    assert_eq!(connector_encoder(None, &[1, 2]), Some(1));
    assert_eq!(connector_encoder(None, &[]), None);
    assert_eq!(choose_crtc(Some(EncoderState { crtc: Some(40), possible_crtcs: vec![41] }), &[50]), Ok(40));
    assert_eq!(choose_crtc(Some(EncoderState { crtc: None, possible_crtcs: vec![41, 42] }), &[50]), Ok(41));
    assert_eq!(choose_crtc(None, &[50, 51]), Ok(50));
    assert_eq!(
        choose_crtc(None, &[]),
        Err("failed to find a usable CRTC for selected connector".to_string())
    );
    assert_eq!(connectors_to_disable(&[1, 2, 3], 2, true), vec![1, 3]);
    assert_eq!(connectors_to_disable(&[1, 2, 3], 2, false), Vec::<u32>::new());
}

#[test]
fn viewport_section_keeps_running_placement() {
    let prev = ViewportSection { tty_viewports: vec![vp("HDMI-A-1", 100, 1920), vp("eDP-1", 0, 2560)], viewport_center: (1, 2), viewport_size: (3, 4) };
    let next = ViewportSection { tty_viewports: vec![vp("eDP-1", 50, 1280), vp("DP-1", 7, 800)], viewport_center: (9, 9), viewport_size: (9, 9) };
    let kept = preserve_viewport_section(&prev, next);
    assert_eq!(kept.viewport_center, (1, 2));
    assert_eq!(kept.tty_viewports[0].offset_x, 0);
    assert_eq!(kept.tty_viewports[0].width, 2560);
    assert_eq!(kept.tty_viewports[1].offset_x, 7);

    let mut other = ViewportSection { tty_viewports: vec![], viewport_center: (0, 0), viewport_size: (0, 0) };
    keep_last_good_tty_viewport(&mut other, &prev);
    assert_eq!(other.tty_viewports.len(), 2);
    assert_eq!(other.viewport_size, (3, 4));
}

#[test]
fn viewport_change_ignores_order() {
    let a = vec![vp("HDMI-A-1", 100, 1920), vp("eDP-1", 0, 2560)];
    let b = vec![vp("eDP-1", 0, 2560), vp("HDMI-A-1", 100, 1920)];
    let c = vec![vp("eDP-1", 0, 2560), vp("HDMI-A-1", 101, 1920)];
    assert!(!viewport_section_changed(&a, &b));
    assert!(viewport_section_changed(&a, &c));
    assert!(viewport_section_changed(&a, &vec![]));
}

#[test]
fn keeping_the_output_section_twice_changes_nothing_more() {
    let prev = ViewportSection { tty_viewports: vec![vp("HDMI-A-1", 100, 1920), vp("eDP-1", 0, 2560)], viewport_center: (1, 2), viewport_size: (3, 4) };
    let next = ViewportSection { tty_viewports: vec![vp("eDP-1", 50, 1280), vp("DP-1", 7, 800)], viewport_center: (9, 9), viewport_size: (9, 9) };
    let once = preserve_viewport_section(&prev, next);
    let once_copy = ViewportSection { tty_viewports: once.tty_viewports.iter().map(|v| v.duplicate()).collect(), viewport_center: once.viewport_center, viewport_size: once.viewport_size };
    let twice = preserve_viewport_section(&prev, once_copy);
    assert!(!viewport_section_changed(&once.tty_viewports, &twice.tty_viewports));

    let own = ViewportSection { tty_viewports: prev.tty_viewports.iter().map(|v| v.duplicate()).collect(), viewport_center: (5, 5), viewport_size: (6, 6) };
    let same = preserve_viewport_section(&prev, own);
    assert!(!viewport_section_changed(&prev.tty_viewports, &same.tty_viewports));
    assert_eq!(same.tty_viewports[0].connector, "HDMI-A-1");
}
