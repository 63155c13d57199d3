use halley_wl::run::common::{
    auto_backend, autostart_command_lines, configure_xwayland_satellite, dbus_session_bus_address,
    default_halley_log_path, fallback_runtime_dir_name, first_wayland_socket_in_dir,
    first_x11_display, host_display_plan, launch_backend, next_free_x11_display,
    restart_delay_ms, run_user_dir, runtime_dir_mode_usable, satellite_bin, session_bus_path,
    ChildPoll, DirEntryInfo, HostDisplayPlan, RuntimeBackend, SatelliteProbe, SatelliteStep,
    XwaylandMode,
};

fn entry(name: &str, is_socket: bool) -> DirEntryInfo {
    DirEntryInfo { name: name.to_string(), is_socket }
}

#[test]
fn backend_setting_is_trimmed_and_case_insensitive() {
    assert_eq!(RuntimeBackend::from_setting(" Winit\n"), Ok(RuntimeBackend::Winit));
    assert_eq!(RuntimeBackend::from_setting("TTY"), Ok(RuntimeBackend::Tty));
    assert_eq!(RuntimeBackend::from_setting("auto"), Ok(RuntimeBackend::Auto));
    assert_eq!(
        RuntimeBackend::from_setting(" Wayland "),
        Err("invalid HALLEY_WL_BACKEND=wayland (expected auto|winit|tty)".to_string())
    );
}

#[test]
fn auto_backend_prefers_a_nested_window_when_a_host_exists() {
    assert_eq!(auto_backend(false, false, false, None), RuntimeBackend::Winit);
    assert_eq!(auto_backend(true, true, false, None), RuntimeBackend::Winit);
    assert_eq!(auto_backend(true, false, true, None), RuntimeBackend::Winit);
    assert_eq!(auto_backend(true, false, false, Some(" X11 ")), RuntimeBackend::Winit);
    assert_eq!(auto_backend(true, false, false, Some("tty")), RuntimeBackend::Tty);
    assert_eq!(auto_backend(true, false, false, None), RuntimeBackend::Tty);
}

#[test]
fn launch_resolves_auto() {
    assert_eq!(launch_backend(RuntimeBackend::Auto, RuntimeBackend::Tty), RuntimeBackend::Tty);
    assert_eq!(launch_backend(RuntimeBackend::Auto, RuntimeBackend::Auto), RuntimeBackend::Winit);
    assert_eq!(launch_backend(RuntimeBackend::Tty, RuntimeBackend::Winit), RuntimeBackend::Tty);
}

#[test]
fn runtime_dir_must_be_private() {
    assert!(runtime_dir_mode_usable(0o40700));
    assert!(!runtime_dir_mode_usable(0o40755));
    assert!(!runtime_dir_mode_usable(0o600));
    assert_eq!(run_user_dir(1000), "/run/user/1000");
    assert_eq!(fallback_runtime_dir_name(0), "halley-runtime-0");
}

#[test]
fn session_bus_address_points_at_the_runtime_dir() {
    assert_eq!(session_bus_path("/run/user/1000"), "/run/user/1000/bus");
    assert_eq!(session_bus_path("/run/user/1000/"), "/run/user/1000/bus");
    assert_eq!(dbus_session_bus_address("/run/user/1000/bus"), "unix:path=/run/user/1000/bus");
    assert_eq!(default_halley_log_path(Some("/run/user/7")), Some("/run/user/7/halley.log".to_string()));
    assert_eq!(default_halley_log_path(None), None);
}

#[test]
fn first_wayland_socket_is_the_least_socket_name() {
    let entries = vec![
        entry("wayland-1", true),
        entry("wayland-0.lock", false),
        entry("wayland-0", true),
        entry("pulse", true),
    ];
    assert_eq!(first_wayland_socket_in_dir(&entries), Some("wayland-0".to_string()));
    assert_eq!(first_wayland_socket_in_dir(&[entry("wayland-0", false)]), None);
}

#[test]
fn first_x11_display_strips_leading_xs() {
    let entries = vec![entry("X1", true), entry("XX0", true), entry("X2", false), entry("Y0", true)];
    assert_eq!(first_x11_display(&entries), Some(":0".to_string()));
    assert_eq!(first_x11_display(&[]), None);
}

#[test]
fn next_free_display_skips_taken_numbers() {
    let names = vec!["X0".to_string(), "X1".to_string(), "X3".to_string(), "Xabc".to_string()];
    assert_eq!(next_free_x11_display(&names), ":2");
    assert_eq!(next_free_x11_display(&[]), ":0");
    let all: Vec<String> = (0..4096).map(|i| format!("X{i}")).collect();
    assert_eq!(next_free_x11_display(&all), ":4096");
}

#[test]
fn host_display_plan_prefers_existing_then_wayland_then_x11() {
    assert!(matches!(
        host_display_plan(true, false, Some("wayland-0".into()), None, true, None),
        HostDisplayPlan::KeepEnvironment
    ));
    match host_display_plan(false, false, Some("wayland-0".into()), Some(":0".into()), true, None) {
        HostDisplayPlan::SetWaylandDisplay(w) => assert_eq!(w, "wayland-0"),
        _ => panic!("expected a wayland display"),
    }
    match host_display_plan(false, false, None, Some(":0".into()), true, None) {
        HostDisplayPlan::SetDisplay(d) => assert_eq!(d, ":0"),
        _ => panic!("expected an X11 display"),
    }
    assert!(matches!(
        host_display_plan(false, false, None, None, true, Some("sway")),
        HostDisplayPlan::NoHost { warn_ignored_backend: true }
    ));
    assert!(matches!(
        host_display_plan(false, false, None, None, true, Some("none")),
        HostDisplayPlan::NoHost { warn_ignored_backend: false }
    ));
    assert!(matches!(
        host_display_plan(false, false, None, None, false, Some("sway")),
        HostDisplayPlan::NoHost { warn_ignored_backend: false }
    ));
}

#[test]
fn xwayland_mode_settings() {
    assert_eq!(XwaylandMode::from_setting("on_demand"), Ok(XwaylandMode::OnDemand));
    assert_eq!(XwaylandMode::from_setting(" TRUE "), Ok(XwaylandMode::On));
    assert_eq!(XwaylandMode::from_setting("0"), Ok(XwaylandMode::Off));
    assert_eq!(XwaylandMode::from_setting("auto"), Ok(XwaylandMode::Auto));
    assert_eq!(
        XwaylandMode::from_setting("maybe"),
        Err("invalid HALLEY_DEV_WL_XWAYLAND=maybe (expected ondemand|auto|on|off)".to_string())
    );
}

#[test]
fn satellite_settings_have_defaults() {
    assert_eq!(satellite_bin(None), "xwayland-satellite");
    assert_eq!(satellite_bin(Some("   ")), "xwayland-satellite");
    assert_eq!(satellite_bin(Some("/opt/xs")), "/opt/xs");
    assert_eq!(restart_delay_ms(None), 1500);
    assert_eq!(restart_delay_ms(Some(" 10 ")), 50);
    assert_eq!(restart_delay_ms(Some("250")), 250);
    assert_eq!(restart_delay_ms(Some("soon")), 1500);
}

#[test]
fn satellite_configuration_follows_mode_and_probe() {
    let off = configure_xwayland_satellite(
        XwaylandMode::Off, "wayland-1", None, SatelliteProbe::Found, None, &[], None,
    )
    .unwrap();
    assert!(off.disabled);
    assert_eq!(off.satellite_bin, "");

    let missing_on = configure_xwayland_satellite(
        XwaylandMode::On, "wayland-1", None, SatelliteProbe::NotFound, None, &[], None,
    );
    assert_eq!(
        missing_on.unwrap_err(),
        "HALLEY_DEV_WL_XWAYLAND=on but `xwayland-satellite` was not found in PATH"
    );

    let failed_on = configure_xwayland_satellite(
        XwaylandMode::On, "wayland-1", None, SatelliteProbe::Failed("denied".into()), None, &[], None,
    );
    assert_eq!(failed_on.unwrap_err(), "failed to probe xwayland-satellite: denied");

    let missing_auto = configure_xwayland_satellite(
        XwaylandMode::Auto, "wayland-1", None, SatelliteProbe::NotFound, None, &[], None,
    )
    .unwrap();
    assert!(missing_auto.disabled);
    assert_eq!(missing_auto.satellite_bin, "xwayland-satellite");

    let names = vec!["X0".to_string()];
    let ok = configure_xwayland_satellite(
        XwaylandMode::OnDemand, "wayland-1", None, SatelliteProbe::Found, None, &names, Some("700"),
    )
    .unwrap();
    assert!(!ok.disabled);
    assert_eq!(ok.display, ":1");
    assert_eq!(ok.restart_delay_ms, 700);
    assert!(!ok.request_pending);
    assert_eq!(ok.wayland_display, "wayland-1");

    let auto = configure_xwayland_satellite(
        XwaylandMode::Auto, "wayland-1", None, SatelliteProbe::Found, Some(":9"), &names, None,
    )
    .unwrap();
    assert_eq!(auto.display, ":9");
    assert!(auto.request_pending);
}

#[test]
fn satellite_starts_on_request_and_restarts_after_its_delay() {
    let mut s = configure_xwayland_satellite(
        XwaylandMode::OnDemand, "wayland-1", None, SatelliteProbe::Found, None, &[], Some("100"),
    )
    .unwrap();
    assert_eq!(s.tick(0, ChildPoll::StillRunning), SatelliteStep::Wait);
    s.request_start();
    assert_eq!(s.tick(10, ChildPoll::StillRunning), SatelliteStep::Spawn);
    s.spawn_finished(10, true);
    assert!(s.child_running && !s.request_pending);
    assert_eq!(s.tick(20, ChildPoll::StillRunning), SatelliteStep::Wait);
    // The child exits; on demand it only comes back on the next request.
    assert_eq!(s.tick(30, ChildPoll::Exited), SatelliteStep::Wait);
    assert_eq!(s.restart_after_ms, Some(130));
    s.request_start();
    assert_eq!(s.tick(100, ChildPoll::StillRunning), SatelliteStep::Wait);
    assert_eq!(s.tick(130, ChildPoll::StillRunning), SatelliteStep::Spawn);
    s.spawn_finished(130, false);
    assert_eq!(s.restart_after_ms, Some(230));
    assert_eq!(s.tick(229, ChildPoll::StillRunning), SatelliteStep::Wait);
}

#[test]
fn autostart_lines_are_trimmed_and_blank_ones_skipped() {
    let cmds = vec!["  waybar ".to_string(), "   ".to_string(), "mako".to_string()];
    assert_eq!(autostart_command_lines(&cmds), vec!["waybar".to_string(), "mako".to_string()]);
}
