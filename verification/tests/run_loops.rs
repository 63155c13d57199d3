use halley_wl::run::ipc::{
    handle_request, request_command, response_for_invalid_request, DockingCommand, IpcError,
    NodeMoveDirection, Request, Response, RuntimeIpcCommand,
};
use halley_wl::run::{
    redraw_hover_targets, tty_mode_switch_outcome, tty_reload_mode_plan, LoopAction,
    PointerSnapshot, ReloadModePlan, ReloadModeQuery, ReloadSource, TtyEvent, TtyLoopState,
    WinitEvent, WinitLoopState,
};
use halley_wl::{run_tty, run_winit};

fn pointer() -> PointerSnapshot {
    PointerSnapshot { hover_node: None, hover_started_ms: None, preview_block_until_ms: None, resize_active: false }
}

fn winit_state() -> WinitLoopState {
    WinitLoopState { exit_requested: false, last_maintenance_ms: 0, workspace_width: 800, workspace_height: 600 }
}

fn tty_state() -> TtyLoopState {
    TtyLoopState {
        exit_requested: false,
        last_maintenance_ms: 0,
        input_started_ms: 0,
        vblank_mismatch_warned: false,
        keyboard_seen: false,
        pointer_seen: false,
        keyboard_missing_warned: false,
        pointer_missing_warned: false,
    }
}

#[test]
fn hover_becomes_a_preview_after_the_dwell_time() {
    let mut p = pointer();
    p.hover_node = Some(4);
    p.hover_started_ms = Some(1000);
    assert_eq!(redraw_hover_targets(p, 2000), (Some(4), None));
    assert_eq!(redraw_hover_targets(p, 2500), (None, Some(4)));
    p.preview_block_until_ms = Some(3000);
    assert_eq!(redraw_hover_targets(p, 2999), (None, None));
}

#[test]
fn nested_loop_stops_after_a_close_request() {
    let mut st = winit_state();
    assert_eq!(run_winit(&mut st, WinitEvent::Dispatched), vec![LoopAction::DispatchClients]);
    assert_eq!(run_winit(&mut st, WinitEvent::CloseRequested), vec![LoopAction::RequestExit]);
    assert!(st.exit_requested);
    assert_eq!(run_winit(&mut st, WinitEvent::Dispatched), vec![LoopAction::Stop]);
    assert_eq!(run_winit(&mut st, WinitEvent::Input), vec![LoopAction::ForwardInput]);
    assert!(st.exit_requested);
}

#[test]
fn nested_loop_resize_rescales_the_pointer() {
    let mut st = winit_state();
    let actions = run_winit(&mut st, WinitEvent::Resized { width: 0, height: 300, now_ms: 0, pointer: pointer() });
    assert_eq!(
        actions,
        vec![
            LoopAction::SetZoomRefSize { width: 1, height: 300 },
            LoopAction::AdvertiseOutput { width: 1, height: 300 },
            LoopAction::RescalePointer { old_width: 800, old_height: 600, new_width: 1, new_height: 300 },
            LoopAction::SetWorkspaceSize { width: 1, height: 300 },
            LoopAction::Draw { hover_node: None, preview_hover_node: None },
        ]
    );
    assert_eq!((st.workspace_width, st.workspace_height), (1, 300));
}

#[test]
fn nested_loop_focus_changes() {
    let mut st = winit_state();
    assert_eq!(
        run_winit(&mut st, WinitEvent::FocusLost { resize_active: false }),
        vec![LoopAction::ResetModifiers, LoopAction::CancelPointerGestures, LoopAction::SetAppFocused(false)]
    );
    assert_eq!(
        run_winit(&mut st, WinitEvent::FocusGained { last_input_node: Some(3) }),
        vec![LoopAction::SetAppFocused(true), LoopAction::RestoreInteractionFocus { node: 3, hold_ms: 30000 }]
    );
}

#[test]
fn nested_timer_runs_ipc_then_maintenance() {
    let mut st = winit_state();
    let actions = run_winit(
        &mut st,
        WinitEvent::Timer {
            now_ms: 100,
            ipc: vec![RuntimeIpcCommand::Docking(DockingCommand::Begin), RuntimeIpcCommand::Quit],
            xwayland_requests: 1,
            resize_active: false,
            tick_ms: 50,
            config_changes: 0,
            debug_tick_dump: false,
            resize_trace: None,
        },
    );
    assert_eq!(actions[0], LoopAction::SetDockingActive(true));
    assert_eq!(actions[1], LoopAction::RequestExit);
    assert!(actions.contains(&LoopAction::TickMaintenance));
    assert!(actions.contains(&LoopAction::XwaylandRequestStart));
    assert_eq!(actions.last(), Some(&LoopAction::RequestRedraw));
    assert!(st.exit_requested);
    assert_eq!(st.last_maintenance_ms, 100);
}

#[test]
fn direct_loop_warns_about_vblank_mismatch_once() {
    let mut st = tty_state();
    assert_eq!(
        run_tty(&mut st, TtyEvent::VBlank { crtc: 2, expected_crtc: 1 }),
        vec![LoopAction::WarnVblankMismatch, LoopAction::MarkFrameSubmitted]
    );
    assert_eq!(run_tty(&mut st, TtyEvent::VBlank { crtc: 2, expected_crtc: 1 }), vec![LoopAction::MarkFrameSubmitted]);
    assert_eq!(
        run_tty(&mut st, TtyEvent::VBlank { crtc: 1, expected_crtc: 1 }),
        vec![LoopAction::LogVblankRecovered, LoopAction::MarkFrameSubmitted]
    );
    assert_eq!(run_tty(&mut st, TtyEvent::VBlank { crtc: 1, expected_crtc: 1 }), vec![LoopAction::MarkFrameSubmitted]);
}

#[test]
fn direct_loop_logs_first_input_and_warns_about_missing_devices() {
    let mut st = tty_state();
    assert_eq!(run_tty(&mut st, TtyEvent::KeyboardInput), vec![LoopAction::LogFirstKeyboardEvent, LoopAction::ForwardInput]);
    assert_eq!(run_tty(&mut st, TtyEvent::KeyboardInput), vec![LoopAction::ForwardInput]);
    let timer = |now_ms| TtyEvent::Timer {
        now_ms,
        ipc: vec![],
        xwayland_requests: 0,
        resize_active: true,
        tick_ms: 10,
        config_changes: 0,
    };
    let early = run_tty(&mut st, timer(4999));
    assert!(!early.contains(&LoopAction::WarnPointerMissing));
    let late = run_tty(&mut st, timer(5000));
    assert!(late.contains(&LoopAction::WarnPointerMissing));
    assert!(!late.contains(&LoopAction::WarnKeyboardMissing));
    assert!(!late.contains(&LoopAction::TickMaintenance));
    let again = run_tty(&mut st, timer(9000));
    assert!(!again.contains(&LoopAction::WarnPointerMissing));
}

#[test]
fn direct_loop_reload_runs_autostart() {
    let mut st = tty_state();
    let actions = run_tty(
        &mut st,
        TtyEvent::Timer { now_ms: 0, ipc: vec![RuntimeIpcCommand::Reload], xwayland_requests: 0, resize_active: false, tick_ms: 10, config_changes: 0 },
    );
    assert_eq!(actions[0], LoopAction::Reload(ReloadSource::Ipc));
    assert_eq!(actions[1], LoopAction::RunReloadAutostart);
    assert_eq!(run_tty(&mut st, TtyEvent::Dispatched), vec![LoopAction::DispatchClients]);
}

#[test]
fn ipc_requests_and_responses() {
    assert_eq!(request_command(Request::Outputs), None);
    assert_eq!(request_command(Request::NodeMove(NodeMoveDirection::Up)), Some(RuntimeIpcCommand::NodeMove(NodeMoveDirection::Up)));
    let r: Response<u8> = handle_request(Request::Reload, Ok(()), Ok(vec![]));
    assert_eq!(r, Response::Reloaded);
    let r: Response<u8> = handle_request(Request::Quit, Err("gone".into()), Ok(vec![]));
    assert_eq!(r, Response::Error(IpcError::Internal("gone".into())));
    let r: Response<u8> = handle_request(Request::Outputs, Ok(()), Ok(vec![1, 2]));
    assert_eq!(r, Response::Outputs(vec![1, 2]));
    let r: Response<u8> = response_for_invalid_request("bad".into());
    assert_eq!(r, Response::Error(IpcError::InvalidRequest("bad".into())));
}

#[test]
fn reload_mode_plans() {
    assert_eq!(tty_mode_switch_outcome(false), ReloadModePlan::KeepLastGoodViewport);
    assert_eq!(tty_reload_mode_plan(ReloadModeQuery::NotRequested), ReloadModePlan::KeepLastGoodViewport);
    assert_eq!(tty_reload_mode_plan(ReloadModeQuery::Failed), ReloadModePlan::KeepLastGoodViewport);
    assert_eq!(tty_reload_mode_plan(ReloadModeQuery::Found { changed: true }), ReloadModePlan::SwitchMode);
    assert_eq!(tty_reload_mode_plan(ReloadModeQuery::Found { changed: false }), ReloadModePlan::Apply);
}
