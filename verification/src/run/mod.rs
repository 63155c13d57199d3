pub mod common;
pub mod drm;
pub mod logging;
pub mod viewports;
pub mod ipc;

use vstd::prelude::*;

use crate::run::ipc::{DockingCommand, NodeMoveDirection, RuntimeIpcCommand};

verus! {

// ---------------------------------------------------------------------------
// The compositor main loops: decisions taken on each event
// ---------------------------------------------------------------------------

/// How long the pointer must rest on a node before its window preview shows.
pub const HOVER_PREVIEW_DWELL_MS: u64 = 1500;

/// How long after the first input frame the loop waits before warning that a
/// device class never produced events.
pub const INPUT_MISSING_WARN_MS: u64 = 5000;

/// How often a running resize trace is logged.
pub const RESIZE_TRACE_INTERVAL_MS: u64 = 120;

/// How long an interaction focus restored on focus-in is held.
pub const FOCUS_RESTORE_HOLD_MS: u64 = 30000;

/// What the pointer state holds that a redraw depends on.
#[derive(Clone, Copy, Debug, PartialEq, Eq, Structural)]
pub struct PointerSnapshot {
    pub hover_node: Option<u64>,
    pub hover_started_ms: Option<u64>,
    pub preview_block_until_ms: Option<u64>,
    pub resize_active: bool,
}

/// A resize trace that the input code armed: log the node's geometry every
/// few frames until `until_ms`.
#[derive(Clone, Copy, Debug, PartialEq, Eq, Structural)]
pub struct ResizeTrace {
    pub node: u64,
    pub until_ms: u64,
    pub last_at_ms: Option<u64>,
}

/// Where a configuration reload came from.
#[derive(Clone, Copy, Debug, PartialEq, Eq, Structural)]
pub enum ReloadSource {
    Ipc,
    ConfigFile,
}

/// What the event loop tells the outside world to do, in order.
#[derive(Clone, Copy, Debug, PartialEq, Eq, Structural)]
pub enum LoopAction {
    /// Draw a frame; on success send the frame callbacks.
    Draw { hover_node: Option<u64>, preview_hover_node: Option<u64> },
    /// Record the output size as the zoom reference size.
    SetZoomRefSize { width: i32, height: i32 },
    /// Advertise the primary output with this mode.
    AdvertiseOutput { width: i32, height: i32 },
    /// Scale the pointer position from the old workspace size to the new one.
    RescalePointer { old_width: i32, old_height: i32, new_width: i32, new_height: i32 },
    /// Record the pointer workspace size.
    SetWorkspaceSize { width: i32, height: i32 },
    /// Forget held modifiers.
    ResetModifiers,
    /// Drop a drag, move animations and panning.
    CancelPointerGestures,
    SetAppFocused(bool),
    /// Give the interaction focus back to the node that last had input.
    RestoreInteractionFocus { node: u64, hold_ms: u64 },
    RequestExit,
    /// Hand an input event to the input code.
    ForwardInput,
    /// Load the configuration file again and apply it.
    Reload(ReloadSource),
    SetDockingActive(bool),
    MoveLatestNode(NodeMoveDirection),
    /// Publish the current outputs over IPC.
    PublishOutputs,
    XwaylandRequestStart,
    XwaylandTick,
    TickFrameEffects,
    TickAnimator,
    AdvanceNodeMoveAnimation,
    TickLiveOverlap,
    TickMaintenance,
    /// Log that the configuration was reloaded.
    LogReloaded,
    /// Run the autostart commands of the reload phase.
    RunReloadAutostart,
    DumpSurfaceActivity,
    ClearResizeTrace,
    LogResizeTrace { node: u64 },
    ApplyHostCursor,
    RequestRedraw,
    /// Queue a frame on the scanout surface; on success send frame callbacks.
    QueueScanoutFrame,
    /// Mark the frame on the scanout surface submitted.
    MarkFrameSubmitted,
    WarnVblankMismatch,
    LogVblankRecovered,
    LogFirstKeyboardEvent,
    LogFirstPointerEvent,
    WarnKeyboardMissing,
    WarnPointerMissing,
    /// Log a DRM event error.
    WarnDrmError,
    /// Suspend the input context (the session was paused).
    SuspendInput,
    /// Resume the input context (the session was activated).
    ResumeInput,
    /// Dispatch pending client requests and flush the clients.
    DispatchClients,
    /// Leave the main loop without error.
    Stop,
}

/// Which nodes a redraw hands to the renderer: the hovered node, unless the
/// hover is blocked; it becomes a preview once the pointer has rested on it
/// for the dwell time.
pub open spec fn hover_targets(p: PointerSnapshot, now_ms: u64) -> (Option<u64>, Option<u64>) {
    let blocked = match p.preview_block_until_ms {
        Some(t) => now_ms < t,
        None => false,
    };
    let hovered = if blocked {
        None
    } else {
        p.hover_node
    };
    let ready = hovered is Some && match p.hover_started_ms {
        Some(at) => now_ms >= at && now_ms - at >= HOVER_PREVIEW_DWELL_MS,
        None => false,
    };
    if ready {
        (None, hovered)
    } else {
        (hovered, None)
    }
}

/// `Instant::duration_since` in whole milliseconds; zero when `earlier` is
/// later than `now`.
pub open spec fn elapsed_ms(now: u64, earlier: u64) -> u64 {
    if now >= earlier {
        (now - earlier) as u64
    } else {
        0
    }
}

pub fn elapsed_between(now: u64, earlier: u64) -> (r: u64)
    ensures
        r == elapsed_ms(now, earlier),
{
    if now >= earlier {
        now - earlier
    } else {
        0
    }
}

pub fn redraw_hover_targets(p: PointerSnapshot, now_ms: u64) -> (r: (Option<u64>, Option<u64>))
    ensures
        r == hover_targets(p, now_ms),
        r.0 is None || r.1 is None,
{
    let blocked: bool = match p.preview_block_until_ms {
        Some(t) => now_ms < t,
        None => false,
    };
    let hovered: Option<u64> = if blocked {
        None
    } else {
        p.hover_node
    };
    let ready: bool = hovered.is_some() && match p.hover_started_ms {
        Some(at) => now_ms >= at && now_ms - at >= HOVER_PREVIEW_DWELL_MS,
        None => false,
    };
    if ready {
        (None, hovered)
    } else {
        (hovered, None)
    }
}

/// The loop actions for IPC commands, in arrival order.
pub open spec fn ipc_action(cmd: RuntimeIpcCommand) -> LoopAction {
    match cmd {
        RuntimeIpcCommand::Quit => LoopAction::RequestExit,
        RuntimeIpcCommand::Reload => LoopAction::Reload(ReloadSource::Ipc),
        RuntimeIpcCommand::Docking(c) => LoopAction::SetDockingActive(c == DockingCommand::Begin),
        RuntimeIpcCommand::NodeMove(d) => LoopAction::MoveLatestNode(d),
    }
}

pub open spec fn ipc_actions(cmds: Seq<RuntimeIpcCommand>) -> Seq<LoopAction> {
    cmds.map_values(|c: RuntimeIpcCommand| ipc_action(c))
}

/// `n` copies of `a`.
pub open spec fn repeat(a: LoopAction, n: nat) -> Seq<LoopAction> {
    Seq::new(n, |_i: int| a)
}

fn push_ipc_actions(actions: &mut Vec<LoopAction>, cmds: &Vec<RuntimeIpcCommand>)
    ensures
        final(actions)@ == old(actions)@ + ipc_actions(cmds@),
{
    let ghost start = actions@;
    let mut i: usize = 0;
    while i < cmds.len()
        invariant
            i <= cmds.len(),
            actions@ == start + ipc_actions(cmds@.take(i as int)),
        decreases cmds.len() - i,
    {
        let a: LoopAction = match cmds[i] {
            RuntimeIpcCommand::Quit => LoopAction::RequestExit,
            RuntimeIpcCommand::Reload => LoopAction::Reload(ReloadSource::Ipc),
            RuntimeIpcCommand::Docking(c) => LoopAction::SetDockingActive(
                match c {
                    DockingCommand::Begin => true,
                    DockingCommand::End => false,
                },
            ),
            RuntimeIpcCommand::NodeMove(d) => LoopAction::MoveLatestNode(d),
        };
        actions.push(a);
        assert(ipc_actions(cmds@.take(i + 1)) =~= ipc_actions(cmds@.take(i as int)).push(a));
        i = i + 1;
    }
    assert(cmds@.take(cmds.len() as int) =~= cmds@);
}

fn push_repeat(actions: &mut Vec<LoopAction>, a: LoopAction, n: usize)
    ensures
        final(actions)@ == old(actions)@ + repeat(a, n as nat),
{
    let ghost start = actions@;
    let mut i: usize = 0;
    while i < n
        invariant
            i <= n,
            actions@ == start + repeat(a, i as nat),
        decreases n - i,
    {
        actions.push(a);
        assert(repeat(a, (i + 1) as nat) =~= repeat(a, i as nat).push(a));
        i = i + 1;
    }
}

/// Whether the ticks of the IPC commands request an exit.
pub open spec fn ipc_requests_exit(cmds: Seq<RuntimeIpcCommand>) -> bool {
    exists|i: int| 0 <= i < cmds.len() && cmds[i] == RuntimeIpcCommand::Quit
}

fn any_quit(cmds: &Vec<RuntimeIpcCommand>) -> (r: bool)
    ensures
        r == ipc_requests_exit(cmds@),
{
    let mut i: usize = 0;
    while i < cmds.len()
        invariant
            i <= cmds.len(),
            forall|j: int| 0 <= j < i ==> cmds@[j] != RuntimeIpcCommand::Quit,
        decreases cmds.len() - i,
    {
        if cmds[i] == RuntimeIpcCommand::Quit {
            return true;
        }
        i = i + 1;
    }
    false
}

/// Maintenance runs when no resize is in progress and at least `tick_ms`
/// passed since it last ran.
pub open spec fn maintenance_due(resize_active: bool, now_ms: u64, last_ms: u64, tick_ms: u64) -> bool {
    !resize_active && elapsed_ms(now_ms, last_ms) >= tick_ms
}

/// The resize-trace step of a timer tick: the trace ends at its deadline;
/// before that it is logged when it was never logged or was logged at least
/// the trace interval ago.
pub open spec fn resize_trace_actions(trace: Option<ResizeTrace>, now_ms: u64) -> Seq<LoopAction> {
    match trace {
        None => seq![],
        Some(t) => if now_ms >= t.until_ms {
            seq![LoopAction::ClearResizeTrace]
        } else if match t.last_at_ms {
            None => true,
            Some(at) => elapsed_ms(now_ms, at) >= RESIZE_TRACE_INTERVAL_MS,
        } {
            seq![LoopAction::LogResizeTrace { node: t.node }]
        } else {
            seq![]
        },
    }
}

fn push_resize_trace_actions(actions: &mut Vec<LoopAction>, trace: Option<ResizeTrace>, now_ms: u64)
    ensures
        final(actions)@ == old(actions)@ + resize_trace_actions(trace, now_ms),
{
    match trace {
        None => {
            assert(old(actions)@ + seq![] =~= old(actions)@);
        },
        Some(t) => {
            if now_ms >= t.until_ms {
                actions.push(LoopAction::ClearResizeTrace);
            } else {
                let due: bool = match t.last_at_ms {
                    None => true,
                    Some(at) => elapsed_between(now_ms, at) >= RESIZE_TRACE_INTERVAL_MS,
                };
                if due {
                    actions.push(LoopAction::LogResizeTrace { node: t.node });
                } else {
                    assert(old(actions)@ + seq![] =~= old(actions)@);
                }
            }
        },
    }
}

// --------------------------- nested (windowed) backend ---------------------

/// What the nested (windowed) main loop keeps between events.
#[derive(Clone, Copy, Debug, PartialEq, Eq, Structural)]
pub struct WinitLoopState {
    pub exit_requested: bool,
    pub last_maintenance_ms: u64,
    pub workspace_width: i32,
    pub workspace_height: i32,
}

/// Events of the nested main loop.
#[derive(Clone, Debug, PartialEq, Eq)]
pub enum WinitEvent {
    Redraw { now_ms: u64, pointer: PointerSnapshot },
    Resized { width: i32, height: i32, now_ms: u64, pointer: PointerSnapshot },
    FocusLost { resize_active: bool },
    FocusGained { last_input_node: Option<u64> },
    CloseRequested,
    /// A keyboard or pointer event.
    Input,
    /// Any other window event.
    Other,
    /// The frame timer fired; `ipc` holds the drained IPC commands,
    /// `xwayland_requests` the start requests received, `config_changes` the
    /// change notifications of the configuration file.
    Timer {
        now_ms: u64,
        ipc: Vec<RuntimeIpcCommand>,
        xwayland_requests: usize,
        resize_active: bool,
        tick_ms: u64,
        config_changes: usize,
        debug_tick_dump: bool,
        resize_trace: Option<ResizeTrace>,
    },
    /// One round of event dispatch returned.
    Dispatched,
}

/// The actions of one tick of the nested loop's frame timer.
pub open spec fn winit_timer_actions(
    last_ms: u64,
    now_ms: u64,
    ipc: Seq<RuntimeIpcCommand>,
    xwayland_requests: nat,
    resize_active: bool,
    tick_ms: u64,
    config_changes: nat,
    debug_tick_dump: bool,
    resize_trace: Option<ResizeTrace>,
) -> Seq<LoopAction> {
    ipc_actions(ipc) + seq![LoopAction::PublishOutputs] + repeat(
        LoopAction::XwaylandRequestStart,
        xwayland_requests,
    ) + seq![
        LoopAction::XwaylandTick,
        LoopAction::TickFrameEffects,
        LoopAction::TickAnimator,
        LoopAction::AdvanceNodeMoveAnimation,
    ] + (if maintenance_due(resize_active, now_ms, last_ms, tick_ms) {
        seq![LoopAction::TickMaintenance]
    } else {
        seq![]
    }) + repeat(LoopAction::Reload(ReloadSource::ConfigFile), config_changes) + (if config_changes
        > 0 {
        seq![LoopAction::LogReloaded]
    } else {
        seq![]
    }) + (if debug_tick_dump {
        seq![LoopAction::DumpSurfaceActivity]
    } else {
        seq![]
    }) + resize_trace_actions(resize_trace, now_ms) + seq![
        LoopAction::ApplyHostCursor,
        LoopAction::RequestRedraw,
    ]
}

/// The actions of a redraw (also the tail of a resize).
pub open spec fn redraw_actions(p: PointerSnapshot, now_ms: u64) -> Seq<LoopAction> {
    seq![
        LoopAction::Draw {
            hover_node: hover_targets(p, now_ms).0,
            preview_hover_node: hover_targets(p, now_ms).1,
        },
    ]
}

/// The actions of a resize of the nested window to `width` x `height`.
pub open spec fn winit_resize_actions(
    old_w: i32,
    old_h: i32,
    width: i32,
    height: i32,
    p: PointerSnapshot,
    now_ms: u64,
) -> Seq<LoopAction> {
    let w = if width < 1 {
        1i32
    } else {
        width
    };
    let h = if height < 1 {
        1i32
    } else {
        height
    };
    seq![
        LoopAction::SetZoomRefSize { width: w, height: h },
        LoopAction::AdvertiseOutput { width: w, height: h },
    ] + (if old_w > 0 && old_h > 0 {
        seq![
            LoopAction::RescalePointer {
                old_width: old_w,
                old_height: old_h,
                new_width: w,
                new_height: h,
            },
        ]
    } else {
        seq![]
    }) + seq![LoopAction::SetWorkspaceSize { width: w, height: h }] + redraw_actions(p, now_ms)
}

/// Whether the nested loop wants to exit after `event`: a close request or
/// an IPC quit asks for it, and nothing takes it back.
pub open spec fn winit_exit_after(exit_requested: bool, event: WinitEvent) -> bool {
    exit_requested || match event {
        WinitEvent::CloseRequested => true,
        WinitEvent::Timer { ipc, .. } => ipc_requests_exit(ipc@),
        _ => false,
    }
}

/// One step of the nested (windowed) compositor main loop: what to do on
/// `event`, and how the loop state moves on.
pub fn run_winit(state: &mut WinitLoopState, event: WinitEvent) -> (actions: Vec<LoopAction>)
    ensures
        final(state).exit_requested == winit_exit_after(old(state).exit_requested, event),
        match event {
            WinitEvent::Redraw { now_ms, pointer } => {
                &&& actions@ == redraw_actions(pointer, now_ms)
                &&& *final(state) == *old(state)
            },
            WinitEvent::Resized { width, height, now_ms, pointer } => {
                &&& actions@ == winit_resize_actions(
                    old(state).workspace_width,
                    old(state).workspace_height,
                    width,
                    height,
                    pointer,
                    now_ms,
                )
                &&& final(state).workspace_width == (if width < 1 {
                    1
                } else {
                    width
                })
                &&& final(state).workspace_height == (if height < 1 {
                    1
                } else {
                    height
                })
                &&& final(state).last_maintenance_ms == old(state).last_maintenance_ms
            },
            WinitEvent::FocusLost { resize_active } => {
                &&& actions@ == seq![LoopAction::ResetModifiers] + (if resize_active {
                    seq![]
                } else {
                    seq![LoopAction::CancelPointerGestures]
                }) + seq![LoopAction::SetAppFocused(false)]
                &&& *final(state) == *old(state)
            },
            WinitEvent::FocusGained { last_input_node } => {
                &&& actions@ == seq![LoopAction::SetAppFocused(true)] + match last_input_node {
                    Some(n) => seq![
                        LoopAction::RestoreInteractionFocus { node: n, hold_ms: FOCUS_RESTORE_HOLD_MS },
                    ],
                    None => seq![],
                }
                &&& *final(state) == *old(state)
            },
            WinitEvent::CloseRequested => {
                &&& actions@ == seq![LoopAction::RequestExit]
                &&& final(state).last_maintenance_ms == old(state).last_maintenance_ms
                &&& final(state).workspace_width == old(state).workspace_width
                &&& final(state).workspace_height == old(state).workspace_height
            },
            WinitEvent::Input => {
                &&& actions@ == seq![LoopAction::ForwardInput]
                &&& *final(state) == *old(state)
            },
            WinitEvent::Other => {
                &&& actions@ == Seq::<LoopAction>::empty()
                &&& *final(state) == *old(state)
            },
            WinitEvent::Timer {
                now_ms,
                ipc,
                xwayland_requests,
                resize_active,
                tick_ms,
                config_changes,
                debug_tick_dump,
                resize_trace,
            } => {
                &&& actions@ == winit_timer_actions(
                    old(state).last_maintenance_ms,
                    now_ms,
                    ipc@,
                    xwayland_requests as nat,
                    resize_active,
                    tick_ms,
                    config_changes as nat,
                    debug_tick_dump,
                    resize_trace,
                )
                &&& final(state).last_maintenance_ms == (if maintenance_due(
                    resize_active,
                    now_ms,
                    old(state).last_maintenance_ms,
                    tick_ms,
                ) {
                    now_ms
                } else {
                    old(state).last_maintenance_ms
                })
                &&& final(state).workspace_width == old(state).workspace_width
                &&& final(state).workspace_height == old(state).workspace_height
            },
            WinitEvent::Dispatched => {
                &&& actions@ == (if old(state).exit_requested {
                    seq![LoopAction::Stop]
                } else {
                    seq![LoopAction::DispatchClients]
                })
                &&& *final(state) == *old(state)
            },
        },
{
    match event {
        WinitEvent::Redraw { now_ms, pointer } => redraw(pointer, now_ms),
        WinitEvent::Resized { width, height, now_ms, pointer } => winit_resized(
            state,
            width,
            height,
            now_ms,
            pointer,
        ),
        WinitEvent::FocusLost { resize_active } => focus_lost(resize_active),
        WinitEvent::FocusGained { last_input_node } => focus_gained(last_input_node),
        WinitEvent::CloseRequested => {
            state.exit_requested = true;
            let mut actions: Vec<LoopAction> = Vec::new();
            actions.push(LoopAction::RequestExit);
            actions
        },
        WinitEvent::Input => {
            let mut actions: Vec<LoopAction> = Vec::new();
            actions.push(LoopAction::ForwardInput);
            actions
        },
        WinitEvent::Other => Vec::new(),
        WinitEvent::Timer {
            now_ms,
            ipc,
            xwayland_requests,
            resize_active,
            tick_ms,
            config_changes,
            debug_tick_dump,
            resize_trace,
        } => winit_timer(
            state,
            now_ms,
            &ipc,
            xwayland_requests,
            resize_active,
            tick_ms,
            config_changes,
            debug_tick_dump,
            resize_trace,
        ),
        WinitEvent::Dispatched => after_dispatch(state.exit_requested),
    }
}

fn redraw(pointer: PointerSnapshot, now_ms: u64) -> (actions: Vec<LoopAction>)
    ensures
        actions@ == redraw_actions(pointer, now_ms),
{
    let mut actions: Vec<LoopAction> = Vec::new();
    let (hover_node, preview_hover_node) = redraw_hover_targets(pointer, now_ms);
    actions.push(LoopAction::Draw { hover_node, preview_hover_node });
    assert(actions@ =~= redraw_actions(pointer, now_ms));
    actions
}

fn after_dispatch(exit_requested: bool) -> (actions: Vec<LoopAction>)
    ensures
        actions@ == (if exit_requested {
            seq![LoopAction::Stop]
        } else {
            seq![LoopAction::DispatchClients]
        }),
{
    let mut actions: Vec<LoopAction> = Vec::new();
    if exit_requested {
        actions.push(LoopAction::Stop);
    } else {
        actions.push(LoopAction::DispatchClients);
    }
    assert(actions@ =~= (if exit_requested {
        seq![LoopAction::Stop]
    } else {
        seq![LoopAction::DispatchClients]
    }));
    actions
}

fn focus_lost(resize_active: bool) -> (actions: Vec<LoopAction>)
    ensures
        actions@ == seq![LoopAction::ResetModifiers] + (if resize_active {
            seq![]
        } else {
            seq![LoopAction::CancelPointerGestures]
        }) + seq![LoopAction::SetAppFocused(false)],
{
    let mut actions: Vec<LoopAction> = Vec::new();
    actions.push(LoopAction::ResetModifiers);
    if !resize_active {
        actions.push(LoopAction::CancelPointerGestures);
    }
    actions.push(LoopAction::SetAppFocused(false));
    assert(actions@ =~= seq![LoopAction::ResetModifiers] + (if resize_active {
        seq![]
    } else {
        seq![LoopAction::CancelPointerGestures]
    }) + seq![LoopAction::SetAppFocused(false)]);
    actions
}

fn focus_gained(last_input_node: Option<u64>) -> (actions: Vec<LoopAction>)
    ensures
        actions@ == seq![LoopAction::SetAppFocused(true)] + match last_input_node {
            Some(n) => seq![
                LoopAction::RestoreInteractionFocus { node: n, hold_ms: FOCUS_RESTORE_HOLD_MS },
            ],
            None => seq![],
        },
{
    let mut actions: Vec<LoopAction> = Vec::new();
    actions.push(LoopAction::SetAppFocused(true));
    match last_input_node {
        Some(n) => {
            actions.push(
                LoopAction::RestoreInteractionFocus { node: n, hold_ms: FOCUS_RESTORE_HOLD_MS },
            );
        },
        None => {},
    }
    assert(actions@ =~= seq![LoopAction::SetAppFocused(true)] + match last_input_node {
        Some(n) => seq![
            LoopAction::RestoreInteractionFocus { node: n, hold_ms: FOCUS_RESTORE_HOLD_MS },
        ],
        None => seq![],
    });
    actions
}

fn winit_resized(
    state: &mut WinitLoopState,
    width: i32,
    height: i32,
    now_ms: u64,
    pointer: PointerSnapshot,
) -> (actions: Vec<LoopAction>)
    ensures
        actions@ == winit_resize_actions(
            old(state).workspace_width,
            old(state).workspace_height,
            width,
            height,
            pointer,
            now_ms,
        ),
        final(state).workspace_width == (if width < 1 {
            1
        } else {
            width
        }),
        final(state).workspace_height == (if height < 1 {
            1
        } else {
            height
        }),
        final(state).last_maintenance_ms == old(state).last_maintenance_ms,
        final(state).exit_requested == old(state).exit_requested,
{
    let mut actions: Vec<LoopAction> = Vec::new();
    let w: i32 = if width < 1 {
        1
    } else {
        width
    };
    let h: i32 = if height < 1 {
        1
    } else {
        height
    };
    actions.push(LoopAction::SetZoomRefSize { width: w, height: h });
    actions.push(LoopAction::AdvertiseOutput { width: w, height: h });
    if state.workspace_width > 0 && state.workspace_height > 0 {
        actions.push(
            LoopAction::RescalePointer {
                old_width: state.workspace_width,
                old_height: state.workspace_height,
                new_width: w,
                new_height: h,
            },
        );
    }
    actions.push(LoopAction::SetWorkspaceSize { width: w, height: h });
    state.workspace_width = w;
    state.workspace_height = h;
    let tail: Vec<LoopAction> = redraw(pointer, now_ms);
    let ghost head = actions@;
    let mut i: usize = 0;
    while i < tail.len()
        invariant
            i <= tail.len(),
            actions@ == head + tail@.take(i as int),
        decreases tail.len() - i,
    {
        actions.push(tail[i]);
        assert(head + tail@.take(i + 1) =~= (head + tail@.take(i as int)).push(tail@[i as int]));
        i = i + 1;
    }
    assert(tail@.take(tail.len() as int) =~= tail@);
    assert(actions@ =~= winit_resize_actions(
        old(state).workspace_width,
        old(state).workspace_height,
        width,
        height,
        pointer,
        now_ms,
    ));
    actions
}

#[verifier::rlimit(30)]
fn winit_timer(
    state: &mut WinitLoopState,
    now_ms: u64,
    ipc: &Vec<RuntimeIpcCommand>,
    xwayland_requests: usize,
    resize_active: bool,
    tick_ms: u64,
    config_changes: usize,
    debug_tick_dump: bool,
    resize_trace: Option<ResizeTrace>,
) -> (actions: Vec<LoopAction>)
    ensures
        actions@ == winit_timer_actions(
            old(state).last_maintenance_ms,
            now_ms,
            ipc@,
            xwayland_requests as nat,
            resize_active,
            tick_ms,
            config_changes as nat,
            debug_tick_dump,
            resize_trace,
        ),
        final(state).last_maintenance_ms == (if maintenance_due(
            resize_active,
            now_ms,
            old(state).last_maintenance_ms,
            tick_ms,
        ) {
            now_ms
        } else {
            old(state).last_maintenance_ms
        }),
        final(state).workspace_width == old(state).workspace_width,
        final(state).workspace_height == old(state).workspace_height,
        final(state).exit_requested == (old(state).exit_requested || ipc_requests_exit(ipc@)),
{
    let mut actions: Vec<LoopAction> = Vec::new();
    push_ipc_actions(&mut actions, ipc);
    if any_quit(ipc) {
        state.exit_requested = true;
    }
    let ghost a0 = actions@;
    actions.push(LoopAction::PublishOutputs);
    push_repeat(&mut actions, LoopAction::XwaylandRequestStart, xwayland_requests);
    actions.push(LoopAction::XwaylandTick);
    actions.push(LoopAction::TickFrameEffects);
    actions.push(LoopAction::TickAnimator);
    actions.push(LoopAction::AdvanceNodeMoveAnimation);
    let ghost a1 = actions@;
    let due: bool = !resize_active && elapsed_between(now_ms, state.last_maintenance_ms) >= tick_ms;
    if due {
        actions.push(LoopAction::TickMaintenance);
        state.last_maintenance_ms = now_ms;
    }
    let ghost a2 = actions@;
    push_repeat(&mut actions, LoopAction::Reload(ReloadSource::ConfigFile), config_changes);
    if config_changes > 0 {
        actions.push(LoopAction::LogReloaded);
    }
    let ghost a3 = actions@;
    if debug_tick_dump {
        actions.push(LoopAction::DumpSurfaceActivity);
    }
    let ghost a4 = actions@;
    push_resize_trace_actions(&mut actions, resize_trace, now_ms);
    let ghost a5 = actions@;
    actions.push(LoopAction::ApplyHostCursor);
    actions.push(LoopAction::RequestRedraw);
    proof {
        let m = if maintenance_due(resize_active, now_ms, old(state).last_maintenance_ms, tick_ms) {
            seq![LoopAction::TickMaintenance]
        } else {
            seq![]
        };
        let r = repeat(LoopAction::Reload(ReloadSource::ConfigFile), config_changes as nat) + (
        if config_changes > 0 {
            seq![LoopAction::LogReloaded]
        } else {
            seq![]
        });
        let d = if debug_tick_dump {
            seq![LoopAction::DumpSurfaceActivity]
        } else {
            seq![]
        };
        assert(a1 =~= ipc_actions(ipc@) + seq![LoopAction::PublishOutputs] + repeat(
            LoopAction::XwaylandRequestStart,
            xwayland_requests as nat,
        ) + seq![
            LoopAction::XwaylandTick,
            LoopAction::TickFrameEffects,
            LoopAction::TickAnimator,
            LoopAction::AdvanceNodeMoveAnimation,
        ]);
        assert(a2 =~= a1 + m);
        assert(a3 =~= a2 + r);
        assert(a4 =~= a3 + d);
        assert(a5 =~= a4 + resize_trace_actions(resize_trace, now_ms));
        assert(actions@ =~= a5 + seq![LoopAction::ApplyHostCursor, LoopAction::RequestRedraw]);
    }
    actions
}


// --------------------------- direct (tty) backend ---------------------------

/// What the direct (tty) main loop keeps between events.
#[derive(Clone, Copy, Debug, PartialEq, Eq, Structural)]
pub struct TtyLoopState {
    pub exit_requested: bool,
    pub last_maintenance_ms: u64,
    /// When the input source was installed.
    pub input_started_ms: u64,
    pub vblank_mismatch_warned: bool,
    pub keyboard_seen: bool,
    pub pointer_seen: bool,
    pub keyboard_missing_warned: bool,
    pub pointer_missing_warned: bool,
}

/// Events of the direct main loop.
#[derive(Clone, Debug, PartialEq, Eq)]
pub enum TtyEvent {
    /// A vertical blank on `crtc`; `expected_crtc` is the scanout surface's.
    VBlank { crtc: u64, expected_crtc: u64 },
    DrmError,
    SessionPaused,
    SessionActivated,
    KeyboardInput,
    PointerInput,
    /// Any other input event.
    OtherInput,
    /// The frame timer fired.
    Timer {
        now_ms: u64,
        ipc: Vec<RuntimeIpcCommand>,
        xwayland_requests: usize,
        resize_active: bool,
        tick_ms: u64,
        config_changes: usize,
    },
    Dispatched,
}

/// The actions of IPC commands in the direct loop: a reload there is
/// followed by the reload-phase autostart commands.
pub open spec fn tty_ipc_actions(cmds: Seq<RuntimeIpcCommand>) -> Seq<LoopAction>
    decreases cmds.len(),
{
    if cmds.len() == 0 {
        seq![]
    } else {
        tty_ipc_actions(cmds.drop_last()) + (if cmds.last() == RuntimeIpcCommand::Reload {
            seq![LoopAction::Reload(ReloadSource::Ipc), LoopAction::RunReloadAutostart]
        } else {
            seq![ipc_action(cmds.last())]
        })
    }
}

fn push_tty_ipc_actions(actions: &mut Vec<LoopAction>, cmds: &Vec<RuntimeIpcCommand>)
    ensures
        final(actions)@ == old(actions)@ + tty_ipc_actions(cmds@),
{
    let ghost start = actions@;
    let mut i: usize = 0;
    while i < cmds.len()
        invariant
            i <= cmds.len(),
            actions@ == start + tty_ipc_actions(cmds@.take(i as int)),
        decreases cmds.len() - i,
    {
        let ghost before = actions@;
        match cmds[i] {
            RuntimeIpcCommand::Quit => actions.push(LoopAction::RequestExit),
            RuntimeIpcCommand::Reload => {
                actions.push(LoopAction::Reload(ReloadSource::Ipc));
                actions.push(LoopAction::RunReloadAutostart);
            },
            RuntimeIpcCommand::Docking(c) => actions.push(
                LoopAction::SetDockingActive(
                    match c {
                        DockingCommand::Begin => true,
                        DockingCommand::End => false,
                    },
                ),
            ),
            RuntimeIpcCommand::NodeMove(d) => actions.push(LoopAction::MoveLatestNode(d)),
        }
        proof {
            assert(cmds@.take(i + 1).drop_last() =~= cmds@.take(i as int));
            assert(cmds@.take(i + 1).last() == cmds@[i as int]);
            let tail = if cmds@[i as int] == RuntimeIpcCommand::Reload {
                seq![LoopAction::Reload(ReloadSource::Ipc), LoopAction::RunReloadAutostart]
            } else {
                seq![ipc_action(cmds@[i as int])]
            };
            assert(actions@ =~= before + tail);
        }
        i = i + 1;
    }
    assert(cmds@.take(cmds.len() as int) =~= cmds@);
}

/// A warning that a device class never produced an event is due once, when
/// the input has run for the warning delay and nothing was seen.
pub open spec fn missing_warning_due(seen: bool, warned: bool, now_ms: u64, started_ms: u64) -> bool {
    !seen && !warned && elapsed_ms(now_ms, started_ms) >= INPUT_MISSING_WARN_MS
}

/// The actions of one tick of the direct loop's frame timer.
pub open spec fn tty_timer_actions(
    st: TtyLoopState,
    now_ms: u64,
    ipc: Seq<RuntimeIpcCommand>,
    xwayland_requests: nat,
    resize_active: bool,
    tick_ms: u64,
    config_changes: nat,
) -> Seq<LoopAction> {
    tty_ipc_actions(ipc) + repeat(LoopAction::XwaylandRequestStart, xwayland_requests) + seq![
        LoopAction::XwaylandTick,
        LoopAction::TickFrameEffects,
        LoopAction::TickAnimator,
        LoopAction::AdvanceNodeMoveAnimation,
        LoopAction::TickLiveOverlap,
    ] + (if maintenance_due(resize_active, now_ms, st.last_maintenance_ms, tick_ms) {
        seq![LoopAction::TickMaintenance]
    } else {
        seq![]
    }) + repeat(LoopAction::Reload(ReloadSource::ConfigFile), config_changes) + (if config_changes
        > 0 {
        seq![LoopAction::RunReloadAutostart, LoopAction::LogReloaded]
    } else {
        seq![]
    }) + seq![LoopAction::QueueScanoutFrame] + (if missing_warning_due(
        st.keyboard_seen,
        st.keyboard_missing_warned,
        now_ms,
        st.input_started_ms,
    ) {
        seq![LoopAction::WarnKeyboardMissing]
    } else {
        seq![]
    }) + (if missing_warning_due(
        st.pointer_seen,
        st.pointer_missing_warned,
        now_ms,
        st.input_started_ms,
    ) {
        seq![LoopAction::WarnPointerMissing]
    } else {
        seq![]
    })
}

/// The actions of a vertical blank: a crtc mismatch is warned about once
/// until the routing recovers; the frame is marked submitted either way.
pub open spec fn vblank_actions(warned: bool, crtc: u64, expected: u64) -> Seq<LoopAction> {
    (if crtc != expected {
        if !warned {
            seq![LoopAction::WarnVblankMismatch]
        } else {
            seq![]
        }
    } else if warned {
        seq![LoopAction::LogVblankRecovered]
    } else {
        seq![]
    }) + seq![LoopAction::MarkFrameSubmitted]
}

/// Whether the direct loop wants to exit after `event`: an IPC quit asks
/// for it, and nothing takes it back.
pub open spec fn tty_exit_after(exit_requested: bool, event: TtyEvent) -> bool {
    exit_requested || match event {
        TtyEvent::Timer { ipc, .. } => ipc_requests_exit(ipc@),
        _ => false,
    }
}

/// One step of the direct (tty) compositor main loop: what to do on
/// `event`, and how the loop state moves on.
pub fn run_tty(state: &mut TtyLoopState, event: TtyEvent) -> (actions: Vec<LoopAction>)
    ensures
        final(state).exit_requested == tty_exit_after(old(state).exit_requested, event),
        final(state).input_started_ms == old(state).input_started_ms,
        match event {
            TtyEvent::VBlank { crtc, expected_crtc } => {
                &&& actions@ == vblank_actions(old(state).vblank_mismatch_warned, crtc, expected_crtc)
                &&& *final(state) == (TtyLoopState {
                    vblank_mismatch_warned: crtc != expected_crtc,
                    ..*old(state)
                })
            },
            TtyEvent::DrmError => {
                &&& actions@ == seq![LoopAction::WarnDrmError]
                &&& *final(state) == *old(state)
            },
            TtyEvent::SessionPaused => {
                &&& actions@ == seq![LoopAction::SuspendInput]
                &&& *final(state) == *old(state)
            },
            TtyEvent::SessionActivated => {
                &&& actions@ == seq![LoopAction::ResumeInput]
                &&& *final(state) == *old(state)
            },
            TtyEvent::KeyboardInput => {
                &&& actions@ == (if old(state).keyboard_seen {
                    seq![]
                } else {
                    seq![LoopAction::LogFirstKeyboardEvent]
                }) + seq![LoopAction::ForwardInput]
                &&& *final(state) == (TtyLoopState { keyboard_seen: true, ..*old(state) })
            },
            TtyEvent::PointerInput => {
                &&& actions@ == (if old(state).pointer_seen {
                    seq![]
                } else {
                    seq![LoopAction::LogFirstPointerEvent]
                }) + seq![LoopAction::ForwardInput]
                &&& *final(state) == (TtyLoopState { pointer_seen: true, ..*old(state) })
            },
            TtyEvent::OtherInput => {
                &&& actions@ == Seq::<LoopAction>::empty()
                &&& *final(state) == *old(state)
            },
            TtyEvent::Timer { now_ms, ipc, xwayland_requests, resize_active, tick_ms, config_changes } => {
                let kb_due = missing_warning_due(
                    old(state).keyboard_seen,
                    old(state).keyboard_missing_warned,
                    now_ms,
                    old(state).input_started_ms,
                );
                let ptr_due = missing_warning_due(
                    old(state).pointer_seen,
                    old(state).pointer_missing_warned,
                    now_ms,
                    old(state).input_started_ms,
                );
                &&& actions@ == tty_timer_actions(
                    *old(state),
                    now_ms,
                    ipc@,
                    xwayland_requests as nat,
                    resize_active,
                    tick_ms,
                    config_changes as nat,
                )
                &&& final(state).last_maintenance_ms == (if maintenance_due(
                    resize_active,
                    now_ms,
                    old(state).last_maintenance_ms,
                    tick_ms,
                ) {
                    now_ms
                } else {
                    old(state).last_maintenance_ms
                })
                &&& final(state).keyboard_missing_warned == (old(state).keyboard_missing_warned
                    || kb_due)
                &&& final(state).pointer_missing_warned == (old(state).pointer_missing_warned
                    || ptr_due)
                &&& final(state).keyboard_seen == old(state).keyboard_seen
                &&& final(state).pointer_seen == old(state).pointer_seen
                &&& final(state).vblank_mismatch_warned == old(state).vblank_mismatch_warned
            },
            TtyEvent::Dispatched => {
                &&& actions@ == (if old(state).exit_requested {
                    seq![LoopAction::Stop]
                } else {
                    seq![LoopAction::DispatchClients]
                })
                &&& *final(state) == *old(state)
            },
        },
{
    match event {
        TtyEvent::VBlank { crtc, expected_crtc } => {
            let mut actions: Vec<LoopAction> = Vec::new();
            if crtc != expected_crtc {
                if !state.vblank_mismatch_warned {
                    actions.push(LoopAction::WarnVblankMismatch);
                    state.vblank_mismatch_warned = true;
                }
            } else if state.vblank_mismatch_warned {
                actions.push(LoopAction::LogVblankRecovered);
                state.vblank_mismatch_warned = false;
            }
            actions.push(LoopAction::MarkFrameSubmitted);
            assert(actions@ =~= vblank_actions(old(state).vblank_mismatch_warned, crtc, expected_crtc));
            actions
        },
        TtyEvent::DrmError => {
            let mut actions: Vec<LoopAction> = Vec::new();
            actions.push(LoopAction::WarnDrmError);
            actions
        },
        TtyEvent::SessionPaused => {
            let mut actions: Vec<LoopAction> = Vec::new();
            actions.push(LoopAction::SuspendInput);
            actions
        },
        TtyEvent::SessionActivated => {
            let mut actions: Vec<LoopAction> = Vec::new();
            actions.push(LoopAction::ResumeInput);
            actions
        },
        TtyEvent::KeyboardInput => {
            let mut actions: Vec<LoopAction> = Vec::new();
            if !state.keyboard_seen {
                actions.push(LoopAction::LogFirstKeyboardEvent);
                state.keyboard_seen = true;
            }
            actions.push(LoopAction::ForwardInput);
            assert(actions@ =~= (if old(state).keyboard_seen {
                seq![]
            } else {
                seq![LoopAction::LogFirstKeyboardEvent]
            }) + seq![LoopAction::ForwardInput]);
            actions
        },
        TtyEvent::PointerInput => {
            let mut actions: Vec<LoopAction> = Vec::new();
            if !state.pointer_seen {
                actions.push(LoopAction::LogFirstPointerEvent);
                state.pointer_seen = true;
            }
            actions.push(LoopAction::ForwardInput);
            assert(actions@ =~= (if old(state).pointer_seen {
                seq![]
            } else {
                seq![LoopAction::LogFirstPointerEvent]
            }) + seq![LoopAction::ForwardInput]);
            actions
        },
        TtyEvent::OtherInput => Vec::new(),
        TtyEvent::Timer { now_ms, ipc, xwayland_requests, resize_active, tick_ms, config_changes } => {
            tty_timer(state, now_ms, &ipc, xwayland_requests, resize_active, tick_ms, config_changes)
        },
        TtyEvent::Dispatched => after_dispatch(state.exit_requested),
    }
}

#[verifier::rlimit(30)]
fn tty_timer(
    state: &mut TtyLoopState,
    now_ms: u64,
    ipc: &Vec<RuntimeIpcCommand>,
    xwayland_requests: usize,
    resize_active: bool,
    tick_ms: u64,
    config_changes: usize,
) -> (actions: Vec<LoopAction>)
    ensures
        actions@ == tty_timer_actions(
            *old(state),
            now_ms,
            ipc@,
            xwayland_requests as nat,
            resize_active,
            tick_ms,
            config_changes as nat,
        ),
        final(state).exit_requested == (old(state).exit_requested || ipc_requests_exit(ipc@)),
        final(state).last_maintenance_ms == (if maintenance_due(
            resize_active,
            now_ms,
            old(state).last_maintenance_ms,
            tick_ms,
        ) {
            now_ms
        } else {
            old(state).last_maintenance_ms
        }),
        final(state).keyboard_missing_warned == (old(state).keyboard_missing_warned
            || missing_warning_due(
            old(state).keyboard_seen,
            old(state).keyboard_missing_warned,
            now_ms,
            old(state).input_started_ms,
        )),
        final(state).pointer_missing_warned == (old(state).pointer_missing_warned
            || missing_warning_due(
            old(state).pointer_seen,
            old(state).pointer_missing_warned,
            now_ms,
            old(state).input_started_ms,
        )),
        final(state).keyboard_seen == old(state).keyboard_seen,
        final(state).pointer_seen == old(state).pointer_seen,
        final(state).vblank_mismatch_warned == old(state).vblank_mismatch_warned,
        final(state).input_started_ms == old(state).input_started_ms,
{
    let mut actions: Vec<LoopAction> = Vec::new();
    push_tty_ipc_actions(&mut actions, ipc);
    if any_quit(ipc) {
        state.exit_requested = true;
    }
    push_repeat(&mut actions, LoopAction::XwaylandRequestStart, xwayland_requests);
    actions.push(LoopAction::XwaylandTick);
    actions.push(LoopAction::TickFrameEffects);
    actions.push(LoopAction::TickAnimator);
    actions.push(LoopAction::AdvanceNodeMoveAnimation);
    actions.push(LoopAction::TickLiveOverlap);
    let ghost a1 = actions@;
    let due: bool = !resize_active && elapsed_between(now_ms, state.last_maintenance_ms) >= tick_ms;
    if due {
        actions.push(LoopAction::TickMaintenance);
        state.last_maintenance_ms = now_ms;
    }
    let ghost a2 = actions@;
    push_repeat(&mut actions, LoopAction::Reload(ReloadSource::ConfigFile), config_changes);
    if config_changes > 0 {
        actions.push(LoopAction::RunReloadAutostart);
        actions.push(LoopAction::LogReloaded);
    }
    actions.push(LoopAction::QueueScanoutFrame);
    let ghost a3 = actions@;
    let elapsed: u64 = elapsed_between(now_ms, state.input_started_ms);
    if elapsed >= INPUT_MISSING_WARN_MS && !state.keyboard_seen && !state.keyboard_missing_warned {
        actions.push(LoopAction::WarnKeyboardMissing);
        state.keyboard_missing_warned = true;
    }
    let ghost a4 = actions@;
    if elapsed >= INPUT_MISSING_WARN_MS && !state.pointer_seen && !state.pointer_missing_warned {
        actions.push(LoopAction::WarnPointerMissing);
        state.pointer_missing_warned = true;
    }
    proof {
        let st = *old(state);
        assert(a1 =~= tty_ipc_actions(ipc@) + repeat(
            LoopAction::XwaylandRequestStart,
            xwayland_requests as nat,
        ) + seq![
            LoopAction::XwaylandTick,
            LoopAction::TickFrameEffects,
            LoopAction::TickAnimator,
            LoopAction::AdvanceNodeMoveAnimation,
            LoopAction::TickLiveOverlap,
        ]);
        assert(a2 =~= a1 + (if maintenance_due(
            resize_active,
            now_ms,
            st.last_maintenance_ms,
            tick_ms,
        ) {
            seq![LoopAction::TickMaintenance]
        } else {
            seq![]
        }));
        assert(a3 =~= a2 + repeat(
            LoopAction::Reload(ReloadSource::ConfigFile),
            config_changes as nat,
        ) + (if config_changes > 0 {
            seq![LoopAction::RunReloadAutostart, LoopAction::LogReloaded]
        } else {
            seq![]
        }) + seq![LoopAction::QueueScanoutFrame]);
        assert(a4 =~= a3 + (if missing_warning_due(
            st.keyboard_seen,
            st.keyboard_missing_warned,
            now_ms,
            st.input_started_ms,
        ) {
            seq![LoopAction::WarnKeyboardMissing]
        } else {
            seq![]
        }));
        assert(actions@ =~= a4 + (if missing_warning_due(
            st.pointer_seen,
            st.pointer_missing_warned,
            now_ms,
            st.input_started_ms,
        ) {
            seq![LoopAction::WarnPointerMissing]
        } else {
            seq![]
        }));
    }
    actions
}

/// What a reload in the direct backend learned about the output mode that
/// the new configuration asks for.
#[derive(Clone, Copy, Debug, PartialEq, Eq, Structural)]
pub enum ReloadModeQuery {
    /// The mode could not be determined.
    Failed,
    /// The configuration asks for no particular mode.
    NotRequested,
    /// A mode was found; `changed` tells whether it differs from the active one.
    Found { changed: bool },
}

/// What a reload in the direct backend does about the output mode.
#[derive(Clone, Copy, Debug, PartialEq, Eq, Structural)]
pub enum ReloadModePlan {
    /// Keep the viewport section of the running configuration.
    KeepLastGoodViewport,
    /// Switch the scanout surface to the new mode first.
    SwitchMode,
    /// Apply the new configuration as it is.
    Apply,
}

/// The mode decision of a reload in the direct backend.
pub fn tty_reload_mode_plan(query: ReloadModeQuery) -> (r: ReloadModePlan)
    ensures
        r == match query {
            ReloadModeQuery::Failed => ReloadModePlan::KeepLastGoodViewport,
            ReloadModeQuery::NotRequested => ReloadModePlan::KeepLastGoodViewport,
            ReloadModeQuery::Found { changed } => if changed {
                ReloadModePlan::SwitchMode
            } else {
                ReloadModePlan::Apply
            },
        },
{
    match query {
        ReloadModeQuery::Failed => ReloadModePlan::KeepLastGoodViewport,
        ReloadModeQuery::NotRequested => ReloadModePlan::KeepLastGoodViewport,
        ReloadModeQuery::Found { changed } => if changed {
            ReloadModePlan::SwitchMode
        } else {
            ReloadModePlan::Apply
        },
    }
}

/// After a mode switch was tried: a switch that failed keeps the viewport
/// section of the running configuration; one that worked applies the new one.
pub fn tty_mode_switch_outcome(switched: bool) -> (r: ReloadModePlan)
    ensures
        r == (if switched {
            ReloadModePlan::Apply
        } else {
            ReloadModePlan::KeepLastGoodViewport
        }),
{
    if switched {
        ReloadModePlan::Apply
    } else {
        ReloadModePlan::KeepLastGoodViewport
    }
}

// --------------------------- laws of the main loops -------------------------

/// Once either loop wants to exit, no event takes that back.
pub proof fn law_exit_is_final(w: WinitEvent, t: TtyEvent)
    ensures
        winit_exit_after(true, w),
        tty_exit_after(true, t),
{
}

/// A quit command over IPC makes either loop want to exit.
pub proof fn law_ipc_quit_exits(cmds: Seq<RuntimeIpcCommand>)
    requires
        cmds.contains(RuntimeIpcCommand::Quit),
    ensures
        ipc_requests_exit(cmds),
{
    let k = choose|k: int| 0 <= k < cmds.len() && cmds[k] == RuntimeIpcCommand::Quit;
    lemma_quit_in_prefix(cmds, k);
}

proof fn lemma_quit_in_prefix(cmds: Seq<RuntimeIpcCommand>, k: int)
    requires
        0 <= k < cmds.len(),
        cmds[k] == RuntimeIpcCommand::Quit,
    ensures
        ipc_requests_exit(cmds),
    decreases cmds.len(),
{
    if k < cmds.len() - 1 {
        lemma_quit_in_prefix(cmds.drop_last(), k);
    }
}

/// A redraw never shows a node both as hovered and as previewed.
pub proof fn law_hover_or_preview(p: PointerSnapshot, now_ms: u64)
    ensures
        !(hover_targets(p, now_ms).0 is Some && hover_targets(p, now_ms).1 is Some),
{
}

/// After maintenance ran at `now_ms`, it is not due again until the tick
/// interval has passed.
pub proof fn law_maintenance_spaced(now_ms: u64, tick_ms: u64, later_ms: u64)
    requires
        now_ms <= later_ms,
        later_ms - now_ms < tick_ms,
    ensures
        !maintenance_due(false, later_ms, now_ms, tick_ms),
{
}

/// A vblank on the wrong crtc is warned about once: a first mismatch
/// warns, a further one does not; and the recovery is logged only after a
/// warning.
pub proof fn law_vblank_mismatch_warned_once(crtc: u64, expected: u64)
    ensures
        crtc != expected ==> vblank_actions(false, crtc, expected).contains(
            LoopAction::WarnVblankMismatch,
        ),
        !vblank_actions(true, crtc, expected).contains(LoopAction::WarnVblankMismatch),
        !vblank_actions(false, crtc, expected).contains(LoopAction::LogVblankRecovered),
{
    let a = vblank_actions(false, crtc, expected);
    let b = vblank_actions(true, crtc, expected);
    if crtc != expected {
        assert(a[0] == LoopAction::WarnVblankMismatch);
        assert(b =~= seq![LoopAction::MarkFrameSubmitted]);
        assert(a =~= seq![LoopAction::WarnVblankMismatch, LoopAction::MarkFrameSubmitted]);
    } else {
        assert(b =~= seq![LoopAction::LogVblankRecovered, LoopAction::MarkFrameSubmitted]);
        assert(a =~= seq![LoopAction::MarkFrameSubmitted]);
    }
}

/// A device class that never produced input is warned about at most once.
pub proof fn law_missing_input_warned_once(seen: bool, now_ms: u64, started_ms: u64)
    ensures
        !missing_warning_due(seen, true, now_ms, started_ms),
        seen ==> !missing_warning_due(seen, false, now_ms, started_ms),
{
}

} // verus!
