use vstd::prelude::*;

verus! {

/// Docking requests that arrive over IPC.
#[derive(Clone, Copy, Debug, PartialEq, Eq, Structural)]
pub enum DockingCommand {
    Begin,
    End,
}

/// Directions in which the latest node can be moved over IPC.
#[derive(Clone, Copy, Debug, PartialEq, Eq, Structural)]
pub enum NodeMoveDirection {
    Left,
    Right,
    Up,
    Down,
}

/// Commands that the IPC listener hands to the compositor's event loop.
#[derive(Clone, Copy, Debug, PartialEq, Eq, Structural)]
pub enum RuntimeIpcCommand {
    Quit,
    Reload,
    Docking(DockingCommand),
    NodeMove(NodeMoveDirection),
}

/// A decoded IPC request.
#[derive(Clone, Copy, Debug, PartialEq, Eq, Structural)]
pub enum Request {
    Quit,
    Reload,
    Docking(DockingCommand),
    NodeMove(NodeMoveDirection),
    Outputs,
}

/// Errors that an IPC response can carry.
#[derive(Clone, Debug, PartialEq, Eq)]
pub enum IpcError {
    InvalidRequest(String),
    Internal(String),
}

/// An IPC response; `O` is the published description of one output.
#[derive(Clone, Debug, PartialEq, Eq)]
pub enum Response<O> {
    Accepted,
    Reloaded,
    Outputs(Vec<O>),
    Error(IpcError),
}

/// The command that a request hands to the event loop, if any (`Outputs`
/// is answered by the listener itself).
pub open spec fn request_command_spec(request: Request) -> Option<RuntimeIpcCommand> {
    match request {
        Request::Quit => Some(RuntimeIpcCommand::Quit),
        Request::Reload => Some(RuntimeIpcCommand::Reload),
        Request::Docking(c) => Some(RuntimeIpcCommand::Docking(c)),
        Request::NodeMove(d) => Some(RuntimeIpcCommand::NodeMove(d)),
        Request::Outputs => None,
    }
}

pub fn request_command(request: Request) -> (r: Option<RuntimeIpcCommand>)
    ensures
        r == request_command_spec(request),
{
    match request {
        Request::Quit => Some(RuntimeIpcCommand::Quit),
        Request::Reload => Some(RuntimeIpcCommand::Reload),
        Request::Docking(c) => Some(RuntimeIpcCommand::Docking(c)),
        Request::NodeMove(d) => Some(RuntimeIpcCommand::NodeMove(d)),
        Request::Outputs => None,
    }
}

/// The answer to a request, given what handing its command to the event loop
/// gave (`send`, the error text when the loop is gone) and, for `Outputs`,
/// what reading the published outputs gave (`outputs`, the error text when
/// the store is poisoned). A request whose command was handed over is
/// answered `Reloaded` for a reload and `Ok` otherwise.
pub fn handle_request<O: Clone>(
    request: Request,
    send: Result<(), String>,
    outputs: Result<Vec<O>, String>,
) -> (r: Response<O>)
    ensures
        request == Request::Outputs ==> match outputs {
            Ok(list) => r == Response::Outputs(list),
            Err(e) => r == Response::<O>::Error(IpcError::Internal(e)),
        },
        request != Request::Outputs ==> match send {
            Ok(()) => r == (if request == Request::Reload {
                Response::<O>::Reloaded
            } else {
                Response::<O>::Accepted
            }),
            Err(e) => r == Response::<O>::Error(IpcError::Internal(e)),
        },
{
    match request {
        Request::Outputs => match outputs {
            Ok(list) => Response::Outputs(list),
            Err(e) => Response::Error(IpcError::Internal(e)),
        },
        Request::Reload => match send {
            Ok(()) => Response::Reloaded,
            Err(e) => Response::Error(IpcError::Internal(e)),
        },
        _ => match send {
            Ok(()) => Response::Accepted,
            Err(e) => Response::Error(IpcError::Internal(e)),
        },
    }
}

/// The answer to a frame that could not be read or decoded.
pub fn response_for_invalid_request<O>(message: String) -> (r: Response<O>)
    ensures
        r == Response::<O>::Error(IpcError::InvalidRequest(message)),
{
    Response::Error(IpcError::InvalidRequest(message))
}

} // verus!
