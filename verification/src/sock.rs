//! Errors of socket calls as error numbers.

use crate::protocol;
use crate::protocol::errno_of;
use vstd::prelude::*;

verus! {

/// The mode of a session's socket: for the owner alone.
pub const SOCKET_MODE: u32 = 0o600;

/// The error number of a failed call.
pub open spec fn as_errno(outcome: Result<(), Option<i32>>) -> Result<(), i32> {
    match outcome {
        Ok(()) => Ok(()),
        Err(raw) => Err(protocol::errno_or_eio(raw)),
    }
}

/// The outcome of connecting to a Unix domain socket, with the number of the
/// error, so that callers can match on specific errors (e.g. `ENOENT`,
/// `ECONNREFUSED`). An error that has no number counts as a general I/O error.
pub fn connect_unix(outcome: Result<(), Option<i32>>) -> (r: Result<(), i32>)
    ensures
        r == as_errno(outcome),
{
    match outcome {
        Ok(()) => Ok(()),
        Err(raw) => Err(errno_of(raw)),
    }
}

/// What to do next to get a listening socket.
#[derive(Clone, Copy, Debug, PartialEq, Eq)]
pub enum ListenStep {
    /// Bind a listener to the path.
    Bind,
    /// Make the listener non-blocking, so that accepting never blocks.
    SetNonblocking,
    /// Give the socket file this mode.
    SetMode(u32),
    /// Nothing: the listener is ready, or there is none for this reason.
    Done(Result<(), i32>),
}

/// The step that follows on `step` when all goes well.
pub open spec fn listen_after(step: ListenStep) -> ListenStep {
    match step {
        ListenStep::Bind => ListenStep::SetNonblocking,
        ListenStep::SetNonblocking => ListenStep::SetMode(SOCKET_MODE),
        ListenStep::SetMode(_) => ListenStep::Done(Ok(())),
        ListenStep::Done(r) => ListenStep::Done(r),
    }
}

/// Create and bind a listening Unix domain socket, step by step: it begins with
/// [`ListenStep::Bind`], and `outcome` is what came of `step`. The first error
/// ends it.
pub fn listen_unix(step: ListenStep, outcome: Result<(), Option<i32>>) -> (r: ListenStep)
    ensures
        r == (match (step, as_errno(outcome)) {
            (ListenStep::Done(d), _) => step,
            (_, Ok(())) => listen_after(step),
            (_, Err(e)) => ListenStep::Done(Err(e)),
        }),
{
    match step {
        ListenStep::Done(_) => step,
        _ => match connect_unix(outcome) {
            Err(e) => ListenStep::Done(Err(e)),
            Ok(()) => match step {
                ListenStep::Bind => ListenStep::SetNonblocking,
                ListenStep::SetNonblocking => ListenStep::SetMode(SOCKET_MODE),
                ListenStep::SetMode(_) => ListenStep::Done(Ok(())),
                ListenStep::Done(_) => step,
            },
        },
    }
}

} // verus!
