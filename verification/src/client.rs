//! A client connection, as the daemon keeps it.

use vstd::prelude::*;

verus! {

/// A connected client.
#[derive(Clone, Copy, Debug)]
pub struct Client {
    /// Unix socket fd for this client connection.
    pub fd: i32,
    /// Whether this client is currently receiving live PTY output.
    /// False while scrollback replay is in progress.
    pub attached: bool,
    /// Read offset into the scrollback ring buffer for the ongoing replay.
    pub replay_head: usize,
    /// Bytes of scrollback still to be sent before the client is fully caught up.
    pub replay_remaining: usize,
    /// PID of the peer process, obtained when the connection was accepted.
    /// Zero when the kernel did not provide credentials.
    pub peer_pid: i32,
}

} // verus!
