//! Session daemon: what the process behind a session keeps and decides.
//!
//! The daemon waits for its descriptors, and each turn of its loop accepts new
//! clients, handles one packet of each client that sent something, goes on with
//! replays, and passes the child's output on. The waiting, reading and writing
//! is done by the program; [`SessionDaemon`] holds the state and tells what to
//! do.

use crate::app_log::{AppLog, LogLevel};
use crate::client::Client;
use crate::protocol::{IoError, MsgType, Packet, ProtocolError, RedrawMethod, SCROLLBACK_SIZE};
use crate::pty::Pty;
use crate::report;
use crate::report::{OsError, Report};
use crate::scrollback;
use crate::scrollback::{ReplayState, Scrollback};
use crate::session::Session;
use crate::session_log;
use crate::session_log::{log_path_of, SessionLog};
use crate::sys;
use crate::term;
use crate::term::{winsize_from_bytes, WinSize};
use crate::text;
use crate::text::{decimal, signed_decimal};
use vstd::prelude::*;
use vstd::string::*;

verus! {

/// The daemon state machine.
///
/// Holds the descriptors of the listener and of the pseudo-terminal, all client
/// connections, the scrollback ring buffer, and the optional log.
pub struct SessionDaemon {
    /// File descriptor of the listener socket.
    pub listener_fd: i32,
    /// The pseudo-terminal and child PID.
    pub pty: Pty,
    /// All currently-connected clients.
    pub clients: Vec<Client>,
    /// Ring buffer of PTY output for replay-on-attach.
    pub scrollback: Scrollback,
    /// On-disk session log, where the session has one.
    pub log: Option<SessionLog>,
    /// Path to the session socket.
    pub sockname: String,
    /// Name of the program, for messages.
    pub progname: String,
    /// Application log context.
    pub app_log: AppLog,
    /// Whether at least one client is attached (drives socket mode).
    pub has_attached: bool,
    /// Set when a client asks to detach all others; acted on after the packet
    /// batch, so that no other client leaves in the midst of it.
    pub evict_attached: bool,
}

/// The replay that is in progress for a client.
pub open spec fn replay_of(c: Client) -> ReplayState {
    ReplayState { head: c.replay_head, remaining: c.replay_remaining }
}

impl SessionDaemon {
    /// The ring is well-formed, and so is each client's place in it.
    pub open spec fn wf(&self) -> bool {
        &&& self.scrollback.wf()
        &&& forall|i: int|
            0 <= i < self.clients@.len() ==> #[trigger] replay_of(self.clients@[i]).wf()
    }

    /// Whether nothing but the client list and the wish to evict differs from
    /// `other`.
    pub open spec fn same_but_clients(&self, other: &SessionDaemon) -> bool {
        &&& self.listener_fd == other.listener_fd
        &&& self.pty == other.pty
        &&& self.scrollback == other.scrollback
        &&& self.log == other.log
        &&& self.sockname == other.sockname
        &&& self.progname == other.progname
        &&& self.app_log == other.app_log
        &&& self.has_attached == other.has_attached
    }
}

// ---------------------------------------------------------------------------
// Waiting
// ---------------------------------------------------------------------------

/// The descriptors to wait for.
#[derive(Debug)]
pub struct FdSets {
    /// Those to read from.
    pub read: Vec<i32>,
    /// Those to write to.
    pub write: Vec<i32>,
    /// The largest of all.
    pub maxfd: i32,
}

/// The descriptors of the clients.
pub open spec fn fds_of(clients: Seq<Client>) -> Seq<i32> {
    clients.map_values(|c: Client| c.fd)
}

/// The clients with a replay in progress.
pub open spec fn replaying(clients: Seq<Client>) -> Seq<Client> {
    clients.filter(|c: Client| c.replay_remaining > 0)
}

/// The clients that receive live output.
pub open spec fn attached(clients: Seq<Client>) -> Seq<Client> {
    clients.filter(|c: Client| c.attached)
}

/// The clients that do not receive live output.
pub open spec fn unattached(clients: Seq<Client>) -> Seq<Client> {
    clients.filter(|c: Client| !c.attached)
}

/// Whether a client receives live output.
pub open spec fn any_attached(clients: Seq<Client>) -> bool {
    exists|i: int| 0 <= i < clients.len() && (#[trigger] clients[i]).attached
}

/// Whether `m` is the largest member of `s`.
pub open spec fn is_largest(m: i32, s: Seq<i32>) -> bool {
    &&& s.contains(m)
    &&& forall|i: int| 0 <= i < s.len() ==> #[trigger] s[i] <= m
}

/// One more element at the end is filtered by itself.
proof fn filter_grows(s: Seq<Client>, n: int, keep: spec_fn(Client) -> bool)
    requires
        0 <= n < s.len(),
    ensures
        s.take(n + 1).filter(keep) == (if keep(s[n]) {
            s.take(n).filter(keep).push(s[n])
        } else {
            s.take(n).filter(keep)
        }),
{
    reveal(Seq::filter);
    assert(s.take(n + 1).drop_last() =~= s.take(n));
    assert(s.take(n + 1).last() == s[n]);
}

impl SessionDaemon {
    /// Collect the descriptors for the next wait.
    ///
    /// The read set always contains the listener socket and the PTY master fd.
    /// Client fds are added to the read set; client fds with pending replay
    /// data are also added to the write set. Takes note of whether any client
    /// is attached, on which the mode of the socket depends.
    pub fn build_fd_sets(&mut self) -> (r: FdSets)
        requires
            old(self).wf(),
        ensures
            final(self).wf(),
            *final(self) == (SessionDaemon {
                has_attached: any_attached(old(self).clients@),
                ..*old(self)
            }),
            r.read@ == seq![old(self).listener_fd, old(self).pty.fd] + fds_of(old(self).clients@),
            r.write@ == fds_of(replaying(old(self).clients@)),
            is_largest(r.maxfd, r.read@),
    {
        let mut read: Vec<i32> = Vec::new();
        let mut write: Vec<i32> = Vec::new();
        let mut maxfd: i32 = self.listener_fd;
        read.push(self.listener_fd);
        read.push(self.pty.fd);
        if self.pty.fd > maxfd {
            maxfd = self.pty.fd;
        }
        let ghost cs = self.clients@;
        let ghost keep = |c: Client| c.replay_remaining > 0;
        let ghost base = seq![self.listener_fd, self.pty.fd];
        let mut new_has: bool = false;
        let mut i: usize = 0;
        proof {
            assert(read@ =~= base + fds_of(cs.take(0)));
            assert(cs.take(0) =~= Seq::<Client>::empty());
            reveal(Seq::filter);
            assert(write@ =~= fds_of(cs.take(0).filter(keep)));
            if maxfd == self.listener_fd {
                assert(read@[0] == maxfd);
            } else {
                assert(read@[1] == maxfd);
            }
        }
        while i < self.clients.len()
            invariant
                i <= cs.len(),
                cs == self.clients@,
                *self == *old(self),
                keep == (|c: Client| c.replay_remaining > 0),
                read@ == base + fds_of(cs.take(i as int)),
                write@ == fds_of(cs.take(i as int).filter(keep)),
                new_has == any_attached(cs.take(i as int)),
                is_largest(maxfd, read@),
            decreases cs.len() - i,
        {
            let c: Client = self.clients[i];
            let ghost read0 = read@;
            let ghost has0 = new_has;
            read.push(c.fd);
            proof {
                assert(fds_of(cs.take(i + 1)) =~= fds_of(cs.take(i as int)).push(c.fd));
                assert(read@ =~= base + fds_of(cs.take(i + 1)));
                filter_grows(cs, i as int, keep);
                assert(read@[read0.len() as int] == c.fd);
                assert forall|k: int| 0 <= k < read0.len() implies read@[k] == read0[k] by {}
                let w = choose|k: int| 0 <= k < read0.len() && read0[k] == maxfd;
                assert(read@[w] == maxfd);
                assert(any_attached(cs.take(i + 1)) == (has0 || c.attached)) by {
                    if c.attached {
                        assert(cs.take(i + 1)[i as int].attached);
                    }
                    if has0 {
                        let k = choose|k: int|
                            0 <= k < i && (#[trigger] cs.take(i as int)[k]).attached;
                        assert(cs.take(i + 1)[k].attached);
                    }
                    if any_attached(cs.take(i + 1)) {
                        let k = choose|k: int|
                            0 <= k < i + 1 && (#[trigger] cs.take(i + 1)[k]).attached;
                        if k < i {
                            assert(cs.take(i as int)[k].attached);
                        }
                    }
                }
            }
            if c.fd > maxfd {
                maxfd = c.fd;
            }
            if c.attached {
                new_has = true;
            }
            if c.replay_remaining > 0 {
                write.push(c.fd);
                assert(write@ =~= fds_of(cs.take(i + 1).filter(keep)));
            }
            i = i + 1;
        }
        assert(cs.take(cs.len() as int) =~= cs);
        self.has_attached = new_has;
        FdSets { read, write, maxfd }
    }
}

/// The mode of the socket file: executable by its owner while a client is
/// attached, and not otherwise.
pub open spec fn mode_for(mode: u32, exec: bool) -> u32 {
    if exec {
        mode | sys::s_ixusr()
    } else {
        mode & !sys::s_ixusr()
    }
}

/// Toggle the executable bit on the session socket, whose mode is `mode` (or
/// `None` where it cannot be read): the mode to set, where it has to change.
///
/// When at least one client is attached (`exec = true`) the socket is made
/// executable. When no clients are attached the executable bit is removed.
pub fn update_socket_modes(mode: Option<u32>, exec: bool) -> (r: Option<u32>)
    ensures
        r == (match mode {
            Some(m) if mode_for(m, exec) != m => Some(mode_for(m, exec)),
            _ => None,
        }),
{
    match mode {
        Some(m) => {
            let new_mode: u32 = if exec {
                m | sys::libc_s_ixusr()
            } else {
                m & !sys::libc_s_ixusr()
            };
            if new_mode != m {
                Some(new_mode)
            } else {
                None
            }
        },
        None => None,
    }
}

/// The executable bit of the socket tells whether a client is attached, the
/// other bits never change, and a mode that is right already is left alone.
pub proof fn socket_mode_tells_attachment(mode: u32, exec: bool)
    ensures
        (mode_for(mode, exec) & sys::s_ixusr() != 0) == exec,
        mode_for(mode, exec) & !sys::s_ixusr() == mode & !sys::s_ixusr(),
        mode_for(mode_for(mode, exec), exec) == mode_for(mode, exec),
        sys::is_socket_mode(mode_for(mode, exec)) == sys::is_socket_mode(mode),
{
    assert((mode | 0o100u32) & 0o100u32 != 0) by (bit_vector);
    assert((mode & !0o100u32) & 0o100u32 == 0) by (bit_vector);
    assert((mode | 0o100u32) & !0o100u32 == mode & !0o100u32) by (bit_vector);
    assert((mode & !0o100u32) & !0o100u32 == mode & !0o100u32) by (bit_vector);
    assert((mode | 0o100u32) | 0o100u32 == mode | 0o100u32) by (bit_vector);
    assert((mode | 0o100u32) & 0o170000u32 == mode & 0o170000u32) by (bit_vector);
    assert((mode & !0o100u32) & 0o170000u32 == mode & 0o170000u32) by (bit_vector);
}

/// What came of a wait for descriptors.
#[derive(Clone, Copy, Debug, PartialEq, Eq)]
pub enum AfterWait {
    /// A signal came in between: wait again.
    Again,
    /// Some descriptors are ready: serve them.
    Serve,
    /// Waiting is not possible: stop.
    Stop,
}

/// What to do after a wait for descriptors.
pub fn after_wait(outcome: Result<(), IoError>) -> (r: AfterWait)
    ensures
        r == (match outcome {
            Ok(()) => AfterWait::Serve,
            Err(IoError::Interrupted) => AfterWait::Again,
            Err(_) => AfterWait::Stop,
        }),
{
    match outcome {
        Ok(()) => AfterWait::Serve,
        Err(IoError::Interrupted) => AfterWait::Again,
        Err(_) => AfterWait::Stop,
    }
}

// ---------------------------------------------------------------------------
// Clients that come
// ---------------------------------------------------------------------------

/// The PID of the peer on a socket, or 0 when the kernel gave no credentials.
pub fn peer_pid(credentials: Option<i32>) -> (r: i32)
    ensures
        r == (match credentials {
            Some(pid) => pid,
            None => 0,
        }),
{
    match credentials {
        Some(pid) => pid,
        None => 0,
    }
}

/// What came of accepting a connection.
#[derive(Clone, Copy, Debug, PartialEq, Eq)]
pub enum Accepted {
    /// There was none.
    Nobody,
    /// There was one, but its socket could not be made non-blocking and is
    /// closed again.
    Blocking,
    /// A non-blocking connection, with the PID of the peer where it is known.
    Ready { fd: i32, credentials: Option<i32> },
}

/// A warning of the daemon.
#[derive(Debug)]
pub struct Warning {
    /// For the application log.
    pub report: Report,
    /// What to append to the session log, where there is one.
    pub log_line: Option<String>,
}

/// The line of the session log that warns of `msg`.
pub open spec fn warn_line(progname: Seq<char>, msg: Seq<char>) -> Seq<char> {
    "["@ + progname + ": warn: "@ + msg + "]\r\n"@
}

/// A connection that was just accepted.
pub open spec fn new_client(fd: i32, credentials: Option<i32>) -> Client {
    Client {
        fd,
        attached: false,
        replay_head: 0,
        replay_remaining: 0,
        peer_pid: match credentials {
            Some(pid) => pid,
            None => 0,
        },
    }
}

impl SessionDaemon {
    /// A warning for the application log and the session log, since the daemon
    /// has no terminal to write to.
    pub fn log_warn(&self, msg: &str) -> (w: Warning)
        ensures
            w.report@ == report::ReportView::silent(LogLevel::Warn, msg@),
            report::text_of(w.log_line) == (match self.log {
                Some(_) => Some(warn_line(self.progname@, msg@)),
                None => None,
            }),
    {
        let log_line: Option<String> = match &self.log {
            Some(_) => {
                let mut l: String = "[".to_owned();
                l.append(self.progname.as_str());
                l.append(": warn: ");
                l.append(msg);
                l.append("]\r\n");
                Some(l)
            },
            None => None,
        };
        Warning { report: Report::silent(LogLevel::Warn, msg.to_owned()), log_line }
    }

    /// Register a new client connection. A connection that cannot be made
    /// non-blocking is rejected with a warning.
    pub fn accept_client(&mut self, accepted: Accepted) -> (w: Option<Warning>)
        requires
            old(self).wf(),
        ensures
            final(self).wf(),
            final(self).same_but_clients(old(self)),
            final(self).evict_attached == old(self).evict_attached,
            final(self).clients@ == (match accepted {
                Accepted::Ready { fd, credentials } => old(self).clients@.push(
                    new_client(fd, credentials),
                ),
                _ => old(self).clients@,
            }),
            w is Some <==> accepted is Blocking,
            w matches Some(w) ==> {
                let msg = "could not set client socket non-blocking; connection rejected"@;
                &&& w.report@ == report::ReportView::silent(LogLevel::Warn, msg)
                &&& report::text_of(w.log_line) == (match old(self).log {
                    Some(_) => Some(warn_line(old(self).progname@, msg)),
                    None => None,
                })
            },
    {
        match accepted {
            Accepted::Nobody => None,
            Accepted::Blocking => {
                Some(
                    self.log_warn(
                        "could not set client socket non-blocking; connection rejected",
                    ),
                )
            },
            Accepted::Ready { fd, credentials } => {
                self.clients.push(
                    Client {
                        fd,
                        attached: false,
                        replay_head: 0,
                        replay_remaining: 0,
                        peer_pid: peer_pid(credentials),
                    },
                );
                None
            },
        }
    }
}

// ---------------------------------------------------------------------------
// Packets
// ---------------------------------------------------------------------------

/// What to do about a packet.
#[derive(Debug)]
pub enum Act {
    /// Nothing.
    Nothing,
    /// Write these bytes to the PTY master.
    Input(Vec<u8>),
    /// Send the scrollback to the client: follow [`ReplayState::drain`] and
    /// tell [`SessionDaemon::finish_replay`] how it ended.
    Replay(ReplayState),
    /// Give the PTY this window size.
    Resize(WinSize),
    /// Give the PTY this window size; then, if its terminal takes raw input,
    /// write [`CTRL_L`] to it.
    Refresh(WinSize),
    /// Give the PTY this window size and send this signal to the child.
    ResizeAndSignal(WinSize, i32),
    /// Send this signal to the child.
    Signal(i32),
    /// Write these texts to the client, each as far as possible.
    Tell(Vec<String>),
}

/// The key that makes a program draw its screen again.
pub const CTRL_L: u8 = 0x0c;

/// What to do about a packet, as contracts speak of it.
pub enum ActView {
    Nothing,
    Input(Seq<u8>),
    Replay(ReplayState),
    Resize(WinSize),
    Refresh(WinSize),
    ResizeAndSignal(WinSize, i32),
    Signal(i32),
    Tell(Seq<Seq<char>>),
}

impl View for Act {
    type V = ActView;

    open spec fn view(&self) -> ActView {
        match self {
            Act::Nothing => ActView::Nothing,
            Act::Input(b) => ActView::Input(b@),
            Act::Replay(rs) => ActView::Replay(*rs),
            Act::Resize(ws) => ActView::Resize(*ws),
            Act::Refresh(ws) => ActView::Refresh(*ws),
            Act::ResizeAndSignal(ws, sig) => ActView::ResizeAndSignal(*ws, *sig),
            Act::Signal(sig) => ActView::Signal(*sig),
            Act::Tell(v) => ActView::Tell(report::texts(v@)),
        }
    }
}

/// The line about one attached client.
pub open spec fn pid_line(pid: int) -> Seq<char> {
    "pid: "@ + text::signed_numeral(pid) + "\n"@
}

/// The summary of the attached clients: how many there are, and a line for
/// each.
pub open spec fn info_lines(clients: Seq<Client>) -> Seq<Seq<char>> {
    let a = attached(clients);
    seq!["attached: "@ + text::numeral(a.len()) + "\n"@] + a.map_values(
        |c: Client| pid_line(c.peer_pid as int),
    )
}

/// What to do about a request to draw the screen again.
pub open spec fn redraw_act(p: Packet) -> ActView {
    let ws = term::winsize_of(p.data@);
    if p.len == RedrawMethod::CtrlL.wire() {
        ActView::Refresh(ws)
    } else if p.len == RedrawMethod::Winch.wire() {
        ActView::ResizeAndSignal(ws, sys::sigwinch())
    } else {
        ActView::Resize(ws)
    }
}

/// Whether an attach request is answered by a replay first: unless the client
/// already has the output, or there is none.
pub open spec fn wants_replay(p: Packet, sb: Scrollback) -> bool {
    p.len == 0 && sb.len > 0
}

/// The replay of everything that the ring stores.
pub open spec fn full_replay(sb: Scrollback) -> ReplayState {
    ReplayState { head: sb.head, remaining: sb.len }
}

/// What to do about what came from a client.
pub open spec fn act_for(
    got: Result<Packet, ProtocolError>,
    clients: Seq<Client>,
    sb: Scrollback,
) -> ActView {
    match got {
        Err(_) => ActView::Nothing,
        Ok(p) => if p.msg_type == MsgType::Push.wire() && p.input().len() > 0 {
            ActView::Input(p.input())
        } else if p.msg_type == MsgType::Attach.wire() && wants_replay(p, sb) {
            ActView::Replay(full_replay(sb))
        } else if p.msg_type == MsgType::Winch.wire() {
            ActView::Resize(term::winsize_of(p.data@))
        } else if p.msg_type == MsgType::Redraw.wire() {
            redraw_act(p)
        } else if p.msg_type == MsgType::Kill.wire() {
            ActView::Signal(
                if p.len != 0 {
                    p.len as i32
                } else {
                    sys::sigterm()
                },
            )
        } else if p.msg_type == MsgType::Info.wire() {
            ActView::Tell(info_lines(clients))
        } else {
            ActView::Nothing
        },
    }
}

/// Whether the connection stays open after what came from the client: it closes
/// at its end, on an error, and after a request to detach the others or to get
/// information.
pub open spec fn stays(got: Result<Packet, ProtocolError>) -> bool {
    match got {
        Err(e) => e is WouldBlock,
        Ok(p) => p.msg_type != MsgType::ForceDetach.wire() && p.msg_type != MsgType::Info.wire(),
    }
}

/// The client after what came from it.
pub open spec fn client_after(
    c: Client,
    got: Result<Packet, ProtocolError>,
    sb: Scrollback,
) -> Client {
    match got {
        Err(_) => c,
        Ok(p) => if p.msg_type == MsgType::Attach.wire() {
            if wants_replay(p, sb) {
                Client { replay_head: sb.head, replay_remaining: sb.len, ..c }
            } else {
                Client { attached: true, ..c }
            }
        } else if p.msg_type == MsgType::Detach.wire() {
            Client { attached: false, ..c }
        } else {
            c
        },
    }
}

/// Whether the client asks to detach all others.
pub open spec fn asks_to_evict(got: Result<Packet, ProtocolError>) -> bool {
    got matches Ok(p) && p.msg_type == MsgType::ForceDetach.wire()
}

/// `s` without its member `i`, in whose place the last one moves.
pub open spec fn swap_removed(s: Seq<Client>, i: int) -> Seq<Client> {
    s.update(i, s.last()).drop_last()
}

/// What to do about a client, and which one comes next.
#[derive(Debug)]
pub struct Turn {
    /// What to do first.
    pub act: Act,
    /// The descriptor to close after that, when the client leaves.
    pub close: Option<i32>,
    /// The place in the list of the client to look at next.
    pub next: usize,
}

impl SessionDaemon {
    /// Handle a [`MsgType::Push`] packet: write its input to the PTY master.
    fn handle_push(&self, pkt: &Packet) -> (act: Act)
        ensures
            act@ == (if pkt.input().len() > 0 {
                ActView::Input(pkt.input())
            } else {
                ActView::Nothing
            }),
    {
        let dlen: usize = if pkt.len < 8 {
            pkt.len as usize
        } else {
            8
        };
        if dlen == 0 {
            return Act::Nothing;
        }
        let mut input: Vec<u8> = Vec::new();
        let mut i: usize = 0;
        while i < dlen
            invariant
                i <= dlen <= 8,
                input@ == pkt.data@.take(i as int),
            decreases dlen - i,
        {
            input.push(pkt.data[i]);
            assert(pkt.data@.take(i as int).push(pkt.data@[i as int]) =~= pkt.data@.take(i + 1));
            i = i + 1;
        }
        Act::Input(input)
    }

    /// Handle a [`MsgType::Attach`] packet.
    ///
    /// When `pkt.len != 0` the client is attached immediately (it already has
    /// the output). When `pkt.len == 0` the client is requesting a fresh
    /// attachment and receives a scrollback replay first. It is marked
    /// attached only once the replay has come to its end, since otherwise live
    /// output and old output would interleave.
    fn handle_attach(&mut self, i: usize, pkt: &Packet) -> (act: Act)
        requires
            old(self).wf(),
            i < old(self).clients.len(),
            pkt.msg_type == MsgType::Attach.wire(),
        ensures
            final(self).wf(),
            final(self).same_but_clients(old(self)),
            final(self).evict_attached == old(self).evict_attached,
            final(self).clients@ == old(self).clients@.update(
                i as int,
                client_after(old(self).clients@[i as int], Ok(*pkt), old(self).scrollback),
            ),
            act@ == (if wants_replay(*pkt, old(self).scrollback) {
                ActView::Replay(full_replay(old(self).scrollback))
            } else {
                ActView::Nothing
            }),
    {
        let mut c: Client = self.clients[i];
        assert(replay_of(c).wf());
        if pkt.len != 0 || self.scrollback.len == 0 {
            c.attached = true;
            self.clients.set(i, c);
            Act::Nothing
        } else {
            let rs: ReplayState = ReplayState::of(&self.scrollback);
            c.replay_head = rs.head;
            c.replay_remaining = rs.remaining;
            self.clients.set(i, c);
            Act::Replay(rs)
        }
    }

    /// Handle a [`MsgType::Detach`] packet: mark the client as detached.
    fn handle_detach(&mut self, i: usize)
        requires
            old(self).wf(),
            i < old(self).clients.len(),
        ensures
            final(self).wf(),
            final(self).same_but_clients(old(self)),
            final(self).evict_attached == old(self).evict_attached,
            final(self).clients@ == old(self).clients@.update(
                i as int,
                (Client { attached: false, ..old(self).clients@[i as int] }),
            ),
    {
        let mut c: Client = self.clients[i];
        assert(replay_of(c).wf());
        c.attached = false;
        self.clients.set(i, c);
    }

    /// Handle a [`MsgType::Info`] packet: a plain-text summary of all attached
    /// clients.
    fn handle_info(&self) -> (lines: Vec<String>)
        ensures
            report::texts(lines@) == info_lines(self.clients@),
    {
        let ghost cs = self.clients@;
        let ghost keep = |c: Client| c.attached;
        let ghost shown = |c: Client| pid_line(c.peer_pid as int);
        let mut pids: Vec<String> = Vec::new();
        let mut i: usize = 0;
        proof {
            reveal(Seq::filter);
            assert(cs.take(0) =~= Seq::<Client>::empty());
            assert(report::texts(pids@) =~= cs.take(0).filter(keep).map_values(shown));
        }
        while i < self.clients.len()
            invariant
                i <= cs.len(),
                cs == self.clients@,
                keep == (|c: Client| c.attached),
                shown == (|c: Client| pid_line(c.peer_pid as int)),
                report::texts(pids@) == cs.take(i as int).filter(keep).map_values(shown),
            decreases cs.len() - i,
        {
            proof {
                filter_grows(cs, i as int, keep);
            }
            if self.clients[i].attached {
                let mut l: String = "pid: ".to_owned();
                l.append(signed_decimal(self.clients[i].peer_pid).as_str());
                l.append("\n");
                let ghost before = pids@;
                pids.push(l);
                assert(report::texts(pids@) =~= report::texts(before).push(shown(cs[i as int])));
                assert(cs.take(i + 1).filter(keep).map_values(shown) =~= report::texts(before).push(
                    shown(cs[i as int]),
                ));
            }
            i = i + 1;
        }
        assert(cs.take(cs.len() as int) =~= cs);
        let ghost told = report::texts(pids@);
        assert(told.len() == pids.len());
        let mut header: String = "attached: ".to_owned();
        header.append(decimal(pids.len() as u64).as_str());
        header.append("\n");
        let mut lines: Vec<String> = Vec::new();
        lines.push(header);
        lines.append(&mut pids);
        assert(report::texts(lines@) =~= info_lines(self.clients@));
        lines
    }

    /// Handle a [`MsgType::Redraw`] packet: the new window size, and SIGWINCH
    /// for the child or Ctrl-L for the terminal as the packet asks.
    fn handle_redraw(&self, pkt: &Packet) -> (act: Act)
        ensures
            act@ == redraw_act(*pkt),
    {
        let ws: WinSize = winsize_from_bytes(&pkt.data);
        if pkt.len == RedrawMethod::CtrlL.as_u8() {
            Act::Refresh(ws)
        } else if pkt.len == RedrawMethod::Winch.as_u8() {
            Act::ResizeAndSignal(ws, sys::libc_sigwinch())
        } else {
            Act::Resize(ws)
        }
    }

    /// Handle a [`MsgType::Kill`] packet: the signal for the child's process
    /// group, which comes from `pkt.len` (defaults to `SIGTERM`).
    fn handle_kill(&self, pkt: &Packet) -> (sig: i32)
        ensures
            sig == (if pkt.len != 0 {
                pkt.len as i32
            } else {
                sys::sigterm()
            }),
    {
        if pkt.len != 0 {
            pkt.len as i32
        } else {
            sys::libc_sigterm()
        }
    }

    /// Handle what was read from client `i`, whose fd was readable.
    ///
    /// Clients that close their connection or encounter a read error are
    /// removed from the client list; the last client then moves to their
    /// place. Each recognised packet is handled by its type.
    pub fn handle_client_packets(&mut self, i: usize, got: Result<Packet, ProtocolError>) -> (t:
        Turn)
        requires
            old(self).wf(),
            i < old(self).clients.len(),
        ensures
            final(self).wf(),
            final(self).same_but_clients(old(self)),
            final(self).evict_attached == (old(self).evict_attached || asks_to_evict(got)),
            final(self).clients@ == (if stays(got) {
                old(self).clients@.update(
                    i as int,
                    client_after(old(self).clients@[i as int], got, old(self).scrollback),
                )
            } else {
                swap_removed(old(self).clients@, i as int)
            }),
            t.act@ == act_for(got, old(self).clients@, old(self).scrollback),
            t.close == (if stays(got) {
                None
            } else {
                Some(old(self).clients@[i as int].fd)
            }),
            t.next == (if stays(got) {
                i + 1
            } else {
                i as int
            }),
    {
        let ghost cs = self.clients@;
        let cfd: i32 = self.clients[i].fd;
        assert(cs.update(i as int, cs[i as int]) =~= cs);
        let (act, keep): (Act, bool) = match got {
            Ok(pkt) => match MsgType::from_u8(pkt.msg_type) {
                Some(MsgType::Push) => (self.handle_push(&pkt), true),
                Some(MsgType::Attach) => (self.handle_attach(i, &pkt), true),
                Some(MsgType::Detach) => {
                    self.handle_detach(i);
                    (Act::Nothing, true)
                },
                Some(MsgType::Winch) => (Act::Resize(winsize_from_bytes(&pkt.data)), true),
                Some(MsgType::Redraw) => (self.handle_redraw(&pkt), true),
                Some(MsgType::Kill) => (Act::Signal(self.handle_kill(&pkt)), true),
                Some(MsgType::ForceDetach) => {
                    self.evict_attached = true;
                    (Act::Nothing, false)
                },
                Some(MsgType::Info) => (Act::Tell(self.handle_info()), false),
                None => (Act::Nothing, true),
            },
            Err(ProtocolError::WouldBlock) => (Act::Nothing, true),
            Err(ProtocolError::Eof) => (Act::Nothing, false),
            Err(ProtocolError::Io(_)) => (Act::Nothing, false),
        };
        if keep {
            Turn { act, close: None, next: i + 1 }
        } else {
            self.clients.swap_remove(i);
            assert(self.clients@ =~= swap_removed(cs, i as int));
            proof {
                assert forall|k: int| 0 <= k < self.clients@.len() implies #[trigger] replay_of(
                    self.clients@[k],
                ).wf() by {
                    assert(replay_of(cs[k]).wf());
                    assert(replay_of(cs.last()).wf());
                }
            }
            Turn { act, close: Some(cfd), next: i }
        }
    }
}

// ---------------------------------------------------------------------------
// Clients that have to leave
// ---------------------------------------------------------------------------

impl SessionDaemon {
    /// After a packet batch, let all attached clients leave if one asked for
    /// that: the descriptors to close.
    pub fn evict(&mut self) -> (close: Vec<i32>)
        requires
            old(self).wf(),
        ensures
            final(self).wf(),
            final(self).same_but_clients(old(self)),
            !final(self).evict_attached,
            old(self).evict_attached ==> {
                &&& close@ == fds_of(attached(old(self).clients@))
                &&& final(self).clients@ == unattached(old(self).clients@)
            },
            !old(self).evict_attached ==> {
                &&& close@ == Seq::<i32>::empty()
                &&& final(self).clients@ == old(self).clients@
            },
    {
        let mut close: Vec<i32> = Vec::new();
        if !self.evict_attached {
            assert(close@ =~= Seq::<i32>::empty());
            return close;
        }
        self.evict_attached = false;
        let ghost cs = self.clients@;
        let ghost out = |c: Client| c.attached;
        let ghost kept = |c: Client| !c.attached;
        let mut rest: Vec<Client> = Vec::new();
        let mut i: usize = 0;
        proof {
            reveal(Seq::filter);
            assert(cs.take(0) =~= Seq::<Client>::empty());
            assert(close@ =~= fds_of(cs.take(0).filter(out)));
            assert(rest@ =~= cs.take(0).filter(kept));
        }
        while i < self.clients.len()
            invariant
                i <= cs.len(),
                cs == self.clients@,
                cs == old(self).clients@,
                self.same_but_clients(old(self)),
                !self.evict_attached,
                out == (|c: Client| c.attached),
                kept == (|c: Client| !c.attached),
                close@ == fds_of(cs.take(i as int).filter(out)),
                rest@ == cs.take(i as int).filter(kept),
                forall|k: int| 0 <= k < cs.len() ==> #[trigger] replay_of(cs[k]).wf(),
                forall|k: int| 0 <= k < rest@.len() ==> #[trigger] replay_of(rest@[k]).wf(),
            decreases cs.len() - i,
        {
            let c: Client = self.clients[i];
            proof {
                filter_grows(cs, i as int, out);
                filter_grows(cs, i as int, kept);
                assert(replay_of(cs[i as int]).wf());
            }
            if c.attached {
                close.push(c.fd);
                assert(close@ =~= fds_of(cs.take(i + 1).filter(out)));
            } else {
                rest.push(c);
            }
            i = i + 1;
        }
        assert(cs.take(cs.len() as int) =~= cs);
        self.clients = rest;
        close
    }
}

// ---------------------------------------------------------------------------
// Replays
// ---------------------------------------------------------------------------

/// The client after a part of its replay that left it at `rs`; `ok` tells that
/// no write failed.
pub open spec fn replay_went_on(c: Client, rs: ReplayState, ok: bool) -> Client {
    Client {
        replay_head: rs.head,
        replay_remaining: rs.remaining,
        attached: c.attached || (ok && rs.remaining == 0),
        ..c
    }
}

impl SessionDaemon {
    /// The replay to go on with for client `i`, whose fd is writable or not.
    pub fn drain_replay(&self, i: usize, writable: bool) -> (r: Option<ReplayState>)
        requires
            self.wf(),
            i < self.clients.len(),
        ensures
            r == (if self.clients@[i as int].replay_remaining > 0 && writable {
                Some(replay_of(self.clients@[i as int]))
            } else {
                None
            }),
            r matches Some(rs) ==> rs.wf(),
    {
        let c: Client = self.clients[i];
        assert(replay_of(c).wf());
        if c.replay_remaining > 0 && writable {
            Some(ReplayState { head: c.replay_head, remaining: c.replay_remaining })
        } else {
            None
        }
    }

    /// Take note of how far a part of client `i`'s replay went. A client that
    /// has received all of it is marked as attached.
    pub fn finish_replay(&mut self, i: usize, rs: ReplayState, ok: bool)
        requires
            old(self).wf(),
            i < old(self).clients.len(),
            rs.wf(),
        ensures
            final(self).wf(),
            final(self).same_but_clients(old(self)),
            final(self).evict_attached == old(self).evict_attached,
            final(self).clients@ == old(self).clients@.update(
                i as int,
                replay_went_on(old(self).clients@[i as int], rs, ok),
            ),
    {
        let mut c: Client = self.clients[i];
        c.replay_head = rs.head;
        c.replay_remaining = rs.remaining;
        if ok && rs.remaining == 0 {
            c.attached = true;
        }
        self.clients.set(i, c);
    }
}

// ---------------------------------------------------------------------------
// Output of the child
// ---------------------------------------------------------------------------

/// What to do about a read from the PTY.
#[derive(Debug)]
pub enum Output {
    /// Nothing: there was no data this time.
    Nothing,
    /// Pass this data on to the attached clients, after appending it to the
    /// session log where `log` says so.
    Forward { data: Vec<u8>, log: bool },
    /// The child has exited: reap it, clean up, and leave with its status.
    Exited,
}

impl SessionDaemon {
    /// Take note of a read from the PTY. Output goes into the scrollback; a
    /// read of no bytes or an error that is not transient means that the child
    /// has exited.
    pub fn handle_pty_output(&mut self, outcome: Result<Vec<u8>, IoError>) -> (r: Output)
        requires
            old(self).wf(),
        ensures
            final(self).wf(),
            final(self).clients@ == old(self).clients@,
            *final(self) == (SessionDaemon {
                scrollback: final(self).scrollback,
                ..*old(self)
            }),
            match outcome {
                Ok(data) => if data.len() > 0 {
                    &&& r matches Output::Forward { data: d, log }
                    &&& d@ == data@
                    &&& log == (old(self).log is Some)
                    &&& scrollback::appended(old(self).scrollback, data@, final(self).scrollback)
                } else {
                    r is Exited && final(self).scrollback == old(self).scrollback
                },
                Err(e) => {
                    &&& final(self).scrollback == old(self).scrollback
                    &&& if e is Other {
                        r is Exited
                    } else {
                        r is Nothing
                    }
                },
            },
    {
        match outcome {
            Ok(data) => {
                if data.len() == 0 {
                    return Output::Exited;
                }
                self.scrollback.append(data.as_slice());
                let log: bool = self.log.is_some();
                Output::Forward { data, log }
            },
            Err(IoError::Interrupted) => Output::Nothing,
            Err(IoError::WouldBlock) => Output::Nothing,
            Err(IoError::Other(_)) => Output::Exited,
        }
    }
}

/// How a write of output to a client went.
#[derive(Clone, Copy, Debug, PartialEq, Eq, Structural)]
pub enum Verdict {
    /// The client has all of it.
    Sent,
    /// The client has none of it and may be tried again.
    Later,
    /// The client has to leave: the write failed or was partial.
    Bad,
}

/// How a write of `len` bytes with this outcome went.
pub open spec fn verdict_of(len: int, outcome: Result<usize, IoError>) -> Verdict {
    match outcome {
        Ok(n) => if n == len {
            Verdict::Sent
        } else {
            Verdict::Bad
        },
        Err(e) => if e is WouldBlock {
            Verdict::Later
        } else {
            Verdict::Bad
        },
    }
}

/// How a write of `len` bytes with this outcome went.
pub fn write_verdict(len: usize, outcome: Result<usize, IoError>) -> (v: Verdict)
    ensures
        v == verdict_of(len as int, outcome),
{
    match outcome {
        Ok(n) => if n == len {
            Verdict::Sent
        } else {
            Verdict::Bad
        },
        Err(IoError::WouldBlock) => Verdict::Later,
        Err(_) => Verdict::Bad,
    }
}

/// The end of a round of writes.
#[derive(Debug)]
pub struct Round {
    /// The descriptors to close.
    pub close: Vec<i32>,
    /// Whether to try another round.
    pub again: bool,
}

/// The descriptors of the clients whose writes went bad, in the order in which
/// they were tried.
pub open spec fn bad_fds(tried: Seq<(i32, Verdict)>) -> Seq<i32>
    decreases tried.len(),
{
    if tried.len() == 0 {
        Seq::empty()
    } else if tried.last().1 == Verdict::Bad {
        bad_fds(tried.drop_last()).push(tried.last().0)
    } else {
        bad_fds(tried.drop_last())
    }
}

/// Whether a client of the round has all of the output.
pub open spec fn any_sent(tried: Seq<(i32, Verdict)>) -> bool {
    exists|i: int| 0 <= i < tried.len() && (#[trigger] tried[i]).1 == Verdict::Sent
}

/// The clients whose descriptors are not among `gone`.
pub open spec fn without(clients: Seq<Client>, gone: Seq<i32>) -> Seq<Client> {
    clients.filter(|c: Client| !gone.contains(c.fd))
}

/// Whether `x` is one of `v`.
fn is_among(v: &Vec<i32>, x: i32) -> (r: bool)
    ensures
        r == v@.contains(x),
{
    let mut i: usize = 0;
    while i < v.len()
        invariant
            i <= v.len(),
            forall|k: int| 0 <= k < i ==> v@[k] != x,
        decreases v.len() - i,
    {
        if v[i] == x {
            assert(v@[i as int] == x);
            return true;
        }
        i = i + 1;
    }
    false
}

impl SessionDaemon {
    /// Whether a client receives live output.
    fn someone_attached(&self) -> (r: bool)
        ensures
            r == any_attached(self.clients@),
    {
        let mut i: usize = 0;
        while i < self.clients.len()
            invariant
                i <= self.clients.len(),
                forall|k: int| 0 <= k < i ==> !(#[trigger] self.clients@[k]).attached,
            decreases self.clients.len() - i,
        {
            if self.clients[i].attached {
                return true;
            }
            i = i + 1;
        }
        false
    }

    /// Begin a round of passing output on: wait until the listener has a new
    /// connection or an attached client can be written to. `None` where no
    /// client is attached.
    pub fn send_to_clients(&self) -> (r: Option<FdSets>)
        ensures
            r is Some <==> any_attached(self.clients@),
            r matches Some(sets) ==> {
                &&& sets.read@ == seq![self.listener_fd]
                &&& sets.write@ == fds_of(attached(self.clients@))
                &&& is_largest(sets.maxfd, sets.read@ + sets.write@)
            },
    {
        if !self.someone_attached() {
            return None;
        }
        let mut read: Vec<i32> = Vec::new();
        read.push(self.listener_fd);
        let mut write: Vec<i32> = Vec::new();
        let mut maxfd: i32 = self.listener_fd;
        let ghost cs = self.clients@;
        let ghost keep = |c: Client| c.attached;
        let mut i: usize = 0;
        proof {
            reveal(Seq::filter);
            assert(cs.take(0) =~= Seq::<Client>::empty());
            assert(write@ =~= fds_of(cs.take(0).filter(keep)));
            assert((read@ + write@)[0] == maxfd);
        }
        while i < self.clients.len()
            invariant
                i <= cs.len(),
                cs == self.clients@,
                keep == (|c: Client| c.attached),
                read@ == seq![self.listener_fd],
                write@ == fds_of(cs.take(i as int).filter(keep)),
                is_largest(maxfd, read@ + write@),
            decreases cs.len() - i,
        {
            let c: Client = self.clients[i];
            proof {
                filter_grows(cs, i as int, keep);
            }
            if c.attached {
                let ghost all0 = read@ + write@;
                write.push(c.fd);
                assert(write@ =~= fds_of(cs.take(i + 1).filter(keep)));
                proof {
                    let all = read@ + write@;
                    assert(all =~= all0.push(c.fd));
                    assert(all[all0.len() as int] == c.fd);
                    let w = choose|k: int| 0 <= k < all0.len() && all0[k] == maxfd;
                    assert(all[w] == maxfd);
                }
                if c.fd > maxfd {
                    maxfd = c.fd;
                }
            }
            i = i + 1;
        }
        assert(cs.take(cs.len() as int) =~= cs);
        assert(read@ =~= seq![self.listener_fd]);
        Some(FdSets { read, write, maxfd })
    }

    /// End a round of passing output on, in which the clients `tried` were
    /// written to. Clients whose writes went bad are removed, and their
    /// descriptors are to be closed. There is another round unless a client
    /// has the output, a new connection waits, or no one is attached any more.
    pub fn end_round(&mut self, tried: &Vec<(i32, Verdict)>, listener_ready: bool) -> (r: Round)
        requires
            old(self).wf(),
        ensures
            final(self).wf(),
            final(self).same_but_clients(old(self)),
            final(self).evict_attached == old(self).evict_attached,
            r.close@ == bad_fds(tried@),
            final(self).clients@ == without(old(self).clients@, bad_fds(tried@)),
            r.again == (!any_sent(tried@) && !listener_ready && any_attached(final(self).clients@)),
    {
        let mut close: Vec<i32> = Vec::new();
        let mut sent: bool = false;
        let mut i: usize = 0;
        while i < tried.len()
            invariant
                i <= tried.len(),
                close@ == bad_fds(tried@.take(i as int)),
                sent == any_sent(tried@.take(i as int)),
            decreases tried.len() - i,
        {
            let (fd, v): (i32, Verdict) = tried[i];
            proof {
                let now = tried@.take(i as int);
                let next = tried@.take(i + 1);
                assert(next.drop_last() =~= now);
                assert(next.last() == (fd, v));
                if v == Verdict::Sent {
                    assert(next[i as int].1 == Verdict::Sent);
                }
                if any_sent(now) {
                    let k = choose|k: int| 0 <= k < now.len() && (#[trigger] now[k]).1
                        == Verdict::Sent;
                    assert(next[k].1 == Verdict::Sent);
                }
                if any_sent(next) && v != Verdict::Sent {
                    let k = choose|k: int| 0 <= k < next.len() && (#[trigger] next[k]).1
                        == Verdict::Sent;
                    assert(now[k].1 == Verdict::Sent);
                }
            }
            match v {
                Verdict::Sent => {
                    sent = true;
                },
                Verdict::Later => {},
                Verdict::Bad => {
                    close.push(fd);
                },
            }
            i = i + 1;
        }
        assert(tried@.take(tried@.len() as int) =~= tried@);
        let ghost cs = self.clients@;
        let ghost gone = close@;
        let ghost keep = |c: Client| !gone.contains(c.fd);
        let mut rest: Vec<Client> = Vec::new();
        let mut j: usize = 0;
        proof {
            reveal(Seq::filter);
            assert(cs.take(0) =~= Seq::<Client>::empty());
            assert(rest@ =~= cs.take(0).filter(keep));
        }
        while j < self.clients.len()
            invariant
                j <= cs.len(),
                cs == self.clients@,
                *self == *old(self),
                gone == close@,
                keep == (|c: Client| !gone.contains(c.fd)),
                rest@ == cs.take(j as int).filter(keep),
                forall|k: int| 0 <= k < cs.len() ==> #[trigger] replay_of(cs[k]).wf(),
                forall|k: int| 0 <= k < rest@.len() ==> #[trigger] replay_of(rest@[k]).wf(),
            decreases cs.len() - j,
        {
            let c: Client = self.clients[j];
            proof {
                filter_grows(cs, j as int, keep);
                assert(replay_of(cs[j as int]).wf());
            }
            if !is_among(&close, c.fd) {
                rest.push(c);
            }
            j = j + 1;
        }
        assert(cs.take(cs.len() as int) =~= cs);
        self.clients = rest;
        let again: bool = !sent && !listener_ready && self.someone_attached();
        Round { close, again }
    }
}

// ---------------------------------------------------------------------------
// A turn of the loop
// ---------------------------------------------------------------------------

/// How far a turn of the daemon's loop has come.
#[derive(Clone, Copy, Debug, PartialEq, Eq)]
pub enum Stage {
    /// At its start.
    Start,
    /// At the packets of the clients from this place of the list on.
    Packets(usize),
    /// At the replays of the clients from this place of the list on.
    Replays(usize),
    /// At its end.
    End,
}

/// A turn of the daemon's loop.
#[derive(Debug)]
pub struct Serve {
    /// The descriptors that can be read from.
    pub readable: Vec<i32>,
    /// The descriptors that can be written to.
    pub writable: Vec<i32>,
    /// How far it has come.
    pub stage: Stage,
}

/// What to do next in a turn of the daemon's loop.
#[derive(Clone, Copy, Debug, PartialEq, Eq)]
pub enum RunStep {
    /// Accept a connection, for [`SessionDaemon::accept_client`].
    Accept,
    /// Read a packet from client `i`, for
    /// [`SessionDaemon::handle_client_packets`], and go on with
    /// [`Serve::at_client`].
    Read { i: usize, fd: i32 },
    /// Let clients leave: [`SessionDaemon::evict`].
    Evict,
    /// Go on with this replay to client `i`, for
    /// [`SessionDaemon::finish_replay`].
    Replay { i: usize, fd: i32, rs: ReplayState },
    /// Read from the PTY, for [`SessionDaemon::handle_pty_output`].
    Output,
    /// Nothing: wait for the next turn.
    Over,
}

/// The first place from `i` on whose client is as `p` says, or the end of the
/// list.
pub open spec fn first_from(clients: Seq<Client>, i: int, p: spec_fn(Client) -> bool) -> int
    decreases clients.len() - i,
{
    if i < 0 || i >= clients.len() {
        clients.len() as int
    } else if p(clients[i]) {
        i
    } else {
        first_from(clients, i + 1, p)
    }
}

impl Serve {
    /// The turn with these ready descriptors, at its start.
    pub fn new(readable: Vec<i32>, writable: Vec<i32>) -> (s: Serve)
        ensures
            s.readable == readable,
            s.writable == writable,
            s.stage == Stage::Start,
    {
        Serve { readable, writable, stage: Stage::Start }
    }

    /// Go on at the packets of the clients from place `i` on.
    pub fn at_client(&mut self, i: usize)
        ensures
            *final(self) == (Serve { stage: Stage::Packets(i), ..*old(self) }),
    {
        self.stage = Stage::Packets(i);
    }
}

impl SessionDaemon {
    /// What to do at the output of the child: read it where there is any.
    pub open spec fn run_output(&self, readable: Seq<i32>) -> (Stage, RunStep) {
        (
            Stage::End,
            if readable.contains(self.pty.fd) {
                RunStep::Output
            } else {
                RunStep::Over
            },
        )
    }

    /// What to do at the replays from place `i` on: go on with the next one
    /// whose client can be written to.
    pub open spec fn run_replays(
        &self,
        readable: Seq<i32>,
        writable: Seq<i32>,
        i: int,
    ) -> (Stage, RunStep) {
        let k = first_from(
            self.clients@,
            i,
            |c: Client| c.replay_remaining > 0 && writable.contains(c.fd),
        );
        if k < self.clients@.len() {
            let c = self.clients@[k];
            (
                Stage::Replays((k + 1) as usize),
                RunStep::Replay { i: k as usize, fd: c.fd, rs: replay_of(c) },
            )
        } else {
            self.run_output(readable)
        }
    }

    /// What to do at the packets from place `i` on: read one from the next
    /// client that can be read from, and let clients leave after the last.
    pub open spec fn run_packets(&self, readable: Seq<i32>, i: int) -> (Stage, RunStep) {
        let k = first_from(self.clients@, i, |c: Client| readable.contains(c.fd));
        if k < self.clients@.len() {
            (
                Stage::Packets(k as usize),
                RunStep::Read { i: k as usize, fd: self.clients@[k].fd },
            )
        } else {
            (Stage::Replays(0), RunStep::Evict)
        }
    }

    /// What to do next in a turn, and how far it has come then.
    pub open spec fn run_next(
        &self,
        readable: Seq<i32>,
        writable: Seq<i32>,
        stage: Stage,
    ) -> (Stage, RunStep) {
        match stage {
            Stage::Start => if readable.contains(self.listener_fd) {
                (Stage::Packets(0), RunStep::Accept)
            } else {
                self.run_packets(readable, 0)
            },
            Stage::Packets(i) => self.run_packets(readable, i as int),
            Stage::Replays(i) => self.run_replays(readable, writable, i as int),
            Stage::End => (Stage::End, RunStep::Over),
        }
    }

    fn next_output(&self, readable: &Vec<i32>) -> (r: (Stage, RunStep))
        ensures
            r == self.run_output(readable@),
    {
        if is_among(readable, self.pty.fd) {
            (Stage::End, RunStep::Output)
        } else {
            (Stage::End, RunStep::Over)
        }
    }

    fn next_replay(&self, readable: &Vec<i32>, writable: &Vec<i32>, from: usize) -> (r: (
        Stage,
        RunStep,
    ))
        requires
            self.wf(),
        ensures
            r == self.run_replays(readable@, writable@, from as int),
    {
        let ghost p = |c: Client| c.replay_remaining > 0 && writable@.contains(c.fd);
        let mut i: usize = from;
        while i < self.clients.len()
            invariant
                from <= i,
                self.wf(),
                p == (|c: Client| c.replay_remaining > 0 && writable@.contains(c.fd)),
                first_from(self.clients@, from as int, p) == first_from(
                    self.clients@,
                    i as int,
                    p,
                ),
            decreases self.clients.len() - i,
        {
            let fd: i32 = self.clients[i].fd;
            match self.drain_replay(i, is_among(writable, fd)) {
                Some(rs) => {
                    return (Stage::Replays(i + 1), RunStep::Replay { i, fd, rs });
                },
                None => {},
            }
            i = i + 1;
        }
        self.next_output(readable)
    }

    fn next_packet(&self, readable: &Vec<i32>, from: usize) -> (r: (Stage, RunStep))
        ensures
            r == self.run_packets(readable@, from as int),
    {
        let ghost p = |c: Client| readable@.contains(c.fd);
        let mut i: usize = from;
        while i < self.clients.len()
            invariant
                from <= i,
                p == (|c: Client| readable@.contains(c.fd)),
                first_from(self.clients@, from as int, p) == first_from(
                    self.clients@,
                    i as int,
                    p,
                ),
            decreases self.clients.len() - i,
        {
            let fd: i32 = self.clients[i].fd;
            if is_among(readable, fd) {
                return (Stage::Packets(i), RunStep::Read { i, fd });
            }
            i = i + 1;
        }
        (Stage::Replays(0), RunStep::Evict)
    }

    /// Go on with a turn of the main loop:
    ///
    /// 1. Accept a new client connection.
    /// 2. Process client packets (push, attach, detach, winch, redraw, kill),
    ///    and let clients leave if one asked for that.
    /// 3. Drain replay data to newly-attached clients.
    /// 4. Read PTY output and forward it to attached clients.
    pub fn run(&self, serve: &mut Serve) -> (step: RunStep)
        requires
            self.wf(),
        ensures
            ({
                let next = self.run_next(
                    old(serve).readable@,
                    old(serve).writable@,
                    old(serve).stage,
                );
                &&& *final(serve) == (Serve { stage: next.0, ..*old(serve) })
                &&& step == next.1
            }),
    {
        let (stage, step): (Stage, RunStep) = match serve.stage {
            Stage::Start => {
                if is_among(&serve.readable, self.listener_fd) {
                    (Stage::Packets(0), RunStep::Accept)
                } else {
                    self.next_packet(&serve.readable, 0)
                }
            },
            Stage::Packets(i) => self.next_packet(&serve.readable, i),
            Stage::Replays(i) => self.next_replay(&serve.readable, &serve.writable, i),
            Stage::End => (Stage::End, RunStep::Over),
        };
        serve.stage = stage;
        step
    }
}

// ---------------------------------------------------------------------------
// Beginning and end
// ---------------------------------------------------------------------------

/// What to append to the log of a session that ends, whose socket is then to be
/// removed; `log` is closed.
pub fn cleanup_session(sockname: &str, log: &mut Option<SessionLog>, progname: &str) -> (marker:
    Option<String>)
    ensures
        *final(log) == None::<SessionLog>,
        report::text_of(marker) == (match *old(log) {
            Some(_) => Some(session_log::end_marker(progname@, sockname@)),
            None => None,
        }),
{
    match log.take() {
        Some(l) => Some(l.close(progname, sockname)),
        None => None,
    }
}

impl SessionDaemon {
    /// Close the log: what to append to it before. The session socket is then
    /// to be removed.
    pub fn cleanup(&mut self) -> (marker: Option<String>)
        ensures
            *final(self) == (SessionDaemon { log: None, ..*old(self) }),
            report::text_of(marker) == (match old(self).log {
                Some(_) => Some(session_log::end_marker(old(self).progname@, old(self).sockname@)),
                None => None,
            }),
    {
        cleanup_session(self.sockname.as_str(), &mut self.log, self.progname.as_str())
    }

    /// Create a new daemon instance for the session `sess`, listening on
    /// `listener_fd`, where forking into a new pseudo-terminal gave `forked`.
    ///
    /// Returns the report and the exit code if there is no pseudo-terminal.
    pub fn new(
        listener_fd: i32,
        forked: Result<Pty, String>,
        log: Option<SessionLog>,
        sess: &Session,
    ) -> (r: Result<SessionDaemon, (Report, i32)>)
        ensures
            match forked {
                Ok(pty) => {
                    &&& r matches Ok(d)
                    &&& d.wf()
                    &&& d.listener_fd == listener_fd
                    &&& d.pty == pty
                    &&& d.clients@ == Seq::<Client>::empty()
                    &&& d.scrollback.head == 0
                    &&& d.scrollback.len == 0
                    &&& d.scrollback.buf@ == Seq::new(SCROLLBACK_SIZE as nat, |i: int| 0u8)
                    &&& d.scrollback@ == Seq::<u8>::empty()
                    &&& d.log == log
                    &&& d.sockname@ == sess.sockname@
                    &&& d.progname@ == sess.progname@
                    &&& d.app_log.name() == sess.app_log.name()
                    &&& d.app_log.place() == sess.app_log.place()
                    &&& !d.has_attached
                    &&& !d.evict_attached
                },
                Err(msg) => {
                    &&& r matches Err(failure)
                    &&& failure.0@ == report::ReportView::warned(
                        sess.progname@,
                        LogLevel::Error,
                        msg@,
                    )
                    &&& failure.1 == 1
                },
            },
    {
        match forked {
            Ok(pty) => {
                let clients: Vec<Client> = Vec::new();
                assert(clients@ =~= Seq::<Client>::empty());
                Ok(
                    SessionDaemon {
                        listener_fd,
                        pty,
                        clients,
                        scrollback: Scrollback::new(),
                        log,
                        sockname: sess.sockname.as_str().to_owned(),
                        progname: sess.progname.as_str().to_owned(),
                        app_log: sess.app_log.clone(),
                        has_attached: false,
                        evict_attached: false,
                    },
                )
            },
            Err(msg) => Err((Report::warned(sess.progname.as_str(), LogLevel::Error, msg), 1)),
        }
    }
}

impl Session {
    /// The path of the log to open for a new session, where it is to have one.
    pub fn log_to_open(&self) -> (r: Option<String>)
        ensures
            report::text_of(r) == (if self.log_max_size > 0 {
                Some(session_log::log_path(self.sockname@))
            } else {
                None
            }),
    {
        if self.log_max_size > 0 {
            Some(log_path_of(self.sockname.as_str()))
        } else {
            None
        }
    }
}

/// How to go on with the creation of a session.
#[derive(Debug)]
pub enum Spawn {
    /// Not at all: pass on the report and leave with this code.
    Refuse(Report, i32),
    /// Run the daemon in this process.
    RunHere,
    /// Make a pipe for errors and fork.
    Fork,
}

/// The message of a session whose socket could not be made.
pub open spec fn listen_failure(sockname: Seq<char>, err: OsError) -> Seq<char> {
    if err.errno == sys::eaddrinuse() {
        report::about(sockname, "is already running"@)
    } else {
        report::detail(sockname, err.text@)
    }
}

/// Begin to create a session whose socket is listening, or is not for a reason.
///
/// If `dontfork` is true, the daemon runs in the foreground. Otherwise it is
/// forked into the background.
pub fn session_daemon_main(sess: &Session, listening: Result<(), OsError>, dontfork: bool) -> (r:
    Spawn)
    ensures
        match listening {
            Err(err) => {
                &&& r matches Spawn::Refuse(rep, code)
                &&& rep@ == report::ReportView::printed(
                    sess.progname@,
                    LogLevel::Error,
                    listen_failure(sess.sockname@, err),
                )
                &&& code == 1
            },
            Ok(()) => if dontfork {
                r is RunHere
            } else {
                r is Fork
            },
        },
{
    match listening {
        Err(err) => {
            let msg: String = if err.errno == sys::libc_eaddrinuse() {
                report::about_session(sess.sockname.as_str(), "is already running")
            } else {
                report::detail_of(sess.sockname.as_str(), err.text.as_str())
            };
            Spawn::Refuse(Report::printed(sess.progname.as_str(), LogLevel::Error, msg), 1)
        },
        Ok(()) => {
            if dontfork {
                Spawn::RunHere
            } else {
                Spawn::Fork
            }
        },
    }
}

/// Which process goes on after the fork of the daemon.
#[derive(Debug)]
pub enum DaemonFork {
    /// There was no fork: pass on the report, remove the session's socket and
    /// leave with this code.
    Refuse(Report, i32),
    /// This is the daemon: start it, and write a byte to the pipe if that
    /// fails.
    Daemon,
    /// This is the process that created it: read from the pipe.
    Creator,
}

/// Tell the processes apart after `fork` returned `pid`; `text` describes the
/// error if there was one.
pub fn daemon_forked(sess: &Session, pid: i32, text: &str) -> (r: DaemonFork)
    ensures
        pid < 0 ==> {
            &&& r matches DaemonFork::Refuse(rep, code)
            &&& rep@ == report::ReportView::printed(
                sess.progname@,
                LogLevel::Error,
                report::detail("fork"@, text@),
            )
            &&& code == 1
        },
        pid == 0 ==> r is Daemon,
        pid > 0 ==> r is Creator,
{
    if pid < 0 {
        let msg: String = report::detail_of("fork", text);
        DaemonFork::Refuse(Report::printed(sess.progname.as_str(), LogLevel::Error, msg), 1)
    } else if pid == 0 {
        DaemonFork::Daemon
    } else {
        DaemonFork::Creator
    }
}

/// What to do when the creator of a daemon has read `n` from the error pipe, or
/// has no pipe: the signal to send to the daemon, if any, and the exit code. A
/// byte in the pipe says that the daemon did not start.
pub fn daemon_started(n: Option<i64>) -> (r: (Option<i32>, i32))
    ensures
        r == (match n {
            Some(k) if k > 0 => (Some(sys::sigterm()), 1i32),
            _ => (None, 0i32),
        }),
{
    match n {
        Some(k) => {
            if k > 0 {
                (Some(sys::libc_sigterm()), 1)
            } else {
                (None, 0)
            }
        },
        None => (None, 0),
    }
}

} // verus!
