//! Attaching to a session, and the client that is attached.

use crate::app_log;
use crate::app_log::{fmt_age_at, LogLevel};
use crate::protocol;
use crate::protocol::{ClearMethod, IoError, MsgType, Packet};
use crate::report;
use crate::report::{OsError, Report, ReportView};
use crate::session;
use crate::session::{leave, Leave, LeaveView, Session};
use crate::term;
use crate::term::{suspend_char, winsize_to_bytes, Termios, WinSize};
use crate::text;
use crate::text::any_piece_is;
use vstd::prelude::*;
use vstd::string::*;

verus! {

// ---------------------------------------------------------------------------
// Attaching
// ---------------------------------------------------------------------------

/// What happened in the course of attaching.
#[derive(Debug)]
pub enum AttachEvent {
    /// It begins; this is the value of the session variable.
    Chain(Option<String>),
    /// There is a connection.
    Connected,
    /// There is none, for this reason.
    NotConnected(OsError),
    /// There is none for this reason, and the log was replayed or not.
    ReplayedAfterFailure(OsError, bool),
    /// There is a connection, and the log was replayed or not.
    Replayed(bool),
    /// The attach request was sent or not.
    AttachSent(bool),
    /// The redraw request was sent or not.
    RedrawSent(bool),
}

/// What to do next in order to attach.
#[derive(Debug)]
pub enum AttachStep {
    /// Connect to the session's socket.
    Connect,
    /// Replay the session's log in view of this error.
    ReplayAfterFailure(OsError),
    /// Replay the session's log.
    Replay,
    /// Take note of the session's start, set up signals and the terminal, write
    /// `screen` to it, and send `packet`.
    Greet { screen: Vec<u8>, packet: Packet },
    /// Send the [`Session::redraw_packet`] of the terminal's window size.
    Redraw,
    /// Forward input and output from now on.
    EventLoop,
    /// Stop.
    Leave(Leave),
}

/// The characters of the session variable.
pub open spec fn chain_text(chain: Option<String>) -> Seq<char> {
    match chain {
        Some(c) => c@,
        None => Seq::empty(),
    }
}

/// Whether the session variable says that this process runs inside the session
/// with the socket `sockname`.
pub open spec fn inside(chain: Seq<char>, sockname: Seq<char>) -> bool {
    chain.len() > 0 && text::has_piece(chain, ':', sockname)
}

impl Session {
    /// What the terminal is sent before the session's output: a reset, or a new
    /// line where no log was replayed.
    pub open spec fn attach_screen(&self, replayed: bool) -> Seq<u8> {
        if self.clear_method == ClearMethod::Move && !self.no_ansiterm {
            seq![0x1bu8, 0x63u8]
        } else if !self.quiet && !replayed {
            seq![0x0du8, 0x0au8]
        } else {
            Seq::empty()
        }
    }

    fn screen(&self, replayed: bool) -> (r: Vec<u8>)
        ensures
            r@ == self.attach_screen(replayed),
    {
        let mut r: Vec<u8> = Vec::new();
        if self.clear_method == ClearMethod::Move && !self.no_ansiterm {
            r.push(0x1b);
            r.push(0x63);
        } else if !self.quiet && !replayed {
            r.push(0x0d);
            r.push(0x0a);
        }
        assert(r@ =~= self.attach_screen(replayed));
        r
    }

    /// Attach to a running session, step by step: what to do after `event`.
    ///
    /// A session cannot be attached to from within itself. A connection that
    /// fails leaves with its error number, so that callers can decide whether
    /// to create a session; unless `noerror` is set, the session's log is
    /// replayed, and a message takes its place where there is none.
    pub fn attach(&self, noerror: bool, event: AttachEvent) -> (step: AttachStep)
        ensures
            match event {
                AttachEvent::Chain(chain) => if inside(chain_text(chain), self.sockname@) {
                    &&& step matches AttachStep::Leave(l)
                    &&& l@ == (if noerror {
                        session::leaving_silently(1)
                    } else {
                        session::leaving(
                            self.statement(
                                LogLevel::Error,
                                "cannot attach to session '"@ + self.shortname()
                                    + "' from within itself"@,
                            ),
                            1,
                        )
                    })
                } else {
                    step is Connect
                },
                AttachEvent::Connected => step is Replay,
                AttachEvent::NotConnected(err) => if noerror {
                    &&& step matches AttachStep::Leave(l)
                    &&& l@ == session::leaving_silently(err.errno)
                } else {
                    step == AttachStep::ReplayAfterFailure(err)
                },
                AttachEvent::ReplayedAfterFailure(err, replayed) => {
                    &&& step matches AttachStep::Leave(l)
                    &&& l@ == (if replayed || noerror {
                        session::leaving_silently(err.errno)
                    } else {
                        session::leaving(
                            self.statement(
                                LogLevel::Error,
                                session::attach_failure(self.sockname@, err),
                            ),
                            err.errno,
                        )
                    })
                },
                AttachEvent::Replayed(replayed) => {
                    &&& step matches AttachStep::Greet { screen, packet }
                    &&& screen@ == self.attach_screen(replayed)
                    &&& packet.msg_type == MsgType::Attach.wire()
                    &&& packet.len == (if replayed {
                        1u8
                    } else {
                        0u8
                    })
                    &&& packet.data@ == protocol::zero_payload()
                },
                AttachEvent::AttachSent(ok) => if ok {
                    step is Redraw
                } else {
                    &&& step matches AttachStep::Leave(l)
                    &&& l@ == session::leaving(
                        self.warning(
                            "failed to send attach request to '"@ + self.shortname() + "'"@,
                        ),
                        1,
                    )
                },
                AttachEvent::RedrawSent(ok) => if ok {
                    step is EventLoop
                } else {
                    &&& step matches AttachStep::Leave(l)
                    &&& l@ == session::leaving(
                        self.warning(
                            "failed to send redraw request to '"@ + self.shortname() + "'"@,
                        ),
                        1,
                    )
                },
            },
    {
        match event {
            AttachEvent::Chain(chain) => {
                let within: bool = match &chain {
                    Some(c) => !c.as_str().is_empty() && any_piece_is(
                        c.as_str(),
                        ':',
                        self.sockname.as_str(),
                    ),
                    None => false,
                };
                if !within {
                    return AttachStep::Connect;
                }
                if noerror {
                    return AttachStep::Leave(Leave { report: None, code: 1 });
                }
                let msg: String = self.about_quoted(
                    "cannot attach to session '",
                    "' from within itself",
                );
                AttachStep::Leave(leave(self.status(LogLevel::Error, msg), 1))
            },
            AttachEvent::Connected => AttachStep::Replay,
            AttachEvent::NotConnected(err) => {
                if noerror {
                    AttachStep::Leave(Leave { report: None, code: err.errno })
                } else {
                    AttachStep::ReplayAfterFailure(err)
                }
            },
            AttachEvent::ReplayedAfterFailure(err, replayed) => {
                if replayed || noerror {
                    return AttachStep::Leave(Leave { report: None, code: err.errno });
                }
                let msg: String = self.attach_failed(&err);
                AttachStep::Leave(leave(self.status(LogLevel::Error, msg), err.errno))
            },
            AttachEvent::Replayed(replayed) => {
                let len: u8 = if replayed {
                    1
                } else {
                    0
                };
                AttachStep::Greet {
                    screen: self.screen(replayed),
                    packet: Packet::encode(MsgType::Attach, len),
                }
            },
            AttachEvent::AttachSent(ok) => {
                if ok {
                    return AttachStep::Redraw;
                }
                let msg: String = self.about_quoted("failed to send attach request to '", "'");
                AttachStep::Leave(leave(self.warn(msg), 1))
            },
            AttachEvent::RedrawSent(ok) => {
                if ok {
                    return AttachStep::EventLoop;
                }
                let msg: String = self.about_quoted("failed to send redraw request to '", "'");
                AttachStep::Leave(leave(self.warn(msg), 1))
            },
        }
    }

    /// The packet that asks for the screen to be drawn again in a window of
    /// size `ws`.
    pub fn redraw_packet(&self, ws: WinSize) -> (p: Packet)
        ensures
            p.msg_type == MsgType::Redraw.wire(),
            p.len == self.redraw_method.wire(),
            p.data@ == term::winsize_bytes(ws),
    {
        let mut p: Packet = Packet::encode(MsgType::Redraw, self.redraw_method.as_u8());
        p.data = winsize_to_bytes(ws);
        p
    }
}

/// The packet that tells of a new window size.
pub fn winch_packet(ws: WinSize) -> (p: Packet)
    ensures
        p.msg_type == MsgType::Winch.wire(),
        p.len == 0,
        p.data@ == term::winsize_bytes(ws),
{
    let mut p: Packet = Packet::new(MsgType::Winch);
    p.data = winsize_to_bytes(ws);
    p
}

// ---------------------------------------------------------------------------
// The attached client
// ---------------------------------------------------------------------------

/// What to do about a turn of the attached client's loop.
#[derive(Debug)]
pub enum LoopStep {
    /// Wait for data of the session and for input.
    Wait,
    /// Begin anew.
    Again,
    /// Handle what is ready, as [`Turn::next`] says.
    Serve(Turn),
    /// Restore the terminal and leave.
    Leave(Leave),
}

/// What a wait of the attached client found.
#[derive(Clone, Copy, Debug, PartialEq, Eq, Structural)]
pub struct Ready {
    /// There is data of the session.
    pub server: bool,
    /// There is input from the user.
    pub input: bool,
}

/// How far a turn of the attached client's loop has come.
#[derive(Clone, Copy, Debug, PartialEq, Eq, Structural)]
pub enum TurnStage {
    /// At the data of the session.
    Server,
    /// At the input from the user.
    Input,
    /// At the window size.
    Size,
    /// At its end.
    End,
}

/// A turn of the attached client's loop.
#[derive(Clone, Copy, Debug, PartialEq, Eq, Structural)]
pub struct Turn {
    /// What is ready.
    pub ready: Ready,
    /// Whether the input asks for the window size to be sent.
    pub redraw: bool,
    /// How far it has come.
    pub stage: TurnStage,
}

/// What to do next in a turn of the attached client's loop.
#[derive(Clone, Copy, Debug, PartialEq, Eq, Structural)]
pub enum TurnStep {
    /// Read from the session, for [`Session::handle_server_data`].
    Server,
    /// Read from standard input, for [`Session::handle_stdin_data`], and take
    /// note with [`Turn::input_handled`].
    Input,
    /// Send the [`winch_packet`] of the terminal's window size, which counts as
    /// unchanged from now on.
    SendSize,
    /// Nothing: wait for the next turn.
    Over,
}

impl Turn {
    /// The turn that begins with what is ready.
    pub open spec fn begun(ready: Ready) -> Turn {
        Turn { ready, redraw: false, stage: TurnStage::Server }
    }

    /// What to do at the window size: send it where it has changed or the input
    /// asks for it.
    pub open spec fn at_size(self, size_changed: bool) -> (TurnStage, TurnStep) {
        (
            TurnStage::End,
            if size_changed || self.redraw {
                TurnStep::SendSize
            } else {
                TurnStep::Over
            },
        )
    }

    /// What to do at the input: read it where there is any.
    pub open spec fn at_input(self, size_changed: bool) -> (TurnStage, TurnStep) {
        if self.ready.input {
            (TurnStage::Size, TurnStep::Input)
        } else {
            self.at_size(size_changed)
        }
    }

    /// What to do next, and how far the turn has come then, where
    /// `size_changed` tells that the window size has changed by now.
    pub open spec fn go_on(self, size_changed: bool) -> (TurnStage, TurnStep) {
        match self.stage {
            TurnStage::Server => if self.ready.server {
                (TurnStage::Input, TurnStep::Server)
            } else {
                self.at_input(size_changed)
            },
            TurnStage::Input => self.at_input(size_changed),
            TurnStage::Size => self.at_size(size_changed),
            TurnStage::End => (TurnStage::End, TurnStep::Over),
        }
    }

    /// Go on with a turn:
    ///
    /// 1. Handle the data of the session.
    /// 2. Handle the input from the user.
    /// 3. Send the window size, where it has changed by then or the input asks
    ///    for that.
    pub fn next(&mut self, size_changed: bool) -> (step: TurnStep)
        ensures
            step == old(self).go_on(size_changed).1,
            *final(self) == (Turn { stage: old(self).go_on(size_changed).0, ..*old(self) }),
    {
        if self.stage == TurnStage::Server {
            self.stage = TurnStage::Input;
            if self.ready.server {
                return TurnStep::Server;
            }
        }
        if self.stage == TurnStage::Input {
            self.stage = TurnStage::Size;
            if self.ready.input {
                return TurnStep::Input;
            }
        }
        if self.stage == TurnStage::Size {
            self.stage = TurnStage::End;
            if size_changed || self.redraw {
                return TurnStep::SendSize;
            }
        }
        TurnStep::Over
    }

    /// Take note of what the input asks for.
    pub fn input_handled(&mut self, step: &StdinStep)
        ensures
            *final(self) == (Turn {
                redraw: old(self).redraw || (step matches StdinStep::Send { packet, redraw }
                    && *redraw),
                ..*old(self)
            }),
    {
        if let StdinStep::Send { packet: _, redraw } = step {
            if *redraw {
                self.redraw = true;
            }
        }
    }

    /// How many stages of the turn are left.
    pub open spec fn stages_left(self) -> nat {
        match self.stage {
            TurnStage::Server => 3,
            TurnStage::Input => 2,
            TurnStage::Size => 1,
            TurnStage::End => 0,
        }
    }

    /// The steps that are left of the turn, where `redraw` tells that its input
    /// asks for the window size, and `size_changed` that it has changed when
    /// the turn comes to it.
    pub open spec fn steps(self, redraw: bool, size_changed: bool) -> Seq<TurnStep>
        decreases self.stages_left(),
    {
        let (stage, step) = self.go_on(size_changed);
        if step is Over || self.stages_left() == 0 {
            Seq::empty()
        } else {
            let next = Turn { redraw: self.redraw || (step is Input && redraw), stage, ..self };
            seq![step] + next.steps(redraw, size_changed)
        }
    }
}

/// A turn serves what is ready in its order, each once: the data of the session
/// first, the input next, and then the window size, where it has changed or the
/// input has asked for it.
pub proof fn turn_is_served_in_order(ready: Ready, redraw: bool, size_changed: bool)
    ensures
        Turn::begun(ready).steps(redraw, size_changed) == (if ready.server {
            seq![TurnStep::Server]
        } else {
            Seq::empty()
        }) + (if ready.input {
            seq![TurnStep::Input]
        } else {
            Seq::empty()
        }) + (if size_changed || (ready.input && redraw) {
            seq![TurnStep::SendSize]
        } else {
            Seq::empty()
        }),
{
    reveal_with_fuel(Turn::steps, 5);
    let served = Turn::begun(ready).steps(redraw, size_changed);
    let server = if ready.server {
        seq![TurnStep::Server]
    } else {
        Seq::empty()
    };
    let input = if ready.input {
        seq![TurnStep::Input]
    } else {
        Seq::empty()
    };
    let size = if size_changed || (ready.input && redraw) {
        seq![TurnStep::SendSize]
    } else {
        Seq::empty()
    };
    assert(served =~= server + input + size);
}

/// What to do about data from the session.
#[derive(Debug)]
pub enum ServerStep {
    /// Nothing.
    Nothing,
    /// Show it.
    Show(Vec<u8>),
    /// Restore the terminal and leave.
    Leave(Leave),
}

/// What to do about input from the user.
#[derive(Debug)]
pub enum StdinStep {
    /// Nothing.
    Nothing,
    /// Suspend: send this packet, restore the terminal, start a new line and
    /// stop this process; once it goes on, make the terminal raw again and
    /// send the [`Session::resume_packets`] of the window size, in their order.
    Suspend(Packet),
    /// Send this packet; `redraw` says that the window size has to be sent after
    /// it.
    Send { packet: Packet, redraw: bool },
    /// Restore the terminal and leave.
    Leave(Leave),
}

impl Session {
    /// The message that the session was left, or has ended, after the time from
    /// `start` to `now`.
    pub open spec fn says_after(&self, what: Seq<char>, start: nat, now: nat) -> Seq<char> {
        self.says(what + app_log::elapsed_text(start, now))
    }

    fn about_after(&self, what: &str, start: u64, now: u64) -> (r: String)
        ensures
            r@ == self.says_after(what@, start as nat, now as nat),
    {
        let mut w: String = what.to_owned();
        w.append(fmt_age_at(start, now).as_str());
        self.about(w.as_str())
    }

    fn in_session(&self, level: LogLevel, msg: String) -> (r: Report)
        ensures
            r@ == ReportView::in_session(self.progname@, level, msg@),
    {
        Report::in_session(self.progname.as_str(), level, msg)
    }

    /// Leave the session, with a message in the midst of its output.
    fn depart(&self, start: u64, now: u64) -> (l: Leave)
        ensures
            l@ == self.departure(start as nat, now as nat),
    {
        let msg: String = self.about_after("detached after ", start, now);
        leave(self.in_session(LogLevel::Info, msg), 0)
    }

    /// How a client leaves a session that goes on.
    pub open spec fn departure(&self, start: nat, now: nat) -> LeaveView {
        session::leaving(
            ReportView::in_session(
                self.progname@,
                LogLevel::Info,
                self.says_after("detached after "@, start, now),
            ),
            0,
        )
    }

    /// A turn of the attached client's loop: `should_die` tells that a signal
    /// asked to leave, and `waited` what came of waiting for input and output,
    /// once that was done.
    pub fn event_loop(
        &self,
        should_die: bool,
        waited: Option<Result<Ready, IoError>>,
        start: u64,
        now: u64,
    ) -> (step: LoopStep)
        ensures
            should_die ==> (step matches LoopStep::Leave(l) && l@ == self.departure(
                start as nat,
                now as nat,
            )),
            !should_die ==> match waited {
                None => step is Wait,
                Some(Ok(ready)) => step == LoopStep::Serve(Turn::begun(ready)),
                Some(Err(e)) => if e is Interrupted {
                    step is Again
                } else {
                    &&& step matches LoopStep::Leave(l)
                    &&& l@ == session::leaving(
                        ReportView::in_session(
                            self.progname@,
                            LogLevel::Error,
                            self.says("select failed"@),
                        ),
                        1,
                    )
                },
            },
    {
        if should_die {
            return LoopStep::Leave(self.depart(start, now));
        }
        match waited {
            None => LoopStep::Wait,
            Some(Ok(ready)) => LoopStep::Serve(
                Turn { ready, redraw: false, stage: TurnStage::Server },
            ),
            Some(Err(IoError::Interrupted)) => LoopStep::Again,
            Some(Err(_)) => {
                let msg: String = self.about("select failed");
                LoopStep::Leave(leave(self.in_session(LogLevel::Error, msg), 1))
            },
        }
    }

    /// Handle what was read from the session. No bytes mean that it has ended.
    pub fn handle_server_data(
        &self,
        outcome: Result<Vec<u8>, IoError>,
        start: u64,
        now: u64,
    ) -> (step: ServerStep)
        ensures
            match outcome {
                Ok(data) => if data.len() > 0 {
                    step == ServerStep::Show(data)
                } else {
                    &&& step matches ServerStep::Leave(l)
                    &&& l@ == (if self.quiet {
                        session::leaving_silently(0)
                    } else {
                        session::leaving(
                            ReportView::in_session(
                                self.progname@,
                                LogLevel::Info,
                                self.says_after("exited after "@, start as nat, now as nat),
                            ),
                            0,
                        )
                    })
                },
                Err(e) => if e is Other {
                    &&& step matches ServerStep::Leave(l)
                    &&& l@ == session::leaving(
                        ReportView::in_session(
                            self.progname@,
                            LogLevel::Error,
                            self.says_after("read error after "@, start as nat, now as nat),
                        ),
                        1,
                    )
                } else {
                    step is Nothing
                },
            },
    {
        match outcome {
            Ok(data) => {
                if data.len() > 0 {
                    return ServerStep::Show(data);
                }
                if self.quiet {
                    return ServerStep::Leave(Leave { report: None, code: 0 });
                }
                let msg: String = self.about_after("exited after ", start, now);
                ServerStep::Leave(leave(self.in_session(LogLevel::Info, msg), 0))
            },
            Err(IoError::Interrupted) => ServerStep::Nothing,
            Err(IoError::WouldBlock) => ServerStep::Nothing,
            Err(IoError::Other(_)) => {
                let msg: String = self.about_after("read error after ", start, now);
                ServerStep::Leave(leave(self.in_session(LogLevel::Error, msg), 1))
            },
        }
    }

    /// Whether `key` suspends the client.
    pub open spec fn suspends(&self, key: u8, term: Termios) -> bool {
        !self.no_suspend && key == term::suspend_key(term)
    }

    /// Whether `key` leaves the session.
    pub open spec fn detaches(&self, key: u8) -> bool {
        self.detach_char >= 0 && key as int == self.detach_char
    }

    /// Handle what was read from standard input, at most eight bytes. The first
    /// one decides whether they are for the session: the suspend key and the
    /// detach character are not.
    pub fn handle_stdin_data(
        &self,
        outcome: Result<Vec<u8>, IoError>,
        term: &Termios,
        start: u64,
        now: u64,
    ) -> (step: StdinStep)
        requires
            outcome matches Ok(input) ==> input.len() <= 8,
        ensures
            match outcome {
                Err(e) => if e is Other {
                    &&& step matches StdinStep::Leave(l)
                    &&& l@ == session::leaving(
                        ReportView::silent(
                            LogLevel::Error,
                            "stdin read failed for session '"@ + self.shortname() + "'"@,
                        ),
                        1,
                    )
                } else {
                    step is Nothing
                },
                Ok(input) => if input.len() == 0 {
                    &&& step matches StdinStep::Leave(l)
                    &&& l@ == session::leaving(
                        ReportView::silent(
                            LogLevel::Info,
                            "stdin closed for session '"@ + self.shortname() + "'"@,
                        ),
                        1,
                    )
                } else if self.suspends(input@[0], *term) {
                    &&& step matches StdinStep::Suspend(p)
                    &&& p.msg_type == MsgType::Detach.wire()
                    &&& p.len == input.len()
                    &&& p.data@ == protocol::padded_payload(input@)
                } else if self.detaches(input@[0]) {
                    &&& step matches StdinStep::Leave(l)
                    &&& l@ == self.departure(start as nat, now as nat)
                } else {
                    &&& step matches StdinStep::Send { packet, redraw }
                    &&& packet.msg_type == MsgType::Push.wire()
                    &&& packet.len == input.len()
                    &&& packet.data@ == protocol::padded_payload(input@)
                    &&& redraw == (input@[0] == 0x0c)
                },
            },
    {
        match outcome {
            Err(IoError::Interrupted) => StdinStep::Nothing,
            Err(IoError::WouldBlock) => StdinStep::Nothing,
            Err(IoError::Other(_)) => {
                let msg: String = self.about_quoted("stdin read failed for session '", "'");
                StdinStep::Leave(leave(Report::silent(LogLevel::Error, msg), 1))
            },
            Ok(input) => {
                if input.len() == 0 {
                    let msg: String = self.about_quoted("stdin closed for session '", "'");
                    return StdinStep::Leave(leave(Report::silent(LogLevel::Info, msg), 1));
                }
                let mut packet: Packet = Packet::push(&input);
                let key: u8 = input[0];
                if !self.no_suspend && key == suspend_char(term) {
                    packet.msg_type = MsgType::Detach.as_u8();
                    return StdinStep::Suspend(packet);
                }
                if self.detach_char >= 0 && key as i32 == self.detach_char {
                    return StdinStep::Leave(self.depart(start, now));
                }
                StdinStep::Send { packet, redraw: key == 0x0c }
            },
        }
    }

    /// The packets with which a client that was suspended attaches again, in a
    /// window of size `ws`: the request for a fresh attachment, and then the one
    /// for the screen to be drawn again.
    pub fn resume_packets(&self, ws: WinSize) -> (r: (Packet, Packet))
        ensures
            r.0.msg_type == MsgType::Attach.wire(),
            r.0.len == 0,
            r.0.data@ == protocol::zero_payload(),
            r.1.msg_type == MsgType::Redraw.wire(),
            r.1.len == self.redraw_method.wire(),
            r.1.data@ == term::winsize_bytes(ws),
    {
        (Packet::new(MsgType::Attach), self.redraw_packet(ws))
    }
}

// ---------------------------------------------------------------------------
// Pushing input
// ---------------------------------------------------------------------------

/// What to do next in order to push input.
#[derive(Debug)]
pub enum PushStep {
    /// Send this packet, and report with [`Session::push_sent`].
    Send(Packet),
    /// Stop.
    Done(Leave),
}

impl Session {
    /// Begin to push input, where the connection gave `connected`: `None` to
    /// go on.
    pub fn push_begin(&self, connected: Result<(), OsError>) -> (r: Option<Leave>)
        ensures
            connected is Ok ==> r is None,
            connected matches Err(err) ==> {
                &&& r matches Some(l)
                &&& l@ == self.push_failure(err.text@)
            },
    {
        match connected {
            Ok(()) => None,
            Err(err) => Some(self.push_failed(err.text.as_str())),
        }
    }

    /// How pushing ends on an error.
    pub open spec fn push_failure(&self, text: Seq<char>) -> LeaveView {
        session::leaving(self.statement(LogLevel::Error, report::detail(self.sockname@, text)), 1)
    }

    fn push_failed(&self, text: &str) -> (l: Leave)
        ensures
            l@ == self.push_failure(text@),
    {
        let msg: String = report::detail_of(self.sockname.as_str(), text);
        leave(self.status(LogLevel::Error, msg), 1)
    }

    /// Pipe standard input into a running session: what to do after a read of
    /// at most eight bytes. The end of the input ends it well.
    pub fn push(&self, outcome: Result<Vec<u8>, OsError>) -> (step: PushStep)
        requires
            outcome matches Ok(input) ==> input.len() <= 8,
        ensures
            match outcome {
                Ok(input) => if input.len() == 0 {
                    &&& step matches PushStep::Done(l)
                    &&& l@ == session::leaving_silently(0)
                } else {
                    &&& step matches PushStep::Send(p)
                    &&& p.msg_type == MsgType::Push.wire()
                    &&& p.len == input.len()
                    &&& p.data@ == protocol::padded_payload(input@)
                },
                Err(err) => {
                    &&& step matches PushStep::Done(l)
                    &&& l@ == self.push_failure(err.text@)
                },
            },
    {
        match outcome {
            Ok(input) => {
                if input.len() == 0 {
                    return PushStep::Done(Leave { report: None, code: 0 });
                }
                PushStep::Send(Packet::push(&input))
            },
            Err(err) => PushStep::Done(self.push_failed(err.text.as_str())),
        }
    }

    /// What to do after a packet of input was sent or not: `None` to read on.
    pub fn push_sent(&self, outcome: Result<(), OsError>) -> (r: Option<Leave>)
        ensures
            outcome is Ok ==> r is None,
            outcome matches Err(err) ==> {
                &&& r matches Some(l)
                &&& l@ == self.push_failure(err.text@)
            },
    {
        match outcome {
            Ok(()) => None,
            Err(err) => Some(self.push_failed(err.text.as_str())),
        }
    }
}

/// The packets that carry `chunks` as terminal input, one for each.
pub open spec fn carries(packets: Seq<Packet>, chunks: Seq<Seq<u8>>) -> bool {
    &&& packets.len() == chunks.len()
    &&& forall|i: int|
        0 <= i < chunks.len() ==> {
            &&& 1 <= (#[trigger] chunks[i]).len() <= 8
            &&& packets[i].len == chunks[i].len()
            &&& packets[i].data@ == protocol::padded_payload(chunks[i])
        }
}

/// Input arrives as it was read: the inputs of the packets that carry it, one
/// behind the other, are the chunks that were read, one behind the other.
pub proof fn pushed_stream_arrives_whole(packets: Seq<Packet>, chunks: Seq<Seq<u8>>)
    requires
        carries(packets, chunks),
    ensures
        packets.map_values(|p: Packet| p.input()).flatten() == chunks.flatten(),
{
    let inputs = packets.map_values(|p: Packet| p.input());
    assert forall|i: int| 0 <= i < chunks.len() implies inputs[i] == chunks[i] by {
        assert(packets[i].input() =~= chunks[i]);
    }
    assert(inputs =~= chunks);
}

} // verus!
