//! Client-side operations: attach to sessions, push data, kill, list, remove.
//!
//! [`Session`] holds what the user configured. Its methods decide; where a
//! command alternates system calls and decisions, the program hands each
//! outcome to a method and does what that says.

use crate::app_log::{AppLog, LogLevel};
use crate::protocol;
use crate::protocol::{ClearMethod, IoError, MsgType, Packet, RedrawMethod};
use crate::report;
use crate::report::{OsError, Report, ReportView};
use crate::sys;
use crate::term::Termios;
use crate::text;
use crate::text::{after_last, text_from, trim_end};
use crate::util;
use crate::util::{cstr, expand_sockname, save_term, session_shortname, Env};
use vstd::prelude::*;
use vstd::string::*;

verus! {

/// User-facing session configuration and operations.
pub struct Session {
    pub progname: String,
    pub app_log: AppLog,
    pub session_envvar: String,
    pub sockname: String,
    pub detach_char: i32,
    pub no_suspend: bool,
    pub redraw_method: RedrawMethod,
    pub clear_method: ClearMethod,
    pub no_ansiterm: bool,
    pub quiet: bool,
    pub log_max_size: usize,
    pub orig_term: Termios,
    pub dont_have_tty: bool,
}

/// The end of a command: what to report, and the exit code.
#[derive(Debug)]
pub struct Leave {
    pub report: Option<Report>,
    pub code: i32,
}

/// The end of a command, as contracts speak of it.
#[verifier::ext_equal]
pub struct LeaveView {
    pub report: Option<ReportView>,
    pub code: i32,
}

impl View for Leave {
    type V = LeaveView;

    open spec fn view(&self) -> LeaveView {
        LeaveView { report: report::report_of(self.report), code: self.code }
    }
}

/// Leave with a report.
pub open spec fn leaving(report: ReportView, code: i32) -> LeaveView {
    LeaveView { report: Some(report), code }
}

/// Leave without a word.
pub open spec fn leaving_silently(code: i32) -> LeaveView {
    LeaveView { report: None, code }
}

pub(crate) fn leave(report: Report, code: i32) -> (r: Leave)
    ensures
        r@ == leaving(report@, code),
{
    Leave { report: Some(report), code }
}

// ---------------------------------------------------------------------------
// Messages
// ---------------------------------------------------------------------------

impl Session {
    /// A warning: shown on standard error unless quiet mode is on.
    pub open spec fn warning(&self, msg: Seq<char>) -> ReportView {
        if self.quiet {
            ReportView::silent(LogLevel::Warn, msg)
        } else {
            ReportView::warned(self.progname@, LogLevel::Warn, msg)
        }
    }

    /// A notice: shown on standard output unless quiet mode is on.
    pub open spec fn notice(&self, msg: Seq<char>) -> ReportView {
        if self.quiet {
            ReportView::silent(LogLevel::Info, msg)
        } else {
            ReportView::printed(self.progname@, LogLevel::Info, msg)
        }
    }

    /// A statement: shown on standard output in any case.
    pub open spec fn statement(&self, level: LogLevel, msg: Seq<char>) -> ReportView {
        ReportView::printed(self.progname@, level, msg)
    }

    /// The name of the session.
    pub open spec fn shortname(&self) -> Seq<char> {
        text::last_piece(self.sockname@, '/')
    }

    /// A message about the session.
    pub open spec fn says(&self, what: Seq<char>) -> Seq<char> {
        report::about(self.sockname@, what)
    }

    pub(crate) fn warn(&self, msg: String) -> (r: Report)
        ensures
            r@ == self.warning(msg@),
    {
        if self.quiet {
            Report::silent(LogLevel::Warn, msg)
        } else {
            Report::warned(self.progname.as_str(), LogLevel::Warn, msg)
        }
    }

    pub(crate) fn info(&self, msg: String) -> (r: Report)
        ensures
            r@ == self.notice(msg@),
    {
        if self.quiet {
            Report::silent(LogLevel::Info, msg)
        } else {
            Report::printed(self.progname.as_str(), LogLevel::Info, msg)
        }
    }

    pub(crate) fn status(&self, level: LogLevel, msg: String) -> (r: Report)
        ensures
            r@ == self.statement(level, msg@),
    {
        Report::printed(self.progname.as_str(), level, msg)
    }

    /// The session's name between `before` and `after`.
    pub(crate) fn about_quoted(&self, before: &str, after: &str) -> (r: String)
        ensures
            r@ == before@ + self.shortname() + after@,
    {
        let mut r: String = before.to_owned();
        r.append(session_shortname(self.sockname.as_str()));
        r.append(after);
        r
    }

    pub(crate) fn about(&self, what: &str) -> (r: String)
        ensures
            r@ == self.says(what@),
    {
        report::about_session(self.sockname.as_str(), what)
    }
}

// ---------------------------------------------------------------------------
// Connecting
// ---------------------------------------------------------------------------

/// Decide what a failed or successful connection to a session socket means.
///
/// On `ECONNREFUSED`, `mode` tells the mode of the file, or `None` where it
/// cannot be looked at: the result is `ENOTSOCK` if the file is not a socket,
/// and `ECONNREFUSED` otherwise (the session died without cleanup).
pub fn connect_socket(connected: Result<(), i32>, mode: Option<u32>) -> (r: Result<(), i32>)
    ensures
        connected is Ok ==> r is Ok,
        connected matches Err(e) ==> {
            let not_a_socket = mode matches Some(m) && !sys::is_socket_mode(m);
            &&& r matches Err(errno)
            &&& errno == (if e == sys::econnrefused() && not_a_socket {
                sys::enotsock()
            } else {
                e
            })
        },
{
    match connected {
        Err(e) => {
            if e == sys::libc_econnrefused() {
                match mode {
                    Some(m) => {
                        if !sys::is_socket(m) {
                            return Err(sys::libc_enotsock());
                        }
                    },
                    None => {},
                }
            }
            Err(e)
        },
        Ok(()) => Ok(()),
    }
}

/// The message of a connection that failed.
pub open spec fn connect_failure(sockname: Seq<char>, err: OsError) -> Seq<char> {
    if err.errno == sys::enoent() {
        report::about(sockname, "does not exist"@)
    } else if err.errno == sys::econnrefused() {
        report::about(sockname, "is not running"@)
    } else {
        report::detail(sockname, err.text@)
    }
}

/// The message of an attempt to attach whose connection failed.
pub open spec fn attach_failure(sockname: Seq<char>, err: OsError) -> Seq<char> {
    if err.errno == sys::enotsock() {
        "'"@ + text::last_piece(sockname, '/') + "' is not a valid session"@
    } else {
        connect_failure(sockname, err)
    }
}

impl Session {
    pub(crate) fn connect_failed(&self, err: &OsError) -> (r: String)
        ensures
            r@ == connect_failure(self.sockname@, *err),
    {
        if err.errno == sys::libc_enoent() {
            self.about("does not exist")
        } else if err.errno == sys::libc_econnrefused() {
            self.about("is not running")
        } else {
            report::detail_of(self.sockname.as_str(), err.text.as_str())
        }
    }

    pub(crate) fn attach_failed(&self, err: &OsError) -> (r: String)
        ensures
            r@ == attach_failure(self.sockname@, *err),
    {
        if err.errno == sys::libc_enotsock() {
            let mut r: String = "'".to_owned();
            r.append(session_shortname(self.sockname.as_str()));
            r.append("' is not a valid session");
            r
        } else {
            self.connect_failed(err)
        }
    }
}

// ---------------------------------------------------------------------------
// Stopping a session
// ---------------------------------------------------------------------------

/// How often a forced stop looks whether the session is gone.
pub const FORCED_LOOKS: u32 = 10;

/// How often a normal stop looks before it escalates.
pub const GRACE_LOOKS: u32 = 1;

/// How often a normal stop looks after it has escalated.
pub const ESCALATED_LOOKS: u32 = 3;

/// How long to sleep before each look, in milliseconds.
pub const LOOK_MILLIS: u64 = 100;

/// A session that is being stopped.
#[derive(Clone, Copy, Debug, PartialEq, Eq, Structural)]
pub struct Kill {
    /// Whether to stop it by force at once.
    pub force: bool,
    /// Whether a normal stop has come to force.
    pub escalated: bool,
    /// How often to look whether it is gone.
    pub looks: u32,
}

/// What happened to a session that is being stopped.
#[derive(Debug)]
pub enum KillEvent {
    /// The signal was sent, or was not for a reason.
    Sent(Result<(), OsError>),
    /// It was looked whether the session is gone.
    Looked(bool),
}

/// What to do next about a session that is being stopped.
#[derive(Debug)]
pub enum KillStep {
    /// Send this packet to the session.
    Send(Packet),
    /// Sleep for [`LOOK_MILLIS`] and look whether the session's socket is gone.
    Look,
    /// Stop.
    Done(Leave),
}

/// What to do next about a session that is being stopped, as contracts speak of
/// it.
pub enum KillAction {
    Signal(i32),
    Look,
    Done(LeaveView),
}

/// Whether `step` does what `action` says; a signal is sent in a `Kill` packet.
pub open spec fn kill_does(step: KillStep, action: KillAction) -> bool {
    match (step, action) {
        (KillStep::Send(p), KillAction::Signal(sig)) => {
            &&& p.msg_type == MsgType::Kill.wire()
            &&& p.len == sig
            &&& p.data@ == protocol::zero_payload()
        },
        (KillStep::Look, KillAction::Look) => true,
        (KillStep::Done(l), KillAction::Done(v)) => l@ == v,
        _ => false,
    }
}

impl Kill {
    /// The signal to send.
    pub open spec fn signal(self) -> i32 {
        if self.force || self.escalated {
            sys::sigkill()
        } else {
            sys::sighup()
        }
    }

    /// Something is left to look for, and a forced stop does not escalate.
    pub open spec fn wf(self) -> bool {
        &&& self.looks > 0
        &&& !(self.force && self.escalated)
    }
}

/// How a session is stopped, from the start.
pub open spec fn kill_begin(force: bool) -> Kill {
    Kill {
        force,
        escalated: false,
        looks: if force {
            FORCED_LOOKS
        } else {
            GRACE_LOOKS
        },
    }
}

impl Session {
    /// What to do next about a session that is being stopped, and how.
    ///
    /// A signal that cannot be sent ends the matter, except for the second one
    /// of a normal stop. After that the session is looked for; once it is gone,
    /// that is reported. When all looks are spent a normal stop escalates once.
    pub open spec fn kill_next(&self, k: Kill, event: KillEvent) -> (Kill, KillAction) {
        match event {
            KillEvent::Sent(Err(err)) if !k.escalated => (
                k,
                KillAction::Done(
                    leaving(
                        self.statement(
                            LogLevel::Error,
                            connect_failure(self.sockname@, err),
                        ),
                        1,
                    ),
                ),
            ),
            KillEvent::Sent(_) => (k, KillAction::Look),
            KillEvent::Looked(true) => (
                k,
                KillAction::Done(
                    leaving(
                        if k.escalated {
                            self.statement(LogLevel::Info, self.says("killed"@))
                        } else {
                            self.notice(
                                self.says(
                                    if k.force {
                                        "killed"@
                                    } else {
                                        "stopped"@
                                    },
                                ),
                            )
                        },
                        0,
                    ),
                ),
            ),
            KillEvent::Looked(false) => if k.looks > 1 {
                (Kill { looks: (k.looks - 1) as u32, ..k }, KillAction::Look)
            } else if !k.force && !k.escalated {
                (
                    Kill { force: false, escalated: true, looks: ESCALATED_LOOKS },
                    KillAction::Signal(sys::sigkill()),
                )
            } else {
                (
                    k,
                    KillAction::Done(
                        leaving(
                            self.statement(LogLevel::Error, self.says("did not stop"@)),
                            1,
                        ),
                    ),
                )
            },
        }
    }

    /// Begin to stop a running session.
    ///
    /// Normal stop: sends `SIGHUP` to the session and looks for it for up to
    /// 100 ms. If the session is still alive, escalates to `SIGKILL` and waits
    /// a further 300 ms.
    ///
    /// Forced stop (`force = true`): sends `SIGKILL` directly and looks for up
    /// to 1 000 ms. Does not escalate further.
    pub fn kill(&self, force: bool) -> (r: (Kill, KillStep))
        ensures
            r.0 == kill_begin(force),
            r.0.wf(),
            kill_does(r.1, KillAction::Signal(r.0.signal())),
    {
        let (sig, looks): (i32, u32) = if force {
            (sys::libc_sigkill(), FORCED_LOOKS)
        } else {
            (sys::libc_sighup(), GRACE_LOOKS)
        };
        (
            Kill { force, escalated: false, looks },
            KillStep::Send(Packet::encode(MsgType::Kill, sig as u8)),
        )
    }

    /// Go on with stopping a session after `event`.
    pub fn kill_step(&self, k: &mut Kill, event: KillEvent) -> (step: KillStep)
        requires
            old(k).wf(),
        ensures
            final(k).wf(),
            *final(k) == self.kill_next(*old(k), event).0,
            kill_does(step, self.kill_next(*old(k), event).1),
    {
        match event {
            KillEvent::Sent(outcome) => {
                if !k.escalated {
                    match outcome {
                        Err(err) => {
                            let msg: String = self.connect_failed(&err);
                            return KillStep::Done(leave(self.status(LogLevel::Error, msg), 1));
                        },
                        Ok(()) => {},
                    }
                }
                KillStep::Look
            },
            KillEvent::Looked(gone) => {
                if gone {
                    let rep: Report = if k.escalated {
                        self.status(LogLevel::Info, self.about("killed"))
                    } else if k.force {
                        self.info(self.about("killed"))
                    } else {
                        self.info(self.about("stopped"))
                    };
                    return KillStep::Done(leave(rep, 0));
                }
                if k.looks > 1 {
                    k.looks = k.looks - 1;
                    return KillStep::Look;
                }
                if !k.force && !k.escalated {
                    k.escalated = true;
                    k.looks = ESCALATED_LOOKS;
                    let sig: i32 = sys::libc_sigkill();
                    return KillStep::Send(Packet::encode(MsgType::Kill, sig as u8));
                }
                KillStep::Done(leave(self.status(LogLevel::Error, self.about("did not stop")), 1))
            },
        }
    }

    /// How stopping a session ends that answers one look after the other as
    /// `looks` says, where no signal fails; `None` where it goes on.
    pub open spec fn kill_run(&self, k: Kill, looks: Seq<bool>) -> Option<LeaveView>
        decreases looks.len(),
    {
        if looks.len() == 0 {
            None
        } else {
            match self.kill_next(k, KillEvent::Looked(looks[0])) {
                (_, KillAction::Done(l)) => Some(l),
                (next, _) => self.kill_run(next, looks.drop_first()),
            }
        }
    }
}

proof fn looks_in_vain(sess: &Session, k: Kill, looks: Seq<bool>, n: int)
    requires
        k.wf(),
        0 <= n < k.looks,
        n <= looks.len(),
        forall|i: int| 0 <= i < n ==> !looks[i],
    ensures
        sess.kill_run(k, looks) == sess.kill_run(
            Kill { looks: (k.looks - n) as u32, ..k },
            looks.skip(n),
        ),
    decreases n,
{
    if n == 0 {
        assert(looks.skip(0) =~= looks);
    } else {
        let rest = looks.drop_first();
        looks_in_vain(sess, Kill { looks: (k.looks - 1) as u32, ..k }, rest, n - 1);
        assert(rest.skip(n - 1) =~= looks.skip(n));
    }
}

/// A stop by force succeeds just when the session is gone at one of the ten
/// looks, and gives up after the tenth.
pub proof fn forced_stop_looks_ten_times(sess: &Session, looks: Seq<bool>, n: int)
    requires
        0 <= n <= looks.len(),
        forall|i: int| 0 <= i < n ==> !looks[i],
    ensures
        n < FORCED_LOOKS && n < looks.len() && looks[n] ==> sess.kill_run(kill_begin(true), looks)
            == Some(leaving(sess.notice(sess.says("killed"@)), 0)),
        n >= FORCED_LOOKS ==> sess.kill_run(kill_begin(true), looks) == Some(
            leaving(sess.statement(LogLevel::Error, sess.says("did not stop"@)), 1),
        ),
{
    let m = if n < FORCED_LOOKS {
        n
    } else {
        FORCED_LOOKS - 1
    };
    looks_in_vain(sess, kill_begin(true), looks, m);
    if m < looks.len() {
        assert(looks.skip(m)[0] == looks[m]);
    }
}

/// A normal stop reports the session stopped when it is gone at the first look,
/// killed when it is gone at one of the next three, and gives up after them.
pub proof fn normal_stop_escalates_once(sess: &Session, looks: Seq<bool>, n: int)
    requires
        0 <= n <= looks.len(),
        forall|i: int| 0 <= i < n ==> !looks[i],
    ensures
        n == 0 && n < looks.len() && looks[n] ==> sess.kill_run(kill_begin(false), looks) == Some(
            leaving(sess.notice(sess.says("stopped"@)), 0),
        ),
        GRACE_LOOKS <= n < GRACE_LOOKS + ESCALATED_LOOKS && n < looks.len() && looks[n]
            ==> sess.kill_run(kill_begin(false), looks) == Some(
            leaving(sess.statement(LogLevel::Info, sess.says("killed"@)), 0),
        ),
        n >= GRACE_LOOKS + ESCALATED_LOOKS ==> sess.kill_run(kill_begin(false), looks) == Some(
            leaving(sess.statement(LogLevel::Error, sess.says("did not stop"@)), 1),
        ),
{
    if n > 0 {
        let rest = looks.drop_first();
        let k = Kill { force: false, escalated: true, looks: ESCALATED_LOOKS };
        assert(sess.kill_run(kill_begin(false), looks) == sess.kill_run(k, rest));
        let m = if n < GRACE_LOOKS + ESCALATED_LOOKS {
            n - 1
        } else {
            ESCALATED_LOOKS - 1
        };
        looks_in_vain(sess, k, rest, m);
        if m < rest.len() {
            assert(rest.skip(m)[0] == looks[m + 1]);
        }
    }
}

// ---------------------------------------------------------------------------
// Requests to a running session
// ---------------------------------------------------------------------------

/// What to do next about a request to a running session.
#[derive(Debug)]
pub enum Request {
    /// Send this packet.
    Send(Packet),
    /// Stop.
    Done(Leave),
}

impl Session {
    fn request(&self, connected: Result<(), OsError>, t: MsgType) -> (r: Request)
        ensures
            connected is Ok ==> {
                &&& r matches Request::Send(p)
                &&& p.msg_type == t.wire()
                &&& p.len == 0
                &&& p.data@ == protocol::zero_payload()
            },
            connected matches Err(err) ==> {
                &&& r matches Request::Done(l)
                &&& l@ == leaving(
                    self.statement(LogLevel::Error, connect_failure(self.sockname@, err)),
                    1,
                )
            },
    {
        match connected {
            Ok(()) => Request::Send(Packet::new(t)),
            Err(err) => {
                let msg: String = self.connect_failed(&err);
                Request::Done(leave(self.status(LogLevel::Error, msg), 1))
            },
        }
    }

    /// Query attached-client information from a running session: what to do
    /// when the connection gave `connected`.
    ///
    /// The daemon answers an [`MsgType::Info`] packet with a plain-text summary
    /// (one `attached: N` header line followed by one `pid: P` line per
    /// attached client) and closes the connection.
    pub fn cmd_info(&self, connected: Result<(), OsError>) -> (r: Request)
        ensures
            connected is Ok ==> {
                &&& r matches Request::Send(p)
                &&& p.msg_type == MsgType::Info.wire()
                &&& p.len == 0
                &&& p.data@ == protocol::zero_payload()
            },
            connected matches Err(err) ==> {
                &&& r matches Request::Done(l)
                &&& l@ == leaving(
                    self.statement(LogLevel::Error, connect_failure(self.sockname@, err)),
                    1,
                )
            },
    {
        self.request(connected, MsgType::Info)
    }

    /// What to do after the query was sent or not: `None` to read the answer.
    pub fn info_sent(&self, ok: bool) -> (r: Option<Leave>)
        ensures
            ok ==> r is None,
            !ok ==> (r matches Some(l) && l@ == leaving(
                self.warning("failed to query session '"@ + self.shortname() + "'"@),
                1,
            )),
    {
        if ok {
            return None;
        }
        let msg: String = self.about_quoted("failed to query session '", "'");
        Some(leave(self.warn(msg), 1))
    }

    /// Show the answer `out`.
    pub fn info_answer(&self, out: &str) -> (l: Leave)
        ensures
            l@ == leaving(
                ReportView {
                    level: LogLevel::Info,
                    message: "'"@ + self.shortname() + "': "@ + text::trimmed_end(out@),
                    out: Some(
                        self.progname@ + ": "@ + ("'"@ + self.shortname() + "': "@ + out@),
                    ),
                    err: None,
                },
                0,
            ),
    {
        let mut message: String = self.about_quoted("'", "': ");
        message.append(trim_end(out).as_str());
        let mut shown: String = self.about_quoted("'", "': ");
        shown.append(out);
        let line: String = report::detail_of(self.progname.as_str(), shown.as_str());
        leave(Report { level: LogLevel::Info, message, out: Some(line), err: None }, 0)
    }

    /// Detach all clients from a session without stopping it: what to do when
    /// the connection gave `connected`. The session keeps running and clients
    /// can attach again later.
    pub fn cmd_detach(&self, connected: Result<(), OsError>) -> (r: Request)
        ensures
            connected is Ok ==> {
                &&& r matches Request::Send(p)
                &&& p.msg_type == MsgType::ForceDetach.wire()
                &&& p.len == 0
                &&& p.data@ == protocol::zero_payload()
            },
            connected matches Err(err) ==> {
                &&& r matches Request::Done(l)
                &&& l@ == leaving(
                    self.statement(LogLevel::Error, connect_failure(self.sockname@, err)),
                    1,
                )
            },
    {
        self.request(connected, MsgType::ForceDetach)
    }

    /// How the request to detach ends when it was sent or not.
    pub fn detach_sent(&self, ok: bool) -> (l: Leave)
        ensures
            l@ == (if ok {
                leaving(self.notice(self.says("detached"@)), 0)
            } else {
                leaving(
                    self.warning("failed to send detach request to '"@ + self.shortname() + "'"@),
                    1,
                )
            }),
    {
        if ok {
            leave(self.info(self.about("detached")), 0)
        } else {
            let msg: String = self.about_quoted("failed to send detach request to '", "'");
            leave(self.warn(msg), 1)
        }
    }
}

/// The answer to a query, as it comes in.
pub struct InfoAnswer {
    pub out: String,
}

/// What a run of reads makes of an answer of which `out` is there, and whether
/// it is complete: it ends with the connection or with an error.
pub open spec fn answer_of(out: Seq<char>, outcomes: Seq<Result<Seq<u8>, IoError>>) -> (
    Seq<char>,
    bool,
)
    decreases outcomes.len(),
{
    if outcomes.len() == 0 {
        (out, false)
    } else {
        match answer_step(out, outcomes[0]) {
            (o, true) => (o, true),
            (o, false) => answer_of(o, outcomes.drop_first()),
        }
    }
}

/// What one read makes of an answer of which `out` is there, and whether it is
/// complete.
pub open spec fn answer_step(out: Seq<char>, outcome: Result<Seq<u8>, IoError>) -> (
    Seq<char>,
    bool,
) {
    match outcome {
        Ok(bytes) => if bytes.len() == 0 {
            (out, true)
        } else {
            (out + text::read_as_text(bytes), false)
        },
        Err(e) => (out, !(e is Interrupted)),
    }
}

impl InfoAnswer {
    /// Nothing of the answer is there yet.
    pub fn new() -> (r: InfoAnswer)
        ensures
            r.out@ == Seq::<char>::empty(),
    {
        let out: String = String::new();
        assert(out@ =~= Seq::<char>::empty());
        InfoAnswer { out }
    }

    /// Take note of a read; tells whether the answer is complete.
    pub fn feed(&mut self, outcome: Result<Vec<u8>, IoError>) -> (done: bool)
        ensures
            (final(self).out@, done) == answer_step(old(self).out@, protocol::read_view(outcome)),
    {
        match outcome {
            Ok(bytes) => {
                if bytes.len() == 0 {
                    return true;
                }
                self.out.append(text_from(bytes.as_slice()).as_str());
                false
            },
            Err(IoError::Interrupted) => false,
            Err(_) => true,
        }
    }
}

// ---------------------------------------------------------------------------
// Commands
// ---------------------------------------------------------------------------

/// What to do about a read of the session's log.
#[derive(Debug)]
pub enum ReplayLogStep {
    /// Show these bytes and read on.
    Show(Vec<u8>),
    /// Stop, with this report and this text to print, where there are any.
    End(Option<Report>, Option<String>),
}

impl Session {
    /// Replay the on-disk session log: what to do after a read of it.
    ///
    /// Its full contents are shown verbatim. When `saved_errno` is
    /// `ECONNREFUSED` an extra line follows, noting that the session ended
    /// unexpectedly (the process crashed without writing a clean exit marker).
    pub fn replay_log(&self, saved_errno: i32, read: Result<Vec<u8>, String>) -> (step:
        ReplayLogStep)
        ensures
            match read {
                Ok(data) if data.len() > 0 => step == ReplayLogStep::Show(data),
                _ => {
                    &&& step matches ReplayLogStep::End(rep, ending)
                    &&& report::report_of(rep) == (match read {
                        Ok(_) => None,
                        Err(text) => Some(
                            self.warning(
                                "error reading log for '"@ + self.shortname() + "': "@ + text@,
                            ),
                        ),
                    })
                    &&& report::text_of(ending) == (if saved_errno == sys::econnrefused() {
                        Some(
                            report::banner(self.progname@, self.says("ended unexpectedly"@)),
                        )
                    } else {
                        None
                    })
                },
            },
    {
        let rep: Option<Report> = match read {
            Ok(data) => {
                if data.len() > 0 {
                    return ReplayLogStep::Show(data);
                }
                None
            },
            Err(text) => {
                let mut msg: String = self.about_quoted("error reading log for '", "': ");
                msg.append(text.as_str());
                Some(self.warn(msg))
            },
        };
        let ending: Option<String> = if saved_errno == sys::libc_econnrefused() {
            let msg: String = self.about("ended unexpectedly");
            Some(report::banner_of(self.progname.as_str(), msg.as_str()))
        } else {
            None
        };
        ReplayLogStep::End(rep, ending)
    }

    /// Print the current session name from the session variable, whose value is
    /// `chain`.
    pub fn cmd_current(&self, chain: Option<&str>) -> (l: Leave)
        ensures
            match chain {
                Some(c) if c@.len() > 0 => {
                    let name = text::last_piece(text::last_piece(c@, ':'), '/');
                    l@ == leaving(
                        ReportView {
                            level: LogLevel::Info,
                            message: "current session '"@ + name + "'"@,
                            out: Some(name + "\n"@),
                            err: None,
                        },
                        0,
                    )
                },
                _ => l@ == leaving(
                    ReportView::warned(self.progname@, LogLevel::Error, "not in a session"@),
                    1,
                ),
            },
    {
        match chain {
            Some(c) => {
                if !c.is_empty() {
                    let name: &str = after_last(after_last(c, ':'), '/');
                    let mut message: String = "current session '".to_owned();
                    message.append(name);
                    message.append("'");
                    let mut out: String = name.to_owned();
                    out.append("\n");
                    return leave(
                        Report { level: LogLevel::Info, message, out: Some(out), err: None },
                        0,
                    );
                }
            },
            None => {},
        }
        leave(
            Report::warned(
                self.progname.as_str(),
                LogLevel::Error,
                "not in a session".to_owned(),
            ),
            1,
        )
    }

    /// How a command that needs a terminal ends without one.
    pub open spec fn no_tty(&self) -> LeaveView {
        leaving(
            ReportView::warned(
                self.progname@,
                LogLevel::Error,
                "attaching to a session requires a terminal."@,
            ),
            1,
        )
    }

    /// How a command that attaches ends when the session has no controlling
    /// terminal; `None` to go on.
    pub fn require_tty(&self) -> (r: Option<Leave>)
        ensures
            self.dont_have_tty ==> (r matches Some(l) && l@ == self.no_tty()),
            !self.dont_have_tty ==> r is None,
    {
        if self.dont_have_tty {
            Some(
                leave(
                    Report::warned(
                        self.progname.as_str(),
                        LogLevel::Error,
                        "attaching to a session requires a terminal.".to_owned(),
                    ),
                    1,
                ),
            )
        } else {
            None
        }
    }

    /// Whether nothing but the socket and the terminal differs from `other`.
    pub open spec fn same_but_target(&self, other: &Session) -> bool {
        *self == (Session {
            sockname: self.sockname,
            orig_term: self.orig_term,
            dont_have_tty: self.dont_have_tty,
            ..*other
        })
    }

    /// Take over the attributes of the terminal, or that there is none.
    pub fn with_tty(&mut self, attributes: Option<Termios>)
        ensures
            final(self).same_but_target(old(self)),
            final(self).sockname == old(self).sockname,
            util::term_saved(attributes, final(self).orig_term, final(self).dont_have_tty),
    {
        let (term, no_tty): (Termios, bool) = save_term(attributes);
        self.orig_term = term;
        self.dont_have_tty = no_tty;
    }

    /// Turn to the session `session`, with a terminal of these attributes.
    fn target(&mut self, session: &str, env: &Env, attributes: Option<Termios>)
        ensures
            final(self).set_up(old(self), session@, env, attributes),
    {
        self.sockname = expand_sockname(self.progname.as_str(), session, env);
        self.with_tty(attributes);
    }

    /// Attach to a named session: resolve its socket, take over the terminal,
    /// and require one; `None` to go on and attach.
    pub fn cmd_attach(&mut self, session: &str, env: &Env, attributes: Option<Termios>) -> (r:
        Option<Leave>)
        ensures
            final(self).set_up(old(self), session@, env, attributes),
            attributes is None ==> (r matches Some(l) && l@ == old(self).no_tty()),
            attributes is Some ==> r is None,
    {
        self.target(session, env, attributes);
        self.require_tty()
    }
}

/// How to go on after the daemon of a new session was created or not.
#[derive(Debug)]
pub enum AfterSpawn {
    /// Pass on the report and attach.
    Attach(Report),
    /// Pass on the report, then stop.
    Stop(Report, Leave),
    /// Stop.
    Done(Leave),
}

impl Session {
    /// What to do when creating the daemon of a new session to attach to gave
    /// the exit code `spawned`.
    pub fn created(&self, spawned: i32) -> (r: AfterSpawn)
        ensures
            spawned != 0 ==> (r matches AfterSpawn::Done(l) && l@ == leaving_silently(1)),
            spawned == 0 && !self.dont_have_tty ==> (r matches AfterSpawn::Attach(rep) && rep@
                == self.notice(self.says("created"@))),
            spawned == 0 && self.dont_have_tty ==> {
                &&& r matches AfterSpawn::Stop(rep, l)
                &&& rep@ == self.notice(self.says("created"@))
                &&& l@ == self.no_tty()
            },
    {
        if spawned != 0 {
            return AfterSpawn::Done(Leave { report: None, code: 1 });
        }
        let rep: Report = self.info(self.about("created"));
        match self.require_tty() {
            Some(l) => AfterSpawn::Stop(rep, l),
            None => AfterSpawn::Attach(rep),
        }
    }

    /// How starting a session as a background daemon ends when creating the
    /// daemon gave the exit code `spawned`.
    pub fn started(&self, spawned: i32) -> (l: Leave)
        ensures
            l@ == (if spawned != 0 {
                leaving_silently(1)
            } else {
                leaving(self.notice(self.says("started"@)), 0)
            }),
    {
        if spawned != 0 {
            return Leave { report: None, code: 1 };
        }
        leave(self.info(self.about("started")), 0)
    }
}

/// How to go on after an attempt to attach to a session that may not exist.
#[derive(Clone, Copy, Debug, PartialEq, Eq)]
pub enum Implicit {
    /// Leave with this code.
    Done(i32),
    /// Replay the log in view of the error `errno`, remove the socket where
    /// `remove_socket` says so, and create the session.
    Create { errno: i32, remove_socket: bool },
}

impl Session {
    /// Attach to, or create on ECONNREFUSED/ENOENT, a session: what to do when the
    /// attempt to attach, without messages, gave `result`.
    pub fn implicit_attach(&self, result: i32) -> (r: Implicit)
        ensures
            r == (if result == 0 {
                Implicit::Done(0)
            } else if result == sys::econnrefused() || result == sys::enoent() {
                Implicit::Create { errno: result, remove_socket: result == sys::econnrefused() }
            } else {
                Implicit::Done(1)
            }),
    {
        if result == 0 {
            return Implicit::Done(0);
        }
        let refused: bool = result == sys::libc_econnrefused();
        if refused || result == sys::libc_enoent() {
            Implicit::Create { errno: result, remove_socket: refused }
        } else {
            Implicit::Done(1)
        }
    }
}

/// The command to run in a session: that of the user, or else the shell.
pub open spec fn command_of(args: Seq<String>, shell: Option<Seq<char>>) -> Seq<Seq<char>> {
    if args.len() > 0 {
        report::texts(args)
    } else {
        match shell {
            Some(s) if s.len() > 0 => seq![s],
            _ => seq!["/bin/sh"@],
        }
    }
}

/// The bytes of some C strings.
pub open spec fn byte_views(v: Seq<Vec<u8>>) -> Seq<Seq<u8>> {
    v.map_values(|b: Vec<u8>| b@)
}

/// Whether no text holds a null byte.
pub open spec fn no_nulls(command: Seq<Seq<char>>) -> bool {
    forall|i: int| 0 <= i < command.len() ==> !util::utf8(#[trigger] command[i]).contains(0u8)
}

/// The bytes of some texts.
pub open spec fn encoded(command: Seq<Seq<char>>) -> Seq<Seq<u8>> {
    command.map_values(|t: Seq<char>| util::utf8(t))
}

fn one_word(s: &str) -> (r: Option<Vec<Vec<u8>>>)
    ensures
        r is Some <==> no_nulls(seq![s@]),
        r matches Some(v) ==> v.len() > 0 && byte_views(v@) == encoded(seq![s@]),
{
    match cstr(s) {
        Some(b) => {
            let mut v: Vec<Vec<u8>> = Vec::new();
            v.push(b);
            assert(byte_views(v@) =~= encoded(seq![s@]));
            Some(v)
        },
        None => {
            assert(util::utf8(seq![s@][0]).contains(0u8));
            None
        },
    }
}

/// The characters of a text that may be missing.
pub open spec fn str_text(s: Option<&str>) -> Option<Seq<char>> {
    match s {
        Some(t) => Some(t@),
        None => None,
    }
}

/// Whether `r` holds the C strings of the command to run, or none because a
/// text contains a null byte.
pub open spec fn is_command(
    r: Option<Vec<Vec<u8>>>,
    args: Seq<String>,
    shell: Option<Seq<char>>,
) -> bool {
    let command = command_of(args, shell);
    &&& r is Some <==> no_nulls(command)
    &&& r matches Some(v) ==> v.len() > 0 && byte_views(v@) == encoded(command)
}

/// If `args` is non-empty, converts each into the bytes of a C string.
/// Otherwise returns the shell of the user, `shell`, or `/bin/sh` where that is
/// not set. `None` if a text contains a null byte.
pub fn use_shell_if_no_cmd(args: &Vec<String>, shell: Option<&str>) -> (r: Option<Vec<Vec<u8>>>)
    ensures
        is_command(r, args@, str_text(shell)),
{
    if args.len() > 0 {
        let ghost command = report::texts(args@);
        let ghost bytes = encoded(command);
        let mut v: Vec<Vec<u8>> = Vec::new();
        let mut i: usize = 0;
        assert(byte_views(v@) =~= bytes.take(0));
        while i < args.len()
            invariant
                i <= args.len(),
                v.len() == i,
                command == report::texts(args@),
                bytes == encoded(command),
                byte_views(v@) == bytes.take(i as int),
                forall|k: int|
                    0 <= k < i ==> !util::utf8(#[trigger] command[k]).contains(0u8),
                command == command_of(args@, str_text(shell)),
            decreases args.len() - i,
        {
            match cstr(args[i].as_str()) {
                Some(b) => {
                    let ghost before = byte_views(v@);
                    v.push(b);
                    assert(byte_views(v@) =~= before.push(b@));
                    assert(bytes.take(i + 1) =~= bytes.take(i as int).push(
                        util::utf8(command[i as int]),
                    ));
                },
                None => {
                    assert(util::utf8(command[i as int]).contains(0u8));
                    return None;
                },
            }
            i = i + 1;
        }
        assert(bytes.take(bytes.len() as int) =~= bytes);
        return Some(v);
    }
    match shell {
        Some(s) => {
            if !s.is_empty() {
                return one_word(s);
            }
        },
        None => {},
    }
    one_word("/bin/sh")
}

impl Session {
    /// Whether this is `other` turned to the session `session`, with a terminal
    /// of these attributes.
    pub open spec fn set_up(
        &self,
        other: &Session,
        session: Seq<char>,
        env: &Env,
        attributes: Option<Termios>,
    ) -> bool {
        &&& self.same_but_target(other)
        &&& self.sockname@ == util::socket_path(
            other.progname@,
            session,
            env.home_view(),
            env.pid as nat,
        )
        &&& util::term_saved(attributes, self.orig_term, self.dont_have_tty)
    }

    /// Turn to a session to create and attach to: the command to run in it, or
    /// `None` where a word of it contains a null byte. See [`Self::created`].
    pub fn cmd_new(
        &mut self,
        session: &str,
        command: &Vec<String>,
        shell: Option<&str>,
        env: &Env,
        attributes: Option<Termios>,
    ) -> (r: Option<Vec<Vec<u8>>>)
        ensures
            final(self).set_up(old(self), session@, env, attributes),
            is_command(r, command@, str_text(shell)),
    {
        self.target(session, env, attributes);
        use_shell_if_no_cmd(command, shell)
    }

    /// Turn to a session to create in the background: the command to run in it,
    /// or `None` where a word of it contains a null byte. See
    /// [`Self::started`].
    pub fn cmd_start(
        &mut self,
        session: &str,
        command: &Vec<String>,
        shell: Option<&str>,
        env: &Env,
        attributes: Option<Termios>,
    ) -> (r: Option<Vec<Vec<u8>>>)
        ensures
            final(self).set_up(old(self), session@, env, attributes),
            is_command(r, command@, str_text(shell)),
    {
        self.target(session, env, attributes);
        use_shell_if_no_cmd(command, shell)
    }

    /// Turn to a session to create in the foreground: the command to run in it,
    /// or `None` where a word of it contains a null byte.
    pub fn cmd_run(
        &mut self,
        session: &str,
        command: &Vec<String>,
        shell: Option<&str>,
        env: &Env,
        attributes: Option<Termios>,
    ) -> (r: Option<Vec<Vec<u8>>>)
        ensures
            final(self).set_up(old(self), session@, env, attributes),
            is_command(r, command@, str_text(shell)),
    {
        self.target(session, env, attributes);
        use_shell_if_no_cmd(command, shell)
    }
}

} // verus!
