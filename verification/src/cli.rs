//! The command line: its options and commands, and what each command does.

use crate::app_log::{AppLog, LogLevel};
use crate::protocol::{ClearMethod, RedrawMethod, LOG_MAX_SIZE};
use crate::report;
use crate::report::{Report, ReportView};
use crate::session;
use crate::session::{leave, Leave, Session};
use crate::session_log;
use crate::session_log::log_path_of;
use crate::text;
use crate::text::{after_last, same};
use crate::util;
use crate::util::{
    expand_sockname, parse_escape_char, parse_size, save_term, Env, TailScan, TailStep,
};
use vstd::prelude::*;
use vstd::string::*;

verus! {

/// Options that all commands take.
#[derive(Clone, Debug)]
pub struct GlobalArgs {
    /// The detach character.
    pub escape: Option<String>,
    /// Disable the detach character.
    pub disable_escape: bool,
    /// Disable the suspend key.
    pub no_suspend: bool,
    /// Suppress messages.
    pub quiet: bool,
    /// Disable VT100 assumptions.
    pub no_ansiterm: bool,
    /// Redraw method: none | ctrl_l | winch.
    pub redraw: Option<String>,
    /// Clear method: none | move.
    pub clear: Option<String>,
    /// Log cap: 0 disables the log; 128k and 4m are sizes.
    pub log_cap: Option<String>,
}

/// The commands.
#[derive(Debug)]
pub enum Commands {
    /// List sessions.
    List { all: bool },
    /// Print the current session name.
    Current,
    /// Attach, and fail if the session is missing.
    Attach { session: String },
    /// Create a session and attach.
    New { session: String, command: Vec<String> },
    /// Create a session, detached.
    Start { session: String, command: Vec<String> },
    /// Create a session, with the daemon in the foreground.
    Run { session: String, command: Vec<String> },
    /// Pipe standard input into a session.
    Push { session: String },
    /// Show the attached clients of a session.
    Info { session: String },
    /// Detach clients from a session without stopping it.
    Detach { all: bool, session: Option<String> },
    /// Stop a session.
    Kill { session: Option<String>, force: bool },
    /// Truncate the session log.
    Clear { session: Option<String> },
    /// Print the last lines of the session log.
    Tail { session: String, follow: bool, lines: i32 },
    /// Remove stale or exited sessions.
    Rm { all: bool, session: Option<String> },
}

/// The detach character where none is given: Ctrl-backslash.
pub const DEFAULT_DETACH_CHAR: i32 = 0x1c;

/// The redraw method that a text stands for.
pub open spec fn redraw_named(s: Option<String>) -> RedrawMethod {
    match s {
        Some(t) => if t@ == "none"@ {
            RedrawMethod::NoRedraw
        } else if t@ == "ctrl_l"@ {
            RedrawMethod::CtrlL
        } else if t@ == "winch"@ {
            RedrawMethod::Winch
        } else {
            RedrawMethod::Unspec
        },
        None => RedrawMethod::Unspec,
    }
}

/// The clear method that a text stands for.
pub open spec fn clear_named(s: Option<String>) -> ClearMethod {
    match s {
        Some(t) => if t@ == "none"@ {
            ClearMethod::NoClear
        } else if t@ == "move"@ {
            ClearMethod::Move
        } else {
            ClearMethod::Unspec
        },
        None => ClearMethod::Unspec,
    }
}

/// The detach character, or -1 where there is none.
pub open spec fn detach_key(global: GlobalArgs) -> int {
    if global.disable_escape {
        -1
    } else {
        match global.escape {
            Some(s) => util::escape_key(util::utf8(s@)),
            None => DEFAULT_DETACH_CHAR as int,
        }
    }
}

/// The size to which the session log is cut back: the one that is given, where
/// it is a size.
pub open spec fn log_size(global: GlobalArgs) -> nat {
    match global.log_cap {
        Some(s) => match util::size_value(s@) {
            Some(v) => v,
            None => LOG_MAX_SIZE as nat,
        },
        None => LOG_MAX_SIZE as nat,
    }
}

fn redraw_of(s: &Option<String>) -> (r: RedrawMethod)
    ensures
        r == redraw_named(*s),
{
    match s {
        Some(t) => {
            if same(t.as_str(), "none") {
                RedrawMethod::NoRedraw
            } else if same(t.as_str(), "ctrl_l") {
                RedrawMethod::CtrlL
            } else if same(t.as_str(), "winch") {
                RedrawMethod::Winch
            } else {
                RedrawMethod::Unspec
            }
        },
        None => RedrawMethod::Unspec,
    }
}

fn clear_of(s: &Option<String>) -> (r: ClearMethod)
    ensures
        r == clear_named(*s),
{
    match s {
        Some(t) => {
            if same(t.as_str(), "none") {
                ClearMethod::NoClear
            } else if same(t.as_str(), "move") {
                ClearMethod::Move
            } else {
                ClearMethod::Unspec
            }
        },
        None => ClearMethod::Unspec,
    }
}

/// The session configuration that the options stand for. No session is chosen
/// yet, and nothing is known of the terminal.
pub fn session_from_global(
    global: &GlobalArgs,
    progname: &str,
    session_envvar: &str,
    env: &Env,
) -> (r: Session)
    requires
        log_size(*global) <= usize::MAX,
    ensures
        r.progname@ == progname@,
        r.app_log.name() == progname@,
        r.app_log.place() == crate::app_log::app_log_path(progname@, env),
        r.session_envvar@ == session_envvar@,
        r.sockname@ == Seq::<char>::empty(),
        r.detach_char == detach_key(*global),
        r.no_suspend == global.no_suspend,
        r.redraw_method == redraw_named(global.redraw),
        r.clear_method == clear_named(global.clear),
        r.no_ansiterm == global.no_ansiterm,
        r.quiet == global.quiet,
        r.log_max_size == log_size(*global),
        util::term_saved(None, r.orig_term, true),
        !r.dont_have_tty,
{
    let detach_char: i32 = if global.disable_escape {
        -1
    } else {
        match &global.escape {
            Some(s) => parse_escape_char(s.as_str()),
            None => DEFAULT_DETACH_CHAR,
        }
    };
    let log_max_size: usize = match &global.log_cap {
        Some(s) => match parse_size(s.as_str()) {
            Some(n) => n,
            None => LOG_MAX_SIZE,
        },
        None => LOG_MAX_SIZE,
    };
    let sockname: String = String::new();
    assert(sockname@ =~= Seq::<char>::empty());
    Session {
        progname: progname.to_owned(),
        app_log: AppLog::new(progname, env),
        session_envvar: session_envvar.to_owned(),
        sockname,
        detach_char,
        no_suspend: global.no_suspend,
        redraw_method: redraw_of(&global.redraw),
        clear_method: clear_of(&global.clear),
        no_ansiterm: global.no_ansiterm,
        quiet: global.quiet,
        log_max_size,
        orig_term: save_term(None).0,
        dont_have_tty: false,
    }
}

/// The session that is meant: the one that is named, or else the innermost of
/// those in the session variable; empty where there is none.
pub open spec fn session_meant(session: Option<String>, chain: Option<Seq<char>>) -> Seq<char> {
    match session {
        Some(s) => s@,
        None => match chain {
            Some(c) => text::last_piece(c, ':'),
            None => Seq::empty(),
        },
    }
}

/// The session that is meant, where the session variable has the value `chain`.
pub fn resolve_session_name(session: &Option<String>, chain: Option<&str>) -> (r: String)
    ensures
        r@ == session_meant(*session, session::str_text(chain)),
{
    match session {
        Some(s) => s.as_str().to_owned(),
        None => match chain {
            Some(c) => after_last(c, ':').to_owned(),
            None => {
                let r: String = String::new();
                assert(r@ =~= Seq::<char>::empty());
                r
            },
        },
    }
}

/// The report of a message on standard output.
fn log_println(log: &AppLog, level: LogLevel, msg: String) -> (r: Report)
    ensures
        r@ == ReportView::printed(log.name(), level, msg@),
{
    Report::printed(log.progname(), level, msg)
}

/// The report of a message on standard error.
fn log_eprintln(log: &AppLog, level: LogLevel, msg: String) -> (r: Report)
    ensures
        r@ == ReportView::warned(log.name(), level, msg@),
{
    Report::warned(log.progname(), level, msg)
}

impl Session {
    /// Whether this is `other` turned to the session `name`.
    pub open spec fn turned_to(&self, other: &Session, name: Seq<char>, env: &Env) -> bool {
        &&& *self == (Session { sockname: self.sockname, ..*other })
        &&& self.sockname@ == util::socket_path(
            other.progname@,
            name,
            env.home_view(),
            env.pid as nat,
        )
    }

    /// How a command ends that needs a session and has none.
    pub open spec fn no_session(&self) -> session::LeaveView {
        session::leaving(
            ReportView::warned(
                self.app_log.name(),
                LogLevel::Error,
                "no session specified and "@ + self.session_envvar@ + " is not set"@,
            ),
            1,
        )
    }

    /// Turn to the session `name`.
    pub fn turn_to(&mut self, name: &str, env: &Env)
        ensures
            final(self).turned_to(old(self), name@, env),
    {
        self.sockname = expand_sockname(self.progname.as_str(), name, env);
    }

    /// Turn to the session that is meant; `None` to go on.
    fn turn_to_meant(&mut self, session: &Option<String>, chain: Option<&str>, env: &Env) -> (r:
        Option<Leave>)
        ensures
            session_meant(*session, session::str_text(chain)).len() == 0 ==> {
                &&& *final(self) == *old(self)
                &&& r matches Some(l)
                &&& l@ == old(self).no_session()
            },
            session_meant(*session, session::str_text(chain)).len() > 0 ==> {
                &&& r is None
                &&& final(self).turned_to(
                    old(self),
                    session_meant(*session, session::str_text(chain)),
                    env,
                )
            },
    {
        let name: String = resolve_session_name(session, chain);
        if name.as_str().is_empty() {
            let mut msg: String = "no session specified and ".to_owned();
            msg.append(self.session_envvar.as_str());
            msg.append(" is not set");
            return Some(leave(log_eprintln(&self.app_log, LogLevel::Error, msg), 1));
        }
        self.turn_to(name.as_str(), env);
        None
    }
}

/// Turn to the session into which to push input.
pub fn cmd_push(sess: &mut Session, session: &str, env: &Env)
    ensures
        final(sess).turned_to(old(sess), session@, env),
{
    sess.turn_to(session, env);
}

/// Which clients to detach.
#[derive(Debug)]
pub enum DetachPlan {
    /// Those of all sessions.
    All,
    /// Those of the session that was turned to.
    One,
    /// None.
    Done(Leave),
}

/// Decide which clients to detach.
pub fn cmd_detach(
    sess: &mut Session,
    session: &Option<String>,
    all: bool,
    chain: Option<&str>,
    env: &Env,
) -> (r: DetachPlan)
    ensures
        all ==> r is All && *final(sess) == *old(sess),
        !all && session_meant(*session, session::str_text(chain)).len() == 0 ==> {
            &&& *final(sess) == *old(sess)
            &&& r matches DetachPlan::Done(l)
            &&& l@ == old(sess).no_session()
        },
        !all && session_meant(*session, session::str_text(chain)).len() > 0 ==> {
            &&& r is One
            &&& final(sess).turned_to(old(sess), session_meant(*session, session::str_text(chain)), env)
        },
{
    if all {
        return DetachPlan::All;
    }
    match sess.turn_to_meant(session, chain, env) {
        Some(l) => DetachPlan::Done(l),
        None => DetachPlan::One,
    }
}

/// Turn to the session to stop; `None` to go on and stop it.
pub fn cmd_kill(
    sess: &mut Session,
    session: &Option<String>,
    chain: Option<&str>,
    env: &Env,
) -> (r: Option<Leave>)
    ensures
        session_meant(*session, session::str_text(chain)).len() == 0 ==> {
            &&& *final(sess) == *old(sess)
            &&& r matches Some(l)
            &&& l@ == old(sess).no_session()
        },
        session_meant(*session, session::str_text(chain)).len() > 0 ==> {
            &&& r is None
            &&& final(sess).turned_to(old(sess), session_meant(*session, session::str_text(chain)), env)
        },
{
    sess.turn_to_meant(session, chain, env)
}

/// Why a file could not be opened.
#[derive(Debug)]
pub struct OpenError {
    /// Whether there is none.
    pub not_found: bool,
    /// How the system describes the error.
    pub text: String,
}

/// Turn to the session whose log to truncate: the path of the log.
pub fn cmd_clear(
    sess: &mut Session,
    session: &Option<String>,
    chain: Option<&str>,
    env: &Env,
) -> (log: String)
    ensures
        final(sess).turned_to(old(sess), session_meant(*session, session::str_text(chain)), env),
        log@ == session_log::log_path(final(sess).sockname@),
{
    let name: String = resolve_session_name(session, chain);
    sess.turn_to(name.as_str(), env);
    log_path_of(sess.sockname.as_str())
}

/// How truncating the log ends. A log that does not exist needs no truncating.
pub fn clear_outcome(sess: &Session, outcome: Result<(), OpenError>) -> (l: Leave)
    ensures
        l@ == (match outcome {
            Ok(()) => session::leaving(sess.notice(sess.says("log cleared"@)), 0),
            Err(e) => if e.not_found {
                session::leaving_silently(0)
            } else {
                session::leaving(
                    ReportView::warned(
                        sess.app_log.name(),
                        LogLevel::Error,
                        report::detail(session_log::log_path(sess.sockname@), e.text@),
                    ),
                    1,
                )
            },
        }),
{
    match outcome {
        Ok(()) => leave(sess.info(sess.about("log cleared")), 0),
        Err(e) => {
            if e.not_found {
                return Leave { report: None, code: 0 };
            }
            let log: String = log_path_of(sess.sockname.as_str());
            let msg: String = report::detail_of(log.as_str(), e.text.as_str());
            leave(log_eprintln(&sess.app_log, LogLevel::Error, msg), 1)
        },
    }
}

/// What to remove.
#[derive(Debug)]
pub struct RmPlan {
    /// What to report first.
    pub warning: Option<Report>,
    /// Whether to remove all stale and exited sessions, and not just the one
    /// that was turned to.
    pub all: bool,
}

/// Decide what to remove. With `all` a session name is ignored, and a warning
/// says so; without a name all stale and exited sessions are meant too.
pub fn cmd_rm(sess: &mut Session, session: &Option<String>, all: bool, env: &Env) -> (r: RmPlan)
    ensures
        r.all == (all || session is None),
        report::report_of(r.warning) == (if all && session is Some {
            Some(
                ReportView::warned(
                    old(sess).app_log.name(),
                    LogLevel::Warn,
                    "warning: session name is ignored when -a is used; removing all stale sessions"@,
                ),
            )
        } else {
            None
        }),
        r.all ==> *final(sess) == *old(sess),
        !r.all ==> (session matches Some(s) && final(sess).turned_to(old(sess), s@, env)),
{
    if all {
        let warning: Option<Report> = match session {
            Some(_) => Some(
                log_eprintln(
                    &sess.app_log,
                    LogLevel::Warn,
                    "warning: session name is ignored when -a is used; removing all stale sessions".to_owned(),
                ),
            ),
            None => None,
        };
        return RmPlan { warning, all: true };
    }
    match session {
        Some(s) => {
            sess.turn_to(s.as_str(), env);
            RmPlan { warning: None, all: false }
        },
        None => RmPlan { warning: None, all: true },
    }
}

// ---------------------------------------------------------------------------
// The last lines of a log
// ---------------------------------------------------------------------------

/// How long to sleep between looks at a log that cannot be watched, in
/// milliseconds.
pub const FOLLOW_MILLIS: u64 = 250;

/// How far showing the last lines of a log has come.
#[derive(Clone, Copy, Debug)]
pub enum TailStage {
    /// The log is being opened.
    Opening,
    /// Its size is being found out.
    Sizing,
    /// The start of its last lines is being searched.
    Searching(TailScan),
    /// The last lines are being shown.
    Showing,
    /// A watch for changes is being set up.
    Watching,
    /// What is appended is being shown; the flag tells whether there is a
    /// watch.
    Following(bool),
}

/// The last lines of a log that are being shown.
#[derive(Debug)]
pub struct Tail {
    /// The socket of the session whose log it is.
    pub sock: String,
    /// How many lines to show.
    pub lines: i32,
    /// Whether to go on with what is appended.
    pub follow: bool,
    /// How far it has come.
    pub stage: TailStage,
}

/// What happened to a log whose last lines are being shown.
#[derive(Debug)]
pub enum TailEvent {
    /// It was opened or not.
    Opened(Result<(), OpenError>),
    /// It has this size.
    Sized(u64),
    /// These bytes were read; none at the end or on an error.
    Read(Vec<u8>),
    /// A watch for changes was set up or not.
    Watched(bool),
    /// The wait is over.
    Waited,
}

/// What to do next to show the last lines of a log.
#[derive(Debug)]
pub enum TailDo {
    /// Find out the log's size.
    FindSize,
    /// Read the `len` bytes from `pos` on.
    ReadAt { pos: u64, len: usize },
    /// Read on from this offset.
    ReadFrom(u64),
    /// Read on.
    ReadOn,
    /// Show these bytes and read on.
    Show(Vec<u8>),
    /// Set up a watch for changes of the log.
    Watch,
    /// Wait for the watch to tell of a change.
    AwaitChange,
    /// Sleep for [`FOLLOW_MILLIS`].
    Sleep,
    /// Stop.
    Done(Leave),
}

impl Tail {
    /// A search that is in progress is not over.
    pub open spec fn wf(&self) -> bool {
        self.stage matches TailStage::Searching(scan) ==> scan.wf() && scan.found is None
    }

    /// Whether `event` can happen at this stage.
    pub open spec fn expects(&self, event: TailEvent) -> bool {
        match (self.stage, event) {
            (TailStage::Opening, TailEvent::Opened(_)) => true,
            (TailStage::Sizing, TailEvent::Sized(_)) => true,
            (TailStage::Searching(scan), TailEvent::Read(b)) => b@.len() <= scan.chunk(),
            (TailStage::Showing, TailEvent::Read(_)) => true,
            (TailStage::Watching, TailEvent::Watched(_)) => true,
            (TailStage::Following(_), TailEvent::Read(_)) => true,
            (TailStage::Following(_), TailEvent::Waited) => true,
            _ => false,
        }
    }

    /// Whether nothing but the stage differs from `other`.
    pub open spec fn same_but_stage(&self, other: &Tail) -> bool {
        *self == (Tail { stage: self.stage, ..*other })
    }

    /// Whether the last lines are all shown, and what comes next is done.
    pub open spec fn shown(&self, next: TailDo) -> bool {
        if self.follow {
            self.stage is Watching && next is Watch
        } else {
            next matches TailDo::Done(l) && l@ == session::leaving_silently(0)
        }
    }

    /// Whether the search `scan` is what happens next, or showing the lines
    /// from where it ended.
    pub open spec fn searches(&self, scan: TailScan, next: TailDo) -> bool {
        match scan.found {
            None => {
                &&& self.stage == TailStage::Searching(scan)
                &&& next == (TailDo::ReadAt {
                    pos: (scan.pos - scan.chunk()) as u64,
                    len: scan.chunk() as usize,
                })
            },
            Some(start) => self.stage is Showing && next == TailDo::ReadFrom(start),
        }
    }

    /// Turn to a search, or to showing the lines from where it ended.
    fn search(&mut self, scan: TailScan) -> (next: TailDo)
        requires
            scan.wf(),
        ensures
            final(self).wf(),
            final(self).same_but_stage(old(self)),
            final(self).searches(scan, next),
    {
        match scan.next() {
            TailStep::Read { pos, len } => {
                self.stage = TailStage::Searching(scan);
                TailDo::ReadAt { pos, len }
            },
            TailStep::Done(start) => {
                self.stage = TailStage::Showing;
                TailDo::ReadFrom(start)
            },
        }
    }

    /// What to do when the last lines are all shown.
    fn all_shown(&mut self) -> (next: TailDo)
        ensures
            final(self).wf(),
            final(self).same_but_stage(old(self)),
            final(self).shown(next),
    {
        if self.follow {
            self.stage = TailStage::Watching;
            TailDo::Watch
        } else {
            self.stage = TailStage::Showing;
            TailDo::Done(Leave { report: None, code: 0 })
        }
    }

    /// How it ends when the log cannot be opened.
    pub open spec fn cannot_open(&self, name: Seq<char>, e: OpenError) -> session::LeaveView {
        if e.not_found {
            session::leaving(
                ReportView::printed(
                    name,
                    LogLevel::Error,
                    "no log for session '"@ + text::last_piece(self.sock@, '/') + "'"@,
                ),
                1,
            )
        } else {
            session::leaving(
                ReportView::warned(
                    name,
                    LogLevel::Error,
                    report::detail(session_log::log_path(self.sock@), e.text@),
                ),
                1,
            )
        }
    }

    fn not_opened(&self, log: &AppLog, e: OpenError) -> (l: Leave)
        ensures
            l@ == self.cannot_open(log.name(), e),
    {
        if e.not_found {
            let mut msg: String = "no log for session '".to_owned();
            msg.append(after_last(self.sock.as_str(), '/'));
            msg.append("'");
            leave(log_println(log, LogLevel::Error, msg), 1)
        } else {
            let path: String = log_path_of(self.sock.as_str());
            let msg: String = report::detail_of(path.as_str(), e.text.as_str());
            leave(log_eprintln(log, LogLevel::Error, msg), 1)
        }
    }

    /// Go on with showing the last lines of a log after `event`; `log` is the
    /// context of messages.
    pub fn step(&mut self, log: &AppLog, event: TailEvent) -> (next: TailDo)
        requires
            old(self).wf(),
            old(self).expects(event),
        ensures
            final(self).wf(),
            final(self).same_but_stage(old(self)),
            match (old(self).stage, event) {
                (TailStage::Opening, TailEvent::Opened(Ok(()))) => {
                    final(self).stage is Sizing && next is FindSize
                },
                (TailStage::Opening, TailEvent::Opened(Err(e))) => {
                    next matches TailDo::Done(l) && l@ == old(self).cannot_open(log.name(), e)
                },
                (TailStage::Sizing, TailEvent::Sized(size)) => if size == 0 {
                    final(self).shown(next)
                } else {
                    exists|scan: TailScan|
                        {
                            &&& util::begun(scan, size, old(self).lines)
                            &&& #[trigger] final(self).searches(scan, next)
                        }
                },
                (TailStage::Searching(scan), TailEvent::Read(bytes)) => {
                    exists|after: TailScan|
                        {
                            &&& util::searched(scan, bytes@, after)
                            &&& #[trigger] final(self).searches(after, next)
                        }
                },
                (TailStage::Showing, TailEvent::Read(bytes)) => if bytes@.len() > 0 {
                    final(self).stage is Showing && next == TailDo::Show(bytes)
                } else {
                    final(self).shown(next)
                },
                (TailStage::Watching, TailEvent::Watched(watch)) => {
                    final(self).stage == TailStage::Following(watch) && next is ReadOn
                },
                (TailStage::Following(watch), TailEvent::Read(bytes)) => {
                    &&& final(self).stage == TailStage::Following(watch)
                    &&& if bytes@.len() > 0 {
                        next == TailDo::Show(bytes)
                    } else if watch {
                        next is AwaitChange
                    } else {
                        next is Sleep
                    }
                },
                (TailStage::Following(watch), TailEvent::Waited) => {
                    final(self).stage == TailStage::Following(watch) && next is ReadOn
                },
                _ => true,
            },
    {
        match event {
            TailEvent::Opened(outcome) => match outcome {
                Ok(()) => {
                    self.stage = TailStage::Sizing;
                    TailDo::FindSize
                },
                Err(e) => TailDo::Done(self.not_opened(log, e)),
            },
            TailEvent::Sized(size) => {
                if size == 0 {
                    return self.all_shown();
                }
                let scan: TailScan = TailScan::new(size, self.lines);
                let next: TailDo = self.search(scan);
                assert(self.searches(scan, next));
                next
            },
            TailEvent::Read(bytes) => match self.stage {
                TailStage::Searching(scan) => {
                    let mut after: TailScan = scan;
                    after.feed(bytes.as_slice());
                    let next: TailDo = self.search(after);
                    assert(self.searches(after, next));
                    next
                },
                TailStage::Following(watch) => {
                    if bytes.len() > 0 {
                        TailDo::Show(bytes)
                    } else if watch {
                        TailDo::AwaitChange
                    } else {
                        TailDo::Sleep
                    }
                },
                _ => {
                    if bytes.len() > 0 {
                        TailDo::Show(bytes)
                    } else {
                        self.all_shown()
                    }
                },
            },
            TailEvent::Watched(watch) => {
                self.stage = TailStage::Following(watch);
                TailDo::ReadOn
            },
            TailEvent::Waited => TailDo::ReadOn,
        }
    }
}

/// Begin to show the last lines of the log of a session, at least one; the log
/// is then to be opened at the path that is returned.
pub fn cmd_tail(sess: &Session, session: &str, follow: bool, lines: i32, env: &Env) -> (r: (
    Tail,
    String,
))
    ensures
        r.0.wf(),
        r.0.sock@ == util::socket_path(
            sess.progname@,
            session@,
            env.home_view(),
            env.pid as nat,
        ),
        r.0.lines == (if lines < 1 {
            1
        } else {
            lines as int
        }),
        r.0.follow == follow,
        r.0.stage is Opening,
        r.1@ == session_log::log_path(r.0.sock@),
{
    let sock: String = expand_sockname(sess.progname.as_str(), session, env);
    let path: String = log_path_of(sock.as_str());
    let n: i32 = if lines < 1 {
        1
    } else {
        lines
    };
    (Tail { sock, lines: n, follow, stage: TailStage::Opening }, path)
}

// ---------------------------------------------------------------------------
// The program's arguments
// ---------------------------------------------------------------------------

/// What the first argument asks for.
#[derive(Debug)]
pub enum FirstWord {
    /// The version: pass on the report and leave.
    Version(Leave),
    /// Help.
    Help,
    /// A command, or a session to attach to.
    Command,
}

/// What the first argument of the program, `raw[1]`, asks for; `raw[0]` is the
/// program's name.
pub fn first_word(raw: &Vec<String>) -> (r: FirstWord)
    requires
        raw.len() > 0,
    ensures
        raw.len() > 1 && raw@[1]@ == "--version"@ ==> {
            &&& r matches FirstWord::Version(l)
            &&& l@ == session::leaving(
                ReportView {
                    level: LogLevel::Info,
                    message: "version requested"@,
                    out: Some(raw@[0]@ + " - version dev\n"@),
                    err: None,
                },
                0,
            )
        },
        raw.len() > 1 && raw@[1]@ != "--version"@ && raw@[1]@ == "?"@ ==> r is Help,
        raw.len() <= 1 || (raw@[1]@ != "--version"@ && raw@[1]@ != "?"@) ==> r is Command,
{
    if raw.len() > 1 && same(raw[1].as_str(), "--version") {
        let mut out: String = raw[0].as_str().to_owned();
        out.append(" - version dev\n");
        return FirstWord::Version(
            leave(
                Report {
                    level: LogLevel::Info,
                    message: "version requested".to_owned(),
                    out: Some(out),
                    err: None,
                },
                0,
            ),
        );
    }
    if raw.len() > 1 && same(raw[1].as_str(), "?") {
        return FirstWord::Help;
    }
    FirstWord::Command
}

/// How the program ends when its arguments make no sense.
pub fn usage(progname: &str) -> (l: Leave)
    ensures
        l@ == session::leaving(
            ReportView {
                level: LogLevel::Error,
                message: "invalid command line; usage suggested"@,
                out: None,
                err: Some("Try '"@ + progname@ + " --help' for usage\n"@),
            },
            1,
        ),
{
    let mut err: String = "Try '".to_owned();
    err.append(progname);
    err.append(" --help' for usage\n");
    leave(
        Report {
            level: LogLevel::Error,
            message: "invalid command line; usage suggested".to_owned(),
            out: None,
            err: Some(err),
        },
        1,
    )
}

} // verus!
