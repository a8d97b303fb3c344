//! The session directory: which sessions there are, and which to remove.

use crate::app_log;
use crate::app_log::{fmt_age_at, LogLevel, APP_LOG_FILE_NAME};
use crate::report;
use crate::report::{OsError, Report, ReportView};
use crate::session;
use crate::session::{leave, Leave, Session};
use crate::session_log;
use crate::session_log::log_path_of;
use crate::sys;
use crate::text;
use crate::text::{after_last, decimal, first_is, join_path, pad, same};
use vstd::prelude::*;
use vstd::string::*;

verus! {

// ---------------------------------------------------------------------------
// The session directory
// ---------------------------------------------------------------------------

/// What is known of a file.
#[derive(Clone, Copy, Debug)]
pub struct Meta {
    pub mode: u32,
    /// Modification time, in seconds since the epoch.
    pub mtime: i64,
    /// Inode-change time, in seconds since the epoch.
    pub ctime: i64,
}

/// An entry of the session directory.
#[derive(Debug)]
pub struct Entry {
    /// Its file name.
    pub name: String,
    /// What is known of it, where it can be looked at.
    pub meta: Option<Meta>,
}

/// The time of a file.
pub open spec fn file_time(meta: Meta, now: nat) -> nat {
    if meta.mtime > 0 {
        meta.mtime as nat
    } else if meta.ctime > 0 {
        meta.ctime as nat
    } else {
        now
    }
}

/// Return the best available timestamp for a file as seconds since the epoch.
///
/// Uses the modification time. Falls back to the inode-change time when that is
/// not positive, and to `now` if neither is, so callers always get a meaningful
/// age.
pub fn meta_secs(meta: &Meta, now: u64) -> (r: u64)
    ensures
        r == file_time(*meta, now as nat),
{
    if meta.mtime > 0 {
        return meta.mtime as u64;
    }
    if meta.ctime > 0 {
        return meta.ctime as u64;
    }
    now
}

/// When a session started: the time of its socket, or `now` where that cannot
/// be looked at.
pub fn socket_start_time(meta: Option<Meta>, now: u64) -> (r: u64)
    ensures
        r == (match meta {
            Some(m) => file_time(m, now as nat),
            None => now as nat,
        }),
{
    match meta {
        Some(m) => meta_secs(&m, now),
        None => now,
    }
}

/// Whether a file name ends in the extension `log`: behind the last dot, which
/// is not the first character.
pub open spec fn has_log_extension(name: Seq<char>) -> bool {
    text::last_piece_start(name, '.') >= 2 && text::last_piece(name, '.') == "log"@
}

/// A file name without its extension `log`.
pub open spec fn stem(name: Seq<char>) -> Seq<char> {
    name.take(name.len() - 4)
}

/// Whether a file name ends in the extension `log`.
pub fn is_log_name(name: &str) -> (r: bool)
    ensures
        r == has_log_extension(name@),
        r ==> name@.len() >= 5,
{
    proof {
        text::last_piece_is_maximal(name@, '.');
        reveal_strlit("log");
        assert("log"@.len() == 3);
        assert(text::last_piece(name@, '.').len() == name@.len() - text::last_piece_start(
            name@,
            '.',
        ));
    }
    same(after_last(name, '.'), "log") && name.unicode_len() >= 5
}

/// A file name without its extension.
fn stem_of(name: &str) -> (r: String)
    requires
        name@.len() >= 5,
    ensures
        r@ == stem(name@),
{
    let n: usize = name.unicode_len();
    let r: String = name.substring_char(0, n - 4).to_owned();
    assert(r@ =~= stem(name@));
    r
}

/// The log of a session is recognised as a log, and its name without the
/// extension is the session's.
pub proof fn log_name_gives_the_session(name: Seq<char>)
    requires
        name.len() > 0,
    ensures
        has_log_extension(session_log::log_path(name)),
        stem(session_log::log_path(name)) == name,
{
    let path = session_log::log_path(name);
    reveal_strlit(".log");
    reveal_strlit("log");
    let n = name.len() as int;
    assert(path.drop_last().drop_last().drop_last().last() == '.');
    assert(path.drop_last().drop_last().drop_last().len() == n + 1);
    reveal_with_fuel(text::last_piece_start, 5);
    assert(text::last_piece(path, '.') =~= "log"@);
    assert(stem(path) =~= name);
}

/// What is recognised as a log is named after something: its name is that of
/// the log of what is left without the extension.
pub proof fn log_is_named_after_something(name: Seq<char>)
    requires
        has_log_extension(name),
    ensures
        stem(name).len() > 0,
        session_log::log_path(stem(name)) == name,
{
    text::last_piece_is_maximal(name, '.');
    reveal_strlit(".log");
    reveal_strlit("log");
    let start = text::last_piece_start(name, '.');
    let piece = text::last_piece(name, '.');
    assert(piece.len() == name.len() - start);
    assert(name[start] == piece[0] && name[start + 1] == piece[1] && name[start + 2] == piece[2]);
    assert(session_log::log_path(stem(name)) =~= name);
}

/// Whether an entry of the session directory is the socket of a session.
pub open spec fn is_session(e: Entry) -> bool {
    &&& !has_log_extension(e.name@)
    &&& !text::begins_with(e.name@, '.')
    &&& e.meta matches Some(m) && sys::is_socket_mode(m.mode)
}

impl Entry {
    /// Whether this is the socket of a session, so that connecting to it makes
    /// sense.
    pub fn is_session(&self) -> (r: bool)
        ensures
            r == is_session(*self),
    {
        if is_log_name(self.name.as_str()) || first_is(self.name.as_str(), '.') {
            return false;
        }
        match &self.meta {
            Some(m) => sys::is_socket(m.mode),
            None => false,
        }
    }
}

/// The session of a log that is left over: `None` for a file that is no log of
/// a session, or whose session's socket is there.
pub open spec fn orphan(name: Seq<char>, socket_exists: bool) -> Option<Seq<char>> {
    if has_log_extension(name) && name != ".ztch-app.log"@ && !socket_exists {
        Some(stem(name))
    } else {
        None
    }
}

/// The session of the log with the file name `name`: the file whose presence
/// tells that the log is not left over. `None` for a file that is no log of a
/// session.
pub fn log_session(name: &str) -> (r: Option<String>)
    ensures
        report::text_of(r) == orphan(name@, false),
{
    if !is_log_name(name) || same(name, APP_LOG_FILE_NAME) {
        return None;
    }
    Some(stem_of(name))
}

/// An entry of the session directory, with what came of connecting to it where
/// it is the socket of a session.
#[derive(Debug)]
pub struct Contact {
    pub entry: Entry,
    pub connected: Option<Result<(), i32>>,
}

/// A log in the session directory.
#[derive(Debug)]
pub struct LogEntry {
    pub entry: Entry,
    /// Whether the socket of its session is there.
    pub socket_exists: bool,
}

/// The line that lists a session.
pub open spec fn entry_line(name: Seq<char>, age: Seq<char>, mark: Seq<char>) -> Seq<char> {
    text::padded(name, 24) + " since "@ + age + " ago"@ + mark + "\n"@
}

fn entry_line_of(name: &str, age: &str, mark: &str) -> (r: String)
    ensures
        r@ == entry_line(name@, age@, mark@),
{
    let mut r: String = pad(name, 24);
    r.append(" since ");
    r.append(age);
    r.append(" ago");
    r.append(mark);
    r.append("\n");
    r
}

/// How long ago a file was modified.
pub open spec fn file_age(meta: Meta, now: nat) -> Seq<char> {
    app_log::elapsed_text(file_time(meta, now), now)
}

/// The line that lists an entry of the session directory, where it is a session
/// that runs or that has died without cleanup.
pub open spec fn socket_line(c: Contact, now: nat) -> Option<Seq<char>> {
    match (c.entry.meta, c.connected) {
        (Some(m), Some(Ok(()))) if is_session(c.entry) => Some(
            entry_line(
                c.entry.name@,
                file_age(m, now),
                if m.mode & sys::s_ixusr() != 0 {
                    " [attached]"@
                } else {
                    ""@
                },
            ),
        ),
        (Some(m), Some(Err(e))) if is_session(c.entry) && e == sys::econnrefused() => Some(
            entry_line(c.entry.name@, file_age(m, now), " [stale]"@),
        ),
        _ => None,
    }
}

/// The line that lists a log that is left over.
pub open spec fn exited_line(l: LogEntry, now: nat) -> Option<Seq<char>> {
    match orphan(l.entry.name@, l.socket_exists) {
        Some(name) => Some(
            entry_line(
                name,
                match l.entry.meta {
                    Some(m) => file_age(m, now),
                    None => "unknown"@,
                },
                " [exited]"@,
            ),
        ),
        None => None,
    }
}

/// The text that may be missing, as a sequence of none or one.
pub open spec fn none_or_one(t: Option<Seq<char>>) -> Seq<Seq<char>> {
    match t {
        Some(x) => seq![x],
        None => Seq::empty(),
    }
}

/// The lines that list entries of the session directory, in their order.
pub open spec fn socket_lines(cs: Seq<Contact>, now: nat) -> Seq<Seq<char>>
    decreases cs.len(),
{
    if cs.len() == 0 {
        Seq::empty()
    } else {
        socket_lines(cs.drop_last(), now) + none_or_one(socket_line(cs.last(), now))
    }
}

/// The lines that list left-over logs, in their order.
pub open spec fn exited_lines(ls: Seq<LogEntry>, now: nat) -> Seq<Seq<char>>
    decreases ls.len(),
{
    if ls.len() == 0 {
        Seq::empty()
    } else {
        exited_lines(ls.drop_last(), now) + none_or_one(exited_line(ls.last(), now))
    }
}

fn socket_line_of(c: &Contact, now: u64) -> (r: Option<String>)
    ensures
        report::text_of(r) == socket_line(*c, now as nat),
{
    if !c.entry.is_session() {
        return None;
    }
    match &c.entry.meta {
        Some(m) => {
            let age: String = fmt_age_at(meta_secs(m, now), now);
            match &c.connected {
                Some(Ok(())) => {
                    if (m.mode & sys::libc_s_ixusr()) != 0 {
                        Some(entry_line_of(c.entry.name.as_str(), age.as_str(), " [attached]"))
                    } else {
                        Some(entry_line_of(c.entry.name.as_str(), age.as_str(), ""))
                    }
                },
                Some(Err(e)) => {
                    if *e == sys::libc_econnrefused() {
                        Some(entry_line_of(c.entry.name.as_str(), age.as_str(), " [stale]"))
                    } else {
                        None
                    }
                },
                None => None,
            }
        },
        None => None,
    }
}

fn exited_line_of(l: &LogEntry, now: u64) -> (r: Option<String>)
    ensures
        report::text_of(r) == exited_line(*l, now as nat),
{
    if l.socket_exists {
        return None;
    }
    match log_session(l.entry.name.as_str()) {
        Some(name) => {
            let age: String = match &l.entry.meta {
                Some(m) => fmt_age_at(meta_secs(m, now), now),
                None => "unknown".to_owned(),
            };
            Some(entry_line_of(name.as_str(), age.as_str(), " [exited]"))
        },
        None => None,
    }
}

/// The sessions in the session directory, as they are shown.
#[derive(Debug)]
pub struct Listing {
    /// The lines to print.
    pub lines: Vec<String>,
    /// What to report besides.
    pub report: Option<Report>,
}

impl Session {
    /// List sessions in the session directory.
    ///
    /// Each entry shows the session name, age since last modification, and
    /// status (attached, stale, or exited). `logs` are the logs to look
    /// through, where all sessions are to be shown: those left over are shown
    /// as `[exited]`.
    pub fn list(&self, contacts: &Vec<Contact>, logs: Option<&Vec<LogEntry>>, now: u64) -> (r:
        Listing)
        ensures
            report::texts(r.lines@) == socket_lines(contacts@, now as nat) + (match logs {
                Some(ls) => exited_lines(ls@, now as nat),
                None => Seq::empty(),
            }),
            report::report_of(r.report) == (if r.lines.len() == 0 && !self.quiet {
                Some(
                    ReportView {
                        level: LogLevel::Info,
                        message: "no sessions"@,
                        out: Some("(no sessions)\n"@),
                        err: None,
                    },
                )
            } else {
                None
            }),
    {
        let mut lines: Vec<String> = Vec::new();
        let mut i: usize = 0;
        assert(report::texts(lines@) =~= socket_lines(contacts@.take(0), now as nat));
        while i < contacts.len()
            invariant
                i <= contacts.len(),
                report::texts(lines@) == socket_lines(contacts@.take(i as int), now as nat),
            decreases contacts.len() - i,
        {
            let ghost before = report::texts(lines@);
            let l: Option<String> = socket_line_of(&contacts[i], now);
            proof {
                assert(contacts@.take(i + 1).drop_last() =~= contacts@.take(i as int));
                assert(contacts@.take(i + 1).last() == contacts@[i as int]);
            }
            match l {
                Some(t) => {
                    lines.push(t);
                    assert(report::texts(lines@) =~= before + seq![t@]);
                },
                None => {
                    assert(before + Seq::<Seq<char>>::empty() =~= before);
                },
            }
            i = i + 1;
        }
        assert(contacts@.take(contacts@.len() as int) =~= contacts@);
        let ghost sockets = socket_lines(contacts@, now as nat);
        match logs {
            Some(ls) => {
                let mut j: usize = 0;
                assert(report::texts(lines@) =~= sockets + exited_lines(ls@.take(0), now as nat));
                while j < ls.len()
                    invariant
                        j <= ls.len(),
                        report::texts(lines@) == sockets + exited_lines(ls@.take(j as int), now as nat),
                    decreases ls.len() - j,
                {
                    let ghost before = report::texts(lines@);
                    let l: Option<String> = exited_line_of(&ls[j], now);
                    proof {
                        assert(ls@.take(j + 1).drop_last() =~= ls@.take(j as int));
                        assert(ls@.take(j + 1).last() == ls@[j as int]);
                    }
                    let ghost some = exited_lines(ls@.take(j as int), now as nat);
                    match l {
                        Some(t) => {
                            lines.push(t);
                            assert(report::texts(lines@) =~= before.push(t@));
                            assert(before.push(t@) =~= sockets + (some + seq![t@]));
                        },
                        None => {
                            assert(some + Seq::<Seq<char>>::empty() =~= some);
                        },
                    }
                    j = j + 1;
                }
                assert(ls@.take(ls@.len() as int) =~= ls@);
            },
            None => {
                assert(sockets + Seq::<Seq<char>>::empty() =~= sockets);
            },
        }
        let report: Option<Report> = if lines.len() == 0 && !self.quiet {
            Some(
                Report {
                    level: LogLevel::Info,
                    message: "no sessions".to_owned(),
                    out: Some("(no sessions)\n".to_owned()),
                    err: None,
                },
            )
        } else {
            None
        };
        Listing { lines, report }
    }
}

// ---------------------------------------------------------------------------
// Detaching the clients of all sessions
// ---------------------------------------------------------------------------

/// An entry of the session directory, and whether a request to detach was sent
/// to it.
#[derive(Debug)]
pub struct Asked {
    pub entry: Entry,
    pub sent: bool,
}

impl Session {
    /// The notice about each session that was asked to detach its clients, in
    /// their order.
    pub open spec fn detached_notices(&self, asked: Seq<Asked>) -> Seq<ReportView>
        decreases asked.len(),
    {
        if asked.len() == 0 {
            Seq::empty()
        } else {
            let a = asked.last();
            let before = self.detached_notices(asked.drop_last());
            if is_session(a.entry) && a.sent {
                before.push(self.notice("session '"@ + a.entry.name@ + "' detached"@))
            } else {
                before
            }
        }
    }

    /// Report on asking every live session to detach its clients.
    pub fn cmd_detach_all(&self, asked: &Vec<Asked>) -> (r: Vec<Report>)
        ensures
            report::reports_of(r@) == (if self.detached_notices(asked@).len() == 0 {
                seq![self.notice("no active sessions to detach"@)]
            } else {
                self.detached_notices(asked@)
            }),
    {
        let mut r: Vec<Report> = Vec::new();
        let mut i: usize = 0;
        assert(report::reports_of(r@) =~= self.detached_notices(asked@.take(0)));
        while i < asked.len()
            invariant
                i <= asked.len(),
                report::reports_of(r@) == self.detached_notices(asked@.take(i as int)),
            decreases asked.len() - i,
        {
            proof {
                assert(asked@.take(i + 1).drop_last() =~= asked@.take(i as int));
                assert(asked@.take(i + 1).last() == asked@[i as int]);
            }
            if asked[i].entry.is_session() && asked[i].sent {
                let mut msg: String = "session '".to_owned();
                msg.append(asked[i].entry.name.as_str());
                msg.append("' detached");
                let ghost before = report::reports_of(r@);
                let notice: Report = self.info(msg);
                r.push(notice);
                assert(report::reports_of(r@) =~= before.push(notice@));
            }
            i = i + 1;
        }
        assert(asked@.take(asked@.len() as int) =~= asked@);
        let ghost all = report::reports_of(r@);
        assert(all.len() == r.len());
        if r.len() == 0 {
            let notice: Report = self.info("no active sessions to detach".to_owned());
            r.push(notice);
            assert(report::reports_of(r@) =~= seq![notice@]);
        }
        r
    }
}

// ---------------------------------------------------------------------------
// Removing sessions
// ---------------------------------------------------------------------------

/// Why a file could not be removed.
#[derive(Debug)]
pub struct RemoveError {
    /// Whether there was none.
    pub not_found: bool,
    /// How the system describes the error.
    pub text: String,
}

/// What to do next in order to remove a session.
#[derive(Debug)]
pub enum RmStep {
    /// Remove these two files, where they exist, and finish with
    /// [`Session::removed`].
    RemoveBoth { socket: String, log: String },
    /// Remove this file, and finish with [`Session::rm_log`].
    RemoveLog(String),
    /// Stop.
    Done(Leave),
}

/// The message of a file that could not be removed.
pub open spec fn remove_failure(path: Seq<char>, text: Seq<char>) -> Seq<char> {
    "could not remove '"@ + path + "': "@ + text
}

impl Session {
    fn remove_failed(&self, path: &str, text: &str) -> (r: Report)
        ensures
            r@ == self.warning(remove_failure(path@, text@)),
    {
        let mut msg: String = "could not remove '".to_owned();
        msg.append(path);
        msg.append("': ");
        msg.append(text);
        self.warn(msg)
    }

    /// What to report of the removal of a file that may not exist: a warning on
    /// any error but that.
    pub fn remove_file_if_exists(&self, path: &str, outcome: Result<(), RemoveError>) -> (r: Option<
        Report,
    >)
        ensures
            report::report_of(r) == (match outcome {
                Err(e) if !e.not_found => Some(self.warning(remove_failure(path@, e.text@))),
                _ => None,
            }),
    {
        match outcome {
            Ok(()) => None,
            Err(e) => {
                if e.not_found {
                    None
                } else {
                    Some(self.remove_failed(path, e.text.as_str()))
                }
            },
        }
    }

    /// Remove a single session: what to do when connecting to its socket gave
    /// `connected`. A session that still runs is not removed.
    pub fn rm_single(&self, connected: Result<(), OsError>) -> (step: RmStep)
        ensures
            match connected {
                Ok(()) => {
                    &&& step matches RmStep::Done(l)
                    &&& l@ == session::leaving(
                        self.statement(
                            LogLevel::Error,
                            self.says("is running (use '"@ + self.progname@ + " kill "@
                                + self.shortname() + "' first)"@),
                        ),
                        1,
                    )
                },
                Err(err) => if err.errno == sys::econnrefused() {
                    &&& step matches RmStep::RemoveBoth { socket, log }
                    &&& socket@ == self.sockname@
                    &&& log@ == session_log::log_path(self.sockname@)
                } else if err.errno == sys::enoent() {
                    &&& step matches RmStep::RemoveLog(log)
                    &&& log@ == session_log::log_path(self.sockname@)
                } else {
                    &&& step matches RmStep::Done(l)
                    &&& l@ == session::leaving(
                        self.warning(report::detail(self.sockname@, err.text@)),
                        1,
                    )
                },
            },
    {
        match connected {
            Ok(()) => {
                let mut what: String = "is running (use '".to_owned();
                what.append(self.progname.as_str());
                what.append(" kill ");
                what.append(after_last(self.sockname.as_str(), '/'));
                what.append("' first)");
                let msg: String = self.about(what.as_str());
                RmStep::Done(leave(self.status(LogLevel::Error, msg), 1))
            },
            Err(err) => {
                let log: String = log_path_of(self.sockname.as_str());
                if err.errno == sys::libc_econnrefused() {
                    return RmStep::RemoveBoth { socket: self.sockname.as_str().to_owned(), log };
                }
                if err.errno == sys::libc_enoent() {
                    return RmStep::RemoveLog(log);
                }
                let msg: String = report::detail_of(self.sockname.as_str(), err.text.as_str());
                RmStep::Done(leave(self.warn(msg), 1))
            },
        }
    }

    /// How the removal of a single session ends once its files are gone.
    pub fn removed(&self) -> (l: Leave)
        ensures
            l@ == session::leaving(self.notice(self.says("removed"@)), 0),
    {
        leave(self.info(self.about("removed")), 0)
    }

    /// How the removal of a session without a socket ends, where removing its
    /// log gave `outcome`.
    pub fn rm_log(&self, outcome: Result<(), RemoveError>) -> (l: Leave)
        ensures
            l@ == (match outcome {
                Ok(()) => session::leaving(self.notice(self.says("removed"@)), 0),
                Err(e) => session::leaving(
                    self.warning(
                        if e.not_found {
                            self.says("does not exist"@)
                        } else {
                            remove_failure(session_log::log_path(self.sockname@), e.text@)
                        },
                    ),
                    1,
                ),
            }),
    {
        match outcome {
            Ok(()) => self.removed(),
            Err(e) => {
                if e.not_found {
                    leave(self.warn(self.about("does not exist")), 1)
                } else {
                    let log: String = log_path_of(self.sockname.as_str());
                    leave(self.remove_failed(log.as_str(), e.text.as_str()), 1)
                }
            },
        }
    }

    /// The report of a session that is removed among all.
    pub fn removed_one(&self, name: &str) -> (r: Report)
        ensures
            r@ == self.notice("removed "@ + name@),
    {
        let mut msg: String = "removed ".to_owned();
        msg.append(name);
        self.info(msg)
    }

    /// How the removal of all stale and exited sessions ends.
    pub fn rm(&self, removal: &Removal) -> (l: Leave)
        ensures
            l@ == session::leaving(
                self.notice(
                    if removal.count == 0 {
                        "nothing to remove"@
                    } else {
                        text::numeral(removal.count as nat) + " session(s) removed"@
                    },
                ),
                0,
            ),
    {
        if removal.count == 0 {
            return leave(self.info("nothing to remove".to_owned()), 0);
        }
        let mut msg: String = decimal(removal.count as u64);
        msg.append(" session(s) removed");
        leave(self.info(msg), 0)
    }
}

/// Whether an entry of the session directory is the socket of a session that
/// has died without cleanup.
pub open spec fn is_stale(c: Contact) -> bool {
    is_session(c.entry) && (c.connected matches Some(Err(e)) && e == sys::econnrefused())
}

/// The files to remove for an entry of the session directory, where it is the
/// socket of a session that has died without cleanup: its path and that of its
/// log below the directory `dir`.
pub fn rm_stale_sockets(c: &Contact, dir: &str) -> (r: Option<(String, String)>)
    ensures
        r is Some <==> is_stale(*c),
        r matches Some(paths) ==> {
            &&& paths.0@ == text::joined(dir@, c.entry.name@)
            &&& paths.1@ == text::joined(dir@, session_log::log_path(c.entry.name@))
        },
{
    if !c.entry.is_session() {
        return None;
    }
    match &c.connected {
        Some(Err(e)) => {
            if *e == sys::libc_econnrefused() {
                let log: String = log_path_of(c.entry.name.as_str());
                Some((join_path(dir, c.entry.name.as_str()), join_path(dir, log.as_str())))
            } else {
                None
            }
        },
        _ => None,
    }
}

/// The session of a log to remove, because it is left over.
pub fn rm_orphaned_logs(l: &LogEntry) -> (r: Option<String>)
    ensures
        report::text_of(r) == orphan(l.entry.name@, l.socket_exists),
{
    if l.socket_exists {
        return None;
    }
    log_session(l.entry.name.as_str())
}

/// How many of these entries are sockets of sessions that have died without
/// cleanup.
pub open spec fn stale_count(cs: Seq<Contact>) -> nat
    decreases cs.len(),
{
    if cs.len() == 0 {
        0
    } else {
        stale_count(cs.drop_last()) + (if is_stale(cs.last()) {
            1nat
        } else {
            0
        })
    }
}

/// How many of these entries are logs that are left over.
pub open spec fn orphan_count(ls: Seq<LogEntry>) -> nat
    decreases ls.len(),
{
    if ls.len() == 0 {
        0
    } else {
        orphan_count(ls.drop_last()) + (if orphan(ls.last().entry.name@, ls.last().socket_exists) is Some {
            1nat
        } else {
            0
        })
    }
}

/// The removal of all stale and exited sessions, entry by entry.
#[derive(Debug)]
pub struct Removal {
    /// How many sessions were removed so far.
    pub count: usize,
}

impl Removal {
    /// Whether the count is that of the stale ones among `cs` and the left-over
    /// ones among `ls`.
    pub open spec fn counts(&self, cs: Seq<Contact>, ls: Seq<LogEntry>) -> bool {
        self.count == stale_count(cs) + orphan_count(ls)
    }

    /// A removal that begins.
    pub fn new() -> (r: Removal)
        ensures
            r.count == 0,
            r.counts(Seq::empty(), Seq::empty()),
    {
        Removal { count: 0 }
    }

    /// The files to remove for an entry of the session directory, where it is
    /// stale; it then counts as removed.
    pub fn stale(&mut self, c: &Contact, dir: &str) -> (r: Option<(String, String)>)
        requires
            old(self).count < usize::MAX,
        ensures
            r is Some <==> is_stale(*c),
            r matches Some(paths) ==> {
                &&& paths.0@ == text::joined(dir@, c.entry.name@)
                &&& paths.1@ == text::joined(dir@, session_log::log_path(c.entry.name@))
            },
            final(self).count == old(self).count + (if is_stale(*c) {
                1int
            } else {
                0
            }),
            forall|cs: Seq<Contact>, ls: Seq<LogEntry>| #[trigger]
                old(self).counts(cs, ls) ==> final(self).counts(cs.push(*c), ls),
    {
        let r: Option<(String, String)> = rm_stale_sockets(c, dir);
        if r.is_some() {
            self.count = self.count + 1;
        }
        proof {
            assert forall|cs: Seq<Contact>, ls: Seq<LogEntry>| #[trigger]
                old(self).counts(cs, ls) implies self.counts(cs.push(*c), ls) by {
                assert(cs.push(*c).drop_last() =~= cs);
            }
        }
        r
    }

    /// The session of a log to remove, where it is left over; it then counts as
    /// removed.
    pub fn orphaned(&mut self, l: &LogEntry) -> (r: Option<String>)
        requires
            old(self).count < usize::MAX,
        ensures
            report::text_of(r) == orphan(l.entry.name@, l.socket_exists),
            final(self).count == old(self).count + (if orphan(
                l.entry.name@,
                l.socket_exists,
            ) is Some {
                1int
            } else {
                0
            }),
            forall|cs: Seq<Contact>, ls: Seq<LogEntry>| #[trigger]
                old(self).counts(cs, ls) ==> final(self).counts(cs, ls.push(*l)),
    {
        let r: Option<String> = rm_orphaned_logs(l);
        if r.is_some() {
            self.count = self.count + 1;
        }
        proof {
            assert forall|cs: Seq<Contact>, ls: Seq<LogEntry>| #[trigger]
                old(self).counts(cs, ls) implies self.counts(cs, ls.push(*l)) by {
                assert(ls.push(*l).drop_last() =~= ls);
            }
        }
        r
    }
}

/// Whether `name` is a log that is left over where the names in `dir` exist.
pub open spec fn is_left_over(name: Seq<char>, dir: Set<Seq<char>>) -> bool {
    orphan(name, dir.contains(stem(name))) is Some
}

/// The names that exist after `gone` were removed.
pub open spec fn without(dir: Set<Seq<char>>, gone: Seq<Seq<char>>) -> Set<Seq<char>> {
    dir.difference(gone.to_set())
}

/// The logs that are removed when the entries of a directory are visited in
/// this order, where at first the names in `dir` exist and every removal
/// succeeds: each entry is judged by what exists when its turn comes.
pub open spec fn orphan_pass(dir: Set<Seq<char>>, order: Seq<Seq<char>>) -> Seq<Seq<char>>
    decreases order.len(),
{
    if order.len() == 0 {
        Seq::empty()
    } else {
        let gone = orphan_pass(dir, order.drop_last());
        if is_left_over(order.last(), without(dir, gone)) {
            gone.push(order.last())
        } else {
            gone
        }
    }
}

/// Whether `order` lists the entries of the directory in which the names in
/// `dir` exist: each once, and every log among them.
pub open spec fn lists(order: Seq<Seq<char>>, dir: Set<Seq<char>>) -> bool {
    &&& order.no_duplicates()
    &&& forall|n: Seq<char>| order.contains(n) ==> #[trigger] dir.contains(n)
    &&& forall|n: Seq<char>| dir.contains(n) && has_log_extension(n) ==> #[trigger] order.contains(n)
}

/// Whether what spares a log of `dir` is nowhere a left-over log itself.
pub open spec fn no_log_of_a_left_over_log(dir: Set<Seq<char>>) -> bool {
    forall|n: Seq<char>| #[trigger]
        dir.contains(n) && orphan(n, false) is Some && dir.contains(stem(n)) ==> !is_left_over(
            stem(n),
            dir,
        )
}

/// A visit of all entries removes each left-over log, once, and nothing else.
proof fn pass_removes_the_left_over(dir: Set<Seq<char>>, order: Seq<Seq<char>>)
    requires
        order.no_duplicates(),
        forall|n: Seq<char>| order.contains(n) ==> #[trigger] dir.contains(n),
        no_log_of_a_left_over_log(dir),
    ensures
        orphan_pass(dir, order).no_duplicates(),
        forall|n: Seq<char>| #[trigger]
            orphan_pass(dir, order).contains(n) <==> order.contains(n) && is_left_over(n, dir),
    decreases order.len(),
{
    if order.len() > 0 {
        let init = order.drop_last();
        let last = order.last();
        assert forall|n: Seq<char>| #[trigger]
            order.contains(n) <==> init.contains(n) || n == last by {
            if order.contains(n) && n != last {
                let k = choose|k: int| 0 <= k < order.len() && order[k] == n;
                assert(init[k] == n);
            }
            if init.contains(n) {
                let k = choose|k: int| 0 <= k < init.len() && init[k] == n;
                assert(order[k] == n);
            }
            assert(order[order.len() - 1] == last);
        }
        assert(!init.contains(last));
        pass_removes_the_left_over(dir, init);
        let gone = orphan_pass(dir, init);
        assert(dir.contains(last));
        assert(without(dir, gone).contains(stem(last)) <==> dir.contains(stem(last))
            && !gone.contains(stem(last)));
        assert(is_left_over(last, without(dir, gone)) == is_left_over(last, dir));
        assert forall|n: Seq<char>| #[trigger]
            gone.push(last).contains(n) <==> gone.contains(n) || n == last by {
            assert(gone.push(last)[gone.len() as int] == last);
            if gone.contains(n) {
                let k = choose|k: int| 0 <= k < gone.len() && gone[k] == n;
                assert(gone.push(last)[k] == n);
            }
        }
        assert(!gone.contains(last));
        assert forall|n: Seq<char>| #[trigger]
            orphan_pass(dir, order).contains(n) <==> order.contains(n) && is_left_over(n, dir) by {
            assert(order.contains(n) <==> init.contains(n) || n == last);
            assert(gone.push(last).contains(n) <==> gone.contains(n) || n == last);
        }
    }
}

/// Where what spares a log is no left-over log itself, the removal of left-over
/// logs takes exactly the logs without a socket beside them, each once: no
/// socket of a session, no log of a name that exists, and not the application
/// log. Right after it there is nothing more to remove.
pub proof fn left_over_logs_are_removed_at_once(
    dir: Set<Seq<char>>,
    order: Seq<Seq<char>>,
    again: Seq<Seq<char>>,
)
    requires
        lists(order, dir),
        no_log_of_a_left_over_log(dir),
        lists(again, without(dir, orphan_pass(dir, order))),
    ensures
        orphan_pass(dir, order).no_duplicates(),
        forall|n: Seq<char>| #[trigger]
            orphan_pass(dir, order).contains(n) <==> dir.contains(n) && is_left_over(n, dir),
        forall|e: Entry| #[trigger]
            is_session(e) ==> !orphan_pass(dir, order).contains(e.name@),
        forall|s: Seq<char>|
            s.len() > 0 ==> (orphan_pass(dir, order).contains(#[trigger] session_log::log_path(s))
                <==> dir.contains(session_log::log_path(s)) && !dir.contains(s)
                && session_log::log_path(s) != ".ztch-app.log"@),
        orphan_pass(without(dir, orphan_pass(dir, order)), again) == Seq::<Seq<char>>::empty(),
{
    pass_removes_the_left_over(dir, order);
    let gone = orphan_pass(dir, order);
    let left = without(dir, gone);
    assert forall|n: Seq<char>| #[trigger] gone.contains(n) <==> dir.contains(n) && is_left_over(
        n,
        dir,
    ) by {
        if dir.contains(n) && is_left_over(n, dir) {
            assert(order.contains(n));
        }
    }
    assert forall|s: Seq<char>| s.len() > 0 implies (gone.contains(
        #[trigger] session_log::log_path(s),
    ) <==> dir.contains(session_log::log_path(s)) && !dir.contains(s) && session_log::log_path(s)
        != ".ztch-app.log"@) by {
        log_name_gives_the_session(s);
    }
    assert forall|n: Seq<char>| left.contains(n) implies !is_left_over(n, left) by {
        assert(dir.contains(n) && !gone.contains(n));
    }
    assert forall|n: Seq<char>| #[trigger]
        left.contains(n) && orphan(n, false) is Some && left.contains(stem(n)) implies !is_left_over(
        stem(n),
        left,
    ) by {
        assert(left.contains(stem(n)));
    }
    pass_removes_the_left_over(left, again);
    let more = orphan_pass(left, again);
    if more.len() > 0 {
        assert(more.contains(more[0]));
        assert(left.contains(more[0]));
    }
    assert(more =~= Seq::empty());
}

/// The count of a removal goes up by the number of logs that its visit of the
/// directory removes.
pub proof fn removed_logs_are_counted(
    dir: Set<Seq<char>>,
    order: Seq<Seq<char>>,
    ls: Seq<LogEntry>,
)
    requires
        ls.len() == order.len(),
        forall|k: int|
            0 <= k < ls.len() ==> (#[trigger] ls[k]).entry.name@ == order[k] && ls[k].socket_exists
                == without(dir, orphan_pass(dir, order.take(k))).contains(stem(order[k])),
    ensures
        orphan_count(ls) == orphan_pass(dir, order).len(),
    decreases ls.len(),
{
    if ls.len() > 0 {
        let init = order.drop_last();
        let n = ls.len() - 1;
        assert(order.take(n) =~= init);
        assert forall|k: int| 0 <= k < ls.drop_last().len() implies (#[trigger] ls.drop_last()[k]).entry.name@
            == init[k] && ls.drop_last()[k].socket_exists == without(
            dir,
            orphan_pass(dir, init.take(k)),
        ).contains(stem(init[k])) by {
            assert(ls[k].entry.name@ == order[k]);
            assert(init.take(k) =~= order.take(k));
        }
        removed_logs_are_counted(dir, init, ls.drop_last());
        assert(ls[n].entry.name@ == order[n]);
    }
}

/// Removing all stale and exited sessions spares those that run, the logs of
/// sessions whose sockets are there, and the application log. What it removes
/// is listed as stale or exited.
pub proof fn only_the_dead_are_removed(c: Contact, l: LogEntry, now: nat)
    ensures
        c.connected == Some(Ok::<(), i32>(())) ==> !is_stale(c),
        is_stale(c) ==> (c.entry.meta matches Some(m) && socket_line(c, now) == Some(
            entry_line(c.entry.name@, file_age(m, now), " [stale]"@),
        )),
        l.socket_exists ==> orphan(l.entry.name@, l.socket_exists) is None,
        orphan(l.entry.name@, l.socket_exists) is Some <==> exited_line(l, now) is Some,
        orphan(".ztch-app.log"@, l.socket_exists) is None,
{
}

} // verus!
