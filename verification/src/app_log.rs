//! Best-effort application log for the manager's own status and error messages.
//!
//! Session output is logged separately as `<session>.log`. This module decides
//! where the manager's own messages are recorded and what their lines look
//! like, so failures and status updates can be inspected after the terminal
//! output is gone.

use crate::protocol;
use crate::protocol::format_age;
use crate::text;
use crate::text::{decimal, join_path};
use crate::util;
use crate::util::{get_session_dir, Env};
use vstd::prelude::*;
use vstd::string::*;

verus! {

/// The name of the application log in the session directory.
pub const APP_LOG_FILE_NAME: &'static str = ".ztch-app.log";

/// The size to which the application log is cut back after each record.
pub const APP_LOG_MAX_SIZE: usize = 256 * 1024;

/// Application log severity.
#[derive(Clone, Copy, Debug, Eq, PartialEq, Structural)]
pub enum LogLevel {
    Info,
    Warn,
    Error,
}

impl LogLevel {
    /// The word that stands for this severity in the log.
    pub open spec fn word(self) -> Seq<char> {
        match self {
            LogLevel::Info => "INFO"@,
            LogLevel::Warn => "WARN"@,
            LogLevel::Error => "ERROR"@,
        }
    }

    /// The word that stands for this severity in the log.
    pub fn as_str(self) -> (r: &'static str)
        ensures
            r@ == self.word(),
    {
        match self {
            LogLevel::Info => "INFO",
            LogLevel::Warn => "WARN",
            LogLevel::Error => "ERROR",
        }
    }
}

/// Application-log context.
#[derive(Debug)]
pub struct AppLog {
    progname: String,
    path: String,
}

impl Clone for AppLog {
    fn clone(&self) -> (r: AppLog)
        ensures
            r.name() == self.name(),
            r.place() == self.place(),
    {
        AppLog {
            progname: self.progname.as_str().to_owned(),
            path: self.path.as_str().to_owned(),
        }
    }
}

/// The path of the application log of a program.
pub open spec fn app_log_path(progname: Seq<char>, env: &Env) -> Seq<char> {
    text::joined(
        util::session_dir(progname, env.home_view(), env.pid as nat),
        ".ztch-app.log"@,
    )
}

impl AppLog {
    /// The program name that messages carry.
    pub closed spec fn name(&self) -> Seq<char> {
        self.progname@
    }

    /// The path of the log.
    pub closed spec fn place(&self) -> Seq<char> {
        self.path@
    }

    /// Create an application-log context for `progname`.
    pub fn new(progname: &str, env: &Env) -> (r: AppLog)
        ensures
            r.name() == progname@,
            r.place() == app_log_path(progname@, env),
    {
        let dir: String = get_session_dir(progname, env);
        AppLog { progname: progname.to_owned(), path: join_path(dir.as_str(), APP_LOG_FILE_NAME) }
    }

    /// Program name used in user-facing messages.
    pub fn progname(&self) -> (r: &str)
        ensures
            r@ == self.name(),
    {
        self.progname.as_str()
    }

    /// Path used for the application log.
    pub fn path(&self) -> (r: &str)
        ensures
            r@ == self.place(),
    {
        self.path.as_str()
    }

    /// The line that records `message` at the time `now`, in seconds since the
    /// epoch.
    pub fn record(&self, now: u64, level: LogLevel, message: &str) -> (line: String)
        ensures
            line@ == record_line(now as nat, level, message@),
    {
        let mut line: String = decimal(now);
        line.append(" ");
        line.append(level.as_str());
        line.append(" ");
        line.append(escape_line(message).as_str());
        line.append("\n");
        line
    }
}

/// The line that records `message` at the time `now`.
pub open spec fn record_line(now: nat, level: LogLevel, message: Seq<char>) -> Seq<char> {
    text::numeral(now) + " "@ + level.word() + " "@ + escaped(message) + "\n"@
}

/// `s` with each carriage return and each newline written as two visible
/// characters.
pub open spec fn escaped(s: Seq<char>) -> Seq<char>
    decreases s.len(),
{
    if s.len() == 0 {
        Seq::empty()
    } else if s.last() == '\r' {
        escaped(s.drop_last()) + "\\r"@
    } else if s.last() == '\n' {
        escaped(s.drop_last()) + "\\n"@
    } else {
        escaped(s.drop_last()).push(s.last())
    }
}

/// An escaped message is one line: it holds neither a carriage return nor a
/// newline.
pub proof fn escaped_message_is_one_line(s: Seq<char>)
    ensures
        !escaped(s).contains('\r'),
        !escaped(s).contains('\n'),
    decreases s.len(),
{
    reveal_strlit("\\r");
    reveal_strlit("\\n");
    if s.len() > 0 {
        let t = escaped(s.drop_last());
        escaped_message_is_one_line(s.drop_last());
        assert forall|i: int| 0 <= i < escaped(s).len() implies escaped(s)[i] != '\r' && escaped(
            s,
        )[i] != '\n' by {
            if i < t.len() {
                assert(escaped(s)[i] == t[i]);
                assert(t.contains(t[i]));
            }
        }
    }
}

/// A message that holds neither a carriage return nor a newline is recorded as
/// it is.
pub proof fn plain_message_is_not_changed(s: Seq<char>)
    requires
        !s.contains('\r'),
        !s.contains('\n'),
    ensures
        escaped(s) == s,
    decreases s.len(),
{
    if s.len() > 0 {
        let t = s.drop_last();
        assert forall|c: char| t.contains(c) implies s.contains(c) by {
            let i = choose|i: int| 0 <= i < t.len() && t[i] == c;
            assert(s[i] == c);
        }
        assert(s.contains(s.last()));
        plain_message_is_not_changed(t);
        assert(t.push(s.last()) =~= s);
    } else {
        assert(escaped(s) =~= s);
    }
}

/// `message` with each carriage return and each newline written as two visible
/// characters, so that it makes one line.
pub fn escape_line(message: &str) -> (r: String)
    ensures
        r@ == escaped(message@),
{
    let mut r: String = String::new();
    for c in it: message.chars()
        invariant
            it.seq() == message@,
            r@ == escaped(message@.take(it.index())),
    {
        let ghost next = message@.take(it.index() + 1);
        assert(next.drop_last() =~= message@.take(it.index()));
        assert(next.last() == c);
        if c == '\r' {
            r.append("\\r");
        } else if c == '\n' {
            r.append("\\n");
        } else {
            r.push(c);
        }
    }
    assert(message@.take(message@.len() as int) =~= message@);
    r
}

/// `SystemTime::elapsed` of the Unix epoch: the whole seconds that have passed
/// since, or `None` where the clock stands before it. Nothing is claimed of the
/// result, which depends on the clock.
#[verifier::external_body]
fn seconds_since_epoch() -> (r: Option<u64>) {
    match std::time::UNIX_EPOCH.elapsed() {
        Ok(d) => Some(d.as_secs()),
        Err(_) => None,
    }
}

/// The time in seconds since the epoch, where the clock gave `elapsed`.
pub fn timestamp_of(elapsed: Option<u64>) -> (r: u64)
    ensures
        r == (match elapsed {
            Some(s) => s,
            None => 0,
        }),
{
    match elapsed {
        Some(s) => s,
        None => 0,
    }
}

/// The current time in seconds since the epoch, or 0 where the clock stands
/// before it.
pub fn unix_timestamp() -> (r: u64) {
    timestamp_of(seconds_since_epoch())
}

/// The time that has passed from `start` to `now`, or none where `start` lies
/// ahead.
pub open spec fn elapsed_text(start: nat, now: nat) -> Seq<char> {
    protocol::age_text(if now >= start {
        (now - start) as nat
    } else {
        0
    })
}

/// The time that has passed from `start` to `now`, as people read it.
pub fn fmt_age_at(start: u64, now: u64) -> (r: String)
    ensures
        r@ == elapsed_text(start as nat, now as nat),
{
    format_age(
        if now >= start {
            now - start
        } else {
            0
        },
    )
}

/// The time that has passed since `start`, as people read it.
pub fn fmt_age(start: u64) -> (r: String)
    ensures
        exists|now: u64| r@ == #[trigger] elapsed_text(start as nat, now as nat),
{
    let now: u64 = unix_timestamp();
    fmt_age_at(start, now)
}

} // verus!
