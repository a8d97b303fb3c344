//! Messages: what the application log records and what the user sees.

use crate::app_log::LogLevel;
use crate::text;
use crate::text::after_last;
use vstd::prelude::*;
use vstd::string::*;

verus! {

/// A message to pass on: the application log records it, and what is to be
/// printed is printed.
#[derive(Debug)]
pub struct Report {
    /// Severity of the record.
    pub level: LogLevel,
    /// The message that the application log records.
    pub message: String,
    /// What to print on standard output.
    pub out: Option<String>,
    /// What to print on standard error.
    pub err: Option<String>,
}

/// A report, as contracts speak of it.
#[verifier::ext_equal]
pub struct ReportView {
    pub level: LogLevel,
    pub message: Seq<char>,
    pub out: Option<Seq<char>>,
    pub err: Option<Seq<char>>,
}

/// The characters of a text that may be missing.
pub open spec fn text_of(s: Option<String>) -> Option<Seq<char>> {
    match s {
        Some(t) => Some(t@),
        None => None,
    }
}

/// The characters of each of some texts.
pub open spec fn texts(v: Seq<String>) -> Seq<Seq<char>> {
    v.map_values(|s: String| s@)
}

impl View for Report {
    type V = ReportView;

    open spec fn view(&self) -> ReportView {
        ReportView {
            level: self.level,
            message: self.message@,
            out: text_of(self.out),
            err: text_of(self.err),
        }
    }
}

/// A report that may be missing, as contracts speak of it.
pub open spec fn report_of(r: Option<Report>) -> Option<ReportView> {
    match r {
        Some(t) => Some(t@),
        None => None,
    }
}

/// Some reports, as contracts speak of them.
pub open spec fn reports_of(v: Seq<Report>) -> Seq<ReportView> {
    v.map_values(|r: Report| r@)
}

/// A failed system call: its error number and how the system describes it.
#[derive(Debug)]
pub struct OsError {
    pub errno: i32,
    pub text: String,
}

/// The line that shows a message of the program `progname`.
pub open spec fn line(progname: Seq<char>, message: Seq<char>) -> Seq<char> {
    progname + ": "@ + message + "\n"@
}

/// The line that shows a message of the program `progname`.
pub fn line_of(progname: &str, message: &str) -> (r: String)
    ensures
        r@ == line(progname@, message@),
{
    let mut r: String = progname.to_owned();
    r.append(": ");
    r.append(message);
    r.append("\n");
    r
}

/// The line that shows a message of the program `progname` in the midst of
/// session output.
pub open spec fn banner(progname: Seq<char>, message: Seq<char>) -> Seq<char> {
    "\r\n["@ + progname + ": "@ + message + "]\r\n\n"@
}

/// The line that shows a message of the program `progname` in the midst of
/// session output.
pub fn banner_of(progname: &str, message: &str) -> (r: String)
    ensures
        r@ == banner(progname@, message@),
{
    let mut r: String = "\r\n[".to_owned();
    r.append(progname);
    r.append(": ");
    r.append(message);
    r.append("]\r\n\n");
    r
}

/// A message about the session with the socket `sockname`.
pub open spec fn about(sockname: Seq<char>, what: Seq<char>) -> Seq<char> {
    "session '"@ + text::last_piece(sockname, '/') + "' "@ + what
}

/// A message about the session with the socket `sockname`.
pub fn about_session(sockname: &str, what: &str) -> (r: String)
    ensures
        r@ == about(sockname@, what@),
{
    let mut r: String = "session '".to_owned();
    r.append(after_last(sockname, '/'));
    r.append("' ");
    r.append(what);
    r
}

/// Two texts parted by a colon and a blank.
pub open spec fn detail(subject: Seq<char>, what: Seq<char>) -> Seq<char> {
    subject + ": "@ + what
}

/// Two texts parted by a colon and a blank.
pub fn detail_of(subject: &str, what: &str) -> (r: String)
    ensures
        r@ == detail(subject@, what@),
{
    let mut r: String = subject.to_owned();
    r.append(": ");
    r.append(what);
    r
}

impl ReportView {
    /// A message that is recorded and not shown.
    pub open spec fn silent(level: LogLevel, message: Seq<char>) -> ReportView {
        ReportView { level, message, out: None, err: None }
    }

    /// A message that is shown on standard output.
    pub open spec fn printed(
        progname: Seq<char>,
        level: LogLevel,
        message: Seq<char>,
    ) -> ReportView {
        ReportView { level, message, out: Some(line(progname, message)), err: None }
    }

    /// A message that is shown on standard error.
    pub open spec fn warned(progname: Seq<char>, level: LogLevel, message: Seq<char>) -> ReportView {
        ReportView { level, message, out: None, err: Some(line(progname, message)) }
    }

    /// A message that is shown in the midst of session output.
    pub open spec fn in_session(
        progname: Seq<char>,
        level: LogLevel,
        message: Seq<char>,
    ) -> ReportView {
        ReportView { level, message, out: Some(banner(progname, message)), err: None }
    }
}

impl Report {
    /// A message that is recorded and not shown.
    pub fn silent(level: LogLevel, message: String) -> (r: Report)
        ensures
            r@ == ReportView::silent(level, message@),
    {
        Report { level, message, out: None, err: None }
    }

    /// A message that is shown on standard output.
    pub fn printed(progname: &str, level: LogLevel, message: String) -> (r: Report)
        ensures
            r@ == ReportView::printed(progname@, level, message@),
    {
        let out: String = line_of(progname, message.as_str());
        Report { level, message, out: Some(out), err: None }
    }

    /// A message that is shown on standard error.
    pub fn warned(progname: &str, level: LogLevel, message: String) -> (r: Report)
        ensures
            r@ == ReportView::warned(progname@, level, message@),
    {
        let err: String = line_of(progname, message.as_str());
        Report { level, message, out: None, err: Some(err) }
    }

    /// A message that is shown in the midst of session output.
    pub fn in_session(progname: &str, level: LogLevel, message: String) -> (r: Report)
        ensures
            r@ == ReportView::in_session(progname@, level, message@),
    {
        let out: String = banner_of(progname, message.as_str());
        Report { level, message, out: Some(out), err: None }
    }
}

} // verus!
