//! What holds of the command line: options, the session that is meant, the
//! plans of the commands, and the last lines of a log.

use crate::app_log::{AppLog, LogLevel};
use crate::cli;
use crate::cli::{
    DetachPlan, FirstWord, GlobalArgs, OpenError, RmPlan, Tail, TailDo, TailEvent, TailStage,
};
use crate::report::ReportView;
use crate::session::{Leave, Session};
use crate::text;
use crate::util;
use crate::util::{Env, TailScan, TailStep};
use vstd::prelude::*;
use vstd::string::*;

verus! {

// ---------------------------------------------------------------------------
// Options
// ---------------------------------------------------------------------------

/// The options mean what they say: each is taken over, a way of redrawing or
/// clearing is the one that is named and unspecified under any other name, and a
/// log is limited to the size that is given, where it is one, or to a mebibyte.
/// No session is chosen yet.
pub proof fn options_mean_what_they_say(
    global: &GlobalArgs,
    progname: &str,
    envvar: &str,
    env: &Env,
    s: Session,
    log: AppLog,
)
    requires
        call_ensures(cli::session_from_global, (global, progname, envvar, env), s),
        call_ensures(AppLog::new, (progname, env), log),
    ensures
        s.progname@ == progname@,
        s.app_log.name() == log.name(),
        s.app_log.place() == log.place(),
        s.session_envvar@ == envvar@,
        s.sockname@.len() == 0,
        s.no_suspend == global.no_suspend,
        s.no_ansiterm == global.no_ansiterm,
        s.quiet == global.quiet,
        !s.dont_have_tty,
        s.redraw_method is NoRedraw <==> (global.redraw matches Some(t) && t@ == "none"@),
        s.redraw_method is CtrlL <==> (global.redraw matches Some(t) && t@ == "ctrl_l"@),
        s.redraw_method is Winch <==> (global.redraw matches Some(t) && t@ == "winch"@),
        s.clear_method is NoClear <==> (global.clear matches Some(t) && t@ == "none"@),
        s.clear_method is Move <==> (global.clear matches Some(t) && t@ == "move"@),
        global.log_cap is None ==> s.log_max_size == 1048576,
        global.log_cap matches Some(t) ==> match util::size_value(t@) {
            Some(v) => s.log_max_size == v,
            None => s.log_max_size == 1048576,
        },
        global.disable_escape ==> s.detach_char == -1,
        !global.disable_escape && global.escape is None ==> s.detach_char == 0x1c,
        !global.disable_escape ==> (global.escape matches Some(t) ==> {
            let b = util::utf8(t@);
            &&& b.len() == 0 ==> s.detach_char == 0
            &&& b.len() > 0 && (b[0] != 94 || b.len() == 1) ==> s.detach_char == b[0]
            &&& b.len() > 1 && b[0] == 94 && b[1] == 63 ==> s.detach_char == 127
            &&& b.len() > 1 && b[0] == 94 && b[1] != 63 ==> s.detach_char == b[1] as int % 32
        }),
{
    reveal_strlit("none");
    reveal_strlit("ctrl_l");
    reveal_strlit("winch");
    reveal_strlit("move");
    assert("none"@.len() == 4 && "ctrl_l"@.len() == 6 && "winch"@.len() == 5 && "move"@.len() == 4);
    assert("none"@[0] == 'n' && "move"@[0] == 'm');
    if let Some(t) = global.escape {
        let b = util::utf8(t@);
        if b.len() > 1 {
            let x = b[1];
            assert(x & 0x1f == x % 32) by (bit_vector);
        }
    }
}

// ---------------------------------------------------------------------------
// The session that is meant
// ---------------------------------------------------------------------------

/// Whether `now` is `before` turned to the session `name`, and nothing else.
pub open spec fn turned(now: &Session, before: &Session, name: Seq<char>, env: &Env) -> bool {
    &&& *now == (Session { sockname: now.sockname, ..*before })
    &&& now.sockname@ == util::socket_path(
        before.progname@,
        name,
        env.home_view(),
        env.pid as nat,
    )
}

/// The session that is meant is the one that is named, and else the innermost of
/// the chain.
pub open spec fn meant(session: Option<String>, chain: Option<&str>) -> Seq<char> {
    match session {
        Some(s) => s@,
        None => match chain {
            Some(c) => text::last_piece(c@, ':'),
            None => Seq::empty(),
        },
    }
}

/// Whether a command ends because no session is named and there is no chain.
pub open spec fn lacks_session(sess: &Session, l: Leave) -> bool {
    let msg = "no session specified and "@ + sess.session_envvar@ + " is not set"@;
    &&& l.code == 1
    &&& l.report matches Some(r)
    &&& r@ == (ReportView {
        level: LogLevel::Error,
        message: msg,
        out: None,
        err: Some(sess.app_log.name() + ": "@ + msg + "\n"@),
    })
}

/// A command acts on the session that is meant, and ends with an error where
/// there is none. Detaching all needs none.
pub proof fn commands_act_on_the_session_that_is_meant(
    a: &mut Session,
    b: &mut Session,
    c: &mut Session,
    d: &mut Session,
    session: &Option<String>,
    all: bool,
    chain: Option<&str>,
    env: &Env,
    name: String,
    plan: DetachPlan,
    stop: Option<Leave>,
    log: String,
    pushed: &str,
)
    requires
        call_ensures(cli::resolve_session_name, (session, chain), name),
        call_ensures(cli::cmd_detach, (a, session, all, chain, env), plan),
        call_ensures(cli::cmd_kill, (b, session, chain, env), stop),
        call_ensures(cli::cmd_clear, (c, session, chain, env), log),
        call_ensures(cli::cmd_push, (d, pushed, env), ()),
    ensures
        name@ == meant(*session, chain),
        plan is All <==> all,
        all ==> *final(a) == *old(a),
        !all && name@.len() > 0 ==> plan is One && turned(final(a), old(a), name@, env),
        !all && name@.len() == 0 ==> (plan matches DetachPlan::Done(l) && lacks_session(old(a), l)
            && *final(a) == *old(a)),
        name@.len() > 0 ==> stop is None && turned(final(b), old(b), name@, env),
        name@.len() == 0 ==> (stop matches Some(l) && lacks_session(old(b), l) && *final(b)
            == *old(b)),
        turned(final(c), old(c), name@, env),
        log@ == final(c).sockname@ + ".log"@,
        turned(final(d), old(d), pushed@, env),
{
}

/// How clearing a log ends: a log that was cleared is told of, one that does not
/// exist needs no clearing, and any other error is one.
pub proof fn missing_log_needs_no_clearing(
    sess: &Session,
    outcome: Result<(), OpenError>,
    l: Leave,
)
    requires
        call_ensures(cli::clear_outcome, (sess, outcome), l),
    ensures
        match outcome {
            Ok(_) => l.code == 0 && (l.report matches Some(r) && r@ == sess.notice(
                "session '"@ + text::last_piece(sess.sockname@, '/') + "' "@ + "log cleared"@,
            )),
            Err(e) => if e.not_found {
                l.code == 0 && l.report is None
            } else {
                let msg = sess.sockname@ + ".log"@ + ": "@ + e.text@;
                l.code == 1 && (l.report matches Some(r) && r@ == (ReportView {
                    level: LogLevel::Error,
                    message: msg,
                    out: None,
                    err: Some(sess.app_log.name() + ": "@ + msg + "\n"@),
                }))
            },
        },
{
}

/// A session that is named is removed alone; without a name, or with the option
/// for all, all are meant, and a name that is then ignored is warned of.
pub proof fn removal_is_of_one_or_of_all(
    sess: &mut Session,
    session: &Option<String>,
    all: bool,
    env: &Env,
    r: RmPlan,
)
    requires
        call_ensures(cli::cmd_rm, (sess, session, all, env), r),
    ensures
        r.all <==> all || session is None,
        r.all ==> *final(sess) == *old(sess),
        !r.all ==> (session matches Some(s) && turned(final(sess), old(sess), s@, env)),
        r.warning is Some <==> all && session is Some,
        r.warning matches Some(w) ==> {
            let msg =
                "warning: session name is ignored when -a is used; removing all stale sessions"@;
            w@ == (ReportView {
                level: LogLevel::Warn,
                message: msg,
                out: None,
                err: Some(old(sess).app_log.name() + ": "@ + msg + "\n"@),
            })
        },
{
}

/// The first argument asks for the version or for help, or is a command.
pub proof fn first_argument_is_recognised(raw: &Vec<String>, r: FirstWord, name: &str, l: Leave)
    requires
        raw@.len() > 0,
        call_ensures(cli::first_word, (raw,), r),
        call_ensures(cli::usage, (name,), l),
    ensures
        r is Version <==> raw@.len() > 1 && raw@[1]@ == "--version"@,
        r is Help <==> raw@.len() > 1 && raw@[1]@ == "?"@,
        r matches FirstWord::Version(v) ==> {
            &&& v.code == 0
            &&& v.report matches Some(rep)
            &&& rep@ == (ReportView {
                level: LogLevel::Info,
                message: "version requested"@,
                out: Some(raw@[0]@ + " - version dev\n"@),
                err: None,
            })
        },
        l.code == 1,
        l.report matches Some(q) && q@ == (ReportView {
            level: LogLevel::Error,
            message: "invalid command line; usage suggested"@,
            out: None,
            err: Some("Try '"@ + name@ + " --help' for usage\n"@),
        }),
{
    reveal_strlit("--version");
    reveal_strlit("?");
    assert("--version"@.len() == 9 && "?"@.len() == 1);
}

// ---------------------------------------------------------------------------
// The last lines of a log
// ---------------------------------------------------------------------------

/// Showing the last lines begins at the log of the session that is named, with
/// at least one line.
pub proof fn at_least_one_line_is_shown(
    sess: &Session,
    session: &str,
    follow: bool,
    lines: i32,
    env: &Env,
    r: (Tail, String),
)
    requires
        call_ensures(cli::cmd_tail, (sess, session, follow, lines, env), r),
    ensures
        lines >= 1 ==> r.0.lines == lines,
        lines < 1 ==> r.0.lines == 1,
        r.0.follow == follow,
        r.0.stage is Opening,
        r.0.sock@ == util::socket_path(
            sess.progname@,
            session@,
            env.home_view(),
            env.pid as nat,
        ),
        r.1@ == r.0.sock@ + ".log"@,
        cli::FOLLOW_MILLIS == 250,
{
}

/// Whether the end of a log was shown and what is appended comes next, where it
/// is to be followed; else it is the end, and a success.
pub open spec fn is_shown(tail: &Tail, next: TailDo) -> bool {
    &&& tail.follow ==> tail.stage is Watching && next is Watch
    &&& !tail.follow ==> (next matches TailDo::Done(l) && l.report is None && l.code == 0)
}

/// The message of a log that cannot be opened.
pub open spec fn no_log_message(tail: &Tail, e: OpenError) -> Seq<char> {
    if e.not_found {
        "no log for session '"@ + text::last_piece(tail.sock@, '/') + "'"@
    } else {
        tail.sock@ + ".log"@ + ": "@ + e.text@
    }
}

/// A log is opened, and its size is found out. One that is missing, or cannot be
/// opened, is told of, with code 1. One that is empty is shown already.
pub proof fn missing_log_is_told(
    a: &mut Tail,
    b: &mut Tail,
    log: &AppLog,
    outcome: Result<(), OpenError>,
    opened: TailDo,
    size: u64,
    sized: TailDo,
)
    requires
        old(a).stage is Opening,
        old(b).stage is Sizing,
        call_ensures(Tail::step, (a, log, TailEvent::Opened(outcome)), opened),
        call_ensures(Tail::step, (b, log, TailEvent::Sized(size)), sized),
    ensures
        outcome is Ok ==> opened is FindSize && final(a).stage is Sizing,
        outcome matches Err(e) ==> {
            &&& opened matches TailDo::Done(l)
            &&& l.code == 1
            &&& l.report matches Some(r)
            &&& r@ == (ReportView {
                level: LogLevel::Error,
                message: no_log_message(old(a), e),
                out: if e.not_found {
                    Some(log.name() + ": "@ + no_log_message(old(a), e) + "\n"@)
                } else {
                    None
                },
                err: if e.not_found {
                    None
                } else {
                    Some(log.name() + ": "@ + no_log_message(old(a), e) + "\n"@)
                },
            })
        },
        size == 0 ==> is_shown(final(b), sized),
        size > 0 ==> sized is ReadAt || sized == TailDo::ReadFrom(0),
        0 < size <= 0x7fff_ffff_ffff_ffff && old(b).lines >= 0 ==> {
            &&& sized matches TailDo::ReadAt { pos, len }
            &&& pos + len == size
            &&& len == (if size < 4096 {
                size as int
            } else {
                4096
            })
        },
{
}

/// From the start of the last lines on everything is shown, up to the end; after
/// that, where the log is followed, what is appended is shown too, and more is
/// waited for: for a change where there is a watch, and for a while where there
/// is none.
pub proof fn log_is_shown_and_followed(
    a: &mut Tail,
    b: &mut Tail,
    c: &mut Tail,
    d: &mut Tail,
    log: &AppLog,
    bytes: Vec<u8>,
    watch: bool,
    shown: TailDo,
    watched: TailDo,
    followed: TailDo,
    waited: TailDo,
)
    requires
        old(a).stage is Showing,
        old(b).stage is Watching,
        old(c).stage == TailStage::Following(watch),
        old(d).stage == TailStage::Following(watch),
        call_ensures(Tail::step, (a, log, TailEvent::Read(bytes)), shown),
        call_ensures(Tail::step, (b, log, TailEvent::Watched(watch)), watched),
        call_ensures(Tail::step, (c, log, TailEvent::Read(bytes)), followed),
        call_ensures(Tail::step, (d, log, TailEvent::Waited), waited),
    ensures
        bytes@.len() > 0 ==> shown == TailDo::Show(bytes) && final(a).stage is Showing,
        bytes@.len() == 0 ==> is_shown(final(a), shown),
        watched is ReadOn,
        final(b).stage == TailStage::Following(watch),
        bytes@.len() > 0 ==> followed == TailDo::Show(bytes),
        bytes@.len() == 0 && watch ==> followed is AwaitChange,
        bytes@.len() == 0 && !watch ==> followed is Sleep,
        final(c).stage == TailStage::Following(watch),
        waited is ReadOn,
        final(d).stage == TailStage::Following(watch),
{
}

/// A search that has read what it asked for, chunk by chunk from the end, leads
/// to the start of the last lines: there showing begins, and until then it asks
/// for the chunk before.
pub proof fn search_leads_to_the_last_lines(
    tail: &mut Tail,
    log: &AppLog,
    c: Seq<u8>,
    scan: TailScan,
    chunk: Vec<u8>,
    next: TailDo,
)
    requires
        c.len() <= 0x7fff_ffff_ffff_ffff,
        old(tail).stage == TailStage::Searching(scan),
        scan.wf(),
        scan.found is None,
        util::on_track(scan, c, old(tail).lines as int),
        chunk@ == c.subrange(
            if scan.pos > 4096 {
                scan.pos - 4096
            } else {
                0
            },
            scan.pos as int,
        ),
        call_ensures(Tail::step, (tail, log, TailEvent::Read(chunk)), next),
    ensures
        next matches TailDo::ReadFrom(start) ==> {
            &&& final(tail).stage is Showing
            &&& start == util::tail_start(c, old(tail).lines as int)
        },
        !(next matches TailDo::ReadFrom(start)) ==> {
            &&& next matches TailDo::ReadAt { pos, len }
            &&& pos + len == scan.pos - 4096
            &&& len == (if scan.pos - 4096 < 4096 {
                scan.pos - 4096
            } else {
                4096
            })
            &&& final(tail).stage matches TailStage::Searching(after)
            &&& util::on_track(after, c, old(tail).lines as int)
        },
{
    let after = choose|after: TailScan|
        {
            &&& util::searched(scan, chunk@, after)
            &&& #[trigger] final(tail).searches(after, next)
        };
    util::search_stays_on_track(scan, c, old(tail).lines as int, chunk@, after);
}

/// A search begins at the end of the file and asks for chunks of at most 4096
/// bytes, each ending where the last one began.
pub proof fn search_begins_at_the_end(
    size: u64,
    nlines: i32,
    scan: TailScan,
    other: &TailScan,
    step: TailStep,
)
    requires
        call_ensures(TailScan::new, (size, nlines), scan),
        other.wf(),
        call_ensures(TailScan::next, (other,), step),
    ensures
        0 < size <= 0x7fff_ffff_ffff_ffff && nlines >= 0 ==> {
            &&& scan.found is None
            &&& scan.pos == size
            &&& scan.left == nlines
            &&& scan.at_end
        },
        size == 0 || nlines < 0 ==> scan.found == Some(0u64),
        other.found matches Some(start) ==> step == TailStep::Done(start),
        other.found is None ==> (step matches TailStep::Read { pos, len } && pos + len == other.pos
            && 0 < len <= 4096 && (pos == 0 || len == 4096)),
{
}

/// How many lines a text has: one more than there are newlines before its last
/// byte, and none where it is empty.
pub open spec fn lines_in(c: Seq<u8>) -> nat {
    if c.len() == 0 {
        0
    } else {
        c.drop_last().filter(|b: u8| b == 10).len() + 1
    }
}

proof fn newlines_are_counted(c: Seq<u8>)
    ensures
        util::newlines(c) == c.filter(|b: u8| b == 10).len(),
    decreases c.len(),
{
    reveal(Seq::filter);
    if c.len() > 0 {
        newlines_are_counted(c.drop_last());
    }
}

proof fn lines_are_counted(c: Seq<u8>)
    ensures
        util::line_count(c) == lines_in(c),
{
    if c.len() > 0 {
        newlines_are_counted(c.drop_last());
    }
}

/// The last lines of a file start behind a newline and are as many as were asked
/// for, whether or not the last of them is closed; where the file has no more
/// than that, they start where it does. Without any line asked for, nothing but
/// an open one is left.
pub proof fn last_lines_are_as_many_as_asked_for(content: &[u8], nlines: i32, start: u64)
    requires
        content@.len() <= 0x7fff_ffff_ffff_ffff,
        call_ensures(util::find_tail_start, (content, nlines), start),
    ensures
        start <= content@.len(),
        start > 0 ==> content@[start - 1] == 10,
        nlines >= 1 ==> {
            &&& lines_in(content@) <= nlines ==> start == 0
            &&& lines_in(content@) > nlines ==> start > 0 && lines_in(content@.skip(start as int))
                == nlines
        },
        nlines == 0 ==> forall|i: int| start <= i < content@.len() ==> content@[i] != 10,
        nlines < 0 ==> start == 0,
{
    let c = content@;
    lines_are_counted(c);
    if nlines >= 1 {
        util::tail_is_the_last_lines(c, nlines as int);
        lines_are_counted(c.skip(start as int));
    } else if nlines == 0 {
        last_newline_is_the_last(c);
    }
}

proof fn last_newline_is_the_last(c: Seq<u8>)
    ensures
        ({
            let start = util::after_newline(c, 0);
            &&& 0 <= start <= c.len()
            &&& start > 0 ==> c[start - 1] == 10
            &&& forall|i: int| start <= i < c.len() ==> c[i] != 10
        }),
    decreases c.len(),
{
    if c.len() > 0 && c.last() != 10 {
        let init = c.drop_last();
        last_newline_is_the_last(init);
        let start = util::after_newline(init, 0);
        assert forall|i: int| start <= i < c.len() implies c[i] != 10 by {
            if i < init.len() {
                assert(init[i] == c[i]);
            }
        }
    }
}

/// Turning to a session changes its socket and nothing else.
pub proof fn turning_changes_the_socket_alone(sess: &mut Session, name: &str, env: &Env)
    requires
        call_ensures(Session::turn_to, (sess, name, env), ()),
    ensures
        turned(final(sess), old(sess), name@, env),
{
}

/// Any options are taken that do not ask for a larger log than can be counted,
/// and the events of showing a log are taken where they can happen.
pub proof fn commands_are_accepted(
    global: &GlobalArgs,
    progname: &str,
    envvar: &str,
    env: &Env,
    raw: &Vec<String>,
    content: &[u8],
    nlines: i32,
    tail: &mut Tail,
    log: &AppLog,
    event: TailEvent,
    scan: &mut TailScan,
    chunk: &[u8],
)
    requires
        global.log_cap matches Some(s) ==> (util::size_value(s@) matches Some(v) ==> v
            <= usize::MAX),
        raw@.len() > 0,
        content@.len() <= 0x7fff_ffff_ffff_ffff,
        match event {
            TailEvent::Opened(_) => tail.stage is Opening,
            TailEvent::Sized(_) => tail.stage is Sizing,
            TailEvent::Read(b) => match tail.stage {
                TailStage::Searching(s) => {
                    &&& s.found is None
                    &&& 0 < s.pos <= 0x7fff_ffff_ffff_ffff
                    &&& 0 <= s.left
                    &&& b@.len() <= 4096
                    &&& b@.len() <= s.pos
                },
                TailStage::Showing => true,
                TailStage::Following(_) => true,
                _ => false,
            },
            TailEvent::Watched(_) => tail.stage is Watching,
            TailEvent::Waited => tail.stage is Following,
        },
        scan.found is None,
        0 < scan.pos <= 0x7fff_ffff_ffff_ffff,
        0 <= scan.left,
        chunk@.len() <= 4096,
        chunk@.len() <= scan.pos,
    ensures
        call_requires(cli::session_from_global, (global, progname, envvar, env)),
        call_requires(cli::first_word, (raw,)),
        call_requires(util::find_tail_start, (content, nlines)),
        call_requires(Tail::step, (tail, log, event)),
        call_requires(TailScan::next, (&*old(scan),)),
        call_requires(TailScan::feed, (scan, chunk)),
{
}

} // verus!
