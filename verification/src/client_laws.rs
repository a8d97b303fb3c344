//! What holds of the client's commands: stopping, querying, attaching, being
//! attached and pushing input.

use crate::app_log::LogLevel;
use crate::attach;
use crate::attach::{
    AttachEvent, AttachStep, LoopStep, PushStep, Ready, ServerStep, StdinStep, Turn, TurnStage,
    TurnStep,
};
use crate::cli;
use crate::cli::GlobalArgs;
use crate::protocol::{IoError, Packet};
use crate::report::{OsError, ReportView};
use crate::session;
use crate::session::{
    AfterSpawn, Implicit, InfoAnswer, Kill, KillAction, KillEvent, KillStep, Leave, LeaveView,
    ReplayLogStep, Request, Session,
};
use crate::term::{Termios, WinSize};
use crate::text;
use crate::util;
use crate::util::Env;
use vstd::prelude::*;
use vstd::string::*;

verus! {

/// Whether a command ends with this report and this code.
pub open spec fn ends_with(l: Leave, report: ReportView, code: i32) -> bool {
    &&& l.report matches Some(r)
    &&& r@ == report
    &&& l.code == code
}

/// Whether a command ends without a word and with this code.
pub open spec fn ends_silently(l: Leave, code: i32) -> bool {
    l.report is None && l.code == code
}

/// The message about the session of `sess`.
pub open spec fn about(sess: &Session, what: Seq<char>) -> Seq<char> {
    "session '"@ + text::last_piece(sess.sockname@, '/') + "' "@ + what
}

/// Whether a packet has this kind and this length, and a payload of zeros.
pub open spec fn is_bare(p: Packet, kind: u8, len: u8) -> bool {
    &&& p.msg_type == kind
    &&& p.len == len
    &&& forall|i: int| 0 <= i < 8 ==> #[trigger] p.data@[i] == 0
}

/// Whether a packet carries this input to the session, under this kind.
pub open spec fn carries_input(p: Packet, kind: u8, input: Seq<u8>) -> bool {
    &&& p.msg_type == kind
    &&& p.len == input.len()
    &&& forall|i: int| 0 <= i < input.len() ==> #[trigger] p.data@[i] == input[i]
    &&& forall|i: int| input.len() <= i < 8 ==> #[trigger] p.data@[i] == 0
}

/// Whether a packet carries a window size, the low byte of each number first.
pub open spec fn carries_size(p: Packet, ws: WinSize) -> bool {
    &&& p.data@.len() == 8
    &&& p.data@[0] + 256 * p.data@[1] == ws.row
    &&& p.data@[2] + 256 * p.data@[3] == ws.col
    &&& p.data@[4] + 256 * p.data@[5] == ws.xpixel
    &&& p.data@[6] + 256 * p.data@[7] == ws.ypixel
}

/// The message of a connection that failed: no such file means that the session
/// does not exist, a refusal that it does not run; anything else is told as the
/// system puts it.
pub open spec fn failure_message(sess: &Session, err: OsError) -> Seq<char> {
    if err.errno == 2 {
        about(sess, "does not exist"@)
    } else if err.errno == 111 {
        about(sess, "is not running"@)
    } else {
        sess.sockname@ + ": "@ + err.text@
    }
}

// ---------------------------------------------------------------------------
// Connecting
// ---------------------------------------------------------------------------

/// A connection succeeds just when the call did. A refusal by a file that is no
/// socket counts as such; any other error is passed on.
pub proof fn refusal_by_no_socket_is_told(
    connected: Result<(), i32>,
    mode: Option<u32>,
    r: Result<(), i32>,
)
    requires
        call_ensures(session::connect_socket, (connected, mode), r),
    ensures
        r is Ok <==> connected is Ok,
        connected matches Err(e) ==> (r matches Err(n) && {
            let no_socket = mode matches Some(m) && m & 0o170000 != 0o140000;
            &&& e == 111 && no_socket ==> n == 88
            &&& !(e == 111 && no_socket) ==> n == e
        }),
{
}

// ---------------------------------------------------------------------------
// Stopping
// ---------------------------------------------------------------------------

/// A stop begins with a signal: SIGKILL by force and SIGHUP otherwise. By force
/// it looks for a second whether the session is gone; otherwise for a tenth of
/// that, and three times as long after it has come to force.
pub proof fn stop_begins_with_a_signal(sess: &Session, force: bool, r: (Kill, KillStep))
    requires
        call_ensures(Session::kill, (sess, force), r),
    ensures
        r.0.force == force,
        !r.0.escalated,
        r.1 matches KillStep::Send(p) && is_bare(
            p,
            5,
            if force {
                9
            } else {
                1
            },
        ),
        r.0.looks * session::LOOK_MILLIS == (if force {
            1000int
        } else {
            100
        }),
        session::ESCALATED_LOOKS * session::LOOK_MILLIS == 300,
{
}

/// A first signal that cannot be sent ends a stop at once, by force or not, with
/// the reason and code 1; one that was sent is followed by a look, and so is the
/// second in any case.
pub proof fn unsent_signal_ends_the_stop(
    sess: &Session,
    k: &mut Kill,
    outcome: Result<(), OsError>,
    step: KillStep,
)
    requires
        old(k).wf(),
        call_ensures(Session::kill_step, (sess, k, KillEvent::Sent(outcome)), step),
    ensures
        *final(k) == *old(k),
        outcome is Ok || old(k).escalated ==> step is Look,
        outcome matches Err(err) ==> !old(k).escalated ==> (step matches KillStep::Done(l)
            && ends_with(l, sess.statement(LogLevel::Error, failure_message(sess, err)), 1)),
{
}

/// A look ends a stop well just when the session is gone. Otherwise it is
/// repeated as often as is left; after that a normal stop sends SIGKILL, once,
/// and looks on, and any other stop gives up with code 1.
pub proof fn look_tells_whether_it_is_gone(
    sess: &Session,
    k: &mut Kill,
    gone: bool,
    step: KillStep,
)
    requires
        old(k).wf(),
        call_ensures(Session::kill_step, (sess, k, KillEvent::Looked(gone)), step),
    ensures
        gone ==> (step matches KillStep::Done(l) && *final(k) == *old(k) && ends_with(
            l,
            if old(k).escalated {
                sess.statement(LogLevel::Info, about(sess, "killed"@))
            } else if old(k).force {
                sess.notice(about(sess, "killed"@))
            } else {
                sess.notice(about(sess, "stopped"@))
            },
            0,
        )),
        !gone && old(k).looks > 1 ==> {
            &&& step is Look
            &&& final(k).looks == old(k).looks - 1
            &&& final(k).force == old(k).force
            &&& final(k).escalated == old(k).escalated
        },
        !gone && old(k).looks == 1 && !old(k).force && !old(k).escalated ==> {
            &&& step matches KillStep::Send(p)
            &&& is_bare(p, 5, 9)
            &&& *final(k) == (Kill { force: false, escalated: true, looks: 3 })
        },
        !gone && old(k).looks == 1 && (old(k).force || old(k).escalated) ==> {
            &&& step matches KillStep::Done(l)
            &&& ends_with(l, sess.statement(LogLevel::Error, about(sess, "did not stop"@)), 1)
        },
{
}

/// How a stop ends in the course of these events, or `None` where it goes on.
pub open spec fn stop_ending(sess: &Session, k: Kill, events: Seq<KillEvent>) -> Option<LeaveView>
    decreases events.len(),
{
    if events.len() == 0 {
        None
    } else {
        match sess.kill_next(k, events[0]) {
            (_, KillAction::Done(l)) => Some(l),
            (next, _) => stop_ending(sess, next, events.drop_first()),
        }
    }
}

/// A stop reports success only if its first signal was sent and a look has found
/// the session gone. Where the first signal was not sent, it has failed.
pub proof fn success_means_that_the_session_is_gone(
    sess: &Session,
    force: bool,
    events: Seq<KillEvent>,
)
    requires
        events.len() > 0,
        events[0] is Sent,
    ensures
        events[0] matches KillEvent::Sent(Err(err)) ==> stop_ending(
            sess,
            session::kill_begin(force),
            events,
        ) == Some(
            LeaveView {
                report: Some(sess.statement(LogLevel::Error, failure_message(sess, err))),
                code: 1,
            },
        ),
        stop_ending(sess, session::kill_begin(force), events) matches Some(l) && l.code == 0 ==> {
            &&& (events[0] matches KillEvent::Sent(Ok(_)))
            &&& exists|i: int| 0 < i < events.len() && #[trigger] events[i] == KillEvent::Looked(true)
        },
{
    let k = session::kill_begin(force);
    if stop_ending(sess, k, events) matches Some(l) && l.code == 0 {
        let rest = events.drop_first();
        success_comes_from_a_look(sess, k, rest);
        let i = choose|i: int| 0 <= i < rest.len() && #[trigger] rest[i] == KillEvent::Looked(true);
        assert(events[i + 1] == KillEvent::Looked(true));
    }
}

proof fn success_comes_from_a_look(sess: &Session, k: Kill, events: Seq<KillEvent>)
    requires
        stop_ending(sess, k, events) matches Some(l) && l.code == 0,
    ensures
        exists|i: int| 0 <= i < events.len() && #[trigger] events[i] == KillEvent::Looked(true),
    decreases events.len(),
{
    match sess.kill_next(k, events[0]) {
        (_, KillAction::Done(l)) => {
            assert(events[0] == KillEvent::Looked(true));
        },
        (next, _) => {
            let rest = events.drop_first();
            success_comes_from_a_look(sess, next, rest);
            let i = choose|i: int|
                0 <= i < rest.len() && #[trigger] rest[i] == KillEvent::Looked(true);
            assert(events[i + 1] == KillEvent::Looked(true));
        },
    }
}

// ---------------------------------------------------------------------------
// Requests
// ---------------------------------------------------------------------------

/// A query and a request to detach go to a session that can be reached, each as
/// its own kind of packet. For any other the reason is told, and the code is 1.
pub proof fn requests_go_to_running_sessions(
    sess: &Session,
    connected: Result<(), OsError>,
    query: Request,
    detach: Request,
)
    requires
        call_ensures(Session::cmd_info, (sess, connected), query),
        call_ensures(Session::cmd_detach, (sess, connected), detach),
    ensures
        connected is Ok ==> {
            &&& query matches Request::Send(p) && is_bare(p, 7, 0)
            &&& detach matches Request::Send(q) && is_bare(q, 6, 0)
        },
        connected matches Err(err) ==> {
            let rep = sess.statement(LogLevel::Error, failure_message(sess, err));
            &&& query matches Request::Done(l) && ends_with(l, rep, 1)
            &&& detach matches Request::Done(m) && ends_with(m, rep, 1)
        },
{
}

/// How requests end: one that was not sent fails with a warning and code 1; the
/// answer to a query is shown behind the session's name, and recorded without
/// the white space at its end.
pub proof fn requests_end_as_they_went(
    sess: &Session,
    ok: bool,
    out: &str,
    sent: Option<Leave>,
    answered: Leave,
    detached: Leave,
)
    requires
        call_ensures(Session::info_sent, (sess, ok), sent),
        call_ensures(Session::info_answer, (sess, out), answered),
        call_ensures(Session::detach_sent, (sess, ok), detached),
    ensures
        ({
            let name = text::last_piece(sess.sockname@, '/');
            &&& ok <==> sent is None
            &&& sent matches Some(l) ==> ends_with(
                l,
                sess.warning("failed to query session '"@ + name + "'"@),
                1,
            )
            &&& answered.code == 0
            &&& answered.report matches Some(r)
            &&& r.level == LogLevel::Info
            &&& r.message@ == "'"@ + name + "': "@ + text::trimmed_end(out@)
            &&& r.out matches Some(o)
            &&& o@ == sess.progname@ + ": "@ + ("'"@ + name + "': "@ + out@)
            &&& r.err is None
            &&& ok ==> ends_with(detached, sess.notice(about(sess, "detached"@)), 0)
            &&& !ok ==> ends_with(
                detached,
                sess.warning("failed to send detach request to '"@ + name + "'"@),
                1,
            )
        }),
{
}

/// An answer is complete at the end of the connection or at an error that is no
/// interruption, and holds what was read until then.
pub proof fn answer_holds_what_was_read(
    fresh: InfoAnswer,
    a: &mut InfoAnswer,
    outcome: Result<Vec<u8>, IoError>,
    done: bool,
)
    requires
        call_ensures(InfoAnswer::new, (), fresh),
        call_ensures(InfoAnswer::feed, (a, outcome), done),
    ensures
        fresh.out@.len() == 0,
        done <==> (match outcome {
            Ok(bytes) => bytes@.len() == 0,
            Err(IoError::Interrupted) => false,
            Err(_) => true,
        }),
        outcome matches Ok(bytes) ==> bytes@.len() > 0 ==> final(a).out@ == old(a).out@
            + text::read_as_text(bytes@),
        done || outcome is Err ==> final(a).out@ == old(a).out@,
{
}

// ---------------------------------------------------------------------------
// Logs, names and terminals
// ---------------------------------------------------------------------------

/// A log is replayed as it is, read by read, up to its end or an error, which is
/// warned of. A line follows just where the session has refused the connection.
pub proof fn log_is_replayed_as_it_is(
    sess: &Session,
    errno: i32,
    read: Result<Vec<u8>, String>,
    step: ReplayLogStep,
)
    requires
        call_ensures(Session::replay_log, (sess, errno, read), step),
    ensures
        step is Show <==> (read matches Ok(data) && data@.len() > 0),
        step matches ReplayLogStep::Show(shown) ==> read == Ok::<Vec<u8>, String>(shown),
        step matches ReplayLogStep::End(rep, ending) ==> {
            &&& rep is None <==> read is Ok
            &&& read matches Err(t) ==> (rep matches Some(r) && r@ == sess.warning(
                "error reading log for '"@ + text::last_piece(sess.sockname@, '/') + "': "@ + t@,
            ))
            &&& ending is Some <==> errno == 111
            &&& ending matches Some(e) ==> e@ == "\r\n["@ + sess.progname@ + ": "@ + about(
                sess,
                "ended unexpectedly"@,
            ) + "]\r\n\n"@
        },
{
}

/// The current session is the innermost of the chain, by its name; without a
/// chain there is none, and the code is 1.
pub proof fn current_session_is_the_innermost(sess: &Session, chain: Option<&str>, l: Leave)
    requires
        call_ensures(Session::cmd_current, (sess, chain), l),
    ensures
        l.code == 0 <==> (chain matches Some(c) && c@.len() > 0),
        l.code == 0 ==> (chain matches Some(c) && l.report matches Some(r) && {
            let name = text::last_piece(text::last_piece(c@, ':'), '/');
            &&& r.level == LogLevel::Info
            &&& r.message@ == "current session '"@ + name + "'"@
            &&& r.out matches Some(o)
            &&& o@ == name + "\n"@
            &&& r.err is None
        }),
        l.code != 0 ==> {
            &&& l.code == 1
            &&& l.report matches Some(r)
            &&& r.level == LogLevel::Error
            &&& r.message@ == "not in a session"@
            &&& r.out is None
            &&& r.err matches Some(e)
            &&& e@ == sess.progname@ + ": "@ + "not in a session"@ + "\n"@
        },
{
}

/// Whether a command ends because there is no terminal.
pub open spec fn lacks_terminal(sess: &Session, l: Leave) -> bool {
    let msg = "attaching to a session requires a terminal."@;
    ends_with(
        l,
        (ReportView {
            level: LogLevel::Error,
            message: msg,
            out: None,
            err: Some(sess.progname@ + ": "@ + msg + "\n"@),
        }),
        1,
    )
}

/// Whether `now` is `before` turned to the session `name`, with the terminal
/// that was found and nothing else changed.
pub open spec fn turned_to_with(
    now: &Session,
    before: &Session,
    name: Seq<char>,
    env: &Env,
    attributes: Option<Termios>,
) -> bool {
    &&& *now == (Session {
        sockname: now.sockname,
        orig_term: now.orig_term,
        dont_have_tty: now.dont_have_tty,
        ..*before
    })
    &&& now.sockname@ == util::socket_path(
        before.progname@,
        name,
        env.home_view(),
        env.pid as nat,
    )
    &&& now.dont_have_tty == (attributes is None)
    &&& attributes matches Some(t) ==> now.orig_term == t
}

/// Attaching needs a terminal, and only that is asked for: it is taken over,
/// and the session that is named is turned to.
pub proof fn attaching_needs_a_terminal(
    sess: &mut Session,
    name: &str,
    env: &Env,
    attributes: Option<Termios>,
    r: Option<Leave>,
    other: &Session,
    checked: Option<Leave>,
)
    requires
        call_ensures(Session::cmd_attach, (sess, name, env, attributes), r),
        call_ensures(Session::require_tty, (other,), checked),
    ensures
        turned_to_with(final(sess), old(sess), name@, env, attributes),
        r is None <==> attributes is Some,
        r matches Some(l) ==> lacks_terminal(old(sess), l),
        checked is None <==> !other.dont_have_tty,
        checked matches Some(l) ==> lacks_terminal(other, l),
{
}

/// The attributes of the terminal are kept as they were found, and zeros where
/// there is none.
pub proof fn terminal_is_kept_as_found(
    attributes: Option<Termios>,
    saved: (Termios, bool),
    sess: &mut Session,
)
    requires
        call_ensures(util::save_term, (attributes,), saved),
        call_ensures(Session::with_tty, (sess, attributes), ()),
    ensures
        saved.1 <==> attributes is None,
        attributes matches Some(t) ==> saved.0 == t && final(sess).orig_term == t,
        attributes is None ==> {
            &&& saved.0.iflag == 0
            &&& saved.0.oflag == 0
            &&& saved.0.cflag == 0
            &&& saved.0.lflag == 0
            &&& forall|i: int| 0 <= i < 32 ==> #[trigger] saved.0.cc@[i] == 0
        },
        final(sess).dont_have_tty <==> attributes is None,
        final(sess).sockname == old(sess).sockname,
        *final(sess) == (Session {
            orig_term: final(sess).orig_term,
            dont_have_tty: final(sess).dont_have_tty,
            ..*old(sess)
        }),
{
}

/// A session that was created is reported and attached to, unless there is no
/// terminal; one that was started is reported; and one that could not be created
/// is the end, with code 1 and without a further word.
pub proof fn created_session_is_attached_to(
    sess: &Session,
    spawned: i32,
    r: AfterSpawn,
    l: Leave,
)
    requires
        call_ensures(Session::created, (sess, spawned), r),
        call_ensures(Session::started, (sess, spawned), l),
    ensures
        spawned != 0 ==> (r matches AfterSpawn::Done(d) && ends_silently(d, 1)) && ends_silently(
            l,
            1,
        ),
        spawned == 0 ==> ends_with(l, sess.notice(about(sess, "started"@)), 0),
        spawned == 0 && !sess.dont_have_tty ==> (r matches AfterSpawn::Attach(rep) && rep@
            == sess.notice(about(sess, "created"@))),
        spawned == 0 && sess.dont_have_tty ==> (r matches AfterSpawn::Stop(rep, d) && rep@
            == sess.notice(about(sess, "created"@)) && lacks_terminal(sess, d)),
{
}

/// A session that does not exist or does not run is created where it is only
/// implied, and a socket that was left behind is removed before; any other
/// failure is one, and success is the end of it.
pub proof fn implied_session_is_created_where_it_is_missing(
    sess: &Session,
    result: i32,
    r: Implicit,
)
    requires
        call_ensures(Session::implicit_attach, (sess, result), r),
    ensures
        r is Create <==> result == 111 || result == 2,
        r matches Implicit::Create { errno, remove_socket } ==> {
            &&& errno == result
            &&& remove_socket <==> result == 111
        },
        r matches Implicit::Done(code) ==> {
            &&& code == 0 <==> result == 0
            &&& code == 0 || code == 1
        },
{
}

/// A session runs the command of the user, word by word. Without one it runs the
/// user's shell, and `/bin/sh` where none is set. A word with a null byte makes
/// no command.
pub proof fn session_runs_the_users_command(
    args: &Vec<String>,
    shell: Option<&str>,
    r: Option<Vec<Vec<u8>>>,
)
    requires
        call_ensures(session::use_shell_if_no_cmd, (args, shell), r),
    ensures
        args@.len() > 0 ==> {
            &&& r is None <==> exists|i: int|
                0 <= i < args@.len() && util::utf8((#[trigger] args@[i])@).contains(0u8)
            &&& r matches Some(v) ==> {
                &&& v@.len() == args@.len()
                &&& forall|i: int|
                    0 <= i < args@.len() ==> (#[trigger] v@[i])@ == util::utf8(args@[i]@)
            }
        },
        args@.len() == 0 ==> {
            let word = match shell {
                Some(s) => if s@.len() > 0 {
                    s@
                } else {
                    "/bin/sh"@
                },
                None => "/bin/sh"@,
            };
            &&& r is None <==> util::utf8(word).contains(0u8)
            &&& r matches Some(v) ==> v@.len() == 1 && v@[0]@ == util::utf8(word)
        },
{
    let shell_text = session::str_text(shell);
    let command = session::command_of(args@, shell_text);
    if args@.len() > 0 {
        assert forall|i: int| 0 <= i < args@.len() implies command[i] == (#[trigger] args@[i])@ by {}
        if r is None {
            let i = choose|i: int|
                0 <= i < command.len() && util::utf8(#[trigger] command[i]).contains(0u8);
            assert(util::utf8(args@[i]@).contains(0u8));
        }
        if let Some(v) = r {
            let b = session::byte_views(v@);
            assert(b.len() == v@.len());
            assert forall|i: int| 0 <= i < args@.len() implies (#[trigger] v@[i])@ == util::utf8(
                args@[i]@,
            ) by {
                assert(b[i] == v@[i]@);
            }
            if exists|i: int|
                0 <= i < args@.len() && util::utf8((#[trigger] args@[i])@).contains(0u8) {
                let i = choose|i: int|
                    0 <= i < args@.len() && util::utf8((#[trigger] args@[i])@).contains(0u8);
                assert(util::utf8(command[i]).contains(0u8));
            }
        }
    } else {
        assert(command.len() == 1);
        let word = command[0];
        if let Some(v) = r {
            let b = session::byte_views(v@);
            assert(b.len() == v@.len());
            assert(b[0] == v@[0]@);
            assert(!util::utf8(command[0]).contains(0u8));
        }
    }
}

/// Creating a session, in the background or not, turns to the one that is named
/// and runs what the user asks for.
pub proof fn creation_turns_to_the_named_session(
    a: &mut Session,
    b: &mut Session,
    c: &mut Session,
    name: &str,
    command: &Vec<String>,
    shell: Option<&str>,
    env: &Env,
    attributes: Option<Termios>,
    ra: Option<Vec<Vec<u8>>>,
    rb: Option<Vec<Vec<u8>>>,
    rc: Option<Vec<Vec<u8>>>,
)
    requires
        call_ensures(Session::cmd_new, (a, name, command, shell, env, attributes), ra),
        call_ensures(Session::cmd_start, (b, name, command, shell, env, attributes), rb),
        call_ensures(Session::cmd_run, (c, name, command, shell, env, attributes), rc),
    ensures
        turned_to_with(final(a), old(a), name@, env, attributes),
        turned_to_with(final(b), old(b), name@, env, attributes),
        turned_to_with(final(c), old(c), name@, env, attributes),
        session::is_command(ra, command@, session::str_text(shell)),
        session::is_command(rb, command@, session::str_text(shell)),
        session::is_command(rc, command@, session::str_text(shell)),
{
}

// ---------------------------------------------------------------------------
// Attaching
// ---------------------------------------------------------------------------

/// A session is never attached to from within itself: where its socket is one of
/// those in the chain, the attempt ends with code 1. Anywhere else it goes on.
pub proof fn session_is_not_attached_to_from_within(
    sess: &Session,
    noerror: bool,
    chain: Option<String>,
    step: AttachStep,
)
    requires
        call_ensures(Session::attach, (sess, noerror, AttachEvent::Chain(chain)), step),
    ensures
        ({
            let within = chain matches Some(c) && c@.len() > 0 && exists|i: int, j: int|
                {
                    &&& 0 <= i <= j <= c@.len()
                    &&& i == 0 || c@[i - 1] == ':'
                    &&& j == c@.len() || c@[j] == ':'
                    &&& forall|k: int| i <= k < j ==> c@[k] != ':'
                    &&& #[trigger] c@.subrange(i, j) == sess.sockname@
                };
            &&& !within <==> step is Connect
            &&& within ==> (step matches AttachStep::Leave(l) && (if noerror {
                ends_silently(l, 1)
            } else {
                ends_with(
                    l,
                    sess.statement(
                        LogLevel::Error,
                        "cannot attach to session '"@ + text::last_piece(sess.sockname@, '/')
                            + "' from within itself"@,
                    ),
                    1,
                )
            }))
        }),
{
    if let Some(c) = chain {
        let s = c@;
        let p = sess.sockname@;
        if text::has_piece(s, ':', p) {
            let (i, j) = choose|i: int, j: int| #[trigger]
                text::is_piece(s, ':', i, j) && s.subrange(i, j) == p;
            assert(s.subrange(i, j) == p);
        }
        if exists|i: int, j: int|
            {
                &&& 0 <= i <= j <= s.len()
                &&& i == 0 || s[i - 1] == ':'
                &&& j == s.len() || s[j] == ':'
                &&& forall|k: int| i <= k < j ==> s[k] != ':'
                &&& #[trigger] s.subrange(i, j) == p
            } {
            let (i, j) = choose|i: int, j: int|
                {
                    &&& 0 <= i <= j <= s.len()
                    &&& i == 0 || s[i - 1] == ':'
                    &&& j == s.len() || s[j] == ':'
                    &&& forall|k: int| i <= k < j ==> s[k] != ':'
                    &&& #[trigger] s.subrange(i, j) == p
                };
            assert(text::is_piece(s, ':', i, j));
        }
    }
}

/// A connection that fails is the end, with the number of its error for a code.
/// Unless errors are to be passed over, the log is replayed first, and where
/// there is none the reason is told.
pub proof fn failed_connection_is_explained(
    sess: &Session,
    noerror: bool,
    err: OsError,
    replayed: bool,
    first: AttachStep,
    second: AttachStep,
)
    requires
        call_ensures(Session::attach, (sess, noerror, AttachEvent::NotConnected(err)), first),
        call_ensures(
            Session::attach,
            (sess, noerror, AttachEvent::ReplayedAfterFailure(err, replayed)),
            second,
        ),
    ensures
        noerror ==> (first matches AttachStep::Leave(l) && ends_silently(l, err.errno)),
        !noerror ==> first == AttachStep::ReplayAfterFailure(err),
        second matches AttachStep::Leave(l) && (if replayed || noerror {
            ends_silently(l, err.errno)
        } else {
            ends_with(
                l,
                sess.statement(
                    LogLevel::Error,
                    if err.errno == 88 {
                        "'"@ + text::last_piece(sess.sockname@, '/') + "' is not a valid session"@
                    } else {
                        failure_message(sess, err)
                    },
                ),
                err.errno,
            )
        }),
{
}

/// A client that is connected replays the log, clears the screen or starts a new
/// line, and asks for the output: for all of it unless it has just shown the
/// log. Then it asks for the screen to be drawn, and is attached.
pub proof fn connected_client_attaches(
    sess: &Session,
    noerror: bool,
    replayed: bool,
    ok: bool,
    connected: AttachStep,
    greet: AttachStep,
    redraw: AttachStep,
    attached: AttachStep,
)
    requires
        call_ensures(Session::attach, (sess, noerror, AttachEvent::Connected), connected),
        call_ensures(Session::attach, (sess, noerror, AttachEvent::Replayed(replayed)), greet),
        call_ensures(Session::attach, (sess, noerror, AttachEvent::AttachSent(ok)), redraw),
        call_ensures(Session::attach, (sess, noerror, AttachEvent::RedrawSent(ok)), attached),
    ensures
        connected is Replay,
        greet matches AttachStep::Greet { screen, packet } && {
            &&& is_bare(
                packet,
                1,
                if replayed {
                    1
                } else {
                    0
                },
            )
            &&& if sess.clear_method is Move && !sess.no_ansiterm {
                screen@ == seq![0x1bu8, 0x63u8]
            } else if !sess.quiet && !replayed {
                screen@ == seq![13u8, 10u8]
            } else {
                screen@.len() == 0
            }
        },
        redraw is Redraw <==> ok,
        attached is EventLoop <==> ok,
        !ok ==> {
            let name = text::last_piece(sess.sockname@, '/');
            &&& redraw matches AttachStep::Leave(l) && ends_with(
                l,
                sess.warning("failed to send attach request to '"@ + name + "'"@),
                1,
            )
            &&& attached matches AttachStep::Leave(m) && ends_with(
                m,
                sess.warning("failed to send redraw request to '"@ + name + "'"@),
                1,
            )
        },
{
}

/// The packets that tell of a window: each carries its size; a redraw request
/// also names the way of redrawing that was chosen, and follows on a request for
/// all output after a suspension.
pub proof fn packets_tell_of_the_window(
    sess: &Session,
    ws: WinSize,
    redraw: Packet,
    winch: Packet,
    resume: (Packet, Packet),
)
    requires
        call_ensures(Session::redraw_packet, (sess, ws), redraw),
        call_ensures(attach::winch_packet, (ws,), winch),
        call_ensures(Session::resume_packets, (sess, ws), resume),
    ensures
        redraw.msg_type == 4,
        redraw.len == (match sess.redraw_method {
            crate::protocol::RedrawMethod::Unspec => 0,
            crate::protocol::RedrawMethod::NoRedraw => 1,
            crate::protocol::RedrawMethod::CtrlL => 2,
            crate::protocol::RedrawMethod::Winch => 3u8,
        }),
        carries_size(redraw, ws),
        winch.msg_type == 3,
        winch.len == 0,
        carries_size(winch, ws),
        is_bare(resume.0, 1, 0),
        resume.1.msg_type == 4,
        resume.1.len == redraw.len,
        carries_size(resume.1, ws),
{
}

// ---------------------------------------------------------------------------
// Being attached
// ---------------------------------------------------------------------------

/// Whether a client leaves a session that goes on, with a message in the midst
/// of its output that tells how long it was there.
pub open spec fn departs(sess: &Session, l: Leave, start: u64, now: u64) -> bool {
    tells_in_session(sess, l, LogLevel::Info, "detached after "@ + time_passed(start, now), 0)
}

/// Whether a client ends with this message about the session in the midst of its
/// output.
pub open spec fn tells_in_session(
    sess: &Session,
    l: Leave,
    level: LogLevel,
    what: Seq<char>,
    code: i32,
) -> bool {
    ends_with(
        l,
        (ReportView {
            level,
            message: about(sess, what),
            out: Some("\r\n["@ + sess.progname@ + ": "@ + about(sess, what) + "]\r\n\n"@),
            err: None,
        }),
        code,
    )
}

/// The text of the time from `start` to `now`.
pub open spec fn time_passed(start: u64, now: u64) -> Seq<char> {
    crate::protocol::age_text(
        if now >= start {
            (now - start) as nat
        } else {
            0
        },
    )
}

/// An attached client waits, begins anew after an interruption, and serves what
/// it found. It leaves where a signal asks for that, and with code 1 where it
/// cannot wait.
pub proof fn attached_client_waits_and_serves(
    sess: &Session,
    should_die: bool,
    waited: Option<Result<Ready, IoError>>,
    start: u64,
    now: u64,
    step: LoopStep,
)
    requires
        call_ensures(Session::event_loop, (sess, should_die, waited, start, now), step),
    ensures
        should_die ==> (step matches LoopStep::Leave(l) && departs(sess, l, start, now)),
        !should_die ==> {
            &&& step is Wait <==> waited is None
            &&& step is Again <==> waited == Some(Err::<Ready, IoError>(IoError::Interrupted))
            &&& step is Serve <==> (waited matches Some(Ok(_)))
            &&& step matches LoopStep::Serve(turn) ==> {
                &&& waited == Some(Ok::<Ready, IoError>(turn.ready))
                &&& !turn.redraw
                &&& turn.stage is Server
            }
            &&& step matches LoopStep::Leave(l) ==> tells_in_session(
                sess,
                l,
                LogLevel::Error,
                "select failed"@,
                1,
            )
        },
{
    assert("detached after "@ + time_passed(start, now) == "detached after "@
        + crate::app_log::elapsed_text(start as nat, now as nat));
}

/// A turn serves in its order what is ready, each once: the session's data, then
/// the input, then the window size where it has changed or the input asks for
/// it. Each stage is passed over just where there is nothing to do.
pub proof fn client_turn_goes_through_its_stages(
    turn: &mut Turn,
    size_changed: bool,
    step: TurnStep,
)
    requires
        call_ensures(Turn::next, (turn, size_changed), step),
    ensures
        final(turn).ready == old(turn).ready,
        final(turn).redraw == old(turn).redraw,
        ({
            let sends = size_changed || old(turn).redraw;
            match old(turn).stage {
                TurnStage::Server => {
                    &&& step is Server <==> old(turn).ready.server
                    &&& step is Input <==> !old(turn).ready.server && old(turn).ready.input
                    &&& step is SendSize <==> !old(turn).ready.server && !old(turn).ready.input
                        && sends
                },
                TurnStage::Input => {
                    &&& step !is Server
                    &&& step is Input <==> old(turn).ready.input
                    &&& step is SendSize <==> !old(turn).ready.input && sends
                },
                TurnStage::Size => {
                    &&& step !is Server && step !is Input
                    &&& step is SendSize <==> sends
                },
                TurnStage::End => step is Over,
            }
        }),
        step is Server ==> final(turn).stage is Input,
        step is Input ==> final(turn).stage is Size,
        step is SendSize || step is Over ==> final(turn).stage is End,
{
}

/// Input that asks for the window size makes the turn send it, and no other
/// input does.
pub proof fn input_asks_for_the_size(turn: &mut Turn, step: &StdinStep)
    requires
        call_ensures(Turn::input_handled, (turn, step), ()),
    ensures
        final(turn).ready == old(turn).ready,
        final(turn).stage == old(turn).stage,
        final(turn).redraw <==> old(turn).redraw || (step matches StdinStep::Send { packet, redraw }
            && *redraw),
{
}

/// Data of the session is shown as it came. No data means that the session has
/// ended, which quiet mode does not mention; an error that is no passing one
/// ends with code 1.
pub proof fn session_data_is_shown(
    sess: &Session,
    outcome: Result<Vec<u8>, IoError>,
    start: u64,
    now: u64,
    step: ServerStep,
)
    requires
        call_ensures(Session::handle_server_data, (sess, outcome, start, now), step),
    ensures
        outcome matches Ok(data) ==> data@.len() > 0 ==> step == ServerStep::Show(data),
        outcome matches Ok(data) ==> data@.len() == 0 ==> (step matches ServerStep::Leave(l)
            && (if sess.quiet {
            ends_silently(l, 0)
        } else {
            tells_in_session(
                sess,
                l,
                LogLevel::Info,
                "exited after "@ + time_passed(start, now),
                0,
            )
        })),
        outcome matches Err(e) ==> {
            &&& e is Interrupted || e is WouldBlock ==> step is Nothing
            &&& e is Other ==> (step matches ServerStep::Leave(l) && tells_in_session(
                sess,
                l,
                LogLevel::Error,
                "read error after "@ + time_passed(start, now),
                1,
            ))
        },
{
    assert(time_passed(start, now) == crate::app_log::elapsed_text(start as nat, now as nat));
}

/// The keys of an attached user: the terminal's suspend key suspends, unless
/// that is disabled; the session's detach key, and no other, leaves it; anything
/// else is typed into the session as it is, and Ctrl-L in front asks for the
/// window size too.
pub proof fn keys_do_what_they_are_for(
    sess: &Session,
    input: Vec<u8>,
    term: &Termios,
    start: u64,
    now: u64,
    step: StdinStep,
)
    requires
        1 <= input@.len() <= 8,
        call_ensures(
            Session::handle_stdin_data,
            (sess, Ok::<Vec<u8>, IoError>(input), term, start, now),
            step,
        ),
    ensures
        step is Suspend <==> !sess.no_suspend && input@[0] == term.cc@[10],
        step is Leave <==> step !is Suspend && sess.detach_char == input@[0] as int,
        step is Nothing <==> false,
        step matches StdinStep::Suspend(p) ==> carries_input(p, 2, input@),
        step matches StdinStep::Leave(l) ==> departs(sess, l, start, now),
        step matches StdinStep::Send { packet, redraw } ==> {
            &&& carries_input(packet, 0, input@)
            &&& redraw <==> input@[0] == 12
        },
{
    assert("detached after "@ + time_passed(start, now) == "detached after "@
        + crate::app_log::elapsed_text(start as nat, now as nat));
}

/// The end of the input and an error of reading it end the client with code 1,
/// which is recorded and not shown; a passing error changes nothing.
pub proof fn end_of_input_ends_the_client(
    sess: &Session,
    outcome: Result<Vec<u8>, IoError>,
    term: &Termios,
    start: u64,
    now: u64,
    step: StdinStep,
)
    requires
        outcome matches Ok(input) ==> input@.len() == 0,
        call_ensures(Session::handle_stdin_data, (sess, outcome, term, start, now), step),
    ensures
        step is Nothing <==> (outcome matches Err(e) && (e is Interrupted || e is WouldBlock)),
        step !is Nothing ==> (step matches StdinStep::Leave(l) && ends_with(
            l,
            (ReportView {
                level: if outcome is Ok {
                    LogLevel::Info
                } else {
                    LogLevel::Error
                },
                message: (if outcome is Ok {
                    "stdin closed for session '"@
                } else {
                    "stdin read failed for session '"@
                }) + text::last_piece(sess.sockname@, '/') + "'"@,
                out: None,
                err: None,
            }),
            1,
        )),
{
}

/// The detach key is the one that the user chose: Ctrl-backslash unless told
/// otherwise, the key that was written where one was, and none where that is
/// disabled. It is the one key that leaves the session, as long as it does not
/// suspend.
pub proof fn chosen_key_leaves_the_session(
    global: &GlobalArgs,
    progname: &str,
    envvar: &str,
    env: &Env,
    sess: Session,
    key: i32,
    input: Vec<u8>,
    term: &Termios,
    start: u64,
    now: u64,
    step: StdinStep,
)
    requires
        1 <= input@.len() <= 8,
        call_ensures(cli::session_from_global, (global, progname, envvar, env), sess),
        global.escape matches Some(s) ==> key == util::escape_key(util::utf8(s@)),
        global.escape is None ==> key == 0x1c,
        call_ensures(
            Session::handle_stdin_data,
            (&sess, Ok::<Vec<u8>, IoError>(input), term, start, now),
            step,
        ),
    ensures
        step is Suspend <==> !global.no_suspend && input@[0] == term.cc@[10],
        step is Leave <==> step !is Suspend && !global.disable_escape && input@[0] as int == key,
{
}

// ---------------------------------------------------------------------------
// Pushing input
// ---------------------------------------------------------------------------

/// Input is pushed read by read, as it is, until it ends, which is success. An
/// error of connecting, reading or sending ends it with code 1 and is told.
pub proof fn input_is_pushed_until_it_ends(
    sess: &Session,
    connected: Result<(), OsError>,
    begun: Option<Leave>,
    outcome: Result<Vec<u8>, OsError>,
    step: PushStep,
    sent: Result<(), OsError>,
    after: Option<Leave>,
)
    requires
        call_ensures(Session::push_begin, (sess, connected), begun),
        outcome matches Ok(input) ==> input@.len() <= 8,
        call_ensures(Session::push, (sess, outcome), step),
        call_ensures(Session::push_sent, (sess, sent), after),
    ensures
        begun is None <==> connected is Ok,
        connected matches Err(e) ==> (begun matches Some(l) && ends_with(
            l,
            sess.statement(LogLevel::Error, sess.sockname@ + ": "@ + e.text@),
            1,
        )),
        step is Send <==> (outcome matches Ok(input) && input@.len() > 0),
        step matches PushStep::Send(p) ==> (outcome matches Ok(input) && carries_input(
            p,
            0,
            input@,
        )),
        step matches PushStep::Done(l) ==> match outcome {
            Ok(_) => ends_silently(l, 0),
            Err(e) => ends_with(
                l,
                sess.statement(LogLevel::Error, sess.sockname@ + ": "@ + e.text@),
                1,
            ),
        },
        after is None <==> sent is Ok,
        sent matches Err(e) ==> (after matches Some(l) && ends_with(
            l,
            sess.statement(LogLevel::Error, sess.sockname@ + ": "@ + e.text@),
            1,
        )),
{
}

/// A stop takes any event while a look is left, and input of up to eight bytes
/// is taken.
pub proof fn client_events_are_accepted(
    sess: &Session,
    k: &mut Kill,
    event: KillEvent,
    read: Result<Vec<u8>, IoError>,
    piped: Result<Vec<u8>, OsError>,
    term: &Termios,
    start: u64,
    now: u64,
    attaching: AttachEvent,
    noerror: bool,
)
    requires
        k.looks > 0,
        !(k.force && k.escalated),
        read matches Ok(input) ==> input@.len() <= 8,
        piped matches Ok(input) ==> input@.len() <= 8,
    ensures
        call_requires(Session::kill_step, (sess, k, event)),
        call_requires(Session::handle_stdin_data, (sess, read, term, start, now)),
        call_requires(Session::handle_server_data, (sess, read, start, now)),
        call_requires(Session::push, (sess, piped)),
        call_requires(Session::attach, (sess, noerror, attaching)),
{
}

} // verus!
