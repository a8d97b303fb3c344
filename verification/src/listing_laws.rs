//! What holds of the session directory: what is listed, detached and removed.

use crate::app_log::LogLevel;
use crate::listing;
use crate::listing::{
    Asked, Contact, Entry, Listing, LogEntry, Meta, Removal, RemoveError, RmStep,
};
use crate::protocol;
use crate::report;
use crate::report::{OsError, Report, ReportView};
use crate::session::{Leave, Session};
use crate::session_log;
use crate::text;
use vstd::prelude::*;
use vstd::string::*;

verus! {

// ---------------------------------------------------------------------------
// Entries
// ---------------------------------------------------------------------------

/// Whether a file name is something and `.log` behind it.
pub open spec fn ends_in_log(name: Seq<char>) -> bool {
    name.len() >= 5 && name.skip(name.len() - 4) == ".log"@
}

proof fn extension_is_the_end(name: Seq<char>)
    ensures
        listing::has_log_extension(name) <==> ends_in_log(name),
{
    reveal_strlit(".log");
    if listing::has_log_extension(name) {
        listing::log_is_named_after_something(name);
        let path = session_log::log_path(listing::stem(name));
        assert(name.skip(name.len() - 4) =~= ".log"@);
    }
    if ends_in_log(name) {
        let stem = name.take(name.len() - 4);
        listing::log_name_gives_the_session(stem);
        assert(session_log::log_path(stem) =~= name) by {
            assert forall|i: int| name.len() - 4 <= i < name.len() implies name[i] == ".log"@[i - (
            name.len() - 4)] by {
                assert(name.skip(name.len() - 4)[i - (name.len() - 4)] == name[i]);
            }
        }
    }
}

/// Whether an entry of the session directory is the socket of a session: a
/// socket whose name neither begins with a dot nor ends in `.log`.
pub open spec fn is_session_socket(e: Entry) -> bool {
    &&& !(e.name@.len() > 0 && e.name@[0] == '.')
    &&& !ends_in_log(e.name@)
    &&& e.meta matches Some(m) && m.mode & 0o170000 == 0o140000
}

/// An entry is taken for a session by its first character, its extension and its
/// type, and by nothing else.
pub proof fn sessions_are_known_by_name_and_type(e: &Entry, r: bool, name: &str, is_log: bool)
    requires
        call_ensures(Entry::is_session, (e,), r),
        call_ensures(listing::is_log_name, (name,), is_log),
    ensures
        r <==> is_session_socket(*e),
        is_log <==> ends_in_log(name@),
{
    extension_is_the_end(e.name@);
    extension_is_the_end(name@);
}

/// The time of a file is that of its last modification. Where that is not
/// positive it is that of its last change, and the present where neither is.
pub proof fn time_of_a_file(meta: &Meta, now: u64, r: u64, of: Option<Meta>, start: u64)
    requires
        call_ensures(listing::meta_secs, (meta, now), r),
        call_ensures(listing::socket_start_time, (of, now), start),
    ensures
        meta.mtime > 0 ==> r == meta.mtime,
        meta.mtime <= 0 && meta.ctime > 0 ==> r == meta.ctime,
        meta.mtime <= 0 && meta.ctime <= 0 ==> r == now,
        of is None ==> start == now,
        of == Some(*meta) ==> start == r,
{
}

/// A log belongs to the session whose name it has but for the extension, except
/// for the application log; and is left over where that name does not exist.
pub proof fn log_belongs_to_the_session_of_its_name(
    name: &str,
    r: Option<String>,
    l: &LogEntry,
    gone: Option<String>,
)
    requires
        call_ensures(listing::log_session, (name,), r),
        call_ensures(listing::rm_orphaned_logs, (l,), gone),
    ensures
        r is Some <==> ends_in_log(name@) && name@ != ".ztch-app.log"@,
        r matches Some(s) ==> s@ == name@.take(name@.len() - 4),
        gone is Some <==> is_left_over_log(*l),
        gone matches Some(s) ==> s@ == l.entry.name@.take(l.entry.name@.len() - 4),
{
    extension_is_the_end(name@);
    extension_is_the_end(l.entry.name@);
}

/// Whether a log is left over: the log of something that does not exist, and not
/// the application log.
pub open spec fn is_left_over_log(l: LogEntry) -> bool {
    ends_in_log(l.entry.name@) && l.entry.name@ != ".ztch-app.log"@ && !l.socket_exists
}

// ---------------------------------------------------------------------------
// The list
// ---------------------------------------------------------------------------

/// How long ago a file was modified.
pub open spec fn age(m: Meta, now: u64) -> Seq<char> {
    let time = if m.mtime > 0 {
        m.mtime as int
    } else if m.ctime > 0 {
        m.ctime as int
    } else {
        now as int
    };
    protocol::age_text(
        if now >= time {
            (now - time) as nat
        } else {
            0
        },
    )
}

/// Whether an entry is listed: the socket of a session that runs, or that has
/// refused the connection.
pub open spec fn is_listed(c: Contact) -> bool {
    is_session_socket(c.entry) && (c.connected matches Some(o) && match o {
        Ok(_) => true,
        Err(e) => e == 111,
    })
}

/// The line of a session: its name, its age, and whether it is attached or
/// stale.
pub open spec fn session_line(c: Contact, now: u64) -> Seq<char> {
    let m = c.entry.meta->Some_0;
    text::padded(c.entry.name@, 24) + " since "@ + age(m, now) + " ago"@ + (
    if c.connected matches Some(Err(_)) {
        " [stale]"@
    } else if m.mode & 0o100 != 0 {
        " [attached]"@
    } else {
        ""@
    }) + "\n"@
}

/// The line of a log that is left over.
pub open spec fn log_line(l: LogEntry, now: u64) -> Seq<char> {
    text::padded(l.entry.name@.take(l.entry.name@.len() - 4), 24) + " since "@ + (
    match l.entry.meta {
        Some(m) => age(m, now),
        None => "unknown"@,
    }) + " ago"@ + " [exited]"@ + "\n"@
}

proof fn listed_lines(cs: Seq<Contact>, now: u64)
    ensures
        listing::socket_lines(cs, now as nat) == cs.filter(|c: Contact| is_listed(c)).map_values(
            |c: Contact| session_line(c, now),
        ),
    decreases cs.len(),
{
    reveal(Seq::filter);
    let keep = |c: Contact| is_listed(c);
    let shown = |c: Contact| session_line(c, now);
    if cs.len() > 0 {
        let init = cs.drop_last();
        let c = cs.last();
        listed_lines(init, now);
        extension_is_the_end(c.entry.name@);
        let before = init.filter(keep).map_values(shown);
        if is_listed(c) {
            assert(listing::socket_line(c, now as nat) == Some(session_line(c, now)));
            assert(cs.filter(keep).map_values(shown) =~= before + seq![session_line(c, now)]);
        } else {
            assert(listing::socket_line(c, now as nat) is None);
            assert(before + Seq::<Seq<char>>::empty() =~= before);
        }
    } else {
        assert(cs.filter(keep).map_values(shown) =~= Seq::<Seq<char>>::empty());
    }
}

proof fn left_over_lines(ls: Seq<LogEntry>, now: u64)
    ensures
        listing::exited_lines(ls, now as nat) == ls.filter(
            |l: LogEntry| is_left_over_log(l),
        ).map_values(|l: LogEntry| log_line(l, now)),
    decreases ls.len(),
{
    reveal(Seq::filter);
    let keep = |l: LogEntry| is_left_over_log(l);
    let shown = |l: LogEntry| log_line(l, now);
    if ls.len() > 0 {
        let init = ls.drop_last();
        let l = ls.last();
        left_over_lines(init, now);
        extension_is_the_end(l.entry.name@);
        let before = init.filter(keep).map_values(shown);
        if is_left_over_log(l) {
            assert(listing::exited_line(l, now as nat) == Some(log_line(l, now)));
            assert(ls.filter(keep).map_values(shown) =~= before + seq![log_line(l, now)]);
        } else {
            assert(listing::exited_line(l, now as nat) is None);
            assert(before + Seq::<Seq<char>>::empty() =~= before);
        }
    } else {
        assert(ls.filter(keep).map_values(shown) =~= Seq::<Seq<char>>::empty());
    }
}

/// The list is complete: it has a line for every session that runs or is stale,
/// and, where all are to be shown, for every log that is left over, in the order
/// of the directory, and no other line. That there is none is told unless quiet
/// mode is on.
pub proof fn list_is_complete(
    sess: &Session,
    contacts: &Vec<Contact>,
    logs: Option<&Vec<LogEntry>>,
    now: u64,
    r: Listing,
)
    requires
        call_ensures(Session::list, (sess, contacts, logs, now), r),
    ensures
        report::texts(r.lines@) == contacts@.filter(|c: Contact| is_listed(c)).map_values(
            |c: Contact| session_line(c, now),
        ) + (match logs {
            Some(ls) => ls@.filter(|l: LogEntry| is_left_over_log(l)).map_values(
                |l: LogEntry| log_line(l, now),
            ),
            None => Seq::empty(),
        }),
        r.report is Some <==> r.lines@.len() == 0 && !sess.quiet,
        r.report matches Some(rep) ==> rep@ == (ReportView {
            level: LogLevel::Info,
            message: "no sessions"@,
            out: Some("(no sessions)\n"@),
            err: None,
        }),
{
    listed_lines(contacts@, now);
    if let Some(ls) = logs {
        left_over_lines(ls@, now);
    }
}

/// A session that runs or is stale is found in the list under its name.
pub proof fn every_session_is_listed(
    sess: &Session,
    contacts: &Vec<Contact>,
    logs: Option<&Vec<LogEntry>>,
    now: u64,
    r: Listing,
    i: int,
)
    requires
        call_ensures(Session::list, (sess, contacts, logs, now), r),
        0 <= i < contacts@.len(),
        contacts@[i].entry.name@.len() > 0,
        contacts@[i].entry.name@[0] != '.',
        !ends_in_log(contacts@[i].entry.name@),
        contacts@[i].entry.meta matches Some(m) && m.mode & 0o170000 == 0o140000,
        contacts@[i].connected matches Some(o) && (o is Ok || o == Err::<(), i32>(111)),
    ensures
        exists|k: int|
            0 <= k < r.lines@.len() && {
                let line = (#[trigger] r.lines@[k])@;
                &&& line.len() > contacts@[i].entry.name@.len()
                &&& line.take(contacts@[i].entry.name@.len() as int) == contacts@[i].entry.name@
            },
{
    list_is_complete(sess, contacts, logs, now, r);
    let keep = |c: Contact| is_listed(c);
    let listed = contacts@.filter(keep);
    contacts@.lemma_filter_contains(keep, i);
    let k = choose|k: int| 0 <= k < listed.len() && listed[k] == contacts@[i];
    let all = report::texts(r.lines@);
    assert(all.len() == r.lines@.len());
    let line = session_line(contacts@[i], now);
    reveal_strlit("\n");
    assert(listed.map_values(|c: Contact| session_line(c, now))[k] == line);
    assert(all[k] == line);
    assert(r.lines@[k]@ == line);
    let name = contacts@[i].entry.name@;
    assert(line.take(name.len() as int) =~= name);
}

// ---------------------------------------------------------------------------
// Detaching all
// ---------------------------------------------------------------------------

/// Detaching all sessions reports on each session to which the request was sent,
/// in their order, and that there was none where there was none.
pub proof fn every_detached_session_is_reported(sess: &Session, asked: &Vec<Asked>, r: Vec<Report>)
    requires
        call_ensures(Session::cmd_detach_all, (sess, asked), r),
    ensures
        ({
            let done = asked@.filter(|a: Asked| is_session_socket(a.entry) && a.sent);
            report::reports_of(r@) == (if done.len() == 0 {
                seq![sess.notice("no active sessions to detach"@)]
            } else {
                done.map_values(
                    |a: Asked| sess.notice("session '"@ + a.entry.name@ + "' detached"@),
                )
            })
        }),
{
    detached_are_reported(sess, asked@);
}

proof fn detached_are_reported(sess: &Session, asked: Seq<Asked>)
    ensures
        sess.detached_notices(asked) == asked.filter(
            |a: Asked| is_session_socket(a.entry) && a.sent,
        ).map_values(|a: Asked| sess.notice("session '"@ + a.entry.name@ + "' detached"@)),
    decreases asked.len(),
{
    reveal(Seq::filter);
    let keep = |a: Asked| is_session_socket(a.entry) && a.sent;
    let told = |a: Asked| sess.notice("session '"@ + a.entry.name@ + "' detached"@);
    if asked.len() > 0 {
        let init = asked.drop_last();
        let a = asked.last();
        detached_are_reported(sess, init);
        extension_is_the_end(a.entry.name@);
        if keep(a) {
            assert(asked.filter(keep).map_values(told) =~= init.filter(keep).map_values(told).push(
                told(a),
            ));
        }
    } else {
        assert(asked.filter(keep).map_values(told) =~= Seq::<ReportView>::empty());
    }
}

// ---------------------------------------------------------------------------
// Removing
// ---------------------------------------------------------------------------

/// Whether an entry is removed as stale: the socket of a session that has
/// refused the connection.
pub open spec fn is_dead_socket(c: Contact) -> bool {
    is_session_socket(c.entry) && (c.connected matches Some(o) && (o matches Err(e) && e == 111))
}

/// A single session is removed only where it does not run: with its log where it
/// has refused the connection, its log alone where it does not exist. Any other
/// error is told.
pub proof fn running_session_is_not_removed(
    sess: &Session,
    connected: Result<(), OsError>,
    step: RmStep,
)
    requires
        call_ensures(Session::rm_single, (sess, connected), step),
    ensures
        step is RemoveBoth <==> (connected matches Err(e) && e.errno == 111),
        step is RemoveLog <==> (connected matches Err(e) && e.errno == 2),
        step matches RmStep::RemoveBoth { socket, log } ==> {
            &&& socket@ == sess.sockname@
            &&& log@ == sess.sockname@ + ".log"@
        },
        step matches RmStep::RemoveLog(log) ==> log@ == sess.sockname@ + ".log"@,
        step matches RmStep::Done(l) ==> {
            let name = text::last_piece(sess.sockname@, '/');
            &&& l.code == 1
            &&& l.report matches Some(r)
            &&& r@ == (match connected {
                Ok(_) => sess.statement(
                    LogLevel::Error,
                    "session '"@ + name + "' "@ + ("is running (use '"@ + sess.progname@
                        + " kill "@ + name + "' first)"@),
                ),
                Err(e) => sess.warning(sess.sockname@ + ": "@ + e.text@),
            })
        },
{
}

/// How removals end: success is told, a missing file is no error where it need
/// not exist and means that there was no session where it had to; any other
/// failure is warned of.
pub proof fn removals_end_as_they_went(
    sess: &Session,
    path: &str,
    name: &str,
    outcome: Result<(), RemoveError>,
    warned: Option<Report>,
    removed: Leave,
    of_log: Leave,
    one: Report,
)
    requires
        call_ensures(Session::remove_file_if_exists, (sess, path, outcome), warned),
        call_ensures(Session::removed, (sess,), removed),
        call_ensures(Session::rm_log, (sess, outcome), of_log),
        call_ensures(Session::removed_one, (sess, name), one),
    ensures
        ({
            let told = "session '"@ + text::last_piece(sess.sockname@, '/') + "' "@;
            &&& warned is Some <==> (outcome matches Err(e) && !e.not_found)
            &&& outcome matches Err(e) ==> !e.not_found ==> (warned matches Some(w) && w@
                == sess.warning("could not remove '"@ + path@ + "': "@ + e.text@))
            &&& removed.code == 0
            &&& removed.report matches Some(r) && r@ == sess.notice(told + "removed"@)
            &&& of_log.code == 0 <==> outcome is Ok
            &&& of_log.code == 0 || of_log.code == 1
            &&& of_log.report matches Some(q) && q@ == (match outcome {
                Ok(_) => sess.notice(told + "removed"@),
                Err(e) => sess.warning(
                    if e.not_found {
                        told + "does not exist"@
                    } else {
                        "could not remove '"@ + (sess.sockname@ + ".log"@) + "': "@ + e.text@
                    },
                ),
            })
            &&& one@ == sess.notice("removed "@ + name@)
        }),
{
}

/// Of all sessions just the stale ones are removed, each with its log, and each
/// of them counts, as does each log that is left over and nothing else.
pub proof fn stale_sessions_are_removed_with_their_logs(
    c: &Contact,
    dir: &str,
    plain: Option<(String, String)>,
    a: &mut Removal,
    r: Option<(String, String)>,
    l: &LogEntry,
    b: &mut Removal,
    name: Option<String>,
)
    requires
        old(a).count < usize::MAX,
        old(b).count < usize::MAX,
        call_ensures(listing::rm_stale_sockets, (c, dir), plain),
        call_ensures(Removal::stale, (a, c, dir), r),
        call_ensures(Removal::orphaned, (b, l), name),
    ensures
        plain is Some <==> is_dead_socket(*c),
        r is Some <==> is_dead_socket(*c),
        plain matches Some(p) ==> {
            &&& p.0@ == text::joined(dir@, c.entry.name@)
            &&& p.1@ == text::joined(dir@, c.entry.name@ + ".log"@)
        },
        r matches Some(p) ==> {
            &&& p.0@ == text::joined(dir@, c.entry.name@)
            &&& p.1@ == text::joined(dir@, c.entry.name@ + ".log"@)
        },
        final(a).count == old(a).count + (if is_dead_socket(*c) {
            1int
        } else {
            0
        }),
        name is Some <==> is_left_over_log(*l),
        name matches Some(s) ==> s@ == l.entry.name@.take(l.entry.name@.len() - 4),
        final(b).count == old(b).count + (if is_left_over_log(*l) {
            1int
        } else {
            0
        }),
{
    extension_is_the_end(c.entry.name@);
    extension_is_the_end(l.entry.name@);
}

/// A removal begins with none, and its end tells how many there were, or that
/// there was nothing to remove; it is always a success.
pub proof fn removal_tells_its_count(fresh: Removal, sess: &Session, removal: &Removal, l: Leave)
    requires
        call_ensures(Removal::new, (), fresh),
        call_ensures(Session::rm, (sess, removal), l),
    ensures
        fresh.count == 0,
        l.code == 0,
        l.report matches Some(r) && r@ == sess.notice(
            if removal.count == 0 {
                "nothing to remove"@
            } else {
                text::numeral(removal.count as nat) + " session(s) removed"@
            },
        ),
{
}

/// Any entry can be listed or removed; a removal counts as far as it can.
pub proof fn entries_are_accepted(
    sess: &Session,
    removal: &mut Removal,
    c: &Contact,
    l: &LogEntry,
    dir: &str,
    contacts: &Vec<Contact>,
    logs: Option<&Vec<LogEntry>>,
    now: u64,
)
    requires
        removal.count < usize::MAX,
    ensures
        call_requires(Removal::stale, (removal, c, dir)),
        call_requires(Removal::orphaned, (removal, l)),
        call_requires(Session::list, (sess, contacts, logs, now)),
        call_requires(Session::rm, (sess, &*old(removal))),
        call_requires(Entry::is_session, (&c.entry,)),
{
}

} // verus!
