//! What holds of the daemon as a whole: over packet batches, replays, requests
//! and turns of its loop.

use crate::app_log::LogLevel;
use crate::client::Client;
use crate::protocol;
use crate::protocol::{IoError, MsgType, Packet, ProtocolError, RedrawMethod};
use crate::report::{OsError, Report};
use crate::scrollback;
use crate::scrollback::{ReplayState, Scrollback};
use crate::session;
use crate::session_daemon;
use crate::session_daemon::{Act, ActView, RunStep, Serve, SessionDaemon, Stage, Verdict};
use crate::sys;
use crate::term;
use crate::term::WinSize;
use crate::text;
use crate::util;
use vstd::prelude::*;
use vstd::string::*;

verus! {

/// A packet batch: the clients that were looked at, the descriptors that were
/// closed, and the clients that are left.
pub struct Sweep {
    pub visited: Seq<i32>,
    pub closed: Seq<i32>,
    pub left: Seq<Client>,
}

/// The packet batch that begins at place `i` of the client list, where `answer`
/// gives for each descriptor what is read from it, or `None` where it is not
/// readable. Each step is one of [`SessionDaemon::handle_client_packets`].
pub open spec fn sweep(
    clients: Seq<Client>,
    i: int,
    answer: spec_fn(i32) -> Option<Result<Packet, ProtocolError>>,
    sb: Scrollback,
) -> Sweep
    decreases clients.len() - i,
{
    if i < 0 || i >= clients.len() {
        Sweep { visited: Seq::empty(), closed: Seq::empty(), left: clients }
    } else {
        let fd = clients[i].fd;
        match answer(fd) {
            None => {
                let rest = sweep(clients, i + 1, answer, sb);
                Sweep { visited: seq![fd] + rest.visited, ..rest }
            },
            Some(got) => if session_daemon::stays(got) {
                let rest = sweep(
                    clients.update(i, session_daemon::client_after(clients[i], got, sb)),
                    i + 1,
                    answer,
                    sb,
                );
                Sweep { visited: seq![fd] + rest.visited, ..rest }
            } else {
                let rest = sweep(session_daemon::swap_removed(clients, i), i, answer, sb);
                Sweep { visited: seq![fd] + rest.visited, closed: seq![fd] + rest.closed, ..rest }
            },
        }
    }
}

/// Removing a member of `s` and filling the gap with the last one takes just
/// that member out.
proof fn swap_removal_takes_one(s: Seq<i32>, i: int)
    requires
        0 <= i < s.len(),
    ensures
        s.update(i, s.last()).drop_last().to_multiset().insert(s[i]) == s.to_multiset(),
{
    broadcast use vstd::seq_lib::group_to_multiset_ensures;
    broadcast use vstd::multiset::group_multiset_axioms;

    let t = s.update(i, s.last()).drop_last();
    let init = s.drop_last();
    assert(init.push(s.last()) =~= s);
    if i == s.len() - 1 {
        assert(t =~= init);
    } else {
        let without = init.remove(i);
        assert(t =~= without.insert(i, s.last()));
        vstd::seq_lib::to_multiset_remove(init, i);
        vstd::seq_lib::to_multiset_insert(without, i, s.last());
        assert(init.contains(init[i]));
        assert(init.to_multiset().count(s[i]) > 0);
        assert(t.to_multiset().insert(s[i]) =~= init.to_multiset().insert(s.last()));
    }
}

/// A sequence has one element more than its rest.
proof fn first_and_rest(x: i32, rest: Seq<i32>)
    ensures
        (seq![x] + rest).to_multiset() == rest.to_multiset().insert(x),
{
    broadcast use vstd::seq_lib::group_to_multiset_ensures;
    broadcast use vstd::multiset::group_multiset_axioms;

    assert(seq![x] + rest =~= rest.insert(0, x));
    vstd::seq_lib::to_multiset_insert(rest, 0, x);
}

proof fn sweep_accounts_for_all(
    clients: Seq<Client>,
    i: int,
    answer: spec_fn(i32) -> Option<Result<Packet, ProtocolError>>,
    sb: Scrollback,
)
    requires
        0 <= i <= clients.len(),
    ensures
        sweep(clients, i, answer, sb).visited.to_multiset() == session_daemon::fds_of(
            clients.skip(i),
        ).to_multiset(),
        session_daemon::fds_of(sweep(clients, i, answer, sb).left).to_multiset().add(
            sweep(clients, i, answer, sb).closed.to_multiset(),
        ) == session_daemon::fds_of(clients).to_multiset(),
    decreases clients.len() - i,
{
    broadcast use vstd::seq_lib::group_to_multiset_ensures;
    broadcast use vstd::multiset::group_multiset_axioms;

    let all = sweep(clients, i, answer, sb);
    if i == clients.len() {
        assert(session_daemon::fds_of(clients.skip(i)) =~= Seq::<i32>::empty());
        assert(all.closed.to_multiset() =~= vstd::multiset::Multiset::<i32>::empty());
        assert(session_daemon::fds_of(all.left).to_multiset().add(all.closed.to_multiset()) =~= session_daemon::fds_of(
            clients,
        ).to_multiset());
    } else {
        let fd = clients[i].fd;
        let here = session_daemon::fds_of(clients.skip(i));
        assert(here =~= seq![fd] + session_daemon::fds_of(clients.skip(i + 1)));
        first_and_rest(fd, session_daemon::fds_of(clients.skip(i + 1)));
        match answer(fd) {
            None => {
                let rest = sweep(clients, i + 1, answer, sb);
                sweep_accounts_for_all(clients, i + 1, answer, sb);
                first_and_rest(fd, rest.visited);
            },
            Some(got) => if session_daemon::stays(got) {
                let next = clients.update(i, session_daemon::client_after(clients[i], got, sb));
                let rest = sweep(next, i + 1, answer, sb);
                sweep_accounts_for_all(next, i + 1, answer, sb);
                assert(session_daemon::fds_of(next) =~= session_daemon::fds_of(clients));
                assert(session_daemon::fds_of(next.skip(i + 1)) =~= session_daemon::fds_of(clients.skip(i + 1)));
                first_and_rest(fd, rest.visited);
            } else {
                let next = session_daemon::swap_removed(clients, i);
                let rest = sweep(next, i, answer, sb);
                sweep_accounts_for_all(next, i, answer, sb);
                let f = session_daemon::fds_of(clients);
                assert(session_daemon::fds_of(next) =~= f.update(i, f.last()).drop_last());
                swap_removal_takes_one(f, i);
                assert(session_daemon::fds_of(next.skip(i)) =~= here.update(0, here.last()).drop_last());
                swap_removal_takes_one(here, 0);
                first_and_rest(fd, rest.visited);
                first_and_rest(fd, rest.closed);
                assert(session_daemon::fds_of(rest.left).to_multiset().add(rest.closed.to_multiset().insert(fd))
                    =~= session_daemon::fds_of(rest.left).to_multiset().add(rest.closed.to_multiset()).insert(fd));
            },
        }
    }
}

/// A packet batch looks at every client once, whichever of them leave in its
/// course, and it neither loses a descriptor nor keeps one that it closed: each
/// belongs to a client that is left or was closed.
pub proof fn sweep_reaches_every_client(
    clients: Seq<Client>,
    answer: spec_fn(i32) -> Option<Result<Packet, ProtocolError>>,
    sb: Scrollback,
)
    ensures
        sweep(clients, 0, answer, sb).visited.to_multiset() == session_daemon::fds_of(clients).to_multiset(),
        session_daemon::fds_of(sweep(clients, 0, answer, sb).left).to_multiset().add(
            sweep(clients, 0, answer, sb).closed.to_multiset(),
        ) == session_daemon::fds_of(clients).to_multiset(),
        session_daemon::fds_of(clients).no_duplicates() ==> forall|fd: i32|
            sweep(clients, 0, answer, sb).closed.contains(fd) ==> !#[trigger] session_daemon::fds_of(
                sweep(clients, 0, answer, sb).left,
            ).contains(fd),
{
    broadcast use vstd::seq_lib::group_to_multiset_ensures;
    broadcast use vstd::multiset::group_multiset_axioms;

    sweep_accounts_for_all(clients, 0, answer, sb);
    assert(clients.skip(0) =~= clients);
    let all = sweep(clients, 0, answer, sb);
    let f = session_daemon::fds_of(clients);
    if f.no_duplicates() {
        f.lemma_multiset_has_no_duplicates();
        assert forall|fd: i32| all.closed.contains(fd) implies !#[trigger] session_daemon::fds_of(
            all.left,
        ).contains(fd) by {
            assert(all.closed.to_multiset().count(fd) > 0);
            if session_daemon::fds_of(all.left).contains(fd) {
                assert(session_daemon::fds_of(all.left).to_multiset().count(fd) > 0);
                assert(f.to_multiset().count(fd) >= 2);
                assert(f.to_multiset().contains(fd));
            }
        }
    }
}

/// Whether a client that receives live output has no replay in progress.
pub open spec fn caught_up_first(c: Client) -> bool {
    c.attached ==> c.replay_remaining == 0
}

/// Whether the packet `p` breaks into a replay: it asks for live output while
/// the client's replay is in progress, or for a replay while the client
/// receives live output.
pub open spec fn breaks_in(c: Client, p: Packet, sb: Scrollback) -> bool {
    &&& p.msg_type == MsgType::Attach.wire()
    &&& if session_daemon::wants_replay(p, sb) {
        c.attached
    } else {
        c.replay_remaining > 0
    }
}

/// Live output waits for the end of the replay: a new client has caught up, no
/// packet that does not break in and no part of a replay lets a client receive
/// live output while old output is still to be sent to it.
pub proof fn live_output_waits_for_the_replay(
    c: Client,
    got: Result<Packet, ProtocolError>,
    sb: Scrollback,
    rs: ReplayState,
    ok: bool,
    fd: i32,
    credentials: Option<i32>,
)
    requires
        caught_up_first(c),
        got matches Ok(p) ==> !breaks_in(c, p, sb),
    ensures
        caught_up_first(session_daemon::new_client(fd, credentials)),
        caught_up_first(session_daemon::client_after(c, got, sb)),
        c.replay_remaining > 0 ==> caught_up_first(session_daemon::replay_went_on(c, rs, ok)),
        !c.attached ==> caught_up_first(session_daemon::replay_went_on(c, rs, ok)),
{
}

/// A fresh attachment is told everything that the ring stores, and then the
/// client receives live output.
pub proof fn attachment_replays_the_ring(c: Client, p: Packet, clients: Seq<Client>, sb: Scrollback)
    requires
        sb.wf(),
        p.msg_type == MsgType::Attach.wire(),
        p.len == 0,
    ensures
        sb.len > 0 ==> {
            &&& session_daemon::act_for(Ok(p), clients, sb) == ActView::Replay(session_daemon::full_replay(sb))
            &&& session_daemon::full_replay(sb).wf()
            &&& session_daemon::full_replay(sb).pending(sb.buf@) == sb@
            &&& scrollback::lies_at(session_daemon::full_replay(sb), sb, 0)
            &&& session_daemon::replay_of(session_daemon::client_after(c, Ok(p), sb)) == session_daemon::full_replay(sb)
        },
        sb.len == 0 ==> session_daemon::client_after(c, Ok(p), sb).attached,
        forall|rs: ReplayState|
            rs.remaining == 0 ==> (#[trigger] session_daemon::replay_went_on(c, rs, true)).attached,
{
}

/// Output of the child that reaches the daemon while client number `i` is sent
/// what the ring stores leaves what this client is still to be sent alone, as
/// long as none of it has to give way to the output.
pub proof fn output_spares_the_clients_replays(
    daemon: SessionDaemon,
    data: Seq<u8>,
    next: SessionDaemon,
    i: int,
    off: int,
)
    requires
        daemon.wf(),
        next.clients@ == daemon.clients@,
        scrollback::appended(daemon.scrollback, data, next.scrollback),
        0 <= i < daemon.clients@.len(),
        scrollback::lies_at(session_daemon::replay_of(daemon.clients@[i]), daemon.scrollback, off),
        scrollback::displaced(daemon.scrollback, data) <= off,
    ensures
        session_daemon::replay_of(next.clients@[i]).pending(next.scrollback.buf@)
            == session_daemon::replay_of(daemon.clients@[i]).pending(daemon.scrollback.buf@),
        scrollback::lies_at(
            session_daemon::replay_of(next.clients@[i]),
            next.scrollback,
            off - scrollback::displaced(daemon.scrollback, data),
        ),
{
    let rs = session_daemon::replay_of(daemon.clients@[i]);
    assert(rs.wf());
    scrollback::append_spares_a_replay(daemon.scrollback, rs, off, data, next.scrollback);
}

/// Input of one to eight bytes that a client pushes is what the daemon writes
/// to the pseudo-terminal.
pub proof fn pushed_input_reaches_the_pty(
    p: Packet,
    input: Seq<u8>,
    clients: Seq<Client>,
    sb: Scrollback,
)
    requires
        1 <= input.len() <= 8,
        p.msg_type == MsgType::Push.wire(),
        p.len == input.len(),
        p.data@ == protocol::padded_payload(input),
    ensures
        session_daemon::act_for(Ok(p), clients, sb) == ActView::Input(input),
        session_daemon::stays(Ok(p)),
{
    assert(p.input() =~= input);
}

/// A window size that a client sends is the one that the pseudo-terminal gets,
/// with either kind of packet and whatever way of redrawing it asks for.
pub proof fn window_size_reaches_the_pty(
    p: Packet,
    ws: WinSize,
    clients: Seq<Client>,
    sb: Scrollback,
)
    requires
        p.msg_type == MsgType::Winch.wire() || p.msg_type == MsgType::Redraw.wire(),
        p.data@ == term::winsize_bytes(ws),
    ensures
        match session_daemon::act_for(Ok(p), clients, sb) {
            ActView::Resize(w) => w == ws,
            ActView::Refresh(w) => w == ws && p.len == RedrawMethod::CtrlL.wire(),
            ActView::ResizeAndSignal(w, sig) => w == ws && sig == sys::sigwinch() && p.len
                == RedrawMethod::Winch.wire(),
            _ => false,
        },
{
    term::winsize_survives_the_wire(ws);
}

/// After an eviction no client is attached, the others are all there, in their
/// order, and every descriptor belongs to a client that is left or was closed.
pub proof fn eviction_detaches_everyone(clients: Seq<Client>)
    ensures
        !session_daemon::any_attached(session_daemon::unattached(clients)),
        forall|c: Client|
            clients.contains(c) && !c.attached ==> #[trigger] session_daemon::unattached(clients).contains(c),
        session_daemon::attached(session_daemon::unattached(clients)) == Seq::<Client>::empty(),
        session_daemon::unattached(session_daemon::unattached(clients)) == session_daemon::unattached(clients),
        session_daemon::fds_of(session_daemon::unattached(clients)).to_multiset().add(session_daemon::fds_of(session_daemon::attached(clients)).to_multiset())
            == session_daemon::fds_of(clients).to_multiset(),
    decreases clients.len(),
{
    broadcast use vstd::seq_lib::group_to_multiset_ensures;
    broadcast use vstd::multiset::group_multiset_axioms;

    reveal(Seq::filter);
    if clients.len() > 0 {
        let init = clients.drop_last();
        let c = clients.last();
        eviction_detaches_everyone(init);
        assert(session_daemon::fds_of(clients) =~= session_daemon::fds_of(init).push(c.fd));
        if c.attached {
            assert(session_daemon::fds_of(session_daemon::attached(clients)) =~= session_daemon::fds_of(session_daemon::attached(init)).push(c.fd));
            assert(session_daemon::unattached(clients) == session_daemon::unattached(init));
        } else {
            assert(session_daemon::unattached(clients) == session_daemon::unattached(init).push(c));
            assert(session_daemon::unattached(clients).drop_last() =~= session_daemon::unattached(init));
            assert(session_daemon::fds_of(session_daemon::unattached(clients)) =~= session_daemon::fds_of(session_daemon::unattached(init)).push(c.fd));
        }
        assert(session_daemon::fds_of(session_daemon::unattached(clients)).to_multiset().add(
            session_daemon::fds_of(session_daemon::attached(clients)).to_multiset(),
        ) =~= session_daemon::fds_of(clients).to_multiset());
        assert forall|x: Client| clients.contains(x) && !x.attached implies #[trigger] session_daemon::unattached(
            clients,
        ).contains(x) by {
            let k = choose|k: int| 0 <= k < clients.len() && clients[k] == x;
            clients.lemma_filter_contains(|c: Client| !c.attached, k);
        }
    } else {
        assert(session_daemon::fds_of(session_daemon::unattached(clients)).to_multiset().add(
            session_daemon::fds_of(session_daemon::attached(clients)).to_multiset(),
        ) =~= session_daemon::fds_of(clients).to_multiset());
    }
    assert forall|k: int| 0 <= k < session_daemon::unattached(clients).len() implies !(#[trigger] session_daemon::unattached(
        clients,
    )[k]).attached by {
        clients.lemma_filter_pred(|c: Client| !c.attached, k);
    }
}

/// After a round of passing output on, no client is left whose descriptor was
/// closed, and every other client is.
pub proof fn closed_clients_are_forgotten(clients: Seq<Client>, gone: Seq<i32>)
    ensures
        forall|k: int|
            0 <= k < session_daemon::without(clients, gone).len() ==> !gone.contains(
                (#[trigger] session_daemon::without(clients, gone)[k]).fd,
            ),
        forall|k: int|
            0 <= k < clients.len() && !gone.contains((#[trigger] clients[k]).fd) ==> session_daemon::without(
                clients,
                gone,
            ).contains(clients[k]),
{
    let keep = |c: Client| !gone.contains(c.fd);
    assert forall|k: int| 0 <= k < session_daemon::without(clients, gone).len() implies !gone.contains(
        (#[trigger] session_daemon::without(clients, gone)[k]).fd,
    ) by {
        clients.lemma_filter_pred(keep, k);
    }
    assert forall|k: int|
        0 <= k < clients.len() && !gone.contains((#[trigger] clients[k]).fd) implies session_daemon::without(
        clients,
        gone,
    ).contains(clients[k]) by {
        clients.lemma_filter_contains(keep, k);
    }
}

/// Output is never torn: a client that was written to and is left has either all
/// of it or none, since a partial write or an error makes the client leave.
pub proof fn output_is_never_torn(
    clients: Seq<Client>,
    tried: Seq<(i32, Verdict)>,
    i: int,
    len: int,
    outcome: Result<usize, IoError>,
)
    requires
        0 <= i < tried.len(),
        tried[i].1 == session_daemon::verdict_of(len, outcome),
        forall|j: int| 0 <= j < tried.len() && j != i ==> (#[trigger] tried[j]).0 != tried[i].0,
    ensures
        (exists|k: int|
            0 <= k < session_daemon::without(clients, session_daemon::bad_fds(tried)).len()
                && #[trigger] session_daemon::without(
                clients,
                session_daemon::bad_fds(tried),
            )[k].fd == tried[i].0) ==> (outcome matches Ok(n) && n == len) || (outcome matches Err(
            e,
        ) && e is WouldBlock),
        tried[i].1 != Verdict::Bad ==> !session_daemon::bad_fds(tried).contains(tried[i].0),
{
    let gone = session_daemon::bad_fds(tried);
    closed_clients_are_forgotten(clients, gone);
    bad_fds_are_the_bad_ones(tried, tried[i].0);
    if tried[i].1 == Verdict::Bad {
        assert(gone.contains(tried[i].0));
    }
}

proof fn bad_fds_are_the_bad_ones(tried: Seq<(i32, Verdict)>, fd: i32)
    ensures
        session_daemon::bad_fds(tried).contains(fd) <==> exists|i: int|
            0 <= i < tried.len() && #[trigger] tried[i] == (fd, Verdict::Bad),
    decreases tried.len(),
{
    if tried.len() > 0 {
        let init = tried.drop_last();
        let bad = session_daemon::bad_fds(init);
        bad_fds_are_the_bad_ones(init, fd);
        if tried.last() == (fd, Verdict::Bad) {
            assert(tried[tried.len() - 1] == (fd, Verdict::Bad));
            assert(bad.push(fd)[bad.len() as int] == fd);
        }
        if bad.contains(fd) {
            let i = choose|i: int| 0 <= i < init.len() && #[trigger] init[i] == (fd, Verdict::Bad);
            assert(tried[i] == (fd, Verdict::Bad));
            let k = choose|k: int| 0 <= k < bad.len() && bad[k] == fd;
            assert(session_daemon::bad_fds(tried)[k] == fd);
        }
        if exists|i: int| 0 <= i < tried.len() && #[trigger] tried[i] == (fd, Verdict::Bad) {
            let i = choose|i: int| 0 <= i < tried.len() && #[trigger] tried[i] == (
                fd,
                Verdict::Bad,
            );
            if i < init.len() {
                assert(init[i] == (fd, Verdict::Bad));
            }
        }
        if session_daemon::bad_fds(tried).contains(fd) && !bad.contains(fd) {
            let k = choose|k: int|
                0 <= k < session_daemon::bad_fds(tried).len() && session_daemon::bad_fds(tried)[k]
                    == fd;
            if k < bad.len() {
                assert(bad[k] == fd);
            }
            assert(tried[tried.len() - 1] == (fd, Verdict::Bad));
        }
    }
}

/// A client that is suspended receives no live output until it attaches again,
/// and is then sent everything that the ring stores.
pub proof fn resumed_client_gets_the_ring(c: Client, detach: Packet, attach: Packet, sb: Scrollback)
    requires
        detach.msg_type == MsgType::Detach.wire(),
        attach.msg_type == MsgType::Attach.wire(),
        attach.len == 0,
        sb.len > 0,
    ensures
        !session_daemon::client_after(c, Ok(detach), sb).attached,
        session_daemon::replay_of(session_daemon::client_after(session_daemon::client_after(c, Ok(detach), sb), Ok(attach), sb)) == session_daemon::full_replay(sb),
        caught_up_first(session_daemon::client_after(session_daemon::client_after(c, Ok(detach), sb), Ok(attach), sb)),
{
}

/// What control clients ask for is what the daemon does: a signal to stop the
/// session goes to the child, a request to detach evicts the attached clients,
/// a query is answered, and the latter two end the connection.
pub proof fn requests_are_carried_out(p: Packet, clients: Seq<Client>, sb: Scrollback)
    ensures
        p.msg_type == MsgType::Kill.wire() && p.len > 0 ==> session_daemon::act_for(Ok(p), clients, sb)
            == ActView::Signal(p.len as i32) && session_daemon::stays(Ok(p)),
        p.msg_type == MsgType::ForceDetach.wire() ==> session_daemon::asks_to_evict(Ok(p)) && !session_daemon::stays(Ok(p)),
        p.msg_type == MsgType::Info.wire() ==> session_daemon::act_for(Ok(p), clients, sb) == ActView::Tell(
            session_daemon::info_lines(clients),
        ) && !session_daemon::stays(Ok(p)),
{
}

/// The summary of the attached clients is made of ASCII characters.
proof fn summary_is_ascii(clients: Seq<Client>)
    ensures
        vstd::utf8::is_ascii_chars(session_daemon::info_lines(clients).flatten()),
{
    reveal_strlit("attached: ");
    reveal_strlit("pid: ");
    reveal_strlit("\n");
    text::numeral_is_ascii(session_daemon::attached(clients).len());
    let lines = session_daemon::info_lines(clients);
    assert forall|i: int| 0 <= i < lines.len() implies vstd::utf8::is_ascii_chars(
        #[trigger] lines[i],
    ) by {
        if i > 0 {
            let pid = session_daemon::attached(clients)[i - 1].peer_pid as int;
            assert(lines[i] == session_daemon::pid_line(pid));
            text::numeral_is_ascii(
                if pid < 0 {
                    (-pid) as nat
                } else {
                    pid as nat
                },
            );
        }
    }
    flattened_is_ascii(lines);
}

proof fn flattened_is_ascii(lines: Seq<Seq<char>>)
    requires
        forall|i: int| 0 <= i < lines.len() ==> vstd::utf8::is_ascii_chars(#[trigger] lines[i]),
    ensures
        vstd::utf8::is_ascii_chars(lines.flatten()),
    decreases lines.len(),
{
    if lines.len() > 0 {
        let rest = lines.drop_first();
        assert forall|i: int| 0 <= i < rest.len() implies vstd::utf8::is_ascii_chars(
            #[trigger] rest[i],
        ) by {
            assert(rest[i] == lines[i + 1]);
        }
        flattened_is_ascii(rest);
        assert(vstd::utf8::is_ascii_chars(lines[0]));
    }
}

/// A query gives the summary that the daemon wrote, however the stream cuts it
/// up and however often the reads are interrupted.
pub proof fn summary_arrives_as_written(
    clients: Seq<Client>,
    outcomes: Seq<Result<Seq<u8>, IoError>>,
)
    requires
        forall|i: int| 0 <= i < outcomes.len() ==> protocol::is_progress(#[trigger] outcomes[i]),
        protocol::delivered(outcomes) == util::utf8(session_daemon::info_lines(clients).flatten()),
    ensures
        session::answer_of(Seq::empty(), outcomes.push(Ok(Seq::empty()))) == (
            session_daemon::info_lines(clients).flatten(),
            true,
        ),
{
    let t = session_daemon::info_lines(clients).flatten();
    summary_is_ascii(clients);
    text::part_of_ascii_reads_as_itself(t, 0, t.len() as int);
    assert(t.take(0) =~= Seq::<char>::empty());
    assert(util::utf8(t).skip(0) =~= util::utf8(t));
    rest_of_answer_arrives(t, 0, outcomes);
}

proof fn rest_of_answer_arrives(t: Seq<char>, from: int, outcomes: Seq<Result<Seq<u8>, IoError>>)
    requires
        vstd::utf8::is_ascii_chars(t),
        util::utf8(t).len() == t.len(),
        0 <= from <= t.len(),
        forall|i: int| 0 <= i < outcomes.len() ==> protocol::is_progress(#[trigger] outcomes[i]),
        protocol::delivered(outcomes) == util::utf8(t).skip(from),
    ensures
        session::answer_of(t.take(from), outcomes.push(Ok(Seq::empty()))) == (t, true),
    decreases outcomes.len(),
{
    let all = outcomes.push(Ok(Seq::empty()));
    if outcomes.len() == 0 {
        assert(util::utf8(t).skip(from).len() == 0);
        assert(t.take(from) =~= t);
        assert(all[0] == Ok::<Seq<u8>, IoError>(Seq::empty()));
    } else {
        let rest = outcomes.drop_first();
        assert(all.drop_first() =~= rest.push(Ok(Seq::empty())));
        assert(all[0] == outcomes[0]);
        assert(protocol::is_progress(outcomes[0]));
        assert forall|i: int| 0 <= i < rest.len() implies protocol::is_progress(
            #[trigger] rest[i],
        ) by {
            assert(rest[i] == outcomes[i + 1]);
        }
        match outcomes[0] {
            Ok(chunk) => {
                let bytes = util::utf8(t);
                let to = from + chunk.len();
                assert(chunk + protocol::delivered(rest) == bytes.skip(from));
                assert((chunk + protocol::delivered(rest)).len() == bytes.len() - from);
                assert forall|i: int| 0 <= i < chunk.len() implies chunk[i] == bytes[from + i] by {
                    assert((chunk + protocol::delivered(rest))[i] == bytes.skip(from)[i]);
                }
                assert(chunk =~= bytes.subrange(from, to));
                assert forall|i: int| 0 <= i < bytes.len() - to implies protocol::delivered(
                    rest,
                )[i] == bytes[to + i] by {
                    assert((chunk + protocol::delivered(rest))[chunk.len() + i] == bytes.skip(
                        from,
                    )[chunk.len() + i]);
                }
                assert(protocol::delivered(rest) =~= bytes.skip(to));
                text::part_of_ascii_reads_as_itself(t, from, to);
                assert(t.take(from) + t.subrange(from, to) =~= t.take(to));
                rest_of_answer_arrives(t, to, rest);
            },
            Err(_) => {
                rest_of_answer_arrives(t, from, rest);
            },
        }
    }
}

/// The order of the stages of a turn.
pub open spec fn stage_rank(stage: Stage) -> int {
    match stage {
        Stage::Start => 0,
        Stage::Packets(_) => 1,
        Stage::Replays(_) => 2,
        Stage::End => 3,
    }
}

/// A turn keeps to its order: it accepts first, handles packets next, lets
/// clients leave after the last packet, goes on with replays after that and
/// reads output last; no stage comes back, and each replay is gone on with at
/// most once.
pub proof fn turn_keeps_its_order(
    d: &SessionDaemon,
    readable: Seq<i32>,
    writable: Seq<i32>,
    stage: Stage,
)
    ensures
        ({
            let (next, step) = d.run_next(readable, writable, stage);
            &&& stage_rank(stage) <= stage_rank(next)
            &&& step is Accept ==> stage is Start
            &&& step is Read ==> next is Packets
            &&& step is Evict ==> stage_rank(stage) <= 1 && next == Stage::Replays(0)
            &&& step is Replay ==> (stage matches Stage::Replays(i) && next matches Stage::Replays(
                k,
            ) && i < k)
            &&& step is Output ==> stage is Replays && next is End
            &&& step is Over ==> next is End
        }),
{
    let p = |c: Client| c.replay_remaining > 0 && writable.contains(c.fd);
    assert(d.clients.len() == d.clients@.len());
    if let Stage::Replays(i) = stage {
        first_is_not_before(d.clients@, i as int, p);
    }
}

proof fn first_is_not_before(clients: Seq<Client>, i: int, p: spec_fn(Client) -> bool)
    requires
        0 <= i,
    ensures
        session_daemon::first_from(clients, i, p) >= i || session_daemon::first_from(clients, i, p) == clients.len(),
        session_daemon::first_from(clients, i, p) <= clients.len(),
    decreases clients.len() - i,
{
    if i < clients.len() && !p(clients[i]) {
        first_is_not_before(clients, i + 1, p);
    }
}

// ---------------------------------------------------------------------------
// The turn
// ---------------------------------------------------------------------------

/// From where in the client list a turn at this stage reads packets.
pub open spec fn packets_from(stage: Stage) -> Option<int> {
    match stage {
        Stage::Start => Some(0),
        Stage::Packets(i) => Some(i as int),
        _ => None,
    }
}

/// A step of a turn leaves out nobody: a connection that waits is accepted
/// first; the next client that sent something is read from, and clients leave
/// only when no one further on has sent anything; then the next client that can
/// take more of its replay is served, and the child's output is read once there
/// is none, just when there is some.
pub proof fn turn_leaves_out_nobody(d: &SessionDaemon, serve: &mut Serve, step: RunStep)
    requires
        call_ensures(SessionDaemon::run, (d, serve), step),
    ensures
        final(serve).readable == old(serve).readable,
        final(serve).writable == old(serve).writable,
        step is Accept <==> old(serve).stage is Start && old(serve).readable@.contains(
            d.listener_fd,
        ),
        step is Accept ==> final(serve).stage == Stage::Packets(0),
        packets_from(old(serve).stage) matches Some(from) ==> {
            &&& step is Accept || step is Read || step is Evict
            &&& step is Evict ==> final(serve).stage == Stage::Replays(0) && forall|k: int|
                from <= k < d.clients@.len() ==> !old(serve).readable@.contains(
                    (#[trigger] d.clients@[k]).fd,
                )
            &&& step matches RunStep::Read { i, fd } ==> {
                &&& from <= i < d.clients@.len()
                &&& d.clients@[i as int].fd == fd
                &&& old(serve).readable@.contains(fd)
                &&& final(serve).stage == Stage::Packets(i)
                &&& forall|k: int|
                    from <= k < i ==> !old(serve).readable@.contains(
                        (#[trigger] d.clients@[k]).fd,
                    )
            }
        },
        old(serve).stage matches Stage::Replays(from) ==> {
            &&& step is Replay || step is Output || step is Over
            &&& step matches RunStep::Replay { i, fd, rs } ==> {
                &&& from <= i < d.clients@.len()
                &&& d.clients@[i as int].fd == fd
                &&& d.clients@[i as int].replay_head == rs.head
                &&& d.clients@[i as int].replay_remaining == rs.remaining
                &&& rs.remaining > 0
                &&& old(serve).writable@.contains(fd)
                &&& final(serve).stage == Stage::Replays((i + 1) as usize)
                &&& forall|k: int|
                    from <= k < i && (#[trigger] d.clients@[k]).replay_remaining > 0
                        ==> !old(serve).writable@.contains(d.clients@[k].fd)
            }
            &&& step !is Replay ==> {
                &&& final(serve).stage is End
                &&& step is Output <==> old(serve).readable@.contains(d.pty.fd)
                &&& forall|k: int|
                    from <= k < d.clients@.len() && (#[trigger] d.clients@[k]).replay_remaining > 0
                        ==> !old(serve).writable@.contains(d.clients@[k].fd)
            }
        },
        old(serve).stage is End ==> step is Over && final(serve).stage is End,
{
    let readable = old(serve).readable@;
    let writable = old(serve).writable@;
    let ready = |c: Client| readable.contains(c.fd);
    let hungry = |c: Client| c.replay_remaining > 0 && writable.contains(c.fd);
    if let Some(from) = packets_from(old(serve).stage) {
        first_is_the_first(d.clients@, from, ready);
    }
    if let Stage::Replays(from) = old(serve).stage {
        first_is_the_first(d.clients@, from as int, hungry);
    }
    assert(d.clients.len() == d.clients@.len());
}

proof fn first_is_the_first(clients: Seq<Client>, i: int, p: spec_fn(Client) -> bool)
    requires
        0 <= i,
    ensures
        ({
            let k = session_daemon::first_from(clients, i, p);
            &&& k < clients.len() ==> i <= k && p(clients[k])
            &&& k <= clients.len()
            &&& forall|j: int| i <= j < k && j < clients.len() ==> !p(#[trigger] clients[j])
        }),
    decreases clients.len() - i,
{
    if i < clients.len() && !p(clients[i]) {
        first_is_the_first(clients, i + 1, p);
    }
}

/// A turn of the daemon's loop as it passes: the stages that it is in, one after
/// the other, and the step that it takes at each. After a packet it goes on with
/// the next client, as it does when no client is removed.
pub open spec fn is_turn(
    d: &SessionDaemon,
    readable: Seq<i32>,
    writable: Seq<i32>,
    stages: Seq<Stage>,
    steps: Seq<RunStep>,
) -> bool {
    &&& stages.len() == steps.len()
    &&& forall|n: int|
        0 <= n < steps.len() ==> d.run_next(readable, writable, #[trigger] stages[n]).1 == steps[n]
    &&& forall|n: int|
        #![trigger stages[n]]
        0 <= n < steps.len() - 1 ==> stages[n + 1] == (match steps[n] {
            RunStep::Read { i, fd } => Stage::Packets((i + 1) as usize),
            _ => d.run_next(readable, writable, stages[n]).0,
        })
}

/// Before clients leave, a turn has read from every client that sent something.
pub proof fn everyone_is_read_before_anyone_leaves(
    d: &SessionDaemon,
    readable: Seq<i32>,
    writable: Seq<i32>,
    stages: Seq<Stage>,
    steps: Seq<RunStep>,
    n: int,
    i: int,
)
    requires
        is_turn(d, readable, writable, stages, steps),
        0 <= n < steps.len(),
        steps.last() is Evict,
        packets_from(stages[n]) matches Some(from) && from <= i < d.clients@.len(),
        readable.contains(d.clients@[i].fd),
    ensures
        exists|m: int|
            n <= m < steps.len() && #[trigger] steps[m] == (RunStep::Read {
                i: i as usize,
                fd: d.clients@[i].fd,
            }),
    decreases steps.len() - n,
{
    let from = packets_from(stages[n])->Some_0;
    let ready = |c: Client| readable.contains(c.fd);
    assert(d.run_next(readable, writable, stages[n]).1 == steps[n]);
    first_is_the_first(d.clients@, from, ready);
    assert(d.clients.len() == d.clients@.len());
    let k = session_daemon::first_from(d.clients@, from, ready);
    assert(k <= i) by {
        if k > i {
            assert(!ready(d.clients@[i]));
        }
    }
    if steps[n] is Read && k == i {
        assert(steps[n] == (RunStep::Read { i: i as usize, fd: d.clients@[i].fd }));
    } else {
        assert(steps[n] !is Evict);
        assert(n < steps.len() - 1);
        assert(packets_from(stages[n + 1]) is Some);
        everyone_is_read_before_anyone_leaves(d, readable, writable, stages, steps, n + 1, i);
    }
}

/// A turn that has come to its end has read the child's output, where there is
/// any.
pub proof fn ready_output_is_read(
    d: &SessionDaemon,
    readable: Seq<i32>,
    writable: Seq<i32>,
    stages: Seq<Stage>,
    steps: Seq<RunStep>,
    n: int,
)
    requires
        is_turn(d, readable, writable, stages, steps),
        0 <= n < steps.len(),
        stages[n] !is End,
        steps.last() is Over,
        readable.contains(d.pty.fd),
    ensures
        exists|m: int| n <= m < steps.len() && #[trigger] steps[m] is Output,
    decreases steps.len() - n,
{
    assert(d.run_next(readable, writable, stages[n]).1 == steps[n]);
    if steps[n] is Output {
    } else {
        assert(steps[n] !is Over);
        assert(n < steps.len() - 1);
        ready_output_is_read(d, readable, writable, stages, steps, n + 1);
    }
}

// ---------------------------------------------------------------------------
// Packets
// ---------------------------------------------------------------------------

/// Whether handling something of client `i` has left the client list alone, but
/// for what becomes of this client.
pub open spec fn only_client_changed(before: Seq<Client>, after: Seq<Client>, i: int) -> bool {
    &&& after.len() == before.len()
    &&& forall|k: int| 0 <= k < before.len() && k != i ==> #[trigger] after[k] == before[k]
}

/// Whether client `i` was taken out of the list and the last one has moved to
/// its place.
pub open spec fn client_taken_out(before: Seq<Client>, after: Seq<Client>, i: int) -> bool {
    &&& after.len() == before.len() - 1
    &&& forall|k: int|
        0 <= k < after.len() ==> #[trigger] after[k] == before[if k == i {
            before.len() - 1
        } else {
            k
        }]
}

/// Nothing but the client list and the wish to let clients leave ever changes by
/// a packet. What is not a packet changes nothing: a client that is not ready
/// stays as it is, and one that has closed its connection, or whose connection
/// has failed, is taken out and its descriptor closed. A packet of no known kind
/// is ignored.
pub proof fn broken_connections_are_closed(
    d: &mut SessionDaemon,
    i: usize,
    got: Result<Packet, ProtocolError>,
    t: session_daemon::Turn,
)
    requires
        i < old(d).clients@.len(),
        call_ensures(SessionDaemon::handle_client_packets, (d, i, got), t),
    ensures
        *final(d) == (SessionDaemon {
            clients: final(d).clients,
            evict_attached: final(d).evict_attached,
            ..*old(d)
        }),
        final(d).evict_attached == (old(d).evict_attached || (got matches Ok(p) && p.msg_type == 6)),
        t.close is None <==> t.next == i + 1,
        t.close is None ==> only_client_changed(old(d).clients@, final(d).clients@, i as int),
        t.close is Some ==> {
            &&& t.close == Some(old(d).clients@[i as int].fd)
            &&& t.next == i
            &&& client_taken_out(old(d).clients@, final(d).clients@, i as int)
        },
        t.close is Some <==> (match got {
            Err(ProtocolError::WouldBlock) => false,
            Err(_) => true,
            Ok(p) => p.msg_type == 6 || p.msg_type == 7,
        }),
        got is Err ==> t.act is Nothing,
        (match got {
            Err(ProtocolError::WouldBlock) => true,
            Err(_) => false,
            Ok(p) => p.msg_type != 1 && p.msg_type != 2 && p.msg_type != 6 && p.msg_type != 7,
        }) ==> final(d).clients@ == old(d).clients@,
        got matches Ok(p) && p.msg_type > 7 ==> t.act is Nothing,
{
    let cs = old(d).clients@;
    let i = i as int;
    assert(cs.update(i, cs[i]) =~= cs);
    if t.close is Some {
        assert(final(d).clients@ =~= session_daemon::swap_removed(cs, i));
    }
}

/// An attach request of a client that has the output already is granted at once
/// and nothing is sent again, whatever the ring stores, as it is when the ring
/// stores nothing. Any other is answered by a replay of the whole ring, and the
/// client is not attached by the request itself. Nothing else of the client
/// changes.
pub proof fn replay_is_for_those_without_the_output(
    d: &mut SessionDaemon,
    i: usize,
    p: Packet,
    t: session_daemon::Turn,
)
    requires
        i < old(d).clients@.len(),
        p.msg_type == 1,
        call_ensures(SessionDaemon::handle_client_packets, (d, i, Ok(p)), t),
    ensures
        ({
            let before = old(d).clients@[i as int];
            let after = final(d).clients@[i as int];
            &&& after.fd == before.fd
            &&& after.peer_pid == before.peer_pid
            &&& if p.len != 0 || old(d).scrollback.len == 0 {
                &&& t.act is Nothing
                &&& after.attached
                &&& after.replay_head == before.replay_head
                &&& after.replay_remaining == before.replay_remaining
            } else {
                &&& t.act matches Act::Replay(rs)
                &&& rs.head == old(d).scrollback.head
                &&& rs.remaining == old(d).scrollback.len
                &&& after.attached == before.attached
                &&& after.replay_head == old(d).scrollback.head
                &&& after.replay_remaining == old(d).scrollback.len
            }
        }),
{
}

/// A client that asks for it receives no live output any more, and nothing else
/// of it changes.
pub proof fn detach_request_stops_live_output(
    d: &mut SessionDaemon,
    i: usize,
    p: Packet,
    t: session_daemon::Turn,
)
    requires
        i < old(d).clients@.len(),
        p.msg_type == 2,
        call_ensures(SessionDaemon::handle_client_packets, (d, i, Ok(p)), t),
    ensures
        t.act is Nothing,
        final(d).clients@[i as int] == (Client { attached: false, ..old(d).clients@[i as int] }),
{
}

/// What a packet of input, of a window size, of a redraw request or of a signal
/// brings about: the first bytes of the payload are typed, at most eight and as
/// many as the packet says; the window gets the size that the payload gives, the
/// low byte of each number first; a redraw request with the method 2 may type
/// Ctrl-L and one with the method 3 signals the new size; and the child gets the
/// signal that the packet names, or SIGTERM.
pub proof fn packets_reach_the_child(
    d: &mut SessionDaemon,
    i: usize,
    p: Packet,
    t: session_daemon::Turn,
)
    requires
        i < old(d).clients@.len(),
        call_ensures(SessionDaemon::handle_client_packets, (d, i, Ok(p)), t),
    ensures
        p.msg_type == 0 && p.len == 0 ==> t.act is Nothing,
        p.msg_type == 0 && p.len > 0 ==> {
            &&& t.act matches Act::Input(bytes)
            &&& bytes@.len() == (if p.len < 8 {
                p.len as int
            } else {
                8
            })
            &&& forall|k: int| 0 <= k < bytes@.len() ==> #[trigger] bytes@[k] == p.data@[k]
        },
        p.msg_type == 3 ==> (t.act matches Act::Resize(ws) && is_window_of(p.data@, ws)),
        p.msg_type == 4 && p.len == 2 ==> (t.act matches Act::Refresh(ws) && is_window_of(
            p.data@,
            ws,
        )),
        p.msg_type == 4 && p.len == 3 ==> (t.act matches Act::ResizeAndSignal(ws, sig)
            && is_window_of(p.data@, ws) && sig == 28),
        p.msg_type == 4 && p.len != 2 && p.len != 3 ==> (t.act matches Act::Resize(ws)
            && is_window_of(p.data@, ws)),
        p.msg_type == 5 && p.len > 0 ==> (t.act matches Act::Signal(sig) && sig == p.len),
        p.msg_type == 5 && p.len == 0 ==> (t.act matches Act::Signal(sig) && sig == 15),
        p.msg_type == 6 ==> t.act is Nothing,
{
}

/// Whether the payload `data` gives this window size.
pub open spec fn is_window_of(data: Seq<u8>, ws: WinSize) -> bool {
    &&& ws.row == data[0] + 256 * data[1]
    &&& ws.col == data[2] + 256 * data[3]
    &&& ws.xpixel == data[4] + 256 * data[5]
    &&& ws.ypixel == data[6] + 256 * data[7]
}

/// A query is answered by the number of attached clients and then the process
/// of each, in the order of the list, one to a line.
pub proof fn query_is_answered(
    d: &mut SessionDaemon,
    i: usize,
    p: Packet,
    t: session_daemon::Turn,
)
    requires
        i < old(d).clients@.len(),
        p.msg_type == 7,
        call_ensures(SessionDaemon::handle_client_packets, (d, i, Ok(p)), t),
    ensures
        ({
            let told = old(d).clients@.filter(|c: Client| c.attached);
            &&& t.act matches Act::Tell(lines)
            &&& lines@.len() == told.len() + 1
            &&& lines@[0]@ == "attached: "@ + text::numeral(told.len()) + "\n"@
            &&& forall|k: int|
                0 <= k < told.len() ==> (#[trigger] lines@[k + 1])@ == "pid: "@
                    + text::signed_numeral(told[k].peer_pid as int) + "\n"@
        }),
{
    let told = old(d).clients@.filter(|c: Client| c.attached);
    if let Act::Tell(lines) = t.act {
        let shown = crate::report::texts(lines@);
        assert(shown.len() == lines@.len());
        assert forall|k: int| 0 <= k < told.len() implies (#[trigger] lines@[k + 1])@ == "pid: "@
            + text::signed_numeral(told[k].peer_pid as int) + "\n"@ by {
            assert(shown[k + 1] == lines@[k + 1]@);
        }
        assert(shown[0] == lines@[0]@);
    }
}

// ---------------------------------------------------------------------------
// Coming, waiting and leaving
// ---------------------------------------------------------------------------

/// A connection that is accepted becomes the last client: not attached, with no
/// replay, under its descriptor and with the process behind it where that is
/// known. One that would block is refused with a warning, and no connection
/// changes nothing.
pub proof fn accepted_connection_becomes_a_client(
    d: &mut SessionDaemon,
    accepted: session_daemon::Accepted,
    w: Option<session_daemon::Warning>,
)
    requires
        call_ensures(SessionDaemon::accept_client, (d, accepted), w),
    ensures
        *final(d) == (SessionDaemon { clients: final(d).clients, ..*old(d) }),
        match accepted {
            session_daemon::Accepted::Ready { fd, credentials } => {
                let n = old(d).clients@.len();
                let c = final(d).clients@[n as int];
                &&& w is None
                &&& final(d).clients@.len() == n + 1
                &&& final(d).clients@.take(n as int) == old(d).clients@
                &&& c.fd == fd
                &&& !c.attached
                &&& c.replay_head == 0
                &&& c.replay_remaining == 0
                &&& credentials is Some ==> credentials == Some(c.peer_pid)
                &&& credentials is None ==> c.peer_pid == 0
            },
            session_daemon::Accepted::Blocking => {
                &&& final(d).clients@ == old(d).clients@
                &&& w matches Some(w)
                &&& w.report.level == LogLevel::Warn
                &&& w.report.message@
                    == "could not set client socket non-blocking; connection rejected"@
                &&& w.report.out is None
                &&& w.report.err is None
                &&& w.log_line is Some <==> old(d).log is Some
                &&& w.log_line matches Some(l) ==> l@ == "["@ + old(d).progname@ + ": warn: "@
                    + "could not set client socket non-blocking; connection rejected"@ + "]\r\n"@
            },
            session_daemon::Accepted::Nobody => w is None && final(d).clients@ == old(d).clients@,
        },
{
    assert(final(d).clients@.take(old(d).clients@.len() as int) =~= old(d).clients@
        || accepted !is Ready);
}

/// The daemon waits for its listener, its terminal and all of its clients to be
/// readable, for just those clients to be writable that have a replay to go on
/// with, and for no descriptor beyond the largest. It takes note of whether any
/// client is attached, and of nothing else.
pub proof fn daemon_waits_for_everyone(d: &mut SessionDaemon, sets: session_daemon::FdSets)
    requires
        call_ensures(SessionDaemon::build_fd_sets, (d,), sets),
    ensures
        *final(d) == (SessionDaemon { has_attached: final(d).has_attached, ..*old(d) }),
        final(d).has_attached <==> exists|i: int|
            0 <= i < old(d).clients@.len() && (#[trigger] old(d).clients@[i]).attached,
        sets.read@.len() == old(d).clients@.len() + 2,
        sets.read@[0] == old(d).listener_fd,
        sets.read@[1] == old(d).pty.fd,
        forall|i: int|
            0 <= i < old(d).clients@.len() ==> sets.read@[i + 2] == (#[trigger] old(d).clients@[i]).fd,
        sets.write@ == old(d).clients@.filter(|c: Client| c.replay_remaining > 0).map_values(
            |c: Client| c.fd,
        ),
        sets.read@.contains(sets.maxfd),
        forall|k: int| 0 <= k < sets.read@.len() ==> #[trigger] sets.read@[k] <= sets.maxfd,
{
}

/// A wait that a signal has interrupted begins anew, any other error ends the
/// daemon, and a wait that went well is followed by serving.
pub proof fn only_interrupted_waits_begin_anew(
    outcome: Result<(), IoError>,
    r: session_daemon::AfterWait,
)
    requires
        call_ensures(session_daemon::after_wait, (outcome,), r),
    ensures
        r is Serve <==> outcome is Ok,
        r is Again <==> outcome == Err::<(), IoError>(IoError::Interrupted),
{
}

/// The socket is executable for its owner just while a client is attached: what
/// is set differs from the mode in that bit alone, and is set only where the bit
/// is not right yet and the mode is known.
pub proof fn socket_bit_follows_attachment(mode: Option<u32>, exec: bool, r: Option<u32>)
    requires
        call_ensures(session_daemon::update_socket_modes, (mode, exec), r),
    ensures
        mode is None ==> r is None,
        mode matches Some(m) ==> {
            &&& r is None <==> (m & 0o100 != 0) == exec
            &&& r matches Some(n) ==> {
                &&& (n & 0o100 != 0) == exec
                &&& n & !0o100u32 == m & !0o100u32
            }
        },
{
    if let Some(m) = mode {
        assert((m | 0o100u32) & 0o100u32 != 0) by (bit_vector);
        assert((m & !0o100u32) & 0o100u32 == 0) by (bit_vector);
        assert((m | 0o100u32) & !0o100u32 == m & !0o100u32) by (bit_vector);
        assert((m & !0o100u32) & !0o100u32 == m & !0o100u32) by (bit_vector);
        assert(m & 0o100u32 != 0 ==> m | 0o100u32 == m) by (bit_vector);
        assert(m & 0o100u32 == 0 ==> m & !0o100u32 == m) by (bit_vector);
    }
}

/// Where one has asked for it, all attached clients leave: just their
/// descriptors are closed, in the order of the list, and the others stay in
/// theirs. Where no one has, nothing happens. Either way the wish is gone.
pub proof fn eviction_is_for_the_attached(d: &mut SessionDaemon, close: Vec<i32>)
    requires
        call_ensures(SessionDaemon::evict, (d,), close),
    ensures
        *final(d) == (SessionDaemon {
            clients: final(d).clients,
            evict_attached: false,
            ..*old(d)
        }),
        old(d).evict_attached ==> {
            &&& final(d).clients@ == old(d).clients@.filter(|c: Client| !c.attached)
            &&& close@ == old(d).clients@.filter(|c: Client| c.attached).map_values(
                |c: Client| c.fd,
            )
        },
        !old(d).evict_attached ==> final(d).clients@ == old(d).clients@ && close@.len() == 0,
{
}

/// A replay is gone on with where something of it is left and the client can
/// take it, from where it stood. How far it came is kept, and the client is
/// attached once nothing is left and no write has failed; one that was attached
/// stays so.
pub proof fn replay_goes_on_where_it_stood(
    d: &mut SessionDaemon,
    i: usize,
    writable: bool,
    begun: Option<ReplayState>,
    rs: ReplayState,
    ok: bool,
)
    requires
        i < old(d).clients@.len(),
        call_ensures(SessionDaemon::drain_replay, (&*old(d), i, writable), begun),
        call_ensures(SessionDaemon::finish_replay, (d, i, rs, ok), ()),
    ensures
        begun is Some <==> writable && old(d).clients@[i as int].replay_remaining > 0,
        begun matches Some(b) ==> {
            &&& b.head == old(d).clients@[i as int].replay_head
            &&& b.remaining == old(d).clients@[i as int].replay_remaining
        },
        *final(d) == (SessionDaemon { clients: final(d).clients, ..*old(d) }),
        only_client_changed(old(d).clients@, final(d).clients@, i as int),
        ({
            let before = old(d).clients@[i as int];
            let after = final(d).clients@[i as int];
            &&& after.fd == before.fd
            &&& after.peer_pid == before.peer_pid
            &&& after.replay_head == rs.head
            &&& after.replay_remaining == rs.remaining
            &&& after.attached <==> before.attached || (ok && rs.remaining == 0)
        }),
{
}

// ---------------------------------------------------------------------------
// Output
// ---------------------------------------------------------------------------

/// Output of the child is forwarded as it was read, and logged where there is a
/// log. The end of the output, and any error but a passing one, means that the
/// child has exited. Nothing but the ring changes, and it does just when there
/// is output.
pub proof fn output_is_forwarded(
    d: &mut SessionDaemon,
    outcome: Result<Vec<u8>, IoError>,
    r: session_daemon::Output,
)
    requires
        call_ensures(SessionDaemon::handle_pty_output, (d, outcome), r),
    ensures
        *final(d) == (SessionDaemon { scrollback: final(d).scrollback, ..*old(d) }),
        r is Nothing <==> (match outcome {
            Err(IoError::Interrupted) => true,
            Err(IoError::WouldBlock) => true,
            _ => false,
        }),
        r is Forward <==> (outcome matches Ok(data) && data@.len() > 0),
        r matches session_daemon::Output::Forward { data, log } ==> {
            &&& outcome matches Ok(read)
            &&& data@ == read@
            &&& log == (old(d).log is Some)
            &&& final(d).scrollback@ == scrollback::last_bytes(
                old(d).scrollback@ + read@,
                128 * 1024,
            )
        },
        r !is Forward ==> final(d).scrollback == old(d).scrollback,
{
}

/// A client has the output just when all of it was written; it may be tried
/// again just when it could take nothing for now, and any other outcome is bad.
pub proof fn verdict_tells_who_has_the_output(
    len: usize,
    outcome: Result<usize, IoError>,
    v: Verdict,
)
    requires
        call_ensures(session_daemon::write_verdict, (len, outcome), v),
    ensures
        v is Sent <==> outcome == Ok::<usize, IoError>(len),
        v is Later <==> outcome == Err::<usize, IoError>(IoError::WouldBlock),
{
}

/// Output is offered to all attached clients and to no one else, and not at all
/// where there is none; a new connection ends the wait.
pub proof fn output_is_offered_to_the_attached(
    d: &SessionDaemon,
    r: Option<session_daemon::FdSets>,
)
    requires
        call_ensures(SessionDaemon::send_to_clients, (d,), r),
    ensures
        r is Some <==> exists|i: int|
            0 <= i < d.clients@.len() && (#[trigger] d.clients@[i]).attached,
        r matches Some(sets) ==> {
            &&& sets.read@ == seq![d.listener_fd]
            &&& sets.write@ == d.clients@.filter(|c: Client| c.attached).map_values(
                |c: Client| c.fd,
            )
            &&& d.listener_fd <= sets.maxfd
            &&& forall|k: int| 0 <= k < sets.write@.len() ==> #[trigger] sets.write@[k] <= sets.maxfd
            &&& sets.maxfd == d.listener_fd || sets.write@.contains(sets.maxfd)
        },
{
    if let Some(sets) = r {
        let all = sets.read@ + sets.write@;
        assert(all[0] == d.listener_fd);
        assert forall|k: int| 0 <= k < sets.write@.len() implies #[trigger] sets.write@[k]
            <= sets.maxfd by {
            assert(all[k + 1] == sets.write@[k]);
        }
        let k = choose|k: int| 0 <= k < all.len() && all[k] == sets.maxfd;
        if k > 0 {
            assert(sets.write@[k - 1] == sets.maxfd);
        }
    }
}

/// After a round of writes just those clients leave that were written to in
/// vain, and there is another round just when nobody has the output, no
/// connection waits, and somebody who is left is attached.
pub proof fn round_ends_with_the_output(
    d: &mut SessionDaemon,
    tried: &Vec<(i32, Verdict)>,
    listener_ready: bool,
    r: session_daemon::Round,
)
    requires
        call_ensures(SessionDaemon::end_round, (d, tried, listener_ready), r),
    ensures
        *final(d) == (SessionDaemon { clients: final(d).clients, ..*old(d) }),
        forall|fd: i32| #[trigger]
            r.close@.contains(fd) <==> exists|k: int|
                0 <= k < tried@.len() && #[trigger] tried@[k] == (fd, Verdict::Bad),
        final(d).clients@ == old(d).clients@.filter(|c: Client| !r.close@.contains(c.fd)),
        r.again <==> {
            &&& !listener_ready
            &&& forall|k: int| 0 <= k < tried@.len() ==> (#[trigger] tried@[k]).1 != Verdict::Sent
            &&& exists|i: int|
                0 <= i < final(d).clients@.len() && (#[trigger] final(d).clients@[i]).attached
        },
{
    assert forall|fd: i32| #[trigger]
        r.close@.contains(fd) <==> exists|k: int|
            0 <= k < tried@.len() && #[trigger] tried@[k] == (fd, Verdict::Bad) by {
        bad_fds_are_the_bad_ones(tried@, fd);
    }
}

// ---------------------------------------------------------------------------
// Beginning and end
// ---------------------------------------------------------------------------

/// A new daemon has nobody and nothing yet, and the descriptors, names and log
/// that it was given. Without a pseudo-terminal there is none: the reason is
/// shown on standard error, and the exit code is 1.
pub proof fn new_daemon_has_what_it_was_given(
    listener_fd: i32,
    forked: Result<crate::pty::Pty, String>,
    log: Option<crate::session_log::SessionLog>,
    sess: &session::Session,
    r: Result<SessionDaemon, (Report, i32)>,
)
    requires
        call_ensures(SessionDaemon::new, (listener_fd, forked, log, sess), r),
    ensures
        r is Ok <==> forked is Ok,
        r matches Ok(d) ==> {
            &&& d.wf()
            &&& d.listener_fd == listener_fd
            &&& forked == Ok::<crate::pty::Pty, String>(d.pty)
            &&& d.clients@.len() == 0
            &&& d.scrollback@.len() == 0
            &&& d.log == log
            &&& d.sockname@ == sess.sockname@
            &&& d.progname@ == sess.progname@
            &&& d.app_log.name() == sess.app_log.name()
            &&& d.app_log.place() == sess.app_log.place()
            &&& !d.has_attached
            &&& !d.evict_attached
        },
        r matches Err(failure) ==> (forked matches Err(msg) && {
            &&& failure.0.level == LogLevel::Error
            &&& failure.0.message@ == msg@
            &&& failure.0.out is None
            &&& failure.0.err matches Some(e)
            &&& e@ == sess.progname@ + ": "@ + msg@ + "\n"@
            &&& failure.1 == 1
        }),
{
}

/// A session that ends with a log leaves its marker there, in a line of its own
/// that names the program and the session, and has no log any more.
pub proof fn end_is_marked_in_the_log(
    sockname: &str,
    log: &mut Option<crate::session_log::SessionLog>,
    progname: &str,
    d: &mut SessionDaemon,
    marker: Option<String>,
    own: Option<String>,
)
    requires
        call_ensures(session_daemon::cleanup_session, (sockname, log, progname), marker),
        call_ensures(SessionDaemon::cleanup, (d,), own),
    ensures
        *final(log) is None,
        marker is Some <==> *old(log) is Some,
        marker matches Some(m) ==> m@ == "\r\n["@ + progname@ + ": session '"@ + text::last_piece(
            sockname@,
            '/',
        ) + "' ended]\r\n"@,
        *final(d) == (SessionDaemon { log: None, ..*old(d) }),
        own is Some <==> old(d).log is Some,
        own matches Some(m) ==> m@ == "\r\n["@ + old(d).progname@ + ": session '"@
            + text::last_piece(old(d).sockname@, '/') + "' ended]\r\n"@,
{
}

/// A session has a log beside its socket unless its size is limited to nothing.
pub proof fn log_is_opened_unless_disabled(sess: &session::Session, r: Option<String>)
    requires
        call_ensures(session::Session::log_to_open, (sess,), r),
    ensures
        r is Some <==> sess.log_max_size > 0,
        r matches Some(path) ==> path@ == sess.sockname@ + ".log"@,
{
}

/// A session is created just when its socket listens: in this process or by a
/// fork, as was asked. Otherwise the reason is told on standard output, and the
/// exit code is 1; an address in use means that the session runs already.
pub proof fn creation_needs_a_socket(
    sess: &session::Session,
    listening: Result<(), OsError>,
    dontfork: bool,
    r: session_daemon::Spawn,
)
    requires
        call_ensures(session_daemon::session_daemon_main, (sess, listening, dontfork), r),
    ensures
        r is Refuse <==> listening is Err,
        r is RunHere <==> listening is Ok && dontfork,
        r matches session_daemon::Spawn::Refuse(rep, code) ==> (listening matches Err(err) && {
            &&& code == 1
            &&& rep.level == LogLevel::Error
            &&& err.errno == 98 ==> rep.message@ == "session '"@ + text::last_piece(
                sess.sockname@,
                '/',
            ) + "' "@ + "is already running"@
            &&& err.errno != 98 ==> rep.message@ == sess.sockname@ + ": "@ + err.text@
            &&& rep.out matches Some(out)
            &&& out@ == sess.progname@ + ": "@ + rep.message@ + "\n"@
            &&& rep.err is None
        }),
{
}

/// After a fork the child is the daemon and the parent its creator; without one
/// the reason is told and the exit code is 1. The creator reports success unless
/// the daemon has told it of a failure, and then sends it SIGTERM.
pub proof fn fork_is_told_apart(
    sess: &session::Session,
    pid: i32,
    text: &str,
    r: session_daemon::DaemonFork,
    n: Option<i64>,
    end: (Option<i32>, i32),
)
    requires
        call_ensures(session_daemon::daemon_forked, (sess, pid, text), r),
        call_ensures(session_daemon::daemon_started, (n,), end),
    ensures
        r is Daemon <==> pid == 0,
        r is Creator <==> pid > 0,
        r matches session_daemon::DaemonFork::Refuse(rep, code) ==> {
            &&& code == 1
            &&& rep.level == LogLevel::Error
            &&& rep.message@ == "fork"@ + ": "@ + text@
            &&& rep.out matches Some(out)
            &&& out@ == sess.progname@ + ": "@ + rep.message@ + "\n"@
            &&& rep.err is None
        },
        end.1 == 0 <==> !(n matches Some(k) && k > 0),
        end.1 == 0 ==> end.0 is None,
        end.1 != 0 ==> end == (Some(15i32), 1i32),
{
}

/// A turn begins with what is ready and goes on where it is told. A warning is
/// recorded and not shown, and stands in the session's log where there is one. A
/// process that is not known counts as 0.
pub proof fn turn_begins_with_what_is_ready(
    readable: Vec<i32>,
    writable: Vec<i32>,
    fresh: Serve,
    serve: &mut Serve,
    i: usize,
    d: &SessionDaemon,
    msg: &str,
    w: session_daemon::Warning,
    credentials: Option<i32>,
    pid: i32,
)
    requires
        call_ensures(Serve::new, (readable, writable), fresh),
        call_ensures(Serve::at_client, (serve, i), ()),
        call_ensures(SessionDaemon::log_warn, (d, msg), w),
        call_ensures(session_daemon::peer_pid, (credentials,), pid),
    ensures
        fresh.readable == readable,
        fresh.writable == writable,
        fresh.stage is Start,
        final(serve).readable == old(serve).readable,
        final(serve).writable == old(serve).writable,
        final(serve).stage == Stage::Packets(i),
        w.report@.level == LogLevel::Warn,
        w.report@.message == msg@,
        w.report@.out is None,
        w.report@.err is None,
        w.log_line is Some <==> d.log is Some,
        w.log_line matches Some(l) ==> l@ == "["@ + d.progname@ + ": warn: "@ + msg@ + "]\r\n"@,
        credentials matches Some(p) ==> pid == p,
        credentials is None ==> pid == 0,
{
}

/// Whatever its clients send and however its transfers go, the daemon takes it,
/// as long as its ring and its clients' places in it lie within bounds.
pub proof fn daemon_accepts_everything(
    d: &mut SessionDaemon,
    serve: &mut Serve,
    i: usize,
    got: Result<Packet, ProtocolError>,
    accepted: session_daemon::Accepted,
    outcome: Result<Vec<u8>, IoError>,
    writable: bool,
    rs: ReplayState,
    ok: bool,
    tried: &Vec<(i32, Verdict)>,
    listener_ready: bool,
)
    requires
        d.scrollback.buf@.len() == 131072,
        d.scrollback.head < 131072,
        d.scrollback.len <= 131072,
        forall|k: int|
            0 <= k < d.clients@.len() ==> (#[trigger] d.clients@[k]).replay_head < 131072
                && d.clients@[k].replay_remaining <= 131072,
        i < d.clients@.len(),
        rs.head < 131072,
        rs.remaining <= 131072,
    ensures
        call_requires(SessionDaemon::run, (&*old(d), serve)),
        call_requires(SessionDaemon::handle_client_packets, (d, i, got)),
        call_requires(SessionDaemon::accept_client, (d, accepted)),
        call_requires(SessionDaemon::build_fd_sets, (d,)),
        call_requires(SessionDaemon::evict, (d,)),
        call_requires(SessionDaemon::drain_replay, (&*old(d), i, writable)),
        call_requires(SessionDaemon::finish_replay, (d, i, rs, ok)),
        call_requires(SessionDaemon::handle_pty_output, (d, outcome)),
        call_requires(SessionDaemon::send_to_clients, (&*old(d),)),
        call_requires(SessionDaemon::end_round, (d, tried, listener_ready)),
{
    assert forall|k: int| 0 <= k < d.clients@.len() implies #[trigger] session_daemon::replay_of(
        d.clients@[k],
    ).wf() by {
        let c = d.clients@[k];
    }
}

} // verus!
