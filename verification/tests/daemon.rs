use ztch::app_log::LogLevel;
use ztch::cli::{session_from_global, GlobalArgs};
use ztch::client::Client;
use ztch::protocol::{IoError, MsgType, Packet, ProtocolError, RedrawMethod, SCROLLBACK_SIZE};
use ztch::pty::{Forked, Pty};
use ztch::report::OsError;
use ztch::scrollback::{Drain, ReplayState};
use ztch::session::Session;
use ztch::session_daemon::{
    after_wait, cleanup_session, daemon_forked, daemon_started, peer_pid, session_daemon_main,
    update_socket_modes, write_verdict, Accepted, Act, AfterWait, DaemonFork, Output,
    RunStep, Serve, SessionDaemon, Spawn, Verdict,
};
use ztch::session_log::SessionLog;
use ztch::term::{winsize_to_bytes, WinSize};
use ztch::util::Env;

fn session() -> Session {
    let global = GlobalArgs {
        escape: None,
        disable_escape: false,
        no_suspend: false,
        quiet: false,
        no_ansiterm: false,
        redraw: None,
        clear: None,
        log_cap: None,
    };
    let env = Env { home: Some("/home/u".to_string()), pid: 9 };
    let mut s = session_from_global(&global, "ztch", "ZTCH_SESSION", &env);
    s.sockname = "/run/s/foo".to_string();
    s
}

fn daemon() -> SessionDaemon {
    let (log, _) = SessionLog::open(0, 100);
    match SessionDaemon::new(3, Ok(Pty { fd: 4, pid: 77 }), Some(log), &session()) {
        Ok(d) => d,
        Err(_) => panic!("no daemon"),
    }
}

fn with_clients(attached: &[bool]) -> SessionDaemon {
    let mut d = daemon();
    for (i, a) in attached.iter().enumerate() {
        let fd = 10 + i as i32;
        assert!(d.accept_client(Accepted::Ready { fd, credentials: Some(100 + fd) }).is_none());
        d.clients[i].attached = *a;
    }
    d
}

fn fds(d: &SessionDaemon) -> Vec<i32> {
    d.clients.iter().map(|c| c.fd).collect()
}

fn client(d: &SessionDaemon, fd: i32) -> Client {
    *d.clients.iter().find(|c| c.fd == fd).unwrap()
}

#[test]
fn new_daemon_is_empty() {
    let d = daemon();
    assert_eq!(d.listener_fd, 3);
    assert_eq!(d.pty, Pty { fd: 4, pid: 77 });
    assert!(d.clients.is_empty());
    assert_eq!(d.scrollback.len, 0);
    assert_eq!(d.sockname, "/run/s/foo");
    assert_eq!(d.progname, "ztch");
    assert_eq!(d.app_log.path(), "/home/u/.cache/ztch/.ztch-app.log");
    assert!(!d.has_attached && !d.evict_attached);
}

#[test]
fn daemon_without_a_pty() {
    let failed = match Pty::new(-1, 0) {
        Forked::Failed(msg) => msg,
        _ => panic!("forked"),
    };
    match SessionDaemon::new(3, Err(failed), None, &session()) {
        Ok(_) => panic!("a daemon"),
        Err((report, code)) => {
            assert_eq!(report.err.as_deref(), Some("ztch: Could not find a pty.\n"));
            assert_eq!(report.message, "Could not find a pty.");
            assert_eq!(report.level, LogLevel::Error);
            assert_eq!(code, 1);
        }
    }
    assert!(matches!(Pty::new(0, 9), Forked::Child));
    assert!(matches!(Pty::new(55, 9), Forked::Parent(Pty { fd: 9, pid: 55 })));
    assert_eq!(Pty { fd: 9, pid: 55 }.group(), -55);
}

#[test]
fn fd_sets_hold_all_descriptors() {
    let mut d = with_clients(&[false, true, false]);
    d.clients[2].replay_remaining = 5;
    let sets = d.build_fd_sets();
    assert_eq!(sets.read, vec![3, 4, 10, 11, 12]);
    assert_eq!(sets.write, vec![12]);
    assert_eq!(sets.maxfd, 12);
    assert!(d.has_attached);
    let mut d = daemon();
    let sets = d.build_fd_sets();
    assert_eq!(sets.read, vec![3, 4]);
    assert!(sets.write.is_empty());
    assert_eq!(sets.maxfd, 4);
    assert!(!d.has_attached);
}

#[test]
fn update_socket_modes_toggle() {
    let initial = libc::S_IFSOCK | 0o600;
    assert_eq!(update_socket_modes(Some(initial), false), None);
    let with_bit = update_socket_modes(Some(initial), true).unwrap();
    assert_ne!(with_bit & libc::S_IXUSR, 0);
    assert_eq!(with_bit, libc::S_IFSOCK | 0o700);
    assert_eq!(update_socket_modes(Some(with_bit), true), None);
    let without = update_socket_modes(Some(with_bit), false).unwrap();
    assert_eq!(without & libc::S_IXUSR, 0);
    assert_eq!(without, initial);
}

#[test]
fn update_socket_modes_nonexistent() {
    assert_eq!(update_socket_modes(None, false), None);
    assert_eq!(update_socket_modes(None, true), None);
}

#[test]
fn waiting_outcomes() {
    assert_eq!(after_wait(Ok(())), AfterWait::Serve);
    assert_eq!(after_wait(Err(IoError::Interrupted)), AfterWait::Again);
    assert_eq!(after_wait(Err(IoError::Other(Some(9)))), AfterWait::Stop);
    assert_eq!(after_wait(Err(IoError::WouldBlock)), AfterWait::Stop);
}

#[test]
fn accepting_clients() {
    let mut d = daemon();
    assert!(d.accept_client(Accepted::Nobody).is_none());
    assert!(d.clients.is_empty());
    assert!(d.accept_client(Accepted::Ready { fd: 8, credentials: None }).is_none());
    let c = d.clients[0];
    assert_eq!((c.fd, c.attached, c.replay_head, c.replay_remaining, c.peer_pid), (8, false, 0, 0, 0));
    let w = d.accept_client(Accepted::Blocking).unwrap();
    assert_eq!(
        w.report.message,
        "could not set client socket non-blocking; connection rejected"
    );
    assert_eq!(w.report.level, LogLevel::Warn);
    assert_eq!(
        w.log_line.as_deref(),
        Some("[ztch: warn: could not set client socket non-blocking; connection rejected]\r\n")
    );
    assert_eq!(d.clients.len(), 1);
    d.log = None;
    assert_eq!(d.log_warn("x").log_line, None);
    assert_eq!(peer_pid(Some(5)), 5);
    assert_eq!(peer_pid(None), 0);
}

#[test]
fn pushed_input_goes_to_the_pty() {
    let mut d = with_clients(&[true]);
    let t = d.handle_client_packets(0, Ok(Packet::push(&vec![b'h', b'i'])));
    assert!(matches!(t.act, Act::Input(ref b) if b == b"hi"));
    assert_eq!((t.close, t.next), (None, 1));
    let t = d.handle_client_packets(0, Ok(Packet { msg_type: 0, len: 200, data: *b"12345678" }));
    assert!(matches!(t.act, Act::Input(ref b) if b == b"12345678"));
    let t = d.handle_client_packets(0, Ok(Packet::new(MsgType::Push)));
    assert!(matches!(t.act, Act::Nothing));
}

#[test]
fn attaching_with_an_empty_ring() {
    let mut d = with_clients(&[false]);
    let t = d.handle_client_packets(0, Ok(Packet::new(MsgType::Attach)));
    assert!(matches!(t.act, Act::Nothing));
    assert!(d.clients[0].attached);
}

#[test]
fn live_output_waits_for_the_replay() {
    let mut d = with_clients(&[false]);
    let fed = d.handle_pty_output(Ok(b"prompt$ ".to_vec()));
    assert!(matches!(fed, Output::Forward { log: true, .. }));
    let t = d.handle_client_packets(0, Ok(Packet::new(MsgType::Attach)));
    let mut rs: ReplayState = match t.act {
        Act::Replay(rs) => rs,
        _ => panic!("no replay"),
    };
    assert!(!d.clients[0].attached);
    assert_eq!(d.clients[0].replay_remaining, 8);
    assert!(matches!(rs.drain(None), Drain::Write { from: 0, len: 8 }));
    assert!(matches!(rs.drain(Some(Ok(3))), Drain::Write { from: 3, len: 5 }));
    assert_eq!(rs.drain(Some(Err(IoError::WouldBlock))), Drain::Finished(true));
    d.finish_replay(0, rs, true);
    assert!(!d.clients[0].attached);
    assert_eq!(d.build_fd_sets().write, vec![10]);
    assert!(d.send_to_clients().is_none());

    assert!(d.drain_replay(0, false).is_none());
    let mut rs = d.drain_replay(0, true).unwrap();
    assert!(matches!(rs.drain(None), Drain::Write { from: 3, len: 5 }));
    assert_eq!(rs.drain(Some(Ok(5))), Drain::Finished(true));
    d.finish_replay(0, rs, true);
    assert!(d.clients[0].attached);
    assert!(d.drain_replay(0, true).is_none());
}

#[test]
fn output_spares_the_clients_replays() {
    let mut d = with_clients(&[false]);
    d.handle_pty_output(Ok(b"old output".to_vec()));
    let t = d.handle_client_packets(0, Ok(Packet::new(MsgType::Attach)));
    let mut rs: ReplayState = match t.act {
        Act::Replay(rs) => rs,
        _ => panic!("no replay"),
    };
    assert!(matches!(rs.drain(None), Drain::Write { from: 0, len: 10 }));
    assert!(matches!(rs.drain(Some(Ok(4))), Drain::Write { from: 4, len: 6 }));
    assert_eq!(rs.drain(Some(Err(IoError::WouldBlock))), Drain::Finished(true));
    d.finish_replay(0, rs, true);
    d.handle_pty_output(Ok(b" and new".to_vec()));
    let mut rs = d.drain_replay(0, true).unwrap();
    assert!(matches!(rs.drain(None), Drain::Write { from: 4, len: 6 }));
    assert_eq!(&d.scrollback.buf[4..10], b"output");
    assert_eq!(&d.scrollback.buf[..18], b"old output and new");
    assert_eq!((d.scrollback.head, d.scrollback.len), (0, 18));
}

#[test]
fn failed_replay_does_not_attach() {
    let mut d = with_clients(&[false]);
    d.handle_pty_output(Ok(b"x".to_vec()));
    d.handle_client_packets(0, Ok(Packet::new(MsgType::Attach)));
    let rs = d.drain_replay(0, true).unwrap();
    d.finish_replay(0, rs, false);
    assert!(!d.clients[0].attached);
    assert_eq!(d.clients[0].replay_remaining, 1);
}

#[test]
fn client_that_has_the_output_attaches_at_once() {
    let mut d = with_clients(&[false]);
    d.handle_pty_output(Ok(b"x".to_vec()));
    let t = d.handle_client_packets(0, Ok(Packet::encode(MsgType::Attach, 1)));
    assert!(matches!(t.act, Act::Nothing));
    assert!(d.clients[0].attached);
    let t = d.handle_client_packets(0, Ok(Packet::new(MsgType::Detach)));
    assert!(matches!(t.act, Act::Nothing));
    assert!(!d.clients[0].attached);
    assert_eq!(t.next, 1);
    let t = d.handle_client_packets(0, Ok(Packet::new(MsgType::Attach)));
    assert!(matches!(t.act, Act::Replay(ReplayState { head: 0, remaining: 1 })));
}

#[test]
fn window_sizes_and_redraws() {
    let ws = WinSize { row: 40, col: 100, xpixel: 3, ypixel: 4 };
    let mut d = with_clients(&[true]);
    let mut p = Packet::new(MsgType::Winch);
    p.data = winsize_to_bytes(ws);
    assert!(matches!(d.handle_client_packets(0, Ok(p)).act, Act::Resize(w) if w == ws));
    p.msg_type = MsgType::Redraw.as_u8();
    assert!(matches!(d.handle_client_packets(0, Ok(p)).act, Act::Resize(w) if w == ws));
    p.len = RedrawMethod::NoRedraw.as_u8();
    assert!(matches!(d.handle_client_packets(0, Ok(p)).act, Act::Resize(w) if w == ws));
    p.len = RedrawMethod::CtrlL.as_u8();
    assert!(matches!(d.handle_client_packets(0, Ok(p)).act, Act::Refresh(w) if w == ws));
    p.len = RedrawMethod::Winch.as_u8();
    assert!(matches!(
        d.handle_client_packets(0, Ok(p)).act,
        Act::ResizeAndSignal(w, sig) if w == ws && sig == libc::SIGWINCH
    ));
}

#[test]
fn signals_for_the_child() {
    let mut d = with_clients(&[false]);
    let t = d.handle_client_packets(0, Ok(Packet::encode(MsgType::Kill, 9)));
    assert!(matches!(t.act, Act::Signal(9)));
    assert_eq!(t.next, 1);
    let t = d.handle_client_packets(0, Ok(Packet::new(MsgType::Kill)));
    assert!(matches!(t.act, Act::Signal(sig) if sig == libc::SIGTERM));
}

#[test]
fn info_lists_the_attached() {
    let mut d = with_clients(&[true, false, true]);
    let t = d.handle_client_packets(1, Ok(Packet::new(MsgType::Info)));
    match t.act {
        Act::Tell(lines) => {
            assert_eq!(lines, vec!["attached: 2\n", "pid: 110\n", "pid: 112\n"]);
        }
        _ => panic!("nothing told"),
    }
    assert_eq!((t.close, t.next), (Some(11), 1));
    assert_eq!(fds(&d), vec![10, 12]);
}

#[test]
fn unknown_packets_are_ignored() {
    let mut d = with_clients(&[true]);
    let t = d.handle_client_packets(0, Ok(Packet { msg_type: 8, len: 1, data: [1; 8] }));
    assert!(matches!(t.act, Act::Nothing));
    assert_eq!((t.close, t.next), (None, 1));
    assert!(d.clients[0].attached);
}

#[test]
fn broken_connections_are_closed() {
    let mut d = with_clients(&[true, true, true, true]);
    let t = d.handle_client_packets(1, Err(ProtocolError::WouldBlock));
    assert_eq!((t.close, t.next), (None, 2));
    let t = d.handle_client_packets(1, Err(ProtocolError::Eof));
    assert_eq!((t.close, t.next), (Some(11), 1));
    assert_eq!(fds(&d), vec![10, 13, 12]);
    let t = d.handle_client_packets(2, Err(ProtocolError::Io(104)));
    assert_eq!((t.close, t.next), (Some(12), 2));
    assert_eq!(fds(&d), vec![10, 13]);
}

#[test]
fn sweep_reaches_every_client() {
    let mut d = with_clients(&[true, true, true, true, true]);
    let mut visited: Vec<i32> = Vec::new();
    let mut closed: Vec<i32> = Vec::new();
    let mut i = 0;
    while let Some(fd) = d.clients.get(i).map(|c| c.fd) {
        visited.push(fd);
        let got = if fd % 2 == 0 {
            Err(ProtocolError::Eof)
        } else {
            Ok(Packet::new(MsgType::Detach))
        };
        let t = d.handle_client_packets(i, got);
        if let Some(fd) = t.close {
            closed.push(fd);
        }
        i = t.next;
    }
    visited.sort();
    closed.sort();
    assert_eq!(visited, vec![10, 11, 12, 13, 14]);
    assert_eq!(closed, vec![10, 12, 14]);
    assert!(!client(&d, 11).attached && !client(&d, 13).attached);
    assert_eq!(d.clients.len(), 2);
}

#[test]
fn turn_keeps_its_order() {
    let mut d = with_clients(&[true, false, true]);
    d.clients[1].replay_remaining = 4;
    d.clients[1].replay_head = 2;
    let mut serve = Serve::new(vec![3, 4, 10, 12], vec![11]);
    assert_eq!(d.run(&mut serve), RunStep::Accept);
    assert_eq!(d.run(&mut serve), RunStep::Read { i: 0, fd: 10 });
    let t = d.handle_client_packets(0, Err(ProtocolError::Eof));
    serve.at_client(t.next);
    assert_eq!(d.run(&mut serve), RunStep::Read { i: 0, fd: 12 });
    let t = d.handle_client_packets(0, Ok(Packet::new(MsgType::Detach)));
    serve.at_client(t.next);
    assert_eq!(d.run(&mut serve), RunStep::Evict);
    assert!(d.evict().is_empty());
    let rs = ReplayState { head: 2, remaining: 4 };
    assert_eq!(d.run(&mut serve), RunStep::Replay { i: 1, fd: 11, rs });
    assert_eq!(d.run(&mut serve), RunStep::Output);
    assert_eq!(d.run(&mut serve), RunStep::Over);
    assert_eq!(d.run(&mut serve), RunStep::Over);

    let mut idle = Serve::new(vec![], vec![]);
    assert_eq!(d.run(&mut idle), RunStep::Evict);
    assert_eq!(d.run(&mut idle), RunStep::Over);
}

#[test]
fn eviction_detaches_everyone() {
    let mut d = with_clients(&[true, false, true, false]);
    assert!(d.evict().is_empty());
    let t = d.handle_client_packets(3, Ok(Packet::new(MsgType::ForceDetach)));
    assert_eq!((t.close, t.next), (Some(13), 3));
    assert!(d.evict_attached);
    assert_eq!(d.evict(), vec![10, 12]);
    assert_eq!(fds(&d), vec![11]);
    assert!(!d.evict_attached);
}

#[test]
fn output_goes_into_the_ring() {
    let mut d = daemon();
    match d.handle_pty_output(Ok(b"abc".to_vec())) {
        Output::Forward { data, log } => assert_eq!((data, log), (b"abc".to_vec(), true)),
        _ => panic!("not forwarded"),
    }
    d.log = None;
    assert!(matches!(d.handle_pty_output(Ok(b"d".to_vec())), Output::Forward { log: false, .. }));
    assert_eq!(&d.scrollback.buf[..4], b"abcd");
    assert!(matches!(d.handle_pty_output(Err(IoError::Interrupted)), Output::Nothing));
    assert!(matches!(d.handle_pty_output(Err(IoError::WouldBlock)), Output::Nothing));
    assert!(matches!(d.handle_pty_output(Err(IoError::Other(Some(5)))), Output::Exited));
    assert!(matches!(d.handle_pty_output(Ok(vec![])), Output::Exited));
    assert_eq!(d.scrollback.len, 4);
    d.handle_pty_output(Ok(vec![b'z'; SCROLLBACK_SIZE]));
    assert_eq!(d.scrollback.len, SCROLLBACK_SIZE);
    assert!(d.scrollback.buf.iter().all(|b| *b == b'z'));
}

#[test]
fn sending_waits_for_the_attached() {
    let d = with_clients(&[false, true, true]);
    let sets = d.send_to_clients().unwrap();
    assert_eq!(sets.read, vec![3]);
    assert_eq!(sets.write, vec![11, 12]);
    assert_eq!(sets.maxfd, 12);
    assert!(with_clients(&[false]).send_to_clients().is_none());
}

#[test]
fn write_verdicts() {
    assert_eq!(write_verdict(5, Ok(5)), Verdict::Sent);
    assert_eq!(write_verdict(5, Ok(4)), Verdict::Bad);
    assert_eq!(write_verdict(5, Ok(0)), Verdict::Bad);
    assert_eq!(write_verdict(5, Err(IoError::WouldBlock)), Verdict::Later);
    assert_eq!(write_verdict(5, Err(IoError::Interrupted)), Verdict::Bad);
    assert_eq!(write_verdict(5, Err(IoError::Other(None))), Verdict::Bad);
}

#[test]
fn closed_clients_are_forgotten() {
    let mut d = with_clients(&[true, true, false, true]);
    let tried = vec![(10, Verdict::Bad), (11, Verdict::Later), (13, Verdict::Bad)];
    let r = d.end_round(&tried, false);
    assert_eq!(r.close, vec![10, 13]);
    assert!(r.again);
    assert_eq!(fds(&d), vec![11, 12]);
    let r = d.end_round(&vec![(11, Verdict::Later)], true);
    assert!(r.close.is_empty() && !r.again);
    let r = d.end_round(&vec![(11, Verdict::Sent)], false);
    assert!(!r.again);
    let r = d.end_round(&vec![(11, Verdict::Bad)], false);
    assert_eq!(r.close, vec![11]);
    assert!(!r.again);
    assert_eq!(fds(&d), vec![12]);
}

#[test]
fn output_is_never_torn() {
    for outcome in [Ok(5), Ok(3), Err(IoError::WouldBlock), Err(IoError::Other(Some(32)))] {
        let mut d = with_clients(&[true, true]);
        d.end_round(&vec![(10, write_verdict(5, outcome)), (11, Verdict::Later)], false);
        let whole_or_nothing = outcome == Ok(5) || outcome == Err(IoError::WouldBlock);
        assert_eq!(fds(&d).contains(&10), whole_or_nothing);
        assert!(fds(&d).contains(&11));
    }
}

#[test]
fn cleanup_ends_the_log() {
    let mut d = daemon();
    assert_eq!(d.cleanup().as_deref(), Some("\r\n[ztch: session 'foo' ended]\r\n"));
    assert!(d.log.is_none());
    assert_eq!(d.cleanup(), None);
}

#[test]
fn cleanup_session_nonexistent() {
    let mut none: Option<SessionLog> = None;
    assert_eq!(cleanup_session("/nonexistent/ztch-test-sock", &mut none, "test-prog"), None);
    let mut log = Some(SessionLog::open(0, 1).0);
    let marker = cleanup_session("/nonexistent/ztch-test-sock", &mut log, "test-prog");
    assert_eq!(marker.as_deref(), Some("\r\n[test-prog: session 'ztch-test-sock' ended]\r\n"));
    assert!(log.is_none());
}

#[test]
fn creating_a_session() {
    let sess = session();
    assert!(matches!(session_daemon_main(&sess, Ok(()), true), Spawn::RunHere));
    assert!(matches!(session_daemon_main(&sess, Ok(()), false), Spawn::Fork));
    let err = OsError { errno: libc::EADDRINUSE, text: "in use".to_string() };
    match session_daemon_main(&sess, Err(err), false) {
        Spawn::Refuse(r, code) => {
            assert_eq!(r.out.as_deref(), Some("ztch: session 'foo' is already running\n"));
            assert_eq!(r.message, "session 'foo' is already running");
            assert_eq!(code, 1);
        }
        _ => panic!("not refused"),
    }
    let err = OsError { errno: 13, text: "Permission denied".to_string() };
    match session_daemon_main(&sess, Err(err), true) {
        Spawn::Refuse(r, code) => {
            assert_eq!(r.out.as_deref(), Some("ztch: /run/s/foo: Permission denied\n"));
            assert_eq!(code, 1);
        }
        _ => panic!("not refused"),
    }
}

#[test]
fn forking_the_daemon() {
    let sess = session();
    match daemon_forked(&sess, -1, "no memory") {
        DaemonFork::Refuse(r, code) => {
            assert_eq!(r.out.as_deref(), Some("ztch: fork: no memory\n"));
            assert_eq!(code, 1);
        }
        _ => panic!("forked"),
    }
    assert!(matches!(daemon_forked(&sess, 0, ""), DaemonFork::Daemon));
    assert!(matches!(daemon_forked(&sess, 5, ""), DaemonFork::Creator));
    assert_eq!(daemon_started(Some(1)), (Some(libc::SIGTERM), 1));
    assert_eq!(daemon_started(Some(0)), (None, 0));
    assert_eq!(daemon_started(Some(-1)), (None, 0));
    assert_eq!(daemon_started(None), (None, 0));
}

#[test]
fn log_of_a_new_session() {
    let mut sess = session();
    assert_eq!(sess.log_to_open().as_deref(), Some("/run/s/foo.log"));
    sess.log_max_size = 0;
    assert_eq!(sess.log_to_open(), None);
}

#[test]
fn chain_of_sessions() {
    let sess = session();
    assert_eq!(sess.chain(None), "/run/s/foo");
    assert_eq!(sess.chain(Some("")), "/run/s/foo");
    assert_eq!(sess.chain(Some("/run/s/a:/run/s/b")), "/run/s/a:/run/s/b:/run/s/foo");
    let r = sess.exec_failed("nosuch", "No such file or directory");
    assert_eq!(
        r.out.as_deref(),
        Some("ztch: could not execute nosuch: No such file or directory\n")
    );
    assert_eq!(ztch::pty::EXEC_FAILED, 127);
}
