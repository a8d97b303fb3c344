use ztch::app_log::LogLevel;
use ztch::attach::{
    winch_packet, AttachEvent, AttachStep, LoopStep, PushStep, Ready, ServerStep, StdinStep, Turn,
    TurnStage, TurnStep,
};
use ztch::cli::{session_from_global, GlobalArgs};
use ztch::listing::{
    is_log_name, log_session, meta_secs, rm_orphaned_logs, rm_stale_sockets, socket_start_time,
    Asked, Contact, Entry, LogEntry, Meta, Removal, RemoveError, RmStep,
};
use ztch::protocol::{ClearMethod, IoError, MsgType, RedrawMethod};
use ztch::report::OsError;
use ztch::session::{
    connect_socket, use_shell_if_no_cmd, AfterSpawn, Implicit, InfoAnswer, KillEvent, KillStep,
    Leave, ReplayLogStep, Request, Session,
};
use ztch::sock::{connect_unix, listen_unix, ListenStep};
use ztch::term::{Termios, WinSize};
use ztch::util::{save_term, Env};

fn env() -> Env {
    Env { home: Some("/home/u".to_string()), pid: 9 }
}

fn session() -> Session {
    let global = GlobalArgs {
        escape: None,
        disable_escape: false,
        no_suspend: false,
        quiet: false,
        no_ansiterm: false,
        redraw: None,
        clear: None,
        log_cap: None,
    };
    let mut s = session_from_global(&global, "ztch", "ZTCH_SESSION", &env());
    s.sockname = "/run/s/foo".to_string();
    s
}

fn quiet() -> Session {
    let mut s = session();
    s.quiet = true;
    s
}

fn os(errno: i32, text: &str) -> OsError {
    OsError { errno, text: text.to_string() }
}

fn out(l: &Leave) -> Option<String> {
    l.report.as_ref().and_then(|r| r.out.clone())
}

fn err(l: &Leave) -> Option<String> {
    l.report.as_ref().and_then(|r| r.err.clone())
}

fn message(l: &Leave) -> String {
    l.report.as_ref().unwrap().message.clone()
}

fn term() -> Termios {
    let mut cc = [0u8; 32];
    cc[libc::VSUSP] = 26;
    Termios { iflag: 1, oflag: 2, cflag: 3, lflag: 4, cc }
}

fn socket(name: &str, mode: u32) -> Entry {
    Entry {
        name: name.to_string(),
        meta: Some(Meta { mode: libc::S_IFSOCK | mode, mtime: 1000, ctime: 2000 }),
    }
}

#[test]
fn connection_outcomes() {
    assert_eq!(connect_socket(Ok(()), None), Ok(()));
    assert_eq!(connect_socket(Err(libc::ENOENT), Some(0o100600)), Err(2));
    let refused = Err(libc::ECONNREFUSED);
    assert_eq!(connect_socket(refused, Some(0o100600)), Err(libc::ENOTSOCK));
    assert_eq!(connect_socket(refused, Some(0o140600)), Err(libc::ECONNREFUSED));
    assert_eq!(connect_socket(refused, None), Err(111));
}

#[test]
fn connect_enoent() {
    let err = connect_unix(Err(Some(libc::ENOENT))).unwrap_err();
    assert_eq!(err, libc::ENOENT);
}

#[test]
fn listening_step_by_step() {
    assert_eq!(connect_unix(Err(None)), Err(libc::EIO));
    assert_eq!(connect_unix(Ok(())), Ok(()));
    assert_eq!(listen_unix(ListenStep::Bind, Ok(())), ListenStep::SetNonblocking);
    assert_eq!(listen_unix(ListenStep::SetNonblocking, Ok(())), ListenStep::SetMode(0o600));
    assert_eq!(listen_unix(ListenStep::SetMode(0o600), Ok(())), ListenStep::Done(Ok(())));
    assert_eq!(
        listen_unix(ListenStep::Bind, Err(Some(libc::EADDRINUSE))),
        ListenStep::Done(Err(98))
    );
    assert_eq!(listen_unix(ListenStep::SetMode(0o600), Err(None)), ListenStep::Done(Err(5)));
    assert_eq!(listen_unix(ListenStep::Done(Err(3)), Ok(())), ListenStep::Done(Err(3)));
}

/// Stop a session that is gone at look `gone`, counting from 0.
fn kill(s: &Session, force: bool, gone: usize) -> (Vec<u8>, usize, Leave) {
    let (mut k, mut step) = s.kill(force);
    let mut signals: Vec<u8> = Vec::new();
    let mut looks = 0;
    loop {
        let event = match step {
            KillStep::Send(p) => {
                assert_eq!(p.msg_type, MsgType::Kill.as_u8());
                signals.push(p.len);
                KillEvent::Sent(Ok(()))
            }
            KillStep::Look => {
                looks += 1;
                KillEvent::Looked(looks - 1 >= gone)
            }
            KillStep::Done(l) => return (signals, looks, l),
        };
        step = s.kill_step(&mut k, event);
    }
}

#[test]
fn normal_stop_escalates_once() {
    let s = session();
    let (signals, looks, l) = kill(&s, false, 0);
    assert_eq!((signals, looks, l.code), (vec![libc::SIGHUP as u8], 1, 0));
    assert_eq!(out(&l).unwrap(), "ztch: session 'foo' stopped\n");
    let (signals, looks, l) = kill(&s, false, 3);
    assert_eq!((signals, looks, l.code), (vec![1, libc::SIGKILL as u8], 4, 0));
    assert_eq!(out(&l).unwrap(), "ztch: session 'foo' killed\n");
    let (signals, looks, l) = kill(&s, false, 99);
    assert_eq!((signals, looks, l.code), (vec![1, 9], 4, 1));
    assert_eq!(out(&l).unwrap(), "ztch: session 'foo' did not stop\n");
    assert_eq!(out(&kill(&quiet(), false, 0).2), None);
    assert_eq!(out(&kill(&quiet(), false, 1).2).unwrap(), "ztch: session 'foo' killed\n");
}

#[test]
fn forced_stop_looks_ten_times() {
    let s = session();
    let (signals, looks, l) = kill(&s, true, 9);
    assert_eq!((signals, looks, l.code), (vec![9], 10, 0));
    assert_eq!(out(&l).unwrap(), "ztch: session 'foo' killed\n");
    let (signals, looks, l) = kill(&s, true, 10);
    assert_eq!((signals, looks, l.code), (vec![9], 10, 1));
    assert_eq!(out(&l).unwrap(), "ztch: session 'foo' did not stop\n");
}

#[test]
fn stopping_a_session_that_is_not_there() {
    let s = session();
    for (e, text) in [
        (os(libc::ENOENT, "x"), "ztch: session 'foo' does not exist\n"),
        (os(libc::ECONNREFUSED, "x"), "ztch: session 'foo' is not running\n"),
        (os(13, "Permission denied"), "ztch: /run/s/foo: Permission denied\n"),
    ] {
        let (mut k, _) = s.kill(false);
        match s.kill_step(&mut k, KillEvent::Sent(Err(e))) {
            KillStep::Done(l) => {
                assert_eq!(out(&l).unwrap(), text);
                assert_eq!(l.code, 1);
                assert_eq!(l.report.unwrap().level, LogLevel::Error);
            }
            _ => panic!("went on"),
        }
    }
    let (mut k, _) = s.kill(false);
    s.kill_step(&mut k, KillEvent::Looked(false));
    assert!(matches!(s.kill_step(&mut k, KillEvent::Sent(Err(os(2, "x")))), KillStep::Look));
}

fn attach_leave(step: AttachStep) -> Leave {
    match step {
        AttachStep::Leave(l) => l,
        other => panic!("{:?}", other),
    }
}

#[test]
fn attaching_goes_step_by_step() {
    let s = session();
    assert!(matches!(s.attach(false, AttachEvent::Chain(None)), AttachStep::Connect));
    assert!(matches!(
        s.attach(false, AttachEvent::Chain(Some("/run/s/foobar:/x".to_string()))),
        AttachStep::Connect
    ));
    assert!(matches!(s.attach(false, AttachEvent::Connected), AttachStep::Replay));
    match s.attach(false, AttachEvent::Replayed(false)) {
        AttachStep::Greet { screen, packet } => {
            assert_eq!(screen, b"\r\n".to_vec());
            assert_eq!((packet.msg_type, packet.len), (1, 0));
        }
        _ => panic!("no greeting"),
    }
    match s.attach(false, AttachEvent::Replayed(true)) {
        AttachStep::Greet { screen, packet } => {
            assert!(screen.is_empty());
            assert_eq!((packet.msg_type, packet.len), (1, 1));
        }
        _ => panic!("no greeting"),
    }
    assert!(matches!(s.attach(false, AttachEvent::AttachSent(true)), AttachStep::Redraw));
    assert!(matches!(s.attach(false, AttachEvent::RedrawSent(true)), AttachStep::EventLoop));
    let l = attach_leave(s.attach(false, AttachEvent::AttachSent(false)));
    assert_eq!(err(&l).unwrap(), "ztch: failed to send attach request to 'foo'\n");
    let l = attach_leave(s.attach(false, AttachEvent::RedrawSent(false)));
    assert_eq!(err(&l).unwrap(), "ztch: failed to send redraw request to 'foo'\n");
    assert_eq!(l.code, 1);
}

#[test]
fn attaching_clears_the_screen() {
    let mut s = session();
    s.clear_method = ClearMethod::Move;
    for replayed in [false, true] {
        match s.attach(false, AttachEvent::Replayed(replayed)) {
            AttachStep::Greet { screen, .. } => assert_eq!(screen, b"\x1bc".to_vec()),
            _ => panic!("no greeting"),
        }
    }
    s.no_ansiterm = true;
    s.quiet = true;
    match s.attach(false, AttachEvent::Replayed(false)) {
        AttachStep::Greet { screen, .. } => assert!(screen.is_empty()),
        _ => panic!("no greeting"),
    }
}

#[test]
fn attaching_from_within_is_refused() {
    let s = session();
    let chain = s.chain(Some("/run/s/outer"));
    let l = attach_leave(s.attach(false, AttachEvent::Chain(Some(chain.clone()))));
    assert_eq!(
        out(&l).unwrap(),
        "ztch: cannot attach to session 'foo' from within itself\n"
    );
    assert_eq!(l.code, 1);
    let l = attach_leave(s.attach(true, AttachEvent::Chain(Some(chain.clone()))));
    assert!(l.report.is_none() && l.code == 1);
    let mut outer = session();
    outer.sockname = "/run/s/outer".to_string();
    let l = attach_leave(outer.attach(false, AttachEvent::Chain(Some(chain))));
    assert_eq!(l.code, 1);
}

#[test]
fn failed_connections_keep_their_number() {
    let s = session();
    let l = attach_leave(s.attach(true, AttachEvent::NotConnected(os(2, "x"))));
    assert!(l.report.is_none() && l.code == 2);
    match s.attach(false, AttachEvent::NotConnected(os(111, "x"))) {
        AttachStep::ReplayAfterFailure(e) => assert_eq!(e.errno, 111),
        _ => panic!("no replay"),
    }
    let l = attach_leave(s.attach(false, AttachEvent::ReplayedAfterFailure(os(111, "x"), true)));
    assert!(l.report.is_none() && l.code == 111);
    for (e, text) in [
        (os(libc::ENOENT, "x"), "ztch: session 'foo' does not exist\n"),
        (os(libc::ECONNREFUSED, "x"), "ztch: session 'foo' is not running\n"),
        (os(libc::ENOTSOCK, "x"), "ztch: 'foo' is not a valid session\n"),
        (os(13, "Permission denied"), "ztch: /run/s/foo: Permission denied\n"),
    ] {
        let errno = e.errno;
        let l = attach_leave(s.attach(false, AttachEvent::ReplayedAfterFailure(e, false)));
        assert_eq!(out(&l).unwrap(), text);
        assert_eq!(l.code, errno);
    }
}

#[test]
fn window_size_packets() {
    let mut s = session();
    s.redraw_method = RedrawMethod::Winch;
    let ws = WinSize { row: 1, col: 2, xpixel: 3, ypixel: 0x405 };
    let p = s.redraw_packet(ws);
    assert_eq!((p.msg_type, p.len, p.data), (4, 3, [1, 0, 2, 0, 3, 0, 5, 4]));
    let p = winch_packet(ws);
    assert_eq!((p.msg_type, p.len, p.data), (3, 0, [1, 0, 2, 0, 3, 0, 5, 4]));
    let (p, q) = s.resume_packets(ws);
    assert_eq!((p.msg_type, p.len, p.data), (1, 0, [0; 8]));
    assert_eq!((q.msg_type, q.len, q.data), (4, 3, [1, 0, 2, 0, 3, 0, 5, 4]));
}

/// The steps of a turn whose input is handled as `input`.
fn steps_of(server: bool, input: Option<StdinStep>, size_changed: bool) -> Vec<TurnStep> {
    let ready = Ready { server, input: input.is_some() };
    let mut turn = match session().event_loop(false, Some(Ok(ready)), 0, 0) {
        LoopStep::Serve(turn) => turn,
        _ => panic!("did not serve"),
    };
    let mut steps = Vec::new();
    loop {
        let step = turn.next(size_changed);
        if step == TurnStep::Over {
            assert_eq!(turn.next(true), TurnStep::Over);
            return steps;
        }
        if let (TurnStep::Input, Some(handled)) = (step, &input) {
            turn.input_handled(handled);
        }
        steps.push(step);
    }
}

#[test]
fn turn_is_served_in_order() {
    let s = session();
    let typed = |bytes: &[u8]| {
        let term = Termios { iflag: 0, oflag: 0, cflag: 0, lflag: 0, cc: [26; 32] };
        Some(s.handle_stdin_data(Ok(bytes.to_vec()), &term, 0, 0))
    };
    let (server, input, size) = (TurnStep::Server, TurnStep::Input, TurnStep::SendSize);
    assert_eq!(steps_of(false, None, false), []);
    assert_eq!(steps_of(true, None, false), [server]);
    assert_eq!(steps_of(false, typed(b"a"), false), [input]);
    assert_eq!(steps_of(true, typed(b"a"), false), [server, input]);
    assert_eq!(steps_of(false, None, true), [size]);
    assert_eq!(steps_of(true, typed(b"a"), true), [server, input, size]);
    assert_eq!(steps_of(true, typed(b"\x0c"), false), [server, input, size]);
    assert_eq!(steps_of(false, typed(b"a\x0c"), false), [input]);
}

#[test]
fn client_loop() {
    let s = session();
    match s.event_loop(true, None, 100, 165) {
        LoopStep::Leave(l) => {
            assert_eq!(l.code, 0);
            assert_eq!(out(&l).unwrap(), "\r\n[ztch: session 'foo' detached after 1m 5s]\r\n\n");
            assert_eq!(message(&l), "session 'foo' detached after 1m 5s");
        }
        _ => panic!("stayed"),
    }
    assert!(matches!(s.event_loop(false, None, 0, 0), LoopStep::Wait));
    let ready = Ready { server: true, input: false };
    match s.event_loop(false, Some(Ok(ready)), 0, 0) {
        LoopStep::Serve(turn) => {
            assert_eq!(turn, Turn { ready, redraw: false, stage: TurnStage::Server });
        }
        _ => panic!("did not serve"),
    }
    assert!(matches!(s.event_loop(false, Some(Err(IoError::Interrupted)), 0, 0), LoopStep::Again));
    match s.event_loop(false, Some(Err(IoError::Other(Some(9)))), 0, 0) {
        LoopStep::Leave(l) => {
            assert_eq!(l.code, 1);
            assert_eq!(out(&l).unwrap(), "\r\n[ztch: session 'foo' select failed]\r\n\n");
        }
        _ => panic!("stayed"),
    }
}

#[test]
fn data_from_the_session() {
    let s = session();
    assert!(matches!(
        s.handle_server_data(Ok(b"hi".to_vec()), 0, 1),
        ServerStep::Show(ref d) if d == b"hi"
    ));
    assert!(matches!(s.handle_server_data(Err(IoError::Interrupted), 0, 1), ServerStep::Nothing));
    assert!(matches!(s.handle_server_data(Err(IoError::WouldBlock), 0, 1), ServerStep::Nothing));
    match s.handle_server_data(Ok(vec![]), 0, 1) {
        ServerStep::Leave(l) => {
            assert_eq!(l.code, 0);
            assert_eq!(out(&l).unwrap(), "\r\n[ztch: session 'foo' exited after 1s]\r\n\n");
        }
        _ => panic!("stayed"),
    }
    match quiet().handle_server_data(Ok(vec![]), 0, 1) {
        ServerStep::Leave(l) => assert!(l.report.is_none() && l.code == 0),
        _ => panic!("stayed"),
    }
    match s.handle_server_data(Err(IoError::Other(Some(104))), 0, 3600) {
        ServerStep::Leave(l) => {
            assert_eq!(l.code, 1);
            assert_eq!(
                out(&l).unwrap(),
                "\r\n[ztch: session 'foo' read error after 1h 0m 0s]\r\n\n"
            );
        }
        _ => panic!("stayed"),
    }
}

#[test]
fn keys_of_the_user() {
    let mut s = session();
    let t = term();
    match s.handle_stdin_data(Ok(b"ls\n".to_vec()), &t, 0, 0) {
        StdinStep::Send { packet, redraw } => {
            assert_eq!((packet.msg_type, packet.len), (0, 3));
            assert_eq!(&packet.data[..3], b"ls\n");
            assert!(!redraw);
        }
        _ => panic!("not sent"),
    }
    assert!(matches!(
        s.handle_stdin_data(Ok(vec![0x0c]), &t, 0, 0),
        StdinStep::Send { redraw: true, .. }
    ));
    match s.handle_stdin_data(Ok(vec![26, b'x']), &t, 0, 0) {
        StdinStep::Suspend(p) => {
            assert_eq!((p.msg_type, p.len), (2, 2));
            assert_eq!(&p.data[..3], &[26, b'x', 0]);
        }
        _ => panic!("not suspended"),
    }
    match s.handle_stdin_data(Ok(vec![0x1c]), &t, 10, 12) {
        StdinStep::Leave(l) => {
            assert_eq!(l.code, 0);
            assert_eq!(out(&l).unwrap(), "\r\n[ztch: session 'foo' detached after 2s]\r\n\n");
        }
        _ => panic!("stayed"),
    }
    s.no_suspend = true;
    s.detach_char = -1;
    assert!(matches!(s.handle_stdin_data(Ok(vec![26]), &t, 0, 0), StdinStep::Send { .. }));
    assert!(matches!(s.handle_stdin_data(Ok(vec![0x1c]), &t, 0, 0), StdinStep::Send { .. }));
}

#[test]
fn input_that_ends() {
    let s = session();
    let t = term();
    assert!(matches!(
        s.handle_stdin_data(Err(IoError::Interrupted), &t, 0, 0),
        StdinStep::Nothing
    ));
    assert!(matches!(s.handle_stdin_data(Err(IoError::WouldBlock), &t, 0, 0), StdinStep::Nothing));
    match s.handle_stdin_data(Ok(vec![]), &t, 0, 0) {
        StdinStep::Leave(l) => {
            assert_eq!((message(&l).as_str(), l.code), ("stdin closed for session 'foo'", 1));
            assert_eq!(out(&l), None);
        }
        _ => panic!("stayed"),
    }
    match s.handle_stdin_data(Err(IoError::Other(None)), &t, 0, 0) {
        StdinStep::Leave(l) => {
            assert_eq!((message(&l).as_str(), l.code), ("stdin read failed for session 'foo'", 1));
        }
        _ => panic!("stayed"),
    }
}

#[test]
fn pushing_input() {
    let s = session();
    assert!(s.push_begin(Ok(())).is_none());
    let l = s.push_begin(Err(os(2, "No such file"))).unwrap();
    assert_eq!(out(&l).unwrap(), "ztch: /run/s/foo: No such file\n");
    assert_eq!(l.code, 1);
    let stream = b"a stream of input that takes several packets";
    let mut arrived: Vec<u8> = Vec::new();
    for chunk in stream.chunks(8) {
        match s.push(Ok(chunk.to_vec())) {
            PushStep::Send(p) => arrived.extend_from_slice(&p.data[..p.len as usize]),
            PushStep::Done(_) => panic!("stopped"),
        }
        assert!(s.push_sent(Ok(())).is_none());
    }
    assert_eq!(arrived, stream.to_vec());
    match s.push(Ok(vec![])) {
        PushStep::Done(l) => assert!(l.report.is_none() && l.code == 0),
        PushStep::Send(_) => panic!("sent"),
    }
    match s.push(Err(os(5, "I/O error"))) {
        PushStep::Done(l) => {
            assert_eq!(out(&l).unwrap(), "ztch: /run/s/foo: I/O error\n");
            assert_eq!(l.code, 1);
        }
        PushStep::Send(_) => panic!("sent"),
    }
    assert_eq!(s.push_sent(Err(os(32, "Broken pipe"))).unwrap().code, 1);
}

#[test]
fn asking_for_information() {
    let s = session();
    match s.cmd_info(Ok(())) {
        Request::Send(p) => assert_eq!(p.msg_type, 7),
        Request::Done(_) => panic!("stopped"),
    }
    match s.cmd_info(Err(os(2, "x"))) {
        Request::Done(l) => {
            assert_eq!(out(&l).unwrap(), "ztch: session 'foo' does not exist\n");
            assert_eq!(l.code, 1);
        }
        Request::Send(_) => panic!("sent"),
    }
    assert!(s.info_sent(true).is_none());
    let l = s.info_sent(false).unwrap();
    assert_eq!(err(&l).unwrap(), "ztch: failed to query session 'foo'\n");
    let mut a = InfoAnswer::new();
    assert!(!a.feed(Ok(b"attached: 1\npi".to_vec())));
    assert!(!a.feed(Err(IoError::Interrupted)));
    assert!(!a.feed(Ok(b"d: 42\n".to_vec())));
    assert!(a.feed(Ok(vec![])));
    assert_eq!(a.out, "attached: 1\npid: 42\n");
    assert!(InfoAnswer::new().feed(Err(IoError::Other(None))));
    let l = s.info_answer(&a.out);
    assert_eq!(out(&l).unwrap(), "ztch: 'foo': attached: 1\npid: 42\n");
    assert_eq!(message(&l), "'foo': attached: 1\npid: 42");
    assert_eq!(l.code, 0);
}

#[test]
fn asking_to_detach() {
    let s = session();
    match s.cmd_detach(Ok(())) {
        Request::Send(p) => assert_eq!(p.msg_type, 6),
        Request::Done(_) => panic!("stopped"),
    }
    match s.cmd_detach(Err(os(111, "x"))) {
        Request::Done(l) => {
            assert_eq!(out(&l).unwrap(), "ztch: session 'foo' is not running\n");
        }
        Request::Send(_) => panic!("sent"),
    }
    let l = s.detach_sent(true);
    assert_eq!((out(&l).unwrap().as_str(), l.code), ("ztch: session 'foo' detached\n", 0));
    let l = s.detach_sent(false);
    assert_eq!(err(&l).unwrap(), "ztch: failed to send detach request to 'foo'\n");
    assert_eq!(l.code, 1);
    assert_eq!(out(&quiet().detach_sent(true)), None);
}

#[test]
fn detaching_all_sessions() {
    let s = session();
    let asked = vec![
        Asked { entry: socket("a", 0o600), sent: true },
        Asked { entry: socket("b", 0o600), sent: false },
        Asked { entry: socket("c.log", 0o600), sent: true },
        Asked { entry: socket("d", 0o700), sent: true },
    ];
    let reports = s.cmd_detach_all(&asked);
    let texts: Vec<String> = reports.iter().map(|r| r.out.clone().unwrap()).collect();
    assert_eq!(texts, vec!["ztch: session 'a' detached\n", "ztch: session 'd' detached\n"]);
    let reports = s.cmd_detach_all(&vec![]);
    assert_eq!(reports.len(), 1);
    assert_eq!(reports[0].out.as_deref(), Some("ztch: no active sessions to detach\n"));
}

#[test]
fn file_times() {
    let m = |mtime, ctime| Meta { mode: 0, mtime, ctime };
    assert_eq!(meta_secs(&m(5, 7), 9), 5);
    assert_eq!(meta_secs(&m(0, 7), 9), 7);
    assert_eq!(meta_secs(&m(-3, 0), 9), 9);
    assert_eq!(socket_start_time(Some(m(5, 7)), 9), 5);
    assert_eq!(socket_start_time(None, 9), 9);
}

#[test]
fn log_names() {
    assert!(is_log_name("foo.log"));
    assert!(is_log_name("a.b.log"));
    assert!(is_log_name(".x.log"));
    assert!(!is_log_name(".log"));
    assert!(!is_log_name("log"));
    assert!(!is_log_name("foo.logs"));
    assert!(!is_log_name("foo.log.x"));
    assert_eq!(log_session("foo.log").as_deref(), Some("foo"));
    assert_eq!(log_session("a.b.log").as_deref(), Some("a.b"));
    assert_eq!(log_session(".ztch-app.log"), None);
    assert_eq!(log_session("foo"), None);
}

#[test]
fn session_entries() {
    assert!(socket("foo", 0o600).is_session());
    assert!(!socket("foo.log", 0o600).is_session());
    assert!(!socket(".hidden", 0o600).is_session());
    assert!(!Entry { name: "foo".to_string(), meta: None }.is_session());
    let file = Meta { mode: libc::S_IFREG | 0o600, mtime: 1, ctime: 1 };
    assert!(!Entry { name: "foo".to_string(), meta: Some(file) }.is_session());
}

#[test]
fn listing_sessions() {
    let s = session();
    let contacts = vec![
        Contact { entry: socket("work", 0o700), connected: Some(Ok(())) },
        Contact { entry: socket("a-session-with-quite-a-long-name", 0o600), connected: Some(Ok(())) },
        Contact { entry: socket("dead", 0o600), connected: Some(Err(libc::ECONNREFUSED)) },
        Contact { entry: socket("denied", 0o600), connected: Some(Err(13)) },
        Contact { entry: socket("old.log", 0o600), connected: None },
    ];
    let r = s.list(&contacts, None, 1065);
    assert_eq!(
        r.lines,
        vec![
            "work                     since 1m 5s ago [attached]\n",
            "a-session-with-quite-a-long-name since 1m 5s ago\n",
            "dead                     since 1m 5s ago [stale]\n",
        ]
    );
    assert!(r.report.is_none());
    let meta = Some(Meta { mode: libc::S_IFREG, mtime: 1060, ctime: 1 });
    let logs = vec![
        LogEntry { entry: Entry { name: "gone.log".to_string(), meta }, socket_exists: false },
        LogEntry { entry: Entry { name: "work.log".to_string(), meta }, socket_exists: true },
        LogEntry {
            entry: Entry { name: ".ztch-app.log".to_string(), meta },
            socket_exists: false,
        },
        LogEntry {
            entry: Entry { name: "lost.log".to_string(), meta: None },
            socket_exists: false,
        },
    ];
    let r = s.list(&vec![], Some(&logs), 1065);
    assert_eq!(
        r.lines,
        vec![
            "gone                     since 5s ago [exited]\n",
            "lost                     since unknown ago [exited]\n",
        ]
    );
}

#[test]
fn listing_no_sessions() {
    let r = session().list(&vec![], None, 5);
    assert!(r.lines.is_empty());
    let rep = r.report.unwrap();
    assert_eq!(rep.out.as_deref(), Some("(no sessions)\n"));
    assert_eq!(rep.message, "no sessions");
    assert!(quiet().list(&vec![], None, 5).report.is_none());
}

#[test]
fn removing_one_session() {
    let s = session();
    match s.rm_single(Ok(())) {
        RmStep::Done(l) => {
            assert_eq!(
                out(&l).unwrap(),
                "ztch: session 'foo' is running (use 'ztch kill foo' first)\n"
            );
            assert_eq!(l.code, 1);
        }
        _ => panic!("removed"),
    }
    match s.rm_single(Err(os(111, "x"))) {
        RmStep::RemoveBoth { socket, log } => {
            assert_eq!((socket.as_str(), log.as_str()), ("/run/s/foo", "/run/s/foo.log"));
        }
        _ => panic!("kept"),
    }
    match s.rm_single(Err(os(2, "x"))) {
        RmStep::RemoveLog(log) => assert_eq!(log, "/run/s/foo.log"),
        _ => panic!("kept"),
    }
    match s.rm_single(Err(os(13, "Permission denied"))) {
        RmStep::Done(l) => {
            assert_eq!(err(&l).unwrap(), "ztch: /run/s/foo: Permission denied\n");
            assert_eq!(l.code, 1);
        }
        _ => panic!("removed"),
    }
    assert_eq!(out(&s.removed()).unwrap(), "ztch: session 'foo' removed\n");
    assert_eq!(s.rm_log(Ok(())).code, 0);
    let not_found = RemoveError { not_found: true, text: "x".to_string() };
    let l = s.rm_log(Err(not_found));
    assert_eq!(err(&l).unwrap(), "ztch: session 'foo' does not exist\n");
    assert_eq!(l.code, 1);
    let denied = RemoveError { not_found: false, text: "denied".to_string() };
    let l = s.rm_log(Err(denied));
    assert_eq!(err(&l).unwrap(), "ztch: could not remove '/run/s/foo.log': denied\n");
    assert_eq!(l.code, 1);
}

#[test]
fn removing_files() {
    let s = session();
    assert!(s.remove_file_if_exists("/x", Ok(())).is_none());
    let not_found = RemoveError { not_found: true, text: "x".to_string() };
    assert!(s.remove_file_if_exists("/x", Err(not_found)).is_none());
    let denied = RemoveError { not_found: false, text: "denied".to_string() };
    let r = s.remove_file_if_exists("/x", Err(denied)).unwrap();
    assert_eq!(r.err.as_deref(), Some("ztch: could not remove '/x': denied\n"));
    assert_eq!(r.level, LogLevel::Warn);
}

#[test]
fn only_the_dead_are_removed() {
    let stale = Contact { entry: socket("a", 0o600), connected: Some(Err(111)) };
    let paths = rm_stale_sockets(&stale, "/run/s").unwrap();
    assert_eq!(paths, ("/run/s/a".to_string(), "/run/s/a.log".to_string()));
    let live = Contact { entry: socket("a", 0o600), connected: Some(Ok(())) };
    assert!(rm_stale_sockets(&live, "/run/s").is_none());
    let other = Contact { entry: socket("a", 0o600), connected: Some(Err(13)) };
    assert!(rm_stale_sockets(&other, "/run/s").is_none());
    let hidden = Contact { entry: socket(".a", 0o600), connected: Some(Err(111)) };
    assert!(rm_stale_sockets(&hidden, "/run/s").is_none());
    let log = |name: &str, socket_exists| LogEntry {
        entry: Entry { name: name.to_string(), meta: None },
        socket_exists,
    };
    assert_eq!(rm_orphaned_logs(&log("b.log", false)).as_deref(), Some("b"));
    assert_eq!(rm_orphaned_logs(&log("b.log", true)), None);
    assert_eq!(rm_orphaned_logs(&log(".ztch-app.log", false)), None);
    let s = session();
    assert_eq!(s.removed_one("b").out.as_deref(), Some("ztch: removed b\n"));
    let mut removal = Removal::new();
    assert_eq!(out(&s.rm(&removal)).unwrap(), "ztch: nothing to remove\n");
    assert_eq!(s.rm(&removal).code, 0);
    assert_eq!(removal.stale(&stale, "/run/s"), Some(paths));
    assert_eq!(removal.stale(&live, "/run/s"), None);
    assert_eq!(removal.stale(&hidden, "/run/s"), None);
    assert_eq!(removal.count, 1);
    assert_eq!(removal.orphaned(&log("b.log", false)).as_deref(), Some("b"));
    assert_eq!(removal.orphaned(&log("c.log", true)), None);
    assert_eq!(removal.orphaned(&log("d.log", false)).as_deref(), Some("d"));
    assert_eq!(removal.count, 3);
    assert_eq!(out(&s.rm(&removal)).unwrap(), "ztch: 3 session(s) removed\n");
    assert_eq!(s.rm(&removal).code, 0);
}

fn remove_left_over(dir: &mut Vec<String>, removal: &mut Removal) -> Vec<String> {
    let order = dir.clone();
    let mut gone = Vec::new();
    for name in order {
        let socket_exists = dir.iter().any(|n| name == format!("{}.log", n));
        let entry = Entry { name: name.clone(), meta: None };
        if removal.orphaned(&LogEntry { entry, socket_exists }).is_some() {
            dir.retain(|n| *n != name);
            gone.push(name);
        }
    }
    gone
}

#[test]
fn left_over_logs_are_removed_at_once() {
    let names = ["a", "a.log", "b.log", ".ztch-app.log", ".log", "c.txt", ".d.log", "e.log.log"];
    let mut dir: Vec<String> = names.iter().map(|n| n.to_string()).collect();
    let mut removal = Removal::new();
    let gone = remove_left_over(&mut dir, &mut removal);
    assert_eq!(gone, ["b.log", ".d.log", "e.log.log"]);
    assert_eq!(removal.count, 3);
    assert_eq!(dir, ["a", "a.log", ".ztch-app.log", ".log", "c.txt"]);
    let mut again = Removal::new();
    assert!(remove_left_over(&mut dir, &mut again).is_empty());
    assert_eq!(again.count, 0);
}

#[test]
fn replaying_the_log() {
    let s = session();
    assert!(matches!(
        s.replay_log(0, Ok(b"x".to_vec())),
        ReplayLogStep::Show(ref d) if d == b"x"
    ));
    match s.replay_log(0, Ok(vec![])) {
        ReplayLogStep::End(r, e) => assert!(r.is_none() && e.is_none()),
        _ => panic!("went on"),
    }
    match s.replay_log(libc::ECONNREFUSED, Err("bad".to_string())) {
        ReplayLogStep::End(r, e) => {
            assert_eq!(
                r.unwrap().err.as_deref(),
                Some("ztch: error reading log for 'foo': bad\n")
            );
            assert_eq!(
                e.as_deref(),
                Some("\r\n[ztch: session 'foo' ended unexpectedly]\r\n\n")
            );
        }
        _ => panic!("went on"),
    }
}

#[test]
fn current_session() {
    let s = session();
    let l = s.cmd_current(Some("/run/s/a:/run/s/b"));
    assert_eq!(out(&l).unwrap(), "b\n");
    assert_eq!(message(&l), "current session 'b'");
    assert_eq!(l.code, 0);
    for chain in [None, Some("")] {
        let l = s.cmd_current(chain);
        assert_eq!(err(&l).unwrap(), "ztch: not in a session\n");
        assert_eq!(l.code, 1);
    }
    let inside = s.chain(Some("/run/s/a"));
    assert_eq!(out(&s.cmd_current(Some(&inside))).unwrap(), "foo\n");
}

#[test]
fn terminal_attributes_are_saved() {
    let (t, failed) = save_term(Some(term()));
    assert_eq!((t.iflag, t.cc[libc::VSUSP], failed), (1, 26, false));
    let (t, failed) = save_term(None);
    assert_eq!((t.iflag, t.oflag, t.cflag, t.lflag, t.cc, failed), (0, 0, 0, 0, [0; 32], true));
}

#[test]
fn attaching_needs_a_terminal() {
    let mut s = session();
    assert!(s.cmd_attach("bar", &env(), Some(term())).is_none());
    assert_eq!(s.sockname, "/home/u/.cache/ztch/bar");
    assert_eq!(s.orig_term.lflag, 4);
    assert!(!s.dont_have_tty);
    let l = s.cmd_attach("/x/y", &env(), None).unwrap();
    assert_eq!(err(&l).unwrap(), "ztch: attaching to a session requires a terminal.\n");
    assert_eq!(l.code, 1);
    assert_eq!(s.sockname, "/x/y");
    assert!(s.dont_have_tty);
}

#[test]
fn after_creating_a_session() {
    let mut s = session();
    match s.created(0) {
        AfterSpawn::Attach(r) => {
            assert_eq!(r.out.as_deref(), Some("ztch: session 'foo' created\n"));
        }
        _ => panic!("not attached"),
    }
    match s.created(1) {
        AfterSpawn::Done(l) => assert!(l.report.is_none() && l.code == 1),
        _ => panic!("went on"),
    }
    s.dont_have_tty = true;
    match s.created(0) {
        AfterSpawn::Stop(_, l) => assert_eq!(l.code, 1),
        _ => panic!("went on"),
    }
    let l = s.started(0);
    assert_eq!((out(&l).unwrap().as_str(), l.code), ("ztch: session 'foo' started\n", 0));
    assert_eq!(s.started(5).code, 1);
}

#[test]
fn new_sessions_are_set_up() {
    let words = vec!["vi".to_string()];
    let mut s = session();
    let cmd = s.cmd_new("bar", &words, None, &env(), Some(term()));
    assert_eq!(cmd, Some(vec![b"vi".to_vec()]));
    assert_eq!(s.sockname, "/home/u/.cache/ztch/bar");
    assert!(!s.dont_have_tty);
    let cmd = s.cmd_start("baz", &vec![], Some("/bin/ksh"), &env(), None);
    assert_eq!(cmd, Some(vec![b"/bin/ksh".to_vec()]));
    assert_eq!(s.sockname, "/home/u/.cache/ztch/baz");
    assert!(s.dont_have_tty);
    let cmd = s.cmd_run("/x/y", &vec!["\0".to_string()], None, &env(), Some(term()));
    assert_eq!(cmd, None);
    assert_eq!(s.sockname, "/x/y");
    assert!(!s.dont_have_tty);
}

#[test]
fn implicit_attachment() {
    assert_eq!(session().implicit_attach(0), Implicit::Done(0));
    assert_eq!(
        session().implicit_attach(libc::ECONNREFUSED),
        Implicit::Create { errno: 111, remove_socket: true }
    );
    assert_eq!(
        session().implicit_attach(libc::ENOENT),
        Implicit::Create { errno: 2, remove_socket: false }
    );
    assert_eq!(session().implicit_attach(13), Implicit::Done(1));
}

#[test]
fn command_or_shell() {
    let words = vec!["vi".to_string(), "x y".to_string()];
    assert_eq!(
        use_shell_if_no_cmd(&words, Some("/bin/zsh")),
        Some(vec![b"vi".to_vec(), b"x y".to_vec()])
    );
    assert_eq!(use_shell_if_no_cmd(&vec![], Some("/bin/zsh")), Some(vec![b"/bin/zsh".to_vec()]));
    assert_eq!(use_shell_if_no_cmd(&vec![], Some("")), Some(vec![b"/bin/sh".to_vec()]));
    assert_eq!(use_shell_if_no_cmd(&vec![], None), Some(vec![b"/bin/sh".to_vec()]));
    assert_eq!(use_shell_if_no_cmd(&vec!["a\0".to_string()], None), None);
}
