use ztch::app_log::LogLevel;
use ztch::cli::{
    clear_outcome, cmd_clear, cmd_detach, cmd_kill, cmd_push, cmd_rm, cmd_tail, first_word,
    resolve_session_name, session_from_global, usage, DetachPlan, FirstWord, GlobalArgs,
    OpenError, Tail, TailDo, TailEvent,
};
use ztch::protocol::{ClearMethod, RedrawMethod, LOG_MAX_SIZE};
use ztch::session::{Leave, Session};
use ztch::util::Env;

fn env() -> Env {
    Env { home: Some("/home/u".to_string()), pid: 9 }
}

fn global() -> GlobalArgs {
    GlobalArgs {
        escape: None,
        disable_escape: false,
        no_suspend: false,
        quiet: false,
        no_ansiterm: false,
        redraw: None,
        clear: None,
        log_cap: None,
    }
}

fn session() -> Session {
    session_from_global(&global(), "ztch", "ZTCH_SESSION", &env())
}

fn err(l: &Leave) -> String {
    l.report.as_ref().unwrap().err.clone().unwrap()
}

fn out(l: &Leave) -> String {
    l.report.as_ref().unwrap().out.clone().unwrap()
}

fn some(s: &str) -> Option<String> {
    Some(s.to_string())
}

#[test]
fn options_by_default() {
    let s = session();
    assert_eq!(s.progname, "ztch");
    assert_eq!(s.session_envvar, "ZTCH_SESSION");
    assert_eq!(s.app_log.path(), "/home/u/.cache/ztch/.ztch-app.log");
    assert_eq!(s.sockname, "");
    assert_eq!(s.detach_char, 0x1c);
    assert_eq!(s.redraw_method, RedrawMethod::Unspec);
    assert_eq!(s.clear_method, ClearMethod::Unspec);
    assert_eq!(s.log_max_size, LOG_MAX_SIZE);
    assert_eq!(s.log_max_size, 1048576);
    assert!(!s.no_suspend && !s.quiet && !s.no_ansiterm && !s.dont_have_tty);
}

#[test]
fn options_that_are_set() {
    let mut g = global();
    g.escape = some("^A");
    g.no_suspend = true;
    g.quiet = true;
    g.no_ansiterm = true;
    g.redraw = some("ctrl_l");
    g.clear = some("move");
    g.log_cap = some("128k");
    let s = session_from_global(&g, "p", "P_SESSION", &env());
    assert_eq!(s.detach_char, 1);
    assert!(s.no_suspend && s.quiet && s.no_ansiterm);
    assert_eq!(s.redraw_method, RedrawMethod::CtrlL);
    assert_eq!(s.clear_method, ClearMethod::Move);
    assert_eq!(s.log_max_size, 131072);

    g.disable_escape = true;
    g.redraw = some("winch");
    g.clear = some("none");
    g.log_cap = some("0");
    let s = session_from_global(&g, "p", "P_SESSION", &env());
    assert_eq!(s.detach_char, -1);
    assert_eq!(s.redraw_method, RedrawMethod::Winch);
    assert_eq!(s.clear_method, ClearMethod::NoClear);
    assert_eq!(s.log_max_size, 0);

    g.redraw = some("none");
    g.clear = some("sideways");
    g.log_cap = some("lots");
    let s = session_from_global(&g, "p", "P_SESSION", &env());
    assert_eq!(s.redraw_method, RedrawMethod::NoRedraw);
    assert_eq!(s.clear_method, ClearMethod::Unspec);
    assert_eq!(s.log_max_size, LOG_MAX_SIZE);
    g.redraw = some("None");
    assert_eq!(
        session_from_global(&g, "p", "P_SESSION", &env()).redraw_method,
        RedrawMethod::Unspec
    );
}

#[test]
fn session_that_is_meant() {
    assert_eq!(resolve_session_name(&some("x"), Some("/a:/b")), "x");
    assert_eq!(resolve_session_name(&None, Some("/a:/b")), "/b");
    assert_eq!(resolve_session_name(&None, Some("/a")), "/a");
    assert_eq!(resolve_session_name(&None, Some("")), "");
    assert_eq!(resolve_session_name(&None, None), "");
}

#[test]
fn push_and_kill_targets() {
    let mut s = session();
    cmd_push(&mut s, "work", &env());
    assert_eq!(s.sockname, "/home/u/.cache/ztch/work");
    assert!(cmd_kill(&mut s, &some("other"), None, &env()).is_none());
    assert_eq!(s.sockname, "/home/u/.cache/ztch/other");
    assert!(cmd_kill(&mut s, &None, Some("/run/a:/run/b"), &env()).is_none());
    assert_eq!(s.sockname, "/run/b");
    let l = cmd_kill(&mut s, &None, None, &env()).unwrap();
    assert_eq!(err(&l), "ztch: no session specified and ZTCH_SESSION is not set\n");
    assert_eq!(l.code, 1);
    assert_eq!(s.sockname, "/run/b");
}

#[test]
fn detach_targets() {
    let mut s = session();
    assert!(matches!(cmd_detach(&mut s, &some("x"), true, None, &env()), DetachPlan::All));
    assert_eq!(s.sockname, "");
    assert!(matches!(cmd_detach(&mut s, &some("x"), false, None, &env()), DetachPlan::One));
    assert_eq!(s.sockname, "/home/u/.cache/ztch/x");
    match cmd_detach(&mut s, &some(""), false, Some("/run/b"), &env()) {
        DetachPlan::Done(l) => assert_eq!(l.code, 1),
        _ => panic!("went on"),
    }
}

#[test]
fn clearing_the_log() {
    let mut s = session();
    assert_eq!(cmd_clear(&mut s, &None, Some("/run/b"), &env()), "/run/b.log");
    assert_eq!(out(&clear_outcome(&s, Ok(()))), "ztch: session 'b' log cleared\n");
    assert_eq!(clear_outcome(&s, Ok(())).code, 0);
    let missing = OpenError { not_found: true, text: "x".to_string() };
    let l = clear_outcome(&s, Err(missing));
    assert!(l.report.is_none() && l.code == 0);
    let denied = OpenError { not_found: false, text: "denied".to_string() };
    let l = clear_outcome(&s, Err(denied));
    assert_eq!(err(&l), "ztch: /run/b.log: denied\n");
    assert_eq!(l.code, 1);
    s.quiet = true;
    assert_eq!(clear_outcome(&s, Ok(())).report.unwrap().out, None);
    assert_eq!(cmd_clear(&mut s, &None, None, &env()), "/home/u/.cache/ztch/.log");
}

#[test]
fn what_to_remove() {
    let mut s = session();
    let p = cmd_rm(&mut s, &some("x"), true, &env());
    assert!(p.all);
    let w = p.warning.unwrap();
    assert_eq!(w.level, LogLevel::Warn);
    assert_eq!(
        w.err.as_deref(),
        Some(
            "ztch: warning: session name is ignored when -a is used; removing all stale sessions\n"
        )
    );
    assert_eq!(s.sockname, "");
    let p = cmd_rm(&mut s, &None, false, &env());
    assert!(p.all && p.warning.is_none());
    let p = cmd_rm(&mut s, &some("x"), false, &env());
    assert!(!p.all && p.warning.is_none());
    assert_eq!(s.sockname, "/home/u/.cache/ztch/x");
}

/// Read at most `len` bytes from `at` on.
fn read(all: &[u8], at: &mut usize, len: usize) -> Vec<u8> {
    let to = (*at + len).min(all.len());
    let b = all[*at..to].to_vec();
    *at = to;
    b
}

/// Show the last lines of a log with these contents; what is appended comes
/// with the first wait.
fn tail(mut t: Tail, contents: &[u8], appended: &[u8]) -> (Vec<u8>, Vec<String>) {
    let s = session();
    let mut all = contents.to_vec();
    let mut at = 0usize;
    let mut shown: Vec<u8> = Vec::new();
    let mut waits: Vec<String> = Vec::new();
    let mut event = TailEvent::Opened(Ok(()));
    loop {
        event = match t.step(&s.app_log, event) {
            TailDo::FindSize => TailEvent::Sized(contents.len() as u64),
            TailDo::ReadAt { pos, len } => {
                at = pos as usize;
                TailEvent::Read(read(&all, &mut at, len))
            }
            TailDo::ReadFrom(pos) => {
                at = pos as usize;
                TailEvent::Read(read(&all, &mut at, 4096))
            }
            TailDo::ReadOn => TailEvent::Read(read(&all, &mut at, 4096)),
            TailDo::Show(b) => {
                shown.extend_from_slice(&b);
                TailEvent::Read(read(&all, &mut at, 4096))
            }
            TailDo::Watch => TailEvent::Watched(waits.is_empty() && appended.len() > 3),
            TailDo::AwaitChange | TailDo::Sleep if !waits.is_empty() => return (shown, waits),
            TailDo::AwaitChange => {
                waits.push("watch".to_string());
                all.extend_from_slice(appended);
                TailEvent::Waited
            }
            TailDo::Sleep => {
                waits.push("sleep".to_string());
                all.extend_from_slice(appended);
                TailEvent::Waited
            }
            TailDo::Done(l) => {
                assert!(l.report.is_none() && l.code == 0);
                return (shown, waits);
            }
        };
    }
}

#[test]
fn last_lines_of_a_log() {
    let s = session();
    let (t, path) = cmd_tail(&s, "work", false, 2, &env());
    assert_eq!(path, "/home/u/.cache/ztch/work.log");
    assert_eq!(t.lines, 2);
    assert_eq!(tail(t, b"a\nb\nc\n", b"").0, b"b\nc\n".to_vec());
    let (t, _) = cmd_tail(&s, "work", false, 2, &env());
    assert_eq!(tail(t, b"a\nb\nc", b"").0, b"b\nc".to_vec());
    let (t, _) = cmd_tail(&s, "work", false, 0, &env());
    assert_eq!(t.lines, 1);
    assert_eq!(tail(t, b"a\nb\nc\n", b"").0, b"c\n".to_vec());
    let (t, _) = cmd_tail(&s, "work", false, 10, &env());
    assert_eq!(tail(t, b"", b"").0, Vec::<u8>::new());
    let mut long: Vec<u8> = Vec::new();
    for i in 0..4000 {
        long.extend_from_slice(format!("line {}\n", i).as_bytes());
    }
    let (t, _) = cmd_tail(&s, "work", false, 1000, &env());
    let shown = tail(t, &long, b"").0;
    assert!(shown.starts_with(b"line 3000\n") && shown.ends_with(b"line 3999\n"));
    assert!(long.ends_with(&shown));
}

#[test]
fn following_a_log() {
    let s = session();
    let (t, _) = cmd_tail(&s, "work", true, 1, &env());
    let (shown, waits) = tail(t, b"a\nb\n", b"more\n");
    assert_eq!(shown, b"b\nmore\n".to_vec());
    assert_eq!(waits, vec!["watch"]);
    let (t, _) = cmd_tail(&s, "work", true, 1, &env());
    let (shown, waits) = tail(t, b"", b"x\n");
    assert_eq!(shown, b"x\n".to_vec());
    assert_eq!(waits, vec!["sleep"]);
}

#[test]
fn log_that_cannot_be_opened() {
    let s = session();
    let (mut t, _) = cmd_tail(&s, "work", false, 1, &env());
    let missing = OpenError { not_found: true, text: "x".to_string() };
    match t.step(&s.app_log, TailEvent::Opened(Err(missing))) {
        TailDo::Done(l) => {
            assert_eq!(out(&l), "ztch: no log for session 'work'\n");
            assert_eq!(l.code, 1);
        }
        _ => panic!("went on"),
    }
    let (mut t, _) = cmd_tail(&s, "work", false, 1, &env());
    let denied = OpenError { not_found: false, text: "denied".to_string() };
    match t.step(&s.app_log, TailEvent::Opened(Err(denied))) {
        TailDo::Done(l) => {
            assert_eq!(err(&l), "ztch: /home/u/.cache/ztch/work.log: denied\n");
            assert_eq!(l.code, 1);
        }
        _ => panic!("went on"),
    }
}

#[test]
fn first_word_of_the_command_line() {
    let words = |w: &[&str]| -> Vec<String> { w.iter().map(|s| s.to_string()).collect() };
    match first_word(&words(&["ztch", "--version"])) {
        FirstWord::Version(l) => {
            assert_eq!(out(&l), "ztch - version dev\n");
            assert_eq!(l.code, 0);
        }
        _ => panic!("no version"),
    }
    assert!(matches!(first_word(&words(&["ztch", "?"])), FirstWord::Help));
    assert!(matches!(first_word(&words(&["ztch", "list"])), FirstWord::Command));
    assert!(matches!(first_word(&words(&["ztch"])), FirstWord::Command));
    let l = usage("ztch");
    assert_eq!(err(&l), "Try 'ztch --help' for usage\n");
    assert_eq!(l.code, 1);
}
