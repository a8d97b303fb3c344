use ztch::app_log::{
    escape_line, fmt_age, fmt_age_at, timestamp_of, unix_timestamp, AppLog, LogLevel,
    APP_LOG_FILE_NAME, APP_LOG_MAX_SIZE,
};
use ztch::protocol::format_age;
use ztch::report::{banner_of, line_of, Report};
use ztch::session_log::{log_path_of, rotate, Rotation, SessionLog, LOG_MODE};
use ztch::text::{decimal, pad, signed_decimal, text_from, trim_end};
use ztch::util::Env;

/// Cut the contents of a file back as a rotation says.
fn rotated(contents: &[u8], max_size: usize) -> Vec<u8> {
    let how = rotate(contents.len() as u64, max_size);
    let read = match how {
        Rotation::KeepTail { offset, len } => {
            contents[offset as usize..offset as usize + len].to_vec()
        }
        _ => Vec::new(),
    };
    match how.new_contents(read) {
        Some(new) => new,
        None => contents.to_vec(),
    }
}

#[test]
fn escape_line_makes_one_line() {
    assert_eq!(escape_line("a\r\nb"), "a\\r\\nb");
}

#[test]
fn escape_line_leaves_plain_text() {
    assert_eq!(escape_line("tab\tand \u{e9}"), "tab\tand \u{e9}");
    assert_eq!(escape_line(""), "");
}

#[test]
fn rotate_file_keeps_tail() {
    assert_eq!(rotated(b"aaaabbbbcccc", 8), b"bbbbcccc".to_vec());
}

#[test]
fn rotate_trims_to_max_size() {
    let max = 32usize;
    let mut contents = b"AAAAAAAAAAAAAAAAAAAAAAAAAAAAAAAA".to_vec();
    contents.extend_from_slice(b"BBBBBBBBBBBBBBBBBBBBBBBBBBBBBBBB");
    let (log, how) = SessionLog::open(contents.len() as u64, max);
    assert_eq!(log.max_size, max);
    assert_eq!(how, Rotation::KeepTail { offset: 32, len: 32 });
    let mut buf = rotated(&contents, max);
    buf.extend_from_slice(b"CC");
    assert!(buf.len() <= max + 2);
    assert!(buf.ends_with(b"CC"));
    assert_eq!(buf[0], b'B');
    assert_eq!(rotated(&rotated(&contents, max), max), rotated(&contents, max));
}

#[test]
fn rotate_noop_when_under_max() {
    assert_eq!(rotated(b"small", 1024), b"small".to_vec());
    assert_eq!(rotate(1024, 1024), Rotation::Keep);
}

#[test]
fn rotate_to_nothing() {
    assert_eq!(rotate(5, 0), Rotation::Clear);
    assert_eq!(rotated(b"small", 0), Vec::<u8>::new());
    assert_eq!(rotate(0, 0), Rotation::Keep);
}

#[test]
fn rotation_leaves_a_file_that_cannot_be_read() {
    let how = Rotation::KeepTail { offset: 3, len: 4 };
    assert_eq!(how.new_contents(vec![]), None);
    assert_eq!(how.new_contents(vec![1, 2]), Some(vec![1, 2]));
}

#[test]
fn debug_format() {
    let (log, _) = SessionLog::open(0, 42);
    let s = format!("{:?}", log);
    assert!(s.contains("SessionLog"));
    assert!(s.contains("42"));
}

#[test]
fn end_of_session_marker() {
    let (log, _) = SessionLog::open(0, 42);
    assert_eq!(log.close("ztch", "/run/s/foo"), "\r\n[ztch: session 'foo' ended]\r\n");
    assert_eq!(log_path_of("/run/s/foo"), "/run/s/foo.log");
    assert_eq!(LOG_MODE, 0o600);
}

#[test]
fn app_log_record_line() {
    let env = Env { home: Some("/home/u".to_string()), pid: 1 };
    let log = AppLog::new("/usr/bin/ztch", &env);
    assert_eq!(log.progname(), "/usr/bin/ztch");
    assert_eq!(log.path(), "/home/u/.cache/ztch/.ztch-app.log");
    assert_eq!(log.record(1700000000, LogLevel::Warn, "a\nb"), "1700000000 WARN a\\nb\n");
    assert_eq!(log.record(0, LogLevel::Info, ""), "0 INFO \n");
    assert_eq!(log.record(7, LogLevel::Error, "x"), "7 ERROR x\n");
    let copy = log.clone();
    assert_eq!(copy.path(), log.path());
    assert_eq!(copy.progname(), log.progname());
    assert_eq!(APP_LOG_FILE_NAME, ".ztch-app.log");
    assert_eq!(APP_LOG_MAX_SIZE, 262144);
}

#[test]
fn clock_is_past_the_epoch() {
    let t = unix_timestamp();
    assert!(t > 1_600_000_000);
    assert!(unix_timestamp() >= t);
    assert_eq!(timestamp_of(None), 0);
    assert_eq!(timestamp_of(Some(5)), 5);
}

#[test]
fn ages() {
    assert_eq!(fmt_age_at(100, 161), "1m 1s");
    assert_eq!(fmt_age_at(161, 100), "0s");
    assert_eq!(fmt_age(u64::MAX), "0s");
    let now = unix_timestamp();
    assert!(fmt_age(now - 86400).starts_with("1d 0h 0m "));
    assert_eq!(format_age(61), fmt_age_at(0, 61));
}

#[test]
fn report_forms() {
    let r = Report::printed("ztch", LogLevel::Info, "done".to_string());
    assert_eq!(r.out.as_deref(), Some("ztch: done\n"));
    assert_eq!(r.err, None);
    assert_eq!(r.message, "done");
    let r = Report::warned("ztch", LogLevel::Warn, "careful".to_string());
    assert_eq!(r.err.as_deref(), Some("ztch: careful\n"));
    assert_eq!(r.out, None);
    let r = Report::silent(LogLevel::Error, "quiet".to_string());
    assert_eq!((r.out, r.err), (None, None));
    assert_eq!(line_of("p", "m"), "p: m\n");
    assert_eq!(banner_of("p", "m"), "\r\n[p: m]\r\n\n");
}

#[test]
fn text_helpers() {
    assert_eq!(decimal(0), "0");
    assert_eq!(decimal(u64::MAX), "18446744073709551615");
    assert_eq!(signed_decimal(-42), "-42");
    assert_eq!(signed_decimal(i32::MIN), "-2147483648");
    assert_eq!(pad("ab", 4), "ab  ");
    assert_eq!(pad("abcdef", 4), "abcdef");
    assert_eq!(trim_end("a b \r\n"), "a b");
}

#[test]
fn bytes_read_as_text() {
    assert_eq!(text_from(b"attached: 1\n"), "attached: 1\n");
    assert_eq!(text_from("h\u{e9}".as_bytes()), "h\u{e9}");
    assert_eq!(text_from(b"a\xffb"), "a\u{fffd}b");
}
