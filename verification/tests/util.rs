use ztch::util::{
    cstr, expand_sockname, find_tail_start, get_session_dir, parse_escape_char, parse_size,
    scan_size, session_envvar_name, session_shortname, Env, SizeText, TailScan, TailStep,
};

fn env(home: &str) -> Env {
    Env { home: Some(home.to_string()), pid: 4711 }
}

#[test]
fn cstr_normal() {
    let c = cstr("hello").unwrap();
    assert_eq!(&c[..], b"hello");
}

#[test]
fn cstr_empty() {
    let c = cstr("").unwrap();
    assert_eq!(&c[..], b"");
}

#[test]
fn cstr_with_null_byte() {
    assert_eq!(cstr("a\0b"), None);
    assert_eq!(cstr("h\u{e9}").unwrap(), "h\u{e9}".as_bytes().to_vec());
}

#[test]
fn shortname_basename() {
    assert_eq!(session_shortname("/a/b/mysession"), "mysession");
}

#[test]
fn shortname_no_slash() {
    assert_eq!(session_shortname("mysession"), "mysession");
}

#[test]
fn shortname_trailing_slash() {
    assert_eq!(session_shortname("dir/"), "");
}

#[test]
fn shortname_root() {
    assert_eq!(session_shortname("/"), "");
}

#[test]
fn envvar_name_simple() {
    assert_eq!(session_envvar_name("ztch"), "ZTCH_SESSION");
}

#[test]
fn envvar_name_with_hyphen() {
    assert_eq!(session_envvar_name("my-term"), "MY_TERM_SESSION");
}

#[test]
fn envvar_name_with_path() {
    assert_eq!(session_envvar_name("/usr/local/bin/ztch"), "ZTCH_SESSION");
}

#[test]
fn envvar_name_numbers() {
    assert_eq!(session_envvar_name("ztch2"), "ZTCH2_SESSION");
}

#[test]
fn envvar_name_is_plain() {
    assert_eq!(session_envvar_name("b\u{fc}ro.X"), "B_RO_X_SESSION");
    assert_eq!(session_envvar_name(""), "_SESSION");
}

#[test]
fn parse_size_plain_number() {
    assert_eq!(parse_size("1024"), Some(1024));
}

#[test]
fn parse_size_kibibyte() {
    assert_eq!(parse_size("1k"), Some(1024));
    assert_eq!(parse_size("128K"), Some(131072));
}

#[test]
fn parse_size_mebibyte() {
    assert_eq!(parse_size("1m"), Some(1048576));
    assert_eq!(parse_size("4M"), Some(4194304));
}

#[test]
fn parse_size_trimmed() {
    assert_eq!(parse_size("  2k  "), Some(2048));
}

#[test]
fn parse_size_empty() {
    assert_eq!(parse_size(""), None);
}

#[test]
fn parse_size_bad_number() {
    assert_eq!(parse_size("abc"), None);
}

#[test]
fn parse_size_odd_forms() {
    assert_eq!(parse_size("0"), Some(0));
    assert_eq!(parse_size("+7k"), Some(7168));
    assert_eq!(parse_size("007"), Some(7));
    assert_eq!(parse_size("+"), None);
    assert_eq!(parse_size("-1"), None);
    assert_eq!(parse_size("k"), None);
    assert_eq!(parse_size("1kk"), None);
    assert_eq!(parse_size("1 k"), None);
    assert_eq!(parse_size("\u{2003}3m\n"), Some(3145728));
    assert_eq!(parse_size("18446744073709551615"), Some(18446744073709551615));
    assert_eq!(parse_size("18446744073709551616"), None);
}

#[test]
fn scan_size_tells_what_does_not_fit() {
    assert_eq!(scan_size("18446744073709551615"), SizeText::Bytes(usize::MAX));
    assert_eq!(scan_size("18446744073709551615k"), SizeText::TooLarge);
    assert_eq!(scan_size("18446744073709551616k"), SizeText::Invalid);
    assert_eq!(scan_size("17592186044416m"), SizeText::TooLarge);
    assert_eq!(scan_size("17592186044415m"), SizeText::Bytes(18446744073708503040));
}

#[test]
fn parse_escape_char_caret_backslash() {
    assert_eq!(parse_escape_char("^\\"), 0x1c);
}

#[test]
fn parse_escape_char_caret_question() {
    assert_eq!(parse_escape_char("^?"), 0x7f);
}

#[test]
fn parse_escape_char_caret_c() {
    assert_eq!(parse_escape_char("^C"), 3);
}

#[test]
fn parse_escape_char_literal() {
    assert_eq!(parse_escape_char("x"), b'x' as i32);
}

#[test]
fn parse_escape_char_empty() {
    assert_eq!(parse_escape_char(""), 0);
}

#[test]
fn parse_escape_char_odd_forms() {
    assert_eq!(parse_escape_char("^"), 0x5e);
    assert_eq!(parse_escape_char("^a"), 1);
    assert_eq!(parse_escape_char("^ab"), 1);
    assert_eq!(parse_escape_char("\u{e9}"), 0xc3);
    assert_eq!(parse_escape_char("^\u{e9}"), 3);
}

#[test]
fn find_tail_start_empty_file() {
    assert_eq!(find_tail_start(b"", 10), 0);
}

#[test]
fn find_tail_start_fewer_lines() {
    assert_eq!(find_tail_start(b"line1\n", 10), 0);
}

#[test]
fn find_tail_start_exact_lines() {
    assert_eq!(find_tail_start(b"a\nb\nc\n", 2), 2);
}

#[test]
fn find_tail_start_other_counts() {
    assert_eq!(find_tail_start(b"a\nb\nc\n", 0), 6);
    assert_eq!(find_tail_start(b"a\nb\nc\n", 1), 4);
    assert_eq!(find_tail_start(b"a\nb\nc\n", 3), 0);
    assert_eq!(find_tail_start(b"a\nb\nc", 1), 4);
    assert_eq!(find_tail_start(b"a\nb\nc\n", -1), 0);
    assert_eq!(find_tail_start(b"a\nb\nc\n", i32::MAX), 0);
}

#[test]
fn find_tail_start_with_an_open_line() {
    assert_eq!(find_tail_start(b"a\nb\nc", 2), 2);
    assert_eq!(find_tail_start(b"a\nb\nc", 3), 0);
    assert_eq!(find_tail_start(b"a\nb\nc", 4), 0);
    assert_eq!(find_tail_start(b"a\nb\nc", 0), 4);
    assert_eq!(find_tail_start(b"abc", 1), 0);
    assert_eq!(find_tail_start(b"\nabc", 1), 1);
    assert_eq!(find_tail_start(b"a\n\n", 1), 2);
    let mut content: Vec<u8> = Vec::new();
    for i in 0..3000 {
        content.extend_from_slice(format!("line {}\n", i).as_bytes());
    }
    content.extend_from_slice(b"prompt$ ");
    let start = find_tail_start(&content, 1500) as usize;
    assert!(content[start..].starts_with(b"line 1501\n"));
}

#[test]
fn find_tail_start_over_several_chunks() {
    let mut content: Vec<u8> = Vec::new();
    for i in 0..3000 {
        content.extend_from_slice(format!("line {}\n", i).as_bytes());
    }
    let start = find_tail_start(&content, 1500) as usize;
    assert!(content[start..].starts_with(b"line 1500\n"));
    assert_eq!(content[start..].iter().filter(|b| **b == b'\n').count(), 1500);
}

#[test]
fn tail_search_asks_for_chunks_from_the_end() {
    let mut scan = TailScan::new(5000, 1);
    assert_eq!(scan.next(), TailStep::Read { pos: 904, len: 4096 });
    scan.feed(&vec![b'x'; 4096]);
    assert_eq!(scan.next(), TailStep::Read { pos: 0, len: 904 });
    scan.feed(b"ab\ncd\nef");
    assert_eq!(scan.next(), TailStep::Done(6));
    let mut scan = TailScan::new(5000, 1);
    scan.feed(b"");
    assert_eq!(scan.next(), TailStep::Done(0));
    assert_eq!(TailScan::new(0, 3).next(), TailStep::Done(0));
}

#[test]
fn get_session_dir_uses_home() {
    let d = get_session_dir("testprog", &env("/tmp/test_session_home"));
    assert!(d.contains("/tmp/test_session_home/.cache/testprog"));
}

#[test]
fn get_session_dir_without_home() {
    assert_eq!(get_session_dir("/bin/ztch", &Env { home: None, pid: 7 }), "/tmp/.ztch-7");
    assert_eq!(get_session_dir("ztch", &env("")), "/tmp/.ztch-4711");
    assert_eq!(get_session_dir("ztch", &env("/")), "/tmp/.ztch-4711");
    assert_eq!(get_session_dir("/bin/ztch", &env("/home/u/")), "/home/u/.cache/ztch");
}

#[test]
fn expand_sockname_absolute_passthrough() {
    assert_eq!(expand_sockname("ztch", "/absolute/path", &env("/home/u")), "/absolute/path");
}

#[test]
fn expand_sockname_plain_name() {
    let e = env("/home/u");
    let path = expand_sockname("/usr/bin/ztch", "work", &e);
    assert_eq!(path, "/home/u/.cache/ztch/work");
    assert_eq!(session_shortname(&path), "work");
    assert_eq!(expand_sockname("/usr/bin/ztch", &path, &e), path);
    assert_eq!(expand_sockname("ztch", "./here", &e), "./here");
}
