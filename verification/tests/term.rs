use ztch::sys::{exit_code_of, is_socket};
use ztch::term::{
    initial_winsize, is_raw, raw_terminal, suspend_char, winsize_from_bytes, winsize_to_bytes,
    Termios, WinSize,
};

fn termios(flags: u32) -> Termios {
    let mut cc = [7u8; 32];
    cc[libc::VSUSP] = 26;
    Termios { iflag: flags, oflag: flags, cflag: flags, lflag: flags, cc }
}

#[test]
fn winsize_survives_the_wire() {
    let ws = WinSize { row: 24, col: 80, xpixel: 0x1234, ypixel: 65535 };
    let bytes = winsize_to_bytes(ws);
    assert_eq!(bytes, [24, 0, 80, 0, 0x34, 0x12, 0xff, 0xff]);
    assert_eq!(winsize_from_bytes(&bytes), ws);
    assert_eq!(bytes[0..2], 24u16.to_le_bytes());
}

#[test]
fn initial_winsize_defaults() {
    let none = WinSize { row: 0, col: 0, xpixel: 0, ypixel: 0 };
    assert_eq!(initial_winsize(none), WinSize { row: 24, col: 80, xpixel: 0, ypixel: 0 });
    let some = WinSize { row: 50, col: 132, xpixel: 1, ypixel: 2 };
    assert_eq!(initial_winsize(some), some);
    let half = WinSize { row: 50, col: 0, xpixel: 1, ypixel: 2 };
    assert_eq!(initial_winsize(half), WinSize { row: 50, col: 80, xpixel: 1, ypixel: 2 });
}

#[test]
fn raw_terminal_flags() {
    let raw = raw_terminal(&termios(u32::MAX));
    let off = libc::IGNBRK
        | libc::BRKINT
        | libc::PARMRK
        | libc::ISTRIP
        | libc::INLCR
        | libc::IGNCR
        | libc::ICRNL
        | libc::IXON
        | libc::IXOFF;
    assert_eq!(raw.iflag, !off);
    assert_eq!(raw.oflag, u32::MAX);
    assert_eq!(
        raw.lflag,
        !(libc::ECHO | libc::ECHONL | libc::ICANON | libc::ISIG | libc::IEXTEN)
    );
    assert_eq!(raw.cflag, !(libc::CSIZE | libc::PARENB) | libc::CS8);
    assert_eq!(raw.cc[libc::VMIN], 1);
    assert_eq!(raw.cc[libc::VTIME], 0);
    assert_eq!(raw.cc[0], 7);

    let raw = raw_terminal(&termios(0));
    assert_eq!((raw.iflag, raw.oflag, raw.lflag), (0, libc::OPOST, 0));
    assert_eq!(raw.cflag, libc::CS8);
}

#[test]
fn raw_mode_takes_raw_input() {
    let orig = termios(u32::MAX);
    assert!(!is_raw(Some(orig)));
    let raw = raw_terminal(&orig);
    assert!(is_raw(Some(raw)));
    assert_eq!(suspend_char(&raw), 26);
    assert!(!is_raw(None));
    let mut more = raw;
    more.cc[libc::VMIN] = 2;
    assert!(!is_raw(Some(more)));
    let mut echoing = raw;
    echoing.lflag |= libc::ECHO;
    assert!(!is_raw(Some(echoing)));
    let mut lines = raw;
    lines.lflag |= libc::ICANON;
    assert!(!is_raw(Some(lines)));
}

#[test]
fn exit_codes() {
    assert_eq!(exit_code_of(0), 0);
    assert_eq!(exit_code_of(3 << 8), 3);
    assert_eq!(exit_code_of(255 << 8), 255);
    assert_eq!(exit_code_of(9), 1);
    assert_eq!(exit_code_of(libc::SIGTERM), 1);
}

#[test]
fn socket_modes() {
    assert!(is_socket(libc::S_IFSOCK | 0o600));
    assert!(is_socket(0o140755));
    assert!(!is_socket(libc::S_IFREG | 0o600));
    assert!(!is_socket(libc::S_IFDIR));
    assert!(!is_socket(0));
}
