//! Terminal attributes and window sizes.

use crate::sys;
use vstd::prelude::*;

verus! {

/// The size of a terminal window.
#[derive(Clone, Copy, Debug, PartialEq, Eq, Structural)]
pub struct WinSize {
    pub row: u16,
    pub col: u16,
    pub xpixel: u16,
    pub ypixel: u16,
}

/// A window size as a packet's payload: rows, columns, width and height in
/// pixels, each as two bytes, the low one first.
pub open spec fn winsize_bytes(ws: WinSize) -> Seq<u8> {
    seq![
        (ws.row % 256) as u8,
        (ws.row / 256) as u8,
        (ws.col % 256) as u8,
        (ws.col / 256) as u8,
        (ws.xpixel % 256) as u8,
        (ws.xpixel / 256) as u8,
        (ws.ypixel % 256) as u8,
        (ws.ypixel / 256) as u8,
    ]
}

/// The payload that carries `ws`.
pub fn winsize_to_bytes(ws: WinSize) -> (r: [u8; 8])
    ensures
        r@ == winsize_bytes(ws),
{
    let r: [u8; 8] = [
        (ws.row % 256) as u8,
        (ws.row / 256) as u8,
        (ws.col % 256) as u8,
        (ws.col / 256) as u8,
        (ws.xpixel % 256) as u8,
        (ws.xpixel / 256) as u8,
        (ws.ypixel % 256) as u8,
        (ws.ypixel / 256) as u8,
    ];
    assert(r@ =~= winsize_bytes(ws));
    r
}

/// The number whose low byte is `lo` and whose high byte is `hi`.
fn from_two_bytes(lo: u8, hi: u8) -> (r: u16)
    ensures
        r == lo + 256 * hi,
{
    lo as u16 + hi as u16 * 256
}

/// The window size that a packet's payload carries.
pub open spec fn winsize_of(data: Seq<u8>) -> WinSize {
    WinSize {
        row: (data[0] + 256 * data[1]) as u16,
        col: (data[2] + 256 * data[3]) as u16,
        xpixel: (data[4] + 256 * data[5]) as u16,
        ypixel: (data[6] + 256 * data[7]) as u16,
    }
}

/// The window size that a packet's payload carries.
pub fn winsize_from_bytes(data: &[u8; 8]) -> (ws: WinSize)
    ensures
        ws == winsize_of(data@),
        winsize_bytes(ws) == data@,
{
    let ws: WinSize = WinSize {
        row: from_two_bytes(data[0], data[1]),
        col: from_two_bytes(data[2], data[3]),
        xpixel: from_two_bytes(data[4], data[5]),
        ypixel: from_two_bytes(data[6], data[7]),
    };
    assert(winsize_bytes(ws) =~= data@);
    ws
}

/// What the daemon reads out of a packet is what the client put into it.
pub proof fn winsize_survives_the_wire(ws: WinSize)
    ensures
        winsize_of(winsize_bytes(ws)) == ws,
{
}

/// The window size to start a session with: that of the terminal, with 24 rows
/// or 80 columns where it does not tell.
pub fn initial_winsize(ws: WinSize) -> (r: WinSize)
    ensures
        r == (WinSize {
            row: if ws.row == 0 {
                24
            } else {
                ws.row
            },
            col: if ws.col == 0 {
                80
            } else {
                ws.col
            },
            ..ws
        }),
{
    let mut r: WinSize = ws;
    if r.row == 0 {
        r.row = 24;
    }
    if r.col == 0 {
        r.col = 80;
    }
    r
}

/// The attributes of a terminal.
#[derive(Clone, Copy, Debug)]
pub struct Termios {
    /// Input flags.
    pub iflag: u32,
    /// Output flags.
    pub oflag: u32,
    /// Control flags.
    pub cflag: u32,
    /// Local flags.
    pub lflag: u32,
    /// Control characters.
    pub cc: [u8; 32],
}

/// The input flags that raw mode switches off.
pub open spec fn raw_iflag_off() -> u32 {
    sys::ignbrk() | sys::brkint() | sys::parmrk() | sys::istrip() | sys::inlcr() | sys::igncr()
        | sys::icrnl() | sys::ixon() | sys::ixoff()
}

/// The local flags that raw mode switches off.
pub open spec fn raw_lflag_off() -> u32 {
    sys::echo() | sys::echonl() | sys::icanon() | sys::isig() | sys::iexten()
}

impl Termios {
    /// Whether `raw` is this terminal in raw mode: no input processing and no
    /// echo, output processing on, characters of eight bits without parity, and
    /// reads that return as soon as one byte is there.
    pub open spec fn raw_mode(self, raw: Termios) -> bool {
        &&& raw.iflag == self.iflag & !raw_iflag_off()
        &&& raw.oflag == self.oflag | sys::opost()
        &&& raw.lflag == self.lflag & !raw_lflag_off()
        &&& raw.cflag == (self.cflag & !(sys::csize() | sys::parenb())) | sys::cs8()
        &&& raw.cc@ == self.cc@.update(sys::vmin() as int, 1u8).update(sys::vtime() as int, 0u8)
    }
}

/// The attributes `orig` changed to raw mode.
pub fn raw_terminal(orig: &Termios) -> (cur: Termios)
    ensures
        orig.raw_mode(cur),
{
    let mut cur: Termios = *orig;
    cur.iflag = cur.iflag & !(sys::libc_ignbrk() | sys::libc_brkint() | sys::libc_parmrk()
        | sys::libc_istrip() | sys::libc_inlcr() | sys::libc_igncr() | sys::libc_icrnl()
        | sys::libc_ixon() | sys::libc_ixoff());
    cur.oflag = cur.oflag | sys::libc_opost();
    cur.lflag = cur.lflag & !(sys::libc_echo() | sys::libc_echonl() | sys::libc_icanon()
        | sys::libc_isig() | sys::libc_iexten());
    cur.cflag = (cur.cflag & !(sys::libc_csize() | sys::libc_parenb())) | sys::libc_cs8();
    let mut cc: [u8; 32] = orig.cc;
    cc[sys::libc_vmin()] = 1;
    cc[sys::libc_vtime()] = 0;
    cur.cc = cc;
    cur
}

/// Whether a terminal takes its input raw: neither echo nor line editing, and
/// single bytes at a time.
pub open spec fn takes_raw_input(term: Termios) -> bool {
    &&& term.lflag & (sys::echo() | sys::icanon()) == 0
    &&& term.cc@[sys::vmin() as int] == 1
}

/// Whether the terminal `term` takes its input raw; `None` is a terminal whose
/// attributes cannot be read, which does not.
pub fn is_raw(term: Option<Termios>) -> (r: bool)
    ensures
        r == (term matches Some(t) && takes_raw_input(t)),
{
    match term {
        Some(t) => (t.lflag & (sys::libc_echo() | sys::libc_icanon())) == 0
            && t.cc[sys::libc_vmin()] == 1,
        None => false,
    }
}

/// A terminal in raw mode takes its input raw.
pub proof fn raw_mode_takes_raw_input(orig: Termios, raw: Termios)
    requires
        orig.raw_mode(raw),
    ensures
        takes_raw_input(raw),
        raw.cc@[sys::vsusp() as int] == orig.cc@[sys::vsusp() as int],
{
    let l = orig.lflag;
    assert((l & !(0x8u32 | 0x40u32 | 0x2u32 | 0x1u32 | 0x8000u32)) & (0x8u32 | 0x2u32) == 0)
        by (bit_vector);
}

/// The key that suspends the client: the terminal's suspend character.
pub open spec fn suspend_key(term: Termios) -> u8 {
    term.cc@[sys::vsusp() as int]
}

/// The key that suspends the client: the terminal's suspend character.
pub fn suspend_char(term: &Termios) -> (c: u8)
    ensures
        c == suspend_key(*term),
{
    term.cc[sys::libc_vsusp()]
}

} // verus!
