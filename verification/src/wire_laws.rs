//! What holds of packets, window sizes, terminals, sockets and the ring.

use crate::app_log::LogLevel;
use crate::protocol;
use crate::protocol::{
    BufWrite, IoError, MsgType, Packet, PacketReader, PacketWriter, ProtocolError, ReadStep,
    RedrawMethod, WriteStep,
};
use crate::pty::{Forked, Pty};
use crate::report::Report;
use crate::scrollback::{Drain, ReplayState, Scrollback};
use crate::session::Session;
use crate::session_daemon;
use crate::sock;
use crate::sock::ListenStep;
use crate::sys;
use crate::term;
use crate::term::{Termios, WinSize};
use vstd::prelude::*;
use vstd::string::*;

verus! {

// ---------------------------------------------------------------------------
// Packets
// ---------------------------------------------------------------------------

/// Each kind of message has its place among the bytes from 0 to 7, the kinds of
/// redraw among those from 0 to 3, and a byte beyond them is no kind of message.
pub proof fn kinds_have_their_bytes(
    t: MsgType,
    b: u8,
    v: u8,
    back: Option<MsgType>,
    m: RedrawMethod,
    w: u8,
)
    requires
        call_ensures(MsgType::as_u8, (t,), b),
        call_ensures(MsgType::from_u8, (v,), back),
        call_ensures(RedrawMethod::as_u8, (m,), w),
    ensures
        t is Push <==> b == 0,
        t is Attach <==> b == 1,
        t is Detach <==> b == 2,
        t is Winch <==> b == 3,
        t is Redraw <==> b == 4,
        t is Kill <==> b == 5,
        t is ForceDetach <==> b == 6,
        t is Info <==> b == 7,
        v == b ==> back == Some(t),
        v > 7 ==> back is None,
        m is Unspec <==> w == 0,
        m is NoRedraw <==> w == 1,
        m is CtrlL <==> w == 2,
        m is Winch <==> w == 3,
{
}

/// A packet is ten bytes: its kind, its length, and its payload of eight. A new
/// one has the kind that was asked for, the length that was asked for or none,
/// and a payload of zeros; one with input has that for its payload, zeros behind
/// it, and its length.
pub proof fn packets_are_laid_out(
    t: MsgType,
    len: u8,
    input: &Vec<u8>,
    blank: Packet,
    control: Packet,
    push: Packet,
    bytes: Vec<u8>,
    back: Packet,
)
    requires
        1 <= input@.len() <= 8,
        bytes@.len() == 10,
        call_ensures(Packet::new, (t,), blank),
        call_ensures(Packet::encode, (t, len), control),
        call_ensures(Packet::push, (input,), push),
        call_ensures(Packet::to_bytes, (&back,), bytes),
    ensures
        blank.msg_type == control.msg_type,
        blank.msg_type == t.wire(),
        blank.len == 0,
        control.len == len,
        push.msg_type == 0,
        push.len == input@.len(),
        forall|i: int| 0 <= i < 8 ==> #[trigger] blank.data@[i] == 0,
        forall|i: int| 0 <= i < 8 ==> #[trigger] control.data@[i] == 0,
        forall|i: int| 0 <= i < input@.len() ==> #[trigger] push.data@[i] == input@[i],
        forall|i: int| input@.len() <= i < 8 ==> #[trigger] push.data@[i] == 0,
        bytes@[0] == back.msg_type,
        bytes@[1] == back.len,
        forall|i: int| 0 <= i < 8 ==> bytes@[i + 2] == #[trigger] back.data@[i],
{
}

/// What a packet's bytes are read as: the first is its kind, the second its
/// length, and the rest its payload.
pub proof fn bytes_are_read_as_laid_out(bytes: &Vec<u8>, p: Packet)
    requires
        bytes@.len() == 10,
        call_ensures(Packet::from_bytes, (bytes,), p),
    ensures
        p.msg_type == bytes@[0],
        p.len == bytes@[1],
        forall|i: int| 0 <= i < 8 ==> #[trigger] p.data@[i] == bytes@[i + 2],
{
    let e = protocol::encoded(p);
    assert(e[0] == bytes@[0]);
    assert(e[1] == bytes@[1]);
    assert forall|i: int| 0 <= i < 8 implies #[trigger] p.data@[i] == bytes@[i + 2] by {
        assert(e[i + 2] == bytes@[i + 2]);
    }
}

/// A packet that comes in is complete once all its ten bytes are there, in the
/// order in which they came. Until then the rest is asked for and what is there
/// is kept, also when a read is interrupted. The end of the connection and errors
/// are told as such, and an error without a number as number 5.
pub proof fn packet_comes_in_whole(
    r: &mut PacketReader,
    wanted: usize,
    outcome: Result<Vec<u8>, IoError>,
    step: ReadStep,
)
    requires
        old(r).wf(),
        call_ensures(PacketReader::wanted, (&*old(r),), wanted),
        outcome matches Ok(chunk) ==> chunk@.len() <= wanted,
        call_ensures(PacketReader::feed, (r, outcome), step),
    ensures
        old(r).got@.len() + wanted == 10,
        match outcome {
            Ok(chunk) => if chunk@.len() == 0 {
                step == ReadStep::Failed(ProtocolError::Eof)
            } else if chunk@.len() < wanted {
                step is More && final(r).got@ == old(r).got@ + chunk@
            } else {
                &&& step matches ReadStep::Done(p)
                &&& seq![p.msg_type, p.len] + p.data@ == old(r).got@ + chunk@
            },
            Err(IoError::Interrupted) => step is More && final(r).got@ == old(r).got@,
            Err(IoError::WouldBlock) => step == ReadStep::Failed(ProtocolError::WouldBlock),
            Err(IoError::Other(raw)) => step == ReadStep::Failed(
                ProtocolError::Io(
                    match raw {
                        Some(e) => e,
                        None => 5,
                    },
                ),
            ),
        },
{
}

/// A packet that goes out is offered from its first byte that was not taken yet,
/// and is done once all ten were. A write that takes nothing means that the
/// connection is closed; an interruption changes nothing, and other errors are
/// told as such.
pub proof fn packet_goes_out_whole(
    p: Packet,
    begun: PacketWriter,
    w: &mut PacketWriter,
    offered: Vec<u8>,
    outcome: Result<usize, IoError>,
    step: WriteStep,
)
    requires
        call_ensures(Packet::write_to, (&p,), begun),
        old(w).wf(),
        call_ensures(PacketWriter::pending, (&*old(w),), offered),
        outcome matches Ok(n) ==> n <= offered@.len(),
        call_ensures(PacketWriter::feed, (w, outcome), step),
    ensures
        begun.bytes@ == seq![p.msg_type, p.len] + p.data@,
        begun.off == 0,
        offered@ == old(w).bytes@.skip(old(w).off as int),
        final(w).bytes == old(w).bytes,
        match outcome {
            Ok(n) => {
                &&& final(w).off == old(w).off + n
                &&& n == 0 ==> step == WriteStep::Failed(ProtocolError::Eof)
                &&& n > 0 ==> {
                    &&& step is Done <==> n == offered@.len()
                    &&& step is More <==> n < offered@.len()
                }
            },
            Err(e) => {
                &&& final(w).off == old(w).off
                &&& match e {
                    IoError::Interrupted => step is More,
                    IoError::WouldBlock => step == WriteStep::Failed(ProtocolError::WouldBlock),
                    IoError::Other(raw) => step == WriteStep::Failed(
                        ProtocolError::Io(
                            match raw {
                                Some(n) => n,
                                None => 5,
                            },
                        ),
                    ),
                }
            },
        },
{
}

/// A best-effort write goes on until everything is written or an error comes up
/// that is no interruption, and keeps count of what was taken.
pub proof fn best_effort_write_goes_on(
    len: usize,
    begun: BufWrite,
    w: &mut BufWrite,
    outcome: Result<usize, IoError>,
    active: bool,
)
    requires
        call_ensures(protocol::write_buf, (len,), begun),
        call_ensures(BufWrite::feed, (w, outcome), ()),
        call_ensures(BufWrite::active, (&*final(w),), active),
    ensures
        begun.off == 0,
        begun.len == len,
        !begun.gave_up,
        final(w).len == old(w).len,
        outcome matches Ok(n) ==> final(w).off == old(w).off + n && final(w).gave_up == old(w).gave_up,
        outcome == Err::<usize, IoError>(IoError::Interrupted) ==> *final(w) == *old(w),
        outcome matches Err(e) && e !is Interrupted ==> final(w).off == old(w).off && final(w).gave_up,
        active <==> final(w).off < final(w).len && !final(w).gave_up,
{
}

/// The numbers that stand for the errors of a transfer: none for the end of the
/// connection, 11 for one that would block, and the error's own otherwise; an
/// error without a number counts as number 5.
pub proof fn errors_have_their_numbers(
    e: ProtocolError,
    n: i32,
    raw: Option<i32>,
    m: i32,
    outcome: Result<(), Option<i32>>,
    r: Result<(), i32>,
)
    requires
        call_ensures(ProtocolError::as_errno, (&e,), n),
        call_ensures(protocol::errno_of, (raw,), m),
        call_ensures(sock::connect_unix, (outcome,), r),
    ensures
        e is Eof ==> n == 0,
        e is WouldBlock ==> n == 11,
        e matches ProtocolError::Io(k) ==> n == k,
        raw matches Some(k) ==> m == k,
        raw is None ==> m == 5,
        r is Ok <==> outcome is Ok,
        outcome matches Err(Some(k)) ==> r == Err::<(), i32>(k),
        outcome == Err::<(), Option<i32>>(None) ==> r == Err::<(), i32>(5),
{
}

/// A listener is bound, made non-blocking, and given to its owner alone, in this
/// order, and is ready after that; the first error is the end of it.
pub proof fn listener_is_made_step_by_step(
    step: ListenStep,
    outcome: Result<(), Option<i32>>,
    next: ListenStep,
)
    requires
        call_ensures(sock::listen_unix, (step, outcome), next),
    ensures
        step is Done ==> next == step,
        step !is Done && outcome is Err ==> {
            &&& next matches ListenStep::Done(Err(n))
            &&& outcome matches Err(Some(k)) ==> n == k
        },
        outcome is Ok ==> match step {
            ListenStep::Bind => next is SetNonblocking,
            ListenStep::SetNonblocking => next == ListenStep::SetMode(0o600),
            ListenStep::SetMode(_) => next == ListenStep::Done(Ok(())),
            ListenStep::Done(_) => true,
        },
{
}

// ---------------------------------------------------------------------------
// Windows and terminals
// ---------------------------------------------------------------------------

/// A window size travels as four numbers of two bytes, the low byte first: rows,
/// columns, width and height.
pub proof fn window_size_travels_low_byte_first(
    ws: WinSize,
    bytes: [u8; 8],
    data: &[u8; 8],
    back: WinSize,
)
    requires
        call_ensures(term::winsize_to_bytes, (ws,), bytes),
        call_ensures(term::winsize_from_bytes, (data,), back),
    ensures
        bytes@.len() == 8,
        bytes@[0] + 256 * bytes@[1] == ws.row,
        bytes@[2] + 256 * bytes@[3] == ws.col,
        bytes@[4] + 256 * bytes@[5] == ws.xpixel,
        bytes@[6] + 256 * bytes@[7] == ws.ypixel,
        back.row == data@[0] + 256 * data@[1],
        back.col == data@[2] + 256 * data@[3],
        back.xpixel == data@[4] + 256 * data@[5],
        back.ypixel == data@[6] + 256 * data@[7],
{
}

/// A session starts in a window of the terminal's size, with 24 rows or 80
/// columns where the terminal does not tell.
pub proof fn window_is_never_empty(ws: WinSize, r: WinSize)
    requires
        call_ensures(term::initial_winsize, (ws,), r),
    ensures
        r.row > 0,
        r.col > 0,
        ws.row > 0 ==> r.row == ws.row,
        ws.row == 0 ==> r.row == 24,
        ws.col > 0 ==> r.col == ws.col,
        ws.col == 0 ==> r.col == 80,
        r.xpixel == ws.xpixel,
        r.ypixel == ws.ypixel,
{
}

/// In raw mode no input is changed or watched for signals, nothing is echoed,
/// output is still processed, characters have eight bits and no parity, and a
/// read returns with the first byte. All else is as before.
pub proof fn raw_mode_passes_input_through(orig: &Termios, raw: Termios, i: int)
    requires
        call_ensures(term::raw_terminal, (orig,), raw),
        0 <= i < 32,
    ensures
        raw.iflag & 0o2753 == 0,
        raw.iflag & 0o10000 == 0,
        raw.iflag == orig.iflag & !0o12753u32,
        raw.oflag == orig.oflag | 1,
        raw.lflag == orig.lflag & !0o100113u32,
        raw.lflag & 0o10 == 0,
        raw.lflag & 0o2 == 0,
        raw.lflag & 0o1 == 0,
        raw.cflag & 0o60 == 0o60,
        raw.cflag & 0o400 == 0,
        raw.cflag & !0o460u32 == orig.cflag & !0o460u32,
        raw.cc@[6] == 1,
        raw.cc@[5] == 0,
        i != 5 && i != 6 ==> raw.cc@[i] == orig.cc@[i],
{
    let f = orig.iflag;
    let l = orig.lflag;
    let c = orig.cflag;
    assert(f & !(1u32 | 2u32 | 8u32 | 32u32 | 64u32 | 128u32 | 256u32 | 1024u32 | 4096u32) == f
        & !0o12753u32) by (bit_vector);
    assert((f & !0o12753u32) & 0o2753 == 0) by (bit_vector);
    assert((f & !0o12753u32) & 0o10000 == 0) by (bit_vector);
    assert(l & !(8u32 | 64u32 | 2u32 | 1u32 | 0x8000u32) == l & !0o100113u32) by (bit_vector);
    assert((l & !0o100113u32) & 8 == 0 && (l & !0o100113u32) & 2 == 0 && (l & !0o100113u32) & 1
        == 0) by (bit_vector);
    assert(((c & !(0o60u32 | 0o400u32)) | 0o60u32) & 0o60 == 0o60) by (bit_vector);
    assert(((c & !(0o60u32 | 0o400u32)) | 0o60u32) & 0o400 == 0) by (bit_vector);
    assert(((c & !(0o60u32 | 0o400u32)) | 0o60u32) & !0o460u32 == c & !0o460u32) by (bit_vector);
}

/// A terminal takes its input raw just when its attributes are known, neither
/// echo nor line editing is on, and reads return with the first byte. The key
/// that suspends is the one that the terminal says.
pub proof fn raw_terminals_are_recognised(
    attributes: Option<Termios>,
    raw: bool,
    term: &Termios,
    key: u8,
)
    requires
        call_ensures(term::is_raw, (attributes,), raw),
        call_ensures(term::suspend_char, (term,), key),
    ensures
        attributes is None ==> !raw,
        attributes matches Some(t) ==> (raw <==> t.lflag & 0o10 == 0 && t.lflag & 0o2 == 0
            && t.cc@[6] == 1),
        key == term.cc@[10],
{
    if let Some(t) = attributes {
        let l = t.lflag;
        assert(l & (8u32 | 2u32) == 0 <==> l & 8 == 0 && l & 2 == 0) by (bit_vector);
    }
}

/// After the fork into a new pseudo-terminal the child goes on as such, and the
/// parent with the terminal and the child's process, whose group is told by the
/// negative number. Without a fork there is a message.
pub proof fn child_and_parent_are_told_apart(
    ret: i32,
    master: i32,
    r: Forked,
    pty: &Pty,
    group: i32,
)
    requires
        call_ensures(Pty::new, (ret, master), r),
        call_ensures(Pty::group, (pty,), group),
    ensures
        r is Child <==> ret == 0,
        r is Failed <==> ret < 0,
        r matches Forked::Parent(p) ==> p.fd == master && p.pid == ret,
        r matches Forked::Failed(msg) ==> msg@ == "Could not find a pty."@,
        group == -pty.pid,
        crate::pty::EXEC_FAILED == 127,
{
}

/// The session variable grows by the session's socket, behind a colon where
/// there was something before.
pub proof fn chain_grows_by_the_socket(
    sess: &Session,
    prev: Option<&str>,
    r: String,
    command: &str,
    text: &str,
    rep: Report,
)
    requires
        call_ensures(Session::chain, (sess, prev), r),
        call_ensures(Session::exec_failed, (sess, command, text), rep),
    ensures
        prev matches Some(p) ==> p@.len() > 0 ==> r@ == p@ + ":"@ + sess.sockname@,
        !(prev matches Some(p) && p@.len() > 0) ==> r@ == sess.sockname@,
        rep.level == LogLevel::Error,
        rep.message@ == "could not execute "@ + command@ + ": "@ + text@,
        rep.out matches Some(out) && out@ == sess.progname@ + ": "@ + rep.message@ + "\n"@,
        rep.err is None,
{
}

// ---------------------------------------------------------------------------
// The ring
// ---------------------------------------------------------------------------

/// The ring keeps the end of all output: what it stores after an append is the
/// end of what it stored and what was appended, and it forgets no more than it
/// has to.
pub proof fn ring_keeps_the_end(sb: &mut Scrollback, data: &[u8])
    requires
        old(sb).wf(),
        call_ensures(Scrollback::append, (sb, data), ()),
    ensures
        ({
            let all = old(sb)@ + data@;
            let n = final(sb)@.len();
            &&& n == (if all.len() <= 131072 {
                all.len()
            } else {
                131072
            })
            &&& forall|i: int| 0 <= i < n ==> #[trigger] final(sb)@[i] == all[all.len() - n + i]
        }),
        final(sb).wf(),
        final(sb)@.len() == final(sb).len,
{
}

/// What a ring stores are the bytes from its head on, around its end.
pub proof fn ring_is_read_from_its_head(sb: Scrollback, i: int)
    requires
        sb.wf(),
        0 <= i < sb.len,
    ensures
        sb@.len() == sb.len,
        sb.head + i < 131072 ==> sb@[i] == sb.buf@[sb.head + i],
        sb.head + i >= 131072 ==> sb@[i] == sb.buf@[sb.head + i - 131072],
{
    if sb.head + i < 131072 {
        vstd::arithmetic::div_mod::lemma_small_mod((sb.head + i) as nat, 131072);
    } else {
        vstd::arithmetic::div_mod::lemma_fundamental_div_mod_converse(
            sb.head + i,
            131072,
            1,
            sb.head + i - 131072,
        );
    }
}

/// A replay begins at the ring's head with all that it stores. It offers what is
/// left, up to the end of the storage, and moves on by what was taken, from the
/// end of the storage to its start. It stops when nothing is left, for now when
/// the client can take no more, and for good on an error; an interruption is
/// passed over.
pub proof fn replay_offers_what_is_left(
    sb: &Scrollback,
    whole: ReplayState,
    rs: &mut ReplayState,
    last: Option<Result<usize, IoError>>,
    next: Drain,
)
    requires
        sb.wf(),
        call_ensures(ReplayState::of, (sb,), whole),
        old(rs).wf(),
        last matches Some(Ok(n)) ==> n <= old(rs).remaining && old(rs).head + n <= 131072,
        call_ensures(ReplayState::drain, (rs, last), next),
    ensures
        whole.head == sb.head,
        whole.remaining == sb.len,
        last matches Some(Ok(n)) ==> {
            &&& final(rs).remaining == old(rs).remaining - n
            &&& final(rs).head == (if old(rs).head + n == 131072 {
                0
            } else {
                old(rs).head + n
            })
        },
        !(last matches Some(Ok(n))) ==> *final(rs) == *old(rs),
        last == Some(Err::<usize, IoError>(IoError::WouldBlock)) ==> next == Drain::Finished(true),
        last matches Some(Err(IoError::Other(_))) ==> next == Drain::Finished(false),
        !(last matches Some(Err(e)) && e !is Interrupted) ==> {
            &&& next is Finished <==> final(rs).remaining == 0
            &&& next is Finished ==> next == Drain::Finished(true)
            &&& next matches Drain::Write { from, len } ==> {
                &&& from == final(rs).head
                &&& len <= final(rs).remaining
                &&& from + len <= 131072
                &&& len == final(rs).remaining || from + len == 131072
            }
        },
{
    if let Some(Ok(n)) = last {
        if old(rs).head + n < 131072 {
            vstd::arithmetic::div_mod::lemma_small_mod((old(rs).head + n) as nat, 131072);
        } else {
            vstd::arithmetic::div_mod::lemma_mod_self_0(131072);
        }
    }
}

/// The sizes and numbers that both ends of a connection, and the system, agree
/// on.
pub proof fn agreed_numbers()
    ensures
        protocol::PACKET_SIZE == 2 + 8,
        protocol::SCROLLBACK_SIZE == 128 * 1024,
        protocol::BUFSIZE == 4 * 1024,
        session_daemon::CTRL_L as int == 'L' as int - '@' as int,
        sock::SOCKET_MODE == 0o600,
        sys::econnrefused() == 111,
        sys::enoent() == 2,
        sys::enotsock() == 88,
        sys::eaddrinuse() == 98,
{
}

/// The daemon leaves with the code with which the child has exited, and with 1
/// where a signal has ended the child. A file is a socket by the type in its
/// mode, whatever its permissions are.
pub proof fn exit_code_is_that_of_the_child(
    code: i32,
    own: i32,
    status: i32,
    r: i32,
    mode: u32,
    is_socket: bool,
)
    requires
        0 <= code <= 255,
        call_ensures(sys::exit_code_of, ((256 * code) as i32,), own),
        call_ensures(sys::exit_code_of, (status,), r),
        call_ensures(sys::is_socket, (mode,), is_socket),
    ensures
        own == code,
        status & 0x7f != 0 ==> r == 1,
        status & 0x7f == 0 ==> r == (status >> 8) & 0xff,
        is_socket <==> mode & 0o170000 == 0o140000,
{
    let s = (256 * code) as i32;
    assert(0 <= code <= 255 && s == 256 * code ==> s & 0x7f == 0 && (s >> 8) & 0xff == code)
        by (bit_vector);
}

/// A packet to read and a ring begin with nothing.
pub proof fn nothing_is_there_at_first(r: PacketReader, sb: Scrollback)
    requires
        call_ensures(Packet::read_from, (), r),
        call_ensures(Scrollback::new, (), sb),
    ensures
        r.got@.len() == 0,
        sb.wf(),
        sb.head == 0,
        sb.len == 0,
        sb@.len() == 0,
        forall|i: int| 0 <= i < 131072 ==> #[trigger] sb.buf@[i] == 0,
{
}

/// Packets of ten bytes are read and written from any part of them on, input of
/// one to eight bytes is packed, and a ring takes any output and is replayed from
/// any place.
pub proof fn transfers_are_accepted(
    bytes: &Vec<u8>,
    input: &Vec<u8>,
    r: &mut PacketReader,
    read: Result<Vec<u8>, IoError>,
    w: &mut PacketWriter,
    written: Result<usize, IoError>,
    b: &mut BufWrite,
    sb: &mut Scrollback,
    data: &[u8],
    rs: &mut ReplayState,
    last: Option<Result<usize, IoError>>,
    pty: &Pty,
)
    requires
        bytes@.len() == 10,
        1 <= input@.len() <= 8,
        r.got@.len() < 10,
        read matches Ok(chunk) ==> r.got@.len() + chunk@.len() <= 10,
        w.bytes@.len() == 10,
        w.off < 10,
        written matches Ok(n) ==> n <= 10 - w.off && n <= b.len - b.off,
        b.off <= b.len,
        sb.buf@.len() == 131072,
        sb.head < 131072,
        sb.len <= 131072,
        rs.head < 131072,
        rs.remaining <= 131072,
        last matches Some(Ok(n)) ==> 0 < rs.remaining && n <= rs.remaining && rs.head + n <= 131072,
        pty.pid > 0,
    ensures
        call_requires(Packet::from_bytes, (bytes,)),
        call_requires(Packet::push, (input,)),
        call_requires(PacketReader::wanted, (&*old(r),)),
        call_requires(PacketReader::feed, (r, read)),
        call_requires(PacketWriter::pending, (&*old(w),)),
        call_requires(PacketWriter::feed, (w, written)),
        call_requires(BufWrite::feed, (b, written)),
        call_requires(Scrollback::append, (sb, data)),
        call_requires(ReplayState::of, (&*old(sb),)),
        call_requires(ReplayState::drain, (rs, last)),
        call_requires(Pty::group, (pty,)),
{
}

} // verus!
