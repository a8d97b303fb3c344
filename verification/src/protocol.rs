//! The wire protocol between clients and the daemon.
//!
//! Every message is one [`Packet`] of ten bytes. Packets travel over
//! non-blocking stream sockets, so reading or writing one may take several
//! system calls; [`PacketReader`] and [`PacketWriter`] decide, call by call,
//! what comes next.

use crate::sys;
use crate::text;
use crate::text::decimal;
use vstd::prelude::*;
use vstd::string::*;

verus! {

/// Size of the pty read buffer and the tail-read chunk size.
pub const BUFSIZE: usize = 4096;

/// Capacity of the in-memory scrollback ring buffer.
pub const SCROLLBACK_SIZE: usize = 128 * 1024;

/// Default maximum size of the on-disk session log (1 MB).
pub const LOG_MAX_SIZE: usize = 1024 * 1024;

/// Size of a packet on the wire.
pub const PACKET_SIZE: usize = 10;

/// Message types sent between clients and the daemon.
#[derive(Clone, Copy, PartialEq, Eq, Debug, Structural)]
pub enum MsgType {
    /// Terminal input.
    Push,
    /// Sent by a client that wants the session's output.
    Attach,
    /// Sent by an attached client to signal it is leaving voluntarily.
    Detach,
    /// A new window size.
    Winch,
    /// A new window size, and a wish to have the screen drawn again.
    Redraw,
    /// A signal for the child.
    Kill,
    /// Sent by a control client to force all currently attached clients to
    /// disconnect. The session itself keeps running.
    ForceDetach,
    /// Sent by a control client to query attached-client information. The
    /// daemon writes a text response and closes the connection.
    Info,
}

impl MsgType {
    /// The byte that stands for this message type on the wire.
    pub open spec fn wire(self) -> u8 {
        match self {
            MsgType::Push => 0,
            MsgType::Attach => 1,
            MsgType::Detach => 2,
            MsgType::Winch => 3,
            MsgType::Redraw => 4,
            MsgType::Kill => 5,
            MsgType::ForceDetach => 6,
            MsgType::Info => 7,
        }
    }

    /// The byte that stands for this message type on the wire.
    pub fn as_u8(self) -> (r: u8)
        ensures
            r == self.wire(),
    {
        match self {
            MsgType::Push => 0,
            MsgType::Attach => 1,
            MsgType::Detach => 2,
            MsgType::Winch => 3,
            MsgType::Redraw => 4,
            MsgType::Kill => 5,
            MsgType::ForceDetach => 6,
            MsgType::Info => 7,
        }
    }

    /// Convert a raw `u8` to a [`MsgType`].
    ///
    /// Returns `None` for values that do not correspond to any known variant.
    pub fn from_u8(v: u8) -> (r: Option<MsgType>)
        ensures
            r is Some <==> v < 8,
            r matches Some(t) ==> t.wire() == v,
    {
        match v {
            0 => Some(MsgType::Push),
            1 => Some(MsgType::Attach),
            2 => Some(MsgType::Detach),
            3 => Some(MsgType::Winch),
            4 => Some(MsgType::Redraw),
            5 => Some(MsgType::Kill),
            6 => Some(MsgType::ForceDetach),
            7 => Some(MsgType::Info),
            _ => None,
        }
    }
}

/// Different message types have different bytes, so a byte has one meaning.
pub proof fn wire_bytes_are_distinct(a: MsgType, b: MsgType)
    ensures
        a.wire() == b.wire() ==> a == b,
        a.wire() < 8,
{
}

/// How the daemon should respond to a [`MsgType::Redraw`] request.
#[derive(Clone, Copy, PartialEq, Eq, Debug, Structural)]
pub enum RedrawMethod {
    Unspec,
    NoRedraw,
    CtrlL,
    Winch,
}

impl RedrawMethod {
    /// The byte that stands for this method on the wire.
    pub open spec fn wire(self) -> u8 {
        match self {
            RedrawMethod::Unspec => 0,
            RedrawMethod::NoRedraw => 1,
            RedrawMethod::CtrlL => 2,
            RedrawMethod::Winch => 3,
        }
    }

    /// The byte that stands for this method on the wire.
    pub fn as_u8(self) -> (r: u8)
        ensures
            r == self.wire(),
    {
        match self {
            RedrawMethod::Unspec => 0,
            RedrawMethod::NoRedraw => 1,
            RedrawMethod::CtrlL => 2,
            RedrawMethod::Winch => 3,
        }
    }
}

/// How the attach client should clear the terminal before attachment.
#[derive(Clone, Copy, PartialEq, Eq, Debug, Structural)]
pub enum ClearMethod {
    Unspec,
    NoClear,
    Move,
}

/// A message of ten bytes.
///
/// For `Push` messages `data` holds up to 8 bytes of terminal input.
/// For `Winch` and `Redraw` messages `data` holds a window size.
/// For `Kill` messages `data` is unused; `len` stores the signal number.
#[derive(Clone, Copy, Debug)]
pub struct Packet {
    /// One of [`MsgType`].
    pub msg_type: u8,
    /// Payload length or sub-command.
    pub len: u8,
    /// Opaque payload.
    pub data: [u8; 8],
}

/// Eight zero bytes.
pub open spec fn zero_payload() -> Seq<u8> {
    Seq::new(8, |i: int| 0u8)
}

/// The ten bytes of `p` on the wire.
pub open spec fn encoded(p: Packet) -> Seq<u8> {
    seq![p.msg_type, p.len] + p.data@
}

/// A packet's bytes determine the packet.
pub proof fn encoding_is_injective(p: Packet, q: Packet)
    ensures
        encoded(p).len() == PACKET_SIZE,
        encoded(p) == encoded(q) ==> p == q,
{
    if encoded(p) == encoded(q) {
        assert(encoded(p)[0] == encoded(q)[0]);
        assert(encoded(p)[1] == encoded(q)[1]);
        assert forall|i: int| 0 <= i < 8 implies p.data@[i] == q.data@[i] by {
            assert(encoded(p)[i + 2] == encoded(q)[i + 2]);
        }
        assert(p.data@ =~= q.data@);
        assert(p.data =~= q.data);
    }
}

/// Error of a packet transfer.
#[derive(Clone, Copy, Debug, PartialEq, Eq)]
pub enum ProtocolError {
    /// Remote end closed the connection (read returned 0, or write returned 0).
    Eof,
    /// Transient: the caller should defer and retry.
    WouldBlock,
    /// Unrecoverable OS error. The inner value is the raw `errno`.
    Io(i32),
}

impl ProtocolError {
    /// The error number that stands for this error.
    pub open spec fn errno(self) -> i32 {
        match self {
            ProtocolError::Eof => 0,
            ProtocolError::WouldBlock => sys::eagain(),
            ProtocolError::Io(e) => e,
        }
    }

    /// Map to a raw errno integer for callers that still need one.
    pub fn as_errno(&self) -> (r: i32)
        ensures
            r == self.errno(),
    {
        match self {
            ProtocolError::Eof => 0,
            ProtocolError::WouldBlock => sys::libc_eagain(),
            ProtocolError::Io(e) => *e,
        }
    }
}

/// Why a read or a write moved nothing.
#[derive(Clone, Copy, Debug, PartialEq, Eq)]
pub enum IoError {
    /// A signal came in between.
    Interrupted,
    /// The descriptor is not ready.
    WouldBlock,
    /// Another error, with its number where the system gave one.
    Other(Option<i32>),
}

/// The error number of a failed call, or that of a general I/O error where the
/// system gave none.
pub open spec fn errno_or_eio(raw: Option<i32>) -> i32 {
    match raw {
        Some(e) => e,
        None => sys::eio(),
    }
}

/// The error number of a failed call, or that of a general I/O error where the
/// system gave none.
pub fn errno_of(raw: Option<i32>) -> (r: i32)
    ensures
        r == errno_or_eio(raw),
{
    match raw {
        Some(e) => e,
        None => sys::libc_eio(),
    }
}

impl Packet {
    /// Build a zeroed packet with the given message type.
    pub fn new(t: MsgType) -> (p: Packet)
        ensures
            p.msg_type == t.wire(),
            p.len == 0,
            p.data@ == zero_payload(),
    {
        Packet { msg_type: t.as_u8(), len: 0, data: [0u8;8] }
    }

    /// Build a packet with a message type and a `len` value.
    ///
    /// This is a convenience for one-shot control packets (e.g. Kill)
    /// where `data` is left zeroed.
    pub fn encode(t: MsgType, len: u8) -> (p: Packet)
        ensures
            p.msg_type == t.wire(),
            p.len == len,
            p.data@ == zero_payload(),
    {
        Packet { msg_type: t.as_u8(), len, data: [0u8;8] }
    }

    /// The packet that carries `input` (one to eight bytes) as terminal input.
    pub fn push(input: &Vec<u8>) -> (p: Packet)
        requires
            1 <= input.len() <= 8,
        ensures
            p.msg_type == MsgType::Push.wire(),
            p.len == input.len(),
            p.data@ == padded_payload(input@),
    {
        let mut data: [u8; 8] = [0u8;8];
        let mut i: usize = 0;
        while i < input.len()
            invariant
                i <= input.len() <= 8,
                data@.len() == 8,
                forall|k: int| 0 <= k < i ==> data@[k] == input@[k],
                forall|k: int| i <= k < 8 ==> data@[k] == 0u8,
            decreases input.len() - i,
        {
            data[i] = input[i];
            i = i + 1;
        }
        assert(data@ =~= padded_payload(input@));
        Packet { msg_type: MsgType::Push.as_u8(), len: input.len() as u8, data }
    }

    /// The ten bytes of this packet on the wire.
    pub fn to_bytes(&self) -> (r: Vec<u8>)
        ensures
            r@ == encoded(*self),
    {
        let mut r: Vec<u8> = Vec::new();
        r.push(self.msg_type);
        r.push(self.len);
        let mut i: usize = 0;
        assert(r@ =~= encoded(*self).take(2));
        while i < 8
            invariant
                i <= 8,
                r@ == encoded(*self).take(i + 2),
            decreases 8 - i,
        {
            r.push(self.data[i]);
            assert(encoded(*self).take(i + 2).push(self.data@[i as int]) =~= encoded(*self).take(
                i + 3,
            ));
            i = i + 1;
        }
        assert(encoded(*self).take(10) =~= encoded(*self));
        r
    }

    /// The packet that the ten bytes `bytes` stand for.
    pub fn from_bytes(bytes: &Vec<u8>) -> (p: Packet)
        requires
            bytes.len() == PACKET_SIZE,
        ensures
            encoded(p) == bytes@,
    {
        let data: [u8; 8] = [
            bytes[2],
            bytes[3],
            bytes[4],
            bytes[5],
            bytes[6],
            bytes[7],
            bytes[8],
            bytes[9],
        ];
        let p: Packet = Packet { msg_type: bytes[0], len: bytes[1], data };
        assert(encoded(p) =~= bytes@);
        p
    }

    /// The terminal input that this packet carries: the first `len` bytes of
    /// its payload, or all eight where `len` is larger.
    pub open spec fn input(self) -> Seq<u8> {
        self.data@.take(if self.len < 8 {
            self.len as int
        } else {
            8
        })
    }

    /// Begin to read one packet.
    pub fn read_from() -> (r: PacketReader)
        ensures
            r.wf(),
            r.got@ == Seq::<u8>::empty(),
    {
        PacketReader { got: Vec::new() }
    }

    /// Begin to write this packet.
    pub fn write_to(&self) -> (w: PacketWriter)
        ensures
            w.wf(),
            w.bytes@ == encoded(*self),
            w.off == 0,
    {
        PacketWriter { bytes: self.to_bytes(), off: 0 }
    }
}

/// `input` followed by zero bytes, up to the size of a payload.
pub open spec fn padded_payload(input: Seq<u8>) -> Seq<u8> {
    input + Seq::new((8 - input.len()) as nat, |i: int| 0u8)
}

/// What is known after a read: that bytes are missing, that a packet is
/// complete, or that reading failed.
pub enum Intake {
    More(Seq<u8>),
    Full(Seq<u8>),
    Failed(ProtocolError),
}

/// What the outcome of one read makes of the bytes `got` so far.
pub open spec fn intake(got: Seq<u8>, outcome: Result<Seq<u8>, IoError>) -> Intake {
    match outcome {
        Ok(chunk) => if chunk.len() == 0 {
            Intake::Failed(ProtocolError::Eof)
        } else if (got + chunk).len() < PACKET_SIZE {
            Intake::More(got + chunk)
        } else {
            Intake::Full(got + chunk)
        },
        Err(IoError::Interrupted) => Intake::More(got),
        Err(IoError::WouldBlock) => Intake::Failed(ProtocolError::WouldBlock),
        Err(IoError::Other(raw)) => Intake::Failed(ProtocolError::Io(errno_or_eio(raw))),
    }
}

/// What a run of reads makes of the bytes `got` so far. Reading ends with the
/// first outcome that completes the packet or fails.
pub open spec fn intake_all(got: Seq<u8>, outcomes: Seq<Result<Seq<u8>, IoError>>) -> Intake
    decreases outcomes.len(),
{
    if outcomes.len() == 0 {
        Intake::More(got)
    } else {
        match intake(got, outcomes[0]) {
            Intake::More(g) => intake_all(g, outcomes.drop_first()),
            other => other,
        }
    }
}

/// The bytes that a run of reads delivered, in order.
pub open spec fn delivered(outcomes: Seq<Result<Seq<u8>, IoError>>) -> Seq<u8>
    decreases outcomes.len(),
{
    if outcomes.len() == 0 {
        Seq::empty()
    } else {
        match outcomes[0] {
            Ok(chunk) => chunk + delivered(outcomes.drop_first()),
            Err(_) => delivered(outcomes.drop_first()),
        }
    }
}

/// Whether a read brought bytes or was merely interrupted.
pub open spec fn is_progress(outcome: Result<Seq<u8>, IoError>) -> bool {
    match outcome {
        Ok(chunk) => chunk.len() > 0,
        Err(e) => e == IoError::Interrupted,
    }
}

/// A packet arrives whole however the stream cuts it up and however often the
/// reads are interrupted.
pub proof fn packet_survives_any_chunking(p: Packet, outcomes: Seq<Result<Seq<u8>, IoError>>)
    requires
        forall|i: int| 0 <= i < outcomes.len() ==> is_progress(#[trigger] outcomes[i]),
        delivered(outcomes) == encoded(p),
    ensures
        intake_all(Seq::empty(), outcomes) == Intake::Full(encoded(p)),
{
    assert(Seq::<u8>::empty() + delivered(outcomes) =~= encoded(p));
    rest_of_packet_completes_it(p, Seq::empty(), outcomes);
}

proof fn rest_of_packet_completes_it(
    p: Packet,
    got: Seq<u8>,
    outcomes: Seq<Result<Seq<u8>, IoError>>,
)
    requires
        forall|i: int| 0 <= i < outcomes.len() ==> is_progress(#[trigger] outcomes[i]),
        got + delivered(outcomes) == encoded(p),
        got.len() < PACKET_SIZE,
    ensures
        intake_all(got, outcomes) == Intake::Full(encoded(p)),
    decreases outcomes.len(),
{
    encoding_is_injective(p, p);
    if outcomes.len() == 0 {
        assert((got + delivered(outcomes)).len() == got.len());
    } else {
        let rest = outcomes.drop_first();
        assert forall|i: int| 0 <= i < rest.len() implies is_progress(#[trigger] rest[i]) by {
            assert(rest[i] == outcomes[i + 1]);
        }
        assert(is_progress(outcomes[0]));
        match outcomes[0] {
            Ok(chunk) => {
                assert(got + (chunk + delivered(rest)) =~= (got + chunk) + delivered(rest));
                if (got + chunk).len() < PACKET_SIZE {
                    rest_of_packet_completes_it(p, got + chunk, rest);
                } else {
                    assert(((got + chunk) + delivered(rest)).len() == 10);
                    assert(delivered(rest).len() == 0);
                    assert(got + chunk =~= encoded(p));
                }
            },
            Err(_) => {
                rest_of_packet_completes_it(p, got, rest);
            },
        }
    }
}

/// A packet on its way in.
pub struct PacketReader {
    /// The bytes that have arrived.
    pub got: Vec<u8>,
}

/// What to do after a read.
pub enum ReadStep {
    /// Read again.
    More,
    /// The packet is here.
    Done(Packet),
    /// There will be no packet.
    Failed(ProtocolError),
}

/// What a read brought, as contracts speak of it.
pub open spec fn read_view(outcome: Result<Vec<u8>, IoError>) -> Result<Seq<u8>, IoError> {
    match outcome {
        Ok(chunk) => Ok(chunk@),
        Err(e) => Err(e),
    }
}

impl PacketReader {
    /// Part of a packet, never all of it.
    pub open spec fn wf(&self) -> bool {
        self.got.len() < PACKET_SIZE
    }

    /// How many bytes to ask for next.
    pub fn wanted(&self) -> (n: usize)
        requires
            self.wf(),
        ensures
            n == PACKET_SIZE - self.got.len(),
    {
        PACKET_SIZE - self.got.len()
    }

    /// Take note of what a read of at most [`Self::wanted`] bytes brought; no
    /// bytes at all mean that the remote end has closed the connection.
    pub fn feed(&mut self, outcome: Result<Vec<u8>, IoError>) -> (step: ReadStep)
        requires
            old(self).wf(),
            outcome matches Ok(chunk) ==> chunk.len() <= PACKET_SIZE - old(self).got.len(),
        ensures
            final(self).wf(),
            match intake(old(self).got@, read_view(outcome)) {
                Intake::More(g) => step is More && final(self).got@ == g,
                Intake::Full(g) => {
                    &&& step matches ReadStep::Done(p)
                    &&& encoded(p) == g
                },
                Intake::Failed(e) => step == ReadStep::Failed(e),
            },
    {
        match outcome {
            Ok(chunk) => {
                if chunk.len() == 0 {
                    return ReadStep::Failed(ProtocolError::Eof);
                }
                let mut all: Vec<u8> = Vec::new();
                let mut chunk: Vec<u8> = chunk;
                let ghost arrived = chunk@;
                let ghost before = self.got@;
                all.append(&mut self.got);
                all.append(&mut chunk);
                assert(all@ =~= before + arrived);
                if all.len() < PACKET_SIZE {
                    self.got = all;
                    ReadStep::More
                } else {
                    let p: Packet = Packet::from_bytes(&all);
                    ReadStep::Done(p)
                }
            },
            Err(IoError::Interrupted) => ReadStep::More,
            Err(IoError::WouldBlock) => ReadStep::Failed(ProtocolError::WouldBlock),
            Err(IoError::Other(raw)) => ReadStep::Failed(ProtocolError::Io(errno_of(raw))),
        }
    }
}

/// A packet on its way out.
pub struct PacketWriter {
    /// The packet's bytes.
    pub bytes: Vec<u8>,
    /// How many of them are written.
    pub off: usize,
}

/// What to do after a write.
#[derive(Clone, Copy, Debug, PartialEq, Eq)]
pub enum WriteStep {
    /// Write again.
    More,
    /// Everything is written.
    Done,
    /// The rest will not be written.
    Failed(ProtocolError),
}

/// What the outcome of one write makes of a packet of which `off` bytes were
/// written before, and how many are written now.
pub open spec fn write_step(off: int, outcome: Result<usize, IoError>) -> (int, WriteStep) {
    match outcome {
        Ok(n) => if n == 0 {
            (off, WriteStep::Failed(ProtocolError::Eof))
        } else if off + n < PACKET_SIZE {
            (off + n, WriteStep::More)
        } else {
            (off + n, WriteStep::Done)
        },
        Err(IoError::Interrupted) => (off, WriteStep::More),
        Err(IoError::WouldBlock) => (off, WriteStep::Failed(ProtocolError::WouldBlock)),
        Err(IoError::Other(raw)) => (off, WriteStep::Failed(ProtocolError::Io(errno_or_eio(raw)))),
    }
}

/// Where a run of writes leaves a packet of which `off` bytes were written
/// before. Writing ends with the first outcome that completes it or fails.
pub open spec fn write_all(off: int, outcomes: Seq<Result<usize, IoError>>) -> (int, WriteStep)
    decreases outcomes.len(),
{
    if outcomes.len() == 0 {
        (off, WriteStep::More)
    } else {
        match write_step(off, outcomes[0]) {
            (o, WriteStep::More) => write_all(o, outcomes.drop_first()),
            other => other,
        }
    }
}

/// The bytes of `p` that the system took in a run of writes, each of which was
/// offered all that was not written yet.
pub open spec fn taken(p: Packet, off: int, outcomes: Seq<Result<usize, IoError>>) -> Seq<u8>
    decreases outcomes.len(),
{
    if outcomes.len() == 0 {
        Seq::empty()
    } else {
        let (o, step) = write_step(off, outcomes[0]);
        let now = encoded(p).subrange(off, o);
        if step is More {
            now + taken(p, o, outcomes.drop_first())
        } else {
            now
        }
    }
}

/// Whether no write of the run took more than it was offered.
pub open spec fn writes_fit(off: int, outcomes: Seq<Result<usize, IoError>>) -> bool
    decreases outcomes.len(),
{
    outcomes.len() > 0 ==> {
        let (o, step) = write_step(off, outcomes[0]);
        &&& o <= PACKET_SIZE
        &&& step is More ==> writes_fit(o, outcomes.drop_first())
    }
}

/// When writing reports completion, the system has taken exactly the packet's
/// ten bytes, once each and in order.
pub proof fn finished_write_sent_the_packet(p: Packet, outcomes: Seq<Result<usize, IoError>>)
    requires
        writes_fit(0, outcomes),
        write_all(0, outcomes).1 is Done,
    ensures
        taken(p, 0, outcomes) == encoded(p),
{
    encoding_is_injective(p, p);
    rest_of_write_sends_the_rest(p, 0, outcomes);
    assert(encoded(p).skip(0) =~= encoded(p));
}

proof fn rest_of_write_sends_the_rest(
    p: Packet,
    off: int,
    outcomes: Seq<Result<usize, IoError>>,
)
    requires
        0 <= off < PACKET_SIZE,
        writes_fit(off, outcomes),
        write_all(off, outcomes).1 is Done,
    ensures
        taken(p, off, outcomes) == encoded(p).skip(off),
    decreases outcomes.len(),
{
    encoding_is_injective(p, p);
    if outcomes.len() > 0 {
        let (o, step) = write_step(off, outcomes[0]);
        let now = encoded(p).subrange(off, o);
        if step is More {
            rest_of_write_sends_the_rest(p, o, outcomes.drop_first());
            assert(now + encoded(p).skip(o) =~= encoded(p).skip(off));
        } else {
            assert(now =~= encoded(p).skip(off));
        }
    }
}

impl PacketWriter {
    /// A whole packet, not all of it written.
    pub open spec fn wf(&self) -> bool {
        &&& self.bytes.len() == PACKET_SIZE
        &&& self.off < PACKET_SIZE
    }

    /// The bytes to offer next.
    pub fn pending(&self) -> (r: Vec<u8>)
        requires
            self.wf(),
        ensures
            r@ == self.bytes@.skip(self.off as int),
    {
        let mut r: Vec<u8> = Vec::new();
        let mut i: usize = self.off;
        while i < self.bytes.len()
            invariant
                self.off <= i <= self.bytes.len(),
                r@ == self.bytes@.subrange(self.off as int, i as int),
            decreases self.bytes.len() - i,
        {
            r.push(self.bytes[i]);
            assert(self.bytes@.subrange(self.off as int, i as int).push(self.bytes@[i as int])
                =~= self.bytes@.subrange(self.off as int, i + 1));
            i = i + 1;
        }
        r
    }

    /// Take note of what a write of the pending bytes did.
    pub fn feed(&mut self, outcome: Result<usize, IoError>) -> (step: WriteStep)
        requires
            old(self).wf(),
            outcome matches Ok(n) ==> n <= PACKET_SIZE - old(self).off,
        ensures
            final(self).bytes == old(self).bytes,
            step == write_step(old(self).off as int, outcome).1,
            final(self).off == write_step(old(self).off as int, outcome).0,
            step is More ==> final(self).wf(),
    {
        match outcome {
            Ok(n) => {
                if n == 0 {
                    return WriteStep::Failed(ProtocolError::Eof);
                }
                self.off = self.off + n;
                if self.off < PACKET_SIZE {
                    WriteStep::More
                } else {
                    WriteStep::Done
                }
            },
            Err(IoError::Interrupted) => WriteStep::More,
            Err(IoError::WouldBlock) => WriteStep::Failed(ProtocolError::WouldBlock),
            Err(IoError::Other(raw)) => WriteStep::Failed(ProtocolError::Io(errno_of(raw))),
        }
    }
}

/// A best-effort write of a buffer.
///
/// It goes on after partial writes and interruptions and gives up on other
/// errors. Errors are not reported: this is used for output where blocking or
/// crashing on a broken pipe is worse than losing some.
pub struct BufWrite {
    /// How many bytes are written.
    pub off: usize,
    /// How many bytes there are.
    pub len: usize,
    /// Whether an error put an end to it.
    pub gave_up: bool,
}

/// Begin to write `len` bytes.
pub fn write_buf(len: usize) -> (w: BufWrite)
    ensures
        w.wf(),
        w.off == 0,
        w.len == len,
        !w.gave_up,
{
    BufWrite { off: 0, len, gave_up: false }
}

impl BufWrite {
    /// No more is written than there is.
    pub open spec fn wf(&self) -> bool {
        self.off <= self.len
    }

    /// Whether there is something left to try.
    pub fn active(&self) -> (r: bool)
        ensures
            r == (self.off < self.len && !self.gave_up),
    {
        self.off < self.len && !self.gave_up
    }

    /// Take note of what a write of the bytes from `off` on did.
    pub fn feed(&mut self, outcome: Result<usize, IoError>)
        requires
            old(self).wf(),
            outcome matches Ok(n) ==> n <= old(self).len - old(self).off,
        ensures
            final(self).wf(),
            final(self).len == old(self).len,
            final(self).off == old(self).off + (match outcome {
                Ok(n) => n as int,
                Err(_) => 0,
            }),
            final(self).gave_up == (old(self).gave_up || (outcome matches Err(e) && e
                != IoError::Interrupted)),
    {
        match outcome {
            Ok(n) => {
                self.off = self.off + n;
            },
            Err(IoError::Interrupted) => {},
            Err(_) => {
                self.gave_up = true;
            },
        }
    }
}

/// Where a run of writes leaves a best-effort write of `len` bytes of which
/// `off` were written before. It ends with the last byte or with an error.
pub open spec fn buf_written(len: int, off: int, outcomes: Seq<Result<usize, IoError>>) -> int
    decreases outcomes.len(),
{
    if outcomes.len() == 0 || off >= len {
        off
    } else {
        match outcomes[0] {
            Ok(n) => buf_written(len, off + n, outcomes.drop_first()),
            Err(IoError::Interrupted) => buf_written(len, off, outcomes.drop_first()),
            Err(_) => off,
        }
    }
}

/// The bytes of `buf` that the system took in a run of writes of a best-effort
/// write, each of which was offered all that was not written yet.
pub open spec fn buf_taken(buf: Seq<u8>, off: int, outcomes: Seq<Result<usize, IoError>>) -> Seq<u8>
    decreases outcomes.len(),
{
    if outcomes.len() == 0 || off >= buf.len() {
        Seq::empty()
    } else {
        match outcomes[0] {
            Ok(n) => buf.subrange(off, off + n) + buf_taken(buf, off + n, outcomes.drop_first()),
            Err(IoError::Interrupted) => buf_taken(buf, off, outcomes.drop_first()),
            Err(_) => Seq::empty(),
        }
    }
}

/// Whether no write of the run took more than it was offered.
pub open spec fn buf_writes_fit(len: int, off: int, outcomes: Seq<Result<usize, IoError>>) -> bool
    decreases outcomes.len(),
{
    outcomes.len() > 0 && off < len ==> match outcomes[0] {
        Ok(n) => off + n <= len && buf_writes_fit(len, off + n, outcomes.drop_first()),
        Err(_) => buf_writes_fit(len, off, outcomes.drop_first()),
    }
}

/// A best-effort write sends the bytes of its buffer in order, each once, up to
/// where it ends: partial writes and interruptions lose nothing.
pub proof fn best_effort_write_sends_a_prefix(buf: Seq<u8>, outcomes: Seq<Result<usize, IoError>>)
    requires
        buf_writes_fit(buf.len() as int, 0, outcomes),
    ensures
        0 <= buf_written(buf.len() as int, 0, outcomes) <= buf.len(),
        buf_taken(buf, 0, outcomes) == buf.take(buf_written(buf.len() as int, 0, outcomes)),
{
    rest_of_best_effort_write(buf, 0, outcomes);
}

proof fn rest_of_best_effort_write(buf: Seq<u8>, off: int, outcomes: Seq<Result<usize, IoError>>)
    requires
        0 <= off <= buf.len(),
        buf_writes_fit(buf.len() as int, off, outcomes),
    ensures
        off <= buf_written(buf.len() as int, off, outcomes) <= buf.len(),
        buf_taken(buf, off, outcomes) == buf.subrange(
            off,
            buf_written(buf.len() as int, off, outcomes),
        ),
    decreases outcomes.len(),
{
    let end = buf_written(buf.len() as int, off, outcomes);
    if outcomes.len() == 0 || off >= buf.len() {
        assert(buf.subrange(off, off) =~= Seq::<u8>::empty());
    } else {
        match outcomes[0] {
            Ok(n) => {
                rest_of_best_effort_write(buf, off + n, outcomes.drop_first());
                assert(buf.subrange(off, off + n) + buf.subrange(off + n, end) =~= buf.subrange(
                    off,
                    end,
                ));
            },
            Err(IoError::Interrupted) => {
                rest_of_best_effort_write(buf, off, outcomes.drop_first());
            },
            Err(_) => {
                assert(buf.subrange(off, off) =~= Seq::<u8>::empty());
            },
        }
    }
}

/// A duration in seconds as people read it: the days, hours, minutes and
/// seconds in it, from the first of these that is not zero on, and the seconds
/// in any case.
pub open spec fn age_text(secs: nat) -> Seq<char> {
    let d = secs / 86400;
    let h = (secs % 86400) / 3600;
    let m = (secs % 3600) / 60;
    let s = secs % 60;
    if d > 0 {
        text::numeral(d) + "d "@ + text::numeral(h) + "h "@ + text::numeral(m) + "m "@ + text::numeral(s) + "s"@
    } else if h > 0 {
        text::numeral(h) + "h "@ + text::numeral(m) + "m "@ + text::numeral(s) + "s"@
    } else if m > 0 {
        text::numeral(m) + "m "@ + text::numeral(s) + "s"@
    } else {
        text::numeral(s) + "s"@
    }
}

/// Format a duration in seconds into a human-readable string.
///
/// Examples:
///   - `0`       → `"0s"`
///   - `65`      → `"1m 5s"`
///   - `3661`    → `"1h 1m 1s"`
///   - `90061`   → `"1d 1h 1m 1s"`
pub fn format_age(secs: u64) -> (r: String)
    ensures
        r@ == age_text(secs as nat),
{
    let d: u64 = secs / 86400;
    let h: u64 = (secs % 86400) / 3600;
    let m: u64 = (secs % 3600) / 60;
    let s: u64 = secs % 60;
    if d > 0 {
        let mut r: String = decimal(d);
        r.append("d ");
        r.append(decimal(h).as_str());
        r.append("h ");
        r.append(decimal(m).as_str());
        r.append("m ");
        r.append(decimal(s).as_str());
        r.append("s");
        r
    } else if h > 0 {
        let mut r: String = decimal(h);
        r.append("h ");
        r.append(decimal(m).as_str());
        r.append("m ");
        r.append(decimal(s).as_str());
        r.append("s");
        r
    } else if m > 0 {
        let mut r: String = decimal(m);
        r.append("m ");
        r.append(decimal(s).as_str());
        r.append("s");
        r
    } else {
        let mut r: String = decimal(s);
        r.append("s");
        r
    }
}

} // verus!
