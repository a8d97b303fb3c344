//! The ring buffer of recent output, and its replay to a client.

use crate::protocol::{IoError, SCROLLBACK_SIZE};
use vstd::prelude::*;

verus! {

/// Fixed-capacity ring buffer for replay-on-attach.
///
/// Capacity is [`SCROLLBACK_SIZE`] bytes. When the buffer is full the oldest
/// data is overwritten. The view is the stored output, oldest byte first.
pub struct Scrollback {
    /// The ring's storage.
    pub buf: Vec<u8>,
    /// Where the oldest stored byte is.
    pub head: usize,
    /// How many bytes are stored.
    pub len: usize,
}

/// The `n` bytes of the ring `buf` from place `head` on.
pub open spec fn ring_bytes(buf: Seq<u8>, head: int, n: nat) -> Seq<u8> {
    Seq::new(n, |i: int| buf[(head + i) % SCROLLBACK_SIZE as int])
}

/// The ring `buf` with `d` written from place `at` on.
pub open spec fn ring_written(buf: Seq<u8>, at: int, d: Seq<u8>) -> Seq<u8> {
    Seq::new(
        buf.len(),
        |j: int|
            {
                let k = (j - at) % SCROLLBACK_SIZE as int;
                if k < d.len() {
                    d[k]
                } else {
                    buf[j]
                }
            },
    )
}

/// The last `n` bytes of `s`, or all of them where there are fewer.
pub open spec fn last_bytes(s: Seq<u8>, n: nat) -> Seq<u8> {
    if s.len() <= n {
        s
    } else {
        s.skip(s.len() - n)
    }
}

/// Where a place that lies less than two rings below or three rings above the
/// start comes to lie in the ring.
proof fn ring_place(x: int)
    requires
        -2 * SCROLLBACK_SIZE <= x < 3 * SCROLLBACK_SIZE,
    ensures
        x % SCROLLBACK_SIZE as int == (if x < -SCROLLBACK_SIZE {
            x + 2 * SCROLLBACK_SIZE
        } else if x < 0 {
            x + SCROLLBACK_SIZE
        } else if x < SCROLLBACK_SIZE {
            x
        } else if x < 2 * SCROLLBACK_SIZE {
            x - SCROLLBACK_SIZE
        } else {
            x - 2 * SCROLLBACK_SIZE
        }),
{
    let d = SCROLLBACK_SIZE as int;
    let q: int = if x < -d {
        -2
    } else if x < 0 {
        -1
    } else if x < d {
        0
    } else if x < 2 * d {
        1
    } else {
        2
    };
    vstd::arithmetic::div_mod::lemma_fundamental_div_mod_converse(x, d, q, x - q * d);
}

impl View for Scrollback {
    type V = Seq<u8>;

    open spec fn view(&self) -> Seq<u8> {
        ring_bytes(self.buf@, self.head as int, self.len as nat)
    }
}

impl Scrollback {
    /// The storage has the ring's capacity, and head and length lie within it.
    pub open spec fn wf(&self) -> bool {
        &&& self.buf.len() == SCROLLBACK_SIZE
        &&& self.head < SCROLLBACK_SIZE
        &&& self.len <= SCROLLBACK_SIZE
    }

    /// Create an empty scrollback buffer.
    pub fn new() -> (s: Scrollback)
        ensures
            s.wf(),
            s.head == 0,
            s.len == 0,
            s.buf@ == Seq::new(SCROLLBACK_SIZE as nat, |i: int| 0u8),
            s@ == Seq::<u8>::empty(),
    {
        let s: Scrollback = Scrollback { buf: vec![0u8; SCROLLBACK_SIZE], head: 0, len: 0 };
        assert(s.buf@ =~= Seq::new(SCROLLBACK_SIZE as nat, |i: int| 0u8));
        assert(s@ =~= Seq::<u8>::empty());
        s
    }

    /// Append `data` to the ring buffer.
    ///
    /// If `data` is larger than the buffer, only its last [`SCROLLBACK_SIZE`]
    /// bytes are stored.
    pub fn append(&mut self, data: &[u8])
        requires
            old(self).wf(),
        ensures
            appended(*old(self), data@, *final(self)),
    {
        let ghost buf0 = self.buf@;
        let ghost at = self.head + self.len;
        let ghost stored = self@;
        let ghost head0 = self.head as int;
        let ghost d = last_bytes(data@, SCROLLBACK_SIZE as nat);
        let skip: usize = if data.len() > SCROLLBACK_SIZE {
            data.len() - SCROLLBACK_SIZE
        } else {
            0
        };
        let n: usize = data.len() - skip;
        assert(d =~= data@.skip(skip as int));
        let mut p: usize = (self.head + self.len) % SCROLLBACK_SIZE;
        let mut i: usize = 0;
        assert(self.buf@ =~= ring_written(buf0, at, d.take(0))) by {
            let w = ring_written(buf0, at, d.take(0));
            assert forall|j: int| 0 <= j < buf0.len() implies w[j] == #[trigger] buf0[j] by {
                ring_place(j - at);
            }
        }
        proof {
            ring_place(at);
        }
        while i < n
            invariant
                i <= n <= SCROLLBACK_SIZE,
                n == d.len(),
                n + skip == data.len(),
                d == data@.skip(skip as int),
                p == (at + i) % SCROLLBACK_SIZE as int,
                buf0.len() == SCROLLBACK_SIZE,
                self.buf@ == ring_written(buf0, at, d.take(i as int)),
                self.head == old(self).head,
                self.len == old(self).len,
                at == self.head + self.len,
                0 <= at < 2 * SCROLLBACK_SIZE,
            decreases n - i,
        {
            proof {
                ring_place(at + i);
                ring_place(at + i + 1);
            }
            self.buf.set(p, data[skip + i]);
            proof {
                let a = ring_written(buf0, at, d.take(i as int)).update(p as int, d[i as int]);
                let b = ring_written(buf0, at, d.take(i + 1));
                assert forall|j: int| 0 <= j < b.len() implies a[j] == b[j] by {
                    ring_place(j - at);
                }
                assert(a =~= b);
            }
            i = i + 1;
            p = if p + 1 == SCROLLBACK_SIZE {
                0
            } else {
                p + 1
            };
        }
        assert(d.take(n as int) =~= d);
        let total: usize = self.len + n;
        if total <= SCROLLBACK_SIZE {
            self.len = total;
        } else {
            self.head = (self.head + total - SCROLLBACK_SIZE) % SCROLLBACK_SIZE;
            self.len = SCROLLBACK_SIZE;
        }
        proof {
            ring_place(head0);
        }
        proof {
            written_ring_holds_the_end(
                buf0,
                head0,
                stored.len() as int,
                d,
                self.head as int,
                self.len as int,
            );
            long_data_counts_by_its_end(stored, data@);
        }
    }
}

/// Whether `next` is the ring `sb` with `data` appended: it stores the end of
/// both, what of `data` fits into the ring was written behind what `sb` stores,
/// and nothing else was touched.
pub open spec fn appended(sb: Scrollback, data: Seq<u8>, next: Scrollback) -> bool {
    let d = last_bytes(data, SCROLLBACK_SIZE as nat);
    &&& next.wf()
    &&& next@ == last_bytes(sb@ + data, SCROLLBACK_SIZE as nat)
    &&& next.buf@ == ring_written(sb.buf@, sb.head + sb.len, d)
    &&& next.head == (sb.head + sb.len + d.len() - next.len) % SCROLLBACK_SIZE as int
}

/// Writing `d` behind the `len0` stored bytes of a ring leaves the end of both
/// in it.
proof fn written_ring_holds_the_end(
    buf: Seq<u8>,
    head0: int,
    len0: int,
    d: Seq<u8>,
    head1: int,
    len1: int,
)
    requires
        buf.len() == SCROLLBACK_SIZE,
        0 <= head0 < SCROLLBACK_SIZE,
        0 <= len0 <= SCROLLBACK_SIZE,
        d.len() <= SCROLLBACK_SIZE,
        len1 == (if len0 + d.len() <= SCROLLBACK_SIZE {
            len0 + d.len()
        } else {
            SCROLLBACK_SIZE as int
        }),
        head1 == (head0 + len0 + d.len() - len1) % SCROLLBACK_SIZE as int,
    ensures
        ring_bytes(ring_written(buf, head0 + len0, d), head1, len1 as nat) == last_bytes(
            ring_bytes(buf, head0, len0 as nat) + d,
            SCROLLBACK_SIZE as nat,
        ),
{
    let at = head0 + len0;
    let stored = ring_bytes(buf, head0, len0 as nat);
    let new = ring_written(buf, at, d);
    let have = ring_bytes(new, head1, len1 as nat);
    let want = last_bytes(stored + d, SCROLLBACK_SIZE as nat);
    let cut = len0 + d.len() - len1;
    ring_place(head0 + cut);
    assert forall|x: int| 0 <= x < len1 implies have[x] == want[x] by {
        ring_place(head1 + x);
        let j = (head1 + x) % SCROLLBACK_SIZE as int;
        ring_place(j - at);
        ring_place(head0 + cut + x);
    }
    assert(have =~= want);
}

/// Of data that exceeds the ring, only the end has an effect.
proof fn long_data_counts_by_its_end(stored: Seq<u8>, data: Seq<u8>)
    ensures
        last_bytes(stored + last_bytes(data, SCROLLBACK_SIZE as nat), SCROLLBACK_SIZE as nat)
            == last_bytes(stored + data, SCROLLBACK_SIZE as nat),
{
    let n = SCROLLBACK_SIZE as nat;
    assert(last_bytes(stored + last_bytes(data, n), n) =~= last_bytes(stored + data, n));
}

impl Default for Scrollback {
    fn default() -> (s: Scrollback)
        ensures
            s.wf(),
            s.head == 0,
            s.len == 0,
            s.buf@ == Seq::new(SCROLLBACK_SIZE as nat, |i: int| 0u8),
            s@ == Seq::<u8>::empty(),
    {
        Scrollback::new()
    }
}

/// Output that arrives in pieces is stored as if it had arrived at once: what
/// counts is the last [`SCROLLBACK_SIZE`] bytes of all of it.
pub proof fn appending_twice_is_appending_both(stored: Seq<u8>, a: Seq<u8>, b: Seq<u8>)
    ensures
        last_bytes(last_bytes(stored + a, SCROLLBACK_SIZE as nat) + b, SCROLLBACK_SIZE as nat)
            == last_bytes(stored + (a + b), SCROLLBACK_SIZE as nat),
{
    let n = SCROLLBACK_SIZE as nat;
    assert(stored + (a + b) =~= (stored + a) + b);
    assert(last_bytes(last_bytes(stored + a, n) + b, n) =~= last_bytes((stored + a) + b, n));
}

/// Tracks the progress of sending scrollback data to a single client.
#[derive(Clone, Copy, Debug, PartialEq, Eq)]
pub struct ReplayState {
    /// Where in the ring the next byte to send is.
    pub head: usize,
    /// How many bytes are still to be sent.
    pub remaining: usize,
}

/// What to do next in a replay.
#[derive(Clone, Copy, Debug, PartialEq, Eq)]
pub enum Drain {
    /// Write the `len` bytes of the ring's storage from `from` on to the
    /// client, and report what came of it.
    Write { from: usize, len: usize },
    /// Stop for now: `true` when all went well so far and the caller should
    /// continue later if bytes remain, `false` on a write error.
    Finished(bool),
}

/// The write that a replay in state `rs` asks for.
pub open spec fn next_write(rs: ReplayState) -> Drain {
    if rs.remaining == 0 {
        Drain::Finished(true)
    } else {
        Drain::Write {
            from: rs.head,
            len: if SCROLLBACK_SIZE - rs.head < rs.remaining {
                (SCROLLBACK_SIZE - rs.head) as usize
            } else {
                rs.remaining
            },
        }
    }
}

/// The state of a replay after the outcome of a write.
pub open spec fn after_write(rs: ReplayState, outcome: Result<usize, IoError>) -> ReplayState {
    match outcome {
        Ok(n) => ReplayState {
            head: ((rs.head + n) % SCROLLBACK_SIZE as int) as usize,
            remaining: (rs.remaining - n) as usize,
        },
        Err(_) => rs,
    }
}

/// What a replay in state `rs` does next, after the outcome of its last write
/// or at its start.
pub open spec fn drain_next(rs: ReplayState, last: Option<Result<usize, IoError>>) -> Drain {
    match last {
        Some(Err(IoError::WouldBlock)) => Drain::Finished(true),
        Some(Err(IoError::Other(_))) => Drain::Finished(false),
        Some(Ok(n)) => next_write(after_write(rs, Ok(n))),
        _ => next_write(rs),
    }
}

/// Whether `n` is a possible result of the write that `rs` asked for.
pub open spec fn write_fits(rs: ReplayState, outcome: Result<usize, IoError>) -> bool {
    outcome matches Ok(n) ==> next_write(rs) matches Drain::Write { from, len } && n <= len
}

impl ReplayState {
    /// The next place lies in the ring, and no more remains than it holds.
    pub open spec fn wf(&self) -> bool {
        &&& self.head < SCROLLBACK_SIZE
        &&& self.remaining <= SCROLLBACK_SIZE
    }

    /// The bytes still to be sent out of the ring `buf`.
    pub open spec fn pending(self, buf: Seq<u8>) -> Seq<u8> {
        ring_bytes(buf, self.head as int, self.remaining as nat)
    }

    /// The replay of everything that `scrollback` stores.
    pub fn of(scrollback: &Scrollback) -> (rs: ReplayState)
        requires
            scrollback.wf(),
        ensures
            rs.wf(),
            rs.head == scrollback.head,
            rs.remaining == scrollback.len,
            rs.pending(scrollback.buf@) == scrollback@,
    {
        ReplayState { head: scrollback.head, remaining: scrollback.len }
    }

    /// Take note of the outcome of the last write, if there was one, and tell
    /// what to do next. Writing goes on until everything is sent, the client
    /// cannot take more for now, or an error comes up.
    pub fn drain(&mut self, last: Option<Result<usize, IoError>>) -> (next: Drain)
        requires
            old(self).wf(),
            last matches Some(outcome) ==> write_fits(*old(self), outcome),
        ensures
            final(self).wf(),
            next == drain_next(*old(self), last),
            *final(self) == (match last {
                Some(outcome) => after_write(*old(self), outcome),
                None => *old(self),
            }),
    {
        match last {
            Some(Ok(n)) => {
                self.head = (self.head + n) % SCROLLBACK_SIZE;
                self.remaining = self.remaining - n;
            },
            Some(Err(IoError::WouldBlock)) => {
                return Drain::Finished(true);
            },
            Some(Err(IoError::Other(_))) => {
                return Drain::Finished(false);
            },
            _ => {},
        }
        if self.remaining == 0 {
            return Drain::Finished(true);
        }
        let contiguous: usize = SCROLLBACK_SIZE - self.head;
        let len: usize = if contiguous < self.remaining {
            contiguous
        } else {
            self.remaining
        };
        Drain::Write { from: self.head, len }
    }
}

/// The bytes that a write of a replay offers are the next pending ones, and
/// what a write takes is exactly what is pending no longer.
pub proof fn replay_write_takes_the_next_bytes(rs: ReplayState, buf: Seq<u8>, n: usize)
    requires
        rs.wf(),
        buf.len() == SCROLLBACK_SIZE,
        write_fits(rs, Ok(n)),
    ensures
        next_write(rs) matches Drain::Write { from, len } && {
            &&& from + len <= buf.len()
            &&& len > 0
            &&& buf.subrange(from as int, from + n) + after_write(rs, Ok(n)).pending(buf)
                == rs.pending(buf)
        },
        after_write(rs, Ok(n)).wf(),
{
    let next = after_write(rs, Ok(n));
    let sent = buf.subrange(rs.head as int, rs.head + n);
    assert forall|i: int| 0 <= i < rs.remaining implies (sent + next.pending(buf))[i]
        == rs.pending(buf)[i] by {
        ring_place(rs.head + n);
        ring_place(rs.head + i);
        ring_place(next.head + (i - n));
    }
    assert(sent + next.pending(buf) =~= rs.pending(buf));
}

/// The bytes that a run of writes sends out of the ring `buf`.
pub open spec fn replayed(rs: ReplayState, buf: Seq<u8>, outcomes: Seq<Result<usize, IoError>>) -> Seq<u8>
    decreases outcomes.len(),
{
    if outcomes.len() == 0 {
        Seq::empty()
    } else {
        let now = match outcomes[0] {
            Ok(n) => buf.subrange(rs.head as int, rs.head + n),
            Err(_) => Seq::empty(),
        };
        now + replayed(after_write(rs, outcomes[0]), buf, outcomes.drop_first())
    }
}

/// The state of a replay after a run of writes.
pub open spec fn after_writes(rs: ReplayState, outcomes: Seq<Result<usize, IoError>>) -> ReplayState
    decreases outcomes.len(),
{
    if outcomes.len() == 0 {
        rs
    } else {
        after_writes(after_write(rs, outcomes[0]), outcomes.drop_first())
    }
}

/// Whether every write of the run took no more than it was offered.
pub open spec fn writes_fit(rs: ReplayState, outcomes: Seq<Result<usize, IoError>>) -> bool
    decreases outcomes.len(),
{
    outcomes.len() > 0 ==> {
        &&& write_fits(rs, outcomes[0])
        &&& writes_fit(after_write(rs, outcomes[0]), outcomes.drop_first())
    }
}

/// However the writes of a replay are cut up, interrupted or deferred, the
/// client gets the pending bytes in order, each once: what was sent and what is
/// still pending make up what was pending at first.
pub proof fn replay_sends_everything_once(
    rs: ReplayState,
    buf: Seq<u8>,
    outcomes: Seq<Result<usize, IoError>>,
)
    requires
        rs.wf(),
        buf.len() == SCROLLBACK_SIZE,
        writes_fit(rs, outcomes),
    ensures
        after_writes(rs, outcomes).wf(),
        replayed(rs, buf, outcomes) + after_writes(rs, outcomes).pending(buf) == rs.pending(buf),
        after_writes(rs, outcomes).remaining == 0 ==> replayed(rs, buf, outcomes) == rs.pending(
            buf,
        ),
    decreases outcomes.len(),
{
    if outcomes.len() > 0 {
        let next = after_write(rs, outcomes[0]);
        let rest = outcomes.drop_first();
        if let Ok(n) = outcomes[0] {
            replay_write_takes_the_next_bytes(rs, buf, n);
        }
        replay_sends_everything_once(next, buf, rest);
        let now = match outcomes[0] {
            Ok(n) => buf.subrange(rs.head as int, rs.head + n),
            Err(_) => Seq::empty(),
        };
        let tail = after_writes(rs, outcomes).pending(buf);
        assert((now + replayed(next, buf, rest)) + tail =~= now + (replayed(next, buf, rest)
            + tail));
        assert(Seq::<u8>::empty() + rs.pending(buf) =~= rs.pending(buf));
    } else {
        assert(Seq::<u8>::empty() + rs.pending(buf) =~= rs.pending(buf));
    }
    let sent = replayed(rs, buf, outcomes);
    let left = after_writes(rs, outcomes).pending(buf);
    if left.len() == 0 {
        assert(sent + left =~= sent);
    }
}

/// Whether a replay in state `rs` has its pending bytes in what `sb` stores,
/// from the byte number `off` on.
pub open spec fn lies_at(rs: ReplayState, sb: Scrollback, off: int) -> bool {
    &&& 0 <= off
    &&& off + rs.remaining <= sb.len
    &&& rs.head == (sb.head + off) % SCROLLBACK_SIZE as int
}

/// How many of the oldest bytes that `sb` stores give way to `data`.
pub open spec fn displaced(sb: Scrollback, data: Seq<u8>) -> int {
    let total = sb.len + last_bytes(data, SCROLLBACK_SIZE as nat).len();
    if total <= SCROLLBACK_SIZE {
        0
    } else {
        total - SCROLLBACK_SIZE
    }
}

/// A replay that lies in what a ring stores sends that part of it.
pub proof fn replay_sends_what_is_stored(rs: ReplayState, sb: Scrollback, off: int)
    requires
        sb.wf(),
        lies_at(rs, sb, off),
    ensures
        rs.pending(sb.buf@) == sb@.subrange(off, off + rs.remaining),
{
    let part = sb@.subrange(off, off + rs.remaining);
    assert forall|i: int| 0 <= i < rs.remaining implies rs.pending(sb.buf@)[i] == part[i] by {
        ring_place(sb.head + off);
        ring_place(rs.head + i);
        ring_place(sb.head + (off + i));
    }
    assert(rs.pending(sb.buf@) =~= part);
}

/// A replay that lies in what a ring stores stays there from write to write,
/// further on by what each of them takes.
pub proof fn replay_keeps_its_place(rs: ReplayState, sb: Scrollback, off: int, n: usize)
    requires
        sb.wf(),
        rs.wf(),
        lies_at(rs, sb, off),
        write_fits(rs, Ok(n)),
    ensures
        lies_at(after_write(rs, Ok(n)), sb, off + n),
{
    ring_place(sb.head + off);
    ring_place(rs.head + n);
    ring_place(sb.head + (off + n));
}

/// Output that arrives during a replay leaves the pending bytes alone as long
/// as none of them has to give way to it.
pub proof fn append_spares_a_replay(
    sb: Scrollback,
    rs: ReplayState,
    off: int,
    data: Seq<u8>,
    next: Scrollback,
)
    requires
        sb.wf(),
        rs.wf(),
        lies_at(rs, sb, off),
        displaced(sb, data) <= off,
        appended(sb, data, next),
    ensures
        rs.pending(next.buf@) == rs.pending(sb.buf@),
        lies_at(rs, next, off - displaced(sb, data)),
{
    let cut = displaced(sb, data);
    let d = last_bytes(data, SCROLLBACK_SIZE as nat);
    assert(next@.len() == sb.len + d.len() - cut) by {
        long_data_counts_by_its_end(sb@, data);
    }
    ring_place(sb.head + off);
    ring_place(sb.head + cut);
    ring_place(next.head + (off - cut));
    let at = sb.head + sb.len;
    assert forall|i: int| 0 <= i < rs.remaining implies rs.pending(next.buf@)[i] == rs.pending(
        sb.buf@,
    )[i] by {
        let j = (rs.head + i) % SCROLLBACK_SIZE as int;
        ring_place(rs.head + i);
        ring_place(j - at);
    }
    assert(rs.pending(next.buf@) =~= rs.pending(sb.buf@));
}

} // verus!
