use ztch::protocol::{IoError, SCROLLBACK_SIZE};
use ztch::scrollback::{Drain, ReplayState, Scrollback};

/// Everything that the ring stores.
fn stored(sb: &Scrollback) -> Vec<u8> {
    (0..sb.len).map(|i| sb.buf[(sb.head + i) % SCROLLBACK_SIZE]).collect()
}

/// Drain into a pipe that holds at most `room` bytes more.
fn drain(rs: &mut ReplayState, sb: &Scrollback, pipe: &mut Vec<u8>, room: usize) -> bool {
    let mut room = room;
    let mut last: Option<Result<usize, IoError>> = None;
    loop {
        match rs.drain(last) {
            Drain::Finished(ok) => return ok,
            Drain::Write { from, len } => {
                let n = len.min(room);
                if n == 0 {
                    last = Some(Err(IoError::WouldBlock));
                } else {
                    pipe.extend_from_slice(&sb.buf[from..from + n]);
                    room -= n;
                    last = Some(Ok(n));
                }
            }
        }
    }
}

#[test]
fn scrollback_new_is_empty() {
    let sb = Scrollback::new();
    assert_eq!(sb.len, 0);
    assert_eq!(sb.head, 0);
}

#[test]
fn scrollback_append_small() {
    let mut sb = Scrollback::new();
    sb.append(b"hello");
    assert_eq!(sb.len, 5);
    let mut out = vec![0u8; 5];
    for i in 0..5 {
        out[i] = sb.buf[i];
    }
    assert_eq!(&out, b"hello");
}

#[test]
fn scrollback_append_multiple() {
    let mut sb = Scrollback::new();
    sb.append(b"abc");
    sb.append(b"def");
    let mut out = vec![0u8; 6];
    for i in 0..6 {
        out[i] = sb.buf[(sb.head + i) & (SCROLLBACK_SIZE - 1)];
    }
    assert_eq!(&out, b"abcdef");
}

#[test]
fn scrollback_append_wrap_around() {
    let mut sb = Scrollback::new();
    let chunk = vec![b'x'; SCROLLBACK_SIZE - 4];
    sb.append(&chunk);
    assert_eq!(sb.len, SCROLLBACK_SIZE - 4);

    sb.append(b"12345678");
    assert_eq!(sb.len, SCROLLBACK_SIZE);

    let tail_start = (sb.head + SCROLLBACK_SIZE - 12) & (SCROLLBACK_SIZE - 1);
    let mut tail = vec![0u8; 12];
    for i in 0..12 {
        tail[i] = sb.buf[(tail_start + i) & (SCROLLBACK_SIZE - 1)];
    }
    let expected: Vec<u8> = [b'x'; 4].iter().chain(b"12345678".iter()).copied().collect();
    assert_eq!(tail, expected);
}

#[test]
fn scrollback_append_larger_than_buffer() {
    let mut sb = Scrollback::new();
    let big = vec![b'a'; SCROLLBACK_SIZE + 100];
    sb.append(&big);
    assert_eq!(sb.len, SCROLLBACK_SIZE);
    for i in 0..SCROLLBACK_SIZE {
        assert_eq!(sb.buf[(sb.head + i) & (SCROLLBACK_SIZE - 1)], b'a');
    }
}

#[test]
fn scrollback_append_empty() {
    let mut sb = Scrollback::new();
    sb.append(b"");
    assert_eq!(sb.len, 0);
    sb.append(b"x");
    assert_eq!(sb.len, 1);
}

#[test]
fn scrollback_keeps_the_end_of_a_long_append() {
    let mut sb = Scrollback::new();
    sb.append(b"before");
    let mut big = vec![b'a'; SCROLLBACK_SIZE + 3];
    let n = big.len();
    big[n - 1] = b'z';
    big[0] = b'q';
    sb.append(&big);
    let all = stored(&sb);
    assert_eq!(all.len(), SCROLLBACK_SIZE);
    assert_eq!(all, big[3..].to_vec());
    sb.append(b"!");
    assert_eq!(*stored(&sb).last().unwrap(), b'!');
}

#[test]
fn appending_in_pieces_is_appending_at_once() {
    let data: Vec<u8> = (0..SCROLLBACK_SIZE + 5000).map(|i| (i % 251) as u8).collect();
    let mut one = Scrollback::default();
    one.append(&data);
    let mut many = Scrollback::new();
    for piece in data.chunks(4096) {
        many.append(piece);
    }
    assert_eq!(stored(&one), stored(&many));
    assert_eq!(stored(&one), data[5000..].to_vec());
}

#[test]
fn replay_drain_complete() {
    let sb = {
        let mut s = Scrollback::new();
        s.append(b"scrollback data");
        s
    };
    let mut pipe: Vec<u8> = Vec::new();

    let mut rs = ReplayState { head: 0, remaining: sb.len };
    let ok = drain(&mut rs, &sb, &mut pipe, 65536);
    assert!(ok);
    assert_eq!(rs.remaining, 0);

    assert_eq!(pipe.len(), "scrollback data".len());
    assert_eq!(&pipe[..], b"scrollback data");
}

#[test]
fn replay_drain_partial() {
    let sb = {
        let mut s = Scrollback::new();
        let big = vec![b'x'; SCROLLBACK_SIZE];
        s.append(&big);
        s
    };
    let mut pipe: Vec<u8> = Vec::new();

    let mut rs = ReplayState { head: 0, remaining: sb.len };
    let ok = drain(&mut rs, &sb, &mut pipe, 65536);
    assert!(ok);
    assert!(rs.remaining < sb.len);
    assert!(rs.remaining > 0);

    let ok = drain(&mut rs, &sb, &mut pipe, 65536);
    assert!(ok);
    assert_eq!(rs.remaining, 0);
    assert_eq!(pipe, vec![b'x'; SCROLLBACK_SIZE]);
}

#[test]
fn replay_across_the_end_of_the_ring() {
    let data: Vec<u8> = (0..SCROLLBACK_SIZE + 777).map(|i| (i % 253) as u8).collect();
    let mut sb = Scrollback::new();
    for piece in data.chunks(1000) {
        sb.append(piece);
    }
    assert!(sb.head > 0);
    let mut rs = ReplayState::of(&sb);
    let mut pipe: Vec<u8> = Vec::new();
    while rs.remaining > 0 {
        assert!(drain(&mut rs, &sb, &mut pipe, 30000));
    }
    assert_eq!(pipe, data[777..].to_vec());
}

#[test]
fn replay_interruptions_and_errors() {
    let mut sb = Scrollback::new();
    sb.append(b"abcdef");
    let mut rs = ReplayState::of(&sb);
    assert_eq!(rs.drain(None), Drain::Write { from: 0, len: 6 });
    assert_eq!(rs.drain(Some(Err(IoError::Interrupted))), Drain::Write { from: 0, len: 6 });
    assert_eq!(rs.drain(Some(Ok(2))), Drain::Write { from: 2, len: 4 });
    assert_eq!(rs.drain(Some(Err(IoError::WouldBlock))), Drain::Finished(true));
    assert_eq!(rs.remaining, 4);
    assert_eq!(rs.drain(None), Drain::Write { from: 2, len: 4 });
    assert_eq!(rs.drain(Some(Err(IoError::Other(Some(32))))), Drain::Finished(false));
    assert_eq!(rs.remaining, 4);
    assert_eq!(rs.drain(None), Drain::Write { from: 2, len: 4 });
    assert_eq!(rs.drain(Some(Ok(4))), Drain::Finished(true));
    assert_eq!(rs.remaining, 0);
}

#[test]
fn append_during_a_replay_leaves_pending_bytes() {
    let mut sb = Scrollback::new();
    sb.append(b"old output");
    let mut rs = ReplayState::of(&sb);
    let mut pipe: Vec<u8> = Vec::new();
    assert!(drain(&mut rs, &sb, &mut pipe, 4));
    sb.append(b"new output");
    assert!(drain(&mut rs, &sb, &mut pipe, 100));
    assert_eq!(&pipe[..], b"old output");
}

#[test]
fn append_over_what_a_replay_has_sent() {
    let mut sb = Scrollback::new();
    sb.append(&vec![b'a'; 1000]);
    sb.append(&vec![b'b'; SCROLLBACK_SIZE - 1000]);
    let mut rs = ReplayState::of(&sb);
    let mut pipe: Vec<u8> = Vec::new();
    assert!(drain(&mut rs, &sb, &mut pipe, 1000));
    assert_eq!(pipe, vec![b'a'; 1000]);
    sb.append(&vec![b'c'; 1000]);
    pipe.clear();
    assert!(drain(&mut rs, &sb, &mut pipe, SCROLLBACK_SIZE));
    assert_eq!(rs.remaining, 0);
    assert_eq!(pipe, vec![b'b'; SCROLLBACK_SIZE - 1000]);
}

#[test]
fn new_ring_is_clear() {
    for sb in [Scrollback::new(), Scrollback::default()] {
        assert_eq!((sb.head, sb.len), (0, 0));
        assert_eq!(sb.buf, vec![0u8; SCROLLBACK_SIZE]);
    }
}
