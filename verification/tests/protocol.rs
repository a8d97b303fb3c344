use ztch::protocol::{
    errno_of, format_age, write_buf, BufWrite, IoError, MsgType, Packet, PacketReader,
    PacketWriter, ProtocolError, ReadStep, RedrawMethod, WriteStep, PACKET_SIZE,
};

/// Write a packet to a pipe that takes at most `room` bytes at a time.
fn write_packet(p: &Packet, pipe: &mut Vec<u8>, room: usize) -> Result<(), ProtocolError> {
    let mut w: PacketWriter = p.write_to();
    loop {
        let pending = w.pending();
        let n = pending.len().min(room);
        pipe.extend_from_slice(&pending[..n]);
        match w.feed(Ok(n)) {
            WriteStep::More => {}
            WriteStep::Done => return Ok(()),
            WriteStep::Failed(e) => return Err(e),
        }
    }
}

/// Read a packet from a pipe that gives at most `room` bytes at a time.
fn read_packet(pipe: &mut Vec<u8>, room: usize) -> Result<Packet, ProtocolError> {
    let mut r: PacketReader = Packet::read_from();
    loop {
        let n = r.wanted().min(room).min(pipe.len());
        let chunk: Vec<u8> = pipe.drain(..n).collect();
        match r.feed(Ok(chunk)) {
            ReadStep::More => {}
            ReadStep::Done(p) => return Ok(p),
            ReadStep::Failed(e) => return Err(e),
        }
    }
}

#[test]
fn packet_new() {
    let p = Packet::new(MsgType::Push);
    assert_eq!(p.msg_type, 0);
    assert_eq!(p.len, 0);
    assert_eq!(p.data, [0u8; 8]);

    let p = Packet::new(MsgType::Kill);
    assert_eq!(p.msg_type, 5);
}

#[test]
fn packet_encode() {
    let p = Packet::encode(MsgType::Kill, 9);
    assert_eq!(p.msg_type, 5);
    assert_eq!(p.len, 9);
    assert_eq!(p.data, [0u8; 8]);
}

#[test]
fn packet_roundtrip() {
    let mut pipe: Vec<u8> = Vec::new();

    let out = Packet::encode(MsgType::Push, 3);
    write_packet(&out, &mut pipe, 64).unwrap();

    let inp = read_packet(&mut pipe, 64).unwrap();
    assert_eq!(inp.msg_type, 0);
    assert_eq!(inp.len, 3);
}

#[test]
fn packet_read_eof() {
    let mut pipe: Vec<u8> = Vec::new();
    let err = read_packet(&mut pipe, 64).unwrap_err();
    assert_eq!(err, ProtocolError::Eof);
}

#[test]
fn write_buf_works() {
    let msg = b"hello!";
    let mut pipe: Vec<u8> = Vec::new();
    let mut w: BufWrite = write_buf(msg.len());
    while w.active() {
        let left = &msg[w.off..];
        let n = left.len().min(4);
        pipe.extend_from_slice(&left[..n]);
        w.feed(Ok(n));
    }
    assert_eq!(pipe.len(), 6);
    assert_eq!(&pipe[..6], msg);
    assert!(!w.gave_up);
}

#[test]
fn write_buf_goes_on_after_an_interruption() {
    let mut w = write_buf(5);
    w.feed(Err(IoError::Interrupted));
    assert!(w.active());
    w.feed(Ok(2));
    assert_eq!(w.off, 2);
    w.feed(Ok(0));
    assert!(w.active());
    w.feed(Ok(3));
    assert!(!w.active());
    assert!(!w.gave_up);
}

#[test]
fn write_buf_gives_up_on_an_error() {
    let mut w = write_buf(5);
    w.feed(Ok(1));
    w.feed(Err(IoError::Other(Some(32))));
    assert!(!w.active());
    assert!(w.gave_up);
    assert_eq!(w.off, 1);
    let mut w = write_buf(5);
    w.feed(Err(IoError::WouldBlock));
    assert!(!w.active());
}

#[test]
fn format_age_examples() {
    assert_eq!(format_age(0), "0s");
    assert_eq!(format_age(1), "1s");
    assert_eq!(format_age(59), "59s");
    assert_eq!(format_age(60), "1m 0s");
    assert_eq!(format_age(61), "1m 1s");
    assert_eq!(format_age(3599), "59m 59s");
    assert_eq!(format_age(3600), "1h 0m 0s");
    assert_eq!(format_age(3661), "1h 1m 1s");
    assert_eq!(format_age(86399), "23h 59m 59s");
    assert_eq!(format_age(86400), "1d 0h 0m 0s");
    assert_eq!(format_age(90061), "1d 1h 1m 1s");
}

#[test]
fn format_age_of_the_largest_duration() {
    assert_eq!(format_age(65), "1m 5s");
    assert_eq!(format_age(u64::MAX), "213503982334601d 7h 0m 15s");
}

#[test]
fn msg_type_values() {
    assert_eq!(MsgType::Push as u8, 0);
    assert_eq!(MsgType::Attach as u8, 1);
    assert_eq!(MsgType::Detach as u8, 2);
    assert_eq!(MsgType::Winch as u8, 3);
    assert_eq!(MsgType::Redraw as u8, 4);
    assert_eq!(MsgType::Kill as u8, 5);
    assert_eq!(MsgType::ForceDetach as u8, 6);
    assert_eq!(MsgType::Info as u8, 7);
}

#[test]
fn msg_type_bytes_agree_with_their_meaning() {
    for v in 0..=255u8 {
        match MsgType::from_u8(v) {
            Some(t) => assert_eq!(t.as_u8(), v),
            None => assert!(v >= 8),
        }
    }
}

#[test]
fn msg_type_from_u8_all_variants() {
    assert_eq!(MsgType::from_u8(0), Some(MsgType::Push));
    assert_eq!(MsgType::from_u8(1), Some(MsgType::Attach));
    assert_eq!(MsgType::from_u8(2), Some(MsgType::Detach));
    assert_eq!(MsgType::from_u8(3), Some(MsgType::Winch));
    assert_eq!(MsgType::from_u8(4), Some(MsgType::Redraw));
    assert_eq!(MsgType::from_u8(5), Some(MsgType::Kill));
    assert_eq!(MsgType::from_u8(6), Some(MsgType::ForceDetach));
    assert_eq!(MsgType::from_u8(7), Some(MsgType::Info));
}

#[test]
fn msg_type_from_u8_invalid() {
    assert_eq!(MsgType::from_u8(8), None);
    assert_eq!(MsgType::from_u8(255), None);
}

#[test]
fn packet_size() {
    assert_eq!(std::mem::size_of::<Packet>(), 10);
}

#[test]
fn packet_bytes_on_the_wire() {
    assert_eq!(PACKET_SIZE, 10);
    let p = Packet { msg_type: 3, len: 7, data: [1, 2, 3, 4, 5, 6, 7, 8] };
    let bytes = p.to_bytes();
    assert_eq!(bytes, vec![3, 7, 1, 2, 3, 4, 5, 6, 7, 8]);
    let q = Packet::from_bytes(&bytes);
    assert_eq!((q.msg_type, q.len, q.data), (3, 7, [1, 2, 3, 4, 5, 6, 7, 8]));
}

#[test]
fn packet_survives_single_bytes() {
    for room in 1..=10 {
        let mut pipe: Vec<u8> = Vec::new();
        let out = Packet { msg_type: 0, len: 8, data: *b"ABCDEFGH" };
        write_packet(&out, &mut pipe, room).unwrap();
        assert_eq!(pipe, b"\x00\x08ABCDEFGH".to_vec());
        let inp = read_packet(&mut pipe, room).unwrap();
        assert_eq!(inp.data, *b"ABCDEFGH");
        assert!(pipe.is_empty());
    }
}

#[test]
fn packet_read_interrupted_and_deferred() {
    let mut r = Packet::read_from();
    assert!(matches!(r.feed(Ok(vec![5, 9])), ReadStep::More));
    assert_eq!(r.wanted(), 8);
    assert!(matches!(r.feed(Err(IoError::Interrupted)), ReadStep::More));
    assert_eq!(r.wanted(), 8);
    assert!(matches!(r.feed(Err(IoError::WouldBlock)), ReadStep::Failed(ProtocolError::WouldBlock)));
    assert!(matches!(
        r.feed(Err(IoError::Other(Some(104)))),
        ReadStep::Failed(ProtocolError::Io(104))
    ));
    assert!(matches!(r.feed(Err(IoError::Other(None))), ReadStep::Failed(ProtocolError::Io(5))));
    assert!(matches!(r.feed(Ok(vec![])), ReadStep::Failed(ProtocolError::Eof)));
}

#[test]
fn packet_write_errors() {
    let p = Packet::new(MsgType::Info);
    let mut w = p.write_to();
    assert_eq!(w.feed(Err(IoError::Interrupted)), WriteStep::More);
    assert_eq!(w.feed(Ok(4)), WriteStep::More);
    assert_eq!(w.pending().len(), 6);
    assert_eq!(w.feed(Err(IoError::WouldBlock)), WriteStep::Failed(ProtocolError::WouldBlock));
    assert_eq!(w.feed(Err(IoError::Other(Some(32)))), WriteStep::Failed(ProtocolError::Io(32)));
    assert_eq!(w.feed(Ok(0)), WriteStep::Failed(ProtocolError::Eof));
    assert_eq!(w.feed(Ok(6)), WriteStep::Done);
}

#[test]
fn push_packet_pads_its_input() {
    let p = Packet::push(&vec![b'l', b's', b'\n']);
    assert_eq!(p.msg_type, 0);
    assert_eq!(p.len, 3);
    assert_eq!(p.data, [b'l', b's', b'\n', 0, 0, 0, 0, 0]);
}

#[test]
fn errors_have_numbers() {
    assert_eq!(ProtocolError::Eof.as_errno(), 0);
    assert_eq!(ProtocolError::WouldBlock.as_errno(), libc::EAGAIN);
    assert_eq!(ProtocolError::WouldBlock.as_errno(), 11);
    assert_eq!(ProtocolError::Io(104).as_errno(), 104);
    assert_eq!(errno_of(Some(13)), 13);
    assert_eq!(errno_of(None), libc::EIO);
    assert_eq!(errno_of(None), 5);
}

#[test]
fn redraw_method_bytes() {
    assert_eq!(RedrawMethod::Unspec.as_u8(), 0);
    assert_eq!(RedrawMethod::NoRedraw.as_u8(), 1);
    assert_eq!(RedrawMethod::CtrlL.as_u8(), 2);
    assert_eq!(RedrawMethod::Winch.as_u8(), 3);
}
