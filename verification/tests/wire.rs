use apple_sep::bytes;
use apple_sep::control::{ControlState, Delivery};
use apple_sep::crc;
use apple_sep::errno::Errno;
use apple_sep::mailbox::{wiring_after_start, MailCallback, Mailbox, Message, Provider, Wiring};
use apple_sep::proto;
use apple_sep::rxring::RxRing;
use apple_sep::transfer::{DeviceStatus, Packet, Progress, Reassembly, Sender, HEADER_LEN};
use apple_sep::uuid::Uuid;

fn msg(n: u64) -> Message {
    Message { msg0: n, msg1: 0 }
}

#[test]
fn error_numbers_are_those_of_the_platform() {
    assert_eq!(Errno::EPERM.to_errno(), -1);
    assert_eq!(Errno::E2BIG.to_errno(), -7);
    assert_eq!(Errno::EACCES.to_errno(), -13);
    assert_eq!(Errno::EINVAL.to_errno(), -22);
    assert_eq!(Errno::EBADMSG.to_errno(), -74);
    assert_eq!(Errno::ETIMEDOUT.to_errno(), -110);
    assert_eq!(Errno::EPROBEDEFER.to_errno(), -517);
}

#[test]
fn little_endian_numbers_read_back() {
    let mut out = Vec::new();
    bytes::put_u16(&mut out, 0x1234);
    bytes::put_u32(&mut out, 0xdead_beef);
    bytes::put_u64(&mut out, 0x0102_0304_0506_0708);
    bytes::put_i32(&mut out, -5);
    assert_eq!(
        out,
        vec![
            0x34, 0x12, 0xef, 0xbe, 0xad, 0xde, 8, 7, 6, 5, 4, 3, 2, 1, 0xfb, 0xff, 0xff, 0xff
        ]
    );
    assert_eq!(bytes::read_u16(&out, 0), 0x1234);
    assert_eq!(bytes::read_u32(&out, 2), 0xdead_beef);
    assert_eq!(bytes::read_u64(&out, 6), 0x0102_0304_0506_0708);
    assert_eq!(bytes::read_i32(&out, 14), -5);
}

#[test]
fn big_endian_numbers_come_most_significant_first() {
    let mut out = Vec::new();
    bytes::put_be32(&mut out, 0x0102_0304);
    bytes::put_be64(&mut out, 0x1122_3344_5566_7788);
    assert_eq!(out, vec![1, 2, 3, 4, 0x11, 0x22, 0x33, 0x44, 0x55, 0x66, 0x77, 0x88]);
    assert_eq!(bytes::read_be32(&out, 0), 0x0102_0304);
}

#[test]
fn splice_replaces_in_place() {
    let mut b = vec![0u8; 6];
    bytes::splice(&mut b, 2, &[7, 8]);
    assert_eq!(b, vec![0, 0, 7, 8, 0, 0]);
    bytes::set_u32(&mut b, 2, 1);
    assert_eq!(b, vec![0, 0, 1, 0, 0, 0]);
    assert!(!bytes::all_zero(&b));
    assert!(bytes::all_zero(&b[3..]));
}

#[test]
fn header_fields_round_trip() {
    let f = proto::Fields { ep: 0x12, tag: 0x34, ty: 0x56, param: 0x78, data_lo: 0x9abc_def0 };
    let m = proto::encode(&f);
    assert_eq!(m, 0x9abc_def0_7856_3412);
    assert_eq!(proto::decode(&msg(m)), f);
}

#[test]
fn registration_message_names_address_and_size() {
    assert_eq!(proto::encode_registration_msg0(0xBEE0_0000, 0x4_0000), 0x000b_ee00_0040_00fe);
}

#[test]
fn registration_refuses_what_it_cannot_say() {
    assert!(proto::shmem_registration(0xBEE0_0000, 0x4_0000).is_ok());
    assert!(proto::shmem_registration(0xBEE0_0001, 0x4_0000).is_err());
    assert!(proto::shmem_registration(0xBEE0_0000, 0).is_err());
}

#[test]
fn control_requests_carry_tag_and_type() {
    let op = proto::op_get_entropy();
    assert!(op.expects_reply());
    assert!(op.uses_reserved_tag());
    let nop = proto::op_nop(5);
    let m = proto::encode_control(&nop, 9);
    let f = proto::decode(&m);
    assert_eq!(f.ep, proto::EP_CONTROL);
    assert_eq!(f.tag, 9);
    assert_eq!(f.param, 5);
    let addr = proto::op_ool_inbound_addr(proto::EP_XARM, 0x1_2345_6000);
    let g = proto::decode(&proto::encode_control(&addr, 1));
    assert_eq!(g.ty, 0x02);
    assert_eq!(g.param, proto::EP_XARM);
    assert_eq!(g.data_lo, 0x0012_3456);
    let size = proto::op_ool_outbound_size(proto::EP_SKS, 0x4000);
    let h = proto::decode(&proto::encode_control(&size, 1));
    assert_eq!((h.ty, h.data_lo), (0x05, 0x4000));
}

#[test]
fn field_cursor_reads_in_order_and_stops() {
    let mut body = Vec::new();
    bytes::put_i32(&mut body, -2);
    bytes::put_u32(&mut body, 3);
    bytes::put_bytes(&mut body, &[9, 8, 7, 0]);
    bytes::put_i32(&mut body, 11);
    let mut c = proto::FieldCursor::new(&body);
    assert_eq!(c.i32(), Some(-2));
    assert_eq!(c.blob(), Some(&[9u8, 8, 7][..]));
    assert_eq!(c.i32(), Some(11));
    assert_eq!(c.i32(), None);
    assert_eq!(c.blob(), None);
}

#[test]
fn field_cursor_refuses_bad_padding_and_overrun() {
    let bad = [1u8, 0, 0, 0, 9, 0, 1, 0];
    assert_eq!(proto::FieldCursor::new(&bad).blob(), None);
    let long = [200u8, 0, 0, 0, 9];
    assert_eq!(proto::FieldCursor::new(&long).blob(), None);
    let empty = [0u8, 0, 0, 0];
    assert_eq!(proto::FieldCursor::new(&empty).blob(), Some(&[][..]));
}

#[test]
fn receive_ring_keeps_order_and_counts_what_it_drops() {
    let mut r = RxRing::new();
    assert!(r.pop().is_none());
    for i in 0..64u64 {
        assert!(r.push(msg(i)));
    }
    assert!(!r.push(msg(99)));
    assert_eq!(r.dropped(), 1);
    for i in 0..64u64 {
        assert_eq!(r.pop().map(|m| m.msg0), Some(i));
    }
    assert!(r.pop().is_none());
    assert!(r.push(msg(7)));
    assert_eq!(r.pop().map(|m| m.msg0), Some(7));
}

#[test]
fn control_reply_goes_to_its_request() {
    let mut s = ControlState::new();
    let (a, ta) = s.alloc_slot().unwrap();
    let (b, tb) = s.alloc_slot().unwrap();
    assert_ne!(ta, tb);
    let d = s.deliver(proto::ControlReply { tag: tb, data_lo: 42 });
    assert_eq!(d, Delivery::Matched);
    assert_eq!(s.take_reply(a), None);
    assert_eq!(s.take_reply(b).map(|r| r.data_lo), Some(42));
    s.release(a);
    s.release(b);
    assert_eq!(
        s.deliver(proto::ControlReply { tag: tb, data_lo: 1 }),
        Delivery::Unmatched
    );
}

#[test]
fn abandoned_control_tag_is_withheld() {
    let mut s = ControlState::new();
    let (i, tag) = s.alloc_slot().unwrap();
    assert_eq!(s.abandon(i), tag);
    assert_eq!(s.retired_count(), 1);
    for _ in 0..200 {
        let (k, t) = s.alloc_slot().unwrap();
        assert_ne!(t, tag);
        s.release(k);
    }
}

#[test]
fn control_slots_run_out() {
    let mut s = ControlState::new();
    for _ in 0..8 {
        assert!(s.alloc_slot().is_ok());
    }
    assert!(s.alloc_slot().is_err());
}

#[test]
fn entropy_is_drawn_by_one_at_a_time() {
    let mut s = ControlState::new();
    assert!(s.entropy_begin().is_ok());
    assert!(s.entropy_begin().is_err());
    assert_eq!(s.entropy_take(), None);
    let d = s.deliver(proto::ControlReply { tag: proto::TAG_ENTROPY, data_lo: 0x1234_5678 });
    assert_eq!(d, Delivery::Entropy);
    assert_eq!(s.entropy_take(), Some(0x1234_5678));
    s.entropy_end();
    assert!(s.entropy_begin().is_ok());
}

#[test]
fn packets_round_trip() {
    let p = Packet { version: 1, total: 100, offset: 8, flags: 2, err: 3, opcode: 4, chunk: 5 };
    let b = p.encode();
    assert_eq!(b.len(), HEADER_LEN);
    let q = Packet::decode(&b).unwrap();
    assert_eq!((q.total, q.offset, q.flags, q.err, q.opcode, q.chunk), (100, 8, 2, 3, 4, 5));
    assert!(Packet::decode(&b[..27]).is_err());
}

#[test]
fn what_is_sent_in_parts_is_put_together() {
    let payload: Vec<u8> = (0..150u8).collect();
    let mut sender = Sender::start(0x20, payload.len()).unwrap();
    let mut reassembly = Reassembly::new();
    reassembly.begin(0x20).unwrap();
    let mut parts = 0;
    loop {
        let c = sender.next(&payload, 96);
        parts += 1;
        let p = Packet::decode(&c.request).unwrap();
        let marker = if parts == 1 { 0xFC } else { 0xFD };
        let progress = reassembly.on_chunk(marker, &p, &c.request[HEADER_LEN..]);
        match progress {
            Progress::NeedMore(k) => assert_eq!(k.received as usize, p.offset as usize + p.chunk as usize),
            Progress::Complete => break,
            _ => panic!("unexpected progress"),
        }
        assert!(!c.last);
    }
    assert!(parts > 1);
    let done = reassembly.take_done().unwrap();
    assert_eq!(done.payload, payload);
    assert_eq!(done.status.answered(), Some(0));
    assert!(reassembly.take_done().is_none());
}

#[test]
fn stray_parts_change_nothing() {
    let mut r = Reassembly::new();
    let p = Packet { version: 1, total: 4, offset: 0, flags: 0, err: 0, opcode: 9, chunk: 4 };
    assert!(matches!(
        r.on_chunk(0xFD, &p, &[1, 2, 3, 4]),
        Progress::Ignored | Progress::Notification
    ));
    assert!(r.take_done().is_none());
}

#[test]
fn aborted_transfer_reports_its_status() {
    let mut r = Reassembly::new();
    r.begin(3).unwrap();
    assert!(r.begin(4).is_err());
    r.abort_with(DeviceStatus::NotAnswered);
    let done = r.take_done().unwrap();
    assert_eq!(done.status, DeviceStatus::NotAnswered);
    assert!(!done.status.is_ok());
}

#[test]
fn checksums_have_their_check_values() {
    assert_eq!(crc::crc32_ieee(b"123456789"), 0xcbf4_3926);
    assert_eq!(crc::crc16_ccitt_false(b"123456789"), 0x29b1);
    assert_eq!(crc::crc16_ansi(b"123456789"), 0xbb3d);
    assert_eq!(crc::crc32_ieee(b""), 0);
}

#[test]
fn identifiers_keep_their_bytes() {
    let b: Vec<u8> = (1..=16).collect();
    let u = Uuid::read(&b, 0);
    let mut out = Vec::new();
    u.put(&mut out);
    assert_eq!(out, b);
    assert!(!u.is_zero());
    assert!(Uuid::zero().is_zero());
    let w = Uuid::from_words(0x0102_0304_0506_0708, 0x090a_0b0c_0d0e_0f10);
    assert_eq!(w, u);
}

struct Sink;

impl MailCallback for Sink {
    type Data = std::cell::RefCell<Vec<u64>>;

    fn recv_message(data: &Self::Data, msg: Message) {
        data.borrow_mut().push(msg.msg0);
    }
}

#[test]
fn mailbox_hands_messages_on_until_it_is_closed() {
    let p = Provider { mbox: 7, device: 8 };
    let m = Mailbox::<Sink>::new_byname(Ok(p), Ok(()), std::cell::RefCell::new(Vec::new())).ok().unwrap();
    assert_eq!(m.device(), 8);
    m.receive(msg(1));
    m.receive(msg(2));
    let o = m.send(msg(3), true);
    assert_eq!(o.msg.msg0, 3);
    assert!(o.atomic);
    assert!(o.outcome(0).is_ok());
    assert_eq!(o.outcome(-16), Err(-16));
    let (q, w, data) = m.close();
    assert_eq!(q.mbox, 7);
    assert_eq!(w, Wiring::Bare);
    assert_eq!(data.into_inner(), vec![1, 2]);
}

#[test]
fn mailbox_is_not_made_where_it_cannot_be_started() {
    let p = Provider { mbox: 7, device: 8 };
    let r = Mailbox::<Sink>::new_byname(Err(Errno::ENODEV), Ok(()), std::cell::RefCell::new(Vec::new()));
    assert!(matches!(r, Err(Errno::ENODEV)));
    let r = Mailbox::<Sink>::new_byname(Ok(p), Err(Errno::EBUSY), std::cell::RefCell::new(Vec::new()));
    assert!(matches!(r, Err(Errno::EBUSY)));
    assert_eq!(wiring_after_start(true), Wiring::Wired);
    assert_eq!(wiring_after_start(false), Wiring::Bare);
}

#[test]
fn receive_ring_is_first_in_first_out_across_its_end() {
    let mut r = RxRing::new();
    let (mut next_in, mut next_out) = (0u64, 0u64);
    for round in 0..50 {
        for _ in 0..(round % 7) + 3 {
            if r.push(msg(next_in)) {
                next_in += 1;
            }
        }
        for _ in 0..(round % 5) + 2 {
            if let Some(m) = r.pop() {
                assert_eq!(m.msg0, next_out);
                next_out += 1;
            }
        }
    }
    while let Some(m) = r.pop() {
        assert_eq!(m.msg0, next_out);
        next_out += 1;
    }
    assert_eq!(next_in, next_out);
}

#[test]
fn late_control_reply_frees_its_tag() {
    let mut s = ControlState::new();
    let (i, tag) = s.alloc_slot().unwrap();
    s.abandon(i);
    let (j, other) = s.alloc_slot().unwrap();
    assert_eq!(
        s.deliver(proto::ControlReply { tag: other, data_lo: 3 }),
        Delivery::Matched
    );
    assert_eq!(s.retired_count(), 1);
    assert_eq!(
        s.deliver(proto::ControlReply { tag, data_lo: 4 }),
        Delivery::Unmatched
    );
    assert_eq!(s.retired_count(), 0);
    assert_eq!(s.take_reply(j).map(|r| r.data_lo), Some(3));
    s.release(j);
    let again = (0..126).any(|_| {
        let (k, t) = s.alloc_slot().unwrap();
        s.release(k);
        t == tag
    });
    assert!(again);
}

#[test]
fn control_requests_have_names() {
    assert_eq!(proto::op_nop(1).name(), "NOP");
    assert_eq!(proto::op_security_mode().name(), "SECMODE");
    assert_eq!(proto::op_get_entropy().name(), "GET_ENTROPY");
    assert_eq!(proto::op_ool_inbound_size(8, 1).name(), "OOL_IN_SIZE");
    assert_eq!(proto::op_ool_inbound_addr(8, 0).name(), "OOL_IN_ADDR");
    assert_eq!(proto::op_ool_outbound_size(8, 1).name(), "OOL_OUT_SIZE");
    assert_eq!(proto::op_ool_outbound_addr(8, 0).name(), "OOL_OUT_ADDR");
}
