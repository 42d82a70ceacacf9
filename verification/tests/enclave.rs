//! The enclave's side: endpoints, settling, buffers, answers and removal.

use apple_sep::control::ControlState;
use apple_sep::credential;
use apple_sep::credential::{Credential, Transact, TransactAsk, TransactEvent};
use apple_sep::errno::Errno;
use apple_sep::hwrng::HwRngHandle;
use apple_sep::mailbox::Message;
use apple_sep::ool;
use apple_sep::ool::{
    Answer, Availability, AwaitWritten, OolPair, RegisterAsk, RegisterOol, WriteWait,
};
use apple_sep::proto;
use apple_sep::proto::{ControlReply, Fields};
use apple_sep::rxring::RxRing;
use apple_sep::sbio::UserId;
use apple_sep::sbio_link;
use apple_sep::sbio_link::{Ask, Delivery, Event, Wait};
use apple_sep::scrd::{decode_scrd_reply, encode_scrd, ScrdProbe};
use apple_sep::sep;
use apple_sep::sep::{
    Attach, ControlWait, EndpointTable, Holdings, HwrngNext, HwrngRead, Memory, Phase, RemoveStep,
    Route, Settle, Survey, SurveyAsk, Tick,
};
use apple_sep::sks::SpecialHandle;
use apple_sep::transfer::{DeviceStatus, Packet, Reassembly, MARKER_NEXT};

fn message(ep: u8, tag: u8, ty: u8, param: u8, data_lo: u32) -> Message {
    Message { msg0: proto::encode(&Fields { ep, tag, ty, param, data_lo }), msg1: 0 }
}

#[test]
fn messages_are_sorted_by_endpoint() {
    assert!(matches!(sep::dispatch(&message(0xfd, 0, 1, 8, 0)), Route::Discovery(f) if f.param == 8));
    assert_eq!(
        sep::dispatch(&message(0, 5, 1, 0, 77)),
        Route::Control(ControlReply { tag: 5, data_lo: 77 })
    );
    assert_eq!(sep::dispatch(&message(0, 5, 2, 0, 77)), Route::Nobody);
    assert_eq!(sep::dispatch(&message(0x13, 0, 0, 0, 0)), Route::Xarm);
    assert_eq!(sep::dispatch(&message(0x08, 0, 0, 0, 0)), Route::Sbio);
    assert_eq!(sep::dispatch(&message(0x12, 0, 0, 0, 0)), Route::Sks);
    assert_eq!(sep::dispatch(&message(0x0a, 0, 0, 0, 0)), Route::Scrd);
    assert_eq!(sep::dispatch(&message(0xff, 0, 0, 0, 0)), Route::Nobody);
    assert_eq!(sep::dispatch(&message(0x40, 0, 0, 0, 0)), Route::Nobody);
}

#[test]
fn announced_endpoints_are_present() {
    let mut t = EndpointTable::new();
    let m = message(0xfd, 0, 0, 0x12, 9);
    t.on_discovery(m, &proto::decode(&m));
    assert!(t.endpoint_present(0x12) && !t.endpoint_present(0x13));
    let c = message(0xfd, 0, 1, 0x12, 9);
    t.on_discovery(c, &proto::decode(&c));
    assert_eq!(t.endpoint_count(), 1);
    for id in 0..63 {
        t.slot(0x40 + id).unwrap();
    }
    assert_eq!(t.slot(0xf0), Err(Errno::ENOSPC));
    assert_eq!(t.slot(0x12), Ok(0));
    assert_eq!(t.endpoint_count(), 64);
}

#[test]
fn ring_is_drained_in_order() {
    let mut rx = RxRing::new();
    for i in 0..5 {
        rx.push(Message { msg0: i, msg1: 0 });
    }
    let out: Vec<u64> = sep::drain(&mut rx).iter().map(|m| m.msg0).collect();
    assert_eq!(out, [0, 1, 2, 3, 4]);
    assert!(rx.pop().is_none());
}

#[test]
fn silence_is_waited_for_and_given_up() {
    let mut s = Settle::new();
    for _ in 0..14 {
        assert_eq!(s.tick(0), Tick::Again);
    }
    assert_eq!(s.tick(0), Tick::Nothing);
    assert_eq!(s.phase, Phase::Ready);
    assert_eq!(s.tick(9), Tick::Nothing);
}

#[test]
fn settling_prepares_after_the_last_message() {
    let mut s = Settle::new();
    s.received(3);
    assert_eq!(s.tick(3), Tick::Again);
    s.received(1);
    assert_eq!(s.tick(4), Tick::Again);
    assert_eq!(s.tick(4), Tick::Prepare);
    assert!(s.prepared(true));
    assert_eq!(s.phase, Phase::Exchange);
    s.received(1);
    assert_eq!(s.tick(8), Tick::Again);
    assert_eq!(s.tick(8), Tick::Bringup);
    assert_eq!(s.phase, Phase::Ready);
    let mut t = Settle::new();
    assert!(!t.prepared(false));
    assert_eq!(t.phase, Phase::Ready);
}

#[test]
fn exchange_goes_on_without_the_late_endpoints_in_the_end() {
    let mut s = Settle::new();
    s.prepared(true);
    for _ in 0..74 {
        assert_eq!(s.tick(7), Tick::Again);
    }
    assert_eq!(s.tick(7), Tick::Bringup);
}

#[test]
fn shared_memory_is_announced_once() {
    match sep::attach(0x1234_5000, 0x3_0000, false) {
        Attach::Mark(a) => {
            assert_eq!(a.marked(Err(Errno::ENOMEM)).err(), Some(Errno::ENOMEM));
            let m = a.marked(Ok(())).ok().unwrap();
            assert_eq!(m.msg0, 0xfe | (0x30 << 16) | (0x12345 << 32));
            assert_eq!(m.msg1, 0);
        }
        Attach::Refused(_) => panic!("refused"),
    }
    assert_eq!(sep::attach(0x1234_5000, 0x3_0000, true), Attach::Refused(Errno::EBUSY));
    assert_eq!(sep::attach(0x1234_5001, 0x3_0000, false), Attach::Refused(Errno::EINVAL));
    assert_eq!(sep::attach(0x1234_5000, 0x10_0000, false), Attach::Refused(Errno::EINVAL));
}

#[test]
fn setting_up_is_refused_for_a_reason() {
    assert_eq!(sep::may_probe(true, false, true, false), Err(Errno::EINVAL));
    assert_eq!(sep::may_probe(false, false, false, false), Err(Errno::ENODEV));
    assert_eq!(sep::may_probe(true, true, true, true), Err(Errno::EBUSY));
    assert_eq!(sep::may_probe(true, true, true, false), Ok(()));
}

#[test]
fn memory_that_was_told_of_is_left() {
    let h = Holdings {
        xarm: Some(true),
        sbio: Some(false),
        sks: None,
        scrd: None,
        ring: Some(true),
        shared: Some(false),
    };
    let steps = sep::remove(false, true, &h);
    assert_eq!(
        steps,
        [
            RemoveStep::ShutDown,
            RemoveStep::UnregisterTrustedKeys,
            RemoveStep::UnregisterVolumeKeys,
            RemoveStep::WakeWaiters,
            RemoveStep::UnregisterRng,
            RemoveStep::CloseMailbox,
            RemoveStep::CancelWork,
            RemoveStep::CloseStores,
            RemoveStep::Leave(Memory::XarmBuffers),
            RemoveStep::Free(Memory::SbioBuffers),
            RemoveStep::Leave(Memory::DmaRing),
            RemoveStep::Free(Memory::Shared),
        ]
    );
    assert_eq!(sep::remove(true, false, &h).len(), 15);
}

#[test]
fn waiting_for_an_answer_ends() {
    let mut c = ControlState::new();
    let (i, tag) = c.alloc_slot().unwrap();
    assert_eq!(sep::control_wait(&mut c, i, tag, 10), ControlWait::Longer);
    let reply = ControlReply { tag, data_lo: 3 };
    c.deliver(reply);
    assert_eq!(sep::control_wait(&mut c, i, tag, 10), ControlWait::Reply(reply));
    let (j, other) = c.alloc_slot().unwrap();
    assert_eq!(sep::control_wait(&mut c, j, other, 0), ControlWait::Silence);
    assert_eq!(c.retired_count(), 1);
    let (k, third) = c.alloc_slot().unwrap();
    c.deliver(ControlReply { tag: third, data_lo: 0 });
    assert_eq!(
        sep::control_wait(&mut c, k, third.wrapping_add(1), 1),
        ControlWait::Failed(Errno::EIO)
    );
}

#[test]
fn draws_end_one_way_or_another() {
    let mut c = ControlState::new();
    c.entropy_begin().unwrap();
    assert_eq!(sep::entropy_wait(&mut c, false, 5), None);
    c.deliver(ControlReply { tag: proto::TAG_ENTROPY, data_lo: 0xabcd });
    assert_eq!(sep::entropy_wait(&mut c, false, 5), Some(Ok(0xabcd)));
    c.entropy_begin().unwrap();
    assert_eq!(sep::entropy_wait(&mut c, true, 5), Some(Err(Errno::ECANCELED)));
    c.entropy_begin().unwrap();
    assert_eq!(sep::entropy_wait(&mut c, false, 0), Some(Err(Errno::ETIMEDOUT)));
}

#[test]
fn requests_that_do_not_go_out_are_given_up() {
    let mut c = ControlState::new();
    let (idx, tag, msg) = sep::control_begin(&mut c, &proto::op_nop(0x01)).unwrap();
    assert_eq!(msg, message(0, tag, 0x00, 0x01, 0));
    assert_eq!(sep::control_sent(&mut c, idx, Ok(())), Ok(()));
    assert_eq!(c.retired_count(), 0);
    assert_eq!(sep::control_sent(&mut c, idx, Err(Errno::EIO)), Err(Errno::EIO));
    assert_eq!(c.retired_count(), 1);
    for _ in 0..8 {
        assert!(sep::control_begin(&mut c, &proto::op_security_mode()).is_ok());
    }
    assert_eq!(sep::control_begin(&mut c, &proto::op_nop(0)), Err(Errno::EBUSY));

    assert_eq!(
        sep::entropy_ask(&mut c),
        Ok(message(0, proto::TAG_ENTROPY, 0x36, 0, 0))
    );
    assert_eq!(sep::entropy_ask(&mut c), Err(Errno::EBUSY));
    assert_eq!(sep::entropy_sent(&mut c, Err(Errno::EIO)), Err(Errno::EIO));
    assert!(sep::entropy_ask(&mut c).is_ok());
    assert_eq!(sep::entropy_sent(&mut c, Ok(())), Ok(()));
    assert_eq!(sep::entropy_ask(&mut c), Err(Errno::EBUSY));
}

#[test]
fn survey_offers_a_source_that_answers() {
    let mut s = Survey::start();
    assert_eq!(s.step(true), SurveyAsk::Request(proto::op_nop(0x00)));
    assert_eq!(s.step(false), SurveyAsk::Request(proto::op_nop(0x01)));
    assert_eq!(s.step(false), SurveyAsk::Request(proto::op_nop(0xff)));
    assert_eq!(s.step(true), SurveyAsk::Request(proto::op_security_mode()));
    assert_eq!(s.step(false), SurveyAsk::Draw);
    let mut silent = s;
    assert_eq!(silent.step(false), SurveyAsk::LeaveRng);
    assert_eq!(silent.step(true), SurveyAsk::Nothing);
    for _ in 0..3 {
        assert_eq!(s.step(true), SurveyAsk::Draw);
    }
    assert_eq!(s.step(true), SurveyAsk::RegisterRng);
    assert_eq!(s.step(true), SurveyAsk::Nothing);
}

#[test]
fn random_reads_never_answer_zero_to_a_waiter() {
    assert!(HwrngRead::start(64, false).is_none());
    let mut h = HwrngRead::start(10, true).unwrap();
    assert_eq!(h.next(false), HwrngNext::Draw);
    h.drew(Ok(0x0403_0201));
    assert_eq!(h.next(false), HwrngNext::Draw);
    h.drew(Err(Errno::ETIMEDOUT));
    assert_eq!(h.next(false), HwrngNext::Return(4));
    assert_eq!(h.bytes(), [1, 2, 3, 4]);
    let mut none = HwrngRead::start(64, true).unwrap();
    none.drew(Err(Errno::ETIMEDOUT));
    assert_eq!(none.next(false), HwrngNext::Return(-110));
    let mut going = HwrngRead::start(64, true).unwrap();
    assert_eq!(going.next(true), HwrngNext::Return(-19));
    let mut tiny = HwrngRead::start(3, true).unwrap();
    assert_eq!(tiny.next(false), HwrngNext::Return(-5));
    let mut big = HwrngRead::start(4096, true).unwrap();
    for _ in 0..16 {
        assert_eq!(big.next(false), HwrngNext::Draw);
        big.drew(Ok(7));
    }
    assert_eq!(big.next(false), HwrngNext::Return(64));
}

#[test]
fn random_source_is_registered_once() {
    assert!(matches!(HwRngHandle::new(false), Err(Errno::ENOMEM)));
    let mut h = HwRngHandle::new(true).ok().unwrap();
    assert_eq!(h.may_register(), Ok(()));
    assert_eq!(h.registered(Err(Errno::EIO)), Err(Errno::EIO));
    assert!(!h.unregister());
    assert_eq!(h.registered(Ok(())), Ok(()));
    assert!(h.may_register().is_err());
    assert!(h.unregister());
    assert!(!h.unregister());
}

#[test]
fn bytes_are_shown_in_hexadecimal() {
    let s: String = sep::to_hex(&[0x00, 0x9f, 0xab]).into_iter().collect();
    assert_eq!(s, "00 9f ab");
    assert!(sep::to_hex(&[]).is_empty());
}

#[test]
fn buffers_are_bounded() {
    assert_eq!(OolPair::new(8, 0x4000, (0x4001, 1)).err(), Some(Errno::EINVAL));
    let p = OolPair::new(8, 16, (16, 8)).unwrap();
    let mut inbound = ool::fill(16, ool::OOL_POISON_INBOUND);
    assert_eq!(p.write(&mut inbound, 12, &[1, 2, 3, 4]), Ok(()));
    assert_eq!(inbound[12..], [1, 2, 3, 4]);
    assert_eq!(p.write(&mut inbound, 13, &[9, 9, 9, 9]), Err(Errno::ENOSPC));
    assert_eq!(inbound[12..], [1, 2, 3, 4]);
    let mut outbound = ool::fill(16, ool::OOL_POISON_OUTBOUND);
    assert!(!p.written(&outbound, 4, 8));
    outbound[11] = 0;
    assert!(p.written(&outbound, 4, 8));
    assert!(!p.written(&outbound, 4, 7));
    assert!(p.written(&outbound, 12, 5));
    assert_eq!(p.read(&outbound, 11, 1), Ok(vec![0]));
    assert_eq!(p.read(&outbound, 11, 6), Err(Errno::EINVAL));
    assert_eq!(ool::sks_declared_sizes(), (0x8000, 0x4000));
}

#[test]
fn wait_for_a_write_is_bounded() {
    let (mut w, first) = AwaitWritten::start();
    assert_eq!(first, WriteWait::Look);
    let mut early = w;
    assert_eq!(early.looked(true), WriteWait::Over(true));
    for _ in 0..199 {
        assert_eq!(w.looked(false), WriteWait::Sleep(1));
        assert_eq!(w.slept(), WriteWait::Look);
    }
    w.looked(false);
    assert_eq!(w.slept(), WriteWait::Over(false));
}

#[test]
fn registering_takes_four_answers() {
    let p = OolPair::new(0x12, 0x8000, (0x8000, 0x4000)).unwrap();
    let (mut m, ask) = RegisterOol::start(p, 0x10_0000, 0x20_0000);
    let mut tys = Vec::new();
    let mut ask = ask;
    while let RegisterAsk::Request(op) = ask {
        assert_eq!(op.param, 0x12);
        tys.push((op.ty, op.data));
        assert!(!m.pair.registered);
        ask = m.step(Answer::Answered);
    }
    assert_eq!(tys, [(4, 0x8000), (2, 0x100), (5, 0x4000), (3, 0x200)]);
    assert_eq!(ask, RegisterAsk::Done(None));
    assert!(m.pair.registered);
    let (mut n, _) = RegisterOol::start(p, 0, 0);
    assert_eq!(n.step(Answer::Silence), RegisterAsk::Done(Some(Errno::ETIMEDOUT)));
    assert_eq!(n.step(Answer::NotSent(Errno::EAGAIN)), RegisterAsk::Done(Some(Errno::EAGAIN)));
    assert_eq!(RegisterOol::start(m.pair, 0, 0).1, RegisterAsk::Done(None));
    assert_eq!(ool::availability(true, false), Availability::Ready);
    assert_eq!(ool::availability(false, true), Availability::Register);
    assert_eq!(ool::availability(false, false), Availability::Absent);
}

fn running() -> Reassembly {
    let mut rx = Reassembly::new();
    sbio_link::begin_transfer(&mut rx, true, 7, 4).unwrap();
    sbio_link::sent_all(&mut rx);
    rx
}

fn answer(chunk: u32) -> Packet {
    Packet { version: 1, total: chunk, offset: 0, flags: 0, err: 0, opcode: 7, chunk }
}

#[test]
fn an_answer_is_read_and_handed_over() {
    let mut rx = running();
    let (mut d, ask) = Delivery::start(true, 0xfc);
    assert!(matches!(ask, Ask::AwaitWritten { at: 0, len: 28 }));
    assert!(matches!(d.step(&mut rx, &Event::Written(true)), Ask::Read { at: 0, len: 28 }));
    let head = answer(3).encode();
    assert!(matches!(
        d.step(&mut rx, &Event::Bytes(Some(&head))),
        Ask::AwaitWritten { at: 28, len: 3 }
    ));
    assert!(matches!(d.step(&mut rx, &Event::Written(true)), Ask::Read { at: 28, len: 3 }));
    assert!(matches!(d.step(&mut rx, &Event::Bytes(Some(&[1, 2, 3]))), Ask::Notify));
    match sbio_link::await_answer(&mut rx, 5) {
        Wait::Answered(c) => {
            assert_eq!(c.status, DeviceStatus::Answered(0));
            assert_eq!(c.payload, [1, 2, 3]);
        },
        _ => panic!("no answer"),
    }
}

#[test]
fn an_unwritten_buffer_is_told_apart() {
    let mut rx = running();
    let (mut d, _) = Delivery::start(true, 0xfc);
    assert!(matches!(d.step(&mut rx, &Event::Written(false)), Ask::Notify));
    match sbio_link::await_answer(&mut rx, 5) {
        Wait::Answered(c) => assert_eq!(c.status, DeviceStatus::BufferNeverWritten),
        _ => panic!("no answer"),
    }
    let mut rx = running();
    let (mut d, _) = Delivery::start(true, 0xfc);
    d.step(&mut rx, &Event::Written(true));
    assert!(matches!(d.step(&mut rx, &Event::Bytes(None)), Ask::Notify));
    match sbio_link::await_answer(&mut rx, 5) {
        Wait::Answered(c) => assert_eq!(c.status, DeviceStatus::NotAnswered),
        _ => panic!("no answer"),
    }
    assert!(matches!(Delivery::start(false, 0xfc).1, Ask::Nothing));
}

#[test]
fn a_failure_leaves_room() {
    let mut rx = Reassembly::new();
    assert_eq!(sbio_link::begin_transfer(&mut rx, false, 7, 4).err(), Some(Errno::ENODEV));
    assert_eq!(sbio_link::begin_transfer(&mut rx, true, 7, 0x4b001).err(), Some(Errno::EINVAL));
    assert!(sbio_link::begin_transfer(&mut rx, true, 7, 4).is_ok());
    assert_eq!(sbio_link::begin_transfer(&mut rx, true, 7, 4).err(), Some(Errno::EBUSY));
    assert!(matches!(sbio_link::await_grant(&mut rx, 4), Wait::Longer));
    assert!(matches!(sbio_link::await_grant(&mut rx, 0), Wait::TimedOut));
    sbio_link::send_failed(&mut rx);
    assert!(sbio_link::begin_transfer(&mut rx, true, 7, 4).is_ok());
    sbio_link::sent_all(&mut rx);
    assert!(matches!(sbio_link::await_answer(&mut rx, 1), Wait::Longer));
    assert!(matches!(sbio_link::await_answer(&mut rx, 0), Wait::TimedOut));
    assert!(sbio_link::begin_transfer(&mut rx, true, 7, 4).is_ok());
}

#[test]
fn a_long_answer_is_asked_for_piece_by_piece() {
    let mut rx = running();
    let p = Packet { total: 5, chunk: 3, ..answer(3) };
    let (mut d, _) = Delivery::start(true, 0xfc);
    d.step(&mut rx, &Event::Written(true));
    d.step(&mut rx, &Event::Bytes(Some(&p.encode())));
    d.step(&mut rx, &Event::Written(true));
    match d.step(&mut rx, &Event::Bytes(Some(&[1, 2, 3]))) {
        Ask::Send(c) => assert_eq!((c.received, c.total), (3, 5)),
        _ => panic!("no continuation"),
    }
    assert!(matches!(d.step(&mut rx, &Event::Sent(true)), Ask::Nothing));
    let q = Packet { total: 5, offset: 3, chunk: 2, ..answer(2) };
    let (mut e, _) = Delivery::start(true, MARKER_NEXT);
    e.step(&mut rx, &Event::Written(true));
    e.step(&mut rx, &Event::Bytes(Some(&q.encode())));
    e.step(&mut rx, &Event::Written(true));
    assert!(matches!(e.step(&mut rx, &Event::Bytes(Some(&[4, 5]))), Ask::Notify));
    match sbio_link::await_answer(&mut rx, 5) {
        Wait::Answered(c) => assert_eq!(c.payload, [1, 2, 3, 4, 5]),
        _ => panic!("no answer"),
    }
}

fn scrd_reply(request: u8) -> Message {
    encode_scrd(request, 0)
}

fn did(ok: bool) -> TransactEvent {
    TransactEvent::Did(ok)
}

#[test]
fn a_command_gets_its_own_answer() {
    let mut probe = ScrdProbe::new();
    assert_eq!(Transact::start(false, 1, &[1, 2, 3, 4]).1, TransactAsk::Failed);
    let (mut t, ask) = Transact::start(true, 1, &[1, 2, 3, 4]);
    assert_eq!(ask, TransactAsk::ClearBuffers);
    assert_eq!(t.step(&mut probe, did(true)), TransactAsk::WritePayload(vec![1, 2, 3, 4]));
    assert_eq!(t.step(&mut probe, did(true)), TransactAsk::Send(encode_scrd(1, 4)));
    assert_eq!(t.step(&mut probe, did(true)), TransactAsk::Await(1));
    probe.on_scrd(scrd_reply(2));
    assert_eq!(t.step(&mut probe, TransactEvent::Awaited), TransactAsk::Await(2));
    let answer = scrd_reply(1);
    probe.on_scrd(answer);
    let reply = decode_scrd_reply(&answer);
    assert_eq!(reply.request, 1);
    assert_eq!(reply.response_size, 0);
    assert_eq!(t.step(&mut probe, TransactEvent::Awaited), TransactAsk::Done(reply, vec![]));
    assert!(!probe.on_scrd(scrd_reply(1)));
}

#[test]
fn a_response_is_what_was_read() {
    let answer = encode_scrd(1, 3);
    let reply = decode_scrd_reply(&answer);
    for read in [Some(vec![7, 8, 9]), None] {
        let mut probe = ScrdProbe::new();
        let (mut t, _) = Transact::start(true, 1, &[]);
        assert_eq!(t.step(&mut probe, did(true)), TransactAsk::Send(encode_scrd(1, 0)));
        t.step(&mut probe, did(true));
        probe.on_scrd(answer);
        assert_eq!(t.step(&mut probe, TransactEvent::Awaited), TransactAsk::ReadResponse(3));
        let given = read.clone().unwrap_or_default();
        let ask = t.step(&mut probe, TransactEvent::Read(read));
        assert_eq!(ask, TransactAsk::Done(reply, given));
    }
}

#[test]
fn a_command_without_an_answer_fails() {
    let mut probe = ScrdProbe::new();
    let (mut t, _) = Transact::start(true, 1, &[]);
    assert_eq!(t.step(&mut probe, did(true)), TransactAsk::Send(encode_scrd(1, 0)));
    t.step(&mut probe, did(true));
    assert_eq!(t.step(&mut probe, TransactEvent::Awaited), TransactAsk::Failed);
    assert!(!probe.on_scrd(scrd_reply(1)));
    let (mut unsent, _) = Transact::start(true, 1, &[]);
    unsent.step(&mut probe, did(true));
    assert_eq!(unsent.step(&mut probe, did(false)), TransactAsk::Failed);
    let (mut full, _) = Transact::start(true, 1, &[]);
    full.step(&mut probe, did(true));
    full.step(&mut probe, did(true));
    for i in 0..8 {
        probe.on_scrd(scrd_reply(2));
        let ask = full.step(&mut probe, TransactEvent::Awaited);
        if i < 7 {
            assert_eq!(ask, TransactAsk::Await(i + 2));
        } else {
            assert_eq!(ask, TransactAsk::Failed);
        }
    }
}

const CONTEXT: [u8; 16] = [6; 16];
const BAG: SpecialHandle = SpecialHandle(-1000);

fn said(status: i32, out: &[u8]) -> credential::Event<'_> {
    credential::Event::Answer(Some((status, out)))
}

/// A credential for an enrolment, come to where the secret is checked.
fn checking() -> Credential {
    let user = UserId::new(1000).unwrap();
    let (mut c, ask) = Credential::start(user, true);
    assert_eq!(ask, credential::Ask::Ready);
    assert_eq!(c.step(credential::Event::Ready(true)), credential::Ask::Material);
    let material = credential::Event::Material(Some((BAG, vec![4, 5])));
    assert_eq!(c.step(material), credential::Ask::Initialize);
    assert_eq!(c.step(said(0, &[])), credential::Ask::CreateContext(user));
    assert_eq!(c.step(said(0, &CONTEXT)), credential::Ask::Externalize(CONTEXT));
    let check = credential::Ask::VerifySecret(BAG, vec![4, 5], CONTEXT);
    assert_eq!(c.step(said(0, &[])), check);
    c
}

#[test]
fn a_credential_needs_the_secret() {
    let mut wrong = checking();
    assert_eq!(wrong.step(credential::Event::Verified(Some(-3))), credential::Ask::Done(None));
    let policy = credential::Ask::VerifyPolicy(CONTEXT);
    let mut unsatisfied = checking();
    assert_eq!(unsatisfied.step(credential::Event::Verified(Some(0))), policy);
    assert_eq!(unsatisfied.step(said(0, &[0, 0, 0, 0])), credential::Ask::Done(None));
    let mut c = checking();
    assert_eq!(c.step(credential::Event::Verified(Some(0))), policy);
    assert_eq!(c.step(said(0, &[1, 0, 0, 0])), credential::Ask::Done(Some(CONTEXT)));
    let user = UserId::new(1000).unwrap();
    let (mut none, _) = Credential::start(user, true);
    none.step(credential::Event::Ready(true));
    assert_eq!(none.step(credential::Event::Material(None)), credential::Ask::Done(None));
    let (mut short, _) = Credential::start(user, true);
    short.step(credential::Event::Ready(true));
    short.step(credential::Event::Material(Some((BAG, vec![4, 5]))));
    short.step(said(0, &[]));
    assert_eq!(short.step(said(0, &CONTEXT[..15])), credential::Ask::Done(None));
    assert_eq!(short.secret, None);
}

#[test]
fn matching_uses_the_stored_secret() {
    let (mut c, _) = Credential::start(UserId::new(1000).unwrap(), false);
    assert_eq!(c.step(credential::Event::Ready(true)), credential::Ask::StoredSecret);
    let stored = credential::Event::Stored(Some(vec![8]));
    assert_eq!(c.step(stored), credential::Ask::Initialize);
    c.step(said(0, &[]));
    c.step(said(0, &CONTEXT));
    let check = credential::Ask::VerifySecret(BAG, vec![8], CONTEXT);
    assert_eq!(c.step(said(0, &[])), check);
    c.step(credential::Event::Verified(Some(0)));
    assert_eq!(c.step(said(1, &[])), credential::Ask::Done(Some(CONTEXT)));
    let (mut none, _) = Credential::start(UserId::new(1000).unwrap(), false);
    none.step(credential::Event::Ready(true));
    assert_eq!(none.step(credential::Event::Stored(None)), credential::Ask::Done(None));
    let (mut small, _) = Credential::start(UserId::new(9).unwrap(), false);
    assert_eq!(small.step(credential::Event::Ready(true)), credential::Ask::Done(None));
    let (mut absent, _) = Credential::start(UserId::new(1000).unwrap(), false);
    assert_eq!(absent.step(credential::Event::Ready(false)), credential::Ask::Done(None));
}
