//! The sensor processor: rings, calls, setup port, life cycle and sensors.

use apple_sep::afk;
use apple_sep::afk::{AFKEndpoint, Action};
use apple_sep::afk_ring;
use apple_sep::afk_ring::{AFKRingBuffer, Found};
use apple_sep::als_calibration;
use apple_sep::aop::{from_fourcc, EPICService, FakehidListener, FakehidRegistration, Parent, AOP};
use apple_sep::aop_als;
use apple_sep::aop_driver::AopData;
use apple_sep::aop_las;
use apple_sep::aop_life;
use apple_sep::aop_life::{
    AopMachine, ChildAsk, Patch, Probe, ProbeAsk, RegisterChild, Remove, RemoveAsk, ServiceDevice,
    StartAfk, StartAsk, StartEvent, Stop, StopAsk, StopEvent,
};
use apple_sep::aop_receive;
use apple_sep::aop_receive::{Outcome, Turn};
use apple_sep::aop_sensors::{
    AopSensorData, IIODevice, IIORegistration, InfoMask, SensorAsk, SensorProbe, ValueKind,
};
use apple_sep::aop_setup;
use apple_sep::aop_setup::{Plan, SetupState, Wait};
use apple_sep::epic;
use apple_sep::epic::{Calls, EPICHeaderFields, Reply};
use apple_sep::errno::Errno;
use apple_sep::mailbox::Message;

type Core = AopData<AopSensorData<aop_las::MsgProc>>;

/// A buffer with a ring of 0x340 bytes at `offset`, in blocks of 0x40.
fn ring_at(mem: &mut Vec<u8>, offset: usize) -> u64 {
    mem[offset..offset + 4].copy_from_slice(&0x340u32.to_le_bytes());
    ((offset as u64 / 0x40) << 32) | ((0x400 / 0x40) << 16)
}

fn ring() -> (Vec<u8>, AFKRingBuffer) {
    let mut mem = vec![0; 0x800];
    let msg = ring_at(&mut mem, 0x400);
    let r = afk_ring::parse_ring_buf(&mem, msg).unwrap();
    (mem, r)
}

fn point(mem: &mut Vec<u8>, r: &AFKRingBuffer, rptr: u32, wptr: u32) {
    afk_ring::iomem_write32(mem, r.offset + r.block_size, rptr).unwrap();
    afk_ring::iomem_write32(mem, r.offset + 2 * r.block_size, wptr).unwrap();
}

#[test]
fn rings_are_found_where_they_are_announced() {
    let (mem, r) = ring();
    assert_eq!(r, AFKRingBuffer { offset: 0x400, block_size: 0x40, buf_size: 0x340 });
    let past = ((0x700 / 0x40) << 32) | ((0x400 / 0x40) << 16);
    assert_eq!(afk_ring::parse_ring_buf(&mem, past), Err(Errno::EIO));
    let mut odd = mem.clone();
    odd[0x400] = 0x20;
    odd[0x401] = 3;
    let msg = ((0x400 / 0x40) << 32) | ((0x400 / 0x40) << 16);
    assert_eq!(afk_ring::parse_ring_buf(&odd, msg), Err(Errno::EIO));
    assert_eq!(afk_ring::iomem_read32(&mem, 0x402), Err(Errno::EIO));
    assert_eq!(afk_ring::iomem_read32(&mem, 0x800), Err(Errno::EIO));
    assert_eq!(afk_ring::iomem_read32(&mem, 0x400), Ok(0x340));
    assert_eq!(afk_ring::memcpy_from_iomem(&mem, 0x7ff, 2), Err(Errno::EIO));
}

#[test]
fn a_ring_carries_entries() {
    let (mut mem, r) = ring();
    let next = afk_ring::write_entry(&mut mem, &r, 7, 0, &[1, 2], &[3, 4, 5]).unwrap();
    assert_eq!(next, 0x40);
    match afk_ring::look(&mem, &r, 0) {
        Ok(Found::Message(e)) => {
            assert_eq!((e.channel, e.next), (7, 0x40));
            assert_eq!(e.payload, [1, 2, 3, 4, 5]);
        },
        _ => panic!("no entry"),
    }
    assert!(matches!(afk_ring::look(&mem, &r, 0x40), Ok(Found::Nothing)));
    afk_ring::pass(&mut mem, &r, 0x40).unwrap();
    assert_eq!(afk_ring::pointers(&mem, &r), Ok((0x40, 0x40)));
}

#[test]
fn an_entry_that_does_not_fit_goes_to_the_start() {
    let (mut mem, r) = ring();
    point(&mut mem, &r, 0x300, 0x300);
    let next = afk_ring::write_entry(&mut mem, &r, 9, 0, &[], &[6; 0x60]).unwrap();
    assert_eq!(next, 0x80);
    match afk_ring::look(&mem, &r, 0x300) {
        Ok(Found::Message(e)) => {
            assert_eq!((e.channel, e.next), (9, 0x80));
            assert_eq!(e.payload, [6; 0x60]);
        },
        _ => panic!("no entry"),
    }
}

#[test]
fn a_full_ring_takes_nothing() {
    let (mut mem, r) = ring();
    point(&mut mem, &r, 0x50, 0x40);
    let before = mem.clone();
    assert_eq!(afk_ring::write_entry(&mut mem, &r, 1, 0, &[], &[1]), Err(Errno::EIO));
    assert_eq!(mem, before);
    point(&mut mem, &r, 0, 0);
    assert_eq!(afk_ring::write_entry(&mut mem, &r, 1, 0, &[2; 40], &[1; 0x900]), Err(Errno::EIO));
    assert_eq!(afk_ring::pointers(&mem, &r), Ok((0, 0)));
    assert_eq!(mem[0x400 + 0xc0 + 16..0x400 + 0xc0 + 56], [2; 40]);
    point(&mut mem, &r, 0, 0x40);
    mem[0x400 + 0xc0] = 0;
    assert!(matches!(afk_ring::look(&mem, &r, 0), Err(Errno::EIO)));
}

#[test]
fn call_headers_are_read_in_either_layout() {
    for v4 in [false, true] {
        let h = epic::header(v4, 0x1234, 5, 0xa, 3, 16);
        assert_eq!(h.len(), 40);
        assert_eq!(h[..3], [2, 0x34, 0x12]);
        let mut msg = h;
        msg.extend_from_slice(&[9, 8]);
        let (f, data) = EPICHeaderFields::decode(&msg).unwrap();
        assert_eq!(f, EPICHeaderFields { category: 0x10, subtype: 0xa, tag: 3 });
        assert_eq!(data, [9, 8]);
    }
    assert_eq!(epic::header(true, 0, 0, 0, 0, 16)[36], 16);
    assert_eq!(epic::header(false, 0, 0, 0, 0, 16)[36], 0);
    assert!(EPICHeaderFields::decode(&[0; 39]).is_none());
}

#[test]
fn replies_find_their_calls() {
    let mut c = Calls::new();
    let a = c.place(false).unwrap();
    let id = c.enter(a, Some(2));
    let b = c.place(false).unwrap();
    let other = c.enter(b, None);
    assert_eq!((a, b), (0, 1));
    match c.reply(false, 1, &[7, 0, 0, 0, 1, 2, 3]) {
        Ok(Reply::Answer { id: to, retcode, data }) => {
            assert_eq!((to, retcode), (id, 7));
            assert_eq!(data, Some(vec![1, 2]));
        },
        _ => panic!("no answer"),
    }
    assert!(matches!(c.reply(false, 1, &[0; 4]), Err(Errno::ENOENT)));
    assert!(matches!(c.reply(false, 0, &[0; 4]), Err(Errno::EINVAL)));
    assert!(matches!(c.reply(false, 9, &[0; 4]), Err(Errno::EINVAL)));
    assert!(matches!(c.reply(false, 2, &[0; 3]), Err(Errno::EMSGSIZE)));
    c.abandon(other);
    assert_eq!(c.place(false), Ok(0));
    assert_eq!(c.place(true), Err(Errno::EIO));
    assert!(matches!(c.reply(false, 2, &[0; 4]), Ok(Reply::Late)));
    assert_eq!(c.place(true), Ok(0));
    let only = c.enter(0, None);
    assert!(matches!(c.reply(true, 0, &[0; 4]), Ok(Reply::Answer { id, .. }) if id == only));
    assert!(matches!(c.reply(true, 0, &[0; 4]), Err(Errno::ENOENT)));
    for i in 0..8 {
        c.enter(i, None);
    }
    assert_eq!(c.place(false), Err(Errno::EIO));
}

#[test]
fn an_endpoint_is_set_up_message_by_message() {
    let mut e = AFKEndpoint::new(0x20);
    let none: Vec<u8> = Vec::new();
    assert_eq!(e.recv_message(&none, 0x80 << 48), Ok(Action::Send(0xa0 << 48)));
    assert_eq!(e.recv_message(&none, 0x8b << 48), Err(Errno::ENXIO));
    assert_eq!(e.recv_message(&none, (0x89 << 48) | (0x20 << 16)), Ok(Action::Allocate(0x800)));
    assert_eq!(e.recv_get_buf(0x800, Err(Errno::ENOMEM)), Err(Errno::ENOMEM));
    assert_eq!(e.recv_get_buf(0x800, Ok(0x1000)), Ok((0xa1 << 48) | 0x1000));
    assert_eq!(e.recv_message(&none, 0x89 << 48), Err(Errno::EIO));
    let mut mem = vec![0; 0x800];
    let rx = ring_at(&mut mem, 0);
    let tx = ring_at(&mut mem, 0x400);
    assert_eq!(e.recv_message(&mem, (0x8b << 48) | rx), Ok(Action::Nothing));
    assert_eq!(e.recv_message(&mem, (0x8b << 48) | rx), Err(Errno::EIO));
    assert_eq!(e.recv_message(&mem, (0x8a << 48) | tx), Ok(Action::Send(0xa3 << 48)));
    assert_eq!(e.recv_message(&mem, 0x85 << 48), Ok(Action::Receive));
    assert_eq!(e.recv_message(&mem, 0xc1 << 48), Ok(Action::ShutDown));
    assert_eq!(e.recv_message(&mem, 0x86 << 48), Ok(Action::Nothing));
    assert_eq!(e.recv_message(&mem, 0x77 << 48), Ok(Action::Unknown));
    assert_eq!(afk::afk_endpoint_index(0x2e), Some(14));
    assert_eq!(afk::afk_endpoint_index(0x2f), None);
    assert_eq!(afk::afk_endpoint_index(0x1f), None);
}

/// A core on which the first endpoint has its rings.
fn core_with(v4: bool) -> (Core, Vec<u8>) {
    let mut aop: Core = AopData::new(v4, false, vec![]);
    aop.open_transport();
    let mut mem = vec![0; 0x800];
    let rx = ring_at(&mut mem, 0);
    let tx = ring_at(&mut mem, 0x400);
    aop.endpoints[0].recv_get_buf(0x800, Ok(0x1000)).unwrap();
    aop_receive::recv_message(&mut aop, &mem, 0x20, (0x8b << 48) | rx).unwrap().unwrap();
    aop_receive::recv_message(&mut aop, &mem, 0x20, (0x8a << 48) | tx).unwrap().unwrap();
    (aop, mem)
}

/// Puts a message of the firmware into the ring that the core reads.
fn from_firmware(aop: &Core, mem: &mut Vec<u8>, channel: u32, head: [u8; 4], tag: u16, data: &[u8]) {
    let mut h = vec![0; 40];
    h[20] = 2;
    h[21] = head[0];
    h[22] = head[1];
    h[24] = tag as u8;
    let rx = aop.endpoints[0].rxbuf.unwrap();
    afk_ring::write_entry(mem, &rx, channel, 0, &h, data).unwrap();
}

const SVC: EPICService = EPICService { channel: 7, endpoint: 0x20 };

#[test]
fn calls_are_written_and_answered() {
    let (mut aop, mut mem) = core_with(false);
    let s = aop.epic_call_ret(&mut mem, &SVC, 0xa, &[1, 2], 16).unwrap();
    assert_eq!((s.index, s.doorbell), (0, (0xa2 << 48) | 0x40));
    let tx = aop.endpoints[0].txbuf.unwrap();
    match afk_ring::look(&mem, &tx, 0) {
        Ok(Found::Message(e)) => {
            assert_eq!(e.channel, 7);
            assert_eq!(e.payload[..40], epic::header(false, 0, 2, 0xa, 1, 16)[..]);
            assert_eq!(e.payload[40..], [1, 2]);
        },
        _ => panic!("no call"),
    }
    from_firmware(&aop, &mut mem, 7, [0x20, 0xa0, 0, 0], 1, &[0, 0, 0, 0, 5, 6]);
    match aop_receive::receive(&mut aop, &mem, 0, 0) {
        Ok(Turn::Entry { outcome: Outcome::Reply(Reply::Answer { id, retcode, data }), next }) => {
            assert_eq!((id, retcode, next), (s.id, 0, 0x40));
            assert_eq!(aop.wait_call_ret(&s, Some((retcode, data))), Ok((0, vec![5, 6])));
        },
        _ => panic!("no answer"),
    }
    assert!(matches!(aop_receive::receive(&mut aop, &mem, 0, 0x40), Ok(Turn::End)));
}

#[test]
fn calls_are_refused_for_a_reason() {
    let (mut aop, mut mem) = core_with(true);
    let far = EPICService { channel: 7, endpoint: 0x40 };
    assert_eq!(aop.epic_call(&mut mem, &far, 1, &[]), Err(Errno::EINVAL));
    let s = aop.epic_call(&mut mem, &SVC, 1, &[]).unwrap();
    assert_eq!(aop.wait_call(&s, None), Err(Errno::ETIMEDOUT));
    assert_eq!(aop.epic_call(&mut mem, &SVC, 1, &[]), Err(Errno::EIO));
    from_firmware(&aop, &mut mem, 7, [0x20, 0x84, 0, 0], 0, &[0; 4]);
    assert!(matches!(
        aop_receive::receive(&mut aop, &mem, 0, 0),
        Ok(Turn::Entry { outcome: Outcome::Reply(Reply::Late), .. })
    ));
    let t = aop.epic_call(&mut mem, &SVC, 1, &[]).unwrap();
    assert_eq!(aop.wait_call(&t, Some(3)), Ok(3));
    assert_eq!(aop.wait_call_ret(&t, Some((3, None))), Err(Errno::EIO));
    let bare = EPICService { channel: 7, endpoint: 0x21 };
    assert_eq!(aop.epic_call(&mut Vec::new(), &bare, 1, &[]), Err(Errno::EIO));
    aop.close_transport();
    assert_eq!(aop.epic_call(&mut mem, &SVC, 1, &[]), Err(Errno::ENODEV));
    let (mut gone, mut mem2) = core_with(false);
    gone.rtkit = false;
    assert_eq!(gone.epic_call(&mut mem2, &SVC, 1, &[]), Err(Errno::ENODEV));
    assert!(aop_receive::recv_message(&mut gone, &mem2, 0x20, 0x80 << 48).is_none());
    assert!(aop_receive::recv_message(&mut gone, &mem2, 0x50, 0x80 << 48).is_none());
}

#[test]
fn services_announce_themselves() {
    let (mut aop, mut mem) = core_with(false);
    let mut data = vec![0; 44];
    data[..3].copy_from_slice(b"als");
    data[32] = 9;
    from_firmware(&aop, &mut mem, 1, [0, 0xc0, 0, 0], 0, &data);
    let svc = EPICService { channel: 9, endpoint: 0x20 };
    match aop_receive::receive(&mut aop, &mem, 0, 0) {
        Ok(Turn::Entry { outcome: Outcome::Register(d, s), .. }) => {
            assert_eq!((d, s), (ServiceDevice::Als, svc));
        },
        _ => panic!("no announcement"),
    }
    aop.remove();
    assert!(matches!(
        aop_receive::receive(&mut aop, &mem, 0, 0),
        Ok(Turn::Entry { outcome: Outcome::Nothing, .. })
    ));
    assert_eq!(aop_life::register_service(b"aop-audio", false), Some(ServiceDevice::Audio));
    assert_eq!(aop_life::register_service(b"las", false), Some(ServiceDevice::Las));
    assert_eq!(aop_life::register_service(b"lasx", false), None);
}

#[test]
fn reports_go_to_whoever_listens() {
    let (mut aop, mut mem) = core_with(false);
    from_firmware(&aop, &mut mem, 7, [0, 0xc4, 0, 0], 0, &[0, 90]);
    assert!(matches!(
        aop_receive::receive(&mut aop, &mem, 0, 0),
        Ok(Turn::Entry { outcome: Outcome::Nothing, .. })
    ));
    let lid = AopSensorData::new(3, aop_las::MsgProc);
    let mut reg = FakehidRegistration::new(&mut aop, SVC, lid).ok().unwrap();
    assert!(matches!(
        FakehidRegistration::new(&mut aop, SVC, AopSensorData::new(3, aop_las::MsgProc)),
        Err(Errno::EBUSY)
    ));
    assert!(matches!(
        aop_receive::receive(&mut aop, &mem, 0, 0),
        Ok(Turn::Entry { outcome: Outcome::Nothing, .. })
    ));
    assert_eq!(aop.listeners[0].read_raw(3, InfoMask::Raw).unwrap().val, 90);
    reg.unregister(&mut aop);
    reg.unregister(&mut aop);
    assert!(aop.services.is_empty() && aop.listeners.is_empty());
    assert!(AOP::remove(&mut aop));
    assert!(!AOP::remove(&mut aop));
    assert!(matches!(
        FakehidRegistration::new(&mut aop, SVC, AopSensorData::new(3, aop_las::MsgProc)),
        Err(Errno::ENODEV)
    ));
}

#[test]
fn what_cannot_be_handled_is_counted() {
    let (mut aop, mut mem) = core_with(false);
    from_firmware(&aop, &mut mem, 7, [0, 0xff, 0, 0], 0, &[]);
    let mut told = Vec::new();
    for _ in 0..5 {
        match aop_receive::receive(&mut aop, &mem, 0, 0) {
            Ok(Turn::Entry { outcome: Outcome::Dropped(tell), .. }) => told.push(tell),
            _ => panic!("handled"),
        }
    }
    assert_eq!(told, [true, true, false, true, false]);
    assert_eq!(aop.endpoints[0].dropped, 5);
    assert!(matches!(aop_receive::receive(&mut aop, &mem, 1, 0), Err(Errno::EIO)));
}

#[test]
fn cores_are_found_by_their_children() {
    let (aop, _) = core_with(false);
    assert!(matches!(Core::from_child(Parent::Missing), Err(Errno::ENODEV)));
    assert!(matches!(Core::from_child(Parent::Starting), Err(Errno::EPROBEDEFER)));
    assert!(Core::from_child(Parent::Bound(&aop)).is_ok());
    assert_eq!(from_fourcc(b" POI"), 0x2050_4f49);
}

#[test]
fn the_setup_port_hands_out_buffers() {
    let mut s = SetupState::new();
    let hello = Message { msg0: (1 << 52) | 0xc000c, msg1: 0 };
    assert_eq!(s.setup_handle(false, hello), Plan::Nothing);
    s.opened(0x10_0000);
    assert_eq!(s.setup_handle(false, hello), Plan::Answer((2 << 52) | 0xc000c));
    let last = (8 << 52) | (1 << 51);
    let p = s.setup_handle(false, Message { msg0: last, msg1: 0 });
    assert_eq!(p, Plan::Echo(last, true));
    s.sent(p, true);
    assert_eq!(s.power_request(), Some((0xb << 52) | 0x220));
    s.power_was_sent();
    assert_eq!(s.power_request(), None);
    s.setup_handle(false, Message { msg0: (0xb << 52) | 0x20, msg1: 0 });
    let mut first = None;
    for ep in [0x20u32, 0x21, 0x23, 0x30, 0x32] {
        assert_eq!(s.setup_wait(false, false), Wait::Again);
        let n = if ep == 0x23 { 0x1000 } else { 0x400 };
        let p = s.setup_handle(false, Message { msg0: (0x12 << 56) | n, msg1: ep });
        first = first.or(Some(p));
        s.sent(p, true);
    }
    match first {
        Some(Plan::Buffers { ep, slot, tx, rx }) => {
            assert_eq!((ep, slot), (0x20, 0));
            assert_eq!(tx, aop_setup::shared_descriptor(0x10_0000, 1, true));
            assert_eq!(rx, aop_setup::shared_descriptor(0x10_4000, 1, false));
        },
        _ => panic!("no buffers"),
    }
    assert_eq!(
        aop_setup::shared_descriptor(0x10_0000, 1, true),
        (5 << 60) | (1 << 54) | (1 << 48) | 0x1_0000
    );
    assert!(s.ready());
    assert_eq!(s.endpoint_count(), 5);
    assert_eq!(s.setup_wait(true, true), Wait::Ready);
    assert_eq!(s.take_arena(), Some(0x10_0000));
    assert!(s.close());
    assert!(!s.close());
}

#[test]
fn a_broken_setup_stays_broken() {
    let ask = |ep: u32, n: u64| Message { msg0: (0x12 << 56) | n, msg1: ep };
    for bad in [ask(0x22, 0x400), ask(0x20, 0x500)] {
        let mut s = SetupState::new();
        s.opened(0);
        assert_eq!(s.setup_handle(false, bad), Plan::Refused(Errno::EINVAL));
        assert_eq!(s.setup_wait(false, false), Wait::Failed(Errno::EIO));
        assert_eq!(s.setup_wait(false, true), Wait::Failed(Errno::ETIMEDOUT));
    }
    let mut twice = SetupState::new();
    twice.opened(0);
    let p = twice.setup_handle(false, ask(0x20, 0x400));
    twice.sent(p, true);
    assert_eq!(twice.setup_handle(false, ask(0x20, 0x400)), Plan::Refused(Errno::EINVAL));
    assert_eq!(twice.setup_wait(false, false), Wait::Failed(Errno::EIO));
    let mut full = SetupState::new();
    full.opened(0);
    for ep in [0x20, 0x21] {
        let p = full.setup_handle(false, ask(ep, 0x1000));
        full.sent(p, true);
    }
    assert_eq!(full.setup_handle(false, ask(0x23, 0x1000)), Plan::Refused(Errno::ENOMEM));
    assert_eq!(full.setup_wait(false, false), Wait::Failed(Errno::EIO));
    let mut lost = SetupState::new();
    lost.opened(0);
    lost.setup_handle(true, ask(0x20, 0x400));
    assert_eq!(lost.setup_wait(false, false), Wait::Failed(Errno::EIO));
    let mut unsent = SetupState::new();
    unsent.opened(0);
    let p = unsent.setup_handle(false, ask(0x20, 0x400));
    unsent.sent(p, false);
    assert_eq!(unsent.setup_wait(false, false), Wait::Failed(Errno::EIO));
}

#[test]
fn boot_arguments_are_completed() {
    let c = aop_life::config(AopMachine::T8103);
    let patches = aop_life::boot_patches(&c);
    let mut args = Vec::new();
    for (key, n) in [(0x4543_3070u32, 4u32), (0x1111_1111, 3), (0x616c_6967, 8)] {
        args.extend_from_slice(&key.to_le_bytes());
        args.extend_from_slice(&n.to_le_bytes());
        args.extend(vec![0xee; n as usize]);
    }
    assert!(aop_life::bootargs_readable(&args, &patches));
    assert!(!aop_life::bootargs_readable(&args[..args.len() - 1], &patches));
    assert!(!aop_life::bootargs_readable(&args[..7], &patches));
    aop_life::patch_bootargs(&mut args, &patches);
    assert_eq!(args[8..12], [0, 0, 2, 0]);
    assert_eq!(args[20..23], [0xee; 3]);
    assert_eq!(args[31..39], [128, 0, 0, 0, 0, 0, 0, 0]);
    assert_eq!(patches[3], Patch { key: from_fourcc(b"AOPt"), value: 1 });
    assert_eq!(aop_life::config(AopMachine::T6020).ec0p, 0x100_0000_0000);
    assert!(aop_life::config(AopMachine::T8140).setup_port);
    assert_eq!(aop_life::config(AopMachine::T8112).alig, 128);
    assert_eq!(aop_life::config(AopMachine::T6000).alig, 64);
    assert_eq!(
        aop_life::required_endpoints(AopMachine::T8140),
        [0x20, 0x21, 0x22, 0x23, 0x2b]
    );
    let (mut aop, _) = core_with(false);
    assert_eq!(aop_life::start_cpu(&mut aop, 1), 0x11);
    assert!(aop.cpu_started);
}

#[test]
fn only_required_endpoints_have_to_start() {
    let mut aop: Core = AopData::new(true, true, vec![0x21]);
    let mut m = StartAfk::start();
    let fail = || StartEvent::Started(Err(Errno::EIO));
    assert_eq!(m.step(&mut aop, StartEvent::Begin), StartAsk::Look(0x20));
    assert_eq!(m.step(&mut aop, StartEvent::Seen(Some(true))), StartAsk::Start(0x20));
    assert_eq!(m.step(&mut aop, fail()), StartAsk::Look(0x21));
    assert_eq!(m.step(&mut aop, StartEvent::Seen(Some(true))), StartAsk::Start(0x21));
    let mut failed = m;
    assert_eq!(failed.step(&mut aop, fail()), StartAsk::Failed(Errno::EIO));
    assert_eq!(m.step(&mut aop, StartEvent::Started(Ok(()))), StartAsk::Look(0x22));
    let mut gone = m;
    assert_eq!(gone.step(&mut aop, StartEvent::Seen(None)), StartAsk::Failed(Errno::ENODEV));
    for ep in 0x23..0x2f {
        assert_eq!(m.step(&mut aop, StartEvent::Seen(Some(false))), StartAsk::Look(ep));
    }
    assert_eq!(m.step(&mut aop, StartEvent::Seen(Some(false))), StartAsk::Done);
    let started: Vec<bool> = aop.endpoints.iter().map(|e| e.started).collect();
    assert_eq!(started.iter().filter(|s| **s).count(), 1);
    assert!(started[1]);
}

#[test]
fn stopping_goes_on_after_an_error() {
    let (mut aop, _) = core_with(false);
    for i in [0, 3, 14] {
        aop.endpoints[i].started = true;
    }
    let (mut m, ask) = Stop::start(&mut aop).ok().unwrap();
    assert_eq!(ask, StopAsk::Shutdown(0x20));
    assert_eq!(m.step(&mut aop, StopEvent::Told(Ok(()))), StopAsk::Await(0x20));
    assert_eq!(m.step(&mut aop, StopEvent::Acknowledged(false)), StopAsk::Shutdown(0x23));
    assert_eq!(m.step(&mut aop, StopEvent::Told(Err(Errno::EIO))), StopAsk::Shutdown(0x2e));
    assert_eq!(m.step(&mut aop, StopEvent::Told(Ok(()))), StopAsk::Await(0x2e));
    assert_eq!(
        m.step(&mut aop, StopEvent::Acknowledged(true)),
        StopAsk::Done(Some(Errno::ETIMEDOUT))
    );
    assert!(aop.endpoints.iter().all(|e| !e.started));
    aop.rtkit = false;
    assert!(matches!(Stop::start(&mut aop), Err(Errno::ENODEV)));
}

#[test]
fn an_unconfirmed_shutdown_keeps_everything() {
    let (mut aop, _) = core_with(false);
    aop.quiesce_on_unbind = true;
    aop.cpu_started = true;
    let mut m = Remove::start(&mut aop, true).unwrap();
    assert!(aop.removing);
    assert!(Remove::start(&mut aop, true).is_none());
    let mut steps = Vec::new();
    while m.ask != RemoveAsk::Done {
        steps.push(m.ask);
        m.done(m.ask != RemoveAsk::ShutDown);
    }
    assert_eq!(
        steps,
        [
            RemoveAsk::DrainRegistrations,
            RemoveAsk::ReleaseDrivers,
            RemoveAsk::CloseTransport,
            RemoveAsk::StopEndpoints,
            RemoveAsk::ShutDown,
            RemoveAsk::DropTransport(true),
            RemoveAsk::CloseSetupPort,
            RemoveAsk::DrainSetup,
            RemoveAsk::Retire,
        ]
    );
    let (mut other, _) = core_with(false);
    other.cpu_started = true;
    let mut plain = Remove::start(&mut other, false).unwrap();
    let mut last = plain.ask;
    while plain.ask != RemoveAsk::Done {
        last = plain.ask;
        assert_ne!(last, RemoveAsk::ShutDown);
        plain.done(true);
    }
    assert_eq!(last, RemoveAsk::Free);
}

#[test]
fn the_setup_port_comes_in_time() {
    assert!(matches!(Probe::start(None, false), Err(Errno::ENODEV)));
    assert!(matches!(Probe::start(Some(AopMachine::T8103), true), Err(Errno::ENODEV)));
    let run = |m: AopMachine| {
        let mut p = Probe::start(Some(m), false).ok().unwrap();
        let mut steps = Vec::new();
        while p.ask != ProbeAsk::Done {
            steps.push(p.ask);
            p.done(Ok(()));
        }
        steps
    };
    assert_eq!(
        run(AopMachine::T8140)[4..],
        [
            ProbeAsk::MakeTransport,
            ProbeAsk::OpenSetupPort,
            ProbeAsk::StartCpu,
            ProbeAsk::Wake,
            ProbeAsk::FinishSetup,
            ProbeAsk::StartEndpoints,
        ]
    );
    assert_eq!(
        run(AopMachine::T6000)[3..],
        [
            ProbeAsk::MakeData,
            ProbeAsk::PatchBootargs,
            ProbeAsk::MakeTransport,
            ProbeAsk::StartCpu,
            ProbeAsk::Wake,
            ProbeAsk::StartEndpoints,
        ]
    );
    let mut early = Probe::start(Some(AopMachine::T6000), false).ok().unwrap();
    early.done(Err(Errno::EINVAL));
    assert_eq!(early.ask, ProbeAsk::Failed(Errno::EINVAL));
    let mut late = Probe::start(Some(AopMachine::T6000), false).ok().unwrap();
    for _ in 0..5 {
        late.done(Ok(()));
    }
    late.done(Err(Errno::EIO));
    assert_eq!(late.ask, ProbeAsk::TakeDown(Errno::EIO));
}

#[test]
fn a_registered_device_is_tracked() {
    let mut m = RegisterChild::start();
    m.done(true);
    assert_eq!(m.ask, ChildAsk::Register);
    m.done(true);
    assert_eq!(m.ask, ChildAsk::Track);
    let mut untracked = m;
    untracked.done(false);
    assert_eq!(untracked.ask, ChildAsk::Unregister);
    m.done(true);
    assert_eq!(m.ask, ChildAsk::Done);
    let mut full = RegisterChild::start();
    full.done(false);
    assert_eq!(full.ask, ChildAsk::Failed);
}

#[test]
fn readings_are_handed_out_in_two_parts() {
    let mut d = AopSensorData::new(5, aop_als::MsgProc(0));
    assert_eq!(d.read_raw(4, InfoMask::Processed), Err(Errno::EINVAL));
    assert_eq!(d.read_raw(5, InfoMask::Processed), Err(Errno::ENODATA));
    assert_eq!(d.process_fakehid_report(&12.5f32.to_le_bytes()), Ok(()));
    let v = d.read_raw(5, InfoMask::Processed).unwrap();
    assert_eq!((v.val, v.val2, v.kind), (12, 500_000, ValueKind::IntPlusMicro));
    assert_eq!(d.read_raw(5, InfoMask::Raw).unwrap().kind, ValueKind::Int);
    assert_eq!(d.read_raw(5, InfoMask::Other), Err(Errno::EINVAL));
    d.process_fakehid_report(&[1, 2, 3]).unwrap();
    assert_eq!(d.read_raw(5, InfoMask::Raw).unwrap().val, 12);
    d.process_fakehid_report(&1e30f32.to_le_bytes()).unwrap();
    let top = d.read_raw(5, InfoMask::Processed).unwrap();
    assert_eq!((top.val, top.val2), (i32::MAX, 999_999));
    d.process_fakehid_report(&f32::NAN.to_le_bytes()).unwrap();
    assert_eq!(d.read_raw(5, InfoMask::Processed).unwrap().val, i32::MAX);
}

#[test]
fn conversion_rounds_down() {
    let of = |f: f32| aop_als::f32_to_micro(f.to_bits());
    assert_eq!(of(1.0), Some(1_000_000));
    assert_eq!(of(0.1), Some(100_000));
    assert_eq!(of(123456.75), Some(123_456_750_000));
    assert_eq!(of(16777216.0), Some(16_777_216_000_000));
    assert_eq!(of(1e-7), Some(0));
    assert_eq!(of(1e-30), Some(0));
    assert_eq!(of(0.0), Some(0));
    assert_eq!(of(-5.0), Some(0));
    assert_eq!(of(f32::INFINITY), None);
    assert_eq!(of(f32::NAN), None);
    assert_eq!(of(f32::from_bits(169 << 23)), Some(8_388_608_000_000 << 19));
    assert_eq!(of(f32::from_bits(170 << 23)), Some(u64::MAX));
}

#[test]
fn the_light_sensor_is_told_by_name() {
    assert_eq!(aop_als::get_lux_offset(b"Redbird\0"), Ok(0x28));
    assert_eq!(aop_als::get_lux_offset(b"FireFish2\0"), Ok(0x1d));
    assert_eq!(aop_als::get_lux_offset(b"Redbird"), Err(Errno::EIO));
    assert_eq!(aop_als::get_aop_property(0xf), [0, 0, 0, 0, 0xf, 0, 0, 0]);
    assert_eq!(aop_als::set_als_property(0xb, &[7]), [0, 0, 0, 0, 0xb, 0, 0, 0, 7]);
    assert_eq!(aop_als::set_interval(), [0, 0, 0, 0, 0, 0, 0, 0, 0x40, 0x0d, 3, 0]);
}

#[test]
fn calibration_has_its_shape() {
    let mut p = vec![0; 80];
    p[..8].copy_from_slice(&0x0746_b8d6_6515_2e31u64.to_le_bytes());
    p[8] = 56;
    p[40] = 9;
    assert_eq!(als_calibration::load(Ok(p.clone())), Ok(p.clone()));
    assert_eq!(als_calibration::load(Err(Errno::ENOENT)), Err(Errno::ENOENT));
    p[8] = 57;
    assert_eq!(als_calibration::validate(&p), Err(Errno::EINVAL));
    p[8] = 56;
    p[0] ^= 1;
    assert_eq!(als_calibration::validate(&p), Err(Errno::EINVAL));
    assert_eq!(als_calibration::validate(&p[..79]), Err(Errno::EINVAL));
}

#[test]
fn a_failed_sensor_does_not_stay_subscribed() {
    let mut light = SensorProbe::start(true);
    light.done(Ok(&[]));
    light.done(Ok(&[]));
    assert_eq!(light.ask, SensorAsk::Identify(vec![0, 0, 0, 0, 0xf, 0, 0, 0]));
    light.done(Ok(b"Redbird\0"));
    assert_eq!(light.ask, SensorAsk::Subscribe);
    assert_eq!(light.offset, Some(0x28));
    light.done(Ok(&[]));
    assert_eq!(light.ask, SensorAsk::LoadCalibration);
    light.done(Ok(&[7, 8]));
    assert_eq!(light.ask, SensorAsk::Calibrate(vec![0, 0, 0, 0, 0xb, 0, 0, 0, 7, 8]));
    light.done(Ok(&[]));
    assert_eq!(light.ask, SensorAsk::SetInterval(vec![0, 0, 0, 0, 0, 0, 0, 0, 0x40, 0x0d, 3, 0]));
    light.done(Ok(&[]));
    assert_eq!(light.ask, SensorAsk::Register);
    light.done(Ok(&[]));
    assert_eq!(light.ask, SensorAsk::Done);
    let mut unknown = SensorProbe::start(true);
    unknown.done(Ok(&[]));
    unknown.done(Ok(&[]));
    unknown.done(Ok(b"Robin\0"));
    assert_eq!(unknown.ask, SensorAsk::Failed(Errno::EIO));
    let lid = || {
        let mut m = SensorProbe::start(false);
        m.done(Ok(&[]));
        m.done(Ok(&[]));
        m
    };
    let mut late = lid();
    assert_eq!(late.ask, SensorAsk::Subscribe);
    let mut early = lid();
    early.done(Err(Errno::EBUSY));
    assert_eq!(early.ask, SensorAsk::Failed(Errno::EBUSY));
    late.done(Ok(&[]));
    assert_eq!(late.ask, SensorAsk::Register);
    late.done(Err(Errno::ENOMEM));
    assert_eq!(late.ask, SensorAsk::Unsubscribe(Errno::ENOMEM));
}

#[test]
fn buffer_requests_are_granted_or_refused() {
    let mut s = SetupState::new();
    assert_eq!(s.setup_endpoint_request(0x20, 0x400), Err(Errno::ENXIO));
    s.opened(0x10_0000);
    assert_eq!(s.setup_endpoint_request(0x22, 0x400), Err(Errno::EINVAL));
    assert_eq!(s.setup_endpoint_request(0x20, 0x401), Err(Errno::EINVAL));
    let p = s.setup_endpoint_request(0x20, 0x1000).unwrap();
    let on = |word: u64| Message { msg0: word, msg1: 0x20 };
    assert_eq!(
        p.messages(),
        [
            on(0x12 << 56),
            on(aop_setup::shared_descriptor(0x10_0000, 1, true)),
            on(aop_setup::shared_descriptor(0x10_4000, 4, false)),
        ]
    );
    s.sent(p, true);
    assert_eq!(s.setup_endpoint_request(0x20, 0x400), Err(Errno::EINVAL));
    s.setup_endpoint_request(0x21, 0x1000).unwrap();
    assert_eq!(s.setup_endpoint_request(0x23, 0x1000), Err(Errno::ENOMEM));
    assert!(s.setup_endpoint_request(0x23, 0x400).is_ok());
    assert_eq!(s.setup_wait(false, false), Wait::Again);
    assert_eq!(Plan::Answer(5).messages(), [Message { msg0: 5, msg1: 0 }]);
    assert!(Plan::Refused(Errno::EINVAL).messages().is_empty());
}

#[test]
fn the_transport_comes_and_goes() {
    let mut aop: Core = AopData::new(true, false, vec![]);
    assert!(!aop.rtkit);
    aop.open_transport();
    assert!(aop.rtkit);
    aop.drop_transport();
    assert!(!aop.rtkit);
}

#[test]
fn a_sensor_device_has_one_channel() {
    assert!(matches!(IIODevice::describe(false, "aop-sensors-las", 3, 1), Err(Errno::ENOMEM)));
    let dev = IIODevice::describe(true, "aop-sensors-las", 3, 1).ok().unwrap();
    let mut reg = IIORegistration::new(dev, 0).ok().unwrap();
    let c = reg.channel();
    assert_eq!((c.ty, c.sign, c.realbits, c.storagebits, c.info_mask), (3, 'u', 32, 32, 1));
    assert!(reg.unregister());
    assert!(!reg.unregister());
    let again = IIODevice::describe(true, "aop-sensors-las", 3, 1).ok().unwrap();
    assert_eq!(IIORegistration::new(again, -16).err(), Some(-16));
}

#[test]
fn each_listener_gets_its_own_reports() {
    let (mut aop, mut mem) = core_with(false);
    let other = EPICService { channel: 9, endpoint: 0x20 };
    let third = EPICService { channel: 11, endpoint: 0x20 };
    let mut first =
        FakehidRegistration::new(&mut aop, SVC, AopSensorData::new(1, aop_las::MsgProc)).ok().unwrap();
    let mut second =
        FakehidRegistration::new(&mut aop, other, AopSensorData::new(2, aop_las::MsgProc)).ok().unwrap();
    assert!(aop.add_fakehid_listener(third, AopSensorData::new(3, aop_las::MsgProc)).is_ok());
    let mut at = 0;
    let mut report = |aop: &mut Core, channel: u32, angle: u8| {
        from_firmware(aop, &mut mem, channel, [0, 0xc4, 0, 0], 0, &[0, angle]);
        match aop_receive::receive(aop, &mem, 0, at) {
            Ok(Turn::Entry { outcome: Outcome::Nothing, next }) => at = next,
            _ => panic!("not taken in"),
        }
    };
    let angle = |aop: &Core, i: usize, ty: u32| {
        aop.listeners[i].read_raw(ty, InfoMask::Raw).unwrap().val
    };
    report(&mut aop, 7, 10);
    report(&mut aop, 9, 20);
    report(&mut aop, 11, 30);
    assert_eq!((angle(&aop, 0, 1), angle(&aop, 1, 2), angle(&aop, 2, 3)), (10, 20, 30));
    first.unregister(&mut aop);
    assert_eq!(aop.services, [third, other]);
    report(&mut aop, 7, 40);
    report(&mut aop, 9, 50);
    report(&mut aop, 11, 60);
    assert_eq!((angle(&aop, 0, 3), angle(&aop, 1, 2)), (60, 50));
    assert!(aop.add_fakehid_listener(SVC, AopSensorData::new(4, aop_las::MsgProc)).is_ok());
    first.unregister(&mut aop);
    assert_eq!(aop.services, [third, other, SVC]);
    report(&mut aop, 7, 70);
    assert_eq!((angle(&aop, 0, 3), angle(&aop, 1, 2), angle(&aop, 2, 4)), (60, 50, 70));
    second.unregister(&mut aop);
    assert!(!aop.remove_fakehid_listener(&other));
    assert_eq!(aop.services, [third, SVC]);
    assert_eq!((angle(&aop, 0, 3), angle(&aop, 1, 4)), (60, 70));
}

#[test]
fn a_second_removal_changes_nothing() {
    let (mut aop, _) = core_with(false);
    assert!(aop.add_fakehid_listener(SVC, AopSensorData::new(1, aop_las::MsgProc)).is_ok());
    assert!(AOP::remove(&mut aop));
    assert!(!AOP::remove(&mut aop));
    assert!(aop.rtkit && !aop.transport_closing && aop.removing);
    assert_eq!((aop.services.len(), aop.listeners.len()), (1, 1));
}

#[test]
fn giving_up_leaves_the_endpoint_alone() {
    let (mut aop, mut mem) = core_with(false);
    aop.endpoints[0].started = true;
    let s = aop.epic_call(&mut mem, &SVC, 1, &[]).unwrap();
    let (rx, tx, seq) = (aop.endpoints[0].rxbuf, aop.endpoints[0].txbuf, aop.endpoints[0].seq);
    aop.give_up(s.index, s.id);
    let e = &aop.endpoints[0];
    assert!(e.started && e.iomem == Some(0x800));
    assert_eq!((e.rxbuf, e.txbuf, e.seq, e.dropped), (rx, tx, seq, 0));
}

#[test]
fn a_ring_is_read_to_its_end_in_order() {
    let (mut mem, r) = ring();
    for i in 0..3u8 {
        afk_ring::write_entry(&mut mem, &r, u32::from(i), 0, &[i; 60], &[]).unwrap();
    }
    let mut seen = Vec::new();
    let mut rptr = 0;
    while let Ok(Found::Message(e)) = afk_ring::look(&mem, &r, rptr) {
        seen.push((e.channel, e.payload));
        rptr = e.next;
        afk_ring::pass(&mut mem, &r, rptr).unwrap();
    }
    assert_eq!(seen, [(0, vec![0; 60]), (1, vec![1; 60]), (2, vec![2; 60])]);
    assert_eq!(afk_ring::pointers(&mem, &r), Ok((rptr, rptr)));
}

#[test]
fn an_abandoned_place_is_kept_through_other_calls() {
    let mut c = Calls::new();
    let slot = c.place(false).unwrap();
    let lost = c.enter(slot, None);
    c.abandon(lost);
    for _ in 0..20 {
        let at = c.place(false).unwrap();
        assert_ne!(at, slot);
        let id = c.enter(at, None);
        let tag = at as u16 + 1;
        assert!(matches!(c.reply(false, tag, &[0; 4]), Ok(Reply::Answer { id: to, .. }) if to == id));
        assert_eq!(c.place(true), Err(Errno::EIO));
    }
    assert!(matches!(c.reply(false, slot as u16 + 1, &[0; 4]), Ok(Reply::Late)));
    assert_eq!(c.place(false), Ok(slot));
}
