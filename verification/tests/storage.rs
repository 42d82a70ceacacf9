use apple_sep::catacomb;
use apple_sep::crc;
use apple_sep::errno::Errno;
use apple_sep::keybag::{self, State, UuidProvenance};
use apple_sep::mailbox::Message;
use apple_sep::persist::{BagAsk, BagWrite, RecordAsk, RecordWrite, StoreAsk, StoreWrite};
use apple_sep::store::{self, Intent};
use apple_sep::uuid::Uuid;
use apple_sep::xarm::{
    decode_xarm, encode_xarm_reply, fetched, is_silent, needs_buffers, payload_len, service, settled, Args,
    Step, XarmAction, XarmReply, XarmRequest, XarmState,
};
use apple_sep::xarm_link::{Ask, Event, ServiceXarm};
use apple_sep::xart_apfs::{locate, Blocks, Stop};
use apple_sep::xart_locate::{owner_base, pick, root_hit, Decision, Locator, Probe};
use apple_sep::xart_store::{check_window, Key, Store, SLOT_SIZE, STORE_SIZE};

fn uuid(n: u8) -> Uuid {
    let b: Vec<u8> = (0..16u8).map(|i| i.wrapping_mul(7).wrapping_add(n)).collect();
    Uuid::read(&b, 0)
}

fn slot_bytes(kind: u8, u: &Uuid, value: &[u8], revision: u64) -> Vec<u8> {
    let mut raw = vec![0u8, kind];
    u.put(&mut raw);
    raw.extend_from_slice(&(value.len() as u32).to_le_bytes());
    raw.extend_from_slice(&crc::crc32_ieee(value).to_le_bytes());
    raw.extend_from_slice(&revision.to_le_bytes());
    raw.extend_from_slice(value);
    raw.resize(SLOT_SIZE, 0);
    raw
}

fn put_slot(window: &mut [u8], i: usize, raw: &[u8]) {
    window[i * SLOT_SIZE..(i + 1) * SLOT_SIZE].copy_from_slice(raw);
}

fn get_slot(window: &[u8], i: usize) -> Vec<u8> {
    window[i * SLOT_SIZE..(i + 1) * SLOT_SIZE].to_vec()
}

/// A store with its two roots.
fn window() -> Vec<u8> {
    let mut w = vec![0u8; STORE_SIZE];
    put_slot(&mut w, 0, &slot_bytes(1, &Uuid::zero(), &[1, 1, 1], 5));
    put_slot(&mut w, 1, &slot_bytes(2, &Uuid::zero(), &[2, 2], 6));
    w
}

fn value_of(s: &Store, w: &[u8], key: &Key) -> Option<Vec<u8>> {
    let i = s.read(key).unwrap()?;
    Some(s.read_value(i, key, &get_slot(w, i)).unwrap())
}

#[test]
fn window_has_to_fit_its_device() {
    assert!(check_window(STORE_SIZE as u64, 0).is_ok());
    assert_eq!(check_window(STORE_SIZE as u64, 0x1000), Err(Errno::EINVAL));
    assert_eq!(check_window(u64::MAX, 1), Err(Errno::EINVAL));
    assert_eq!(check_window(u64::MAX, u64::MAX - 0xfff), Err(Errno::EINVAL));
}

#[test]
fn store_without_roots_is_not_opened() {
    let w = vec![0u8; STORE_SIZE];
    assert!(matches!(Store::open_window(0, &w, true), Err(Errno::ENODATA)));
}

#[test]
fn roots_are_read_back() {
    let w = window();
    let s = Store::open_window(0x4000, &w, false).ok().unwrap();
    assert_eq!(s.base(), 0x4000);
    assert_eq!(s.slot_offset(2), 0x4000 + 2 * SLOT_SIZE as u64);
    assert_eq!(value_of(&s, &w, &Key::root(1)), Some(vec![1, 1, 1]));
    assert_eq!(value_of(&s, &w, &Key::root(2)), Some(vec![2, 2]));
    assert_eq!(value_of(&s, &w, &Key::new(3, uuid(1))), None);
}

#[test]
fn newest_of_two_records_counts() {
    let mut w = window();
    put_slot(&mut w, 5, &slot_bytes(1, &Uuid::zero(), &[9], 40));
    let s = Store::open_window(0, &w, false).ok().unwrap();
    assert_eq!(value_of(&s, &w, &Key::root(1)), Some(vec![9]));
    let repairs = s.repairs(&w);
    assert_eq!(repairs, vec![0]);
}

#[test]
fn write_takes_effect_and_survives_reopening() {
    let mut w = window();
    let mut s = Store::open_window(0, &w, true).ok().unwrap();
    let key = Key::new(3, uuid(4));
    let plan = s.write(&key, b"first").ok().unwrap();
    assert_eq!(plan.old, None);
    put_slot(&mut w, plan.slot, &plan.raw);
    s.written(&plan);
    assert_eq!(value_of(&s, &w, &key), Some(b"first".to_vec()));
    let plan = s.write(&key, b"second").ok().unwrap();
    let old = plan.old.unwrap();
    put_slot(&mut w, plan.slot, &plan.raw);
    put_slot(&mut w, old, &vec![0u8; SLOT_SIZE]);
    s.written(&plan);
    assert_eq!(value_of(&s, &w, &key), Some(b"second".to_vec()));
    let again = Store::open_window(0, &w, true).ok().unwrap();
    assert_eq!(value_of(&again, &w, &key), Some(b"second".to_vec()));
    assert_eq!(value_of(&again, &w, &Key::root(2)), Some(vec![2, 2]));
}

#[test]
fn write_that_was_not_finished_counts_once_reopened() {
    let mut w = window();
    let mut s = Store::open_window(0, &w, true).ok().unwrap();
    let key = Key::new(4, uuid(9));
    let plan = s.write(&key, b"old").ok().unwrap();
    put_slot(&mut w, plan.slot, &plan.raw);
    s.written(&plan);
    let plan = s.write(&key, b"new").ok().unwrap();
    put_slot(&mut w, plan.slot, &plan.raw);
    let again = Store::open_window(0, &w, true).ok().unwrap();
    assert_eq!(value_of(&again, &w, &key), Some(b"new".to_vec()));
}

#[test]
fn delete_takes_effect() {
    let mut w = window();
    let mut s = Store::open_window(0, &w, true).ok().unwrap();
    let key = Key::new(3, uuid(4));
    let plan = s.write(&key, b"x").ok().unwrap();
    put_slot(&mut w, plan.slot, &plan.raw);
    s.written(&plan);
    let i = s.delete(&key).unwrap().unwrap();
    put_slot(&mut w, i, &vec![0u8; SLOT_SIZE]);
    s.deleted(i);
    assert_eq!(value_of(&s, &w, &key), None);
    assert_eq!(s.delete(&key).unwrap(), None);
}

#[test]
fn writes_are_refused_where_they_should_be() {
    let w = window();
    let read_only = Store::open_window(0, &w, false).ok().unwrap();
    assert!(matches!(read_only.write(&Key::root(1), &[1]), Err(Errno::EROFS)));
    let s = Store::open_window(0, &w, true).ok().unwrap();
    assert!(matches!(s.write(&Key::root(1), &[]), Err(Errno::EINVAL)));
    assert!(matches!(s.write(&Key::root(1), &vec![0u8; 0x8001]), Err(Errno::EINVAL)));
    assert!(matches!(s.write(&Key::new(5, uuid(0)), &[1]), Err(Errno::EINVAL)));
    assert!(matches!(s.write(&Key::new(1, uuid(1)), &[1]), Err(Errno::EINVAL)));
}

#[test]
fn changed_record_is_an_error() {
    let w = window();
    let s = Store::open_window(0, &w, false).ok().unwrap();
    let mut raw = get_slot(&w, 0);
    raw[0x22] ^= 1;
    assert_eq!(s.read_value(0, &Key::root(1), &raw), Err(Errno::EIO));
}

#[test]
fn owner_base_is_in_bytes() {
    assert_eq!(owner_base(8), Some(0x1000));
    assert_eq!(owner_base(0), None);
}

#[test]
fn locator_finds_a_root_record() {
    let mut buf = vec![0u8; 0x1_0000];
    let raw = slot_bytes(1, &Uuid::zero(), &[7; 32], 3);
    buf[0x2000..0x2000 + 0x100].copy_from_slice(&raw[..0x100]);
    assert_eq!(root_hit(&buf, 0), Some(0x2000));
    assert_eq!(root_hit(&buf, 0x3000), None);
}

#[test]
fn best_probe_is_picked() {
    let a = Probe { valid: 2, malformed: 0, base: 0x1000 };
    let b = Probe { valid: 5, malformed: 3, base: 0x2000 };
    assert_eq!(pick(&vec![Some(a), None, Some(b)]).map(|p| p.base), Some(0x2000));
    assert!(pick(&vec![None, None]).is_none());
}

#[test]
fn locator_refuses_a_small_device_and_ends() {
    assert!(Locator::start(0x1000).is_err());
    let mut l = Locator::start(STORE_SIZE as u64).ok().unwrap();
    let mut reads = 0;
    while let Some((_, len)) = l.next_read() {
        reads += 1;
        let buf = vec![0u8; len];
        match l.search(&buf) {
            None => {}
            Some(_) => assert!(matches!(l.decide(&vec![None]), Decision::GoOn | Decision::GiveUp)),
        }
        if !l.advance() {
            break;
        }
        assert!(reads < 1000);
    }
    assert!(reads > 0);
}

#[test]
fn file_system_is_read_block_by_block() {
    let mut b = Blocks::new();
    match locate(&b, 1 << 30) {
        Err(Stop::Need(0)) => {}
        _ => panic!("the first block is wanted first"),
    }
    b.add_block(0, Ok(vec![0u8; 4096]));
    assert!(matches!(locate(&b, 1 << 30), Err(Stop::Fail(_))));
    let mut c = Blocks::new();
    c.add_block(0, Err(Errno::EIO));
    assert!(matches!(locate(&c, 1 << 30), Err(Stop::Fail(Errno::EIO))));
}

fn put(b: &mut [u8], at: usize, bytes: &[u8]) {
    b[at..at + bytes.len()].copy_from_slice(bytes);
}

/// A block whose checksum agrees.
fn sealed(mut b: Vec<u8>) -> Vec<u8> {
    let m = 0xffff_ffffu64;
    let (mut s1, mut s2) = (0u64, 0u64);
    for w in b[8..].chunks_exact(4) {
        s1 = (s1 + u64::from(u32::from_le_bytes([w[0], w[1], w[2], w[3]]))) % m;
        s2 = (s2 + s1) % m;
    }
    let c1 = (m - (s1 + s2) % m) % m;
    let c2 = (m - (s1 + c1) % m) % m;
    put(&mut b, 0, &(c2 << 32 | c1).to_le_bytes());
    b
}

fn object(oid: u64, xid: u64) -> Vec<u8> {
    let mut b = vec![0u8; 4096];
    put(&mut b, 8, &oid.to_le_bytes());
    put(&mut b, 16, &xid.to_le_bytes());
    b
}

/// A leaf of one level that is its own root.
fn leaf(oid: u64, fixed: bool, entries: &[(Vec<u8>, Vec<u8>)]) -> Vec<u8> {
    let mut b = object(oid, 5);
    put(&mut b, 32, &(if fixed { 7u16 } else { 3 }).to_le_bytes());
    put(&mut b, 36, &(entries.len() as u32).to_le_bytes());
    put(&mut b, 42, &64u16.to_le_bytes());
    let (mut k, mut v) = (0usize, 0usize);
    for (i, (key, val)) in entries.iter().enumerate() {
        v += val.len();
        put(&mut b, 120 + k, key);
        put(&mut b, 4096 - 40 - v, val);
        if fixed {
            put(&mut b, 56 + 4 * i, &(k as u16).to_le_bytes());
            put(&mut b, 58 + 4 * i, &(v as u16).to_le_bytes());
        } else {
            let parts = [k as u16, key.len() as u16, v as u16, val.len() as u16];
            for (j, p) in parts.iter().enumerate() {
                put(&mut b, 56 + 8 * i + 2 * j, &p.to_le_bytes());
            }
        }
        k += key.len();
    }
    sealed(b)
}

fn words(ws: &[u64]) -> Vec<u8> {
    ws.iter().flat_map(|w| w.to_le_bytes()).collect()
}

fn superblock(oid: u64, xid: u64) -> Vec<u8> {
    let mut b = object(oid, xid);
    put(&mut b, 32, b"NXSB");
    put(&mut b, 36, &4096u32.to_le_bytes());
    put(&mut b, 40, &2000u64.to_le_bytes());
    put(&mut b, 64, &2u64.to_le_bytes());
    put(&mut b, 104, &2u32.to_le_bytes());
    put(&mut b, 112, &10u64.to_le_bytes());
    put(&mut b, 140, &2u32.to_le_bytes());
    put(&mut b, 160, &30u64.to_le_bytes());
    put(&mut b, 184, &1026u64.to_le_bytes());
    b
}

/// The blocks of a container whose one volume has the store's file in an extent
/// that starts at block `at`.
fn container(at: u64) -> Vec<(u64, Vec<u8>)> {
    let mut map = object(1, 5);
    put(&mut map, 24, &12u32.to_le_bytes());
    put(&mut map, 32, &1u32.to_le_bytes());
    put(&mut map, 36, &1u32.to_le_bytes());
    put(&mut map, 40, &0x77u32.to_le_bytes());
    put(&mut map, 48, &4096u32.to_le_bytes());
    put(&mut map, 64, &900u64.to_le_bytes());
    put(&mut map, 72, &20u64.to_le_bytes());
    let mut ephemeral = object(900, 5);
    put(&mut ephemeral, 24, &0x77u32.to_le_bytes());
    let mut omap = object(30, 5);
    put(&mut omap, 48, &31u64.to_le_bytes());
    let mut volume = object(1026, 5);
    put(&mut volume, 32, b"APSB");
    put(&mut volume, 128, &50u64.to_le_bytes());
    put(&mut volume, 136, &1028u64.to_le_bytes());
    put(&mut volume, 264, &1u64.to_le_bytes());
    put(&mut volume, 964, &0x100u16.to_le_bytes());
    let mut inner = object(50, 5);
    put(&mut inner, 48, &51u64.to_le_bytes());
    let here = 4096u64 << 32;
    let mut name = words(&[9 << 60 | 2]);
    name.extend_from_slice(&(0x5400u32 | 4).to_le_bytes());
    name.extend_from_slice(b".gl\0");
    let mut inode = vec![0u8; 92];
    put(&mut inode, 8, &88u64.to_le_bytes());
    let root = leaf(
        1028,
        false,
        &[
            (name, vec![77, 0, 0, 0, 0, 0, 0, 0, 1, 1]),
            (words(&[3 << 60 | 77]), inode),
            (words(&[8 << 60 | 88, 0]), words(&[0x60_0000, at, 0])),
        ],
    );
    vec![
        (0, sealed(superblock(1, 1))),
        (10, sealed(map)),
        (11, sealed(superblock(1, 5))),
        (20, sealed(ephemeral)),
        (30, sealed(omap)),
        (31, leaf(31, true, &[(words(&[1026, 5]), words(&[here, 40]))])),
        (40, sealed(volume)),
        (50, sealed(inner)),
        (51, leaf(51, true, &[(words(&[1028, 5]), words(&[here, 60]))])),
        (60, root),
    ]
}

/// Looks up with blocks that are read as they are asked for.
fn look_up(device: &[(u64, Vec<u8>)], size: u64) -> (Result<u64, Stop>, usize) {
    let mut b = Blocks::new();
    let mut reads = 0;
    loop {
        match locate(&b, size) {
            Err(Stop::Need(p)) => {
                reads += 1;
                assert!(reads < 100);
                match device.iter().find(|(q, _)| *q == p) {
                    Some((_, data)) => b.add_block(p, Ok(data.clone())),
                    None => b.add_block(p, Err(Errno::EIO)),
                }
            }
            other => return (other, reads),
        }
    }
}

#[test]
fn stores_file_is_found_in_its_container() {
    let size = 2000 * 4096;
    assert_eq!(look_up(&container(100), size), (Ok(100 * 4096), 10));
    assert_eq!(look_up(&container(464), size).0, Ok(464 * 4096));
    assert_eq!(look_up(&container(465), size).0, Err(Stop::Fail(Errno::EINVAL)));
    assert_eq!(look_up(&container(100), size - 1).0, Err(Stop::Fail(Errno::ENOTSUPP)));

    let mut damaged = container(100);
    damaged[3].1[100] ^= 1;
    assert_eq!(look_up(&damaged, size).0, Err(Stop::Fail(Errno::ENODATA)));
    let mut damaged = container(100);
    damaged[9].1[100] ^= 1;
    assert_eq!(look_up(&damaged, size).0, Err(Stop::Fail(Errno::EIO)));
    let mut encrypted = container(100);
    encrypted[6].1[264] = 0;
    encrypted[6].1 = sealed(encrypted[6].1.clone());
    assert_eq!(look_up(&encrypted, size).0, Err(Stop::Fail(Errno::ENOTSUPP)));
    let mut other_role = container(100);
    other_role[6].1[965] = 0;
    other_role[6].1 = sealed(other_role[6].1.clone());
    assert_eq!(look_up(&other_role, size).0, Err(Stop::Fail(Errno::ENODATA)));
}

fn request(opcode: u8, length: u16, args: Args) -> XarmRequest {
    XarmRequest { tag: 0x21, opcode, length, args }
}

const NO_ARGS: Args = Args { a: 0, b: 0, c: 0 };

#[test]
fn requests_and_replies_keep_their_parts() {
    let m = Message { msg0: 0x0302_0100_1001_2113, msg1: 0 };
    let r = decode_xarm(&m);
    assert_eq!((r.tag, r.opcode, r.length), (0x21, 0x01, 0x0010));
    assert_eq!(r.args, Args { a: 0x01, b: 0x02, c: 0x03 });
    let reply = XarmReply { tag: 0x21, status: 0x16, length: 0x1234, args: r.args };
    assert_eq!(encode_xarm_reply(&reply).msg0, 0x0302_0112_3416_2113);
}

#[test]
fn notifications_are_silent() {
    assert!(!is_silent(0x1c));
    assert!(is_silent(0x1d));
    assert!(is_silent(0x1f));
    assert!(!is_silent(0x20));
    assert!(!needs_buffers(0x0e));
    assert!(needs_buffers(0x00));
}

#[test]
fn root_read_gives_back_root_write() {
    let mut w = window();
    let mut s = Store::open_window(0, &w, true).ok().unwrap();
    let value = b"a new root".to_vec();
    let sum = crc::crc16_ccitt_false(&value);
    let args = Args { a: 1, b: sum as u8, c: (sum >> 8) as u8 };
    let put = request(0x01, value.len() as u16, args);
    let done = match service(&put, &value, 0x8000, &s, false, None) {
        Step::Put(plan) => {
            put_slot(&mut w, plan.slot, &plan.raw);
            if let Some(old) = plan.old {
                put_slot(&mut w, old, &vec![0u8; SLOT_SIZE]);
            }
            s.written(&plan);
            settled(&put, true)
        }
        _ => panic!("a root write has to be carried out"),
    };
    assert_eq!(done.reply.status, 0);
    let get = request(0x00, 0, args);
    match service(&get, &[], 0x8000, &s, false, None) {
        Step::Fetch { slot, key } => {
            let v = s.read_value(slot, &key, &get_slot(&w, slot));
            let d = fetched(&get, 0x8000, v);
            assert_eq!(d.reply.status, 0);
            assert!(d.data.ends_with(&value));
        }
        _ => panic!("a root read has to fetch"),
    }
}

#[test]
fn bad_check_stores_nothing() {
    let w = window();
    let s = Store::open_window(0, &w, true).ok().unwrap();
    let put = request(0x01, 3, Args { a: 1, b: 0, c: 0 });
    match service(&put, &[1, 2, 3], 0x8000, &s, false, None) {
        Step::Done(d) => assert_eq!(d.reply.status, 0x16),
        _ => panic!("a wrong check sum must be refused"),
    }
}

#[test]
fn identity_is_told_where_it_is_known() {
    let w = window();
    let s = Store::open_window(0, &w, false).ok().unwrap();
    let ask = request(0x13, 0, NO_ARGS);
    match service(&ask, &[], 0x8000, &s, false, Some(uuid(3))) {
        Step::Done(d) => {
            let mut b = Vec::new();
            uuid(3).put(&mut b);
            assert_eq!(d.reply.status, 0);
            assert_eq!(d.data, b);
        }
        _ => panic!("the identity is answered at once"),
    }
    match service(&ask, &[], 0x8000, &s, false, None) {
        Step::Done(d) => assert_eq!(d.reply.status, 0x02),
        _ => panic!("an unknown identity is answered at once"),
    }
}

#[test]
fn query_before_registration_is_put_off() {
    let mut x = XarmState::new();
    assert_eq!(x.on_xarm(&request(0x0e, 0, NO_ARGS), false), XarmAction::Nothing);
    assert_eq!(x.deferred_query, Some(0x21));
    let r = x.release_deferred_query(true).unwrap();
    assert_eq!((r.tag, r.status, r.args.a), (0x21, 0, 1));
    assert!(x.release_deferred_query(true).is_none());
    match x.on_xarm(&request(0x00, 0, NO_ARGS), false) {
        XarmAction::Reply(r) => assert_eq!(r.status, 0x16),
        _ => panic!("without buffers a read is refused"),
    }
    assert!(matches!(x.on_xarm(&request(0x00, 0, NO_ARGS), true), XarmAction::Service(_)));
    assert_eq!(x.on_xarm(&request(0x1d, 0, NO_ARGS), true), XarmAction::Nothing);
}

#[test]
fn claims_are_bounded_by_the_buffers() {
    assert_eq!(payload_len(&request(1, 0x8000, NO_ARGS)), Some(0x8000));
    assert_eq!(payload_len(&request(1, 0x8001, NO_ARGS)), None);
}

#[test]
fn every_request_is_answered_once() {
    let mut m = ServiceXarm::start(request(1, 4, NO_ARGS));
    assert_eq!(m.step(Event::Begin), Ask::Await(4));
    assert_eq!(m.step(Event::Written(true)), Ask::Read(4));
    assert_eq!(m.step(Event::Read(Some(vec![1, 2, 3, 4]))), Ask::Serve(vec![1, 2, 3, 4]));
    let reply = XarmReply { tag: 0x21, status: 0, length: 5, args: NO_ARGS };
    assert_eq!(m.step(Event::Served(Some((reply, vec![9; 5])))), Ask::Write(vec![9; 5]));
    assert_eq!(m.step(Event::Put(true)), Ask::Reply(reply, true));
    let mut n = ServiceXarm::start(request(1, 0x9000, NO_ARGS));
    match n.step(Event::Begin) {
        Ask::Reply(r, false) => assert_eq!(r.status, 0x16),
        _ => panic!("a claim beyond the buffers is refused"),
    }
    let mut k = ServiceXarm::start(request(1, 0, NO_ARGS));
    assert_eq!(k.step(Event::Begin), Ask::Read(0));
    assert!(matches!(k.step(Event::Read(None)), Ask::Reply(_, false)));
    let mut bare = ServiceXarm::start(request(1, 0, NO_ARGS));
    bare.step(Event::Begin);
    assert_eq!(bare.step(Event::Read(Some(vec![]))), Ask::Serve(vec![]));
    assert_eq!(bare.step(Event::Served(Some((reply, vec![])))), Ask::Reply(reply, true));
}

#[test]
fn catacomb_file_is_read_back() {
    for kind in [0xF2u8, 0xF3, 0xF4] {
        let f = catacomb::write(kind, b"component").unwrap();
        assert_eq!(catacomb::read(kind, &f), Some(b"component".to_vec()));
        assert!(catacomb::path_for(kind).is_some());
    }
    let f = catacomb::write(0xF2, b"component").unwrap();
    assert_eq!(catacomb::read(0xF5, &f), None);
    assert_eq!(catacomb::read(0xF2, &f[..f.len() - 1]), None);
    let mut g = f.clone();
    g[0] ^= 1;
    assert_eq!(catacomb::read(0xF2, &g), None);
    assert!(catacomb::write(0xF5, b"x").is_err());
    assert!(!catacomb::is_kind(0xF5));
    assert_eq!(catacomb::path_for(0), None);
}

fn record_bytes(r: &keybag::Record) -> Vec<u8> {
    let mut b = r.head.clone();
    b.extend_from_slice(&r.body);
    b
}

#[test]
fn key_bag_is_read_back() {
    let secret = vec![9u8; 32];
    let r = keybag::write_bag_uuid(b"wrapped bag", &uuid(2), &secret).ok().unwrap();
    match keybag::read(keybag::Slot::Identity, Ok(record_bytes(&r))) {
        Ok(State::Present(bag)) => {
            assert_eq!(bag.wrapped, b"wrapped bag".to_vec());
            assert_eq!(bag.uuid, uuid(2));
            assert_eq!(bag.secret, secret);
            assert_eq!(bag.provenance, UuidProvenance::ReadBackFromBag);
        }
        _ => panic!("a committed bag is present"),
    }
}

#[test]
fn missing_key_bag_file_means_none() {
    assert!(matches!(
        keybag::read(keybag::Slot::Identity, Err(Errno::ENOENT)),
        Ok(State::Absent(_))
    ));
}

#[test]
fn intent_blocks_and_refusal_allows() {
    let intent = keybag::write_intent();
    assert!(keybag::read(keybag::Slot::Identity, Ok(record_bytes(&intent))).is_err());
    let refused = keybag::mark_refused();
    assert!(matches!(
        keybag::read(keybag::Slot::Identity, Ok(record_bytes(&refused))),
        Ok(State::Absent(_))
    ));
}

#[test]
fn torn_key_bag_is_an_error() {
    let r = keybag::write_bag_uuid(b"wrapped bag", &uuid(2), &vec![9u8; 32]).ok().unwrap();
    let mut b = record_bytes(&r);
    let n = b.len();
    b.truncate(n - 1);
    assert!(keybag::read(keybag::Slot::Identity, Ok(b)).is_err());
}

#[test]
fn fresh_bag_replaces_the_stored_one_under_its_own_name_only() {
    let secret = vec![9u8; 32];
    let r = keybag::write_bag_uuid(b"wrapped bag", &uuid(2), &secret).ok().unwrap();
    let file = record_bytes(&r);
    let n = keybag::replace_wrapped(keybag::Slot::Identity, Ok(file.clone()), b"fresh", &uuid(2)).ok().unwrap();
    match keybag::read(keybag::Slot::Identity, Ok(record_bytes(&n))) {
        Ok(State::Present(bag)) => {
            assert_eq!(bag.wrapped, b"fresh".to_vec());
            assert_eq!(bag.secret, secret);
        }
        _ => panic!("the bag stays present"),
    }
    assert!(keybag::replace_wrapped(keybag::Slot::Identity, Ok(file), b"fresh", &uuid(3)).is_err());
}

#[test]
fn block_store_starts_fresh_and_keeps_values() {
    let mut s = store::Store::create();
    assert!(s.needs_commit());
    let key = store::Key { kind: 0xf1, uuid: uuid(1) };
    assert_eq!(s.read(&key), Ok(None));
    let plan = s.write(&key, b"value").ok().unwrap();
    s.written(&plan);
    let (off, len) = s.read(&key).unwrap().unwrap();
    assert_eq!(off, store::Store::block_offset(plan.slot));
    assert_eq!(len, 5);
    assert_eq!(s.read(&store::Key { kind: 3, uuid: uuid(1) }), Err(Errno::EINVAL));
    let sb = s.superblock(Intent::Idle);
    assert_eq!(sb.len(), 0x8000);
    let again = store::Store::open(store::STORE_SIZE as u64, &sb);
    assert!(!again.needs_commit());
    assert_eq!(again.read(&key), Ok(Some((off, 5))));
}

#[test]
fn interrupted_block_write_changes_nothing() {
    let mut s = store::Store::create();
    let key = store::Key { kind: 0xf1, uuid: uuid(1) };
    let plan = s.write(&key, b"old").ok().unwrap();
    s.written(&plan);
    let before = s.read(&key);
    let next = s.write(&key, b"newer").ok().unwrap();
    let sb = s.superblock(Intent::Write { slot: next.slot as u16, kind: 0xf1 });
    let again = store::Store::open(store::STORE_SIZE as u64, &sb);
    assert_eq!(again.read(&key), before);
    assert!(again.needs_commit());
}

#[test]
fn block_writes_spare_other_keys() {
    let mut file = vec![0u8; store::STORE_SIZE];
    let mut s = store::Store::create();
    let save = |file: &mut Vec<u8>, s: &mut store::Store, key: &store::Key, value: &[u8]| {
        let plan = s.write(key, value).unwrap();
        let at = store::Store::block_offset(plan.slot) as usize;
        file[at..at + value.len()].copy_from_slice(value);
        s.written(&plan);
        let sb = s.superblock(store::Intent::Idle);
        file[..sb.len()].copy_from_slice(&sb);
    };
    let (a, b) = (store::Key::root(0xf0), store::Key::root(0xf1));
    save(&mut file, &mut s, &a, &[1; 10]);
    save(&mut file, &mut s, &b, &[2; 20]);
    save(&mut file, &mut s, &a, &[3; 30]);
    let again = store::Store::open(file.len() as u64, &file[..store::BLOCK_SIZE]);
    assert!(!again.is_fresh());
    let read = |key: &store::Key| {
        let (off, len) = again.read(key).unwrap().unwrap();
        file[off as usize..off as usize + len].to_vec()
    };
    assert_eq!(read(&a), vec![3; 30]);
    assert_eq!(read(&b), vec![2; 20]);
    assert_eq!(again.read(&store::Key::root(0xf2)), Ok(None));
}

#[test]
fn damaged_superblock_makes_a_fresh_store() {
    let s = store::Store::create();
    let mut sb = s.superblock(Intent::Idle);
    sb[0] ^= 1;
    let again = store::Store::open(store::STORE_SIZE as u64, &sb);
    assert!(again.needs_commit());
    let short = store::Store::open(0, &[]);
    assert!(short.needs_commit());
}

/// Stores a value in a file, cut after `steps` steps.
fn store_value(file: &mut [u8], s: &mut store::Store, key: &store::Key, value: &[u8], steps: usize) {
    let (mut m, mut ask) = StoreWrite::start(s, key, value).ok().unwrap();
    for _ in 0..steps {
        match ask {
            StoreAsk::PutTable(intent) => {
                let sb = s.superblock(intent);
                file[..sb.len()].copy_from_slice(&sb);
            },
            StoreAsk::PutBlock(slot) => {
                let at = store::Store::block_offset(slot) as usize;
                file[at..at + value.len()].copy_from_slice(value);
            },
            StoreAsk::Sync => {},
            StoreAsk::Done | StoreAsk::Failed(_) => return,
        }
        ask = m.step(s, Ok(()));
    }
}

#[test]
fn a_block_write_may_be_cut_at_any_step() {
    let key = store::Key::root(0xf0);
    for steps in 0..8 {
        let mut file = vec![0u8; store::STORE_SIZE];
        let mut s = store::Store::create();
        store_value(&mut file, &mut s, &key, &[1; 10], 10);
        store_value(&mut file, &mut s, &key, &[2; 20], steps);
        let again = store::Store::open(file.len() as u64, &file[..store::BLOCK_SIZE]);
        let (off, len) = again.read(&key).unwrap().unwrap();
        let value = &file[off as usize..off as usize + len];
        assert_eq!(value, if steps < 5 { vec![1; 10] } else { vec![2; 20] });
    }
}

#[test]
fn a_block_write_keeps_its_order() {
    let key = store::Key::root(0xf0);
    let mut s = store::Store::create();
    let (mut m, ask) = StoreWrite::start(&s, &key, b"v").ok().unwrap();
    assert_eq!(ask, StoreAsk::PutTable(Intent::Write { slot: 0, kind: 0xf0 }));
    assert_eq!(m.step(&mut s, Ok(())), StoreAsk::Sync);
    assert_eq!(m.step(&mut s, Ok(())), StoreAsk::PutBlock(0));
    assert_eq!(m.step(&mut s, Ok(())), StoreAsk::Sync);
    assert_eq!(s.read(&key), Ok(None));
    assert_eq!(m.step(&mut s, Ok(())), StoreAsk::PutTable(Intent::Idle));
    assert!(s.read(&key).unwrap().is_some());
    assert_eq!(m.step(&mut s, Ok(())), StoreAsk::Sync);
    assert_eq!(m.step(&mut s, Ok(())), StoreAsk::Done);
    let (mut empty, _) = StoreWrite::start(&s, &store::Key::root(0xf1), b"").ok().unwrap();
    assert_eq!(empty.step(&mut s, Ok(())), StoreAsk::Sync);
    assert_eq!(empty.step(&mut s, Ok(())), StoreAsk::Sync);
    assert_eq!(empty.step(&mut s, Err(Errno::EIO)), StoreAsk::Failed(Errno::EIO));
    assert_eq!(s.read(&store::Key::root(0xf1)), Ok(None));
    assert!(matches!(StoreWrite::start(&s, &store::Key::root(3), b"v"), Err(Errno::EINVAL)));
}

#[test]
fn a_key_bag_write_may_be_cut_at_any_step() {
    let r = keybag::write_bag_uuid(b"wrapped bag", &uuid(2), &[9u8; 32]).ok().unwrap();
    for steps in 0..6 {
        let mut file = b"something older".to_vec();
        let mut m = BagWrite::start(&r);
        for _ in 0..steps {
            match m.ask {
                BagAsk::Truncate => file.clear(),
                BagAsk::PutBody => {
                    file.resize(keybag::HEADER, 0);
                    file.extend_from_slice(&r.body);
                },
                BagAsk::PutHead => file[..keybag::HEADER].copy_from_slice(&r.head),
                _ => {},
            }
            m.done(Ok(()));
        }
        let read = keybag::read(keybag::Slot::Identity, Ok(file));
        if steps < 3 {
            assert!(read.is_err());
        } else {
            assert!(matches!(read, Ok(State::Present(_))));
        }
    }
    let mut m = BagWrite::start(&keybag::write_intent());
    m.done(Ok(()));
    assert_eq!(m.ask, BagAsk::PutHead);
    m.done(Err(Errno::ENOSPC));
    assert_eq!(m.ask, BagAsk::Failed(Errno::ENOSPC));
}

#[test]
fn a_record_write_may_be_cut_at_any_step() {
    let key = Key::new(3, uuid(4));
    for steps in 0..6 {
        let mut w = window();
        let mut s = Store::open_window(0, &w, true).ok().unwrap();
        for (value, n) in [(&b"old"[..], 9), (&b"new"[..], steps)] {
            let plan = s.write(&key, value).ok().unwrap();
            let (mut m, mut ask) = RecordWrite::start(&plan);
            for _ in 0..n {
                match ask {
                    RecordAsk::Put(slot) => put_slot(&mut w, slot, &plan.raw),
                    RecordAsk::Erase(slot) => put_slot(&mut w, slot, &vec![0u8; SLOT_SIZE]),
                    RecordAsk::Sync => {},
                    RecordAsk::Done | RecordAsk::Failed(_) => break,
                }
                ask = m.step(&mut s, &plan, Ok(()));
            }
        }
        let again = Store::open_window(0, &w, true).ok().unwrap();
        let now = value_of(&again, &w, &key);
        assert_eq!(now, Some(if steps < 1 { b"old".to_vec() } else { b"new".to_vec() }));
        assert_eq!(value_of(&again, &w, &Key::root(2)), Some(vec![2, 2]));
    }
}

#[test]
fn an_old_record_that_cannot_be_erased_does_no_harm() {
    let w = window();
    let mut s = Store::open_window(0, &w, true).ok().unwrap();
    let plan = s.write(&Key::root(2), b"next").ok().unwrap();
    let (mut m, ask) = RecordWrite::start(&plan);
    assert_eq!(ask, RecordAsk::Put(plan.slot));
    assert_eq!(m.step(&mut s, &plan, Ok(())), RecordAsk::Sync);
    assert_eq!(m.step(&mut s, &plan, Ok(())), RecordAsk::Erase(plan.old.unwrap()));
    assert_eq!(m.step(&mut s, &plan, Err(Errno::EIO)), RecordAsk::Done);
    let (mut failed, _) = RecordWrite::start(&plan);
    assert_eq!(failed.step(&mut s, &plan, Err(Errno::EIO)), RecordAsk::Failed(Errno::EIO));
}

#[test]
fn a_search_stops_at_the_first_hit_that_opens() {
    let size = 0x60_0000 + 0x2_0000;
    let mut disk = vec![0u8; size];
    let raw = slot_bytes(1, &Uuid::zero(), &[7; 32], 3);
    for hit in [0x3000usize, 0xf000, 0x1_2000] {
        disk[hit..hit + 0x100].copy_from_slice(&raw[..0x100]);
    }
    let opens = 0x9000u64;
    let mut at = Locator::start(size as u64).ok().unwrap();
    let mut tried = Vec::new();
    let mut found = None;
    'search: while let Some((off, len)) = at.next_read() {
        let buf = &disk[off as usize..off as usize + len];
        while let Some(bases) = at.search(buf) {
            tried.extend_from_slice(&bases);
            let probes = bases
                .iter()
                .map(|b| (*b == opens).then_some(Probe { valid: 2, malformed: 0, base: *b }))
                .collect();
            match at.decide(&probes) {
                Decision::Open(base) => {
                    found = Some(base);
                    break 'search;
                },
                Decision::GiveUp => break 'search,
                Decision::GoOn => {},
            }
        }
        if !at.advance() {
            break;
        }
    }
    assert_eq!(found, Some(opens));
    assert_eq!(tried, [0x3000, 0xf000, 0x6000, 0xf000, 0x6000, 0x1_2000, 0x9000, 0]);
}
