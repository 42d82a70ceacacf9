use apple_sep::bag::{self, Loaded, Provision, Recovered};
use apple_sep::der::{encode_refkey_set, octet_string_body, refkey_find, Item, RefKeyValue};
use apple_sep::errno::Errno;
use apple_sep::exchange;
use apple_sep::fv;
use apple_sep::image::{self, Body, Version};
use apple_sep::keybag;
use apple_sep::mailbox::Message;
use apple_sep::refkey::{self, FindAsk, FindEvent, FindKey, Kept, KeyOp, Purpose, UseKey};
use apple_sep::refkey_seal::{self, Scheme};
use apple_sep::scrd;
use apple_sep::sks::{self, KeyBagHandle, Sequence, SksOutcome, SksProbe, SksReply, Unasked};
use apple_sep::trusted::Source;
use apple_sep::uuid::Uuid;

fn response(body: &[u8]) -> Vec<u8> {
    let mut r = 0x14u32.to_le_bytes().to_vec();
    r.resize(4 + 0x14, 0);
    r.extend_from_slice(body);
    r
}

fn outcome(status: i8, body: &[u8]) -> SksOutcome {
    SksOutcome {
        reply: SksReply { selector: 0, seq: 0, status, response_size: 0 },
        response: response(body),
    }
}

fn blob(b: &[u8]) -> Vec<u8> {
    let mut out = (b.len() as u32).to_le_bytes().to_vec();
    out.extend_from_slice(b);
    while out.len() % 4 != 0 {
        out.push(0);
    }
    out
}

fn with_blob(status: i32, b: &[u8]) -> Vec<u8> {
    let mut out = status.to_le_bytes().to_vec();
    out.extend_from_slice(&blob(b));
    out
}

fn uuid(n: u8) -> Uuid {
    Uuid::read(&[n; 16], 0)
}

#[test]
fn image_carries_digest_time_and_body() {
    let mut body = Body::new();
    body.put_u32(7);
    body.put_blob(&[1, 2, 3]).unwrap();
    assert_eq!(body.as_slice(), &[7, 0, 0, 0, 3, 0, 0, 0, 1, 2, 3, 0]);
    let covered = image::digest_input(Version::V1, 0x1122, &body);
    assert_eq!(covered.len(), 4 + 8 + 0x2c + 12);
    assert_eq!(&covered[..4], &[1, 0, 0, 0]);
    let digest: Vec<u8> = (0..32).collect();
    let img = image::build_request(Version::V1, 0x1122, &body, &digest);
    let b = img.as_slice();
    assert_eq!(img.len(), 0x54 + 12);
    assert_eq!(&b[..4], &0x50u32.to_le_bytes());
    assert_eq!(&b[4..20], &digest[..16]);
    assert_eq!(&b[0x14..0x4c], &covered[..0x38]);
    assert_eq!(&b[0x54..], body.as_slice());
}

#[test]
fn response_without_a_whole_header_is_refused() {
    assert!(image::parse_response(&[0, 0, 0]).is_err());
    assert!(image::parse_response(&[0x13, 0, 0, 0]).is_err());
    let r = response(b"body");
    assert_eq!(image::parse_response(&r), Ok(&b"body"[..]));
    assert!(image::parse_response(&r[..10]).is_err());
}

#[test]
fn blobs_are_read_back_where_they_stand() {
    let mut b = vec![9, 9, 9, 9];
    b.extend_from_slice(&blob(&[1, 2, 3, 4, 5]));
    b.push(7);
    assert_eq!(image::read_blob(&b, 4), Some((&[1u8, 2, 3, 4, 5][..], 16)));
    assert_eq!(image::read_blob(&b, 40), None);
    assert_eq!(image::operation_status(&[0xff; 4]), Some(-1));
    assert_eq!(image::operation_status(&[0xff; 3]), None);
}

#[test]
fn credential_commands_are_answered_by_their_own_reply() {
    let m = scrd::encode_scrd(1, 0x20);
    let r = scrd::decode_scrd_reply(&m);
    assert_eq!(r.request, 1);
    let mut p = scrd::ScrdProbe::new();
    assert!(!p.on_scrd(m));
    p.arm();
    assert!(p.on_scrd(m));
    assert_eq!(p.disarm().len(), 1);
}

fn item(key: &[u8], value: RefKeyValue) -> Item {
    Item { key: key.to_vec(), value }
}

#[test]
fn sets_are_ordered_and_searchable() {
    let items = vec![
        item(b"o", RefKeyValue::Utf8(b"oc".to_vec())),
        item(b"bc", RefKeyValue::Integer(9)),
        item(b"kt", RefKeyValue::Integer(5)),
    ];
    let s = encode_refkey_set(&items).unwrap();
    assert_eq!(
        s,
        vec![
            0x31, 0x1b, 0x30, 0x07, 0x0c, 0x02, b'b', b'c', 0x02, 0x01, 9, 0x30, 0x07, 0x0c, 0x02, b'k', b't',
            0x02, 0x01, 5, 0x30, 0x07, 0x0c, 0x01, b'o', 0x0c, 0x02, b'o', b'c'
        ]
    );
    assert_eq!(refkey_find(&s, b"bc"), Some(&[0x02u8, 0x01, 9][..]));
    assert_eq!(refkey_find(&s, b"zz"), None);
    assert_eq!(refkey_find(&s[..20], b"bc"), None);
}

#[test]
fn integers_get_a_leading_zero_where_needed() {
    let s = encode_refkey_set(&vec![item(b"n", RefKeyValue::Integer(0x80))]).unwrap();
    assert_eq!(refkey_find(&s, b"n"), Some(&[0x02u8, 0x02, 0, 0x80][..]));
    let z = encode_refkey_set(&vec![item(b"n", RefKeyValue::Integer(0))]).unwrap();
    assert_eq!(refkey_find(&z, b"n"), Some(&[0x02u8, 0x01, 0][..]));
}

#[test]
fn octet_strings_come_out_whole_or_not_at_all() {
    let s = encode_refkey_set(&vec![item(b"d", RefKeyValue::Octets(vec![5; 200]))]).unwrap();
    let v = refkey_find(&s, b"d").unwrap();
    assert_eq!(octet_string_body(v), Some(&[5u8; 200][..]));
    assert_eq!(octet_string_body(&[0x0c, 0x01, 7]), None);
    assert_eq!(octet_string_body(&[0x04, 0x01, 7, 8]), None);
    assert!(encode_refkey_set(&vec![item(b"d", RefKeyValue::Octets(vec![5; 5000]))]).is_err());
    assert!(encode_refkey_set(&vec![item(b"", RefKeyValue::Integer(1))]).is_err());
}

#[test]
fn patience_grows_with_the_image() {
    assert_eq!(sks::sks_timeout_for(64), 2000);
    assert!(sks::sks_timeout_for(1508) > 2000);
    assert_eq!(sks::sks_timeout_for(usize::MAX), 30000);
}

#[test]
fn requests_are_recognized_by_selector_and_sequence() {
    let m = sks::encode_sks(0x22, Sequence::from_counter(3), 0x60);
    let r = sks::decode_sks(&m);
    assert_eq!(r.selector, 0x22);
    let mut c: u32 = 0;
    let a = sks::next_seq(&mut c);
    let b = sks::next_seq(&mut c);
    assert_ne!(a, b);
}

#[test]
fn key_bag_replies_are_read() {
    let ok = outcome(0, &with_blob(0, &[3; 16]));
    assert_eq!(sks::uuid_from_reply(&ok), Some(uuid(3)));
    assert_eq!(sks::uuid_from_reply(&outcome(1, &with_blob(0, &[3; 16]))), None);
    assert_eq!(sks::uuid_from_reply(&outcome(0, &with_blob(-1, &[3; 16]))), None);
    assert_eq!(sks::uuid_from_reply(&outcome(0, &with_blob(0, &[3; 15]))), None);
    assert_eq!(
        sks::wrapped_from_copy_reply(&outcome(0, &with_blob(0, b"bag"))),
        Some(b"bag".to_vec())
    );
    assert_eq!(sks::wrapped_from_copy_reply(&outcome(0, &with_blob(0, b""))), None);
    let mut load = 0i32.to_le_bytes().to_vec();
    load.extend_from_slice(&6i32.to_le_bytes());
    assert_eq!(sks::handle_from_load_reply(&outcome(0, &load)), Some(KeyBagHandle(6)));
}

#[test]
fn unasked_answers_are_put_aside() {
    let mut p = SksProbe::new();
    let m = sks::encode_sks(0x02, Sequence::from_counter(1), 0);
    assert!(matches!(p.on_sks(m), Unasked::Nothing));
    p.arm();
    assert!(matches!(p.on_sks(m), Unasked::Wake));
    assert_eq!(p.caught(0).map(|x| x.msg0), Some(m.msg0));
    assert_eq!(p.disarm().len(), 1);
}

#[test]
fn late_answer_lifts_the_wedge() {
    let mut p = SksProbe::new();
    let m = sks::encode_sks(0x02, Sequence::from_counter(1), 0);
    let r = sks::decode_sks(&m);
    p.note_abandoned(sks::Abandoned { selector: r.selector, seq: r.seq, waited_ms: 9 }, true);
    assert!(!p.may_send(true));
    assert!(matches!(p.on_sks(m), Unasked::Late));
    assert!(p.may_send(true));
    assert!(!p.may_send(false));
}

#[test]
fn exchange_clears_sends_waits_and_reads() {
    let mut probe = SksProbe::new();
    let m = sks::encode_sks(0x02, Sequence::from_counter(1), 0x60);
    let (mut x, first) = exchange::Exchange::start(&probe, true, &m, vec![4; 0x60], 0, false);
    assert_eq!(first, exchange::Ask::ClearBuffers);
    let ask = x.step(&mut probe, exchange::Event::Did(true));
    assert_eq!(ask, exchange::Ask::WriteImage(vec![4; 0x60]));
    assert_eq!(x.step(&mut probe, exchange::Event::Did(true)), exchange::Ask::Send(m));
    let wait = x.step(&mut probe, exchange::Event::Sent { ok: true, now_ns: 5 });
    assert!(matches!(wait, exchange::Ask::Await { timeout_ms: 2000, .. }));
    let (held, refused) =
        exchange::Exchange::start(&probe, false, &m, vec![4; 0x60], 0, false);
    assert_eq!(refused, exchange::Ask::Failed);
    assert_eq!(held.image, None);
}

#[test]
fn done_exchange_has_cleared_its_buffers() {
    let m = sks::encode_sks(0x02, Sequence::from_counter(1), 0x60);
    let answer = Message { msg0: m.msg0 % (1 << 48) + (3 << 48), msg1: 0 };
    for read in [Some(vec![8, 9, 10]), None] {
        let mut probe = SksProbe::new();
        let (mut x, _) = exchange::Exchange::start(&probe, true, &m, vec![4; 0x60], 0, false);
        x.step(&mut probe, exchange::Event::Did(true));
        assert_eq!(x.step(&mut probe, exchange::Event::Did(true)), exchange::Ask::Send(m));
        x.step(&mut probe, exchange::Event::Sent { ok: true, now_ns: 5 });
        probe.on_sks(answer);
        let ask = x.step(&mut probe, exchange::Event::Awaited { now_ns: 6 });
        assert_eq!(ask, exchange::Ask::ReadResponse(3));
        let given = read.clone().unwrap_or_default();
        let ask = x.step(&mut probe, exchange::Event::Read(read));
        assert_eq!(ask, exchange::Ask::ClearBuffers);
        match x.step(&mut probe, exchange::Event::Did(true)) {
            exchange::Ask::Done(reply, response) => {
                assert_eq!(reply.selector, 0x02);
                assert_eq!(response, given);
            }
            other => panic!("{:?}", other),
        }
    }
}

#[test]
fn key_bag_is_provisioned_once() {
    let intended = match bag::provision(Err(Errno::ENOENT)) {
        Provision::Intend(i) => i,
        Provision::Settled(_) => panic!("without a bag one is made"),
    };
    let intent = intended.record();
    let drawing = intended.written(true).unwrap();
    let (req, pending) = drawing.drawn(Some(vec![1; 32]), Some(vec![2; 16])).ok().unwrap();
    assert_eq!(req.selector, 0x01);
    let mut created = 5u32.to_le_bytes().to_vec();
    created.extend_from_slice(&4i32.to_le_bytes());
    created.extend_from_slice(&blob(&[2; 16]));
    let (ask_uuid, made) = pending.created(Some(&outcome(0, &created))).unwrap();
    assert_eq!(ask_uuid.selector, 0x06);
    let (ask_copy, named) = made.named(Some(&outcome(0, &with_blob(0, &[8; 16])))).unwrap();
    assert_eq!(ask_copy.selector, 0x02);
    let (record, unload) = named.copied(Some(&outcome(0, &with_blob(0, b"wrapped")))).unwrap();
    assert_eq!(unload.selector, 0x05);
    let mut file = record.head.clone();
    file.extend_from_slice(&record.body);
    assert!(matches!(bag::provision(Ok(file)), Provision::Settled(_)));
    let mut half = intent.head.clone();
    half.extend_from_slice(&intent.body);
    assert!(matches!(bag::provision(Ok(half)), Provision::Settled(false)));
}

#[test]
fn recovered_bag_has_to_be_the_stored_one() {
    let mut load = 0i32.to_le_bytes().to_vec();
    load.extend_from_slice(&6i32.to_le_bytes());
    let (req, handle) = match bag::recover_loaded(Some(&outcome(0, &load))) {
        Loaded::Ask(r, h) => (r, h),
        Loaded::Not => panic!("the bag was loaded"),
    };
    assert_eq!(req.selector, 0x06);
    assert_eq!(handle, KeyBagHandle(6));
    let named = outcome(0, &with_blob(0, &[3; 16]));
    assert!(matches!(
        bag::recover_checked(handle, Some(&named), &uuid(3)),
        Recovered::Bag(KeyBagHandle(6), _)
    ));
    assert!(matches!(bag::recover_checked(handle, Some(&named), &uuid(4)), Recovered::Unload(_)));
    assert!(matches!(bag::recover_loaded(None), Loaded::Not));
}

fn key_blob(point: &[u8]) -> Vec<u8> {
    let inner = encode_refkey_set(&vec![item(b"pub", RefKeyValue::Octets(point.to_vec()))]).unwrap();
    encode_refkey_set(&vec![item(b"rk", RefKeyValue::Der(inner))]).unwrap()
}

#[test]
fn reference_key_names_its_public_half() {
    let b = key_blob(&[4; 65]);
    assert_eq!(refkey::refkey_pub(&b), Some(vec![4; 65]));
    assert_eq!(refkey::refkey_pub(&key_blob(&[4; 64])), None);
    assert_eq!(refkey::refkey_pub(b"junk"), None);
}

#[test]
fn made_key_is_kept_and_loaded_again() {
    let b = key_blob(&[4; 65]);
    let mut k = Kept::new();
    assert!(!k.is_known());
    assert!(!k.load(None));
    assert!(!k.load(Some(Vec::new())));
    assert!(!k.load(Some(vec![0; 8193])));
    assert_eq!(k.recipient(), Err(Errno::ENODEV));
    assert!(!k.cache(b"junk".to_vec()));
    assert!(k.cache(b.clone()));
    assert!(k.is_known());
    assert_eq!(k.recipient(), Ok(vec![4; 65]));
    let mut next = Kept::new();
    assert!(next.load(Some(b.clone())));
    assert_eq!(next.blob(), Ok(b));
}

fn healthy() -> sks::Healthy {
    sks::health_check(Some(&outcome(0, &[]))).unwrap()
}

const BAG: KeyBagHandle = KeyBagHandle(6);

/// Looking for the key, come to where the enclave's health is checked.
fn looking() -> FindKey {
    let (mut m, ask) = FindKey::start(false, BAG, b"secret".to_vec());
    assert_eq!(ask, FindAsk::LoadFile);
    assert_eq!(m.step(FindEvent::Worked(false)), FindAsk::CheckHealth);
    m
}

#[test]
fn key_is_made_where_its_file_holds_none() {
    assert_eq!(FindKey::start(true, BAG, b"secret".to_vec()).1, FindAsk::Done);
    let (mut there, _) = FindKey::start(false, BAG, b"secret".to_vec());
    assert_eq!(there.step(FindEvent::Worked(true)), FindAsk::Done);
    assert_eq!(there.secret, None);
    let mut ill = looking();
    assert_eq!(ill.step(FindEvent::Health(None)), FindAsk::Create(BAG));
    assert_eq!(ill.step(FindEvent::Made(None)), FindAsk::Done);
    let mut m = looking();
    assert_eq!(
        m.step(FindEvent::Health(Some(healthy()))),
        FindAsk::Unlock(BAG, b"secret".to_vec(), healthy())
    );
    assert_eq!(m.step(FindEvent::Worked(false)), FindAsk::Create(BAG));
    assert_eq!(m.step(FindEvent::Made(Some(b"key".to_vec()))), FindAsk::WriteFile(b"key".to_vec()));
    assert_eq!(m.step(FindEvent::Worked(true)), FindAsk::SyncFile);
    assert_eq!(m.step(FindEvent::Worked(false)), FindAsk::Keep(b"key".to_vec()));
    assert_eq!(m.step(FindEvent::Worked(true)), FindAsk::Done);
    let mut unwritten = looking();
    unwritten.step(FindEvent::Health(None));
    unwritten.step(FindEvent::Made(Some(b"key".to_vec())));
    assert_eq!(unwritten.step(FindEvent::Worked(false)), FindAsk::Keep(b"key".to_vec()));
}

#[test]
fn operation_requests_name_bag_and_version() {
    let req = refkey::op_request(KeyBagHandle(7), &KeyOp::Create).unwrap();
    assert_eq!(req.selector, 0x22);
    let b = req.body.as_slice();
    assert_eq!(&b[..4], &[0, 0, 0, 0]);
    assert_eq!(&b[4..12], &0x4c49_4e55_5853_4b53u64.to_le_bytes());
    assert_eq!(&b[12..16], &7i32.to_le_bytes());
    assert_eq!(&b[16..20], &2u32.to_le_bytes());
    assert_eq!(&b[20..24], &29u32.to_le_bytes());
    let key = key_blob(&[4; 65]);
    let sign = refkey::op_request(KeyBagHandle(7), &KeyOp::Sign { blob: &key, challenge: &[6; 32] }).unwrap();
    let set = &sign.body.as_slice()[24..];
    assert_eq!(set[0], 0x31);
    let too_long = vec![0u8; 5000];
    assert!(refkey::op_request(KeyBagHandle(7), &KeyOp::Unseal { blob: &key, sealed: &too_long }).is_none());
}

#[test]
fn request_holds_data_and_key() {
    let key = key_blob(&[4; 65]);
    let items = refkey::op_items(&KeyOp::Unseal { blob: &key, sealed: b"sealed" });
    let set = encode_refkey_set(&items).unwrap();
    let d = refkey_find(&set, b"d").unwrap();
    assert_eq!(octet_string_body(d), Some(&b"sealed"[..]));
    assert_eq!(refkey_find(&set, b"rk"), Some(&key[..]));
    assert_eq!(refkey_find(&set, b"o"), Some(&[0x0cu8, 4, b'o', b'e', b'c', b'd'][..]));
}

#[test]
fn operation_results_are_unwrapped() {
    let good = outcome(0, &with_blob(0, b"result"));
    assert_eq!(refkey::op_outcome(Some(&good)), Some(b"result".to_vec()));
    assert_eq!(refkey::op_outcome(None), None);
    assert_eq!(refkey::op_outcome(Some(&outcome(-1, &with_blob(0, b"x")))), None);
    let wrapped = outcome(0, &with_blob(0, &[0x04, 2, 0x30, 0]));
    assert_eq!(refkey::signature(Some(&wrapped)), Some(vec![0x30, 0]));
    let bare = outcome(0, &with_blob(0, &[0x30, 0]));
    assert_eq!(refkey::signature(Some(&bare)), Some(vec![0x30, 0]));
}

fn key() -> Option<Vec<u8>> {
    Some(b"key".to_vec())
}

fn bag_secret() -> refkey::Event {
    refkey::Event::Bag(Ok(Some(b"secret".to_vec())))
}

#[test]
fn loaded_bag_is_unloaded_whatever_comes() {
    let mut m = UseKey::start(Purpose::Operate);
    assert_eq!(m.step(refkey::Event::Begin { key: key(), ready: true }), refkey::Ask::ReadBag);
    assert_eq!(m.step(bag_secret()), refkey::Ask::Recover);
    assert_eq!(m.step(refkey::Event::Recovered(Some(BAG))), refkey::Ask::CheckHealth);
    assert_eq!(m.step(refkey::Event::Health(None)), refkey::Ask::Operate(BAG, b"key".to_vec()));
    assert_eq!(m.step(refkey::Event::Operated(None)), refkey::Ask::Unload(BAG));
    assert_eq!(m.step(refkey::Event::Unloaded), refkey::Ask::Failed(Errno::EIO));
    let mut s = UseKey::start(Purpose::Seal);
    assert_eq!(s.step(refkey::Event::Begin { key: None, ready: true }), refkey::Ask::ReadBag);
    assert_eq!(s.step(bag_secret()), refkey::Ask::Recover);
    assert_eq!(
        s.step(refkey::Event::Recovered(Some(BAG))),
        refkey::Ask::FindKey(BAG, b"secret".to_vec())
    );
    assert_eq!(s.step(refkey::Event::Key(key())), refkey::Ask::Unload(BAG));
    assert_eq!(s.step(refkey::Event::Unloaded), refkey::Ask::Ready(b"key".to_vec()));
    let mut n = UseKey::start(Purpose::Seal);
    assert_eq!(
        n.step(refkey::Event::Begin { key: None, ready: false }),
        refkey::Ask::Failed(Errno::ENODEV)
    );
    let mut b = UseKey::start(Purpose::Operate);
    b.step(refkey::Event::Begin { key: key(), ready: true });
    assert_eq!(b.step(refkey::Event::Bag(Ok(None))), refkey::Ask::Failed(Errno::ENODEV));
}

#[test]
fn operation_gives_its_result() {
    let mut m = UseKey::start(Purpose::Operate);
    m.step(refkey::Event::Begin { key: None, ready: true });
    m.step(bag_secret());
    m.step(refkey::Event::Recovered(Some(BAG)));
    m.step(refkey::Event::Key(key()));
    assert_eq!(m.step(refkey::Event::Unloaded), refkey::Ask::ReadBag);
    m.step(bag_secret());
    let again = KeyBagHandle(9);
    m.step(refkey::Event::Recovered(Some(again)));
    assert_eq!(
        m.step(refkey::Event::Health(Some(healthy()))),
        refkey::Ask::Unlock(again, b"secret".to_vec(), healthy())
    );
    assert_eq!(m.step(refkey::Event::Unlocked), refkey::Ask::Operate(again, b"key".to_vec()));
    assert_eq!(
        m.step(refkey::Event::Operated(Some(b"signature".to_vec()))),
        refkey::Ask::Unload(again)
    );
    assert_eq!(m.step(refkey::Event::Unloaded), refkey::Ask::Finished(b"signature".to_vec()));
    let mut lost = UseKey::start(Purpose::Seal);
    lost.step(refkey::Event::Begin { key: None, ready: true });
    lost.step(bag_secret());
    assert_eq!(lost.step(refkey::Event::Recovered(None)), refkey::Ask::Failed(Errno::EIO));
    assert_eq!(lost.secret, None);
}

fn point() -> Vec<u8> {
    let mut p = vec![4u8];
    p.resize(65, 0xaa);
    p
}

#[test]
fn sealing_puts_point_ciphertext_and_tag_together() {
    let o = refkey_seal::ecies_encrypt_parts(&point(), b"secret", refkey_seal::sealing_scheme()).ok().unwrap();
    assert_eq!(o.peer(), vec![0xaa; 64]);
    let d = o.agreed(Ok(([0xbb; 64], [0xcc; 32]))).ok().unwrap();
    assert_eq!(d.inputs.len(), 2);
    let mut first = vec![0xcc; 32];
    first.extend_from_slice(&[0, 0, 0, 1, 4]);
    first.extend_from_slice(&[0xbb; 64]);
    assert_eq!(d.inputs[0], first);
    assert_eq!(d.inputs[1][32..36], [0, 0, 0, 2]);
    let c = d.derived(&vec![[1u8; 32], [2u8; 32]]);
    assert_eq!(c.key, vec![1; 32]);
    assert_eq!(c.iv, vec![2; 16]);
    assert_eq!(c.aad_len, 0);
    let mut buf = b"secret".to_vec();
    buf.extend_from_slice(&[0; 16]);
    assert_eq!(c.buf, buf);
    let mut sealed = b"SECRET".to_vec();
    sealed.extend_from_slice(&[9; 16]);
    let parts = c.encrypted(Ok(sealed)).ok().unwrap();
    assert_eq!(parts.ciphertext, b"SECRET".to_vec());
    assert_eq!(parts.tag, vec![9; 16]);
    let blob = refkey_seal::ecies_seal(&parts);
    assert_eq!(blob.len(), 65 + 6 + 16);
    assert_eq!(blob[0], 4);
    assert_eq!(&blob[65..71], b"SECRET");
    assert_eq!(&blob[71..], &[9; 16]);
}

#[test]
fn sealing_refuses_bad_points_and_schemes() {
    let s = refkey_seal::sealing_scheme();
    assert!(matches!(refkey_seal::ecies_encrypt_parts(&[4; 64], b"x", s), Err(Errno::EINVAL)));
    assert!(matches!(refkey_seal::ecies_encrypt_parts(&[5; 65], b"x", s), Err(Errno::EINVAL)));
    let bad_key = Scheme { key_len: 24, ..s };
    assert!(matches!(refkey_seal::ecies_encrypt_parts(&point(), b"x", bad_key), Err(Errno::EINVAL)));
    let bad_iv = Scheme { iv_len: 8, ..s };
    assert!(matches!(refkey_seal::ecies_encrypt_parts(&point(), b"x", bad_iv), Err(Errno::EINVAL)));
    let o = refkey_seal::ecies_encrypt_parts(&point(), b"x", s).ok().unwrap();
    assert!(matches!(o.agreed(Err(Errno::EIO)), Err(Errno::EIO)));
}

#[test]
fn key_derivation_orders_its_parts_by_mode() {
    let z = [1u8];
    let i = [2u8];
    let ctr = [0u8, 0, 0, 1];
    let expect = [
        [&z[..], &ctr[..], &i[..]].concat(),
        [&ctr[..], &z[..], &i[..]].concat(),
        [&z[..], &i[..], &ctr[..]].concat(),
        [&i[..], &z[..], &ctr[..]].concat(),
        [&z[..], &i[..]].concat(),
    ];
    for mode in 0..5u8 {
        let v = refkey_seal::kdf_inputs(&z, &i, 32, mode).ok().unwrap();
        assert_eq!(v.len(), 1);
        assert_eq!(v[0], expect[mode as usize]);
    }
    assert_eq!(refkey_seal::kdf_inputs(&z, &i, 0, 0).ok().unwrap().len(), 0);
    assert_eq!(refkey_seal::kdf_output(&vec![[7u8; 32], [8u8; 32]], 33)[31..], [7, 8]);
}

#[test]
fn trusted_source_is_taken_once() {
    let mut s = Source::new();
    assert_eq!(s.init(0), -19);
    assert!(s.claim().is_ok());
    assert_eq!(s.claim(), Err(Errno::EBUSY));
    assert_eq!(s.wired(-17), Err(-17));
    assert!(s.claim().is_ok());
    assert!(s.wired(0).is_ok());
    assert_eq!(s.init(-3), -3);
    assert!(s.unregister());
    assert!(!s.unregister());
}

#[test]
fn trusted_refusals_look_alike() {
    let mut s = Source::new();
    assert_eq!(s.unseal(Ok(vec![1]), 32), Err(Errno::ENODEV));
    s.claim().unwrap();
    assert_eq!(s.unseal(Ok(vec![1]), 32), Ok(vec![1]));
    assert_eq!(s.unseal(Ok(vec![]), 32), Err(Errno::EBADMSG));
    assert_eq!(s.unseal(Ok(vec![1; 33]), 32), Err(Errno::EBADMSG));
    assert_eq!(s.unseal(Err(Errno::EIO), 32), Err(Errno::EBADMSG));
    assert_eq!(s.seal(Ok(vec![1; 4]), 3), Err(Errno::E2BIG));
    assert_eq!(s.seal(Ok(vec![1; 3]), 3), Ok(vec![1; 3]));
    assert_eq!(s.seal(Err(Errno::ENODEV), 3), Err(Errno::ENODEV));
    assert_eq!(s.get_random(0, Err(Errno::EIO)), 0);
    assert_eq!(s.get_random(8, Ok(())), 8);
    assert_eq!(s.get_random(8, Err(Errno::EIO)), -5);
}

#[test]
fn request_is_sealed_into_message_and_image() {
    let req = sks::req_unload_keybag(KeyBagHandle(3));
    let (m, img): (Message, _) = sks::seal(&req, 1, &[0; 32], Sequence::from_counter(1)).ok().unwrap();
    assert_eq!(sks::decode_sks(&m).selector, 0x05);
    assert_eq!(img.len(), 0x54 + req.body.as_slice().len());
    assert_eq!(sks::timestamp_us(5_999), 5);
}

#[test]
fn the_order_of_items_does_not_matter() {
    let make = |order: [usize; 3]| {
        let of = |i: usize| match i {
            0 => item(b"oid", RefKeyValue::Integer(7)),
            1 => item(b"acl", RefKeyValue::Octets(vec![1, 2, 3])),
            _ => item(b"op", RefKeyValue::Utf8(b"sign".to_vec())),
        };
        encode_refkey_set(&order.iter().map(|i| of(*i)).collect()).unwrap()
    };
    let one = make([0, 1, 2]);
    assert_eq!(one, make([2, 1, 0]));
    assert_eq!(one, make([1, 0, 2]));
    assert_eq!(refkey_find(&one, b"o"), None);
    assert_eq!(refkey_find(&one, b"oi"), None);
    assert_eq!(refkey_find(&one, b"oidx"), None);
    assert_eq!(refkey_find(&one, b"op"), Some(&[0x0c, 4, b's', b'i', b'g', b'n'][..]));
}

#[test]
fn secrets_are_overwritten() {
    let mut body = Body::new();
    body.put_u32(0x0102_0304);
    let mut img = image::build_request(Version::V1, 5, &body, &[9; 32]);
    body.wipe();
    assert_eq!(body.as_slice(), [0; 4]);
    let n = img.len();
    img.wipe();
    assert_eq!(img.as_slice(), vec![0; n]);
    let mut rec = keybag::write_bag_uuid(b"bag", &Uuid::zero(), &[7; 32]).ok().unwrap();
    let mut file = rec.head.clone();
    file.extend_from_slice(&rec.body);
    match keybag::read(keybag::Slot::Identity, Ok(file)) {
        Ok(keybag::State::Present(mut bag)) => {
            assert_eq!(bag.secret, [7; 32]);
            bag.wipe();
            assert_eq!((bag.secret, bag.wrapped), (vec![0; 32], b"bag".to_vec()));
        },
        _ => panic!("no bag"),
    }
    rec.wipe();
    assert_eq!(rec.body, [0; 35]);
    let mut key = fv::Key { opaque: vec![1; 64], iv: vec![2; 16] };
    key.wipe();
    assert_eq!((key.opaque, key.iv), (vec![0; 64], vec![0; 16]));
}

#[test]
fn credential_commands_have_names() {
    assert_eq!(scrd::scrd_initialize().name(), "SCRD_INITIALIZE");
    assert_eq!(scrd::scrd_context_create_tracked(1).name(), "SCRD_CONTEXT_CREATE");
    assert_eq!(scrd::scrd_context_externalize(&[0; 16]).name(), "SCRD_EXTERNALIZE");
    assert_eq!(scrd::scrd_verify_touchid_enrollment(&[0; 16]).name(), "SCRD_VERIFY_POLICY");
}
