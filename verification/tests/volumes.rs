use apple_sep::errno::Errno;
use apple_sep::fv::{self, Readiness};
use apple_sep::fv_volumes::Volumes;
use apple_sep::der::{encode_refkey_set, Item, RefKeyValue};
use apple_sep::sks::{SksOutcome, SksReply};
use apple_sep::uuid::Uuid;

const READY: Readiness = Readiness { phase_ready: true, sks_ready: true };

fn uuid(n: u8) -> Uuid {
    Uuid::read(&[n; 16], 0)
}

fn outcome(status: i8, body: &[u8]) -> SksOutcome {
    let mut r = 0x14u32.to_le_bytes().to_vec();
    r.resize(4 + 0x14, 0);
    r.extend_from_slice(body);
    SksOutcome { reply: SksReply { selector: 0, seq: 0, status, response_size: 0 }, response: r }
}

fn put_blob(out: &mut Vec<u8>, b: &[u8]) {
    out.extend_from_slice(&(b.len() as u32).to_le_bytes());
    out.extend_from_slice(b);
    while out.len() % 4 != 0 {
        out.push(0);
    }
}

fn fields(version: i32, blobs: &[&[u8]], numbers: &[i32]) -> Vec<u8> {
    let mut b = version.to_le_bytes().to_vec();
    for x in blobs {
        put_blob(&mut b, x);
    }
    for n in numbers {
        b.extend_from_slice(&n.to_le_bytes());
    }
    b
}

fn state_reply(bag: u8) -> SksOutcome {
    let set = encode_refkey_set(&vec![Item {
        key: b"kid".to_vec(),
        value: RefKeyValue::Octets(vec![bag; 16]),
    }])
    .unwrap();
    outcome(0, &fields(0, &[&set], &[]))
}

#[test]
fn record_is_counted_and_taken_back() {
    let mut v = Volumes::new();
    assert_eq!(v.resolve(uuid(1)), uuid(1));
    assert!(v.record(uuid(1), uuid(9)).is_ok());
    assert_eq!(v.resolve(uuid(1)), uuid(9));
    assert!(v.record(uuid(1), uuid(9)).is_ok());
    assert_eq!(v.record(uuid(1), uuid(8)), Err(Errno::EINVAL));
    assert!(v.unrecord(uuid(1), uuid(9)).is_ok());
    assert_eq!(v.resolve(uuid(1)), uuid(9));
    assert_eq!(v.unrecord(uuid(1), uuid(8)), Err(Errno::EINVAL));
    assert!(v.unrecord(uuid(1), uuid(9)).is_ok());
    assert_eq!(v.resolve(uuid(1)), uuid(1));
    assert_eq!(v.unrecord(uuid(1), uuid(9)), Err(Errno::ENOENT));
}

#[test]
fn volumes_are_limited() {
    let mut v = Volumes::new();
    for i in 0..32u8 {
        assert!(v.record(uuid(i), uuid(200)).is_ok());
    }
    assert_eq!(v.record(uuid(100), uuid(200)), Err(Errno::ENOSPC));
    assert!(v.unrecord(uuid(0), uuid(200)).is_ok());
    assert_eq!(v.resolve(uuid(31)), uuid(200));
    assert!(v.record(uuid(100), uuid(200)).is_ok());
}

#[test]
fn classes_have_their_numbers() {
    assert_eq!(fv::pfk_class(1), Ok(1));
    assert_eq!(fv::pfk_class(4), Ok(4));
    assert_eq!(fv::pfk_class(6), Ok(13));
    assert_eq!(fv::pfk_class(7), Ok(17));
    assert_eq!(fv::pfk_class(0x106), Ok(0x10d));
    assert_eq!(fv::pfk_class(0), Err(Errno::EINVAL));
    assert_eq!(fv::pfk_class(5), Err(Errno::EINVAL));
    assert_eq!(fv::pfk_class(31), Err(Errno::EINVAL));
}

#[test]
fn system_volume_has_an_option() {
    assert_eq!(fv::fv_options(Some(uuid(1)), uuid(1)), 4);
    assert_eq!(fv::fv_options(Some(uuid(1)), uuid(2)), 0);
    assert_eq!(fv::fv_options(None, uuid(2)), 0);
}

#[test]
fn nothing_is_asked_before_the_enclave_is_ready() {
    let not_up = Readiness { phase_ready: false, sks_ready: true };
    let no_keys = Readiness { phase_ready: true, sks_ready: false };
    assert!(matches!(fv::unwrap_media_key(&[0; 40], 1, not_up), Err(Errno::EAGAIN)));
    assert!(matches!(fv::unwrap_media_key(&[0; 40], 1, no_keys), Err(Errno::ENODEV)));
    assert!(matches!(fv::unwrap_media_key(&[0; 39], 1, not_up), Err(Errno::EINVAL)));
}

#[test]
fn media_key_request_and_reply() {
    let req = fv::unwrap_media_key(&[7; 40], 3, READY).ok().unwrap();
    assert_eq!(req.selector, 0x32);
    let mut want = 1u32.to_le_bytes().to_vec();
    want.extend_from_slice(&1u64.to_le_bytes());
    put_blob(&mut want, &[7; 40]);
    want.extend_from_slice(&(-1i32).to_le_bytes());
    want.extend_from_slice(&3u32.to_le_bytes());
    assert_eq!(req.body.as_slice(), &want[..]);
    let good = outcome(0, &fields(1, &[&[5; 64], &[6; 16]], &[2]));
    let k = fv::media_key(Some(&good)).ok().unwrap();
    assert_eq!(k.opaque, vec![5; 64]);
    assert_eq!(k.iv, vec![6; 16]);
    assert!(matches!(fv::media_key(None), Err(Errno::EIO)));
    assert!(matches!(fv::media_key(Some(&outcome(-1, &[]))), Err(Errno::EACCES)));
    let no_flag = outcome(0, &fields(1, &[&[5; 64], &[6; 16]], &[1]));
    assert!(matches!(fv::media_key(Some(&no_flag)), Err(Errno::EMSGSIZE)));
    let other = outcome(0, &fields(0, &[&[5; 64], &[6; 16]], &[2]));
    assert!(matches!(fv::media_key(Some(&other)), Err(Errno::EMSGSIZE)));
    let short = outcome(0, &fields(1, &[&[5; 63], &[6; 16]], &[2]));
    assert!(matches!(fv::media_key(Some(&short)), Err(Errno::EMSGSIZE)));
}

#[test]
fn volume_key_has_no_vector_key() {
    let req = fv::unwrap_vek(&[], &[], &[1; 8], READY).ok().unwrap();
    assert_eq!(req.selector, 0x41);
    assert!(fv::unwrap_vek(&[0; 1025], &[], &[1; 8], READY).is_err());
    assert!(fv::unwrap_vek(&[], &[0; 529], &[1; 8], READY).is_err());
    assert!(fv::unwrap_vek(&[], &[], &[], READY).is_err());
    let good = outcome(0, &fields(0, &[&[5; 64]], &[1]));
    let k = fv::volume_key(Some(&good)).ok().unwrap();
    assert_eq!(k.iv, vec![0; 16]);
    assert!(fv::volume_key(Some(&outcome(0, &fields(0, &[&[5; 64]], &[2])))).is_err());
}

#[test]
fn file_key_is_asked_of_the_recorded_bag() {
    let mut v = Volumes::new();
    v.record(uuid(1), uuid(9)).unwrap();
    let req = fv::unwrap_file_key(&v, uuid(1), 6, &[1; 40], &[2; 24], READY).ok().unwrap();
    assert_eq!(req.selector, 0x09);
    let b = req.body.as_slice();
    assert_eq!(&b[12..16], &(-5i32).to_le_bytes());
    assert_eq!(&b[20..32], &[0x31, 0x1a, 0x30, 0x18, 0x0c, 4, b'v', b'u', b'i', b'd', 4, 0x10]);
    assert_eq!(&b[32..48], &[9; 16]);
    assert_eq!(&b[48..52], &13u32.to_le_bytes());
    assert!(matches!(
        fv::unwrap_file_key(&v, uuid(1), 5, &[1; 40], &[2; 24], READY),
        Err(Errno::EIO)
    ));
    assert!(matches!(
        fv::unwrap_file_key(&v, uuid(1), 6, &[], &[2; 24], READY),
        Err(Errno::EINVAL)
    ));
    let good = outcome(0, &fields(2, &[&[5; 64], &[6; 16], &[]], &[2]));
    assert!(fv::file_key(Some(&good)).is_ok());
}

#[test]
fn new_file_key_is_checked_and_padded() {
    let v = Volumes::new();
    let req = fv::new_file_key(&v, uuid(1), 7, 1, 1, READY).ok().unwrap();
    assert_eq!(req.selector, 0x10);
    assert!(matches!(fv::new_file_key(&v, uuid(1), 7, 0, 1, READY), Err(Errno::EINVAL)));
    assert!(matches!(fv::new_file_key(&v, uuid(1), 7, 1, 0, READY), Err(Errno::EINVAL)));
    assert!(matches!(fv::new_file_key(&v, uuid(1), 5, 1, 1, READY), Err(Errno::EINVAL)));
    let good = outcome(0, &fields(2, &[&[5; 64], &[6; 16], &[7; 32], &[8; 40], &[9; 48]], &[2, 17]));
    let k = fv::new_key(Some(&good), 7).ok().unwrap();
    assert_eq!(k.wrapped_ek_len, 40);
    assert_eq!(k.wrapped_ekwk_len, 48);
    assert_eq!(k.wrapped_ek.len(), 168);
    assert_eq!(&k.wrapped_ek[..40], &[8; 40]);
    assert!(k.wrapped_ek[40..].iter().all(|b| *b == 0));
    assert_eq!(&k.wrapped_ekwk[..48], &[9; 48]);
    let other_class = outcome(0, &fields(2, &[&[5; 64], &[6; 16], &[7; 32], &[8; 40], &[9; 48]], &[2, 7]));
    assert!(matches!(fv::new_key(Some(&other_class), 7), Err(Errno::EMSGSIZE)));
    let empty = outcome(0, &fields(2, &[&[5; 64], &[6; 16], &[], &[8; 40], &[9; 48]], &[2, 17]));
    assert!(matches!(fv::new_key(Some(&empty), 7), Err(Errno::EMSGSIZE)));
}

#[test]
fn bag_is_named_by_the_volume_state() {
    assert_eq!(fv::fv_blob_uuid(Some(&state_reply(9))), Ok(uuid(9)));
    assert_eq!(fv::fv_blob_uuid(None), Err(Errno::EIO));
    assert_eq!(fv::fv_blob_uuid(Some(&outcome(1, &[]))), Err(Errno::EACCES));
    assert_eq!(fv::fv_blob_uuid(Some(&outcome(0, &fields(0, &[b"x"], &[])))), Err(Errno::EMSGSIZE));
    assert_eq!(fv::fv_blob_uuid(Some(&outcome(0, &fields(1, &[b"x"], &[])))), Err(Errno::EMSGSIZE));
}

#[test]
fn load_and_unload_keep_the_record() {
    let mut v = Volumes::new();
    let (req, load) = fv::load_class_keys(None, uuid(1), b"s", b"r", b"k", READY).ok().unwrap();
    assert_eq!(req.selector, 0x48);
    let (req, loading) = load.named(&mut v, None, Some(&state_reply(9))).ok().unwrap();
    assert_eq!(req.selector, 0x47);
    assert_eq!(v.resolve(uuid(1)), uuid(9));
    let ok = outcome(0, &fields(0, &[b""], &[]));
    let (r, undo) = loading.loaded(&mut v, None, Some(&ok));
    assert!(r.is_ok());
    assert!(undo.is_none());
    let (_, unload) = fv::unload_class_keys(None, uuid(1), b"k", READY).ok().unwrap();
    let (_, unloading) = unload.named(None, Some(&state_reply(9))).ok().unwrap();
    assert!(unloading.unloaded(&mut v, Some(&ok)).is_ok());
    assert_eq!(v.resolve(uuid(1)), uuid(1));
}

#[test]
fn failed_load_leaves_no_record() {
    for (reply, undone) in [(None, false), (Some(outcome(1, &[])), false), (Some(outcome(0, &[])), true)] {
        let mut v = Volumes::new();
        let (_, load) = fv::load_class_keys(None, uuid(1), b"s", b"r", b"k", READY).ok().unwrap();
        let (_, loading) = load.named(&mut v, None, Some(&state_reply(9))).ok().unwrap();
        let (r, undo) = loading.loaded(&mut v, None, reply.as_ref());
        assert!(r.is_err());
        assert_eq!(undo.is_some(), undone);
        assert_eq!(v.resolve(uuid(1)), uuid(1));
    }
}
