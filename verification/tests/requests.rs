//! The exact bytes of requests, and what is read from their answers.

use apple_sep::bag;
use apple_sep::bringup;
use apple_sep::errno::Errno;
use apple_sep::keybag;
use apple_sep::mailbox::Message;
use apple_sep::proto;
use apple_sep::proto::{ControlReply, Fields};
use apple_sep::sbio;
use apple_sep::sbio::{
    CatacombUser, ComponentAction, ComponentStates, ContextScope, IdentityRecords, IdentityV1,
    ImagePurpose, NoExistingCatacomb, UserId, Verdict,
};
use apple_sep::scrd;
use apple_sep::session;
use apple_sep::session::{MatchEvidence, Op, ResultToken};
use apple_sep::sks;
use apple_sep::sks::{Designation, DesignateUser, KeyBagHandle, SksOutcome, SksReply, SpecialHandle};
use apple_sep::transfer::{Continuation, DeviceStatus, Packet, Reassembly};
use apple_sep::uuid::Uuid;
use apple_sep::xarm::XarmState;

fn id(n: u8) -> Uuid {
    Uuid::read(&[n; 16], 0)
}

fn client() -> Vec<u8> {
    0x4c49_4e55_5853_4b53u64.to_le_bytes().to_vec()
}

fn padded(b: &[u8]) -> Vec<u8> {
    let mut out = (b.len() as u32).to_le_bytes().to_vec();
    out.extend_from_slice(b);
    while out.len() % 4 != 0 {
        out.push(0);
    }
    out
}

fn joined(parts: &[&[u8]]) -> Vec<u8> {
    parts.concat()
}

fn answer(status: i8, body: &[u8]) -> SksOutcome {
    let mut response = 0x14u32.to_le_bytes().to_vec();
    response.resize(4 + 0x14, 0);
    response.extend_from_slice(body);
    SksOutcome { reply: SksReply { selector: 0, seq: 0, status, response_size: 0 }, response }
}

#[test]
fn key_store_requests_have_their_bytes() {
    let handle = KeyBagHandle(7);
    let special = SpecialHandle(-1000);
    let plain = joined(&[&[0, 0, 0, 0], &client(), &7i32.to_le_bytes()]);
    let named = joined(&[&[0, 0, 0, 0], &client(), &(-1000i32).to_le_bytes()]);

    let r = sks::req_get_capabilities();
    assert_eq!(r.selector, 0x4d);
    assert_eq!(r.body.as_slice(), &[0, 0, 0, 0, 1, 0, 0, 0, 0, 0, 0, 0, 0, 0, 0, 0]);
    for (r, selector, body) in [
        (sks::req_unload_keybag(handle), 0x05, &plain),
        (sks::req_copy_keybag_uuid(handle), 0x06, &plain),
        (sks::req_copy_keybag(handle), 0x02, &plain),
        (sks::req_copy_uuid_special(special), 0x06, &named),
        (sks::req_copy_keybag_special(special), 0x02, &named),
    ] {
        assert_eq!(r.selector, selector);
        assert_eq!(r.body.as_slice(), body.as_slice());
    }

    let r = sks::req_load_keybag(&[9, 8, 7]).unwrap();
    assert_eq!(r.selector, 0x03);
    assert_eq!(
        r.body.as_slice(),
        joined(&[&[0, 0, 0, 0], &client(), &padded(&[9, 8, 7])]).as_slice()
    );

    let user = DesignateUser::new(1000).unwrap();
    assert!(DesignateUser::new(9).is_none());
    assert_eq!(user.special_handle(), special);
    assert_eq!(SpecialHandle::first_identity().value(), -1);
    let r = sks::req_designate(&Designation { source: handle, user }, &[1, 2]).unwrap();
    assert_eq!(r.selector, 0x0d);
    assert_eq!(
        r.body.as_slice(),
        joined(&[
            &1u32.to_le_bytes(),
            &client(),
            &7i32.to_le_bytes(),
            &(-1000i32).to_le_bytes(),
            &padded(&[1, 2]),
            &[0; 8],
        ])
        .as_slice()
    );

    let r = sks::req_verify_secret(special, &[5], &[6; 16]).unwrap();
    assert_eq!(r.selector, 0x21);
    assert_eq!(
        r.body.as_slice(),
        joined(&[
            &1u32.to_le_bytes(),
            &client(),
            &(-1000i32).to_le_bytes(),
            &padded(&[5]),
            &padded(&[6; 16]),
            &[0; 8],
        ])
        .as_slice()
    );
}

#[test]
fn unlocking_takes_a_passed_health_check() {
    assert!(sks::health_check(None).is_none());
    assert!(sks::health_check(Some(&answer(-13, &[]))).is_none());
    let healthy = sks::health_check(Some(&answer(0, &[]))).unwrap();
    let r = sks::req_change_lock_state(KeyBagHandle(3), &[1], healthy).unwrap();
    assert_eq!(r.selector, 0x04);
    assert_eq!(
        r.body.as_slice(),
        joined(&[
            &1u32.to_le_bytes(),
            &client(),
            &3i32.to_le_bytes(),
            &[0; 4],
            &padded(&[1]),
            &[0; 8],
        ])
        .as_slice()
    );
    let healthy = sks::health_check(Some(&answer(0, &[]))).unwrap();
    let r = sks::req_unlock_special(SpecialHandle(-1000), &[1], healthy).unwrap();
    assert_eq!(&r.body.as_slice()[12..16], &(-1000i32).to_le_bytes());
}

#[test]
fn making_a_bag_takes_leave() {
    let missing = keybag::read(keybag::Slot::Identity, Err(Errno::ENOENT));
    let leave = match missing {
        Ok(keybag::State::Absent(l)) => l,
        _ => panic!("a missing file gives leave"),
    };
    let r = bag::req_create_identity_keybag(&[1; 32], &[2; 16], leave).unwrap();
    assert_eq!(r.selector, 0x01);
    assert_eq!(
        r.body.as_slice(),
        joined(&[
            &5u32.to_le_bytes(),
            &client(),
            &[0; 4],
            &(-1i32).to_le_bytes(),
            &padded(&[1; 32]),
            &padded(&[]),
            &padded(&[2; 16]),
            &padded(&[]),
            &[0; 16],
            &padded(&[]),
        ])
        .as_slice()
    );
    assert_eq!(keybag::Slot::Identity.path(), "/var/lib/aurora-sep-keybag.bin");
}

#[test]
fn answers_of_the_key_store_are_read() {
    let made = joined(&[&5u32.to_le_bytes(), &44i32.to_le_bytes(), &padded(&[])]);
    assert_eq!(sks::handle_from_create_reply(&answer(0, &made)), Some(KeyBagHandle(44)));
    assert_eq!(sks::handle_from_create_reply(&answer(1, &made)), None);
    let odd = joined(&[&4u32.to_le_bytes(), &44i32.to_le_bytes(), &padded(&[])]);
    assert_eq!(sks::handle_from_create_reply(&answer(0, &odd)), None);

    assert!(sks::designated(&answer(0, &1u32.to_le_bytes())));
    assert!(!sks::designated(&answer(0, &2u32.to_le_bytes())));
    let user = DesignateUser::new(1000).unwrap();
    let m = bag::remember_designated(Some(&answer(0, &1u32.to_le_bytes())), &user, &[3, 4]);
    let m = m.unwrap();
    assert_eq!((m.special, m.secret), (SpecialHandle(-1000), vec![3, 4]));
    assert!(bag::remember_designated(None, &user, &[3]).is_none());
    assert_eq!(sks::report_response(&answer(0, &[1, 2])), Some(&[1u8, 2][..]));

    assert!(bag::cold_match_continue(true, Some(id(1)), &id(1)));
    assert!(!bag::cold_match_continue(false, Some(id(1)), &id(1)));
    assert!(!bag::cold_match_continue(true, Some(id(2)), &id(1)));
    assert!(!bag::cold_match_continue(true, None, &id(1)));
    let special = SpecialHandle(-1000);
    assert!(bag::cold_match(false, special).is_none());
    assert_eq!(bag::cold_match(true, special).unwrap().selector, 0x06);
    let own = answer(0, &joined(&[&0i32.to_le_bytes(), &padded(&[1; 16])]));
    let unload = |named, uuid| bag::cold_match_unload(true, named, KeyBagHandle(7), &uuid);
    let req = unload(Some(&own), id(1)).unwrap();
    assert_eq!(req.selector, sks::req_unload_keybag(KeyBagHandle(7)).selector);
    assert_eq!(&req.body.as_slice()[12..16], &7i32.to_le_bytes());
    assert!(unload(Some(&own), id(2)).is_none());
    assert!(unload(None, id(1)).is_none());
    assert!(bag::cold_match_unload(false, Some(&own), KeyBagHandle(7), &id(1)).is_none());
    assert!(bag::cold_match_prepared(Some(&own)));
    assert!(!bag::cold_match_prepared(None));
}

#[test]
fn snapshots_are_of_the_stored_bag() {
    let rec = keybag::write_bag_uuid(&[1; 8], &id(5), &[9]).unwrap();
    let file = joined(&[&rec.head, &rec.body]);
    let copy = answer(0, &joined(&[&0i32.to_le_bytes(), &padded(&[2; 12])]));
    let own = answer(0, &joined(&[&0i32.to_le_bytes(), &padded(&[5; 16])]));
    let other = answer(0, &joined(&[&0i32.to_le_bytes(), &padded(&[6; 16])]));
    let begun = || bag::resnapshot(SpecialHandle(-1000), Some(&copy)).unwrap();
    let (req, snapshot) = begun();
    assert_eq!(req.selector, 0x06);
    assert_eq!(&req.body.as_slice()[12..16], &(-1000i32).to_le_bytes());
    let fresh = snapshot.named(Some(&own), Ok(file.clone())).unwrap();
    let again = joined(&[&fresh.head, &fresh.body]);
    match keybag::read(keybag::Slot::Identity, Ok(again)) {
        Ok(keybag::State::Present(b)) => {
            assert_eq!((b.wrapped, b.uuid, b.secret), (vec![2; 12], id(5), vec![9]));
        }
        _ => panic!("the record is read back"),
    }
    assert!(begun().1.named(Some(&other), Ok(file.clone())).is_none());
    assert!(begun().1.named(None, Ok(file)).is_none());
    assert!(begun().1.named(Some(&own), Err(Errno::ENOENT)).is_none());
    assert!(bag::resnapshot(SpecialHandle(-1000), None).is_none());
}

#[test]
fn credential_commands_have_their_bytes() {
    let c = scrd::scrd_initialize();
    assert_eq!((c.request, c.payload), (1, vec![b'D', b'R', b'C', b'S', 0x0a, 0x28, 0, 0]));
    let c = scrd::scrd_context_create_tracked(-2);
    assert_eq!(c.payload, joined(&[b"DRCS", &[0x24, 0, 0, 1], &(-2i32).to_le_bytes()]));
    let c = scrd::scrd_context_externalize(&[7; 16]);
    assert_eq!(c.payload, joined(&[b"DRCS", &[0x13, 0, 0, 1], &[7; 16]]));
    let c = scrd::scrd_verify_touchid_enrollment(&[7; 16]);
    assert_eq!(
        c.payload,
        joined(&[b"DRCS", &[0x03, 0, 0, 1], &[7; 16], b"TouchIdEnrollment", &[0; 10]])
    );
    let mut p = scrd::ScrdProbe::new();
    p.arm();
    let m = Message { msg0: 9, msg1: 0 };
    assert!(p.on_scrd(m));
    assert_eq!((p.examine(0), p.examine(1)), (Some(m), None));
}

fn listing(entries: &[(i32, u8, u32)]) -> Vec<u8> {
    let mut out = Vec::new();
    for (user, n, selector) in entries {
        out.extend_from_slice(&user.to_le_bytes());
        out.extend_from_slice(&[*n; 16]);
        out.extend_from_slice(&selector.to_le_bytes());
        out.resize(out.len() + 16, 0);
    }
    out
}

#[test]
fn lists_of_identities_are_read() {
    let reply = listing(&[(1000, 1, 1), (1001, 2, 1), (1000, 3, 2), (1000, 4, 1)]);
    let r = IdentityRecords::new(&reply).unwrap();
    assert_eq!(r.count(), 4);
    assert!(r.lists_uuid(&id(3)));
    assert!(!r.lists_uuid(&id(5)));
    assert_eq!(r.each_built_in_for(1000), vec![id(1), id(4)]);
    assert!(IdentityRecords::new(&reply[1..]).is_none());

    let ok = Verdict::Accepted;
    assert_eq!(bringup::enclave_identities_for(ok, &reply, 1000), Some(vec![id(1), id(4)]));
    assert_eq!(bringup::enclave_identities_for(Verdict::Other, &reply, 1000), None);
    assert_eq!(bringup::identity_count(ok, &reply), Some(4));
    assert_eq!(bringup::enclave_lists(ok, &reply, &id(2)), Some(true));
    assert_eq!(bringup::enclave_lists(ok, &reply, &id(9)), Some(false));
    assert_eq!(bringup::enclave_lists(ok, &reply[1..], &id(2)), None);
}

#[test]
fn candidates_stand_behind_the_user() {
    let mut bytes = vec![0xffu8; 3];
    bytes.extend_from_slice(&1000i32.to_le_bytes());
    bytes.extend_from_slice(&[8; 16]);
    bytes.extend_from_slice(&1000i32.to_le_bytes());
    bytes.extend_from_slice(&[0; 16]);
    assert_eq!(sbio::enrol_identity_candidates(&bytes, 1000), vec![id(8)]);
    assert_eq!(sbio::enrol_identity_candidates(&bytes, 1001), vec![]);
    assert_eq!(sbio::enrol_identity_candidates(&bytes[..19], 1000), vec![]);
}

#[test]
fn components_are_looked_up() {
    let mut reply = Vec::new();
    for (n, state) in [(-1i32, 1u32), (1000, 3), (1000, 0)] {
        reply.extend_from_slice(&n.to_le_bytes());
        reply.extend_from_slice(&state.to_le_bytes());
    }
    let c = ComponentStates::new(&reply);
    assert_eq!((c.count(), c.pair(0), c.pair(3)), (3, Some((-1, 1)), None));
    assert_eq!((c.state_for(1000), c.state_for(5)), (Some(3), None));
    assert_eq!(sbio::component_action(3), ComponentAction::AlreadyActive);
    assert_eq!(sbio::component_action(1), ComponentAction::Load);
    assert_eq!(sbio::component_action(4), ComponentAction::Unsupported);
}

#[test]
fn users_and_scopes_have_their_numbers() {
    let user = UserId::new(1000).unwrap();
    assert_eq!(ContextScope::user(user).value(), 1000);
    assert_ne!(ContextScope::system().value(), 1000);
    assert_eq!(CatacombUser::enrolling(user).value(), 1000);
    assert_ne!(CatacombUser::master().value(), CatacombUser::owner().value());
    assert!(NoExistingCatacomb::from_zero_identities(0).is_some());
    assert!(NoExistingCatacomb::from_zero_identities(1).is_none());
    let i = IdentityV1::from_index(1000, id(4));
    assert_eq!((i.user_id, i.uuid()), (1000, id(4)));
    assert_ne!(
        ImagePurpose::Enrolment.last_image_offset(),
        ImagePurpose::Matching.last_image_offset()
    );
}

#[test]
fn packets_are_announced() {
    let c = Continuation { opcode: 0x1_0057, received: 10, total: 40, seq: 3 };
    let p = c.packet();
    assert_eq!(p, Packet::request_next(0x1_0057, 10, 40));
    assert_eq!((p.version, p.offset, p.total, p.chunk), (1, 10, 40, 0));
    let a = proto::decode(&sbio::encode_sbio_raw(0x57, 1));
    let b = proto::decode(&sbio::encode_sbio_next(0x57, 1));
    let c = proto::decode(&sbio::encode_sbio_continue(&c));
    assert_eq!((a.ep, a.tag), (0x08, 0xfc));
    assert_eq!((b.ep, b.tag), (0x08, 0xfd));
    assert_eq!((c.ep, c.tag), (0x08, 0xfe));
}

#[test]
fn grants_are_counted_while_sending() {
    let p = Packet { version: 1, total: 0, offset: 0, flags: 0, err: 0, opcode: 1, chunk: 0 };
    let mut r = Reassembly::new();
    r.on_chunk(0xfe, &p, &[]);
    assert!(!r.take_grant());
    r.begin_send(1);
    r.on_chunk(0xfe, &p, &[]);
    r.on_chunk(0xfe, &p, &[]);
    assert!(r.take_grant() && r.take_grant() && !r.take_grant());
    r.on_chunk(0xfe, &p, &[]);
    r.end_send();
    assert!(!r.take_grant());
    r.begin(1).unwrap();
    r.abort();
    assert_eq!(r.take_done().unwrap().status, DeviceStatus::NotAnswered);
}

#[test]
fn control_operations_name_the_endpoint() {
    let size = proto::op_ool_inbound_size(0x12, 0x8000);
    let addr = proto::op_ool_outbound_addr(0x12, 0x7_1234_5000);
    assert_eq!((size.param, size.data), (0x12, 0x8000));
    assert_eq!((addr.param, addr.data), (0x12, 0x71_2345));
    let msg = Message {
        msg0: proto::encode(&Fields { ep: 0, tag: 9, ty: 1, param: 0, data_lo: 77 }),
        msg1: 0,
    };
    assert_eq!(ControlReply::from_message(&msg), ControlReply { tag: 9, data_lo: 77 });
}

#[test]
fn the_systems_identifier_is_settled() {
    let mut s = XarmState::new();
    s.prepare_os_uuid(0, 0, Some(id(3)));
    assert_eq!(s.os_uuid, Some(id(3)));
    s.prepare_os_uuid(0x0102_0304_0506_0708, 9, Some(id(3)));
    let mut bytes = Vec::new();
    s.os_uuid.unwrap().put(&mut bytes);
    assert_eq!(bytes, vec![1, 2, 3, 4, 5, 6, 7, 8, 0, 0, 0, 0, 0, 0, 0, 9]);
    s.prepare_os_uuid(0, 0, None);
    assert_eq!(s.os_uuid, None);
    s.count_serviced();
    assert_eq!(s.serviced, 1);
}

#[test]
fn tokens_serve_one_request_and_finger() {
    let evidence = MatchEvidence::from_enclave_reply(id(1));
    let t = ResultToken::mint(&evidence, &[4; 32], [5; 32], 1_000, 1_000);
    assert!(t.usable(&[4; 32], &id(1), 1_000, 1_000));
    assert!(!t.usable(&[3; 32], &id(1), 1_000, 1_000));
    assert!(!t.usable(&[4; 32], &id(2), 1_000, 1_000));
    assert!(!t.usable(&[4; 32], &id(1), u64::MAX, u64::MAX));

    let idle = Op::Idle;
    let running = Op::Verify { nonce: [0; 32], terminal: None };
    assert!(idle.may_start() && !running.may_start() && !running.is_terminal());
    let mut s = session::Session::new();
    assert!(!session::verify_is_live(&s));
    s.open = true;
    s.op = running;
    assert!(session::verify_is_live(&s));
}
