//! The device's sessions, the index of fingers, and what surrounds them.

use apple_sep::bio::{index_or_empty, Identity, IdentityIndex, ENROL_USER_ID, MAX_IDENTITIES};
use apple_sep::errno::Errno;
use apple_sep::sbio::{Call, IdentityV1, Verdict};
use apple_sep::session;
use apple_sep::session::{
    Command, Compared, Guidance, Handled, MatchEvidence, Session, State, VerifyOutcome,
};
use apple_sep::sks;
use apple_sep::sks::{KeyBagHandle, SksOutcome, SksReply, SpecialHandle};
use apple_sep::touchid;
use apple_sep::touchid::{
    Activate, ActivateAsk, ActivateEvent, DeleteAsk, DeleteEvent, DeleteIdentity, EnsureRestored,
    RestoredAsk, RestoredEvent, Startup, StartupAsk,
};
use apple_sep::uuid::Uuid;

fn finger(n: u8) -> Identity {
    Identity { uuid: Uuid { lo: n as u64, hi: 7 }, label: [n; 128] }
}

fn index_of(n: u8) -> IdentityIndex {
    let mut x = IdentityIndex::new();
    for i in 1..=n {
        x.insert(finger(i)).unwrap();
    }
    x
}

fn opened() -> Session {
    let mut s = Session::new();
    session::open(&mut s).unwrap();
    s
}

fn enrolling() -> Session {
    let mut s = opened();
    let mut req = vec![0; 136];
    req[8] = b'x';
    let h = session::enrol_start(&mut s, &index_of(0), true, true, Ok(req)).ok().unwrap();
    assert!(h.start_enrol && !h.start_verify && !h.wake);
    s
}

fn verifying() -> Session {
    let mut s = opened();
    let mut req = vec![0; 40];
    req[8..40].copy_from_slice(&[3; 32]);
    let h = session::verify_start(&mut s, &index_of(1), true, Ok(req)).ok().unwrap();
    assert!(h.start_verify && !h.wake);
    s
}

#[test]
fn index_is_given_back_by_load() {
    let x = index_of(3);
    let raw = x.persist();
    assert_eq!(raw.len(), 8 + 3 * 144);
    assert_eq!(raw[..8], [2, 0, 0, 0, 3, 0, 0, 0]);
    let y = IdentityIndex::load(Ok(Some(raw.clone()))).ok().unwrap();
    assert_eq!(y.total(), 3);
    assert!(y.entry(2).uuid == finger(3).uuid && y.entry(2).label == [3; 128]);
    assert_eq!(y.persist(), raw);
    assert_eq!(IdentityIndex::load(Ok(None)).ok().unwrap().total(), 0);
    assert_eq!(IdentityIndex::load(Err(Errno::EIO)).err(), Some(Errno::EIO));
    let mut old = raw.clone();
    old[0] = 1;
    assert!(IdentityIndex::load(Ok(Some(old))).is_err());
    let mut cut = raw;
    cut.truncate(8 + 2 * 144 + 10);
    assert_eq!(IdentityIndex::load(Ok(Some(cut))).ok().unwrap().total(), 2);
}

#[test]
fn index_keeps_one_entry_per_finger() {
    let mut x = index_of(2);
    let mut again = finger(1);
    again.label = [9; 128];
    x.insert(again).unwrap();
    assert_eq!(x.total(), 2);
    assert_eq!(x.entry(0).label[0], 9);
    x.remove(&finger(1).uuid);
    assert!(!x.contains_uuid(&finger(1).uuid));
    assert!(x.contains_uuid(&finger(2).uuid));
    let full = index_of(MAX_IDENTITIES as u8);
    let mut full2 = full;
    assert_eq!(full2.insert(finger(99)).err(), Some(Errno::ENOSPC));
    assert!(full2.insert(finger(5)).is_ok());
    assert_eq!(
        full2.identity_v1_for(&finger(5).uuid, 1000),
        Some(IdentityV1 { user_id: 1000, uuid: finger(5).uuid })
    );
    assert_eq!(full2.identity_v1_for(&finger(77).uuid, 1000), None);
}

#[test]
fn reconciled_index_matches_the_list() {
    let mut x = index_of(3);
    let listed = vec![finger(2).uuid, finger(8).uuid];
    assert!(touchid::reconcile_identities(&mut x, Some(&listed)));
    assert_eq!(x.total(), 2);
    assert!(x.contains_uuid(&finger(2).uuid) && x.contains_uuid(&finger(8).uuid));
    assert!(!touchid::reconcile_identities(&mut x, Some(&listed)));
    assert!(!touchid::reconcile_identities(&mut x, None));
    assert_eq!(x.total(), 2);
}

#[test]
fn commands_are_told_by_number() {
    assert_eq!(Command::decode(0x8020_B101), Ok(Command::GetInfo));
    assert_eq!(Command::decode(0x9208_B102), Ok(Command::List));
    assert_eq!(Command::decode(0x4088_B103), Ok(Command::EnrolStart));
    assert_eq!(Command::decode(0x8028_B104), Ok(Command::EnrolPoll));
    assert_eq!(Command::decode(0x4028_B105), Ok(Command::VerifyStart));
    assert_eq!(Command::decode(0x8048_B106), Ok(Command::VerifyPoll));
    assert_eq!(Command::decode(0xB107), Ok(Command::Cancel));
    assert_eq!(Command::decode(0x4010_B108), Ok(Command::Delete));
    assert_eq!(Command::decode(0xB109), Ok(Command::DeleteAll));
    assert_eq!(Command::decode(0xC0B0_B10A), Ok(Command::Attest));
    assert_eq!(Command::decode(0), Err(Errno::ENOTTY));
}

#[test]
fn info_and_list_have_their_layout() {
    let info = session::get_info(&index_of(2), true);
    assert_eq!(info.len(), 32);
    assert_eq!(info[..20], [4, 0, 0, 0, 1, 0, 0, 0, 2, 0, 0, 0, 32, 0, 0, 0, 8, 0, 0, 0]);
    let list = session::list(&index_of(2));
    assert_eq!(list.len(), 8 + 32 * 144);
    assert_eq!(list[0], 2);
    assert_eq!(list[8], 1);
    assert!(list[8 + 288..].iter().all(|b| *b == 0));
}

#[test]
fn one_program_at_a_time() {
    let mut s = opened();
    assert_eq!(session::open(&mut s), Err(Errno::EBUSY));
    session::release(&mut s);
    assert_eq!(session::open(&mut s), Ok(()));
}

#[test]
fn enrolment_is_refused_for_a_reason() {
    let zero = || Ok(vec![0u8; 136]);
    let x = index_of(1);
    let mut s = opened();
    assert_eq!(session::enrol_start(&mut s, &x, true, false, zero()).err(), Some(Errno::EPERM));
    assert_eq!(session::enrol_start(&mut s, &x, false, true, zero()).err(), Some(Errno::ENODEV));
    assert_eq!(
        session::enrol_start(&mut s, &x, true, true, Err(Errno::EFAULT)).err(),
        Some(Errno::EFAULT)
    );
    let mut flagged = vec![0u8; 136];
    flagged[4] = 1;
    assert_eq!(
        session::enrol_start(&mut s, &x, true, true, Ok(flagged)).err(),
        Some(Errno::EINVAL)
    );
    let full = index_of(32);
    assert_eq!(session::enrol_start(&mut s, &full, true, true, zero()).err(), Some(Errno::ENOSPC));
    let mut busy = verifying();
    assert_eq!(session::enrol_start(&mut busy, &x, true, true, zero()).err(), Some(Errno::EBUSY));
}

#[test]
fn enrolment_is_followed_to_its_end() {
    let mut s = enrolling();
    let mut x = index_of(0);
    assert!(session::enrol_is_live(&s) && session::capture_is_live(&s));
    assert_eq!(session::enrol_poll(&s).unwrap().state, State::Pending);
    assert!(!session::enrol_guide(&mut s, Guidance::Place));
    assert!(session::enrol_guide(&mut s, Guidance::HoldStill));
    assert!(session::enrol_advance(&mut s, 3, 40, Guidance::LiftAndMove));
    let p = session::enrol_poll(&s).unwrap();
    assert_eq!((p.state, p.stage, p.progress_percent), (State::Progress, 3, 40));
    assert_eq!(p.to_bytes().len(), 40);
    session::enrol_polled(&mut s);
    assert!(!s.ready());
    let f = touchid::finish_enrolment(&mut s, &mut x, Ok(finger(4).uuid));
    assert!(f.persist && f.wake);
    assert!(x.contains_uuid(&finger(4).uuid));
    assert_eq!(x.entry(0).label[0], b'x');
    let done = session::enrol_poll(&s).unwrap();
    assert_eq!((done.state, done.uuid), (State::Done, finger(4).uuid));
    assert!(!session::enrol_finish(&mut s, &mut x, Err(3)));
    assert!(!session::enrol_is_live(&s));
}

#[test]
fn failed_enrolment_files_nothing() {
    let mut s = enrolling();
    let mut x = index_of(0);
    let f = touchid::finish_enrolment(&mut s, &mut x, Err(0x16));
    assert!(!f.persist && f.wake);
    assert_eq!(x.total(), 0);
    let p = session::enrol_poll(&s).unwrap();
    assert_eq!((p.state, p.status), (State::Failed, 0x16));
}

#[test]
fn a_match_is_told_once() {
    let mut s = verifying();
    let mono = 1_000;
    let e = MatchEvidence::from_enclave_reply(finger(1).uuid);
    assert!(session::verify_finish(&mut s, VerifyOutcome::Matched(e), [5; 32], mono, mono));
    let p = session::verify_poll(&s, mono + 1, mono + 1).ok().unwrap();
    assert_eq!((p.state, p.result, p.uuid), (State::Done, Compared::Match, finger(1).uuid));
    assert_eq!(p.token, Some([5; 32]));
    assert_eq!(p.deadline_ns, mono + 10_000_000_000);
    assert_eq!(p.to_bytes().len(), 72);
    session::verify_polled(&mut s, &p);
    let q = session::verify_poll(&s, mono + 2, mono + 2).ok().unwrap();
    assert_eq!((q.result, q.token), (Compared::NotCompared, None));
    for k in 3..10 {
        let q = session::verify_poll(&s, mono + k, mono + k).ok().unwrap();
        assert_eq!((q.state, q.result, q.token), (State::Done, Compared::NotCompared, None));
        assert_eq!((q.uuid, q.deadline_ns), (Uuid::zero(), 0));
        if k % 2 == 0 {
            session::verify_polled(&mut s, &q);
        }
    }
    assert!(!session::verify_finish(&mut s, VerifyOutcome::Matched(e), [6; 32], mono, mono));
}

#[test]
fn a_token_lives_its_time() {
    let mut s = verifying();
    let e = MatchEvidence::from_enclave_reply(finger(1).uuid);
    session::verify_finish(&mut s, VerifyOutcome::Matched(e), [5; 32], 100, 100);
    let at = |mono: u64, boot: u64| session::verify_poll(&s, mono, boot).ok().unwrap().result;
    assert_eq!(at(10_000_000_100, 10_000_000_100), Compared::Match);
    assert_eq!(at(10_000_000_101, 10_000_000_101), Compared::NotCompared);
    assert_eq!(at(200, 1_000_200), Compared::Match);
    assert_eq!(at(200, 1_000_201), Compared::NotCompared);
}

#[test]
fn without_a_match_there_is_no_token() {
    let mut s = verifying();
    assert!(session::verify_finish(&mut s, VerifyOutcome::NoMatch, [5; 32], 1, 1));
    let p = session::verify_poll(&s, 1, 1).ok().unwrap();
    assert_eq!((p.state, p.result, p.token), (State::Done, Compared::NoMatch, None));
    let mut t = verifying();
    session::verify_finish(&mut t, VerifyOutcome::Failed(9), [5; 32], 1, 1);
    let q = session::verify_poll(&t, 1, 1).ok().unwrap();
    assert_eq!((q.state, q.result, q.status), (State::Failed, Compared::NotCompared, 9));
    assert_eq!(session::enrol_poll(&t), Err(Errno::EBUSY));
    assert_eq!(session::verify_poll(&enrolling(), 1, 1).err(), Some(Errno::EBUSY));
}

#[test]
fn verification_without_fingers_is_over_at_once() {
    let mut s = opened();
    let h = session::verify_start(&mut s, &index_of(0), true, Ok(vec![0; 40])).ok().unwrap();
    assert!(h.wake && !h.start_verify);
    assert_eq!(session::verify_poll(&s, 0, 0).ok().unwrap().result, Compared::NoMatch);
}

#[test]
fn cancelling_ends_what_runs() {
    let mut s = verifying();
    assert!(session::cancel(&mut s).ok().unwrap().wake);
    assert_eq!(session::verify_poll(&s, 0, 0).ok().unwrap().state, State::Failed);
    assert_eq!(session::cancel(&mut s).err(), Some(Errno::ENOENT));
    assert_eq!(session::cancel(&mut opened()).err(), Some(Errno::ENOENT));
}

#[test]
fn deleting_takes_an_administrator() {
    let x = index_of(2);
    let mut raw = Vec::new();
    finger(2).uuid.put(&mut raw);
    assert_eq!(session::delete(&x, false, Ok(raw.clone())).err(), Some(Errno::EPERM));
    let h = session::delete(&x, true, Ok(raw)).ok().unwrap();
    assert_eq!(
        h.delete_identity,
        Some(IdentityV1 { user_id: ENROL_USER_ID, uuid: finger(2).uuid })
    );
    assert_eq!(session::delete(&x, true, Ok(vec![1; 16])).ok().unwrap().delete_identity, None);
    assert_eq!(session::delete(&x, true, Err(Errno::EFAULT)).err(), Some(Errno::EFAULT));
    assert_eq!(session::delete_all(&x, false).err(), Some(Errno::EPERM));
    assert_eq!(session::delete_all(&x, true).ok().unwrap().delete_identities.len(), 2);
}

#[test]
fn forgotten_only_when_gone() {
    let id = IdentityV1 { user_id: 1000, uuid: finger(1).uuid };
    let (mut d, ask) = DeleteIdentity::start(id);
    assert!(matches!(ask, DeleteAsk::Lists(u) if u == finger(1).uuid));
    assert!(matches!(
        d.step(&DeleteEvent::Lists(None)),
        DeleteAsk::Call(Call::DeleteIdentity(i)) if i == id
    ));
    let mut refused = d;
    assert!(matches!(
        refused.step(&DeleteEvent::Reply(Verdict::Other)),
        DeleteAsk::Done(Some(Errno::EIO))
    ));
    assert!(matches!(d.step(&DeleteEvent::Reply(Verdict::Accepted)), DeleteAsk::Forget(_)));
    assert!(matches!(d.step(&DeleteEvent::Forgotten), DeleteAsk::Done(None)));
    let (mut absent, _) = DeleteIdentity::start(id);
    assert!(matches!(absent.step(&DeleteEvent::Lists(Some(false))), DeleteAsk::Forget(_)));
    assert_eq!(touchid::first_error(&vec![None, Some(Errno::EIO), Some(Errno::EPERM)]), Some(Errno::EIO));
    assert_eq!(touchid::first_error(&vec![None]), None);
}

#[test]
fn requests_end_with_their_deletions() {
    let mut h = Handled {
        wake: true,
        start_enrol: false,
        start_verify: false,
        delete_identity: None,
        delete_identities: Vec::new(),
    };
    assert_eq!(touchid::request_result(&h, None, &vec![]), Ok(true));
    assert_eq!(touchid::request_result(&h, Some(Errno::EIO), &vec![]), Ok(true));
    assert_eq!(
        touchid::request_result(&h, None, &vec![None, Some(Errno::EPERM), Some(Errno::EIO)]),
        Err(Errno::EPERM)
    );
    h.wake = false;
    h.delete_identity = Some(IdentityV1 { user_id: ENROL_USER_ID, uuid: finger(1).uuid });
    assert_eq!(touchid::request_result(&h, None, &vec![None]), Ok(false));
    assert_eq!(touchid::request_result(&h, Some(Errno::EIO), &vec![]), Err(Errno::EIO));
}

#[test]
fn the_new_finger_is_the_one_that_is_listed() {
    let x = index_of(1);
    let candidates = vec![finger(1).uuid, finger(2).uuid, finger(3).uuid];
    let listed = vec![finger(1).uuid, finger(3).uuid];
    assert_eq!(
        touchid::identity_just_enrolled(&candidates, Some(&listed), &x),
        Some(finger(3).uuid)
    );
    assert_eq!(touchid::identity_just_enrolled(&vec![], Some(&vec![finger(1).uuid]), &x), None);
}

/// An activation that has come to the key bag.
fn activating() -> Activate {
    let (mut a, ask) = Activate::start(false, false);
    assert_eq!(ask, ActivateAsk::OpenStore);
    assert_eq!(a.step(ActivateEvent::Result(None)), ActivateAsk::LoadIndex);
    assert_eq!(a.step(ActivateEvent::Result(None)), ActivateAsk::AttachSensor);
    assert_eq!(a.step(ActivateEvent::Told), ActivateAsk::RegisterBuffers);
    assert_eq!(a.step(ActivateEvent::Result(None)), ActivateAsk::ReadKeybag);
    a
}

fn secret() -> ActivateEvent {
    ActivateEvent::Keybag(Ok(Some(vec![9, 8, 7])))
}

#[test]
fn activation_happens_once() {
    assert_eq!(Activate::start(true, false).1, ActivateAsk::Done(None));
    assert_eq!(Activate::start(false, true).1, ActivateAsk::Done(Some(Errno::EIO)));
    let mut none = activating();
    assert_eq!(
        none.step(ActivateEvent::Keybag(Ok(None))),
        ActivateAsk::Done(Some(Errno::ENOENT))
    );
    assert_eq!(Activate::start(none.started, none.failed).1, ActivateAsk::Done(Some(Errno::EIO)));
    let mut unread = activating();
    assert_eq!(
        unread.step(ActivateEvent::Keybag(Err(Errno::EBADMSG))),
        ActivateAsk::Done(Some(Errno::EBADMSG))
    );
    let mut unready = activating();
    assert_eq!(unready.step(secret()), ActivateAsk::KeyStoreReady);
    assert_eq!(
        unready.step(ActivateEvent::Worked(false)),
        ActivateAsk::Done(Some(Errno::ENODEV))
    );
    assert_eq!(unready.secret, None);
    let mut lost = activating();
    lost.step(secret());
    lost.step(ActivateEvent::Worked(true));
    assert_eq!(lost.step(ActivateEvent::Recovered(None)), ActivateAsk::Done(Some(Errno::EIO)));
}

#[test]
fn recovered_bag_is_put_to_use() {
    let mut a = activating();
    let (handle, uuid) = (KeyBagHandle(6), finger(3).uuid);
    a.step(secret());
    assert_eq!(a.step(ActivateEvent::Worked(true)), ActivateAsk::RecoverKeybag);
    assert_eq!(
        a.step(ActivateEvent::Recovered(Some((handle, uuid)))),
        ActivateAsk::DesignateKeybag(handle, vec![9, 8, 7])
    );
    assert_eq!(
        a.step(ActivateEvent::Told),
        ActivateAsk::PrepareMachineRefkey(handle, vec![9, 8, 7])
    );
    assert_eq!(a.step(ActivateEvent::Told), ActivateAsk::ColdMatch(handle, uuid));
    assert_eq!(a.step(ActivateEvent::Told), ActivateAsk::RestoreTemplates);
    assert_eq!(a.step(ActivateEvent::Told), ActivateAsk::BringSensorUp);
    assert_eq!(a.step(ActivateEvent::Told), ActivateAsk::Done(None));
    assert!(a.started && !a.failed);
}

#[test]
fn attestation_is_of_the_requested_challenge() {
    let mut request = vec![1u8, 2, 3, 4];
    request.extend_from_slice(&[5; 32]);
    request.resize(touchid::ATTEST_LEN, 6);
    let challenge = touchid::attest_challenge(&request);
    assert_eq!(challenge, [5; 32]);
    let answer = touchid::bio_attest(&challenge, &[7; 70], &[4; 65]).unwrap();
    assert_eq!(answer.len(), touchid::ATTEST_LEN);
    assert_eq!(touchid::attest_challenge(&answer), [5; 32]);
    assert_eq!(session::Command::Attest.struct_len(), touchid::ATTEST_LEN);
    assert_eq!(session::Command::EnrolStart.struct_len(), 136);
    assert_eq!(session::Command::Cancel.struct_len(), 0);
}

#[test]
fn a_new_match_needs_a_new_verification() {
    let mut s = verifying();
    let e = MatchEvidence::from_enclave_reply(finger(1).uuid);
    session::verify_finish(&mut s, VerifyOutcome::Matched(e), [5; 32], 1, 1);
    let p = session::verify_poll(&s, 1, 1).ok().unwrap();
    session::verify_polled(&mut s, &p);
    assert!(!session::enrol_guide(&mut s, session::Guidance::Place));
    assert!(session::cancel(&mut s).is_err());
    assert!(session::open(&mut s).is_err());
    session::enrol_polled(&mut s);
    assert_eq!(session::verify_poll(&s, 1, 1).ok().unwrap().result, Compared::NotCompared);
    session::release(&mut s);
    session::open(&mut s).unwrap();
    assert!(!session::verify_finish(&mut s, VerifyOutcome::Matched(e), [6; 32], 2, 2));
    assert_eq!(session::verify_poll(&s, 2, 2).ok().unwrap().result, Compared::NoMatch);
}

#[test]
fn no_finger_stands_twice_in_the_index() {
    let mut x = IdentityIndex::new();
    let mut again = finger(1);
    again.label = [7; 128];
    for f in [finger(1), finger(2), again] {
        x.insert(f).unwrap();
    }
    assert_eq!(x.total(), 2);
    assert_eq!(x.entry(0).label, [7; 128]);
    let listed = vec![finger(3).uuid, finger(1).uuid, finger(3).uuid];
    assert!(x.reconcile_to(&listed).is_ok());
    assert_eq!(x.total(), 2);
    x.remove(&finger(3).uuid);
    assert_eq!(x.total(), 1);
}

#[test]
fn a_failed_activation_closes_the_session() {
    let mut s = opened();
    assert_eq!(touchid::opened(&mut s, Some(Errno::ENOENT)), Err(Errno::ENOENT));
    assert_eq!(session::open(&mut s), Ok(()));
    assert_eq!(touchid::opened(&mut s, None), Ok(()));
    assert_eq!(session::open(&mut s), Err(Errno::EBUSY));
}

#[test]
fn keybag_is_made_on_request_only() {
    assert_eq!(Startup::start(true, true, true).1, StartupAsk::Done);
    let (mut m, ask) = Startup::start(false, true, true);
    assert_eq!(ask, StartupAsk::EnableKeyStore);
    assert_eq!(m.step(true), StartupAsk::ProvisionKeybag);
    assert_eq!(m.step(true), StartupAsk::PublishDevice);
    assert_eq!(m.step(true), StartupAsk::Done);
    let (mut plain, _) = Startup::start(false, false, false);
    assert_eq!(plain.step(true), StartupAsk::PublishDevice);
    let (mut locked, _) = Startup::start(false, true, false);
    assert_eq!(locked.step(true), StartupAsk::Done);
    let (mut dead, _) = Startup::start(false, false, true);
    assert_eq!(dead.step(false), StartupAsk::Done);
    assert!(touchid::sensor_is_present(true, true, true));
    assert!(!touchid::sensor_is_present(true, true, false));
}

#[test]
fn restored_templates_get_their_context() {
    let (mut m, ask) = EnsureRestored::start(false);
    assert_eq!(ask, RestoredAsk::RestoreAll);
    assert_eq!(m.step(RestoredEvent::Worked(true)), RestoredAsk::EstablishMatchContext);
    assert!(m.restored);
    assert_eq!(m.step(RestoredEvent::Worked(false)), RestoredAsk::Done);
    let (mut not, _) = EnsureRestored::start(true);
    assert_eq!(not.step(RestoredEvent::Worked(false)), RestoredAsk::Done);
    assert!(!not.restored);
}

#[test]
fn the_users_bag_is_unlocked_for_matching() {
    let bag = SpecialHandle(-ENROL_USER_ID);
    let reply = SksReply { selector: 1, seq: 1, status: 0, response_size: 0 };
    let outcome = SksOutcome { reply, response: vec![] };
    let healthy = || sks::health_check(Some(&outcome)).unwrap();
    let reading = || {
        let (mut m, _) = EnsureRestored::start(true);
        assert_eq!(m.step(RestoredEvent::Worked(true)), RestoredAsk::ReadKeybag);
        m
    };
    let mut m = reading();
    assert_eq!(m.step(RestoredEvent::Keybag(Some(vec![3, 4]))), RestoredAsk::CheckHealth);
    assert_eq!(
        m.step(RestoredEvent::Health(Some(healthy()))),
        RestoredAsk::Unlock(bag, vec![3, 4], healthy())
    );
    assert_eq!(m.step(RestoredEvent::Worked(false)), RestoredAsk::EstablishMatchContext);
    let mut none = reading();
    assert_eq!(none.step(RestoredEvent::Keybag(None)), RestoredAsk::EstablishMatchContext);
    let mut ill = reading();
    ill.step(RestoredEvent::Keybag(Some(vec![3, 4])));
    assert_eq!(ill.step(RestoredEvent::Health(None)), RestoredAsk::EstablishMatchContext);
    assert_eq!(ill.secret, None);
}

#[test]
fn random_bytes_come_from_whole_words() {
    assert_eq!(touchid::words_needed(9), 3);
    assert_eq!(
        touchid::sep_random(&vec![Ok(0x0403_0201), Ok(0x0807_0605)], 6),
        Ok(vec![1, 2, 3, 4, 5, 6])
    );
    assert_eq!(
        touchid::sep_random(&vec![Ok(1), Err(Errno::ETIMEDOUT)], 6),
        Err(Errno::ETIMEDOUT)
    );
}

#[test]
fn attestation_carries_signature_and_key() {
    let out = touchid::bio_attest(&[1; 32], &[2; 70], &[3; 65]).ok().unwrap();
    assert_eq!(out.len(), 176);
    assert!(touchid::bio_attest(&[1; 32], &[2; 73], &[3; 65]).is_err());
    assert!(touchid::bio_attest(&[1; 32], &[2; 70], &[3; 64]).is_err());
}

#[test]
fn an_index_that_cannot_be_had_is_empty() {
    assert_eq!(index_or_empty(None).total(), 0);
    assert_eq!(index_or_empty(Some(Err(Errno::EINVAL))).total(), 0);
    assert_eq!(index_or_empty(Some(Ok(index_of(2)))).total(), 2);
}
