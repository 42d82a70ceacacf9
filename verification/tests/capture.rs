use apple_sep::bringup::{self, Bringup, ParamKind, PatchLoaded};
use apple_sep::capture::{self, Ask, CaptureWait, Event, Filing, ImageOutcome};
use apple_sep::catacomb;
use apple_sep::errno::Errno;
use apple_sep::sbio::{self, Call, UserId, Verdict};
use apple_sep::crc::crc16_ansi;
use apple_sep::sensor::{self, Capture, CaptureError, Identifier};
use apple_sep::session::{Guidance, MatchEvidence, VerifyOutcome};
use apple_sep::transfer::DeviceStatus;
use apple_sep::uuid::Uuid;
use apple_sep::vault::{self, Kept, RestoreOutcome};

fn user() -> UserId {
    UserId::new(1000).unwrap()
}

fn uuid(n: u8) -> Uuid {
    Uuid::read(&[n; 16], 0)
}

fn status(state: u8, ack: u8, at12: u32) -> Vec<u8> {
    let mut s = vec![0u8; 16];
    s[7] = state;
    s[8] = ack;
    s[12..16].copy_from_slice(&at12.to_le_bytes());
    s
}

const ACCEPTED: Event<'static> = Event::Reply(Verdict::Accepted, &[]);

/// An image that checks.
fn image(n: u8) -> Capture {
    let mut bytes = vec![n; 5];
    let check = crc16_ansi(&bytes);
    bytes.extend_from_slice(&check.to_le_bytes());
    sensor::read_capture(7, Ok(bytes)).ok().unwrap()
}

fn relayed(status: u32, c: Capture) -> Event<'static> {
    Event::Relayed(Some(DeviceStatus::Answered(status)), c)
}

fn enrol_result(progress: u8, complete: bool, template: bool) -> Vec<u8> {
    let mut r = vec![0u8; 0xc98];
    r[4] = progress;
    r[6] = template as u8;
    r[0xbfe] = complete as u8;
    r
}

fn assessed() -> Vec<u8> {
    let mut a = vec![0u8; 0x89];
    a[6] = 1;
    a[7] = 1;
    a
}

fn enrol_up_to_relay(counter: u32) -> capture::EnrolImage {
    let (mut m, first) = capture::EnrolImage::start(counter, user());
    assert_eq!(first, Ask::StartCapture);
    assert_eq!(m.step(Event::Worked(true)), Ask::AwaitCapture);
    assert_eq!(m.step(Event::Waited(CaptureWait::Ready(9))), Ask::ReadCapture(9));
    assert_eq!(m.step(Event::Captured(Ok(image(3)))), Ask::Call(Call::PrepareImage));
    assert_eq!(m.step(ACCEPTED), Ask::Clock);
    m
}

#[test]
fn enrol_image_is_taken_and_let_go() {
    let mut m = enrol_up_to_relay(0);
    match m.step(Event::Time(2000)) {
        Ask::Call(Call::ImageInit(i)) => {
            assert!(i.first_image);
            assert!(!i.last_image);
            assert_eq!(i.monotonic_ns, 2000);
        }
        other => panic!("{:?}", other),
    }
    assert_eq!(m.step(ACCEPTED), Ask::Relay(image(3)));
    assert_eq!(m.step(relayed(0, image(3))), Ask::WipeCapture(image(3)));
    assert_eq!(m.step(Event::Told), Ask::Call(Call::Assessment));
    let a = assessed();
    assert_eq!(m.step(Event::Reply(Verdict::Accepted, &a)), Ask::Call(Call::EnrolResult));
    let r = enrol_result(128, false, false);
    assert_eq!(m.step(Event::Reply(Verdict::Accepted, &r)), Ask::Call(Call::ImageCleanup));
    assert_eq!(
        m.step(ACCEPTED),
        Ask::Imaged(ImageOutcome::Progress { stage: 4, percent: 50, complete: false, has_template: false })
    );
}

#[test]
fn completed_enrolment_names_its_candidates() {
    let mut m = enrol_up_to_relay(2);
    m.step(Event::Time(0));
    m.step(ACCEPTED);
    m.step(relayed(0, image(3)));
    m.step(Event::Told);
    m.step(Event::Reply(Verdict::Accepted, &assessed()));
    let mut r = enrol_result(255, true, true);
    r[0x100..0x104].copy_from_slice(&1000i32.to_le_bytes());
    r[0x104..0x114].copy_from_slice(&[9; 16]);
    assert_eq!(m.step(Event::Reply(Verdict::Accepted, &r)), Ask::KeepCandidates(vec![uuid(9)]));
    assert_eq!(m.step(Event::Told), Ask::Call(Call::ImageCleanup));
}

#[test]
fn refused_preparation_wipes_the_capture() {
    let (mut m, _) = capture::EnrolImage::start(0, user());
    m.step(Event::Worked(true));
    m.step(Event::Waited(CaptureWait::Ready(7)));
    m.step(Event::Captured(Ok(image(4))));
    let refused = Event::Reply(Verdict::Other, &[]);
    assert_eq!(m.step(refused), Ask::WipeCapture(image(4)));
    assert_eq!(m.step(Event::Told), Ask::Imaged(ImageOutcome::Failed(2)));
    let (mut v, _) = capture::VerifyImage::start(user());
    v.step(Event::Worked(true));
    v.step(Event::Waited(CaptureWait::Ready(7)));
    v.step(Event::Captured(Ok(image(5))));
    v.step(ACCEPTED);
    v.step(Event::Time(1));
    assert_eq!(v.step(ACCEPTED), Ask::Relay(image(5)));
    assert_eq!(v.step(relayed(1, image(5))), Ask::Call(Call::ImageCleanup));
    assert_eq!(v.step(ACCEPTED), Ask::WipeCapture(image(5)));
    assert_eq!(v.step(Event::Told), Ask::Verified(VerifyOutcome::Failed(2)));
}

#[test]
fn refused_relay_cleans_up_and_wipes() {
    let mut m = enrol_up_to_relay(1);
    match m.step(Event::Time(1)) {
        Ask::Call(Call::ImageInit(i)) => assert!(!i.first_image),
        other => panic!("{:?}", other),
    }
    m.step(ACCEPTED);
    assert_eq!(m.step(relayed(1, image(3))), Ask::Call(Call::ImageCleanup));
    assert_eq!(m.step(ACCEPTED), Ask::WipeCapture(image(3)));
    assert_eq!(m.step(Event::Told), Ask::Imaged(ImageOutcome::Failed(2)));
}

#[test]
fn bad_captures_are_retried_and_bus_faults_are_not() {
    for (error, outcome) in [
        (CaptureError::Length(0), ImageOutcome::Retry),
        (CaptureError::Checksum { advertised: 1, computed: 2 }, ImageOutcome::Retry),
        (CaptureError::Bus(Errno::EIO), ImageOutcome::Failed(1)),
    ] {
        let (mut m, _) = capture::EnrolImage::start(0, user());
        m.step(Event::Worked(true));
        m.step(Event::Waited(CaptureWait::Ready(9)));
        assert_eq!(m.step(Event::Captured(Err(error))), Ask::Imaged(outcome));
    }
    let (mut m, _) = capture::EnrolImage::start(0, user());
    m.step(Event::Worked(true));
    assert_eq!(m.step(Event::Waited(CaptureWait::Timeout)), Ask::Imaged(ImageOutcome::NoFinger));
    let (mut m, _) = capture::EnrolImage::start(0, user());
    assert_eq!(m.step(Event::Worked(false)), Ask::Imaged(ImageOutcome::Failed(1)));
}

#[test]
fn stages_follow_the_percentage() {
    for (raw, percent, stage) in [(0u8, 0, 0), (1, 0, 0), (3, 1, 1), (32, 13, 2), (255, 100, 8)] {
        let r = sbio::EnrolmentResult::parse(&enrol_result(raw, false, false)).unwrap();
        assert_eq!(r.progress_percent(), percent);
        let mut m = enrol_up_to_relay(0);
        m.step(Event::Time(0));
        m.step(ACCEPTED);
        m.step(relayed(0, image(3)));
        m.step(Event::Told);
        m.step(Event::Reply(Verdict::Accepted, &assessed()));
        m.step(Event::Reply(Verdict::Accepted, &enrol_result(raw, false, true)));
        match m.step(ACCEPTED) {
            Ask::Imaged(ImageOutcome::Progress { stage: s, .. }) => assert_eq!(s, stage),
            other => panic!("{:?}", other),
        }
    }
}

#[test]
fn waiting_for_a_finger_guides_the_person() {
    let (mut m, first) = capture::AwaitCapture::start();
    assert_eq!(first, Ask::CheckLive);
    assert_eq!(m.step(Event::Worked(true)), Ask::Status);
    assert_eq!(m.step(Event::Status(Some(&status(17, 0, 0)))), Ask::Guide(Guidance::Place));
    assert_eq!(m.step(Event::Told), Ask::Sleep(2));
    assert_eq!(m.step(Event::Told), Ask::CheckLive);
    m.step(Event::Worked(true));
    assert_eq!(m.step(Event::Status(Some(&status(19, 0, 0)))), Ask::Guide(Guidance::HoldStill));
    m.step(Event::Told);
    m.step(Event::Told);
    m.step(Event::Worked(true));
    assert_eq!(m.step(Event::Status(Some(&status(7, 0, 0x1234)))), Ask::Waited(CaptureWait::Ready(0x1234)));
}

#[test]
fn waiting_ends_in_every_way() {
    let looked = |s: Option<&[u8]>| {
        let (mut m, _) = capture::AwaitCapture::start();
        m.step(Event::Worked(true));
        m.step(Event::Status(s))
    };
    assert_eq!(looked(Some(&status(9, 0, 0))), Ask::Waited(CaptureWait::Fault(9)));
    assert_eq!(looked(Some(&status(7, 0, 0))), Ask::Waited(CaptureWait::Timeout));
    assert_eq!(looked(None), Ask::Waited(CaptureWait::Abandon));
    let (mut m, _) = capture::AwaitCapture::start();
    assert_eq!(m.step(Event::Worked(false)), Ask::Waited(CaptureWait::Abandon));
    let (mut m, mut ask) = capture::AwaitCapture::start();
    let quiet = status(3, 0, 0);
    let mut looks = 0;
    loop {
        ask = match ask {
            Ask::CheckLive => m.step(Event::Worked(true)),
            Ask::Status => {
                looks += 1;
                m.step(Event::Status(Some(&quiet)))
            }
            Ask::Sleep(_) => m.step(Event::Told),
            other => {
                assert_eq!(other, Ask::Waited(CaptureWait::Timeout));
                break;
            }
        };
    }
    assert_eq!(looks, 30_001);
}

fn verify_until_result() -> capture::VerifyImage {
    let (mut m, _) = capture::VerifyImage::start(user());
    m.step(Event::Worked(true));
    m.step(Event::Waited(CaptureWait::Ready(9)));
    m.step(Event::Captured(Ok(image(3))));
    m.step(ACCEPTED);
    match m.step(Event::Time(1)) {
        Ask::Call(Call::ImageInit(i)) => assert!(i.first_image && i.last_image),
        other => panic!("{:?}", other),
    }
    m.step(ACCEPTED);
    m.step(relayed(0, image(3)));
    m.step(Event::Told);
    assert_eq!(m.step(Event::Reply(Verdict::Accepted, &assessed())), Ask::Call(Call::MatchResult));
    m
}

fn match_result(user_id: i32, id: u8) -> Vec<u8> {
    let mut r = user_id.to_le_bytes().to_vec();
    r.extend_from_slice(&[id; 16]);
    r.resize(0xca2, 0);
    r
}

#[test]
fn match_needs_a_known_identity() {
    let mut m = verify_until_result();
    assert_eq!(m.step(Event::Reply(Verdict::Accepted, &match_result(1000, 5))), Ask::IsKnown(uuid(5)));
    assert_eq!(m.step(Event::Worked(true)), Ask::Call(Call::ImageCleanup));
    assert_eq!(
        m.step(ACCEPTED),
        Ask::Verified(VerifyOutcome::Matched(MatchEvidence { identity: uuid(5) }))
    );
    let mut m = verify_until_result();
    m.step(Event::Reply(Verdict::Accepted, &match_result(1000, 5)));
    m.step(Event::Worked(false));
    assert_eq!(m.step(ACCEPTED), Ask::Verified(VerifyOutcome::Failed(2)));
    let mut m = verify_until_result();
    assert_eq!(m.step(Event::Reply(Verdict::Accepted, &match_result(-1, 5))), Ask::Call(Call::ImageCleanup));
    assert_eq!(m.step(ACCEPTED), Ask::Verified(VerifyOutcome::NoMatch));
    let mut m = verify_until_result();
    m.step(Event::Reply(Verdict::Accepted, &match_result(1000, 5)[..0xca1]));
    assert_eq!(m.step(ACCEPTED), Ask::Verified(VerifyOutcome::Failed(2)));
}

#[test]
fn enrolment_runs_to_its_end() {
    let (mut m, first) = capture::RunEnrolment::start(false);
    assert_eq!(first, Ask::BringOnline);
    assert_eq!(m.step(Event::Worked(true)), Ask::BeginEnrolment);
    assert_eq!(m.step(Event::Worked(true)), Ask::CheckLive);
    assert_eq!(m.step(Event::Worked(true)), Ask::EnrolImage(0));
    let halfway = ImageOutcome::Progress { stage: 4, percent: 50, complete: false, has_template: false };
    assert_eq!(m.step(Event::Imaged(halfway)), Ask::Advance { stage: 4, percent: 50 });
    assert_eq!(m.step(Event::Told), Ask::IdleSensor);
    assert_eq!(m.step(Event::Told), Ask::AwaitIdle);
    assert_eq!(m.step(Event::Worked(false)), Ask::Sleep(1800));
    assert_eq!(m.step(Event::Told), Ask::CheckLive);
    assert_eq!(m.step(Event::Worked(true)), Ask::EnrolImage(1));
    let done = ImageOutcome::Progress { stage: 8, percent: 100, complete: true, has_template: true };
    m.step(Event::Imaged(done));
    assert_eq!(m.step(Event::Told), Ask::SaveAll);
    assert_eq!(m.step(Event::Worked(true)), Ask::ResnapshotKeybag);
    assert!(m.restored);
    assert_eq!(m.step(Event::Worked(false)), Ask::IdentifyEnrolled);
    assert_eq!(m.step(Event::Identity(Some(uuid(4)))), Ask::ReconcileIdentities);
    assert_eq!(m.step(Event::Told), Ask::IdleSensor);
    assert_eq!(m.step(Event::Told), Ask::PowerOff);
    assert_eq!(m.step(Event::Told), Ask::NoteCaptureEnd);
    assert_eq!(m.step(Event::Told), Ask::FinishEnrolment(Filing::Done(uuid(4))));
    assert_eq!(m.step(Event::Told), Ask::End);
}

#[test]
fn unfinished_enrolment_is_cancelled() {
    let begun = || {
        let (mut m, _) = capture::RunEnrolment::start(false);
        m.step(Event::Worked(true));
        m.step(Event::Worked(true));
        m
    };
    let mut m = begun();
    assert_eq!(m.step(Event::Worked(false)), Ask::IdleSensor);
    m.step(Event::Told);
    m.step(Event::Told);
    assert_eq!(m.step(Event::Told), Ask::Call(Call::Cancel));
    assert_eq!(m.step(ACCEPTED), Ask::End);
    let mut m = begun();
    m.step(Event::Worked(true));
    let empty = ImageOutcome::Progress { stage: 8, percent: 100, complete: true, has_template: false };
    m.step(Event::Imaged(empty));
    assert_eq!(m.step(Event::Told), Ask::IdleSensor);
    m.step(Event::Told);
    m.step(Event::Told);
    assert_eq!(m.step(Event::Told), Ask::FinishEnrolment(Filing::Failed(2)));
    assert_eq!(m.step(Event::Told), Ask::Call(Call::Cancel));
    let mut m = begun();
    for n in 0..12 {
        assert_eq!(m.step(Event::Worked(true)), Ask::EnrolImage(n));
        m.step(Event::Imaged(ImageOutcome::Retry));
        m.step(Event::Told);
        m.step(Event::Worked(true));
        m.step(Event::Told);
    }
    assert_eq!(m.step(Event::Worked(true)), Ask::IdleSensor);
    m.step(Event::Told);
    m.step(Event::Told);
    assert_eq!(m.step(Event::Told), Ask::FinishEnrolment(Filing::Failed(3)));
}

#[test]
fn completed_enrolment_without_identity_is_unfiled() {
    let (mut m, _) = capture::RunEnrolment::start(false);
    m.step(Event::Worked(true));
    m.step(Event::Worked(true));
    m.step(Event::Worked(true));
    let done = ImageOutcome::Progress { stage: 8, percent: 100, complete: true, has_template: true };
    m.step(Event::Imaged(done));
    m.step(Event::Told);
    assert_eq!(m.step(Event::Worked(false)), Ask::IdentifyEnrolled);
    assert!(!m.restored);
    m.step(Event::Identity(None));
    m.step(Event::Told);
    m.step(Event::Told);
    m.step(Event::Told);
    assert_eq!(m.step(Event::Told), Ask::FinishEnrolment(Filing::Failed(6)));
    let (mut m, _) = capture::RunEnrolment::start(false);
    assert_eq!(m.step(Event::Worked(false)), Ask::FinishEnrolment(Filing::Failed(1)));
    assert_eq!(m.step(Event::Told), Ask::IdleSensor);
    assert_eq!(m.step(Event::Told), Ask::End);
}

#[test]
fn verification_is_decided_only_when_saved() {
    let (_, ask) = capture::RunVerify::start(false, 0);
    assert_eq!(ask, Ask::FinishVerify { outcome: VerifyOutcome::Failed(2), token: None });
    for saved in [true, false] {
        let (mut m, first) = capture::RunVerify::start(true, 0);
        assert_eq!(first, Ask::MintToken);
        assert_eq!(m.step(Event::Token(Some([7; 32]))), Ask::BootClock);
        assert_eq!(m.step(Event::Time(9_000_000)), Ask::BringOnline);
        assert_eq!(m.step(Event::Worked(true)), Ask::VerifyImage);
        assert_eq!(m.step(Event::Verified(VerifyOutcome::NoMatch)), Ask::IdleSensor);
        assert_eq!(m.step(Event::Told), Ask::PowerOff);
        assert_eq!(m.step(Event::Told), Ask::NoteCaptureEnd);
        assert_eq!(m.step(Event::Told), Ask::SaveAfterMatch);
        let outcome = if saved { VerifyOutcome::NoMatch } else { VerifyOutcome::Failed(2) };
        assert_eq!(m.step(Event::Worked(saved)), Ask::FinishVerify { outcome, token: Some([7; 32]) });
        assert_eq!(m.step(Event::Told), Ask::End);
    }
    let (mut m, _) = capture::RunVerify::start(true, 0);
    m.step(Event::Token(Some([8; 32])));
    m.step(Event::Time(9_000_000));
    assert_eq!(
        m.step(Event::Worked(false)),
        Ask::FinishVerify { outcome: VerifyOutcome::Failed(1), token: Some([8; 32]) }
    );
    assert_eq!(m.step(Event::Told), Ask::IdleSensor);
    let (mut m, _) = capture::RunVerify::start(true, 0);
    assert_eq!(
        m.step(Event::Token(None)),
        Ask::FinishVerify { outcome: VerifyOutcome::Failed(2), token: None }
    );
}

#[test]
fn sensor_rests_between_captures() {
    assert_eq!(capture::settle_before_capture(0, 5), None);
    assert_eq!(capture::settle_before_capture(1_000_000, 1_000_000), Some(1800));
    assert_eq!(capture::settle_before_capture(1_000_000, 801_000_000), Some(1000));
    assert_eq!(capture::settle_before_capture(1_000_000, 1_801_000_000), None);
    assert_eq!(capture::settle_before_capture(9_000_000, 1), Some(1800));
    let (mut m, _) = capture::RunVerify::start(true, 1_000_000);
    m.step(Event::Token(Some([7; 32])));
    assert_eq!(m.step(Event::Time(801_000_000)), Ask::IdleSensor);
    assert_eq!(m.step(Event::Worked(false)), Ask::Sleep(1000));
    assert_eq!(m.step(Event::Told), Ask::BringOnline);
    let (mut rested, _) = capture::RunVerify::start(true, 1_000_000);
    rested.step(Event::Token(Some([7; 32])));
    assert_eq!(rested.step(Event::Time(1_801_000_000)), Ask::BringOnline);
}

#[test]
fn state_is_awaited_a_bounded_time() {
    let (mut m, ask) = bringup::AwaitState::start(0);
    assert_eq!(ask, bringup::Ask::Status);
    for _ in 0..249 {
        assert_eq!(m.step(&bringup::Event::Status(Some(&status(5, 0, 0)))), bringup::Ask::Sleep(20));
        assert_eq!(m.step(&bringup::Event::Slept), bringup::Ask::Status);
    }
    m.step(&bringup::Event::Status(Some(&status(5, 0, 0))));
    assert_eq!(m.step(&bringup::Event::Slept), bringup::Ask::Done(false));
    let (mut m, _) = bringup::AwaitState::start(5);
    assert_eq!(m.step(&bringup::Event::Status(Some(&status(5, 0, 0)))), bringup::Ask::Done(true));
    let (mut m, _) = bringup::AwaitState::start(5);
    assert_eq!(m.step(&bringup::Event::Status(None)), bringup::Ask::Done(false));
}

#[test]
fn session_is_made_on_the_way_to_the_counter() {
    let (mut m, ask) = bringup::InitSequence::start();
    assert_eq!(ask, bringup::Ask::Call(Call::Challenge));
    let missing = bringup::Event::Reply(Verdict::PrerequisiteMissing, &[]);
    assert_eq!(m.step(&missing), bringup::Ask::EstablishSession);
    assert_eq!(m.step(&bringup::Event::Worked(true)), bringup::Ask::Call(Call::Challenge));
    assert_eq!(m.step(&missing), bringup::Ask::Done(false));
    let (mut s, ask) = bringup::EstablishSession::start();
    assert_eq!(ask, bringup::Ask::Call(Call::SessionShare));
    let mut share = vec![1u8; 40];
    share.extend_from_slice(&[2; 8]);
    assert_eq!(
        s.step(&bringup::Event::Reply(Verdict::Accepted, &share)),
        bringup::Ask::SendSessionShare(vec![1; 40])
    );
    assert_eq!(s.step(&bringup::Event::Worked(true)), bringup::Ask::ReadSessionReply);
    assert_eq!(
        s.step(&bringup::Event::Read(Some(&[3; 40]))),
        bringup::Ask::Transfer(Call::CommitSession, vec![3; 40])
    );
    assert_eq!(
        s.step(&bringup::Event::Transferred(Some(DeviceStatus::Answered(0)))),
        bringup::Ask::Done(true)
    );
    let (mut s, _) = bringup::EstablishSession::start();
    assert_eq!(s.step(&bringup::Event::Reply(Verdict::Accepted, &[0; 39])), bringup::Ask::Done(false));
    let (mut s, _) = bringup::EstablishSession::start();
    s.step(&bringup::Event::Reply(Verdict::Accepted, &share));
    s.step(&bringup::Event::Worked(true));
    assert_eq!(s.step(&bringup::Event::Read(None)), bringup::Ask::Done(false));
    let (mut c, _) = bringup::InitSequence::start();
    let long = sensor::CHALLENGE_LEN + 1;
    assert_eq!(
        c.step(&bringup::Event::Reply(Verdict::Accepted, &vec![4; long])),
        bringup::Ask::SendChallenge(vec![4; sensor::CHALLENGE_LEN])
    );
    assert_eq!(c.step(&bringup::Event::Worked(true)), bringup::Ask::ReadChallengeReply);
    assert_eq!(
        c.step(&bringup::Event::Read(Some(&[5; 8]))),
        bringup::Ask::Transfer(Call::CommitChallenge, vec![5; 8])
    );
}

fn patch(end: &[u8], confirm: Option<&[u8]>) -> bringup::Ask {
    let (mut m, ask) = bringup::ApplyPatch::start();
    assert_eq!(ask, bringup::Ask::Call(Call::FetchPatch));
    assert_eq!(m.step(&bringup::Event::Reply(Verdict::Accepted, &[1, 9])), bringup::Ask::EnablePatch);
    assert_eq!(m.step(&bringup::Event::Worked(true)), bringup::Ask::AwaitState(0));
    assert_eq!(m.step(&bringup::Event::Worked(true)), bringup::Ask::SendPatch(vec![1, 9]));
    assert_eq!(m.step(&bringup::Event::Worked(true)), bringup::Ask::Sleep(20));
    assert_eq!(m.step(&bringup::Event::Slept), bringup::Ask::Status);
    assert_eq!(m.step(&bringup::Event::Status(Some(end))), bringup::Ask::Status);
    m.step(&bringup::Event::Status(confirm))
}

fn loaded() -> PatchLoaded {
    match patch(&status(0, 0x29, 0), None) {
        bringup::Ask::Woken(Some(p)) => p,
        other => panic!("{:?}", other),
    }
}

#[test]
fn patch_counts_when_acknowledged() {
    let taken = status(0, 0x29, 0);
    assert!(matches!(patch(&taken, Some(&status(0, 0x29, 0))), bringup::Ask::Woken(Some(_))));
    assert_eq!(patch(&taken, Some(&status(9, 0x29, 0))), bringup::Ask::Woken(None));
    let (mut m, _) = bringup::ApplyPatch::start();
    assert_eq!(m.step(&bringup::Event::Reply(Verdict::Accepted, &[])), bringup::Ask::Woken(None));
    let (mut m, _) = bringup::ApplyPatch::start();
    let missing = bringup::Event::Reply(Verdict::PrerequisiteMissing, &[]);
    assert_eq!(m.step(&missing), bringup::Ask::InitSequence);
    assert_eq!(m.step(&bringup::Event::Worked(true)), bringup::Ask::Call(Call::FetchPatch));
    assert_eq!(m.step(&missing), bringup::Ask::Woken(None));
}

#[test]
fn sensor_is_woken_with_growing_patience() {
    let known = [0x3352u16];
    let (mut m, ask) = bringup::Wake::start();
    assert_eq!(ask, bringup::Ask::PowerCycle);
    assert_eq!(m.step(&bringup::Event::Worked(true), &known), bringup::Ask::Status);
    let silent = [0u8; 16];
    for ms in [3, 10, 50] {
        assert_eq!(m.step(&bringup::Event::Status(Some(&silent)), &known), bringup::Ask::Sleep(ms));
        assert_eq!(m.step(&bringup::Event::Slept, &known), bringup::Ask::Status);
    }
    assert_eq!(m.step(&bringup::Event::Status(Some(&silent)), &known), bringup::Ask::Woken(None));
}

fn woken_with(raw: &[u8]) -> (bringup::Wake, bringup::Ask) {
    let known = [0x3352u16];
    let (mut m, _) = bringup::Wake::start();
    m.step(&bringup::Event::Worked(true), &known);
    let ask = m.step(&bringup::Event::Status(Some(raw)), &known);
    (m, ask)
}

#[test]
fn only_known_sensors_get_registered() {
    let known = [0x3352u16];
    let (mut m, ask) = woken_with(&status(0, 0x29, 0x3352));
    assert_eq!(ask, bringup::Ask::RegisterSensor(Identifier(0x3352)));
    assert!(matches!(m.step(&bringup::Event::Worked(true), &known), bringup::Ask::Woken(Some(_))));
    let (mut m, _) = woken_with(&status(0, 0, 0x3352));
    assert_eq!(m.step(&bringup::Event::Worked(true), &known), bringup::Ask::ApplyPatch);
    assert_eq!(m.step(&bringup::Event::Woken(None), &known), bringup::Ask::Woken(None));
    let (_, ask) = woken_with(&status(0, 0, 0x9999));
    assert_eq!(ask, bringup::Ask::Woken(None));
}

#[test]
fn registration_depends_on_what_is_known() {
    let id = Identifier(0x3352);
    let (mut m, ask) = bringup::RegisterSensor::start(id, Bringup::Fresh);
    assert_eq!(ask, bringup::Ask::Call(Call::RegisterSensor(id)));
    assert_eq!(m.step(&bringup::Event::Reply(Verdict::Accepted, &[])), bringup::Ask::ReadSerial);
    assert_eq!(m.known, Bringup::Identified);
    assert_eq!(
        m.step(&bringup::Event::Read(Some(&[6; 15]))),
        bringup::Ask::CallWith(Call::RegisterSerial, vec![6; 15])
    );
    assert_eq!(m.step(&bringup::Event::Reply(Verdict::Accepted, &[])), bringup::Ask::Done(true));
    assert_eq!(m.known, Bringup::Established);
    let (_, ask) = bringup::RegisterSensor::start(id, Bringup::Identified);
    assert_eq!(ask, bringup::Ask::ReadSerial);
    let (mut m, ask) = bringup::RegisterSensor::start(id, Bringup::Established);
    assert_eq!(ask, bringup::Ask::Call(Call::ClearState));
    assert_eq!(m.step(&bringup::Event::Reply(Verdict::Other, &[])), bringup::Ask::Done(false));
}

#[test]
fn calibration_answers_the_module_challenge() {
    let (mut m, ask) = bringup::Calibrate::start();
    assert_eq!(ask, bringup::Ask::ReadCalibrationFile);
    assert_eq!(
        m.step(&bringup::Event::Read(Some(b"calibration"))),
        bringup::Ask::Call(Call::ModuleChallenge)
    );
    assert_eq!(
        m.step(&bringup::Event::Reply(Verdict::Accepted, &[1; 64])),
        bringup::Ask::SendModuleChallenge(vec![1; 64])
    );
    assert_eq!(m.step(&bringup::Event::Worked(true)), bringup::Ask::ReadModuleReply);
    assert_eq!(
        m.step(&bringup::Event::Read(Some(&[2; 64]))),
        bringup::Ask::CallWith(Call::ModuleCommit, vec![2; 64])
    );
    assert_eq!(
        m.step(&bringup::Event::Reply(Verdict::Accepted, &[3; 16])),
        bringup::Ask::Transfer(Call::LoadCalibration, b"calibration".to_vec())
    );
    assert_eq!(
        m.step(&bringup::Event::Transferred(Some(DeviceStatus::Answered(0)))),
        bringup::Ask::Call(Call::Diagnostics)
    );
    assert_eq!(m.step(&bringup::Event::Reply(Verdict::Other, &[])), bringup::Ask::Done(true));
    let (mut m, _) = bringup::Calibrate::start();
    m.step(&bringup::Event::Read(Some(b"calibration")));
    assert_eq!(m.step(&bringup::Event::Reply(Verdict::Accepted, &[0; 63])), bringup::Ask::Done(false));
    let (mut m, _) = bringup::Calibrate::start();
    assert_eq!(m.step(&bringup::Event::Read(None)), bringup::Ask::Done(false));
}

#[test]
fn only_the_transparent_channel_may_be_empty() {
    for (kind, ok) in [(ParamKind::Coverage, false), (ParamKind::Operation, false), (ParamKind::Transparent, true)] {
        let (mut m, _) = bringup::RelayParameters::start(kind);
        assert_eq!(m.step(&bringup::Event::Reply(Verdict::Accepted, &[])), bringup::Ask::Done(ok));
        let (mut m, _) = bringup::RelayParameters::start(kind);
        assert_eq!(m.step(&bringup::Event::Reply(Verdict::Accepted, &[1])), bringup::Ask::SendParameters(kind, vec![1]));
        assert_eq!(m.step(&bringup::Event::Worked(true)), bringup::Ask::Done(true));
    }
}

#[test]
fn device_view_needs_list_and_policy() {
    for (list, policy, ok) in [(true, 2, true), (false, 2, false), (true, 3, false)] {
        let (mut m, _) = bringup::SyncDeviceView::start();
        let verdict = if list { Verdict::Accepted } else { Verdict::Other };
        assert_eq!(m.step(&bringup::Event::Reply(verdict, &[])), bringup::Ask::Call(Call::MatchPolicy));
        let p = vec![0u8; policy];
        assert_eq!(m.step(&bringup::Event::Reply(Verdict::Accepted, &p)), bringup::Ask::Done(ok));
    }
}

fn set_up(synced: bool, restored: bool) -> bringup::CompleteBringup {
    let (mut m, ask) = bringup::CompleteBringup::start(loaded(), synced, restored);
    assert_eq!(ask, bringup::Ask::RelayParameters(ParamKind::Coverage));
    assert_eq!(m.step(&bringup::Event::Worked(true)), bringup::Ask::RelayParameters(ParamKind::Operation));
    assert_eq!(m.step(&bringup::Event::Worked(true)), bringup::Ask::RelayParameters(ParamKind::Transparent));
    assert_eq!(m.step(&bringup::Event::Worked(true)), bringup::Ask::Call(Call::CompleteInit));
    assert_eq!(m.step(&bringup::Event::Reply(Verdict::Accepted, &[])), bringup::Ask::SyncDeviceView);
    m
}

#[test]
fn restored_templates_have_to_be_there() {
    let mut m = set_up(false, true);
    assert_eq!(m.step(&bringup::Event::Worked(true)), bringup::Ask::CountIdentities);
    assert_eq!(m.step(&bringup::Event::Count(Some(1))), bringup::Ask::ProveRestore);
    assert_eq!(m.step(&bringup::Event::Worked(true)), bringup::Ask::ReconcileIdentities);
    assert_eq!(m.step(&bringup::Event::Worked(true)), bringup::Ask::Done(true));
    assert!(m.restored);
    for count in [None, Some(0)] {
        let mut m = set_up(false, true);
        m.step(&bringup::Event::Worked(true));
        assert_eq!(m.step(&bringup::Event::Count(count)), bringup::Ask::Done(true));
        assert!(!m.restored);
    }
    let mut m = set_up(true, true);
    assert_eq!(m.step(&bringup::Event::Worked(true)), bringup::Ask::Done(true));
    assert!(m.restored);
}

#[test]
fn online_sensor_is_calibrated() {
    let (mut m, ask) = bringup::BringOnline::start(false);
    assert_eq!(ask, bringup::Ask::WakeSensor);
    assert_eq!(m.step(&bringup::Event::Woken(Some(loaded()))), bringup::Ask::Calibrate);
    assert_eq!(m.step(&bringup::Event::Worked(true)), bringup::Ask::WakeSensor);
    assert_eq!(m.step(&bringup::Event::Woken(Some(loaded()))), bringup::Ask::CompleteBringup(loaded()));
    assert_eq!(m.step(&bringup::Event::Worked(true)), bringup::Ask::Done(true));
    let (mut m, _) = bringup::BringOnline::start(true);
    assert_eq!(m.step(&bringup::Event::Woken(None)), bringup::Ask::Done(false));
}

#[test]
fn attaching_needs_a_sensor() {
    let (_, ask) = bringup::AttachBringup::start(false);
    assert_eq!(ask, bringup::Ask::Done(false));
    let (mut m, ask) = bringup::AttachBringup::start(true);
    assert_eq!(ask, bringup::Ask::WakeSensor);
    assert_eq!(m.step(&bringup::Event::Woken(Some(loaded()))), bringup::Ask::CompleteBringup(loaded()));
    assert_eq!(m.step(&bringup::Event::Worked(true)), bringup::Ask::Done(true));
    let (mut m, _) = bringup::AttachBringup::start(true);
    assert_eq!(m.step(&bringup::Event::Woken(None)), bringup::Ask::Done(false));
}

#[test]
fn free_count_has_to_make_sense() {
    assert!(bringup::prove_restore(Verdict::Accepted, &[3, 0, 0, 0]));
    assert!(!bringup::prove_restore(Verdict::Accepted, &[4, 0, 0, 0]));
    assert!(!bringup::prove_restore(Verdict::Accepted, &[3, 0, 0]));
    assert!(!bringup::prove_restore(Verdict::Other, &[3, 0, 0, 0]));
}

fn blob_of(id: i32) -> Vec<u8> {
    let mut b = vec![0u8; 0x22];
    b[8..12].copy_from_slice(&id.to_le_bytes());
    b
}

fn components(pairs: &[(i32, u32)]) -> Vec<u8> {
    let mut out = Vec::new();
    for (id, state) in pairs {
        out.extend_from_slice(&id.to_le_bytes());
        out.extend_from_slice(&state.to_le_bytes());
    }
    out
}

#[test]
fn catacomb_is_confirmed_when_written() {
    let (mut m, ask) = vault::SaveCatacomb::start(Kept::Owner, user());
    assert!(matches!(ask, vault::Ask::Call(Call::SaveCatacomb(_))));
    let blob = blob_of(501);
    assert_eq!(m.step(&vault::Event::Reply(Verdict::Accepted, &blob)), vault::Ask::WriteFile(Kept::Owner, blob.clone()));
    assert!(matches!(m.step(&vault::Event::Worked(true)), vault::Ask::Call(Call::ConfirmSave(_))));
    assert_eq!(m.step(&vault::Event::Reply(Verdict::Accepted, &[])), vault::Ask::Done(true));
    let (mut m, _) = vault::SaveCatacomb::start(Kept::Master, user());
    assert_eq!(m.step(&vault::Event::Reply(Verdict::Accepted, &blob)), vault::Ask::Done(false));
    let (mut m, _) = vault::SaveCatacomb::start(Kept::Owner, user());
    assert_eq!(m.step(&vault::Event::Reply(Verdict::Accepted, &blob[..0x21])), vault::Ask::Done(false));
}

#[test]
fn lockout_record_must_not_be_empty() {
    let (mut m, _) = vault::SaveLockout::start();
    assert_eq!(m.step(&vault::Event::Reply(Verdict::Accepted, &[1])), vault::Ask::Store(Kept::Lockout, vec![1]));
    assert_eq!(m.step(&vault::Event::Worked(true)), vault::Ask::Done(true));
    let (mut m, _) = vault::SaveLockout::start();
    assert_eq!(m.step(&vault::Event::Reply(Verdict::Accepted, &[])), vault::Ask::Done(false));
}

#[test]
fn saving_all_goes_on_and_saving_after_a_match_does_not() {
    let (mut m, ask) = vault::SaveAll::start();
    assert_eq!(ask, vault::Ask::SaveCatacomb(Kept::Master));
    assert_eq!(m.step(&vault::Event::Worked(false)), vault::Ask::SaveCatacomb(Kept::Owner));
    assert_eq!(m.step(&vault::Event::Worked(true)), vault::Ask::SaveCatacomb(Kept::User));
    assert_eq!(m.step(&vault::Event::Worked(true)), vault::Ask::SaveLockout);
    assert_eq!(m.step(&vault::Event::Worked(true)), vault::Ask::Done(false));
    let (mut m, ask) = vault::SaveAfterMatch::start();
    assert_eq!(ask, vault::Ask::SaveLockout);
    assert_eq!(m.step(&vault::Event::Worked(true)), vault::Ask::SaveCatacomb(Kept::User));
    assert_eq!(m.step(&vault::Event::Worked(true)), vault::Ask::SaveCatacomb(Kept::Master));
    assert_eq!(m.step(&vault::Event::Worked(true)), vault::Ask::ResnapshotKeybag);
    assert_eq!(m.step(&vault::Event::Worked(true)), vault::Ask::Done(true));
    let (mut m, _) = vault::SaveAfterMatch::start();
    assert_eq!(m.step(&vault::Event::Worked(false)), vault::Ask::Done(false));
}

fn give_back(what: Kept, id: i32, answer: u32, after: &[(i32, u32)]) -> vault::Ask {
    let (mut m, ask) = vault::RestoreCatacomb::start(what, id, Some(1));
    assert_eq!(ask, vault::Ask::ReadSaved(what));
    let blob = blob_of(id);
    assert_eq!(m.step(&vault::Event::Saved(Some(&blob))), vault::Ask::Transfer(Call::LoadCatacomb, blob.clone()));
    let next = m.step(&vault::Event::Transferred(Some(DeviceStatus::Answered(answer))));
    if next != vault::Ask::Call(Call::ContextState) {
        return next;
    }
    m.step(&vault::Event::Reply(Verdict::Accepted, &components(after)))
}

#[test]
fn restored_catacomb_is_active() {
    let restored = vault::Ask::Restored(RestoreOutcome::Restored);
    let failed = vault::Ask::Restored(RestoreOutcome::Failed);
    assert_eq!(give_back(Kept::User, 1000, 0, &[(1000, 2)]), restored);
    assert_eq!(give_back(Kept::User, 1000, 0, &[(1000, 1)]), failed);
    assert_eq!(give_back(Kept::User, 1000, 0x101, &[(-1, 1), (1000, 3)]), restored);
    assert_eq!(give_back(Kept::User, 1000, 0x8002, &[(1000, 2)]), failed);
    assert_eq!(give_back(Kept::Owner, 501, 0x8002, &[(501, 2)]), restored);
    assert_eq!(give_back(Kept::Owner, 501, 7, &[(501, 2)]), failed);
}

#[test]
fn component_state_decides_what_is_done() {
    let start = |s| vault::RestoreCatacomb::start(Kept::User, 1000, s).1;
    assert_eq!(start(Some(2)), vault::Ask::Restored(RestoreOutcome::AlreadyActive));
    assert_eq!(start(Some(3)), vault::Ask::Restored(RestoreOutcome::AlreadyActive));
    assert_eq!(start(Some(4)), vault::Ask::Restored(RestoreOutcome::Failed));
    assert_eq!(start(None), vault::Ask::Restored(RestoreOutcome::Failed));
    let (mut m, _) = vault::RestoreCatacomb::start(Kept::User, 1000, Some(1));
    assert_eq!(m.step(&vault::Event::Saved(None)), vault::Ask::Restored(RestoreOutcome::NoStoredFile));
    let (mut m, _) = vault::RestoreCatacomb::start(Kept::User, 1000, Some(1));
    let other = blob_of(501);
    assert_eq!(m.step(&vault::Event::Saved(Some(&other))), vault::Ask::Restored(RestoreOutcome::Failed));
}

#[test]
fn everything_is_given_back() {
    let (mut m, ask) = vault::RestoreAll::start(user());
    assert_eq!(ask, vault::Ask::Call(Call::ContextState));
    let states = components(&[(-1, 1), (501, 2), (1000, 1)]);
    let listed = vault::Event::Reply(Verdict::Accepted, &states);
    assert_eq!(m.step(&listed), vault::Ask::RestoreCatacomb(Kept::Master, -1, Some(1)));
    m.step(&vault::Event::Restored(RestoreOutcome::NoStoredFile));
    assert!(m.missing_files);
    assert_eq!(m.step(&listed), vault::Ask::RestoreCatacomb(Kept::Owner, 501, Some(2)));
    m.step(&vault::Event::Restored(RestoreOutcome::AlreadyActive));
    assert_eq!(m.step(&listed), vault::Ask::RestoreCatacomb(Kept::User, 1000, Some(1)));
    assert_eq!(m.step(&vault::Event::Restored(RestoreOutcome::Restored)), vault::Ask::RestoreLockout);
    assert_eq!(m.step(&vault::Event::Restored(RestoreOutcome::EmptyTolerated)), vault::Ask::Done(true));
    let (mut m, _) = vault::RestoreAll::start(user());
    assert_eq!(m.step(&vault::Event::Reply(Verdict::Accepted, &states[..7])), vault::Ask::Done(false));
}

#[test]
fn lockout_record_is_given_back() {
    for (answer, outcome) in [
        (0, RestoreOutcome::Restored),
        (0x8002, RestoreOutcome::EmptyTolerated),
        (1, RestoreOutcome::Failed),
    ] {
        let (mut m, _) = vault::RestoreLockout::start();
        assert_eq!(m.step(&vault::Event::Saved(Some(&[1]))), vault::Ask::Transfer(Call::LoadLockout, vec![1]));
        let told = vault::Event::Transferred(Some(DeviceStatus::Answered(answer)));
        assert_eq!(m.step(&told), vault::Ask::Restored(outcome));
    }
    let (mut m, _) = vault::RestoreLockout::start();
    assert_eq!(m.step(&vault::Event::Saved(None)), vault::Ask::Restored(RestoreOutcome::NoStoredFile));
}

#[test]
fn saved_bytes_are_found_in_file_or_store() {
    assert_eq!(vault::read_stored(0xF2, Some(vec![1]), Some(vec![2])), Some(vec![1]));
    assert_eq!(vault::read_stored(0xF2, None, Some(vec![2])), Some(vec![2]));
    assert_eq!(vault::read_stored(0xF5, Some(vec![1]), Some(vec![2])), Some(vec![2]));
}

#[test]
fn contexts_are_selected_on_an_empty_list_only() {
    let (mut m, ask) = vault::OpenContext::start(user());
    assert_eq!(ask, vault::Ask::Call(Call::ListIdentities));
    assert!(matches!(m.step(&vault::Event::Listed(Some(0))), vault::Ask::Call(Call::SelectContext(_, _))));
    assert_eq!(m.step(&vault::Event::Reply(Verdict::Accepted, &[])), vault::Ask::SaveCatacomb(Kept::Master));
    assert_eq!(m.step(&vault::Event::Worked(true)), vault::Ask::SaveCatacomb(Kept::Owner));
    assert!(matches!(m.step(&vault::Event::Worked(true)), vault::Ask::Call(Call::SelectContext(_, _))));
    assert_eq!(
        m.step(&vault::Event::Reply(Verdict::Accepted, &[])),
        vault::Ask::Call(Call::ProtectedConfig(user()))
    );
    assert_eq!(m.step(&vault::Event::Reply(Verdict::Accepted, &[0; 32])), vault::Ask::Done(true));
    for listed in [None, Some(1)] {
        let (mut m, _) = vault::OpenContext::start(user());
        assert_eq!(m.step(&vault::Event::Listed(listed)), vault::Ask::Call(Call::ProtectedConfig(user())));
        assert_eq!(m.step(&vault::Event::Reply(Verdict::Accepted, &[0; 31])), vault::Ask::Done(false));
    }
}

#[test]
fn enrolment_begins_with_a_credential() {
    let (mut m, ask) = vault::BeginEnrolment::start(user(), true, true, true);
    assert_eq!(ask, vault::Ask::Call(Call::Cancel));
    assert_eq!(m.step(&vault::Event::Reply(Verdict::Other, &[])), vault::Ask::OpenContext);
    assert_eq!(m.step(&vault::Event::Worked(true)), vault::Ask::EstablishCredential);
    assert_eq!(
        m.step(&vault::Event::Credential(Some([5; 16]))),
        vault::Ask::CallWith(Call::BeginEnrol(user(), 0), vec![5; 16])
    );
    assert_eq!(m.step(&vault::Event::Reply(Verdict::Accepted, &[])), vault::Ask::Done(true));
    assert!(m.open);
    let (mut m, _) = vault::BeginEnrolment::start(user(), false, true, true);
    m.step(&vault::Event::Worked(true));
    assert_eq!(m.step(&vault::Event::Credential(None)), vault::Ask::Done(false));
    assert_eq!(vault::BeginEnrolment::start(user(), false, false, true).1, vault::Ask::Done(false));
    assert_eq!(vault::BeginEnrolment::start(user(), false, true, false).1, vault::Ask::Done(false));
}

#[test]
fn saved_catacomb_is_given_back() {
    let (mut save, _) = vault::SaveCatacomb::start(Kept::User, user());
    let mut blob = blob_of(1000);
    blob[0x21] = 7;
    let written = match save.step(&vault::Event::Reply(Verdict::Accepted, &blob)) {
        vault::Ask::WriteFile(Kept::User, b) => b,
        other => panic!("{:?}", other),
    };
    let file = catacomb::write(Kept::User.kind(), &written).unwrap();
    let saved = catacomb::read(Kept::User.kind(), &file).unwrap();
    let (mut back, _) = vault::RestoreCatacomb::start(Kept::User, 1000, Some(1));
    assert_eq!(
        back.step(&vault::Event::Saved(Some(&saved))),
        vault::Ask::Transfer(Call::LoadCatacomb, blob)
    );
}
