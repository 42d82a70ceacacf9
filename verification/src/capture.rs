//! Taking images of a finger: for an enrolment, image after image, and for a
//! verification, one.
//!
//! As elsewhere, each procedure is a machine that says what is to be done next
//! and is told how it went.

use crate::bytes::u32_at;
use crate::sbio::{
    candidates, enrol_identity_candidates, enrolment_in, match_in, percent_of, starts, Call,
    EnrolmentResult, ImageInit, ImagePurpose, MatchResult, UserId, Verdict, ASSESS_MIN_LEN, ASSESS_USABLE_ENROL, ASSESS_USABLE_MATCH,
    SBIO_ENROL_RESULT_LEN, SBIO_MATCH_RESULT_LEN,
};
use crate::sensor::{
    Capture, CaptureError, Offset12, Status, STATE_ARMED, STATE_DATA_READY, STATE_NEEDS_PATCH,
    STATE_READING, STATUS_IDENTIFIER, STATUS_STATE,
};
use crate::session::{Guidance, MatchEvidence, VerifyOutcome};
use crate::transfer::DeviceStatus;
use crate::uuid::Uuid;
use vstd::prelude::*;

verus! {

pub const ENROL_STATUS_SENSOR: u32 = 1;

pub const ENROL_STATUS_ENCLAVE: u32 = 2;

pub const ENROL_STATUS_TOO_MANY: u32 = 3;

pub const ENROL_STATUS_TIMEOUT: u32 = 4;

pub const ENROL_STATUS_RETRY: u32 = 5;

pub const ENROL_STATUS_UNFILED: u32 = 6;

pub const ENROL_MAX_CAPTURES: u32 = 12;

pub const ENROL_POLL_MS: u32 = 2;

pub const ENROL_POLL_ATTEMPTS: u32 = 30_000;

pub const ENROL_REPOSITION_MS: u32 = 1800;

pub const MATCH_SETTLE_MS: u32 = 1800;

/// How the wait for an image ended.
#[derive(Clone, Copy, Debug, PartialEq, Eq, Structural)]
pub enum CaptureWait {
    /// An image of this many bytes is there.
    Ready(u32),
    Timeout,
    /// The sensor is in a state in which it takes none.
    Fault(u8),
    /// Nobody wants one any more, or the bus failed.
    Abandon,
}

/// How one image of an enrolment went.
#[derive(Clone, Copy, Debug, PartialEq, Eq, Structural)]
pub enum ImageOutcome {
    Progress { stage: u32, percent: u32, complete: bool, has_template: bool },
    Retry,
    NoFinger,
    Failed(u32),
}

/// How an enrolment ended.
#[derive(Clone, Copy, Debug, PartialEq, Eq, Structural)]
pub enum Filing {
    Done(Uuid),
    Failed(u32),
}

/// What is to be done next.
#[derive(Debug, PartialEq, Eq)]
pub enum Ask<L = Vec<Uuid>> {
    /// Make a call and tell the verdict and the payload.
    Call(Call),
    /// Make the call that hands this capture on, and tell the bare status and
    /// give the capture back.
    Relay(Capture),
    Status,
    Sleep(u32),
    /// Tell whether the operation is still wanted.
    CheckLive,
    /// Pass this on to the person.
    Guide(Guidance),
    StartCapture,
    AwaitCapture,
    ReadCapture(u32),
    /// Overwrite this capture and let it go.
    WipeCapture(Capture),
    /// Tell the monotonic time, in nanoseconds.
    Clock,
    /// Keep these: one of them may be the new identity.
    KeepCandidates(L),
    /// Tell whether the index has this identity.
    IsKnown(Uuid),
    IdleSensor,
    AwaitIdle,
    PowerOff,
    /// Remember the time since boot, as that of the last use of the sensor.
    NoteCaptureEnd,
    BringOnline,
    BeginEnrolment,
    EnrolImage(u32),
    Advance { stage: u32, percent: u32 },
    SaveAll,
    ResnapshotKeybag,
    IdentifyEnrolled,
    ReconcileIdentities,
    FinishEnrolment(Filing),
    /// Make a token, and tell it.
    MintToken,
    /// Tell the time since boot, in nanoseconds.
    BootClock,
    VerifyImage,
    SaveAfterMatch,
    /// File the outcome, with this token or without one.
    FinishVerify { outcome: VerifyOutcome, token: Option<[u8; 32]> },
    /// Over.
    Waited(CaptureWait),
    Imaged(ImageOutcome),
    Verified(VerifyOutcome),
    End,
}

/// An ask whose list is a sequence, which contracts speak of.
pub type AskView = Ask<Seq<Uuid>>;

impl View for Ask {
    type V = AskView;

    open spec fn view(&self) -> AskView {
        match self {
            Ask::Call(c) => Ask::Call(*c),
            Ask::Relay(c) => Ask::Relay(*c),
            Ask::Status => Ask::Status,
            Ask::Sleep(ms) => Ask::Sleep(*ms),
            Ask::CheckLive => Ask::CheckLive,
            Ask::Guide(g) => Ask::Guide(*g),
            Ask::StartCapture => Ask::StartCapture,
            Ask::AwaitCapture => Ask::AwaitCapture,
            Ask::ReadCapture(n) => Ask::ReadCapture(*n),
            Ask::WipeCapture(c) => Ask::WipeCapture(*c),
            Ask::Clock => Ask::Clock,
            Ask::KeepCandidates(l) => Ask::KeepCandidates(l@),
            Ask::IsKnown(u) => Ask::IsKnown(*u),
            Ask::IdleSensor => Ask::IdleSensor,
            Ask::AwaitIdle => Ask::AwaitIdle,
            Ask::PowerOff => Ask::PowerOff,
            Ask::NoteCaptureEnd => Ask::NoteCaptureEnd,
            Ask::BringOnline => Ask::BringOnline,
            Ask::BeginEnrolment => Ask::BeginEnrolment,
            Ask::EnrolImage(n) => Ask::EnrolImage(*n),
            Ask::Advance { stage, percent } => Ask::Advance { stage: *stage, percent: *percent },
            Ask::SaveAll => Ask::SaveAll,
            Ask::ResnapshotKeybag => Ask::ResnapshotKeybag,
            Ask::IdentifyEnrolled => Ask::IdentifyEnrolled,
            Ask::ReconcileIdentities => Ask::ReconcileIdentities,
            Ask::FinishEnrolment(f) => Ask::FinishEnrolment(*f),
            Ask::MintToken => Ask::MintToken,
            Ask::BootClock => Ask::BootClock,
            Ask::VerifyImage => Ask::VerifyImage,
            Ask::SaveAfterMatch => Ask::SaveAfterMatch,
            Ask::FinishVerify { outcome, token } => Ask::FinishVerify {
                outcome: *outcome,
                token: *token,
            },
            Ask::Waited(w) => Ask::Waited(*w),
            Ask::Imaged(o) => Ask::Imaged(*o),
            Ask::Verified(o) => Ask::Verified(*o),
            Ask::End => Ask::End,
        }
    }
}

/// How what was asked for went.
pub enum Event<'a> {
    Reply(Verdict, &'a [u8]),
    /// The status of the transaction, unless there was none, and the capture.
    Relayed(Option<DeviceStatus>, Capture),
    Status(Option<&'a [u8]>),
    /// It was done, for what has no outcome.
    Told,
    Worked(bool),
    Waited(CaptureWait),
    Captured(Result<Capture, CaptureError>),
    Time(u64),
    /// The token that was made, unless that failed.
    Token(Option<[u8; 32]>),
    Imaged(ImageOutcome),
    Verified(VerifyOutcome),
    Identity(Option<Uuid>),
}

impl<'a> Event<'a> {
    pub open spec fn wf(self) -> bool {
        self matches Event::Status(Some(raw)) ==> raw@.len() == 16
    }

    pub open spec fn accepted(self) -> bool {
        self matches Event::Reply(Verdict::Accepted, _)
    }

    pub open spec fn payload(self) -> Option<Seq<u8>> {
        match self {
            Event::Reply(Verdict::Accepted, p) => Some(p@),
            _ => None,
        }
    }

    pub open spec fn worked(self) -> bool {
        self matches Event::Worked(true)
    }

    pub open spec fn relayed(self) -> bool {
        self matches Event::Relayed(Some(DeviceStatus::Answered(0)), _)
    }

    fn is_accepted(&self) -> (r: bool)
        ensures
            r == self.accepted(),
    {
        match self {
            Event::Reply(Verdict::Accepted, _) => true,
            _ => false,
        }
    }

    fn has_worked(&self) -> (r: bool)
        ensures
            r == self.worked(),
    {
        match self {
            Event::Worked(b) => *b,
            _ => false,
        }
    }

    fn bytes(&self) -> (r: Option<&'a [u8]>)
        ensures
            match self.payload() {
                Some(p) => r is Some && (r->0)@ == p,
                None => r is None,
            },
    {
        match self {
            Event::Reply(Verdict::Accepted, p) => Some(*p),
            _ => None,
        }
    }
}

// ---------------------------------------------------------------------------
// Waiting for an image.
// ---------------------------------------------------------------------------
#[derive(Clone, Copy, Debug, PartialEq, Eq, Structural)]
pub enum AwaitStage {
    Live,
    Look,
    Guide,
    Sleep,
    /// A last look, for the record.
    Last,
}

/// The wait for a finger. What the sensor does is passed on to the person.
#[derive(Clone, Copy, Debug, PartialEq, Eq, Structural)]
pub struct AwaitCapture {
    pub stage: AwaitStage,
    pub looks: u32,
}

pub open spec fn await_at(m: AwaitCapture, stage: AwaitStage) -> AwaitCapture {
    AwaitCapture { stage, ..m }
}

pub open spec fn await_step(m: AwaitCapture, e: Event) -> (AwaitCapture, AskView) {
    match m.stage {
        AwaitStage::Live => if e.worked() {
            (await_at(m, AwaitStage::Look), Ask::Status)
        } else {
            (m, Ask::Waited(CaptureWait::Abandon))
        },
        AwaitStage::Look => match e {
            Event::Status(Some(raw)) => {
                let state = raw@[STATUS_STATE as int];
                if state == STATE_NEEDS_PATCH {
                    (m, Ask::Waited(CaptureWait::Fault(state)))
                } else if state == STATE_ARMED {
                    (await_at(m, AwaitStage::Guide), Ask::Guide(Guidance::Place))
                } else if state == STATE_READING {
                    (await_at(m, AwaitStage::Guide), Ask::Guide(Guidance::HoldStill))
                } else if state == STATE_DATA_READY {
                    let count = u32_at(raw@, STATUS_IDENTIFIER as int) as u32;
                    if count == 0 {
                        (m, Ask::Waited(CaptureWait::Timeout))
                    } else {
                        (m, Ask::Waited(CaptureWait::Ready(count)))
                    }
                } else {
                    (await_at(m, AwaitStage::Sleep), Ask::Sleep(ENROL_POLL_MS))
                }
            },
            _ => (m, Ask::Waited(CaptureWait::Abandon)),
        },
        AwaitStage::Guide => (await_at(m, AwaitStage::Sleep), Ask::Sleep(ENROL_POLL_MS)),
        AwaitStage::Sleep => if m.looks + 1 < ENROL_POLL_ATTEMPTS {
            (
                AwaitCapture { stage: AwaitStage::Live, looks: (m.looks + 1) as u32 },
                Ask::CheckLive,
            )
        } else {
            (await_at(m, AwaitStage::Last), Ask::Status)
        },
        AwaitStage::Last => (m, Ask::Waited(CaptureWait::Timeout)),
    }
}

/// How it begins, and what is asked for first.
pub open spec fn await_capture_begins() -> (AwaitCapture, AskView) {
    (AwaitCapture { stage: AwaitStage::Live, looks: 0 }, AskView::CheckLive)
}

impl AwaitCapture {
    pub fn start() -> (r: (AwaitCapture, Ask))
        ensures
            (r.0, r.1@) == await_capture_begins(),
    {
        (AwaitCapture { stage: AwaitStage::Live, looks: 0 }, Ask::CheckLive)
    }

    pub fn step(&mut self, e: Event<'_>) -> (ask: Ask)
        requires
            e.wf(),
            old(self).looks < ENROL_POLL_ATTEMPTS,
        ensures
            final(self).looks < ENROL_POLL_ATTEMPTS,
            (*final(self), ask@) == await_step(*old(self), e),
    {
        match self.stage {
            AwaitStage::Live => {
                if e.has_worked() {
                    self.stage = AwaitStage::Look;
                    return Ask::Status;
                }
                Ask::Waited(CaptureWait::Abandon)
            },
            AwaitStage::Look => match e {
                Event::Status(Some(raw)) => {
                    let state: u8 = raw[STATUS_STATE];
                    if state == STATE_NEEDS_PATCH {
                        Ask::Waited(CaptureWait::Fault(state))
                    } else if state == STATE_ARMED {
                        self.stage = AwaitStage::Guide;
                        Ask::Guide(Guidance::Place)
                    } else if state == STATE_READING {
                        self.stage = AwaitStage::Guide;
                        Ask::Guide(Guidance::HoldStill)
                    } else {
                        match Status::from_raw(raw).offset12() {
                            Offset12::Available(count) => {
                                if count == 0 {
                                    Ask::Waited(CaptureWait::Timeout)
                                } else {
                                    Ask::Waited(CaptureWait::Ready(count))
                                }
                            },
                            _ => {
                                self.stage = AwaitStage::Sleep;
                                Ask::Sleep(ENROL_POLL_MS)
                            },
                        }
                    }
                },
                _ => Ask::Waited(CaptureWait::Abandon),
            },
            AwaitStage::Guide => {
                self.stage = AwaitStage::Sleep;
                Ask::Sleep(ENROL_POLL_MS)
            },
            AwaitStage::Sleep => {
                if self.looks + 1 < ENROL_POLL_ATTEMPTS {
                    self.stage = AwaitStage::Live;
                    self.looks = self.looks + 1;
                    Ask::CheckLive
                } else {
                    self.stage = AwaitStage::Last;
                    Ask::Status
                }
            },
            AwaitStage::Last => Ask::Waited(CaptureWait::Timeout),
        }
    }
}

// ---------------------------------------------------------------------------
// One image of an enrolment.
// ---------------------------------------------------------------------------
#[derive(Clone, Copy, Debug, PartialEq, Eq, Structural)]
pub enum EnrolStage {
    Start,
    Wait,
    Read,
    Prepare,
    Clock,
    Init,
    Relay,
    Wipe,
    Assess,
    Result,
    Keep(ImageOutcome),
    /// The enclave lets the image go.
    Cleanup(ImageOutcome),
    LateWipe(ImageOutcome),
}

/// One image of an enrolment: captured, handed to the enclave, judged by it.
/// However it ends, the enclave lets the image go and the capture is wiped.
#[derive(Debug, PartialEq, Eq)]
pub struct EnrolImage {
    pub counter: u32,
    pub user: UserId,
    pub stage: EnrolStage,
    /// The capture, while it is in memory.
    pub capture: Option<Capture>,
}

pub open spec fn enrol_at(m: EnrolImage, stage: EnrolStage) -> EnrolImage {
    EnrolImage { stage, ..m }
}

/// Ends while the enclave holds the image.
pub open spec fn enrol_leave(m: EnrolImage, o: ImageOutcome) -> (EnrolImage, AskView) {
    (enrol_at(m, EnrolStage::Cleanup(o)), Ask::Call(Call::ImageCleanup))
}

/// Ends with this outcome, once the capture is wiped if it is in memory.
pub open spec fn enrol_end(m: EnrolImage, o: ImageOutcome) -> (EnrolImage, AskView) {
    match m.capture {
        Some(c) => (
            EnrolImage { stage: EnrolStage::LateWipe(o), capture: None, ..m },
            Ask::WipeCapture(c),
        ),
        None => (m, Ask::Imaged(o)),
    }
}

pub open spec fn enrol_refused(m: EnrolImage) -> (EnrolImage, AskView) {
    enrol_leave(m, ImageOutcome::Failed(ENROL_STATUS_ENCLAVE))
}

/// The eighths of the way that a percentage has come, rounded up.
pub open spec fn stage_of(percent: int) -> int {
    (percent * 8 + 99) / 100
}

pub open spec fn progress_of(r: EnrolmentResult) -> ImageOutcome {
    ImageOutcome::Progress {
        stage: stage_of(percent_of(r.progress_raw as int)) as u32,
        percent: percent_of(r.progress_raw as int) as u32,
        complete: r.complete != 0,
        has_template: r.has_template != 0,
    }
}

pub open spec fn enrol_step(m: EnrolImage, e: Event) -> (EnrolImage, AskView) {
    let sensor = Ask::Imaged(ImageOutcome::Failed(ENROL_STATUS_SENSOR));
    match m.stage {
        EnrolStage::Start => if e.worked() {
            (enrol_at(m, EnrolStage::Wait), Ask::AwaitCapture)
        } else {
            (m, sensor)
        },
        EnrolStage::Wait => match e {
            Event::Waited(CaptureWait::Ready(n)) => (
                enrol_at(m, EnrolStage::Read),
                Ask::ReadCapture(n),
            ),
            Event::Waited(CaptureWait::Timeout) => (m, Ask::Imaged(ImageOutcome::NoFinger)),
            _ => (m, sensor),
        },
        EnrolStage::Read => match e {
            Event::Captured(Ok(c)) => (
                EnrolImage { stage: EnrolStage::Prepare, capture: Some(c), ..m },
                Ask::Call(Call::PrepareImage),
            ),
            Event::Captured(Err(CaptureError::Checksum { .. }))
            | Event::Captured(Err(CaptureError::Length(_))) => (
                m,
                Ask::Imaged(ImageOutcome::Retry),
            ),
            _ => (m, sensor),
        },
        EnrolStage::Prepare => if e.accepted() {
            (enrol_at(m, EnrolStage::Clock), Ask::Clock)
        } else {
            enrol_end(m, ImageOutcome::Failed(ENROL_STATUS_ENCLAVE))
        },
        EnrolStage::Clock => match e {
            Event::Time(ns) => (
                enrol_at(m, EnrolStage::Init),
                Ask::Call(
                    Call::ImageInit(
                        ImageInit {
                            purpose: ImagePurpose::Enrolment,
                            first_image: m.counter == 0,
                            last_image: false,
                            capture_counter: m.counter,
                            user: m.user,
                            monotonic_ns: ns,
                        },
                    ),
                ),
            ),
            _ => enrol_refused(m),
        },
        EnrolStage::Init => if e.accepted() && m.capture is Some {
            (
                EnrolImage { stage: EnrolStage::Relay, capture: None, ..m },
                Ask::Relay(m.capture->0),
            )
        } else {
            enrol_refused(m)
        },
        EnrolStage::Relay => match e {
            Event::Relayed(_, c) => if e.relayed() {
                (enrol_at(m, EnrolStage::Wipe), Ask::WipeCapture(c))
            } else {
                enrol_refused(EnrolImage { capture: Some(c), ..m })
            },
            _ => enrol_refused(m),
        },
        EnrolStage::Wipe => (enrol_at(m, EnrolStage::Assess), Ask::Call(Call::Assessment)),
        EnrolStage::Assess => match e.payload() {
            Some(p) => if p.len() < ASSESS_MIN_LEN {
                enrol_refused(m)
            } else if p[ASSESS_USABLE_ENROL as int] == 0 {
                enrol_leave(m, ImageOutcome::Retry)
            } else {
                (enrol_at(m, EnrolStage::Result), Ask::Call(Call::EnrolResult))
            },
            None => enrol_refused(m),
        },
        EnrolStage::Result => match e.payload() {
            Some(p) => if p.len() < SBIO_ENROL_RESULT_LEN {
                enrol_refused(m)
            } else {
                let o = progress_of(enrolment_in(p));
                if enrolment_in(p).complete != 0 {
                    (
                        enrol_at(m, EnrolStage::Keep(o)),
                        Ask::KeepCandidates(candidates(p, m.user@ as int, starts(p.len() as int))),
                    )
                } else {
                    enrol_leave(m, o)
                }
            },
            None => enrol_refused(m),
        },
        EnrolStage::Keep(o) => enrol_leave(m, o),
        EnrolStage::Cleanup(o) => enrol_end(m, o),
        EnrolStage::LateWipe(o) => (m, Ask::Imaged(o)),
    }
}

/// How it begins, and what is asked for first.
pub open spec fn enrol_image_begins(counter: u32, user: UserId) -> (EnrolImage, AskView) {
    (EnrolImage { counter, user, stage: EnrolStage::Start, capture: None }, AskView::StartCapture)
}

impl EnrolImage {
    pub fn start(counter: u32, user: UserId) -> (r: (EnrolImage, Ask))
        ensures
            (r.0, r.1@) == enrol_image_begins(counter, user),
    {
        (EnrolImage { counter, user, stage: EnrolStage::Start, capture: None }, Ask::StartCapture)
    }

    fn leave(&mut self, o: ImageOutcome) -> (ask: Ask)
        ensures
            (*final(self), ask@) == enrol_leave(*old(self), o),
    {
        self.stage = EnrolStage::Cleanup(o);
        Ask::Call(Call::ImageCleanup)
    }

    /// Ends, once the capture is wiped if it is in memory.
    fn end(&mut self, o: ImageOutcome) -> (ask: Ask)
        ensures
            (*final(self), ask@) == enrol_end(*old(self), o),
    {
        match self.capture.take() {
            Some(c) => {
                self.stage = EnrolStage::LateWipe(o);
                Ask::WipeCapture(c)
            },
            None => Ask::Imaged(o),
        }
    }

    fn refused(&mut self) -> (ask: Ask)
        ensures
            (*final(self), ask@) == enrol_refused(*old(self)),
    {
        self.leave(ImageOutcome::Failed(ENROL_STATUS_ENCLAVE))
    }

    fn judged(&mut self, p: &[u8]) -> (ask: Ask)
        requires
            p.len() >= SBIO_ENROL_RESULT_LEN,
        ensures
            (*final(self), ask@) == ({
                let o = progress_of(enrolment_in(p@));
                if enrolment_in(p@).complete != 0 {
                    (
                        enrol_at(*old(self), EnrolStage::Keep(o)),
                        Ask::KeepCandidates(
                            candidates(p@, old(self).user@ as int, starts(p@.len() as int)),
                        ),
                    )
                } else {
                    enrol_leave(*old(self), o)
                }
            }),
    {
        match EnrolmentResult::parse(p) {
            Some(r) => {
                let percent: u32 = r.progress_percent();
                let o = ImageOutcome::Progress {
                    stage: (percent * 8 + 99) / 100,
                    percent,
                    complete: r.complete(),
                    has_template: r.has_template(),
                };
                if r.complete() {
                    self.stage = EnrolStage::Keep(o);
                    Ask::KeepCandidates(enrol_identity_candidates(p, self.user.value()))
                } else {
                    self.leave(o)
                }
            },
            None => self.refused(),
        }
    }

    pub fn step(&mut self, e: Event<'_>) -> (ask: Ask)
        ensures
            (*final(self), ask@) == enrol_step(*old(self), e),
    {
        let sensor = Ask::Imaged(ImageOutcome::Failed(ENROL_STATUS_SENSOR));
        match self.stage {
            EnrolStage::Start => {
                if e.has_worked() {
                    self.stage = EnrolStage::Wait;
                    return Ask::AwaitCapture;
                }
                sensor
            },
            EnrolStage::Wait => match e {
                Event::Waited(CaptureWait::Ready(n)) => {
                    self.stage = EnrolStage::Read;
                    Ask::ReadCapture(n)
                },
                Event::Waited(CaptureWait::Timeout) => Ask::Imaged(ImageOutcome::NoFinger),
                _ => sensor,
            },
            EnrolStage::Read => match e {
                Event::Captured(Ok(c)) => {
                    self.stage = EnrolStage::Prepare;
                    self.capture = Some(c);
                    Ask::Call(Call::PrepareImage)
                },
                Event::Captured(Err(CaptureError::Checksum { .. }))
                | Event::Captured(Err(CaptureError::Length(_))) => Ask::Imaged(
                    ImageOutcome::Retry,
                ),
                _ => sensor,
            },
            EnrolStage::Prepare => {
                if e.is_accepted() {
                    self.stage = EnrolStage::Clock;
                    return Ask::Clock;
                }
                self.end(ImageOutcome::Failed(ENROL_STATUS_ENCLAVE))
            },
            EnrolStage::Clock => match e {
                Event::Time(ns) => {
                    self.stage = EnrolStage::Init;
                    Ask::Call(
                        Call::ImageInit(
                            ImageInit {
                                purpose: ImagePurpose::Enrolment,
                                first_image: self.counter == 0,
                                last_image: false,
                                capture_counter: self.counter,
                                user: self.user,
                                monotonic_ns: ns,
                            },
                        ),
                    )
                },
                _ => self.refused(),
            },
            EnrolStage::Init => {
                if e.is_accepted() {
                    if let Some(c) = self.capture.take() {
                        self.stage = EnrolStage::Relay;
                        return Ask::Relay(c);
                    }
                }
                self.refused()
            },
            EnrolStage::Relay => match e {
                Event::Relayed(status, c) => {
                    if let Some(s) = status {
                        if s.is_ok() {
                            self.stage = EnrolStage::Wipe;
                            return Ask::WipeCapture(c);
                        }
                    }
                    self.capture = Some(c);
                    self.refused()
                },
                _ => self.refused(),
            },
            EnrolStage::Wipe => {
                self.stage = EnrolStage::Assess;
                Ask::Call(Call::Assessment)
            },
            EnrolStage::Assess => match e.bytes() {
                Some(p) => {
                    if p.len() < ASSESS_MIN_LEN {
                        self.refused()
                    } else if p[ASSESS_USABLE_ENROL] == 0 {
                        self.leave(ImageOutcome::Retry)
                    } else {
                        self.stage = EnrolStage::Result;
                        Ask::Call(Call::EnrolResult)
                    }
                },
                None => self.refused(),
            },
            EnrolStage::Result => match e.bytes() {
                Some(p) => {
                    if p.len() < SBIO_ENROL_RESULT_LEN {
                        self.refused()
                    } else {
                        self.judged(p)
                    }
                },
                None => self.refused(),
            },
            EnrolStage::Keep(o) => self.leave(o),
            EnrolStage::Cleanup(o) => self.end(o),
            EnrolStage::LateWipe(o) => Ask::Imaged(o),
        }
    }
}

/// Whether the enclave holds the image at this stage.
pub open spec fn enrol_context_open(stage: EnrolStage) -> bool {
    match stage {
        EnrolStage::Clock
        | EnrolStage::Init
        | EnrolStage::Relay
        | EnrolStage::Wipe
        | EnrolStage::Assess
        | EnrolStage::Result
        | EnrolStage::Keep(_) => true,
        _ => false,
    }
}

/// Whether a capture may be in memory at this stage.
pub open spec fn enrol_holds(stage: EnrolStage) -> bool {
    stage is Prepare || stage is Clock || stage is Init || stage is Cleanup
}

/// An enrolment image is let go of on both sides: while the enclave holds it,
/// the only way out is to have it cleaned up, and while the capture is in
/// memory, the only way out is through handing it on, after which it comes back,
/// or through wiping it.
pub proof fn enrol_image_is_let_go(m: EnrolImage, e: Event)
    ensures
        enrol_context_open(m.stage) ==> !(enrol_step(m, e).1 is Imaged) && (enrol_context_open(
            enrol_step(m, e).0.stage,
        ) || enrol_step(m, e).1 == AskView::Call(Call::ImageCleanup)),
        enrol_holds(m.stage) ==> (m.capture matches Some(c) ==> !(enrol_step(m, e).1 is Imaged) && ((
        enrol_step(m, e).0.capture == Some(c) && enrol_holds(enrol_step(m, e).0.stage)) || enrol_step(m, e).1
            == AskView::WipeCapture(c) || (enrol_step(m, e).1 == AskView::Relay(c) && enrol_step(m, e).0.stage
            is Relay))),
        m.stage is Relay ==> (e matches Event::Relayed(_, c) ==> enrol_step(m, e).1
            == AskView::WipeCapture(c) || (enrol_step(m, e).0.capture == Some(c) && enrol_holds(
            enrol_step(m, e).0.stage,
        ))),
{
}

/// The first image of an enrolment, and no other, is announced as the first;
/// none is announced as the last.
pub proof fn first_image_is_announced(m: EnrolImage, e: Event)
    ensures
        enrol_step(m, e).1 matches Ask::Call(Call::ImageInit(i)) ==> i.first_image == (m.counter
            == 0) && !i.last_image && i.capture_counter == m.counter && i.purpose
            == ImagePurpose::Enrolment,
{
}

/// The stages run from none to all eight as the percentage runs up.
pub proof fn stages_cover_the_way(percent: int)
    requires
        0 <= percent <= 100,
    ensures
        0 <= stage_of(percent) <= 8,
        stage_of(0) == 0,
        stage_of(100) == 8,
        percent > 0 ==> stage_of(percent) >= 1,
{
}

// ---------------------------------------------------------------------------
// The one image of a verification.
// ---------------------------------------------------------------------------
#[derive(Clone, Copy, Debug, PartialEq, Eq, Structural)]
pub enum VerifyStage {
    Start,
    Wait,
    Read,
    Prepare,
    Clock,
    Init,
    Relay,
    Wipe,
    Assess,
    Result,
    Known(Uuid),
    Cleanup(VerifyOutcome),
    LateWipe(VerifyOutcome),
}

/// The image of a verification: captured, handed to the enclave, matched by it.
#[derive(Debug, PartialEq, Eq)]
pub struct VerifyImage {
    pub user: UserId,
    pub stage: VerifyStage,
    /// The capture, while it is in memory.
    pub capture: Option<Capture>,
}

pub open spec fn verify_at(m: VerifyImage, stage: VerifyStage) -> VerifyImage {
    VerifyImage { stage, ..m }
}

pub open spec fn verify_leave(m: VerifyImage, o: VerifyOutcome) -> (VerifyImage, AskView) {
    (verify_at(m, VerifyStage::Cleanup(o)), Ask::Call(Call::ImageCleanup))
}

/// Ends with this outcome, once the capture is wiped if it is in memory.
pub open spec fn verify_end(m: VerifyImage, o: VerifyOutcome) -> (VerifyImage, AskView) {
    match m.capture {
        Some(c) => (
            VerifyImage { stage: VerifyStage::LateWipe(o), capture: None, ..m },
            Ask::WipeCapture(c),
        ),
        None => (m, Ask::Verified(o)),
    }
}

pub open spec fn verify_refused(m: VerifyImage) -> (VerifyImage, AskView) {
    verify_leave(m, VerifyOutcome::Failed(ENROL_STATUS_ENCLAVE))
}

pub open spec fn verify_step(m: VerifyImage, e: Event) -> (VerifyImage, AskView) {
    let sensor = Ask::Verified(VerifyOutcome::Failed(ENROL_STATUS_SENSOR));
    match m.stage {
        VerifyStage::Start => if e.worked() {
            (verify_at(m, VerifyStage::Wait), Ask::AwaitCapture)
        } else {
            (m, sensor)
        },
        VerifyStage::Wait => match e {
            Event::Waited(CaptureWait::Ready(n)) => (
                verify_at(m, VerifyStage::Read),
                Ask::ReadCapture(n),
            ),
            Event::Waited(CaptureWait::Timeout) => (
                m,
                Ask::Verified(VerifyOutcome::Failed(ENROL_STATUS_TIMEOUT)),
            ),
            _ => (m, sensor),
        },
        VerifyStage::Read => match e {
            Event::Captured(Ok(c)) => (
                VerifyImage { stage: VerifyStage::Prepare, capture: Some(c), ..m },
                Ask::Call(Call::PrepareImage),
            ),
            Event::Captured(Err(CaptureError::Checksum { .. }))
            | Event::Captured(Err(CaptureError::Length(_))) => (
                m,
                Ask::Verified(VerifyOutcome::Failed(ENROL_STATUS_RETRY)),
            ),
            _ => (m, sensor),
        },
        VerifyStage::Prepare => if e.accepted() {
            (verify_at(m, VerifyStage::Clock), Ask::Clock)
        } else {
            verify_end(m, VerifyOutcome::Failed(ENROL_STATUS_ENCLAVE))
        },
        VerifyStage::Clock => match e {
            Event::Time(ns) => (
                verify_at(m, VerifyStage::Init),
                Ask::Call(
                    Call::ImageInit(
                        ImageInit {
                            purpose: ImagePurpose::Matching,
                            first_image: true,
                            last_image: true,
                            capture_counter: 0,
                            user: m.user,
                            monotonic_ns: ns,
                        },
                    ),
                ),
            ),
            _ => verify_refused(m),
        },
        VerifyStage::Init => if e.accepted() && m.capture is Some {
            (
                VerifyImage { stage: VerifyStage::Relay, capture: None, ..m },
                Ask::Relay(m.capture->0),
            )
        } else {
            verify_refused(m)
        },
        VerifyStage::Relay => match e {
            Event::Relayed(_, c) => if e.relayed() {
                (verify_at(m, VerifyStage::Wipe), Ask::WipeCapture(c))
            } else {
                verify_refused(VerifyImage { capture: Some(c), ..m })
            },
            _ => verify_refused(m),
        },
        VerifyStage::Wipe => (verify_at(m, VerifyStage::Assess), Ask::Call(Call::Assessment)),
        VerifyStage::Assess => match e.payload() {
            Some(p) => if p.len() <= ASSESS_USABLE_MATCH {
                verify_refused(m)
            } else if p[ASSESS_USABLE_MATCH as int] == 0 {
                verify_leave(m, VerifyOutcome::Failed(ENROL_STATUS_RETRY))
            } else {
                (verify_at(m, VerifyStage::Result), Ask::Call(Call::MatchResult))
            },
            None => verify_refused(m),
        },
        VerifyStage::Result => match e.payload() {
            Some(p) => if p.len() < SBIO_MATCH_RESULT_LEN {
                verify_refused(m)
            } else if match_in(p).user_id != m.user@ {
                verify_leave(m, VerifyOutcome::NoMatch)
            } else {
                (
                    verify_at(m, VerifyStage::Known(match_in(p).identity)),
                    Ask::IsKnown(match_in(p).identity),
                )
            },
            None => verify_refused(m),
        },
        VerifyStage::Known(identity) => if e.worked() {
            verify_leave(m, VerifyOutcome::Matched(MatchEvidence { identity }))
        } else {
            verify_refused(m)
        },
        VerifyStage::Cleanup(o) => verify_end(m, o),
        VerifyStage::LateWipe(o) => (m, Ask::Verified(o)),
    }
}

/// How it begins, and what is asked for first.
pub open spec fn verify_image_begins(user: UserId) -> (VerifyImage, AskView) {
    (VerifyImage { user, stage: VerifyStage::Start, capture: None }, AskView::StartCapture)
}

impl VerifyImage {
    pub fn start(user: UserId) -> (r: (VerifyImage, Ask))
        ensures
            (r.0, r.1@) == verify_image_begins(user),
    {
        (VerifyImage { user, stage: VerifyStage::Start, capture: None }, Ask::StartCapture)
    }

    fn leave(&mut self, o: VerifyOutcome) -> (ask: Ask)
        ensures
            (*final(self), ask@) == verify_leave(*old(self), o),
    {
        self.stage = VerifyStage::Cleanup(o);
        Ask::Call(Call::ImageCleanup)
    }

    /// Ends, once the capture is wiped if it is in memory.
    fn end(&mut self, o: VerifyOutcome) -> (ask: Ask)
        ensures
            (*final(self), ask@) == verify_end(*old(self), o),
    {
        match self.capture.take() {
            Some(c) => {
                self.stage = VerifyStage::LateWipe(o);
                Ask::WipeCapture(c)
            },
            None => Ask::Verified(o),
        }
    }

    fn refused(&mut self) -> (ask: Ask)
        ensures
            (*final(self), ask@) == verify_refused(*old(self)),
    {
        self.leave(VerifyOutcome::Failed(ENROL_STATUS_ENCLAVE))
    }

    pub fn step(&mut self, e: Event<'_>) -> (ask: Ask)
        ensures
            (*final(self), ask@) == verify_step(*old(self), e),
    {
        let sensor = Ask::Verified(VerifyOutcome::Failed(ENROL_STATUS_SENSOR));
        match self.stage {
            VerifyStage::Start => {
                if e.has_worked() {
                    self.stage = VerifyStage::Wait;
                    return Ask::AwaitCapture;
                }
                sensor
            },
            VerifyStage::Wait => match e {
                Event::Waited(CaptureWait::Ready(n)) => {
                    self.stage = VerifyStage::Read;
                    Ask::ReadCapture(n)
                },
                Event::Waited(CaptureWait::Timeout) => Ask::Verified(
                    VerifyOutcome::Failed(ENROL_STATUS_TIMEOUT),
                ),
                _ => sensor,
            },
            VerifyStage::Read => match e {
                Event::Captured(Ok(c)) => {
                    self.stage = VerifyStage::Prepare;
                    self.capture = Some(c);
                    Ask::Call(Call::PrepareImage)
                },
                Event::Captured(Err(CaptureError::Checksum { .. }))
                | Event::Captured(Err(CaptureError::Length(_))) => Ask::Verified(
                    VerifyOutcome::Failed(ENROL_STATUS_RETRY),
                ),
                _ => sensor,
            },
            VerifyStage::Prepare => {
                if e.is_accepted() {
                    self.stage = VerifyStage::Clock;
                    return Ask::Clock;
                }
                self.end(VerifyOutcome::Failed(ENROL_STATUS_ENCLAVE))
            },
            VerifyStage::Clock => match e {
                Event::Time(ns) => {
                    self.stage = VerifyStage::Init;
                    Ask::Call(
                        Call::ImageInit(
                            ImageInit {
                                purpose: ImagePurpose::Matching,
                                first_image: true,
                                last_image: true,
                                capture_counter: 0,
                                user: self.user,
                                monotonic_ns: ns,
                            },
                        ),
                    )
                },
                _ => self.refused(),
            },
            VerifyStage::Init => {
                if e.is_accepted() {
                    if let Some(c) = self.capture.take() {
                        self.stage = VerifyStage::Relay;
                        return Ask::Relay(c);
                    }
                }
                self.refused()
            },
            VerifyStage::Relay => match e {
                Event::Relayed(status, c) => {
                    if let Some(s) = status {
                        if s.is_ok() {
                            self.stage = VerifyStage::Wipe;
                            return Ask::WipeCapture(c);
                        }
                    }
                    self.capture = Some(c);
                    self.refused()
                },
                _ => self.refused(),
            },
            VerifyStage::Wipe => {
                self.stage = VerifyStage::Assess;
                Ask::Call(Call::Assessment)
            },
            VerifyStage::Assess => match e.bytes() {
                Some(p) => {
                    if p.len() <= ASSESS_USABLE_MATCH {
                        self.refused()
                    } else if p[ASSESS_USABLE_MATCH] == 0 {
                        self.leave(VerifyOutcome::Failed(ENROL_STATUS_RETRY))
                    } else {
                        self.stage = VerifyStage::Result;
                        Ask::Call(Call::MatchResult)
                    }
                },
                None => self.refused(),
            },
            VerifyStage::Result => match e.bytes() {
                Some(p) => match MatchResult::parse(p) {
                    Some(r) => {
                        if !r.matches(self.user) {
                            return self.leave(VerifyOutcome::NoMatch);
                        }
                        let identity = r.identity_uuid();
                        self.stage = VerifyStage::Known(identity);
                        Ask::IsKnown(identity)
                    },
                    None => self.refused(),
                },
                None => self.refused(),
            },
            VerifyStage::Known(identity) => {
                if e.has_worked() {
                    return self.leave(VerifyOutcome::Matched(MatchEvidence::from_enclave_reply(identity)));
                }
                self.refused()
            },
            VerifyStage::Cleanup(o) => self.end(o),
            VerifyStage::LateWipe(o) => Ask::Verified(o),
        }
    }
}

pub open spec fn verify_context_open(stage: VerifyStage) -> bool {
    match stage {
        VerifyStage::Clock
        | VerifyStage::Init
        | VerifyStage::Relay
        | VerifyStage::Wipe
        | VerifyStage::Assess
        | VerifyStage::Result
        | VerifyStage::Known(_) => true,
        _ => false,
    }
}

/// Whether a capture may be in memory at this stage.
pub open spec fn verify_holds(stage: VerifyStage) -> bool {
    stage is Prepare || stage is Clock || stage is Init || stage is Cleanup
}

/// The image of a verification is let go of on both sides, like that of an
/// enrolment.
pub proof fn verify_image_is_let_go(m: VerifyImage, e: Event)
    ensures
        verify_context_open(m.stage) ==> !(verify_step(m, e).1 is Verified) && (verify_context_open(
            verify_step(m, e).0.stage,
        ) || verify_step(m, e).1 == AskView::Call(Call::ImageCleanup)),
        verify_holds(m.stage) ==> (m.capture matches Some(c) ==> !(verify_step(m, e).1 is Verified) && ((
        verify_step(m, e).0.capture == Some(c) && verify_holds(verify_step(m, e).0.stage)) || verify_step(m, e).1
            == AskView::WipeCapture(c) || (verify_step(m, e).1 == AskView::Relay(c) && verify_step(m, e).0.stage
            is Relay))),
        m.stage is Relay ==> (e matches Event::Relayed(_, c) ==> verify_step(m, e).1
            == AskView::WipeCapture(c) || (verify_step(m, e).0.capture == Some(c) && verify_holds(
            verify_step(m, e).0.stage,
        ))),
{
}

/// Whether a stage carries a match as its outcome.
pub open spec fn carries_match(stage: VerifyStage) -> Option<Uuid> {
    match stage {
        VerifyStage::Cleanup(VerifyOutcome::Matched(ev)) => Some(ev.identity),
        VerifyStage::LateWipe(VerifyOutcome::Matched(ev)) => Some(ev.identity),
        _ => None,
    }
}

/// There is a match only with an identity that the enclave named for the user
/// and that the index has: the step that settles on a match is told that the
/// index has it, and came from a result of that user with that identity.
pub proof fn match_needs_known_identity(m: VerifyImage, e: Event)
    requires
        carries_match(m.stage) is None,
    ensures
        carries_match(verify_step(m, e).0.stage) matches Some(u) ==> m.stage == VerifyStage::Known(
            u,
        ) && e.worked(),
        verify_step(m, e).0.stage matches VerifyStage::Known(u) ==> (m.stage != VerifyStage::Known(
            u,
        ) ==> m.stage == VerifyStage::Result && e.payload() is Some && match_in(
            e.payload()->0,
        ).user_id == m.user@ && match_in(e.payload()->0).identity == u),
        !(verify_step(m, e).1 matches Ask::Verified(VerifyOutcome::Matched(_))),
{
}

// ---------------------------------------------------------------------------
// An enrolment.
// ---------------------------------------------------------------------------
#[derive(Clone, Copy, Debug, PartialEq, Eq, Structural)]
pub enum RunStage {
    Online,
    Begin,
    Live,
    Image,
    /// The session was told of an image that completed nothing.
    Advanced,
    /// The session was told of the image that completed the enrolment, which
    /// has a template, or has not.
    Completed(bool),
    PaceIdle,
    PaceWait,
    PaceSleep,
    Save,
    Resnapshot,
    Identify,
    Reconcile,
    Idle,
    PowerOff,
    NoteEnd,
    Finish,
    /// The sensor or the enclave was not to be had; the sensor goes idle.
    FailedEarly,
    Cancel,
}

/// How the loop over the images ended.
#[derive(Clone, Copy, Debug, PartialEq, Eq, Structural)]
pub enum LoopEnd {
    /// The program lost interest.
    Unwanted,
    Failed(u32),
    Completed,
}

/// An enrolment from start to end.
#[derive(Clone, Copy, Debug, PartialEq, Eq, Structural)]
pub struct RunEnrolment {
    pub stage: RunStage,
    pub counter: u32,
    pub end: LoopEnd,
    pub identity: Option<Uuid>,
    /// Whether the templates count as restored, since they are saved.
    pub restored: bool,
}

pub open spec fn run_at(m: RunEnrolment, stage: RunStage) -> RunEnrolment {
    RunEnrolment { stage, ..m }
}

/// Leaves the loop.
pub open spec fn loop_over(m: RunEnrolment, end: LoopEnd) -> (RunEnrolment, AskView) {
    if end == LoopEnd::Completed {
        (RunEnrolment { stage: RunStage::Save, end, ..m }, Ask::SaveAll)
    } else {
        (RunEnrolment { stage: RunStage::Idle, end, ..m }, Ask::IdleSensor)
    }
}

/// What the session is told in the end, if anything.
pub open spec fn filing(m: RunEnrolment) -> Option<Filing> {
    match m.end {
        LoopEnd::Unwanted => None,
        LoopEnd::Failed(status) => Some(Filing::Failed(status)),
        LoopEnd::Completed => match m.identity {
            Some(uuid) => Some(Filing::Done(uuid)),
            None => Some(Filing::Failed(ENROL_STATUS_UNFILED)),
        },
    }
}

/// What is left once the session was told: what was begun and not completed is
/// cancelled.
pub open spec fn told_all(m: RunEnrolment) -> (RunEnrolment, AskView) {
    if m.end == LoopEnd::Completed {
        (run_at(m, RunStage::Cancel), Ask::End)
    } else {
        (run_at(m, RunStage::Cancel), Ask::Call(Call::Cancel))
    }
}

pub open spec fn run_step(m: RunEnrolment, e: Event) -> (RunEnrolment, AskView) {
    match m.stage {
        RunStage::Online => if e.worked() {
            (run_at(m, RunStage::Begin), Ask::BeginEnrolment)
        } else {
            (
                run_at(m, RunStage::FailedEarly),
                Ask::FinishEnrolment(Filing::Failed(ENROL_STATUS_SENSOR)),
            )
        },
        RunStage::Begin => if e.worked() {
            (run_at(m, RunStage::Live), Ask::CheckLive)
        } else {
            (
                run_at(m, RunStage::FailedEarly),
                Ask::FinishEnrolment(Filing::Failed(ENROL_STATUS_ENCLAVE)),
            )
        },
        RunStage::Live => if !e.worked() {
            loop_over(m, LoopEnd::Unwanted)
        } else if m.counter >= ENROL_MAX_CAPTURES {
            loop_over(m, LoopEnd::Failed(ENROL_STATUS_TOO_MANY))
        } else {
            (run_at(m, RunStage::Image), Ask::EnrolImage(m.counter))
        },
        RunStage::Image => match e {
            Event::Imaged(ImageOutcome::Progress { stage, percent, complete, has_template }) => (
                RunEnrolment {
                    counter: (m.counter + 1) as u32,
                    stage: if complete {
                        RunStage::Completed(has_template)
                    } else {
                        RunStage::Advanced
                    },
                    ..m
                },
                Ask::Advance { stage, percent },
            ),
            Event::Imaged(ImageOutcome::Retry) => (
                RunEnrolment { counter: (m.counter + 1) as u32, stage: RunStage::PaceIdle, ..m },
                Ask::IdleSensor,
            ),
            Event::Imaged(ImageOutcome::NoFinger) => loop_over(
                m,
                LoopEnd::Failed(ENROL_STATUS_TIMEOUT),
            ),
            Event::Imaged(ImageOutcome::Failed(status)) => loop_over(m, LoopEnd::Failed(status)),
            _ => loop_over(m, LoopEnd::Failed(ENROL_STATUS_SENSOR)),
        },
        RunStage::Advanced => (run_at(m, RunStage::PaceIdle), Ask::IdleSensor),
        RunStage::Completed(has_template) => if has_template {
            loop_over(m, LoopEnd::Completed)
        } else {
            loop_over(m, LoopEnd::Failed(ENROL_STATUS_ENCLAVE))
        },
        RunStage::PaceIdle => (run_at(m, RunStage::PaceWait), Ask::AwaitIdle),
        RunStage::PaceWait => (run_at(m, RunStage::PaceSleep), Ask::Sleep(ENROL_REPOSITION_MS)),
        RunStage::PaceSleep => (run_at(m, RunStage::Live), Ask::CheckLive),
        RunStage::Save => if e.worked() {
            (
                RunEnrolment { stage: RunStage::Resnapshot, restored: true, ..m },
                Ask::ResnapshotKeybag,
            )
        } else {
            (run_at(m, RunStage::Identify), Ask::IdentifyEnrolled)
        },
        RunStage::Resnapshot => (run_at(m, RunStage::Identify), Ask::IdentifyEnrolled),
        RunStage::Identify => (
            RunEnrolment {
                stage: RunStage::Reconcile,
                identity: match e {
                    Event::Identity(u) => u,
                    _ => None,
                },
                ..m
            },
            Ask::ReconcileIdentities,
        ),
        RunStage::Reconcile => (run_at(m, RunStage::Idle), Ask::IdleSensor),
        RunStage::Idle => (run_at(m, RunStage::PowerOff), Ask::PowerOff),
        RunStage::PowerOff => (run_at(m, RunStage::NoteEnd), Ask::NoteCaptureEnd),
        RunStage::NoteEnd => match filing(m) {
            Some(f) => (run_at(m, RunStage::Finish), Ask::FinishEnrolment(f)),
            None => told_all(m),
        },
        RunStage::Finish => told_all(m),
        RunStage::FailedEarly => (run_at(m, RunStage::Cancel), Ask::IdleSensor),
        RunStage::Cancel => (m, Ask::End),
    }
}

/// How it begins, and what is asked for first.
pub open spec fn run_enrolment_begins(restored: bool) -> (RunEnrolment, AskView) {
    (
        RunEnrolment {
            stage: RunStage::Online,
            counter: 0,
            end: LoopEnd::Unwanted,
            identity: None,
            restored,
        },
        AskView::BringOnline,
    )
}

impl RunEnrolment {
    /// There are never more images than allowed.
    pub open spec fn wf(self) -> bool {
        &&& self.counter <= ENROL_MAX_CAPTURES
        &&& self.stage == RunStage::Image ==> self.counter < ENROL_MAX_CAPTURES
    }

    pub fn start(restored: bool) -> (r: (RunEnrolment, Ask))
        ensures
            (r.0, r.1@) == run_enrolment_begins(restored),
            r.0.wf(),
    {
        (
            RunEnrolment {
                stage: RunStage::Online,
                counter: 0,
                end: LoopEnd::Unwanted,
                identity: None,
                restored,
            },
            Ask::BringOnline,
        )
    }

    fn over(&mut self, end: LoopEnd) -> (ask: Ask)
        ensures
            (*final(self), ask@) == loop_over(*old(self), end),
    {
        self.end = end;
        if end == LoopEnd::Completed {
            self.stage = RunStage::Save;
            Ask::SaveAll
        } else {
            self.stage = RunStage::Idle;
            Ask::IdleSensor
        }
    }

    fn told(&mut self) -> (ask: Ask)
        ensures
            (*final(self), ask@) == told_all(*old(self)),
    {
        self.stage = RunStage::Cancel;
        if self.end == LoopEnd::Completed {
            Ask::End
        } else {
            Ask::Call(Call::Cancel)
        }
    }

    fn imaged(&mut self, o: ImageOutcome) -> (ask: Ask)
        requires
            old(self).counter < ENROL_MAX_CAPTURES,
            old(self).stage == RunStage::Image,
        ensures
            final(self).wf(),
            (*final(self), ask@) == run_step(*old(self), Event::Imaged(o)),
    {
        match o {
            ImageOutcome::Progress { stage, percent, complete, has_template } => {
                self.counter = self.counter + 1;
                self.stage = if complete {
                    RunStage::Completed(has_template)
                } else {
                    RunStage::Advanced
                };
                Ask::Advance { stage, percent }
            },
            ImageOutcome::Retry => {
                self.counter = self.counter + 1;
                self.stage = RunStage::PaceIdle;
                Ask::IdleSensor
            },
            ImageOutcome::NoFinger => self.over(LoopEnd::Failed(ENROL_STATUS_TIMEOUT)),
            ImageOutcome::Failed(status) => self.over(LoopEnd::Failed(status)),
        }
    }

    pub fn step(&mut self, e: Event<'_>) -> (ask: Ask)
        requires
            old(self).wf(),
        ensures
            final(self).wf(),
            (*final(self), ask@) == run_step(*old(self), e),
    {
        match self.stage {
            RunStage::Online => {
                if e.has_worked() {
                    self.stage = RunStage::Begin;
                    return Ask::BeginEnrolment;
                }
                self.stage = RunStage::FailedEarly;
                Ask::FinishEnrolment(Filing::Failed(ENROL_STATUS_SENSOR))
            },
            RunStage::Begin => {
                if e.has_worked() {
                    self.stage = RunStage::Live;
                    return Ask::CheckLive;
                }
                self.stage = RunStage::FailedEarly;
                Ask::FinishEnrolment(Filing::Failed(ENROL_STATUS_ENCLAVE))
            },
            RunStage::Live => {
                if !e.has_worked() {
                    return self.over(LoopEnd::Unwanted);
                }
                if self.counter >= ENROL_MAX_CAPTURES {
                    return self.over(LoopEnd::Failed(ENROL_STATUS_TOO_MANY));
                }
                self.stage = RunStage::Image;
                Ask::EnrolImage(self.counter)
            },
            RunStage::Image => match e {
                Event::Imaged(o) => self.imaged(o),
                _ => self.over(LoopEnd::Failed(ENROL_STATUS_SENSOR)),
            },
            RunStage::Advanced => {
                self.stage = RunStage::PaceIdle;
                Ask::IdleSensor
            },
            RunStage::Completed(has_template) => {
                if has_template {
                    self.over(LoopEnd::Completed)
                } else {
                    self.over(LoopEnd::Failed(ENROL_STATUS_ENCLAVE))
                }
            },
            RunStage::PaceIdle => {
                self.stage = RunStage::PaceWait;
                Ask::AwaitIdle
            },
            RunStage::PaceWait => {
                self.stage = RunStage::PaceSleep;
                Ask::Sleep(ENROL_REPOSITION_MS)
            },
            RunStage::PaceSleep => {
                self.stage = RunStage::Live;
                Ask::CheckLive
            },
            RunStage::Save => {
                if e.has_worked() {
                    self.stage = RunStage::Resnapshot;
                    self.restored = true;
                    return Ask::ResnapshotKeybag;
                }
                self.stage = RunStage::Identify;
                Ask::IdentifyEnrolled
            },
            RunStage::Resnapshot => {
                self.stage = RunStage::Identify;
                Ask::IdentifyEnrolled
            },
            RunStage::Identify => {
                self.identity =
                match e {
                    Event::Identity(u) => u,
                    _ => None,
                };
                self.stage = RunStage::Reconcile;
                Ask::ReconcileIdentities
            },
            RunStage::Reconcile => {
                self.stage = RunStage::Idle;
                Ask::IdleSensor
            },
            RunStage::Idle => {
                self.stage = RunStage::PowerOff;
                Ask::PowerOff
            },
            RunStage::PowerOff => {
                self.stage = RunStage::NoteEnd;
                Ask::NoteCaptureEnd
            },
            RunStage::NoteEnd => match self.end {
                LoopEnd::Unwanted => self.told(),
                LoopEnd::Failed(status) => {
                    self.stage = RunStage::Finish;
                    Ask::FinishEnrolment(Filing::Failed(status))
                },
                LoopEnd::Completed => {
                    self.stage = RunStage::Finish;
                    match self.identity {
                        Some(uuid) => Ask::FinishEnrolment(Filing::Done(uuid)),
                        None => Ask::FinishEnrolment(Filing::Failed(ENROL_STATUS_UNFILED)),
                    }
                },
            },
            RunStage::Finish => self.told(),
            RunStage::FailedEarly => {
                self.stage = RunStage::Cancel;
                Ask::IdleSensor
            },
            RunStage::Cancel => Ask::End,
        }
    }
}

/// The session is told of success only of an enrolment that the enclave
/// completed with a template.
pub proof fn success_needs_completion(m: RunEnrolment, e: Event)
    ensures
        run_step(m, e).1 matches Ask::FinishEnrolment(Filing::Done(_)) ==> m.end
            == LoopEnd::Completed,
        run_step(m, e).0.end == LoopEnd::Completed && m.end != LoopEnd::Completed ==> m.stage
            == RunStage::Completed(true),
        run_step(m, e).0.stage == RunStage::Completed(true) && m.stage != RunStage::Completed(true)
            ==> (e matches Event::Imaged(
            ImageOutcome::Progress { complete, has_template, .. },
        ) && complete && has_template),
{
}

/// What was begun and not completed is cancelled, and what was completed is
/// not.
pub proof fn unfinished_is_cancelled(m: RunEnrolment, e: Event)
    ensures
        m.stage == RunStage::Finish || (m.stage == RunStage::NoteEnd && filing(m) is None) ==> (
        run_step(m, e).1 == AskView::Call(Call::Cancel)) == (m.end != LoopEnd::Completed),
        run_step(m, e).1 == AskView::End ==> m.stage == RunStage::Cancel || (m.stage
            == RunStage::Finish && m.end == LoopEnd::Completed),
        run_step(m, e).1 == AskView::Call(Call::Cancel) ==> m.end != LoopEnd::Completed,
{
}

/// No more images are taken than allowed.
pub proof fn images_are_bounded(m: RunEnrolment, e: Event)
    requires
        m.wf(),
    ensures
        run_step(m, e).0.wf(),
        run_step(m, e).1 matches Ask::EnrolImage(n) ==> n < ENROL_MAX_CAPTURES,
{
}

// ---------------------------------------------------------------------------
// A verification.
// ---------------------------------------------------------------------------
#[derive(Clone, Copy, Debug, PartialEq, Eq, Structural)]
pub enum RunVerifyStage {
    Token,
    /// Waiting for the time, to see whether the sensor has to rest.
    Settle,
    /// The sensor is sent to idle, to rest for so many milliseconds.
    Calm(u32),
    Rest,
    Online,
    Image,
    Idle(VerifyOutcome),
    PowerOff(VerifyOutcome),
    NoteEnd(VerifyOutcome),
    Save(VerifyOutcome),
    FailedEarly,
    Over,
}

/// A verification from start to end.
#[derive(Clone, Copy, Debug, PartialEq, Eq)]
pub struct RunVerify {
    pub stage: RunVerifyStage,
    /// The token, once it is made.
    pub token: Option<[u8; 32]>,
    /// When the sensor was last used, as time since boot; zero if never.
    pub last_ns: u64,
}

pub open spec fn verify_run_at(m: RunVerify, stage: RunVerifyStage) -> RunVerify {
    RunVerify { stage, ..m }
}

/// Files the outcome with the token that was made, if one was.
pub open spec fn verify_over(m: RunVerify, outcome: VerifyOutcome) -> (RunVerify, AskView) {
    (
        verify_run_at(m, RunVerifyStage::Over),
        Ask::FinishVerify { outcome, token: m.token },
    )
}

pub open spec fn enclave_failed() -> VerifyOutcome {
    VerifyOutcome::Failed(ENROL_STATUS_ENCLAVE)
}

pub open spec fn definitive(o: VerifyOutcome) -> bool {
    o is Matched || o is NoMatch
}

pub open spec fn run_verify_start(restored: bool, last_ns: u64) -> (RunVerify, AskView) {
    let m = RunVerify { stage: RunVerifyStage::Token, token: None, last_ns };
    if restored {
        (m, Ask::MintToken)
    } else {
        verify_over(m, enclave_failed())
    }
}

pub open spec fn run_verify_step(m: RunVerify, e: Event) -> (RunVerify, AskView) {
    match m.stage {
        RunVerifyStage::Token => match e {
            Event::Token(Some(t)) => (
                RunVerify { stage: RunVerifyStage::Settle, token: Some(t), ..m },
                Ask::BootClock,
            ),
            _ => verify_over(m, enclave_failed()),
        },
        RunVerifyStage::Settle => match e {
            Event::Time(now_ns) => match rest_of(m.last_ns, now_ns) {
                Some(ms) => (verify_run_at(m, RunVerifyStage::Calm(ms)), Ask::IdleSensor),
                None => (verify_run_at(m, RunVerifyStage::Online), Ask::BringOnline),
            },
            _ => (verify_run_at(m, RunVerifyStage::Online), Ask::BringOnline),
        },
        RunVerifyStage::Calm(ms) => (verify_run_at(m, RunVerifyStage::Rest), Ask::Sleep(ms)),
        RunVerifyStage::Rest => (verify_run_at(m, RunVerifyStage::Online), Ask::BringOnline),
        RunVerifyStage::Online => if e.worked() {
            (verify_run_at(m, RunVerifyStage::Image), Ask::VerifyImage)
        } else {
            (
                verify_run_at(m, RunVerifyStage::FailedEarly),
                Ask::FinishVerify {
                    outcome: VerifyOutcome::Failed(ENROL_STATUS_SENSOR),
                    token: m.token,
                },
            )
        },
        RunVerifyStage::Image => {
            let o = match e {
                Event::Verified(o) => o,
                _ => enclave_failed(),
            };
            (verify_run_at(m, RunVerifyStage::Idle(o)), Ask::IdleSensor)
        },
        RunVerifyStage::Idle(o) => (verify_run_at(m, RunVerifyStage::PowerOff(o)), Ask::PowerOff),
        RunVerifyStage::PowerOff(o) => (
            verify_run_at(m, RunVerifyStage::NoteEnd(o)),
            Ask::NoteCaptureEnd,
        ),
        RunVerifyStage::NoteEnd(o) => if definitive(o) {
            (verify_run_at(m, RunVerifyStage::Save(o)), Ask::SaveAfterMatch)
        } else {
            verify_over(m, o)
        },
        RunVerifyStage::Save(o) => if e.worked() {
            verify_over(m, o)
        } else {
            verify_over(m, enclave_failed())
        },
        RunVerifyStage::FailedEarly => (verify_run_at(m, RunVerifyStage::Over), Ask::IdleSensor),
        RunVerifyStage::Over => (m, Ask::End),
    }
}

impl RunVerify {
    /// Starts, given whether the enclave has its templates and when the sensor
    /// was last used.
    pub fn start(restored: bool, last_ns: u64) -> (r: (RunVerify, Ask))
        ensures
            (r.0, r.1@) == run_verify_start(restored, last_ns),
    {
        if restored {
            (RunVerify { stage: RunVerifyStage::Token, token: None, last_ns }, Ask::MintToken)
        } else {
            (
                RunVerify { stage: RunVerifyStage::Over, token: None, last_ns },
                Ask::FinishVerify {
                    outcome: VerifyOutcome::Failed(ENROL_STATUS_ENCLAVE),
                    token: None,
                },
            )
        }
    }

    fn over(&mut self, outcome: VerifyOutcome) -> (ask: Ask)
        ensures
            (*final(self), ask@) == verify_over(*old(self), outcome),
    {
        self.stage = RunVerifyStage::Over;
        Ask::FinishVerify { outcome, token: self.token }
    }

    pub fn step(&mut self, e: Event<'_>) -> (ask: Ask)
        ensures
            (*final(self), ask@) == run_verify_step(*old(self), e),
    {
        match self.stage {
            RunVerifyStage::Token => {
                if let Event::Token(Some(t)) = e {
                    self.stage = RunVerifyStage::Settle;
                    self.token = Some(t);
                    return Ask::BootClock;
                }
                self.over(VerifyOutcome::Failed(ENROL_STATUS_ENCLAVE))
            },
            RunVerifyStage::Settle => {
                if let Event::Time(now_ns) = e {
                    if let Some(ms) = settle_before_capture(self.last_ns, now_ns) {
                        self.stage = RunVerifyStage::Calm(ms);
                        return Ask::IdleSensor;
                    }
                }
                self.stage = RunVerifyStage::Online;
                Ask::BringOnline
            },
            RunVerifyStage::Calm(ms) => {
                self.stage = RunVerifyStage::Rest;
                Ask::Sleep(ms)
            },
            RunVerifyStage::Rest => {
                self.stage = RunVerifyStage::Online;
                Ask::BringOnline
            },
            RunVerifyStage::Online => {
                if e.has_worked() {
                    self.stage = RunVerifyStage::Image;
                    return Ask::VerifyImage;
                }
                self.stage = RunVerifyStage::FailedEarly;
                Ask::FinishVerify {
                    outcome: VerifyOutcome::Failed(ENROL_STATUS_SENSOR),
                    token: self.token,
                }
            },
            RunVerifyStage::Image => {
                let o = match e {
                    Event::Verified(o) => o,
                    _ => VerifyOutcome::Failed(ENROL_STATUS_ENCLAVE),
                };
                self.stage = RunVerifyStage::Idle(o);
                Ask::IdleSensor
            },
            RunVerifyStage::Idle(o) => {
                self.stage = RunVerifyStage::PowerOff(o);
                Ask::PowerOff
            },
            RunVerifyStage::PowerOff(o) => {
                self.stage = RunVerifyStage::NoteEnd(o);
                Ask::NoteCaptureEnd
            },
            RunVerifyStage::NoteEnd(o) => {
                let definitive = match o {
                    VerifyOutcome::Failed(_) => false,
                    _ => true,
                };
                if definitive {
                    self.stage = RunVerifyStage::Save(o);
                    return Ask::SaveAfterMatch;
                }
                self.over(o)
            },
            RunVerifyStage::Save(o) => {
                if e.has_worked() {
                    return self.over(o);
                }
                self.over(VerifyOutcome::Failed(ENROL_STATUS_ENCLAVE))
            },
            RunVerifyStage::FailedEarly => {
                self.stage = RunVerifyStage::Over;
                Ask::IdleSensor
            },
            RunVerifyStage::Over => Ask::End,
        }
    }
}

/// A verification is filed as decided only after what the match changed was
/// saved, and never without templates to match against.
pub proof fn decided_only_when_saved(m: RunVerify, e: Event, restored: bool, last_ns: u64)
    ensures
        run_verify_step(m, e).1 matches Ask::FinishVerify { outcome, token } ==> (definitive(
            outcome,
        ) ==> token == m.token && m.stage == RunVerifyStage::Save(outcome) && e.worked()),
        run_verify_start(restored, last_ns).1 matches Ask::FinishVerify { outcome, .. } ==> !definitive(
            outcome,
        ) && !restored,
{
}

/// The token with which an outcome is filed is the one that was made: no step
/// but the one that is told of it changes it, and it is filed as it is.
pub proof fn token_is_the_one_made(m: RunVerify, e: Event)
    ensures
        m.stage is Token ==> (e matches Event::Token(Some(t)) ==> run_verify_step(m, e).0.token
            == Some(t)),
        !(m.stage is Token) ==> run_verify_step(m, e).0.token == m.token,
        run_verify_step(m, e).1 matches Ask::FinishVerify { token, .. } ==> token == m.token,
{
}

/// A sensor that was used a moment ago is sent to idle and rests for what is left
/// of its time before it is brought up again; another is brought up at once.
pub proof fn sensor_rests_between_uses(m: RunVerify, now_ns: u64, idled: Event, slept: Event)
    requires
        m.stage is Settle,
    ensures
        ({
            let (a, first) = run_verify_step(m, Event::Time(now_ns));
            let (b, second) = run_verify_step(a, idled);
            let (c, third) = run_verify_step(b, slept);
            match rest_of(m.last_ns, now_ns) {
                Some(ms) => first == AskView::IdleSensor && second == AskView::Sleep(ms) && third
                    == AskView::BringOnline,
                None => first == AskView::BringOnline,
            }
        }),
{
}

/// How much longer the sensor has to rest before it is used again, given when
/// it was last used, in nanoseconds. A sensor that never was needs no rest.
pub open spec fn rest_of(last_ns: u64, now_ns: u64) -> Option<u32> {
    let elapsed_ms = (if now_ns > last_ns {
        now_ns - last_ns
    } else {
        0
    }) / 1_000_000;
    if last_ns == 0 || elapsed_ms >= MATCH_SETTLE_MS {
        None
    } else {
        Some((MATCH_SETTLE_MS - elapsed_ms) as u32)
    }
}

pub fn settle_before_capture(last_ns: u64, now_ns: u64) -> (r: Option<u32>)
    ensures
        r == rest_of(last_ns, now_ns),
{
    if last_ns == 0 {
        return None;
    }
    let elapsed_ms: u64 = now_ns.saturating_sub(last_ns) / 1_000_000;
    if elapsed_ms >= MATCH_SETTLE_MS as u64 {
        return None;
    }
    Some(MATCH_SETTLE_MS - elapsed_ms as u32)
}

/// The machine after the first `n` of these events.
pub open spec fn enrol_run(m: EnrolImage, events: Seq<Event>, n: int) -> EnrolImage
    decreases n,
{
    if n <= 0 {
        m
    } else {
        enrol_step(enrol_run(m, events, n - 1), events[n - 1]).0
    }
}

/// What is asked for on the event `n`.
pub open spec fn enrol_asked(m: EnrolImage, events: Seq<Event>, n: int) -> AskView {
    enrol_step(enrol_run(m, events, n), events[n]).1
}

/// Over a whole run: an image for enrolment that the enclave held is cleaned
/// up before the run ends, whatever happened on the way.
pub proof fn enrol_run_lets_go(m: EnrolImage, events: Seq<Event>, k: int, n: int)
    requires
        0 <= k <= n < events.len(),
        enrol_asked(m, events, n) is Imaged,
        enrol_context_open(enrol_run(m, events, k).stage),
    ensures
        exists|j: int|
            k <= j < n && #[trigger] enrol_asked(m, events, j) == AskView::Call(
                Call::ImageCleanup,
            ),
    decreases n - k,
{
    let now = enrol_run(m, events, k);
    enrol_image_is_let_go(now, events[k]);
    assert(enrol_run(m, events, k + 1) == enrol_step(now, events[k]).0);
    if enrol_context_open(enrol_run(m, events, k + 1).stage) {
        enrol_run_lets_go(m, events, k + 1, n);
    } else {
        assert(enrol_asked(m, events, k) == AskView::Call(Call::ImageCleanup));
    }
}

/// Over a whole run, in which each capture that is handed on comes back: a
/// capture that was in memory is wiped before the run ends, that very one,
/// whatever happened on the way.
pub proof fn enrol_run_wipes(m: EnrolImage, events: Seq<Event>, k: int, n: int, c: Capture)
    requires
        0 <= k <= n < events.len(),
        enrol_asked(m, events, n) is Imaged,
        forall|i: int|
            0 <= i < n ==> (#[trigger] enrol_asked(m, events, i) matches Ask::Relay(out)
                ==> events[i + 1] matches Event::Relayed(_, back) && back == out),
        enrol_run(m, events, k).capture == Some(c),
        enrol_holds(enrol_run(m, events, k).stage),
    ensures
        exists|j: int|
            k <= j < n && #[trigger] enrol_asked(m, events, j) == AskView::WipeCapture(c),
    decreases n - k,
{
    let now = enrol_run(m, events, k);
    enrol_image_is_let_go(now, events[k]);
    assert(enrol_run(m, events, k + 1) == enrol_step(now, events[k]).0);
    if enrol_asked(m, events, k) == AskView::WipeCapture(c) {
    } else if enrol_asked(m, events, k) == AskView::Relay(c) {
        let next = enrol_run(m, events, k + 1);
        enrol_image_is_let_go(next, events[k + 1]);
        assert(enrol_run(m, events, k + 2) == enrol_step(next, events[k + 1]).0);
        assert(k + 1 != n);
        if enrol_asked(m, events, k + 1) != AskView::WipeCapture(c) {
            enrol_run_wipes(m, events, k + 2, n, c);
        }
    } else {
        enrol_run_wipes(m, events, k + 1, n, c);
    }
}

/// The machine after the first `n` of these events.
pub open spec fn verify_run(m: VerifyImage, events: Seq<Event>, n: int) -> VerifyImage
    decreases n,
{
    if n <= 0 {
        m
    } else {
        verify_step(verify_run(m, events, n - 1), events[n - 1]).0
    }
}

/// What is asked for on the event `n`.
pub open spec fn verify_asked(m: VerifyImage, events: Seq<Event>, n: int) -> AskView {
    verify_step(verify_run(m, events, n), events[n]).1
}

/// Over a whole run: an image for verification that the enclave held is cleaned
/// up before the run ends, whatever happened on the way.
pub proof fn verify_run_lets_go(m: VerifyImage, events: Seq<Event>, k: int, n: int)
    requires
        0 <= k <= n < events.len(),
        verify_asked(m, events, n) is Verified,
        verify_context_open(verify_run(m, events, k).stage),
    ensures
        exists|j: int|
            k <= j < n && #[trigger] verify_asked(m, events, j) == AskView::Call(
                Call::ImageCleanup,
            ),
    decreases n - k,
{
    let now = verify_run(m, events, k);
    verify_image_is_let_go(now, events[k]);
    assert(verify_run(m, events, k + 1) == verify_step(now, events[k]).0);
    if verify_context_open(verify_run(m, events, k + 1).stage) {
        verify_run_lets_go(m, events, k + 1, n);
    } else {
        assert(verify_asked(m, events, k) == AskView::Call(Call::ImageCleanup));
    }
}

/// Over a whole run, in which each capture that is handed on comes back: a
/// capture that was in memory is wiped before the run ends, that very one,
/// whatever happened on the way.
pub proof fn verify_run_wipes(m: VerifyImage, events: Seq<Event>, k: int, n: int, c: Capture)
    requires
        0 <= k <= n < events.len(),
        verify_asked(m, events, n) is Verified,
        forall|i: int|
            0 <= i < n ==> (#[trigger] verify_asked(m, events, i) matches Ask::Relay(out)
                ==> events[i + 1] matches Event::Relayed(_, back) && back == out),
        verify_run(m, events, k).capture == Some(c),
        verify_holds(verify_run(m, events, k).stage),
    ensures
        exists|j: int|
            k <= j < n && #[trigger] verify_asked(m, events, j) == AskView::WipeCapture(c),
    decreases n - k,
{
    let now = verify_run(m, events, k);
    verify_image_is_let_go(now, events[k]);
    assert(verify_run(m, events, k + 1) == verify_step(now, events[k]).0);
    if verify_asked(m, events, k) == AskView::WipeCapture(c) {
    } else if verify_asked(m, events, k) == AskView::Relay(c) {
        let next = verify_run(m, events, k + 1);
        verify_image_is_let_go(next, events[k + 1]);
        assert(verify_run(m, events, k + 2) == verify_step(next, events[k + 1]).0);
        assert(k + 1 != n);
        if verify_asked(m, events, k + 1) != AskView::WipeCapture(c) {
            verify_run_wipes(m, events, k + 2, n, c);
        }
    } else {
        verify_run_wipes(m, events, k + 1, n, c);
    }
}

/// Each image is announced for what it is. A verification's one image is announced
/// for matching, as the first and the last; one of an enrolment for enrolment, as
/// the last never and as the first when none was taken before. The user and the
/// time are those of the procedure.
pub proof fn images_are_announced_for_their_purpose(v: VerifyImage, m: EnrolImage, e: Event)
    ensures
        verify_step(v, e).1 matches Ask::Call(Call::ImageInit(i)) ==> i.purpose
            == ImagePurpose::Matching && i.first_image && i.last_image && i.capture_counter == 0
            && i.user == v.user && e == Event::Time(i.monotonic_ns),
        enrol_step(m, e).1 matches Ask::Call(Call::ImageInit(i)) ==> i.purpose
            == ImagePurpose::Enrolment && (i.first_image <==> i.capture_counter == 0)
            && !i.last_image && i.capture_counter == m.counter && i.user == m.user && e
            == Event::Time(i.monotonic_ns),
{
}

/// Whether an answer of the enclave was taken, with these bytes.
pub open spec fn taken(e: Event, bytes: Seq<u8>) -> bool {
    e matches Event::Reply(Verdict::Accepted, p) && p@ == bytes
}

/// A finger that the enclave matches is verified: the image is taken as long as
/// the sensor says, announced for matching, handed on and overwritten; the enclave
/// finds it usable (byte 6 of its assessment) and names a finger of this user,
/// which the index knows; the image is let go, and the outcome is a match with
/// that very finger.
pub proof fn matched_finger_is_verified(
    user: UserId,
    n: u32,
    c: Capture,
    ns: u64,
    assessed: Event,
    matched: Event,
    a: Seq<u8>,
    r: Seq<u8>,
    yes: Event,
    relayed: Event,
    told: Event,
)
    requires
        yes.accepted(),
        taken(assessed, a) && a.len() > 6 && a[6] != 0,
        taken(matched, r) && r.len() >= 0xca2,
        crate::bytes::i32_at(r, 0) == user@,
        relayed == Event::Relayed(Some(DeviceStatus::Answered(0)), c),
    ensures
        ({
            let id = crate::uuid::uuid_at(r, 4);
            let m0 = VerifyImage { user, stage: VerifyStage::Start, capture: None };
            let (m1, a1) = verify_step(m0, Event::Worked(true));
            let (m2, a2) = verify_step(m1, Event::Waited(CaptureWait::Ready(n)));
            let (m3, a3) = verify_step(m2, Event::Captured(Ok(c)));
            let (m4, a4) = verify_step(m3, yes);
            let (m5, a5) = verify_step(m4, Event::Time(ns));
            let (m6, a6) = verify_step(m5, yes);
            let (m7, a7) = verify_step(m6, relayed);
            let (m8, a8) = verify_step(m7, told);
            let (m9, a9) = verify_step(m8, assessed);
            let (m10, a10) = verify_step(m9, matched);
            let (m11, a11) = verify_step(m10, Event::Worked(true));
            let (m12, a12) = verify_step(m11, told);
            let (_, lost) = verify_step(m10, Event::Worked(false));
            &&& a1 == AskView::AwaitCapture
            &&& a2 == AskView::ReadCapture(n)
            &&& a3 == AskView::Call(Call::PrepareImage)
            &&& a4 == AskView::Clock
            &&& a5 matches Ask::Call(Call::ImageInit(i)) && i.purpose == ImagePurpose::Matching
                && i.monotonic_ns == ns
            &&& a6 == AskView::Relay(c)
            &&& a7 == AskView::WipeCapture(c)
            &&& a8 == AskView::Call(Call::Assessment)
            &&& a9 == AskView::Call(Call::MatchResult)
            &&& a10 == AskView::IsKnown(id)
            &&& a11 == AskView::Call(Call::ImageCleanup)
            &&& a12 matches Ask::Verified(VerifyOutcome::Matched(w)) && w.identity == id
        }),
{
}

/// What a verification's image comes to when something is not right, whatever else
/// was: 1 is a failure of the sensor, 2 of the enclave, 4 that no finger came, 5
/// that another try may do. A finger of another user, or of none, is no match, and
/// one that the index does not know is a failure.
pub proof fn verification_says_what_was_wrong(m: VerifyImage, e: Event)
    ensures
        ({
            let (m2, ask) = verify_step(m, e);
            let (_, then) = verify_step(m2, Event::Told);
            &&& m.stage is Start && !(e matches Event::Worked(true)) ==> ask == AskView::Verified(
                VerifyOutcome::Failed(1),
            )
            &&& m.stage is Wait && e == Event::Waited(CaptureWait::Timeout) ==> ask
                == AskView::Verified(VerifyOutcome::Failed(4))
            &&& m.stage is Wait && (e == Event::Waited(CaptureWait::Abandon)) ==> ask
                == AskView::Verified(VerifyOutcome::Failed(1))
            &&& m.stage is Read && (e matches Event::Captured(Err(CaptureError::Length(_)))) ==> ask
                == AskView::Verified(VerifyOutcome::Failed(5))
            &&& m.stage is Read && (e matches Event::Captured(Err(CaptureError::Checksum { .. })))
                ==> ask == AskView::Verified(VerifyOutcome::Failed(5))
            &&& m.capture is None && (m.stage is Init || m.stage is Assess || m.stage is Result)
                && !e.accepted() ==> ask == AskView::Call(Call::ImageCleanup) && then
                == AskView::Verified(VerifyOutcome::Failed(2))
            &&& m.capture is None && m.stage is Assess && (e.payload() matches Some(p) && p.len()
                > 6 && p[6] == 0) ==> ask == AskView::Call(Call::ImageCleanup) && then
                == AskView::Verified(VerifyOutcome::Failed(5))
            &&& m.capture is None && m.stage is Result && (e.payload() matches Some(p) && p.len()
                >= 0xca2 && crate::bytes::i32_at(p, 0) != m.user@) ==> ask == AskView::Call(
                Call::ImageCleanup,
            ) && then == AskView::Verified(VerifyOutcome::NoMatch)
            &&& m.capture is None && m.stage is Known && !(e matches Event::Worked(true)) ==> ask
                == AskView::Call(Call::ImageCleanup) && then == AskView::Verified(
                VerifyOutcome::Failed(2),
            )
        }),
{
    broadcast use crate::bytes::group_le;

}

/// An image that an enrolment can use is judged by the enclave, and its judgement
/// is passed on: the raw progress of byte 4 in hundredths, whether there is a
/// template (bytes 6 to 9) and whether it is complete (bytes 0xbfe to 0xc01). The
/// identities that the last judgement may have made are kept.
pub proof fn usable_image_advances_enrolment(
    m: EnrolImage,
    assessed: Event,
    judged: Event,
    a: Seq<u8>,
    r: Seq<u8>,
    told: Event,
)
    requires
        m.stage is Assess,
        m.capture is None,
        taken(assessed, a) && a.len() >= 0x89,
        taken(judged, r) && r.len() >= 0xc98,
    ensures
        ({
            let (m1, a1) = enrol_step(m, assessed);
            let (m2, a2) = enrol_step(m1, judged);
            let (m3, a3) = enrol_step(m2, told);
            let (m4, a4) = enrol_step(m3, told);
            let (_, again) = enrol_step(m1, told);
            let last = if a2 is KeepCandidates {
                a4
            } else {
                a3
            };
            &&& a[7] == 0 ==> a1 == AskView::Call(Call::ImageCleanup) && again == AskView::Imaged(
                ImageOutcome::Retry,
            )
            &&& a[7] != 0 ==> {
                &&& a1 == AskView::Call(Call::EnrolResult)
                &&& a2 is KeepCandidates <==> u32_at(r, 0xbfe) != 0
                &&& last matches Ask::Imaged(ImageOutcome::Progress { stage, percent, complete, has_template })
                    && complete == (u32_at(r, 0xbfe) != 0) && has_template == (u32_at(r, 6) != 0)
                    && 255 * percent - 127 <= 100 * r[4] <= 255 * percent + 127 && 100 * stage >= 8
                    * percent && 100 * stage < 8 * percent + 100
            }
        }),
{
    broadcast use crate::bytes::group_le;

}

/// What the sensor's state means to someone who waits for an image: 9 is a fault,
/// at 17 the finger is to be placed, at 19 held still, and at 7 an image is there,
/// as long as the status says, unless that is nothing. At any other the sensor is
/// looked at again two milliseconds later, thirty thousand times at most.
pub proof fn sensor_state_is_understood(m: AwaitCapture, raw: &[u8], told: Event)
    requires
        m.stage is Look,
        raw@.len() == 16,
        m.looks < 30_000,
    ensures
        ({
            let s = raw@[7];
            let count = u32_at(raw@, 12);
            let (m1, ask) = await_step(m, Event::Status(Some(raw)));
            let (m2, pause) = await_step(m1, told);
            &&& s == 9 ==> ask == AskView::Waited(CaptureWait::Fault(9))
            &&& s == 17 ==> ask == AskView::Guide(Guidance::Place) && pause == AskView::Sleep(2)
            &&& s == 19 ==> ask == AskView::Guide(Guidance::HoldStill) && pause == AskView::Sleep(2)
            &&& s == 7 && count == 0 ==> ask == AskView::Waited(CaptureWait::Timeout)
            &&& s == 7 && count != 0 ==> (ask matches Ask::Waited(CaptureWait::Ready(n)) && n
                == count)
            &&& s != 7 && s != 9 && s != 17 && s != 19 ==> ask == AskView::Sleep(2) && (if m.looks
                == 29_999 {
                pause == AskView::Status && await_step(m2, told).1 == AskView::Waited(
                    CaptureWait::Timeout,
                )
            } else {
                pause == AskView::CheckLive && m2.looks == m.looks + 1
            })
        }),
{
    broadcast use crate::bytes::group_le;

}

/// An enrolment goes on as long as the person wants it and twelve images have not
/// been taken; between two images the sensor idles and the person has 1800
/// milliseconds to move the finger.
pub proof fn enrolment_goes_on(m: RunEnrolment, e: Event, told: Event)
    requires
        m.wf(),
    ensures
        ({
            let (m1, ask) = run_step(m, e);
            let (m2, a2) = run_step(m1, told);
            let (m3, a3) = run_step(m2, told);
            let (m4, a4) = run_step(m3, told);
            &&& m.stage is Live && e.worked() && m.counter < 12 ==> ask == AskView::EnrolImage(
                m.counter,
            )
            &&& m.stage is Live && e.worked() && m.counter >= 12 ==> m1.end == LoopEnd::Failed(3)
            &&& m.stage is Live && !e.worked() ==> m1.end == LoopEnd::Unwanted && ask
                == AskView::IdleSensor
            &&& m.stage is Image && e == Event::Imaged(ImageOutcome::Retry) ==> ask
                == AskView::IdleSensor && a2 == AskView::AwaitIdle && a3 == AskView::Sleep(1800)
                && a4 == AskView::CheckLive && m4.counter == m.counter + 1
            &&& m.stage is Image && (e matches Event::Imaged(
                ImageOutcome::Progress { stage, percent, complete: false, has_template },
            ) && ask == AskView::Advance { stage, percent }) ==> a2 == AskView::IdleSensor && a3
                == AskView::AwaitIdle && a4 == AskView::Sleep(1800) && m1.counter == m.counter + 1
            &&& m.stage is Image && (e matches Event::Imaged(ImageOutcome::Progress { .. })) ==> ask
                is Advance
            &&& m.stage is Image && e == Event::Imaged(ImageOutcome::NoFinger) ==> m1.end
                == LoopEnd::Failed(4) && ask == AskView::IdleSensor
            &&& m.stage is Image && (e matches Event::Imaged(ImageOutcome::Failed(s)) && s == 2)
                ==> m1.end == LoopEnd::Failed(2)
            &&& m.stage is Online && !e.worked() ==> ask == AskView::FinishEnrolment(
                Filing::Failed(1),
            )
            &&& m.stage is Online && e.worked() ==> ask == AskView::BeginEnrolment
            &&& m.stage is Begin && !e.worked() ==> ask == AskView::FinishEnrolment(
                Filing::Failed(2),
            )
            &&& m.stage is Begin && e.worked() ==> ask == AskView::CheckLive
        }),
{
}

/// An enrolment that the enclave completed is saved, and the session is told the
/// finger that was identified, after the sensor is off; where none was, the
/// failure is 6. A completed enrolment without a template is a failure of the
/// enclave.
pub proof fn completed_enrolment_is_filed(
    m: RunEnrolment,
    has_template: bool,
    saved: bool,
    id: Option<Uuid>,
    told: Event,
)
    requires
        m.stage == RunStage::Completed(has_template),
    ensures
        ({
            let (m1, a1) = run_step(m, told);
            let (s2, b2) = run_step(m1, Event::Worked(saved));
            let (s3, b3) = if saved {
                run_step(s2, told)
            } else {
                (s2, b2)
            };
            let (s4, b4) = run_step(s3, Event::Identity(id));
            let (s5, b5) = run_step(s4, told);
            let (s6, b6) = run_step(s5, told);
            let (s7, b7) = run_step(s6, told);
            let (s8, b8) = run_step(s7, told);
            &&& !has_template ==> m1.end == LoopEnd::Failed(2) && a1 == AskView::IdleSensor
            &&& has_template ==> {
                &&& a1 == AskView::SaveAll
                &&& saved ==> b2 == AskView::ResnapshotKeybag && s2.restored
                &&& b3 == AskView::IdentifyEnrolled
                &&& b4 == AskView::ReconcileIdentities
                &&& b5 == AskView::IdleSensor
                &&& b6 == AskView::PowerOff
                &&& b7 == AskView::NoteCaptureEnd
                &&& b8 == AskView::FinishEnrolment(
                    match id {
                        Some(u) => Filing::Done(u),
                        None => Filing::Failed(6),
                    },
                )
            }
        }),
{
}

/// A verification that comes to an image turns the sensor off afterwards and files
/// what came of it; a match, or that there is none, is filed only once the saving
/// worked, and is a failure of the enclave otherwise.
pub proof fn verification_is_filed(
    m: RunVerify,
    o: VerifyOutcome,
    saved: bool,
    told: Event,
)
    requires
        m.stage is Online,
    ensures
        ({
            let (m1, a1) = run_verify_step(m, Event::Worked(true));
            let (m2, a2) = run_verify_step(m1, Event::Verified(o));
            let (m3, a3) = run_verify_step(m2, told);
            let (m4, a4) = run_verify_step(m3, told);
            let (m5, a5) = run_verify_step(m4, told);
            let (m6, a6) = run_verify_step(m5, Event::Worked(saved));
            let (f1, b1) = run_verify_step(m, Event::Worked(false));
            let (f2, b2) = run_verify_step(f1, told);
            &&& a1 == AskView::VerifyImage
            &&& a2 == AskView::IdleSensor
            &&& a3 == AskView::PowerOff
            &&& a4 == AskView::NoteCaptureEnd
            &&& o is Failed ==> a5 == (AskView::FinishVerify { outcome: o, token: m.token })
            &&& !(o is Failed) ==> a5 == AskView::SaveAfterMatch && a6 == (AskView::FinishVerify {
                outcome: if saved {
                    o
                } else {
                    VerifyOutcome::Failed(2)
                },
                token: m.token,
            })
            &&& b1 == (AskView::FinishVerify { outcome: VerifyOutcome::Failed(1), token: m.token })
            &&& b2 == AskView::IdleSensor
        }),
{
}

/// The rest between two uses of the sensor is what is left of 1800 milliseconds.
pub proof fn rest_is_what_is_left(last_ns: u64, now_ns: u64)
    requires
        0 < last_ns <= now_ns,
    ensures
        rest_of(last_ns, now_ns) is Some <==> now_ns - last_ns < 1_800_000_000,
        rest_of(last_ns, now_ns) matches Some(ms) ==> 1_800_000_000 <= now_ns - last_ns + 1_000_000
            * ms < 1_801_000_000,
        rest_of(0, now_ns) is None,
{
}

/// What each of the machines starts with: a look whether the session still wants images, a
/// capture, or bringing the sensor up. Nothing has been counted, kept or decided yet.
pub proof fn first_steps_of_captures(counter: u32, user: UserId, restored: bool)
    ensures
        await_capture_begins() == (
            AwaitCapture { stage: AwaitStage::Live, looks: 0 },
            AskView::CheckLive,
        ),
        enrol_image_begins(counter, user) == (
            EnrolImage { counter, user, stage: EnrolStage::Start, capture: None },
            AskView::StartCapture,
        ),
        verify_image_begins(user) == (
            VerifyImage { user, stage: VerifyStage::Start, capture: None },
            AskView::StartCapture,
        ),
        run_enrolment_begins(restored) == (
            RunEnrolment {
                stage: RunStage::Online,
                counter: 0,
                end: LoopEnd::Unwanted,
                identity: None,
                restored,
            },
            AskView::BringOnline,
        ),
{
}

/// What counts as having gone well: a reply that was accepted, which alone has a payload, a
/// step that worked, and a relayed capture that was answered with zero.
pub proof fn events_are_judged(verdict: Verdict, bytes: &[u8], v: u32, c: Capture)
    ensures
        Event::Relayed(Some(DeviceStatus::Answered(v)), c).relayed() <==> v == 0,
        !Event::Relayed(None, c).relayed(),
        Event::Reply(verdict, bytes).accepted() <==> verdict == Verdict::Accepted,
        Event::Reply(Verdict::Accepted, bytes).payload() == Some(bytes@),
        verdict != Verdict::Accepted ==> Event::Reply(verdict, bytes).payload() is None,
        Event::Worked(true).worked() && !Event::Worked(false).worked(),
        !Event::Worked(true).accepted() && !Event::Worked(true).relayed(),
{
}

} // verus!
