//! Bringing the fingerprint sensor up: waking it, registering it with the
//! enclave, patching it, keying it, calibrating it and setting it up.
//!
//! Each procedure is a machine. It says what is to be done next, is told how
//! that went, and says what is next. Procedures that another one needs are
//! asked for by name; how they ended is told like anything else.

use crate::bytes::{copy_of, copy_range, read_u32, u32_at};
use crate::sbio::{
    built_in_for, lists, Call, IdentityRecords, Verdict, SBIO_FREE_COUNT_MAX,
    SBIO_FREE_COUNT_REPLY_LEN, SBIO_MATCH_POLICY_LEN, SBIO_MODULE_CHALLENGE_LEN,
};
use crate::sensor::{
    offset12_in, Identifier, Offset12, Status, CHALLENGE_LEN, PATCH_ACCEPTED, SESSION_SHARE_LEN,
    STATE_IDLE, STATE_NEEDS_PATCH, STATUS_PATCH_ACK, STATUS_STATE,
};
use crate::transfer::DeviceStatus;
use crate::uuid::Uuid;
use vstd::prelude::*;

verus! {

pub const PATCH_POLL_MS: u32 = 20;

pub const PATCH_POLL_ATTEMPTS: u32 = 250;

/// Shows that the sensor runs its patch.
#[derive(Clone, Copy, Debug, PartialEq, Eq, Structural)]
pub struct PatchLoaded {
    seal: bool,
}

impl PatchLoaded {
    pub closed spec fn loaded() -> PatchLoaded {
        PatchLoaded { seal: true }
    }

    fn make() -> (p: PatchLoaded)
        ensures
            p == PatchLoaded::loaded(),
    {
        PatchLoaded { seal: true }
    }
}

/// The three sets of parameters that the enclave encrypts for the sensor.
#[derive(Clone, Copy, Debug, PartialEq, Eq, Structural)]
pub enum ParamKind {
    Coverage,
    Operation,
    Transparent,
}

/// What is to be done next. What carries bytes carries all that is to be sent.
#[derive(Debug, PartialEq, Eq)]
pub enum Ask<B = Vec<u8>> {
    /// Make a call that carries no bytes and tell the verdict and the payload.
    Call(Call),
    /// Make a call with these bytes and tell the verdict and the payload.
    CallWith(Call, B),
    /// Make a call with these bytes and tell the bare status.
    Transfer(Call, B),
    /// Read the sensor's status.
    Status,
    /// Wait this many milliseconds.
    Sleep(u32),
    PowerCycle,
    /// Read the sensor's serial number and tell it.
    ReadSerial,
    /// Send this as a session share.
    SendSessionShare(B),
    /// Read the sensor's share and tell it.
    ReadSessionReply,
    /// Send this as a challenge.
    SendChallenge(B),
    /// Read the answer to the challenge and tell it.
    ReadChallengeReply,
    EnablePatch,
    /// Send this as it is.
    SendPatch(B),
    /// Frame this as parameters and send it.
    SendParameters(ParamKind, B),
    /// Frame this as a module challenge and send it.
    SendModuleChallenge(B),
    /// Read the module's answer and tell it.
    ReadModuleReply,
    /// Read the calibration file and tell what it holds.
    ReadCalibrationFile,
    AwaitState(u8),
    EstablishSession,
    InitSequence,
    RegisterSensor(Identifier),
    ApplyPatch,
    WakeSensor,
    Calibrate,
    RelayParameters(ParamKind),
    SyncDeviceView,
    CountIdentities,
    ProveRestore,
    ReconcileIdentities,
    CompleteBringup(PatchLoaded),
    /// Over: whether it worked.
    Done(bool),
    /// Over: the patch is loaded, or it did not come to that.
    Woken(Option<PatchLoaded>),
}

/// An ask whose bytes are sequences, which contracts speak of.
pub type AskView = Ask<Seq<u8>>;

impl View for Ask {
    type V = AskView;

    open spec fn view(&self) -> AskView {
        match self {
            Ask::Call(c) => Ask::Call(*c),
            Ask::CallWith(c, b) => Ask::CallWith(*c, b@),
            Ask::Transfer(c, b) => Ask::Transfer(*c, b@),
            Ask::Status => Ask::Status,
            Ask::Sleep(ms) => Ask::Sleep(*ms),
            Ask::PowerCycle => Ask::PowerCycle,
            Ask::ReadSerial => Ask::ReadSerial,
            Ask::SendSessionShare(b) => Ask::SendSessionShare(b@),
            Ask::ReadSessionReply => Ask::ReadSessionReply,
            Ask::SendChallenge(b) => Ask::SendChallenge(b@),
            Ask::ReadChallengeReply => Ask::ReadChallengeReply,
            Ask::EnablePatch => Ask::EnablePatch,
            Ask::SendPatch(b) => Ask::SendPatch(b@),
            Ask::SendParameters(k, b) => Ask::SendParameters(*k, b@),
            Ask::SendModuleChallenge(b) => Ask::SendModuleChallenge(b@),
            Ask::ReadModuleReply => Ask::ReadModuleReply,
            Ask::ReadCalibrationFile => Ask::ReadCalibrationFile,
            Ask::AwaitState(s) => Ask::AwaitState(*s),
            Ask::EstablishSession => Ask::EstablishSession,
            Ask::InitSequence => Ask::InitSequence,
            Ask::RegisterSensor(id) => Ask::RegisterSensor(*id),
            Ask::ApplyPatch => Ask::ApplyPatch,
            Ask::WakeSensor => Ask::WakeSensor,
            Ask::Calibrate => Ask::Calibrate,
            Ask::RelayParameters(k) => Ask::RelayParameters(*k),
            Ask::SyncDeviceView => Ask::SyncDeviceView,
            Ask::CountIdentities => Ask::CountIdentities,
            Ask::ProveRestore => Ask::ProveRestore,
            Ask::ReconcileIdentities => Ask::ReconcileIdentities,
            Ask::CompleteBringup(p) => Ask::CompleteBringup(*p),
            Ask::Done(ok) => Ask::Done(*ok),
            Ask::Woken(p) => Ask::Woken(*p),
        }
    }
}

/// How what was asked for went.
pub enum Event<'a> {
    Reply(Verdict, &'a [u8]),
    /// The status of a transaction, unless there was none.
    Transferred(Option<DeviceStatus>),
    /// The sixteen bytes of a status, unless the bus failed.
    Status(Option<&'a [u8]>),
    Slept,
    Worked(bool),
    /// The bytes that were to be read, unless that failed.
    Read(Option<&'a [u8]>),
    Count(Option<usize>),
    Woken(Option<PatchLoaded>),
}

impl<'a> Event<'a> {
    /// Whether a status that is told has the length of a status.
    pub open spec fn wf(self) -> bool {
        self matches Event::Status(Some(raw)) ==> raw@.len() == 16
    }

    pub open spec fn accepted(self) -> bool {
        self matches Event::Reply(Verdict::Accepted, _)
    }

    /// The payload of a call that was accepted.
    pub open spec fn payload(self) -> Option<Seq<u8>> {
        match self {
            Event::Reply(Verdict::Accepted, p) => Some(p@),
            _ => None,
        }
    }

    pub open spec fn missing(self) -> bool {
        self matches Event::Reply(Verdict::PrerequisiteMissing, _)
    }

    pub open spec fn worked(self) -> bool {
        self matches Event::Worked(true)
    }

    /// The bytes that were read.
    pub open spec fn read(self) -> Option<Seq<u8>> {
        match self {
            Event::Read(Some(b)) => Some(b@),
            _ => None,
        }
    }

    pub open spec fn transferred(self) -> bool {
        self matches Event::Transferred(Some(DeviceStatus::Answered(0)))
    }

    fn is_accepted(&self) -> (r: bool)
        ensures
            r == self.accepted(),
    {
        match self {
            Event::Reply(Verdict::Accepted, _) => true,
            _ => false,
        }
    }

    fn is_missing(&self) -> (r: bool)
        ensures
            r == self.missing(),
    {
        match self {
            Event::Reply(Verdict::PrerequisiteMissing, _) => true,
            _ => false,
        }
    }

    fn has_worked(&self) -> (r: bool)
        ensures
            r == self.worked(),
    {
        match self {
            Event::Worked(b) => *b,
            _ => false,
        }
    }

    fn is_transferred(&self) -> (r: bool)
        ensures
            r == self.transferred(),
    {
        match self {
            Event::Transferred(Some(s)) => s.is_ok(),
            _ => false,
        }
    }

    /// The payload of a call that was accepted.
    fn bytes(&self) -> (r: Option<&'a [u8]>)
        ensures
            match self.payload() {
                Some(p) => r is Some && (r->0)@ == p,
                None => r is None,
            },
    {
        match self {
            Event::Reply(Verdict::Accepted, p) => Some(*p),
            _ => None,
        }
    }

    /// The bytes that were read.
    fn read_bytes(&self) -> (r: Option<&'a [u8]>)
        ensures
            match self.read() {
                Some(b) => r is Some && (r->0)@ == b,
                None => r is None,
            },
    {
        match self {
            Event::Read(b) => *b,
            _ => None,
        }
    }
}

// ---------------------------------------------------------------------------
// Waiting for a state.
// ---------------------------------------------------------------------------
/// The wait for the sensor to reach a state.
#[derive(Clone, Copy, Debug, PartialEq, Eq, Structural)]
pub struct AwaitState {
    pub want: u8,
    pub looks: u32,
}

pub open spec fn await_step(m: AwaitState, e: Event) -> (AwaitState, AskView) {
    match e {
        Event::Status(Some(raw)) => {
            let next = AwaitState { looks: (m.looks + 1) as u32, ..m };
            if raw@[STATUS_STATE as int] == m.want {
                (next, Ask::Done(true))
            } else {
                (next, Ask::Sleep(PATCH_POLL_MS))
            }
        },
        Event::Slept => if m.looks < PATCH_POLL_ATTEMPTS {
            (m, Ask::Status)
        } else {
            (m, Ask::Done(false))
        },
        _ => (m, Ask::Done(false)),
    }
}

/// How it begins, and what is asked for first.
pub open spec fn await_state_begins(want: u8) -> (AwaitState, AskView) {
    (AwaitState { want, looks: 0 }, AskView::Status)
}

impl AwaitState {
    pub fn start(want: u8) -> (r: (AwaitState, Ask))
        ensures
            (r.0, r.1@) == await_state_begins(want),
    {
        (AwaitState { want, looks: 0 }, Ask::Status)
    }

    pub fn step(&mut self, e: &Event<'_>) -> (ask: Ask)
        requires
            e.wf(),
            old(self).looks <= PATCH_POLL_ATTEMPTS,
        ensures
            (*final(self), ask@) == await_step(*old(self), *e),
    {
        match e {
            Event::Status(Some(raw)) => {
                self.looks = self.looks + 1;
                if raw[STATUS_STATE] == self.want {
                    Ask::Done(true)
                } else {
                    Ask::Sleep(PATCH_POLL_MS)
                }
            },
            Event::Slept => if self.looks < PATCH_POLL_ATTEMPTS {
                Ask::Status
            } else {
                Ask::Done(false)
            },
            _ => Ask::Done(false),
        }
    }
}

// ---------------------------------------------------------------------------
// A session between enclave and sensor.
// ---------------------------------------------------------------------------
#[derive(Clone, Copy, Debug, PartialEq, Eq, Structural)]
pub enum SessionStage {
    Share,
    Sent,
    Read,
    Committed,
}

/// The exchange of shares. Each side's share is handed to the other.
#[derive(Clone, Copy, Debug, PartialEq, Eq, Structural)]
pub struct EstablishSession {
    pub stage: SessionStage,
}

pub open spec fn session_step(m: EstablishSession, e: Event) -> (EstablishSession, AskView) {
    match m.stage {
        SessionStage::Share => match e.payload() {
            Some(p) => if p.len() >= SESSION_SHARE_LEN {
                (
                    EstablishSession { stage: SessionStage::Sent },
                    Ask::SendSessionShare(p.subrange(0, SESSION_SHARE_LEN as int)),
                )
            } else {
                (m, Ask::Done(false))
            },
            None => (m, Ask::Done(false)),
        },
        SessionStage::Sent => if e.worked() {
            (EstablishSession { stage: SessionStage::Read }, Ask::ReadSessionReply)
        } else {
            (m, Ask::Done(false))
        },
        SessionStage::Read => match e.read() {
            Some(share) => (
                EstablishSession { stage: SessionStage::Committed },
                Ask::Transfer(Call::CommitSession, share),
            ),
            None => (m, Ask::Done(false)),
        },
        SessionStage::Committed => (m, Ask::Done(e.transferred())),
    }
}

/// How it begins, and what is asked for first.
pub open spec fn establish_session_begins() -> (EstablishSession, AskView) {
    (EstablishSession { stage: SessionStage::Share }, AskView::Call(Call::SessionShare))
}

impl EstablishSession {
    pub fn start() -> (r: (EstablishSession, Ask))
        ensures
            (r.0, r.1@) == establish_session_begins(),
    {
        (EstablishSession { stage: SessionStage::Share }, Ask::Call(Call::SessionShare))
    }

    pub fn step(&mut self, e: &Event<'_>) -> (ask: Ask)
        ensures
            (*final(self), ask@) == session_step(*old(self), *e),
    {
        match self.stage {
            SessionStage::Share => {
                if let Some(p) = e.bytes() {
                    if p.len() >= SESSION_SHARE_LEN {
                        self.stage = SessionStage::Sent;
                        return Ask::SendSessionShare(copy_range(p, 0, SESSION_SHARE_LEN));
                    }
                }
                Ask::Done(false)
            },
            SessionStage::Sent => {
                if e.has_worked() {
                    self.stage = SessionStage::Read;
                    return Ask::ReadSessionReply;
                }
                Ask::Done(false)
            },
            SessionStage::Read => {
                if let Some(share) = e.read_bytes() {
                    self.stage = SessionStage::Committed;
                    return Ask::Transfer(Call::CommitSession, copy_of(share));
                }
                Ask::Done(false)
            },
            SessionStage::Committed => Ask::Done(e.is_transferred()),
        }
    }
}

// ---------------------------------------------------------------------------
// The sequence counter.
// ---------------------------------------------------------------------------
#[derive(Clone, Copy, Debug, PartialEq, Eq, Structural)]
pub enum SequenceStage {
    /// Waiting for a challenge, with a session still to be had if need be.
    Challenge,
    Session,
    /// Waiting for a challenge for the second time.
    Again,
    Sent,
    Read,
    Committed,
}

/// The start of the sequence counter: the enclave's challenge goes to the
/// sensor, and the sensor's answer back. A missing session is made first, once.
#[derive(Clone, Copy, Debug, PartialEq, Eq, Structural)]
pub struct InitSequence {
    pub stage: SequenceStage,
}

pub open spec fn at_sequence(stage: SequenceStage) -> InitSequence {
    InitSequence { stage }
}

pub open spec fn sequence_step(m: InitSequence, e: Event) -> (InitSequence, AskView) {
    match m.stage {
        SequenceStage::Challenge | SequenceStage::Again => match e.payload() {
            Some(p) => if p.len() >= CHALLENGE_LEN {
                (
                    at_sequence(SequenceStage::Sent),
                    Ask::SendChallenge(p.subrange(0, CHALLENGE_LEN as int)),
                )
            } else {
                (m, Ask::Done(false))
            },
            None => if e.missing() && m.stage == SequenceStage::Challenge {
                (at_sequence(SequenceStage::Session), Ask::EstablishSession)
            } else {
                (m, Ask::Done(false))
            },
        },
        SequenceStage::Session => if e.worked() {
            (at_sequence(SequenceStage::Again), Ask::Call(Call::Challenge))
        } else {
            (m, Ask::Done(false))
        },
        SequenceStage::Sent => if e.worked() {
            (at_sequence(SequenceStage::Read), Ask::ReadChallengeReply)
        } else {
            (m, Ask::Done(false))
        },
        SequenceStage::Read => match e.read() {
            Some(answer) => (
                at_sequence(SequenceStage::Committed),
                Ask::Transfer(Call::CommitChallenge, answer),
            ),
            None => (m, Ask::Done(false)),
        },
        SequenceStage::Committed => (m, Ask::Done(e.transferred())),
    }
}

/// How it begins, and what is asked for first.
pub open spec fn init_sequence_begins() -> (InitSequence, AskView) {
    (at_sequence(SequenceStage::Challenge), AskView::Call(Call::Challenge))
}

impl InitSequence {
    pub fn start() -> (r: (InitSequence, Ask))
        ensures
            (r.0, r.1@) == init_sequence_begins(),
    {
        (InitSequence { stage: SequenceStage::Challenge }, Ask::Call(Call::Challenge))
    }

    pub fn step(&mut self, e: &Event<'_>) -> (ask: Ask)
        ensures
            (*final(self), ask@) == sequence_step(*old(self), *e),
    {
        match self.stage {
            SequenceStage::Challenge | SequenceStage::Again => {
                if let Some(p) = e.bytes() {
                    if p.len() >= CHALLENGE_LEN {
                        self.stage = SequenceStage::Sent;
                        return Ask::SendChallenge(copy_range(p, 0, CHALLENGE_LEN));
                    }
                    return Ask::Done(false);
                }
                if e.is_missing() && self.stage == SequenceStage::Challenge {
                    self.stage = SequenceStage::Session;
                    return Ask::EstablishSession;
                }
                Ask::Done(false)
            },
            SequenceStage::Session => {
                if e.has_worked() {
                    self.stage = SequenceStage::Again;
                    return Ask::Call(Call::Challenge);
                }
                Ask::Done(false)
            },
            SequenceStage::Sent => {
                if e.has_worked() {
                    self.stage = SequenceStage::Read;
                    return Ask::ReadChallengeReply;
                }
                Ask::Done(false)
            },
            SequenceStage::Read => {
                if let Some(answer) = e.read_bytes() {
                    self.stage = SequenceStage::Committed;
                    return Ask::Transfer(Call::CommitChallenge, copy_of(answer));
                }
                Ask::Done(false)
            },
            SequenceStage::Committed => Ask::Done(e.is_transferred()),
        }
    }
}

// ---------------------------------------------------------------------------
// The patch.
// ---------------------------------------------------------------------------
#[derive(Clone, Copy, Debug, PartialEq, Eq, Structural)]
pub enum PatchStage {
    /// Waiting for the patch, with the counter still to be started if need be.
    Fetch,
    Sequence,
    /// Waiting for the patch for the second time.
    Again,
    Enable,
    Settle,
    Send,
    /// Waiting for the sensor to take it, after this many looks.
    Poll(u32),
    /// It took it. Does it still want one?
    Confirm,
    /// It did not take it. A last look, for the record.
    Last,
}

/// Patching the sensor. What counts is that the sensor acknowledges the patch
/// and does not go on to ask for one.
#[derive(Debug, PartialEq, Eq)]
pub struct ApplyPatch<B = Vec<u8>> {
    pub stage: PatchStage,
    /// The patch, once the enclave gave it out.
    pub patch: B,
}

impl View for ApplyPatch {
    type V = ApplyPatch<Seq<u8>>;

    open spec fn view(&self) -> ApplyPatch<Seq<u8>> {
        ApplyPatch { stage: self.stage, patch: self.patch@ }
    }
}

pub open spec fn at_patch(m: ApplyPatch<Seq<u8>>, stage: PatchStage) -> ApplyPatch<Seq<u8>> {
    ApplyPatch { stage, ..m }
}

pub open spec fn no_patch() -> AskView {
    Ask::Woken(None)
}

pub open spec fn patch_loaded() -> AskView {
    Ask::Woken(Some(PatchLoaded::loaded()))
}

pub open spec fn patch_step(m: ApplyPatch<Seq<u8>>, e: Event) -> (
    ApplyPatch<Seq<u8>>,
    AskView,
) {
    match m.stage {
        PatchStage::Fetch | PatchStage::Again => match e.payload() {
            Some(p) => if p.len() > 0 {
                (ApplyPatch { stage: PatchStage::Enable, patch: p }, Ask::EnablePatch)
            } else {
                (m, no_patch())
            },
            None => if e.missing() && m.stage == PatchStage::Fetch {
                (at_patch(m, PatchStage::Sequence), Ask::InitSequence)
            } else {
                (m, no_patch())
            },
        },
        PatchStage::Sequence => if e.worked() {
            (at_patch(m, PatchStage::Again), Ask::Call(Call::FetchPatch))
        } else {
            (m, no_patch())
        },
        PatchStage::Enable => if e.worked() {
            (at_patch(m, PatchStage::Settle), Ask::AwaitState(STATE_IDLE))
        } else {
            (m, no_patch())
        },
        PatchStage::Settle => if e.worked() {
            (at_patch(m, PatchStage::Send), Ask::SendPatch(m.patch))
        } else {
            (m, no_patch())
        },
        PatchStage::Send => if e.worked() {
            (at_patch(m, PatchStage::Poll(0)), Ask::Sleep(PATCH_POLL_MS))
        } else {
            (m, no_patch())
        },
        PatchStage::Poll(looks) => match e {
            Event::Slept => (m, Ask::Status),
            Event::Status(Some(raw)) => if raw@[STATUS_PATCH_ACK as int] == PATCH_ACCEPTED {
                (at_patch(m, PatchStage::Confirm), Ask::Status)
            } else if looks + 1 < PATCH_POLL_ATTEMPTS {
                (at_patch(m, PatchStage::Poll((looks + 1) as u32)), Ask::Sleep(PATCH_POLL_MS))
            } else {
                (at_patch(m, PatchStage::Last), Ask::Status)
            },
            _ => (m, no_patch()),
        },
        PatchStage::Confirm => match e {
            Event::Status(Some(raw)) => if raw@[STATUS_STATE as int] == STATE_NEEDS_PATCH {
                (m, no_patch())
            } else {
                (m, patch_loaded())
            },
            Event::Status(None) => (m, patch_loaded()),
            _ => (m, no_patch()),
        },
        PatchStage::Last => (m, no_patch()),
    }
}

/// How it begins, and what is asked for first.
pub open spec fn apply_patch_begins() -> (ApplyPatch<Seq<u8>>, AskView) {
    (
        ApplyPatch { stage: PatchStage::Fetch, patch: Seq::<u8>::empty() },
        AskView::Call(Call::FetchPatch),
    )
}

impl ApplyPatch {
    pub open spec fn wf(self) -> bool {
        self.stage matches PatchStage::Poll(looks) ==> looks < PATCH_POLL_ATTEMPTS
    }

    pub fn start() -> (r: (ApplyPatch, Ask))
        ensures
            (r.0@, r.1@) == apply_patch_begins(),
    {
        (
            ApplyPatch { stage: PatchStage::Fetch, patch: Vec::new() },
            Ask::Call(Call::FetchPatch),
        )
    }

    pub fn step(&mut self, e: &Event<'_>) -> (ask: Ask)
        requires
            e.wf(),
            old(self).wf(),
        ensures
            final(self).wf(),
            (final(self)@, ask@) == patch_step(old(self)@, *e),
    {
        match self.stage {
            PatchStage::Fetch | PatchStage::Again => {
                if let Some(p) = e.bytes() {
                    if p.len() > 0 {
                        self.stage = PatchStage::Enable;
                        self.patch = copy_of(p);
                        return Ask::EnablePatch;
                    }
                    return Ask::Woken(None);
                }
                if e.is_missing() && self.stage == PatchStage::Fetch {
                    self.stage = PatchStage::Sequence;
                    return Ask::InitSequence;
                }
                Ask::Woken(None)
            },
            PatchStage::Sequence => {
                if e.has_worked() {
                    self.stage = PatchStage::Again;
                    return Ask::Call(Call::FetchPatch);
                }
                Ask::Woken(None)
            },
            PatchStage::Enable => {
                if e.has_worked() {
                    self.stage = PatchStage::Settle;
                    return Ask::AwaitState(STATE_IDLE);
                }
                Ask::Woken(None)
            },
            PatchStage::Settle => {
                if e.has_worked() {
                    self.stage = PatchStage::Send;
                    return Ask::SendPatch(copy_of(&self.patch));
                }
                Ask::Woken(None)
            },
            PatchStage::Send => {
                if e.has_worked() {
                    self.stage = PatchStage::Poll(0);
                    return Ask::Sleep(PATCH_POLL_MS);
                }
                Ask::Woken(None)
            },
            PatchStage::Poll(looks) => match e {
                Event::Slept => Ask::Status,
                Event::Status(Some(raw)) => {
                    if raw[STATUS_PATCH_ACK] == PATCH_ACCEPTED {
                        self.stage = PatchStage::Confirm;
                        Ask::Status
                    } else if looks + 1 < PATCH_POLL_ATTEMPTS {
                        self.stage = PatchStage::Poll(looks + 1);
                        Ask::Sleep(PATCH_POLL_MS)
                    } else {
                        self.stage = PatchStage::Last;
                        Ask::Status
                    }
                },
                _ => Ask::Woken(None),
            },
            PatchStage::Confirm => match e {
                Event::Status(Some(raw)) => {
                    if raw[STATUS_STATE] == STATE_NEEDS_PATCH {
                        Ask::Woken(None)
                    } else {
                        Ask::Woken(Some(PatchLoaded::make()))
                    }
                },
                Event::Status(None) => Ask::Woken(Some(PatchLoaded::make())),
                _ => Ask::Woken(None),
            },
            PatchStage::Last => Ask::Woken(None),
        }
    }
}

// ---------------------------------------------------------------------------
// Registering the sensor.
// ---------------------------------------------------------------------------
/// How much of the sensor the enclave knows.
#[derive(Clone, Copy, Debug, PartialEq, Eq, Structural)]
pub enum Bringup {
    Fresh,
    Identified,
    Established,
}

#[derive(Clone, Copy, Debug, PartialEq, Eq, Structural)]
pub enum RegisterStage {
    Clear,
    Identify,
    Serial,
    Commit,
}

/// Registering the sensor. An enclave that knows it is made to forget what it
/// knows; one that knows nothing is told the identifier; each is told the
/// serial number.
#[derive(Clone, Copy, Debug, PartialEq, Eq, Structural)]
pub struct RegisterSensor {
    pub id: Identifier,
    pub known: Bringup,
    pub stage: RegisterStage,
}

/// What comes after an enclave that knew the sensor forgot it.
pub open spec fn register_start(id: Identifier, known: Bringup) -> (RegisterSensor, AskView) {
    match known {
        Bringup::Fresh => (
            RegisterSensor { id, known, stage: RegisterStage::Identify },
            Ask::Call(Call::RegisterSensor(id)),
        ),
        Bringup::Identified => (
            RegisterSensor { id, known, stage: RegisterStage::Serial },
            Ask::ReadSerial,
        ),
        Bringup::Established => (
            RegisterSensor { id, known, stage: RegisterStage::Clear },
            Ask::Call(Call::ClearState),
        ),
    }
}

pub open spec fn register_step(m: RegisterSensor, e: Event) -> (RegisterSensor, AskView) {
    match m.stage {
        RegisterStage::Clear => if e.accepted() {
            (RegisterSensor { stage: RegisterStage::Serial, ..m }, Ask::ReadSerial)
        } else {
            (m, Ask::Done(false))
        },
        RegisterStage::Identify => if e.accepted() {
            (
                RegisterSensor { known: Bringup::Identified, stage: RegisterStage::Serial, ..m },
                Ask::ReadSerial,
            )
        } else {
            (m, Ask::Done(false))
        },
        RegisterStage::Serial => match e.read() {
            Some(serial) => (
                RegisterSensor { stage: RegisterStage::Commit, ..m },
                Ask::CallWith(Call::RegisterSerial, serial),
            ),
            None => (m, Ask::Done(false)),
        },
        RegisterStage::Commit => if e.accepted() {
            (RegisterSensor { known: Bringup::Established, ..m }, Ask::Done(true))
        } else {
            (m, Ask::Done(false))
        },
    }
}

impl RegisterSensor {
    pub fn start(id: Identifier, known: Bringup) -> (r: (RegisterSensor, Ask))
        ensures
            (r.0, r.1@) == register_start(id, known),
    {
        match known {
            Bringup::Fresh => (
                RegisterSensor { id, known, stage: RegisterStage::Identify },
                Ask::Call(Call::RegisterSensor(id)),
            ),
            Bringup::Identified => (
                RegisterSensor { id, known, stage: RegisterStage::Serial },
                Ask::ReadSerial,
            ),
            Bringup::Established => (
                RegisterSensor { id, known, stage: RegisterStage::Clear },
                Ask::Call(Call::ClearState),
            ),
        }
    }

    pub fn step(&mut self, e: &Event<'_>) -> (ask: Ask)
        ensures
            (*final(self), ask@) == register_step(*old(self), *e),
    {
        match self.stage {
            RegisterStage::Clear => {
                if e.is_accepted() {
                    self.stage = RegisterStage::Serial;
                    return Ask::ReadSerial;
                }
                Ask::Done(false)
            },
            RegisterStage::Identify => {
                if e.is_accepted() {
                    self.known = Bringup::Identified;
                    self.stage = RegisterStage::Serial;
                    return Ask::ReadSerial;
                }
                Ask::Done(false)
            },
            RegisterStage::Serial => {
                if let Some(serial) = e.read_bytes() {
                    self.stage = RegisterStage::Commit;
                    return Ask::CallWith(Call::RegisterSerial, copy_of(serial));
                }
                Ask::Done(false)
            },
            RegisterStage::Commit => {
                if e.is_accepted() {
                    self.known = Bringup::Established;
                    return Ask::Done(true);
                }
                Ask::Done(false)
            },
        }
    }
}

// ---------------------------------------------------------------------------
// Waking the sensor.
// ---------------------------------------------------------------------------
#[derive(Clone, Copy, Debug, PartialEq, Eq, Structural)]
pub enum WakeStage {
    Power,
    /// Before the look with this number.
    Delay(u32),
    Look(u32),
    /// The enclave is told of the sensor, whose acknowledgement was this.
    Register(u8),
    Patch,
    Failed,
}

/// Waking the sensor: power is cycled, and after ever longer waits its status
/// is looked at, until it states an identifier. With that it is registered,
/// and patched unless it says that it is.
#[derive(Clone, Copy, Debug, PartialEq, Eq, Structural)]
pub struct Wake {
    pub stage: WakeStage,
}

pub open spec fn at_wake(stage: WakeStage) -> Wake {
    Wake { stage }
}

pub open spec fn wake_delay(look: int) -> u32 {
    if look == 1 {
        3
    } else if look == 2 {
        10
    } else if look == 3 {
        50
    } else {
        0
    }
}

/// Goes on to the look with this number, if there is to be one.
pub open spec fn wake_look(look: int) -> (Wake, AskView) {
    if look >= 4 {
        (at_wake(WakeStage::Failed), no_patch())
    } else if wake_delay(look) > 0 {
        (at_wake(WakeStage::Delay(look as u32)), Ask::Sleep(wake_delay(look)))
    } else {
        (at_wake(WakeStage::Look(look as u32)), Ask::Status)
    }
}

pub open spec fn silent(raw: Seq<u8>) -> bool {
    forall|i: int| 0 <= i < raw.len() ==> raw[i] == 0
}

pub open spec fn wake_step(m: Wake, e: Event, known: Seq<u16>) -> (Wake, AskView) {
    match m.stage {
        WakeStage::Power => wake_look(0),
        WakeStage::Delay(look) => (at_wake(WakeStage::Look(look)), Ask::Status),
        WakeStage::Look(look) => match e {
            Event::Status(Some(raw)) => if silent(raw@) {
                wake_look(look + 1)
            } else {
                match offset12_in(raw@) {
                    Offset12::Identifier(id) => if id == 0 {
                        wake_look(look + 1)
                    } else if known.contains(id) {
                        (
                            at_wake(WakeStage::Register(raw@[STATUS_PATCH_ACK as int])),
                            Ask::RegisterSensor(Identifier(id)),
                        )
                    } else {
                        (at_wake(WakeStage::Failed), no_patch())
                    },
                    _ => wake_look(look + 1),
                }
            },
            _ => (at_wake(WakeStage::Failed), no_patch()),
        },
        WakeStage::Register(ack) => if !e.worked() {
            (at_wake(WakeStage::Failed), no_patch())
        } else if ack == PATCH_ACCEPTED {
            (at_wake(WakeStage::Patch), patch_loaded())
        } else {
            (at_wake(WakeStage::Patch), Ask::ApplyPatch)
        },
        WakeStage::Patch => match e {
            Event::Woken(p) => (m, Ask::Woken(p)),
            _ => (m, no_patch()),
        },
        WakeStage::Failed => (m, no_patch()),
    }
}

fn next_look(look: u32) -> (r: (Wake, Ask))
    ensures
        (r.0, r.1@) == wake_look(look as int),
{
    if look >= 4 {
        return (Wake { stage: WakeStage::Failed }, Ask::Woken(None));
    }
    let delay: u32 = if look == 1 {
        3
    } else if look == 2 {
        10
    } else if look == 3 {
        50
    } else {
        0
    };
    if delay > 0 {
        (Wake { stage: WakeStage::Delay(look) }, Ask::Sleep(delay))
    } else {
        (Wake { stage: WakeStage::Look(look) }, Ask::Status)
    }
}

fn is_known(known: &[u16], id: u16) -> (r: bool)
    ensures
        r == known@.contains(id),
{
    let mut i: usize = 0;
    while i < known.len()
        invariant
            i <= known.len(),
            forall|j: int| 0 <= j < i ==> known@[j] != id,
        decreases known.len() - i,
    {
        if known[i] == id {
            assert(known@[i as int] == id);
            return true;
        }
        i = i + 1;
    }
    false
}

fn looked(look: u32, raw: &[u8], known: &[u16]) -> (r: (Wake, Ask))
    requires
        raw.len() == 16,
        look < 4,
    ensures
        (r.0, r.1@) == (if silent(raw@) {
            wake_look(look + 1)
        } else {
            match offset12_in(raw@) {
                Offset12::Identifier(id) => if id == 0 {
                    wake_look(look + 1)
                } else if known@.contains(id) {
                    (
                        at_wake(WakeStage::Register(raw@[STATUS_PATCH_ACK as int])),
                        AskView::RegisterSensor(Identifier(id)),
                    )
                } else {
                    (at_wake(WakeStage::Failed), no_patch())
                },
                _ => wake_look(look + 1),
            }
        }),
{
    let quiet = crate::bytes::all_zero(raw);
    assert(quiet == silent(raw@));
    if quiet {
        return next_look(look + 1);
    }
    let st = Status::from_raw(raw);
    match st.offset12() {
        Offset12::Identifier(id) => {
            if id == 0 {
                next_look(look + 1)
            } else if is_known(known, id) {
                (
                    Wake { stage: WakeStage::Register(st.patch_ack()) },
                    Ask::RegisterSensor(Identifier(id)),
                )
            } else {
                (Wake { stage: WakeStage::Failed }, Ask::Woken(None))
            }
        },
        _ => next_look(look + 1),
    }
}

/// How it begins, and what is asked for first.
pub open spec fn wake_begins() -> (Wake, AskView) {
    (at_wake(WakeStage::Power), AskView::PowerCycle)
}

impl Wake {
    pub open spec fn wf(self) -> bool {
        self.stage matches WakeStage::Look(look) ==> look < 4
    }

    pub open spec fn settled(self) -> bool {
        self.stage matches WakeStage::Delay(look) ==> look < 4
    }

    pub fn start() -> (r: (Wake, Ask))
        ensures
            (r.0, r.1@) == wake_begins(),
    {
        (Wake { stage: WakeStage::Power }, Ask::PowerCycle)
    }

    /// Goes on. The identifiers that are known to be of this sort of sensor
    /// are given.
    pub fn step(&mut self, e: &Event<'_>, known: &[u16]) -> (ask: Ask)
        requires
            e.wf(),
            old(self).wf(),
            old(self).settled(),
        ensures
            final(self).wf(),
            final(self).settled(),
            (*final(self), ask@) == wake_step(*old(self), *e, known@),
    {
        let (next, ask) = match self.stage {
            WakeStage::Power => next_look(0),
            WakeStage::Delay(look) => (Wake { stage: WakeStage::Look(look) }, Ask::Status),
            WakeStage::Look(look) => match e {
                Event::Status(Some(raw)) => looked(look, raw, known),
                _ => (Wake { stage: WakeStage::Failed }, Ask::Woken(None)),
            },
            WakeStage::Register(ack) => {
                if !e.has_worked() {
                    (Wake { stage: WakeStage::Failed }, Ask::Woken(None))
                } else if ack == PATCH_ACCEPTED {
                    (Wake { stage: WakeStage::Patch }, Ask::Woken(Some(PatchLoaded::make())))
                } else {
                    (Wake { stage: WakeStage::Patch }, Ask::ApplyPatch)
                }
            },
            WakeStage::Patch => match e {
                Event::Woken(p) => (*self, Ask::Woken(*p)),
                _ => (*self, Ask::Woken(None)),
            },
            WakeStage::Failed => (*self, Ask::Woken(None)),
        };
        *self = next;
        ask
    }
}

// ---------------------------------------------------------------------------
// Calibration.
// ---------------------------------------------------------------------------
#[derive(Clone, Copy, Debug, PartialEq, Eq, Structural)]
pub enum CalibrateStage {
    File,
    Challenge,
    Sent,
    Read,
    Commit,
    Load,
    Diagnose,
}

/// Calibration: the enclave's challenge goes to the sensor's module, the
/// module's answer back, and then the file that belongs to the machine. What is
/// committed is the module's answer and not the challenge, though both are as
/// long.
#[derive(Debug, PartialEq, Eq)]
pub struct Calibrate<B = Vec<u8>> {
    pub stage: CalibrateStage,
    /// The calibration file, once it was read.
    pub file: B,
}

impl View for Calibrate {
    type V = Calibrate<Seq<u8>>;

    open spec fn view(&self) -> Calibrate<Seq<u8>> {
        Calibrate { stage: self.stage, file: self.file@ }
    }
}

pub open spec fn at_calibrate(m: Calibrate<Seq<u8>>, stage: CalibrateStage) -> Calibrate<Seq<u8>> {
    Calibrate { stage, ..m }
}

pub open spec fn calibrate_step(m: Calibrate<Seq<u8>>, e: Event) -> (
    Calibrate<Seq<u8>>,
    AskView,
) {
    match m.stage {
        CalibrateStage::File => match e.read() {
            Some(file) => (
                Calibrate { stage: CalibrateStage::Challenge, file },
                Ask::Call(Call::ModuleChallenge),
            ),
            None => (m, Ask::Done(false)),
        },
        CalibrateStage::Challenge => match e.payload() {
            Some(p) => if p.len() == SBIO_MODULE_CHALLENGE_LEN {
                (at_calibrate(m, CalibrateStage::Sent), Ask::SendModuleChallenge(p))
            } else {
                (m, Ask::Done(false))
            },
            None => (m, Ask::Done(false)),
        },
        CalibrateStage::Sent => if e.worked() {
            (at_calibrate(m, CalibrateStage::Read), Ask::ReadModuleReply)
        } else {
            (m, Ask::Done(false))
        },
        CalibrateStage::Read => match e.read() {
            Some(reply) => (
                at_calibrate(m, CalibrateStage::Commit),
                Ask::CallWith(Call::ModuleCommit, reply),
            ),
            None => (m, Ask::Done(false)),
        },
        CalibrateStage::Commit => if e.accepted() {
            (at_calibrate(m, CalibrateStage::Load), Ask::Transfer(Call::LoadCalibration, m.file))
        } else {
            (m, Ask::Done(false))
        },
        CalibrateStage::Load => if e.transferred() {
            (at_calibrate(m, CalibrateStage::Diagnose), Ask::Call(Call::Diagnostics))
        } else {
            (m, Ask::Done(false))
        },
        CalibrateStage::Diagnose => (m, Ask::Done(true)),
    }
}

/// How it begins, and what is asked for first.
pub open spec fn calibrate_begins() -> (Calibrate<Seq<u8>>, AskView) {
    (
        Calibrate { stage: CalibrateStage::File, file: Seq::<u8>::empty() },
        AskView::ReadCalibrationFile,
    )
}

impl Calibrate {
    pub fn start() -> (r: (Calibrate, Ask))
        ensures
            (r.0@, r.1@) == calibrate_begins(),
    {
        (Calibrate { stage: CalibrateStage::File, file: Vec::new() }, Ask::ReadCalibrationFile)
    }

    pub fn step(&mut self, e: &Event<'_>) -> (ask: Ask)
        ensures
            (final(self)@, ask@) == calibrate_step(old(self)@, *e),
    {
        match self.stage {
            CalibrateStage::File => {
                if let Some(file) = e.read_bytes() {
                    self.stage = CalibrateStage::Challenge;
                    self.file = copy_of(file);
                    return Ask::Call(Call::ModuleChallenge);
                }
                Ask::Done(false)
            },
            CalibrateStage::Challenge => {
                if let Some(p) = e.bytes() {
                    if p.len() == SBIO_MODULE_CHALLENGE_LEN {
                        self.stage = CalibrateStage::Sent;
                        return Ask::SendModuleChallenge(copy_of(p));
                    }
                }
                Ask::Done(false)
            },
            CalibrateStage::Sent => {
                if e.has_worked() {
                    self.stage = CalibrateStage::Read;
                    return Ask::ReadModuleReply;
                }
                Ask::Done(false)
            },
            CalibrateStage::Read => {
                if let Some(reply) = e.read_bytes() {
                    self.stage = CalibrateStage::Commit;
                    return Ask::CallWith(Call::ModuleCommit, copy_of(reply));
                }
                Ask::Done(false)
            },
            CalibrateStage::Commit => {
                if e.is_accepted() {
                    self.stage = CalibrateStage::Load;
                    return Ask::Transfer(Call::LoadCalibration, copy_of(&self.file));
                }
                Ask::Done(false)
            },
            CalibrateStage::Load => {
                if e.is_transferred() {
                    self.stage = CalibrateStage::Diagnose;
                    return Ask::Call(Call::Diagnostics);
                }
                Ask::Done(false)
            },
            CalibrateStage::Diagnose => Ask::Done(true),
        }
    }
}

// ---------------------------------------------------------------------------
// Parameters.
// ---------------------------------------------------------------------------
pub open spec fn params_call(kind: ParamKind) -> Call {
    match kind {
        ParamKind::Coverage => Call::CoverageParams,
        ParamKind::Operation => Call::OperationParams,
        ParamKind::Transparent => Call::TransparentChannel,
    }
}

/// Handing one set of parameters on. Only the transparent channel may be
/// empty, and then nothing is handed on.
#[derive(Clone, Copy, Debug, PartialEq, Eq, Structural)]
pub struct RelayParameters {
    pub kind: ParamKind,
    pub sent: bool,
}

pub open spec fn relay_step(m: RelayParameters, e: Event) -> (RelayParameters, AskView) {
    if m.sent {
        (m, Ask::Done(e.worked()))
    } else {
        match e.payload() {
            Some(p) => if p.len() > 0 {
                (RelayParameters { sent: true, ..m }, Ask::SendParameters(m.kind, p))
            } else {
                (m, Ask::Done(m.kind == ParamKind::Transparent))
            },
            None => (m, Ask::Done(false)),
        }
    }
}

/// How it begins, and what is asked for first.
pub open spec fn relay_parameters_begins(kind: ParamKind) -> (RelayParameters, AskView) {
    (RelayParameters { kind, sent: false }, AskView::Call(params_call(kind)))
}

impl RelayParameters {
    pub fn start(kind: ParamKind) -> (r: (RelayParameters, Ask))
        ensures
            (r.0, r.1@) == relay_parameters_begins(kind),
    {
        let call = match kind {
            ParamKind::Coverage => Call::CoverageParams,
            ParamKind::Operation => Call::OperationParams,
            ParamKind::Transparent => Call::TransparentChannel,
        };
        (RelayParameters { kind, sent: false }, Ask::Call(call))
    }

    pub fn step(&mut self, e: &Event<'_>) -> (ask: Ask)
        ensures
            (*final(self), ask@) == relay_step(*old(self), *e),
    {
        if self.sent {
            return Ask::Done(e.has_worked());
        }
        match e.bytes() {
            Some(p) => {
                if p.len() > 0 {
                    self.sent = true;
                    Ask::SendParameters(self.kind, copy_of(p))
                } else {
                    Ask::Done(self.kind == ParamKind::Transparent)
                }
            },
            None => Ask::Done(false),
        }
    }
}

// ---------------------------------------------------------------------------
// The enclave's view of its devices.
// ---------------------------------------------------------------------------
#[derive(Clone, Copy, Debug, PartialEq, Eq, Structural)]
pub enum SyncStage {
    Update,
    /// The policy was asked for; this is how the update went.
    Policy(bool),
}

/// Has the enclave look at its devices. Both questions are asked either way.
#[derive(Clone, Copy, Debug, PartialEq, Eq, Structural)]
pub struct SyncDeviceView {
    pub stage: SyncStage,
}

pub open spec fn sync_step(m: SyncDeviceView, e: Event) -> (SyncDeviceView, AskView) {
    match m.stage {
        SyncStage::Update => (
            SyncDeviceView { stage: SyncStage::Policy(e.accepted()) },
            Ask::Call(Call::MatchPolicy),
        ),
        SyncStage::Policy(synced) => (
            m,
            Ask::Done(
                synced && e.payload() is Some && (e.payload()->0).len() == SBIO_MATCH_POLICY_LEN,
            ),
        ),
    }
}

/// How it begins, and what is asked for first.
pub open spec fn sync_device_view_begins() -> (SyncDeviceView, AskView) {
    (SyncDeviceView { stage: SyncStage::Update }, AskView::Call(Call::UpdateDeviceList))
}

impl SyncDeviceView {
    pub fn start() -> (r: (SyncDeviceView, Ask))
        ensures
            (r.0, r.1@) == sync_device_view_begins(),
    {
        (SyncDeviceView { stage: SyncStage::Update }, Ask::Call(Call::UpdateDeviceList))
    }

    pub fn step(&mut self, e: &Event<'_>) -> (ask: Ask)
        ensures
            (*final(self), ask@) == sync_step(*old(self), *e),
    {
        match self.stage {
            SyncStage::Update => {
                self.stage = SyncStage::Policy(e.is_accepted());
                Ask::Call(Call::MatchPolicy)
            },
            SyncStage::Policy(synced) => match e.bytes() {
                Some(p) => Ask::Done(synced && p.len() == SBIO_MATCH_POLICY_LEN),
                None => Ask::Done(false),
            },
        }
    }
}

// ---------------------------------------------------------------------------
// Setting the sensor up.
// ---------------------------------------------------------------------------
#[derive(Clone, Copy, Debug, PartialEq, Eq, Structural)]
pub enum CompleteStage {
    Relay(ParamKind),
    Init,
    Sync,
    Count,
    Prove,
    Reconcile,
    Over,
}

/// Setting up a sensor that runs its patch: the parameters, the word that it is
/// ready, and, the first time that the enclave lists its devices, whether the
/// templates that were restored are really there.
#[derive(Clone, Copy, Debug, PartialEq, Eq, Structural)]
pub struct CompleteBringup {
    pub stage: CompleteStage,
    /// Whether the enclave has listed its devices before.
    pub synced: bool,
    /// Whether the templates count as restored.
    pub restored: bool,
}

/// What is left to do once it is known whether the templates are there.
pub open spec fn restored_known(m: CompleteBringup, restored: bool) -> (CompleteBringup, AskView) {
    if restored {
        (
            CompleteBringup { stage: CompleteStage::Reconcile, restored, ..m },
            Ask::ReconcileIdentities,
        )
    } else {
        (CompleteBringup { stage: CompleteStage::Over, restored, ..m }, Ask::Done(true))
    }
}

pub open spec fn complete_step(m: CompleteBringup, e: Event) -> (CompleteBringup, AskView) {
    match m.stage {
        CompleteStage::Relay(kind) => if !e.worked() {
            (m, Ask::Done(false))
        } else {
            match kind {
                ParamKind::Coverage => (
                    CompleteBringup { stage: CompleteStage::Relay(ParamKind::Operation), ..m },
                    Ask::RelayParameters(ParamKind::Operation),
                ),
                ParamKind::Operation => (
                    CompleteBringup { stage: CompleteStage::Relay(ParamKind::Transparent), ..m },
                    Ask::RelayParameters(ParamKind::Transparent),
                ),
                ParamKind::Transparent => (
                    CompleteBringup { stage: CompleteStage::Init, ..m },
                    Ask::Call(Call::CompleteInit),
                ),
            }
        },
        CompleteStage::Init => if e.accepted() {
            (CompleteBringup { stage: CompleteStage::Sync, ..m }, Ask::SyncDeviceView)
        } else {
            (m, Ask::Done(false))
        },
        CompleteStage::Sync => if e.worked() && !m.synced {
            (
                CompleteBringup { stage: CompleteStage::Count, synced: true, ..m },
                Ask::CountIdentities,
            )
        } else {
            (CompleteBringup { stage: CompleteStage::Over, ..m }, Ask::Done(true))
        },
        CompleteStage::Count => match e {
            Event::Count(Some(n)) => if n > 0 && m.restored {
                (CompleteBringup { stage: CompleteStage::Prove, ..m }, Ask::ProveRestore)
            } else {
                restored_known(m, false)
            },
            _ => restored_known(m, false),
        },
        CompleteStage::Prove => restored_known(m, e.worked()),
        CompleteStage::Reconcile => (
            CompleteBringup { stage: CompleteStage::Over, ..m },
            Ask::Done(true),
        ),
        CompleteStage::Over => (m, Ask::Done(true)),
    }
}

/// How it begins, and what is asked for first.
pub open spec fn complete_bringup_begins(
    patch: PatchLoaded,
    synced: bool,
    restored: bool,
) -> (CompleteBringup, AskView) {
    (
        CompleteBringup { stage: CompleteStage::Relay(ParamKind::Coverage), synced, restored },
        AskView::RelayParameters(ParamKind::Coverage),
    )
}

impl CompleteBringup {
    /// Starts with a sensor that runs its patch.
    pub fn start(patch: PatchLoaded, synced: bool, restored: bool) -> (r: (CompleteBringup, Ask))
        ensures
            (r.0, r.1@) == complete_bringup_begins(patch, synced, restored),
    {
        (
            CompleteBringup { stage: CompleteStage::Relay(ParamKind::Coverage), synced, restored },
            Ask::RelayParameters(ParamKind::Coverage),
        )
    }

    fn know(&mut self, restored: bool) -> (ask: Ask)
        ensures
            (*final(self), ask@) == restored_known(*old(self), restored),
    {
        self.restored = restored;
        if restored {
            self.stage = CompleteStage::Reconcile;
            Ask::ReconcileIdentities
        } else {
            self.stage = CompleteStage::Over;
            Ask::Done(true)
        }
    }

    pub fn step(&mut self, e: &Event<'_>) -> (ask: Ask)
        ensures
            (*final(self), ask@) == complete_step(*old(self), *e),
    {
        match self.stage {
            CompleteStage::Relay(kind) => {
                if !e.has_worked() {
                    return Ask::Done(false);
                }
                match kind {
                    ParamKind::Coverage => {
                        self.stage = CompleteStage::Relay(ParamKind::Operation);
                        Ask::RelayParameters(ParamKind::Operation)
                    },
                    ParamKind::Operation => {
                        self.stage = CompleteStage::Relay(ParamKind::Transparent);
                        Ask::RelayParameters(ParamKind::Transparent)
                    },
                    ParamKind::Transparent => {
                        self.stage = CompleteStage::Init;
                        Ask::Call(Call::CompleteInit)
                    },
                }
            },
            CompleteStage::Init => {
                if e.is_accepted() {
                    self.stage = CompleteStage::Sync;
                    return Ask::SyncDeviceView;
                }
                Ask::Done(false)
            },
            CompleteStage::Sync => {
                if e.has_worked() && !self.synced {
                    self.stage = CompleteStage::Count;
                    self.synced = true;
                    return Ask::CountIdentities;
                }
                self.stage = CompleteStage::Over;
                Ask::Done(true)
            },
            CompleteStage::Count => {
                if let Event::Count(Some(n)) = e {
                    if *n > 0 && self.restored {
                        self.stage = CompleteStage::Prove;
                        return Ask::ProveRestore;
                    }
                }
                self.know(false)
            },
            CompleteStage::Prove => self.know(e.has_worked()),
            CompleteStage::Reconcile => {
                self.stage = CompleteStage::Over;
                Ask::Done(true)
            },
            CompleteStage::Over => Ask::Done(true),
        }
    }
}

// ---------------------------------------------------------------------------
// All of it.
// ---------------------------------------------------------------------------
#[derive(Clone, Copy, Debug, PartialEq, Eq, Structural)]
pub enum OnlineStage {
    Wake,
    Calibrate,
    WakeAgain,
    Complete,
}

/// Bringing the sensor online. Calibration needs it awake and leaves it
/// without its patch, so that it is woken again.
#[derive(Clone, Copy, Debug, PartialEq, Eq, Structural)]
pub struct BringOnline {
    pub stage: OnlineStage,
    pub calibrated: bool,
}

pub open spec fn online_step(m: BringOnline, e: Event) -> (BringOnline, AskView) {
    match m.stage {
        OnlineStage::Wake | OnlineStage::WakeAgain => match e {
            Event::Woken(Some(patch)) => if m.calibrated {
                (
                    BringOnline { stage: OnlineStage::Complete, ..m },
                    Ask::CompleteBringup(patch),
                )
            } else {
                (BringOnline { stage: OnlineStage::Calibrate, ..m }, Ask::Calibrate)
            },
            _ => (m, Ask::Done(false)),
        },
        OnlineStage::Calibrate => if e.worked() {
            (BringOnline { stage: OnlineStage::WakeAgain, calibrated: true }, Ask::WakeSensor)
        } else {
            (m, Ask::Done(false))
        },
        OnlineStage::Complete => (m, Ask::Done(e.worked())),
    }
}

/// How it begins, and what is asked for first.
pub open spec fn bring_online_begins(calibrated: bool) -> (BringOnline, AskView) {
    (BringOnline { stage: OnlineStage::Wake, calibrated }, AskView::WakeSensor)
}

impl BringOnline {
    /// Starts, given whether the sensor needs no calibration.
    pub fn start(calibrated: bool) -> (r: (BringOnline, Ask))
        ensures
            (r.0, r.1@) == bring_online_begins(calibrated),
    {
        (BringOnline { stage: OnlineStage::Wake, calibrated }, Ask::WakeSensor)
    }

    pub fn step(&mut self, e: &Event<'_>) -> (ask: Ask)
        ensures
            (*final(self), ask@) == online_step(*old(self), *e),
    {
        match self.stage {
            OnlineStage::Wake | OnlineStage::WakeAgain => match e {
                Event::Woken(Some(patch)) => {
                    if self.calibrated {
                        self.stage = OnlineStage::Complete;
                        Ask::CompleteBringup(*patch)
                    } else {
                        self.stage = OnlineStage::Calibrate;
                        Ask::Calibrate
                    }
                },
                _ => Ask::Done(false),
            },
            OnlineStage::Calibrate => {
                if e.has_worked() {
                    self.stage = OnlineStage::WakeAgain;
                    self.calibrated = true;
                    return Ask::WakeSensor;
                }
                Ask::Done(false)
            },
            OnlineStage::Complete => Ask::Done(e.has_worked()),
        }
    }
}

#[derive(Clone, Copy, Debug, PartialEq, Eq, Structural)]
pub enum AttachStage {
    Wake,
    Complete,
    Over,
}

/// Bringing the sensor up when the device is first opened. It is set up as it
/// wakes; calibration waits for the first image.
#[derive(Clone, Copy, Debug, PartialEq, Eq, Structural)]
pub struct AttachBringup {
    pub stage: AttachStage,
}

pub open spec fn attach_start(sensor_present: bool) -> (AttachBringup, AskView) {
    if sensor_present {
        (AttachBringup { stage: AttachStage::Wake }, Ask::WakeSensor)
    } else {
        (AttachBringup { stage: AttachStage::Over }, Ask::Done(false))
    }
}

pub open spec fn attach_step(m: AttachBringup, e: Event) -> (AttachBringup, AskView) {
    match m.stage {
        AttachStage::Wake => match e {
            Event::Woken(Some(patch)) => (
                AttachBringup { stage: AttachStage::Complete },
                Ask::CompleteBringup(patch),
            ),
            _ => (AttachBringup { stage: AttachStage::Over }, Ask::Done(false)),
        },
        AttachStage::Complete => (
            AttachBringup { stage: AttachStage::Over },
            Ask::Done(e.worked()),
        ),
        AttachStage::Over => (m, Ask::Done(false)),
    }
}

impl AttachBringup {
    pub fn start(sensor_present: bool) -> (r: (AttachBringup, Ask))
        ensures
            (r.0, r.1@) == attach_start(sensor_present),
    {
        if sensor_present {
            (AttachBringup { stage: AttachStage::Wake }, Ask::WakeSensor)
        } else {
            (AttachBringup { stage: AttachStage::Over }, Ask::Done(false))
        }
    }

    pub fn step(&mut self, e: &Event<'_>) -> (ask: Ask)
        ensures
            (*final(self), ask@) == attach_step(*old(self), *e),
    {
        match self.stage {
            AttachStage::Wake => match e {
                Event::Woken(Some(patch)) => {
                    self.stage = AttachStage::Complete;
                    Ask::CompleteBringup(*patch)
                },
                _ => {
                    self.stage = AttachStage::Over;
                    Ask::Done(false)
                },
            },
            AttachStage::Complete => {
                self.stage = AttachStage::Over;
                Ask::Done(e.has_worked())
            },
            AttachStage::Over => Ask::Done(false),
        }
    }
}

// ---------------------------------------------------------------------------
// What replies say.
// ---------------------------------------------------------------------------
/// The identities of one user that a reply lists, if it is a list.
pub fn enclave_identities_for(verdict: Verdict, reply: &[u8], user_id: i32) -> (r: Option<Vec<Uuid>>)
    ensures
        match r {
            Some(out) => {
                &&& verdict == Verdict::Accepted && reply.len() % 40 == 0
                &&& out@ == built_in_for(reply@, user_id as int, reply.len() as int / 40)
            },
            None => verdict != Verdict::Accepted || reply.len() % 40 != 0,
        },
{
    if verdict != Verdict::Accepted {
        return None;
    }
    match IdentityRecords::new(reply) {
        Some(records) => Some(records.each_built_in_for(user_id)),
        None => None,
    }
}

/// How many identities a list of so many bytes has, if it was given.
pub open spec fn counted_identities(verdict: Verdict, len: int) -> Option<usize> {
    if verdict == Verdict::Accepted && len % 40 == 0 {
        Some((len / 40) as usize)
    } else {
        None
    }
}

/// How many identities a reply lists, if it is a list.
pub fn identity_count(verdict: Verdict, reply: &[u8]) -> (r: Option<usize>)
    ensures
        r == counted_identities(verdict, reply@.len() as int),
{
    if verdict != Verdict::Accepted {
        return None;
    }
    match IdentityRecords::new(reply) {
        Some(records) => Some(records.count()),
        None => None,
    }
}

/// Whether a reply lists an identity, if it is a list.
pub fn enclave_lists(verdict: Verdict, reply: &[u8], uuid: &Uuid) -> (r: Option<bool>)
    ensures
        r == (if verdict == Verdict::Accepted && reply.len() % 40 == 0 {
            Some(lists(reply@, *uuid))
        } else {
            None
        }),
{
    if verdict != Verdict::Accepted {
        return None;
    }
    match IdentityRecords::new(reply) {
        Some(records) => Some(records.lists_uuid(uuid)),
        None => None,
    }
}

/// Whether the answer to how many identities could still be enrolled makes
/// sense.
pub fn prove_restore(verdict: Verdict, reply: &[u8]) -> (r: bool)
    ensures
        r == (verdict == Verdict::Accepted && reply.len() == SBIO_FREE_COUNT_REPLY_LEN && u32_at(
            reply@,
            0,
        ) <= SBIO_FREE_COUNT_MAX),
{
    if verdict != Verdict::Accepted || reply.len() != SBIO_FREE_COUNT_REPLY_LEN {
        return false;
    }
    read_u32(reply, 0) <= SBIO_FREE_COUNT_MAX
}

// ---------------------------------------------------------------------------
// Laws.
// ---------------------------------------------------------------------------
/// The sensor's share is committed only after it was read, and that only after
/// the enclave's share reached the sensor: a step asks for one only when told
/// that the one before worked. What is committed is what was read.
pub proof fn session_in_order(m: EstablishSession, e: Event)
    ensures
        session_step(m, e).1 == AskView::ReadSessionReply ==> m.stage == SessionStage::Sent
            && e.worked(),
        session_step(m, e).1 matches Ask::Transfer(call, share) ==> m.stage == SessionStage::Read
            && call == Call::CommitSession && e.read() == Some(share),
        session_step(m, e).1 == AskView::Done(true) ==> m.stage == SessionStage::Committed
            && e.transferred(),
{
}

/// A session is made at most once on the way to a sequence counter.
pub proof fn session_is_made_once(m: InitSequence, e: Event)
    ensures
        sequence_step(m, e).1 == AskView::EstablishSession ==> m.stage == SequenceStage::Challenge
            && sequence_step(m, e).0.stage == SequenceStage::Session,
        sequence_step(m, e).0.stage == SequenceStage::Challenge ==> m.stage
            == SequenceStage::Challenge,
{
}

/// A patch counts as loaded only if the sensor acknowledged it, and not if it
/// then asks for one.
pub proof fn patch_needs_acknowledgement(m: ApplyPatch<Seq<u8>>, e: Event)
    ensures
        patch_step(m, e).1 == patch_loaded() ==> m.stage == PatchStage::Confirm,
        patch_step(m, e).0.stage == PatchStage::Confirm && m.stage != PatchStage::Confirm ==> {
            &&& e matches Event::Status(Some(raw))
            &&& raw@[STATUS_PATCH_ACK as int] == PATCH_ACCEPTED
        },
        m.stage == PatchStage::Confirm && (e matches Event::Status(Some(raw))
            && raw@[STATUS_STATE as int] == STATE_NEEDS_PATCH) ==> patch_step(m, e).1 == no_patch(),
{
}

/// The sensor is registered only under an identifier that it stated while idle
/// and that is known; a sensor with an unknown one is left alone.
pub proof fn only_known_sensors_are_registered(m: Wake, e: Event, known: Seq<u16>)
    ensures
        wake_step(m, e, known).1 matches Ask::RegisterSensor(id) ==> id.0 != 0 && known.contains(
            id.0,
        ) && (e matches Event::Status(Some(raw)) && offset12_in(raw@) == Offset12::Identifier(
            id.0,
        )),
{
}

/// The word that the sensor is ready goes out only when all three sets of
/// parameters were handed on.
pub proof fn ready_only_with_parameters(m: CompleteBringup, e: Event)
    ensures
        complete_step(m, e).1 == AskView::Call(Call::CompleteInit) ==> m.stage == CompleteStage::Relay(
            ParamKind::Transparent,
        ) && e.worked(),
        complete_step(m, e).1 == AskView::RelayParameters(ParamKind::Transparent) ==> m.stage
            == CompleteStage::Relay(ParamKind::Operation) && e.worked(),
        complete_step(m, e).1 == AskView::RelayParameters(ParamKind::Operation) ==> m.stage
            == CompleteStage::Relay(ParamKind::Coverage) && e.worked(),
{
}

/// Setting up never makes templates count as restored that did not before.
pub proof fn restored_is_never_claimed(m: CompleteBringup, e: Event)
    ensures
        complete_step(m, e).0.restored ==> m.restored || m.stage == CompleteStage::Prove,
        complete_step(m, e).0.stage == CompleteStage::Prove && m.stage != CompleteStage::Prove
            ==> m.restored,
{
}

/// A sensor that is to take images is set up only after it was woken, and with
/// a calibration behind it.
pub proof fn online_needs_calibration(m: BringOnline, e: Event)
    ensures
        online_step(m, e).1 matches Ask::CompleteBringup(patch) ==> m.calibrated && (
        e matches Event::Woken(Some(p)) && p == patch),
        online_step(m, e).0.calibrated ==> m.calibrated || (m.stage == OnlineStage::Calibrate
            && e.worked() && online_step(m, e).1 == AskView::WakeSensor),
{
}

/// The machine after the first `n` of these events.
pub open spec fn complete_run(m: CompleteBringup, events: Seq<Event>, n: int) -> CompleteBringup
    decreases n,
{
    if n <= 0 {
        m
    } else {
        complete_step(complete_run(m, events, n - 1), events[n - 1]).0
    }
}

/// Over a whole setup: it comes to the list of devices only after all three sets
/// of parameters were handed on and the enclave accepted that the sensor is
/// ready.
pub proof fn setup_needs_all_its_steps(
    synced: bool,
    restored: bool,
    events: Seq<Event>,
)
    requires
        events.len() >= 4,
    ensures
        ({
            let m = CompleteBringup {
                stage: CompleteStage::Relay(ParamKind::Coverage),
                synced,
                restored,
            };
            (complete_run(m, events, 4).stage == CompleteStage::Sync) == (events[0].worked()
                && events[1].worked() && events[2].worked() && events[3].accepted())
        }),
{
    reveal_with_fuel(complete_run, 5);
}

/// The machine after the first `n` of these events.
pub open spec fn calibrate_run(m: Calibrate<Seq<u8>>, events: Seq<Event>, n: int) -> Calibrate<
    Seq<u8>,
>
    decreases n,
{
    if n <= 0 {
        m
    } else {
        calibrate_step(calibrate_run(m, events, n - 1), events[n - 1]).0
    }
}

/// What is asked for on the event `n`.
pub open spec fn calibrate_asked(m: Calibrate<Seq<u8>>, events: Seq<Event>, n: int) -> AskView {
    calibrate_step(calibrate_run(m, events, n), events[n]).1
}

/// A whole calibration: the file that was read first is what is loaded in the
/// end, the enclave's challenge is what the module is sent, and the module's
/// answer is what is committed, whatever lay between.
pub proof fn calibration_loads_its_file(m: Calibrate<Seq<u8>>, events: Seq<Event>)
    requires
        m.stage == CalibrateStage::File,
        events.len() >= 5,
        calibrate_run(m, events, 5).stage == CalibrateStage::Load,
    ensures
        events[0].read() is Some && events[1].payload() is Some && events[3].read() is Some,
        calibrate_asked(m, events, 1) == AskView::SendModuleChallenge(events[1].payload()->0),
        calibrate_asked(m, events, 3) == AskView::CallWith(Call::ModuleCommit, events[3].read()->0),
        calibrate_asked(m, events, 4) == AskView::Transfer(
            Call::LoadCalibration,
            events[0].read()->0,
        ),
{
    reveal_with_fuel(calibrate_run, 6);
}

/// The machine after the first `n` of these events.
pub open spec fn patch_run(m: ApplyPatch<Seq<u8>>, events: Seq<Event>, n: int) -> ApplyPatch<
    Seq<u8>,
>
    decreases n,
{
    if n <= 0 {
        m
    } else {
        patch_step(patch_run(m, events, n - 1), events[n - 1]).0
    }
}

/// What the sensor is sent as its patch is what the enclave gave out last as
/// one.
pub proof fn patch_is_the_enclaves(m: ApplyPatch<Seq<u8>>, fetched: Event, enabled: Event, idle:
    Event)
    requires
        m.stage == PatchStage::Fetch || m.stage == PatchStage::Again,
    ensures
        patch_step(
            patch_run(m, seq![fetched, enabled], 2),
            idle,
        ).1 matches Ask::SendPatch(patch) ==> fetched.payload() == Some(patch),
{
    reveal_with_fuel(patch_run, 3);
    let events = seq![fetched, enabled];
    assert(events[0] == fetched && events[1] == enabled);
}

/// The wait for a state ends well as soon as the eighth byte of the status is that
/// state. Otherwise it sleeps for 20 ms and looks again, 250 times in all; a bus that
/// fails ends it.
pub proof fn state_is_awaited(m: AwaitState, e: Event)
    requires
        m.looks < 1000,
    ensures
        e matches Event::Status(Some(raw)) ==> await_step(m, e).0.looks == m.looks + 1 && await_step(
            m,
            e,
        ).1 == if raw@[7] == m.want {
            AskView::Done(true)
        } else {
            AskView::Sleep(20)
        },
        e is Slept && m.looks < 250 ==> await_step(m, e).1 == AskView::Status,
        e is Slept && m.looks >= 250 ==> await_step(m, e).1 == AskView::Done(false),
        e matches Event::Status(None) ==> await_step(m, e).1 == AskView::Done(false),
{
}

/// A session: the first 40 bytes of the enclave's share go to the sensor, the sensor's
/// share is read and handed to the enclave as it is, and the session stands if the
/// enclave says so. What fails ends it.
pub proof fn session_is_established(shared: Event, sent: Event, replied: Event, committed: Event)
    ensures
        ({
            let m0 = EstablishSession { stage: SessionStage::Share };
            let (m1, a1) = session_step(m0, shared);
            let (m2, a2) = session_step(m1, sent);
            let (m3, a3) = session_step(m2, replied);
            let (m4, a4) = session_step(m3, committed);
            let given = shared.payload() is Some && (shared.payload()->0).len() >= 40;
            &&& given ==> a1 == AskView::SendSessionShare((shared.payload()->0).subrange(0, 40))
            &&& !given ==> a1 == AskView::Done(false)
            &&& given && sent.worked() ==> a2 == AskView::ReadSessionReply
            &&& given && !sent.worked() ==> a2 == AskView::Done(false)
            &&& given && sent.worked() && replied.read() is Some ==> a3 == AskView::Transfer(
                Call::CommitSession,
                replied.read()->0,
            ) && a4 == AskView::Done(committed.transferred())
            &&& given && sent.worked() && replied.read() is None ==> a3 == AskView::Done(false)
        }),
{
}

/// The start of the counter: the first 64 bytes of the enclave's challenge go to the
/// sensor, its answer is read and handed to the enclave as it is. Where the enclave
/// lacks a session, one is made and the challenge asked for once more; where it then
/// still gives none, that is the end.
pub proof fn counter_is_started(challenge: Event, sent: Event, replied: Event, committed: Event, made: Event)
    requires
        sent.worked(),
        replied.read() is Some,
        made.worked(),
    ensures
        ({
            let m0 = InitSequence { stage: SequenceStage::Challenge };
            let (m1, a1) = sequence_step(m0, challenge);
            let (m2, a2) = sequence_step(m1, sent);
            let (m3, a3) = sequence_step(m2, replied);
            let (m4, a4) = sequence_step(m3, committed);
            let (n2, b2) = sequence_step(m1, made);
            let (n3, b3) = sequence_step(n2, challenge);
            let given = challenge.payload() is Some && (challenge.payload()->0).len() >= 64;
            &&& given ==> a1 == AskView::SendChallenge((challenge.payload()->0).subrange(0, 64))
                && a2 == AskView::ReadChallengeReply && a3 == AskView::Transfer(
                Call::CommitChallenge,
                replied.read()->0,
            ) && a4 == AskView::Done(committed.transferred())
            &&& challenge.payload() is Some && !given ==> a1 == AskView::Done(false)
            &&& challenge.missing() ==> a1 == AskView::EstablishSession && b2 == AskView::Call(
                Call::Challenge,
            ) && b3 == AskView::Done(false)
            &&& !challenge.missing() && challenge.payload() is None ==> a1 == AskView::Done(false)
        }),
{
}

/// Patching: the patch is fetched, patching is enabled, the sensor is waited for until
/// it is idle, the patch is sent as it was given out, and after 20 ms the sensor is
/// asked. Once the ninth byte of its status is 0x29 it took the patch, and unless the
/// eighth is then 9 the patch is loaded.
pub proof fn patch_is_applied(
    fetched: Event,
    enabled: Event,
    idle: Event,
    sent: Event,
    acked: Event,
    confirmed: Event,
)
    requires
        fetched.payload() is Some,
        (fetched.payload()->0).len() > 0,
        enabled.worked(),
        idle.worked(),
        sent.worked(),
        acked matches Event::Status(Some(raw)) && raw@[8] == 0x29,
    ensures
        ({
            let m0 = ApplyPatch { stage: PatchStage::Fetch, patch: Seq::<u8>::empty() };
            let (m1, a1) = patch_step(m0, fetched);
            let (m2, a2) = patch_step(m1, enabled);
            let (m3, a3) = patch_step(m2, idle);
            let (m4, a4) = patch_step(m3, sent);
            let (m5, a5) = patch_step(m4, Event::Slept);
            let (m6, a6) = patch_step(m5, acked);
            let (m7, a7) = patch_step(m6, confirmed);
            &&& a1 == AskView::EnablePatch
            &&& a2 == AskView::AwaitState(0)
            &&& a3 == AskView::SendPatch(fetched.payload()->0)
            &&& a4 == AskView::Sleep(20)
            &&& a5 == AskView::Status
            &&& a6 == AskView::Status
            &&& confirmed matches Event::Status(Some(raw)) ==> (a7 matches Ask::Woken(p) && (p
                is Some <==> raw@[7] != 9))
            &&& confirmed matches Event::Status(None) ==> (a7 matches Ask::Woken(Some(_)))
        }),
{
}

/// A patch that the sensor does not take is waited for 250 looks long, with 20 ms
/// before each; then it is not loaded. Where the enclave lacks the counter, it is
/// started and the patch fetched once more.
pub proof fn patch_is_waited_for(m: ApplyPatch<Seq<u8>>, looks: u32, e: Event, fetched: Event, started: Event)
    requires
        m.stage == PatchStage::Poll(looks),
        looks < 250,
        e matches Event::Status(Some(raw)) && raw@[8] != 0x29,
        fetched.missing(),
        started.worked(),
    ensures
        looks < 249 ==> patch_step(m, e).1 == AskView::Sleep(20) && patch_step(m, e).0.stage
            == PatchStage::Poll((looks + 1) as u32),
        looks == 249 ==> patch_step(m, e).1 == AskView::Status && (patch_step(
            patch_step(m, e).0,
            e,
        ).1 matches Ask::Woken(None)),
        ({
            let m0 = ApplyPatch { stage: PatchStage::Fetch, patch: Seq::<u8>::empty() };
            let (m1, a1) = patch_step(m0, fetched);
            let (m2, a2) = patch_step(m1, started);
            &&& a1 == AskView::InitSequence
            &&& a2 == AskView::Call(Call::FetchPatch)
            &&& patch_step(m2, fetched).1 matches Ask::Woken(None)
        }),
{
}

/// Registering: an enclave that knows nothing of the sensor is told its identifier,
/// one that knows it is made to forget, and one that was told the identifier is told
/// no more of it. Then the serial number is read and handed on as it is. Only then is
/// the sensor established.
pub proof fn sensor_is_registered(
    id: Identifier,
    accepted: Event,
    serial: Event,
    refused: Event,
)
    requires
        accepted.accepted(),
        serial.read() is Some,
        !refused.accepted(),
    ensures
        ({
            let (f0, fa0) = register_start(id, Bringup::Fresh);
            let (f1, fa1) = register_step(f0, accepted);
            let (f2, fa2) = register_step(f1, serial);
            let (f3, fa3) = register_step(f2, accepted);
            let (i0, ia0) = register_start(id, Bringup::Identified);
            let (i1, ia1) = register_step(i0, serial);
            let (e0, ea0) = register_start(id, Bringup::Established);
            let (e1, ea1) = register_step(e0, accepted);
            &&& fa0 == AskView::Call(Call::RegisterSensor(id))
            &&& fa1 == AskView::ReadSerial
            &&& f1.known == Bringup::Identified
            &&& fa2 == AskView::CallWith(Call::RegisterSerial, serial.read()->0)
            &&& fa3 == AskView::Done(true)
            &&& f3.known == Bringup::Established
            &&& ia0 == AskView::ReadSerial
            &&& ia1 == AskView::CallWith(Call::RegisterSerial, serial.read()->0)
            &&& ea0 == AskView::Call(Call::ClearState)
            &&& ea1 == AskView::ReadSerial
            &&& register_step(f0, refused).1 == AskView::Done(false)
            &&& register_step(f0, refused).0.known == Bringup::Fresh
            &&& register_step(f2, refused).1 == AskView::Done(false)
            &&& register_step(f2, refused).0.known == Bringup::Identified
            &&& register_step(e0, refused).1 == AskView::Done(false)
        }),
{
}

/// Waking: power is cycled and the sensor is looked at at once, and then after 3, 10
/// and 50 ms, as long as it says nothing; after the fourth look it is given up.
pub proof fn sensor_is_looked_at_four_times(cycled: Event, slept: Event, quiet: Event, known: Seq<u16>)
    requires
        quiet matches Event::Status(Some(raw)) && raw@.len() == 16 && forall|i: int|
            0 <= i < 16 ==> raw@[i] == 0,
    ensures
        ({
            let m0 = Wake { stage: WakeStage::Power };
            let (m1, a1) = wake_step(m0, cycled, known);
            let (m2, a2) = wake_step(m1, quiet, known);
            let (m3, a3) = wake_step(m2, slept, known);
            let (m4, a4) = wake_step(m3, quiet, known);
            let (m5, a5) = wake_step(m4, slept, known);
            let (m6, a6) = wake_step(m5, quiet, known);
            let (m7, a7) = wake_step(m6, slept, known);
            let (m8, a8) = wake_step(m7, quiet, known);
            &&& a1 == AskView::Status
            &&& a2 == AskView::Sleep(3)
            &&& a3 == AskView::Status
            &&& a4 == AskView::Sleep(10)
            &&& a5 == AskView::Status
            &&& a6 == AskView::Sleep(50)
            &&& a7 == AskView::Status
            &&& a8 matches Ask::Woken(None)
        }),
{
}

/// A sensor that is idle and states an identifier that is known is registered under
/// it. If it acknowledged a patch then, it has one; otherwise it is patched. One whose
/// identifier is not known is given up.
pub proof fn known_sensor_is_registered_and_patched(
    status: Event,
    registered: Event,
    woken: Event,
    known: Seq<u16>,
    look: u32,
)
    requires
        look < 4,
        status matches Event::Status(Some(raw)) && raw@.len() == 16 && raw@[7] == 0 && crate::bytes::u16_at(
            raw@,
            12,
        ) != 0,
    ensures
        status matches Event::Status(Some(raw)) ==> {
            let id = crate::bytes::u16_at(raw@, 12) as u16;
            let m0 = Wake { stage: WakeStage::Look(look) };
            let (m1, a1) = wake_step(m0, status, known);
            let (m2, a2) = wake_step(m1, registered, known);
            let (m3, a3) = wake_step(m2, woken, known);
            &&& known.contains(id) ==> a1 == AskView::RegisterSensor(Identifier(id))
            &&& !known.contains(id) ==> (a1 matches Ask::Woken(None))
            &&& known.contains(id) && !registered.worked() ==> (a2 matches Ask::Woken(None))
            &&& known.contains(id) && registered.worked() && raw@[8] == 0x29 ==> (
            a2 matches Ask::Woken(Some(_)))
            &&& known.contains(id) && registered.worked() && raw@[8] != 0x29 ==> a2
                == AskView::ApplyPatch && (woken matches Event::Woken(p) ==> a3 == AskView::Woken(
                p,
            ))
        },
{
    match status {
        Event::Status(Some(raw)) => {
            if silent(raw@) {
                assert(raw@[12] == 0 && raw@[13] == 0);
                assert(crate::bytes::u16_at(raw@, 12) == 0);
            }
        },
        _ => {},
    }
}

/// Calibration asks for its steps in this order: the file is read, the module is
/// challenged with the 64 bytes of the enclave, its answer is committed as it is, the
/// file is loaded, and diagnostics are asked for, whose outcome does not matter.
pub proof fn calibration_in_order(
    file: Event,
    challenge: Event,
    sent: Event,
    replied: Event,
    committed: Event,
    loaded: Event,
    diagnosed: Event,
)
    requires
        file.read() is Some,
        challenge.payload() is Some,
        (challenge.payload()->0).len() == 64,
        sent.worked(),
        replied.read() is Some,
        committed.accepted(),
        loaded.transferred(),
    ensures
        ({
            let m0 = Calibrate { stage: CalibrateStage::File, file: Seq::<u8>::empty() };
            let (m1, a1) = calibrate_step(m0, file);
            let (m2, a2) = calibrate_step(m1, challenge);
            let (m3, a3) = calibrate_step(m2, sent);
            let (m4, a4) = calibrate_step(m3, replied);
            let (m5, a5) = calibrate_step(m4, committed);
            let (m6, a6) = calibrate_step(m5, loaded);
            let (m7, a7) = calibrate_step(m6, diagnosed);
            &&& a1 == AskView::Call(Call::ModuleChallenge)
            &&& a2 == AskView::SendModuleChallenge(challenge.payload()->0)
            &&& a3 == AskView::ReadModuleReply
            &&& a4 == AskView::CallWith(Call::ModuleCommit, replied.read()->0)
            &&& a5 == AskView::Transfer(Call::LoadCalibration, file.read()->0)
            &&& a6 == AskView::Call(Call::Diagnostics)
            &&& a7 == AskView::Done(true)
        }),
{
}

/// What fails before the diagnostics ends a calibration badly.
pub proof fn calibration_fails_with_its_steps(m: Calibrate<Seq<u8>>, e: Event)
    requires
        m.stage != CalibrateStage::Diagnose,
        e.read() is None,
        e.payload() is None,
        !e.worked(),
        !e.accepted(),
        !e.transferred(),
    ensures
        calibrate_step(m, e).1 == AskView::Done(false),
{
}

/// Parameters go to the sensor as the enclave gave them out, under their own kind, and
/// each kind has its own call. Only the transparent channel may be empty.
pub proof fn parameters_are_relayed(kind: ParamKind, given: Event, sent: Event)
    ensures
        params_call(ParamKind::Coverage) == Call::CoverageParams,
        params_call(ParamKind::Operation) == Call::OperationParams,
        params_call(ParamKind::Transparent) == Call::TransparentChannel,
        ({
            let m0 = RelayParameters { kind, sent: false };
            let (m1, a1) = relay_step(m0, given);
            let (m2, a2) = relay_step(m1, sent);
            &&& given.payload() is Some && (given.payload()->0).len() > 0 ==> a1
                == AskView::SendParameters(kind, given.payload()->0) && a2 == AskView::Done(
                sent.worked(),
            )
            &&& given.payload() is Some && (given.payload()->0).len() == 0 ==> a1 == AskView::Done(
                kind is Transparent,
            )
            &&& given.payload() is None ==> a1 == AskView::Done(false)
        }),
{
}

/// The devices were listed if the update was accepted and the policy that is asked for
/// behind it takes two bytes. The policy is asked for either way.
pub proof fn devices_are_listed(updated: Event, policy: Event)
    ensures
        ({
            let m0 = SyncDeviceView { stage: SyncStage::Update };
            let (m1, a1) = sync_step(m0, updated);
            &&& a1 == AskView::Call(Call::MatchPolicy)
            &&& sync_step(m1, policy).1 == AskView::Done(
                updated.accepted() && policy.payload() is Some && (policy.payload()->0).len() == 2,
            )
        }),
{
}

/// Setting up: the coverage, the operation and the transparent parameters are handed
/// on, the sensor is said to be ready, and the devices are listed. The first time, if
/// templates were restored and some are there, that is proved, and what is there is
/// reconciled; where it cannot be proved, or none are there, they no longer count as
/// restored.
pub proof fn setup_goes_on(
    synced: bool,
    restored: bool,
    worked: Event,
    accepted: Event,
    counted: Event,
    proved: Event,
)
    requires
        worked.worked(),
        accepted.accepted(),
    ensures
        ({
            let m0 = CompleteBringup {
                stage: CompleteStage::Relay(ParamKind::Coverage),
                synced,
                restored,
            };
            let (m1, a1) = complete_step(m0, worked);
            let (m2, a2) = complete_step(m1, worked);
            let (m3, a3) = complete_step(m2, worked);
            let (m4, a4) = complete_step(m3, accepted);
            let (m5, a5) = complete_step(m4, worked);
            let (m6, a6) = complete_step(m5, counted);
            let (m7, a7) = complete_step(m6, proved);
            let some = counted matches Event::Count(Some(n)) && n > 0;
            &&& a1 == AskView::RelayParameters(ParamKind::Operation)
            &&& a2 == AskView::RelayParameters(ParamKind::Transparent)
            &&& a3 == AskView::Call(Call::CompleteInit)
            &&& a4 == AskView::SyncDeviceView
            &&& synced ==> a5 == AskView::Done(true) && m5.restored == restored
            &&& !synced ==> a5 == AskView::CountIdentities && m5.synced
            &&& !synced && restored && some ==> a6 == AskView::ProveRestore
            &&& !synced && !(restored && some) ==> a6 == AskView::Done(true) && !m6.restored
            &&& !synced && restored && some && proved.worked() ==> a7
                == AskView::ReconcileIdentities && m7.restored
            &&& !synced && restored && some && !proved.worked() ==> a7 == AskView::Done(true)
                && !m7.restored
        }),
{
}

/// A setup whose parameters cannot be handed on, or that the enclave does not take,
/// fails; one whose devices could not be listed does not.
pub proof fn setup_fails(m: CompleteBringup, e: Event)
    requires
        !e.worked(),
        !e.accepted(),
    ensures
        m.stage is Relay || m.stage is Init ==> complete_step(m, e).1 == AskView::Done(false),
        m.stage is Sync ==> complete_step(m, e).1 == AskView::Done(true) && complete_step(
            m,
            e,
        ).0.synced == m.synced,
{
}

/// A sensor that is calibrated is woken and set up; one that is not is woken,
/// calibrated, woken again and set up, with the proof of the last waking.
pub proof fn sensor_comes_online(first: PatchLoaded, second: PatchLoaded, done: Event, worked: Event)
    requires
        worked.worked(),
    ensures
        ({
            let c0 = BringOnline { stage: OnlineStage::Wake, calibrated: true };
            let (c1, ca1) = online_step(c0, Event::Woken(Some(first)));
            let n0 = BringOnline { stage: OnlineStage::Wake, calibrated: false };
            let (n1, na1) = online_step(n0, Event::Woken(Some(first)));
            let (n2, na2) = online_step(n1, worked);
            let (n3, na3) = online_step(n2, Event::Woken(Some(second)));
            let (n4, na4) = online_step(n3, done);
            &&& ca1 == AskView::CompleteBringup(first)
            &&& online_step(c1, done).1 == AskView::Done(done.worked())
            &&& na1 == AskView::Calibrate
            &&& na2 == AskView::WakeSensor
            &&& na3 == AskView::CompleteBringup(second)
            &&& na4 == AskView::Done(done.worked())
            &&& online_step(c0, Event::Woken(None)).1 == AskView::Done(false)
            &&& online_step(n0, Event::Woken(None)).1 == AskView::Done(false)
            &&& online_step(n2, Event::Woken(None)).1 == AskView::Done(false)
            &&& !done.worked() ==> online_step(n1, done).1 == AskView::Done(false)
        }),
{
}

/// A sensor that is there is woken and set up when the device is first opened; none is
/// no success.
pub proof fn sensor_is_attached(patch: PatchLoaded, done: Event)
    ensures
        attach_start(false).1 == AskView::Done(false),
        attach_start(true).1 == AskView::WakeSensor,
        ({
            let (m1, a1) = attach_step(attach_start(true).0, Event::Woken(Some(patch)));
            &&& a1 == AskView::CompleteBringup(patch)
            &&& attach_step(m1, done).1 == AskView::Done(done.worked())
            &&& attach_step(attach_start(true).0, Event::Woken(None)).1 == AskView::Done(false)
        }),
{
}

/// What each of the steps of bringing the sensor up starts with.
pub proof fn first_steps_of_bringing_up(
    want: u8,
    kind: ParamKind,
    patch: PatchLoaded,
    synced: bool,
    restored: bool,
    calibrated: bool,
)
    ensures
        await_state_begins(want) == (AwaitState { want, looks: 0 }, AskView::Status),
        establish_session_begins() == (
            EstablishSession { stage: SessionStage::Share },
            AskView::Call(Call::SessionShare),
        ),
        init_sequence_begins() == (
            at_sequence(SequenceStage::Challenge),
            AskView::Call(Call::Challenge),
        ),
        apply_patch_begins() == (
            ApplyPatch { stage: PatchStage::Fetch, patch: Seq::<u8>::empty() },
            AskView::Call(Call::FetchPatch),
        ),
        wake_begins() == (at_wake(WakeStage::Power), AskView::PowerCycle),
        calibrate_begins() == (
            Calibrate { stage: CalibrateStage::File, file: Seq::<u8>::empty() },
            AskView::ReadCalibrationFile,
        ),
        relay_parameters_begins(kind) == (
            RelayParameters { kind, sent: false },
            AskView::Call(params_call(kind)),
        ),
        sync_device_view_begins() == (
            SyncDeviceView { stage: SyncStage::Update },
            AskView::Call(Call::UpdateDeviceList),
        ),
        complete_bringup_begins(patch, synced, restored) == (
            CompleteBringup { stage: CompleteStage::Relay(ParamKind::Coverage), synced, restored },
            AskView::RelayParameters(ParamKind::Coverage),
        ),
        bring_online_begins(calibrated) == (
            BringOnline { stage: OnlineStage::Wake, calibrated },
            AskView::WakeSensor,
        ),
{
}

/// A list that was given has forty bytes for each identity; one with a rest, or that was
/// not given, tells nothing.
pub proof fn identities_are_counted(verdict: Verdict, n: usize, rest: int)
    requires
        0 < rest < 40,
    ensures
        counted_identities(Verdict::Accepted, 40 * n) == Some(n),
        counted_identities(Verdict::Accepted, 40 * n + rest) is None,
        verdict != Verdict::Accepted ==> counted_identities(verdict, 40 * n) is None,
{
}

/// What counts as having gone well: a transfer that was answered with zero and no other, a
/// reply that was accepted, and a step that worked. Only an accepted reply has a payload.
pub proof fn events_are_judged(v: u32, verdict: Verdict, bytes: &[u8])
    ensures
        Event::Transferred(Some(DeviceStatus::Answered(v))).transferred() <==> v == 0,
        !Event::Transferred(Some(DeviceStatus::NotAnswered)).transferred(),
        !Event::Transferred(Some(DeviceStatus::ReportedWithoutStatus)).transferred(),
        !Event::Transferred(Some(DeviceStatus::BufferNeverWritten)).transferred(),
        !Event::Transferred(None).transferred(),
        !Event::Worked(true).transferred(),
        Event::Reply(verdict, bytes).accepted() <==> verdict == Verdict::Accepted,
        Event::Reply(Verdict::Accepted, bytes).payload() == Some(bytes@),
        verdict != Verdict::Accepted ==> Event::Reply(verdict, bytes).payload() is None,
        Event::Reply(verdict, bytes).missing() <==> verdict == Verdict::PrerequisiteMissing,
        Event::Worked(true).worked() && !Event::Worked(false).worked(),
        Event::Read(Some(bytes)).read() == Some(bytes@),
        Event::Read(None).read() is None,
{
}

} // verus!
