//! The operation that a program has under way on the fingerprint device, and
//! the requests by which it is started, followed and ended.

use crate::bio::{
    held, Identity, IdentityIndex, ENROL_STAGES, ENROL_USER_ID, IDENTITY_LEN, IFACE_VERSION,
    MAX_IDENTITIES, STATUS_LOCAL, SUSPEND_SLACK_NS, TOKEN_LIFETIME_NS,
};
use crate::bytes::{
    array_at, put_bytes, put_u32, put_u64, put_zeros, read_u32, same_arrays, u32_at, u32_le, u64_le,
    zeroed,
};
use crate::errno::Errno;
use crate::sbio::IdentityV1;
use crate::uuid::{uuid_at, zero_uuid, Uuid};
use vstd::prelude::*;

verus! {

/// What a program is told of an operation.
#[derive(Clone, Copy, Debug, PartialEq, Eq, Structural)]
pub enum State {
    Idle,
    Pending,
    Progress,
    Done,
    Failed,
}

impl State {
    pub open spec fn number(self) -> u32 {
        match self {
            State::Idle => 0,
            State::Pending => 1,
            State::Progress => 2,
            State::Done => 3,
            State::Failed => 4,
        }
    }

    pub fn wire(self) -> (n: u32)
        ensures
            n == self.number(),
    {
        match self {
            State::Idle => 0,
            State::Pending => 1,
            State::Progress => 2,
            State::Done => 3,
            State::Failed => 4,
        }
    }
}

/// What the person is to do.
#[derive(Clone, Copy, Debug, PartialEq, Eq, Structural)]
pub enum Guidance {
    Nothing,
    Place,
    LiftAndMove,
    HoldStill,
}

impl Guidance {
    pub open spec fn number(self) -> u32 {
        match self {
            Guidance::Nothing => 0,
            Guidance::Place => 1,
            Guidance::LiftAndMove => 2,
            Guidance::HoldStill => 3,
        }
    }

    pub fn wire(self) -> (n: u32)
        ensures
            n == self.number(),
    {
        match self {
            Guidance::Nothing => 0,
            Guidance::Place => 1,
            Guidance::LiftAndMove => 2,
            Guidance::HoldStill => 3,
        }
    }
}

/// What a comparison came to.
#[derive(Clone, Copy, Debug, PartialEq, Eq, Structural)]
pub enum Compared {
    NoMatch,
    Match,
    NotCompared,
}

impl Compared {
    pub open spec fn number(self) -> u32 {
        match self {
            Compared::NoMatch => 0,
            Compared::Match => 1,
            Compared::NotCompared => 2,
        }
    }

    pub fn wire(self) -> (n: u32)
        ensures
            n == self.number(),
    {
        match self {
            Compared::NoMatch => 0,
            Compared::Match => 1,
            Compared::NotCompared => 2,
        }
    }
}

/// Shows that the enclave named a finger in its reply.
#[derive(Clone, Copy, Debug, PartialEq, Eq, Structural)]
pub struct MatchEvidence {
    pub identity: Uuid,
}

impl MatchEvidence {
    pub fn from_enclave_reply(identity: Uuid) -> (e: MatchEvidence)
        ensures
            e == (MatchEvidence { identity }),
    {
        MatchEvidence { identity }
    }
}

#[derive(Clone, Copy, Debug, PartialEq, Eq, Structural)]
pub enum VerifyOutcome {
    Failed(u32),
    NoMatch,
    Matched(MatchEvidence),
}

#[derive(Clone, Copy, Debug, PartialEq, Eq, Structural)]
pub enum EnrolOutcome {
    Failed(u32),
    Done(Uuid),
}

/// What a match leaves for the program to collect, once.
#[derive(Clone, Copy)]
pub struct ResultToken {
    pub bytes: [u8; 32],
    pub nonce: [u8; 32],
    pub identity: Uuid,
    pub deadline_ns: u64,
    pub minted_mono_ns: u64,
    pub minted_boot_ns: u64,
}

/// What `a` exceeds `b` by.
pub open spec fn over(a: int, b: int) -> int {
    if a > b {
        a - b
    } else {
        0
    }
}

pub open spec fn deadline(mono: int) -> int {
    if mono + TOKEN_LIFETIME_NS > u64::MAX {
        u64::MAX as int
    } else {
        mono + TOKEN_LIFETIME_NS
    }
}

impl ResultToken {
    pub fn mint(
        evidence: &MatchEvidence,
        nonce: &[u8; 32],
        bytes: [u8; 32],
        mono_ns: u64,
        boot_ns: u64,
    ) -> (t: ResultToken)
        ensures
            t.bytes == bytes,
            t.nonce == *nonce,
            t.identity == evidence.identity,
            t.deadline_ns == deadline(mono_ns as int),
            t.minted_mono_ns == mono_ns,
            t.minted_boot_ns == boot_ns,
    {
        ResultToken {
            bytes,
            nonce: *nonce,
            identity: evidence.identity,
            deadline_ns: mono_ns.saturating_add(TOKEN_LIFETIME_NS),
            minted_mono_ns: mono_ns,
            minted_boot_ns: boot_ns,
        }
    }

    /// Whether a token holds at a moment: its time is not over, the machine has
    /// not been asleep since, and it was made for this request and finger.
    pub open spec fn is_usable(
        self,
        nonce: [u8; 32],
        identity: Uuid,
        mono_ns: u64,
        boot_ns: u64,
    ) -> bool {
        &&& mono_ns <= self.deadline_ns
        &&& over(
            over(boot_ns as int, self.minted_boot_ns as int),
            over(mono_ns as int, self.minted_mono_ns as int),
        ) <= SUSPEND_SLACK_NS
        &&& self.nonce == nonce
        &&& self.identity == identity
    }

    pub fn usable(&self, nonce: &[u8; 32], identity: &Uuid, mono_ns: u64, boot_ns: u64) -> (r: bool)
        ensures
            r == self.is_usable(*nonce, *identity, mono_ns, boot_ns),
    {
        if mono_ns > self.deadline_ns {
            return false;
        }
        let passed: u64 = boot_ns.saturating_sub(self.minted_boot_ns);
        let awake: u64 = mono_ns.saturating_sub(self.minted_mono_ns);
        if passed.saturating_sub(awake) > SUSPEND_SLACK_NS {
            return false;
        }
        same_arrays(&self.nonce, nonce) && self.identity == *identity
    }
}

/// The operation that is under way, or that ended last.
#[allow(inconsistent_fields)]
#[derive(Clone, Copy)]
pub enum Op {
    Idle,
    Enrol {
        label: [u8; 128],
        stage: u32,
        terminal: Option<EnrolOutcome>,
        guidance: Guidance,
        percent: u32,
    },
    Verify { nonce: [u8; 32], terminal: Option<VerifyOutcome> },
}

impl Op {
    pub open spec fn ended(self) -> bool {
        match self {
            Op::Idle => false,
            Op::Enrol { terminal, .. } => terminal is Some,
            Op::Verify { terminal, .. } => terminal is Some,
        }
    }

    pub open spec fn free(self) -> bool {
        self is Idle || self.ended()
    }

    pub fn is_terminal(&self) -> (r: bool)
        ensures
            r == self.ended(),
    {
        match self {
            Op::Idle => false,
            Op::Enrol { terminal, .. } => terminal.is_some(),
            Op::Verify { terminal, .. } => terminal.is_some(),
        }
    }

    pub fn may_start(&self) -> (r: bool)
        ensures
            r == self.free(),
    {
        match self {
            Op::Idle => true,
            _ => self.is_terminal(),
        }
    }
}

/// The one program that has the device open.
#[derive(Clone, Copy)]
pub struct Session {
    pub open: bool,
    pub op: Op,
    pub unseen: bool,
    pub token: Option<ResultToken>,
}

pub open spec fn blank_session() -> Session {
    Session { open: false, op: Op::Idle, unseen: false, token: None }
}

/// What a request calls for beyond its answer.
pub struct Handled {
    pub wake: bool,
    pub start_enrol: bool,
    pub start_verify: bool,
    pub delete_identity: Option<IdentityV1>,
    pub delete_identities: Vec<IdentityV1>,
}

impl Handled {
    pub open spec fn is(self, wake: bool, start_enrol: bool, start_verify: bool) -> bool {
        &&& self.wake == wake
        &&& self.start_enrol == start_enrol
        &&& self.start_verify == start_verify
        &&& self.delete_identity is None
        &&& self.delete_identities@ == Seq::<IdentityV1>::empty()
    }

    fn plain(wake: bool, start_enrol: bool, start_verify: bool) -> (h: Handled)
        ensures
            h.is(wake, start_enrol, start_verify),
    {
        Handled {
            wake,
            start_enrol,
            start_verify,
            delete_identity: None,
            delete_identities: Vec::new(),
        }
    }
}

/// The requests that the device takes.
#[derive(Clone, Copy, Debug, PartialEq, Eq, Structural)]
pub enum Command {
    GetInfo,
    List,
    EnrolStart,
    EnrolPoll,
    VerifyStart,
    VerifyPoll,
    Cancel,
    Delete,
    DeleteAll,
    Attest,
}

pub const IOC_GET_INFO: u32 = 0x8020_B101;

pub const IOC_LIST: u32 = 0x9208_B102;

pub const IOC_ENROL_START: u32 = 0x4088_B103;

pub const IOC_ENROL_POLL: u32 = 0x8028_B104;

pub const IOC_VERIFY_START: u32 = 0x4028_B105;

pub const IOC_VERIFY_POLL: u32 = 0x8048_B106;

pub const IOC_CANCEL: u32 = 0x0000_B107;

pub const IOC_DELETE: u32 = 0x4010_B108;

pub const IOC_DELETE_ALL: u32 = 0x0000_B109;

pub const IOC_ATTEST: u32 = 0xC0B0_B10A;

impl Command {
    /// The number of a request holds its direction, the length of its
    /// structure, the device's letter and a count.
    pub open spec fn number(self) -> int {
        match self {
            Command::GetInfo => ioc(2, 32, 1),
            Command::List => ioc(2, 4616, 2),
            Command::EnrolStart => ioc(1, 136, 3),
            Command::EnrolPoll => ioc(2, 40, 4),
            Command::VerifyStart => ioc(1, 40, 5),
            Command::VerifyPoll => ioc(2, 72, 6),
            Command::Cancel => ioc(0, 0, 7),
            Command::Delete => ioc(1, 16, 8),
            Command::DeleteAll => ioc(0, 0, 9),
            Command::Attest => ioc(3, 176, 10),
        }
    }

    /// The length of the structure of a request.
    pub fn struct_len(self) -> (n: usize)
        ensures
            n == self.number() / 0x1_0000 % 0x4000,
    {
        match self {
            Command::GetInfo => 32,
            Command::List => 4616,
            Command::EnrolStart => 136,
            Command::EnrolPoll => 40,
            Command::VerifyStart => 40,
            Command::VerifyPoll => 72,
            Command::Cancel => 0,
            Command::Delete => 16,
            Command::DeleteAll => 0,
            Command::Attest => 176,
        }
    }

    pub fn decode(cmd: u32) -> (r: Result<Command, Errno>)
        ensures
            match r {
                Ok(c) => c.number() == cmd,
                Err(e) => {
                    &&& e == Errno::ENOTTY
                    &&& forall|c: Command| #[trigger] c.number() != cmd
                },
            },
    {
        if cmd == IOC_GET_INFO {
            Ok(Command::GetInfo)
        } else if cmd == IOC_LIST {
            Ok(Command::List)
        } else if cmd == IOC_ENROL_START {
            Ok(Command::EnrolStart)
        } else if cmd == IOC_ENROL_POLL {
            Ok(Command::EnrolPoll)
        } else if cmd == IOC_VERIFY_START {
            Ok(Command::VerifyStart)
        } else if cmd == IOC_VERIFY_POLL {
            Ok(Command::VerifyPoll)
        } else if cmd == IOC_CANCEL {
            Ok(Command::Cancel)
        } else if cmd == IOC_DELETE {
            Ok(Command::Delete)
        } else if cmd == IOC_DELETE_ALL {
            Ok(Command::DeleteAll)
        } else if cmd == IOC_ATTEST {
            Ok(Command::Attest)
        } else {
            Err(Errno::ENOTTY)
        }
    }
}

pub open spec fn ioc(direction: int, size: int, nr: int) -> int {
    0x4000_0000 * direction + 0x1_0000 * size + 0x100 * 0xB1 + nr
}

pub open spec fn flag32(b: bool) -> int {
    if b {
        1
    } else {
        0
    }
}

/// What the device is.
pub open spec fn info_bytes(sensor_present: bool, enrolled: int) -> Seq<u8> {
    u32_le(IFACE_VERSION as int) + u32_le(flag32(sensor_present)) + u32_le(enrolled) + u32_le(
        MAX_IDENTITIES as int,
    ) + u32_le(ENROL_STAGES as int) + zeroed(12)
}

pub fn get_info(index: &IdentityIndex, sensor_present: bool) -> (out: Vec<u8>)
    requires
        index.wf(),
    ensures
        out@ == info_bytes(sensor_present, index@.len() as int),
{
    let mut out: Vec<u8> = Vec::new();
    put_u32(&mut out, IFACE_VERSION);
    put_u32(
        &mut out,
        if sensor_present {
            1
        } else {
            0
        },
    );
    put_u32(&mut out, index.total() as u32);
    put_u32(&mut out, MAX_IDENTITIES as u32);
    put_u32(&mut out, ENROL_STAGES);
    put_zeros(&mut out, 12);
    assert(out@ =~= info_bytes(sensor_present, index@.len() as int));
    out
}

/// The list of fingers: the count, the entries, and zeros for those that could
/// be there.
pub open spec fn list_bytes(entries: Seq<Identity>) -> Seq<u8> {
    u32_le(entries.len() as int) + zeroed(4) + crate::bio::entries_bytes(
        entries,
        entries.len() as int,
    ) + zeroed(144 * (MAX_IDENTITIES - entries.len()))
}

pub fn list(index: &IdentityIndex) -> (out: Vec<u8>)
    requires
        index.wf(),
    ensures
        out@ == list_bytes(index@),
{
    let mut out: Vec<u8> = Vec::new();
    put_u32(&mut out, index.total() as u32);
    put_zeros(&mut out, 4);
    index.put_entries(&mut out);
    put_zeros(&mut out, IDENTITY_LEN * (MAX_IDENTITIES - index.total()));
    assert(out@ =~= list_bytes(index@));
    out
}

/// The structure that starts an operation: no flags, nothing in reserve, and
/// what is particular to the operation behind.
pub open spec fn start_is_plain(request: Seq<u8>) -> bool {
    u32_at(request, 0) == 0 && u32_at(request, 4) == 0
}

/// Why an operation cannot be started on this session.
pub open spec fn start_refusal(
    request: Seq<u8>,
    s: Session,
    sensor_present: bool,
) -> Option<Errno> {
    if !start_is_plain(request) {
        Some(Errno::EINVAL)
    } else if !sensor_present {
        Some(Errno::ENODEV)
    } else if !s.op.free() {
        Some(Errno::EBUSY)
    } else {
        None
    }
}

pub open spec fn enrol_refusal(
    admin: bool,
    request: Result<Vec<u8>, Errno>,
    s: Session,
    index: Seq<Identity>,
    sensor_present: bool,
) -> Option<Errno> {
    if !admin {
        Some(Errno::EPERM)
    } else {
        match request {
            Err(e) => Some(e),
            Ok(b) => match start_refusal(b@, s, sensor_present) {
                Some(e) => Some(e),
                None => if index.len() >= MAX_IDENTITIES {
                    Some(Errno::ENOSPC)
                } else {
                    None
                },
            },
        }
    }
}

fn check_start(b: &Vec<u8>, s: &Session, sensor_present: bool) -> (r: Option<Errno>)
    requires
        b.len() >= 8,
    ensures
        r == start_refusal(b@, *s, sensor_present),
{
    if read_u32(b, 0) != 0 || read_u32(b, 4) != 0 {
        return Some(Errno::EINVAL);
    }
    if !sensor_present {
        return Some(Errno::ENODEV);
    }
    if !s.op.may_start() {
        return Some(Errno::EBUSY);
    }
    None
}

/// Starts an enrolment. It takes an administrator, a sensor, a session without
/// an operation under way, and room for one more finger.
pub fn enrol_start(
    session: &mut Session,
    index: &IdentityIndex,
    sensor_present: bool,
    admin: bool,
    request: Result<Vec<u8>, Errno>,
) -> (r: Result<Handled, Errno>)
    requires
        request is Ok ==> (request->Ok_0).len() == 136,
    ensures
        makes(*old(session), Act::EnrolStart, *final(session)),
        match enrol_refusal(admin, request, *old(session), index@, sensor_present) {
            Some(e) => r is Err && r->Err_0 == e && *final(session) == *old(session),
            None => {
                &&& r is Ok && (r->Ok_0).is(false, true, false)
                &&& final(session).op matches Op::Enrol {
                    label,
                    stage,
                    terminal,
                    guidance,
                    percent,
                }
                &&& label@ == (request->Ok_0)@.subrange(8, 136)
                &&& stage == 0
                &&& terminal is None
                &&& guidance == Guidance::Place
                &&& percent == 0
                &&& *final(session) == (Session { op: final(session).op, ..*old(session) })
            },
        },
{
    if !admin {
        return Err(Errno::EPERM);
    }
    let b: Vec<u8> = match request {
        Err(e) => {
            return Err(e);
        },
        Ok(b) => b,
    };
    if let Some(e) = check_start(&b, session, sensor_present) {
        return Err(e);
    }
    if index.total() >= MAX_IDENTITIES {
        return Err(Errno::ENOSPC);
    }
    let label: [u8; 128] = array_at(&b, 8);
    session.op =
    Op::Enrol { label, stage: 0, terminal: None, guidance: Guidance::Place, percent: 0 };
    Ok(Handled::plain(false, true, false))
}

/// Notes how far an enrolment has come. Tells whether there is one under way.
pub fn enrol_advance(
    session: &mut Session,
    completed: u32,
    percent_now: u32,
    guide: Guidance,
) -> (woke: bool)
    ensures
        makes(*old(session), Act::EnrolAdvance, *final(session)),
        woke == (old(session).op is Enrol && !old(session).op.ended()),
        !woke ==> *final(session) == *old(session),
        woke ==> *final(session) == (Session {
            op: Op::Enrol {
                label: old(session).op->label,
                stage: completed,
                terminal: None,
                guidance: guide,
                percent: percent_now,
            },
            unseen: true,
            ..*old(session)
        }),
{
    match session.op {
        Op::Enrol { label, terminal, .. } => {
            if terminal.is_none() {
                session.op =
                Op::Enrol {
                    label,
                    stage: completed,
                    terminal: None,
                    guidance: guide,
                    percent: percent_now,
                };
                session.unseen = true;
                return true;
            }
            false
        },
        _ => false,
    }
}

/// Notes what the person is to do now. Tells whether that is news.
pub fn enrol_guide(session: &mut Session, guide: Guidance) -> (woke: bool)
    ensures
        makes(*old(session), Act::EnrolGuide, *final(session)),
        woke == (old(session).op is Enrol && !old(session).op.ended()
            && old(session).op->guidance != guide),
        !woke ==> *final(session) == *old(session),
        woke ==> *final(session) == (Session {
            op: Op::Enrol {
                label: old(session).op->label,
                stage: old(session).op->stage,
                terminal: None,
                guidance: guide,
                percent: old(session).op->percent,
            },
            unseen: true,
            ..*old(session)
        }),
{
    match session.op {
        Op::Enrol { label, stage, terminal, guidance, percent } => {
            if terminal.is_none() && guidance != guide {
                session.op = Op::Enrol { label, stage, terminal: None, guidance: guide, percent };
                session.unseen = true;
                return true;
            }
            false
        },
        _ => false,
    }
}

/// An enrolment that ended with this outcome.
pub open spec fn enrol_ended(op: Op, outcome: EnrolOutcome) -> Op {
    Op::Enrol {
        label: op->label,
        stage: op->stage,
        terminal: Some(outcome),
        guidance: op->guidance,
        percent: op->percent,
    }
}

/// What ending an enrolment does: whether there was one to end, what the
/// session then is, and what the index holds. A finger that cannot be filed
/// fails the enrolment.
pub open spec fn enrol_filed(s: Session, entries: Seq<Identity>, outcome: Result<Uuid, u32>) -> (
    bool,
    Session,
    Seq<Identity>,
) {
    if s.op is Enrol && !s.op.ended() {
        match outcome {
            Err(status) => (
                true,
                Session {
                    op: enrol_ended(s.op, EnrolOutcome::Failed(status)),
                    unseen: true,
                    ..s
                },
                entries,
            ),
            Ok(uuid) => if held(entries, uuid) || entries.len() < MAX_IDENTITIES {
                (
                    true,
                    Session {
                        op: enrol_ended(s.op, EnrolOutcome::Done(uuid)),
                        unseen: true,
                        ..s
                    },
                    crate::bio::with(entries, Identity { uuid, label: s.op->label }),
                )
            } else {
                (
                    true,
                    Session {
                        op: enrol_ended(s.op, EnrolOutcome::Failed(STATUS_LOCAL)),
                        unseen: true,
                        ..s
                    },
                    entries,
                )
            },
        }
    } else {
        (false, s, entries)
    }
}

/// Ends an enrolment and files the finger under the label that was given.
pub fn enrol_finish(
    session: &mut Session,
    index: &mut IdentityIndex,
    outcome: Result<Uuid, u32>,
) -> (filed: bool)
    requires
        old(index).wf(),
    ensures
        makes(*old(session), Act::EnrolFinish, *final(session)),
        final(index).wf(),
        (filed, *final(session), final(index)@) == enrol_filed(
            *old(session),
            old(index)@,
            outcome,
        ),
{
    match session.op {
        Op::Enrol { label, stage, terminal, guidance, percent } => {
            if terminal.is_some() {
                return false;
            }
            let ended = match outcome {
                Ok(uuid) => match index.insert(Identity { uuid, label }) {
                    Ok(_) => EnrolOutcome::Done(uuid),
                    Err(_) => EnrolOutcome::Failed(STATUS_LOCAL),
                },
                Err(status) => EnrolOutcome::Failed(status),
            };
            session.op = Op::Enrol { label, stage, terminal: Some(ended), guidance, percent };
            session.unseen = true;
            true
        },
        _ => false,
    }
}

pub open spec fn enrol_live(s: Session) -> bool {
    s.op is Enrol && !s.op.ended() && s.open
}

pub open spec fn verify_live(s: Session) -> bool {
    s.op is Verify && !s.op.ended() && s.open
}

pub fn enrol_is_live(session: &Session) -> (r: bool)
    ensures
        r == enrol_live(*session),
{
    match session.op {
        Op::Enrol { terminal, .. } => terminal.is_none() && session.open,
        _ => false,
    }
}

pub fn verify_is_live(session: &Session) -> (r: bool)
    ensures
        r == verify_live(*session),
{
    match session.op {
        Op::Verify { terminal, .. } => terminal.is_none() && session.open,
        _ => false,
    }
}

pub fn capture_is_live(session: &Session) -> (r: bool)
    ensures
        r == (enrol_live(*session) || verify_live(*session)),
{
    enrol_is_live(session) || verify_is_live(session)
}

/// What a program that follows an enrolment is told.
#[derive(Clone, Copy, Debug, PartialEq, Eq, Structural)]
pub struct EnrolPoll {
    pub state: State,
    pub stage: u32,
    pub status: u32,
    pub uuid: Uuid,
    pub guidance: Guidance,
    pub progress_percent: u32,
}

pub open spec fn enrol_poll_bytes(p: EnrolPoll) -> Seq<u8> {
    u32_le(p.state.number() as int) + u32_le(p.stage as int) + u32_le(ENROL_STAGES as int) + u32_le(
        p.status as int,
    ) + p.uuid@ + u32_le(p.guidance.number() as int) + u32_le(p.progress_percent as int)
}

impl EnrolPoll {
    pub fn to_bytes(&self) -> (out: Vec<u8>)
        ensures
            out@ == enrol_poll_bytes(*self),
    {
        let mut out: Vec<u8> = Vec::new();
        put_u32(&mut out, self.state.wire());
        put_u32(&mut out, self.stage);
        put_u32(&mut out, ENROL_STAGES);
        put_u32(&mut out, self.status);
        self.uuid.put(&mut out);
        put_u32(&mut out, self.guidance.wire());
        put_u32(&mut out, self.progress_percent);
        assert(out@ =~= enrol_poll_bytes(*self));
        out
    }
}

pub open spec fn enrol_view(s: Session) -> Result<EnrolPoll, Errno> {
    match s.op {
        Op::Idle => Ok(
            EnrolPoll {
                state: State::Idle,
                stage: 0,
                status: 0,
                uuid: zero_uuid(),
                guidance: Guidance::Nothing,
                progress_percent: 0,
            },
        ),
        Op::Verify { .. } => Err(Errno::EBUSY),
        Op::Enrol { stage, terminal, guidance, percent, .. } => Ok(
            EnrolPoll {
                state: match terminal {
                    None => if s.unseen {
                        State::Progress
                    } else {
                        State::Pending
                    },
                    Some(EnrolOutcome::Failed(_)) => State::Failed,
                    Some(EnrolOutcome::Done(_)) => State::Done,
                },
                stage,
                status: match terminal {
                    Some(EnrolOutcome::Failed(status)) => status,
                    _ => 0,
                },
                uuid: match terminal {
                    Some(EnrolOutcome::Done(uuid)) => uuid,
                    _ => zero_uuid(),
                },
                guidance,
                progress_percent: percent,
            },
        ),
    }
}

/// What a program that follows an enrolment is to be told.
pub fn enrol_poll(session: &Session) -> (r: Result<EnrolPoll, Errno>)
    ensures
        r == enrol_view(*session),
{
    match session.op {
        Op::Idle => Ok(
            EnrolPoll {
                state: State::Idle,
                stage: 0,
                status: 0,
                uuid: Uuid::zero(),
                guidance: Guidance::Nothing,
                progress_percent: 0,
            },
        ),
        Op::Verify { .. } => Err(Errno::EBUSY),
        Op::Enrol { stage, terminal, guidance, percent, .. } => {
            let mut out = EnrolPoll {
                state: State::Pending,
                stage,
                status: 0,
                uuid: Uuid::zero(),
                guidance,
                progress_percent: percent,
            };
            match terminal {
                None => {
                    if session.unseen {
                        out.state = State::Progress;
                    }
                },
                Some(EnrolOutcome::Failed(status)) => {
                    out.state = State::Failed;
                    out.status = status;
                },
                Some(EnrolOutcome::Done(uuid)) => {
                    out.state = State::Done;
                    out.uuid = uuid;
                },
            }
            Ok(out)
        },
    }
}

/// Takes note that the program was told.
pub fn enrol_polled(session: &mut Session)
    ensures
        makes(*old(session), Act::EnrolPolled, *final(session)),
        *final(session) == (Session { unseen: false, ..*old(session) }),
{
    session.unseen = false;
}

pub open spec fn verify_refusal(
    request: Result<Vec<u8>, Errno>,
    s: Session,
    sensor_present: bool,
) -> Option<Errno> {
    match request {
        Err(e) => Some(e),
        Ok(b) => start_refusal(b@, s, sensor_present),
    }
}

/// Starts a verification. With no finger enrolled it has ended as it starts,
/// without a match.
pub fn verify_start(
    session: &mut Session,
    index: &IdentityIndex,
    sensor_present: bool,
    request: Result<Vec<u8>, Errno>,
) -> (r: Result<Handled, Errno>)
    requires
        request is Ok ==> (request->Ok_0).len() == 40,
    ensures
        makes(*old(session), Act::VerifyStart, *final(session)),
        match verify_refusal(request, *old(session), sensor_present) {
            Some(e) => r is Err && r->Err_0 == e && *final(session) == *old(session),
            None => {
                &&& final(session).op matches Op::Verify { nonce, terminal }
                &&& nonce@ == (request->Ok_0)@.subrange(8, 40)
                &&& terminal == (if index@.len() == 0 {
                    Some(VerifyOutcome::NoMatch)
                } else {
                    None
                })
                &&& r is Ok
                &&& (r->Ok_0).is(index@.len() == 0, false, index@.len() != 0)
                &&& *final(session) == (Session {
                    op: final(session).op,
                    token: None,
                    unseen: index@.len() == 0 || old(session).unseen,
                    ..*old(session)
                })
            },
        },
{
    let b: Vec<u8> = match request {
        Err(e) => {
            return Err(e);
        },
        Ok(b) => b,
    };
    if let Some(e) = check_start(&b, session, sensor_present) {
        return Err(e);
    }
    let nonce: [u8; 32] = array_at(&b, 8);
    session.token = None;
    if index.total() == 0 {
        session.op = Op::Verify { nonce, terminal: Some(VerifyOutcome::NoMatch) };
        session.unseen = true;
        return Ok(Handled::plain(true, false, false));
    }
    session.op = Op::Verify { nonce, terminal: None };
    Ok(Handled::plain(false, false, true))
}

/// Whether `t` is the token that a match mints for this request at this time.
pub open spec fn minted(
    t: ResultToken,
    evidence: MatchEvidence,
    nonce: [u8; 32],
    bytes: [u8; 32],
    mono_ns: u64,
    boot_ns: u64,
) -> bool {
    t == (ResultToken {
        bytes,
        nonce,
        identity: evidence.identity,
        deadline_ns: deadline(mono_ns as int) as u64,
        minted_mono_ns: mono_ns,
        minted_boot_ns: boot_ns,
    })
}

/// Ends a verification. A match leaves a token, and nothing else does.
pub fn verify_finish(
    session: &mut Session,
    outcome: VerifyOutcome,
    token_bytes: [u8; 32],
    mono_ns: u64,
    boot_ns: u64,
) -> (filed: bool)
    ensures
        makes(*old(session), Act::VerifyFinish(outcome), *final(session)),
        filed == (old(session).op is Verify && !old(session).op.ended()),
        !filed ==> *final(session) == *old(session),
        filed ==> {
            &&& *final(session) == (Session {
                op: Op::Verify { nonce: old(session).op->nonce, terminal: Some(outcome) },
                unseen: true,
                token: final(session).token,
                ..*old(session)
            })
            &&& match outcome {
                VerifyOutcome::Matched(evidence) => {
                    &&& final(session).token matches Some(t)
                    &&& minted(
                        t,
                        evidence,
                        old(session).op->nonce,
                        token_bytes,
                        mono_ns,
                        boot_ns,
                    )
                },
                _ => final(session).token is None,
            }
        },
{
    match session.op {
        Op::Verify { nonce, terminal } => {
            if terminal.is_some() {
                return false;
            }
            let token = match outcome {
                VerifyOutcome::Matched(evidence) => Some(
                    ResultToken::mint(&evidence, &nonce, token_bytes, mono_ns, boot_ns),
                ),
                _ => None,
            };
            session.op = Op::Verify { nonce, terminal: Some(outcome) };
            session.token = token;
            session.unseen = true;
            true
        },
        _ => false,
    }
}

/// What a program that follows a verification is told.
#[derive(Clone, Copy)]
pub struct VerifyPoll {
    pub state: State,
    pub result: Compared,
    pub status: u32,
    pub uuid: Uuid,
    pub token: Option<[u8; 32]>,
    pub deadline_ns: u64,
}

pub open spec fn token_bytes_of(p: VerifyPoll) -> Seq<u8> {
    match p.token {
        Some(t) => t@,
        None => zeroed(32),
    }
}

pub open spec fn verify_poll_bytes(p: VerifyPoll) -> Seq<u8> {
    u32_le(p.state.number() as int) + u32_le(p.result.number() as int) + u32_le(p.status as int)
        + zeroed(4) + p.uuid@ + token_bytes_of(p) + u64_le(p.deadline_ns as int)
}

impl VerifyPoll {
    pub fn to_bytes(&self) -> (out: Vec<u8>)
        ensures
            out@ == verify_poll_bytes(*self),
    {
        let mut out: Vec<u8> = Vec::new();
        put_u32(&mut out, self.state.wire());
        put_u32(&mut out, self.result.wire());
        put_u32(&mut out, self.status);
        put_zeros(&mut out, 4);
        self.uuid.put(&mut out);
        match self.token {
            Some(t) => {
                put_bytes(&mut out, t.as_slice());
            },
            None => {
                put_zeros(&mut out, 32);
            },
        }
        put_u64(&mut out, self.deadline_ns);
        assert(out@ =~= verify_poll_bytes(*self));
        out
    }
}

pub open spec fn told(state: State, result: Compared, status: u32) -> VerifyPoll {
    VerifyPoll { state, result, status, uuid: zero_uuid(), token: None, deadline_ns: 0 }
}

/// What is told of a verification at a moment. A match is told only with its
/// token in hand; without one that holds, nothing was compared.
pub open spec fn verify_view(s: Session, mono_ns: u64, boot_ns: u64) -> Result<VerifyPoll, Errno> {
    match s.op {
        Op::Idle => Ok(told(State::Idle, Compared::NoMatch, 0)),
        Op::Enrol { .. } => Err(Errno::EBUSY),
        Op::Verify { nonce, terminal } => Ok(
            match terminal {
                None => told(
                    if s.unseen {
                        State::Progress
                    } else {
                        State::Pending
                    },
                    Compared::NoMatch,
                    0,
                ),
                Some(VerifyOutcome::Failed(status)) => told(
                    State::Failed,
                    Compared::NotCompared,
                    status,
                ),
                Some(VerifyOutcome::NoMatch) => told(State::Done, Compared::NoMatch, 0),
                Some(VerifyOutcome::Matched(evidence)) => match s.token {
                    Some(t) => if t.is_usable(nonce, evidence.identity, mono_ns, boot_ns) {
                        VerifyPoll {
                            state: State::Done,
                            result: Compared::Match,
                            status: 0,
                            uuid: evidence.identity,
                            token: Some(t.bytes),
                            deadline_ns: t.deadline_ns,
                        }
                    } else {
                        told(State::Done, Compared::NotCompared, 0)
                    },
                    None => told(State::Done, Compared::NotCompared, 0),
                },
            },
        ),
    }
}

fn tell(state: State, result: Compared, status: u32) -> (p: VerifyPoll)
    ensures
        p == told(state, result, status),
{
    VerifyPoll { state, result, status, uuid: Uuid::zero(), token: None, deadline_ns: 0 }
}

/// What a program that follows a verification is to be told.
pub fn verify_poll(session: &Session, mono_ns: u64, boot_ns: u64) -> (r: Result<VerifyPoll, Errno>)
    ensures
        r == verify_view(*session, mono_ns, boot_ns),
{
    match session.op {
        Op::Idle => Ok(tell(State::Idle, Compared::NoMatch, 0)),
        Op::Enrol { .. } => Err(Errno::EBUSY),
        Op::Verify { nonce, terminal } => match terminal {
            None => Ok(
                tell(
                    if session.unseen {
                        State::Progress
                    } else {
                        State::Pending
                    },
                    Compared::NoMatch,
                    0,
                ),
            ),
            Some(VerifyOutcome::Failed(status)) => Ok(
                tell(State::Failed, Compared::NotCompared, status),
            ),
            Some(VerifyOutcome::NoMatch) => Ok(tell(State::Done, Compared::NoMatch, 0)),
            Some(VerifyOutcome::Matched(evidence)) => {
                if let Some(t) = session.token {
                    if t.usable(&nonce, &evidence.identity, mono_ns, boot_ns) {
                        return Ok(
                            VerifyPoll {
                                state: State::Done,
                                result: Compared::Match,
                                status: 0,
                                uuid: evidence.identity,
                                token: Some(t.bytes),
                                deadline_ns: t.deadline_ns,
                            },
                        );
                    }
                }
                Ok(tell(State::Done, Compared::NotCompared, 0))
            },
        },
    }
}

pub open spec fn after_verify_poll(s: Session, p: VerifyPoll) -> Session {
    Session {
        unseen: false,
        token: if p.token is Some {
            None
        } else {
            s.token
        },
        ..s
    }
}

/// Takes note that the program was told. A token that it was given is spent;
/// before the copy to the program has succeeded, it is not.
pub fn verify_polled(session: &mut Session, p: &VerifyPoll)
    ensures
        makes(*old(session), Act::VerifyPolled(*p), *final(session)),
        *final(session) == after_verify_poll(*old(session), *p),
{
    if p.token.is_some() {
        session.token = None;
    }
    session.unseen = false;
}

/// Ends the operation that is under way as failed, if there is one.
pub fn cancel(session: &mut Session) -> (r: Result<Handled, Errno>)
    ensures
        makes(*old(session), Act::Cancel, *final(session)),
        match r {
            Err(e) => {
                &&& e == Errno::ENOENT
                &&& old(session).op.free()
                &&& *final(session) == *old(session)
            },
            Ok(h) => {
                &&& !old(session).op.free()
                &&& h.is(true, false, false)
                &&& *final(session) == (Session {
                    op: match old(session).op {
                        Op::Enrol { .. } => enrol_ended(
                            old(session).op,
                            EnrolOutcome::Failed(STATUS_LOCAL),
                        ),
                        Op::Verify { nonce, .. } => Op::Verify {
                            nonce,
                            terminal: Some(VerifyOutcome::Failed(STATUS_LOCAL)),
                        },
                        Op::Idle => Op::Idle,
                    },
                    token: None,
                    unseen: true,
                    ..*old(session)
                })
            },
        },
{
    if session.op.is_terminal() {
        return Err(Errno::ENOENT);
    }
    match session.op {
        Op::Idle => {
            return Err(Errno::ENOENT);
        },
        Op::Enrol { label, stage, guidance, percent, .. } => {
            session.op =
            Op::Enrol {
                label,
                stage,
                terminal: Some(EnrolOutcome::Failed(STATUS_LOCAL)),
                guidance,
                percent,
            };
        },
        Op::Verify { nonce, .. } => {
            session.op =
            Op::Verify { nonce, terminal: Some(VerifyOutcome::Failed(STATUS_LOCAL)) };
        },
    }
    session.token = None;
    session.unseen = true;
    Ok(Handled::plain(true, false, false))
}

/// Has one finger deleted. One that is not known is as good as deleted.
pub fn delete(index: &IdentityIndex, admin: bool, request: Result<Vec<u8>, Errno>) -> (r: Result<
    Handled,
    Errno,
>)
    requires
        request is Ok ==> (request->Ok_0).len() == 16,
    ensures
        match r {
            Err(e) => if !admin {
                e == Errno::EPERM
            } else {
                request is Err && e == request->Err_0
            },
            Ok(h) => {
                let uuid = uuid_at((request->Ok_0)@, 0);
                &&& admin && request is Ok
                &&& !h.wake && !h.start_enrol && !h.start_verify
                &&& h.delete_identities@ == Seq::<IdentityV1>::empty()
                &&& h.delete_identity == (if held(index@, uuid) {
                    Some(IdentityV1 { user_id: ENROL_USER_ID, uuid })
                } else {
                    None
                })
            },
        },
{
    if !admin {
        return Err(Errno::EPERM);
    }
    match request {
        Err(e) => Err(e),
        Ok(b) => {
            let uuid = Uuid::read(&b, 0);
            let mut h = Handled::plain(false, false, false);
            h.delete_identity = index.identity_v1_for(&uuid, ENROL_USER_ID);
            Ok(h)
        },
    }
}

/// Has every finger deleted, in the order in which they are known.
pub fn delete_all(index: &IdentityIndex, admin: bool) -> (r: Result<Handled, Errno>)
    ensures
        match r {
            Err(e) => !admin && e == Errno::EPERM,
            Ok(h) => {
                &&& admin
                &&& !h.wake && !h.start_enrol && !h.start_verify
                &&& h.delete_identity is None
                &&& h.delete_identities@.len() == index@.len()
                &&& forall|i: int|
                    0 <= i < index@.len() ==> #[trigger] h.delete_identities@[i] == (IdentityV1 {
                        user_id: ENROL_USER_ID,
                        uuid: index@[i].uuid,
                    })
            },
        },
{
    if !admin {
        return Err(Errno::EPERM);
    }
    let mut h = Handled::plain(false, false, false);
    let mut ids: Vec<IdentityV1> = Vec::new();
    let mut i: usize = 0;
    while i < index.total()
        invariant
            i <= index@.len(),
            ids.len() == i,
            forall|j: int|
                0 <= j < i ==> #[trigger] ids@[j] == (IdentityV1 {
                    user_id: ENROL_USER_ID,
                    uuid: index@[j].uuid,
                }),
        decreases index@.len() - i,
    {
        ids.push(IdentityV1::from_index(ENROL_USER_ID, index.entry(i).uuid));
        i = i + 1;
    }
    h.delete_identities = ids;
    Ok(h)
}

impl Session {
    pub fn new() -> (s: Session)
        ensures
            s == blank_session(),
    {
        Session { open: false, op: Op::Idle, unseen: false, token: None }
    }

    pub fn ready(&self) -> (r: bool)
        ensures
            r == self.unseen,
    {
        self.unseen
    }
}

/// Opens the device for one program at a time, and afresh.
pub fn open(session: &mut Session) -> (r: Result<(), Errno>)
    ensures
        makes(*old(session), Act::Open, *final(session)),
        match r {
            Ok(_) => !old(session).open && *final(session) == (Session {
                open: true,
                ..blank_session()
            }),
            Err(e) => old(session).open && e == Errno::EBUSY && *final(session) == *old(session),
        },
{
    if session.open {
        return Err(Errno::EBUSY);
    }
    *session = Session::new();
    session.open = true;
    Ok(())
}

/// Closes the device. Nothing of the operation is left.
pub fn release(session: &mut Session)
    ensures
        makes(*old(session), Act::Release, *final(session)),
        *final(session) == blank_session(),
{
    *session = Session::new();
}

/// What can be done to a session.
pub enum Act {
    Open,
    Release,
    EnrolStart,
    EnrolAdvance,
    EnrolGuide,
    EnrolFinish,
    EnrolPolled,
    VerifyStart,
    VerifyFinish(VerifyOutcome),
    VerifyPolled(VerifyPoll),
    Cancel,
}

/// Whether an enrolment is under way.
pub open spec fn enrolling(s: Session) -> bool {
    s.op is Enrol && !s.op.ended()
}

/// Whether a verification is under way.
pub open spec fn verifying(s: Session) -> bool {
    s.op is Verify && !s.op.ended()
}

/// What doing this to a session can make of it. What is refused leaves it as it
/// is.
pub open spec fn makes(s: Session, act: Act, t: Session) -> bool {
    match act {
        Act::Open => t == s || (!s.open && t == (Session { open: true, ..blank_session() })),
        Act::Release => t == blank_session(),
        Act::EnrolStart => t == s || (s.op.free() && enrolling(t) && t == (Session {
            op: t.op,
            ..s
        })),
        Act::EnrolAdvance | Act::EnrolGuide => t == s || (enrolling(s) && enrolling(t) && t == (
        Session { op: t.op, unseen: true, ..s })),
        Act::EnrolFinish => t == s || (enrolling(s) && t.op is Enrol && t.op.ended() && t == (
        Session { op: t.op, unseen: true, ..s })),
        Act::EnrolPolled => t == (Session { unseen: false, ..s }),
        Act::VerifyStart => t == s || (s.op.free() && t.op is Verify && t == (Session {
            op: t.op,
            token: None,
            unseen: t.unseen,
            ..s
        })),
        Act::VerifyFinish(outcome) => if verifying(s) {
            t == (Session {
                op: Op::Verify { nonce: s.op->nonce, terminal: Some(outcome) },
                unseen: true,
                token: t.token,
                ..s
            }) && (t.token is Some) == (outcome is Matched)
        } else {
            t == s
        },
        Act::VerifyPolled(p) => t == after_verify_poll(s, p),
        Act::Cancel => t == s || (!s.op.free() && t.op.ended() && t == (Session {
            op: t.op,
            token: None,
            unseen: true,
            ..s
        })),
    }
}

/// Whether doing this ends a verification with a match.
pub open spec fn matches_anew(s: Session, act: Act) -> bool {
    act matches Act::VerifyFinish(VerifyOutcome::Matched(_)) && verifying(s)
}

/// Whether these are the states of a session to which these things are done, one
/// after the other.
pub open spec fn is_history(states: Seq<Session>, acts: Seq<Act>) -> bool {
    &&& states.len() == acts.len() + 1
    &&& forall|i: int|
        #![trigger acts[i]]
        0 <= i < acts.len() ==> makes(states[i], acts[i], states[i + 1])
}

/// A match is told at most once: after it was told, whatever is done to the
/// session, no look gives a match or a token before another verification has
/// ended with a match.
pub proof fn match_is_told_once(
    s: Session,
    mono_ns: u64,
    boot_ns: u64,
    states: Seq<Session>,
    acts: Seq<Act>,
    n: int,
    later: u64,
    later_boot: u64,
)
    requires
        verify_view(s, mono_ns, boot_ns) is Ok,
        (verify_view(s, mono_ns, boot_ns)->Ok_0).result == Compared::Match,
        is_history(states, acts),
        states[0] == after_verify_poll(s, verify_view(s, mono_ns, boot_ns)->Ok_0),
        0 <= n < states.len(),
        forall|i: int| 0 <= i < n ==> !matches_anew(#[trigger] states[i], acts[i]),
    ensures
        states[n].token is None,
        verify_view(states[n], later, later_boot) matches Ok(p) ==> p.result != Compared::Match
            && p.token is None,
    decreases n,
{
    if n > 0 {
        match_is_told_once(s, mono_ns, boot_ns, states, acts, n - 1, later, later_boot);
        assert(makes(states[n - 1], acts[n - 1], states[n]));
        assert(!matches_anew(states[n - 1], acts[n - 1]));
    }
}

/// Another verification ends with a match only after it was started: between two
/// matches that are told lies the start of a verification.
pub proof fn next_match_needs_a_start(states: Seq<Session>, acts: Seq<Act>, n: int)
    requires
        is_history(states, acts),
        0 <= n < acts.len(),
        !verifying(states[0]),
        matches_anew(states[n], acts[n]),
    ensures
        exists|k: int| 0 <= k < n && #[trigger] acts[k] is VerifyStart,
{
    if !(exists|k: int| 0 <= k < n && #[trigger] acts[k] is VerifyStart) {
        no_start_no_verification(states, acts, n);
    }
}

proof fn no_start_no_verification(states: Seq<Session>, acts: Seq<Act>, n: int)
    requires
        is_history(states, acts),
        0 <= n < states.len(),
        !verifying(states[0]),
        forall|k: int| 0 <= k < n ==> !(#[trigger] acts[k] is VerifyStart),
    ensures
        !verifying(states[n]),
    decreases n,
{
    if n > 0 {
        no_start_no_verification(states, acts, n - 1);
        assert(makes(states[n - 1], acts[n - 1], states[n]));
    }
}

/// A match is told only of a verification that ended in one, of the finger that
/// the enclave named, and before the token's time is over.
pub proof fn match_needs_evidence(s: Session, mono_ns: u64, boot_ns: u64)
    requires
        verify_view(s, mono_ns, boot_ns) is Ok,
        (verify_view(s, mono_ns, boot_ns)->Ok_0).result == Compared::Match,
    ensures
        s.op matches Op::Verify { nonce, terminal } && terminal == Some(
            VerifyOutcome::Matched(
                MatchEvidence { identity: (verify_view(s, mono_ns, boot_ns)->Ok_0).uuid },
            ),
        ) && s.token is Some && (s.token->0).nonce == nonce && mono_ns <= (s.token->0).deadline_ns,
{
}

/// A token is handed out only together with a match.
pub proof fn token_means_match(s: Session, mono_ns: u64, boot_ns: u64)
    requires
        verify_view(s, mono_ns, boot_ns) is Ok,
    ensures
        (verify_view(s, mono_ns, boot_ns)->Ok_0).token is Some <==> (verify_view(
            s,
            mono_ns,
            boot_ns,
        )->Ok_0).result == Compared::Match,
{
}

/// A token is good for the finger and the request that it was minted for until
/// its time is over, and no longer, unless the machine slept.
pub proof fn token_lives_its_time(
    t: ResultToken,
    evidence: MatchEvidence,
    nonce: [u8; 32],
    bytes: [u8; 32],
    mono_ns: u64,
    boot_ns: u64,
    later: u64,
    later_boot: u64,
)
    requires
        minted(t, evidence, nonce, bytes, mono_ns, boot_ns),
        mono_ns <= later,
        mono_ns + TOKEN_LIFETIME_NS <= u64::MAX,
    ensures
        t.is_usable(nonce, evidence.identity, later, later_boot) <==> later - mono_ns
            <= TOKEN_LIFETIME_NS && over(later_boot as int, boot_ns as int) - (later - mono_ns)
            <= SUSPEND_SLACK_NS,
{
}

/// What a program reads has these numbers.
pub proof fn numbers_that_programs_read()
    ensures
        State::Idle.number() == 0,
        State::Pending.number() == 1,
        State::Progress.number() == 2,
        State::Done.number() == 3,
        State::Failed.number() == 4,
        Guidance::Nothing.number() == 0,
        Guidance::Place.number() == 1,
        Guidance::LiftAndMove.number() == 2,
        Guidance::HoldStill.number() == 3,
        Compared::NoMatch.number() == 0,
        Compared::Match.number() == 1,
        Compared::NotCompared.number() == 2,
{
}

/// The requests have these numbers, and no two the same.
pub proof fn requests_have_their_numbers(a: Command, b: Command)
    ensures
        Command::GetInfo.number() == 0x8020_b101,
        Command::List.number() == 0x9208_b102,
        Command::EnrolStart.number() == 0x4088_b103,
        Command::EnrolPoll.number() == 0x8028_b104,
        Command::VerifyStart.number() == 0x4028_b105,
        Command::VerifyPoll.number() == 0x8048_b106,
        Command::Cancel.number() == 0xb107,
        Command::Delete.number() == 0x4010_b108,
        Command::DeleteAll.number() == 0xb109,
        Command::Attest.number() == 0xc0b0_b10a,
        a.number() == b.number() ==> a == b,
{
}

/// What the device is: version 4, whether there is a sensor, how many fingers there
/// are, room for 32, and eight stages to an enrolment.
pub proof fn info_is_laid_out(sensor_present: bool, enrolled: u32)
    ensures
        ({
            let b = info_bytes(sensor_present, enrolled as int);
            &&& b.len() == 32
            &&& u32_at(b, 0) == 4
            &&& u32_at(b, 4) == if sensor_present {
                1int
            } else {
                0int
            }
            &&& u32_at(b, 8) == enrolled
            &&& u32_at(b, 12) == 32
            &&& u32_at(b, 16) == 8
            &&& forall|i: int| 20 <= i < 32 ==> b[i] == 0
        }),
{
    broadcast use crate::bytes::group_le;

    let b = info_bytes(sensor_present, enrolled as int);
    assert(b.subrange(0, 4) =~= u32_le(4));
    assert(b.subrange(4, 8) =~= u32_le(flag32(sensor_present)));
    assert(b.subrange(8, 12) =~= u32_le(enrolled as int));
    assert(b.subrange(12, 16) =~= u32_le(32));
    assert(b.subrange(16, 20) =~= u32_le(8));
    crate::bytes::u32_reads_back(b, 0, 4);
    crate::bytes::u32_reads_back(b, 4, flag32(sensor_present));
    crate::bytes::u32_reads_back(b, 8, enrolled as int);
    crate::bytes::u32_reads_back(b, 12, 32);
    crate::bytes::u32_reads_back(b, 16, 8);
}

/// The list of fingers takes 4616 bytes: the count, and 144 bytes for each finger from
/// the ninth byte on, its identifier and its label.
pub proof fn list_is_laid_out(entries: Seq<Identity>, i: int)
    requires
        entries.len() <= 32,
        0 <= i < entries.len(),
    ensures
        ({
            let b = list_bytes(entries);
            &&& b.len() == 4616
            &&& u32_at(b, 0) == entries.len()
            &&& b.subrange(8 + 144 * i, 24 + 144 * i) == entries[i].uuid@
            &&& b.subrange(24 + 144 * i, 152 + 144 * i) == entries[i].label@
            &&& forall|k: int| 8 + 144 * entries.len() <= k < 4616 ==> b[k] == 0
        }),
{
    broadcast use crate::bytes::group_le;

    let n = entries.len() as int;
    let b = list_bytes(entries);
    crate::bio::entry_stands(entries, n, i);
    let e = crate::bio::entries_bytes(entries, n);
    assert(b.subrange(0, 4) =~= u32_le(n));
    crate::bytes::u32_reads_back(b, 0, n);
    assert(b.subrange(8, 8 + 144 * n) =~= e);
    assert(b.subrange(8 + 144 * i, 24 + 144 * i) =~= e.subrange(144 * i, 144 * i + 16));
    assert(b.subrange(24 + 144 * i, 152 + 144 * i) =~= e.subrange(144 * i + 16, 144 * i + 144));
}

/// What is told of an enrolment takes 40 bytes: the state, the stage, that there are
/// eight, a status, the identifier, the guidance and the progress.
pub proof fn enrol_poll_is_laid_out(p: EnrolPoll)
    ensures
        ({
            let b = enrol_poll_bytes(p);
            &&& b.len() == 40
            &&& u32_at(b, 0) == p.state.number()
            &&& u32_at(b, 4) == p.stage
            &&& u32_at(b, 8) == 8
            &&& u32_at(b, 12) == p.status
            &&& b.subrange(16, 32) == p.uuid@
            &&& u32_at(b, 32) == p.guidance.number()
            &&& u32_at(b, 36) == p.progress_percent
        }),
{
    broadcast use crate::bytes::group_le;

    crate::uuid::uuid_round_trip(p.uuid);
    let b = enrol_poll_bytes(p);
    assert(b.subrange(0, 4) =~= u32_le(p.state.number() as int));
    assert(b.subrange(4, 8) =~= u32_le(p.stage as int));
    assert(b.subrange(8, 12) =~= u32_le(8));
    assert(b.subrange(12, 16) =~= u32_le(p.status as int));
    assert(b.subrange(16, 32) =~= p.uuid@);
    assert(b.subrange(32, 36) =~= u32_le(p.guidance.number() as int));
    assert(b.subrange(36, 40) =~= u32_le(p.progress_percent as int));
    crate::bytes::u32_reads_back(b, 0, p.state.number() as int);
    crate::bytes::u32_reads_back(b, 4, p.stage as int);
    crate::bytes::u32_reads_back(b, 8, 8);
    crate::bytes::u32_reads_back(b, 12, p.status as int);
    crate::bytes::u32_reads_back(b, 32, p.guidance.number() as int);
    crate::bytes::u32_reads_back(b, 36, p.progress_percent as int);
}

/// What is told of a verification takes 72 bytes: the state, the result, a status, four
/// zeros, the identifier, the token and its deadline.
pub proof fn verify_poll_is_laid_out(p: VerifyPoll)
    ensures
        ({
            let b = verify_poll_bytes(p);
            &&& b.len() == 72
            &&& u32_at(b, 0) == p.state.number()
            &&& u32_at(b, 4) == p.result.number()
            &&& u32_at(b, 8) == p.status
            &&& b.subrange(16, 32) == p.uuid@
            &&& p.token matches Some(t) ==> b.subrange(32, 64) == t@
            &&& p.token is None ==> forall|i: int| 32 <= i < 64 ==> b[i] == 0
            &&& crate::bytes::u64_at(b, 64) == p.deadline_ns
        }),
{
    broadcast use crate::bytes::group_le;

    crate::uuid::uuid_round_trip(p.uuid);
    crate::bytes::u64_round_trip(p.deadline_ns as int);
    let b = verify_poll_bytes(p);
    assert(token_bytes_of(p).len() == 32);
    assert(b.subrange(0, 4) =~= u32_le(p.state.number() as int));
    assert(b.subrange(4, 8) =~= u32_le(p.result.number() as int));
    assert(b.subrange(8, 12) =~= u32_le(p.status as int));
    assert(b.subrange(16, 32) =~= p.uuid@);
    assert(b.subrange(32, 64) =~= token_bytes_of(p));
    assert(b.subrange(64, 72) =~= u64_le(p.deadline_ns as int));
    crate::bytes::u32_reads_back(b, 0, p.state.number() as int);
    crate::bytes::u32_reads_back(b, 4, p.result.number() as int);
    crate::bytes::u32_reads_back(b, 8, p.status as int);
    crate::bytes::u64_reads_back(b, 64, p.deadline_ns as int);
}

/// A token lives for ten seconds, and through a sleep of at most a millisecond.
pub proof fn tokens_live_ten_seconds(
    t: ResultToken,
    nonce: [u8; 32],
    identity: Uuid,
    mono_ns: u64,
    later: u64,
    later_boot: u64,
)
    requires
        t.nonce == nonce,
        t.identity == identity,
        t.minted_mono_ns == mono_ns,
        t.deadline_ns == deadline(mono_ns as int),
        mono_ns <= later,
        mono_ns <= 0xffff_0000_0000_0000,
        t.minted_boot_ns <= later_boot,
    ensures
        t.is_usable(nonce, identity, later, later_boot) <==> later - mono_ns <= 10_000_000_000 && (
        later_boot - t.minted_boot_ns) - (later - mono_ns) <= 1_000_000,
{
}

/// A token is good for no other request and no other finger.
pub proof fn tokens_are_for_one_request(
    t: ResultToken,
    nonce: [u8; 32],
    identity: Uuid,
    mono_ns: u64,
    boot_ns: u64,
)
    requires
        t.nonce != nonce || t.identity != identity,
    ensures
        !t.is_usable(nonce, identity, mono_ns, boot_ns),
{
}

/// Why an enrolment is refused, in this order: who asks is no administrator, the
/// request cannot be read, it is not plain, there is no sensor, something is under way,
/// there is no room for one more finger.
pub proof fn enrol_refusals_in_order(
    request: Vec<u8>,
    fault: Errno,
    s: Session,
    index: Seq<Identity>,
)
    ensures
        enrol_refusal(false, Ok(request), s, index, true) == Some(Errno::EPERM),
        enrol_refusal(true, Err(fault), s, index, true) == Some(fault),
        !(u32_at(request@, 0) == 0 && u32_at(request@, 4) == 0) ==> enrol_refusal(
            true,
            Ok(request),
            s,
            index,
            false,
        ) == Some(Errno::EINVAL),
        u32_at(request@, 0) == 0 && u32_at(request@, 4) == 0 ==> {
            &&& enrol_refusal(true, Ok(request), s, index, false) == Some(Errno::ENODEV)
            &&& !s.op.free() ==> enrol_refusal(true, Ok(request), s, index, true) == Some(
                Errno::EBUSY,
            )
            &&& s.op.free() && index.len() >= 32 ==> enrol_refusal(
                true,
                Ok(request),
                s,
                index,
                true,
            ) == Some(Errno::ENOSPC)
            &&& s.op.free() && index.len() < 32 ==> enrol_refusal(
                true,
                Ok(request),
                s,
                index,
                true,
            ) is None
            &&& s.op.free() ==> verify_refusal(Ok(request), s, true) is None
            &&& !s.op.free() ==> verify_refusal(Ok(request), s, true) == Some(Errno::EBUSY)
            &&& verify_refusal(Ok(request), s, false) == Some(Errno::ENODEV)
        },
        verify_refusal(Err(fault), s, true) == Some(fault),
{
}

/// What an enrolment is told as: nothing under way, waiting, news since the last look,
/// done with the finger, or failed with the status. One is not told of while a
/// verification is under way or was last.
pub proof fn enrolments_are_told(s: Session)
    ensures
        s.op is Idle ==> (enrol_view(s) matches Ok(p) && p.state is Idle && p.stage == 0
            && p.guidance is Nothing && p.progress_percent == 0),
        s.op is Verify ==> enrol_view(s) == Err::<EnrolPoll, Errno>(Errno::EBUSY),
        s.op matches Op::Enrol { stage, terminal, guidance, percent, .. } ==> {
            &&& enrol_view(s) is Ok
            &&& (enrol_view(s)->Ok_0).stage == stage
            &&& (enrol_view(s)->Ok_0).guidance == guidance
            &&& (enrol_view(s)->Ok_0).progress_percent == percent
            &&& terminal is None && s.unseen ==> (enrol_view(s)->Ok_0).state is Progress
            &&& terminal is None && !s.unseen ==> (enrol_view(s)->Ok_0).state is Pending
            &&& terminal matches Some(EnrolOutcome::Done(u)) ==> (enrol_view(s)->Ok_0).state
                is Done && (enrol_view(s)->Ok_0).uuid == u && (enrol_view(s)->Ok_0).status == 0
            &&& terminal matches Some(EnrolOutcome::Failed(c)) ==> (enrol_view(s)->Ok_0).state
                is Failed && (enrol_view(s)->Ok_0).status == c && (enrol_view(s)->Ok_0).uuid
                == zero_uuid()
        },
{
}

/// What a verification is told as: no match, failed and nothing compared, or, with a
/// token that holds, a match of that finger with that token. Without one that holds it
/// is done, and nothing was compared.
pub proof fn verifications_are_told(s: Session, mono_ns: u64, boot_ns: u64)
    ensures
        s.op is Enrol ==> verify_view(s, mono_ns, boot_ns) == Err::<VerifyPoll, Errno>(
            Errno::EBUSY,
        ),
        s.op is Idle ==> (verify_view(s, mono_ns, boot_ns) matches Ok(p) && p.state is Idle),
        s.op matches Op::Verify { nonce, terminal } ==> {
            let p = verify_view(s, mono_ns, boot_ns)->Ok_0;
            &&& verify_view(s, mono_ns, boot_ns) is Ok
            &&& terminal is None && s.unseen ==> p.state is Progress
            &&& terminal is None && !s.unseen ==> p.state is Pending
            &&& terminal matches Some(VerifyOutcome::NoMatch) ==> p.state is Done && p.result
                is NoMatch && p.token is None
            &&& terminal matches Some(VerifyOutcome::Failed(c)) ==> p.state is Failed && p.result
                is NotCompared && p.status == c && p.token is None
            &&& terminal matches Some(VerifyOutcome::Matched(ev)) ==> p.state is Done && ((s.token
                is Some && (s.token->0).is_usable(nonce, ev.identity, mono_ns, boot_ns))
                ==> p.result is Match && p.uuid == ev.identity && p.token == Some(
                (s.token->0).bytes,
            ) && p.deadline_ns == (s.token->0).deadline_ns)
            &&& terminal matches Some(VerifyOutcome::Matched(ev)) ==> !(s.token is Some && (
            s.token->0).is_usable(nonce, ev.identity, mono_ns, boot_ns)) ==> p.result
                is NotCompared && p.token is None && p.uuid == zero_uuid()
        },
{
}

/// A token that was told is spent, and one that was not is kept; either way the news is
/// seen.
pub proof fn told_token_is_spent(s: Session, p: VerifyPoll)
    ensures
        !after_verify_poll(s, p).unseen,
        p.token is Some ==> after_verify_poll(s, p).token is None,
        p.token is None ==> after_verify_poll(s, p).token == s.token,
        after_verify_poll(s, p).op == s.op,
        after_verify_poll(s, p).open == s.open,
{
}

/// An enrolment that ended files the finger under the label that it was started with;
/// one that failed files nothing, and neither does one for which there is no room,
/// which fails with status 0.
pub proof fn finger_is_filed(s: Session, entries: Seq<Identity>, uuid: Uuid, status: u32)
    requires
        s.op is Enrol,
        !s.op.ended(),
    ensures
        ({
            let (told, t, after) = enrol_filed(s, entries, Err(status));
            &&& told
            &&& t.unseen
            &&& after == entries
            &&& enrol_view(t) matches Ok(p)
            &&& p.state is Failed
            &&& p.status == status
        }),
        ({
            let (told, t, after) = enrol_filed(s, entries, Ok(uuid));
            let room = held(entries, uuid) || entries.len() < 32;
            &&& told
            &&& t.unseen
            &&& room ==> (enrol_view(t) matches Ok(p) && p.state is Done && p.uuid == uuid)
            &&& room ==> after == crate::bio::with(entries, Identity { uuid, label: s.op->label })
            &&& !room ==> after == entries && (enrol_view(t) matches Ok(p) && p.state is Failed
                && p.status == 0)
        }),
{
}

} // verus!
