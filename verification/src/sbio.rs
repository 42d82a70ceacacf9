//! The biometric endpoint's requests and replies.

use crate::bytes::{
    copy_of, group_le, i32_at, i32_le, put_bytes, put_i32, put_u16, put_u32, put_zeros, read_i32,
    read_u32, set_u32, set_u64, spliced, to_bits, u16_le, u32_at, u32_le, u64_le, zeroed, zeros,
};
use crate::mailbox::Message;
use crate::proto::EP_SBIO;
use crate::sensor::{Identifier, CHALLENGE_LEN, SENSOR_SERIAL_LEN, SESSION_SHARE_LEN};
use crate::sks::SKS_AUTH_TOKEN_LEN;
use crate::transfer::{Continuation, DeviceStatus, MARKER_FIRST, MARKER_NEXT, MARKER_REQUEST};
use crate::uuid::{uuid_at, zero_uuid, Uuid};
use vstd::prelude::*;

verus! {

/// The longest payload of a request that is built here.
pub const SBIO_MAX_PAYLOAD: usize = 0x97;

pub const SBIO_IMAGE_INIT_LEN: usize = 0x97;

pub const SBIO_PROTECTED_CONFIG_LEN: usize = 32;

pub const SBIO_BEGIN_ENROL_LEN: usize = 0x44;

pub const BE_AUTH_TYPE_ACM_CONTEXT: u32 = 0;

pub const SBIO_MODULE_CHALLENGE_LEN: usize = 0x40;

pub const SBIO_CALIBRATION_SOURCE: u32 = 3;

pub const SBIO_MATCH_POLICY_LEN: usize = 2;

pub const SBIO_ENROL_RESULT_LEN: usize = 0xc98;

pub const SBIO_MATCH_RESULT_LEN: usize = 0xca2;

pub const SBIO_SAVED_USER_ID_AT: usize = 8;

pub const SBIO_SAVED_MIN: usize = 0x22;

pub const SBIO_SAVED_MAX: usize = 0x4b000;

pub const SBIO_STATUS_OK: u32 = 0;

pub const SBIO_STATUS_PREREQUISITE: u32 = 1;

pub const SBIO_STATUS_16: u32 = 0x16;

/// The saved state was taken, and is not active.
pub const SBIO_STATUS_COLD_TRANSITION: u32 = 0x8002;

/// Not an error: what was to be loaded is active.
pub const SBIO_STATUS_ALREADY_ACTIVE: u32 = 0x101;

pub const COMPONENT_PAIR_LEN: usize = 8;

pub const IDENTITY_V1_LEN: usize = 20;

pub const IDENTITY_RECORD_LEN: usize = 40;

pub const SBIO_FREE_COUNT_REPLY_LEN: usize = 4;

pub const SBIO_FREE_COUNT_MAX: u32 = 3;

pub const ASSESS_MIN_LEN: usize = 0x89;

pub const ASSESS_USABLE_MATCH: usize = 6;

pub const ASSESS_USABLE_ENROL: usize = 7;

/// A user for whom fingers can be enrolled.
#[derive(Clone, Copy, Debug, PartialEq, Eq, Structural)]
pub struct UserId(i32);

impl UserId {
    pub closed spec fn view(&self) -> i32 {
        self.0
    }

    pub fn new(value: i32) -> (r: Option<UserId>)
        ensures
            match r {
                Some(u) => value > 0 && u@ == value,
                None => value <= 0,
            },
    {
        if value > 0 {
            Some(UserId(value))
        } else {
            None
        }
    }

    pub fn value(&self) -> (v: i32)
        ensures
            v == self@,
    {
        self.0
    }
}

/// Whose context is selected: the system's or one user's.
#[derive(Clone, Copy, Debug, PartialEq, Eq, Structural)]
pub struct ContextScope(i32);

impl ContextScope {
    pub closed spec fn view(&self) -> i32 {
        self.0
    }

    pub fn system() -> (s: ContextScope)
        ensures
            s@ == -1,
    {
        ContextScope(-1)
    }

    pub fn user(id: UserId) -> (s: ContextScope)
        ensures
            s@ == id@,
    {
        ContextScope(id.value())
    }

    pub fn value(&self) -> (v: i32)
        ensures
            v == self@,
    {
        self.0
    }
}

/// Whose catacomb is saved or loaded.
#[derive(Clone, Copy, Debug, PartialEq, Eq, Structural)]
pub struct CatacombUser(i32);

impl CatacombUser {
    pub closed spec fn view(&self) -> i32 {
        self.0
    }

    pub fn master() -> (c: CatacombUser)
        ensures
            c@ == -1,
    {
        CatacombUser(-1)
    }

    pub fn owner() -> (c: CatacombUser)
        ensures
            c@ == 501,
    {
        CatacombUser(501)
    }

    pub fn enrolling(user: UserId) -> (c: CatacombUser)
        ensures
            c@ == user@,
    {
        CatacombUser(user.value())
    }

    pub fn value(&self) -> (v: i32)
        ensures
            v == self@,
    {
        self.0
    }
}

/// Shows that no identity is enrolled. Selecting a context destroys the
/// catacomb that is there, so it is asked for only with this in hand.
#[derive(Clone, Copy, Debug, PartialEq, Eq, Structural)]
pub struct NoExistingCatacomb {
    listed: usize,
}

impl NoExistingCatacomb {
    pub closed spec fn listed(&self) -> usize {
        self.listed
    }

    pub fn from_zero_identities(count: usize) -> (r: Option<NoExistingCatacomb>)
        ensures
            match r {
                Some(p) => count == 0 && p.listed() == 0,
                None => count != 0,
            },
    {
        if count == 0 {
            Some(NoExistingCatacomb { listed: 0 })
        } else {
            None
        }
    }
}

/// One enrolled finger of one user.
#[derive(Clone, Copy, Debug, PartialEq, Eq, Structural)]
pub struct IdentityV1 {
    pub user_id: i32,
    pub uuid: Uuid,
}

impl IdentityV1 {
    pub fn from_index(user_id: i32, uuid: Uuid) -> (i: IdentityV1)
        ensures
            i == (IdentityV1 { user_id, uuid }),
    {
        IdentityV1 { user_id, uuid }
    }

    pub fn uuid(&self) -> (u: Uuid)
        ensures
            u == self.uuid,
    {
        self.uuid
    }
}

/// What an image is for.
#[derive(Clone, Copy, Debug, PartialEq, Eq, Structural)]
pub enum ImagePurpose {
    Enrolment,
    Matching,
}

impl ImagePurpose {
    pub open spec fn flag_at(self) -> int {
        match self {
            ImagePurpose::Matching => 0x12,
            ImagePurpose::Enrolment => 0x13,
        }
    }

    pub open spec fn last_image_at(self) -> int {
        match self {
            ImagePurpose::Enrolment => 8,
            ImagePurpose::Matching => 9,
        }
    }

    pub fn offset(self) -> (r: usize)
        ensures
            r == self.flag_at(),
    {
        match self {
            ImagePurpose::Matching => 0x12,
            ImagePurpose::Enrolment => 0x13,
        }
    }

    pub fn last_image_offset(self) -> (r: usize)
        ensures
            r == self.last_image_at(),
    {
        match self {
            ImagePurpose::Enrolment => 8,
            ImagePurpose::Matching => 9,
        }
    }
}

/// How an image is announced.
#[derive(Clone, Copy, Debug, PartialEq, Eq, Structural)]
pub struct ImageInit {
    pub purpose: ImagePurpose,
    pub first_image: bool,
    pub last_image: bool,
    pub capture_counter: u32,
    pub user: UserId,
    pub monotonic_ns: u64,
}

/// What is asked of the endpoint. Those that carry bytes of their own are
/// given them when the request is built.
#[derive(Clone, Copy, Debug, PartialEq, Eq, Structural)]
pub enum Call {
    RegisterSensor(Identifier),
    /// Carries the sensor's serial number.
    RegisterSerial,
    ClearState,
    CoverageParams,
    OperationParams,
    TransparentChannel,
    CompleteInit,
    ContextState,
    SelectContext(ContextScope, NoExistingCatacomb),
    ProtectedConfig(UserId),
    /// Carries the credential.
    BeginEnrol(UserId, u32),
    ModuleChallenge,
    /// Carries the sensor's answer to the challenge.
    ModuleCommit,
    /// Carries the calibration data.
    LoadCalibration,
    UpdateDeviceList,
    MatchPolicy,
    SaveLockout,
    /// Carries the saved record.
    LoadLockout,
    SaveCatacomb(CatacombUser),
    ConfirmSave(CatacombUser),
    /// Carries the saved catacomb.
    LoadCatacomb,
    ListIdentities,
    FreeIdentityCount(UserId),
    DeleteIdentity(IdentityV1),
    MatchResult,
    EnrolResult,
    ImageCleanup,
    Cancel,
    Diagnostics,
    PrepareImage,
    ImageInit(ImageInit),
    /// Carries the capture.
    RelayCapture,
    Assessment,
    SessionShare,
    /// Carries the sensor's share.
    CommitSession,
    Challenge,
    /// Carries the sensor's answer.
    CommitChallenge,
    FetchPatch,
}

pub open spec fn opcode_of(call: Call) -> u16 {
    match call {
        Call::RegisterSensor(_) => 0x80,
        Call::RegisterSerial => 0x17,
        Call::ClearState => 0x19,
        Call::CoverageParams => 0x5d,
        Call::OperationParams => 0x5c,
        Call::TransparentChannel => 0x6a,
        Call::CompleteInit => 0x01,
        Call::ContextState => 0x6b,
        Call::SelectContext(_, _) => 0x2d,
        Call::ProtectedConfig(_) => 0x2b,
        Call::BeginEnrol(_, _) => 0x03,
        Call::ModuleChallenge => 0x31,
        Call::ModuleCommit => 0x32,
        Call::LoadCalibration => 0x5b,
        Call::UpdateDeviceList => 0x7b,
        Call::MatchPolicy => 0x1f,
        Call::SaveLockout => 0x70,
        Call::LoadLockout => 0x71,
        Call::SaveCatacomb(_) => 0x6c,
        Call::ConfirmSave(_) => 0x37,
        Call::LoadCatacomb => 0x6d,
        Call::ListIdentities => 0x7a,
        Call::FreeIdentityCount(_) => 0x38,
        Call::DeleteIdentity(_) => 0x57,
        Call::MatchResult => 0x09,
        Call::EnrolResult => 0x08,
        Call::ImageCleanup => 0x22,
        Call::Cancel => 0x05,
        Call::Diagnostics => 0x63,
        Call::PrepareImage => 0x23,
        Call::ImageInit(_) => 0x06,
        Call::RelayCapture => 0x65,
        Call::Assessment => 0x07,
        Call::SessionShare => 0x15,
        Call::CommitSession => 0x16,
        Call::Challenge => 0x42,
        Call::CommitChallenge => 0x18,
        Call::FetchPatch => 0x5f,
    }
}

/// What a request is called.
pub open spec fn name_of(call: Call) -> &'static str {
    match call {
        Call::RegisterSensor(_) => "REGISTER_SENSOR",
        Call::RegisterSerial => "REGISTER_SERIAL",
        Call::ClearState => "CLEAR_STATE",
        Call::CoverageParams => "COVERAGE_PARAMS",
        Call::OperationParams => "OPERATION_PARAMS",
        Call::TransparentChannel => "TRANSPARENT_CHANNEL",
        Call::CompleteInit => "COMPLETE_INIT",
        Call::ContextState => "CONTEXT_STATE",
        Call::SelectContext(_, _) => "SELECT_CONTEXT",
        Call::ProtectedConfig(_) => "PROTECTED_CONFIG",
        Call::BeginEnrol(_, _) => "BEGIN_ENROL",
        Call::ModuleChallenge => "MODULE_CHALLENGE",
        Call::ModuleCommit => "MODULE_COMMIT",
        Call::LoadCalibration => "LOAD_CALIBRATION",
        Call::UpdateDeviceList => "UPDATE_DEVICE_LIST",
        Call::MatchPolicy => "MATCH_POLICY",
        Call::SaveLockout => "SAVE_LOCKOUT",
        Call::LoadLockout => "LOAD_LOCKOUT",
        Call::SaveCatacomb(_) => "SAVE_CATACOMB",
        Call::ConfirmSave(_) => "CONFIRM_SAVE",
        Call::LoadCatacomb => "LOAD_CATACOMB",
        Call::ListIdentities => "LIST_IDENTITIES",
        Call::FreeIdentityCount(_) => "FREE_IDENTITY_COUNT",
        Call::DeleteIdentity(_) => "DELETE_IDENTITY",
        Call::MatchResult => "MATCH_RESULT",
        Call::EnrolResult => "ENROLMENT_RESULT",
        Call::ImageCleanup => "IMAGE_CLEANUP",
        Call::Cancel => "CANCEL_OPERATION",
        Call::Diagnostics => "DIAGNOSTICS",
        Call::PrepareImage => "PREPARE_IMAGE_PROCESSING",
        Call::ImageInit(_) => "IMAGE_PROCESSING_INIT",
        Call::RelayCapture => "RELAY_CAPTURE",
        Call::Assessment => "IMAGE_ASSESSMENT",
        Call::SessionShare => "SESSION_SHARE",
        Call::CommitSession => "SESSION_COMMIT",
        Call::Challenge => "SEQUENCE_CHALLENGE",
        Call::CommitChallenge => "SEQUENCE_COMMIT",
        Call::FetchPatch => "FETCH_SENSOR_PATCH",
    }
}

impl Call {
    /// What the request is called.
    pub fn name(&self) -> (s: &'static str)
        ensures
            s == name_of(*self),
    {
        match self {
            Call::RegisterSensor(_) => "REGISTER_SENSOR",
            Call::RegisterSerial => "REGISTER_SERIAL",
            Call::ClearState => "CLEAR_STATE",
            Call::CoverageParams => "COVERAGE_PARAMS",
            Call::OperationParams => "OPERATION_PARAMS",
            Call::TransparentChannel => "TRANSPARENT_CHANNEL",
            Call::CompleteInit => "COMPLETE_INIT",
            Call::ContextState => "CONTEXT_STATE",
            Call::SelectContext(_, _) => "SELECT_CONTEXT",
            Call::ProtectedConfig(_) => "PROTECTED_CONFIG",
            Call::BeginEnrol(_, _) => "BEGIN_ENROL",
            Call::ModuleChallenge => "MODULE_CHALLENGE",
            Call::ModuleCommit => "MODULE_COMMIT",
            Call::LoadCalibration => "LOAD_CALIBRATION",
            Call::UpdateDeviceList => "UPDATE_DEVICE_LIST",
            Call::MatchPolicy => "MATCH_POLICY",
            Call::SaveLockout => "SAVE_LOCKOUT",
            Call::LoadLockout => "LOAD_LOCKOUT",
            Call::SaveCatacomb(_) => "SAVE_CATACOMB",
            Call::ConfirmSave(_) => "CONFIRM_SAVE",
            Call::LoadCatacomb => "LOAD_CATACOMB",
            Call::ListIdentities => "LIST_IDENTITIES",
            Call::FreeIdentityCount(_) => "FREE_IDENTITY_COUNT",
            Call::DeleteIdentity(_) => "DELETE_IDENTITY",
            Call::MatchResult => "MATCH_RESULT",
            Call::EnrolResult => "ENROLMENT_RESULT",
            Call::ImageCleanup => "IMAGE_CLEANUP",
            Call::Cancel => "CANCEL_OPERATION",
            Call::Diagnostics => "DIAGNOSTICS",
            Call::PrepareImage => "PREPARE_IMAGE_PROCESSING",
            Call::ImageInit(_) => "IMAGE_PROCESSING_INIT",
            Call::RelayCapture => "RELAY_CAPTURE",
            Call::Assessment => "IMAGE_ASSESSMENT",
            Call::SessionShare => "SESSION_SHARE",
            Call::CommitSession => "SESSION_COMMIT",
            Call::Challenge => "SEQUENCE_CHALLENGE",
            Call::CommitChallenge => "SEQUENCE_COMMIT",
            Call::FetchPatch => "FETCH_SENSOR_PATCH",
        }
    }
}

/// Whether a request can carry bytes of this length.
pub open spec fn admits(call: Call, len: int) -> bool {
    match call {
        Call::RegisterSerial => len == SENSOR_SERIAL_LEN,
        Call::BeginEnrol(_, _) => len == SKS_AUTH_TOKEN_LEN,
        Call::ModuleCommit => 0 < len <= SBIO_MAX_PAYLOAD,
        Call::LoadCalibration => true,
        Call::LoadLockout => 0 < len <= SBIO_SAVED_MAX,
        Call::LoadCatacomb => SBIO_SAVED_MIN <= len <= SBIO_SAVED_MAX,
        Call::RelayCapture => true,
        Call::CommitSession => len == SESSION_SHARE_LEN,
        Call::CommitChallenge => len == CHALLENGE_LEN,
        _ => len == 0,
    }
}

/// The user and twenty zeros behind.
pub open spec fn selector(user: int) -> Seq<u8> {
    i32_le(user) + zeroed(20)
}

/// The 24 MHz ticks that nanoseconds amount to.
pub open spec fn ticks(ns: int) -> int {
    ns * 24 / 1000
}

/// The announcement of an image: a few flags, the time, the count of captures,
/// the device and the user, each at its place among zeros.
pub open spec fn image_init(i: ImageInit) -> Seq<u8> {
    let blank = zeroed(SBIO_IMAGE_INIT_LEN as int);
    let first = if i.first_image {
        blank.update(7, 1)
    } else {
        blank
    };
    let last = if i.last_image {
        first.update(i.purpose.last_image_at(), 1)
    } else {
        first
    };
    let flagged = last.update(i.purpose.flag_at(), 1);
    let timed = spliced(flagged, 0x40, u64_le(ticks(i.monotonic_ns as int)));
    let counted = spliced(timed, 0x48, u32_le(i.capture_counter as int));
    let placed = spliced(counted, 0x4f, u32_le(1));
    spliced(placed, 0x67, i32_le(i.user@ as int))
}

/// The payload of a request that carries `data`.
pub open spec fn payload_of(call: Call, data: Seq<u8>) -> Seq<u8> {
    match call {
        Call::RegisterSensor(id) => u16_le(id.0 as int),
        Call::CoverageParams => u32_le(0),
        Call::OperationParams => zeroed(4),
        Call::CompleteInit => u32_le(1) + u32_le(1),
        Call::SelectContext(scope, _) => i32_le(scope@ as int),
        Call::ProtectedConfig(user) => i32_le(user@ as int),
        Call::BeginEnrol(user, auth) => u32_le(0) + i32_le(user@ as int) + u32_le(auth as int)
            + u32_le(SKS_AUTH_TOKEN_LEN as int) + data + zeroed(36),
        Call::LoadCalibration => u32_le(SBIO_CALIBRATION_SOURCE as int) + data,
        Call::SaveCatacomb(who) => selector(who@ as int),
        Call::ConfirmSave(who) => selector(who@ as int),
        Call::FreeIdentityCount(user) => i32_le(user@ as int) + u32_le(1) + zeroed(16),
        Call::DeleteIdentity(identity) => i32_le(identity.user_id as int) + identity.uuid@,
        Call::ImageInit(i) => image_init(i),
        Call::SessionShare => u32_le(1),
        Call::FetchPatch => u16_le(2),
        Call::RegisterSerial
        | Call::ModuleCommit
        | Call::LoadLockout
        | Call::LoadCatacomb
        | Call::RelayCapture
        | Call::CommitSession
        | Call::CommitChallenge => data,
        _ => Seq::empty(),
    }
}

/// A request: the operation and its payload.
pub struct SbioOp {
    pub opcode: u16,
    pub payload: Vec<u8>,
}

pub fn opcode(call: &Call) -> (r: u16)
    ensures
        r == opcode_of(*call),
{
    match call {
        Call::RegisterSensor(_) => 0x80,
        Call::RegisterSerial => 0x17,
        Call::ClearState => 0x19,
        Call::CoverageParams => 0x5d,
        Call::OperationParams => 0x5c,
        Call::TransparentChannel => 0x6a,
        Call::CompleteInit => 0x01,
        Call::ContextState => 0x6b,
        Call::SelectContext(_, _) => 0x2d,
        Call::ProtectedConfig(_) => 0x2b,
        Call::BeginEnrol(_, _) => 0x03,
        Call::ModuleChallenge => 0x31,
        Call::ModuleCommit => 0x32,
        Call::LoadCalibration => 0x5b,
        Call::UpdateDeviceList => 0x7b,
        Call::MatchPolicy => 0x1f,
        Call::SaveLockout => 0x70,
        Call::LoadLockout => 0x71,
        Call::SaveCatacomb(_) => 0x6c,
        Call::ConfirmSave(_) => 0x37,
        Call::LoadCatacomb => 0x6d,
        Call::ListIdentities => 0x7a,
        Call::FreeIdentityCount(_) => 0x38,
        Call::DeleteIdentity(_) => 0x57,
        Call::MatchResult => 0x09,
        Call::EnrolResult => 0x08,
        Call::ImageCleanup => 0x22,
        Call::Cancel => 0x05,
        Call::Diagnostics => 0x63,
        Call::PrepareImage => 0x23,
        Call::ImageInit(_) => 0x06,
        Call::RelayCapture => 0x65,
        Call::Assessment => 0x07,
        Call::SessionShare => 0x15,
        Call::CommitSession => 0x16,
        Call::Challenge => 0x42,
        Call::CommitChallenge => 0x18,
        Call::FetchPatch => 0x5f,
    }
}

fn admitted(call: &Call, len: usize) -> (r: bool)
    ensures
        r == admits(*call, len as int),
{
    match call {
        Call::RegisterSerial => len == SENSOR_SERIAL_LEN,
        Call::BeginEnrol(_, _) => len == SKS_AUTH_TOKEN_LEN,
        Call::ModuleCommit => 0 < len && len <= SBIO_MAX_PAYLOAD,
        Call::LoadCalibration => true,
        Call::LoadLockout => 0 < len && len <= SBIO_SAVED_MAX,
        Call::LoadCatacomb => SBIO_SAVED_MIN <= len && len <= SBIO_SAVED_MAX,
        Call::RelayCapture => true,
        Call::CommitSession => len == SESSION_SHARE_LEN,
        Call::CommitChallenge => len == CHALLENGE_LEN,
        _ => len == 0,
    }
}

fn put_image_init(i: &ImageInit) -> (out: Vec<u8>)
    ensures
        out@ == image_init(*i),
{
    broadcast use group_le;

    let mut out = zeros(SBIO_IMAGE_INIT_LEN);
    if i.first_image {
        out.set(7, 1);
    }
    if i.last_image {
        out.set(i.purpose.last_image_offset(), 1);
    }
    out.set(i.purpose.offset(), 1);
    let ns: u64 = i.monotonic_ns;
    let scaled: u64 = (ns / 1000) * 24 + (ns % 1000) * 24 / 1000;
    assert(scaled == ticks(ns as int));
    set_u64(&mut out, 0x40, scaled);
    set_u32(&mut out, 0x48, i.capture_counter);
    set_u32(&mut out, 0x4f, 1);
    set_u32(&mut out, 0x67, to_bits(i.user.value()));
    out
}

fn put_payload(call: &Call, data: &[u8]) -> (out: Vec<u8>)
    ensures
        out@ == payload_of(*call, data@),
{
    let mut out: Vec<u8> = Vec::new();
    match call {
        Call::RegisterSensor(id) => {
            put_u16(&mut out, id.value());
        },
        Call::CoverageParams => {
            put_u32(&mut out, 0);
        },
        Call::OperationParams => {
            put_zeros(&mut out, 4);
        },
        Call::CompleteInit => {
            put_u32(&mut out, 1);
            put_u32(&mut out, 1);
        },
        Call::SelectContext(scope, _) => {
            put_i32(&mut out, scope.value());
        },
        Call::ProtectedConfig(user) => {
            put_i32(&mut out, user.value());
        },
        Call::BeginEnrol(user, auth) => {
            put_u32(&mut out, 0);
            put_i32(&mut out, user.value());
            put_u32(&mut out, *auth);
            put_u32(&mut out, SKS_AUTH_TOKEN_LEN as u32);
            put_bytes(&mut out, data);
            put_zeros(&mut out, 36);
        },
        Call::LoadCalibration => {
            put_u32(&mut out, SBIO_CALIBRATION_SOURCE);
            put_bytes(&mut out, data);
        },
        Call::SaveCatacomb(who) => {
            put_i32(&mut out, who.value());
            put_zeros(&mut out, 20);
        },
        Call::ConfirmSave(who) => {
            put_i32(&mut out, who.value());
            put_zeros(&mut out, 20);
        },
        Call::FreeIdentityCount(user) => {
            put_i32(&mut out, user.value());
            put_u32(&mut out, 1);
            put_zeros(&mut out, 16);
        },
        Call::DeleteIdentity(identity) => {
            put_i32(&mut out, identity.user_id);
            identity.uuid.put(&mut out);
        },
        Call::ImageInit(i) => {
            out = put_image_init(i);
        },
        Call::SessionShare => {
            put_u32(&mut out, 1);
        },
        Call::FetchPatch => {
            put_u16(&mut out, 2);
        },
        Call::RegisterSerial
        | Call::ModuleCommit
        | Call::LoadLockout
        | Call::LoadCatacomb
        | Call::RelayCapture
        | Call::CommitSession
        | Call::CommitChallenge => {
            out = copy_of(data);
        },
        _ => {},
    }
    assert(out@ =~= payload_of(*call, data@));
    out
}

/// Builds a request, if what it is to carry has a length that it can carry.
pub fn request(call: &Call, data: &[u8]) -> (r: Option<SbioOp>)
    ensures
        match r {
            Some(op) => {
                &&& admits(*call, data.len() as int)
                &&& op.opcode == opcode_of(*call)
                &&& op.payload@ == payload_of(*call, data@)
            },
            None => !admits(*call, data.len() as int),
        },
{
    if admitted(call, data.len()) {
        Some(SbioOp { opcode: opcode(call), payload: put_payload(call, data) })
    } else {
        None
    }
}

/// Different operations have different codes.
pub proof fn opcodes_differ(a: Call, b: Call)
    requires
        opcode_of(a) == opcode_of(b),
    ensures
        match (a, b) {
            (Call::RegisterSensor(_), Call::RegisterSensor(_)) => true,
            (Call::SelectContext(_, _), Call::SelectContext(_, _)) => true,
            (Call::ProtectedConfig(_), Call::ProtectedConfig(_)) => true,
            (Call::BeginEnrol(_, _), Call::BeginEnrol(_, _)) => true,
            (Call::SaveCatacomb(_), Call::SaveCatacomb(_)) => true,
            (Call::ConfirmSave(_), Call::ConfirmSave(_)) => true,
            (Call::FreeIdentityCount(_), Call::FreeIdentityCount(_)) => true,
            (Call::DeleteIdentity(_), Call::DeleteIdentity(_)) => true,
            (Call::ImageInit(_), Call::ImageInit(_)) => true,
            _ => a == b,
        },
{
}

/// The announcement is as long as it has to be and tells the purposes apart.
pub proof fn image_purposes_differ(i: ImageInit)
    ensures
        image_init(i).len() == SBIO_IMAGE_INIT_LEN,
        image_init(i)[0x12] == (if i.purpose == ImagePurpose::Matching {
            1u8
        } else {
            0
        }),
        image_init(i)[0x13] == (if i.purpose == ImagePurpose::Enrolment {
            1u8
        } else {
            0
        }),
        u32_at(image_init(i), 0x48) == i.capture_counter,
        i32_at(image_init(i), 0x67) == i.user@,
{
    broadcast use group_le;

    let s = image_init(i);
    let c = u32_le(i.capture_counter as int);
    assert(s[0x48] == c[0] && s[0x49] == c[1] && s[0x4a] == c[2] && s[0x4b] == c[3]);
    let u = i32_le(i.user@ as int);
    assert(s[0x67] == u[0] && s[0x68] == u[1] && s[0x69] == u[2] && s[0x6a] == u[3]);
    assert(u32_at(s, 0x48) == u32_at(c, 0));
    assert(u32_at(s, 0x67) == u32_at(u, 0));
}

/// The word that announces a packet: endpoint, marker, operation, number.
pub open spec fn word(opcode: int, marker: int, seq: int) -> int {
    EP_SBIO + 0x100 * marker + 0x1_0000 * opcode + 0x1_0000_0000_0000 * seq
}

fn encode_sbio(opcode: u16, marker: u8, seq: u16) -> (m: Message)
    ensures
        m.msg1 == 0,
        m.msg0 == word(opcode as int, marker as int, seq as int),
{
    Message {
        msg0: EP_SBIO as u64 + 0x100 * (marker as u64) + 0x1_0000 * (opcode as u64)
            + 0x1_0000_0000_0000 * (seq as u64),
        msg1: 0,
    }
}

/// Announces the first packet of a transaction.
pub fn encode_sbio_raw(opcode: u16, seq: u16) -> (m: Message)
    ensures
        m.msg1 == 0,
        m.msg0 == word(opcode as int, MARKER_FIRST as int, seq as int),
{
    encode_sbio(opcode, MARKER_FIRST, seq)
}

/// Announces a further packet.
pub fn encode_sbio_next(opcode: u16, seq: u16) -> (m: Message)
    ensures
        m.msg1 == 0,
        m.msg0 == word(opcode as int, MARKER_NEXT as int, seq as int),
{
    encode_sbio(opcode, MARKER_NEXT, seq)
}

/// Asks the peer for its next packet.
pub fn encode_sbio_continue(cont: &Continuation) -> (m: Message)
    ensures
        m.msg1 == 0,
        m.msg0 == word(cont.opcode as int % 0x1_0000, MARKER_REQUEST as int, cont.seq as int),
{
    encode_sbio((cont.opcode() % 0x1_0000) as u16, MARKER_REQUEST, cont.seq())
}

/// How a request came out.
#[derive(Clone, Copy, Debug, PartialEq, Eq, Structural)]
pub enum Verdict {
    Accepted,
    /// Something has to be done first.
    PrerequisiteMissing,
    Status16,
    Other,
}

/// The verdict lies in the low sixteen bits of the status.
pub open spec fn verdict_of(status: DeviceStatus) -> Verdict {
    match status {
        DeviceStatus::Answered(err) => if err % 0x1_0000 == SBIO_STATUS_OK {
            Verdict::Accepted
        } else if err % 0x1_0000 == SBIO_STATUS_PREREQUISITE {
            Verdict::PrerequisiteMissing
        } else if err % 0x1_0000 == SBIO_STATUS_16 {
            Verdict::Status16
        } else {
            Verdict::Other
        },
        _ => Verdict::Other,
    }
}

/// Judges a transaction. One that never came about counts like one that was
/// refused without a reason.
pub fn verdict(status: Option<DeviceStatus>) -> (v: Verdict)
    ensures
        v == (match status {
            Some(s) => verdict_of(s),
            None => Verdict::Other,
        }),
{
    match status {
        Some(s) => match s.answered() {
            Some(err) => {
                let low: u32 = err % 0x1_0000;
                if low == SBIO_STATUS_OK {
                    Verdict::Accepted
                } else if low == SBIO_STATUS_PREREQUISITE {
                    Verdict::PrerequisiteMissing
                } else if low == SBIO_STATUS_16 {
                    Verdict::Status16
                } else {
                    Verdict::Other
                }
            },
            None => Verdict::Other,
        },
        None => Verdict::Other,
    }
}

/// What the endpoint says of an image during enrolment.
#[derive(Clone, Copy, Debug, PartialEq, Eq, Structural)]
pub struct EnrolmentResult {
    pub progress_raw: u8,
    pub has_template: u32,
    pub complete: u32,
}

pub open spec fn enrolment_in(s: Seq<u8>) -> EnrolmentResult {
    EnrolmentResult {
        progress_raw: s[4],
        has_template: u32_at(s, 6) as u32,
        complete: u32_at(s, 0xbfe) as u32,
    }
}

/// The raw progress of 255 parts in hundredths, rounded to the nearest.
pub open spec fn percent_of(raw: int) -> int {
    (raw * 100 + 127) / 255
}

impl EnrolmentResult {
    pub fn parse(bytes: &[u8]) -> (r: Option<EnrolmentResult>)
        ensures
            r == (if bytes.len() < SBIO_ENROL_RESULT_LEN {
                None
            } else {
                Some(enrolment_in(bytes@))
            }),
    {
        if bytes.len() < SBIO_ENROL_RESULT_LEN {
            return None;
        }
        Some(
            EnrolmentResult {
                progress_raw: bytes[4],
                has_template: read_u32(bytes, 6),
                complete: read_u32(bytes, 0xbfe),
            },
        )
    }

    pub fn progress_percent(&self) -> (p: u32)
        ensures
            p == percent_of(self.progress_raw as int),
            p <= 100,
    {
        (self.progress_raw as u32 * 100 + 127) / 255
    }

    pub fn has_template(&self) -> (r: bool)
        ensures
            r == (self.has_template != 0),
    {
        self.has_template != 0
    }

    pub fn complete(&self) -> (r: bool)
        ensures
            r == (self.complete != 0),
    {
        self.complete != 0
    }
}

/// The identifiers that stand behind the user's number anywhere in the first
/// `n` positions of a record, in order, zeros left out.
pub open spec fn candidates(s: Seq<u8>, user_id: int, n: int) -> Seq<Uuid>
    decreases n,
{
    if n <= 0 {
        Seq::empty()
    } else {
        let before = candidates(s, user_id, n - 1);
        if i32_at(s, n - 1) == user_id && uuid_at(s, n + 3) != zero_uuid() {
            before.push(uuid_at(s, n + 3))
        } else {
            before
        }
    }
}

/// How many positions of a record an identity can start at.
pub open spec fn starts(len: int) -> int {
    if len < IDENTITY_V1_LEN {
        0
    } else {
        len - IDENTITY_V1_LEN + 1
    }
}

/// Collects what may be the identity that was just enrolled.
pub fn enrol_identity_candidates(bytes: &[u8], user_id: i32) -> (out: Vec<Uuid>)
    ensures
        out@ == candidates(bytes@, user_id as int, starts(bytes.len() as int)),
{
    let mut out: Vec<Uuid> = Vec::new();
    if bytes.len() < IDENTITY_V1_LEN {
        return out;
    }
    let mut at: usize = 0;
    while at < bytes.len() - IDENTITY_V1_LEN + 1
        invariant
            IDENTITY_V1_LEN <= bytes.len(),
            at <= bytes.len() - IDENTITY_V1_LEN + 1,
            out@ == candidates(bytes@, user_id as int, at as int),
        decreases bytes.len() - at,
    {
        if read_i32(bytes, at) == user_id {
            let uuid = Uuid::read(bytes, at + 4);
            if !uuid.is_zero() {
                out.push(uuid);
            }
        }
        at = at + 1;
    }
    out
}

/// What the endpoint says of an image during matching.
#[derive(Clone, Copy, Debug, PartialEq, Eq, Structural)]
pub struct MatchResult {
    pub user_id: i32,
    pub identity: Uuid,
}

pub open spec fn match_in(s: Seq<u8>) -> MatchResult {
    MatchResult { user_id: i32_at(s, 0) as i32, identity: uuid_at(s, 4) }
}

impl MatchResult {
    pub fn parse(bytes: &[u8]) -> (r: Option<MatchResult>)
        ensures
            r == (if bytes.len() < SBIO_MATCH_RESULT_LEN {
                None
            } else {
                Some(match_in(bytes@))
            }),
    {
        if bytes.len() < SBIO_MATCH_RESULT_LEN {
            return None;
        }
        Some(MatchResult { user_id: read_i32(bytes, 0), identity: Uuid::read(bytes, 4) })
    }

    pub fn identity_uuid(&self) -> (u: Uuid)
        ensures
            u == self.identity,
    {
        self.identity
    }

    pub fn matches(&self, user: UserId) -> (r: bool)
        ensures
            r == (self.user_id == user@),
    {
        self.user_id == user.value()
    }
}

/// The state of the first component in the list that has this number, from the
/// pair with number `i` on.
pub open spec fn state_in(s: Seq<u8>, id: int, i: int) -> Option<u32>
    decreases s.len() - 8 * i,
{
    if 8 * i + 8 > s.len() {
        None
    } else if i32_at(s, 8 * i) == id {
        Some(u32_at(s, 8 * i + 4) as u32)
    } else {
        state_in(s, id, i + 1)
    }
}

/// The list of components and their states.
pub struct ComponentStates<'a> {
    reply: &'a [u8],
}

impl<'a> ComponentStates<'a> {
    pub closed spec fn view(&self) -> Seq<u8> {
        self.reply@
    }

    pub fn new(reply: &'a [u8]) -> (c: ComponentStates<'a>)
        ensures
            c@ == reply@,
    {
        ComponentStates { reply }
    }

    pub fn count(&self) -> (n: usize)
        ensures
            n == self@.len() / 8,
    {
        self.reply.len() / COMPONENT_PAIR_LEN
    }

    pub fn pair(&self, i: usize) -> (r: Option<(i32, u32)>)
        ensures
            r == (if 8 * i + 8 <= self@.len() {
                Some((i32_at(self@, 8 * i) as i32, u32_at(self@, 8 * i + 4) as u32))
            } else {
                None
            }),
    {
        if i < self.reply.len() / COMPONENT_PAIR_LEN {
            let at: usize = i * COMPONENT_PAIR_LEN;
            Some((read_i32(self.reply, at), read_u32(self.reply, at + 4)))
        } else {
            None
        }
    }

    pub fn state_for(&self, id: i32) -> (r: Option<u32>)
        ensures
            r == state_in(self@, id as int, 0),
    {
        let mut i: usize = 0;
        let n: usize = self.count();
        while i < n
            invariant
                i <= n,
                n == self@.len() / 8,
                state_in(self@, id as int, 0) == state_in(self@, id as int, i as int),
            decreases n - i,
        {
            if let Some((pair_id, state)) = self.pair(i) {
                if pair_id == id {
                    return Some(state);
                }
            }
            i = i + 1;
        }
        None
    }
}

/// The two low bits of a component's state: it is cold, it is active.
pub open spec fn is_cold(state: u32) -> bool {
    state % 2 == 1
}

pub open spec fn is_active(state: u32) -> bool {
    state / 2 % 2 == 1
}

/// What to do with a component.
#[derive(Clone, Copy, Debug, PartialEq, Eq, Structural)]
pub enum ComponentAction {
    AlreadyActive,
    Load,
    Unsupported,
}

pub open spec fn action_for(state: u32) -> ComponentAction {
    if is_active(state) {
        ComponentAction::AlreadyActive
    } else if is_cold(state) {
        ComponentAction::Load
    } else {
        ComponentAction::Unsupported
    }
}

pub fn component_action(state: u32) -> (a: ComponentAction)
    ensures
        a == action_for(state),
{
    if state / 2 % 2 == 1 {
        ComponentAction::AlreadyActive
    } else if state % 2 == 1 {
        ComponentAction::Load
    } else {
        ComponentAction::Unsupported
    }
}

/// The identity in the record with number `i`.
pub open spec fn record_in(s: Seq<u8>, i: int) -> IdentityV1 {
    IdentityV1 { user_id: i32_at(s, 40 * i) as i32, uuid: uuid_at(s, 40 * i + 4) }
}

/// Whether the record with number `i` is of the built-in sensor.
pub open spec fn built_in(s: Seq<u8>, i: int) -> bool {
    u32_at(s, 40 * i + 20) == 1
}

/// The identities of the built-in sensor for one user among the first `n`
/// records.
pub open spec fn built_in_for(s: Seq<u8>, user_id: int, n: int) -> Seq<Uuid>
    decreases n,
{
    if n <= 0 {
        Seq::empty()
    } else {
        let before = built_in_for(s, user_id, n - 1);
        if built_in(s, n - 1) && record_in(s, n - 1).user_id == user_id {
            before.push(record_in(s, n - 1).uuid)
        } else {
            before
        }
    }
}

/// Whether any record is of this identity.
pub open spec fn lists(s: Seq<u8>, uuid: Uuid) -> bool {
    exists|i: int| 0 <= i < s.len() as int / 40 && (#[trigger] record_in(s, i)).uuid == uuid
}

/// The list of identities that are enrolled.
pub struct IdentityRecords<'a> {
    reply: &'a [u8],
}

impl<'a> IdentityRecords<'a> {
    pub closed spec fn view(&self) -> Seq<u8> {
        self.reply@
    }

    /// A list is made of whole records.
    pub fn new(reply: &'a [u8]) -> (r: Option<IdentityRecords<'a>>)
        ensures
            match r {
                Some(l) => reply.len() % 40 == 0 && l@ == reply@,
                None => reply.len() % 40 != 0,
            },
    {
        if reply.len() % IDENTITY_RECORD_LEN != 0 {
            return None;
        }
        Some(IdentityRecords { reply })
    }

    pub fn count(&self) -> (n: usize)
        ensures
            n == self@.len() / 40,
    {
        self.reply.len() / IDENTITY_RECORD_LEN
    }

    pub fn record(&self, i: usize) -> (r: Option<(IdentityV1, bool)>)
        ensures
            r == (if 40 * i + 40 <= self@.len() {
                Some((record_in(self@, i as int), built_in(self@, i as int)))
            } else {
                None
            }),
    {
        if i < self.reply.len() / IDENTITY_RECORD_LEN {
            let at: usize = i * IDENTITY_RECORD_LEN;
            let identity = IdentityV1 {
                user_id: read_i32(self.reply, at),
                uuid: Uuid::read(self.reply, at + 4),
            };
            Some((identity, read_u32(self.reply, at + 20) == 1))
        } else {
            None
        }
    }

    pub fn lists_uuid(&self, uuid: &Uuid) -> (r: bool)
        ensures
            r == lists(self@, *uuid),
    {
        let mut i: usize = 0;
        let n: usize = self.count();
        while i < n
            invariant
                i <= n,
                n == self@.len() / 40,
                forall|j: int| 0 <= j < i ==> (#[trigger] record_in(self@, j)).uuid != *uuid,
            decreases n - i,
        {
            if let Some((identity, _)) = self.record(i) {
                if identity.uuid == *uuid {
                    assert(record_in(self@, i as int).uuid == *uuid);
                    return true;
                }
            }
            i = i + 1;
        }
        false
    }

    pub fn each_built_in_for(&self, user_id: i32) -> (out: Vec<Uuid>)
        ensures
            out@ == built_in_for(self@, user_id as int, self@.len() as int / 40),
    {
        let mut out: Vec<Uuid> = Vec::new();
        let mut i: usize = 0;
        let n: usize = self.count();
        while i < n
            invariant
                i <= n,
                n == self@.len() / 40,
                out@ == built_in_for(self@, user_id as int, i as int),
            decreases n - i,
        {
            if let Some((identity, built_in)) = self.record(i) {
                if built_in && identity.user_id == user_id {
                    out.push(identity.uuid);
                }
            }
            i = i + 1;
        }
        out
    }
}

/// What is listed for the built-in sensor is listed.
pub proof fn built_in_are_listed(s: Seq<u8>, user_id: int, n: int)
    requires
        n <= s.len() as int / 40,
    ensures
        forall|k: int|
            0 <= k < built_in_for(s, user_id, n).len() ==> lists(
                s,
                #[trigger] built_in_for(s, user_id, n)[k],
            ),
    decreases n,
{
    if n > 0 {
        built_in_are_listed(s, user_id, n - 1);
        let before = built_in_for(s, user_id, n - 1);
        let all = built_in_for(s, user_id, n);
        assert forall|k: int| 0 <= k < all.len() implies lists(s, #[trigger] all[k]) by {
            if k < before.len() {
                assert(all[k] == before[k]);
            } else {
                assert(record_in(s, n - 1).uuid == all[k]);
            }
        }
    }
}

/// The number under which the enclave knows each request.
pub proof fn requests_are_known_by_number(call: Call)
    ensures
        call is CompleteInit <==> opcode_of(call) == 0x01,
        call is BeginEnrol <==> opcode_of(call) == 0x03,
        call is Cancel <==> opcode_of(call) == 0x05,
        call is ImageInit <==> opcode_of(call) == 0x06,
        call is Assessment <==> opcode_of(call) == 0x07,
        call is EnrolResult <==> opcode_of(call) == 0x08,
        call is MatchResult <==> opcode_of(call) == 0x09,
        call is SessionShare <==> opcode_of(call) == 0x15,
        call is CommitSession <==> opcode_of(call) == 0x16,
        call is RegisterSerial <==> opcode_of(call) == 0x17,
        call is CommitChallenge <==> opcode_of(call) == 0x18,
        call is ClearState <==> opcode_of(call) == 0x19,
        call is MatchPolicy <==> opcode_of(call) == 0x1f,
        call is ImageCleanup <==> opcode_of(call) == 0x22,
        call is PrepareImage <==> opcode_of(call) == 0x23,
        call is ProtectedConfig <==> opcode_of(call) == 0x2b,
        call is SelectContext <==> opcode_of(call) == 0x2d,
        call is ModuleChallenge <==> opcode_of(call) == 0x31,
        call is ModuleCommit <==> opcode_of(call) == 0x32,
        call is ConfirmSave <==> opcode_of(call) == 0x37,
        call is FreeIdentityCount <==> opcode_of(call) == 0x38,
        call is Challenge <==> opcode_of(call) == 0x42,
        call is DeleteIdentity <==> opcode_of(call) == 0x57,
        call is LoadCalibration <==> opcode_of(call) == 0x5b,
        call is OperationParams <==> opcode_of(call) == 0x5c,
        call is CoverageParams <==> opcode_of(call) == 0x5d,
        call is FetchPatch <==> opcode_of(call) == 0x5f,
        call is Diagnostics <==> opcode_of(call) == 0x63,
        call is RelayCapture <==> opcode_of(call) == 0x65,
        call is TransparentChannel <==> opcode_of(call) == 0x6a,
        call is ContextState <==> opcode_of(call) == 0x6b,
        call is SaveCatacomb <==> opcode_of(call) == 0x6c,
        call is LoadCatacomb <==> opcode_of(call) == 0x6d,
        call is SaveLockout <==> opcode_of(call) == 0x70,
        call is LoadLockout <==> opcode_of(call) == 0x71,
        call is ListIdentities <==> opcode_of(call) == 0x7a,
        call is UpdateDeviceList <==> opcode_of(call) == 0x7b,
        call is RegisterSensor <==> opcode_of(call) == 0x80,
{
}

/// What is read back from a request's payload: the user, the scope or the finger
/// that it names, and the bytes that it carries, at their places.
pub proof fn payload_reads_back(call: Call, data: Seq<u8>)
    requires
        admits(call, data.len() as int),
    ensures
        ({
            let p = payload_of(call, data);
            &&& call matches Call::RegisterSensor(id) ==> p.len() == 2 && crate::bytes::u16_at(p, 0)
                == id.0
            &&& call matches Call::SelectContext(scope, _) ==> p.len() == 4 && i32_at(p, 0)
                == scope@
            &&& call matches Call::ProtectedConfig(user) ==> p.len() == 4 && i32_at(p, 0) == user@
            &&& call matches Call::BeginEnrol(user, auth) ==> {
                &&& p.len() == 0x44
                &&& u32_at(p, 0) == 0
                &&& i32_at(p, 4) == user@
                &&& u32_at(p, 8) == auth
                &&& u32_at(p, 12) == 16
                &&& p.subrange(16, 32) == data
                &&& p.subrange(32, 0x44) == zeroed(36)
            }
            &&& call is LoadCalibration ==> u32_at(p, 0) == 3 && p.subrange(4, p.len() as int)
                == data
            &&& call matches Call::SaveCatacomb(who) ==> p.len() == 24 && i32_at(p, 0) == who@
                && p.subrange(4, 24) == zeroed(20)
            &&& call matches Call::ConfirmSave(who) ==> p.len() == 24 && i32_at(p, 0) == who@
                && p.subrange(4, 24) == zeroed(20)
            &&& call matches Call::FreeIdentityCount(user) ==> p.len() == 24 && i32_at(p, 0)
                == user@ && u32_at(p, 4) == 1 && p.subrange(8, 24) == zeroed(16)
            &&& call matches Call::DeleteIdentity(id) ==> p.len() == 20 && i32_at(p, 0)
                == id.user_id && p.subrange(4, 20) == id.uuid@
            &&& call is CompleteInit ==> p.len() == 8 && u32_at(p, 0) == 1 && u32_at(p, 4) == 1
            &&& call is CoverageParams || call is OperationParams ==> p == zeroed(4)
            &&& call is SessionShare ==> p.len() == 4 && u32_at(p, 0) == 1
            &&& call is FetchPatch ==> p.len() == 2 && crate::bytes::u16_at(p, 0) == 2
            &&& call is RegisterSerial || call is ModuleCommit || call is LoadLockout || call is
                LoadCatacomb || call is RelayCapture || call is CommitSession || call is
                CommitChallenge ==> p == data
            &&& call is Cancel || call is ImageCleanup || call is PrepareImage || call is
                Assessment || call is EnrolResult || call is MatchResult || call is ListIdentities
                || call is SaveLockout || call is ClearState || call is ContextState || call is
                Challenge || call is ModuleChallenge || call is Diagnostics || call is MatchPolicy
                || call is UpdateDeviceList || call is TransparentChannel ==> p.len() == 0
        }),
{
    broadcast use group_le;

    let p = payload_of(call, data);
    match call {
        Call::RegisterSensor(id) => {
            crate::bytes::u16_round_trip(id.0 as int);
        },
        Call::SelectContext(scope, _) => {
            crate::bytes::i32_reads_back(p, 0, scope@ as int);
        },
        Call::ProtectedConfig(user) => {
            crate::bytes::i32_reads_back(p, 0, user@ as int);
        },
        Call::BeginEnrol(user, auth) => {
            crate::bytes::i32_reads_back(p, 4, user@ as int);
            crate::bytes::u32_reads_back(p, 0, 0);
            crate::bytes::u32_reads_back(p, 8, auth as int);
            crate::bytes::u32_reads_back(p, 12, 16);
            assert(p.subrange(16, 32) =~= data);
            assert(p.subrange(32, 0x44) =~= zeroed(36));
        },
        Call::LoadCalibration => {
            crate::bytes::u32_reads_back(p, 0, 3);
            assert(p.subrange(4, p.len() as int) =~= data);
        },
        Call::SaveCatacomb(who) => {
            crate::bytes::i32_reads_back(p, 0, who@ as int);
            assert(p.subrange(4, 24) =~= zeroed(20));
        },
        Call::ConfirmSave(who) => {
            crate::bytes::i32_reads_back(p, 0, who@ as int);
            assert(p.subrange(4, 24) =~= zeroed(20));
        },
        Call::FreeIdentityCount(user) => {
            crate::bytes::i32_reads_back(p, 0, user@ as int);
            crate::bytes::u32_reads_back(p, 4, 1);
            assert(p.subrange(8, 24) =~= zeroed(16));
        },
        Call::DeleteIdentity(id) => {
            crate::uuid::uuid_round_trip(id.uuid);
            crate::bytes::i32_reads_back(p, 0, id.user_id as int);
            assert(p.subrange(4, 20) =~= id.uuid@);
        },
        Call::CompleteInit => {
            crate::bytes::u32_reads_back(p, 0, 1);
            crate::bytes::u32_reads_back(p, 4, 1);
        },
        Call::CoverageParams => {
            crate::bytes::u32_round_trip(0);
            crate::bytes::u32_reads_back(p, 0, 0);
            crate::bytes::u32_le_of_bytes(zeroed(4));
            assert(u32_at(zeroed(4), 0) == 0);
        },
        Call::SessionShare => {
            crate::bytes::u32_reads_back(p, 0, 1);
        },
        Call::FetchPatch => {
            crate::bytes::u16_round_trip(2);
        },
        _ => {},
    }
}

/// What is read back from the announcement of an image: the mark of its purpose
/// and, where it is the last, the mark for the last of that purpose; the mark of
/// the first; the time in ticks of 24 MHz; and zeros elsewhere.
pub proof fn announcement_reads_back(i: ImageInit)
    ensures
        ({
            let p = image_init(i);
            &&& p.len() == 0x97
            &&& p[7] == (if i.first_image {
                1int
            } else {
                0
            })
            &&& p[8] == (if i.last_image && i.purpose == ImagePurpose::Enrolment {
                1int
            } else {
                0
            })
            &&& p[9] == (if i.last_image && i.purpose == ImagePurpose::Matching {
                1int
            } else {
                0
            })
            &&& p[0x12] + p[0x13] == 1
            &&& crate::bytes::u64_at(p, 0x40) == (i.monotonic_ns as int * 24) / 1000
                || i.monotonic_ns as int * 24 / 1000 >= 0x1_0000_0000_0000_0000
            &&& u32_at(p, 0x48) == i.capture_counter
            &&& u32_at(p, 0x4f) == 1
            &&& i32_at(p, 0x67) == i.user@
            &&& forall|k: int|
                0 <= k < 0x97 && !(7 <= k <= 9) && k != 0x12 && k != 0x13 && !(0x40 <= k < 0x4c)
                    && !(0x4f <= k < 0x53) && !(0x67 <= k < 0x6b) ==> #[trigger] p[k] == 0
        }),
{
    broadcast use group_le;

    let p = image_init(i);
    let t = (i.monotonic_ns as int * 24) / 1000;
    image_purposes_differ(i);
    assert(p.subrange(0x4f, 0x53) =~= u32_le(1));
    crate::bytes::u32_reads_back(p, 0x4f, 1);
    if t < 0x1_0000_0000_0000_0000 {
        crate::bytes::u64_reads_back(p, 0x40, t);
    }
}

/// What the enclave's status means: its low sixteen bits are 0 for what was taken,
/// 1 for what has to wait for something else, 0x16 for a refusal of its own kind.
/// Only a transaction that was answered is ever taken.
pub proof fn verdict_goes_by_low_bits(s: DeviceStatus)
    ensures
        verdict_of(s) == Verdict::Accepted <==> (s matches DeviceStatus::Answered(v) && v % 0x1_0000
            == 0),
        verdict_of(s) == Verdict::PrerequisiteMissing <==> (s matches DeviceStatus::Answered(v)
            && v % 0x1_0000 == 1),
        verdict_of(s) == Verdict::Status16 <==> (s matches DeviceStatus::Answered(v) && v % 0x1_0000
            == 0x16),
{
}

/// A component is loaded if it is cold and not active, left alone if it is active,
/// and neither otherwise: bit 0 says that it is cold, bit 1 that it is active.
pub proof fn component_is_loaded_when_cold(state: u32)
    ensures
        action_for(state) == ComponentAction::Load <==> state % 4 == 1,
        action_for(state) == ComponentAction::AlreadyActive <==> state % 4 >= 2,
        action_for(state) == ComponentAction::Unsupported <==> state % 4 == 0,
{
}

/// The state of a component is that of the first pair of the list with its number.
pub proof fn component_state_is_of_the_first(s: Seq<u8>, id: int, i: int, k: int)
    requires
        0 <= i <= k,
        8 * k + 8 <= s.len(),
        i32_at(s, 8 * k) == id,
        forall|j: int| i <= j < k ==> #[trigger] i32_at(s, 8 * j) != id,
    ensures
        state_in(s, id, i) == Some(u32_at(s, 8 * k + 4) as u32),
    decreases k - i,
{
    if i < k {
        assert(i32_at(s, 8 * i) != id);
        component_state_is_of_the_first(s, id, i + 1, k);
    }
}

/// How an image is marked: the flags of a matching image and its place among images stand
/// elsewhere than those of an enrolment.
pub proof fn images_are_marked()
    ensures
        ImagePurpose::Matching.flag_at() == 0x12,
        ImagePurpose::Enrolment.flag_at() == 0x13,
        ImagePurpose::Matching.last_image_at() == 9,
        ImagePurpose::Enrolment.last_image_at() == 8,
{
}

/// The word that announces a packet has the endpoint in its low byte, then the marker, then
/// the operation, and the number in its top sixteen bits.
pub proof fn word_is_laid_out(opcode: u16, marker: u8, seq: u16)
    ensures
        ({
            let w = word(opcode as int, marker as int, seq as int);
            &&& 0 <= w < 0x1_0000_0000_0000_0000
            &&& w % 0x100 == EP_SBIO
            &&& w / 0x100 % 0x100 == marker
            &&& w / 0x1_0000 % 0x1_0000 == opcode
            &&& w / 0x1_0000_0000 % 0x1_0000 == 0
            &&& w / 0x1_0000_0000_0000 == seq
        }),
{
    let w = word(opcode as int, marker as int, seq as int);
    let k1 = w / 0x100;
    assert(k1 == marker + 0x100 * opcode + 0x100_0000_0000 * seq);
    vstd::arithmetic::div_mod::lemma_div_denominator(w, 0x100, 0x100);
    let k2 = w / 0x1_0000;
    assert(k2 == opcode + 0x1_0000_0000 * seq);
    vstd::arithmetic::div_mod::lemma_div_denominator(w, 0x1_0000, 0x1_0000);
    let k3 = w / 0x1_0000_0000;
    assert(k3 == 0x1_0000 * seq);
    vstd::arithmetic::div_mod::lemma_div_denominator(w, 0x1_0000_0000, 0x1_0000);
}

/// How long what goes with a request may be. Those that are not named go alone.
pub proof fn requests_carry_so_much(call: Call, len: int)
    requires
        0 <= len,
    ensures
        call is RegisterSerial ==> (admits(call, len) <==> len == SENSOR_SERIAL_LEN),
        call is BeginEnrol ==> (admits(call, len) <==> len == 16),
        call is ModuleCommit ==> (admits(call, len) <==> 0 < len <= 0x97),
        call is LoadLockout ==> (admits(call, len) <==> 0 < len <= 0x4b000),
        call is LoadCatacomb ==> (admits(call, len) <==> 0x22 <= len <= 0x4b000),
        call is LoadCalibration || call is RelayCapture ==> admits(call, len),
        call is CommitSession ==> (admits(call, len) <==> len == SESSION_SHARE_LEN),
        call is CommitChallenge ==> (admits(call, len) <==> len == CHALLENGE_LEN),
        call is Cancel || call is ListIdentities || call is DeleteIdentity || call is EnrolResult
            || call is MatchResult || call is ImageInit || call is SaveCatacomb ==> (admits(
            call,
            len,
        ) <==> len == 0),
{
}

/// How far an enrolment is: 255 parts are a hundred hundredths, none are none, and between
/// them the nearest whole one is told.
pub proof fn progress_is_rounded(raw: u8)
    ensures
        percent_of(0) == 0,
        percent_of(255) == 100,
        510 * percent_of(raw as int) <= 200 * raw + 255,
        510 * percent_of(raw as int) >= 200 * raw - 255,
        percent_of(raw as int) <= 100,
{
}

/// Nanoseconds in ticks of 24 MHz: a microsecond is 24 of them.
pub proof fn ticks_are_counted(us: u32)
    ensures
        ticks(1000 * us as int) == 24 * us,
        ticks(0) == 0,
{
}

/// Where the result of an enrolment has its parts: the progress at 4, whether there is a
/// template at 6, and whether it is complete at 0xbfe.
pub proof fn enrolment_is_read(s: Seq<u8>)
    ensures
        enrolment_in(s).progress_raw == s[4],
        enrolment_in(s).has_template == u32_at(s, 6) as u32,
        enrolment_in(s).complete == u32_at(s, 0xbfe) as u32,
{
}

/// The result of a match starts with the user's number, and the finger's identifier stands
/// behind it.
pub proof fn match_is_read(user: i32, uuid: Uuid, rest: Seq<u8>)
    ensures
        ({
            let s = i32_le(user as int) + uuid@ + rest;
            match_in(s) == (MatchResult { user_id: user, identity: uuid })
        }),
{
    broadcast use group_le;

    let s = i32_le(user as int) + uuid@ + rest;
    crate::uuid::uuid_round_trip(uuid);
    assert(s.subrange(0, 4) =~= i32_le(user as int));
    crate::bytes::i32_reads_back(s, 0, user as int);
    crate::uuid::uuid_bytes(s, 4);
    assert(s.subrange(4, 20) =~= uuid@);
    crate::uuid::uuid_injective(uuid_at(s, 4), uuid);
}

/// A list of identities has forty bytes for each: the user's number, the identifier, and at
/// 20 a 1 where it is of the built-in sensor.
pub proof fn identities_are_read(
    before: Seq<u8>,
    user: i32,
    uuid: Uuid,
    sensor: u32,
    rest: Seq<u8>,
    i: int,
)
    requires
        0 <= i,
        before.len() == 40 * i,
        rest.len() >= 16,
    ensures
        ({
            let s = before + i32_le(user as int) + uuid@ + u32_le(sensor as int) + rest;
            &&& record_in(s, i) == (IdentityV1 { user_id: user, uuid })
            &&& built_in(s, i) <==> sensor == 1
            &&& lists(s, uuid)
        }),
{
    broadcast use group_le;

    let s = before + i32_le(user as int) + uuid@ + u32_le(sensor as int) + rest;
    crate::uuid::uuid_round_trip(uuid);
    assert(s.subrange(40 * i, 40 * i + 4) =~= i32_le(user as int));
    crate::bytes::i32_reads_back(s, 40 * i, user as int);
    crate::uuid::uuid_bytes(s, 40 * i + 4);
    assert(s.subrange(40 * i + 4, 40 * i + 20) =~= uuid@);
    crate::uuid::uuid_injective(uuid_at(s, 40 * i + 4), uuid);
    assert(s.subrange(40 * i + 20, 40 * i + 24) =~= u32_le(sensor as int));
    crate::bytes::u32_reads_back(s, 40 * i + 20, sensor as int);
    assert(i < s.len() as int / 40);
    assert(record_in(s, i).uuid == uuid);
}

/// Of the identities those of the built-in sensor and of the user are taken, in the order
/// of the list.
pub proof fn own_identities_are_taken(s: Seq<u8>, user_id: int, n: int)
    requires
        0 <= n,
    ensures
        built_in_for(s, user_id, 0) == Seq::<Uuid>::empty(),
        u32_at(s, 40 * n + 20) == 1 && i32_at(s, 40 * n) as i32 == user_id ==> built_in_for(
            s,
            user_id,
            n + 1,
        ) == built_in_for(s, user_id, n).push(uuid_at(s, 40 * n + 4)),
        u32_at(s, 40 * n + 20) != 1 || i32_at(s, 40 * n) as i32 != user_id ==> built_in_for(
            s,
            user_id,
            n + 1,
        ) == built_in_for(s, user_id, n),
{
}

/// A candidate stands anywhere in a record behind the user's number, twenty bytes with it,
/// and is not of zeros.
pub proof fn candidates_are_found(s: Seq<u8>, user_id: int, n: int)
    requires
        0 <= n,
    ensures
        candidates(s, user_id, 0) == Seq::<Uuid>::empty(),
        i32_at(s, n) == user_id && uuid_at(s, n + 4) != zero_uuid() ==> candidates(
            s,
            user_id,
            n + 1,
        ) == candidates(s, user_id, n).push(uuid_at(s, n + 4)),
        i32_at(s, n) != user_id || uuid_at(s, n + 4) == zero_uuid() ==> candidates(
            s,
            user_id,
            n + 1,
        ) == candidates(s, user_id, n),
        starts(19) == 0 && starts(20) == 1 && starts(21) == 2,
{
}

} // verus!
