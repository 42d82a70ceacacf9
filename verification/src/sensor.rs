//! The fingerprint sensor's frames: what is clocked out to it, and what is
//! made of the bytes that it clocks back.

use crate::bytes::{
    all_zero, copy_of, copy_range, group_le, put_bytes, put_u16, put_u32, put_zeros, read_u16,
    read_u32, u16_at, u16_le, u32_at, u32_le, zeroed,
};
use crate::crc::{crc16_ansi, crc16_arc};
use crate::errno::Errno;
use crate::image::wipe;
use vstd::prelude::*;
use vstd::slice::slice_subrange;

verus! {

/// The bus controller that the sensor hangs off, and its chip select there.
pub const CONTROLLER_BASE: u64 = 0x3_9b10_8000;

pub const CHIP_SELECT: u32 = 0;

/// How the delay between chip select and clock is produced.
#[derive(Clone, Copy, Debug, PartialEq, Eq, Structural)]
pub enum CsTiming {
    /// Emulated: the controller has no hook for it.
    Software,
    /// Emulated: the hook exists, but a line of its own selects the chip.
    HookBypassed,
    /// Programmed into the controller, which is what the sensor needs.
    Hardware,
}

impl CsTiming {
    pub fn from_wire(v: i32) -> (t: CsTiming)
        ensures
            t == timing_of(v),
    {
        match v {
            2 => CsTiming::Hardware,
            1 => CsTiming::HookBypassed,
            _ => CsTiming::Software,
        }
    }

    pub fn is_hardware(self) -> (r: bool)
        ensures
            r == (self == CsTiming::Hardware),
    {
        match self {
            CsTiming::Hardware => true,
            _ => false,
        }
    }
}

/// Where the line that powers the sensor was found.
#[derive(Clone, Copy, Debug, PartialEq, Eq, Structural)]
pub enum PowerSource {
    Absent,
    NodeProperty,
    ChipLine,
}

impl PowerSource {
    pub fn from_wire(v: i32) -> (s: PowerSource)
        ensures
            s == source_of(v),
    {
        match v {
            1 => PowerSource::NodeProperty,
            2 => PowerSource::ChipLine,
            _ => PowerSource::Absent,
        }
    }
}

/// The number of the power line, unless looking it up gave an error.
pub fn power_line(n: i32) -> (r: Option<i32>)
    ensures
        r == (if n < 0 {
            None
        } else {
            Some(n)
        }),
{
    if n < 0 {
        None
    } else {
        Some(n)
    }
}

/// How long after power-on the status is looked at, each time anew.
pub const POWER_ON_READ_DELAYS_MS: [u32; 4] = [0, 3, 10, 50];

pub const EXPECTED_IDENTIFIER: u16 = 0x3352;

pub const CMD_LEN: usize = 7;

pub const OP_GET_STATUS: u8 = 0x10;

pub const OP_IDLE: u8 = 0x30;

pub const OP_START_CAPTURE: u8 = 0x40;

pub const OP_SETUP_PATCH_ENABLE: u8 = 0x60;

pub const OP_GET_SENSOR_SERIAL: u8 = 0x70;

pub const READ_CMD_LEN: usize = 11;

pub const STATUS_XFER_LEN: usize = 23;

pub const STATUS_AT: usize = 7;

pub const STATUS_LEN: usize = 16;

/// Offsets into the sixteen bytes of a status.
pub const STATUS_STATE: usize = 7;

pub const STATUS_PATCH_ACK: usize = 8;

pub const STATUS_IDENTIFIER: usize = 12;

pub const STATE_IDLE: u8 = 0;

pub const STATE_DATA_READY: u8 = 7;

pub const STATE_NEEDS_PATCH: u8 = 9;

pub const STATE_ARMED: u8 = 17;

pub const STATE_READING: u8 = 19;

pub const PATCH_ACCEPTED: u8 = 0x29;

pub const MAX_CAPTURE: usize = 0x10000;

pub const CRC_LEN: usize = 2;

pub const FRAME_HEADER: usize = 7;

pub const TYPE_SESSION: u8 = 0x72;

pub const TYPE_SEQUENCE: u8 = 0x73;

pub const TYPE_ENCRYPTED: u8 = 0x55;

pub const SESSION_SHARE_LEN: usize = 40;

pub const CHALLENGE_LEN: usize = 64;

pub const MAX_FRAME_PAYLOAD: usize = 64;

pub const SESSION_REPLY_LEN: usize = 0x33;

pub const CHALLENGE_REPLY_LEN: usize = 0x4b;

pub const SENSOR_SERIAL_REPLY_LEN: usize = 0x1b;

pub const SENSOR_SERIAL_LEN: usize = 16;

/// Where the payload of every reply starts.
pub const REPLY_AT: usize = 9;

pub const MODULE_REPLY_SHORT: usize = 0x4b;

pub const MODULE_REPLY_LONG: usize = 0x4f;

/// What of a module reply is not its payload: what precedes it and the check.
pub const MODULE_REPLY_ADJUST: usize = 11;

pub const MAX_REPLY: usize = 0x4f;

pub const READ_POLL_MS: i64 = 5;

pub const READ_POLL_ATTEMPTS: usize = 200;

/// The seven bytes that start an exchange: the marker, what is asked, and the
/// length of the command.
pub open spec fn head(op: u8, len: int) -> Seq<u8> {
    seq![0x80u8, op, 0u8] + u16_le(len) + seq![0u8, 0u8]
}

fn put_head(op: u8, len: u16) -> (out: Vec<u8>)
    ensures
        out@ == head(op, len as int),
{
    let mut out: Vec<u8> = vec![0x80u8, op, 0u8];
    put_u16(&mut out, len);
    out.push(0);
    out.push(0);
    assert(out@ =~= head(op, len as int));
    out
}

/// A command without arguments.
pub fn command(op: u8) -> (out: Vec<u8>)
    ensures
        out@ == head(op, CMD_LEN as int),
{
    put_head(op, 7)
}

pub fn idle() -> (out: Vec<u8>)
    ensures
        out@ == head(OP_IDLE, CMD_LEN as int),
{
    command(OP_IDLE)
}

pub fn start_capture() -> (out: Vec<u8>)
    ensures
        out@ == head(OP_START_CAPTURE, CMD_LEN as int),
{
    command(OP_START_CAPTURE)
}

/// Announces that a patch follows.
pub fn setup_patch_enable() -> (out: Vec<u8>)
    ensures
        out@ == head(OP_SETUP_PATCH_ENABLE, CMD_LEN as int),
{
    command(OP_SETUP_PATCH_ENABLE)
}

pub fn get_sensor_serial() -> (out: Vec<u8>)
    ensures
        out@ == head(OP_GET_SENSOR_SERIAL, CMD_LEN as int),
{
    command(OP_GET_SENSOR_SERIAL)
}

pub open spec fn status_bytes() -> Seq<u8> {
    head(OP_GET_STATUS, CMD_LEN as int) + Seq::new(16, |i: int| 0xffu8)
}

/// The status command and the idle bytes under which the status is clocked
/// back.
pub fn get_status() -> (out: Vec<u8>)
    ensures
        out@ == status_bytes(),
{
    let mut out = command(OP_GET_STATUS);
    let mut i: usize = 0;
    while i < STATUS_LEN
        invariant
            i <= STATUS_LEN,
            out@ == head(OP_GET_STATUS, CMD_LEN as int) + Seq::new(i as nat, |i: int| 0xffu8),
        decreases STATUS_LEN - i,
    {
        out.push(0xff);
        i = i + 1;
        assert(out@ =~= head(OP_GET_STATUS, CMD_LEN as int) + Seq::new(i as nat, |i: int| 0xffu8));
    }
    out
}

/// The bytes of a framed payload: header, then the payload as it is.
pub open spec fn framed_bytes(frame_type: u8, payload: Seq<u8>) -> Seq<u8> {
    head(frame_type, FRAME_HEADER + payload.len()) + payload
}

/// Frames a payload, if it is no longer than the longest that is ever sent.
pub fn frame(frame_type: u8, payload: &[u8]) -> (r: Result<Vec<u8>, Errno>)
    ensures
        match r {
            Ok(out) => payload.len() <= MAX_FRAME_PAYLOAD && out@ == framed_bytes(
                frame_type,
                payload@,
            ),
            Err(e) => payload.len() > MAX_FRAME_PAYLOAD && e == Errno::EINVAL,
        },
{
    if payload.len() > MAX_FRAME_PAYLOAD {
        return Err(Errno::EINVAL);
    }
    let mut out = put_head(frame_type, (FRAME_HEADER + payload.len()) as u16);
    put_bytes(&mut out, payload);
    Ok(out)
}

pub open spec fn share_frame(share: Seq<u8>) -> Seq<u8> {
    framed_bytes(TYPE_SESSION, share)
}

pub open spec fn challenge_frame(bytes: Seq<u8>) -> Seq<u8> {
    framed_bytes(TYPE_SEQUENCE, bytes)
}

/// The host's share of a session, framed.
pub fn session_share(share: &[u8]) -> (out: Vec<u8>)
    requires
        share.len() == SESSION_SHARE_LEN,
    ensures
        out@ == share_frame(share@),
{
    let mut out = put_head(TYPE_SESSION, 47);
    put_bytes(&mut out, share);
    out
}

/// A challenge, framed.
pub fn challenge(bytes: &[u8]) -> (out: Vec<u8>)
    requires
        bytes.len() == CHALLENGE_LEN,
    ensures
        out@ == challenge_frame(bytes@),
{
    let mut out = put_head(TYPE_SEQUENCE, 71);
    put_bytes(&mut out, bytes);
    out
}

/// What precedes the payload of an encrypted frame, and the check behind it.
pub const ENCRYPTED_OVERHEAD: usize = 9;

pub const ENCRYPTED_TRANSFER_MAX: usize = 0x12b;

/// The sizes of one sort of encrypted frame: what its header declares and how
/// much is clocked out.
pub struct Geometry {
    declared: usize,
    transfer: usize,
}

impl Geometry {
    pub closed spec fn declared_len(&self) -> int {
        self.declared as int
    }

    pub closed spec fn transfer_len(&self) -> int {
        self.transfer as int
    }

    pub open spec fn wf(&self) -> bool {
        ENCRYPTED_OVERHEAD < self.declared_len() <= self.transfer_len() <= ENCRYPTED_TRANSFER_MAX
    }

    pub fn coverage() -> (g: Geometry)
        ensures
            g.wf(),
            g.declared_len() == 0x40,
            g.transfer_len() == 0x40,
    {
        Geometry { declared: 0x40, transfer: 0x40 }
    }

    pub fn operation() -> (g: Geometry)
        ensures
            g.wf(),
            g.declared_len() == 0x40,
            g.transfer_len() == 0x40,
    {
        Geometry { declared: 0x40, transfer: 0x40 }
    }

    pub fn module_challenge() -> (g: Geometry)
        ensures
            g.wf(),
            g.declared_len() == 0x49,
            g.transfer_len() == 0x49,
    {
        Geometry { declared: 0x49, transfer: 0x49 }
    }

    /// Clocked out with zeros behind what it declares.
    pub fn transparent() -> (g: Geometry)
        ensures
            g.wf(),
            g.declared_len() == 0x4d,
            g.transfer_len() == 0x12b,
    {
        Geometry { declared: 0x4d, transfer: 0x12b }
    }

    pub fn payload_capacity(&self) -> (n: usize)
        requires
            self.wf(),
        ensures
            n == self.declared_len() - ENCRYPTED_OVERHEAD,
    {
        self.declared - ENCRYPTED_OVERHEAD
    }

    pub fn declared(&self) -> (n: usize)
        ensures
            n == self.declared_len(),
    {
        self.declared
    }
}

/// Parameters that the enclave has encrypted for the sensor.
pub struct Params {
    blob: Vec<u8>,
}

impl Params {
    pub closed spec fn view(&self) -> Seq<u8> {
        self.blob@
    }

    pub fn new(blob: Vec<u8>) -> (p: Params)
        ensures
            p@ == blob@,
    {
        Params { blob }
    }

    pub fn is_empty(&self) -> (r: bool)
        ensures
            r == (self@.len() == 0),
    {
        self.blob.len() == 0
    }

    pub fn len(&self) -> (n: usize)
        ensures
            n == self@.len(),
    {
        self.blob.len()
    }

    /// Overwrites the bytes, for when they are let go.
    pub fn wipe(&mut self)
        ensures
            final(self)@ == zeroed(old(self)@.len() as int),
    {
        wipe(&mut self.blob);
    }
}

/// Why parameters did not reach the sensor.
#[derive(Clone, Copy, Debug, PartialEq, Eq, Structural)]
pub enum ParamsError {
    Empty,
    /// The length, and the length that there is room for.
    TooLong(usize, usize),
    Transfer(Errno),
}

/// Whether the last two bytes are the check over the rest.
pub open spec fn checks(s: Seq<u8>) -> bool {
    &&& s.len() >= CRC_LEN
    &&& u16_at(s, s.len() - 2) == crc16_arc(s.subrange(0, s.len() - 2))
}

/// The part of an encrypted frame that its check covers.
pub open spec fn encrypted_head(params: Seq<u8>, declared: int) -> Seq<u8> {
    head(TYPE_ENCRYPTED, declared) + params + zeroed(declared - ENCRYPTED_OVERHEAD - params.len())
}

/// An encrypted frame: the covered part, the check, and zeros up to what is
/// clocked out.
pub open spec fn encrypted_bytes(params: Seq<u8>, declared: int, transfer: int) -> Seq<u8> {
    encrypted_head(params, declared) + u16_le(crc16_arc(encrypted_head(params, declared)) as int)
        + zeroed(transfer - declared)
}

/// Frames parameters for the sensor. They have to be there, and to fit.
pub fn encrypted_frame(params: &Params, geom: &Geometry) -> (r: Result<Vec<u8>, ParamsError>)
    requires
        geom.wf(),
    ensures
        match r {
            Ok(out) => {
                &&& 0 < params@.len() <= geom.declared_len() - ENCRYPTED_OVERHEAD
                &&& out@ == encrypted_bytes(params@, geom.declared_len(), geom.transfer_len())
            },
            Err(ParamsError::Empty) => params@.len() == 0,
            Err(ParamsError::TooLong(len, capacity)) => {
                &&& len == params@.len()
                &&& capacity == geom.declared_len() - ENCRYPTED_OVERHEAD
                &&& len > capacity
            },
            Err(ParamsError::Transfer(_)) => false,
        },
{
    if params.is_empty() {
        return Err(ParamsError::Empty);
    }
    let capacity: usize = geom.payload_capacity();
    let len: usize = params.len();
    if len > capacity {
        return Err(ParamsError::TooLong(len, capacity));
    }
    let mut out = put_head(TYPE_ENCRYPTED, geom.declared as u16);
    put_bytes(&mut out, &params.blob);
    put_zeros(&mut out, capacity - len);
    assert(out@ =~= encrypted_head(params@, geom.declared_len()));
    let crc: u16 = crc16_ansi(&out);
    put_u16(&mut out, crc);
    put_zeros(&mut out, geom.transfer - geom.declared);
    Ok(out)
}

/// What a transfer of parameters comes to.
pub fn parameters_sent(bus: Result<(), Errno>) -> (r: Result<(), ParamsError>)
    ensures
        match bus {
            Ok(_) => r is Ok,
            Err(e) => r == Err::<(), ParamsError>(ParamsError::Transfer(e)),
        },
{
    match bus {
        Ok(_) => Ok(()),
        Err(e) => Err(ParamsError::Transfer(e)),
    }
}

/// As much of an encrypted frame as its header declares passes the check, and
/// what is clocked out is as long as the geometry says.
pub proof fn encrypted_frame_checks(params: Seq<u8>, declared: int, transfer: int)
    requires
        ENCRYPTED_OVERHEAD < declared <= transfer <= ENCRYPTED_TRANSFER_MAX,
        params.len() <= declared - ENCRYPTED_OVERHEAD,
    ensures
        encrypted_bytes(params, declared, transfer).len() == transfer,
        u16_at(encrypted_bytes(params, declared, transfer), 3) == declared,
        checks(encrypted_bytes(params, declared, transfer).subrange(0, declared)),
        encrypted_bytes(params, declared, transfer).subrange(
            FRAME_HEADER as int,
            FRAME_HEADER + params.len(),
        ) == params,
{
    broadcast use group_le;

    let h = encrypted_head(params, declared);
    let all = encrypted_bytes(params, declared, transfer);
    let c = crc16_arc(h);
    assert(head(TYPE_ENCRYPTED, declared).len() == 7);
    assert(h.len() == declared - 2);
    assert(all[3] == u16_le(declared)[0] && all[4] == u16_le(declared)[1]);
    assert(all.subrange(0, declared).subrange(0, declared - 2) =~= h);
    assert(u16_at(all.subrange(0, declared), declared - 2) == u16_at(u16_le(c as int), 0));
    assert(all.subrange(7, 7 + params.len() as int) =~= params);
}

/// The bytes that ask for `total` bytes of a reply.
pub open spec fn read_bytes(total: int) -> Seq<u8> {
    head(0x13, READ_CMD_LEN as int) + u32_le(total)
}

fn put_read(total: u32) -> (out: Vec<u8>)
    ensures
        out@ == read_bytes(total as int),
{
    let mut out = put_head(0x13, 11);
    put_u32(&mut out, total);
    out
}

/// Asks for a reply of a length that a reply can have.
pub fn read_reply_ready(total: usize) -> (r: Result<Vec<u8>, Errno>)
    ensures
        match r {
            Ok(out) => total <= MAX_REPLY && out@ == read_bytes(total as int),
            Err(e) => total > MAX_REPLY && e == Errno::EINVAL,
        },
{
    if total > MAX_REPLY {
        return Err(Errno::EINVAL);
    }
    Ok(put_read(total as u32))
}

/// What the bytes at offset 12 of a status mean, which depends on the state.
#[derive(Clone, Copy, Debug, PartialEq, Eq, Structural)]
pub enum Offset12 {
    Identifier(u16),
    Available(u32),
    Undefined,
}

/// An identifier under which the sensor may be registered.
#[derive(Clone, Copy, Debug, PartialEq, Eq, Structural)]
pub struct Identifier(pub u16);

impl Identifier {
    pub fn value(&self) -> (v: u16)
        ensures
            v == self.0,
    {
        self.0
    }
}

/// The sensor's status.
pub struct Status {
    raw: Vec<u8>,
}

pub open spec fn offset12_in(raw: Seq<u8>) -> Offset12 {
    if raw[STATUS_STATE as int] == STATE_IDLE {
        Offset12::Identifier(u16_at(raw, STATUS_IDENTIFIER as int) as u16)
    } else if raw[STATUS_STATE as int] == STATE_DATA_READY {
        Offset12::Available(u32_at(raw, STATUS_IDENTIFIER as int) as u32)
    } else {
        Offset12::Undefined
    }
}

impl Status {
    pub closed spec fn view(&self) -> Seq<u8> {
        self.raw@
    }

    pub open spec fn wf(&self) -> bool {
        self@.len() == STATUS_LEN
    }

    /// Takes the status out of what was clocked back under the status command.
    pub fn decode(rx: &[u8]) -> (s: Status)
        requires
            rx.len() == STATUS_XFER_LEN,
        ensures
            s.wf(),
            s@ == rx@.subrange(STATUS_AT as int, STATUS_XFER_LEN as int),
            s@ == status_in(rx@),
    {
        Status { raw: copy_range(rx, STATUS_AT, STATUS_XFER_LEN) }
    }

    /// A status that was taken out before.
    pub fn from_raw(raw: &[u8]) -> (s: Status)
        requires
            raw.len() == STATUS_LEN,
        ensures
            s.wf(),
            s@ == raw@,
    {
        Status { raw: copy_of(raw) }
    }

    pub fn raw(&self) -> (r: &[u8])
        ensures
            r@ == self@,
    {
        self.raw.as_slice()
    }

    pub fn state(&self) -> (s: u8)
        requires
            self.wf(),
        ensures
            s == self@[STATUS_STATE as int],
    {
        self.raw[STATUS_STATE]
    }

    pub fn offset12(&self) -> (r: Offset12)
        requires
            self.wf(),
        ensures
            r == offset12_in(self@),
    {
        let state: u8 = self.state();
        if state == STATE_IDLE {
            Offset12::Identifier(read_u16(&self.raw, STATUS_IDENTIFIER))
        } else if state == STATE_DATA_READY {
            Offset12::Available(read_u32(&self.raw, STATUS_IDENTIFIER))
        } else {
            Offset12::Undefined
        }
    }

    /// The identifier to register the sensor under, if the sensor is idle and
    /// states one.
    pub fn identifier_to_register(&self) -> (r: Option<Identifier>)
        requires
            self.wf(),
        ensures
            r == (match offset12_in(self@) {
                Offset12::Identifier(v) => if v == 0 {
                    None
                } else {
                    Some(Identifier(v))
                },
                _ => None,
            }),
    {
        match self.offset12() {
            Offset12::Identifier(v) => if v == 0 {
                None
            } else {
                Some(Identifier(v))
            },
            _ => None,
        }
    }

    /// The byte by which the sensor accepts or refuses a patch.
    pub fn patch_ack(&self) -> (b: u8)
        requires
            self.wf(),
        ensures
            b == self@[STATUS_PATCH_ACK as int],
    {
        self.raw[STATUS_PATCH_ACK]
    }

    /// Whether nothing drove the bus.
    pub fn is_silent(&self) -> (r: bool)
        ensures
            r == (forall|i: int| 0 <= i < self@.len() ==> self@[i] == 0),
    {
        let raw: &[u8] = self.raw.as_slice();
        let r = all_zero(raw);
        assert(raw@ == self@);
        r
    }
}

/// What to do next while waiting for a reply.
#[derive(Clone, Copy, Debug, PartialEq, Eq, Structural)]
pub enum PollStep {
    /// Look at the status.
    Status,
    /// Wait the given number of milliseconds.
    Sleep(i64),
    /// A reply of this length is ready.
    Ready(usize),
    Failed(Errno),
}

/// The wait for a reply of one of the lengths that are accepted.
#[derive(Clone, Copy, Debug, PartialEq, Eq, Structural)]
pub struct Poll {
    pub short: usize,
    pub long: usize,
    pub looks: usize,
}

/// Whether a status announces a reply of an accepted length, and which.
pub open spec fn ready_in(p: Poll, raw: Seq<u8>) -> Option<usize> {
    match offset12_in(raw) {
        Offset12::Available(n) => if n == p.short || n == p.long {
            Some(n as usize)
        } else {
            None
        },
        _ => None,
    }
}

impl Poll {
    /// Waits for one length.
    pub fn until_ready(expected: usize) -> (p: Poll)
        ensures
            p == (Poll { short: expected, long: expected, looks: 0 }),
    {
        Poll { short: expected, long: expected, looks: 0 }
    }

    /// Waits for a module reply, which has one of two lengths.
    pub fn until_module_reply() -> (p: Poll)
        ensures
            p == (Poll { short: MODULE_REPLY_SHORT, long: MODULE_REPLY_LONG, looks: 0 }),
    {
        Poll { short: MODULE_REPLY_SHORT, long: MODULE_REPLY_LONG, looks: 0 }
    }

    /// Takes a status in. A status that could not be had ends the wait.
    pub fn on_status(&mut self, status: Result<Status, Errno>) -> (s: PollStep)
        requires
            old(self).looks < READ_POLL_ATTEMPTS,
            status is Ok ==> (status->Ok_0).wf(),
        ensures
            *final(self) == (Poll { looks: (old(self).looks + 1) as usize, ..*old(self) }),
            s == (match status {
                Err(e) => PollStep::Failed(e),
                Ok(st) => match ready_in(*old(self), st@) {
                    Some(n) => PollStep::Ready(n),
                    None => PollStep::Sleep(READ_POLL_MS),
                },
            }),
    {
        self.looks = self.looks + 1;
        match status {
            Err(e) => PollStep::Failed(e),
            Ok(st) => match st.offset12() {
                Offset12::Available(n) => if n as usize == self.short || n as usize == self.long {
                    PollStep::Ready(n as usize)
                } else {
                    PollStep::Sleep(READ_POLL_MS)
                },
                _ => PollStep::Sleep(READ_POLL_MS),
            },
        }
    }

    /// Goes on after a sleep, until the last look was in vain.
    pub fn on_slept(&self) -> (s: PollStep)
        ensures
            s == (if self.looks < READ_POLL_ATTEMPTS {
                PollStep::Status
            } else {
                PollStep::Failed(Errno::ETIMEDOUT)
            }),
    {
        if self.looks < READ_POLL_ATTEMPTS {
            PollStep::Status
        } else {
            PollStep::Failed(Errno::ETIMEDOUT)
        }
    }
}

/// How a wait ends on a sequence of statuses, from the one with number `i` on:
/// at the first that announces an accepted length, or in vain.
pub open spec fn waits(p: Poll, raws: Seq<Seq<u8>>, i: int) -> Result<usize, Errno>
    decreases READ_POLL_ATTEMPTS - i,
{
    if i >= READ_POLL_ATTEMPTS || i >= raws.len() {
        Err(Errno::ETIMEDOUT)
    } else {
        match ready_in(p, raws[i]) {
            Some(n) => Ok(n),
            None => waits(p, raws, i + 1),
        }
    }
}

/// A wait never takes a reply of a length that it was not told to accept, and
/// only in the state in which the count is defined.
pub proof fn only_accepted_lengths(p: Poll, raws: Seq<Seq<u8>>, i: int)
    requires
        0 <= i,
    ensures
        waits(p, raws, i) matches Ok(n) ==> {
            &&& n == p.short || n == p.long
            &&& exists|j: int|
                i <= j < raws.len() && j < READ_POLL_ATTEMPTS && #[trigger] raws[j][STATUS_STATE as int]
                    == STATE_DATA_READY && ready_in(p, raws[j]) == Some(n)
        },
    decreases READ_POLL_ATTEMPTS - i,
{
    if i < READ_POLL_ATTEMPTS && i < raws.len() {
        if ready_in(p, raws[i]) is None {
            only_accepted_lengths(p, raws, i + 1);
        } else {
            assert(raws[i][STATUS_STATE as int] == STATE_DATA_READY);
        }
    }
}

/// Takes `len` bytes at `at` out of a reply.
pub fn framed(reply: &[u8], at: usize, len: usize) -> (r: Result<Vec<u8>, Errno>)
    requires
        at + len <= usize::MAX,
    ensures
        match r {
            Ok(out) => at + len <= reply.len() && out@ == reply@.subrange(
                at as int,
                at + len,
            ),
            Err(e) => at + len > reply.len() && e == Errno::EINVAL,
        },
{
    if at + len > reply.len() {
        return Err(Errno::EINVAL);
    }
    Ok(copy_range(reply, at, at + len))
}

/// Takes `len` bytes at `at` out of a reply whose check has to hold.
pub fn framed_verified(reply: &[u8], at: usize, len: usize) -> (r: Result<Vec<u8>, Errno>)
    requires
        at + len <= usize::MAX,
    ensures
        match r {
            Ok(out) => {
                &&& at + len + CRC_LEN <= reply.len()
                &&& checks(reply@)
                &&& out@ == reply@.subrange(at as int, at + len)
            },
            Err(e) => if at + len + CRC_LEN > reply.len() {
                e == Errno::EINVAL
            } else {
                e == Errno::EIO && !checks(reply@)
            },
        },
{
    if reply.len() < CRC_LEN || at + len > reply.len() - CRC_LEN {
        return Err(Errno::EINVAL);
    }
    let split: usize = reply.len() - CRC_LEN;
    if read_u16(reply, split) != crc16_ansi(slice_subrange(reply, 0, split)) {
        return Err(Errno::EIO);
    }
    Ok(copy_range(reply, at, at + len))
}

/// The sensor's own serial number.
pub struct SensorSerial {
    bytes: Vec<u8>,
}

impl SensorSerial {
    pub closed spec fn view(&self) -> Seq<u8> {
        self.bytes@
    }

    pub fn bytes(&self) -> (r: &[u8])
        ensures
            r@ == self@,
    {
        self.bytes.as_slice()
    }
}

pub fn read_sensor_serial(reply: &[u8]) -> (r: Result<SensorSerial, Errno>)
    requires
        reply.len() == SENSOR_SERIAL_REPLY_LEN,
    ensures
        match r {
            Ok(s) => {
                &&& checks(reply@)
                &&& s@ == reply@.subrange(REPLY_AT as int, REPLY_AT + SENSOR_SERIAL_LEN)
            },
            Err(e) => !checks(reply@) && e == Errno::EIO,
        },
{
    match framed_verified(reply, REPLY_AT, SENSOR_SERIAL_LEN) {
        Ok(bytes) => Ok(SensorSerial { bytes }),
        Err(e) => Err(e),
    }
}

/// The sensor's share of a session.
pub fn read_session_reply(reply: &[u8]) -> (share: Vec<u8>)
    requires
        reply.len() == SESSION_REPLY_LEN,
    ensures
        share@ == session_share_in(reply@),
{
    copy_range(reply, REPLY_AT, REPLY_AT + SESSION_SHARE_LEN)
}

/// The sensor's answer to a challenge.
pub fn read_challenge_reply(reply: &[u8]) -> (answer: Vec<u8>)
    requires
        reply.len() == CHALLENGE_REPLY_LEN,
    ensures
        answer@ == challenge_answer_in(reply@),
{
    copy_range(reply, REPLY_AT, REPLY_AT + CHALLENGE_LEN)
}

/// The payload of a module reply, which is handed on as it is.
pub fn read_module_reply(reply: &[u8]) -> (out: Vec<u8>)
    requires
        reply.len() == MODULE_REPLY_SHORT || reply.len() == MODULE_REPLY_LONG,
    ensures
        out@ == module_answer_in(reply@),
{
    copy_range(reply, REPLY_AT, REPLY_AT + (reply.len() - MODULE_REPLY_ADJUST))
}

/// A patch goes out as it is, if there is any of it.
pub fn send_patch(blob: &[u8]) -> (r: Result<&[u8], Errno>)
    ensures
        match r {
            Ok(out) => blob.len() > 0 && out@ == blob@,
            Err(e) => blob.len() == 0 && e == Errno::EINVAL,
        },
{
    if blob.len() == 0 {
        return Err(Errno::EINVAL);
    }
    Ok(blob)
}

/// An image as the sensor captured it, check included.
#[derive(Debug, PartialEq, Eq)]
pub struct Capture {
    bytes: Vec<u8>,
}

impl Capture {
    pub closed spec fn view(&self) -> Seq<u8> {
        self.bytes@
    }

    pub fn bytes(&self) -> (r: &[u8])
        ensures
            r@ == self@,
    {
        self.bytes.as_slice()
    }

    /// Overwrites the image, for when it is let go.
    pub fn wipe(&mut self)
        ensures
            final(self)@ == zeroed(old(self)@.len() as int),
    {
        wipe(&mut self.bytes);
    }
}

#[derive(Clone, Copy, Debug, PartialEq, Eq, Structural)]
pub enum CaptureError {
    Length(u32),
    Bus(Errno),
    Checksum { advertised: u16, computed: u16 },
}

pub open spec fn capturable(length: u32) -> bool {
    CRC_LEN < length <= MAX_CAPTURE
}

/// Asks for an image of the advertised length.
pub fn capture_command(length: u32) -> (r: Result<Vec<u8>, CaptureError>)
    ensures
        match r {
            Ok(out) => capturable(length) && out@ == read_bytes(length as int),
            Err(e) => !capturable(length) && e == CaptureError::Length(length),
        },
{
    if length as usize > MAX_CAPTURE || length as usize <= CRC_LEN {
        return Err(CaptureError::Length(length));
    }
    Ok(put_read(length))
}

/// Takes in what the bus gave. The check at the end has to hold.
pub fn read_capture(length: u32, bus: Result<Vec<u8>, Errno>) -> (r: Result<Capture, CaptureError>)
    requires
        capturable(length),
        bus is Ok ==> (bus->Ok_0)@.len() == length,
    ensures
        match bus {
            Err(e) => r == Err::<Capture, CaptureError>(CaptureError::Bus(e)),
            Ok(b) => match r {
                Ok(c) => checks(b@) && c@ == b@,
                Err(CaptureError::Checksum { advertised, computed }) => {
                    &&& !checks(b@)
                    &&& advertised == u16_at(b@, length - 2)
                    &&& computed == crc16_arc(b@.subrange(0, length - 2))
                },
                Err(_) => false,
            },
        },
{
    match bus {
        Err(e) => Err(CaptureError::Bus(e)),
        Ok(bytes) => {
            let split: usize = length as usize - CRC_LEN;
            let advertised: u16 = read_u16(&bytes, split);
            let computed: u16 = crc16_ansi(slice_subrange(&bytes, 0, split));
            if advertised != computed {
                return Err(CaptureError::Checksum { advertised, computed });
            }
            Ok(Capture { bytes })
        },
    }
}

/// An exchange starts with 0x80, what is asked, a zero, the length of the command with
/// its low byte first, and two zeros.
pub proof fn commands_are_laid_out(op: u8, len: u16)
    ensures
        head(op, len as int).len() == 7,
        head(op, len as int)[0] == 0x80,
        head(op, len as int)[1] == op,
        head(op, len as int)[2] == 0,
        u16_at(head(op, len as int), 3) == len,
        head(op, len as int)[5] == 0,
        head(op, len as int)[6] == 0,
{
    broadcast use group_le;

    let h = head(op, len as int);
    assert(h.subrange(3, 5) =~= u16_le(len as int));
    crate::bytes::u16_reads_back(h, 3, len as int);
}

/// What is asked of the sensor is known by its number.
pub proof fn operations_are_known_by_number(op: u8)
    ensures
        op == OP_GET_STATUS <==> op == 0x10,
        op == OP_IDLE <==> op == 0x30,
        op == OP_START_CAPTURE <==> op == 0x40,
        op == OP_SETUP_PATCH_ENABLE <==> op == 0x60,
        op == OP_GET_SENSOR_SERIAL <==> op == 0x70,
{
}

/// The status command is followed by sixteen bytes of 0xff, under which the status comes
/// back.
pub proof fn status_command_is_laid_out(i: int)
    requires
        7 <= i < 23,
    ensures
        status_bytes().len() == 23,
        status_bytes()[0] == 0x80,
        status_bytes()[1] == 0x10,
        u16_at(status_bytes(), 3) == 7,
        status_bytes()[i] == 0xff,
{
    commands_are_laid_out(0x10, 7);
    assert(status_bytes().subrange(0, 7) =~= head(0x10, 7));
    assert(u16_at(status_bytes(), 3) == u16_at(head(0x10, 7), 3));
}

/// A share goes out under 0x72 and a challenge under 0x73, as they are, behind a header
/// that says how long all of it is.
pub proof fn frames_carry_their_payload(share: Seq<u8>, bytes: Seq<u8>)
    requires
        share.len() == 40,
        bytes.len() == 64,
    ensures
        share_frame(share).len() == 47,
        share_frame(share)[0] == 0x80,
        share_frame(share)[1] == 0x72,
        u16_at(share_frame(share), 3) == 47,
        share_frame(share).subrange(7, 47) == share,
        challenge_frame(bytes).len() == 71,
        challenge_frame(bytes)[0] == 0x80,
        challenge_frame(bytes)[1] == 0x73,
        u16_at(challenge_frame(bytes), 3) == 71,
        challenge_frame(bytes).subrange(7, 71) == bytes,
{
    commands_are_laid_out(0x72, 47);
    commands_are_laid_out(0x73, 71);
    assert(u16_at(share_frame(share), 3) == u16_at(head(0x72, 47), 3));
    assert(u16_at(challenge_frame(bytes), 3) == u16_at(head(0x73, 71), 3));
    assert(share_frame(share).subrange(7, 47) =~= share);
    assert(challenge_frame(bytes).subrange(7, 71) =~= bytes);
}

/// A read asks under 0x13 for so many bytes, which stand behind the header.
pub proof fn reads_name_their_length(total: u32)
    ensures
        read_bytes(total as int).len() == 11,
        read_bytes(total as int)[0] == 0x80,
        read_bytes(total as int)[1] == 0x13,
        u16_at(read_bytes(total as int), 3) == 11,
        u32_at(read_bytes(total as int), 7) == total,
{
    broadcast use group_le;

    commands_are_laid_out(0x13, 11);
    let r = read_bytes(total as int);
    assert(u16_at(r, 3) == u16_at(head(0x13, 11), 3));
    assert(r.subrange(7, 11) =~= u32_le(total as int));
    crate::bytes::u32_reads_back(r, 7, total as int);
}

/// An encrypted frame goes out under 0x55, and behind the parameters, and behind the
/// check, stand zeros.
pub proof fn encrypted_frame_is_laid_out(params: Seq<u8>, declared: int, transfer: int, i: int)
    requires
        9 < declared <= transfer <= 0x12b,
        params.len() <= declared - 9,
    ensures
        encrypted_bytes(params, declared, transfer)[0] == 0x80,
        encrypted_bytes(params, declared, transfer)[1] == 0x55,
        encrypted_bytes(params, declared, transfer).subrange(7, 7 + params.len() as int) == params,
        7 + params.len() <= i < declared - 2 || declared <= i < transfer ==> encrypted_bytes(
            params,
            declared,
            transfer,
        )[i] == 0,
{
    broadcast use group_le;

    encrypted_frame_checks(params, declared, transfer);
}

/// A status that is idle states an identifier in two bytes, one with data ready states in
/// four how much is there, and others state neither.
pub proof fn statuses_are_understood(raw: Seq<u8>)
    requires
        raw.len() == 16,
    ensures
        raw[7] == 0 ==> offset12_in(raw) == Offset12::Identifier(u16_at(raw, 12) as u16),
        raw[7] == 7 ==> offset12_in(raw) == Offset12::Available(u32_at(raw, 12) as u32),
        raw[7] != 0 && raw[7] != 7 ==> offset12_in(raw) is Undefined,
{
}

/// A reply is ready when data is, and exactly as much as is waited for; the first status
/// that says so ends the wait, if it is among the first 200.
pub proof fn reply_is_waited_for(p: Poll, raws: Seq<Seq<u8>>, i: int, n: int)
    requires
        0 <= i <= n < raws.len(),
        n < 200,
        raws[n].len() == 16,
        forall|j: int| i <= j < n ==> ready_in(p, #[trigger] raws[j]) is None,
        raws[n][7] == 7,
    ensures
        u32_at(raws[n], 12) == p.short || u32_at(raws[n], 12) == p.long ==> ready_in(p, raws[n])
            == Some(u32_at(raws[n], 12) as usize) && waits(p, raws, i) == Ok::<usize, Errno>(
            u32_at(raws[n], 12) as usize,
        ),
        u32_at(raws[n], 12) != p.short && u32_at(raws[n], 12) != p.long ==> ready_in(p, raws[n])
            is None,
    decreases n - i,
{
    if i < n {
        assert(ready_in(p, raws[i]) is None);
        reply_is_waited_for(p, raws, i + 1, n);
    }
}

/// An image has at least one byte in front of its check, and at most 65536 with it.
pub proof fn images_can_be_this_long(length: u32)
    ensures
        capturable(length) <==> 3 <= length <= 65536,
{
}

/// How the chip select is timed, by the number that the bus gives.
pub open spec fn timing_of(v: i32) -> CsTiming {
    if v == 2 {
        CsTiming::Hardware
    } else if v == 1 {
        CsTiming::HookBypassed
    } else {
        CsTiming::Software
    }
}

/// Where the sensor's power comes from, by the number that the bus gives.
pub open spec fn source_of(v: i32) -> PowerSource {
    if v == 1 {
        PowerSource::NodeProperty
    } else if v == 2 {
        PowerSource::ChipLine
    } else {
        PowerSource::Absent
    }
}

/// The status in what was transferred.
pub open spec fn status_in(rx: Seq<u8>) -> Seq<u8> {
    rx.subrange(STATUS_AT as int, STATUS_XFER_LEN as int)
}

/// The sensor's share in the reply to the session's start.
pub open spec fn session_share_in(reply: Seq<u8>) -> Seq<u8> {
    reply.subrange(REPLY_AT as int, REPLY_AT + SESSION_SHARE_LEN)
}

/// The answer in the reply to a challenge.
pub open spec fn challenge_answer_in(reply: Seq<u8>) -> Seq<u8> {
    reply.subrange(REPLY_AT as int, REPLY_AT + CHALLENGE_LEN)
}

/// The answer in a reply of the module, without the check behind it.
pub open spec fn module_answer_in(reply: Seq<u8>) -> Seq<u8> {
    reply.subrange(REPLY_AT as int, reply.len() - CRC_LEN)
}

/// What the numbers that the bus gives stand for.
pub proof fn bus_numbers_are_understood(v: i32)
    ensures
        timing_of(2) == CsTiming::Hardware,
        timing_of(1) == CsTiming::HookBypassed,
        v != 1 && v != 2 ==> timing_of(v) == CsTiming::Software,
        source_of(1) == PowerSource::NodeProperty,
        source_of(2) == PowerSource::ChipLine,
        v != 1 && v != 2 ==> source_of(v) == PowerSource::Absent,
{
}

/// Where replies hold what they are for: the status from the eighth byte on, and in all
/// others nine bytes stand in front and the check stands behind.
pub proof fn replies_are_taken_apart(head: Seq<u8>, body: Seq<u8>, a: u8, b: u8)
    ensures
        head.len() == 7 && body.len() == 16 ==> status_in(head + body) == body,
        head.len() == 9 && body.len() == 40 ==> session_share_in(head + body + seq![a, b]) == body,
        head.len() == 9 && body.len() == 64 ==> challenge_answer_in(head + body + seq![a, b])
            == body,
        head.len() == 9 ==> module_answer_in(head + body + seq![a, b]) == body,
{
    let framed = head + body + seq![a, b];
    if head.len() == 7 && body.len() == 16 {
        assert(status_in(head + body) =~= body);
    }
    if head.len() == 9 && body.len() == 40 {
        assert(session_share_in(framed) =~= body);
    }
    if head.len() == 9 && body.len() == 64 {
        assert(challenge_answer_in(framed) =~= body);
    }
    if head.len() == 9 {
        assert(module_answer_in(framed) =~= body);
    }
}

} // verus!
