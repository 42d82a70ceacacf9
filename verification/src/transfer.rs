//! Transactions that are larger than one buffer: the packet header, the
//! receiver that puts chunks together, and the sender that takes a payload
//! apart.

use crate::bytes::{group_le, put_u32, read_u32, u32_at, u32_le};
use crate::errno::Errno;
use vstd::prelude::*;

verus! {

pub const MARKER_FIRST: u8 = 0xFC;

pub const MARKER_NEXT: u8 = 0xFD;

/// Requests the peer's next packet and acknowledges the final one.
pub const MARKER_REQUEST: u8 = 0xFE;

pub const MARKER_ERROR: u8 = 0xFF;

/// What the device said of a transaction.
#[derive(Clone, Copy, Debug, PartialEq, Eq, Structural)]
pub enum DeviceStatus {
    /// The device's status word. All ones is a refusal like any other.
    Answered(u32),
    /// An error report without a status word.
    ReportedWithoutStatus,
    /// No message arrived.
    NotAnswered,
    /// A notification arrived and the buffer was never written.
    BufferNeverWritten,
}

impl DeviceStatus {
    pub fn answered(&self) -> (r: Option<u32>)
        ensures
            r == (match *self {
                DeviceStatus::Answered(err) => Some(err),
                _ => None,
            }),
    {
        match self {
            DeviceStatus::Answered(err) => Some(*err),
            DeviceStatus::ReportedWithoutStatus
            | DeviceStatus::NotAnswered
            | DeviceStatus::BufferNeverWritten => None,
        }
    }

    pub fn is_ok(&self) -> (r: bool)
        ensures
            r == (*self == DeviceStatus::Answered(0)),
    {
        match self {
            DeviceStatus::Answered(err) => *err == 0,
            _ => false,
        }
    }
}

pub const HEADER_LEN: usize = 28;

pub const VERSION: u32 = 1;

pub const MAX_TRANSACTION: u32 = 0x4B000;

/// The header of a packet: seven little-endian words.
#[derive(Clone, Copy, Debug, PartialEq, Eq, Structural)]
pub struct Packet {
    pub version: u32,
    pub total: u32,
    pub offset: u32,
    pub flags: u32,
    pub err: u32,
    pub opcode: u32,
    pub chunk: u32,
}

/// The bytes of a packet header.
pub open spec fn header_bytes(p: Packet) -> Seq<u8> {
    u32_le(p.version as int) + u32_le(p.total as int) + u32_le(p.offset as int) + u32_le(
        p.flags as int,
    ) + u32_le(p.err as int) + u32_le(p.opcode as int) + u32_le(p.chunk as int)
}

/// The header that stands at the start of `s`.
pub open spec fn header_in(s: Seq<u8>) -> Packet {
    Packet {
        version: u32_at(s, 0) as u32,
        total: u32_at(s, 4) as u32,
        offset: u32_at(s, 8) as u32,
        flags: u32_at(s, 12) as u32,
        err: u32_at(s, 16) as u32,
        opcode: u32_at(s, 20) as u32,
        chunk: u32_at(s, 24) as u32,
    }
}

/// A header survives being written and read, whatever follows it.
pub proof fn header_round_trip(p: Packet, rest: Seq<u8>)
    ensures
        header_bytes(p).len() == HEADER_LEN,
        header_in(header_bytes(p) + rest) == p,
{
    broadcast use group_le;

    let s = header_bytes(p) + rest;
    let w0 = u32_le(p.version as int);
    let w1 = u32_le(p.total as int);
    let w2 = u32_le(p.offset as int);
    let w3 = u32_le(p.flags as int);
    let w4 = u32_le(p.err as int);
    let w5 = u32_le(p.opcode as int);
    let w6 = u32_le(p.chunk as int);
    assert(u32_at(s, 0) == u32_at(w0, 0));
    assert(u32_at(s, 4) == u32_at(w1, 0));
    assert(u32_at(s, 8) == u32_at(w2, 0));
    assert(u32_at(s, 12) == u32_at(w3, 0));
    assert(u32_at(s, 16) == u32_at(w4, 0));
    assert(u32_at(s, 20) == u32_at(w5, 0));
    assert(u32_at(s, 24) == u32_at(w6, 0));
}

impl Packet {
    pub fn decode(buf: &[u8]) -> (r: Result<Packet, Errno>)
        ensures
            match r {
                Ok(p) => buf.len() >= HEADER_LEN && p == header_in(buf@),
                Err(e) => buf.len() < HEADER_LEN && e == Errno::EINVAL,
            },
    {
        if buf.len() < HEADER_LEN {
            return Err(Errno::EINVAL);
        }
        Ok(
            Packet {
                version: read_u32(buf, 0),
                total: read_u32(buf, 4),
                offset: read_u32(buf, 8),
                flags: read_u32(buf, 12),
                err: read_u32(buf, 16),
                opcode: read_u32(buf, 20),
                chunk: read_u32(buf, 24),
            },
        )
    }

    /// The header's bytes.
    pub fn encode(&self) -> (out: Vec<u8>)
        ensures
            out@ == header_bytes(*self),
            out.len() == HEADER_LEN,
    {
        broadcast use group_le;

        let mut out: Vec<u8> = Vec::new();
        put_u32(&mut out, self.version);
        put_u32(&mut out, self.total);
        put_u32(&mut out, self.offset);
        put_u32(&mut out, self.flags);
        put_u32(&mut out, self.err);
        put_u32(&mut out, self.opcode);
        put_u32(&mut out, self.chunk);
        assert(out@ =~= header_bytes(*self));
        out
    }

    /// The header that asks the device for what follows the `received` bytes.
    pub fn request_next(opcode: u32, received: u32, total: u32) -> (p: Packet)
        ensures
            p == next_request(opcode, received, total),
    {
        Packet { version: VERSION, total, offset: received, flags: 0, err: 0, opcode, chunk: 0 }
    }
}

pub open spec fn next_request(opcode: u32, received: u32, total: u32) -> Packet {
    Packet { version: VERSION, total, offset: received, flags: 0, err: 0, opcode, chunk: 0 }
}

struct Active {
    opcode: u32,
    total: u32,
    payload: Vec<u8>,
    seq: u16,
}

/// A finished transaction: what the device said and what it sent.
pub struct Completed {
    pub status: DeviceStatus,
    pub payload: Vec<u8>,
}

/// What has to be sent to get the rest of a transaction.
#[derive(Clone, Copy, Debug, PartialEq, Eq, Structural)]
pub struct Continuation {
    pub opcode: u32,
    pub received: u32,
    pub total: u32,
    pub seq: u16,
}

impl Continuation {
    pub fn opcode(&self) -> (r: u32)
        ensures
            r == self.opcode,
    {
        self.opcode
    }

    pub fn seq(&self) -> (r: u16)
        ensures
            r == self.seq,
    {
        self.seq
    }

    pub fn packet(&self) -> (p: Packet)
        ensures
            p == next_request(self.opcode, self.received, self.total),
    {
        Packet::request_next(self.opcode, self.received, self.total)
    }
}

/// What a packet did to the transaction.
#[derive(Clone, Copy, Debug, PartialEq, Eq, Structural)]
pub enum Progress {
    NeedMore(Continuation),
    Complete,
    /// A stray chunk, dropped without touching the transaction.
    Ignored,
    Grant,
    Notification,
    /// The transaction is dead.
    Failed,
}

/// A transaction that is being received.
#[verifier::ext_equal]
pub struct ActiveView {
    pub opcode: u32,
    pub total: u32,
    pub payload: Seq<u8>,
    pub seq: u16,
}

#[verifier::ext_equal]
pub struct CompletedView {
    pub status: DeviceStatus,
    pub payload: Seq<u8>,
}

#[verifier::ext_equal]
pub struct ReassemblyView {
    pub active: Option<ActiveView>,
    pub done: Option<CompletedView>,
    pub sending: Option<u32>,
    pub grants: u32,
}

impl Completed {
    pub open spec fn view(&self) -> CompletedView {
        CompletedView { status: self.status, payload: self.payload@ }
    }
}

/// The receiving end of a transaction.
pub struct Reassembly {
    active: Option<Active>,
    done: Option<Completed>,
    sending: Option<u32>,
    grants: u32,
}

/// The transaction is over, with this outcome.
pub open spec fn finished(
    s: ReassemblyView,
    status: DeviceStatus,
    payload: Seq<u8>,
) -> ReassemblyView {
    ReassemblyView { active: None, done: Some(CompletedView { status, payload }), ..s }
}

/// A running transaction is over, with this status and nothing received.
pub open spec fn aborted(s: ReassemblyView, status: DeviceStatus) -> ReassemblyView {
    if s.active is Some {
        finished(s, status, Seq::empty())
    } else {
        s
    }
}

/// Whether a data packet under the running opcode fits what came before it: its
/// version and sizes are right, a first chunk comes first and starts at zero,
/// and a further chunk starts where the last one ended, under the same total.
pub open spec fn chunk_fits(a: ActiveView, marker: u8, p: Packet, payload: Seq<u8>) -> bool {
    &&& p.version == VERSION
    &&& p.chunk == payload.len()
    &&& p.total <= MAX_TRANSACTION
    &&& marker == MARKER_FIRST ==> a.payload.len() == 0 && p.offset == 0
    &&& marker != MARKER_FIRST ==> p.offset == a.payload.len() && p.total == a.total
}

/// What a packet does: the state it leaves and what it amounts to.
pub open spec fn on_packet(
    s: ReassemblyView,
    marker: u8,
    p: Packet,
    payload: Seq<u8>,
) -> (ReassemblyView, Progress) {
    if marker < MARKER_FIRST {
        (s, Progress::Notification)
    } else if marker == MARKER_REQUEST {
        if s.sending is Some {
            (
                ReassemblyView {
                    grants: if s.grants == u32::MAX {
                        s.grants
                    } else {
                        (s.grants + 1) as u32
                    },
                    ..s
                },
                Progress::Grant,
            )
        } else {
            (s, Progress::Ignored)
        }
    } else if s.active is None {
        (s, Progress::Ignored)
    } else {
        let a = s.active->0;
        if marker == MARKER_ERROR {
            (
                finished(
                    s,
                    if p.err != 0 {
                        DeviceStatus::Answered(p.err)
                    } else {
                        DeviceStatus::ReportedWithoutStatus
                    },
                    Seq::empty(),
                ),
                Progress::Complete,
            )
        } else if p.opcode != a.opcode {
            (s, Progress::Ignored)
        } else if !chunk_fits(a, marker, p, payload) {
            (finished(s, DeviceStatus::NotAnswered, Seq::empty()), Progress::Failed)
        } else if p.err != 0 {
            (finished(s, DeviceStatus::Answered(p.err), a.payload), Progress::Complete)
        } else {
            let collected = a.payload + payload;
            let received = collected.len() as u32;
            if received >= p.total {
                (finished(s, DeviceStatus::Answered(0), collected), Progress::Complete)
            } else {
                let seq = if a.seq == u16::MAX {
                    0u16
                } else {
                    (a.seq + 1) as u16
                };
                (
                    ReassemblyView {
                        active: Some(
                            ActiveView {
                                opcode: a.opcode,
                                total: p.total,
                                payload: collected,
                                seq,
                            },
                        ),
                        ..s
                    },
                    Progress::NeedMore(
                        Continuation { opcode: a.opcode, received, total: p.total, seq },
                    ),
                )
            }
        }
    }
}

impl Reassembly {
    pub closed spec fn view(&self) -> ReassemblyView {
        ReassemblyView {
            active: match self.active {
                Some(a) => Some(
                    ActiveView {
                        opcode: a.opcode,
                        total: a.total,
                        payload: a.payload@,
                        seq: a.seq,
                    },
                ),
                None => None,
            },
            done: match self.done {
                Some(d) => Some(d@),
                None => None,
            },
            sending: self.sending,
            grants: self.grants,
        }
    }

    pub fn new() -> (r: Reassembly)
        ensures
            r@ == (ReassemblyView { active: None, done: None, sending: None, grants: 0 }),
    {
        Reassembly { active: None, done: None, sending: None, grants: 0 }
    }

    /// Starts a transaction, unless one is running. An outcome that nobody took
    /// is forgotten.
    pub fn begin(&mut self, opcode: u32) -> (r: Result<(), Errno>)
        ensures
            match r {
                Ok(_) => old(self)@.active is None && final(self)@ == (ReassemblyView {
                    active: Some(ActiveView { opcode, total: 0, payload: Seq::empty(), seq: 0 }),
                    done: None,
                    ..old(self)@
                }),
                Err(e) => old(self)@.active is Some && e == Errno::EBUSY && final(self)@ == old(
                    self,
                )@,
            },
    {
        if self.active.is_some() {
            return Err(Errno::EBUSY);
        }
        self.done = None;
        self.active = Some(Active { opcode, total: 0, payload: Vec::new(), seq: 0 });
        assert(self@.active->0.payload =~= Seq::<u8>::empty());
        Ok(())
    }

    pub fn begin_send(&mut self, opcode: u32)
        ensures
            final(self)@ == (ReassemblyView { sending: Some(opcode), grants: 0, ..old(self)@ }),
    {
        self.sending = Some(opcode);
        self.grants = 0;
    }

    pub fn end_send(&mut self)
        ensures
            final(self)@ == (ReassemblyView { sending: None, grants: 0, ..old(self)@ }),
    {
        self.sending = None;
        self.grants = 0;
    }

    /// Uses up one grant, if there is one.
    pub fn take_grant(&mut self) -> (r: bool)
        ensures
            r == (old(self)@.grants > 0),
            final(self)@ == (ReassemblyView {
                grants: if r {
                    (old(self)@.grants - 1) as u32
                } else {
                    0
                },
                ..old(self)@
            }),
    {
        if self.grants > 0 {
            self.grants = self.grants - 1;
            return true;
        }
        false
    }

    pub fn take_done(&mut self) -> (r: Option<Completed>)
        ensures
            match r {
                Some(d) => old(self)@.done == Some(d@),
                None => old(self)@.done is None,
            },
            final(self)@ == (ReassemblyView { done: None, ..old(self)@ }),
    {
        self.done.take()
    }

    pub fn abort(&mut self)
        ensures
            final(self)@ == aborted(old(self)@, DeviceStatus::NotAnswered),
    {
        self.abort_with(DeviceStatus::NotAnswered);
    }

    pub fn abort_with(&mut self, status: DeviceStatus)
        ensures
            final(self)@ == aborted(old(self)@, status),
    {
        if self.active.is_some() {
            self.finish(status, Vec::new());
            assert(self@.done->0.payload =~= Seq::<u8>::empty());
        }
    }

    fn finish(&mut self, status: DeviceStatus, payload: Vec<u8>)
        ensures
            final(self)@ == finished(old(self)@, status, payload@),
    {
        self.active = None;
        self.done = Some(Completed { status, payload });
    }

    /// Takes one packet in.
    pub fn on_chunk(&mut self, marker: u8, packet: &Packet, payload: &[u8]) -> (r: Progress)
        ensures
            (final(self)@, r) == on_packet(old(self)@, marker, *packet, payload@),
    {
        if marker < MARKER_FIRST {
            return Progress::Notification;
        }
        if marker == MARKER_REQUEST {
            return match self.sending {
                Some(_) => {
                    self.grants = self.grants.saturating_add(1);
                    Progress::Grant
                },
                None => Progress::Ignored,
            };
        }
        let taken = self.active.take();
        let mut active = match taken {
            Some(a) => a,
            None => {
                return Progress::Ignored;
            },
        };
        if marker == MARKER_ERROR {
            let status = if packet.err != 0 {
                DeviceStatus::Answered(packet.err)
            } else {
                DeviceStatus::ReportedWithoutStatus
            };
            let nothing: Vec<u8> = Vec::new();
            assert(nothing@ =~= Seq::<u8>::empty());
            self.finish(status, nothing);
            return Progress::Complete;
        }
        if packet.opcode != active.opcode {
            self.active = Some(active);
            assert(self@ =~= old(self)@);
            return Progress::Ignored;
        }
        let fits = packet.version == VERSION && packet.chunk as usize == payload.len()
            && packet.total <= MAX_TRANSACTION && (if marker == MARKER_FIRST {
            active.payload.len() == 0 && packet.offset == 0
        } else {
            packet.offset as usize == active.payload.len() && packet.total == active.total
        });
        if !fits {
            let nothing: Vec<u8> = Vec::new();
            assert(nothing@ =~= Seq::<u8>::empty());
            self.finish(DeviceStatus::NotAnswered, nothing);
            return Progress::Failed;
        }
        if packet.err != 0 {
            self.finish(DeviceStatus::Answered(packet.err), active.payload);
            return Progress::Complete;
        }
        crate::bytes::put_bytes(&mut active.payload, payload);
        let received: u32 = active.payload.len() as u32;
        if received >= packet.total {
            self.finish(DeviceStatus::Answered(0), active.payload);
            Progress::Complete
        } else {
            let seq: u16 = active.seq.wrapping_add(1);
            let opcode: u32 = active.opcode;
            self.active = Some(
                Active { opcode, total: packet.total, payload: active.payload, seq },
            );
            Progress::NeedMore(Continuation { opcode, received, total: packet.total, seq })
        }
    }
}

/// The size of the chunk that starts at `offset`.
pub open spec fn chunk_len(total: int, offset: int, capacity: int) -> int {
    if total - offset < capacity {
        total - offset
    } else {
        capacity
    }
}

/// The header of the chunk of `payload` that starts at `offset`.
pub open spec fn piece(opcode: u16, payload: Seq<u8>, offset: int, capacity: int) -> Packet {
    Packet {
        version: VERSION,
        total: payload.len() as u32,
        offset: offset as u32,
        flags: 0,
        err: 0,
        opcode: opcode as u32,
        chunk: chunk_len(payload.len() as int, offset, capacity) as u32,
    }
}

/// One packet on its way out: the bytes for the buffer, and the marker and
/// sequence number of the message that announces it.
pub struct SentChunk {
    pub request: Vec<u8>,
    pub marker: u8,
    pub seq: u16,
    /// Whether this was the last chunk. If not, the device has to grant the
    /// next one first.
    pub last: bool,
}

/// The sending end of a transaction.
#[derive(Clone, Copy, Debug, PartialEq, Eq, Structural)]
pub struct Sender {
    pub opcode: u16,
    pub offset: usize,
    pub seq: u16,
    pub first: bool,
}

impl Sender {
    /// Starts to send `len` bytes under `opcode`.
    pub fn start(opcode: u16, len: usize) -> (r: Result<Sender, Errno>)
        ensures
            match r {
                Ok(s) => len <= MAX_TRANSACTION && s == (Sender {
                    opcode,
                    offset: 0,
                    seq: 0,
                    first: true,
                }),
                Err(e) => len > MAX_TRANSACTION && e == Errno::EINVAL,
            },
    {
        if len > MAX_TRANSACTION as usize {
            return Err(Errno::EINVAL);
        }
        Ok(Sender { opcode, offset: 0, seq: 0, first: true })
    }

    /// The next packet of `payload` for a buffer that holds `capacity` bytes
    /// after the header.
    pub fn next(&mut self, payload: &[u8], capacity: usize) -> (c: SentChunk)
        requires
            payload.len() <= MAX_TRANSACTION,
            old(self).offset <= payload.len(),
            capacity > 0,
        ensures
            ({
                let at = old(self).offset as int;
                let n = chunk_len(payload.len() as int, at, capacity as int);
                &&& c.request@ == header_bytes(
                    piece(old(self).opcode, payload@, at, capacity as int),
                ) + payload@.subrange(at, at + n)
                &&& c.marker == if old(self).first {
                    MARKER_FIRST
                } else {
                    MARKER_NEXT
                }
                &&& c.seq == old(self).seq
                &&& c.last == (at + n >= payload.len())
                &&& *final(self) == (Sender {
                    opcode: old(self).opcode,
                    offset: (at + n) as usize,
                    seq: if old(self).seq == u16::MAX {
                        0
                    } else {
                        (old(self).seq + 1) as u16
                    },
                    first: false,
                })
                &&& c.request.len() <= HEADER_LEN + capacity
            }),
    {
        let total: usize = payload.len();
        let left: usize = total - self.offset;
        let chunk: usize = if left < capacity {
            left
        } else {
            capacity
        };
        let packet = Packet {
            version: VERSION,
            total: total as u32,
            offset: self.offset as u32,
            flags: 0,
            err: 0,
            opcode: self.opcode as u32,
            chunk: chunk as u32,
        };
        let mut request = packet.encode();
        let end: usize = self.offset + chunk;
        crate::bytes::put_bytes(
            &mut request,
            vstd::slice::slice_subrange(payload, self.offset, end),
        );
        let marker: u8 = if self.first {
            MARKER_FIRST
        } else {
            MARKER_NEXT
        };
        let seq: u16 = self.seq;
        self.offset = end;
        self.first = false;
        self.seq = seq.wrapping_add(1);
        SentChunk { request, marker, seq, last: end >= total }
    }
}

/// What a receiver in state `s` comes to when the rest of `payload`, from
/// `offset` on, is sent to it chunk by chunk.
pub open spec fn receive_rest(
    s: ReassemblyView,
    opcode: u16,
    payload: Seq<u8>,
    capacity: int,
    offset: int,
) -> ReassemblyView
    decreases payload.len() - offset,
{
    let n = chunk_len(payload.len() as int, offset, capacity);
    let step = on_packet(
        s,
        if offset == 0 {
            MARKER_FIRST
        } else {
            MARKER_NEXT
        },
        piece(opcode, payload, offset, capacity),
        payload.subrange(offset, offset + n),
    ).0;
    if n <= 0 || offset + n >= payload.len() {
        step
    } else {
        receive_rest(step, opcode, payload, capacity, offset + n)
    }
}

proof fn rest_is_received(
    s: ReassemblyView,
    opcode: u16,
    payload: Seq<u8>,
    capacity: int,
    offset: int,
)
    requires
        payload.len() <= MAX_TRANSACTION,
        0 < capacity,
        0 <= offset,
        offset == 0 || offset < payload.len(),
        s.active is Some,
        s.active->0.opcode == opcode,
        s.active->0.payload == payload.subrange(0, offset),
        offset == 0 || s.active->0.total == payload.len(),
    ensures
        receive_rest(s, opcode, payload, capacity, offset) == finished(
            s,
            DeviceStatus::Answered(0),
            payload,
        ),
    decreases payload.len() - offset,
{
    let n = chunk_len(payload.len() as int, offset, capacity);
    let part = payload.subrange(offset, offset + n);
    let p = piece(opcode, payload, offset, capacity);
    let marker = if offset == 0 {
        MARKER_FIRST
    } else {
        MARKER_NEXT
    };
    let (step, progress) = on_packet(s, marker, p, part);
    assert(s.active->0.payload + part =~= payload.subrange(0, offset + n));
    if offset + n >= payload.len() {
        assert(payload.subrange(0, offset + n) =~= payload);
    } else {
        rest_is_received(step, opcode, payload, capacity, offset + n);
    }
}

/// What is sent is what is received: a payload that is taken apart by the
/// sender, whatever the size of the buffer, is put together again by a receiver
/// that waits for it, and reported as a success.
pub proof fn sent_is_received(s: ReassemblyView, opcode: u16, payload: Seq<u8>, capacity: int)
    requires
        payload.len() <= MAX_TRANSACTION,
        0 < capacity,
        s.active == Some(
            ActiveView { opcode: opcode as u32, total: 0, payload: Seq::empty(), seq: 0 },
        ),
    ensures
        receive_rest(s, opcode, payload, capacity, 0) == finished(
            s,
            DeviceStatus::Answered(0),
            payload,
        ),
{
    assert(payload.subrange(0, 0) =~= Seq::<u8>::empty());
    rest_is_received(s, opcode, payload, capacity, 0);
}

/// A data chunk under another opcode is a stray: it leaves the transaction as
/// it was.
pub proof fn stray_changes_nothing(s: ReassemblyView, marker: u8, p: Packet, payload: Seq<u8>)
    requires
        s.active is Some,
        marker == MARKER_FIRST || marker == MARKER_NEXT,
        p.opcode != s.active->0.opcode,
    ensures
        on_packet(s, marker, p, payload) == (s, Progress::Ignored),
{
}

/// Whatever packets come, a transaction in progress holds at most what it is
/// waiting for, so that the buffer it grows in is bounded.
pub open spec fn bounded(s: ReassemblyView) -> bool {
    s.active is Some ==> s.active->0.payload.len() <= s.active->0.total <= MAX_TRANSACTION
}

/// Packets keep a transaction bounded. The one exception is a chunk so large
/// that the count of received bytes does not fit its 32 bits.
pub proof fn packets_keep_bound(s: ReassemblyView, marker: u8, p: Packet, payload: Seq<u8>)
    requires
        bounded(s),
        payload.len() <= u32::MAX - MAX_TRANSACTION,
    ensures
        bounded(on_packet(s, marker, p, payload).0),
{
}

/// A receiver that has not got everything asks for what comes next: it tells how much
/// it has and how much there is in all, under the same opcode, and counts its
/// questions. The last chunk completes it.
pub proof fn receiver_asks_for_the_rest(s: ReassemblyView, marker: u8, p: Packet, payload: Seq<u8>)
    requires
        s.active is Some,
        marker == 0xfc || marker == 0xfd,
        p.opcode == s.active->0.opcode,
        p.version == 1,
        p.err == 0,
        p.chunk == payload.len(),
        p.total <= 0x4b000,
        marker == 0xfc ==> s.active->0.payload.len() == 0 && p.offset == 0,
        marker == 0xfd ==> p.offset == s.active->0.payload.len() && p.total == s.active->0.total,
        s.active->0.payload.len() + payload.len() <= u32::MAX,
    ensures
        ({
            let a = s.active->0;
            let n = a.payload.len() + payload.len();
            let (t, r) = on_packet(s, marker, p, payload);
            &&& n < p.total ==> {
                &&& r matches Progress::NeedMore(c)
                &&& c.opcode == p.opcode
                &&& c.received == n
                &&& c.total == p.total
                &&& a.seq < 0xffff ==> c.seq == a.seq + 1
                &&& a.seq == 0xffff ==> c.seq == 0
                &&& next_request(c.opcode, c.received, c.total) == (Packet {
                    version: 1,
                    total: p.total,
                    offset: n as u32,
                    flags: 0,
                    err: 0,
                    opcode: p.opcode,
                    chunk: 0,
                })
                &&& t.active is Some
                &&& t.active->0.payload == a.payload + payload
            }
            &&& n >= p.total ==> {
                &&& r == Progress::Complete
                &&& t.active is None
                &&& t.done is Some
                &&& t.done->0.status == DeviceStatus::Answered(0)
                &&& t.done->0.payload == a.payload + payload
            }
        }),
{
}

/// A report of an error ends the transaction with what the device said, or with
/// nothing where it said nothing; a status in a chunk ends it with what was received
/// before; and a chunk that does not fit fails it.
pub proof fn errors_end_the_transaction(s: ReassemblyView, marker: u8, p: Packet, payload: Seq<u8>)
    requires
        s.active is Some,
    ensures
        ({
            let (t, r) = on_packet(s, marker, p, payload);
            &&& marker == 0xff ==> r == Progress::Complete && t.active is None && t.done is Some
                && t.done->0.payload.len() == 0 && t.done->0.status == if p.err != 0 {
                DeviceStatus::Answered(p.err)
            } else {
                DeviceStatus::ReportedWithoutStatus
            }
            &&& (marker == 0xfc || marker == 0xfd) && p.opcode == s.active->0.opcode && (p.version
                != 1 || p.chunk != payload.len() || p.total > 0x4b000 || (marker == 0xfc && p.offset
                != 0) || (marker == 0xfd && p.offset != s.active->0.payload.len())) ==> r
                == Progress::Failed && t.active is None && t.done is Some && t.done->0.status
                == DeviceStatus::NotAnswered
        }),
{
}

/// A request for the next packet grants one to a sender, and to no one else; a word
/// below the markers is a notification.
pub proof fn grants_and_notifications(s: ReassemblyView, marker: u8, p: Packet, payload: Seq<u8>)
    ensures
        marker == 0xfe && s.sending is Some ==> on_packet(s, marker, p, payload).1
            == Progress::Grant,
        marker == 0xfe && s.sending is Some && s.grants < u32::MAX ==> on_packet(
            s,
            marker,
            p,
            payload,
        ).0.grants == s.grants + 1,
        marker == 0xfe && s.sending is None ==> on_packet(s, marker, p, payload) == (
            s,
            Progress::Ignored,
        ),
        marker < 0xfc ==> on_packet(s, marker, p, payload) == (s, Progress::Notification),
        marker > 0xfe && s.active is None ==> on_packet(s, marker, p, payload) == (
            s,
            Progress::Ignored,
        ),
{
}

/// The words of a packet stand in this order.
pub proof fn packet_is_laid_out(p: Packet)
    ensures
        header_bytes(p).len() == 28,
        u32_at(header_bytes(p), 0) == p.version,
        u32_at(header_bytes(p), 4) == p.total,
        u32_at(header_bytes(p), 8) == p.offset,
        u32_at(header_bytes(p), 12) == p.flags,
        u32_at(header_bytes(p), 16) == p.err,
        u32_at(header_bytes(p), 20) == p.opcode,
        u32_at(header_bytes(p), 24) == p.chunk,
{
    broadcast use group_le;

    let h = header_bytes(p);
    assert(h.subrange(0, 4) =~= u32_le(p.version as int));
    assert(h.subrange(4, 8) =~= u32_le(p.total as int));
    assert(h.subrange(8, 12) =~= u32_le(p.offset as int));
    assert(h.subrange(12, 16) =~= u32_le(p.flags as int));
    assert(h.subrange(16, 20) =~= u32_le(p.err as int));
    assert(h.subrange(20, 24) =~= u32_le(p.opcode as int));
    assert(h.subrange(24, 28) =~= u32_le(p.chunk as int));
    crate::bytes::u32_reads_back(h, 0, p.version as int);
    crate::bytes::u32_reads_back(h, 4, p.total as int);
    crate::bytes::u32_reads_back(h, 8, p.offset as int);
    crate::bytes::u32_reads_back(h, 12, p.flags as int);
    crate::bytes::u32_reads_back(h, 16, p.err as int);
    crate::bytes::u32_reads_back(h, 20, p.opcode as int);
    crate::bytes::u32_reads_back(h, 24, p.chunk as int);
}

/// Each chunk but the last fills the buffer, the last one holds what is left, and each
/// says where it starts and how much there is in all.
pub proof fn chunks_fill_the_buffer(opcode: u16, payload: Seq<u8>, offset: int, capacity: int)
    requires
        payload.len() <= MAX_TRANSACTION,
        0 <= offset <= payload.len(),
        0 < capacity,
    ensures
        ({
            let p = piece(opcode, payload, offset, capacity);
            &&& p.version == 1
            &&& p.opcode == opcode
            &&& p.total == payload.len()
            &&& p.offset == offset
            &&& p.flags == 0
            &&& p.err == 0
            &&& offset + capacity <= payload.len() ==> p.chunk == capacity
            &&& offset + capacity > payload.len() ==> p.chunk == payload.len() - offset
        }),
{
}

} // verus!
