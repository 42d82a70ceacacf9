//! An endpoint of the sensor processor: how its rings are set up, and what is
//! done with the messages in them.

use vstd::prelude::*;

use crate::afk_ring::{
    can_write, is_power_of_two, look, next_entry, parse_ring_buf, pass, passed, pointers, pointers_in,
    qe_header, ring_in, with_entry, with_remains, word_in, write_entry, AFKRingBuffer, Entry,
    EntryView, Found,
};
use crate::bytes::{copy_of, copy_range, read_u32, u32_at, u32_le};
use crate::epic::{
    answers, call_header, fields_in, header, named_slot, place_for_call, CallSlot, Calls,
    EPICHeaderFields, Reply, EPIC_CATEGORY_REPLY, EPIC_CATEGORY_REPORT, EPIC_SUBTYPE_FAKEHID_REPORT,
    EPIC_SUBTYPE_RETCODE, EPIC_SUBTYPE_RETCODE_PAYLOAD, EPIC_SUBTYPE_STD_SERVICE,
    EPIC_SUBTYPE_STRING, EPIC_TYPE_NOTIFY,
};
use crate::errno::Errno;

verus! {

pub const AFK_ENDPOINT_START: u8 = 0x20;

pub const AFK_ENDPOINT_COUNT: u8 = 0xf;

pub const AFK_OPC_GET_BUF: u64 = 0x89;

pub const AFK_OPC_INIT: u64 = 0x80;

pub const AFK_OPC_INIT_RX: u64 = 0x8b;

pub const AFK_OPC_INIT_TX: u64 = 0x8a;

pub const AFK_OPC_INIT_UNK: u64 = 0x8c;

pub const AFK_OPC_START_ACK: u64 = 0x86;

pub const AFK_OPC_SHUTDOWN_ACK: u64 = 0xc1;

pub const AFK_OPC_RECV: u64 = 0x85;

pub const AFK_MSG_GET_BUF_ACK: u64 = 0x00a1_0000_0000_0000;

pub const AFK_MSG_INIT: u64 = 0x0080_0000_0000_0000;

pub const AFK_MSG_INIT_ACK: u64 = 0x00a0_0000_0000_0000;

pub const AFK_MSG_START: u64 = 0x00a3_0000_0000_0000;

pub const AFK_MSG_SEND: u64 = 0x00a2_0000_0000_0000;

pub const AFK_MSG_SHUTDOWN: u64 = 0x00c0_0000_0000_0000;

pub const EPIC_ANNOUNCE_NAME_LEN: usize = 32;

pub const EPIC_ANNOUNCE_LEN: usize = 44;

/// Which of the endpoints `ep` is, if it is one of them.
pub fn afk_endpoint_index(ep: u8) -> (r: Option<usize>)
    ensures
        r == (if 0x20 <= ep < 0x2f {
            Some((ep - 0x20) as usize)
        } else {
            None
        }),
{
    if ep >= AFK_ENDPOINT_START && ep - AFK_ENDPOINT_START < AFK_ENDPOINT_COUNT {
        Some((ep - AFK_ENDPOINT_START) as usize)
    } else {
        None
    }
}

/// An endpoint. The buffer that it shares with the firmware is named by its
/// size alone; whoever works on it hands in its bytes.
pub struct AFKEndpoint {
    pub index: u8,
    /// Whether its setup was started; only then is it shut down.
    pub started: bool,
    pub iomem: Option<u64>,
    pub txbuf: Option<AFKRingBuffer>,
    pub rxbuf: Option<AFKRingBuffer>,
    pub seq: u16,
    pub calls: Calls,
    /// How many messages could not be handled.
    pub dropped: u32,
}

/// What comes of a message from the firmware.
#[derive(Clone, Copy, Debug, PartialEq, Eq, Structural)]
pub enum Action {
    Nothing,
    Send(u64),
    /// Make a shared buffer of that size.
    Allocate(u64),
    /// Read the ring.
    Receive,
    /// The endpoint is shut down.
    ShutDown,
    Unknown,
}

/// What a message in the ring is.
pub enum Ipc {
    /// A service announces its name and its channel.
    Announce { channel: u32, name: Vec<u8> },
    /// A report for whoever listens on the channel.
    Report { channel: u32, data: Vec<u8> },
    Reply(Reply),
}

/// A name that is padded with zeros.
pub open spec fn unpadded(s: Seq<u8>) -> Seq<u8>
    decreases s.len(),
{
    if s.len() == 0 || s[0] == 0 {
        Seq::empty()
    } else {
        seq![s[0]] + unpadded(s.subrange(1, s.len() as int))
    }
}

proof fn unpadded_step(s: Seq<u8>, n: int)
    requires
        0 <= n <= s.len(),
        forall|i: int| 0 <= i < n ==> s[i] != 0,
        n == s.len() || s[n] == 0,
    ensures
        unpadded(s) == s.subrange(0, n),
    decreases s.len(),
{
    if n == 0 {
        assert(s.subrange(0, 0) =~= Seq::<u8>::empty());
    } else {
        let rest = s.subrange(1, s.len() as int);
        assert(s[0] != 0);
        assert forall|i: int| 0 <= i < n - 1 implies rest[i] != 0 by {
            assert(rest[i] == s[i + 1]);
        }
        unpadded_step(rest, n - 1);
        assert(seq![s[0]] + rest.subrange(0, n - 1) =~= s.subrange(0, n));
    }
}

fn name_in(data: &[u8]) -> (name: Vec<u8>)
    requires
        data.len() >= 32,
    ensures
        name@ == unpadded(data@.subrange(0, 32)),
{
    let mut n: usize = 0;
    while n < EPIC_ANNOUNCE_NAME_LEN && data[n] != 0
        invariant
            n <= 32 <= data.len(),
            forall|i: int| 0 <= i < n ==> data@[i] != 0,
        decreases 32 - n,
    {
        n = n + 1;
    }
    proof {
        let s = data@.subrange(0, 32);
        unpadded_step(s, n as int);
        assert(s.subrange(0, n as int) =~= data@.subrange(0, n as int));
    }
    copy_range(data, 0, n)
}

/// Whether a reply's subtype is one that has a return code.
pub open spec fn is_reply_subtype(subtype: u16) -> bool {
    subtype == 0xa0 || subtype == 0x84 || subtype == 0x8a
}

/// Whether the message that was passed over is one to be told of: the first,
/// the second, the fourth and so on, so that a stream of them cannot flood the
/// log.
pub open spec fn is_told(dropped: u32) -> bool {
    is_power_of_two(dropped as int)
}

fn told(dropped: u32) -> (r: bool)
    ensures
        r == is_told(dropped),
{
    let mut k: u32 = dropped;
    while k > 1 && k % 2 == 0
        invariant
            is_power_of_two(dropped as int) == is_power_of_two(k as int),
        decreases k,
    {
        k = k / 2;
    }
    k == 1
}

/// The entry that waits in a ring for a reader that stands at `rptr`, if one
/// does. Without a ring, and in a ring that makes no sense, there is none.
pub open spec fn pending(rxbuf: Option<AFKRingBuffer>, mem: Seq<u8>, rptr: int) -> Result<
    Option<EntryView>,
    Errno,
> {
    match rxbuf {
        None => Err(Errno::EIO),
        Some(ring) => match word_in(mem, ring.wptr_at()) {
            None => Err(Errno::EIO),
            Some(wptr) => if wptr == rptr {
                Ok(None)
            } else {
                match next_entry(mem, ring, rptr) {
                    None => Err(Errno::EIO),
                    Some(v) => Ok(Some(v)),
                }
            },
        },
    }
}

/// What comes of a message by the endpoint's state alone.
pub open spec fn message_result(ep: AFKEndpoint, mem: Seq<u8>, msg: u64) -> Result<Action, Errno> {
    let opc = msg / 0x1_0000_0000_0000;
    if opc == 0x80 {
        Ok(Action::Send(0x00a0_0000_0000_0000))
    } else if opc == 0x89 {
        if ep.iomem is Some {
            Err(Errno::EIO)
        } else {
            Ok(Action::Allocate((msg / 0x1_0000 % 0x1_0000 * 0x40) as u64))
        }
    } else if opc == 0x8c || opc == 0x86 {
        Ok(Action::Nothing)
    } else if opc == 0x8b || opc == 0x8a {
        let (mine, other) = if opc == 0x8b {
            (ep.rxbuf, ep.txbuf)
        } else {
            (ep.txbuf, ep.rxbuf)
        };
        if mine is Some {
            Err(Errno::EIO)
        } else if ep.iomem is None {
            Err(Errno::ENXIO)
        } else if ring_in(mem, msg) is None {
            Err(Errno::EIO)
        } else if other is Some {
            Ok(Action::Send(0x00a3_0000_0000_0000))
        } else {
            Ok(Action::Nothing)
        }
    } else if opc == 0x85 {
        Ok(Action::Receive)
    } else if opc == 0xc1 {
        Ok(Action::ShutDown)
    } else {
        Ok(Action::Unknown)
    }
}

/// The ring that a message sets up, if it sets up the one that is asked about.
pub open spec fn ring_after(
    ep: AFKEndpoint,
    mem: Seq<u8>,
    msg: u64,
    opcode: int,
    before: Option<AFKRingBuffer>,
) -> Option<AFKRingBuffer> {
    if msg / 0x1_0000_0000_0000 == opcode && message_result(ep, mem, msg) is Ok {
        ring_in(mem, msg)
    } else {
        before
    }
}

/// The endpoint after a message.
pub open spec fn after_message(ep: AFKEndpoint, mem: Seq<u8>, msg: u64) -> AFKEndpoint {
    AFKEndpoint {
        rxbuf: ring_after(ep, mem, msg, 0x8b, ep.rxbuf),
        txbuf: ring_after(ep, mem, msg, 0x8a, ep.txbuf),
        ..ep
    }
}

impl AFKEndpoint {
    /// The rings lie within the shared buffer.
    pub open spec fn wf(&self) -> bool {
        &&& self.calls.wf()
        &&& self.rxbuf matches Some(r) ==> self.iomem is Some && r.wf(self.iomem->0 as int)
        &&& self.txbuf matches Some(r) ==> self.iomem is Some && r.wf(self.iomem->0 as int)
    }

    /// Whether `mem` is the shared buffer, if there is one.
    pub open spec fn shares(&self, mem: Seq<u8>) -> bool {
        self.iomem matches Some(n) ==> mem.len() == n
    }

    /// Nothing has happened to the endpoint yet.
    pub open spec fn is_new(&self, index: u8) -> bool {
        &&& self.index == index
        &&& !self.started
        &&& self.iomem is None && self.txbuf is None && self.rxbuf is None
        &&& self.seq == 0 && self.dropped == 0
        &&& forall|i: int| 0 <= i < 8 ==> #[trigger] self.calls@[i] == CallSlot::Free
        &&& self.calls.next_id() == 0
    }

    pub fn new(index: u8) -> (e: AFKEndpoint)
        ensures
            e.wf(),
            e.is_new(index),
    {
        AFKEndpoint {
            index,
            started: false,
            iomem: None,
            txbuf: None,
            rxbuf: None,
            seq: 0,
            calls: Calls::new(),
            dropped: 0,
        }
    }

    fn ring(&self, taken: bool, mem: &[u8], msg: u64) -> (r: Result<AFKRingBuffer, Errno>)
        requires
            self.shares(mem@),
        ensures
            match r {
                Ok(ring) => !taken && self.iomem is Some && ring_in(mem@, msg) == Some(ring)
                    && ring.wf(self.iomem->0 as int),
                Err(e) => if taken {
                    e == Errno::EIO
                } else if self.iomem is None {
                    e == Errno::ENXIO
                } else {
                    e == Errno::EIO && ring_in(mem@, msg) is None
                },
            },
    {
        if taken {
            return Err(Errno::EIO);
        }
        if self.iomem.is_none() {
            return Err(Errno::ENXIO);
        }
        parse_ring_buf(mem, msg)
    }

    /// Takes in a message from the firmware.
    pub fn recv_message(&mut self, mem: &[u8], msg: u64) -> (r: Result<Action, Errno>)
        requires
            old(self).wf(),
            old(self).shares(mem@),
        ensures
            final(self).wf(),
            r == message_result(*old(self), mem@, msg),
            *final(self) == after_message(*old(self), mem@, msg),
    {
        let opc: u64 = msg / 0x1_0000_0000_0000;
        if opc == AFK_OPC_INIT {
            return Ok(Action::Send(AFK_MSG_INIT_ACK));
        }
        if opc == AFK_OPC_GET_BUF {
            if self.iomem.is_some() {
                return Err(Errno::EIO);
            }
            return Ok(Action::Allocate(msg / 0x1_0000 % 0x1_0000 * 0x40));
        }
        if opc == AFK_OPC_INIT_UNK || opc == AFK_OPC_START_ACK {
            return Ok(Action::Nothing);
        }
        if opc == AFK_OPC_INIT_RX {
            return match self.ring(self.rxbuf.is_some(), mem, msg) {
                Err(e) => Err(e),
                Ok(ring) => {
                    self.rxbuf = Some(ring);
                    if self.txbuf.is_some() {
                        Ok(Action::Send(AFK_MSG_START))
                    } else {
                        Ok(Action::Nothing)
                    }
                },
            };
        }
        if opc == AFK_OPC_INIT_TX {
            return match self.ring(self.txbuf.is_some(), mem, msg) {
                Err(e) => Err(e),
                Ok(ring) => {
                    self.txbuf = Some(ring);
                    if self.rxbuf.is_some() {
                        Ok(Action::Send(AFK_MSG_START))
                    } else {
                        Ok(Action::Nothing)
                    }
                },
            };
        }
        if opc == AFK_OPC_RECV {
            return Ok(Action::Receive);
        }
        if opc == AFK_OPC_SHUTDOWN_ACK {
            return Ok(Action::ShutDown);
        }
        Ok(Action::Unknown)
    }

    /// Takes the shared buffer that was made, before its address is told: should
    /// telling it fail, the firmware may have seen it all the same.
    pub fn recv_get_buf(&mut self, size: u64, made: Result<u64, Errno>) -> (r: Result<u64, Errno>)
        requires
            old(self).wf(),
            old(self).iomem is None,
        ensures
            final(self).wf(),
            match made {
                Ok(iova) => final(self).iomem == Some(size) && r == Ok::<u64, Errno>(
                    buffer_word(iova),
                ),
                Err(e) => final(self).iomem is None && r == Err::<u64, Errno>(e),
            },
            final(self).index == old(self).index,
            final(self).started == old(self).started,
            final(self).rxbuf == old(self).rxbuf,
            final(self).txbuf == old(self).txbuf,
            final(self).seq == old(self).seq,
            final(self).calls == old(self).calls,
            final(self).dropped == old(self).dropped,
    {
        match made {
            Err(e) => Err(e),
            Ok(iova) => {
                self.iomem = Some(size);
                Ok(AFK_MSG_GET_BUF_ACK | iova)
            },
        }
    }

    // -----------------------------------------------------------------------
    // Receiving.
    // -----------------------------------------------------------------------
    /// Starts to read the ring: gives the read pointer.
    pub fn recv_rb(&self, mem: &[u8]) -> (r: Result<u32, Errno>)
        requires
            self.wf(),
            self.shares(mem@),
        ensures
            match r {
                Ok(rptr) => self.rxbuf is Some && pointers_in(mem@, self.rxbuf->0) is Some && (
                pointers_in(mem@, self.rxbuf->0)->0).0 == rptr,
                Err(e) => e == Errno::EIO && (self.rxbuf is None || pointers_in(
                    mem@,
                    self.rxbuf->0,
                ) is None),
            },
    {
        match self.rxbuf {
            None => Err(Errno::EIO),
            Some(ring) => match pointers(mem, &ring) {
                Err(e) => Err(e),
                Ok((rptr, _)) => Ok(rptr),
            },
        }
    }

    /// The next entry of the ring, if there is one.
    pub fn next_message(&self, mem: &[u8], rptr: u32) -> (r: Result<Found, Errno>)
        requires
            self.wf(),
            self.shares(mem@),
        ensures
            match pending(self.rxbuf, mem@, rptr as int) {
                Err(e) => r == Err::<Found, Errno>(e),
                Ok(None) => r == Ok::<Found, Errno>(Found::Nothing),
                Ok(Some(v)) => r matches Ok(Found::Message(e)) && e.channel == v.channel
                    && e.payload@ == v.payload && e.next == v.next,
            },
    {
        match self.rxbuf {
            None => Err(Errno::EIO),
            Some(ring) => look(mem, &ring, rptr),
        }
    }

    /// Leaves an entry behind once it was dealt with, whether or not it could
    /// be handled: an entry that stayed would be read again at every turn.
    pub fn leave(&self, mem: &mut Vec<u8>, next: u32) -> (r: Result<(), Errno>)
        requires
            self.wf(),
            self.shares(old(mem)@),
            self.rxbuf is Some,
        ensures
            final(mem).len() == old(mem).len(),
            match r {
                Ok(_) => word_in(old(mem)@, self.rxbuf->0.rptr_at()) is Some && final(mem)@
                    == passed(old(mem)@, self.rxbuf->0, next as int),
                Err(e) => word_in(old(mem)@, self.rxbuf->0.rptr_at()) is None && e == Errno::EIO
                    && final(mem)@ == old(mem)@,
            },
    {
        match self.rxbuf {
            None => Err(Errno::EIO),
            Some(ring) => pass(mem, &ring, next),
        }
    }

    /// Counts a message that could not be handled, and says whether to tell of
    /// it.
    pub fn drop_message(&mut self) -> (tell: bool)
        requires
            old(self).wf(),
        ensures
            final(self).wf(),
            final(self).dropped == (if old(self).dropped == u32::MAX {
                u32::MAX as int
            } else {
                old(self).dropped + 1
            }),
            tell == is_told(final(self).dropped),
            final(self).index == old(self).index,
            final(self).started == old(self).started,
            final(self).iomem == old(self).iomem,
            final(self).rxbuf == old(self).rxbuf,
            final(self).txbuf == old(self).txbuf,
            final(self).seq == old(self).seq,
            final(self).calls == old(self).calls,
    {
        if self.dropped < u32::MAX {
            self.dropped = self.dropped + 1;
        }
        told(self.dropped)
    }

    /// Finds out what a message is. A reply answers its call on the way.
    pub fn handle_ipc(&mut self, v4: bool, channel: u32, f: &EPICHeaderFields, data: &[u8]) -> (r:
        Result<Ipc, Errno>)
        requires
            old(self).wf(),
        ensures
            final(self).wf(),
            final(self).index == old(self).index,
            final(self).started == old(self).started,
            final(self).iomem == old(self).iomem,
            final(self).rxbuf == old(self).rxbuf,
            final(self).txbuf == old(self).txbuf,
            final(self).seq == old(self).seq,
            final(self).dropped == old(self).dropped,
            final(self).calls.next_id() == old(self).calls.next_id(),
            ipc_result(old(self).calls@, v4, channel, *f, data@, final(self).calls@, r),
    {
        if f.category == EPIC_CATEGORY_REPORT {
            if f.subtype == EPIC_SUBTYPE_STD_SERVICE {
                if data.len() < EPIC_ANNOUNCE_LEN {
                    return Err(Errno::EMSGSIZE);
                }
                return Ok(Ipc::Announce { channel: read_u32(data, 32), name: name_in(data) });
            }
            if f.subtype == EPIC_SUBTYPE_FAKEHID_REPORT {
                return Ok(Ipc::Report { channel, data: copy_of(data) });
            }
            return Err(Errno::EINVAL);
        }
        if f.category == EPIC_CATEGORY_REPLY {
            if f.subtype == EPIC_SUBTYPE_RETCODE_PAYLOAD || f.subtype == EPIC_SUBTYPE_RETCODE
                || f.subtype == EPIC_SUBTYPE_STRING {
                return match self.calls.reply(v4, f.tag, data) {
                    Err(e) => Err(e),
                    Ok(reply) => Ok(Ipc::Reply(reply)),
                };
            }
            return Err(Errno::EINVAL);
        }
        Err(Errno::EINVAL)
    }

    /// Takes apart and handles the message of an entry. One that cannot be
    /// handled is counted instead, and the answer says whether to tell of it.
    pub fn process(&mut self, v4: bool, entry: &Entry) -> (r: Result<Ipc, bool>)
        requires
            old(self).wf(),
        ensures
            final(self).wf(),
            final(self).index == old(self).index,
            final(self).started == old(self).started,
            final(self).iomem == old(self).iomem,
            final(self).rxbuf == old(self).rxbuf,
            final(self).txbuf == old(self).txbuf,
            final(self).seq == old(self).seq,
            final(self).calls.next_id() == old(self).calls.next_id(),
            match r {
                Ok(ipc) => {
                    &&& entry.payload.len() >= 40
                    &&& final(self).dropped == old(self).dropped
                    &&& ipc_result(
                        old(self).calls@,
                        v4,
                        entry.channel,
                        fields_in(entry.payload@),
                        entry.payload@.subrange(40, entry.payload.len() as int),
                        final(self).calls@,
                        Ok(ipc),
                    )
                },
                Err(tell) => {
                    &&& final(self).calls@ == old(self).calls@
                    &&& final(self).dropped == (if old(self).dropped == u32::MAX {
                        u32::MAX as int
                    } else {
                        old(self).dropped + 1
                    })
                    &&& tell == is_told(final(self).dropped)
                    &&& entry.payload.len() < 40 || exists|e: Errno| #[trigger]
                        ipc_result(
                            old(self).calls@,
                            v4,
                            entry.channel,
                            fields_in(entry.payload@),
                            entry.payload@.subrange(40, entry.payload.len() as int),
                            old(self).calls@,
                            Err(e),
                        )
                },
            },
    {
        match EPICHeaderFields::decode(&entry.payload) {
            None => Err(self.drop_message()),
            Some((f, data)) => match self.handle_ipc(v4, entry.channel, &f, data) {
                Ok(ipc) => Ok(ipc),
                Err(e) => {
                    assert(ipc_result(
                        old(self).calls@,
                        v4,
                        entry.channel,
                        fields_in(entry.payload@),
                        entry.payload@.subrange(40, entry.payload.len() as int),
                        old(self).calls@,
                        Err(e),
                    ));
                    Err(self.drop_message())
                },
            },
        }
    }

    // -----------------------------------------------------------------------
    // Calling.
    // -----------------------------------------------------------------------
    /// Makes a call: writes it into the ring and gives its number and the
    /// message that tells the firmware of it.
    pub fn epic_notify(
        &mut self,
        mem: &mut Vec<u8>,
        v4: bool,
        channel: u32,
        subtype: u16,
        data: &[u8],
        ret: Option<u32>,
    ) -> (r: Result<(u64, u64), Errno>)
        requires
            old(self).wf(),
            old(self).shares(old(mem)@),
            data.len() + 40 <= 0xffff_ffff,
            old(self).calls.next_id() < u64::MAX,
        ensures
            final(self).wf(),
            final(mem).len() == old(mem).len(),
            notify_result(
                *old(self),
                old(mem)@,
                v4,
                channel,
                subtype,
                data@,
                ret,
                *final(self),
                final(mem)@,
                r,
            ),
    {
        let slot: usize = match self.calls.place(v4) {
            Err(e) => {
                return Err(e);
            },
            Ok(s) => s,
        };
        let ring = match self.txbuf {
            None => {
                return Err(Errno::EIO);
            },
            Some(r) => r,
        };
        let capacity: u32 = match ret {
            Some(n) => n,
            None => 0,
        };
        let h = header(
            v4,
            self.seq,
            data.len() as u32,
            subtype,
            slot as u16 + 1,
            capacity,
        );
        assert(h@ + data@ == call_bytes(v4, self.seq, subtype, slot as int, ret, data@));
        match write_entry(mem, &ring, channel, EPIC_TYPE_NOTIFY, &h, data) {
            Err(e) => Err(e),
            Ok(wptr) => {
                let before: u16 = self.seq;
                self.seq = if before == u16::MAX {
                    0
                } else {
                    before + 1
                };
                let id = self.calls.enter(
                    slot,
                    match ret {
                        Some(n) => Some(n as usize),
                        None => None,
                    },
                );
                proof {
                    told_pointer(
                        *old(self),
                        old(mem)@,
                        channel as int,
                        call_bytes(v4, old(self).seq, subtype, slot as int, ret, data@),
                    );
                }
                Ok((id, AFK_MSG_SEND + wptr as u64))
            },
        }
    }

    /// Gives up on a call: no reply came in time, or telling the firmware of it
    /// failed. Its entry is in the ring all the same, and the reply may still
    /// come.
    pub fn abandon_call(&mut self, id: u64)
        requires
            old(self).wf(),
        ensures
            final(self).wf(),
            final(self).calls@ == crate::epic::abandoned(old(self).calls@, id),
            final(self).calls.next_id() == old(self).calls.next_id(),
            final(self).index == old(self).index,
            final(self).started == old(self).started,
            final(self).iomem == old(self).iomem,
            final(self).rxbuf == old(self).rxbuf,
            final(self).txbuf == old(self).txbuf,
            final(self).seq == old(self).seq,
            final(self).dropped == old(self).dropped,
    {
        self.calls.abandon(id);
    }
}

/// The write pointer stands where it was put.
proof fn told_pointer(ep: AFKEndpoint, mem: Seq<u8>, channel: int, payload: Seq<u8>)
    requires
        ep.wf(),
        ep.shares(mem),
        ep.txbuf is Some,
        payload.len() <= 0xffff_ffff,
        can_write(mem, ep.txbuf->0, payload.len() as int),
        0 <= channel < 0x1_0000_0000,
    ensures
        ({
            let ring = ep.txbuf->0;
            let wptr = (pointers_in(mem, ring)->0).1;
            let at = crate::afk_ring::entry_place(ring, wptr, payload.len() as int);
            word_in(with_entry(mem, ring, wptr, channel, 0, payload), ring.wptr_at()) == Some(
                crate::afk_ring::advanced(ring, at, payload.len() as int),
            )
        }),
{
    broadcast use crate::bytes::group_le;

    let ring = ep.txbuf->0;
    let wptr = (pointers_in(mem, ring)->0).1;
    let at = crate::afk_ring::entry_place(ring, wptr, payload.len() as int);
    let next = crate::afk_ring::advanced(ring, at, payload.len() as int);
    vstd::arithmetic::div_mod::lemma_mod_bound(
        crate::afk_ring::rounded_up(at + 16 + payload.len(), ring.block_size as int),
        ring.buf_size as int,
    );
    crate::bytes::u32_round_trip(next);
    let after = with_entry(mem, ring, wptr, channel, 0, payload);
    assert(u32_at(after, ring.wptr_at()) == u32_at(u32_le(next), 0));
}

/// The header of a call in its place, with `len` bytes of data.
pub open spec fn call_head(
    v4: bool,
    seq: u16,
    subtype: u16,
    slot: int,
    ret: Option<u32>,
    len: int,
) -> Seq<u8> {
    call_header(
        v4,
        seq as int,
        len,
        subtype as int,
        slot + 1,
        match ret {
            Some(n) => n as int,
            None => 0,
        },
    )
}

/// A call as it stands in the ring: its header and its data.
pub open spec fn call_bytes(
    v4: bool,
    seq: u16,
    subtype: u16,
    slot: int,
    ret: Option<u32>,
    data: Seq<u8>,
) -> Seq<u8> {
    call_head(v4, seq, subtype, slot, ret, data.len() as int) + data
}

/// Whether a call can be made.
pub open spec fn can_call(ep: AFKEndpoint, v4: bool, mem: Seq<u8>, len: int) -> bool {
    &&& place_for_call(ep.calls@, v4) is Some
    &&& ep.txbuf is Some
    &&& can_write(mem, ep.txbuf->0, len + 40)
}

/// What comes of a call: `r`, and what it makes of the endpoint and of the
/// shared buffer.
pub open spec fn notify_result(
    before: AFKEndpoint,
    mem: Seq<u8>,
    v4: bool,
    channel: u32,
    subtype: u16,
    data: Seq<u8>,
    ret: Option<u32>,
    after: AFKEndpoint,
    mem_after: Seq<u8>,
    r: Result<(u64, u64), Errno>,
) -> bool {
    &&& after == (AFKEndpoint { calls: after.calls, seq: after.seq, ..before })
    &&& match r {
        Ok((id, doorbell)) => {
            &&& can_call(before, v4, mem, data.len() as int)
            &&& ({
                let slot = place_for_call(before.calls@, v4)->0;
                let ring = before.txbuf->0;
                let wptr = (pointers_in(mem, ring)->0).1;
                &&& id == before.calls.next_id()
                &&& after.calls.next_id() == id + 1
                &&& after.calls@ == before.calls@.update(
                    slot,
                    CallSlot::Pending {
                        id,
                        ret: match ret {
                            Some(n) => Some(n as usize),
                            None => None,
                        },
                    },
                )
                &&& after.seq == (before.seq + 1) % 0x1_0000
                &&& mem_after == with_entry(
                    mem,
                    ring,
                    wptr,
                    channel as int,
                    0,
                    call_bytes(v4, before.seq, subtype, slot, ret, data),
                )
                &&& word_in(mem_after, ring.wptr_at()) == Some(
                    doorbell - 0x00a2_0000_0000_0000,
                )
            })
        },
        Err(e) => {
            &&& e == Errno::EIO
            &&& !can_call(before, v4, mem, data.len() as int)
            &&& after.calls@ == before.calls@
            &&& after.calls.next_id() == before.calls.next_id()
            &&& after.seq == before.seq
            &&& mem_after == (if place_for_call(before.calls@, v4) is None || before.txbuf is None {
                mem
            } else {
                with_remains(
                    mem,
                    before.txbuf->0,
                    qe_header(data.len() + 40int, channel as int, 0),
                    call_head(
                        v4,
                        before.seq,
                        subtype,
                        place_for_call(before.calls@, v4)->0,
                        ret,
                        data.len() as int,
                    ),
                    data.len() + 40int,
                )
            })
        },
    }
}

/// What comes of a message: `r`, and the calls from `before` to `after`.
pub open spec fn ipc_result(
    before: Seq<CallSlot>,
    v4: bool,
    channel: u32,
    f: EPICHeaderFields,
    data: Seq<u8>,
    after: Seq<CallSlot>,
    r: Result<Ipc, Errno>,
) -> bool {
    if f.category == 0x00 {
        after == before && (if f.subtype == 0xc0 {
            if data.len() < 44 {
                r == Err::<Ipc, Errno>(Errno::EMSGSIZE)
            } else {
                r matches Ok(Ipc::Announce { channel: c, name }) && c == u32_at(data, 32) && name@
                    == unpadded(data.subrange(0, 32))
            }
        } else if f.subtype == 0xc4 {
            r matches Ok(Ipc::Report { channel: c, data: d }) && c == channel && d@ == data
        } else {
            r == Err::<Ipc, Errno>(Errno::EINVAL)
        })
    } else if f.category == 0x20 && is_reply_subtype(f.subtype) {
        if data.len() < 4 {
            r == Err::<Ipc, Errno>(Errno::EMSGSIZE) && after == before
        } else {
            match named_slot(before, v4, f.tag as int) {
                Err(e) => r == Err::<Ipc, Errno>(e) && after == before,
                Ok(i) => after == before.update(i, CallSlot::Free) && (r matches Ok(
                    Ipc::Reply(reply),
                ) && answers(before[i], data, reply)),
            }
        }
    } else {
        r == Err::<Ipc, Errno>(Errno::EINVAL) && after == before
    }
}

// ---------------------------------------------------------------------------
// Laws.
// ---------------------------------------------------------------------------
/// The firmware is told to start once, when the second ring is set up.
pub proof fn started_with_both_rings(ep: AFKEndpoint, mem: Seq<u8>, msg: u64)
    requires
        ep.wf(),
        message_result(ep, mem, msg) == Ok::<Action, Errno>(Action::Send(0x00a3_0000_0000_0000)),
    ensures
        ring_after(ep, mem, msg, 0x8b, ep.rxbuf) is Some,
        ring_after(ep, mem, msg, 0x8a, ep.txbuf) is Some,
        !(ep.rxbuf is Some && ep.txbuf is Some),
{
}

/// A ring that was set up is not set up again.
pub proof fn rings_are_set_up_once(ep: AFKEndpoint, mem: Seq<u8>, msg: u64)
    ensures
        ep.rxbuf is Some ==> ring_after(ep, mem, msg, 0x8b, ep.rxbuf) == ep.rxbuf,
        ep.txbuf is Some ==> ring_after(ep, mem, msg, 0x8a, ep.txbuf) == ep.txbuf,
{
}

/// A message is known by its top sixteen bits: 0x80 is answered with 0xa0, 0x89 asks for
/// a buffer of as many blocks of 64 bytes as its third and fourth byte say, 0x8b and 0x8a
/// set the two rings up, 0x85 says that there is something to read, 0xc1 that the endpoint
/// is shut down, and 0x86 and 0x8c call for nothing.
pub proof fn messages_are_answered(ep: AFKEndpoint, mem: Seq<u8>, msg: u64)
    ensures
        ({
            let opc = msg / 0x1_0000_0000_0000;
            let r = message_result(ep, mem, msg);
            &&& opc == 0x80 ==> r == Ok::<Action, Errno>(Action::Send(0x00a0_0000_0000_0000))
            &&& opc == 0x89 && ep.iomem is None ==> r == Ok::<Action, Errno>(
                Action::Allocate((msg / 0x1_0000 % 0x1_0000 * 64) as u64),
            )
            &&& opc == 0x89 && ep.iomem is Some ==> r == Err::<Action, Errno>(Errno::EIO)
            &&& opc == 0x85 ==> r == Ok::<Action, Errno>(Action::Receive)
            &&& opc == 0xc1 ==> r == Ok::<Action, Errno>(Action::ShutDown)
            &&& opc == 0x86 || opc == 0x8c ==> r == Ok::<Action, Errno>(Action::Nothing)
            &&& opc != 0x80 && opc != 0x89 && opc != 0x85 && opc != 0xc1 && opc != 0x86 && opc
                != 0x8c && opc != 0x8a && opc != 0x8b ==> r == Ok::<Action, Errno>(Action::Unknown)
        }),
{
}

/// 0x8b sets up the ring that is read and 0x8a the one that is written, each in the place
/// that the message announces, and neither touches the other. With the second of them the
/// firmware is told to start, with 0xa3. It takes a shared buffer, and a ring is not set
/// up twice.
pub proof fn rings_are_set_up(ep: AFKEndpoint, mem: Seq<u8>, msg: u64)
    requires
        ep.iomem is Some,
        ring_in(mem, msg) is Some,
    ensures
        ({
            let opc = msg / 0x1_0000_0000_0000;
            let r = message_result(ep, mem, msg);
            let after = after_message(ep, mem, msg);
            &&& opc == 0x8b && ep.rxbuf is None ==> after.rxbuf == ring_in(mem, msg) && after.txbuf
                == ep.txbuf && r == Ok::<Action, Errno>(
                if ep.txbuf is Some {
                    Action::Send(0x00a3_0000_0000_0000)
                } else {
                    Action::Nothing
                },
            )
            &&& opc == 0x8a && ep.txbuf is None ==> after.txbuf == ring_in(mem, msg) && after.rxbuf
                == ep.rxbuf && r == Ok::<Action, Errno>(
                if ep.rxbuf is Some {
                    Action::Send(0x00a3_0000_0000_0000)
                } else {
                    Action::Nothing
                },
            )
            &&& opc == 0x8b && ep.rxbuf is Some ==> r == Err::<Action, Errno>(Errno::EIO)
            &&& opc == 0x8a && ep.txbuf is Some ==> r == Err::<Action, Errno>(Errno::EIO)
            &&& opc == 0x8b && ep.rxbuf is None ==> message_result(
                AFKEndpoint { iomem: None, ..ep },
                mem,
                msg,
            ) == Err::<Action, Errno>(Errno::ENXIO)
        }),
{
}

/// A name ends at its first zero.
pub proof fn names_end_at_zero(name: Seq<u8>, padding: Seq<u8>)
    requires
        forall|i: int| 0 <= i < name.len() ==> name[i] != 0,
        padding.len() == 0 || padding[0] == 0,
    ensures
        unpadded(name + padding) == name,
{
    unpadded_step(name + padding, name.len() as int);
    assert((name + padding).subrange(0, name.len() as int) =~= name);
}

/// What is in the ring is known by its category and its subtype: an announcement names a
/// service and its channel, a report goes to whoever listens on the channel, and a reply
/// answers the call that its tag names. The rest is refused.
pub proof fn ipc_is_understood(
    before: Seq<CallSlot>,
    v4: bool,
    channel: u32,
    f: EPICHeaderFields,
    data: Seq<u8>,
    after: Seq<CallSlot>,
    r: Result<Ipc, Errno>,
)
    requires
        ipc_result(before, v4, channel, f, data, after, r),
    ensures
        f.category == 0 && f.subtype == 0xc0 && data.len() >= 44 ==> (r matches Ok(
            Ipc::Announce { channel: c, name },
        ) && c == u32_at(data, 32) && name@ == unpadded(data.subrange(0, 32))),
        f.category == 0 && f.subtype == 0xc4 ==> (r matches Ok(Ipc::Report { channel: c, data: d })
            && c == channel && d@ == data),
        f.category == 0x20 && (f.subtype == 0xa0 || f.subtype == 0x84 || f.subtype == 0x8a)
            && data.len() >= 4 && 1 <= f.tag <= before.len() && before[f.tag - 1] != CallSlot::Free
            ==> after == before.update(f.tag - 1, CallSlot::Free) && (r matches Ok(
            Ipc::Reply(reply),
        ) && answers(before[f.tag - 1], data, reply)),
        f.category == 0x10 ==> r == Err::<Ipc, Errno>(Errno::EINVAL) && after == before,
        f.category == 0 ==> after == before,
{
}

/// A call stands in the ring as its header, which names the place of the call plus one as
/// its tag and the length of the data, and the data behind it; the firmware is told under
/// 0xa2 where the ring now ends.
pub proof fn call_is_put_into_the_ring(
    v4: bool,
    seq: u16,
    subtype: u16,
    slot: int,
    ret: Option<u32>,
    data: Seq<u8>,
)
    requires
        0 <= slot < 8,
        data.len() <= 0xffff_ffff,
    ensures
        ({
            let b = call_bytes(v4, seq, subtype, slot, ret, data);
            &&& b.len() == 40 + data.len()
            &&& fields_in(b) == (EPICHeaderFields {
                category: 0x10,
                subtype,
                tag: (slot + 1) as u16,
            })
            &&& u32_at(b, 16) == data.len()
            &&& b.subrange(40, b.len() as int) == data
        }),
{
    let capacity = match ret {
        Some(n) => n,
        None => 0u32,
    };
    let b = call_bytes(v4, seq, subtype, slot, ret, data);
    let h = call_head(v4, seq, subtype, slot, ret, data.len() as int);
    crate::epic::header_is_laid_out(
        v4,
        seq,
        data.len() as u32,
        subtype,
        (slot + 1) as u16,
        capacity,
    );
    crate::epic::header_round_trip(
        v4,
        seq,
        data.len() as u32,
        subtype,
        (slot + 1) as u16,
        capacity,
        data,
    );
    assert(u32_at(b, 16) == u32_at(h, 16));
    assert(b.subrange(40, b.len() as int) =~= data);
}

/// Messages that are passed over are told of at the first, the second, the fourth and so
/// on.
pub proof fn powers_of_two_are_told(dropped: u32)
    requires
        0 < dropped < 0x8000_0000,
    ensures
        is_told(1),
        is_told(dropped) <==> is_told((2 * dropped) as u32),
        !is_told((2 * dropped + 1) as u32),
{
    reveal_with_fuel(is_power_of_two, 2);
}

/// The word that tells the firmware where its buffer is.
pub open spec fn buffer_word(iova: u64) -> u64 {
    0x00a1_0000_0000_0000u64 | iova
}

/// The word for a buffer has 0xa1 above the buffer's address.
pub proof fn buffer_is_told(iova: u64)
    requires
        iova < 0x1_0000_0000_0000,
    ensures
        buffer_word(iova) == 0x00a1_0000_0000_0000 + iova,
{
    assert(0x00a1_0000_0000_0000u64 | iova == 0x00a1_0000_0000_0000 + iova) by (bit_vector)
        requires
            iova < 0x1_0000_0000_0000,
    ;
}

/// What a reader finds: nothing where it stands at the write pointer, and else the entry
/// there; without a ring, or where either cannot be read, it fails.
pub proof fn reader_finds_what_is_pending(ring: AFKRingBuffer, mem: Seq<u8>, rptr: int)
    ensures
        pending(None, mem, rptr) == Err::<Option<EntryView>, Errno>(Errno::EIO),
        word_in(mem, ring.wptr_at()) is None ==> pending(Some(ring), mem, rptr) == Err::<
            Option<EntryView>,
            Errno,
        >(Errno::EIO),
        word_in(mem, ring.wptr_at()) == Some(rptr) ==> pending(Some(ring), mem, rptr) == Ok::<
            Option<EntryView>,
            Errno,
        >(None),
        pending(Some(ring), mem, rptr) matches Ok(Some(v)) ==> next_entry(mem, ring, rptr) == Some(
            v,
        ),
{
}

} // verus!
