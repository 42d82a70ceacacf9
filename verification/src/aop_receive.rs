//! What the core makes of the firmware's messages: which endpoint they are for,
//! and what comes of the entries in its ring.

use vstd::prelude::*;

use crate::afk::{
    afk_endpoint_index, after_message, is_reply_subtype, is_told, message_result, pending, unpadded,
    AFKEndpoint, Action, Ipc,
};
use crate::afk_ring::{Entry, Found};
use crate::aop::{place, EPICService, FakehidListener};
use crate::aop_driver::{index_of, same_but_endpoint, AopData};
use crate::aop_life::{device_for, register_service, ServiceDevice};
use crate::bytes::{u16_at, u32_at, u32_at_subrange};
use crate::epic::{answers, fields_in, first_taken_is_taken, named_slot, CallSlot, Reply};
use crate::errno::Errno;

verus! {

/// Takes in a message for an endpoint. One for an endpoint that is none, and any
/// once the transport is gone, is passed over.
pub fn recv_message<L: FakehidListener>(
    aop: &mut AopData<L>,
    mem: &[u8],
    ep: u8,
    msg: u64,
) -> (r: Option<Result<Action, Errno>>)
    requires
        old(aop).inv(),
        index_of(ep) matches Some(i) ==> old(aop).endpoints@[i].shares(mem@),
    ensures
        final(aop).inv(),
        if index_of(ep) is None || !old(aop).rtkit {
            r is None && *final(aop) == *old(aop)
        } else {
            let i = index_of(ep)->0;
            &&& r == Some(message_result(old(aop).endpoints@[i], mem@, msg))
            &&& same_but_endpoint(*old(aop), *final(aop), i)
            &&& final(aop).endpoints@[i] == after_message(old(aop).endpoints@[i], mem@, msg)
        },
{
    let i: usize = match afk_endpoint_index(ep) {
        None => {
            return None;
        },
        Some(i) => i,
    };
    if !aop.rtkit {
        return None;
    }
    Some(aop.endpoints[i].recv_message(mem, msg))
}

// ---------------------------------------------------------------------------
// The entries in a ring.
// ---------------------------------------------------------------------------
/// What is left to do for an entry.
pub enum Outcome {
    Nothing,
    /// Register a device for a service.
    Register(ServiceDevice, EPICService),
    /// Hand a reply to whoever waits for it.
    Reply(Reply),
    /// Nothing, since it could not be handled; whether to tell of it.
    Dropped(bool),
}

/// What reading on in a ring comes to.
pub enum Turn {
    /// The ring is read to its end.
    End,
    /// An entry was dealt with; where the next one stands.
    Entry { outcome: Outcome, next: u32 },
}

/// One more message that could not be handled, as far as they are counted.
pub open spec fn one_more(dropped: u32) -> u32 {
    if dropped == u32::MAX {
        u32::MAX
    } else {
        (dropped + 1) as u32
    }
}

/// What an entry leaves alone: everything but the listeners, and of its endpoint
/// everything but the calls and the count of what could not be handled.
pub open spec fn left_alone<L: FakehidListener>(a: AopData<L>, b: AopData<L>, i: int) -> bool {
    let x = a.endpoints@[i];
    let y = b.endpoints@[i];
    &&& b == (AopData { endpoints: b.endpoints, listeners: b.listeners, ..a })
    &&& a.listeners.len() == b.listeners.len()
    &&& a.endpoints.len() == b.endpoints.len()
    &&& forall|j: int| 0 <= j < a.endpoints.len() && j != i ==> a.endpoints@[j] == b.endpoints@[j]
    &&& y == (AFKEndpoint { calls: y.calls, dropped: y.dropped, ..x })
    &&& x.calls.next_id() == y.calls.next_id()
}

/// What an entry does to the state: the calls and the count of the endpoint.
pub open spec fn leaves<L: FakehidListener>(
    aop: AopData<L>,
    i: int,
    calls: Seq<CallSlot>,
    dropped: u32,
) -> bool {
    aop.endpoints@[i].calls@ == calls && aop.endpoints@[i].dropped == dropped
}

/// An entry that could not be handled: it is counted, and that is all.
pub open spec fn unhandled<L: FakehidListener>(
    a: AopData<L>,
    b: AopData<L>,
    i: int,
    o: Outcome,
) -> bool {
    let n = one_more(a.endpoints@[i].dropped);
    leaves(b, i, a.endpoints@[i].calls@, n) && o == Outcome::Dropped(is_told(n))
}

/// The device to register for a service that announces itself, if any.
pub open spec fn announced(name: Seq<u8>, channel: u32, endpoint: u8, removing: bool) -> Outcome {
    match device_for(name) {
        Some(d) => if removing {
            Outcome::Nothing
        } else {
            Outcome::Register(d, EPICService { channel, endpoint })
        },
        None => Outcome::Nothing,
    }
}

/// What comes of a report: whoever listens to the channel takes it in, and one
/// that is refused counts as not handled.
pub open spec fn reported<L: FakehidListener>(
    a: AopData<L>,
    i: int,
    channel: u32,
    data: Seq<u8>,
    b: AopData<L>,
    o: Outcome,
) -> bool {
    let x = a.endpoints@[i];
    let svc = EPICService { channel, endpoint: x.index };
    match place(a.services@, svc, 0) {
        None => {
            &&& o == Outcome::Nothing
            &&& b.listeners == a.listeners
            &&& leaves(b, i, x.calls@, x.dropped)
        },
        Some(k) => {
            &&& forall|j: int|
                0 <= j < a.listeners.len() && j != k ==> a.listeners@[j] == b.listeners@[j]
            &&& exists|r: Result<(), Errno>|
                {
                    &&& #[trigger] L::takes(a.listeners@[k], data, b.listeners@[k], r)
                    &&& if r is Ok {
                        o == Outcome::Nothing && leaves(b, i, x.calls@, x.dropped)
                    } else {
                        unhandled(a, b, i, o)
                    }
                }
        },
    }
}

/// What comes of a reply: the call it is for is answered.
pub open spec fn replied<L: FakehidListener>(
    a: AopData<L>,
    i: int,
    tag: u16,
    data: Seq<u8>,
    b: AopData<L>,
    o: Outcome,
) -> bool {
    let x = a.endpoints@[i];
    if data.len() < 4 {
        unhandled(a, b, i, o)
    } else {
        match named_slot(x.calls@, a.epic_v4, tag as int) {
            Err(_) => unhandled(a, b, i, o),
            Ok(s) => {
                &&& leaves(b, i, x.calls@.update(s, CallSlot::Free), x.dropped)
                &&& o matches Outcome::Reply(reply) && answers(x.calls@[s], data, reply)
            },
        }
    }
}

/// What comes of an entry on a channel of the endpoint `i`.
pub open spec fn entry_result<L: FakehidListener>(
    a: AopData<L>,
    i: int,
    channel: u32,
    payload: Seq<u8>,
    b: AopData<L>,
    o: Outcome,
) -> bool {
    let x = a.endpoints@[i];
    let f = fields_in(payload);
    let data = payload.subrange(40, payload.len() as int);
    if payload.len() >= 40 && f.category == 0x00 && f.subtype == 0xc4 {
        reported(a, i, channel, data, b, o)
    } else {
        &&& b.listeners == a.listeners
        &&& if payload.len() >= 40 && f.category == 0x00 && f.subtype == 0xc0 && data.len() >= 44 {
            &&& leaves(b, i, x.calls@, x.dropped)
            &&& o == announced(
                unpadded(data.subrange(0, 32)),
                u32_at(data, 32) as u32,
                x.index,
                a.removing,
            )
        } else if payload.len() >= 40 && f.category == 0x20 && is_reply_subtype(f.subtype) {
            replied(a, i, f.tag, data, b, o)
        } else {
            unhandled(a, b, i, o)
        }
    }
}

/// Deals with an entry.
fn deal<L: FakehidListener>(aop: &mut AopData<L>, index: usize, entry: &Entry) -> (o: Outcome)
    requires
        old(aop).inv(),
        index < 15,
    ensures
        final(aop).inv(),
        entry_result(*old(aop), index as int, entry.channel, entry.payload@, *final(aop), o),
        left_alone(*old(aop), *final(aop), index as int),
{
    let v4 = aop.epic_v4;
    let endpoint: u8 = aop.endpoints[index].index;
    match aop.endpoints[index].process(v4, entry) {
        Err(tell) => {
            let o = Outcome::Dropped(tell);
            assert(unhandled(*old(aop), *aop, index as int, o));
            o
        },
        Ok(Ipc::Reply(reply)) => {
            let o = Outcome::Reply(reply);
            assert(replied(
                *old(aop),
                index as int,
                fields_in(entry.payload@).tag,
                entry.payload@.subrange(40, entry.payload.len() as int),
                *aop,
                o,
            ));
            o
        },
        Ok(Ipc::Announce { channel, name }) => {
            match register_service(&name, aop.removing) {
                Some(d) => Outcome::Register(d, EPICService { channel, endpoint }),
                None => Outcome::Nothing,
            }
        },
        Ok(Ipc::Report { channel, data }) => {
            let r = aop.process_fakehid_report(endpoint, channel, &data);
            let ghost mid = *aop;
            let o = match r {
                Ok(_) => Outcome::Nothing,
                Err(_) => Outcome::Dropped(aop.endpoints[index].drop_message()),
            };
            assert(aop.listeners == mid.listeners);
            assert(reported(*old(aop), index as int, channel, data@, *aop, o));
            o
        },
    }
}

/// Deals with the entry that the reader of an endpoint's ring stands before. What
/// cannot be handled is passed over: the ring is good all the same.
pub fn receive<L: FakehidListener>(aop: &mut AopData<L>, mem: &[u8], index: usize, rptr: u32) -> (r:
    Result<Turn, Errno>)
    requires
        old(aop).inv(),
        index < 15,
        old(aop).endpoints@[index as int].shares(mem@),
    ensures
        final(aop).inv(),
        match pending(old(aop).endpoints@[index as int].rxbuf, mem@, rptr as int) {
            Err(e) => r == Err::<Turn, Errno>(e) && *final(aop) == *old(aop),
            Ok(None) => r == Ok::<Turn, Errno>(Turn::End) && *final(aop) == *old(aop),
            Ok(Some(v)) => {
                &&& r matches Ok(Turn::Entry { outcome, next }) && next == v.next && entry_result(
                    *old(aop),
                    index as int,
                    v.channel as u32,
                    v.payload,
                    *final(aop),
                    outcome,
                )
                &&& left_alone(*old(aop), *final(aop), index as int)
            },
        },
{
    match aop.endpoints[index].next_message(mem, rptr) {
        Err(e) => Err(e),
        Ok(Found::Nothing) => Ok(Turn::End),
        Ok(Found::Message(entry)) => {
            let outcome = deal(aop, index, &entry);
            Ok(Turn::Entry { outcome, next: entry.next })
        },
    }
}

// ---------------------------------------------------------------------------
// Laws.
// ---------------------------------------------------------------------------
/// An entry answers one call at most: whatever it holds, all places but one are
/// as they were, and none is taken that was free.
pub proof fn entry_answers_one_call<L: FakehidListener>(
    a: AopData<L>,
    i: int,
    channel: u32,
    payload: Seq<u8>,
    b: AopData<L>,
    o: Outcome,
    s: int,
    t: int,
)
    requires
        0 <= i < a.endpoints.len(),
        a.endpoints@[i].wf(),
        entry_result(a, i, channel, payload, b, o),
        0 <= s < 8,
        0 <= t < 8,
        a.endpoints@[i].calls@[s] != b.endpoints@[i].calls@[s],
        a.endpoints@[i].calls@[t] != b.endpoints@[i].calls@[t],
    ensures
        s == t,
        b.endpoints@[i].calls@[s] == CallSlot::Free,
        o is Reply,
{
    let x = a.endpoints@[i];
    first_taken_is_taken(x.calls@, 0);
}

/// A service's device is registered only for a service that announced itself
/// while the core was not going away.
pub proof fn leaving_core_registers_nothing<L: FakehidListener>(
    a: AopData<L>,
    i: int,
    channel: u32,
    payload: Seq<u8>,
    b: AopData<L>,
    o: Outcome,
)
    requires
        entry_result(a, i, channel, payload, b, o),
        a.removing,
    ensures
        !(o is Register),
{
}

/// A service that announces itself gets its device, with the channel that stands behind
/// its name, on the endpoint that the announcement came over; nothing else changes.
pub proof fn announcement_registers<L: FakehidListener>(
    a: AopData<L>,
    i: int,
    channel: u32,
    payload: Seq<u8>,
    b: AopData<L>,
    o: Outcome,
)
    requires
        entry_result(a, i, channel, payload, b, o),
        payload.len() >= 84,
        payload[21] == 0,
        u16_at(payload, 22) == 0xc0,
        !a.removing,
    ensures
        match device_for(unpadded(payload.subrange(40, 72))) {
            Some(d) => o == Outcome::Register(
                d,
                EPICService {
                    channel: u32_at(payload, 72) as u32,
                    endpoint: a.endpoints@[i].index,
                },
            ),
            None => o == Outcome::Nothing,
        },
        b.listeners == a.listeners,
        b.endpoints@[i].calls@ == a.endpoints@[i].calls@,
        b.endpoints@[i].dropped == a.endpoints@[i].dropped,
{
    let data = payload.subrange(40, payload.len() as int);
    assert(data.subrange(0, 32) =~= payload.subrange(40, 72));
    assert(data.subrange(32, 36) =~= payload.subrange(72, 76));
    u32_at_subrange(payload, 40, payload.len() as int, 32);
}

/// A report goes to whoever listens to its channel on its endpoint, with all that stands
/// behind the header. One that nobody listens to changes nothing.
pub proof fn report_goes_to_its_listener<L: FakehidListener>(
    a: AopData<L>,
    i: int,
    channel: u32,
    payload: Seq<u8>,
    b: AopData<L>,
    o: Outcome,
)
    requires
        entry_result(a, i, channel, payload, b, o),
        payload.len() >= 40,
        payload[21] == 0,
        u16_at(payload, 22) == 0xc4,
    ensures
        match place(
            a.services@,
            EPICService { channel, endpoint: a.endpoints@[i].index },
            0,
        ) {
            Some(k) => exists|r: Result<(), Errno>| #[trigger]
                L::takes(
                    a.listeners@[k],
                    payload.subrange(40, payload.len() as int),
                    b.listeners@[k],
                    r,
                ) && (r is Ok ==> o == Outcome::Nothing),
            None => o == Outcome::Nothing && b.listeners == a.listeners,
        },
        b.endpoints@[i].calls@ == a.endpoints@[i].calls@,
{
}

/// What is shorter than a header, of another category or of another subtype is counted
/// as not handled, up to the largest count, and changes nothing else.
pub proof fn strange_entry_is_counted<L: FakehidListener>(
    a: AopData<L>,
    i: int,
    channel: u32,
    payload: Seq<u8>,
    b: AopData<L>,
    o: Outcome,
)
    requires
        entry_result(a, i, channel, payload, b, o),
        payload.len() < 40 || (payload[21] != 0 && payload[21] != 0x20) || (payload[21] == 0
            && u16_at(payload, 22) != 0xc0 && u16_at(payload, 22) != 0xc4) || (payload[21] == 0
            && u16_at(payload, 22) == 0xc0 && payload.len() < 84),
    ensures
        o is Dropped,
        b.listeners == a.listeners,
        b.endpoints@[i].calls@ == a.endpoints@[i].calls@,
        a.endpoints@[i].dropped < u32::MAX ==> b.endpoints@[i].dropped
            == a.endpoints@[i].dropped + 1,
        a.endpoints@[i].dropped == u32::MAX ==> b.endpoints@[i].dropped == u32::MAX,
{
}

} // verus!
