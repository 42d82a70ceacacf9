//! The sensor processor's core: its endpoints and their calls, who listens to
//! which service, and how it is started and taken down.

use vstd::prelude::*;

use crate::afk::{afk_endpoint_index, notify_result, AFKEndpoint};
use crate::aop::{
    added_listener_gets_its_reports, distinct, listener_of, place, removed_listener_gets_nothing,
    taken_out, unsubscribing_undoes_subscribing, EPICService, FakehidListener, Started, AOP,
};
use crate::epic::abandoned;
use crate::errno::Errno;

verus! {

pub const AFK_SHUTDOWN_TIMEOUT_MS: u32 = 5000;

/// The core.
pub struct AopData<L: FakehidListener> {
    /// Whether the firmware speaks the fourth version of the call headers.
    pub epic_v4: bool,
    /// Whether the processor is shut down when the core goes away, and what it
    /// may write to is kept where that cannot be confirmed.
    pub quiesce_on_unbind: bool,
    /// The endpoints that have to start; none means all of them.
    pub required: Vec<u8>,
    pub removing: bool,
    /// No call is started any more.
    pub transport_closing: bool,
    pub cpu_started: bool,
    /// The transport is there.
    pub rtkit: bool,
    pub endpoints: Vec<AFKEndpoint>,
    /// The services that are listened to, and who listens.
    pub services: Vec<EPICService>,
    pub listeners: Vec<L>,
}

/// The place of an endpoint among all.
pub open spec fn index_of(ep: u8) -> Option<int> {
    if 0x20 <= ep < 0x2f {
        Some(ep - 0x20)
    } else {
        None
    }
}

/// What comes of a call but for the ring: the error, if it is refused.
pub open spec fn call_fault<L: FakehidListener>(d: AopData<L>, svc: EPICService) -> Option<Errno> {
    if d.transport_closing {
        Some(Errno::ENODEV)
    } else if index_of(svc.endpoint) is None {
        Some(Errno::EINVAL)
    } else if !d.rtkit {
        Some(Errno::ENODEV)
    } else {
        None
    }
}

/// What else stays as it was when a call is made.
pub open spec fn same_but_endpoint<L: FakehidListener>(
    a: AopData<L>,
    b: AopData<L>,
    i: int,
) -> bool {
    &&& a.epic_v4 == b.epic_v4
    &&& a.quiesce_on_unbind == b.quiesce_on_unbind
    &&& a.required == b.required
    &&& a.removing == b.removing
    &&& a.transport_closing == b.transport_closing
    &&& a.cpu_started == b.cpu_started
    &&& a.rtkit == b.rtkit
    &&& a.services == b.services
    &&& a.listeners == b.listeners
    &&& a.endpoints.len() == b.endpoints.len()
    &&& forall|j: int| 0 <= j < a.endpoints.len() && j != i ==> a.endpoints@[j] == b.endpoints@[j]
}

/// What giving up on a call does to its endpoint: the call's place is abandoned,
/// and nothing else changes.
pub open spec fn given_up(a: AFKEndpoint, b: AFKEndpoint, id: u64) -> bool {
    &&& b == (AFKEndpoint { calls: b.calls, ..a })
    &&& b.calls@ == abandoned(a.calls@, id)
    &&& b.calls.next_id() == a.calls.next_id()
}

/// What else stays as it was when a listener takes in a report.
pub open spec fn same_but_listener<L: FakehidListener>(
    a: AopData<L>,
    b: AopData<L>,
    i: int,
) -> bool {
    &&& b == (AopData { listeners: b.listeners, ..a })
    &&& a.listeners.len() == b.listeners.len()
    &&& forall|j: int| 0 <= j < a.listeners.len() && j != i ==> a.listeners@[j] == b.listeners@[j]
}

/// What comes of a report for a service: whoever listens to it takes it in, and
/// nobody else does.
pub open spec fn handed_on<L: FakehidListener>(
    a: AopData<L>,
    svc: EPICService,
    data: Seq<u8>,
    b: AopData<L>,
    r: Result<(), Errno>,
) -> bool {
    match place(a.services@, svc, 0) {
        None => r is Ok && b == a,
        Some(i) => {
            &&& same_but_listener(a, b, i)
            &&& L::takes(a.listeners@[i], data, b.listeners@[i], r)
        },
    }
}

/// What a call does to the core and to the buffer that its endpoint shares with
/// the firmware, and what it gives: where the call is and how to tell of it.
pub open spec fn call_made<L: FakehidListener>(
    before: AopData<L>,
    mem: Seq<u8>,
    svc: EPICService,
    subtype: u16,
    msg: Seq<u8>,
    ret: Option<u32>,
    after: AopData<L>,
    mem_after: Seq<u8>,
    r: Result<Started, Errno>,
) -> bool {
    match call_fault(before, svc) {
        Some(e) => r == Err::<Started, Errno>(e) && after == before && mem_after == mem,
        None => {
            let i = index_of(svc.endpoint)->0;
            &&& same_but_endpoint(before, after, i)
            &&& r matches Ok(s) ==> s.index == i
            &&& notify_result(
                before.endpoints@[i],
                mem,
                before.epic_v4,
                svc.channel,
                subtype,
                msg,
                ret,
                after.endpoints@[i],
                mem_after,
                match r {
                    Ok(s) => Ok((s.id, s.doorbell)),
                    Err(e) => Err(e),
                },
            )
        },
    }
}

impl<L: FakehidListener> AopData<L> {
    pub open spec fn inv(&self) -> bool {
        &&& self.endpoints.len() == 15
        &&& forall|i: int|
            0 <= i < 15 ==> (#[trigger] self.endpoints@[i]).wf() && self.endpoints@[i].index == 0x20
                + i
        &&& self.services.len() == self.listeners.len()
        &&& distinct(self.services@)
        &&& forall|i: int|
            0 <= i < self.listeners.len() ==> (#[trigger] self.listeners@[i]).ready()
    }

    pub fn new(epic_v4: bool, quiesce_on_unbind: bool, required: Vec<u8>) -> (d: AopData<L>)
        ensures
            d.inv(),
            d.epic_v4 == epic_v4,
            d.quiesce_on_unbind == quiesce_on_unbind,
            d.required == required,
            !d.removing && !d.transport_closing && !d.cpu_started && !d.rtkit,
            d.services@ == Seq::<EPICService>::empty(),
            d.listeners@ == Seq::<L>::empty(),
            forall|i: int| 0 <= i < 15 ==> (#[trigger] d.endpoints@[i]).is_new((0x20 + i) as u8),
    {
        let mut endpoints: Vec<AFKEndpoint> = Vec::new();
        let mut i: u8 = 0;
        while i < 15
            invariant
                i <= 15,
                endpoints.len() == i,
                forall|j: int|
                    0 <= j < i ==> (#[trigger] endpoints@[j]).wf() && endpoints@[j].is_new(
                        (0x20 + j) as u8,
                    ),
            decreases 15 - i,
        {
            endpoints.push(AFKEndpoint::new(0x20 + i));
            i = i + 1;
        }
        AopData {
            epic_v4,
            quiesce_on_unbind,
            required,
            removing: false,
            transport_closing: false,
            cpu_started: false,
            rtkit: false,
            endpoints,
            services: Vec::new(),
            listeners: Vec::new(),
        }
    }

    fn find(&self, svc: &EPICService) -> (r: Option<usize>)
        ensures
            match r {
                Some(i) => place(self.services@, *svc, 0) == Some(i as int) && i
                    < self.services.len(),
                None => place(self.services@, *svc, 0) is None,
            },
    {
        let mut i: usize = 0;
        while i < self.services.len()
            invariant
                i <= self.services.len(),
                place(self.services@, *svc, 0) == place(self.services@, *svc, i as int),
            decreases self.services.len() - i,
        {
            if self.services[i] == *svc {
                return Some(i);
            }
            i = i + 1;
        }
        None
    }

    /// Who listens to the reports on a channel, if anybody does.
    pub fn listener_for(&self, endpoint: u8, channel: u32) -> (r: Option<usize>)
        ensures
            match r {
                Some(i) => place(self.services@, EPICService { channel, endpoint }, 0) == Some(
                    i as int,
                ) && i < self.services.len(),
                None => place(self.services@, EPICService { channel, endpoint }, 0) is None,
            },
    {
        self.find(&EPICService { channel, endpoint })
    }

    /// Hands a report to whoever listens. One that nobody listens to is no
    /// error.
    pub fn process_fakehid_report(&mut self, endpoint: u8, channel: u32, data: &[u8]) -> (r: Result<
        (),
        Errno,
    >)
        requires
            old(self).inv(),
        ensures
            final(self).inv(),
            handed_on(
                *old(self),
                EPICService { channel, endpoint },
                data@,
                *final(self),
                r,
            ),
    {
        match self.listener_for(endpoint, channel) {
            None => Ok(()),
            Some(i) => self.listeners[i].process_fakehid_report(data),
        }
    }

    /// Makes a call on the endpoint of its service.
    fn call(
        &mut self,
        mem: &mut Vec<u8>,
        svc: &EPICService,
        subtype: u16,
        msg_bytes: &[u8],
        ret: Option<u32>,
    ) -> (r: Result<Started, Errno>)
        requires
            old(self).inv(),
            call_ready(*old(self), *svc, old(mem)@, msg_bytes@),
        ensures
            final(self).inv(),
            final(mem).len() == old(mem).len(),
            call_made(
                *old(self),
                old(mem)@,
                *svc,
                subtype,
                msg_bytes@,
                ret,
                *final(self),
                final(mem)@,
                r,
            ),
    {
        if self.transport_closing {
            return Err(Errno::ENODEV);
        }
        let i: usize = match afk_endpoint_index(svc.endpoint) {
            None => {
                return Err(Errno::EINVAL);
            },
            Some(i) => i,
        };
        if !self.rtkit {
            return Err(Errno::ENODEV);
        }
        let v4 = self.epic_v4;
        match self.endpoints[i].epic_notify(mem, v4, svc.channel, subtype, msg_bytes, ret) {
            Err(e) => Err(e),
            Ok((id, doorbell)) => Ok(Started { index: i, id, doorbell }),
        }
    }

    /// Gives up on a call, which telling the firmware of failed or which no
    /// reply came to in time.
    pub fn give_up(&mut self, index: usize, id: u64)
        requires
            old(self).inv(),
            index < 15,
        ensures
            final(self).inv(),
            same_but_endpoint(*old(self), *final(self), index as int),
            given_up(old(self).endpoints@[index as int], final(self).endpoints@[index as int], id),
    {
        self.endpoints[index].abandon_call(id);
    }

    /// Ends the wait for a reply: its return code, or giving up.
    pub fn wait_call(&mut self, started: &Started, reply: Option<u32>) -> (r: Result<u32, Errno>)
        requires
            old(self).inv(),
            started.index < 15,
        ensures
            final(self).inv(),
            match reply {
                Some(code) => r == Ok::<u32, Errno>(code) && *final(self) == *old(self),
                None => {
                    &&& r == Err::<u32, Errno>(Errno::ETIMEDOUT)
                    &&& same_but_endpoint(*old(self), *final(self), started.index as int)
                    &&& given_up(
                        old(self).endpoints@[started.index as int],
                        final(self).endpoints@[started.index as int],
                        started.id,
                    )
                },
            },
    {
        match reply {
            Some(code) => Ok(code),
            None => {
                self.give_up(started.index, started.id);
                Err(Errno::ETIMEDOUT)
            },
        }
    }

    /// Ends the wait for a reply that carries bytes: its return code and the
    /// bytes, or giving up.
    pub fn wait_call_ret(&mut self, started: &Started, reply: Option<(u32, Option<Vec<u8>>)>) -> (r:
        Result<(u32, Vec<u8>), Errno>)
        requires
            old(self).inv(),
            started.index < 15,
        ensures
            final(self).inv(),
            match reply {
                Some((code, bytes)) => {
                    &&& r == (match bytes {
                        Some(b) => Ok::<(u32, Vec<u8>), Errno>((code, b)),
                        None => Err(Errno::EIO),
                    })
                    &&& *final(self) == *old(self)
                },
                None => {
                    &&& r == Err::<(u32, Vec<u8>), Errno>(Errno::ETIMEDOUT)
                    &&& same_but_endpoint(*old(self), *final(self), started.index as int)
                    &&& given_up(
                        old(self).endpoints@[started.index as int],
                        final(self).endpoints@[started.index as int],
                        started.id,
                    )
                },
            },
    {
        match reply {
            Some((code, bytes)) => match bytes {
                Some(b) => Ok((code, b)),
                None => Err(Errno::EIO),
            },
            None => {
                self.give_up(started.index, started.id);
                Err(Errno::ETIMEDOUT)
            },
        }
    }

    /// Notes that the transport to the firmware is there.
    pub fn open_transport(&mut self)
        requires
            old(self).inv(),
        ensures
            final(self).inv(),
            *final(self) == (AopData { rtkit: true, ..*old(self) }),
    {
        self.rtkit = true;
    }

    /// Notes that the transport is gone.
    pub fn drop_transport(&mut self)
        requires
            old(self).inv(),
        ensures
            final(self).inv(),
            *final(self) == (AopData { rtkit: false, ..*old(self) }),
    {
        self.rtkit = false;
    }

    /// Drops the listeners that were left behind, and starts no more calls.
    pub fn close_transport(&mut self)
        requires
            old(self).inv(),
        ensures
            final(self).inv(),
            final(self).services@ == Seq::<EPICService>::empty(),
            final(self).listeners.len() == 0,
            *final(self) == (AopData {
                services: final(self).services,
                listeners: final(self).listeners,
                transport_closing: true,
                ..*old(self)
            }),
    {
        self.services = Vec::new();
        self.listeners = Vec::new();
        self.transport_closing = true;
        assert(self.services@ =~= Seq::<EPICService>::empty());
    }

    /// Whether an endpoint has to start.
    pub fn is_required(&self, ep: u8) -> (r: bool)
        ensures
            r == must_start(self.required@, ep),
    {
        if self.required.len() == 0 {
            return true;
        }
        let mut i: usize = 0;
        while i < self.required.len()
            invariant
                i <= self.required.len(),
                self.required.len() > 0,
                forall|j: int| 0 <= j < i ==> self.required@[j] != ep,
            decreases self.required.len() - i,
        {
            if self.required[i] == ep {
                assert(self.required@.contains(ep));
                return true;
            }
            i = i + 1;
        }
        false
    }
}

/// Whether an endpoint has to start: where none is named, all have to.
pub open spec fn must_start(required: Seq<u8>, ep: u8) -> bool {
    required.len() == 0 || required.contains(ep)
}

/// What a call needs of its arguments.
pub open spec fn call_ready<L: FakehidListener>(
    d: AopData<L>,
    svc: EPICService,
    mem: Seq<u8>,
    msg: Seq<u8>,
) -> bool {
    &&& msg.len() + 40 <= 0xffff_ffff
    &&& index_of(svc.endpoint) matches Some(i) ==> d.endpoints@[i].shares(mem)
        && d.endpoints@[i].calls.next_id() < u64::MAX
}

impl<L: FakehidListener> AOP for AopData<L> {
    type Listener = L;

    open spec fn wf(&self) -> bool {
        self.inv()
    }

    open spec fn is_removing(&self) -> bool {
        self.removing
    }

    open spec fn listened(&self) -> Seq<EPICService> {
        self.services@
    }

    open spec fn listeners(&self) -> Seq<L> {
        self.listeners@
    }

    open spec fn same_but_listening(&self, other: &Self) -> bool {
        *other == (AopData { services: other.services, listeners: other.listeners, ..*self })
    }

    open spec fn takes_call(&self, svc: EPICService, mem: Seq<u8>, msg: Seq<u8>) -> bool {
        call_ready(*self, svc, mem, msg)
    }

    fn epic_call(&mut self, mem: &mut Vec<u8>, svc: &EPICService, subtype: u16, msg_bytes: &[u8])
        -> (r: Result<Started, Errno>)
        ensures
            call_made(
                *old(self),
                old(mem)@,
                *svc,
                subtype,
                msg_bytes@,
                None,
                *final(self),
                final(mem)@,
                r,
            ),
    {
        self.call(mem, svc, subtype, msg_bytes, None)
    }

    fn epic_call_ret(
        &mut self,
        mem: &mut Vec<u8>,
        svc: &EPICService,
        subtype: u16,
        msg_bytes: &[u8],
        ret_len: u32,
    ) -> (r: Result<Started, Errno>)
        ensures
            call_made(
                *old(self),
                old(mem)@,
                *svc,
                subtype,
                msg_bytes@,
                Some(ret_len),
                *final(self),
                final(mem)@,
                r,
            ),
    {
        self.call(mem, svc, subtype, msg_bytes, Some(ret_len))
    }

    fn add_fakehid_listener(&mut self, svc: EPICService, listener: L) -> (r: Result<(), Errno>) {
        if self.removing {
            return Err(Errno::ENODEV);
        }
        match self.find(&svc) {
            Some(_) => Err(Errno::EBUSY),
            None => {
                proof {
                    added_listener_gets_its_reports(
                        self.services@,
                        self.listeners@,
                        svc,
                        listener,
                        svc,
                    );
                }
                self.services.push(svc);
                self.listeners.push(listener);
                Ok(())
            },
        }
    }

    fn remove_fakehid_listener(&mut self, svc: &EPICService) -> (r: bool) {
        match self.find(svc) {
            None => false,
            Some(i) => {
                proof {
                    removed_listener_gets_nothing(self.services@, self.listeners@, *svc, *svc);
                }
                let _ = self.services.swap_remove(i);
                let _ = self.listeners.swap_remove(i);
                assert(self.services@ =~= taken_out(old(self).services@, i as int));
                assert(self.listeners@ =~= taken_out(old(self).listeners@, i as int));
                true
            },
        }
    }

    fn remove(&mut self) -> (first: bool)
        ensures
            *final(self) == (AopData { removing: true, ..*old(self) }),
    {
        let first = !self.removing;
        self.removing = true;
        first
    }
}

// ---------------------------------------------------------------------------
// Laws.
// ---------------------------------------------------------------------------
/// After a listener was added for a service, a report for that service is taken
/// in by that listener, and by no other.
pub proof fn subscriber_takes_its_reports<L: FakehidListener>(
    before: AopData<L>,
    svc: EPICService,
    listener: L,
    a: AopData<L>,
    data: Seq<u8>,
    b: AopData<L>,
    r: Result<(), Errno>,
)
    requires
        before.inv(),
        place(before.services@, svc, 0) is None,
        a.services@ == before.services@.push(svc),
        a.listeners@ == before.listeners@.push(listener),
        handed_on(a, svc, data, b, r),
    ensures
        L::takes(listener, data, b.listeners@.last(), r),
        b.listeners@.drop_last() == before.listeners@,
        b == (AopData { listeners: b.listeners, ..a }),
{
    unsubscribing_undoes_subscribing(before.services@, before.listeners@, svc, listener);
    assert(b.listeners@.drop_last() =~= before.listeners@);
}

/// After the listener of a service was removed, a report for that service
/// reaches nobody, and one for another service reaches whom it reached before.
pub proof fn former_subscriber_takes_nothing<L: FakehidListener>(
    before: AopData<L>,
    svc: EPICService,
    a: AopData<L>,
    other: EPICService,
    data: Seq<u8>,
    b: AopData<L>,
    r: Result<(), Errno>,
)
    requires
        before.inv(),
        place(before.services@, svc, 0) is Some,
        a.services@ == taken_out(before.services@, place(before.services@, svc, 0)->0),
        a.listeners@ == taken_out(before.listeners@, place(before.services@, svc, 0)->0),
        handed_on(a, other, data, b, r),
    ensures
        other == svc ==> r is Ok && b == a,
        other != svc ==> (match listener_of(before.services@, before.listeners@, other) {
            None => r is Ok && b == a,
            Some(l) => L::takes(l, data, b.listeners@[place(a.services@, other, 0)->0], r)
                && same_but_listener(a, b, place(a.services@, other, 0)->0),
        }),
{
    removed_listener_gets_nothing(before.services@, before.listeners@, svc, other);
}

/// The endpoints of services are numbered from 0x20 to 0x2e, and stand in that order.
pub proof fn endpoints_are_numbered(ep: u8)
    ensures
        index_of(0x20) == Some(0int),
        index_of(0x2e) == Some(14int),
        index_of(ep) is Some <==> 0x20 <= ep <= 0x2e,
        index_of(ep) matches Some(i) ==> ep == 0x20 + i && 0 <= i < 15,
{
}

/// A call is refused once the transport closes, then where its service is behind no
/// endpoint, then where there is no transport; a refused call changes nothing.
pub proof fn calls_are_refused<L: FakehidListener>(
    a: AopData<L>,
    mem: Seq<u8>,
    svc: EPICService,
    subtype: u16,
    msg: Seq<u8>,
    ret: Option<u32>,
    b: AopData<L>,
    mem_after: Seq<u8>,
    r: Result<Started, Errno>,
)
    requires
        call_made(a, mem, svc, subtype, msg, ret, b, mem_after, r),
        a.transport_closing || svc.endpoint < 0x20 || svc.endpoint > 0x2e || !a.rtkit,
    ensures
        b == a,
        mem_after == mem,
        a.transport_closing ==> r == Err::<Started, Errno>(Errno::ENODEV),
        !a.transport_closing && (svc.endpoint < 0x20 || svc.endpoint > 0x2e) ==> r == Err::<
            Started,
            Errno,
        >(Errno::EINVAL),
        !a.transport_closing && 0x20 <= svc.endpoint <= 0x2e ==> r == Err::<Started, Errno>(
            Errno::ENODEV,
        ),
{
}

/// Where no endpoint is named all have to start, and else those that are.
pub proof fn named_endpoints_must_start(ep: u8, other: u8)
    ensures
        must_start(Seq::empty(), ep),
        must_start(seq![ep], ep),
        must_start(seq![ep, other], other),
        other != ep ==> !must_start(seq![ep], other),
{
    assert(seq![ep][0] == ep);
    assert(seq![ep, other][1] == other);
}

} // verus!
