//! What the drivers of the sensor processor's services share: how a service is
//! named, how its reports are listened to, and what the core offers them.

use vstd::prelude::*;

use crate::errno::Errno;

verus! {

/// A service: the endpoint it is behind, and its channel there.
#[derive(Clone, Copy, Debug, PartialEq, Eq, Structural)]
pub struct EPICService {
    pub channel: u32,
    pub endpoint: u8,
}

/// Whoever takes in the reports of a service.
pub trait FakehidListener: Sized {
    /// What the listener needs of itself to take in a report, and keeps.
    spec fn ready(&self) -> bool;

    /// Whether taking in a report may make `after` of `before` and give `r`.
    spec fn takes(before: Self, data: Seq<u8>, after: Self, r: Result<(), Errno>) -> bool;

    fn process_fakehid_report(&mut self, data: &[u8]) -> (r: Result<(), Errno>)
        requires
            old(self).ready(),
        ensures
            final(self).ready(),
            Self::takes(*old(self), data@, *final(self), r),
    ;
}

/// A call that was written into its endpoint's ring.
#[derive(Clone, Copy, Debug, PartialEq, Eq, Structural)]
pub struct Started {
    /// Which of the endpoints it is on.
    pub index: usize,
    pub id: u64,
    /// The message that tells the firmware of it.
    pub doorbell: u64,
}

/// What a service's device finds of the core that registered it.
pub enum Parent<'a, A> {
    /// The device has no parent.
    Missing,
    /// The core is still starting.
    Starting,
    Bound(&'a A),
}

/// Where the first member of `s` that is `svc` stands, from `from` on.
pub open spec fn place(s: Seq<EPICService>, svc: EPICService, from: int) -> Option<int>
    decreases s.len() - from,
{
    if from < 0 || from >= s.len() {
        None
    } else if s[from] == svc {
        Some(from)
    } else {
        place(s, svc, from + 1)
    }
}

/// `s` without its member at `i`, whose place the last one takes.
pub open spec fn taken_out<T>(s: Seq<T>, i: int) -> Seq<T> {
    s.update(i, s.last()).drop_last()
}

/// No service is listened to twice.
pub open spec fn distinct(s: Seq<EPICService>) -> bool {
    forall|i: int, j: int| 0 <= i < j < s.len() ==> #[trigger] s[i] != #[trigger] s[j]
}

/// Who listens to a service, if anybody does: of services and listeners, those
/// in the same place belong together.
pub open spec fn listener_of<T>(s: Seq<EPICService>, l: Seq<T>, svc: EPICService) -> Option<T> {
    match place(s, svc, 0) {
        Some(i) => Some(l[i]),
        None => None,
    }
}

proof fn place_is_there(s: Seq<EPICService>, svc: EPICService, from: int)
    requires
        0 <= from,
    ensures
        place(s, svc, from) matches Some(i) ==> from <= i < s.len() && s[i] == svc,
        place(s, svc, from) is None ==> forall|j: int| from <= j < s.len() ==> s[j] != svc,
    decreases s.len() - from,
{
    if from < s.len() && s[from] != svc {
        place_is_there(s, svc, from + 1);
    }
}

/// The core, as the drivers of its services see it.
pub trait AOP: Sized {
    type Listener: FakehidListener;

    spec fn wf(&self) -> bool;

    /// Whether the core is going away.
    spec fn is_removing(&self) -> bool;

    /// The services that are listened to.
    spec fn listened(&self) -> Seq<EPICService>;

    /// Who listens to them, in the same order.
    spec fn listeners(&self) -> Seq<Self::Listener>;

    /// Whether two states differ at most in who listens to what.
    spec fn same_but_listening(&self, other: &Self) -> bool;

    /// What a call needs of its arguments: that `mem` is the buffer that the
    /// service's endpoint shares with the firmware, and that the call is not
    /// longer than an entry can say.
    spec fn takes_call(&self, svc: EPICService, mem: Seq<u8>, msg: Seq<u8>) -> bool;

    /// Calls a service, for its return code.
    fn epic_call(&mut self, mem: &mut Vec<u8>, svc: &EPICService, subtype: u16, msg_bytes: &[u8])
        -> (r: Result<Started, Errno>)
        requires
            old(self).wf(),
            old(self).takes_call(*svc, old(mem)@, msg_bytes@),
        ensures
            final(self).wf(),
            final(mem).len() == old(mem).len(),
            final(self).listened() == old(self).listened(),
            final(self).listeners() == old(self).listeners(),
            final(self).is_removing() == old(self).is_removing(),
    ;

    /// Calls a service, for its return code and up to `ret_len` bytes.
    fn epic_call_ret(
        &mut self,
        mem: &mut Vec<u8>,
        svc: &EPICService,
        subtype: u16,
        msg_bytes: &[u8],
        ret_len: u32,
    ) -> (r: Result<Started, Errno>)
        requires
            old(self).wf(),
            old(self).takes_call(*svc, old(mem)@, msg_bytes@),
        ensures
            final(self).wf(),
            final(mem).len() == old(mem).len(),
            final(self).listened() == old(self).listened(),
            final(self).listeners() == old(self).listeners(),
            final(self).is_removing() == old(self).is_removing(),
    ;

    /// Adds the listener of a service, which takes one at a time.
    fn add_fakehid_listener(&mut self, svc: EPICService, listener: Self::Listener) -> (r: Result<
        (),
        Errno,
    >)
        requires
            old(self).wf(),
            listener.ready(),
        ensures
            final(self).wf(),
            final(self).is_removing() == old(self).is_removing(),
            match r {
                Ok(_) => {
                    &&& !old(self).is_removing()
                    &&& place(old(self).listened(), svc, 0) is None
                    &&& final(self).listened() == old(self).listened().push(svc)
                    &&& final(self).listeners() == old(self).listeners().push(listener)
                    &&& old(self).same_but_listening(final(self))
                },
                Err(e) => *final(self) == *old(self) && (if old(self).is_removing() {
                    e == Errno::ENODEV
                } else {
                    e == Errno::EBUSY && place(old(self).listened(), svc, 0) is Some
                }),
            },
    ;

    /// Removes the listener of a service, and says whether there was one.
    fn remove_fakehid_listener(&mut self, svc: &EPICService) -> (r: bool)
        requires
            old(self).wf(),
        ensures
            final(self).wf(),
            final(self).is_removing() == old(self).is_removing(),
            match place(old(self).listened(), *svc, 0) {
                Some(i) => {
                    &&& r
                    &&& final(self).listened() == taken_out(old(self).listened(), i)
                    &&& final(self).listeners() == taken_out(old(self).listeners(), i)
                    &&& old(self).same_but_listening(final(self))
                },
                None => !r && *final(self) == *old(self),
            },
    ;

    /// Starts to take the core down. Only the first call has anything to do.
    fn remove(&mut self) -> (first: bool)
        requires
            old(self).wf(),
        ensures
            final(self).wf(),
            first == !old(self).is_removing(),
            final(self).is_removing(),
            final(self).listened() == old(self).listened(),
            final(self).listeners() == old(self).listeners(),
            old(self).is_removing() ==> *final(self) == *old(self),
    ;

    /// The core that registered a service's device. Where the core is still
    /// starting, the device is to be tried again later.
    fn from_child<'a>(parent: Parent<'a, Self>) -> (r: Result<&'a Self, Errno>)
        ensures
            match parent {
                Parent::Missing => r == Err::<&'a Self, Errno>(Errno::ENODEV),
                Parent::Starting => r == Err::<&'a Self, Errno>(Errno::EPROBEDEFER),
                Parent::Bound(core) => r == Ok::<&'a Self, Errno>(core),
            },
    {
        match parent {
            Parent::Missing => Err(Errno::ENODEV),
            Parent::Starting => Err(Errno::EPROBEDEFER),
            Parent::Bound(core) => Ok(core),
        }
    }
}

/// What ending a subscription does, given whether it still stood: its listener is
/// removed from the core if it did, and it stands no more.
pub open spec fn ended<A: AOP>(
    registered: bool,
    service: EPICService,
    a: A,
    still: bool,
    b: A,
) -> bool {
    &&& !still
    &&& match place(a.listened(), service, 0) {
        Some(i) => if registered {
            &&& b.listened() == taken_out(a.listened(), i)
            &&& b.listeners() == taken_out(a.listeners(), i)
            &&& a.same_but_listening(&b)
        } else {
            b == a
        },
        None => b == a,
    }
}

/// A driver's subscription to the reports of its service. The driver ends it
/// before it lets go of anything that its listener uses.
pub struct FakehidRegistration {
    service: EPICService,
    registered: bool,
}

impl FakehidRegistration {
    pub closed spec fn service(&self) -> EPICService {
        self.service
    }

    pub closed spec fn is_registered(&self) -> bool {
        self.registered
    }

    /// Subscribes a listener to the reports of a service.
    pub fn new<A: AOP>(aop: &mut A, service: EPICService, listener: A::Listener) -> (r: Result<
        FakehidRegistration,
        Errno,
    >)
        requires
            old(aop).wf(),
            listener.ready(),
        ensures
            final(aop).wf(),
            final(aop).is_removing() == old(aop).is_removing(),
            match r {
                Ok(reg) => {
                    &&& !old(aop).is_removing()
                    &&& place(old(aop).listened(), service, 0) is None
                    &&& final(aop).listened() == old(aop).listened().push(service)
                    &&& final(aop).listeners() == old(aop).listeners().push(listener)
                    &&& old(aop).same_but_listening(final(aop))
                    &&& reg.service() == service
                    &&& reg.is_registered()
                },
                Err(e) => *final(aop) == *old(aop) && (if old(aop).is_removing() {
                    e == Errno::ENODEV
                } else {
                    e == Errno::EBUSY && place(old(aop).listened(), service, 0) is Some
                }),
            },
    {
        match aop.add_fakehid_listener(service, listener) {
            Err(e) => Err(e),
            Ok(_) => Ok(FakehidRegistration { service, registered: true }),
        }
    }

    /// Ends the subscription. Further calls do nothing.
    pub fn unregister<A: AOP>(&mut self, aop: &mut A)
        requires
            old(aop).wf(),
        ensures
            final(aop).wf(),
            final(aop).is_removing() == old(aop).is_removing(),
            final(self).service() == old(self).service(),
            ended(
                old(self).is_registered(),
                old(self).service(),
                *old(aop),
                final(self).is_registered(),
                *final(aop),
            ),
    {
        if self.registered {
            self.registered = false;
            let _ = aop.remove_fakehid_listener(&self.service);
        }
    }
}

/// A four-character name as a number, its first character the most
/// significant.
pub fn from_fourcc(b: &[u8]) -> (v: u32)
    requires
        b.len() >= 4,
    ensures
        v == fourcc(b@),
{
    b[3] as u32 + 0x100 * (b[2] as u32) + 0x1_0000 * (b[1] as u32) + 0x100_0000 * (b[0] as u32)
}

pub open spec fn fourcc(b: Seq<u8>) -> int {
    b[3] + 0x100 * b[2] + 0x1_0000 * b[1] + 0x100_0000 * b[0]
}

/// A report for a service goes to the listener that was added for it, and to no
/// other; the reports for the other services go where they went before.
pub proof fn added_listener_gets_its_reports<T>(
    s: Seq<EPICService>,
    l: Seq<T>,
    svc: EPICService,
    listener: T,
    other: EPICService,
)
    requires
        s.len() == l.len(),
        distinct(s),
        place(s, svc, 0) is None,
    ensures
        distinct(s.push(svc)),
        listener_of(s.push(svc), l.push(listener), svc) == Some(listener),
        other != svc ==> listener_of(s.push(svc), l.push(listener), other) == listener_of(
            s,
            l,
            other,
        ),
{
    place_is_there(s, svc, 0);
    place_is_there(s.push(svc), svc, 0);
    assert(s.push(svc)[s.len() as int] == svc);
    place_is_there(s, other, 0);
    place_is_there(s.push(svc), other, 0);
    if other != svc {
        match place(s, other, 0) {
            Some(j) => {
                assert(s.push(svc)[j] == other);
                let k = place(s.push(svc), other, 0)->0;
                assert(s.push(svc)[k] == other);
                assert(s[k] == other && s[j] == other);
                assert(j == k);
            },
            None => {
                if place(s.push(svc), other, 0) is Some {
                    let k = place(s.push(svc), other, 0)->0;
                    assert(s[k] == other);
                }
            },
        }
    }
}

/// Once the listener of a service is taken out, no report for that service goes
/// to anybody, a listener can be added for it again, and the reports for the
/// other services go where they went before.
pub proof fn removed_listener_gets_nothing<T>(
    s: Seq<EPICService>,
    l: Seq<T>,
    svc: EPICService,
    other: EPICService,
)
    requires
        s.len() == l.len(),
        distinct(s),
        place(s, svc, 0) is Some,
    ensures
        ({
            let i = place(s, svc, 0)->0;
            &&& distinct(taken_out(s, i))
            &&& place(taken_out(s, i), svc, 0) is None
            &&& other != svc ==> listener_of(taken_out(s, i), taken_out(l, i), other)
                == listener_of(s, l, other)
        }),
{
    let i = place(s, svc, 0)->0;
    let t = taken_out(s, i);
    let n = s.len() - 1;
    place_is_there(s, svc, 0);
    assert forall|k: int| 0 <= k < t.len() implies #[trigger] t[k] == s[(if k == i {
        n
    } else {
        k
    })] by {}
    assert(distinct(t));
    place_is_there(t, svc, 0);
    if place(t, svc, 0) is Some {
        let k = place(t, svc, 0)->0;
        assert(s[k] == svc || s[n] == svc);
    }
    place_is_there(s, other, 0);
    place_is_there(t, other, 0);
    if other != svc {
        match place(s, other, 0) {
            Some(j) => {
                let k = if j == n {
                    i
                } else {
                    j
                };
                assert(t[k] == other);
                let m = place(t, other, 0)->0;
                assert(t[m] == other);
                assert(m == k);
            },
            None => {
                if place(t, other, 0) is Some {
                    let m = place(t, other, 0)->0;
                    assert(s[m] == other || s[n] == other);
                }
            },
        }
    }
}

/// Subscribing and then ending the subscription leaves the services that are
/// listened to, and who listens, as they were.
pub proof fn unsubscribing_undoes_subscribing<T>(
    s: Seq<EPICService>,
    l: Seq<T>,
    svc: EPICService,
    listener: T,
)
    requires
        s.len() == l.len(),
        place(s, svc, 0) is None,
    ensures
        place(s.push(svc), svc, 0) == Some(s.len() as int),
        taken_out(s.push(svc), s.len() as int) == s,
        taken_out(l.push(listener), s.len() as int) == l,
{
    place_is_there(s, svc, 0);
    let t = s.push(svc);
    place_is_there(t, svc, 0);
    assert(t[s.len() as int] == svc);
    assert(taken_out(t, s.len() as int) =~= s);
    assert(taken_out(l.push(listener), s.len() as int) =~= l);
}

/// However often a subscription is ended, and whatever else happens to the core
/// between the calls, its listener is removed once, by the first of them; the
/// others leave the core as it is.
pub proof fn subscription_ends_once<A: AOP>(
    service: EPICService,
    marks: Seq<bool>,
    before: Seq<A>,
    after: Seq<A>,
    i: int,
)
    requires
        0 <= i < before.len(),
        before.len() == after.len(),
        marks.len() == before.len() + 1,
        marks[0],
        forall|k: int|
            #![trigger before[k]]
            0 <= k < before.len() ==> ended(marks[k], service, before[k], marks[k + 1], after[k]),
    ensures
        i == 0 ==> (match place(before[0].listened(), service, 0) {
            Some(at) => after[0].listened() == taken_out(before[0].listened(), at)
                && after[0].listeners() == taken_out(before[0].listeners(), at),
            None => after[0] == before[0],
        }),
        i > 0 ==> after[i] == before[i],
{
    assert(ended(marks[i], service, before[i], marks[i + 1], after[i]));
    if i > 0 {
        let k = i - 1;
        assert(ended(marks[k], service, before[k], marks[k + 1], after[k]));
    }
}

/// Names that differ have different numbers.
pub proof fn fourcc_injective(a: Seq<u8>, b: Seq<u8>)
    requires
        a.len() == 4,
        b.len() == 4,
        fourcc(a) == fourcc(b),
    ensures
        a == b,
{
    assert(a[0] == b[0] && a[1] == b[1] && a[2] == b[2] && a[3] == b[3]);
    assert(a =~= b);
}

/// The first character of a name is the most significant byte of its number, and the
/// fourth the least significant.
pub proof fn characters_are_in_order(a: u8, b: u8, c: u8, d: u8)
    ensures
        fourcc(seq![a, b, c, d]) / 0x100_0000 == a,
        fourcc(seq![a, b, c, d]) / 0x1_0000 % 0x100 == b,
        fourcc(seq![a, b, c, d]) / 0x100 % 0x100 == c,
        fourcc(seq![a, b, c, d]) % 0x100 == d,
        fourcc(seq![0x53u8, 0x50, 0x4d, 0x70]) == 0x5350_4d70,
{
}

} // verus!
