//! How a request of the persistent-state endpoint is carried out: its bytes are
//! awaited and read, the store is asked, and the answer is written and sent.

use vstd::prelude::*;

use crate::xarm::{fail_reply, XarmReply, XarmRequest, OOL_SIZE_XARM, STATUS_FAILED};

verus! {

#[derive(Clone, Copy, Debug, PartialEq, Eq, Structural)]
pub enum Stage {
    Begin,
    Awaiting,
    Reading,
    Serving,
    Writing,
    Over,
}

/// What is to be done next.
#[derive(Debug, PartialEq, Eq)]
pub enum Ask<B = Vec<u8>> {
    /// Wait until that many bytes were written into the outbound buffer.
    Await(usize),
    /// Read that many bytes from it, and tell them.
    Read(usize),
    /// Have the store answer, with these bytes of the request.
    Serve(B),
    /// Write these bytes of the answer into the inbound buffer.
    Write(B),
    /// Send a reply; whether the request counts as serviced.
    Reply(XarmReply, bool),
}

/// What happened.
#[derive(Debug, PartialEq, Eq)]
pub enum Event<B = Vec<u8>> {
    Begin,
    Written(bool),
    /// The bytes that were read, unless that failed.
    Read(Option<B>),
    /// The reply and the bytes that come with it, if there is a store.
    Served(Option<(XarmReply, B)>),
    Put(bool),
}

/// An ask whose bytes are sequences, which contracts speak of.
pub type AskView = Ask<Seq<u8>>;

pub type EventView = Event<Seq<u8>>;

impl View for Ask {
    type V = AskView;

    open spec fn view(&self) -> AskView {
        match self {
            Ask::Await(n) => Ask::Await(*n),
            Ask::Read(n) => Ask::Read(*n),
            Ask::Serve(b) => Ask::Serve(b@),
            Ask::Write(b) => Ask::Write(b@),
            Ask::Reply(r, counts) => Ask::Reply(*r, *counts),
        }
    }
}

impl View for Event {
    type V = EventView;

    open spec fn view(&self) -> EventView {
        match self {
            Event::Begin => Event::Begin,
            Event::Written(ok) => Event::Written(*ok),
            Event::Read(None) => Event::Read(None),
            Event::Read(Some(b)) => Event::Read(Some(b@)),
            Event::Served(None) => Event::Served(None),
            Event::Served(Some((r, b))) => Event::Served(Some((*r, b@))),
            Event::Put(ok) => Event::Put(*ok),
        }
    }
}

/// A request that is being carried out.
#[derive(Clone, Copy, Debug)]
pub struct ServiceXarm {
    pub request: XarmRequest,
    pub stage: Stage,
    pub reply: Option<XarmReply>,
}

pub open spec fn refuse(m: ServiceXarm) -> (ServiceXarm, AskView) {
    (
        ServiceXarm { stage: Stage::Over, ..m },
        Ask::Reply(fail_reply(m.request.tag, STATUS_FAILED), false),
    )
}

pub open spec fn service_step(m: ServiceXarm, e: EventView) -> (ServiceXarm, AskView) {
    let want = m.request.length as usize;
    match (m.stage, e) {
        (Stage::Begin, Event::Begin) => if want > OOL_SIZE_XARM {
            refuse(m)
        } else if want > 0 {
            (ServiceXarm { stage: Stage::Awaiting, ..m }, Ask::Await(want))
        } else {
            (ServiceXarm { stage: Stage::Reading, ..m }, Ask::Read(0))
        },
        (Stage::Awaiting, Event::Written(true)) => (
            ServiceXarm { stage: Stage::Reading, ..m },
            Ask::Read(want),
        ),
        (Stage::Reading, Event::Read(Some(bytes))) => (
            ServiceXarm { stage: Stage::Serving, ..m },
            Ask::Serve(bytes),
        ),
        (Stage::Serving, Event::Served(Some((reply, bytes)))) => if bytes.len() > 0 {
            (ServiceXarm { stage: Stage::Writing, reply: Some(reply), ..m }, Ask::Write(bytes))
        } else {
            (
                ServiceXarm { stage: Stage::Over, reply: Some(reply), ..m },
                Ask::Reply(reply, true),
            )
        },
        (Stage::Writing, Event::Put(true)) => match m.reply {
            Some(reply) => (ServiceXarm { stage: Stage::Over, ..m }, Ask::Reply(reply, true)),
            None => refuse(m),
        },
        _ => refuse(m),
    }
}

impl ServiceXarm {
    pub fn start(request: XarmRequest) -> (m: ServiceXarm)
        ensures
            m == (ServiceXarm { request, stage: Stage::Begin, reply: None }),
    {
        ServiceXarm { request, stage: Stage::Begin, reply: None }
    }

    fn go(&mut self, stage: Stage, ask: Ask) -> (a: Ask)
        ensures
            (*final(self), a@) == (ServiceXarm { stage, ..*old(self) }, ask@),
    {
        self.stage = stage;
        ask
    }

    fn refuse(&mut self) -> (a: Ask)
        ensures
            (*final(self), a@) == refuse(*old(self)),
    {
        let tag: u8 = self.request.tag;
        self.go(Stage::Over, Ask::Reply(XarmReply::fail(tag, STATUS_FAILED), false))
    }

    /// Takes in what happened and says what comes next. Whatever fails, the
    /// request is answered.
    pub fn step(&mut self, e: Event) -> (a: Ask)
        ensures
            (*final(self), a@) == service_step(*old(self), e@),
    {
        let want: usize = self.request.length as usize;
        match (self.stage, e) {
            (Stage::Begin, Event::Begin) => {
                if want > OOL_SIZE_XARM {
                    self.refuse()
                } else if want > 0 {
                    self.go(Stage::Awaiting, Ask::Await(want))
                } else {
                    self.go(Stage::Reading, Ask::Read(0))
                }
            },
            (Stage::Awaiting, Event::Written(ok)) => {
                if ok {
                    self.go(Stage::Reading, Ask::Read(want))
                } else {
                    self.refuse()
                }
            },
            (Stage::Reading, Event::Read(read)) => match read {
                Some(bytes) => self.go(Stage::Serving, Ask::Serve(bytes)),
                None => self.refuse(),
            },
            (Stage::Serving, Event::Served(served)) => match served {
                None => self.refuse(),
                Some((reply, bytes)) => {
                    self.reply = Some(reply);
                    if bytes.len() > 0 {
                        self.go(Stage::Writing, Ask::Write(bytes))
                    } else {
                        self.go(Stage::Over, Ask::Reply(reply, true))
                    }
                },
            },
            (Stage::Writing, Event::Put(ok)) => match self.reply {
                Some(reply) => {
                    if ok {
                        self.go(Stage::Over, Ask::Reply(reply, true))
                    } else {
                        self.refuse()
                    }
                },
                None => self.refuse(),
            },
            _ => self.refuse(),
        }
    }
}

/// Every request is answered once: a step that ends it sends a reply, and a step
/// that does not end it sends none. What was not carried out is answered as
/// failed, and does not count as serviced.
pub proof fn every_request_is_answered(m: ServiceXarm, e: EventView)
    ensures
        service_step(m, e).0.stage is Over <==> service_step(m, e).1 is Reply,
        service_step(m, e).1 matches Ask::Reply(r, false) ==> r == fail_reply(
            m.request.tag,
            STATUS_FAILED,
        ),
        service_step(m, e).1 matches Ask::Reply(r, true) ==> m.stage is Serving || m.stage is Writing,
        service_step(m, e).1 matches Ask::Reply(r, true) ==> m.reply == Some(r) || (e matches
            Event::Served(Some((served, _))) && served == r),
{
}

/// Whether a request that is under way claims no more than the buffers hold.
pub open spec fn in_bounds(m: ServiceXarm) -> bool {
    m.stage is Begin || m.stage is Over || m.request.length <= OOL_SIZE_XARM
}

/// The store is asked with the very bytes that were read, and no more is read
/// than the buffers hold. What is written is what the store gave.
pub proof fn store_is_asked_with_bytes(m: ServiceXarm, e: EventView)
    requires
        in_bounds(m),
    ensures
        in_bounds(service_step(m, e).0),
        service_step(m, e).1 matches Ask::Serve(b) ==> m.stage is Reading && e
            == EventView::Read(Some(b)),
        service_step(m, e).1 matches Ask::Write(b) ==> m.stage is Serving && (e matches
            Event::Served(Some((_, served))) && served == b),
        service_step(m, e).1 matches Ask::Read(n) ==> n == m.request.length && n <= OOL_SIZE_XARM,
{
}

/// The machine after the first `n` of these events.
pub open spec fn service_run(m: ServiceXarm, events: Seq<EventView>, n: int) -> ServiceXarm
    decreases n,
{
    if n <= 0 {
        m
    } else {
        service_step(service_run(m, events, n - 1), events[n - 1]).0
    }
}

/// What is asked for on the event `n`.
pub open spec fn service_asked(m: ServiceXarm, events: Seq<EventView>, n: int) -> AskView {
    service_step(service_run(m, events, n), events[n]).1
}

spec fn service_rank(s: Stage) -> int {
    match s {
        Stage::Begin => 0,
        Stage::Awaiting => 1,
        Stage::Reading => 2,
        Stage::Serving => 3,
        Stage::Writing => 4,
        Stage::Over => 5,
    }
}

/// A whole request: whatever happens, it is answered by the fifth event, and
/// nothing was answered before.
pub proof fn request_is_answered_in_the_end(request: XarmRequest, events: Seq<EventView>)
    requires
        events.len() >= 5,
    ensures
        ({
            let m = ServiceXarm { request, stage: Stage::Begin, reply: None };
            exists|k: int|
                0 <= k < 5 && #[trigger] service_asked(m, events, k) is Reply && forall|j: int|
                    0 <= j < k ==> !(#[trigger] service_asked(m, events, j) is Reply)
        }),
{
    let m = ServiceXarm { request, stage: Stage::Begin, reply: None };
    answer_comes(m, events, 0);
}

proof fn answer_comes(m: ServiceXarm, events: Seq<EventView>, from: int)
    requires
        events.len() >= 5,
        0 <= from < 5,
        from <= service_rank(service_run(m, events, from).stage) < 5,
        forall|j: int| 0 <= j < from ==> !(#[trigger] service_asked(m, events, j) is Reply),
    ensures
        exists|k: int|
            0 <= k < 5 && #[trigger] service_asked(m, events, k) is Reply && forall|j: int|
                0 <= j < k ==> !(#[trigger] service_asked(m, events, j) is Reply),
    decreases 5 - from,
{
    let now = service_run(m, events, from);
    every_request_is_answered(now, events[from]);
    if !(service_asked(m, events, from) is Reply) {
        assert(service_run(m, events, from + 1) == service_step(now, events[from]).0);
        assert(service_rank(now.stage) < service_rank(
            service_run(m, events, from + 1).stage,
        ));
        answer_comes(m, events, from + 1);
    }
}

/// A request with bytes is carried out in this order: as many as it claims are waited for
/// and read, the store is asked with what was read, what it gives is written, and then it
/// is answered.
pub proof fn request_in_order(
    request: XarmRequest,
    asked: Seq<u8>,
    reply: XarmReply,
    given: Seq<u8>,
)
    requires
        0 < request.length <= 0x8000,
        given.len() > 0,
    ensures
        ({
            let m0 = ServiceXarm { request, stage: Stage::Begin, reply: None };
            let (m1, a1) = service_step(m0, Event::Begin);
            let (m2, a2) = service_step(m1, Event::Written(true));
            let (m3, a3) = service_step(m2, Event::Read(Some(asked)));
            let (m4, a4) = service_step(m3, Event::Served(Some((reply, given))));
            let (m5, a5) = service_step(m4, Event::Put(true));
            &&& a1 == AskView::Await(request.length as usize)
            &&& a2 == AskView::Read(request.length as usize)
            &&& a3 == AskView::Serve(asked)
            &&& a4 == AskView::Write(given)
            &&& a5 == AskView::Reply(reply, true)
            &&& service_step(m3, Event::Served(Some((reply, Seq::empty())))).1 == AskView::Reply(
                reply,
                true,
            )
        }),
{
}

/// A request without bytes waits for none, and one that claims more than 0x8000 bytes is
/// refused at once.
pub proof fn requests_without_bytes(request: XarmRequest)
    ensures
        ({
            let m = ServiceXarm { request, stage: Stage::Begin, reply: None };
            let (t, a) = service_step(m, Event::Begin);
            &&& request.length == 0 ==> a == AskView::Read(0) && t.stage is Reading
            &&& request.length > 0x8000 ==> a is Reply && t.stage is Over
            &&& a matches Ask::Reply(r, counts) ==> {
                &&& !counts
                &&& r.tag == request.tag
                &&& r.status == 0x16
                &&& r.length == 0
            }
        }),
{
}

/// Wherever a step fails, the request is answered at once under its own tag with the
/// status 0x16 and nothing more, and does not count as serviced.
pub proof fn failing_request_is_refused(request: XarmRequest, reply: Option<XarmReply>)
    ensures
        ({
            let refused = |stage: Stage, e: EventView|
                service_step(ServiceXarm { request, stage, reply }, e).1 matches Ask::Reply(
                    r,
                    false,
                ) && r.tag == request.tag && r.status == 0x16 && r.length == 0 && r.args.a == 0
                    && r.args.b == 0 && r.args.c == 0;
            &&& refused(Stage::Awaiting, Event::Written(false))
            &&& refused(Stage::Reading, Event::Read(None))
            &&& refused(Stage::Serving, Event::Served(None))
            &&& refused(Stage::Writing, Event::Put(false))
        }),
{
}

} // verus!
