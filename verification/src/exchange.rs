//! One request to the key store and its answer, step by step.
//!
//! The steps that touch the buffers, the mailbox and the clock are done by the
//! caller; what comes next, and what the outcome means, is decided here.

use crate::image::wipe;
use crate::mailbox::Message;
use crate::sks::{
    answers, arrived, decode_sks, first_answer, patience, reply_in, sks_timeout_for, Abandoned,
    Correlator, ProbeView, SksProbe, SksReply, Unasked, Wait, SKS_MAX_SET_ASIDE,
};
use vstd::prelude::*;

verus! {

/// What the caller has to do next.
#[derive(Debug, PartialEq, Eq)]
pub enum Ask<B = Vec<u8>> {
    /// Clear both buffers.
    ClearBuffers,
    /// Write this to the inbound buffer.
    WriteImage(B),
    /// Send this message.
    Send(Message),
    /// Wait until this many messages were caught, or for this long.
    Await { timeout_ms: u32, until: usize },
    /// Read this many bytes of the outbound buffer, and tell them.
    ReadResponse(usize),
    /// The exchange came to nothing.
    Failed,
    /// The exchange is done, with this reply and this response.
    Done(SksReply, B),
}

/// What came of it.
#[derive(Debug, PartialEq, Eq)]
pub enum Event<B = Vec<u8>> {
    /// It could be done, or not.
    Did(bool),
    /// The message could be sent, or not; the time since boot.
    Sent { ok: bool, now_ns: u64 },
    /// The wait is over; the time since boot.
    Awaited { now_ns: u64 },
    /// The bytes that were read, unless that failed.
    Read(Option<B>),
}

#[derive(Clone, Copy, Debug, PartialEq, Eq, Structural)]
pub enum Stage {
    Clearing,
    Writing,
    Sending,
    Waiting,
    /// The message could not be sent; the buffers are being cleared.
    Withdrawing,
    Reading(SksReply),
    Settling(SksReply),
    Over,
}

/// An exchange under way.
#[derive(Debug, PartialEq, Eq)]
pub struct Exchange<B = Vec<u8>> {
    pub stage: Stage,
    pub wait: Correlator,
    pub timeout_ms: u32,
    pub condemn: bool,
    pub started_ns: u64,
    pub message: Message,
    /// The request, until it is written.
    pub image: Option<B>,
    /// What was read.
    pub response: Option<B>,
}

/// An ask whose bytes are sequences, which contracts speak of.
pub type AskView = Ask<Seq<u8>>;

pub type EventView = Event<Seq<u8>>;

pub type ExchangeView = Exchange<Seq<u8>>;

pub open spec fn bytes_in(b: Option<Vec<u8>>) -> Option<Seq<u8>> {
    match b {
        Some(v) => Some(v@),
        None => None,
    }
}

impl View for Ask {
    type V = AskView;

    open spec fn view(&self) -> AskView {
        match self {
            Ask::ClearBuffers => Ask::ClearBuffers,
            Ask::WriteImage(b) => Ask::WriteImage(b@),
            Ask::Send(m) => Ask::Send(*m),
            Ask::Await { timeout_ms, until } => Ask::Await {
                timeout_ms: *timeout_ms,
                until: *until,
            },
            Ask::ReadResponse(n) => Ask::ReadResponse(*n),
            Ask::Failed => Ask::Failed,
            Ask::Done(r, b) => Ask::Done(*r, b@),
        }
    }
}

impl View for Event {
    type V = EventView;

    open spec fn view(&self) -> EventView {
        match self {
            Event::Did(ok) => Event::Did(*ok),
            Event::Sent { ok, now_ns } => Event::Sent { ok: *ok, now_ns: *now_ns },
            Event::Awaited { now_ns } => Event::Awaited { now_ns: *now_ns },
            Event::Read(b) => Event::Read(bytes_in(*b)),
        }
    }
}

impl View for Exchange {
    type V = ExchangeView;

    open spec fn view(&self) -> ExchangeView {
        Exchange {
            stage: self.stage,
            wait: self.wait,
            timeout_ms: self.timeout_ms,
            condemn: self.condemn,
            started_ns: self.started_ns,
            message: self.message,
            image: bytes_in(self.image),
            response: bytes_in(self.response),
        }
    }
}

pub open spec fn waited_ms(now_ns: u64, started_ns: u64) -> u64 {
    if now_ns >= started_ns {
        ((now_ns - started_ns) / 1_000_000) as u64
    } else {
        0
    }
}

/// The exchange comes to nothing, and lets go of what it holds.
pub open spec fn fails(x: ExchangeView) -> ExchangeView {
    Exchange { stage: Stage::Over, image: None, response: None, ..x }
}

/// What follows when the answer is there: read the response, if there is one.
pub open spec fn answered(x: ExchangeView, m: Message) -> (ExchangeView, AskView) {
    let r = reply_in(m.msg0);
    if r.response_size > 0 {
        (Exchange { stage: Stage::Reading(r), ..x }, Ask::ReadResponse(r.response_size as usize))
    } else {
        (Exchange { stage: Stage::Settling(r), ..x }, Ask::ClearBuffers)
    }
}

/// Overwrites bytes that are let go.
fn forget(b: Option<Vec<u8>>) {
    if let Some(v) = b {
        let mut v = v;
        wipe(&mut v);
    }
}

impl Exchange {
    /// As long as an answer is looked for, there is room to go on. The request is
    /// held until it is written, and a response once it was read.
    pub open spec fn wf(self) -> bool {
        &&& match self.stage {
            Stage::Clearing | Stage::Writing | Stage::Sending | Stage::Waiting => {
                &&& self.wait.set_aside == self.wait.examined
                &&& self.wait.set_aside < SKS_MAX_SET_ASIDE
            },
            _ => true,
        }
        &&& self.image is Some <==> self.stage is Clearing
        &&& self.response is Some ==> self.stage is Settling
    }

    /// Starts an exchange of this message and this image. It is refused while the
    /// buffers are not registered or the endpoint is wedged.
    pub fn start(
        probe: &SksProbe,
        registered: bool,
        msg: &Message,
        image: Vec<u8>,
        floor_ms: u32,
        condemn: bool,
    ) -> (r: (Exchange, Ask))
        ensures
            r.0.wf(),
            r.0.wait == (Correlator {
                selector: reply_in(msg.msg0).selector,
                seq: reply_in(msg.msg0).seq,
                examined: 0,
                set_aside: 0,
            }),
            r.0.message == *msg,
            r.0.condemn == condemn,
            r.0.timeout_ms == if patience(image@.len() as int) < floor_ms {
                floor_ms as int
            } else {
                patience(image@.len() as int)
            },
            r.0.response is None,
            if registered && !probe@.wedged {
                r.1@ == AskView::ClearBuffers && r.0.stage == Stage::Clearing && r.0@.image == Some(
                    image@,
                )
            } else {
                r.1@ == AskView::Failed && r.0.stage == Stage::Over && r.0.image is None
            },
    {
        let sized: u32 = sks_timeout_for(image.len());
        let timeout_ms: u32 = if sized < floor_ms {
            floor_ms
        } else {
            sized
        };
        let wait = Correlator::new(msg);
        if !probe.may_send(registered) {
            forget(Some(image));
            return (
                Exchange {
                    stage: Stage::Over,
                    wait,
                    timeout_ms,
                    condemn,
                    started_ns: 0,
                    message: *msg,
                    image: None,
                    response: None,
                },
                Ask::Failed,
            );
        }
        (
            Exchange {
                stage: Stage::Clearing,
                wait,
                timeout_ms,
                condemn,
                started_ns: 0,
                message: *msg,
                image: Some(image),
                response: None,
            },
            Ask::ClearBuffers,
        )
    }

    fn go(&mut self, stage: Stage, ask: Ask) -> (r: Ask)
        ensures
            r == ask,
            *final(self) == (Exchange { stage, ..*old(self) }),
    {
        self.stage = stage;
        ask
    }

    fn settle(&mut self, m: Message) -> (r: Ask)
        ensures
            (final(self)@, r@) == answered(old(self)@, m),
    {
        let reply = decode_sks(&m);
        if reply.response_size > 0 {
            self.go(Stage::Reading(reply), Ask::ReadResponse(reply.response_size as usize))
        } else {
            self.go(Stage::Settling(reply), Ask::ClearBuffers)
        }
    }

    fn fail(&mut self) -> (r: Ask)
        ensures
            (final(self)@, r@) == (fails(old(self)@), AskView::Failed),
    {
        forget(self.image.take());
        forget(self.response.take());
        self.go(Stage::Over, Ask::Failed)
    }

    /// Takes a look at what was caught.
    fn look(&mut self, probe: &mut SksProbe, now_ns: u64) -> (ask: Ask)
        requires
            old(self).wf(),
            old(self).stage is Waiting,
            old(probe).wf(),
        ensures
            final(probe).wf(),
            final(self).wf(),
            steps(
                old(self)@,
                old(probe)@,
                Event::Awaited { now_ns },
                final(self)@,
                final(probe)@,
                ask@,
            ),
    {
        let candidate = probe.caught(self.wait.examined);
        let mut wait = self.wait;
        let w = wait.next(candidate);
        self.wait = wait;
        match w {
            Wait::Found(m) => {
                let _ = probe.disarm();
                self.settle(m)
            },
            Wait::More => Ask::Await {
                timeout_ms: self.timeout_ms,
                until: self.wait.examined + 1,
            },
            Wait::Over => {
                let leftover = probe.disarm();
                match self.wait.last_look(&leftover) {
                    Some(m) => self.settle(m),
                    None => {
                        let waited: u64 = if now_ns >= self.started_ns {
                            (now_ns - self.started_ns) / 1_000_000
                        } else {
                            0
                        };
                        probe.note_abandoned(
                            Abandoned {
                                selector: self.wait.selector,
                                seq: self.wait.seq,
                                waited_ms: waited,
                            },
                            self.condemn,
                        );
                        self.fail()
                    },
                }
            },
        }
    }

    /// Goes on after a step. An event that does not belong to the stage ends the
    /// exchange.
    pub fn step(&mut self, probe: &mut SksProbe, event: Event) -> (ask: Ask)
        requires
            old(self).wf(),
            old(probe).wf(),
        ensures
            final(probe).wf(),
            final(self).wf(),
            steps(old(self)@, old(probe)@, event@, final(self)@, final(probe)@, ask@),
    {
        match (self.stage, event) {
            (Stage::Clearing, Event::Did(true)) => match self.image.take() {
                Some(image) => self.go(Stage::Writing, Ask::WriteImage(image)),
                None => self.fail(),
            },
            (Stage::Writing, Event::Did(true)) => {
                probe.arm();
                let message = self.message;
                self.go(Stage::Sending, Ask::Send(message))
            },
            (Stage::Sending, Event::Sent { ok, now_ns }) => {
                if !ok {
                    let _ = probe.disarm();
                    return self.go(Stage::Withdrawing, Ask::ClearBuffers);
                }
                self.started_ns = now_ns;
                let ask = Ask::Await { timeout_ms: self.timeout_ms, until: 1 };
                self.go(Stage::Waiting, ask)
            },
            (Stage::Waiting, Event::Awaited { now_ns }) => self.look(probe, now_ns),
            (Stage::Reading(reply), Event::Read(bytes)) => {
                self.response = bytes;
                self.go(Stage::Settling(reply), Ask::ClearBuffers)
            },
            (Stage::Settling(reply), Event::Did(_)) => {
                let response = match self.response.take() {
                    Some(bytes) => bytes,
                    None => Vec::new(),
                };
                self.go(Stage::Over, Ask::Done(reply, response))
            },
            (_, e) => {
                if let Event::Read(bytes) = e {
                    forget(bytes);
                }
                self.fail()
            },
        }
    }
}

/// What the end of the wait leaves behind when no answer came.
pub open spec fn given_up(p: ProbeView, x: ExchangeView, now_ns: u64) -> ProbeView {
    ProbeView {
        active: false,
        captured: Seq::empty(),
        abandoned: p.abandoned.update(
            p.abandoned_next,
            Some(
                Abandoned {
                    selector: x.wait.selector,
                    seq: x.wait.seq,
                    waited_ms: waited_ms(now_ns, x.started_ns),
                },
            ),
        ),
        abandoned_next: (p.abandoned_next + 1) % 8,
        wedged: p.wedged || x.condemn,
    }
}

pub open spec fn disarmed(p: ProbeView) -> ProbeView {
    ProbeView { active: false, captured: Seq::empty(), ..p }
}

/// How an exchange goes on from `x` to `x2`.
pub open spec fn steps(
    x: ExchangeView,
    p: ProbeView,
    event: EventView,
    x2: ExchangeView,
    p2: ProbeView,
    ask: AskView,
) -> bool {
    match (x.stage, event) {
        (Stage::Clearing, Event::Did(true)) => match x.image {
            Some(image) => ask == AskView::WriteImage(image) && p2 == p && x2 == (Exchange {
                stage: Stage::Writing,
                image: None,
                ..x
            }),
            None => ask == AskView::Failed && p2 == p && x2 == fails(x),
        },
        (Stage::Writing, Event::Did(true)) => ask == AskView::Send(x.message) && p2 == (ProbeView {
            active: true,
            captured: Seq::empty(),
            ..p
        }) && x2 == (Exchange { stage: Stage::Sending, ..x }),
        (Stage::Sending, Event::Sent { ok: true, now_ns }) => ask == (AskView::Await {
            timeout_ms: x.timeout_ms,
            until: 1,
        }) && p2 == p && x2 == (Exchange { stage: Stage::Waiting, started_ns: now_ns, ..x }),
        (Stage::Sending, Event::Sent { ok: false, now_ns }) => ask == AskView::ClearBuffers && p2
            == disarmed(p) && x2 == (Exchange { stage: Stage::Withdrawing, ..x }),
        (Stage::Waiting, Event::Awaited { now_ns }) => {
            let n = x.wait.examined as int;
            if n < p.captured.len() && answers(p.captured[n], x.wait.selector, x.wait.seq) {
                let seen = Correlator { examined: (n + 1) as usize, ..x.wait };
                &&& p2 == disarmed(p)
                &&& (x2, ask) == answered(Exchange { wait: seen, ..x }, p.captured[n])
            } else if n < p.captured.len() && n + 1 < SKS_MAX_SET_ASIDE {
                &&& p2 == p
                &&& x2 == (Exchange {
                    wait: Correlator {
                        examined: (n + 1) as usize,
                        set_aside: (n + 1) as u32,
                        ..x.wait
                    },
                    ..x
                })
                &&& ask == (AskView::Await { timeout_ms: x.timeout_ms, until: (n + 2) as usize })
            } else {
                let from = if n < p.captured.len() {
                    n + 1
                } else {
                    n
                };
                let seen = Correlator {
                    examined: from as usize,
                    set_aside: from as u32,
                    ..x.wait
                };
                match first_answer(p.captured, x.wait.selector, x.wait.seq, from) {
                    Some(m) => p2 == disarmed(p) && (x2, ask) == answered(
                        Exchange { wait: seen, ..x },
                        m,
                    ),
                    None => p2 == given_up(p, x, now_ns) && ask == AskView::Failed && x2 == fails(
                        Exchange { wait: seen, ..x },
                    ),
                }
            }
        },
        (Stage::Reading(reply), Event::Read(bytes)) => ask == AskView::ClearBuffers && p2 == p && x2
            == (Exchange { stage: Stage::Settling(reply), response: bytes, ..x }),
        (Stage::Settling(reply), Event::Did(_)) => ask == AskView::Done(
            reply,
            match x.response {
                Some(b) => b,
                None => Seq::empty(),
            },
        ) && p2 == p && x2 == (Exchange { stage: Stage::Over, response: None, ..x }),
        _ => ask == AskView::Failed && p2 == p && x2 == fails(x),
    }
}

/// Secrets do not stay in the buffers: an exchange that is done, and one whose
/// message could not be sent, has the buffers cleared right before it ends.
pub proof fn buffers_are_cleared_before_the_end(
    x: ExchangeView,
    p: ProbeView,
    event: EventView,
    x2: ExchangeView,
    p2: ProbeView,
    ask: AskView,
)
    requires
        steps(x, p, event, x2, p2, ask),
    ensures
        ask is Done ==> x.stage is Settling,
        x2.stage is Settling ==> ask == AskView::ClearBuffers,
        x2.stage is Withdrawing ==> ask == AskView::ClearBuffers,
{
}

/// After a request was given up and the endpoint condemned, the next exchange
/// is refused. The late answer to that very request lifts the condemnation.
pub proof fn late_answer_lifts_the_wedge(p: ProbeView, x: ExchangeView, now_ns: u64, late: Message)
    requires
        p.abandoned.len() == 8,
        0 <= p.abandoned_next < 8,
        x.condemn,
        answers(late, x.wait.selector, x.wait.seq),
    ensures
        given_up(p, x, now_ns).wedged,
        arrived(given_up(p, x, now_ns), late) == (
            ProbeView { wedged: false, ..given_up(p, x, now_ns) },
            Unasked::Late,
        ),
{
    let after = given_up(p, x, now_ns);
    assert(after.abandoned[p.abandoned_next] is Some);
    assert(after.was_abandoned(late));
}

/// Whether these are the states and the asks of a run of an exchange.
pub open spec fn is_run(
    xs: Seq<ExchangeView>,
    ps: Seq<ProbeView>,
    events: Seq<EventView>,
    asks: Seq<AskView>,
) -> bool {
    &&& xs.len() == events.len() + 1
    &&& ps.len() == events.len() + 1
    &&& asks.len() == events.len()
    &&& forall|i: int|
        #![trigger events[i]]
        0 <= i < events.len() ==> steps(xs[i], ps[i], events[i], xs[i + 1], ps[i + 1], asks[i])
}

/// Over a whole exchange: one that is done had its buffers cleared in the step
/// before, and its message sent before that.
pub proof fn done_exchange_has_cleared(
    xs: Seq<ExchangeView>,
    ps: Seq<ProbeView>,
    events: Seq<EventView>,
    asks: Seq<AskView>,
    n: int,
)
    requires
        is_run(xs, ps, events, asks),
        xs[0].stage is Clearing,
        0 <= n < events.len(),
        asks[n] is Done,
    ensures
        n >= 1,
        asks[n - 1] == AskView::ClearBuffers,
        exists|k: int| 0 <= k < n && #[trigger] asks[k] is Send,
{
    assert(steps(xs[n], ps[n], events[n], xs[n + 1], ps[n + 1], asks[n]));
    let k = n - 1;
    assert(steps(xs[k], ps[k], events[k], xs[k + 1], ps[k + 1], asks[k]));
    late_stage_was_sent(xs, ps, events, asks, n);
}

/// A stage behind the sending is reached only through it.
proof fn late_stage_was_sent(
    xs: Seq<ExchangeView>,
    ps: Seq<ProbeView>,
    events: Seq<EventView>,
    asks: Seq<AskView>,
    n: int,
)
    requires
        is_run(xs, ps, events, asks),
        xs[0].stage is Clearing,
        0 <= n < xs.len(),
        !(xs[n].stage is Clearing) && !(xs[n].stage is Writing) && !(xs[n].stage is Over),
    ensures
        exists|k: int| 0 <= k < n && #[trigger] asks[k] is Send,
    decreases n,
{
    let k = n - 1;
    assert(steps(xs[k], ps[k], events[k], xs[k + 1], ps[k + 1], asks[k]));
    if !(asks[k] is Send) {
        late_stage_was_sent(xs, ps, events, asks, k);
    }
}

proof fn kept_over_a_run(
    xs: Seq<ExchangeView>,
    ps: Seq<ProbeView>,
    events: Seq<EventView>,
    asks: Seq<AskView>,
    n: int,
)
    requires
        is_run(xs, ps, events, asks),
        xs[0].stage is Clearing,
        xs[0].response is None,
        0 <= n < xs.len(),
    ensures
        xs[n].message == xs[0].message,
        xs[n].stage is Clearing ==> n == 0,
        xs[n].response is Some ==> xs[n].stage is Settling,
    decreases n,
{
    if n > 0 {
        let k = n - 1;
        kept_over_a_run(xs, ps, events, asks, k);
        assert(steps(xs[k], ps[k], events[k], xs[k + 1], ps[k + 1], asks[k]));
    }
}

/// Over a whole exchange: what is written is the image that it was started with,
/// and what is sent is its message. The response that it ends with is what was
/// read in the step before the last; where nothing was read it is empty.
pub proof fn exchange_carries_its_bytes(
    xs: Seq<ExchangeView>,
    ps: Seq<ProbeView>,
    events: Seq<EventView>,
    asks: Seq<AskView>,
    n: int,
)
    requires
        is_run(xs, ps, events, asks),
        xs[0].stage is Clearing,
        xs[0].response is None,
        0 <= n < events.len(),
    ensures
        asks[n] matches Ask::WriteImage(b) ==> n == 0 && xs[0].image == Some(b),
        asks[n] matches Ask::Send(m) ==> m == xs[0].message,
        asks[n] matches Ask::Done(_, b) ==> n >= 1 && b == (match events[n - 1] {
            Event::Read(Some(read)) => read,
            _ => Seq::empty(),
        }),
{
    assert(steps(xs[n], ps[n], events[n], xs[n + 1], ps[n + 1], asks[n]));
    kept_over_a_run(xs, ps, events, asks, n);
    if n > 0 {
        let k = n - 1;
        kept_over_a_run(xs, ps, events, asks, k);
        assert(steps(xs[k], ps[k], events[k], xs[k + 1], ps[k + 1], asks[k]));
    }
}

/// An exchange asks for its steps in this order: the buffers are cleared, the image is
/// written, the message is sent while answers are caught, an answer is waited for as
/// long as the exchange allows, the response is read where one is announced, the buffers
/// are cleared, and the exchange is done with the reply and what was read.
pub proof fn exchange_in_order(
    x0: ExchangeView,
    p0: ProbeView,
    now: u64,
    m: Message,
    bytes: Seq<u8>,
    xs: Seq<ExchangeView>,
    ps: Seq<ProbeView>,
    asks: Seq<AskView>,
    cleared: bool,
)
    requires
        x0.stage is Clearing,
        x0.image is Some,
        x0.wait.examined == 0,
        xs.len() == 6,
        ps.len() == 6,
        asks.len() == 6,
        steps(x0, p0, Event::Did(true), xs[0], ps[0], asks[0]),
        steps(xs[0], ps[0], Event::Did(true), xs[1], ps[1], asks[1]),
        steps(xs[1], ps[1], Event::Sent { ok: true, now_ns: now }, xs[2], ps[2], asks[2]),
        answers(m, x0.wait.selector, x0.wait.seq),
        reply_in(m.msg0).response_size > 0,
        steps(
            xs[2],
            ProbeView { captured: seq![m], ..ps[2] },
            Event::Awaited { now_ns: now },
            xs[3],
            ps[3],
            asks[3],
        ),
        steps(xs[3], ps[3], Event::Read(Some(bytes)), xs[4], ps[4], asks[4]),
        steps(xs[4], ps[4], Event::Did(cleared), xs[5], ps[5], asks[5]),
    ensures
        asks[0] == AskView::WriteImage(x0.image->0),
        asks[1] == AskView::Send(x0.message),
        ps[1].active,
        ps[1].captured.len() == 0,
        asks[2] == (AskView::Await { timeout_ms: x0.timeout_ms, until: 1 }),
        asks[3] == AskView::ReadResponse(reply_in(m.msg0).response_size as usize),
        !ps[3].active,
        asks[4] == AskView::ClearBuffers,
        asks[5] == AskView::Done(reply_in(m.msg0), bytes),
{
}

/// A wait for an answer that has come to a message which is none goes on for one more;
/// at the sixteenth, and where the time is up, what was caught is looked through once
/// more, and then the request is given up.
pub proof fn wait_goes_on(
    x: ExchangeView,
    p: ProbeView,
    now: u64,
    x2: ExchangeView,
    p2: ProbeView,
    ask: AskView,
)
    requires
        x.stage is Waiting,
        steps(x, p, Event::Awaited { now_ns: now }, x2, p2, ask),
        forall|i: int|
            0 <= i < p.captured.len() ==> !answers(
                #[trigger] p.captured[i],
                x.wait.selector,
                x.wait.seq,
            ),
        p.captured.len() <= 8,
    ensures
        x.wait.examined < p.captured.len() ==> ask == (AskView::Await {
            timeout_ms: x.timeout_ms,
            until: (x.wait.examined + 2) as usize,
        }) && p2 == p && x2.wait.examined == x.wait.examined + 1 && x2.stage is Waiting,
        x.wait.examined >= p.captured.len() ==> ask == AskView::Failed && !p2.active && (x.condemn
            ==> p2.wedged),
{
    if x.wait.examined >= p.captured.len() {
        assert(first_answer(p.captured, x.wait.selector, x.wait.seq, x.wait.examined as int)
            is None);
    }
}

/// A message that cannot be sent is withdrawn: nothing is caught any more, the buffers
/// are cleared, and the exchange has failed.
pub proof fn unsent_message_is_withdrawn(
    x: ExchangeView,
    p: ProbeView,
    now: u64,
    x2: ExchangeView,
    p2: ProbeView,
    ask: AskView,
    x3: ExchangeView,
    p3: ProbeView,
    ask3: AskView,
    did: bool,
)
    requires
        x.stage is Sending,
        steps(x, p, Event::Sent { ok: false, now_ns: now }, x2, p2, ask),
        steps(x2, p2, Event::Did(did), x3, p3, ask3),
    ensures
        ask == AskView::ClearBuffers,
        !p2.active,
        p2.wedged == p.wedged,
        ask3 == AskView::Failed,
{
}

/// Buffers that cannot be cleared, or an image that cannot be written, fail the exchange,
/// and nothing is sent.
pub proof fn failed_step_fails_the_exchange(
    x: ExchangeView,
    p: ProbeView,
    x2: ExchangeView,
    p2: ProbeView,
    ask: AskView,
)
    requires
        x.stage is Clearing || x.stage is Writing,
        steps(x, p, Event::Did(false), x2, p2, ask),
    ensures
        ask == AskView::Failed,
        p2 == p,
        x2.stage is Over,
        x2.image is None,
{
}

/// A request that is given up is remembered with its selector, its sequence number and
/// the milliseconds that it was waited for.
pub proof fn given_up_is_remembered(p: ProbeView, x: ExchangeView, started: u64, ms: u64)
    requires
        p.abandoned.len() == 8,
        0 <= p.abandoned_next < 8,
        x.started_ns == started,
        started + 1_000_000 * ms <= u64::MAX,
    ensures
        given_up(p, x, (started + 1_000_000 * ms) as u64).abandoned[p.abandoned_next] == Some(
            Abandoned { selector: x.wait.selector, seq: x.wait.seq, waited_ms: ms },
        ),
        given_up(p, x, started).wedged == (p.wedged || x.condemn),
{
}

} // verus!
