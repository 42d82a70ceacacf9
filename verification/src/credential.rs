//! The credential that an enrolment needs and the context that matching needs:
//! a conversation with the credential endpoint, with the key store in between.

use crate::bytes::{array_at, copy_of, read_u32, u32_at};
use crate::image::wipe;
use crate::mailbox::Message;
use crate::proto::EP_SCRD;
use crate::sbio::UserId;
use crate::scrd::{
    answers, decode_scrd_reply, encode_scrd, first_answer, reply_in, ScrdProbe, ScrdReply, SCRD_ACM_HANDLE_LEN,
    SCRD_MAX_CAPTURE,
};
use crate::sks::{DesignateUser, SpecialHandle, SKS_DESIGNATE_USER_MIN};
use vstd::prelude::*;

verus! {

pub const SCRD_TIMEOUT_MS: u32 = 2000;

// ---------------------------------------------------------------------------
// Finding the answer.
// ---------------------------------------------------------------------------
/// How the search for the answer stands.
#[derive(Clone, Copy, Debug, PartialEq, Eq, Structural)]
pub enum Search {
    /// Wait for one more message.
    Wait,
    Found(Message),
    /// Stop waiting and look at what is left.
    Stop,
}

/// The search for the answer to a request among what is caught, in the order in
/// which it is caught.
#[derive(Clone, Copy, Debug, PartialEq, Eq, Structural)]
pub struct Correlate {
    pub request: u8,
    pub examined: usize,
}

impl Correlate {
    pub open spec fn wf(self) -> bool {
        self.examined < SCRD_MAX_CAPTURE
    }

    pub fn start(request: u8) -> (c: Correlate)
        ensures
            c == (Correlate { request, examined: 0 }),
            c.wf(),
    {
        Correlate { request, examined: 0 }
    }

    /// Looks at the next message, if one came before the time was up.
    pub fn next(&mut self, candidate: Option<Message>) -> (s: Search)
        requires
            old(self).wf(),
        ensures
            match candidate {
                None => s == Search::Stop && *final(self) == *old(self),
                Some(m) => {
                    &&& *final(self) == (Correlate {
                        examined: (old(self).examined + 1) as usize,
                        ..*old(self)
                    })
                    &&& s == (if answers(m, old(self).request) {
                        Search::Found(m)
                    } else if old(self).examined + 1 >= SCRD_MAX_CAPTURE {
                        Search::Stop
                    } else {
                        Search::Wait
                    })
                },
            },
            s == Search::Wait ==> final(self).wf(),
    {
        match candidate {
            None => Search::Stop,
            Some(m) => {
                self.examined = self.examined + 1;
                if decode_scrd_reply(&m).request == self.request {
                    Search::Found(m)
                } else if self.examined >= SCRD_MAX_CAPTURE {
                    Search::Stop
                } else {
                    Search::Wait
                }
            },
        }
    }

    /// Looks at what was caught and not looked at.
    pub fn last_look(&self, caught: &Vec<Message>) -> (r: Option<Message>)
        ensures
            r == first_answer(caught@, self.request, self.examined as int),
    {
        let mut i: usize = self.examined;
        while i < caught.len()
            invariant
                self.examined <= i,
                first_answer(caught@, self.request, self.examined as int) == first_answer(
                    caught@,
                    self.request,
                    i as int,
                ),
            decreases caught.len() - i,
        {
            if decode_scrd_reply(&caught[i]).request == self.request {
                return Some(caught[i]);
            }
            i = i + 1;
        }
        None
    }
}

/// The search finds the first message that answers: passing over messages that
/// do not loses nothing.
pub proof fn search_finds_first(msgs: Seq<Message>, request: u8, examined: int)
    requires
        0 <= examined <= msgs.len(),
        forall|i: int| 0 <= i < examined ==> !answers(#[trigger] msgs[i], request),
    ensures
        first_answer(msgs, request, 0) == first_answer(msgs, request, examined),
    decreases examined,
{
    if examined > 0 {
        search_finds_first(msgs, request, examined - 1);
        assert(!answers(msgs[examined - 1], request));
    }
}

// ---------------------------------------------------------------------------
// One command and its answer.
// ---------------------------------------------------------------------------
#[derive(Clone, Copy, Debug, PartialEq, Eq, Structural)]
pub enum TransactStage {
    Clearing,
    Writing,
    Sending,
    Waiting,
    Reading(ScrdReply),
    Over,
}

#[derive(Debug, PartialEq, Eq)]
pub enum TransactAsk<B = Vec<u8>> {
    /// Clear both buffers.
    ClearBuffers,
    /// Write this to the inbound buffer.
    WritePayload(B),
    /// Send this message.
    Send(Message),
    /// Wait until this many messages were caught, or until the time is up.
    Await(usize),
    /// Read this many bytes of the outbound buffer, and tell them.
    ReadResponse(usize),
    Failed,
    /// Done, with this reply and this response.
    Done(ScrdReply, B),
}

#[derive(Debug, PartialEq, Eq)]
pub enum TransactEvent<B = Vec<u8>> {
    Did(bool),
    Awaited,
    /// The bytes that were read, unless that failed.
    Read(Option<B>),
}

/// One command to the credential endpoint.
#[derive(Debug, PartialEq, Eq)]
pub struct Transact<B = Vec<u8>> {
    pub stage: TransactStage,
    pub wait: Correlate,
    pub message: Message,
    /// What the command carries, until it is written.
    pub payload: Option<B>,
}

/// An ask whose bytes are sequences, which contracts speak of.
pub type TransactAskView = TransactAsk<Seq<u8>>;

pub type TransactEventView = TransactEvent<Seq<u8>>;

pub type TransactView = Transact<Seq<u8>>;

impl View for TransactAsk {
    type V = TransactAskView;

    open spec fn view(&self) -> TransactAskView {
        match self {
            TransactAsk::ClearBuffers => TransactAsk::ClearBuffers,
            TransactAsk::WritePayload(b) => TransactAsk::WritePayload(b@),
            TransactAsk::Send(m) => TransactAsk::Send(*m),
            TransactAsk::Await(n) => TransactAsk::Await(*n),
            TransactAsk::ReadResponse(n) => TransactAsk::ReadResponse(*n),
            TransactAsk::Failed => TransactAsk::Failed,
            TransactAsk::Done(r, b) => TransactAsk::Done(*r, b@),
        }
    }
}

impl View for TransactEvent {
    type V = TransactEventView;

    open spec fn view(&self) -> TransactEventView {
        match self {
            TransactEvent::Did(ok) => TransactEvent::Did(*ok),
            TransactEvent::Awaited => TransactEvent::Awaited,
            TransactEvent::Read(None) => TransactEvent::Read(None),
            TransactEvent::Read(Some(b)) => TransactEvent::Read(Some(b@)),
        }
    }
}

impl View for Transact {
    type V = TransactView;

    open spec fn view(&self) -> TransactView {
        Transact {
            stage: self.stage,
            wait: self.wait,
            message: self.message,
            payload: match self.payload {
                Some(b) => Some(b@),
                None => None,
            },
        }
    }
}

/// What is caught: whether anything is, and what was.
#[verifier::ext_equal]
pub struct Catch {
    pub armed: bool,
    pub caught: Seq<Message>,
}

pub open spec fn catch_of(p: ScrdProbe) -> Catch {
    Catch { armed: p.armed(), caught: p@ }
}

pub open spec fn nothing_caught(armed: bool) -> Catch {
    Catch { armed, caught: Seq::empty() }
}

pub open spec fn transact_at(m: TransactView, stage: TransactStage) -> TransactView {
    Transact { stage, ..m }
}

/// The answer is there: its response is read, if it has one.
pub open spec fn transact_answered(m: TransactView, answer: Message) -> (TransactView, TransactAskView) {
    let r = reply_in(answer.msg0);
    if r.response_size > 0 {
        (
            transact_at(m, TransactStage::Reading(r)),
            TransactAsk::ReadResponse(r.response_size as usize),
        )
    } else {
        (transact_at(m, TransactStage::Over), TransactAsk::Done(r, Seq::empty()))
    }
}

/// What the wait gave: the next message answers, or another is waited for, or
/// what was caught is looked through one last time.
pub open spec fn transact_looks(m: TransactView, c: Catch) -> (TransactView, Catch, TransactAskView) {
    let n = m.wait.examined as int;
    let seen = Transact {
        wait: Correlate { examined: (n + 1) as usize, ..m.wait },
        ..m
    };
    if n < c.caught.len() && answers(c.caught[n], m.wait.request) {
        let (m2, ask) = transact_answered(seen, c.caught[n]);
        (m2, nothing_caught(false), ask)
    } else if n < c.caught.len() && n + 1 < SCRD_MAX_CAPTURE {
        (seen, c, TransactAsk::Await((n + 2) as usize))
    } else {
        let last = if n < c.caught.len() {
            seen
        } else {
            m
        };
        match first_answer(c.caught, m.wait.request, last.wait.examined as int) {
            Some(answer) => {
                let (m2, ask) = transact_answered(last, answer);
                (m2, nothing_caught(false), ask)
            },
            None => (
                transact_at(last, TransactStage::Over),
                nothing_caught(false),
                TransactAsk::Failed,
            ),
        }
    }
}

pub open spec fn transact_step(m: TransactView, c: Catch, e: TransactEventView) -> (
    TransactView,
    Catch,
    TransactAskView,
) {
    let send = (
        transact_at(m, TransactStage::Sending),
        nothing_caught(true),
        TransactAsk::Send(m.message),
    );
    match (m.stage, e) {
        (TransactStage::Clearing, TransactEvent::Did(true)) => match m.payload {
            Some(b) => (
                Transact { stage: TransactStage::Writing, payload: None, ..m },
                c,
                TransactAsk::WritePayload(b),
            ),
            None => send,
        },
        (TransactStage::Writing, TransactEvent::Did(true)) => send,
        (TransactStage::Sending, TransactEvent::Did(true)) => (
            transact_at(m, TransactStage::Waiting),
            c,
            TransactAsk::Await(1),
        ),
        (TransactStage::Sending, TransactEvent::Did(false)) => (
            transact_at(m, TransactStage::Over),
            nothing_caught(false),
            TransactAsk::Failed,
        ),
        (TransactStage::Waiting, TransactEvent::Awaited) => transact_looks(m, c),
        (TransactStage::Reading(r), TransactEvent::Read(bytes)) => (
            transact_at(m, TransactStage::Over),
            c,
            TransactAsk::Done(
                r,
                match bytes {
                    Some(b) => b,
                    None => Seq::empty(),
                },
            ),
        ),
        _ => (transact_at(m, TransactStage::Over), c, TransactAsk::Failed),
    }
}

impl<B> Transact<B> {
    /// As long as an answer is looked for, there is room to go on.
    pub open spec fn wf(self) -> bool {
        match self.stage {
            TransactStage::Reading(_) | TransactStage::Over => true,
            _ => self.wait.wf(),
        }
    }
}

impl Transact {
    /// Starts with a command of this number that carries these bytes, if the
    /// buffers are registered.
    pub fn start(registered: bool, request: u8, payload: &[u8]) -> (r: (Transact, TransactAsk))
        ensures
            r.0.wf(),
            r.0.wait == (Correlate { request, examined: 0 }),
            r.0.message.msg1 == 0,
            r.0.message.msg0 == EP_SCRD + 0x100 * request + 0x1_0000 * (payload@.len() % 0x1_0000),
            r.0@.payload == (if payload@.len() > 0 {
                Some(payload@)
            } else {
                None
            }),
            if registered {
                r.0.stage == TransactStage::Clearing && r.1@ == TransactAskView::ClearBuffers
            } else {
                r.0.stage == TransactStage::Over && r.1@ == TransactAskView::Failed
            },
    {
        let wait = Correlate::start(request);
        let message = encode_scrd(request, payload.len());
        let payload: Option<Vec<u8>> = if payload.len() > 0 {
            Some(copy_of(payload))
        } else {
            None
        };
        if registered {
            (
                Transact { stage: TransactStage::Clearing, wait, message, payload },
                TransactAsk::ClearBuffers,
            )
        } else {
            (Transact { stage: TransactStage::Over, wait, message, payload }, TransactAsk::Failed)
        }
    }

    fn go(&mut self, stage: TransactStage, ask: TransactAsk) -> (r: TransactAsk)
        ensures
            r == ask,
            *final(self) == (Transact { stage, ..*old(self) }),
    {
        self.stage = stage;
        ask
    }

    fn settle(&mut self, answer: Message) -> (r: TransactAsk)
        ensures
            (final(self)@, r@) == transact_answered(old(self)@, answer),
    {
        let reply = decode_scrd_reply(&answer);
        if reply.response_size > 0 {
            self.go(
                TransactStage::Reading(reply),
                TransactAsk::ReadResponse(reply.response_size as usize),
            )
        } else {
            self.go(TransactStage::Over, TransactAsk::Done(reply, Vec::new()))
        }
    }

    fn send(&mut self, probe: &mut ScrdProbe) -> (r: TransactAsk)
        ensures
            r@ == TransactAskView::Send(old(self).message),
            final(self)@ == transact_at(old(self)@, TransactStage::Sending),
            catch_of(*final(probe)) == nothing_caught(true),
    {
        probe.arm();
        let message = self.message;
        self.go(TransactStage::Sending, TransactAsk::Send(message))
    }

    fn look(&mut self, probe: &mut ScrdProbe) -> (r: TransactAsk)
        requires
            old(self).stage == TransactStage::Waiting,
            old(self).wf(),
        ensures
            final(self).wf(),
            (final(self)@, catch_of(*final(probe)), r@) == transact_looks(
                old(self)@,
                catch_of(*old(probe)),
            ),
    {
        let candidate = probe.examine(self.wait.examined);
        let mut wait = self.wait;
        let found = wait.next(candidate);
        self.wait = wait;
        match found {
            Search::Found(m) => {
                let _ = probe.disarm();
                self.settle(m)
            },
            Search::Wait => TransactAsk::Await(self.wait.examined + 1),
            Search::Stop => {
                let leftover = probe.disarm();
                match self.wait.last_look(&leftover) {
                    Some(m) => self.settle(m),
                    None => self.go(TransactStage::Over, TransactAsk::Failed),
                }
            },
        }
    }

    /// Goes on after a step. An event that does not belong to the stage ends it.
    pub fn step(&mut self, probe: &mut ScrdProbe, e: TransactEvent) -> (ask: TransactAsk)
        requires
            old(self).wf(),
        ensures
            final(self).wf(),
            (final(self)@, catch_of(*final(probe)), ask@) == transact_step(
                old(self)@,
                catch_of(*old(probe)),
                e@,
            ),
    {
        match (self.stage, e) {
            (TransactStage::Clearing, TransactEvent::Did(true)) => match self.payload.take() {
                Some(b) => self.go(TransactStage::Writing, TransactAsk::WritePayload(b)),
                None => self.send(probe),
            },
            (TransactStage::Writing, TransactEvent::Did(true)) => self.send(probe),
            (TransactStage::Sending, TransactEvent::Did(ok)) => {
                if ok {
                    return self.go(TransactStage::Waiting, TransactAsk::Await(1));
                }
                let _ = probe.disarm();
                self.go(TransactStage::Over, TransactAsk::Failed)
            },
            (TransactStage::Waiting, TransactEvent::Awaited) => self.look(probe),
            (TransactStage::Reading(r), TransactEvent::Read(bytes)) => {
                let response = match bytes {
                    Some(b) => b,
                    None => Vec::new(),
                };
                self.go(TransactStage::Over, TransactAsk::Done(r, response))
            },
            _ => self.go(TransactStage::Over, TransactAsk::Failed),
        }
    }
}

proof fn first_answer_answers(msgs: Seq<Message>, request: u8, from: int)
    requires
        0 <= from,
    ensures
        first_answer(msgs, request, from) matches Some(m) ==> answers(m, request),
    decreases msgs.len() - from,
{
    if from < msgs.len() {
        first_answer_answers(msgs, request, from + 1);
    }
}

/// What a command is told is an answer to it, and its response is what was read.
/// What is written is what the command carries. Nothing is caught any more once
/// the message could not be sent, or once the wait is over.
pub proof fn command_gets_its_answer(m: TransactView, c: Catch, e: TransactEventView)
    requires
        m.wf(),
    ensures
        transact_step(m, c, e).0.stage matches TransactStage::Reading(r) ==> r.request
            == m.wait.request || m.stage == TransactStage::Reading(r),
        transact_step(m, c, e).2 matches TransactAsk::Done(r, b) ==> r.request == m.wait.request
            || m.stage == TransactStage::Reading(r),
        transact_step(m, c, e).2 matches TransactAsk::Done(r, b) ==> b == (match e {
            TransactEvent::Read(Some(read)) => read,
            _ => Seq::empty(),
        }),
        transact_step(m, c, e).2 matches TransactAsk::WritePayload(b) ==> m.payload == Some(b),
        transact_step(m, c, e).2 matches TransactAsk::Send(sent) ==> sent == m.message,
        m.stage == TransactStage::Sending && e == TransactEventView::Did(false) ==> !transact_step(
            m,
            c,
            e,
        ).1.armed,
        m.stage == TransactStage::Waiting && e == TransactEventView::Awaited && transact_step(
            m,
            c,
            e,
        ).0.stage != TransactStage::Waiting ==> !transact_step(m, c, e).1.armed,
{
    first_answer_answers(c.caught, m.wait.request, m.wait.examined as int);
    first_answer_answers(c.caught, m.wait.request, m.wait.examined + 1);
}

// ---------------------------------------------------------------------------
// The conversation.
// ---------------------------------------------------------------------------
#[derive(Clone, Copy, Debug, PartialEq, Eq, Structural)]
pub enum Stage {
    Ready,
    Secret,
    Initialize,
    Create,
    Externalize,
    Verify,
    Policy,
    Over,
}

/// What is to be done next.
#[derive(Debug, PartialEq, Eq)]
pub enum Ask<B = Vec<u8>> {
    /// Have the endpoint's buffers registered, and tell whether they are.
    Ready,
    /// Tell the bag that is designated and its secret, if they are at hand.
    Material,
    /// Read the stored key bag, and tell its secret.
    StoredSecret,
    Initialize,
    CreateContext(UserId),
    /// Hand the context to the key store's side.
    Externalize([u8; 16]),
    /// Have the key store check this secret of this bag for this context.
    VerifySecret(SpecialHandle, B, [u8; 16]),
    /// Ask whether the policy for enrolment is satisfied.
    VerifyPolicy([u8; 16]),
    Done(Option<[u8; 16]>),
}

#[derive(Debug, PartialEq, Eq)]
pub enum Event<'a, B = Vec<u8>> {
    Ready(bool),
    /// The bag that is designated and its secret, if they are at hand.
    Material(Option<(SpecialHandle, B)>),
    /// The secret of the stored bag, if there is one.
    Stored(Option<B>),
    /// The endpoint's status and what it sent, unless it did not answer.
    Answer(Option<(i32, &'a [u8])>),
    /// The key store's status, unless it did not answer.
    Verified(Option<i8>),
}

/// Getting a credential. The secret is checked by the key store, in a context
/// of the credential endpoint. For an enrolment the secret is that of the bag
/// that is designated, and the policy has to be satisfied in the end; for
/// matching the secret is that of the stored bag, and it is enough that the
/// endpoint answers.
#[derive(Debug, PartialEq, Eq)]
pub struct Credential<B = Vec<u8>> {
    pub user: UserId,
    pub strict: bool,
    pub stage: Stage,
    pub handle: Option<[u8; 16]>,
    /// The bag and its secret, until they are checked.
    pub secret: Option<(SpecialHandle, B)>,
}

/// An ask whose bytes are sequences, which contracts speak of.
pub type AskView = Ask<Seq<u8>>;

pub type EventView<'a> = Event<'a, Seq<u8>>;

pub type CredentialView = Credential<Seq<u8>>;

pub open spec fn secret_in(s: Option<(SpecialHandle, Vec<u8>)>) -> Option<(SpecialHandle, Seq<u8>)> {
    match s {
        Some((h, b)) => Some((h, b@)),
        None => None,
    }
}

impl View for Ask {
    type V = AskView;

    open spec fn view(&self) -> AskView {
        match self {
            Ask::Ready => Ask::Ready,
            Ask::Material => Ask::Material,
            Ask::StoredSecret => Ask::StoredSecret,
            Ask::Initialize => Ask::Initialize,
            Ask::CreateContext(u) => Ask::CreateContext(*u),
            Ask::Externalize(h) => Ask::Externalize(*h),
            Ask::VerifySecret(s, b, h) => Ask::VerifySecret(*s, b@, *h),
            Ask::VerifyPolicy(h) => Ask::VerifyPolicy(*h),
            Ask::Done(h) => Ask::Done(*h),
        }
    }
}

impl<'a> View for Event<'a> {
    type V = EventView<'a>;

    open spec fn view(&self) -> EventView<'a> {
        match self {
            Event::Ready(ok) => Event::Ready(*ok),
            Event::Material(s) => Event::Material(secret_in(*s)),
            Event::Stored(None) => Event::Stored(None),
            Event::Stored(Some(b)) => Event::Stored(Some(b@)),
            Event::Answer(a) => Event::Answer(*a),
            Event::Verified(s) => Event::Verified(*s),
        }
    }
}

impl View for Credential {
    type V = CredentialView;

    open spec fn view(&self) -> CredentialView {
        Credential {
            user: self.user,
            strict: self.strict,
            stage: self.stage,
            handle: self.handle,
            secret: secret_in(self.secret),
        }
    }
}

pub open spec fn succeeded(e: EventView) -> bool {
    e matches Event::Answer(Some((status, _))) && status == 0
}

/// Whether the policy's answer will do.
pub open spec fn policy_holds(strict: bool, e: EventView) -> bool {
    match e {
        Event::Answer(Some((status, out))) => !strict || (status == 0 && out@.len() >= 4 && u32_at(
            out@,
            0,
        ) != 0),
        _ => false,
    }
}

/// The bag and the secret that are told: for an enrolment those that are at hand,
/// for matching the user's bag and the stored secret.
pub open spec fn told_secret(m: CredentialView, e: EventView) -> Option<(SpecialHandle, Seq<u8>)> {
    match e {
        Event::Material(s) => if m.strict {
            s
        } else {
            None
        },
        Event::Stored(Some(b)) => if m.strict {
            None
        } else {
            Some((SpecialHandle((-m.user@) as i32), b))
        },
        _ => None,
    }
}

pub open spec fn gone(m: CredentialView) -> CredentialView {
    Credential { stage: Stage::Over, secret: None, ..m }
}

/// Whether `m2` and `ask` are what comes next.
pub open spec fn credential_steps(
    m: CredentialView,
    e: EventView,
    m2: CredentialView,
    ask: AskView,
) -> bool {
    let fails = m2 == gone(m) && ask == AskView::Done(None);
    match m.stage {
        Stage::Ready => if e matches Event::Ready(true) && (m.strict || m.user@
            >= SKS_DESIGNATE_USER_MIN) {
            &&& m2 == (Credential { stage: Stage::Secret, ..m })
            &&& ask == if m.strict {
                AskView::Material
            } else {
                AskView::StoredSecret
            }
        } else {
            fails
        },
        Stage::Secret => if told_secret(m, e) is Some {
            &&& m2 == (Credential { stage: Stage::Initialize, secret: told_secret(m, e), ..m })
            &&& ask == AskView::Initialize
        } else {
            fails
        },
        Stage::Initialize => if succeeded(e) {
            &&& m2 == (Credential { stage: Stage::Create, ..m })
            &&& ask == AskView::CreateContext(m.user)
        } else {
            fails
        },
        Stage::Create => if succeeded(e) && (e->Answer_0->0).1@.len() >= SCRD_ACM_HANDLE_LEN {
            &&& m2.handle matches Some(h)
            &&& h@ == (e->Answer_0->0).1@.subrange(0, 16)
            &&& m2 == (Credential { stage: Stage::Externalize, handle: Some(h), ..m })
            &&& ask == AskView::Externalize(h)
        } else {
            fails
        },
        Stage::Externalize => if succeeded(e) && m.handle is Some && m.secret is Some {
            &&& m2 == (Credential { stage: Stage::Verify, secret: None, ..m })
            &&& ask == AskView::VerifySecret((m.secret->0).0, (m.secret->0).1, m.handle->0)
        } else {
            fails
        },
        Stage::Verify => if e matches Event::Verified(Some(s)) && s == 0 && m.handle is Some {
            &&& m2 == (Credential { stage: Stage::Policy, ..m })
            &&& ask == AskView::VerifyPolicy(m.handle->0)
        } else {
            fails
        },
        Stage::Policy => if policy_holds(m.strict, e) {
            m2 == gone(m) && ask == AskView::Done(m.handle)
        } else {
            fails
        },
        Stage::Over => fails,
    }
}

/// Overwrites a secret that is let go.
fn forget(s: Option<(SpecialHandle, Vec<u8>)>) {
    if let Some((_, b)) = s {
        let mut b = b;
        wipe(&mut b);
    }
}

impl Credential {
    /// Starts, for an enrolment or for matching.
    pub fn start(user: UserId, strict: bool) -> (r: (Credential, Ask))
        ensures
            r.0.wf(),
            r.0@ == (Credential {
                user,
                strict,
                stage: Stage::Ready,
                handle: None,
                secret: None::<(SpecialHandle, Seq<u8>)>,
            }),
            r.1@ == AskView::Ready,
    {
        (Credential { user, strict, stage: Stage::Ready, handle: None, secret: None }, Ask::Ready)
    }

    fn fail(&mut self) -> (ask: Ask)
        ensures
            final(self)@ == gone(old(self)@),
            ask@ == AskView::Done(None),
    {
        forget(self.secret.take());
        self.stage = Stage::Over;
        Ask::Done(None)
    }

    fn go(&mut self, stage: Stage, ask: Ask) -> (a: Ask)
        ensures
            final(self)@ == (Credential { stage, ..old(self)@ }),
            a == ask,
    {
        self.stage = stage;
        ask
    }

    /// Takes in the bag and the secret that were told.
    fn told(&mut self, e: Event<'_>) -> (ask: Ask)
        requires
            old(self).stage is Secret,
            !old(self).strict ==> old(self).user@ >= SKS_DESIGNATE_USER_MIN,
        ensures
            credential_steps(old(self)@, e@, final(self)@, ask@),
    {
        let told: Option<(SpecialHandle, Vec<u8>)> = match e {
            Event::Material(s) => {
                if self.strict {
                    s
                } else {
                    forget(s);
                    None
                }
            },
            Event::Stored(Some(b)) => {
                if self.strict {
                    forget(Some((SpecialHandle(0), b)));
                    None
                } else {
                    Some((DesignateUser(self.user.value()).special_handle(), b))
                }
            },
            _ => None,
        };
        match told {
            Some(s) => {
                self.secret = Some(s);
                self.go(Stage::Initialize, Ask::Initialize)
            },
            None => self.fail(),
        }
    }

    /// The context is made out: the secret is to be checked in it.
    fn externalized(&mut self) -> (ask: Ask)
        requires
            old(self).stage is Externalize,
        ensures
            if old(self).handle is Some && old(self).secret is Some {
                &&& final(self)@ == (Credential { stage: Stage::Verify, secret: None, ..old(self)@ })
                &&& ask@ == AskView::VerifySecret(
                    (old(self)@.secret->0).0,
                    (old(self)@.secret->0).1,
                    old(self).handle->0,
                )
            } else {
                final(self)@ == gone(old(self)@) && ask@ == AskView::Done(None)
            },
    {
        match (self.handle, self.secret.take()) {
            (Some(h), Some((special, secret))) => self.go(
                Stage::Verify,
                Ask::VerifySecret(special, secret, h),
            ),
            (_, secret) => {
                forget(secret);
                self.fail()
            },
        }
    }

    /// Takes in an answer of the endpoint.
    fn answered(&mut self, status: i32, out: &[u8]) -> (ask: Ask)
        requires
            !(old(self).stage is Ready || old(self).stage is Secret),
        ensures
            credential_steps(
                old(self)@,
                EventView::Answer(Some((status, out))),
                final(self)@,
                ask@,
            ),
    {
        match self.stage {
            Stage::Initialize => {
                if status == 0 {
                    let user = self.user;
                    return self.go(Stage::Create, Ask::CreateContext(user));
                }
                self.fail()
            },
            Stage::Create => {
                if status == 0 && out.len() >= SCRD_ACM_HANDLE_LEN {
                    let h: [u8; 16] = array_at(out, 0);
                    self.handle = Some(h);
                    return self.go(Stage::Externalize, Ask::Externalize(h));
                }
                self.fail()
            },
            Stage::Externalize => {
                if status == 0 {
                    return self.externalized();
                }
                self.fail()
            },
            Stage::Policy => {
                if !self.strict || (status == 0 && out.len() >= 4 && read_u32(out, 0) != 0) {
                    let handle = self.handle;
                    forget(self.secret.take());
                    return self.go(Stage::Over, Ask::Done(handle));
                }
                self.fail()
            },
            _ => self.fail(),
        }
    }

    /// As long as the stored secret is asked for, the user can have a bag.
    pub open spec fn wf(self) -> bool {
        self.stage is Secret && !self.strict ==> self.user@ >= SKS_DESIGNATE_USER_MIN
    }

    /// Takes in what happened and says what comes next. An event that does not
    /// fit the stage ends it.
    pub fn step(&mut self, e: Event<'_>) -> (ask: Ask)
        requires
            old(self).wf(),
        ensures
            final(self).wf(),
            credential_steps(old(self)@, e@, final(self)@, ask@),
    {
        if self.stage == Stage::Secret {
            return self.told(e);
        }
        match (self.stage, e) {
            (Stage::Ready, Event::Ready(true)) => {
                if self.strict {
                    self.go(Stage::Secret, Ask::Material)
                } else if self.user.value() >= SKS_DESIGNATE_USER_MIN {
                    self.go(Stage::Secret, Ask::StoredSecret)
                } else {
                    self.fail()
                }
            },
            (Stage::Ready, _) => self.fail(),
            (_, Event::Answer(Some((status, out)))) => self.answered(status, out),
            (Stage::Verify, Event::Verified(Some(0))) => match self.handle {
                Some(h) => self.go(Stage::Policy, Ask::VerifyPolicy(h)),
                None => self.fail(),
            },
            _ => self.fail(),
        }
    }
}

/// A credential is given out only after the key store has accepted the secret
/// in its context; for an enrolment only if the policy is satisfied too.
pub proof fn credential_needs_secret(
    m: CredentialView,
    e: EventView,
    m2: CredentialView,
    ask: AskView,
)
    requires
        credential_steps(m, e, m2, ask),
    ensures
        ask matches Ask::Done(Some(h)) ==> m.stage == Stage::Policy && m.handle == Some(h)
            && policy_holds(m.strict, e),
        m2.stage == Stage::Policy ==> m.stage == Stage::Verify && (
        e matches Event::Verified(Some(s)) && s == 0),
        m2.stage == Stage::Verify ==> m.stage == Stage::Externalize && succeeded(e),
        ask matches Ask::VerifySecret(s, b, h) ==> m.secret == Some((s, b)) && m.handle == Some(h),
        ask is Initialize ==> told_secret(m, e) is Some && m2.secret == told_secret(m, e),
{
}

/// Whether these are the states and the asks of a run.
pub open spec fn credential_run(
    ms: Seq<CredentialView>,
    es: Seq<EventView>,
    asks: Seq<AskView>,
) -> bool {
    &&& ms.len() == es.len() + 1
    &&& asks.len() == es.len()
    &&& forall|i: int|
        #![trigger es[i]]
        0 <= i < es.len() ==> credential_steps(ms[i], es[i], ms[i + 1], asks[i])
}

/// Over a whole run: a credential is given out only if the key store accepted,
/// in the very context that is given out, the secret that was told before
/// anything was sent to the endpoint.
pub proof fn given_credential_was_verified(
    ms: Seq<CredentialView>,
    es: Seq<EventView>,
    asks: Seq<AskView>,
    n: int,
)
    requires
        credential_run(ms, es, asks),
        ms[0].stage == Stage::Ready,
        0 <= n < es.len(),
        asks[n] matches Ask::Done(Some(_)),
    ensures
        n == 6,
        told_secret(ms[0], es[1]) matches Some(s) && asks[4] == AskView::VerifySecret(
            s.0,
            s.1,
            (asks[n]->Done_0)->0,
        ),
        es[5] == EventView::Verified(Some(0)),
{
    assert(credential_steps(ms[n], es[n], ms[n + 1], asks[n]));
    stages_in_order(ms, es, asks, n);
    assert(credential_steps(ms[0], es[0], ms[1], asks[0]));
    assert(credential_steps(ms[1], es[1], ms[2], asks[1]));
    assert(credential_steps(ms[2], es[2], ms[3], asks[2]));
    assert(credential_steps(ms[3], es[3], ms[4], asks[3]));
    assert(credential_steps(ms[4], es[4], ms[5], asks[4]));
    assert(credential_steps(ms[5], es[5], ms[6], asks[5]));
}

spec fn place(s: Stage) -> int {
    match s {
        Stage::Ready => 0,
        Stage::Secret => 1,
        Stage::Initialize => 2,
        Stage::Create => 3,
        Stage::Externalize => 4,
        Stage::Verify => 5,
        Stage::Policy => 6,
        Stage::Over => 7,
    }
}

proof fn stages_in_order(
    ms: Seq<CredentialView>,
    es: Seq<EventView>,
    asks: Seq<AskView>,
    n: int,
)
    requires
        credential_run(ms, es, asks),
        ms[0].stage == Stage::Ready,
        0 <= n < ms.len(),
        !(ms[n].stage is Over),
    ensures
        place(ms[n].stage) == n,
        forall|i: int| 0 <= i <= n ==> place(#[trigger] ms[i].stage) == i,
    decreases n,
{
    if n > 0 {
        let k = n - 1;
        assert(credential_steps(ms[k], es[k], ms[k + 1], asks[k]));
        stages_in_order(ms, es, asks, k);
    }
}

/// A command asks for its steps in this order: the buffers are cleared, the payload is
/// written if there is one, the message is sent while answers are caught, an answer is
/// waited for, and its response is read, as many bytes as the answer announces.
pub proof fn command_in_order(
    m0: TransactView,
    c: Catch,
    payload: Seq<u8>,
    answer: Message,
    bytes: Seq<u8>,
)
    requires
        m0.stage is Clearing,
        m0.payload == Some(payload),
        m0.wait.examined == 0,
        answers(answer, m0.wait.request),
    ensures
        ({
            let did: TransactEventView = TransactEvent::Did(true);
            let (m1, c1, a1) = transact_step(m0, c, did);
            let (m2, c2, a2) = transact_step(m1, c1, did);
            let (m3, c3, a3) = transact_step(m2, c2, did);
            let (m4, c4, a4) = transact_step(
                m3,
                Catch { caught: seq![answer], ..c3 },
                TransactEvent::Awaited,
            );
            let (m5, c5, a5) = transact_step(m4, c4, TransactEvent::Read(Some(bytes)));
            let n = reply_in(answer.msg0).response_size;
            &&& a1 == TransactAskView::WritePayload(payload)
            &&& a2 == TransactAskView::Send(m0.message)
            &&& c2.armed && c2.caught.len() == 0
            &&& a3 == TransactAskView::Await(1)
            &&& !c4.armed
            &&& n > 0 ==> a4 == TransactAskView::ReadResponse(n as usize) && a5
                == TransactAskView::Done(reply_in(answer.msg0), bytes)
            &&& n == 0 ==> a4 == TransactAskView::Done(reply_in(answer.msg0), Seq::empty())
            &&& transact_step(Transact { payload: None, ..m0 }, c, did).2 == TransactAskView::Send(
                m0.message,
            )
            &&& transact_step(m0, c, TransactEvent::Did(false)).2 == TransactAskView::Failed
            &&& transact_step(m1, c1, TransactEvent::Did(false)).2 == TransactAskView::Failed
            &&& transact_step(m2, c2, TransactEvent::Did(false)).2 == TransactAskView::Failed
        }),
{
}

/// A wait that has come to a message which is no answer goes on for one more, eight in
/// all; and with nothing caught when the time is up the command has failed.
pub proof fn command_waits_on(m: TransactView, c: Catch)
    requires
        m.stage is Waiting,
        c.caught.len() <= 8,
        forall|i: int|
            0 <= i < c.caught.len() ==> !answers(#[trigger] c.caught[i], m.wait.request),
    ensures
        m.wait.examined < c.caught.len() && m.wait.examined < 7 ==> transact_step(
            m,
            c,
            TransactEvent::Awaited,
        ).2 == TransactAskView::Await((m.wait.examined + 2) as usize),
        m.wait.examined >= c.caught.len() ==> transact_step(m, c, TransactEvent::Awaited).2
            == TransactAskView::Failed && !transact_step(m, c, TransactEvent::Awaited).1.armed,
{
    if m.wait.examined >= c.caught.len() {
        assert(first_answer(c.caught, m.wait.request, m.wait.examined as int) is None);
    }
}

/// Getting a credential asks for its steps in this order: the endpoint is made ready, the
/// secret is had, the endpoint is initialized, a context is made for the user, whose
/// handle is the first sixteen bytes of the answer, it is handed over, the secret of the
/// bag is checked in it, the policy is asked for, and the handle is given out.
pub proof fn credential_in_order(
    m0: CredentialView,
    bag: SpecialHandle,
    secret: Seq<u8>,
    out: &[u8],
    policy: &[u8],
    ms: Seq<CredentialView>,
    asks: Seq<AskView>,
)
    requires
        m0.stage is Ready,
        m0.strict,
        out@.len() >= 16,
        policy@.len() >= 4,
        ms.len() == 7,
        asks.len() == 7,
        credential_steps(m0, Event::Ready(true), ms[0], asks[0]),
        credential_steps(ms[0], Event::Material(Some((bag, secret))), ms[1], asks[1]),
        credential_steps(ms[1], Event::Answer(Some((0i32, out))), ms[2], asks[2]),
        credential_steps(ms[2], Event::Answer(Some((0i32, out))), ms[3], asks[3]),
        credential_steps(ms[3], Event::Answer(Some((0i32, out))), ms[4], asks[4]),
        credential_steps(ms[4], Event::Verified(Some(0i8)), ms[5], asks[5]),
        credential_steps(ms[5], Event::Answer(Some((0i32, policy))), ms[6], asks[6]),
    ensures
        asks[0] == AskView::Material,
        asks[1] == AskView::Initialize,
        asks[2] == AskView::CreateContext(m0.user),
        ms[3].handle is Some,
        (ms[3].handle->0)@ == out@.subrange(0, 16),
        asks[3] == AskView::Externalize(ms[3].handle->0),
        asks[4] == AskView::VerifySecret(bag, secret, ms[3].handle->0),
        asks[5] == AskView::VerifyPolicy(ms[3].handle->0),
        u32_at(policy@, 0) != 0 ==> asks[6] == AskView::Done(ms[3].handle),
        u32_at(policy@, 0) == 0 ==> asks[6] == AskView::Done(None),
{
}

/// For matching the secret is that of the stored bag, the bag is the user's, whose handle
/// is the user's number negated, and it is enough that the endpoint answers on the
/// policy; users below 10 have no bag.
pub proof fn matching_uses_the_stored_secret(
    m: CredentialView,
    secret: Seq<u8>,
    m2: CredentialView,
    ask: AskView,
    status: i32,
    out: &[u8],
)
    requires
        !m.strict,
    ensures
        m.stage is Ready && credential_steps(m, Event::Ready(true), m2, ask) ==> ask == if m.user@
            >= 10 {
            AskView::StoredSecret
        } else {
            AskView::Done(None)
        },
        m.user@ >= 10 ==> told_secret(m, Event::Stored(Some(secret))) == Some(
            (SpecialHandle((-m.user@) as i32), secret),
        ),
        m.stage is Policy && credential_steps(m, Event::Answer(Some((status, out))), m2, ask)
            ==> ask == AskView::Done(m.handle),
        m.stage is Policy && credential_steps(m, Event::Answer(None), m2, ask) ==> ask
            == AskView::Done(None),
{
}

/// Whatever fails ends it without a credential, and lets go of the secret.
pub proof fn failing_gives_no_credential(
    m: CredentialView,
    m2: CredentialView,
    ask: AskView,
    status: i32,
    out: &[u8],
    verified: i8,
)
    requires
        status != 0,
        verified != 0,
    ensures
        (m.stage is Initialize || m.stage is Create || m.stage is Externalize) && credential_steps(
            m,
            Event::Answer(Some((status, out))),
            m2,
            ask,
        ) ==> ask == AskView::Done(None) && m2.secret is None,
        m.stage is Verify && credential_steps(m, Event::Verified(Some(verified)), m2, ask) ==> ask
            == AskView::Done(None),
        m.stage is Policy && m.strict && credential_steps(
            m,
            Event::Answer(Some((status, out))),
            m2,
            ask,
        ) ==> ask == AskView::Done(None),
        m.stage is Ready && credential_steps(m, Event::Ready(false), m2, ask) ==> ask
            == AskView::Done(None),
        m.stage is Secret && credential_steps(m, Event::Material(None), m2, ask) ==> ask
            == AskView::Done(None),
{
}

} // verus!
