//! The credential endpoint's commands and replies.

use crate::bytes::{i32_le, put_bytes, put_i32, put_zeros, signed32, to_signed, zeroed};
use crate::mailbox::Message;
use crate::proto::EP_SCRD;
use vstd::prelude::*;

verus! {

/// The length of a context handle.
pub const SCRD_ACM_HANDLE_LEN: usize = 16;

pub const SCRD_REQUEST_COMMAND: u8 = 1;

pub const SCRD_CMD_INITIALIZE: u8 = 0x0a;

pub const SCRD_CMD_CONTEXT_CREATE_TRACKED: u8 = 0x24;

pub const SCRD_CMD_CONTEXT_EXTERNALIZE: u8 = 0x13;

pub const SCRD_CMD_VERIFY_POLICY: u8 = 0x03;

pub const SCRD_INIT_LOG_LEVEL: u8 = 0x28;

/// A command: the request number and its payload.
pub struct ScrdCommand {
    pub request: u8,
    pub payload: Vec<u8>,
    pub name: &'static str,
}

impl ScrdCommand {
    /// What the command is called.
    pub fn name(&self) -> (s: &'static str)
        ensures
            s == self.name,
    {
        self.name
    }
}

/// The eight bytes that every payload starts with.
pub open spec fn header(command: u8, byte5: u8, version: u8) -> Seq<u8> {
    seq![0x44u8, 0x52, 0x43, 0x53, command, byte5, 0, version]
}

/// The name of the policy under which a finger may be enrolled.
pub open spec fn enrollment_policy() -> Seq<u8> {
    seq![
        0x54u8,
        0x6f,
        0x75,
        0x63,
        0x68,
        0x49,
        0x64,
        0x45,
        0x6e,
        0x72,
        0x6f,
        0x6c,
        0x6c,
        0x6d,
        0x65,
        0x6e,
        0x74,
    ]
}

fn scrd_header(command: u8, byte5: u8, version: u8) -> (out: Vec<u8>)
    ensures
        out@ == header(command, byte5, version),
{
    let out: Vec<u8> = vec![0x44u8, 0x52, 0x43, 0x53, command, byte5, 0, version];
    assert(out@ =~= header(command, byte5, version));
    out
}

pub open spec fn initialize_payload() -> Seq<u8> {
    header(SCRD_CMD_INITIALIZE, SCRD_INIT_LOG_LEVEL, 0)
}

pub open spec fn create_payload(session_uid: int) -> Seq<u8> {
    header(SCRD_CMD_CONTEXT_CREATE_TRACKED, 0, 1) + i32_le(session_uid)
}

pub open spec fn externalize_payload(handle: Seq<u8>) -> Seq<u8> {
    header(SCRD_CMD_CONTEXT_EXTERNALIZE, 0, 1) + handle
}

pub open spec fn verify_payload(handle: Seq<u8>) -> Seq<u8> {
    header(SCRD_CMD_VERIFY_POLICY, 0, 1) + handle + enrollment_policy() + zeroed(10)
}

pub fn scrd_initialize() -> (c: ScrdCommand)
    ensures
        c.name == "SCRD_INITIALIZE",
        c.request == SCRD_REQUEST_COMMAND,
        c.payload@ == initialize_payload(),
{
    ScrdCommand {
        request: SCRD_REQUEST_COMMAND,
        payload: scrd_header(SCRD_CMD_INITIALIZE, SCRD_INIT_LOG_LEVEL, 0),
        name: "SCRD_INITIALIZE",
    }
}

pub fn scrd_context_create_tracked(session_uid: i32) -> (c: ScrdCommand)
    ensures
        c.name == "SCRD_CONTEXT_CREATE",
        c.request == SCRD_REQUEST_COMMAND,
        c.payload@ == create_payload(session_uid as int),
{
    let mut payload = scrd_header(SCRD_CMD_CONTEXT_CREATE_TRACKED, 0, 1);
    put_i32(&mut payload, session_uid);
    ScrdCommand { request: SCRD_REQUEST_COMMAND, payload, name: "SCRD_CONTEXT_CREATE" }
}

pub fn scrd_context_externalize(handle: &[u8]) -> (c: ScrdCommand)
    requires
        handle.len() == SCRD_ACM_HANDLE_LEN,
    ensures
        c.name == "SCRD_EXTERNALIZE",
        c.request == SCRD_REQUEST_COMMAND,
        c.payload@ == externalize_payload(handle@),
{
    let mut payload = scrd_header(SCRD_CMD_CONTEXT_EXTERNALIZE, 0, 1);
    put_bytes(&mut payload, handle);
    ScrdCommand { request: SCRD_REQUEST_COMMAND, payload, name: "SCRD_EXTERNALIZE" }
}

/// Asks whether the policy for enrolment is satisfied. The policy's name is
/// followed by its terminator, no preflight, no flags and no parameters.
pub fn scrd_verify_touchid_enrollment(handle: &[u8]) -> (c: ScrdCommand)
    requires
        handle.len() == SCRD_ACM_HANDLE_LEN,
    ensures
        c.name == "SCRD_VERIFY_POLICY",
        c.request == SCRD_REQUEST_COMMAND,
        c.payload@ == verify_payload(handle@),
{
    let mut payload = scrd_header(SCRD_CMD_VERIFY_POLICY, 0, 1);
    put_bytes(&mut payload, handle);
    let policy: Vec<u8> = vec![
        0x54u8,
        0x6f,
        0x75,
        0x63,
        0x68,
        0x49,
        0x64,
        0x45,
        0x6e,
        0x72,
        0x6f,
        0x6c,
        0x6c,
        0x6d,
        0x65,
        0x6e,
        0x74,
    ];
    assert(policy@ =~= enrollment_policy());
    put_bytes(&mut payload, &policy);
    put_zeros(&mut payload, 10);
    ScrdCommand { request: SCRD_REQUEST_COMMAND, payload, name: "SCRD_VERIFY_POLICY" }
}

#[derive(Clone, Copy, Debug, PartialEq, Eq, Structural)]
pub struct ScrdReply {
    pub request: u8,
    pub response_size: u16,
    pub status: i32,
}

/// The reply in a message word: request in the second byte, size in the third
/// and fourth, status in the upper half.
pub open spec fn reply_in(m: u64) -> ScrdReply {
    ScrdReply {
        request: (m / 0x100 % 0x100) as u8,
        response_size: (m / 0x1_0000 % 0x1_0000) as u16,
        status: signed32((m / 0x1_0000_0000) as int) as i32,
    }
}

pub fn decode_scrd_reply(msg: &Message) -> (r: ScrdReply)
    ensures
        r == reply_in(msg.msg0),
{
    let m: u64 = msg.msg0;
    ScrdReply {
        request: (m / 0x100 % 0x100) as u8,
        response_size: (m / 0x1_0000 % 0x1_0000) as u16,
        status: to_signed((m / 0x1_0000_0000) as u32),
    }
}

/// The word that announces a request with so many bytes.
pub open spec fn request_word(request: u8, len: int) -> int {
    EP_SCRD + 0x100 * request + 0x1_0000 * (len % 0x1_0000)
}

/// The message that announces a request of `len` bytes. Only the low sixteen
/// bits of the length travel.
pub fn encode_scrd(request: u8, len: usize) -> (msg: Message)
    ensures
        msg.msg1 == 0,
        msg.msg0 == EP_SCRD + 0x100 * request + 0x1_0000 * (len as int % 0x1_0000),
        msg.msg0 == request_word(request, len as int),
{
    Message {
        msg0: EP_SCRD as u64 + 0x100 * (request as u64) + 0x1_0000 * ((len % 0x1_0000) as u64),
        msg1: 0,
    }
}

/// A reply under the same request answers it: the request number of a message
/// that was sent is the one that is looked for in a reply.
pub proof fn request_is_echoed(request: u8, len: int)
    requires
        0 <= len,
    ensures
        reply_in(
            (EP_SCRD + 0x100 * request + 0x1_0000 * (len % 0x1_0000)) as u64,
        ).request == request,
{
}

pub const SCRD_MAX_CAPTURE: usize = 8;

/// Whether a message answers the request.
pub open spec fn answers(m: Message, request: u8) -> bool {
    reply_in(m.msg0).request == request
}

/// The replies that were caught while a request was out.
pub struct ScrdProbe {
    active: bool,
    captured: Vec<Message>,
}

impl ScrdProbe {
    pub closed spec fn armed(&self) -> bool {
        self.active
    }

    pub closed spec fn view(&self) -> Seq<Message> {
        self.captured@
    }

    pub fn new() -> (p: ScrdProbe)
        ensures
            !p.armed(),
            p@ == Seq::<Message>::empty(),
    {
        ScrdProbe { active: false, captured: Vec::new() }
    }

    /// Catches a message while a request is out. What does not fit is dropped.
    /// Tells whether a waiter has to look.
    pub fn on_scrd(&mut self, msg: Message) -> (wake: bool)
        ensures
            wake == old(self).armed(),
            final(self).armed() == old(self).armed(),
            final(self)@ == (if old(self).armed() && old(self)@.len() < SCRD_MAX_CAPTURE {
                old(self)@.push(msg)
            } else {
                old(self)@
            }),
    {
        if self.active {
            if self.captured.len() < SCRD_MAX_CAPTURE {
                self.captured.push(msg);
            }
            return true;
        }
        false
    }

    pub fn arm(&mut self)
        ensures
            final(self).armed(),
            final(self)@ == Seq::<Message>::empty(),
    {
        self.captured = Vec::new();
        self.active = true;
        assert(self@ =~= Seq::<Message>::empty());
    }

    /// Stops catching and hands out what was caught.
    pub fn disarm(&mut self) -> (r: Vec<Message>)
        ensures
            !final(self).armed(),
            final(self)@ == Seq::<Message>::empty(),
            r@ == old(self)@,
    {
        self.active = false;
        let mut taken: Vec<Message> = Vec::new();
        core::mem::swap(&mut taken, &mut self.captured);
        assert(self@ =~= Seq::<Message>::empty());
        taken
    }

    /// Looks at the caught message with this number.
    pub fn examine(&self, i: usize) -> (m: Option<Message>)
        ensures
            m == (if i < self@.len() {
                Some(self@[i as int])
            } else {
                None
            }),
    {
        if i < self.captured.len() {
            Some(self.captured[i])
        } else {
            None
        }
    }
}

/// The first message, from `from` on, that answers the request.
pub open spec fn first_answer(msgs: Seq<Message>, request: u8, from: int) -> Option<Message>
    decreases msgs.len() - from,
{
    if from >= msgs.len() {
        None
    } else if answers(msgs[from], request) {
        Some(msgs[from])
    } else {
        first_answer(msgs, request, from + 1)
    }
}

/// A payload starts with its tag, the command's number, a byte of its own, a zero and
/// a version; a context is made for a user, whose number follows, and what is asked
/// of a context names it by its sixteen bytes.
pub proof fn payloads_are_laid_out(session_uid: i32, handle: Seq<u8>)
    requires
        handle.len() == 16,
    ensures
        initialize_payload() == seq![0x44u8, 0x52, 0x43, 0x53, 0x0a, 0x28, 0, 0],
        create_payload(session_uid as int).len() == 12,
        create_payload(session_uid as int).subrange(0, 8) == seq![
            0x44u8, 0x52, 0x43, 0x53, 0x24, 0, 0, 1,
        ],
        crate::bytes::i32_at(create_payload(session_uid as int), 8) == session_uid,
        externalize_payload(handle).len() == 24,
        externalize_payload(handle).subrange(0, 8) == seq![
            0x44u8, 0x52, 0x43, 0x53, 0x13, 0, 0, 1,
        ],
        externalize_payload(handle).subrange(8, 24) == handle,
        verify_payload(handle).len() == 51,
        verify_payload(handle).subrange(0, 8) == seq![0x44u8, 0x52, 0x43, 0x53, 0x03, 0, 0, 1],
        verify_payload(handle).subrange(8, 24) == handle,
        verify_payload(handle).subrange(24, 41) == seq![
            0x54u8, 0x6f, 0x75, 0x63, 0x68, 0x49, 0x64, 0x45, 0x6e, 0x72, 0x6f, 0x6c, 0x6c, 0x6d, 0x65,
            0x6e, 0x74,
        ],
        forall|i: int| 41 <= i < 51 ==> verify_payload(handle)[i] == 0,
{
    broadcast use crate::bytes::group_le;

    let c = create_payload(session_uid as int);
    assert(c.subrange(8, 12) =~= i32_le(session_uid as int));
    crate::bytes::i32_reads_back(c, 8, session_uid as int);
    assert(initialize_payload() =~= seq![0x44u8, 0x52, 0x43, 0x53, 0x0a, 0x28, 0, 0]);
    assert(c.subrange(0, 8) =~= seq![0x44u8, 0x52, 0x43, 0x53, 0x24, 0, 0, 1]);
    let e = externalize_payload(handle);
    assert(e.subrange(0, 8) =~= seq![0x44u8, 0x52, 0x43, 0x53, 0x13, 0, 0, 1]);
    assert(e.subrange(8, 24) =~= handle);
    let v = verify_payload(handle);
    assert(v.subrange(0, 8) =~= seq![0x44u8, 0x52, 0x43, 0x53, 0x03, 0, 0, 1]);
    assert(v.subrange(8, 24) =~= handle);
    assert(v.subrange(24, 41) =~= enrollment_policy());
}

/// A reply's word carries the request in its second byte, the length of the response
/// in the two behind it and a signed status in its upper half.
pub proof fn reply_is_read(ep: u8, request: u8, size: u16, status: u32)
    ensures
        ({
            let m = ep + 0x100 * request + 0x1_0000 * size + 0x1_0000_0000 * status;
            let r = reply_in(m as u64);
            &&& r.request == request
            &&& r.response_size == size
            &&& status < 0x8000_0000 ==> r.status == status
            &&& status >= 0x8000_0000 ==> r.status == status - 0x1_0000_0000
        }),
{
    let k2 = size + 0x1_0000 * status;
    let k1 = request + 0x100 * k2;
    let m = ep + 0x100 * k1;
    assert(m == ep + 0x100 * request + 0x1_0000 * size + 0x1_0000_0000 * status);
    assert(m / 0x100 == k1);
    assert(k1 / 0x100 == k2);
    assert(k2 / 0x1_0000 == status);
    vstd::arithmetic::div_mod::lemma_div_denominator(m, 0x100, 0x100);
    vstd::arithmetic::div_mod::lemma_div_denominator(m, 0x1_0000, 0x1_0000);
    assert(0 <= m < 0x1_0000_0000_0000_0000);
}

/// The first answer answers, and nothing before it does.
pub proof fn first_answer_is_the_first(msgs: Seq<Message>, request: u8, from: int, i: int)
    requires
        0 <= from <= i < msgs.len(),
        answers(msgs[i], request),
        forall|j: int| from <= j < i ==> !answers(#[trigger] msgs[j], request),
    ensures
        first_answer(msgs, request, from) == Some(msgs[i]),
    decreases i - from,
{
    if from < i {
        assert(!answers(msgs[from], request));
        first_answer_is_the_first(msgs, request, from + 1, i);
    }
}

/// The word of a request has the endpoint 0x0a in its low byte, the request in the next, and
/// behind them sixteen bits of the length.
pub proof fn request_is_announced(request: u8, len: u16)
    ensures
        request_word(request, len as int) % 0x100 == 0x0a,
        request_word(request, len as int) / 0x100 % 0x100 == request,
        request_word(request, len as int) / 0x1_0000 == len,
{
    let w = request_word(request, len as int);
    vstd::arithmetic::div_mod::lemma_div_denominator(w, 0x100, 0x100);
    assert(w / 0x100 == request + 0x100 * len);
}

} // verus!
