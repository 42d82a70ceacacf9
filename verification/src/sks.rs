//! The key store: its messages, the bodies of its requests, and how a reply is
//! told apart from the others.

use crate::bytes::{i32_at, i32_le, read_i32, read_u32, u32_at, u32_le, u64_le, zeroed};
use crate::errno::Errno;
use crate::image::{
    blob_bytes, build_request, joined, joined_reads_as, reads_as, reads_from, operation_status, parse_response, read_blob, response_body, wipe,
    Body, Field, RequestImage, Version, HEADER_WIRE, SHA256_LEN,
};
use crate::mailbox::Message;
use crate::proto::{blob_at, EP_SKS};
use crate::uuid::{uuid_at, Uuid};
use vstd::prelude::*;

verus! {

pub const OP_SKS_CREATE_KEYBAG: u8 = 0x01;

pub const OP_SKS_COPY_KEYBAG: u8 = 0x02;

pub const OP_SKS_LOAD_KEYBAG: u8 = 0x03;

pub const OP_SKS_CHANGE_LOCK_STATE: u8 = 0x04;

pub const OP_SKS_UNLOAD_KEYBAG: u8 = 0x05;

pub const OP_SKS_COPY_UUID: u8 = 0x06;

pub const OP_SKS_UNWRAP_PFK: u8 = 0x09;

pub const OP_SKS_DESIGNATE_KEYBAG: u8 = 0x0d;

pub const OP_SKS_NEW_PFK: u8 = 0x10;

pub const OP_SKS_VERIFY_SECRET: u8 = 0x21;

pub const OP_SKS_PERFORM_OPERATION: u8 = 0x22;

pub const OP_SKS_UNWRAP_MEDIA_KEY: u8 = 0x32;

pub const OP_SKS_UNWRAP_VEK: u8 = 0x41;

pub const OP_SKS_SET_PROTECTION: u8 = 0x47;

pub const OP_SKS_GET_BLOB_STATE: u8 = 0x48;

pub const OP_SKS_CAPABILITIES: u8 = 0x4d;

pub const SKS_CREATE_VARIANT_IDENTITY: u32 = 5;

pub const SKS_IDENTITY_UUID_LEN: usize = 16;

pub const SKS_VERIFY_SECRET_VARIANT: u32 = 1;

pub const SKS_DESIGNATE_VARIANT: u32 = 1;

pub const SKS_LOCK_STATE_VARIANT: u32 = 1;

pub const SKS_DESIGNATE_REPLY_LEN: usize = 4;

pub const SKS_LOAD_REPLY_LEN: usize = 8;

pub const SKS_AUTH_TOKEN_LEN: usize = 16;

pub const SKS_SECRET_LEN: usize = 32;

/// The client under whose name all requests are made.
pub const SKS_CLIENT_ID: u64 = 0x4c49_4e55_5853_4b53;

/// The sizes that are declared for the endpoint's two buffers.
pub const SKS_DECLARED_IN: usize = 0x8000;

pub const SKS_DECLARED_OUT: usize = 0x4000;

pub const SKS_ALLOC: usize = 0x8000;

pub const SKS_TIMEOUT_MS: u32 = 2000;

pub const SKS_TIMEOUT_PER_KIB_MS: u32 = 6000;

pub const SKS_TIMEOUT_MAX_MS: u32 = 30_000;

pub const SKS_MAX_CAPTURE: usize = 8;

pub const SKS_MAX_ABANDONED: usize = 8;

pub const SKS_MAX_SET_ASIDE: u32 = 16;

/// How long to wait for the answer to a request of `len` bytes: longer for
/// longer ones, up to a limit.
pub open spec fn patience(len: int) -> int {
    let scaled = SKS_TIMEOUT_MS + SKS_TIMEOUT_PER_KIB_MS * (len / 1024);
    if scaled > SKS_TIMEOUT_MAX_MS {
        SKS_TIMEOUT_MAX_MS as int
    } else {
        scaled
    }
}

pub fn sks_timeout_for(image_len: usize) -> (ms: u32)
    ensures
        ms == patience(image_len as int),
{
    let kib: usize = image_len / 1024;
    if kib >= 5 {
        SKS_TIMEOUT_MAX_MS
    } else {
        let scaled: u32 = SKS_TIMEOUT_MS + SKS_TIMEOUT_PER_KIB_MS * (kib as u32);
        if scaled > SKS_TIMEOUT_MAX_MS {
            SKS_TIMEOUT_MAX_MS
        } else {
            scaled
        }
    }
}

/// The handle of a loaded key bag.
#[derive(Clone, Copy, Debug, PartialEq, Eq, Structural)]
pub struct KeyBagHandle(pub i32);

impl KeyBagHandle {
    pub fn value(&self) -> (v: i32)
        ensures
            v == self.0,
    {
        self.0
    }
}

pub const SKS_DESIGNATE_USER_MIN: i32 = 10;

/// A user for whom a bag can be designated.
#[derive(Clone, Copy, Debug, PartialEq, Eq, Structural)]
pub struct DesignateUser(pub i32);

/// The handle of a designated bag.
#[derive(Clone, Copy, Debug, PartialEq, Eq, Structural)]
pub struct SpecialHandle(pub i32);

impl DesignateUser {
    pub fn new(value: i32) -> (r: Option<DesignateUser>)
        ensures
            r == designable(value),
    {
        if value >= SKS_DESIGNATE_USER_MIN {
            Some(DesignateUser(value))
        } else {
            None
        }
    }

    /// The user's designated bag has the negated number as its handle.
    pub fn special_handle(&self) -> (h: SpecialHandle)
        requires
            self.0 >= SKS_DESIGNATE_USER_MIN,
        ensures
            h.0 == -self.0,
    {
        SpecialHandle(-self.0)
    }
}

impl SpecialHandle {
    pub fn first_identity() -> (h: SpecialHandle)
        ensures
            h.0 == -1,
    {
        SpecialHandle(-1)
    }

    pub fn value(&self) -> (v: i32)
        ensures
            v == self.0,
    {
        self.0
    }
}

/// A loaded bag and the user for whom it is designated.
#[derive(Clone, Copy, Debug, PartialEq, Eq, Structural)]
pub struct Designation {
    pub source: KeyBagHandle,
    pub user: DesignateUser,
}

/// The number by which a reply is matched to its request.
#[derive(Clone, Copy, Debug, PartialEq, Eq, Structural)]
pub struct Sequence(pub u8);

/// Two of the bits are always set; the others count.
pub open spec fn sequence_of(n: u8) -> u8 {
    0x60 | (n & !0x60u8)
}

impl Sequence {
    pub fn from_counter(n: u8) -> (s: Sequence)
        ensures
            s.0 == sequence_of(n),
    {
        Sequence(0x60 | (n & !0x60u8))
    }
}

/// Requests that follow one another closely are told apart: among 32 in a row no
/// two have the same sequence number.
pub proof fn sequences_differ(n: u8, k: u8)
    requires
        0 < k < 32,
    ensures
        sequence_of(n) != sequence_of(((n as int + k as int) % 256) as u8),
{
    let m = ((n as int + k as int) % 256) as u8;
    let s = n as int + k as int;
    assert(m == if s >= 256 {
        s - 256
    } else {
        s
    });
    assert(m as int - n as int == k || m as int - n as int == k - 256);
    assert((0x60u8 | (n & !0x60u8)) != (0x60u8 | (m & !0x60u8))) by (bit_vector)
        requires
            0 < k < 32,
            (m as int == n as int + k as int) || (m as int + 256 == n as int + k as int),
    ;
}

/// The key store's counter of requests.
pub fn next_seq(counter: &mut u32) -> (s: Sequence)
    ensures
        s.0 == sequence_of((*old(counter) % 0x100) as u8),
        *final(counter) == (*old(counter) + 1) % 0x1_0000_0000,
{
    let n: u32 = *counter;
    *counter = n.wrapping_add(1);
    Sequence::from_counter((n % 0x100) as u8)
}

/// The message that announces a request: selector, sequence number, and the
/// length of the image in the top sixteen bits.
pub fn encode_sks(selector: u8, seq: Sequence, len: u16) -> (msg: Message)
    ensures
        msg.msg1 == 0,
        msg.msg0 == request_word(selector, seq.0, len),
{
    Message {
        msg0: EP_SKS as u64 + 0x100 * (selector as u64) + 0x1_0000 * (seq.0 as u64)
            + 0x1_0000_0000_0000 * (len as u64),
        msg1: 0,
    }
}

pub open spec fn request_word(selector: u8, seq: u8, len: u16) -> int {
    EP_SKS + 0x100 * selector + 0x1_0000 * seq + 0x1_0000_0000_0000 * len
}

#[derive(Clone, Copy, Debug, PartialEq, Eq, Structural)]
pub struct SksReply {
    pub selector: u8,
    pub seq: u8,
    pub status: i8,
    pub response_size: u16,
}

pub open spec fn signed8(b: int) -> int {
    if b < 0x80 {
        b
    } else {
        b - 0x100
    }
}

/// The reply in a message word. A reply has the top bit of the selector set; it
/// is taken off. The status is signed.
pub open spec fn reply_in(m: u64) -> SksReply {
    SksReply {
        selector: (m / 0x100 % 0x80) as u8,
        seq: (m / 0x1_0000 % 0x100) as u8,
        status: signed8((m / 0x100_0000 % 0x100) as int) as i8,
        response_size: (m / 0x1_0000_0000_0000) as u16,
    }
}

pub fn decode_sks(msg: &Message) -> (r: SksReply)
    ensures
        r == reply_in(msg.msg0),
{
    let m: u64 = msg.msg0;
    let b: u8 = (m / 0x100_0000 % 0x100) as u8;
    let status: i8 = if b < 0x80 {
        b as i8
    } else {
        (b as i16 - 0x100) as i8
    };
    SksReply {
        selector: (m / 0x100 % 0x80) as u8,
        seq: (m / 0x1_0000 % 0x100) as u8,
        status,
        response_size: (m / 0x1_0000_0000_0000) as u16,
    }
}

/// A message answers the request that was sent under this selector and
/// sequence number.
pub open spec fn answers(m: Message, selector: u8, seq: u8) -> bool {
    reply_in(m.msg0).selector == selector && reply_in(m.msg0).seq == seq
}

/// What was sent can be recognized: the selector and the sequence number of a
/// request word read back as they were.
pub proof fn request_is_recognized(selector: u8, seq: u8, len: u16)
    requires
        selector < 0x80,
    ensures
        reply_in(request_word(selector, seq, len) as u64).selector == selector,
        reply_in(request_word(selector, seq, len) as u64).seq == seq,
{
    let m = request_word(selector, seq, len);
    let k = seq + 0x1_0000_0000 * len;
    let j = selector + 0x100 * k;
    vstd::arithmetic::div_mod::lemma_fundamental_div_mod_converse(m, 0x100, j, EP_SKS as int);
    vstd::arithmetic::div_mod::lemma_fundamental_div_mod_converse(
        j,
        0x80,
        2 * k,
        selector as int,
    );
    vstd::arithmetic::div_mod::lemma_fundamental_div_mod_converse(
        m,
        0x1_0000,
        k,
        EP_SKS + 0x100 * selector,
    );
    vstd::arithmetic::div_mod::lemma_fundamental_div_mod_converse(
        k,
        0x100,
        0x100_0000 * len,
        seq as int,
    );
    assert(0 <= m < 0x1_0000_0000_0000_0000);
}

/// A request: what is asked, and the body of its image.
pub struct SksRequest {
    pub selector: u8,
    pub body: Body,
}

impl SksRequest {
    /// Overwrites the body, for when it is let go.
    pub fn wipe(&mut self)
        ensures
            final(self).selector == old(self).selector,
            final(self).body@ == zeroed(old(self).body@.len() as int),
    {
        self.body.wipe();
    }
}

/// Seals a request into its image and its message. `digest` is of the image's
/// digest input. The image has to fit the buffer.
pub fn seal(req: &SksRequest, timestamp_us: u64, digest: &[u8], seq: Sequence) -> (r: Result<
    (Message, RequestImage),
    Errno,
>)
    requires
        digest.len() == SHA256_LEN,
    ensures
        match r {
            Ok((msg, img)) => {
                &&& HEADER_WIRE + req.body@.len() <= SKS_DECLARED_IN
                &&& img@ == crate::image::image_bytes(timestamp_us, req.body@, digest@)
                &&& msg.msg1 == 0
                &&& msg.msg0 == request_word(req.selector, seq.0, img@.len() as u16)
            },
            Err(e) => HEADER_WIRE + req.body@.len() > SKS_DECLARED_IN && e == Errno::ENOSPC,
        },
{
    let img = build_request(Version::V1, timestamp_us, &req.body, digest);
    if img.len() > SKS_DECLARED_IN {
        return Err(Errno::ENOSPC);
    }
    Ok((encode_sks(req.selector, seq, img.len() as u16), img))
}

/// The time that goes into an image, from the clock since boot.
pub fn timestamp_us(boottime_ns: u64) -> (us: u64)
    ensures
        us == boottime_ns / 1000,
{
    boottime_ns / 1000
}

/// How most bodies start: a variant and the client.
pub open spec fn prefix(variant: int) -> Seq<u8> {
    u32_le(variant) + u64_le(SKS_CLIENT_ID as int)
}

pub(crate) fn start_body(variant: u32) -> (b: Body)
    ensures
        b@ == prefix(variant as int),
{
    let mut b = Body::new();
    b.put_u32(variant);
    b.put_u64(SKS_CLIENT_ID);
    assert(b@ =~= prefix(variant as int));
    b
}

pub open spec fn capabilities_body() -> Seq<u8> {
    u32_le(0) + u64_le(1) + blob_bytes(Seq::empty())
}

pub fn req_get_capabilities() -> (r: SksRequest)
    ensures
        r.selector == OP_SKS_CAPABILITIES,
        r.body@ == capabilities_body(),
{
    let mut body = Body::new();
    body.put_u32(0);
    body.put_u64(1);
    let none: Vec<u8> = Vec::new();
    assert(none@ =~= Seq::<u8>::empty());
    let _ = body.put_blob(&none);
    assert(body@ =~= capabilities_body());
    SksRequest { selector: OP_SKS_CAPABILITIES, body }
}

/// The body that designates the bag `source` as a user's.
pub open spec fn designate_body(source: int, user: int, secret: Seq<u8>) -> Seq<u8> {
    prefix(1) + i32_le(source) + i32_le(-user) + blob_bytes(secret) + u64_le(0)
}

/// Designates a loaded bag as a user's.
pub fn req_designate(d: &Designation, secret: &[u8]) -> (r: Result<SksRequest, Errno>)
    requires
        d.user.0 >= SKS_DESIGNATE_USER_MIN,
    ensures
        match r {
            Ok(q) => {
                &&& secret.len() <= u32::MAX
                &&& q.selector == OP_SKS_DESIGNATE_KEYBAG
                &&& q.body@ == designate_body(d.source.0 as int, d.user.0 as int, secret@)
            },
            Err(e) => secret.len() > u32::MAX && e == Errno::EINVAL,
        },
{
    let mut body = start_body(SKS_DESIGNATE_VARIANT);
    body.put_i32(d.source.value());
    body.put_i32(d.user.special_handle().value());
    match body.put_blob(secret) {
        Ok(_) => {},
        Err(e) => {
            return Err(e);
        },
    }
    body.put_u64(0);
    Ok(SksRequest { selector: OP_SKS_DESIGNATE_KEYBAG, body })
}

/// The body of a request on a bag, loaded or designated.
pub open spec fn handle_body(handle: int) -> Seq<u8> {
    prefix(0) + i32_le(handle)
}

fn req_on_handle(selector: u8, handle: i32) -> (r: SksRequest)
    ensures
        r.selector == selector,
        r.body@ == handle_body(handle as int),
{
    let mut body = start_body(0);
    body.put_i32(handle);
    SksRequest { selector, body }
}

pub fn req_unload_keybag(handle: KeyBagHandle) -> (r: SksRequest)
    ensures
        r.selector == OP_SKS_UNLOAD_KEYBAG,
        r.body@ == handle_body(handle.0 as int),
{
    req_on_handle(OP_SKS_UNLOAD_KEYBAG, handle.value())
}

pub fn req_copy_uuid_special(special: SpecialHandle) -> (r: SksRequest)
    ensures
        r.selector == OP_SKS_COPY_UUID,
        r.body@ == handle_body(special.0 as int),
{
    req_on_handle(OP_SKS_COPY_UUID, special.value())
}

pub fn req_copy_keybag_uuid(handle: KeyBagHandle) -> (r: SksRequest)
    ensures
        r.selector == OP_SKS_COPY_UUID,
        r.body@ == handle_body(handle.0 as int),
{
    req_on_handle(OP_SKS_COPY_UUID, handle.value())
}

pub fn req_copy_keybag(handle: KeyBagHandle) -> (r: SksRequest)
    ensures
        r.selector == OP_SKS_COPY_KEYBAG,
        r.body@ == handle_body(handle.0 as int),
{
    req_on_handle(OP_SKS_COPY_KEYBAG, handle.value())
}

pub fn req_copy_keybag_special(special: SpecialHandle) -> (r: SksRequest)
    ensures
        r.selector == OP_SKS_COPY_KEYBAG,
        r.body@ == handle_body(special.0 as int),
{
    req_on_handle(OP_SKS_COPY_KEYBAG, special.value())
}

/// The body that loads a wrapped bag.
pub open spec fn load_body(wrapped: Seq<u8>) -> Seq<u8> {
    prefix(0) + blob_bytes(wrapped)
}

pub fn req_load_keybag(wrapped: &[u8]) -> (r: Result<SksRequest, Errno>)
    ensures
        match r {
            Ok(q) => {
                &&& wrapped.len() <= u32::MAX
                &&& q.selector == OP_SKS_LOAD_KEYBAG
                &&& q.body@ == load_body(wrapped@)
            },
            Err(e) => wrapped.len() > u32::MAX && e == Errno::EINVAL,
        },
{
    let mut body = start_body(0);
    match body.put_blob(wrapped) {
        Ok(_) => {},
        Err(e) => {
            return Err(e);
        },
    }
    Ok(SksRequest { selector: OP_SKS_LOAD_KEYBAG, body })
}

/// The body that unlocks a bag, loaded or designated.
pub open spec fn unlock_body(handle: int, secret: Seq<u8>) -> Seq<u8> {
    prefix(SKS_LOCK_STATE_VARIANT as int) + i32_le(handle) + i32_le(0) + blob_bytes(secret)
        + u64_le(0)
}

fn req_unlock(handle: i32, secret: &[u8]) -> (r: Result<SksRequest, Errno>)
    ensures
        match r {
            Ok(q) => q.selector == OP_SKS_CHANGE_LOCK_STATE && q.body@ == unlock_body(
                handle as int,
                secret@,
            ),
            Err(e) => secret.len() > u32::MAX && e == Errno::EINVAL,
        },
{
    let mut body = start_body(SKS_LOCK_STATE_VARIANT);
    body.put_i32(handle);
    body.put_i32(0);
    match body.put_blob(secret) {
        Ok(_) => {},
        Err(e) => {
            return Err(e);
        },
    }
    body.put_u64(0);
    Ok(SksRequest { selector: OP_SKS_CHANGE_LOCK_STATE, body })
}

/// A health check was passed. Unlocking asks for one, and uses it up.
#[derive(Debug, PartialEq, Eq)]
pub struct Healthy {
    passed: (),
}

pub fn req_unlock_special(special: SpecialHandle, secret: &[u8], healthy: Healthy) -> (r: Result<
    SksRequest,
    Errno,
>)
    ensures
        match r {
            Ok(q) => q.selector == OP_SKS_CHANGE_LOCK_STATE && q.body@ == unlock_body(
                special.0 as int,
                secret@,
            ),
            Err(e) => secret.len() > u32::MAX && e == Errno::EINVAL,
        },
{
    let _ = healthy;
    req_unlock(special.value(), secret)
}

pub fn req_change_lock_state(handle: KeyBagHandle, secret: &[u8], healthy: Healthy) -> (r: Result<
    SksRequest,
    Errno,
>)
    ensures
        match r {
            Ok(q) => q.selector == OP_SKS_CHANGE_LOCK_STATE && q.body@ == unlock_body(
                handle.0 as int,
                secret@,
            ),
            Err(e) => secret.len() > u32::MAX && e == Errno::EINVAL,
        },
{
    let _ = healthy;
    req_unlock(handle.value(), secret)
}

/// The body that has the secret of a designated bag verified for a credential.
pub open spec fn verify_body(special: int, secret: Seq<u8>, acm_context: Seq<u8>) -> Seq<u8> {
    prefix(1) + i32_le(special) + blob_bytes(secret) + blob_bytes(acm_context) + u64_le(0)
}

pub fn req_verify_secret(special: SpecialHandle, secret: &[u8], acm_context: &[u8]) -> (r: Result<
    SksRequest,
    Errno,
>)
    requires
        acm_context.len() == SKS_AUTH_TOKEN_LEN,
    ensures
        match r {
            Ok(q) => {
                &&& secret.len() <= u32::MAX
                &&& q.selector == OP_SKS_VERIFY_SECRET
                &&& q.body@ == verify_body(special.0 as int, secret@, acm_context@)
            },
            Err(e) => secret.len() > u32::MAX && e == Errno::EINVAL,
        },
{
    let mut body = start_body(SKS_VERIFY_SECRET_VARIANT);
    body.put_i32(special.value());
    match body.put_blob(secret) {
        Ok(_) => {},
        Err(e) => {
            return Err(e);
        },
    }
    let _ = body.put_blob(acm_context);
    body.put_u64(0);
    Ok(SksRequest { selector: OP_SKS_VERIFY_SECRET, body })
}

/// A reply and the bytes that came with it.
pub struct SksOutcome {
    pub reply: SksReply,
    pub response: Vec<u8>,
}

impl SksOutcome {
    /// Overwrites the response, for when it is let go.
    pub fn wipe(&mut self)
        ensures
            final(self).reply == old(self).reply,
            final(self).response@ == zeroed(old(self).response@.len() as int),
    {
        wipe(&mut self.response);
    }

    /// The body of the response, if there is one.
    pub open spec fn body(&self) -> Option<Seq<u8>> {
        response_body(self.response@)
    }

    /// The reply says that it went well, and so does the operation.
    pub open spec fn succeeded(&self) -> bool {
        &&& self.body() is Some
        &&& self.reply.status == 0
        &&& self.body()->0.len() >= 4
        &&& i32_at(self.body()->0, 0) == 0
    }
}

/// The body of a response.
pub fn report_response(out: &SksOutcome) -> (r: Option<&[u8]>)
    ensures
        match r {
            Some(b) => out.body() == Some(b@),
            None => out.body() is None,
        },
{
    if out.response.len() == 0 {
        return None;
    }
    match parse_response(&out.response) {
        Ok(b) => Some(b),
        Err(_) => None,
    }
}

/// The blob behind the status of a response that says it went well.
pub fn blob_of_success(out: &SksOutcome) -> (r: Option<&[u8]>)
    ensures
        match r {
            Some(b) => out.succeeded() && blob_at(out.body()->0, 4) is Some && (blob_at(
                out.body()->0,
                4,
            )->0).0 == b@,
            None => !(out.succeeded() && blob_at(out.body()->0, 4) is Some),
        },
{
    let body = match report_response(out) {
        Some(b) => b,
        None => {
            return None;
        },
    };
    if out.reply.status != 0 {
        return None;
    }
    match operation_status(body) {
        Some(s) => {
            if s != 0 {
                return None;
            }
        },
        None => {
            return None;
        },
    }
    match read_blob(body, 4) {
        Some((b, _)) => Some(b),
        None => None,
    }
}

/// The identifier in the reply to a request for it.
pub open spec fn uuid_in(out: SksOutcome) -> Option<Uuid> {
    if out.succeeded() {
        match blob_at(out.body()->0, 4) {
            Some((b, _)) => if b.len() == 16 {
                Some(uuid_at(b, 0))
            } else {
                None
            },
            None => None,
        }
    } else {
        None
    }
}

pub fn uuid_from_reply(out: &SksOutcome) -> (r: Option<Uuid>)
    ensures
        r == uuid_in(*out),
{
    match blob_of_success(out) {
        Some(b) => {
            if b.len() != 16 {
                return None;
            }
            Some(Uuid::read(b, 0))
        },
        None => None,
    }
}

/// The wrapped bag in the reply to a request for a copy.
pub open spec fn wrapped_in(out: SksOutcome) -> Option<Seq<u8>> {
    if out.succeeded() {
        match blob_at(out.body()->0, 4) {
            Some((b, _)) => if b.len() > 0 {
                Some(b)
            } else {
                None
            },
            None => None,
        }
    } else {
        None
    }
}

pub fn wrapped_from_copy_reply(out: &SksOutcome) -> (r: Option<Vec<u8>>)
    ensures
        match r {
            Some(b) => wrapped_in(*out) == Some(b@),
            None => wrapped_in(*out) is None,
        },
{
    match blob_of_success(out) {
        Some(b) => {
            if b.len() == 0 {
                return None;
            }
            Some(crate::bytes::copy_of(b))
        },
        None => None,
    }
}

/// The handle in the reply to a load.
pub open spec fn loaded_handle(out: SksOutcome) -> Option<KeyBagHandle> {
    if out.succeeded() && out.body()->0.len() == SKS_LOAD_REPLY_LEN && i32_at(out.body()->0, 4)
        >= 0 {
        Some(KeyBagHandle(i32_at(out.body()->0, 4) as i32))
    } else {
        None
    }
}

pub fn handle_from_load_reply(out: &SksOutcome) -> (r: Option<KeyBagHandle>)
    ensures
        r == loaded_handle(*out),
{
    let body = match report_response(out) {
        Some(b) => b,
        None => {
            return None;
        },
    };
    if out.reply.status != 0 || body.len() != SKS_LOAD_REPLY_LEN {
        return None;
    }
    let status: i32 = read_i32(body, 0);
    let handle: i32 = read_i32(body, 4);
    if status != 0 || handle < 0 {
        return None;
    }
    Some(KeyBagHandle(handle))
}

/// The handle in the reply to the making of a bag: the variant, the handle, and
/// a blob that ends the body.
pub open spec fn created_handle(out: SksOutcome) -> Option<KeyBagHandle> {
    let body = out.body()->0;
    if out.body() is Some && out.reply.status == 0 && body.len() >= 12 && u32_at(body, 0)
        == SKS_CREATE_VARIANT_IDENTITY && i32_at(body, 4) >= 0 && (blob_at(body, 8) matches Some(
        (_, end),
    ) && end == body.len()) {
        Some(KeyBagHandle(i32_at(body, 4) as i32))
    } else {
        None
    }
}

pub fn handle_from_create_reply(out: &SksOutcome) -> (r: Option<KeyBagHandle>)
    ensures
        r == created_handle(*out),
{
    let body = match report_response(out) {
        Some(b) => b,
        None => {
            return None;
        },
    };
    if out.reply.status != 0 || body.len() < 12 {
        return None;
    }
    let variant: u32 = read_u32(body, 0);
    let handle: i32 = read_i32(body, 4);
    match read_blob(body, 8) {
        Some((_, end)) => {
            if variant != SKS_CREATE_VARIANT_IDENTITY || handle < 0 || end != body.len() {
                return None;
            }
            Some(KeyBagHandle(handle))
        },
        None => None,
    }
}

/// Whether a reply says that the bag was designated.
pub open spec fn was_designated(out: SksOutcome) -> bool {
    out.body() is Some && out.body()->0.len() == SKS_DESIGNATE_REPLY_LEN && u32_at(out.body()->0, 0)
        == SKS_DESIGNATE_VARIANT
}

/// Judges the reply to a designation.
pub fn designated(out: &SksOutcome) -> (r: bool)
    ensures
        r == was_designated(*out),
{
    match report_response(out) {
        Some(body) => body.len() == SKS_DESIGNATE_REPLY_LEN && read_u32(body, 0)
            == SKS_DESIGNATE_VARIANT,
        None => false,
    }
}

/// Judges the reply to a health check.
pub fn health_check(out: Option<&SksOutcome>) -> (r: Option<Healthy>)
    ensures
        r is Some == (out is Some && out->0.reply.status == 0),
{
    match out {
        Some(o) => {
            if o.reply.status != 0 {
                return None;
            }
            Some(Healthy { passed: () })
        },
        None => None,
    }
}

/// A request that was given up.
#[derive(Clone, Copy, Debug, PartialEq, Eq, Structural)]
pub struct Abandoned {
    pub selector: u8,
    pub seq: u8,
    pub waited_ms: u64,
}

/// What the endpoint remembers: the replies caught while a request is out, the
/// last requests that were given up, and whether the endpoint is taken to be
/// wedged.
pub struct SksProbe {
    active: bool,
    captured: Vec<Message>,
    abandoned: Vec<Option<Abandoned>>,
    abandoned_next: usize,
    wedged: bool,
}

#[verifier::ext_equal]
pub struct ProbeView {
    pub active: bool,
    pub captured: Seq<Message>,
    pub abandoned: Seq<Option<Abandoned>>,
    pub abandoned_next: int,
    pub wedged: bool,
}

/// What an unasked message amounts to.
#[derive(Clone, Copy, Debug, PartialEq, Eq, Structural)]
pub enum Unasked {
    /// A waiter has to look.
    Wake,
    /// A late answer: the buffers can be cleared, and the endpoint is not wedged
    /// after all.
    Late,
    Nothing,
}

impl ProbeView {
    pub open spec fn was_abandoned(self, m: Message) -> bool {
        exists|i: int|
            0 <= i < self.abandoned.len() && (#[trigger] self.abandoned[i] matches Some(a)
                && answers(m, a.selector, a.seq))
    }
}

/// What comes of a message: while a request is out it is caught, as far as there
/// is room; otherwise the late answer to one that was given up lifts the wedge.
pub open spec fn arrived(p: ProbeView, msg: Message) -> (ProbeView, Unasked) {
    if p.active {
        (
            ProbeView {
                captured: if p.captured.len() < SKS_MAX_CAPTURE {
                    p.captured.push(msg)
                } else {
                    p.captured
                },
                ..p
            },
            Unasked::Wake,
        )
    } else if p.was_abandoned(msg) {
        (ProbeView { wedged: false, ..p }, Unasked::Late)
    } else {
        (p, Unasked::Nothing)
    }
}

/// What is remembered of a request that is given up: it takes the place of the one
/// that was given up eight times before.
pub open spec fn gave_up(p: ProbeView, a: Abandoned, condemn: bool) -> ProbeView {
    ProbeView {
        abandoned: p.abandoned.update(p.abandoned_next, Some(a)),
        abandoned_next: (p.abandoned_next + 1) % 8,
        wedged: p.wedged || condemn,
        ..p
    }
}

impl SksProbe {
    pub closed spec fn view(&self) -> ProbeView {
        ProbeView {
            active: self.active,
            captured: self.captured@,
            abandoned: self.abandoned@,
            abandoned_next: self.abandoned_next as int,
            wedged: self.wedged,
        }
    }

    pub open spec fn wf(&self) -> bool {
        self@.abandoned.len() == SKS_MAX_ABANDONED && 0 <= self@.abandoned_next < SKS_MAX_ABANDONED
    }

    pub fn new() -> (p: SksProbe)
        ensures
            p.wf(),
            !p@.active,
            p@.captured.len() == 0,
            forall|i: int| 0 <= i < SKS_MAX_ABANDONED ==> p@.abandoned[i] is None,
            p@.abandoned_next == 0,
            !p@.wedged,
    {
        let mut abandoned: Vec<Option<Abandoned>> = Vec::new();
        while abandoned.len() < SKS_MAX_ABANDONED
            invariant
                abandoned.len() <= SKS_MAX_ABANDONED,
                forall|i: int| 0 <= i < abandoned.len() ==> abandoned@[i] is None,
            decreases SKS_MAX_ABANDONED - abandoned.len(),
        {
            abandoned.push(None);
        }
        SksProbe {
            active: false,
            captured: Vec::new(),
            abandoned,
            abandoned_next: 0,
            wedged: false,
        }
    }

    /// Takes a message in.
    pub fn on_sks(&mut self, msg: Message) -> (r: Unasked)
        requires
            old(self).wf(),
        ensures
            final(self).wf(),
            (final(self)@, r) == arrived(old(self)@, msg),
    {
        if self.active {
            if self.captured.len() < SKS_MAX_CAPTURE {
                self.captured.push(msg);
            }
            return Unasked::Wake;
        }
        let d = decode_sks(&msg);
        let mut i: usize = 0;
        while i < self.abandoned.len()
            invariant
                i <= self.abandoned.len(),
                *self == *old(self),
                self.wf(),
                !self@.active,
                d == reply_in(msg.msg0),
                forall|j: int|
                    0 <= j < i ==> !(#[trigger] self@.abandoned[j] matches Some(a) && answers(
                        msg,
                        a.selector,
                        a.seq,
                    )),
            decreases self.abandoned.len() - i,
        {
            match self.abandoned[i] {
                Some(a) => {
                    if a.selector == d.selector && a.seq == d.seq {
                        assert(self@.abandoned[i as int] == Some(a));
                        assert(self@.was_abandoned(msg));
                        self.wedged = false;
                        return Unasked::Late;
                    }
                },
                None => {},
            }
            i = i + 1;
        }
        Unasked::Nothing
    }

    /// Notes that a request was given up, in place of the oldest such note. The
    /// endpoint counts as wedged from then on, if the caller says so.
    pub fn note_abandoned(&mut self, a: Abandoned, condemn: bool)
        requires
            old(self).wf(),
        ensures
            final(self).wf(),
            final(self)@ == gave_up(old(self)@, a, condemn),
    {
        self.abandoned.set(self.abandoned_next, Some(a));
        self.abandoned_next = (self.abandoned_next + 1) % SKS_MAX_ABANDONED;
        if condemn {
            self.wedged = true;
        }
    }

    pub fn arm(&mut self)
        requires
            old(self).wf(),
        ensures
            final(self).wf(),
            final(self)@ == (ProbeView {
                active: true,
                captured: Seq::empty(),
                ..old(self)@
            }),
    {
        self.captured = Vec::new();
        self.active = true;
        assert(self@.captured =~= Seq::<Message>::empty());
    }

    pub fn disarm(&mut self) -> (r: Vec<Message>)
        requires
            old(self).wf(),
        ensures
            final(self).wf(),
            r@ == old(self)@.captured,
            final(self)@ == (ProbeView {
                active: false,
                captured: Seq::empty(),
                ..old(self)@
            }),
    {
        self.active = false;
        let mut taken: Vec<Message> = Vec::new();
        core::mem::swap(&mut taken, &mut self.captured);
        assert(self@.captured =~= Seq::<Message>::empty());
        taken
    }

    /// Whether a request may be sent: the buffers are registered and the
    /// endpoint is not wedged.
    pub fn may_send(&self, registered: bool) -> (r: bool)
        ensures
            r == (registered && !self@.wedged),
    {
        registered && !self.wedged
    }

    /// The caught message with this number.
    pub fn caught(&self, i: usize) -> (m: Option<Message>)
        ensures
            m == (if i < self@.captured.len() {
                Some(self@.captured[i as int])
            } else {
                None
            }),
    {
        if i < self.captured.len() {
            Some(self.captured[i])
        } else {
            None
        }
    }
}

/// The first message from `from` on that answers a request.
pub open spec fn first_answer(msgs: Seq<Message>, selector: u8, seq: u8, from: int) -> Option<
    Message,
>
    decreases msgs.len() - from,
{
    if from >= msgs.len() {
        None
    } else if answers(msgs[from], selector, seq) {
        Some(msgs[from])
    } else {
        first_answer(msgs, selector, seq, from + 1)
    }
}

/// The wait for the answer to one request.
#[derive(Clone, Copy, Debug, PartialEq, Eq, Structural)]
pub struct Correlator {
    pub selector: u8,
    pub seq: u8,
    pub examined: usize,
    pub set_aside: u32,
}

/// How the wait goes on.
#[derive(Clone, Copy, Debug, PartialEq, Eq, Structural)]
pub enum Wait {
    /// This is the answer.
    Found(Message),
    /// Not the answer. Wait for the next message.
    More,
    /// Stop waiting.
    Over,
}

impl Correlator {
    pub fn new(sent: &Message) -> (c: Correlator)
        ensures
            c == (Correlator {
                selector: reply_in(sent.msg0).selector,
                seq: reply_in(sent.msg0).seq,
                examined: 0,
                set_aside: 0,
            }),
    {
        let d = decode_sks(sent);
        Correlator { selector: d.selector, seq: d.seq, examined: 0, set_aside: 0 }
    }

    /// Looks at the next caught message. `None` says that the wait for it timed
    /// out. Messages that answer something else are set aside, up to a number.
    pub fn next(&mut self, candidate: Option<Message>) -> (w: Wait)
        requires
            old(self).examined < usize::MAX,
        ensures
            final(self).selector == old(self).selector,
            final(self).seq == old(self).seq,
            match candidate {
                None => w == Wait::Over && *final(self) == *old(self),
                Some(m) => {
                    &&& final(self).examined == old(self).examined + 1
                    &&& if answers(m, old(self).selector, old(self).seq) {
                        w == Wait::Found(m) && final(self).set_aside == old(self).set_aside
                    } else {
                        let n = if old(self).set_aside == u32::MAX {
                            old(self).set_aside
                        } else {
                            (old(self).set_aside + 1) as u32
                        };
                        &&& final(self).set_aside == n
                        &&& w == if n >= SKS_MAX_SET_ASIDE {
                            Wait::Over
                        } else {
                            Wait::More
                        }
                    }
                },
            },
    {
        let m = match candidate {
            Some(m) => m,
            None => {
                return Wait::Over;
            },
        };
        self.examined = self.examined + 1;
        let d = decode_sks(&m);
        if d.seq == self.seq && d.selector == self.selector {
            return Wait::Found(m);
        }
        self.set_aside = self.set_aside.saturating_add(1);
        if self.set_aside >= SKS_MAX_SET_ASIDE {
            Wait::Over
        } else {
            Wait::More
        }
    }

    /// A last look, when the wait is over, at what was caught and not yet looked
    /// at.
    pub fn last_look(&self, leftover: &Vec<Message>) -> (r: Option<Message>)
        ensures
            r == first_answer(leftover@, self.selector, self.seq, self.examined as int),
    {
        let mut i: usize = self.examined;
        while i < leftover.len()
            invariant
                self.examined <= i,
                first_answer(leftover@, self.selector, self.seq, self.examined as int)
                    == first_answer(leftover@, self.selector, self.seq, i as int),
            decreases leftover.len() - i,
        {
            let d = decode_sks(&leftover[i]);
            if d.seq == self.seq && d.selector == self.selector {
                return Some(leftover[i]);
            }
            i = i + 1;
        }
        None
    }
}

/// An exchange never takes another request's answer, and never misses its own:
/// passing over a message that does not answer leaves the first answer where it
/// was, so what the wait and the last look find together is the first answer
/// among all that was caught.
pub proof fn passing_over_keeps_first_answer(
    msgs: Seq<Message>,
    selector: u8,
    seq: u8,
    examined: int,
)
    requires
        0 <= examined <= msgs.len(),
        forall|i: int| 0 <= i < examined ==> !answers(#[trigger] msgs[i], selector, seq),
    ensures
        first_answer(msgs, selector, seq, 0) == first_answer(msgs, selector, seq, examined),
    decreases examined,
{
    if examined > 0 {
        passing_over_keeps_first_answer(msgs, selector, seq, examined - 1);
        assert(!answers(msgs[examined - 1], selector, seq));
    }
}

// ---------------------------------------------------------------------------
// Laws.
// ---------------------------------------------------------------------------
/// What is asked of the key store is known by its number.
pub proof fn operations_are_known_by_number(selector: u8)
    ensures
        selector == OP_SKS_CREATE_KEYBAG <==> selector == 1,
        selector == OP_SKS_COPY_KEYBAG <==> selector == 2,
        selector == OP_SKS_LOAD_KEYBAG <==> selector == 3,
        selector == OP_SKS_CHANGE_LOCK_STATE <==> selector == 4,
        selector == OP_SKS_UNLOAD_KEYBAG <==> selector == 5,
        selector == OP_SKS_COPY_UUID <==> selector == 6,
        selector == OP_SKS_UNWRAP_PFK <==> selector == 9,
        selector == OP_SKS_DESIGNATE_KEYBAG <==> selector == 13,
        selector == OP_SKS_NEW_PFK <==> selector == 16,
        selector == OP_SKS_VERIFY_SECRET <==> selector == 33,
        selector == OP_SKS_PERFORM_OPERATION <==> selector == 34,
        selector == OP_SKS_UNWRAP_MEDIA_KEY <==> selector == 50,
        selector == OP_SKS_UNWRAP_VEK <==> selector == 65,
        selector == OP_SKS_SET_PROTECTION <==> selector == 71,
        selector == OP_SKS_GET_BLOB_STATE <==> selector == 72,
        selector == OP_SKS_CAPABILITIES <==> selector == 77,
{
}

/// A request of less than a kibibyte is given two seconds, each full kibibyte six
/// more, and none is given more than thirty.
pub proof fn patience_grows(len: int)
    requires
        0 <= len,
    ensures
        len < 1024 ==> patience(len) == 2000,
        1024 <= len < 2048 ==> patience(len) == 8000,
        2048 <= len < 3072 ==> patience(len) == 14_000,
        3072 <= len < 4096 ==> patience(len) == 20_000,
        4096 <= len < 5120 ==> patience(len) == 26_000,
        5120 <= len ==> patience(len) == 30_000,
{
}

/// Two bits of a sequence number are always set, and the others are the counter's.
pub proof fn sequence_bits(n: u8)
    ensures
        sequence_of(n) & 0x60 == 0x60,
        sequence_of(n) & 0x9f == n & 0x9f,
{
    assert((0x60u8 | (n & !0x60u8)) & 0x60 == 0x60 && (0x60u8 | (n & !0x60u8)) & 0x9f == n & 0x9f)
        by (bit_vector);
}

/// The word of a request goes to endpoint 0x12, carries the selector and the
/// sequence number in the two bytes behind it, and the length in its top sixteen
/// bits.
pub proof fn request_word_is_laid_out(selector: u8, seq: u8, len: u16)
    ensures
        request_word(selector, seq, len) % 0x100 == 0x12,
        request_word(selector, seq, len) / 0x100 % 0x100 == selector,
        request_word(selector, seq, len) / 0x1_0000 % 0x100 == seq,
        request_word(selector, seq, len) / 0x100_0000 % 0x100_0000 == 0,
        request_word(selector, seq, len) / 0x1_0000_0000_0000 == len,
{
    let k3 = 0x100_0000 * len;
    let k2 = seq + 0x100 * k3;
    let k1 = selector + 0x100 * k2;
    let m = request_word(selector, seq, len);
    assert(m == 0x12 + 0x100 * k1);
    assert(m / 0x100 == k1);
    assert(k1 / 0x100 == k2);
    assert(k2 / 0x100 == k3);
    vstd::arithmetic::div_mod::lemma_div_denominator(m, 0x100, 0x100);
    vstd::arithmetic::div_mod::lemma_div_denominator(m, 0x1_0000, 0x100);
    vstd::arithmetic::div_mod::lemma_div_denominator(m, 0x100_0000, 0x100_0000);
}

/// A reply's word carries the selector with its top bit set, the sequence number, a
/// signed status and, in its top sixteen bits, the length of the response.
pub proof fn reply_is_read(ep: u8, selector: u8, seq: u8, status: u8, size: u16)
    requires
        selector < 0x80,
    ensures
        ({
            let m = ep + 0x100 * (0x80 + selector) + 0x1_0000 * seq + 0x100_0000 * status
                + 0x1_0000_0000_0000 * size;
            let r = reply_in(m as u64);
            &&& r.selector == selector
            &&& r.seq == seq
            &&& r.response_size == size
            &&& status < 0x80 ==> r.status == status
            &&& status >= 0x80 ==> r.status == status - 0x100
        }),
{
    let k3 = status + 0x100_0000 * size;
    let k2 = seq + 0x100 * k3;
    let k1 = 0x80 + selector + 0x100 * k2;
    let m = ep + 0x100 * k1;
    assert(m == ep + 0x100 * (0x80 + selector) + 0x1_0000 * seq + 0x100_0000 * status
        + 0x1_0000_0000_0000 * size);
    assert(m / 0x100 == k1);
    assert(k1 / 0x100 == k2);
    assert(k2 / 0x100 == k3);
    assert(k3 / 0x100_0000 == size);
    vstd::arithmetic::div_mod::lemma_div_denominator(m, 0x100, 0x100);
    vstd::arithmetic::div_mod::lemma_div_denominator(m, 0x1_0000, 0x100);
    vstd::arithmetic::div_mod::lemma_div_denominator(m, 0x100_0000, 0x100_0000);
    vstd::arithmetic::div_mod::lemma_fundamental_div_mod_converse(
        k1,
        0x80,
        2 * k2 + 1,
        selector as int,
    );
    assert(k2 % 0x100 == seq);
    assert(k3 % 0x100 == status) by {
        vstd::arithmetic::div_mod::lemma_fundamental_div_mod_converse(
            k3,
            0x100,
            0x1_0000 * size,
            status as int,
        );
    }
    assert(0 <= m < 0x1_0000_0000_0000_0000);
}

/// Reading a request for the capabilities gives variant 0, client 1 and nothing.
pub proof fn capabilities_request_reads_back()
    ensures
        reads_as(
            capabilities_body(),
            seq![
                Field::U32(0),
                Field::U64(1),
                Field::Blob(Seq::empty()),
            ],
        ),
{
    let f = seq![
        Field::U32(0),
        Field::U64(1),
        Field::Blob(Seq::empty()),
    ];
    reveal_with_fuel(joined, 4);
    assert(joined(f, 3) =~= capabilities_body());
    joined_reads_as(f);
}

/// Reading a request that designates a bag gives variant 1, the client, the bag that
/// is loaded, the user's number negated, the secret and a zero.
pub proof fn designate_request_reads_back(source: i32, user: i32, secret: Seq<u8>)
    requires
        user >= 10,
        secret.len() <= u32::MAX,
    ensures
        reads_as(
            designate_body(source as int, user as int, secret),
            seq![
                Field::U32(1),
                Field::U64(0x4c49_4e55_5853_4b53),
                Field::I32(source as int),
                Field::I32(-user),
                Field::Blob(secret),
                Field::U64(0),
            ],
        ),
{
    let f = seq![
        Field::U32(1),
        Field::U64(0x4c49_4e55_5853_4b53),
        Field::I32(source as int),
        Field::I32(-user),
        Field::Blob(secret),
        Field::U64(0),
    ];
    reveal_with_fuel(joined, 7);
    assert(joined(f, 6) =~= designate_body(source as int, user as int, secret));
    joined_reads_as(f);
}

/// Reading a request on a bag gives variant 0, the client and the bag's handle.
pub proof fn handle_request_reads_back(handle: i32)
    ensures
        reads_as(
            handle_body(handle as int),
            seq![
                Field::U32(0),
                Field::U64(0x4c49_4e55_5853_4b53),
                Field::I32(handle as int),
            ],
        ),
{
    let f = seq![
        Field::U32(0),
        Field::U64(0x4c49_4e55_5853_4b53),
        Field::I32(handle as int),
    ];
    reveal_with_fuel(joined, 4);
    assert(joined(f, 3) =~= handle_body(handle as int));
    joined_reads_as(f);
}

/// Reading a request that loads a bag gives variant 0, the client and the wrapped
/// bag.
pub proof fn load_request_reads_back(wrapped: Seq<u8>)
    requires
        wrapped.len() <= u32::MAX,
    ensures
        reads_as(
            load_body(wrapped),
            seq![
                Field::U32(0),
                Field::U64(0x4c49_4e55_5853_4b53),
                Field::Blob(wrapped),
            ],
        ),
{
    let f = seq![
        Field::U32(0),
        Field::U64(0x4c49_4e55_5853_4b53),
        Field::Blob(wrapped),
    ];
    reveal_with_fuel(joined, 4);
    assert(joined(f, 3) =~= load_body(wrapped));
    joined_reads_as(f);
}

/// Reading a request that unlocks a bag gives variant 1, the client, the bag's handle,
/// the state, which is zero, the secret and a zero.
pub proof fn unlock_request_reads_back(handle: i32, secret: Seq<u8>)
    requires
        secret.len() <= u32::MAX,
    ensures
        reads_as(
            unlock_body(handle as int, secret),
            seq![
                Field::U32(1),
                Field::U64(0x4c49_4e55_5853_4b53),
                Field::I32(handle as int),
                Field::I32(0),
                Field::Blob(secret),
                Field::U64(0),
            ],
        ),
{
    let f = seq![
        Field::U32(1),
        Field::U64(0x4c49_4e55_5853_4b53),
        Field::I32(handle as int),
        Field::I32(0),
        Field::Blob(secret),
        Field::U64(0),
    ];
    reveal_with_fuel(joined, 7);
    assert(joined(f, 6) =~= unlock_body(handle as int, secret));
    joined_reads_as(f);
}

/// Reading a request that has a secret verified gives variant 1, the client, the
/// designated bag's handle, the secret, the credential's token and a zero.
pub proof fn verify_request_reads_back(special: i32, secret: Seq<u8>, acm_context: Seq<u8>)
    requires
        secret.len() <= u32::MAX,
        acm_context.len() == 16,
    ensures
        reads_as(
            verify_body(special as int, secret, acm_context),
            seq![
                Field::U32(1),
                Field::U64(0x4c49_4e55_5853_4b53),
                Field::I32(special as int),
                Field::Blob(secret),
                Field::Blob(acm_context),
                Field::U64(0),
            ],
        ),
{
    let f = seq![
        Field::U32(1),
        Field::U64(0x4c49_4e55_5853_4b53),
        Field::I32(special as int),
        Field::Blob(secret),
        Field::Blob(acm_context),
        Field::U64(0),
    ];
    reveal_with_fuel(joined, 7);
    assert(joined(f, 6) =~= verify_body(special as int, secret, acm_context));
    joined_reads_as(f);
}

/// A reply whose status and whose own number are zero names the identifier in its
/// blob, which takes sixteen bytes, or holds the wrapped bag, which is not empty.
/// One that says otherwise names and holds nothing.
pub proof fn blob_reply_is_read(out: SksOutcome, number: i32, blob: Seq<u8>)
    requires
        out.body() is Some,
        reads_as(out.body()->0, seq![Field::I32(number as int), Field::Blob(blob)]),
    ensures
        out.reply.status == 0 && number == 0 && blob.len() == 16 ==> (uuid_in(out) matches Some(u)
            && u@ == blob),
        out.reply.status != 0 || number != 0 || blob.len() != 16 ==> uuid_in(out) is None,
        out.reply.status == 0 && number == 0 && blob.len() > 0 ==> wrapped_in(out) == Some(blob),
        out.reply.status != 0 || number != 0 || blob.len() == 0 ==> wrapped_in(out) is None,
{
    reveal_with_fuel(reads_from, 3);
    if blob.len() == 16 {
        crate::uuid::uuid_bytes(blob, 0);
        assert(blob.subrange(0, 16) =~= blob);
    }
}

/// The reply to a load is two numbers: zero, and the handle, which is not negative.
pub proof fn load_reply_is_read(out: SksOutcome, number: i32, handle: i32)
    requires
        out.body() is Some,
        reads_as(out.body()->0, seq![Field::I32(number as int), Field::I32(handle as int)]),
    ensures
        out.reply.status == 0 && number == 0 && handle >= 0 ==> loaded_handle(out) == Some(
            KeyBagHandle(handle),
        ),
        out.reply.status != 0 || number != 0 || handle < 0 ==> loaded_handle(out) is None,
{
    reveal_with_fuel(reads_from, 3);
}

/// The reply to the making of a bag is the variant, which is 5, the handle, which is
/// not negative, and a blob.
pub proof fn create_reply_is_read(out: SksOutcome, variant: u32, handle: i32, blob: Seq<u8>)
    requires
        out.body() is Some,
        reads_as(
            out.body()->0,
            seq![Field::U32(variant as int), Field::I32(handle as int), Field::Blob(blob)],
        ),
    ensures
        out.reply.status == 0 && variant == 5 && handle >= 0 ==> created_handle(out) == Some(
            KeyBagHandle(handle),
        ),
        out.reply.status != 0 || variant != 5 || handle < 0 ==> created_handle(out) is None,
{
    reveal_with_fuel(reads_from, 4);
}

/// A bag was designated exactly if the reply's body is the one number 1.
pub proof fn designate_reply_is_read(out: SksOutcome, number: u32)
    requires
        out.body() is Some,
        reads_as(out.body()->0, seq![Field::U32(number as int)]),
    ensures
        was_designated(out) <==> number == 1,
{
    reveal_with_fuel(reads_from, 2);
}

/// A request that was given up is remembered, and so are the seven before it. A
/// verdict on the endpoint stays until an answer to one of them arrives after all.
pub proof fn late_answer_lifts_the_verdict(p: ProbeView, a: Abandoned, m: Message, i: int)
    requires
        p.abandoned.len() == 8,
        0 <= p.abandoned_next < 8,
        !p.active,
    ensures
        ({
            let q = gave_up(p, a, true);
            &&& q.wedged
            &&& answers(m, a.selector, a.seq) ==> arrived(q, m).1 == Unasked::Late && !arrived(
                q,
                m,
            ).0.wedged
            &&& 0 <= i < 8 && i != p.abandoned_next ==> q.abandoned[i] == p.abandoned[i]
            &&& q.abandoned_next == if p.abandoned_next == 7 {
                0
            } else {
                p.abandoned_next + 1
            }
            &&& (forall|j: int|
                0 <= j < 8 ==> !(#[trigger] q.abandoned[j] matches Some(b) && answers(
                    m,
                    b.selector,
                    b.seq,
                ))) ==> arrived(q, m) == (q, Unasked::Nothing)
        }),
{
    let q = gave_up(p, a, true);
    assert(q.abandoned[p.abandoned_next] == Some(a));
}

/// While a request is out what arrives is caught behind what was caught before; the
/// ninth message and those after it are dropped, and each wakes who waits.
pub proof fn arrivals_are_caught(p: ProbeView, m: Message)
    requires
        p.active,
    ensures
        arrived(p, m).1 == Unasked::Wake,
        p.captured.len() < 8 ==> arrived(p, m).0.captured == p.captured.push(m),
        p.captured.len() >= 8 ==> arrived(p, m).0.captured == p.captured,
        arrived(p, m).0.wedged == p.wedged,
{
}

/// The first answer answers, and nothing before it does.
pub proof fn first_answer_is_the_first(
    msgs: Seq<Message>,
    selector: u8,
    seq: u8,
    from: int,
    i: int,
)
    requires
        0 <= from <= i < msgs.len(),
        answers(msgs[i], selector, seq),
        forall|j: int| from <= j < i ==> !answers(#[trigger] msgs[j], selector, seq),
    ensures
        first_answer(msgs, selector, seq, from) == Some(msgs[i]),
    decreases i - from,
{
    if from < i {
        assert(!answers(msgs[from], selector, seq));
        first_answer_is_the_first(msgs, selector, seq, from + 1, i);
    }
}

/// The user of a designation, if the number is one.
pub open spec fn designable(value: i32) -> Option<DesignateUser> {
    if value >= SKS_DESIGNATE_USER_MIN {
        Some(DesignateUser(value))
    } else {
        None
    }
}

/// Users are numbered from 10 on.
pub proof fn users_are_numbered(value: i32)
    ensures
        value >= 10 ==> designable(value) == Some(DesignateUser(value)),
        value < 10 ==> designable(value) is None,
{
}

} // verus!
