//! The enclave's requests for its anti-replay records, and their answers.

use crate::bytes::{put_bytes, u64_be, zeroed};
use crate::crc::{crc16_ccitt, crc16_ccitt_false};
use crate::errno::Errno;
use crate::mailbox::Message;
use crate::proto::EP_XARM;
use crate::uuid::{uuid_at, Uuid};
use crate::xart_store::{
    found_at, has_key, key_is_valid, plans, raw_slot, root_key, still_there, value_in,
    write_error, Key, Store, StoreView, WritePlan, MAX_VALUE, SLOT_COUNT,
};
use vstd::prelude::*;

verus! {

pub const OP_ROOT_READ: u8 = 0x00;

pub const OP_ROOT_WRITE: u8 = 0x01;

pub const OP_SESSION_READ: u8 = 0x05;

pub const OP_SESSION_WRITE: u8 = 0x06;

pub const OP_SESSION_DELETE: u8 = 0x07;

pub const OP_QUERY_PROTECTED: u8 = 0x0e;

pub const OP_GET_OS_UUID: u8 = 0x13;

pub const STATUS_OK: u8 = 0x00;

pub const STATUS_UNAVAILABLE: u8 = 0x02;

pub const STATUS_FAILED: u8 = 0x16;

/// A root read puts this many zero bytes in front of its value.
pub const ROOT_READ_PREFIX: usize = 17;

pub const ROOT_WRITE_MAX: u16 = 0x7fef;

/// The size of each of the endpoint's buffers.
pub const OOL_SIZE_XARM: usize = 0x8000;

/// The last three bytes of a message.
#[derive(Clone, Copy, Debug, PartialEq, Eq, Structural)]
pub struct Args {
    pub a: u8,
    pub b: u8,
    pub c: u8,
}

#[derive(Clone, Copy, Debug, PartialEq, Eq, Structural)]
pub struct XarmRequest {
    pub tag: u8,
    pub opcode: u8,
    pub length: u16,
    pub args: Args,
}

#[derive(Clone, Copy, Debug, PartialEq, Eq, Structural)]
pub struct XarmReply {
    pub tag: u8,
    pub status: u8,
    pub length: u16,
    pub args: Args,
}

/// The message word with these parts, from the lowest byte up: endpoint, tag,
/// opcode or status, length, arguments.
pub open spec fn word(ep: u8, tag: u8, code: u8, length: u16, args: Args) -> int {
    ep + 0x100 * tag + 0x1_0000 * code + 0x100_0000 * length + 0x100_0000_0000 * args.a
        + 0x1_0000_0000_0000 * args.b + 0x100_0000_0000_0000 * args.c
}

pub fn decode_xarm(msg: &Message) -> (r: XarmRequest)
    ensures
        word((msg.msg0 % 0x100) as u8, r.tag, r.opcode, r.length, r.args) == msg.msg0,
{
    let m: u64 = msg.msg0;
    let m1: u64 = m / 0x100;
    let m2: u64 = m1 / 0x100;
    let m3: u64 = m2 / 0x100;
    let m4: u64 = m3 / 0x1_0000;
    let m5: u64 = m4 / 0x100;
    XarmRequest {
        tag: (m1 % 0x100) as u8,
        opcode: (m2 % 0x100) as u8,
        length: (m3 % 0x1_0000) as u16,
        args: Args { a: (m4 % 0x100) as u8, b: (m5 % 0x100) as u8, c: (m5 / 0x100) as u8 },
    }
}

pub fn encode_xarm_reply(reply: &XarmReply) -> (msg: Message)
    ensures
        msg.msg1 == 0,
        msg.msg0 == word(EP_XARM, reply.tag, reply.status, reply.length, reply.args),
{
    Message {
        msg0: EP_XARM as u64 + 0x100 * (reply.tag as u64) + 0x1_0000 * (reply.status as u64)
            + 0x100_0000 * (reply.length as u64) + 0x100_0000_0000 * (reply.args.a as u64)
            + 0x1_0000_0000_0000 * (reply.args.b as u64) + 0x100_0000_0000_0000 * (
        reply.args.c as u64),
        msg1: 0,
    }
}

/// A message word has one reading.
pub proof fn word_injective(
    ep: u8,
    t1: u8,
    c1: u8,
    l1: u16,
    a1: Args,
    t2: u8,
    c2: u8,
    l2: u16,
    a2: Args,
)
    requires
        word(ep, t1, c1, l1, a1) == word(ep, t2, c2, l2, a2),
    ensures
        t1 == t2,
        c1 == c2,
        l1 == l2,
        a1 == a2,
{
    let m = word(ep, t1, c1, l1, a1);
    let m1 = m / 0x100;
    assert(m1 == t1 + 0x100 * c1 + 0x1_0000 * l1 + 0x1_0000_0000 * a1.a + 0x100_0000_0000 * a1.b
        + 0x1_0000_0000_0000 * a1.c);
    assert(m1 == t2 + 0x100 * c2 + 0x1_0000 * l2 + 0x1_0000_0000 * a2.a + 0x100_0000_0000 * a2.b
        + 0x1_0000_0000_0000 * a2.c);
    let m2 = m1 / 0x100;
    assert(m2 == c1 + 0x100 * l1 + 0x100_0000 * a1.a + 0x1_0000_0000 * a1.b + 0x100_0000_0000
        * a1.c);
    assert(m2 == c2 + 0x100 * l2 + 0x100_0000 * a2.a + 0x1_0000_0000 * a2.b + 0x100_0000_0000
        * a2.c);
    let m3 = m2 / 0x100;
    assert(m3 == l1 + 0x1_0000 * a1.a + 0x100_0000 * a1.b + 0x1_0000_0000 * a1.c);
    assert(m3 == l2 + 0x1_0000 * a2.a + 0x100_0000 * a2.b + 0x1_0000_0000 * a2.c);
    let m4 = m3 / 0x1_0000;
    assert(m4 == a1.a + 0x100 * a1.b + 0x1_0000 * a1.c);
    assert(m4 == a2.a + 0x100 * a2.b + 0x1_0000 * a2.c);
    assert(m4 / 0x100 == a1.b + 0x100 * a1.c && m4 / 0x100 == a2.b + 0x100 * a2.c);
}

pub open spec fn ok_reply(req: XarmRequest, length: u16) -> XarmReply {
    XarmReply { tag: req.tag, status: STATUS_OK, length, args: Args { a: 0, b: 0, c: 0 } }
}

pub open spec fn fail_reply(tag: u8, status: u8) -> XarmReply {
    XarmReply { tag, status, length: 0, args: Args { a: 0, b: 0, c: 0 } }
}

impl XarmReply {
    pub fn ok(req: &XarmRequest, length: u16) -> (r: XarmReply)
        ensures
            r == ok_reply(*req, length),
    {
        XarmReply { tag: req.tag, status: STATUS_OK, length, args: Args { a: 0, b: 0, c: 0 } }
    }

    pub fn fail(tag: u8, status: u8) -> (r: XarmReply)
        ensures
            r == fail_reply(tag, status),
    {
        XarmReply { tag, status, length: 0, args: Args { a: 0, b: 0, c: 0 } }
    }
}

pub open spec fn silent(opcode: u8) -> bool {
    0x1d <= opcode <= 0x1f
}

/// Notifications that ask for no answer.
pub fn is_silent(opcode: u8) -> (r: bool)
    ensures
        r == silent(opcode),
{
    0x1d <= opcode && opcode <= 0x1f
}

pub fn needs_buffers(opcode: u8) -> (r: bool)
    ensures
        r == (opcode != OP_QUERY_PROTECTED),
{
    opcode != OP_QUERY_PROTECTED
}

/// The root record that the arguments name: the first or the second.
pub open spec fn root_of(args: Args) -> Key {
    root_key((1 + args.a % 2) as u8)
}

/// The session record that the arguments and the identifier at the start of the
/// payload name.
pub open spec fn session_of(args: Args, outbound: Seq<u8>) -> Key {
    Key { kind: (3 + args.a % 2) as u8, uuid: uuid_at(outbound, 0) }
}

/// The check that the arguments carry for the payload.
pub open spec fn expected_crc(args: Args) -> int {
    args.b + 0x100 * args.c
}

fn crc_agrees(args: &Args, outbound: &[u8]) -> (r: bool)
    ensures
        r == (crc16_ccitt(outbound@) == expected_crc(*args)),
{
    crc16_ccitt_false(outbound) == args.b as u16 + 0x100 * (args.c as u16)
}

/// What a request comes to.
#[verifier::ext_equal]
pub enum Asked {
    /// It is answered at once, with these bytes in the buffer.
    Answer(XarmReply, Seq<u8>),
    /// The record of this key has to be read.
    Fetch(Key),
    /// This value has to be stored under this key.
    Put(Key, Seq<u8>),
    /// The record of this key has to be erased.
    Erase(Key),
}

pub open spec fn refused(req: XarmRequest) -> Asked {
    Asked::Answer(fail_reply(req.tag, STATUS_FAILED), Seq::empty())
}

pub open spec fn put_or_refused(
    req: XarmRequest,
    s: StoreView,
    key: Key,
    value: Seq<u8>,
) -> Asked {
    if write_error(s, key, value) is Some {
        refused(req)
    } else {
        Asked::Put(key, value)
    }
}

pub open spec fn fetch_or_nothing(req: XarmRequest, s: StoreView, key: Key) -> Asked {
    if has_key(s.slots, key) {
        Asked::Fetch(key)
    } else {
        Asked::Answer(ok_reply(req, 0), Seq::empty())
    }
}

/// What a request asks for, given the payload that came with it.
pub open spec fn asked(
    req: XarmRequest,
    outbound: Seq<u8>,
    inbound_len: int,
    s: StoreView,
    protected_data: bool,
    os_uuid: Option<Uuid>,
) -> Asked {
    if req.opcode == OP_ROOT_READ {
        fetch_or_nothing(req, s, root_of(req.args))
    } else if req.opcode == OP_ROOT_WRITE {
        if req.length > ROOT_WRITE_MAX || outbound.len() > MAX_VALUE || crc16_ccitt(outbound)
            != expected_crc(req.args) {
            refused(req)
        } else {
            put_or_refused(req, s, root_of(req.args), outbound)
        }
    } else if req.opcode == OP_SESSION_READ {
        if outbound.len() != 16 {
            refused(req)
        } else {
            fetch_or_nothing(req, s, session_of(req.args, outbound))
        }
    } else if req.opcode == OP_SESSION_WRITE {
        if outbound.len() < 16 || crc16_ccitt(outbound) != expected_crc(req.args) {
            refused(req)
        } else {
            put_or_refused(
                req,
                s,
                session_of(req.args, outbound),
                outbound.subrange(16, outbound.len() as int),
            )
        }
    } else if req.opcode == OP_SESSION_DELETE {
        if outbound.len() < 16 {
            refused(req)
        } else if !has_key(s.slots, session_of(req.args, outbound)) {
            Asked::Answer(ok_reply(req, 0), Seq::empty())
        } else if !s.writes_enabled {
            refused(req)
        } else {
            Asked::Erase(session_of(req.args, outbound))
        }
    } else if req.opcode == OP_QUERY_PROTECTED {
        Asked::Answer(
            XarmReply {
                args: Args {
                    a: if protected_data {
                        1
                    } else {
                        0
                    },
                    b: 0,
                    c: 0,
                },
                ..ok_reply(req, 0)
            },
            Seq::empty(),
        )
    } else if req.opcode == OP_GET_OS_UUID {
        match os_uuid {
            Some(uuid) => if inbound_len < 16 {
                refused(req)
            } else {
                Asked::Answer(ok_reply(req, req.length), uuid@)
            },
            None => Asked::Answer(fail_reply(req.tag, STATUS_UNAVAILABLE), Seq::empty()),
        }
    } else {
        refused(req)
    }
}

/// An answer: the reply message and what goes into the inbound buffer first.
pub struct Serviced {
    pub reply: XarmReply,
    pub data: Vec<u8>,
}

/// What has to be done for a request.
pub enum Step {
    Done(Serviced),
    /// Read this slot; [`fetched`] makes the answer.
    Fetch { slot: usize, key: Key },
    /// Carry the plan out; [`settled`] makes the answer.
    Put(WritePlan),
    /// Erase this slot; [`settled`] makes the answer.
    Erase { slot: usize, key: Key },
}

pub open spec fn step_is(step: Step, a: Asked, s: StoreView) -> bool {
    match step {
        Step::Done(d) => a == Asked::Answer(d.reply, d.data@),
        Step::Fetch { slot, key } => a == Asked::Fetch(key) && slot < SLOT_COUNT && found_at(
            s.slots,
            key,
            slot as int,
        ),
        Step::Put(plan) => a matches Asked::Put(key, value) && plans(s, key, value, plan),
        Step::Erase { slot, key } => a == Asked::Erase(key) && slot < SLOT_COUNT && found_at(
            s.slots,
            key,
            slot as int,
        ),
    }
}

fn done(reply: XarmReply) -> (step: Step)
    ensures
        step matches Step::Done(d) && d.reply == reply && d.data@ == Seq::<u8>::empty(),
{
    Step::Done(Serviced { reply, data: Vec::new() })
}

fn fetch(req: &XarmRequest, store: &Store, key: Key) -> (step: Step)
    requires
        store.wf(),
        key_is_valid(key),
    ensures
        step_is(step, fetch_or_nothing(*req, store@, key), store@),
{
    match store.read(&key) {
        Ok(Some(slot)) => {
            assert(store@.slots[slot as int].holds(key));
            Step::Fetch { slot, key }
        },
        Ok(None) => done(XarmReply::ok(req, 0)),
        Err(_) => done(XarmReply::fail(req.tag, STATUS_FAILED)),
    }
}

fn put(req: &XarmRequest, store: &Store, key: Key, value: &[u8]) -> (step: Step)
    requires
        store.wf(),
    ensures
        step_is(step, put_or_refused(*req, store@, key, value@), store@),
{
    match store.write(&key, value) {
        Ok(plan) => Step::Put(plan),
        Err(_) => done(XarmReply::fail(req.tag, STATUS_FAILED)),
    }
}

/// Looks at a request and says what has to be done for it.
pub fn service(
    req: &XarmRequest,
    outbound: &[u8],
    inbound_len: usize,
    store: &Store,
    protected_data: bool,
    os_uuid: Option<Uuid>,
) -> (step: Step)
    requires
        store.wf(),
    ensures
        step_is(
            step,
            asked(*req, outbound@, inbound_len as int, store@, protected_data, os_uuid),
            store@,
        ),
{
    if req.opcode == OP_ROOT_READ {
        fetch(req, store, Key::root(1 + req.args.a % 2))
    } else if req.opcode == OP_ROOT_WRITE {
        if req.length > ROOT_WRITE_MAX || outbound.len() > MAX_VALUE {
            return done(XarmReply::fail(req.tag, STATUS_FAILED));
        }
        if !crc_agrees(&req.args, outbound) {
            return done(XarmReply::fail(req.tag, STATUS_FAILED));
        }
        put(req, store, Key::root(1 + req.args.a % 2), outbound)
    } else if req.opcode == OP_SESSION_READ {
        if outbound.len() != 16 {
            return done(XarmReply::fail(req.tag, STATUS_FAILED));
        }
        fetch(req, store, Key::new(3 + req.args.a % 2, Uuid::read(outbound, 0)))
    } else if req.opcode == OP_SESSION_WRITE {
        if outbound.len() < 16 {
            return done(XarmReply::fail(req.tag, STATUS_FAILED));
        }
        if !crc_agrees(&req.args, outbound) {
            return done(XarmReply::fail(req.tag, STATUS_FAILED));
        }
        let key = Key::new(3 + req.args.a % 2, Uuid::read(outbound, 0));
        put(req, store, key, vstd::slice::slice_subrange(outbound, 16, outbound.len()))
    } else if req.opcode == OP_SESSION_DELETE {
        if outbound.len() < 16 {
            return done(XarmReply::fail(req.tag, STATUS_FAILED));
        }
        let key = Key::new(3 + req.args.a % 2, Uuid::read(outbound, 0));
        match store.delete(&key) {
            Ok(Some(slot)) => {
                assert(store@.slots[slot as int].holds(key));
                Step::Erase { slot, key }
            },
            Ok(None) => done(XarmReply::ok(req, 0)),
            Err(_) => done(XarmReply::fail(req.tag, STATUS_FAILED)),
        }
    } else if req.opcode == OP_QUERY_PROTECTED {
        let mut reply = XarmReply::ok(req, 0);
        reply.args = Args {
            a: if protected_data {
                1
            } else {
                0
            },
            b: 0,
            c: 0,
        };
        done(reply)
    } else if req.opcode == OP_GET_OS_UUID {
        match os_uuid {
            Some(uuid) => {
                if inbound_len < 16 {
                    return done(XarmReply::fail(req.tag, STATUS_FAILED));
                }
                let mut data: Vec<u8> = Vec::new();
                uuid.put(&mut data);
                assert(data@ =~= uuid@);
                Step::Done(Serviced { reply: XarmReply::ok(req, req.length), data })
            },
            None => done(XarmReply::fail(req.tag, STATUS_UNAVAILABLE)),
        }
    } else {
        done(XarmReply::fail(req.tag, STATUS_FAILED))
    }
}

/// What the buffer holds for a value that was read: a root value has a prefix.
pub open spec fn fetched_data(req: XarmRequest, value: Seq<u8>) -> Seq<u8> {
    if req.opcode == OP_ROOT_READ {
        zeroed(ROOT_READ_PREFIX as int) + value
    } else {
        value
    }
}

/// The answer to a read, from what came of reading the record. The value has to
/// fit the buffer.
pub fn fetched(
    req: &XarmRequest,
    inbound_len: usize,
    value: Result<Vec<u8>, Errno>,
) -> (d: Serviced)
    requires
        value is Ok ==> value->Ok_0.len() <= MAX_VALUE,
    ensures
        match value {
            Ok(v) => {
                let data = fetched_data(*req, v@);
                if data.len() > inbound_len {
                    d.reply == fail_reply(req.tag, STATUS_FAILED) && d.data.len() == 0
                } else {
                    d.reply == ok_reply(*req, data.len() as u16) && d.data@ == data
                }
            },
            Err(_) => d.reply == fail_reply(req.tag, STATUS_FAILED) && d.data.len() == 0,
        },
{
    match value {
        Ok(v) => {
            let mut data: Vec<u8> = Vec::new();
            if req.opcode == OP_ROOT_READ {
                crate::bytes::put_zeros(&mut data, ROOT_READ_PREFIX);
            }
            put_bytes(&mut data, &v);
            assert(data@ =~= fetched_data(*req, v@));
            if data.len() > inbound_len {
                return Serviced {
                    reply: XarmReply::fail(req.tag, STATUS_FAILED),
                    data: Vec::new(),
                };
            }
            Serviced { reply: XarmReply::ok(req, data.len() as u16), data }
        },
        Err(_) => Serviced { reply: XarmReply::fail(req.tag, STATUS_FAILED), data: Vec::new() },
    }
}

/// The answer to a write or a delete, from whether it could be carried out.
pub fn settled(req: &XarmRequest, carried_out: bool) -> (d: Serviced)
    ensures
        d.data.len() == 0,
        d.reply == (if carried_out {
            ok_reply(*req, 0)
        } else {
            fail_reply(req.tag, STATUS_FAILED)
        }),
{
    if carried_out {
        Serviced { reply: XarmReply::ok(req, 0), data: Vec::new() }
    } else {
        Serviced { reply: XarmReply::fail(req.tag, STATUS_FAILED), data: Vec::new() }
    }
}

/// A payload that does not agree with its check is never stored.
pub proof fn bad_check_stores_nothing(
    req: XarmRequest,
    outbound: Seq<u8>,
    inbound_len: int,
    s: StoreView,
    protected_data: bool,
    os_uuid: Option<Uuid>,
)
    requires
        req.opcode == OP_ROOT_WRITE || req.opcode == OP_SESSION_WRITE,
        crc16_ccitt(outbound) != expected_crc(req.args),
    ensures
        asked(req, outbound, inbound_len, s, protected_data, os_uuid) == refused(req),
{
}

/// After a plan is carried out, a fresh scan of the window finds the value under
/// the key, intact, in the slot of the plan.
pub open spec fn found_intact(window: Seq<u8>, key: Key, value: Seq<u8>, plan: WritePlan) -> bool {
    let after = crate::bytes::spliced(window, plan.slot * 0x9000, plan.raw@);
    let slots = crate::xart_store::scanned(after, SLOT_COUNT as int);
    let raw = raw_slot(after, plan.slot as int);
    &&& found_at(slots, key, plan.slot as int)
    &&& still_there(slots[plan.slot as int], key, raw)
    &&& value_in(raw) == value
}

proof fn put_is_found(s: StoreView, window: Seq<u8>, key: Key, value: Seq<u8>, plan: WritePlan)
    requires
        window.len() == crate::xart_store::STORE_SIZE,
        s.slots == crate::xart_store::scanned(window, SLOT_COUNT as int),
        s.revision >= crate::xart_store::top_revision(window, SLOT_COUNT as int),
        write_error(s, key, value) is None,
        plans(s, key, value, plan),
    ensures
        found_intact(window, key, value, plan),
{
    let after = crate::bytes::spliced(window, plan.slot * 0x9000, plan.raw@);
    let n = SLOT_COUNT as int;
    let f = plan.slot as int;
    let slots = crate::xart_store::scanned(after, n);
    crate::xart_store::write_takes_effect(s, window, key, value, plan);
    crate::xart_store::record_round_trip(key, value, plan.record.revision);
    assert(raw_slot(after, f) =~= plan.raw@);
    if plan.old is Some {
        assert(s.slots[plan.old->0 as int].holds(key));
        assert(plan.old->0 != f);
    }
    assert(slots[f] == plan.record);
    assert forall|j: int| 0 <= j < slots.len() && #[trigger] slots[j].holds(key) implies j == f by {
        if j != f {
            assert(s.slots[j].holds(key));
            assert(s.slots[plan.old->0 as int].holds(key));
            assert(crate::xart_store::live(window, j, n));
            assert(crate::xart_store::live(window, plan.old->0 as int, n));
            crate::xart_store::live_is_unique(window, n, j, plan.old->0 as int);
        }
    }
}

/// What the enclave writes is what it reads: after a root value is stored, a
/// root read under the same argument asks for the slot it was written to, finds
/// it intact there, and is answered with the prefix and the value.
pub proof fn root_read_gives_back_write(
    s: StoreView,
    after: StoreView,
    window: Seq<u8>,
    write: XarmRequest,
    read: XarmRequest,
    value: Seq<u8>,
    inbound_len: int,
    plan: WritePlan,
    protected_data: bool,
    os_uuid: Option<Uuid>,
)
    requires
        window.len() == crate::xart_store::STORE_SIZE,
        s.slots == crate::xart_store::scanned(window, SLOT_COUNT as int),
        s.revision >= crate::xart_store::top_revision(window, SLOT_COUNT as int),
        write.opcode == OP_ROOT_WRITE,
        read.opcode == OP_ROOT_READ,
        read.args.a % 2 == write.args.a % 2,
        asked(write, value, inbound_len, s, protected_data, os_uuid) == Asked::Put(
            root_of(write.args),
            value,
        ),
        plans(s, root_of(write.args), value, plan),
        after.slots == crate::xart_store::scanned(
            crate::bytes::spliced(window, plan.slot * 0x9000, plan.raw@),
            SLOT_COUNT as int,
        ),
    ensures
        asked(read, Seq::empty(), inbound_len, after, protected_data, os_uuid) == Asked::Fetch(
            root_of(read.args),
        ),
        found_intact(window, root_of(read.args), value, plan),
        fetched_data(read, value) == zeroed(17) + value,
{
    put_is_found(s, window, root_of(write.args), value, plan);
    assert(after.slots[plan.slot as int].holds(root_of(read.args)));
}

/// The same of session records: what is stored under an identifier is fetched by
/// a read under the same argument and identifier, and answered as it was.
pub proof fn session_read_gives_back_write(
    s: StoreView,
    after: StoreView,
    window: Seq<u8>,
    write: XarmRequest,
    read: XarmRequest,
    id: Uuid,
    value: Seq<u8>,
    inbound_len: int,
    plan: WritePlan,
    protected_data: bool,
    os_uuid: Option<Uuid>,
)
    requires
        window.len() == crate::xart_store::STORE_SIZE,
        s.slots == crate::xart_store::scanned(window, SLOT_COUNT as int),
        s.revision >= crate::xart_store::top_revision(window, SLOT_COUNT as int),
        write.opcode == OP_SESSION_WRITE,
        read.opcode == OP_SESSION_READ,
        read.args.a % 2 == write.args.a % 2,
        asked(write, id@ + value, inbound_len, s, protected_data, os_uuid) is Put,
        plans(s, session_of(write.args, id@), value, plan),
        after.slots == crate::xart_store::scanned(
            crate::bytes::spliced(window, plan.slot * 0x9000, plan.raw@),
            SLOT_COUNT as int,
        ),
    ensures
        asked(write, id@ + value, inbound_len, s, protected_data, os_uuid) == Asked::Put(
            session_of(write.args, id@),
            value,
        ),
        asked(read, id@, inbound_len, after, protected_data, os_uuid) == Asked::Fetch(
            session_of(read.args, id@),
        ),
        found_intact(window, session_of(read.args, id@), value, plan),
        fetched_data(read, value) == value,
{
    let sent = id@ + value;
    let key = session_of(write.args, id@);
    crate::uuid::uuid_round_trip(id);
    assert(sent.subrange(0, 16) =~= id@);
    crate::uuid::uuid_at_subrange(sent, 0, 16, 0);
    assert(sent.subrange(16, sent.len() as int) =~= value);
    put_is_found(s, window, key, value, plan);
    assert(after.slots[plan.slot as int].holds(key));
}

/// A session record that is deleted is gone: once its slot is erased, a read under
/// the same argument and identifier finds nothing. A stale record of the same key
/// must not have been left behind.
pub proof fn deleted_session_is_gone(
    s: StoreView,
    after: StoreView,
    window: Seq<u8>,
    delete: XarmRequest,
    read: XarmRequest,
    id: Uuid,
    f: int,
    inbound_len: int,
    protected_data: bool,
    os_uuid: Option<Uuid>,
)
    requires
        window.len() == crate::xart_store::STORE_SIZE,
        s.slots == crate::xart_store::scanned(window, SLOT_COUNT as int),
        delete.opcode == OP_SESSION_DELETE,
        read.opcode == OP_SESSION_READ,
        read.args.a % 2 == delete.args.a % 2,
        asked(delete, id@, inbound_len, s, protected_data, os_uuid) is Erase,
        found_at(s.slots, session_of(delete.args, id@), f),
        forall|j: int|
            0 <= j < SLOT_COUNT && j != f && #[trigger] crate::xart_store::record_at(window, j)
                ==> crate::xart_store::slot_at(window, j).key != session_of(delete.args, id@),
        after.slots == crate::xart_store::scanned(
            crate::xart_store::erased(window, f),
            SLOT_COUNT as int,
        ),
    ensures
        asked(delete, id@, inbound_len, s, protected_data, os_uuid) == Asked::Erase(
            session_of(delete.args, id@),
        ),
        asked(read, id@, inbound_len, after, protected_data, os_uuid) == Asked::Answer(
            ok_reply(read, 0),
            Seq::empty(),
        ),
{
    let key = session_of(delete.args, id@);
    crate::uuid::uuid_round_trip(id);
    assert(s.slots[f].holds(key));
    assert(crate::xart_store::live(window, f, SLOT_COUNT as int));
    crate::xart_store::delete_takes_effect(window, f);
    assert forall|j: int| 0 <= j < after.slots.len() implies !#[trigger] after.slots[j].holds(key) by {
        if after.slots[j].holds(key) {
            assert(j != f);
            assert(s.slots[j].holds(key));
            assert(crate::xart_store::record_at(window, j));
        }
    }
}

/// The endpoint's bookkeeping.
#[derive(Clone, Copy, Debug, PartialEq, Eq, Structural)]
pub struct XarmState {
    pub deferred_query: Option<u8>,
    pub serviced: u32,
    pub refused: u32,
    pub os_uuid: Option<Uuid>,
}

/// What to do with a message of the endpoint.
#[derive(Clone, Copy, Debug, PartialEq, Eq, Structural)]
pub enum XarmAction {
    Nothing,
    Reply(XarmReply),
    Service(XarmRequest),
}

pub open spec fn bumped(n: u32) -> u32 {
    ((n + 1) % 0x1_0000_0000) as u32
}

impl XarmState {
    pub fn new() -> (s: XarmState)
        ensures
            s == (XarmState { deferred_query: None, serviced: 0, refused: 0, os_uuid: None }),
    {
        XarmState { deferred_query: None, serviced: 0, refused: 0, os_uuid: None }
    }

    /// Sorts a message. Before the buffers are registered, the query for
    /// protected data is put off and everything that needs a buffer refused.
    pub fn on_xarm(&mut self, req: &XarmRequest, registered: bool) -> (a: XarmAction)
        ensures
            a == (if silent(req.opcode) {
                XarmAction::Nothing
            } else if registered {
                XarmAction::Service(*req)
            } else if req.opcode == OP_QUERY_PROTECTED {
                XarmAction::Nothing
            } else {
                XarmAction::Reply(fail_reply(req.tag, STATUS_FAILED))
            }),
            *final(self) == (if silent(req.opcode) {
                XarmState { serviced: bumped(old(self).serviced), ..*old(self) }
            } else if registered {
                *old(self)
            } else if req.opcode == OP_QUERY_PROTECTED {
                XarmState { deferred_query: Some(req.tag), ..*old(self) }
            } else {
                XarmState { refused: bumped(old(self).refused), ..*old(self) }
            }),
    {
        if is_silent(req.opcode) {
            self.serviced = self.serviced.wrapping_add(1);
            return XarmAction::Nothing;
        }
        if !registered {
            if !needs_buffers(req.opcode) {
                self.deferred_query = Some(req.tag);
                return XarmAction::Nothing;
            }
            self.refused = self.refused.wrapping_add(1);
            return XarmAction::Reply(XarmReply::fail(req.tag, STATUS_FAILED));
        }
        XarmAction::Service(*req)
    }

    /// Answers the query that was put off, if one was.
    pub fn release_deferred_query(&mut self, protected_data: bool) -> (r: Option<XarmReply>)
        ensures
            match old(self).deferred_query {
                Some(tag) => r == Some(
                    XarmReply {
                        args: Args {
                            a: if protected_data {
                                1
                            } else {
                                0
                            },
                            b: 0,
                            c: 0,
                        },
                        ..fail_reply(tag, STATUS_OK)
                    },
                ) && *final(self) == (XarmState {
                    deferred_query: None,
                    serviced: bumped(old(self).serviced),
                    ..*old(self)
                }),
                None => r is None && *final(self) == *old(self),
            },
    {
        match self.deferred_query {
            Some(tag) => {
                self.deferred_query = None;
                self.serviced = self.serviced.wrapping_add(1);
                Some(
                    XarmReply {
                        tag,
                        status: STATUS_OK,
                        length: 0,
                        args: Args {
                            a: if protected_data {
                                1
                            } else {
                                0
                            },
                            b: 0,
                            c: 0,
                        },
                    },
                )
            },
            None => None,
        }
    }

    /// Counts a request that was serviced.
    pub fn count_serviced(&mut self)
        ensures
            *final(self) == (XarmState { serviced: bumped(old(self).serviced), ..*old(self) }),
    {
        self.serviced = self.serviced.wrapping_add(1);
    }

    /// Settles the identifier of the operating system: the one that is given
    /// as two numbers, or else the one that the boot loader left.
    pub fn prepare_os_uuid(&mut self, hi: u64, lo: u64, preboot: Option<Uuid>)
        ensures
            if hi != 0 || lo != 0 {
                final(self).os_uuid matches Some(u) && u@ == u64_be(hi as int) + u64_be(lo as int)
            } else {
                final(self).os_uuid == preboot
            },
            *final(self) == (XarmState { os_uuid: final(self).os_uuid, ..*old(self) }),
    {
        if hi != 0 || lo != 0 {
            self.os_uuid = Some(Uuid::from_words(hi, lo));
        } else {
            self.os_uuid = preboot;
        }
    }
}

/// How much of the buffer a request claims, unless it claims more than there
/// is.
pub fn payload_len(req: &XarmRequest) -> (r: Option<usize>)
    ensures
        r == (if req.length <= OOL_SIZE_XARM {
            Some(req.length as usize)
        } else {
            None
        }),
{
    if req.length as usize > OOL_SIZE_XARM {
        None
    } else {
        Some(req.length as usize)
    }
}

/// Which record a request is for, and with what: a root read or write is for the
/// one record of kind 1 where its first argument is even, and of kind 2 where it
/// is odd; a session request is for the record of kind 3 or 4 in the same way,
/// under the sixteen bytes that its payload starts with. A root write stores the
/// whole payload, a session write what follows the identifier. No other request
/// reads, stores or erases anything.
pub proof fn request_is_for_its_record(
    req: XarmRequest,
    outbound: Seq<u8>,
    inbound_len: int,
    s: StoreView,
    protected_data: bool,
    os_uuid: Option<Uuid>,
    step: Step,
)
    requires
        step_is(step, asked(req, outbound, inbound_len, s, protected_data, os_uuid), s),
    ensures
        ({
            let odd: int = if req.args.a % 2 == 0 {
                0
            } else {
                1
            };
            &&& step matches Step::Fetch { slot, key } ==> {
                &&& req.opcode == 0x00 || req.opcode == 0x05
                &&& req.opcode == 0x00 ==> key.kind == 1 + odd && key.uuid@ == zeroed(16)
                &&& req.opcode == 0x05 ==> key.kind == 3 + odd && key.uuid@ == outbound
                &&& s.slots[slot as int].used && s.slots[slot as int].key == key
            }
            &&& step matches Step::Put(plan) ==> {
                &&& req.opcode == 0x01 || req.opcode == 0x06
                &&& req.opcode == 0x01 ==> plan.record.key.kind == 1 + odd
                    && plan.record.key.uuid@ == zeroed(16) && value_in(plan.raw@) == outbound
                &&& req.opcode == 0x06 ==> plan.record.key.kind == 3 + odd && outbound
                    == plan.record.key.uuid@ + value_in(plan.raw@)
            }
            &&& step matches Step::Erase { slot, key } ==> {
                &&& req.opcode == 0x07
                &&& key.kind == 3 + odd && key.uuid@ == outbound.subrange(0, 16)
                &&& s.slots[slot as int].used && s.slots[slot as int].key == key
            }
        }),
{
    let odd: int = if req.args.a % 2 == 0 {
        0
    } else {
        1
    };
    assert(req.args.a % 2 == odd);
    zero_uuid_is_zeros();
    if outbound.len() >= 16 {
        crate::uuid::uuid_bytes(outbound, 0);
        assert(outbound.len() == 16 ==> outbound.subrange(0, 16) =~= outbound);
        assert(outbound.subrange(0, 16) + outbound.subrange(16, outbound.len() as int)
            =~= outbound);
    }
    if let Step::Put(plan) = step {
        let value = if req.opcode == 0x01 {
            outbound
        } else {
            outbound.subrange(16, outbound.len() as int)
        };
        crate::xart_store::record_round_trip(plan.record.key, value, plan.record.revision);
    }
}

proof fn zero_uuid_is_zeros()
    ensures
        crate::uuid::zero_uuid()@ == zeroed(16),
{
    crate::uuid::uuid_bytes(zeroed(16), 0);
    broadcast use crate::bytes::group_le;

    let z = zeroed(16);
    assert(crate::bytes::u64_at(z, 0) == 0);
    assert(crate::bytes::u64_at(z, 8) == 0);
    assert(z.subrange(0, 16) =~= z);
}

/// A root read is answered from the store as it is: it fetches a record exactly
/// where there is one under the key that it is for, and says that there is none
/// otherwise, which is no failure. So does a session read with a whole identifier.
pub proof fn read_finds_what_is_there(
    req: XarmRequest,
    outbound: Seq<u8>,
    inbound_len: int,
    s: StoreView,
    protected_data: bool,
    os_uuid: Option<Uuid>,
    step: Step,
    key: Key,
)
    requires
        step_is(step, asked(req, outbound, inbound_len, s, protected_data, os_uuid), s),
        req.opcode == 0x00 || (req.opcode == 0x05 && outbound.len() == 16),
        key.kind == (if req.opcode == 0x00 {
            1int
        } else {
            3
        }) + req.args.a % 2,
        key.uuid@ == if req.opcode == 0x00 {
            zeroed(16)
        } else {
            outbound
        },
    ensures
        has_key(s.slots, key) <==> step is Fetch,
        has_key(s.slots, key) ==> step->Fetch_key == key,
        !has_key(s.slots, key) ==> (step matches Step::Done(d) && d.data@.len() == 0
            && d.reply.status == 0 && d.reply.length == 0 && d.reply.tag == req.tag),
{
    zero_uuid_is_zeros();
    crate::uuid::uuid_round_trip(key.uuid);
    crate::uuid::uuid_round_trip(crate::uuid::zero_uuid());
}

/// The two root records are two, and so are the session records of different
/// kinds and identifiers: carrying a write out changes what is stored under the
/// key that the request is for, and under no other.
pub proof fn write_changes_one_record(
    s: StoreView,
    window: Seq<u8>,
    req: XarmRequest,
    outbound: Seq<u8>,
    inbound_len: int,
    protected_data: bool,
    os_uuid: Option<Uuid>,
    plan: WritePlan,
    k: Key,
)
    requires
        window.len() == crate::xart_store::STORE_SIZE,
        s.slots == crate::xart_store::scanned(window, SLOT_COUNT as int),
        s.revision >= crate::xart_store::top_revision(window, SLOT_COUNT as int),
        req.opcode == 0x01 || req.opcode == 0x06,
        step_is(
            Step::Put(plan),
            asked(req, outbound, inbound_len, s, protected_data, os_uuid),
            s,
        ),
    ensures
        ({
            let after = crate::bytes::spliced(window, plan.slot * 0x9000, plan.raw@);
            let hit = if req.opcode == 0x01 {
                k.kind == 1 + req.args.a % 2 && k.uuid@ == zeroed(16)
            } else {
                k.kind == 3 + req.args.a % 2 && k.uuid@ == outbound.subrange(0, 16)
            };
            &&& hit && req.opcode == 0x01 ==> crate::xart_store::stored(after, k) == Some(outbound)
            &&& hit && req.opcode == 0x06 ==> crate::xart_store::stored(after, k) == Some(
                outbound.subrange(16, outbound.len() as int),
            )
            &&& !hit ==> crate::xart_store::stored(after, k) == crate::xart_store::stored(window, k)
        }),
{
    zero_uuid_is_zeros();
    let key = plan.record.key;
    let value = if req.opcode == 0x01 {
        outbound
    } else {
        outbound.subrange(16, outbound.len() as int)
    };
    request_is_for_its_record(
        req,
        outbound,
        inbound_len,
        s,
        protected_data,
        os_uuid,
        Step::Put(plan),
    );
    crate::xart_store::record_round_trip(key, value, plan.record.revision);
    crate::xart_store::write_takes_effect(s, window, key, value, plan);
    crate::uuid::uuid_round_trip(k.uuid);
    crate::uuid::uuid_round_trip(key.uuid);
    if req.opcode == 0x06 {
        crate::uuid::uuid_bytes(outbound, 0);
    }
}

/// After a root write with one argument, a root read whose argument differs in
/// the lowest bit still fetches what was there before; one whose argument does not
/// fetches what was written.
pub proof fn roots_are_two_records(
    s: StoreView,
    window: Seq<u8>,
    write: XarmRequest,
    read: XarmRequest,
    value: Seq<u8>,
    inbound_len: int,
    protected_data: bool,
    os_uuid: Option<Uuid>,
    plan: WritePlan,
    before: Step,
    after: Step,
    s2: StoreView,
)
    requires
        window.len() == crate::xart_store::STORE_SIZE,
        s.slots == crate::xart_store::scanned(window, SLOT_COUNT as int),
        s.revision >= crate::xart_store::top_revision(window, SLOT_COUNT as int),
        write.opcode == 0x01,
        read.opcode == 0x00,
        step_is(
            Step::Put(plan),
            asked(write, value, inbound_len, s, protected_data, os_uuid),
            s,
        ),
        s2.slots == crate::xart_store::scanned(
            crate::bytes::spliced(window, plan.slot * 0x9000, plan.raw@),
            SLOT_COUNT as int,
        ),
        step_is(
            before,
            asked(read, Seq::empty(), inbound_len, s, protected_data, os_uuid),
            s,
        ),
        step_is(
            after,
            asked(read, Seq::empty(), inbound_len, s2, protected_data, os_uuid),
            s2,
        ),
    ensures
        ({
            let now = crate::bytes::spliced(window, plan.slot * 0x9000, plan.raw@);
            &&& read.args.a % 2 == write.args.a % 2 ==> (after matches Step::Fetch { slot, .. }
                && value_in(raw_slot(now, slot as int)) == value)
            &&& read.args.a % 2 != write.args.a % 2 ==> {
                &&& before is Fetch <==> after is Fetch
                &&& before is Fetch ==> value_in(raw_slot(now, after->Fetch_slot as int))
                    == value_in(raw_slot(window, before->Fetch_slot as int))
            }
        }),
{
    let now = crate::bytes::spliced(window, plan.slot * 0x9000, plan.raw@);
    let n = SLOT_COUNT as int;
    let k = root_of(read.args);
    zero_uuid_is_zeros();
    write_changes_one_record(
        s,
        window,
        write,
        value,
        inbound_len,
        protected_data,
        os_uuid,
        plan,
        k,
    );
    if before is Fetch {
        let i = before->Fetch_slot as int;
        assert(s.slots[i].holds(k));
        assert(crate::xart_store::live(window, i, n));
        crate::xart_store::stored_at(window, i);
    } else {
        crate::xart_store::scan_finds_what_is_there(window, k);
    }
    if after is Fetch {
        let i = after->Fetch_slot as int;
        assert(s2.slots[i].holds(k));
        assert(crate::xart_store::live(now, i, n));
        crate::xart_store::stored_at(now, i);
    } else {
        crate::xart_store::scan_finds_what_is_there(now, k);
    }
}

/// How a request is answered without the store being touched: under its own tag.
/// Nothing is stored under a check that does not agree, whose low byte is the
/// second argument and whose high byte the third. The query for protected data is
/// answered by its first argument; the identifier of the operating system is
/// handed over as it is, with the length that was asked for.
pub proof fn answers_say_what_is_known(
    req: XarmRequest,
    outbound: Seq<u8>,
    inbound_len: int,
    s: StoreView,
    protected_data: bool,
    os_uuid: Option<Uuid>,
    step: Step,
)
    requires
        step_is(step, asked(req, outbound, inbound_len, s, protected_data, os_uuid), s),
    ensures
        step matches Step::Done(d) ==> d.reply.tag == req.tag,
        step is Put ==> crate::crc::crc16_ccitt(outbound) == req.args.b + 256 * req.args.c,
        req.opcode == 0x0e ==> (step matches Step::Done(d) && d.reply.status == 0
            && d.reply.length == 0 && d.data@.len() == 0 && d.reply.args.a == (if protected_data {
            1int
        } else {
            0
        }) && d.reply.args.b == 0 && d.reply.args.c == 0),
        req.opcode == 0x13 ==> (step matches Step::Done(d) && match os_uuid {
            Some(u) => inbound_len >= 16 ==> d.reply.status == 0 && d.reply.length == req.length
                && d.data@ == u@,
            None => d.reply.status == 0x02 && d.data@.len() == 0,
        }),
        req.opcode == 0x13 && os_uuid is Some && inbound_len < 16 ==> (step matches Step::Done(d)
            && d.reply.status == 0x16),
        ![0x00u8, 0x01, 0x05, 0x06, 0x07, 0x0e, 0x13]@.contains(req.opcode) ==> (
        step matches Step::Done(d) && d.reply.status == 0x16 && d.data@.len() == 0),
        (req.opcode == 0x01 && (req.length > 0x7fef || outbound.len() > 0x8000)) || (req.opcode
            == 0x05 && outbound.len() != 16) || ((req.opcode == 0x06 || req.opcode == 0x07)
            && outbound.len() < 16) ==> (step matches Step::Done(d) && d.reply.status == 0x16),
{
    let known = [0x00u8, 0x01, 0x05, 0x06, 0x07, 0x0e, 0x13]@;
    assert(known[0] == 0x00 && known[1] == 0x01 && known[2] == 0x05 && known[3] == 0x06 && known[4]
        == 0x07 && known[5] == 0x0e && known[6] == 0x13);
}

} // verus!
