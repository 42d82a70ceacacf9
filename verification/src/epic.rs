//! Calls to the sensor processor's services: the header of a message, and the
//! calls that are waiting for a reply.

use vstd::prelude::*;

use crate::bytes::{
    copy_range, group_le, put_u16, put_u32, put_zeros, read_u16, read_u32, u16_at, u16_le,
    u16_round_trip, u32_at, u32_le, zeroed,
};
use crate::errno::Errno;

verus! {

pub const AOP_MAX_CALLS: usize = 8;

pub const EPIC_HEADER_LEN: usize = 40;

pub const EPIC_TYPE_NOTIFY: u32 = 0;

pub const EPIC_CATEGORY_REPORT: u8 = 0x00;

pub const EPIC_CATEGORY_NOTIFY: u8 = 0x10;

pub const EPIC_CATEGORY_REPLY: u8 = 0x20;

pub const EPIC_SUBTYPE_STD_SERVICE: u16 = 0xc0;

pub const EPIC_SUBTYPE_FAKEHID_REPORT: u16 = 0xc4;

pub const EPIC_SUBTYPE_RETCODE: u16 = 0x84;

pub const EPIC_SUBTYPE_RETCODE_PAYLOAD: u16 = 0xa0;

pub const EPIC_SUBTYPE_STRING: u16 = 0x8a;

/// How long a caller waits for the reply.
pub const EPIC_CALL_TIMEOUT_MS: u32 = 5000;

// ---------------------------------------------------------------------------
// Headers.
// ---------------------------------------------------------------------------
/// The fields of a header by which a message is dispatched.
#[derive(Clone, Copy, Debug, PartialEq, Eq, Structural)]
pub struct EPICHeaderFields {
    pub category: u8,
    pub subtype: u16,
    pub tag: u16,
}

/// Where the tag stands: behind a time stamp from the fourth version on.
pub open spec fn tag_at(msg: Seq<u8>) -> int {
    if msg[20] >= 4 {
        32
    } else {
        24
    }
}

/// The fields of the header that a message starts with.
pub open spec fn fields_in(msg: Seq<u8>) -> EPICHeaderFields {
    EPICHeaderFields {
        category: msg[21],
        subtype: u16_at(msg, 22) as u16,
        tag: u16_at(msg, tag_at(msg)) as u16,
    }
}

impl EPICHeaderFields {
    /// Takes a message apart into the fields of its header and what follows the
    /// header. The header itself says which of the two layouts it has.
    pub fn decode(msg: &[u8]) -> (r: Option<(EPICHeaderFields, &[u8])>)
        ensures
            match r {
                Some((f, data)) => msg.len() >= 40 && f == fields_in(msg@) && data@
                    == msg@.subrange(40, msg.len() as int),
                None => msg.len() < 40,
            },
    {
        if msg.len() < EPIC_HEADER_LEN {
            return None;
        }
        let at: usize = if msg[20] >= 4 {
            32
        } else {
            24
        };
        let f = EPICHeaderFields {
            category: msg[21],
            subtype: read_u16(msg, 22),
            tag: read_u16(msg, at),
        };
        Some((f, vstd::slice::slice_subrange(msg, EPIC_HEADER_LEN, msg.len())))
    }
}

/// The header of a call, in the layout that the firmware speaks. The fourth
/// version announces how long a reply may be.
pub open spec fn call_header(
    v4: bool,
    seq: int,
    len: int,
    subtype: int,
    tag: int,
    capacity: int,
) -> Seq<u8> {
    let head = seq![2u8] + u16_le(seq) + zeroed(13) + u32_le(len);
    if v4 {
        head + seq![4u8, 0x10u8] + u16_le(subtype) + zeroed(8) + u16_le(tag) + zeroed(2) + u32_le(
            capacity,
        )
    } else {
        head + seq![2u8, 0x10u8] + u16_le(subtype) + u16_le(tag) + zeroed(14)
    }
}

/// Makes the header of a call.
pub fn header(v4: bool, seq: u16, len: u32, subtype: u16, tag: u16, capacity: u32) -> (h: Vec<u8>)
    ensures
        h@ == call_header(
            v4,
            seq as int,
            len as int,
            subtype as int,
            tag as int,
            capacity as int,
        ),
        h.len() == 40,
{
    broadcast use group_le;

    let mut h: Vec<u8> = Vec::new();
    h.push(2);
    put_u16(&mut h, seq);
    put_zeros(&mut h, 13);
    put_u32(&mut h, len);
    let ghost head = seq![2u8] + u16_le(seq as int) + zeroed(13) + u32_le(len as int);
    assert(h@ =~= head);
    if v4 {
        h.push(4);
        h.push(EPIC_CATEGORY_NOTIFY);
        assert(h@ =~= head + seq![4u8, 0x10u8]);
        put_u16(&mut h, subtype);
        put_zeros(&mut h, 8);
        put_u16(&mut h, tag);
        put_zeros(&mut h, 2);
        put_u32(&mut h, capacity);
    } else {
        h.push(2);
        h.push(EPIC_CATEGORY_NOTIFY);
        assert(h@ =~= head + seq![2u8, 0x10u8]);
        put_u16(&mut h, subtype);
        put_u16(&mut h, tag);
        put_zeros(&mut h, 14);
    }
    h
}

/// The header of a call is read as what it says, in either layout, whatever
/// follows it.
pub proof fn header_round_trip(
    v4: bool,
    seq: u16,
    len: u32,
    subtype: u16,
    tag: u16,
    capacity: u32,
    data: Seq<u8>,
)
    ensures
        fields_in(
            call_header(
                v4,
                seq as int,
                len as int,
                subtype as int,
                tag as int,
                capacity as int,
            ) + data,
        ) == (EPICHeaderFields { category: 0x10, subtype, tag }),
{
    broadcast use group_le;

    let h = call_header(
        v4,
        seq as int,
        len as int,
        subtype as int,
        tag as int,
        capacity as int,
    );
    let m = h + data;
    u16_round_trip(subtype as int);
    u16_round_trip(tag as int);
    assert(m[20] == (if v4 {
        4u8
    } else {
        2u8
    }));
    assert(m[21] == 0x10);
    assert(u16_at(m, 22) == u16_at(u16_le(subtype as int), 0));
    if v4 {
        assert(u16_at(m, 32) == u16_at(u16_le(tag as int), 0));
    } else {
        assert(u16_at(m, 24) == u16_at(u16_le(tag as int), 0));
    }
}

// ---------------------------------------------------------------------------
// Calls in flight.
// ---------------------------------------------------------------------------
/// A place for a call. Its number plus one is the tag by which the reply names
/// it.
#[derive(Clone, Copy, Debug, PartialEq, Eq, Structural)]
pub enum CallSlot {
    Free,
    /// A caller waits for the reply to the call `id`, and for that many bytes
    /// with it, if for any.
    Pending { id: u64, ret: Option<usize> },
    /// The caller gave up. The place stays taken until the reply comes, so that
    /// the tag is not given to a call which that reply would answer.
    Abandoned,
}

/// The calls of an endpoint.
pub struct Calls {
    slots: Vec<CallSlot>,
    next_id: u64,
}

/// What a reply does.
pub enum Reply {
    /// It answers a call.
    Answer { id: u64, retcode: u32, data: Option<Vec<u8>> },
    /// It comes too late, and frees the place of a call that was given up.
    Late,
}

/// The first place that is taken, from `from` on.
pub open spec fn first_taken(slots: Seq<CallSlot>, from: int) -> Option<int>
    decreases slots.len() - from,
{
    if from < 0 || from >= slots.len() {
        None
    } else if slots[from] != CallSlot::Free {
        Some(from)
    } else {
        first_taken(slots, from + 1)
    }
}

/// The first place that is free, from `from` on.
pub open spec fn first_free(slots: Seq<CallSlot>, from: int) -> Option<int>
    decreases slots.len() - from,
{
    if from < 0 || from >= slots.len() {
        None
    } else if slots[from] == CallSlot::Free {
        Some(from)
    } else {
        first_free(slots, from + 1)
    }
}

pub open spec fn any_abandoned(slots: Seq<CallSlot>) -> bool {
    exists|i: int| 0 <= i < slots.len() && slots[i] == CallSlot::Abandoned
}

/// The place that a reply names. Firmware of the fourth version does not repeat
/// the tag; there the reply is for whatever call there is.
pub open spec fn named_slot(slots: Seq<CallSlot>, v4: bool, tag: int) -> Result<int, Errno> {
    if 1 <= tag <= slots.len() && slots[tag - 1] != CallSlot::Free {
        Ok(tag - 1)
    } else if v4 {
        match first_taken(slots, 0) {
            Some(i) => Ok(i),
            None => Err(Errno::ENOENT),
        }
    } else if tag == 0 || tag > slots.len() {
        Err(Errno::EINVAL)
    } else {
        Err(Errno::ENOENT)
    }
}

/// The bytes that a caller gets of a reply: those behind the return code, as
/// many as it has room for.
pub open spec fn returned(data: Seq<u8>, room: int) -> Seq<u8> {
    if data.len() - 4 < room {
        data.subrange(4, data.len() as int)
    } else {
        data.subrange(4, 4 + room)
    }
}

/// Where a new call goes, if one can be made: firmware that does not repeat the
/// tag takes none while the reply to an abandoned call is outstanding.
pub open spec fn place_for_call(slots: Seq<CallSlot>, v4: bool) -> Option<int> {
    if v4 && any_abandoned(slots) {
        None
    } else {
        first_free(slots, 0)
    }
}

proof fn first_free_is_free(slots: Seq<CallSlot>, from: int)
    requires
        0 <= from,
    ensures
        first_free(slots, from) matches Some(i) ==> from <= i < slots.len() && slots[i]
            == CallSlot::Free,
    decreases slots.len() - from,
{
    if from < slots.len() && slots[from] != CallSlot::Free {
        first_free_is_free(slots, from + 1);
    }
}

/// A taken place that is found is one, and where none is found all are free.
pub proof fn first_taken_is_taken(slots: Seq<CallSlot>, from: int)
    requires
        0 <= from,
    ensures
        first_taken(slots, from) matches Some(i) ==> from <= i < slots.len() && slots[i]
            != CallSlot::Free,
        first_taken(slots, from) is None ==> forall|j: int|
            from <= j < slots.len() ==> slots[j] == CallSlot::Free,
    decreases slots.len() - from,
{
    if from < slots.len() && slots[from] == CallSlot::Free {
        first_taken_is_taken(slots, from + 1);
    }
}

/// The place of the call `id`, from `from` on.
pub open spec fn place_of(slots: Seq<CallSlot>, id: u64, from: int) -> Option<int>
    decreases slots.len() - from,
{
    if from < 0 || from >= slots.len() {
        None
    } else if slots[from] matches CallSlot::Pending { id: p, .. } && p == id {
        Some(from)
    } else {
        place_of(slots, id, from + 1)
    }
}

/// The places after the caller of `id` gave up.
pub open spec fn abandoned(slots: Seq<CallSlot>, id: u64) -> Seq<CallSlot> {
    match place_of(slots, id, 0) {
        Some(i) => slots.update(i, CallSlot::Abandoned),
        None => slots,
    }
}

impl Calls {
    pub closed spec fn view(&self) -> Seq<CallSlot> {
        self.slots@
    }

    /// The number that the next call gets.
    pub closed spec fn next_id(&self) -> u64 {
        self.next_id
    }

    /// There are as many places as there are tags, and no two calls have the
    /// same number.
    pub open spec fn wf(&self) -> bool {
        &&& self@.len() == 8
        &&& forall|i: int|
            0 <= i < 8 ==> (#[trigger] self@[i] matches CallSlot::Pending { id, .. } ==> id
                < self.next_id())
        &&& forall|i: int, j: int|
            0 <= i < j < 8 ==> !same_call(#[trigger] self@[i], #[trigger] self@[j])
    }

    pub fn new() -> (c: Calls)
        ensures
            c.wf(),
            forall|i: int| 0 <= i < 8 ==> c@[i] == CallSlot::Free,
            c.next_id() == 0,
    {
        let mut slots: Vec<CallSlot> = Vec::new();
        let mut i: usize = 0;
        while i < AOP_MAX_CALLS
            invariant
                i <= 8,
                slots.len() == i,
                forall|j: int| 0 <= j < i ==> slots@[j] == CallSlot::Free,
            decreases 8 - i,
        {
            slots.push(CallSlot::Free);
            i = i + 1;
        }
        Calls { slots, next_id: 0 }
    }

    fn has_abandoned(&self) -> (r: bool)
        ensures
            r == any_abandoned(self@),
    {
        let mut i: usize = 0;
        while i < self.slots.len()
            invariant
                i <= self.slots.len(),
                forall|j: int| 0 <= j < i ==> self@[j] != CallSlot::Abandoned,
            decreases self.slots.len() - i,
        {
            if self.slots[i] == CallSlot::Abandoned {
                assert(self@[i as int] == CallSlot::Abandoned);
                return true;
            }
            i = i + 1;
        }
        false
    }

    fn find_free(&self) -> (r: Option<usize>)
        ensures
            match r {
                Some(i) => first_free(self@, 0) == Some(i as int),
                None => first_free(self@, 0) is None,
            },
    {
        let mut i: usize = 0;
        while i < self.slots.len()
            invariant
                i <= self.slots.len(),
                first_free(self@, 0) == first_free(self@, i as int),
            decreases self.slots.len() - i,
        {
            if self.slots[i] == CallSlot::Free {
                return Some(i);
            }
            i = i + 1;
        }
        None
    }

    fn find_taken(&self) -> (r: Option<usize>)
        ensures
            match r {
                Some(i) => first_taken(self@, 0) == Some(i as int),
                None => first_taken(self@, 0) is None,
            },
    {
        let mut i: usize = 0;
        while i < self.slots.len()
            invariant
                i <= self.slots.len(),
                first_taken(self@, 0) == first_taken(self@, i as int),
            decreases self.slots.len() - i,
        {
            if self.slots[i] != CallSlot::Free {
                return Some(i);
            }
            i = i + 1;
        }
        None
    }

    /// Where a new call goes. There may be no place for one.
    pub fn place(&self, v4: bool) -> (r: Result<usize, Errno>)
        requires
            self.wf(),
        ensures
            match r {
                Ok(i) => place_for_call(self@, v4) == Some(i as int) && i < 8 && self@[i as int]
                    == CallSlot::Free,
                Err(e) => place_for_call(self@, v4) is None && e == Errno::EIO,
            },
    {
        if v4 && self.has_abandoned() {
            return Err(Errno::EIO);
        }
        proof {
            first_free_is_free(self@, 0);
        }
        match self.find_free() {
            Some(i) => Ok(i),
            None => Err(Errno::EIO),
        }
    }

    /// Puts a call into its place.
    pub fn enter(&mut self, slot: usize, ret: Option<usize>) -> (id: u64)
        requires
            old(self).wf(),
            slot < 8,
            old(self).next_id() < u64::MAX,
        ensures
            final(self).wf(),
            id == old(self).next_id(),
            final(self).next_id() == id + 1,
            final(self)@ == old(self)@.update(slot as int, CallSlot::Pending { id, ret }),
    {
        let id: u64 = self.next_id;
        self.slots.set(slot, CallSlot::Pending { id, ret });
        self.next_id = id + 1;
        id
    }

    /// Gives up on a call: its place stays taken until the reply comes. A call
    /// that was answered meanwhile has no place any more.
    pub fn abandon(&mut self, id: u64)
        requires
            old(self).wf(),
        ensures
            final(self).wf(),
            final(self)@ == abandoned(old(self)@, id),
            final(self).next_id() == old(self).next_id(),
    {
        let mut i: usize = 0;
        while i < self.slots.len()
            invariant
                i <= self.slots.len(),
                *self == *old(self),
                self.wf(),
                place_of(self@, id, 0) == place_of(self@, id, i as int),
            decreases self.slots.len() - i,
        {
            if let CallSlot::Pending { id: p, ret: _ } = self.slots[i] {
                if p == id {
                    self.slots.set(i, CallSlot::Abandoned);
                    return;
                }
            }
            i = i + 1;
        }
    }

    fn named(&self, v4: bool, tag: u16) -> (r: Result<usize, Errno>)
        requires
            self.wf(),
        ensures
            match r {
                Ok(i) => named_slot(self@, v4, tag as int) == Ok::<int, Errno>(i as int) && i < 8
                    && self@[i as int] != CallSlot::Free,
                Err(e) => named_slot(self@, v4, tag as int) == Err::<int, Errno>(e),
            },
    {
        if tag >= 1 && tag <= 8 && self.slots[tag as usize - 1] != CallSlot::Free {
            return Ok(tag as usize - 1);
        }
        if v4 {
            proof {
                first_taken_is_taken(self@, 0);
            }
            return match self.find_taken() {
                Some(i) => Ok(i),
                None => Err(Errno::ENOENT),
            };
        }
        if tag == 0 || tag > 8 {
            return Err(Errno::EINVAL);
        }
        Err(Errno::ENOENT)
    }

    /// Takes in a reply: the call it is for is answered and its place is free
    /// again.
    pub fn reply(&mut self, v4: bool, tag: u16, data: &[u8]) -> (r: Result<Reply, Errno>)
        requires
            old(self).wf(),
        ensures
            final(self).wf(),
            final(self).next_id() == old(self).next_id(),
            if data.len() < 4 {
                r == Err::<Reply, Errno>(Errno::EMSGSIZE) && final(self)@ == old(self)@
            } else {
                match named_slot(old(self)@, v4, tag as int) {
                    Err(e) => r == Err::<Reply, Errno>(e) && final(self)@ == old(self)@,
                    Ok(i) => {
                        &&& final(self)@ == old(self)@.update(i, CallSlot::Free)
                        &&& r is Ok
                        &&& answers(old(self)@[i], data@, r->Ok_0)
                    },
                }
            },
    {
        if data.len() < 4 {
            return Err(Errno::EMSGSIZE);
        }
        let retcode: u32 = read_u32(data, 0);
        match self.named(v4, tag) {
            Err(e) => Err(e),
            Ok(slot) => {
                let call = self.slots[slot];
                self.slots.set(slot, CallSlot::Free);
                match call {
                    CallSlot::Pending { id, ret } => {
                        let bytes = match ret {
                            None => None,
                            Some(room) => {
                                let len: usize = if data.len() - 4 < room {
                                    data.len() - 4
                                } else {
                                    room
                                };
                                Some(copy_range(data, 4, 4 + len))
                            },
                        };
                        Ok(Reply::Answer { id, retcode, data: bytes })
                    },
                    _ => Ok(Reply::Late),
                }
            },
        }
    }
}

pub open spec fn same_call(a: CallSlot, b: CallSlot) -> bool {
    match (a, b) {
        (CallSlot::Pending { id: x, .. }, CallSlot::Pending { id: y, .. }) => x == y,
        _ => false,
    }
}

/// Whether `r` is what the caller in a place gets of a reply.
pub open spec fn answers(slot: CallSlot, data: Seq<u8>, r: Reply) -> bool {
    match (slot, r) {
        (CallSlot::Pending { id, ret }, Reply::Answer { id: to, retcode, data: bytes }) => {
            &&& to == id
            &&& retcode == u32_at(data, 0)
            &&& match (ret, bytes) {
                (None, None) => true,
                (Some(room), Some(b)) => b@ == returned(data, room as int),
                _ => false,
            }
        },
        (CallSlot::Abandoned, Reply::Late) => true,
        _ => false,
    }
}

// ---------------------------------------------------------------------------
// Laws.
// ---------------------------------------------------------------------------
/// The tag of a call that was given up is not given to another before the late
/// reply has come.
pub proof fn abandoned_tag_is_kept(slots: Seq<CallSlot>, v4: bool, i: int)
    requires
        0 <= i < slots.len(),
        slots[i] == CallSlot::Abandoned,
    ensures
        place_for_call(slots, v4) != Some(i),
{
    first_free_is_free(slots, 0);
}

/// The late reply frees the place of a call that was given up, and answers no
/// other call.
pub proof fn late_reply_answers_nobody(slots: Seq<CallSlot>, tag: int, data: Seq<u8>, r: Reply)
    requires
        1 <= tag <= slots.len(),
        slots[tag - 1] == CallSlot::Abandoned,
    ensures
        named_slot(slots, false, tag) == Ok::<int, Errno>(tag - 1),
        named_slot(slots, true, tag) == Ok::<int, Errno>(tag - 1),
        answers(slots[tag - 1], data, r) ==> r is Late,
{
}

/// A reply that repeats the tag goes to the call that was given it.
pub proof fn reply_goes_to_its_call(slots: Seq<CallSlot>, i: int, id: u64, ret: Option<usize>)
    requires
        place_for_call(slots, false) == Some(i),
    ensures
        named_slot(slots.update(i, CallSlot::Pending { id, ret }), false, i + 1) == Ok::<int, Errno>(
            i,
        ),
{
    first_free_is_free(slots, 0);
}

/// Where the tag is not repeated and callers take turns, there is one call in
/// flight at most, so that the reply can only be for that one, whatever its tag
/// says.
pub proof fn untagged_reply_is_unambiguous(
    slots: Seq<CallSlot>,
    i: int,
    id: u64,
    ret: Option<usize>,
    tag: int,
)
    requires
        place_for_call(slots, true) == Some(i),
        forall|j: int| 0 <= j < slots.len() ==> !(slots[j] is Pending),
    ensures
        named_slot(slots.update(i, CallSlot::Pending { id, ret }), true, tag) == Ok::<int, Errno>(
            i,
        ),
{
    first_free_is_free(slots, 0);
    let after = slots.update(i, CallSlot::Pending { id, ret });
    assert forall|j: int| 0 <= j < slots.len() implies slots[j] == CallSlot::Free by {
        assert(!(slots[j] is Pending));
        assert(slots[j] != CallSlot::Abandoned);
    }
    first_taken_is_taken(after, 0);
    if 1 <= tag <= slots.len() && after[tag - 1] != CallSlot::Free {
        assert(tag - 1 == i);
    } else {
        assert(after[i] != CallSlot::Free);
    }
}

/// What may happen to the calls of an endpoint.
pub enum CallEvent {
    /// A call is to be made, for that many bytes with the reply, if for any.
    Make { ret: Option<usize> },
    /// The caller of the call `id` gives up.
    GiveUp { id: u64 },
    /// A reply with a return code comes.
    Answer { tag: u16 },
}

/// The places, and the number that the next call gets.
#[verifier::ext_equal]
pub struct CallsView {
    pub slots: Seq<CallSlot>,
    pub next_id: u64,
}

pub open spec fn calls_step(c: CallsView, v4: bool, e: CallEvent) -> CallsView {
    match e {
        CallEvent::Make { ret } => match place_for_call(c.slots, v4) {
            Some(i) => CallsView {
                slots: c.slots.update(i, CallSlot::Pending { id: c.next_id, ret }),
                next_id: (c.next_id + 1) as u64,
            },
            None => c,
        },
        CallEvent::GiveUp { id } => CallsView { slots: abandoned(c.slots, id), ..c },
        CallEvent::Answer { tag } => match named_slot(c.slots, v4, tag as int) {
            Ok(i) => CallsView { slots: c.slots.update(i, CallSlot::Free), ..c },
            Err(_) => c,
        },
    }
}

/// The calls after the first `n` events.
pub open spec fn calls_run(c: CallsView, v4: bool, events: Seq<CallEvent>, n: int) -> CallsView
    decreases n,
{
    if n <= 0 {
        c
    } else {
        calls_step(calls_run(c, v4, events, n - 1), v4, events[n - 1])
    }
}

proof fn place_of_is_there(slots: Seq<CallSlot>, id: u64, from: int)
    requires
        0 <= from,
    ensures
        place_of(slots, id, from) matches Some(i) ==> from <= i < slots.len() && slots[i] is Pending,
    decreases slots.len() - from,
{
    if from < slots.len() && !(slots[from] matches CallSlot::Pending { id: p, .. } && p == id) {
        place_of_is_there(slots, id, from + 1);
    }
}

/// The place of a call that was given up stays taken whatever happens, until a
/// reply names its tag: no call in between is put there, so that none gets the
/// tag.
pub proof fn abandoned_place_is_kept(
    c: CallsView,
    events: Seq<CallEvent>,
    i: int,
    n: int,
)
    requires
        0 <= n <= events.len(),
        0 <= i < c.slots.len(),
        c.slots[i] == CallSlot::Abandoned,
        forall|k: int|
            0 <= k < events.len() ==> !(#[trigger] events[k] matches CallEvent::Answer { tag }
                && tag == i + 1),
    ensures
        calls_run(c, false, events, n).slots.len() == c.slots.len(),
        calls_run(c, false, events, n).slots[i] == CallSlot::Abandoned,
        place_for_call(calls_run(c, false, events, n).slots, false) != Some(i),
    decreases n,
{
    if n > 0 {
        abandoned_place_is_kept(c, events, i, n - 1);
        let before = calls_run(c, false, events, n - 1).slots;
        first_free_is_free(before, 0);
        match events[n - 1] {
            CallEvent::GiveUp { id } => {
                place_of_is_there(before, id, 0);
            },
            _ => {},
        }
        assert(calls_run(c, false, events, n).slots[i] == CallSlot::Abandoned);
    }
    abandoned_tag_is_kept(calls_run(c, false, events, n).slots, false, i);
}

/// Where the tag is not repeated, no call at all is made from the time one is
/// given up until the next reply.
pub proof fn untagged_calls_wait(c: CallsView, events: Seq<CallEvent>, i: int, n: int)
    requires
        0 <= n <= events.len(),
        0 <= i < c.slots.len(),
        c.slots[i] == CallSlot::Abandoned,
        forall|k: int| 0 <= k < events.len() ==> !(#[trigger] events[k] is Answer),
    ensures
        calls_run(c, true, events, n).slots.len() == c.slots.len(),
        calls_run(c, true, events, n).slots[i] == CallSlot::Abandoned,
        place_for_call(calls_run(c, true, events, n).slots, true) is None,
        calls_run(c, true, events, n).next_id == c.next_id,
    decreases n,
{
    if n > 0 {
        untagged_calls_wait(c, events, i, n - 1);
        let before = calls_run(c, true, events, n - 1).slots;
        match events[n - 1] {
            CallEvent::GiveUp { id } => {
                place_of_is_there(before, id, 0);
            },
            _ => {},
        }
    }
    assert(calls_run(c, true, events, n).slots[i] == CallSlot::Abandoned);
}

/// The late reply, when it comes in the end, frees the place of the call that
/// was given up: it completes no call, and leaves every other place as it was.
pub proof fn late_reply_frees_its_place(
    c: CallsView,
    events: Seq<CallEvent>,
    i: int,
    n: int,
    data: Seq<u8>,
    r: Reply,
)
    requires
        0 <= n <= events.len(),
        0 <= i < c.slots.len() <= 8,
        c.slots[i] == CallSlot::Abandoned,
        forall|k: int|
            0 <= k < events.len() ==> !(#[trigger] events[k] matches CallEvent::Answer { tag }
                && tag == i + 1),
        answers(calls_run(c, false, events, n).slots[i], data, r),
    ensures
        ({
            let before = calls_run(c, false, events, n);
            let after = calls_step(before, false, CallEvent::Answer { tag: (i + 1) as u16 });
            &&& r is Late
            &&& after == (CallsView { slots: before.slots.update(i, CallSlot::Free), ..before })
        }),
{
    abandoned_place_is_kept(c, events, i, n);
}

/// Where the parts of a call's header stand: a 2, the sequence number, the length of the
/// data, the layout's version, the category, the subtype and the tag. In the fourth
/// version eight bytes of time stand in front of the tag, and the room for a reply behind
/// it.
pub proof fn header_is_laid_out(
    v4: bool,
    seq: u16,
    len: u32,
    subtype: u16,
    tag: u16,
    capacity: u32,
)
    ensures
        ({
            let h = call_header(
                v4,
                seq as int,
                len as int,
                subtype as int,
                tag as int,
                capacity as int,
            );
            &&& h.len() == 40
            &&& h[0] == 2
            &&& u16_at(h, 1) == seq
            &&& forall|i: int| 3 <= i < 16 ==> h[i] == 0
            &&& u32_at(h, 16) == len
            &&& h[20] == if v4 {
                4u8
            } else {
                2u8
            }
            &&& h[21] == 0x10
            &&& u16_at(h, 22) == subtype
            &&& v4 ==> u16_at(h, 32) == tag && u32_at(h, 36) == capacity
            &&& !v4 ==> u16_at(h, 24) == tag
        }),
{
    broadcast use group_le;

    let h = call_header(
        v4,
        seq as int,
        len as int,
        subtype as int,
        tag as int,
        capacity as int,
    );
    assert(h.subrange(1, 3) =~= u16_le(seq as int));
    assert(h.subrange(16, 20) =~= u32_le(len as int));
    assert(h.subrange(22, 24) =~= u16_le(subtype as int));
    crate::bytes::u16_reads_back(h, 1, seq as int);
    crate::bytes::u32_reads_back(h, 16, len as int);
    crate::bytes::u16_reads_back(h, 22, subtype as int);
    if v4 {
        assert(h.subrange(32, 34) =~= u16_le(tag as int));
        assert(h.subrange(36, 40) =~= u32_le(capacity as int));
        crate::bytes::u16_reads_back(h, 32, tag as int);
        crate::bytes::u32_reads_back(h, 36, capacity as int);
    } else {
        assert(h.subrange(24, 26) =~= u16_le(tag as int));
        crate::bytes::u16_reads_back(h, 24, tag as int);
    }
}

/// A caller gets the bytes behind the return code, all of them or as many as there is
/// room for.
pub proof fn caller_gets_what_fits(code: Seq<u8>, data: Seq<u8>, room: int)
    requires
        code.len() == 4,
        0 <= room,
    ensures
        data.len() <= room ==> returned(code + data, room) == data,
        data.len() > room ==> returned(code + data, room) == data.subrange(0, room),
{
    if data.len() <= room {
        assert(returned(code + data, room) =~= data);
    } else {
        assert(returned(code + data, room) =~= data.subrange(0, room));
    }
}

/// A new call goes to the first place that is free.
pub proof fn first_free_is_the_first(slots: Seq<CallSlot>, from: int, i: int)
    requires
        0 <= from <= i < slots.len(),
        slots[i] == CallSlot::Free,
        forall|j: int| from <= j < i ==> slots[j] != CallSlot::Free,
    ensures
        first_free(slots, from) == Some(i),
    decreases i - from,
{
    if from < i {
        first_free_is_the_first(slots, from + 1, i);
    }
}

/// Giving a call up marks its place, and no other.
pub proof fn given_up_call_is_marked(slots: Seq<CallSlot>, id: u64, ret: Option<usize>, i: int, j: int)
    requires
        0 <= i < slots.len(),
        0 <= j < slots.len(),
        slots[i] == (CallSlot::Pending { id, ret }),
        forall|k: int|
            0 <= k < i ==> !(#[trigger] slots[k] matches CallSlot::Pending { id: p, .. } && p == id),
    ensures
        abandoned(slots, id)[i] == CallSlot::Abandoned,
        j != i ==> abandoned(slots, id)[j] == slots[j],
{
    place_is_the_first(slots, id, 0, i);
}

proof fn place_is_the_first(slots: Seq<CallSlot>, id: u64, from: int, i: int)
    requires
        0 <= from <= i < slots.len(),
        slots[i] matches CallSlot::Pending { id: p, .. } && p == id,
        forall|k: int|
            from <= k < i ==> !(#[trigger] slots[k] matches CallSlot::Pending { id: p, .. } && p == id),
    ensures
        place_of(slots, id, from) == Some(i),
    decreases i - from,
{
    if from < i {
        place_is_the_first(slots, id, from + 1, i);
    }
}

} // verus!
