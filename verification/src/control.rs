//! Requests to the control endpoint that wait for their answer, each under a
//! tag of its own.

use crate::errno::Errno;
use crate::proto::{ControlReply, TAG_ENTROPY, TAG_POOL_FIRST, TAG_POOL_LAST};
use vstd::prelude::*;

verus! {

pub const MAX_INFLIGHT: usize = 8;

/// How many tags the pool has.
pub const POOL_LEN: usize = 126;

/// One place for a request that waits.
#[derive(Clone, Copy, Debug, PartialEq, Eq, Structural)]
pub struct Slot {
    pub used: bool,
    pub tag: u8,
    pub reply: Option<ControlReply>,
}

pub open spec fn free_slot() -> Slot {
    Slot { used: false, tag: 0, reply: None }
}

/// What became of a reply.
#[derive(Clone, Copy, Debug, PartialEq, Eq, Structural)]
pub enum Delivery {
    Entropy,
    Matched,
    Unmatched,
}

pub struct ControlState {
    slots: Vec<Slot>,
    next_tag: u8,
    retired: Vec<bool>,
    retired_count: u32,
    entropy_value: Option<u32>,
    entropy_busy: bool,
}

/// How many of the flags are set.
pub open spec fn count_true(s: Seq<bool>) -> nat
    decreases s.len(),
{
    if s.len() == 0 {
        0
    } else {
        count_true(s.drop_last()) + if s.last() {
            1nat
        } else {
            0nat
        }
    }
}

proof fn count_true_bound(s: Seq<bool>)
    ensures
        count_true(s) <= s.len(),
    decreases s.len(),
{
    if s.len() > 0 {
        count_true_bound(s.drop_last());
    }
}

proof fn count_true_none(s: Seq<bool>)
    requires
        forall|i: int| 0 <= i < s.len() ==> !s[i],
    ensures
        count_true(s) == 0,
    decreases s.len(),
{
    if s.len() > 0 {
        count_true_none(s.drop_last());
    }
}

proof fn count_true_update(s: Seq<bool>, i: int, v: bool)
    requires
        0 <= i < s.len(),
    ensures
        count_true(s.update(i, v)) == count_true(s) + (if v {
            1int
        } else {
            0int
        }) - (if s[i] {
            1int
        } else {
            0int
        }),
    decreases s.len(),
{
    let t = s.update(i, v);
    if i == s.len() - 1 {
        assert(t.drop_last() =~= s.drop_last());
    } else {
        assert(t.drop_last() =~= s.drop_last().update(i, v));
        count_true_update(s.drop_last(), i, v);
    }
}

/// The control endpoint's bookkeeping: the places for waiting requests, the
/// tag to try next, the tags that may not be used again until their late reply
/// has come, and the single place for entropy.
#[verifier::ext_equal]
pub struct ControlView {
    pub slots: Seq<Slot>,
    pub next_tag: u8,
    pub retired: Seq<bool>,
    pub entropy_value: Option<u32>,
    pub entropy_busy: bool,
}

/// The tag that comes `k` places after `tag` in the cyclic order of the pool.
pub open spec fn pool_tag(tag: u8, k: int) -> int {
    1 + (tag - 1 + k) % 126
}

impl ControlView {
    pub open spec fn in_flight(self, tag: int) -> bool {
        exists|i: int|
            0 <= i < self.slots.len() && #[trigger] self.slots[i].used && self.slots[i].tag == tag
    }

    /// A tag may be given out when no request waits under it and no late reply
    /// to it is outstanding.
    pub open spec fn available(self, tag: int) -> bool {
        !self.in_flight(tag) && !self.retired[tag]
    }

    /// Nothing is lost and nothing is shared: every waiting request has a tag
    /// from the pool, no two the same, none of them retired.
    pub open spec fn wf(self) -> bool {
        &&& self.slots.len() == MAX_INFLIGHT
        &&& self.retired.len() == 256
        &&& TAG_POOL_FIRST <= self.next_tag <= TAG_POOL_LAST
        &&& forall|i: int| #![trigger self.slots[i]]
            0 <= i < self.slots.len() && self.slots[i].used ==> {
                &&& TAG_POOL_FIRST <= self.slots[i].tag <= TAG_POOL_LAST
                &&& !self.retired[self.slots[i].tag as int]
            }
        &&& forall|i: int, j: int|
            #![trigger self.slots[i], self.slots[j]]
            0 <= i < j < self.slots.len() && self.slots[i].used && self.slots[j].used
                ==> self.slots[i].tag != self.slots[j].tag
        &&& forall|i: int| #![trigger self.slots[i]]
            0 <= i < self.slots.len() && !self.slots[i].used ==> self.slots[i] == free_slot()
    }

    /// A reply goes to the place `i`.
    pub open spec fn takes(self, i: int, tag: u8) -> bool {
        &&& 0 <= i < self.slots.len()
        &&& self.slots[i].used
        &&& self.slots[i].tag == tag
        &&& self.slots[i].reply is None
    }
}

/// A request was given the place `idx`, the first free one, and `tag`, the next
/// in cyclic order that was available; nothing else changed.
pub open spec fn allotted(
    before: ControlView,
    after: ControlView,
    idx: int,
    tag: u8,
) -> bool {
    &&& 0 <= idx < MAX_INFLIGHT
    &&& !before.slots[idx].used
    &&& forall|j: int| 0 <= j < idx ==> #[trigger] before.slots[j].used
    &&& before.available(tag as int)
    &&& exists|k: int|
        {
            &&& 0 <= k < POOL_LEN
            &&& tag == #[trigger] pool_tag(before.next_tag, k)
            &&& forall|m: int|
                0 <= m < k ==> !before.available(#[trigger] pool_tag(before.next_tag, m))
            &&& after.next_tag == pool_tag(before.next_tag, k + 1)
        }
    &&& after == (ControlView {
        slots: before.slots.update(idx, Slot { used: true, tag, reply: None }),
        next_tag: after.next_tag,
        ..before
    })
}

/// The reply that came for the request at `idx` is taken.
pub open spec fn reply_taken(before: ControlView, idx: int) -> ControlView {
    ControlView {
        slots: before.slots.update(idx, Slot { reply: None, ..before.slots[idx] }),
        ..before
    }
}

/// The place `idx` is given back.
pub open spec fn released(before: ControlView, idx: int) -> ControlView {
    ControlView { slots: before.slots.update(idx, free_slot()), ..before }
}

/// The place `idx` is given back and its tag is retired.
pub open spec fn abandoned(before: ControlView, idx: int) -> ControlView {
    ControlView {
        retired: before.retired.update(before.slots[idx].tag as int, true),
        ..released(before, idx)
    }
}

/// What becomes of a reply.
pub open spec fn delivered(
    before: ControlView,
    reply: ControlReply,
    after: ControlView,
    d: Delivery,
) -> bool {
    match d {
        Delivery::Entropy => reply.tag == TAG_ENTROPY && after == (ControlView {
            entropy_value: Some(reply.data_lo),
            ..before
        }),
        Delivery::Matched => reply.tag != TAG_ENTROPY && exists|i: int| #[trigger]
            before.takes(i, reply.tag) && after == (ControlView {
                slots: before.slots.update(i, Slot { reply: Some(reply), ..before.slots[i] }),
                ..before
            }),
        Delivery::Unmatched => reply.tag != TAG_ENTROPY && (forall|i: int|
            !#[trigger] before.takes(i, reply.tag)) && after == (ControlView {
            retired: before.retired.update(reply.tag as int, false),
            ..before
        }),
    }
}

/// Every place is taken, or no tag is available.
pub open spec fn exhausted(v: ControlView) -> bool {
    ||| forall|j: int| 0 <= j < MAX_INFLIGHT ==> #[trigger] v.slots[j].used
    ||| forall|t: int| TAG_POOL_FIRST <= t <= TAG_POOL_LAST ==> !v.available(t)
}

impl ControlState {
    pub closed spec fn view(&self) -> ControlView {
        ControlView {
            slots: self.slots@,
            next_tag: self.next_tag,
            retired: self.retired@,
            entropy_value: self.entropy_value,
            entropy_busy: self.entropy_busy,
        }
    }

    pub closed spec fn wf(&self) -> bool {
        self@.wf() && self.retired_count == count_true(self.retired@)
    }

    /// What holds of the view of a well-formed state.
    pub proof fn wf_view(&self)
        requires
            self.wf(),
        ensures
            self@.wf(),
    {
    }

    pub fn new() -> (s: ControlState)
        ensures
            s.wf(),
            s@.next_tag == TAG_POOL_FIRST,
            forall|i: int| 0 <= i < MAX_INFLIGHT ==> s@.slots[i] == free_slot(),
            forall|t: int| 0 <= t < 256 ==> !s@.retired[t],
            s@.entropy_value is None,
            !s@.entropy_busy,
    {
        let mut slots: Vec<Slot> = Vec::new();
        while slots.len() < MAX_INFLIGHT
            invariant
                slots.len() <= MAX_INFLIGHT,
                forall|i: int| 0 <= i < slots.len() ==> slots@[i] == free_slot(),
            decreases MAX_INFLIGHT - slots.len(),
        {
            slots.push(Slot { used: false, tag: 0, reply: None });
        }
        let mut retired: Vec<bool> = Vec::new();
        while retired.len() < 256
            invariant
                retired.len() <= 256,
                forall|i: int| 0 <= i < retired.len() ==> !retired@[i],
            decreases 256 - retired.len(),
        {
            retired.push(false);
        }
        proof {
            count_true_none(retired@);
        }
        ControlState {
            slots,
            next_tag: TAG_POOL_FIRST,
            retired,
            retired_count: 0,
            entropy_value: None,
            entropy_busy: false,
        }
    }

    fn retire(&mut self, tag: u8)
        requires
            old(self).retired.len() == 256,
            old(self).retired_count == count_true(old(self).retired@),
        ensures
            final(self)@ == (ControlView {
                retired: old(self)@.retired.update(tag as int, true),
                ..old(self)@
            }),
            final(self).retired_count == count_true(final(self).retired@),
    {
        proof {
            count_true_update(self.retired@, tag as int, true);
            count_true_bound(self.retired@);
        }
        if !self.retired[tag as usize] {
            self.retired.set(tag as usize, true);
            self.retired_count = self.retired_count + 1;
        } else {
            assert(self.retired@ =~= self.retired@.update(tag as int, true));
        }
    }

    fn reclaim_retired(&mut self, tag: u8) -> (was: bool)
        requires
            old(self).retired.len() == 256,
            old(self).retired_count == count_true(old(self).retired@),
        ensures
            was == old(self)@.retired[tag as int],
            final(self)@ == (ControlView {
                retired: old(self)@.retired.update(tag as int, false),
                ..old(self)@
            }),
            final(self).retired_count == count_true(final(self).retired@),
    {
        proof {
            count_true_update(self.retired@, tag as int, false);
        }
        if !self.retired[tag as usize] {
            assert(self.retired@ =~= self.retired@.update(tag as int, false));
            return false;
        }
        self.retired.set(tag as usize, false);
        self.retired_count = self.retired_count - 1;
        true
    }

    fn tag_in_flight(&self, tag: u8) -> (r: bool)
        ensures
            r == self@.in_flight(tag as int),
    {
        let mut i: usize = 0;
        while i < self.slots.len()
            invariant
                i <= self.slots.len(),
                forall|j: int|
                    0 <= j < i ==> !(#[trigger] self.slots@[j].used && self.slots@[j].tag == tag),
            decreases self.slots.len() - i,
        {
            if self.slots[i].used && self.slots[i].tag == tag {
                assert(self@.slots[i as int].used);
                return true;
            }
            i = i + 1;
        }
        false
    }

    fn first_free(&self) -> (r: Option<usize>)
        ensures
            match r {
                Some(i) => i < self@.slots.len() && !self@.slots[i as int].used && forall|j: int|
                    0 <= j < i ==> #[trigger] self@.slots[j].used,
                None => forall|j: int| 0 <= j < self@.slots.len() ==> #[trigger] self@.slots[j].used,
            },
    {
        let mut i: usize = 0;
        while i < self.slots.len()
            invariant
                i <= self.slots.len(),
                forall|j: int| 0 <= j < i ==> #[trigger] self.slots@[j].used,
            decreases self.slots.len() - i,
        {
            if !self.slots[i].used {
                return Some(i);
            }
            i = i + 1;
        }
        None
    }

    /// Gives out the first free place and the next tag, in cyclic order, that
    /// is available. With every place taken, or no tag available, nothing
    /// changes.
    pub fn alloc_slot(&mut self) -> (r: Result<(usize, u8), Errno>)
        requires
            old(self).wf(),
        ensures
            final(self).wf(),
            match r {
                Ok((idx, tag)) => allotted(old(self)@, final(self)@, idx as int, tag),
                Err(e) => e == Errno::EBUSY && exhausted(old(self)@) && final(self)@ == old(
                    self,
                )@,
            },
    {
        let idx: usize = match self.first_free() {
            Some(i) => i,
            None => {
                return Err(Errno::EBUSY);
            },
        };
        let ghost start = self.next_tag;
        let mut n: usize = 0;
        while n < POOL_LEN
            invariant
                n <= POOL_LEN,
                old(self).wf(),
                start == old(self)@.next_tag,
                self@ == (ControlView { next_tag: self.next_tag, ..old(self)@ }),
                self.retired_count == old(self).retired_count,
                self.next_tag == pool_tag(start, n as int),
                idx < MAX_INFLIGHT,
                !old(self)@.slots[idx as int].used,
                forall|j: int| 0 <= j < idx ==> #[trigger] old(self)@.slots[j].used,
                forall|m: int|
                    0 <= m < n ==> !old(self)@.available(#[trigger] pool_tag(start, m)),
            decreases POOL_LEN - n,
        {
            let tag: u8 = self.next_tag;
            self.next_tag = if tag >= TAG_POOL_LAST {
                TAG_POOL_FIRST
            } else {
                tag + 1
            };
            assert(self.next_tag == pool_tag(start, n + 1));
            let free = !self.tag_in_flight(tag) && !self.retired[tag as usize];
            assert(self@.in_flight(tag as int) == old(self)@.in_flight(tag as int)) by {
                assert(self@.slots == old(self)@.slots);
            }
            if free {
                assert(tag == pool_tag(start, n as int));
                self.slots.set(idx, Slot { used: true, tag, reply: None });
                proof {
                    assert(forall|i: int|
                        0 <= i < 8 && old(self)@.slots[i].used ==> old(self)@.slots[i].tag != tag);
                }
                return Ok((idx, tag));
            }
            n = n + 1;
        }
        proof {
            assert(pool_tag(start, 126) == start);
            assert forall|t: int| TAG_POOL_FIRST <= t <= TAG_POOL_LAST implies !old(
                self,
            )@.available(t) by {
                let m = (t - start) % 126;
                assert(pool_tag(start, m) == t);
            }
        }
        Err(Errno::EBUSY)
    }

    /// Takes the reply that came for the request at `idx`, if one came.
    pub fn take_reply(&mut self, idx: usize) -> (r: Option<ControlReply>)
        requires
            old(self).wf(),
            idx < MAX_INFLIGHT,
        ensures
            final(self).wf(),
            r == old(self)@.slots[idx as int].reply,
            final(self)@ == reply_taken(old(self)@, idx as int),
    {
        let slot = self.slots[idx];
        self.slots.set(idx, Slot { used: slot.used, tag: slot.tag, reply: None });
        slot.reply
    }

    /// Gives the place back. The tag is free again.
    pub fn release(&mut self, idx: usize)
        requires
            old(self).wf(),
            idx < MAX_INFLIGHT,
        ensures
            final(self).wf(),
            final(self)@ == released(old(self)@, idx as int),
    {
        self.slots.set(idx, Slot { used: false, tag: 0, reply: None });
    }

    /// Gives the place back and retires the tag, so that a late reply cannot be
    /// mistaken for a later request's answer.
    pub fn abandon(&mut self, idx: usize) -> (tag: u8)
        requires
            old(self).wf(),
            idx < MAX_INFLIGHT,
        ensures
            final(self).wf(),
            tag == old(self)@.slots[idx as int].tag,
            final(self)@ == abandoned(old(self)@, idx as int),
    {
        let tag: u8 = self.slots[idx].tag;
        self.retire(tag);
        self.slots.set(idx, Slot { used: false, tag: 0, reply: None });
        tag
    }

    pub fn retired_count(&self) -> (n: u32)
        requires
            self.wf(),
        ensures
            n == count_true(self@.retired),
    {
        self.retired_count
    }

    /// Files a reply. One under the entropy tag is entropy, asked for or not;
    /// another goes to the request that waits under its tag; one that nobody
    /// waits for is dropped, and frees its tag if the tag was retired.
    pub fn deliver(&mut self, reply: ControlReply) -> (d: Delivery)
        requires
            old(self).wf(),
        ensures
            final(self).wf(),
            delivered(old(self)@, reply, final(self)@, d),
    {
        if reply.tag == TAG_ENTROPY {
            self.entropy_value = Some(reply.data_lo);
            return Delivery::Entropy;
        }
        let mut i: usize = 0;
        while i < self.slots.len()
            invariant
                i <= self.slots.len(),
                *self == *old(self),
                self.wf(),
                reply.tag != TAG_ENTROPY,
                forall|j: int| 0 <= j < i ==> !#[trigger] self@.takes(j, reply.tag),
            decreases self.slots.len() - i,
        {
            let slot = self.slots[i];
            if slot.used && slot.tag == reply.tag && slot.reply.is_none() {
                self.slots.set(i, Slot { used: true, tag: slot.tag, reply: Some(reply) });
                assert(old(self)@.takes(i as int, reply.tag));
                return Delivery::Matched;
            }
            i = i + 1;
        }
        assert forall|j: int| !#[trigger] old(self)@.takes(j, reply.tag) by {
            if 0 <= j < self.slots.len() {
                assert(!self@.takes(j, reply.tag));
            }
        }
        let _ = self.reclaim_retired(reply.tag);
        Delivery::Unmatched
    }

    /// Starts a draw of entropy. Only one may run.
    pub fn entropy_begin(&mut self) -> (r: Result<(), Errno>)
        requires
            old(self).wf(),
        ensures
            final(self).wf(),
            match r {
                Ok(_) => !old(self)@.entropy_busy && final(self)@ == (ControlView {
                    entropy_busy: true,
                    entropy_value: None,
                    ..old(self)@
                }),
                Err(e) => old(self)@.entropy_busy && e == Errno::EBUSY && final(self)@ == old(
                    self,
                )@,
            },
    {
        if self.entropy_busy {
            return Err(Errno::EBUSY);
        }
        self.entropy_busy = true;
        self.entropy_value = None;
        Ok(())
    }

    pub fn entropy_take(&mut self) -> (r: Option<u32>)
        requires
            old(self).wf(),
        ensures
            final(self).wf(),
            r == old(self)@.entropy_value,
            final(self)@ == (ControlView { entropy_value: None, ..old(self)@ }),
    {
        let v = self.entropy_value;
        self.entropy_value = None;
        v
    }

    pub fn entropy_end(&mut self)
        requires
            old(self).wf(),
        ensures
            final(self).wf(),
            final(self)@ == (ControlView { entropy_busy: false, ..old(self)@ }),
    {
        self.entropy_busy = false;
    }
}

/// Once the request at `idx` is abandoned, its tag is retired, so that it is not
/// available, and no request waits under it.
pub proof fn abandoned_tag_is_withheld(before: ControlView, idx: int)
    requires
        before.wf(),
        0 <= idx < MAX_INFLIGHT,
        before.slots[idx].used,
    ensures
        ({
            let tag = before.slots[idx].tag;
            let after = abandoned(before, idx);
            &&& after.retired[tag as int]
            &&& !after.available(tag as int)
            &&& forall|i: int| !#[trigger] after.takes(i, tag)
        }),
{
    let tag = before.slots[idx].tag;
    let after = abandoned(before, idx);
    assert forall|i: int| !#[trigger] after.takes(i, tag) by {
        if 0 <= i < MAX_INFLIGHT && i != idx && after.slots[i].used {
            assert(after.slots[i] == before.slots[i]);
            if i < idx {
                assert(before.slots[i].tag != before.slots[idx].tag);
            } else {
                assert(before.slots[idx].tag != before.slots[i].tag);
            }
        }
    }
}

/// A call on the bookkeeping, and what it gave.
pub enum Use {
    Alloc(Result<(int, u8), Errno>),
    TakeReply(int),
    Release(int),
    Abandon(int),
    Deliver(ControlReply, Delivery),
    EntropyBegin,
    EntropyTake,
    EntropyEnd,
}

/// Whether a call that gave this may make `b` of `a`.
pub open spec fn used(a: ControlView, u: Use, b: ControlView) -> bool {
    match u {
        Use::Alloc(Ok((idx, tag))) => allotted(a, b, idx, tag),
        Use::Alloc(Err(_)) => exhausted(a) && b == a,
        Use::TakeReply(idx) => b == reply_taken(a, idx),
        Use::Release(idx) => b == released(a, idx),
        Use::Abandon(idx) => b == abandoned(a, idx),
        Use::Deliver(reply, d) => delivered(a, reply, b, d),
        Use::EntropyBegin => b == a || b == (ControlView {
            entropy_busy: true,
            entropy_value: None,
            ..a
        }),
        Use::EntropyTake => b == (ControlView { entropy_value: None, ..a }),
        Use::EntropyEnd => b == (ControlView { entropy_busy: false, ..a }),
    }
}

/// Whether a call delivers a reply under `tag`.
pub open spec fn delivers(u: Use, tag: u8) -> bool {
    u matches Use::Deliver(reply, _) && reply.tag == tag
}

/// Whether a call gives `tag` out.
pub open spec fn gives_out(u: Use, tag: u8) -> bool {
    u matches Use::Alloc(Ok((_, t))) && t == tag
}

/// A retired tag stays retired over any number of calls, as long as no reply
/// under it is delivered, and none of them gives it out: no request is handed
/// an answer that was meant for an abandoned one.
pub proof fn retired_tag_is_never_given_out(
    states: Seq<ControlView>,
    uses: Seq<Use>,
    tag: u8,
    n: int,
)
    requires
        0 <= n <= uses.len(),
        states.len() == uses.len() + 1,
        states[0].retired.len() == 256,
        states[0].retired[tag as int],
        forall|i: int|
            0 <= i < uses.len() ==> used(states[i], #[trigger] uses[i], states[i + 1]),
        forall|i: int| 0 <= i < uses.len() ==> !delivers(#[trigger] uses[i], tag),
    ensures
        states[n].retired.len() == 256,
        states[n].retired[tag as int],
        forall|i: int| 0 <= i < n ==> !gives_out(#[trigger] uses[i], tag),
    decreases n,
{
    if n > 0 {
        retired_tag_is_never_given_out(states, uses, tag, n - 1);
        assert(used(states[n - 1], uses[n - 1], states[n - 1 + 1]));
        assert(!delivers(uses[n - 1], tag));
    }
}

/// The late reply to an abandoned request is told as unmatched, reaches no
/// request, and frees the tag.
pub proof fn late_reply_frees_its_tag(
    a: ControlView,
    reply: ControlReply,
    b: ControlView,
    d: Delivery,
)
    requires
        a.wf(),
        a.retired[reply.tag as int],
        reply.tag != TAG_ENTROPY,
        delivered(a, reply, b, d),
    ensures
        d == Delivery::Unmatched,
        b.slots == a.slots,
        !b.retired[reply.tag as int],
        count_true(b.retired) == count_true(a.retired) - 1,
{
    assert forall|i: int| !#[trigger] a.takes(i, reply.tag) by {
        if 0 <= i < a.slots.len() && a.slots[i].used {
            assert(!a.retired[a.slots[i].tag as int]);
        }
    }
    count_true_update(a.retired, reply.tag as int, false);
}

/// At most one request can take a reply.
pub proof fn reply_has_one_taker(s: ControlView, i: int, j: int, tag: u8)
    requires
        s.wf(),
        s.takes(i, tag),
        s.takes(j, tag),
    ensures
        i == j,
{
    if i < j {
        assert(s.slots[i].tag != s.slots[j].tag);
    } else if j < i {
        assert(s.slots[j].tag != s.slots[i].tag);
    }
}

/// Tags are given out in turn from 1 to 0x7e: where the next one is available and the first
/// place is free, they are what a request gets, and the tag behind it comes next.
pub proof fn tags_are_given_in_turn(a: ControlView, b: ControlView, idx: int, tag: u8)
    requires
        a.wf(),
        allotted(a, b, idx, tag),
        a.available(a.next_tag as int),
    ensures
        tag == a.next_tag,
        1 <= tag <= 0x7e,
        b.next_tag == if tag == 0x7e {
            1
        } else {
            tag + 1
        },
        !a.slots[0].used ==> idx == 0,
        b.slots[idx] == (Slot { used: true, tag, reply: None }),
        forall|i: int| 0 <= i < 8 && i != idx ==> #[trigger] b.slots[i] == a.slots[i],
        b.retired == a.retired,
        b.entropy_value == a.entropy_value,
        b.entropy_busy == a.entropy_busy,
{
    let k = choose|k: int|
        {
            &&& 0 <= k < POOL_LEN
            &&& tag == #[trigger] pool_tag(a.next_tag, k)
            &&& forall|m: int| 0 <= m < k ==> !a.available(#[trigger] pool_tag(a.next_tag, m))
            &&& b.next_tag == pool_tag(a.next_tag, k + 1)
        };
    assert(pool_tag(a.next_tag, 0) == a.next_tag);
    assert(k == 0);
}

/// A reply under the tag 0xe7 is entropy, and no request's. Any other goes to the request
/// that waits under its tag, and to that one alone.
pub proof fn replies_go_by_tag(
    a: ControlView,
    reply: ControlReply,
    b: ControlView,
    d: Delivery,
    i: int,
)
    requires
        a.wf(),
        delivered(a, reply, b, d),
        0 <= i < 8,
    ensures
        reply.tag == 0xe7 ==> d == Delivery::Entropy && b.entropy_value == Some(reply.data_lo)
            && b.slots == a.slots,
        reply.tag != 0xe7 ==> b.entropy_value == a.entropy_value,
        reply.tag != 0xe7 && a.slots[i].used && a.slots[i].tag == reply.tag
            && a.slots[i].reply is None ==> d == Delivery::Matched && b.slots[i].reply == Some(
            reply,
        ) && b.slots[i].used && b.slots[i].tag == reply.tag,
        a.slots[i].tag != reply.tag ==> b.slots[i] == a.slots[i],
        a.slots[i].reply is Some ==> b.slots[i] == a.slots[i],
        b.next_tag == a.next_tag,
{
    if reply.tag != 0xe7 && a.takes(i, reply.tag) {
        assert(d == Delivery::Matched);
        let j = choose|j: int| #[trigger]
            a.takes(j, reply.tag) && b == (ControlView {
                slots: a.slots.update(j, Slot { reply: Some(reply), ..a.slots[j] }),
                ..a
            });
        reply_has_one_taker(a, i, j, reply.tag);
    }
}

/// A request that is over leaves its place free and its tag available; one that is given
/// up leaves its place free and its tag retired. The reply that came is taken once.
pub proof fn places_are_given_back(a: ControlView, idx: int)
    requires
        a.wf(),
        0 <= idx < 8,
        a.slots[idx].used,
    ensures
        released(a, idx).slots[idx] == (Slot { used: false, tag: 0, reply: None }),
        released(a, idx).retired == a.retired,
        released(a, idx).available(a.slots[idx].tag as int),
        abandoned(a, idx).slots[idx] == (Slot { used: false, tag: 0, reply: None }),
        abandoned(a, idx).retired[a.slots[idx].tag as int],
        reply_taken(a, idx).slots[idx].reply is None,
        reply_taken(a, idx).slots[idx].used,
        reply_taken(a, idx).slots[idx].tag == a.slots[idx].tag,
{
    let b = released(a, idx);
    let tag = a.slots[idx].tag as int;
    assert forall|i: int| 0 <= i < b.slots.len() && #[trigger] b.slots[i].used implies b.slots[i].tag
        != tag by {
        assert(b.slots[i] == a.slots[i]);
        assert(a.slots[idx].used);
    }
}

} // verus!
