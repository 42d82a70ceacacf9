//! The ring that hands received messages from the interrupt to the worker.

use crate::mailbox::Message;
use vstd::prelude::*;

verus! {

pub const RING_LEN: u32 = 64;

/// A bounded first-in first-out queue. `head` and `tail` count pushes and pops
/// and wrap; what does not fit is dropped and counted.
pub struct RxRing {
    slots: Vec<Message>,
    head: u32,
    tail: u32,
    dropped: u32,
}

/// How far `head` is ahead of `tail`.
pub open spec fn ahead(head: u32, tail: u32) -> int {
    (head - tail) % 0x1_0000_0000
}

/// The slot of the message that is the `i`th after `tail`.
pub open spec fn slot_of(tail: u32, i: int) -> int {
    (tail + i) % 64
}

/// The messages after one more has come.
pub open spec fn after_push(q: Seq<Message>, msg: Message) -> Seq<Message> {
    if q.len() < RING_LEN {
        q.push(msg)
    } else {
        q
    }
}

/// The oldest message, if there is one.
pub open spec fn oldest(q: Seq<Message>) -> Option<Message> {
    if q.len() > 0 {
        Some(q[0])
    } else {
        None
    }
}

/// The messages without the oldest.
pub open spec fn after_pop(q: Seq<Message>) -> Seq<Message> {
    if q.len() > 0 {
        q.subrange(1, q.len() as int)
    } else {
        q
    }
}

impl RxRing {
    pub closed spec fn wf(&self) -> bool {
        &&& self.slots.len() == RING_LEN
        &&& ahead(self.head, self.tail) <= RING_LEN
    }

    /// The messages in the ring, the oldest first.
    pub closed spec fn view(&self) -> Seq<Message> {
        Seq::new(
            ahead(self.head, self.tail) as nat,
            |i: int| self.slots@[slot_of(self.tail, i)],
        )
    }

    /// How many messages were dropped, modulo two to the 32nd.
    pub closed spec fn lost(&self) -> u32 {
        self.dropped
    }

    pub fn new() -> (r: RxRing)
        ensures
            r.wf(),
            r@ == Seq::<Message>::empty(),
            r.lost() == 0,
    {
        let mut slots: Vec<Message> = Vec::new();
        while slots.len() < 64
            invariant
                slots.len() <= 64,
            decreases 64 - slots.len(),
        {
            slots.push(Message { msg0: 0, msg1: 0 });
        }
        let r = RxRing { slots, head: 0, tail: 0, dropped: 0 };
        assert(r@ =~= Seq::<Message>::empty());
        r
    }

    /// Appends a message. A full ring keeps what it has, counts the message as
    /// dropped and answers `false`.
    pub fn push(&mut self, msg: Message) -> (kept: bool)
        requires
            old(self).wf(),
        ensures
            final(self).wf(),
            final(self)@.len() <= RING_LEN,
            kept == (old(self)@.len() < RING_LEN),
            final(self)@ == after_push(old(self)@, msg),
            final(self).lost() == (if kept {
                old(self).lost() as int
            } else {
                (old(self).lost() + 1) % 0x1_0000_0000
            }),
    {
        let filled: u32 = self.head.wrapping_sub(self.tail);
        assert(filled == ahead(self.head, self.tail));
        if filled >= RING_LEN {
            self.dropped = self.dropped.wrapping_add(1);
            assert(self@ =~= old(self)@);
            return false;
        }
        let at: usize = (self.head % RING_LEN) as usize;
        self.slots.set(at, msg);
        self.head = self.head.wrapping_add(1);
        proof {
            let n = ahead(old(self).head, old(self).tail);
            assert(ahead(self.head, self.tail) == n + 1);
            assert(slot_of(self.tail, n) == at);
            assert forall|i: int| 0 <= i < n implies #[trigger] slot_of(self.tail, i) != at by {}
            assert(self@ =~= old(self)@.push(msg));
        }
        true
    }

    /// Takes the oldest message out.
    pub fn pop(&mut self) -> (r: Option<Message>)
        requires
            old(self).wf(),
        ensures
            final(self).wf(),
            final(self).lost() == old(self).lost(),
            r == oldest(old(self)@),
            final(self)@ == after_pop(old(self)@),
    {
        if self.head == self.tail {
            return None;
        }
        let at: usize = (self.tail % RING_LEN) as usize;
        let msg = self.slots[at];
        self.tail = self.tail.wrapping_add(1);
        proof {
            let n = ahead(old(self).head, old(self).tail);
            assert(n > 0);
            assert(ahead(self.head, self.tail) == n - 1);
            assert forall|i: int| 0 <= i < n - 1 implies #[trigger] slot_of(self.tail, i) == slot_of(
                old(self).tail,
                i + 1,
            ) by {}
            assert(self@ =~= old(self)@.subrange(1, n));
        }
        Some(msg)
    }

    pub fn dropped(&self) -> (n: u32)
        ensures
            n == self.lost(),
    {
        self.dropped
    }
}

/// A use of the ring.
pub enum Use {
    Push(Message),
    Pop,
}

/// What a run of uses of a new ring comes to.
#[verifier::ext_equal]
pub struct Run {
    /// The messages in the ring.
    pub queue: Seq<Message>,
    /// The messages that were kept, in the order in which they came.
    pub kept: Seq<Message>,
    /// The messages that were taken out, in the order in which they left.
    pub taken: Seq<Message>,
}

pub open spec fn run(uses: Seq<Use>) -> Run
    decreases uses.len(),
{
    if uses.len() == 0 {
        Run { queue: Seq::empty(), kept: Seq::empty(), taken: Seq::empty() }
    } else {
        let before = run(uses.drop_last());
        match uses.last() {
            Use::Push(msg) => Run {
                queue: after_push(before.queue, msg),
                kept: if before.queue.len() < RING_LEN {
                    before.kept.push(msg)
                } else {
                    before.kept
                },
                ..before
            },
            Use::Pop => Run {
                queue: after_pop(before.queue),
                taken: match oldest(before.queue) {
                    Some(msg) => before.taken.push(msg),
                    None => before.taken,
                },
                ..before
            },
        }
    }
}

/// First in, first out, over any run of pushes and pops: what was taken out and
/// then what is left is what was kept, nothing lost, doubled or reordered. So
/// the next pop gives the oldest kept message that was not taken out yet, and
/// nothing exactly when all were.
pub proof fn first_in_first_out(uses: Seq<Use>)
    ensures
        ({
            let r = run(uses);
            &&& r.kept == r.taken + r.queue
            &&& r.queue.len() <= RING_LEN
            &&& forall|i: int| 0 <= i < r.taken.len() ==> #[trigger] r.taken[i] == r.kept[i]
            &&& oldest(r.queue) == (if r.taken.len() < r.kept.len() {
                Some(r.kept[r.taken.len() as int])
            } else {
                None
            })
        }),
    decreases uses.len(),
{
    if uses.len() > 0 {
        first_in_first_out(uses.drop_last());
        let before = run(uses.drop_last());
        let r = run(uses);
        match uses.last() {
            Use::Push(msg) => {
                if before.queue.len() < RING_LEN {
                    assert(r.kept =~= before.taken + before.queue.push(msg));
                }
            },
            Use::Pop => {
                if before.queue.len() > 0 {
                    assert(before.kept =~= before.taken.push(before.queue[0]) + after_pop(
                        before.queue,
                    ));
                }
            },
        }
        assert(r.kept =~= r.taken + r.queue);
    } else {
        assert(run(uses).kept =~= run(uses).taken + run(uses).queue);
    }
}

/// The ring holds sixty-four messages. What comes to a full one is dropped, and what is
/// taken out is what stood in front.
pub proof fn ring_holds_sixty_four(q: Seq<Message>, msg: Message)
    ensures
        q.len() < 64 ==> after_push(q, msg) == q.push(msg),
        q.len() >= 64 ==> after_push(q, msg) == q,
        oldest(seq![msg] + q) == Some(msg),
        after_pop(seq![msg] + q) == q,
        oldest(Seq::empty()) is None,
        after_pop(Seq::<Message>::empty()) == Seq::<Message>::empty(),
{
    assert(after_pop(seq![msg] + q) =~= q);
}

} // verus!
