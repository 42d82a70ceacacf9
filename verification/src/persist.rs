//! The order in which what is kept reaches its medium, so that a cut at any
//! point does no harm: one machine for a value of the host's store, one for the
//! record of the key bag, one for an anti-replay record.

use crate::bytes::{spliced, zeroed};
use crate::errno::Errno;
use crate::keybag;
use crate::keybag::{BagView, UuidProvenance, HEADER};
use crate::store;
use crate::store::{block_start, Intent, Slot};
use crate::uuid::Uuid;
use crate::xart_store;
use vstd::prelude::*;

verus! {

// ---------------------------------------------------------------------------
// A value of the host's store.
// ---------------------------------------------------------------------------
/// What is to be done next.
#[derive(Clone, Copy, Debug, PartialEq, Eq, Structural)]
pub enum StoreAsk {
    /// Write the table, with this intent.
    PutTable(Intent),
    /// Write the value into the block of this slot.
    PutBlock(usize),
    /// Wait until all that was written is safe.
    Sync,
    Done,
    Failed(Errno),
}

/// Which step is under way.
#[derive(Clone, Copy, Debug, PartialEq, Eq, Structural)]
pub enum StoreStage {
    Mark,
    MarkSync,
    Fill,
    FillSync,
    Switch,
    SwitchSync,
    Over,
}

/// Storing a value: the intent, the block and the table become safe one after
/// the other.
#[derive(Clone, Copy, Debug, PartialEq, Eq, Structural)]
pub struct StoreWrite {
    pub stage: StoreStage,
    pub plan: store::WritePlan,
    pub kind: u8,
    /// The value has no bytes.
    pub empty: bool,
}

/// What comes after a step. The first one that fails ends the write.
pub open spec fn store_step(m: StoreWrite, r: Result<(), Errno>) -> (StoreWrite, StoreAsk) {
    match r {
        Err(e) => (StoreWrite { stage: StoreStage::Over, ..m }, StoreAsk::Failed(e)),
        Ok(_) => match m.stage {
            StoreStage::Mark => (
                StoreWrite { stage: StoreStage::MarkSync, ..m },
                StoreAsk::Sync,
            ),
            StoreStage::MarkSync => if m.empty {
                (StoreWrite { stage: StoreStage::FillSync, ..m }, StoreAsk::Sync)
            } else {
                (StoreWrite { stage: StoreStage::Fill, ..m }, StoreAsk::PutBlock(m.plan.slot))
            },
            StoreStage::Fill => (
                StoreWrite { stage: StoreStage::FillSync, ..m },
                StoreAsk::Sync,
            ),
            StoreStage::FillSync => (
                StoreWrite { stage: StoreStage::Switch, ..m },
                StoreAsk::PutTable(Intent::Idle),
            ),
            StoreStage::Switch => (
                StoreWrite { stage: StoreStage::SwitchSync, ..m },
                StoreAsk::Sync,
            ),
            StoreStage::SwitchSync => (
                StoreWrite { stage: StoreStage::Over, ..m },
                StoreAsk::Done,
            ),
            StoreStage::Over => (m, StoreAsk::Done),
        },
    }
}

impl StoreWrite {
    /// Starts to store a value: the intent is marked first.
    pub fn start(store: &store::Store, key: &store::Key, value: &[u8]) -> (r: Result<
        (StoreWrite, StoreAsk),
        Errno,
    >)
        requires
            store.wf(),
        ensures
            match r {
                Ok((m, a)) => {
                    &&& store::kind_is_private(key.kind)
                    &&& value.len() <= store::MAX_VALUE
                    &&& store::plans(store@.slots, *key, value.len() as int, m.plan)
                    &&& m.stage == StoreStage::Mark
                    &&& m.kind == key.kind
                    &&& m.empty == (value.len() == 0)
                    &&& a == StoreAsk::PutTable(
                        Intent::Write { slot: m.plan.slot as u16, kind: key.kind },
                    )
                },
                Err(e) => {
                    ||| !store::kind_is_private(key.kind) && e == Errno::EINVAL
                    ||| store::kind_is_private(key.kind) && e == Errno::ENOSPC && (value.len()
                        > store::MAX_VALUE || store::all_used(store@.slots))
                },
            },
    {
        match store.write(key, value) {
            Err(e) => Err(e),
            Ok(plan) => {
                let m = StoreWrite {
                    stage: StoreStage::Mark,
                    plan,
                    kind: key.kind,
                    empty: value.len() == 0,
                };
                let intent = Intent::Write { slot: plan.slot as u16, kind: key.kind };
                Ok((m, StoreAsk::PutTable(intent)))
            },
        }
    }

    /// Takes in how the step went. The table in hand is switched when the block
    /// is safe.
    pub fn step(&mut self, store: &mut store::Store, r: Result<(), Errno>) -> (a: StoreAsk)
        requires
            old(store).wf(),
            old(self).plan.slot < store::SLOT_COUNT,
            old(self).plan.old is Some ==> old(self).plan.old->0 < store::SLOT_COUNT,
        ensures
            final(store).wf(),
            (*final(self), a) == store_step(*old(self), r),
            if old(self).stage == StoreStage::FillSync && r is Ok {
                final(store)@ == (store::StoreView {
                    slots: store::switched(old(store)@.slots, old(self).plan),
                    generation: ((old(store)@.generation + 1) % 0x1_0000_0000_0000_0000) as u64,
                    ..old(store)@
                })
            } else {
                *final(store) == *old(store)
            },
    {
        match r {
            Err(e) => {
                self.stage = StoreStage::Over;
                StoreAsk::Failed(e)
            },
            Ok(_) => match self.stage {
                StoreStage::Mark => {
                    self.stage = StoreStage::MarkSync;
                    StoreAsk::Sync
                },
                StoreStage::MarkSync => {
                    if self.empty {
                        self.stage = StoreStage::FillSync;
                        StoreAsk::Sync
                    } else {
                        self.stage = StoreStage::Fill;
                        StoreAsk::PutBlock(self.plan.slot)
                    }
                },
                StoreStage::Fill => {
                    self.stage = StoreStage::FillSync;
                    StoreAsk::Sync
                },
                StoreStage::FillSync => {
                    store.written(&self.plan);
                    self.stage = StoreStage::Switch;
                    StoreAsk::PutTable(Intent::Idle)
                },
                StoreStage::Switch => {
                    self.stage = StoreStage::SwitchSync;
                    StoreAsk::Sync
                },
                StoreStage::SwitchSync => {
                    self.stage = StoreStage::Over;
                    StoreAsk::Done
                },
                StoreStage::Over => StoreAsk::Done,
            },
        }
    }
}

/// What the file holds while a step is under way, none having failed: all that
/// the steps before it wrote.
pub open spec fn store_medium(
    image: Seq<u8>,
    slots: Seq<Slot>,
    generation: u64,
    value: Seq<u8>,
    m: StoreWrite,
) -> Seq<u8> {
    let intent = Intent::Write { slot: m.plan.slot as u16, kind: m.kind };
    let marked = spliced(image, 0, store::superblock_bytes(slots, generation, intent));
    let filled = spliced(marked, block_start(m.plan.slot as int), value);
    let next = ((generation + 1) % 0x1_0000_0000_0000_0000) as u64;
    match m.stage {
        StoreStage::Mark => image,
        StoreStage::MarkSync => marked,
        StoreStage::Fill => marked,
        StoreStage::FillSync => filled,
        StoreStage::Switch => filled,
        StoreStage::SwitchSync | StoreStage::Over => spliced(
            filled,
            0,
            store::superblock_bytes(store::switched(slots, m.plan), next, Intent::Idle),
        ),
    }
}

/// A block is touched only once the intent is safe, and the table is switched
/// only once the block is.
pub proof fn block_and_table_wait(m: StoreWrite, r: Result<(), Errno>)
    ensures
        store_step(m, r).1 is PutBlock ==> m.stage == StoreStage::MarkSync && r is Ok,
        store_step(m, r).1 is PutTable ==> m.stage == StoreStage::FillSync && r is Ok,
        store_step(m, r).1 == StoreAsk::Done ==> m.stage == StoreStage::SwitchSync || m.stage
            == StoreStage::Over,
        r is Err ==> store_step(m, r).1 is Failed,
{
}

/// A write may be cut at any step: until the table is switched every value is
/// as it was, however much of the block was filled; from then on the key has
/// its new value, and every other key the one it had.
pub proof fn store_write_is_safe(
    image: Seq<u8>,
    slots: Seq<Slot>,
    generation: u64,
    key: store::Key,
    value: Seq<u8>,
    m: StoreWrite,
    part: Seq<u8>,
    k: store::Key,
)
    requires
        image.len() == store::STORE_SIZE,
        slots.len() == store::SLOT_COUNT,
        store::lengths_fit(slots),
        store::table_in(image.subrange(0, 0x8000)) == slots,
        store::plans(slots, key, value.len() as int, m.plan),
        m.kind == key.kind,
        value.len() <= store::MAX_VALUE,
        part.len() <= store::BLOCK_SIZE,
    ensures
        ({
            let now = store_medium(image, slots, generation, value, m);
            &&& !(m.stage is SwitchSync) && !(m.stage is Over) ==> store::stored(now, k)
                == store::stored(image, k)
            &&& m.stage is Fill ==> store::stored(
                spliced(now, block_start(m.plan.slot as int), part),
                k,
            ) == store::stored(image, k)
            &&& m.stage is SwitchSync || m.stage is Over ==> (k != key ==> store::stored(now, k)
                == store::stored(image, k)) && (store::held_once(slots, key) ==> store::stored(
                now,
                key,
            ) == Some(value))
        }),
{
    let plan = m.plan;
    let intent = Intent::Write { slot: plan.slot as u16, kind: m.kind };
    let sb = store::superblock_bytes(slots, generation, intent);
    let marked = spliced(image, 0, sb);
    let at = block_start(plan.slot as int);
    let filled = spliced(marked, at, value);
    let next = ((generation + 1) % 0x1_0000_0000_0000_0000) as u64;
    let table = store::superblock_bytes(store::switched(slots, plan), next, Intent::Idle);
    store::interrupted_write_changes_nothing(
        image,
        slots,
        generation,
        key,
        value,
        plan,
        value,
        k,
    );
    store::interrupted_write_changes_nothing(image, slots, generation, key, value, plan, part, k);
    store::superblock_round_trip(slots, generation, intent);
    store::superblock_round_trip(store::switched(slots, plan), next, Intent::Idle);
    assert(spliced(filled, 0, table) =~= spliced(spliced(image, at, value), 0, table));
    if k != key {
        store::finished_write_spares_others(image, slots, next, key, value, plan, k);
    }
    if store::held_once(slots, key) {
        store::finished_write_takes_effect(image, slots, next, key, value, plan);
    }
}

// ---------------------------------------------------------------------------
// The record of the key bag.
// ---------------------------------------------------------------------------
/// What is to be done next.
#[derive(Clone, Copy, Debug, PartialEq, Eq, Structural)]
pub enum BagAsk {
    /// Open the file and empty it.
    Truncate,
    /// Write the body behind the place of the header.
    PutBody,
    PutHead,
    /// Wait until all that was written is safe.
    Sync,
    Done,
    Failed(Errno),
}

/// Writing the record of the key bag: the body first, and the header that
/// vouches for it last.
#[derive(Clone, Copy, Debug, PartialEq, Eq, Structural)]
pub struct BagWrite {
    pub ask: BagAsk,
    /// There is a body.
    pub body: bool,
}

/// What comes after a step. The first one that fails ends the write.
pub open spec fn bag_next(m: BagWrite, r: Result<(), Errno>) -> BagWrite {
    let ask = match (m.ask, r) {
        (BagAsk::Done, _) => BagAsk::Done,
        (BagAsk::Failed(e), _) => BagAsk::Failed(e),
        (_, Err(e)) => BagAsk::Failed(e),
        (BagAsk::Truncate, Ok(_)) => if m.body {
            BagAsk::PutBody
        } else {
            BagAsk::PutHead
        },
        (BagAsk::PutBody, Ok(_)) => BagAsk::PutHead,
        (BagAsk::PutHead, Ok(_)) => BagAsk::Sync,
        (BagAsk::Sync, Ok(_)) => BagAsk::Done,
    };
    BagWrite { ask, ..m }
}

impl BagWrite {
    pub fn start(record: &keybag::Record) -> (m: BagWrite)
        ensures
            m == (BagWrite { ask: BagAsk::Truncate, body: record.body.len() > 0 }),
    {
        BagWrite { ask: BagAsk::Truncate, body: record.body.len() > 0 }
    }

    /// Takes in how the step went.
    pub fn done(&mut self, r: Result<(), Errno>)
        ensures
            *final(self) == bag_next(*old(self), r),
    {
        self.ask = match self.ask {
            BagAsk::Done => BagAsk::Done,
            BagAsk::Failed(e) => BagAsk::Failed(e),
            ask => match r {
                Err(e) => BagAsk::Failed(e),
                Ok(_) => match ask {
                    BagAsk::Truncate => {
                        if self.body {
                            BagAsk::PutBody
                        } else {
                            BagAsk::PutHead
                        }
                    },
                    BagAsk::PutBody => BagAsk::PutHead,
                    BagAsk::PutHead => BagAsk::Sync,
                    _ => BagAsk::Done,
                },
            },
        };
    }
}

/// What the file holds while a step is under way, none having failed.
pub open spec fn bag_medium(before: Seq<u8>, head: Seq<u8>, body: Seq<u8>, m: BagWrite) -> Seq<u8> {
    match m.ask {
        BagAsk::Truncate | BagAsk::Failed(_) => before,
        BagAsk::PutBody => Seq::empty(),
        BagAsk::PutHead => if m.body {
            zeroed(HEADER as int) + body
        } else {
            Seq::empty()
        },
        BagAsk::Sync | BagAsk::Done => head + body,
    }
}

/// The header is written only behind the whole body, and the end is told only
/// when both are safe.
pub proof fn header_waits_for_the_body(m: BagWrite, r: Result<(), Errno>)
    ensures
        bag_next(m, r).ask == BagAsk::PutHead ==> m.ask == BagAsk::PutBody || m.ask
            == BagAsk::Truncate && !m.body,
        bag_next(m, r).ask == BagAsk::Done ==> m.ask == BagAsk::Done || m.ask == BagAsk::Sync && r
            is Ok,
{
}

/// A write of the key bag's record may be cut at any step: before its header
/// stands, reading the file is an error, however much of the body was written,
/// and never says that there is no bag; once it stands, the bag is read back.
pub proof fn bag_write_is_safe(
    before: Seq<u8>,
    provenance: UuidProvenance,
    wrapped: Seq<u8>,
    uuid: Uuid,
    secret: Seq<u8>,
    part: Seq<u8>,
    m: BagWrite,
)
    requires
        0 < wrapped.len() <= keybag::MAX_WRAPPED,
        secret.len() <= keybag::MAX_WRAPPED,
        m.body,
    ensures
        ({
            let head = keybag::head_of(provenance.code(), wrapped, uuid, secret);
            let now = bag_medium(before, head, wrapped + secret, m);
            &&& m.ask is PutBody || m.ask is PutHead ==> keybag::parsed(now) is Err
            &&& m.ask is PutBody ==> keybag::parsed(zeroed(HEADER as int) + part) is Err
            &&& m.ask is Sync || m.ask is Done ==> keybag::parsed(now) == Ok::<
                Option<BagView>,
                Errno,
            >(Some(BagView { wrapped, uuid, secret, provenance }))
        }),
{
    keybag::torn_write_is_an_error(wrapped + secret);
    keybag::torn_write_is_an_error(part);
    keybag::read_gives_back_write(provenance, wrapped, uuid, secret);
    let head = keybag::head_of(provenance.code(), wrapped, uuid, secret);
    assert(head + (wrapped + secret) =~= keybag::file_of(
        provenance.code(),
        wrapped,
        uuid,
        secret,
    ));
}

// ---------------------------------------------------------------------------
// An anti-replay record.
// ---------------------------------------------------------------------------
/// What is to be done next.
#[derive(Clone, Copy, Debug, PartialEq, Eq, Structural)]
pub enum RecordAsk {
    /// Write the record into this slot.
    Put(usize),
    /// Wait until all that was written is safe.
    Sync,
    /// Erase this slot.
    Erase(usize),
    Done,
    Failed(Errno),
}

/// Which step is under way.
#[derive(Clone, Copy, Debug, PartialEq, Eq, Structural)]
pub enum RecordStage {
    Put,
    PutSync,
    Erase,
    EraseSync,
    Over,
}

/// Storing an anti-replay record: the new one is safe before the old one is
/// erased, and erasing it is not a must.
#[derive(Clone, Copy, Debug, PartialEq, Eq, Structural)]
pub struct RecordWrite {
    pub stage: RecordStage,
    pub old: Option<usize>,
}

pub open spec fn record_step(m: RecordWrite, r: Result<(), Errno>) -> (RecordWrite, RecordAsk) {
    let over = RecordWrite { stage: RecordStage::Over, ..m };
    match (m.stage, r) {
        (RecordStage::Put, Err(e)) => (over, RecordAsk::Failed(e)),
        (RecordStage::PutSync, Err(e)) => (over, RecordAsk::Failed(e)),
        (RecordStage::Put, Ok(_)) => (
            RecordWrite { stage: RecordStage::PutSync, ..m },
            RecordAsk::Sync,
        ),
        (RecordStage::PutSync, Ok(_)) => match m.old {
            Some(o) => (RecordWrite { stage: RecordStage::Erase, ..m }, RecordAsk::Erase(o)),
            None => (over, RecordAsk::Done),
        },
        (RecordStage::Erase, Ok(_)) => (
            RecordWrite { stage: RecordStage::EraseSync, ..m },
            RecordAsk::Sync,
        ),
        _ => (over, RecordAsk::Done),
    }
}

impl RecordWrite {
    pub fn start(plan: &xart_store::WritePlan) -> (r: (RecordWrite, RecordAsk))
        ensures
            r.0 == (RecordWrite { stage: RecordStage::Put, old: plan.old }),
            r.1 == RecordAsk::Put(plan.slot),
    {
        (RecordWrite { stage: RecordStage::Put, old: plan.old }, RecordAsk::Put(plan.slot))
    }

    /// Takes in how the step went. The index goes over to the new record when
    /// that is safe.
    pub fn step(
        &mut self,
        store: &mut xart_store::Store,
        plan: &xart_store::WritePlan,
        r: Result<(), Errno>,
    ) -> (a: RecordAsk)
        requires
            old(store).wf(),
            plan.slot < xart_store::SLOT_COUNT,
            plan.old is Some ==> plan.old->0 < xart_store::SLOT_COUNT,
        ensures
            final(store).wf(),
            (*final(self), a) == record_step(*old(self), r),
            if old(self).stage == RecordStage::PutSync && r is Ok {
                final(store)@ == (xart_store::StoreView {
                    slots: xart_store::replaced(
                        old(store)@.slots,
                        plan.slot as int,
                        plan.record,
                        match plan.old {
                            Some(o) => Some(o as int),
                            None => None,
                        },
                    ),
                    revision: plan.record.revision,
                    ..old(store)@
                })
            } else {
                *final(store) == *old(store)
            },
    {
        match self.stage {
            RecordStage::Put => match r {
                Err(e) => {
                    self.stage = RecordStage::Over;
                    RecordAsk::Failed(e)
                },
                Ok(_) => {
                    self.stage = RecordStage::PutSync;
                    RecordAsk::Sync
                },
            },
            RecordStage::PutSync => match r {
                Err(e) => {
                    self.stage = RecordStage::Over;
                    RecordAsk::Failed(e)
                },
                Ok(_) => {
                    store.written(plan);
                    match self.old {
                        Some(o) => {
                            self.stage = RecordStage::Erase;
                            RecordAsk::Erase(o)
                        },
                        None => {
                            self.stage = RecordStage::Over;
                            RecordAsk::Done
                        },
                    }
                },
            },
            RecordStage::Erase => {
                if r.is_ok() {
                    self.stage = RecordStage::EraseSync;
                    RecordAsk::Sync
                } else {
                    self.stage = RecordStage::Over;
                    RecordAsk::Done
                }
            },
            _ => {
                self.stage = RecordStage::Over;
                RecordAsk::Done
            },
        }
    }
}

/// What the window holds while a step is under way: the new record once it was
/// written, and the old one until it was erased. At the end the old one may be
/// there or not.
pub open spec fn record_medium(
    window: Seq<u8>,
    plan: xart_store::WritePlan,
    m: RecordWrite,
    gone: bool,
) -> Seq<u8> {
    let put = spliced(window, plan.slot * 0x9000, plan.raw@);
    let is_erased = m.stage is EraseSync || m.stage is Over && gone;
    match (m.stage, plan.old) {
        (RecordStage::Put, _) => window,
        (_, Some(o)) => if is_erased {
            xart_store::erased(put, o as int)
        } else {
            put
        },
        _ => put,
    }
}

/// The old record is erased only once the new one is safe, and a write that did
/// not get so far is told as failed.
pub proof fn old_record_waits(m: RecordWrite, r: Result<(), Errno>)
    ensures
        record_step(m, r).1 is Erase ==> m.stage == RecordStage::PutSync && r is Ok,
        (m.stage is Put || m.stage is PutSync) && r is Err ==> record_step(m, r).1 is Failed,
        m.stage is Erase || m.stage is EraseSync ==> !(record_step(m, r).1 is Failed),
{
}

/// A write of a record may be cut at any step: until the record is written the
/// window is the old one; from then on the key has its new value, and every
/// other key the one it had, whether the old record is still there or not.
pub proof fn record_write_is_safe(
    s: xart_store::StoreView,
    window: Seq<u8>,
    key: xart_store::Key,
    value: Seq<u8>,
    plan: xart_store::WritePlan,
    m: RecordWrite,
    gone: bool,
    k: xart_store::Key,
)
    requires
        window.len() == xart_store::STORE_SIZE,
        s.slots == xart_store::scanned(window, xart_store::SLOT_COUNT as int),
        s.revision >= xart_store::top_revision(window, xart_store::SLOT_COUNT as int),
        xart_store::write_error(s, key, value) is None,
        xart_store::plans(s, key, value, plan),
    ensures
        ({
            let now = record_medium(window, plan, m, gone);
            &&& m.stage is Put ==> now == window
            &&& !(m.stage is Put) ==> xart_store::stored(now, key) == Some(value)
            &&& k != key ==> xart_store::stored(now, k) == xart_store::stored(window, k)
        }),
{
    let n = xart_store::SLOT_COUNT as int;
    let put = spliced(window, plan.slot * 0x9000, plan.raw@);
    xart_store::write_takes_effect(s, window, key, value, plan);
    xart_store::record_round_trip(key, value, plan.record.revision);
    if let Some(o) = plan.old {
        assert(!xart_store::live(put, o as int, n)) by {
            assert(xart_store::scanned(put, n)[o as int] == xart_store::free_slot());
            if xart_store::live(put, o as int, n) {
                xart_store::live_is_used(put, o as int);
            }
        }
        xart_store::erasing_stale_is_harmless(put, o as int);
    }
}

/// Storing a value writes and syncs three times: the table with the intent, the block of
/// the value, and the table without. An empty value has no block to write, and the sync
/// is done all the same. What fails ends it with its error.
pub proof fn store_write_in_order(m: StoreWrite, e: Errno)
    requires
        m.stage is Mark,
    ensures
        ({
            let ok = Ok::<(), Errno>(());
            let (m1, a1) = store_step(m, ok);
            let (m2, a2) = store_step(m1, ok);
            let (m3, a3) = store_step(m2, ok);
            let (m4, a4) = store_step(m3, ok);
            let (m5, a5) = store_step(m4, ok);
            let (m6, a6) = store_step(m5, ok);
            &&& a1 == StoreAsk::Sync
            &&& !m.empty ==> a2 == StoreAsk::PutBlock(m.plan.slot) && a3 == StoreAsk::Sync && a4
                == StoreAsk::PutTable(Intent::Idle) && a5 == StoreAsk::Sync && a6 == StoreAsk::Done
            &&& m.empty ==> a2 == StoreAsk::Sync && a3 == StoreAsk::PutTable(Intent::Idle) && a4
                == StoreAsk::Sync && a5 == StoreAsk::Done
            &&& store_step(m, Err(e)).1 == StoreAsk::Failed(e)
            &&& store_step(m2, Err(e)).1 == StoreAsk::Failed(e)
            &&& store_step(m5, Err(e)).1 == StoreAsk::Failed(e)
        }),
{
}

/// The record of the key bag is written in this order: the file is emptied, the body is
/// written if there is one, then the header, and all is synced.
pub proof fn bag_write_in_order(body: bool, e: Errno)
    ensures
        ({
            let ok = Ok::<(), Errno>(());
            let m0 = BagWrite { ask: BagAsk::Truncate, body };
            let m1 = bag_next(m0, ok);
            let m2 = bag_next(m1, ok);
            let m3 = bag_next(m2, ok);
            let m4 = bag_next(m3, ok);
            &&& body ==> m1.ask == BagAsk::PutBody && m2.ask == BagAsk::PutHead && m3.ask
                == BagAsk::Sync && m4.ask == BagAsk::Done
            &&& !body ==> m1.ask == BagAsk::PutHead && m2.ask == BagAsk::Sync && m3.ask
                == BagAsk::Done
            &&& bag_next(m0, Err(e)).ask == BagAsk::Failed(e)
            &&& bag_next(m1, Err(e)).ask == BagAsk::Failed(e)
        }),
{
}

/// An anti-replay record is written and synced, and then the old one is erased, where
/// there is one, and that is synced; what goes wrong with the erasure is not told.
pub proof fn record_write_in_order(old: Option<usize>, e: Errno)
    ensures
        ({
            let ok = Ok::<(), Errno>(());
            let m0 = RecordWrite { stage: RecordStage::Put, old };
            let (m1, a1) = record_step(m0, ok);
            let (m2, a2) = record_step(m1, ok);
            let (m3, a3) = record_step(m2, ok);
            let (m4, a4) = record_step(m3, ok);
            &&& a1 == RecordAsk::Sync
            &&& old is None ==> a2 == RecordAsk::Done
            &&& old matches Some(o) ==> a2 == RecordAsk::Erase(o) && a3 == RecordAsk::Sync && a4
                == RecordAsk::Done && record_step(m2, Err(e)).1 == RecordAsk::Done && record_step(
                m3,
                Err(e),
            ).1 == RecordAsk::Done
            &&& record_step(m0, Err(e)).1 == RecordAsk::Failed(e)
            &&& record_step(m1, Err(e)).1 == RecordAsk::Failed(e)
        }),
{
}

} // verus!
