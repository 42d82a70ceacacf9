//! State of the host: a file of blocks, the first of which is a table of what
//! the others hold.
//!
//! A value is replaced by filling a free block and then switching the table. An
//! intent in the table names the block that is being filled; a table with an
//! intent is read by discarding it.

use crate::bytes::{
    group_le, put_u16, put_u32, put_u64, put_zeros, read_u16, read_u32, read_u64, u16_at, u16_le,
    u32_at, u32_le, u64_at, u64_le, zeroed,
};
use crate::errno::Errno;
use crate::uuid::{uuid_at, zero_uuid, Uuid};
use vstd::prelude::*;

verus! {

pub const BLOCK_SIZE: usize = 0x8000;

pub const BLOCK_COUNT: usize = 72;

pub const STORE_SIZE: usize = 0x24_0000;

pub const SLOT_COUNT: usize = 71;

pub const MAX_VALUE: usize = 0x8000;

pub const VERSION: u32 = 1;

/// What a value is filed under.
#[derive(Clone, Copy, Debug, PartialEq, Eq, Structural)]
pub struct Key {
    pub kind: u8,
    pub uuid: Uuid,
}

impl Key {
    pub fn root(kind: u8) -> (k: Key)
        ensures
            k == (Key { kind, uuid: zero_uuid() }),
    {
        Key { kind, uuid: Uuid::zero() }
    }
}

/// An entry of the table.
#[derive(Clone, Copy, Debug, PartialEq, Eq, Structural)]
pub struct Slot {
    pub used: bool,
    pub kind: u8,
    pub uuid: Uuid,
    pub len: u32,
}

pub open spec fn free_slot() -> Slot {
    Slot { used: false, kind: 0, uuid: zero_uuid(), len: 0 }
}

fn make_free() -> (s: Slot)
    ensures
        s == free_slot(),
{
    Slot { used: false, kind: 0, uuid: Uuid::zero(), len: 0 }
}

impl Slot {
    pub open spec fn holds(self, key: Key) -> bool {
        self.used && self.kind == key.kind && self.uuid == key.uuid
    }

    fn matches(&self, key: &Key) -> (r: bool)
        ensures
            r == self.holds(*key),
    {
        self.used && self.kind == key.kind && self.uuid == key.uuid
    }
}

/// What is being done while the table is on its way.
#[derive(Clone, Copy, Debug, PartialEq, Eq, Structural)]
pub enum Intent {
    Idle,
    Write { slot: u16, kind: u8 },
}

pub open spec fn magic() -> Seq<u8> {
    seq![
        0x41u8,
        0x55,
        0x52,
        0x4f,
        0x52,
        0x41,
        0x2d,
        0x53,
        0x45,
        0x50,
        0x2d,
        0x53,
        0x54,
        0x4f,
        0x52,
        0x01,
    ]
}

pub open spec fn flag(b: bool) -> u8 {
    if b {
        1
    } else {
        0
    }
}

/// The 24 bytes of a table entry.
pub open spec fn entry_bytes(s: Slot) -> Seq<u8> {
    seq![flag(s.used), s.kind] + s.uuid@ + u32_le(s.len as int) + seq![0u8, 0u8]
}

/// The first `n` entries of the table.
pub open spec fn table_bytes(slots: Seq<Slot>, n: int) -> Seq<u8>
    decreases n,
{
    if n <= 0 {
        Seq::empty()
    } else {
        table_bytes(slots, n - 1) + entry_bytes(slots[n - 1])
    }
}

/// The 64 bytes in front of the table.
pub open spec fn head_bytes(generation: u64, intent: Intent) -> Seq<u8> {
    magic() + u32_le(VERSION as int) + u32_le(SLOT_COUNT as int) + u32_le(BLOCK_SIZE as int)
        + u64_le(generation as int) + (match intent {
        Intent::Idle => seq![0u8] + u16_le(0) + seq![0u8],
        Intent::Write { slot, kind } => seq![1u8] + u16_le(slot as int) + seq![kind],
    }) + zeroed(24)
}

/// The bytes of the first block.
pub open spec fn superblock_bytes(slots: Seq<Slot>, generation: u64, intent: Intent) -> Seq<u8> {
    head_bytes(generation, intent) + table_bytes(slots, SLOT_COUNT as int) + zeroed(
        BLOCK_SIZE - 64 - 24 * SLOT_COUNT,
    )
}

/// Whether a block is a table of this format.
pub open spec fn is_superblock(sb: Seq<u8>) -> bool {
    &&& sb.subrange(0, 16) == magic()
    &&& u32_at(sb, 16) == VERSION
    &&& u32_at(sb, 20) == SLOT_COUNT
    &&& u32_at(sb, 24) == BLOCK_SIZE
}

/// Entry `i` of a table.
pub open spec fn entry_in(sb: Seq<u8>, i: int) -> Slot {
    let at = 64 + i * 24;
    Slot {
        used: sb[at] != 0,
        kind: sb[at + 1],
        uuid: uuid_at(sb, at + 2),
        len: u32_at(sb, at + 18) as u32,
    }
}

/// The entries of a table. An intent to write is discarded: the block that it
/// names counts as free.
#[verifier::opaque]
pub open spec fn table_in(sb: Seq<u8>) -> Seq<Slot> {
    Seq::new(
        SLOT_COUNT as nat,
        |i: int|
            if sb[36] == 1 && u16_at(sb, 37) == i {
                free_slot()
            } else {
                entry_in(sb, i)
            },
    )
}

proof fn entry_len(s: Slot)
    ensures
        entry_bytes(s).len() == 24,
{
    broadcast use group_le;

    crate::uuid::uuid_round_trip(s.uuid);
}

proof fn table_len(slots: Seq<Slot>, n: int)
    requires
        0 <= n <= slots.len(),
    ensures
        table_bytes(slots, n).len() == 24 * n,
    decreases n,
{
    if n > 0 {
        table_len(slots, n - 1);
        entry_len(slots[n - 1]);
    }
}

proof fn table_entry(slots: Seq<Slot>, n: int, i: int)
    requires
        0 <= i < n <= slots.len(),
    ensures
        table_bytes(slots, n).len() == 24 * n,
        table_bytes(slots, n).subrange(24 * i, 24 * i + 24) == entry_bytes(slots[i]),
    decreases n,
{
    table_len(slots, n);
    table_len(slots, n - 1);
    entry_len(slots[n - 1]);
    let t = table_bytes(slots, n);
    if i < n - 1 {
        table_entry(slots, n - 1, i);
        assert(t.subrange(24 * i, 24 * i + 24) =~= table_bytes(slots, n - 1).subrange(
            24 * i,
            24 * i + 24,
        ));
    } else {
        assert(t.subrange(24 * i, 24 * i + 24) =~= entry_bytes(slots[i]));
    }
}

proof fn head_len(generation: u64, intent: Intent)
    ensures
        head_bytes(generation, intent).len() == 64,
{
    broadcast use group_le;

    crate::bytes::u64_round_trip(generation as int);
}

/// A table that is written is read back, without the block that an intent
/// names.
pub proof fn superblock_round_trip(slots: Seq<Slot>, generation: u64, intent: Intent)
    requires
        slots.len() == SLOT_COUNT,
    ensures
        ({
            let sb = superblock_bytes(slots, generation, intent);
            &&& sb.len() == BLOCK_SIZE
            &&& is_superblock(sb)
            &&& u64_at(sb, 28) == generation
            &&& table_in(sb) == match intent {
                Intent::Idle => slots,
                Intent::Write { slot, kind } => if slot < SLOT_COUNT {
                    slots.update(slot as int, free_slot())
                } else {
                    slots
                },
            }
        }),
{
    broadcast use group_le;

    reveal(table_in);
    let sb = superblock_bytes(slots, generation, intent);
    let n = SLOT_COUNT as int;
    head_len(generation, intent);
    table_len(slots, n);
    crate::bytes::u64_round_trip(generation as int);
    assert(sb.subrange(0, 16) =~= magic());
    assert(sb.subrange(16, 20) =~= u32_le(VERSION as int));
    crate::bytes::u32_at_subrange(sb, 16, 20, 0);
    assert(sb.subrange(20, 24) =~= u32_le(SLOT_COUNT as int));
    crate::bytes::u32_at_subrange(sb, 20, 24, 0);
    assert(sb.subrange(24, 28) =~= u32_le(BLOCK_SIZE as int));
    crate::bytes::u32_at_subrange(sb, 24, 28, 0);
    assert(sb.subrange(28, 36) =~= u64_le(generation as int));
    assert(u64_at(sb.subrange(28, 36), 0) == u64_at(sb, 28));
    let islot = match intent {
        Intent::Idle => 0u16,
        Intent::Write { slot, kind } => slot,
    };
    assert(sb.subrange(37, 39) =~= u16_le(islot as int));
    assert(u16_at(sb.subrange(37, 39), 0) == u16_at(sb, 37));
    assert(sb[36] == match intent {
        Intent::Idle => 0u8,
        Intent::Write { slot, kind } => 1u8,
    });
    assert forall|i: int| 0 <= i < n implies entry_in(sb, i) == slots[i] by {
        entry_round_trip(slots, generation, intent, i);
    }
    let expected = match intent {
        Intent::Idle => slots,
        Intent::Write { slot, kind } => if slot < SLOT_COUNT {
            slots.update(slot as int, free_slot())
        } else {
            slots
        },
    };
    assert(table_in(sb) =~= expected);
}

proof fn entry_round_trip(slots: Seq<Slot>, generation: u64, intent: Intent, i: int)
    requires
        slots.len() == SLOT_COUNT,
        0 <= i < SLOT_COUNT,
    ensures
        entry_in(superblock_bytes(slots, generation, intent), i) == slots[i],
{
    broadcast use group_le;

    let sb = superblock_bytes(slots, generation, intent);
    let n = SLOT_COUNT as int;
    let at = 64 + i * 24;
    head_len(generation, intent);
    table_entry(slots, n, i);
    let e = entry_bytes(slots[i]);
    assert(sb.subrange(at, at + 24) =~= table_bytes(slots, n).subrange(24 * i, 24 * i + 24));
    crate::uuid::uuid_round_trip(slots[i].uuid);
    assert(e.subrange(2, 18) =~= slots[i].uuid@);
    crate::uuid::uuid_at_subrange(e, 2, 18, 0);
    assert(e.subrange(18, 22) =~= u32_le(slots[i].len as int));
    crate::bytes::u32_at_subrange(e, 18, 22, 0);
    crate::uuid::uuid_at_subrange(sb, at, at + 24, 2);
    crate::bytes::u32_at_subrange(sb, at, at + 24, 18);
    assert(sb[at] == e[0]);
    assert(sb[at + 1] == e[1]);
}

/// The table of an opened store.
pub struct Store {
    slots: Vec<Slot>,
    generation: u64,
    recovered: bool,
    fresh: bool,
}

#[verifier::ext_equal]
pub struct StoreView {
    pub slots: Seq<Slot>,
    pub generation: u64,
    pub recovered: bool,
    pub fresh: bool,
}

/// How a value gets into the store: mark the intent, fill the block, switch the
/// table, each durable before the next.
#[derive(Clone, Copy, Debug, PartialEq, Eq, Structural)]
pub struct WritePlan {
    pub slot: usize,
    pub old: Option<usize>,
    pub record: Slot,
}

pub open spec fn kind_is_private(kind: u8) -> bool {
    0xf0 <= kind <= 0xf5
}

pub open spec fn first_holding(slots: Seq<Slot>, key: Key, i: int) -> bool {
    &&& 0 <= i < slots.len()
    &&& slots[i].holds(key)
    &&& forall|j: int| 0 <= j < i ==> !#[trigger] slots[j].holds(key)
}

pub open spec fn has_key(slots: Seq<Slot>, key: Key) -> bool {
    exists|j: int| 0 <= j < slots.len() && #[trigger] slots[j].holds(key)
}

pub open spec fn first_unused(slots: Seq<Slot>, i: int) -> bool {
    &&& 0 <= i < slots.len()
    &&& !slots[i].used
    &&& forall|j: int| 0 <= j < i ==> #[trigger] slots[j].used
}

pub open spec fn all_used(slots: Seq<Slot>) -> bool {
    forall|j: int| 0 <= j < slots.len() ==> #[trigger] slots[j].used
}

/// The table after a write.
pub open spec fn switched(slots: Seq<Slot>, plan: WritePlan) -> Seq<Slot> {
    let put = slots.update(plan.slot as int, plan.record);
    match plan.old {
        Some(o) => put.update(o as int, free_slot()),
        None => put,
    }
}

/// Where the block of a slot starts.
pub open spec fn block_start(slot: int) -> int {
    (slot + 1) * 0x8000
}

impl Store {
    pub closed spec fn view(&self) -> StoreView {
        StoreView {
            slots: self.slots@,
            generation: self.generation,
            recovered: self.recovered,
            fresh: self.fresh,
        }
    }

    pub open spec fn wf(&self) -> bool {
        self@.slots.len() == SLOT_COUNT
    }

    /// An empty store. All its blocks have to be zeroed and its table written
    /// before it is used.
    pub fn create() -> (s: Store)
        ensures
            s.wf(),
            s@.generation == 1,
            s@.fresh,
            !s@.recovered,
            forall|i: int| 0 <= i < SLOT_COUNT ==> s@.slots[i] == free_slot(),
    {
        let mut slots: Vec<Slot> = Vec::new();
        while slots.len() < SLOT_COUNT
            invariant
                slots.len() <= SLOT_COUNT,
                forall|i: int| 0 <= i < slots.len() ==> slots@[i] == free_slot(),
            decreases SLOT_COUNT - slots.len(),
        {
            slots.push(make_free());
        }
        Store { slots, generation: 1, recovered: false, fresh: true }
    }

    /// Opens the store whose file has `size` bytes and whose first block is
    /// `sb`. A file that is too short, or whose table is of another format, is
    /// replaced by an empty store. A table with an intent is read without it
    /// and has to be written anew.
    pub fn open(size: u64, sb: &[u8]) -> (s: Store)
        requires
            size >= STORE_SIZE ==> sb.len() == BLOCK_SIZE,
        ensures
            s.wf(),
            if size < STORE_SIZE || !is_superblock(sb@) {
                s@.fresh && !s@.recovered && s@.generation == 1 && forall|i: int|
                    0 <= i < SLOT_COUNT ==> s@.slots[i] == free_slot()
            } else {
                s@ == (StoreView {
                    slots: table_in(sb@),
                    generation: u64_at(sb@, 28) as u64,
                    recovered: sb@[36] != 0,
                    fresh: false,
                })
            },
    {
        if size < STORE_SIZE as u64 {
            return Self::create();
        }
        if !Self::check_superblock(sb) {
            return Self::create();
        }
        proof {
            reveal(table_in);
        }
        let generation: u64 = read_u64(sb, 28);
        let intent: u8 = sb[36];
        let intent_slot: usize = read_u16(sb, 37) as usize;
        let mut slots: Vec<Slot> = Vec::new();
        let mut i: usize = 0;
        while i < SLOT_COUNT
            invariant
                sb.len() == BLOCK_SIZE,
                i <= SLOT_COUNT,
                slots.len() == i,
                intent == sb@[36],
                intent_slot == u16_at(sb@, 37),
                forall|j: int| 0 <= j < i ==> slots@[j] == table_in(sb@)[j],
            decreases SLOT_COUNT - i,
        {
            proof {
                reveal(table_in);
            }
            let at: usize = 64 + i * 24;
            if intent == 1 && intent_slot == i {
                slots.push(make_free());
            } else {
                slots.push(
                    Slot {
                        used: sb[at] != 0,
                        kind: sb[at + 1],
                        uuid: Uuid::read(sb, at + 2),
                        len: read_u32(sb, at + 18),
                    },
                );
            }
            i = i + 1;
        }
        assert(slots@ =~= table_in(sb@));
        Store { slots, generation, recovered: intent != 0, fresh: false }
    }

    fn check_superblock(sb: &[u8]) -> (r: bool)
        requires
            sb.len() == BLOCK_SIZE,
        ensures
            r == is_superblock(sb@),
    {
        let expected: Vec<u8> = vec![
            0x41u8,
            0x55,
            0x52,
            0x4f,
            0x52,
            0x41,
            0x2d,
            0x53,
            0x45,
            0x50,
            0x2d,
            0x53,
            0x54,
            0x4f,
            0x52,
            0x01,
        ];
        assert(expected@ =~= magic());
        crate::bytes::same(vstd::slice::slice_subrange(sb, 0, 16), &expected) && read_u32(sb, 16)
            == VERSION && read_u32(sb, 20) as usize == SLOT_COUNT && read_u32(sb, 24) as usize
            == BLOCK_SIZE
    }

    /// Whether the store is empty because its file was not one: all its blocks
    /// have to be zeroed then.
    pub fn is_fresh(&self) -> (r: bool)
        ensures
            r == self@.fresh,
    {
        self.fresh
    }

    /// Whether the table has to be written before the store is used.
    pub fn needs_commit(&self) -> (r: bool)
        ensures
            r == (self@.recovered || self@.fresh),
    {
        self.recovered || self.fresh
    }

    /// The bytes of the first block, with an intent or without.
    pub fn superblock(&self, intent: Intent) -> (sb: Vec<u8>)
        requires
            self.wf(),
        ensures
            sb@ == superblock_bytes(self@.slots, self@.generation, intent),
            sb.len() == BLOCK_SIZE,
    {
        let mut sb: Vec<u8> = vec![
            0x41u8,
            0x55,
            0x52,
            0x4f,
            0x52,
            0x41,
            0x2d,
            0x53,
            0x45,
            0x50,
            0x2d,
            0x53,
            0x54,
            0x4f,
            0x52,
            0x01,
        ];
        assert(sb@ =~= magic());
        put_u32(&mut sb, VERSION);
        put_u32(&mut sb, SLOT_COUNT as u32);
        put_u32(&mut sb, BLOCK_SIZE as u32);
        put_u64(&mut sb, self.generation);
        match intent {
            Intent::Idle => {
                sb.push(0);
                put_u16(&mut sb, 0);
                sb.push(0);
            },
            Intent::Write { slot, kind } => {
                sb.push(1);
                put_u16(&mut sb, slot);
                sb.push(kind);
            },
        }
        put_zeros(&mut sb, 24);
        assert(sb@ =~= head_bytes(self.generation, intent));
        let ghost head = sb@;
        let mut i: usize = 0;
        assert(sb@ =~= head + table_bytes(self.slots@, 0));
        while i < SLOT_COUNT
            invariant
                self.wf(),
                i <= SLOT_COUNT,
                sb@ == head + table_bytes(self.slots@, i as int),
            decreases SLOT_COUNT - i,
        {
            let slot = self.slots[i];
            let ghost before = sb@;
            sb.push(
                if slot.used {
                    1
                } else {
                    0
                },
            );
            sb.push(slot.kind);
            slot.uuid.put(&mut sb);
            put_u32(&mut sb, slot.len);
            sb.push(0);
            sb.push(0);
            assert(sb@ =~= before + entry_bytes(slot));
            i = i + 1;
            assert(sb@ =~= head + table_bytes(self.slots@, i as int));
        }
        put_zeros(&mut sb, BLOCK_SIZE - 64 - 24 * SLOT_COUNT);
        assert(sb@ =~= superblock_bytes(self@.slots, self@.generation, intent));
        proof {
            superblock_round_trip(self@.slots, self@.generation, intent);
        }
        sb
    }

    fn find(&self, key: &Key) -> (r: Option<usize>)
        requires
            self.wf(),
        ensures
            match r {
                Some(i) => first_holding(self@.slots, *key, i as int),
                None => !has_key(self@.slots, *key),
            },
    {
        let mut i: usize = 0;
        while i < self.slots.len()
            invariant
                i <= self.slots.len(),
                forall|j: int| 0 <= j < i ==> !#[trigger] self.slots@[j].holds(*key),
            decreases self.slots.len() - i,
        {
            if self.slots[i].matches(key) {
                return Some(i);
            }
            i = i + 1;
        }
        None
    }

    fn find_free(&self) -> (r: Option<usize>)
        requires
            self.wf(),
        ensures
            match r {
                Some(i) => first_unused(self@.slots, i as int),
                None => all_used(self@.slots),
            },
    {
        let mut i: usize = 0;
        while i < self.slots.len()
            invariant
                i <= self.slots.len(),
                forall|j: int| 0 <= j < i ==> #[trigger] self.slots@[j].used,
            decreases self.slots.len() - i,
        {
            if !self.slots[i].used {
                return Some(i);
            }
            i = i + 1;
        }
        None
    }

    /// Where the block of a slot starts.
    pub fn block_offset(slot: usize) -> (off: u64)
        requires
            slot < SLOT_COUNT,
        ensures
            off == block_start(slot as int),
    {
        ((slot + 1) * BLOCK_SIZE) as u64
    }

    /// Where the key's value stands: the offset in the file and the length.
    pub fn read(&self, key: &Key) -> (r: Result<Option<(u64, usize)>, Errno>)
        requires
            self.wf(),
        ensures
            match r {
                Ok(Some((off, len))) => kind_is_private(key.kind) && exists|i: int|
                    #[trigger] first_holding(self@.slots, *key, i) && off == block_start(i) && len
                        == self@.slots[i].len,
                Ok(None) => kind_is_private(key.kind) && !has_key(self@.slots, *key),
                Err(e) => !kind_is_private(key.kind) && e == Errno::EINVAL,
            },
    {
        if key.kind < 0xf0 || key.kind > 0xf5 {
            return Err(Errno::EINVAL);
        }
        match self.find(key) {
            Some(i) => {
                assert(first_holding(self@.slots, *key, i as int));
                Ok(Some((Self::block_offset(i), self.slots[i].len as usize)))
            },
            None => Ok(None),
        }
    }

    /// Prepares to store a value.
    pub fn write(&self, key: &Key, value: &[u8]) -> (r: Result<WritePlan, Errno>)
        requires
            self.wf(),
        ensures
            match r {
                Ok(plan) => kind_is_private(key.kind) && value.len() <= MAX_VALUE && plans(
                    self@.slots,
                    *key,
                    value.len() as int,
                    plan,
                ),
                Err(e) => {
                    ||| !kind_is_private(key.kind) && e == Errno::EINVAL
                    ||| kind_is_private(key.kind) && e == Errno::ENOSPC && (value.len() > MAX_VALUE
                        || all_used(self@.slots))
                },
            },
    {
        if key.kind < 0xf0 || key.kind > 0xf5 {
            return Err(Errno::EINVAL);
        }
        if value.len() > MAX_VALUE {
            return Err(Errno::ENOSPC);
        }
        let old = self.find(key);
        let slot: usize = match self.find_free() {
            Some(i) => i,
            None => {
                return Err(Errno::ENOSPC);
            },
        };
        Ok(
            WritePlan {
                slot,
                old,
                record: Slot {
                    used: true,
                    kind: key.kind,
                    uuid: key.uuid,
                    len: value.len() as u32,
                },
            },
        )
    }

    /// Switches the table to the new value. The table has to be written then.
    pub fn written(&mut self, plan: &WritePlan)
        requires
            old(self).wf(),
            plan.slot < SLOT_COUNT,
            plan.old is Some ==> plan.old->0 < SLOT_COUNT,
        ensures
            final(self).wf(),
            final(self)@ == (StoreView {
                slots: switched(old(self)@.slots, *plan),
                generation: ((old(self)@.generation + 1) % 0x1_0000_0000_0000_0000) as u64,
                ..old(self)@
            }),
    {
        self.slots.set(plan.slot, plan.record);
        match plan.old {
            Some(o) => {
                self.slots.set(o, make_free());
            },
            None => {},
        }
        self.generation = self.generation.wrapping_add(1);
    }
}

pub open spec fn plans(slots: Seq<Slot>, key: Key, len: int, plan: WritePlan) -> bool {
    &&& first_unused(slots, plan.slot as int)
    &&& plan.record == (Slot { used: true, kind: key.kind, uuid: key.uuid, len: len as u32 })
    &&& match plan.old {
        Some(o) => first_holding(slots, key, o as int),
        None => !has_key(slots, key),
    }
}

/// The value that a reader of the whole file finds under a key.
pub open spec fn stored(image: Seq<u8>, key: Key) -> Option<Seq<u8>> {
    let slots = table_in(image.subrange(0, 0x8000));
    if has_key(slots, key) {
        let i = choose|i: int| #[trigger] first_holding(slots, key, i);
        Some(image.subrange(block_start(i), block_start(i) + slots[i].len))
    } else {
        None
    }
}

/// What is found under a key is the value of the first entry that holds it.
pub proof fn stored_at(image: Seq<u8>, key: Key, i: int)
    requires
        first_holding(table_in(image.subrange(0, 0x8000)), key, i),
    ensures
        ({
            let slots = table_in(image.subrange(0, 0x8000));
            stored(image, key) == Some(
                image.subrange(block_start(i), block_start(i) + slots[i].len),
            )
        }),
{
    let slots = table_in(image.subrange(0, 0x8000));
    assert(slots[i].holds(key));
    let j = choose|j: int| #[trigger] first_holding(slots, key, j);
    if i < j {
        assert(!slots[i].holds(key));
    } else if j < i {
        assert(!slots[j].holds(key));
    }
}

/// All values lie in their blocks.
pub open spec fn lengths_fit(slots: Seq<Slot>) -> bool {
    forall|i: int| 0 <= i < slots.len() ==> (#[trigger] slots[i]).len <= BLOCK_SIZE
}

/// A write that is cut short at any point before the table is switched leaves
/// every value as it was: neither the intent in the table nor the block that is
/// being filled shows.
pub proof fn interrupted_write_changes_nothing(
    image: Seq<u8>,
    slots: Seq<Slot>,
    generation: u64,
    key: Key,
    value: Seq<u8>,
    plan: WritePlan,
    filled: Seq<u8>,
    k: Key,
)
    requires
        image.len() == STORE_SIZE,
        slots.len() == SLOT_COUNT,
        lengths_fit(slots),
        table_in(image.subrange(0, 0x8000)) == slots,
        plans(slots, key, value.len() as int, plan),
        filled.len() <= BLOCK_SIZE,
    ensures
        ({
            let sb = superblock_bytes(
                slots,
                generation,
                Intent::Write { slot: plan.slot as u16, kind: key.kind },
            );
            let marked = crate::bytes::spliced(image, 0, sb);
            let torn = crate::bytes::spliced(marked, block_start(plan.slot as int), filled);
            stored(marked, k) == stored(image, k) && stored(torn, k) == stored(image, k)
        }),
{
    let intent = Intent::Write { slot: plan.slot as u16, kind: key.kind };
    let sb = superblock_bytes(slots, generation, intent);
    let marked = crate::bytes::spliced(image, 0, sb);
    let at = block_start(plan.slot as int);
    let torn = crate::bytes::spliced(marked, at, filled);
    superblock_round_trip(slots, generation, intent);
    let read = slots.update(plan.slot as int, free_slot());
    assert(table_in(sb) == read);
    head_stays(image, sb, at, filled);
    same_values(image, marked, slots, read, plan.slot as int, k);
    same_values(image, torn, slots, read, plan.slot as int, k);
}

proof fn head_stays(image: Seq<u8>, sb: Seq<u8>, at: int, filled: Seq<u8>)
    requires
        image.len() == STORE_SIZE,
        sb.len() == 0x8000,
        at >= 0x8000,
    ensures
        crate::bytes::spliced(image, 0, sb).subrange(0, 0x8000) == sb,
        crate::bytes::spliced(crate::bytes::spliced(image, 0, sb), at, filled).subrange(0, 0x8000)
            == sb,
{
    let marked = crate::bytes::spliced(image, 0, sb);
    let torn = crate::bytes::spliced(marked, at, filled);
    assert(marked.subrange(0, 0x8000) =~= sb);
    assert(torn.subrange(0, 0x8000) =~= sb);
}

/// Files whose tables agree on who holds a key, and whose blocks are the same but
/// for one that neither table uses for the key, hold the same value under it.
proof fn same_values(
    image: Seq<u8>,
    other: Seq<u8>,
    slots: Seq<Slot>,
    others: Seq<Slot>,
    spared: int,
    k: Key,
)
    requires
        image.len() == STORE_SIZE,
        other.len() == STORE_SIZE,
        slots.len() == SLOT_COUNT,
        others.len() == SLOT_COUNT,
        lengths_fit(slots),
        table_in(image.subrange(0, 0x8000)) == slots,
        table_in(other.subrange(0, 0x8000)) == others,
        0 <= spared < SLOT_COUNT,
        !slots[spared].holds(k),
        forall|i: int|
            0 <= i < SLOT_COUNT ==> #[trigger] others[i].holds(k) == slots[i].holds(k) && (
            slots[i].holds(k) ==> others[i] == slots[i]),
        forall|i: int|
            0x8000 <= i < STORE_SIZE && !(block_start(spared) <= i < block_start(spared) + 0x8000)
                ==> #[trigger] other[i] == image[i],
    ensures
        stored(other, k) == stored(image, k),
{
    if has_key(slots, k) {
        first_exists(slots, k, slots.len() as int);
        let i = choose|i: int| #[trigger] first_holding(slots, k, i);
        assert(others[i].holds(k));
        assert(first_holding(others, k, i)) by {
            assert forall|j: int| 0 <= j < i implies !#[trigger] others[j].holds(k) by {
                assert(!slots[j].holds(k));
            }
        }
        stored_at(image, k, i);
        stored_at(other, k, i);
        assert(slots[i].len <= BLOCK_SIZE);
        let a = block_start(i);
        assert(other.subrange(a, a + slots[i].len) =~= image.subrange(a, a + slots[i].len));
    } else {
        assert(!has_key(others, k)) by {
            assert forall|j: int| 0 <= j < others.len() implies !#[trigger] others[j].holds(k) by {
                assert(!slots[j].holds(k));
            }
        }
    }
}

/// A key that is held is held first somewhere.
proof fn first_exists(slots: Seq<Slot>, key: Key, n: int)
    requires
        0 <= n <= slots.len(),
        exists|j: int| 0 <= j < n && #[trigger] slots[j].holds(key),
    ensures
        exists|i: int| #[trigger] first_holding(slots, key, i),
    decreases n,
{
    if exists|j: int| 0 <= j < n - 1 && #[trigger] slots[j].holds(key) {
        first_exists(slots, key, n - 1);
    } else {
        let j = choose|j: int| 0 <= j < n && #[trigger] slots[j].holds(key);
        assert(first_holding(slots, key, j));
    }
}

/// No two entries hold the key.
pub open spec fn held_once(slots: Seq<Slot>, key: Key) -> bool {
    forall|i: int, j: int|
        0 <= i < j < slots.len() ==> !(#[trigger] slots[i].holds(key)
            && #[trigger] slots[j].holds(key))
}

/// A write keeps to one entry for each key.
pub proof fn write_keeps_entries_unique(
    slots: Seq<Slot>,
    key: Key,
    value: Seq<u8>,
    plan: WritePlan,
    k: Key,
)
    requires
        slots.len() == SLOT_COUNT,
        plans(slots, key, value.len() as int, plan),
        held_once(slots, k),
    ensures
        held_once(switched(slots, plan), k),
{
    let after = switched(slots, plan);
    let f = plan.slot as int;
    assert forall|i: int, j: int| 0 <= i < j < after.len() implies !(#[trigger] after[i].holds(k)
        && #[trigger] after[j].holds(k)) by {
        if after[i].holds(k) && after[j].holds(k) {
            let old = if i == f {
                j
            } else {
                i
            };
            assert(slots[old].holds(k));
            if i == f || j == f {
                assert(k == key);
                let o = plan.old->0 as int;
                assert(o != old);
                assert(slots[o].holds(k));
            } else {
                assert(slots[i].holds(k) && slots[j].holds(k));
            }
        }
    }
}

/// A write that is carried through leaves what stands under every other key.
pub proof fn finished_write_spares_others(
    image: Seq<u8>,
    slots: Seq<Slot>,
    generation: u64,
    key: Key,
    value: Seq<u8>,
    plan: WritePlan,
    k: Key,
)
    requires
        image.len() == STORE_SIZE,
        slots.len() == SLOT_COUNT,
        lengths_fit(slots),
        table_in(image.subrange(0, 0x8000)) == slots,
        plans(slots, key, value.len() as int, plan),
        value.len() <= MAX_VALUE,
        k != key,
    ensures
        ({
            let filled = crate::bytes::spliced(image, block_start(plan.slot as int), value);
            let sb = superblock_bytes(switched(slots, plan), generation, Intent::Idle);
            stored(crate::bytes::spliced(filled, 0, sb), k) == stored(image, k)
        }),
{
    let filled = crate::bytes::spliced(image, block_start(plan.slot as int), value);
    let after = switched(slots, plan);
    let sb = superblock_bytes(after, generation, Intent::Idle);
    let image2 = crate::bytes::spliced(filled, 0, sb);
    superblock_round_trip(after, generation, Intent::Idle);
    assert(image2.subrange(0, 0x8000) =~= sb);
    same_values(image, image2, slots, after, plan.slot as int, k);
}

/// A write that is carried through gives the key its new value, provided that
/// no second entry held it.
pub proof fn finished_write_takes_effect(
    image: Seq<u8>,
    slots: Seq<Slot>,
    generation: u64,
    key: Key,
    value: Seq<u8>,
    plan: WritePlan,
)
    requires
        image.len() == STORE_SIZE,
        slots.len() == SLOT_COUNT,
        plans(slots, key, value.len() as int, plan),
        value.len() <= MAX_VALUE,
        held_once(slots, key),
    ensures
        ({
            let filled = crate::bytes::spliced(image, block_start(plan.slot as int), value);
            let sb = superblock_bytes(switched(slots, plan), generation, Intent::Idle);
            stored(crate::bytes::spliced(filled, 0, sb), key) == Some(value)
        }),
{
    let filled = crate::bytes::spliced(image, block_start(plan.slot as int), value);
    let after = switched(slots, plan);
    let sb = superblock_bytes(after, generation, Intent::Idle);
    let image2 = crate::bytes::spliced(filled, 0, sb);
    superblock_round_trip(after, generation, Intent::Idle);
    assert(image2.subrange(0, 0x8000) =~= sb);
    let f = plan.slot as int;
    assert(!slots[f].used);
    assert(after[f] == plan.record);
    assert forall|j: int| 0 <= j < after.len() && #[trigger] after[j].holds(key) implies j == f by {
        if j != f {
            assert(slots[j].holds(key));
            let o = plan.old->0 as int;
            if o < j {
                assert(slots[o].holds(key) && slots[j].holds(key));
            } else if j < o {
                assert(slots[j].holds(key) && slots[o].holds(key));
            }
        }
    }
    assert(first_holding(after, key, f));
    stored_at(image2, key, f);
    let a = block_start(f);
    assert(image2.subrange(a, a + value.len() as int) =~= value);
}

/// The first block says what it is, version 1, that it has 71 entries and blocks of
/// 0x8000 bytes, its generation, and what is being written; its entries stand behind,
/// 24 bytes each: whether it is used, its kind, its identifier and its length. The block
/// of the first entry follows the first block.
#[verifier::spinoff_prover]
#[verifier::rlimit(60)]
pub proof fn superblock_is_laid_out(slots: Seq<Slot>, generation: u64, intent: Intent, i: int)
    requires
        slots.len() == 71,
        0 <= i < 71,
    ensures
        ({
            let sb = superblock_bytes(slots, generation, intent);
            let at = 64 + 24 * i;
            &&& sb.len() == 0x8000
            &&& sb.subrange(0, 16) == seq![
                0x41u8, 0x55, 0x52, 0x4f, 0x52, 0x41, 0x2d, 0x53, 0x45, 0x50, 0x2d, 0x53, 0x54, 0x4f,
                0x52, 0x01,
            ]
            &&& u32_at(sb, 16) == 1
            &&& u32_at(sb, 20) == 71
            &&& u32_at(sb, 24) == 0x8000
            &&& u64_at(sb, 28) == generation
            &&& intent is Idle ==> sb[36] == 0
            &&& intent matches Intent::Write { slot, kind } ==> sb[36] == 1 && u16_at(sb, 37) == slot
                && sb[39] == kind
            &&& (sb[at] != 0) == slots[i].used
            &&& sb[at + 1] == slots[i].kind
            &&& uuid_at(sb, at + 2) == slots[i].uuid
            &&& u32_at(sb, at + 18) == slots[i].len
        }),
        block_start(0) == 0x8000,
        block_start(70) == 0x23_8000,
{
    broadcast use group_le;

    superblock_round_trip(slots, generation, intent);
    entry_round_trip(slots, generation, intent, i);
    head_len(generation, intent);
    let sb = superblock_bytes(slots, generation, intent);
    assert(entry_in(sb, i) == slots[i]);
    match intent {
        Intent::Write { slot, kind } => {
            assert(sb.subrange(37, 39) =~= u16_le(slot as int));
            crate::bytes::u16_reads_back(sb, 37, slot as int);
        },
        Intent::Idle => {},
    }
}

/// Only what is the host's own is filed here: the kinds 0xf0 to 0xf5.
pub proof fn private_kinds(kind: u8)
    ensures
        kind_is_private(kind) <==> kind == 0xf0 || kind == 0xf1 || kind == 0xf2 || kind == 0xf3
            || kind == 0xf4 || kind == 0xf5,
{
}

/// The block of a slot starts 0x8000 bytes in for the first, and 0x8000 further on for each.
pub proof fn blocks_are_placed(slot: int)
    ensures
        block_start(0) == 0x8000,
        block_start(slot + 1) == block_start(slot) + 0x8000,
{
}

/// A write goes to the first slot that is not used, under its key and length, and the slot
/// that the key had is freed; when it is finished all other slots are as they were.
pub proof fn write_is_planned(slots: Seq<Slot>, key: Key, len: u32, plan: WritePlan, i: int)
    requires
        plans(slots, key, len as int, plan),
        plan.old is Some ==> plan.old->0 < slots.len(),
        0 <= i < slots.len(),
    ensures
        !slots[plan.slot as int].used,
        i < plan.slot ==> slots[i].used,
        switched(slots, plan)[plan.slot as int] == (Slot {
            used: true,
            kind: key.kind,
            uuid: key.uuid,
            len,
        }),
        plan.old matches Some(o) ==> slots[o as int].holds(key) && !switched(
            slots,
            plan,
        )[o as int].used,
        i != plan.slot && !(plan.old matches Some(o) && o == i) ==> switched(slots, plan)[i]
            == slots[i],
{
    if let Some(o) = plan.old {
        assert(slots[o as int].holds(key));
        assert(o != plan.slot);
    }
}

/// A table's entries are 24 bytes each from 64 on: whether it is used, its kind, its
/// identifier and its length. The entry of a write that was not finished counts as free.
pub proof fn table_is_read(sb: Seq<u8>, i: int)
    requires
        0 <= i < SLOT_COUNT,
    ensures
        sb[36] == 1 && u16_at(sb, 37) == i ==> !table_in(sb)[i].used,
        sb[36] != 1 || u16_at(sb, 37) != i ==> {
            let e = table_in(sb)[i];
            &&& e.used == (sb[64 + 24 * i] != 0)
            &&& e.kind == sb[65 + 24 * i]
            &&& e.uuid == uuid_at(sb, 66 + 24 * i)
            &&& e.len == u32_at(sb, 82 + 24 * i) as u32
        },
{
    reveal(table_in);
}

/// An entry of the table has 24 bytes, of which the first is a 1 or a 0 and the last two are
/// zeros.
pub proof fn entry_is_laid_out(s: Slot)
    ensures
        entry_bytes(s).len() == 24,
        entry_bytes(s)[0] == if s.used {
            1u8
        } else {
            0u8
        },
        entry_bytes(s)[1] == s.kind,
        entry_bytes(s).subrange(2, 18) == s.uuid@,
        u32_at(entry_bytes(s), 18) == s.len,
        entry_bytes(s)[22] == 0 && entry_bytes(s)[23] == 0,
{
    broadcast use group_le;

    crate::uuid::uuid_round_trip(s.uuid);
    let e = entry_bytes(s);
    assert(e.subrange(2, 18) =~= s.uuid@);
    assert(e.subrange(18, 22) =~= u32_le(s.len as int));
    crate::bytes::u32_reads_back(e, 18, s.len as int);
}

} // verus!
