//! The device-wide record store of the enclave's anti-replay state.
//!
//! The store is a window of a block device, cut into slots. A slot holds at
//! most one record, with a check over its value and a revision. A record is
//! replaced by writing the new one to a free slot first, so that at every
//! moment a scan of the window finds the old value or the new one.

use crate::bytes::{
    group_le, put_bytes, put_u32, put_u64, put_zeros, read_u32, read_u64, spliced, u32_at, u32_le,
    u32_reads_back, u64_at, u64_le, u64_reads_back, u64_round_trip, zeroed,
};
use crate::crc::{crc32, crc32_ieee};
use crate::errno::Errno;
use crate::uuid::{uuid_at, uuid_round_trip, zero_uuid, Uuid};
use vstd::prelude::*;

verus! {

pub const BLOCK_SIZE: usize = 0x1000;

pub const SLOT_SIZE: usize = 0x9000;

pub const HEADER_SIZE: usize = 0x22;

pub const STORE_SIZE: usize = 0x600000;

/// How many whole slots the window has.
pub const SLOT_COUNT: usize = 170;

pub const MAX_VALUE: usize = 0x8000;

/// What a record is filed under.
#[derive(Clone, Copy, Debug, PartialEq, Eq, Structural)]
pub struct Key {
    pub kind: u8,
    pub uuid: Uuid,
}

pub open spec fn root_key(kind: u8) -> Key {
    Key { kind, uuid: zero_uuid() }
}

/// Records of the first two kinds are roots: there is one of each, without an
/// identifier. The other two kinds are told apart by their identifier.
pub open spec fn key_is_valid(key: Key) -> bool {
    1 <= key.kind <= 4 && (key.kind > 2 || key.uuid == zero_uuid())
}

impl Key {
    pub fn new(kind: u8, uuid: Uuid) -> (k: Key)
        ensures
            k == (Key { kind, uuid }),
    {
        Key { kind, uuid }
    }

    pub fn root(kind: u8) -> (k: Key)
        ensures
            k == root_key(kind),
    {
        Key { kind, uuid: Uuid::zero() }
    }
}

fn valid_key(key: &Key) -> (r: bool)
    ensures
        r == key_is_valid(*key),
{
    1 <= key.kind && key.kind <= 4 && (key.kind > 2 || key.uuid.is_zero())
}

/// What is known of a slot.
#[derive(Clone, Copy, Debug, PartialEq, Eq, Structural)]
pub struct Slot {
    pub used: bool,
    pub key: Key,
    pub len: u32,
    pub crc: u32,
    pub revision: u64,
}

pub open spec fn free_slot() -> Slot {
    Slot { used: false, key: root_key(0), len: 0, crc: 0, revision: 0 }
}

fn make_free() -> (s: Slot)
    ensures
        s == free_slot(),
{
    Slot { used: false, key: Key::root(0), len: 0, crc: 0, revision: 0 }
}

impl Slot {
    pub open spec fn holds(self, key: Key) -> bool {
        self.used && self.key == key
    }

    fn matches(&self, key: &Key) -> (r: bool)
        ensures
            r == self.holds(*key),
    {
        self.used && self.key == *key
    }
}

/// The bytes of slot `i` of the window.
pub open spec fn raw_slot(window: Seq<u8>, i: int) -> Seq<u8> {
    window.subrange(i * 0x9000, i * 0x9000 + 0x9000)
}

/// The slot that the bytes describe, valid or not.
#[verifier::opaque]
pub open spec fn described(raw: Seq<u8>) -> Slot {
    Slot {
        used: true,
        key: Key { kind: raw[1], uuid: uuid_at(raw, 2) },
        len: u32_at(raw, 0x12) as u32,
        crc: u32_at(raw, 0x16) as u32,
        revision: u64_at(raw, 0x1a) as u64,
    }
}

broadcast proof fn described_is_used(raw: Seq<u8>)
    ensures
        (#[trigger] described(raw)).used,
{
    reveal(described);
}

/// The value that the bytes hold, as far as they go by their length.
pub open spec fn value_in(raw: Seq<u8>) -> Seq<u8> {
    raw.subrange(0x22, 0x22 + described(raw).len)
}

/// Whether the bytes are a record: a valid key, a length in bounds, and a check
/// that agrees with the value.
#[verifier::opaque]
pub open spec fn is_record(raw: Seq<u8>) -> bool {
    let s = described(raw);
    &&& key_is_valid(s.key)
    &&& 1 <= s.len <= MAX_VALUE
    &&& crc32(value_in(raw)) == s.crc
}

pub open spec fn record_at(window: Seq<u8>, i: int) -> bool {
    is_record(raw_slot(window, i))
}

pub open spec fn slot_at(window: Seq<u8>, i: int) -> Slot {
    described(raw_slot(window, i))
}

/// Slot `j` holds a record that supersedes the one of slot `i`: same key, and a
/// higher revision or the same revision in a later slot.
pub open spec fn supersedes(window: Seq<u8>, j: int, i: int) -> bool {
    &&& record_at(window, j)
    &&& slot_at(window, j).key == slot_at(window, i).key
    &&& (slot_at(window, j).revision > slot_at(window, i).revision || (slot_at(window, j).revision
        == slot_at(window, i).revision && j > i))
}

/// Of the first `n` slots, slot `i` holds the live record of its key.
pub open spec fn live(window: Seq<u8>, i: int, n: int) -> bool {
    &&& 0 <= i < n
    &&& record_at(window, i)
    &&& forall|j: int| 0 <= j < n ==> !#[trigger] supersedes(window, j, i)
}

/// What a scan of the first `n` slots makes of the window: the live records.
pub open spec fn scanned(window: Seq<u8>, n: int) -> Seq<Slot> {
    Seq::new(
        SLOT_COUNT as nat,
        |i: int|
            if live(window, i, n) {
                slot_at(window, i)
            } else {
                free_slot()
            },
    )
}

pub open spec fn top_revision(window: Seq<u8>, n: int) -> u64
    decreases n,
{
    if n <= 0 {
        0
    } else {
        let before = top_revision(window, n - 1);
        if record_at(window, n - 1) && slot_at(window, n - 1).revision > before {
            slot_at(window, n - 1).revision
        } else {
            before
        }
    }
}

/// How many of the first `n` slots are not empty and not records.
pub open spec fn malformed_count(window: Seq<u8>, n: int) -> nat
    decreases n,
{
    if n <= 0 {
        0
    } else {
        malformed_count(window, n - 1) + if raw_slot(window, n - 1)[1] != 0 && !record_at(
            window,
            n - 1,
        ) {
            1nat
        } else {
            0nat
        }
    }
}

/// Slot `i` holds a record whose key an earlier slot has too.
pub open spec fn repeats(window: Seq<u8>, i: int) -> bool {
    record_at(window, i) && exists|j: int|
        0 <= j < i && #[trigger] record_at(window, j) && slot_at(window, j).key == slot_at(
            window,
            i,
        ).key
}

pub open spec fn duplicate_count(window: Seq<u8>, n: int) -> nat
    decreases n,
{
    if n <= 0 {
        0
    } else {
        duplicate_count(window, n - 1) + if repeats(window, n - 1) {
            1nat
        } else {
            0nat
        }
    }
}

pub open spec fn used_count(slots: Seq<Slot>) -> nat
    decreases slots.len(),
{
    if slots.len() == 0 {
        0
    } else {
        used_count(slots.drop_last()) + if slots.last().used {
            1nat
        } else {
            0nat
        }
    }
}

/// A key that has a record has a live one.
proof fn live_exists(window: Seq<u8>, n: int, key: Key)
    requires
        exists|j: int|
            0 <= j < n && #[trigger] record_at(window, j) && slot_at(window, j).key == key,
    ensures
        exists|i: int| #[trigger] live(window, i, n) && slot_at(window, i).key == key,
    decreases n,
{
    let last = n - 1;
    if exists|j: int|
        0 <= j < last && #[trigger] record_at(window, j) && slot_at(window, j).key == key {
        live_exists(window, last, key);
        let i = choose|i: int| #[trigger] live(window, i, last) && slot_at(window, i).key == key;
        if record_at(window, last) && slot_at(window, last).key == key && slot_at(
            window,
            last,
        ).revision >= slot_at(window, i).revision {
            assert forall|j: int| 0 <= j < n implies !#[trigger] supersedes(window, j, last) by {
                if j < last {
                    assert(!supersedes(window, j, i));
                }
            }
            assert(live(window, last, n));
        } else {
            assert(!supersedes(window, last, i));
            assert forall|j: int| 0 <= j < n implies !#[trigger] supersedes(window, j, i) by {
                if j < last {
                    assert(!supersedes(window, j, i));
                }
            }
            assert(live(window, i, n));
        }
    } else {
        let j = choose|j: int|
            0 <= j < n && #[trigger] record_at(window, j) && slot_at(window, j).key == key;
        assert(j == last);
        assert forall|m: int| 0 <= m < n implies !#[trigger] supersedes(window, m, last) by {
            if m < last && supersedes(window, m, last) {
                assert(record_at(window, m));
            }
        }
        assert(live(window, last, n));
    }
}

/// A live record counts as one.
pub proof fn live_is_used(window: Seq<u8>, i: int)
    requires
        live(window, i, SLOT_COUNT as int),
    ensures
        slot_at(window, i).used,
{
    broadcast use described_is_used;

}

/// A key has at most one live record.
pub proof fn live_is_unique(window: Seq<u8>, n: int, i: int, j: int)
    requires
        live(window, i, n),
        live(window, j, n),
        slot_at(window, i).key == slot_at(window, j).key,
    ensures
        i == j,
{
    assert(!supersedes(window, j, i));
    assert(!supersedes(window, i, j));
}

/// What one more slot does to the live records of the slots before it.
proof fn live_step(window: Seq<u8>, n: int, i: int)
    requires
        0 <= i < n,
    ensures
        live(window, i, n + 1) == (live(window, i, n) && !supersedes(window, n, i)),
{
    if live(window, i, n) && !supersedes(window, n, i) {
        assert forall|j: int| 0 <= j < n + 1 implies !#[trigger] supersedes(window, j, i) by {
            if j < n {
                assert(!supersedes(window, j, i));
            }
        }
    }
}

proof fn top_revision_bounds(window: Seq<u8>, n: int, i: int)
    requires
        0 <= i < n,
        record_at(window, i),
    ensures
        slot_at(window, i).revision <= top_revision(window, n),
    decreases n,
{
    if i < n - 1 {
        top_revision_bounds(window, n - 1, i);
    }
}

/// The free slots of an index, in order; the `skip`th of them.
pub open spec fn nth_free(slots: Seq<Slot>, skip: nat, from: int) -> Option<int>
    decreases slots.len() - from,
{
    if from >= slots.len() {
        None
    } else if slots[from].used {
        nth_free(slots, skip, from + 1)
    } else if skip == 0 {
        Some(from)
    } else {
        nth_free(slots, (skip - 1) as nat, from + 1)
    }
}

/// The slot of a key in an index.
pub open spec fn found_at(slots: Seq<Slot>, key: Key, i: int) -> bool {
    &&& 0 <= i < slots.len()
    &&& slots[i].holds(key)
    &&& forall|j: int|
        0 <= j < slots.len() && #[trigger] slots[j].holds(key) ==> slots[j].revision
            < slots[i].revision || (slots[j].revision == slots[i].revision && j <= i)
}

/// The bytes of a slot that holds this record.
pub open spec fn record_bytes(key: Key, value: Seq<u8>, revision: u64) -> Seq<u8> {
    seq![0u8, key.kind] + key.uuid@ + u32_le(value.len() as int) + u32_le(crc32(value) as int)
        + u64_le(revision as int) + value + zeroed(0x9000 - 0x22 - value.len())
}

/// A record that is written is a record when it is read.
pub proof fn record_round_trip(key: Key, value: Seq<u8>, revision: u64)
    requires
        key_is_valid(key),
        1 <= value.len() <= MAX_VALUE,
    ensures
        ({
            let raw = record_bytes(key, value, revision);
            &&& raw.len() == SLOT_SIZE
            &&& is_record(raw)
            &&& described(raw) == (Slot {
                used: true,
                key,
                len: value.len() as u32,
                crc: crc32(value),
                revision,
            })
            &&& value_in(raw) == value
        }),
{
    broadcast use group_le;

    reveal(described);
    reveal(is_record);
    let raw = record_bytes(key, value, revision);
    crate::uuid::uuid_round_trip(key.uuid);
    crate::bytes::u64_round_trip(revision as int);
    let l = u32_le(value.len() as int);
    let c = u32_le(crc32(value) as int);
    let r = u64_le(revision as int);
    assert(raw.subrange(2, 18) =~= key.uuid@);
    crate::uuid::uuid_at_subrange(raw, 2, 18, 0);
    assert(raw.subrange(0x12, 0x16) =~= l);
    crate::bytes::u32_at_subrange(raw, 0x12, 0x16, 0);
    assert(raw.subrange(0x16, 0x1a) =~= c);
    crate::bytes::u32_at_subrange(raw, 0x16, 0x1a, 0);
    assert(raw.subrange(0x1a, 0x22) =~= r);
    assert(u64_at(raw.subrange(0x1a, 0x22), 0) == u64_at(raw, 0x1a));
    assert(raw.subrange(0x22, 0x22 + value.len() as int) =~= value);
}

/// What has to be done to store a record: write `raw` to `slot` and make it
/// durable; then, if there was a record before, erase its slot.
pub struct WritePlan {
    pub slot: usize,
    pub raw: Vec<u8>,
    pub old: Option<usize>,
    pub record: Slot,
}

/// The index of an opened store.
pub struct Store {
    base: u64,
    slots: Vec<Slot>,
    revision: u64,
    writes_enabled: bool,
    valid_records: usize,
    malformed_records: usize,
    duplicate_records: usize,
    repaired_records: usize,
}

#[verifier::ext_equal]
pub struct StoreView {
    pub base: u64,
    pub slots: Seq<Slot>,
    pub revision: u64,
    pub writes_enabled: bool,
    pub malformed_records: int,
    pub duplicate_records: int,
    pub repaired_records: int,
}


/// Whether a window of the store's size fits a device of `size` bytes at
/// `base`.
pub open spec fn window_fits(size: u64, base: u64) -> bool {
    base % 0x1000 == 0 && base + STORE_SIZE <= size
}

/// Tells whether the window at `base` can be served from a device of `size`
/// bytes.
pub fn check_window(size: u64, base: u64) -> (r: Result<(), Errno>)
    ensures
        match r {
            Ok(_) => window_fits(size, base),
            Err(e) => !window_fits(size, base) && e == Errno::EINVAL,
        },
{
    if base % (BLOCK_SIZE as u64) != 0 {
        return Err(Errno::EINVAL);
    }
    match base.checked_add(STORE_SIZE as u64) {
        Some(end) => {
            if end > size {
                return Err(Errno::EINVAL);
            }
        },
        None => {
            return Err(Errno::EINVAL);
        },
    }
    Ok(())
}

fn count_used(slots: &Vec<Slot>) -> (n: usize)
    ensures
        n == used_count(slots@),
        n <= slots.len(),
{
    let mut n: usize = 0;
    let mut i: usize = 0;
    assert(slots@.subrange(0, 0).len() == 0);
    while i < slots.len()
        invariant
            i <= slots.len(),
            n <= i,
            n == used_count(slots@.subrange(0, i as int)),
        decreases slots.len() - i,
    {
        assert(slots@.subrange(0, i + 1).drop_last() =~= slots@.subrange(0, i as int));
        if slots[i].used {
            n = n + 1;
        }
        i = i + 1;
    }
    assert(slots@.subrange(0, i as int) =~= slots@);
    n
}

impl Store {
    pub closed spec fn view(&self) -> StoreView {
        StoreView {
            base: self.base,
            slots: self.slots@,
            revision: self.revision,
            writes_enabled: self.writes_enabled,
            malformed_records: self.malformed_records as int,
            duplicate_records: self.duplicate_records as int,
            repaired_records: self.repaired_records as int,
        }
    }

    pub closed spec fn wf(&self) -> bool {
        &&& self.slots.len() == SLOT_COUNT
        &&& self.valid_records == used_count(self.slots@)
        &&& self.repaired_records <= SLOT_COUNT
    }

    fn find_in(slots: &Vec<Slot>, key: &Key) -> (r: Option<usize>)
        ensures
            match r {
                Some(i) => found_at(slots@, *key, i as int),
                None => forall|j: int| 0 <= j < slots.len() ==> !#[trigger] slots@[j].holds(*key),
            },
    {
        let mut best: Option<usize> = None;
        let mut i: usize = 0;
        while i < slots.len()
            invariant
                i <= slots.len(),
                match best {
                    Some(b) => b < i && slots@[b as int].holds(*key) && forall|j: int|
                        0 <= j < i && #[trigger] slots@[j].holds(*key) ==> slots@[j].revision
                            < slots@[b as int].revision || (slots@[j].revision
                            == slots@[b as int].revision && j <= b),
                    None => forall|j: int| 0 <= j < i ==> !#[trigger] slots@[j].holds(*key),
                },
            decreases slots.len() - i,
        {
            if slots[i].matches(key) {
                match best {
                    Some(b) => {
                        if slots[i].revision >= slots[b].revision {
                            best = Some(i);
                        }
                    },
                    None => {
                        best = Some(i);
                    },
                }
            }
            i = i + 1;
        }
        best
    }

    /// The slot of the key's record.
    pub fn find(&self, key: &Key) -> (r: Option<usize>)
        requires
            self.wf(),
        ensures
            match r {
                Some(i) => i < SLOT_COUNT && found_at(self@.slots, *key, i as int),
                None => !has_key(self@.slots, *key),
            },
    {
        Self::find_in(&self.slots, key)
    }

    fn find_free(&self, skip: usize) -> (r: Option<usize>)
        requires
            self.wf(),
        ensures
            match r {
                Some(i) => i < SLOT_COUNT && nth_free(self@.slots, skip as nat, 0) == Some(
                    i as int,
                ) && !self@.slots[i as int].used,
                None => nth_free(self@.slots, skip as nat, 0) is None,
            },
    {
        let mut left: usize = skip;
        let mut i: usize = 0;
        while i < self.slots.len()
            invariant
                i <= self.slots.len(),
                self.wf(),
                nth_free(self.slots@, skip as nat, 0) == nth_free(
                    self.slots@,
                    left as nat,
                    i as int,
                ),
            decreases self.slots.len() - i,
        {
            if !self.slots[i].used {
                if left == 0 {
                    return Some(i);
                }
                left = left - 1;
            }
            i = i + 1;
        }
        None
    }

    /// Reads the window and keeps the live records. Nothing may be written
    /// until the root records have been found, so the index comes without
    /// leave to write.
    fn scan(base: u64, window: &[u8]) -> (s: Store)
        requires
            window.len() == STORE_SIZE,
        ensures
            s.wf(),
            s@ == (StoreView {
                base,
                slots: scanned(window@, SLOT_COUNT as int),
                revision: top_revision(window@, SLOT_COUNT as int),
                writes_enabled: false,
                malformed_records: malformed_count(window@, SLOT_COUNT as int) as int,
                duplicate_records: duplicate_count(window@, SLOT_COUNT as int) as int,
                repaired_records: 0,
            }),
    {
        let mut slots: Vec<Slot> = Vec::new();
        while slots.len() < SLOT_COUNT
            invariant
                slots.len() <= SLOT_COUNT,
                forall|i: int| 0 <= i < slots.len() ==> slots@[i] == free_slot(),
            decreases SLOT_COUNT - slots.len(),
        {
            slots.push(make_free());
        }
        let mut revision: u64 = 0;
        let mut malformed: usize = 0;
        let mut duplicates: usize = 0;
        let mut idx: usize = 0;
        assert(slots@ =~= scanned(window@, 0));
        while idx < SLOT_COUNT
            invariant
                window.len() == STORE_SIZE,
                idx <= SLOT_COUNT,
                slots@ == scanned(window@, idx as int),
                revision == top_revision(window@, idx as int),
                malformed == malformed_count(window@, idx as int),
                duplicates == duplicate_count(window@, idx as int),
                malformed <= idx,
                duplicates <= idx,
            decreases SLOT_COUNT - idx,
        {
            let at: usize = idx * SLOT_SIZE;
            let raw = vstd::slice::slice_subrange(window, at, at + SLOT_SIZE);
            assert(raw@ =~= raw_slot(window@, idx as int));
            let slot = Self::read_slot(raw);
            let ghost n = idx as int;
            let ghost before = slots@;
            match slot {
                None => {
                    if raw[1] != 0 {
                        malformed = malformed + 1;
                    }
                    proof {
                        assert(!repeats(window@, n));
                        assert forall|i: int| 0 <= i < n implies live(window@, i, n + 1) == live(
                            window@,
                            i,
                            n,
                        ) by {
                            live_step(window@, n, i);
                        }
                        assert(slots@ =~= scanned(window@, n + 1));
                    }
                },
                Some(candidate) => {
                    if candidate.revision > revision {
                        revision = candidate.revision;
                    }
                    let found = Self::find_in(&slots, &candidate.key);
                    proof {
                        assert forall|i: int| 0 <= i < n implies live(window@, i, n + 1) == (live(
                            window@,
                            i,
                            n,
                        ) && !supersedes(window@, n, i)) by {
                            live_step(window@, n, i);
                        }
                    }
                    match found {
                        Some(old) => {
                            duplicates = duplicates + 1;
                            proof {
                                let o = old as int;
                                assert(live(window@, o, n));
                                assert(slots@[o] == slot_at(window@, o));
                                assert(record_at(window@, o));
                                assert(repeats(window@, n));
                                assert forall|j: int| 0 <= j < n && record_at(window@, j) && slot_at(
                                    window@,
                                    j,
                                ).key == candidate.key implies slot_at(window@, j).revision
                                    <= slot_at(window@, o).revision by {
                                    assert(!supersedes(window@, j, o));
                                }
                                assert forall|i: int| 0 <= i < n && i != o && live(window@, i, n)
                                    implies slot_at(window@, i).key != candidate.key by {
                                    if slot_at(window@, i).key == candidate.key {
                                        live_is_unique(window@, n, i, o);
                                    }
                                }
                            }
                            if candidate.revision >= slots[old].revision {
                                slots.set(old, make_free());
                                slots.set(idx, candidate);
                                proof {
                                    assert(supersedes(window@, n, old as int));
                                    assert(live(window@, n, n + 1));
                                    assert(slots@ =~= scanned(window@, n + 1));
                                }
                            } else {
                                proof {
                                    assert(supersedes(window@, old as int, n));
                                    assert(!live(window@, n, n + 1));
                                    assert(slots@ =~= scanned(window@, n + 1));
                                }
                            }
                        },
                        None => {
                            proof {
                                if exists|j: int|
                                    0 <= j < n && #[trigger] record_at(window@, j) && slot_at(
                                        window@,
                                        j,
                                    ).key == candidate.key {
                                    live_exists(window@, n, candidate.key);
                                    let i = choose|i: int| #[trigger]
                                        live(window@, i, n) && slot_at(window@, i).key
                                            == candidate.key;
                                    described_is_used(raw_slot(window@, i));
                                    assert(slots@[i].holds(candidate.key));
                                }
                                assert(!repeats(window@, n));
                                assert(live(window@, n, n + 1));
                            }
                            slots.set(idx, candidate);
                            proof {
                                assert forall|i: int| 0 <= i < n && live(window@, i, n) implies !supersedes(
                                window@, n, i) by {
                                    assert(slot_at(window@, i).key != candidate.key) by {
                                        assert(record_at(window@, i));
                                    }
                                }
                                assert(slots@ =~= scanned(window@, n + 1));
                            }
                        },
                    }
                },
            }
            idx = idx + 1;
        }
        let valid_records = count_used(&slots);
        Store {
            base,
            slots,
            revision,
            writes_enabled: false,
            valid_records,
            malformed_records: malformed,
            duplicate_records: duplicates,
            repaired_records: 0,
        }
    }

    fn read_slot(raw: &[u8]) -> (r: Option<Slot>)
        requires
            raw.len() == SLOT_SIZE,
        ensures
            match r {
                Some(s) => is_record(raw@) && s == described(raw@),
                None => !is_record(raw@),
            },
    {
        proof {
            reveal(described);
            reveal(is_record);
        }
        let kind: u8 = raw[1];
        let key = Key { kind, uuid: Uuid::read(raw, 2) };
        let len: u32 = read_u32(raw, 0x12);
        let crc: u32 = read_u32(raw, 0x16);
        let revision: u64 = read_u64(raw, 0x1a);
        if !valid_key(&key) || len < 1 || len > MAX_VALUE as u32 {
            return None;
        }
        let value = vstd::slice::slice_subrange(raw, 0x22, 0x22 + len as usize);
        if crc32_ieee(value) != crc {
            return None;
        }
        Some(Slot { used: true, key, len, crc, revision })
    }
}

impl Store {
    /// Opens the store in `window`, which stands at `base` of its device. A
    /// window without both root records is no store: this side never makes a
    /// new one.
    pub fn open_window(base: u64, window: &[u8], arm_writes: bool) -> (r: Result<Store, Errno>)
        requires
            window.len() == STORE_SIZE,
        ensures
            match r {
                Ok(s) => {
                    &&& s.wf()
                    &&& has_roots(window@)
                    &&& s@ == opened(base, window@, arm_writes)
                },
                Err(e) => !has_roots(window@) && e == Errno::ENODATA,
            },
    {
        let mut store = Self::scan(base, window);
        let one = store.find(&Key::root(1));
        let two = store.find(&Key::root(2));
        proof {
            roots_are_found(window@, 1, one);
            roots_are_found(window@, 2, two);
        }
        if one.is_none() || two.is_none() {
            return Err(Errno::ENODATA);
        }
        store.writes_enabled = arm_writes;
        Ok(store)
    }

    /// The slots that hold something and hold no live record: what has to be
    /// erased before the store is used for writing.
    pub fn repairs(&self, window: &[u8]) -> (r: Vec<usize>)
        requires
            self.wf(),
            window.len() == STORE_SIZE,
        ensures
            forall|k: int|
                0 <= k < r.len() ==> (#[trigger] r@[k]) < SLOT_COUNT && needs_repair(
                    self@.slots,
                    window@,
                    r@[k] as int,
                ),
            forall|i: int|
                0 <= i < SLOT_COUNT && #[trigger] needs_repair(self@.slots, window@, i)
                    ==> r@.contains(i as usize),
            forall|j: int, k: int|
                0 <= j < k < r.len() ==> (#[trigger] r@[j]) < (#[trigger] r@[k]),
    {
        let mut out: Vec<usize> = Vec::new();
        let mut i: usize = 0;
        while i < SLOT_COUNT
            invariant
                self.wf(),
                window.len() == STORE_SIZE,
                i <= SLOT_COUNT,
                forall|k: int|
                    0 <= k < out.len() ==> (#[trigger] out@[k]) < i && needs_repair(
                        self@.slots,
                        window@,
                        out@[k] as int,
                    ),
                forall|j: int|
                    0 <= j < i && #[trigger] needs_repair(self@.slots, window@, j)
                        ==> out@.contains(j as usize),
                forall|j: int, k: int|
                    0 <= j < k < out.len() ==> (#[trigger] out@[j]) < (#[trigger] out@[k]),
            decreases SLOT_COUNT - i,
        {
            let ghost before = out@;
            if !self.slots[i].used && window[i * SLOT_SIZE + 1] != 0 {
                assert(raw_slot(window@, i as int)[1] == window@[i * 0x9000 + 1]);
                out.push(i);
                assert(out@[before.len() as int] == i);
                assert forall|j: int|
                    0 <= j < i + 1 && #[trigger] needs_repair(
                        self@.slots,
                        window@,
                        j,
                    ) implies out@.contains(j as usize) by {
                    if j < i {
                        assert(before.contains(j as usize));
                        let k = choose|k: int| 0 <= k < before.len() && before[k] == j as usize;
                        assert(out@[k] == j as usize);
                    }
                }
            } else {
                assert(raw_slot(window@, i as int)[1] == window@[i * 0x9000 + 1]);
            }
            i = i + 1;
        }
        out
    }

    /// Notes that a slot was erased for repair.
    pub fn note_repair(&mut self)
        requires
            old(self).wf(),
            old(self)@.repaired_records < SLOT_COUNT,
        ensures
            final(self).wf(),
            final(self)@ == (StoreView {
                repaired_records: old(self)@.repaired_records + 1,
                ..old(self)@
            }),
    {
        self.repaired_records = self.repaired_records + 1;
    }

    /// Where the key's record has to be read from.
    pub fn read(&self, key: &Key) -> (r: Result<Option<usize>, Errno>)
        requires
            self.wf(),
        ensures
            match r {
                Ok(Some(i)) => key_is_valid(*key) && i < SLOT_COUNT && found_at(
                    self@.slots,
                    *key,
                    i as int,
                ),
                Ok(None) => key_is_valid(*key) && !has_key(self@.slots, *key),
                Err(e) => !key_is_valid(*key) && e == Errno::EINVAL,
            },
    {
        if !valid_key(key) {
            return Err(Errno::EINVAL);
        }
        Ok(self.find(key))
    }

    /// The value in the bytes that were read from a slot. They have to be the
    /// record that the index has there.
    pub fn read_value(&self, idx: usize, key: &Key, raw: &[u8]) -> (r: Result<Vec<u8>, Errno>)
        requires
            self.wf(),
            idx < SLOT_COUNT,
            raw.len() == SLOT_SIZE,
        ensures
            match r {
                Ok(v) => still_there(self@.slots[idx as int], *key, raw@) && v@ == value_in(raw@),
                Err(e) => !still_there(self@.slots[idx as int], *key, raw@) && e == Errno::EIO,
            },
    {
        proof {
            reveal(described);
        }
        let slot = self.slots[idx];
        let disk_key = Key { kind: raw[1], uuid: Uuid::read(raw, 2) };
        let len: u32 = read_u32(raw, 0x12);
        if disk_key != *key || len != slot.len || len as usize > MAX_VALUE || read_u32(raw, 0x16)
            != slot.crc || read_u64(raw, 0x1a) != slot.revision {
            return Err(Errno::EIO);
        }
        let value = vstd::slice::slice_subrange(raw, 0x22, 0x22 + len as usize);
        if crc32_ieee(value) != slot.crc {
            return Err(Errno::EIO);
        }
        Ok(crate::bytes::copy_of(value))
    }

    /// Prepares to store a value. A new key takes the second free slot, so that
    /// one is always left for replacements; a replacement takes the first.
    pub fn write(&self, key: &Key, value: &[u8]) -> (r: Result<WritePlan, Errno>)
        requires
            self.wf(),
        ensures
            match r {
                Ok(plan) => write_error(self@, *key, value@) is None && plans(
                    self@,
                    *key,
                    value@,
                    plan,
                ),
                Err(e) => write_error(self@, *key, value@) == Some(e),
            },
    {
        broadcast use group_le;

        if !self.writes_enabled {
            return Err(Errno::EROFS);
        }
        if !valid_key(key) || value.len() == 0 || value.len() > MAX_VALUE {
            return Err(Errno::EINVAL);
        }
        let old = self.find(key);
        let skip: usize = if old.is_none() {
            1
        } else {
            0
        };
        proof {
            if old is Some {
                assert(self@.slots[old->0 as int].holds(*key));
            }
        }
        let fresh: usize = match self.find_free(skip) {
            Some(i) => i,
            None => {
                return Err(Errno::ENOSPC);
            },
        };
        if self.revision == u64::MAX {
            return Err(Errno::EINVAL);
        }
        let revision: u64 = self.revision + 1;
        let crc: u32 = crc32_ieee(value);
        let mut raw: Vec<u8> = Vec::new();
        raw.push(0);
        raw.push(key.kind);
        assert(raw@ =~= seq![0u8, key.kind]);
        key.uuid.put(&mut raw);
        put_u32(&mut raw, value.len() as u32);
        put_u32(&mut raw, crc);
        put_u64(&mut raw, revision);
        put_bytes(&mut raw, value);
        put_zeros(&mut raw, SLOT_SIZE - HEADER_SIZE - value.len());
        assert(raw@ =~= record_bytes(*key, value@, revision));
        Ok(
            WritePlan {
                slot: fresh,
                raw,
                old,
                record: Slot { used: true, key: *key, len: value.len() as u32, crc, revision },
            },
        )
    }

    /// Takes the new record into the index, once it is durable. The record
    /// that it replaces is forgotten, whether or not it could be erased.
    pub fn written(&mut self, plan: &WritePlan)
        requires
            old(self).wf(),
            plan.slot < SLOT_COUNT,
            plan.old is Some ==> plan.old->0 < SLOT_COUNT,
        ensures
            final(self).wf(),
            final(self)@ == (StoreView {
                slots: replaced(
                    old(self)@.slots,
                    plan.slot as int,
                    plan.record,
                    match plan.old {
                        Some(o) => Some(o as int),
                        None => None,
                    },
                ),
                revision: plan.record.revision,
                ..old(self)@
            }),
    {
        self.slots.set(plan.slot, plan.record);
        self.revision = plan.record.revision;
        match plan.old {
            Some(o) => {
                self.slots.set(o, make_free());
            },
            None => {},
        }
        self.valid_records = count_used(&self.slots);
    }

    /// Which slot has to be erased to delete the key's record.
    pub fn delete(&self, key: &Key) -> (r: Result<Option<usize>, Errno>)
        requires
            self.wf(),
        ensures
            match r {
                Ok(Some(i)) => key_is_valid(*key) && self@.writes_enabled && i < SLOT_COUNT
                    && found_at(self@.slots, *key, i as int),
                Ok(None) => key_is_valid(*key) && !has_key(self@.slots, *key),
                Err(e) => {
                    ||| !key_is_valid(*key) && e == Errno::EINVAL
                    ||| key_is_valid(*key) && !self@.writes_enabled && e == Errno::EROFS && has_key(
                        self@.slots,
                        *key,
                    )
                },
            },
    {
        if !valid_key(key) {
            return Err(Errno::EINVAL);
        }
        match self.find(key) {
            Some(i) => {
                if !self.writes_enabled {
                    assert(self@.slots[i as int].holds(*key));
                    return Err(Errno::EROFS);
                }
                Ok(Some(i))
            },
            None => Ok(None),
        }
    }

    /// Takes the record of an erased slot out of the index.
    pub fn deleted(&mut self, idx: usize)
        requires
            old(self).wf(),
            idx < SLOT_COUNT,
        ensures
            final(self).wf(),
            final(self)@ == (StoreView {
                slots: old(self)@.slots.update(idx as int, free_slot()),
                ..old(self)@
            }),
    {
        self.slots.set(idx, make_free());
        self.valid_records = count_used(&self.slots);
    }

    /// Where the window stands in its device.
    pub fn base(&self) -> (b: u64)
        ensures
            b == self@.base,
    {
        self.base
    }

    /// Where a slot stands in the device.
    pub fn slot_offset(&self, slot: usize) -> (off: u64)
        requires
            slot < SLOT_COUNT,
            self@.base + STORE_SIZE <= u64::MAX,
        ensures
            off == self@.base + slot * SLOT_SIZE,
    {
        self.base + (slot * SLOT_SIZE) as u64
    }

    /// Slots, live records, highest revision, malformed, duplicate and repaired
    /// records, and whether writes are enabled.
    pub fn summary(&self) -> (r: (usize, usize, u64, usize, usize, usize, bool))
        requires
            self.wf(),
        ensures
            r.0 == SLOT_COUNT,
            r.1 == used_count(self@.slots),
            r.2 == self@.revision,
            r.3 == self@.malformed_records,
            r.4 == self@.duplicate_records,
            r.5 == self@.repaired_records,
            r.6 == self@.writes_enabled,
    {
        (
            self.slots.len(),
            self.valid_records,
            self.revision,
            self.malformed_records,
            self.duplicate_records,
            self.repaired_records,
            self.writes_enabled,
        )
    }
}

pub open spec fn has_record(window: Seq<u8>, key: Key) -> bool {
    exists|i: int|
        0 <= i < SLOT_COUNT && #[trigger] record_at(window, i) && slot_at(window, i).key == key
}

/// Both root records are there.
pub open spec fn has_roots(window: Seq<u8>) -> bool {
    has_record(window, root_key(1)) && has_record(window, root_key(2))
}

pub open spec fn opened(base: u64, window: Seq<u8>, arm_writes: bool) -> StoreView {
    StoreView {
        base,
        slots: scanned(window, SLOT_COUNT as int),
        revision: top_revision(window, SLOT_COUNT as int),
        writes_enabled: arm_writes,
        malformed_records: malformed_count(window, SLOT_COUNT as int) as int,
        duplicate_records: duplicate_count(window, SLOT_COUNT as int) as int,
        repaired_records: 0,
    }
}

proof fn roots_are_found(window: Seq<u8>, kind: u8, r: Option<usize>)
    requires
        match r {
            Some(i) => found_at(scanned(window, SLOT_COUNT as int), root_key(kind), i as int),
            None => !has_key(scanned(window, SLOT_COUNT as int), root_key(kind)),
        },
    ensures
        r is Some == has_record(window, root_key(kind)),
{
    broadcast use described_is_used;

    let n = SLOT_COUNT as int;
    let slots = scanned(window, n);
    if r is Some {
        let i = r->0 as int;
        assert(slots[i].holds(root_key(kind)));
        assert(live(window, i, n));
        assert(record_at(window, i));
    } else if has_record(window, root_key(kind)) {
        live_exists(window, n, root_key(kind));
        let i = choose|i: int| #[trigger] live(window, i, n) && slot_at(window, i).key == root_key(
            kind,
        );
        assert(slots[i].holds(root_key(kind)));
    }
}

/// The slot is not empty on the device and free in the index.
pub open spec fn needs_repair(slots: Seq<Slot>, window: Seq<u8>, i: int) -> bool {
    !slots[i].used && raw_slot(window, i)[1] != 0
}

/// The bytes are the record that the index has: same key, length, check and
/// revision, a length that a slot can hold, and a value that agrees with the check.
pub open spec fn still_there(slot: Slot, key: Key, raw: Seq<u8>) -> bool {
    let d = described(raw);
    &&& d.key == key
    &&& d.len == slot.len <= MAX_VALUE
    &&& d.crc == slot.crc
    &&& d.revision == slot.revision
    &&& crc32(value_in(raw)) == slot.crc
}

pub open spec fn has_key(slots: Seq<Slot>, key: Key) -> bool {
    exists|j: int| 0 <= j < slots.len() && #[trigger] slots[j].holds(key)
}

/// Which slot a record of this key goes to.
pub open spec fn fresh_slot(slots: Seq<Slot>, key: Key) -> Option<int> {
    nth_free(
        slots,
        if has_key(slots, key) {
            0
        } else {
            1
        },
        0,
    )
}

/// Why a value cannot be stored.
pub open spec fn write_error(s: StoreView, key: Key, value: Seq<u8>) -> Option<Errno> {
    if !s.writes_enabled {
        Some(Errno::EROFS)
    } else if !key_is_valid(key) || value.len() == 0 || value.len() > MAX_VALUE {
        Some(Errno::EINVAL)
    } else if fresh_slot(s.slots, key) is None {
        Some(Errno::ENOSPC)
    } else if s.revision == u64::MAX {
        Some(Errno::EINVAL)
    } else {
        None
    }
}

/// The plan stores this value: in a free slot, under a revision above all
/// others, with the key's former slot to be erased.
pub open spec fn plans(s: StoreView, key: Key, value: Seq<u8>, plan: WritePlan) -> bool {
    &&& plan.slot < SLOT_COUNT
    &&& Some(plan.slot as int) == fresh_slot(s.slots, key)
    &&& !s.slots[plan.slot as int].used
    &&& plan.raw@ == record_bytes(key, value, plan.record.revision)
    &&& plan.record == (Slot {
        used: true,
        key,
        len: value.len() as u32,
        crc: crc32(value),
        revision: (s.revision + 1) as u64,
    })
    &&& match plan.old {
        Some(o) => o < SLOT_COUNT && found_at(s.slots, key, o as int),
        None => !has_key(s.slots, key),
    }
}

/// The index with a record put in and another taken out.
pub open spec fn replaced(
    slots: Seq<Slot>,
    at: int,
    record: Slot,
    old_at: Option<int>,
) -> Seq<Slot> {
    let put = slots.update(at, record);
    match old_at {
        Some(o) => put.update(o, free_slot()),
        None => put,
    }
}

/// The value that a fresh scan of the window finds for a key.
pub open spec fn stored(window: Seq<u8>, key: Key) -> Option<Seq<u8>> {
    if has_record(window, key) {
        let i = choose|i: int| #[trigger]
            live(window, i, SLOT_COUNT as int) && slot_at(window, i).key == key;
        Some(value_in(raw_slot(window, i)))
    } else {
        None
    }
}

/// The live slot of a key holds what is stored under it.
pub proof fn stored_at(window: Seq<u8>, i: int)
    requires
        live(window, i, SLOT_COUNT as int),
    ensures
        stored(window, slot_at(window, i).key) == Some(value_in(raw_slot(window, i))),
{
    let n = SLOT_COUNT as int;
    let key = slot_at(window, i).key;
    assert(record_at(window, i));
    let m = choose|m: int| #[trigger] live(window, m, n) && slot_at(window, m).key == key;
    live_is_unique(window, n, i, m);
}

/// A record that is not live is superseded by the live record of its key.
proof fn superseded_by_live(window: Seq<u8>, n: int, i: int) -> (m: int)
    requires
        0 <= i < n,
        record_at(window, i),
        !live(window, i, n),
    ensures
        live(window, m, n),
        supersedes(window, m, i),
        slot_at(window, m).key == slot_at(window, i).key,
{
    let key = slot_at(window, i).key;
    live_exists(window, n, key);
    let m = choose|m: int| #[trigger] live(window, m, n) && slot_at(window, m).key == key;
    assert(!supersedes(window, i, m));
    m
}

proof fn other_slots_keep(window: Seq<u8>, f: int, part: Seq<u8>, i: int)
    requires
        window.len() == STORE_SIZE,
        0 <= f < SLOT_COUNT,
        0 <= i < SLOT_COUNT,
        part.len() <= SLOT_SIZE,
        i != f,
    ensures
        raw_slot(spliced(window, f * 0x9000, part), i) == raw_slot(window, i),
{
    assert(raw_slot(spliced(window, f * 0x9000, part), i) =~= raw_slot(window, i));
}

/// Copy on write: once the new record is on the device, a fresh scan finds the
/// index that the writer goes on with. The key has its new value, and every
/// other key the value it had. Until then the window is the old one, and so are
/// all values.
pub proof fn write_takes_effect(
    s: StoreView,
    window: Seq<u8>,
    key: Key,
    value: Seq<u8>,
    plan: WritePlan,
)
    requires
        window.len() == STORE_SIZE,
        s.slots == scanned(window, SLOT_COUNT as int),
        s.revision >= top_revision(window, SLOT_COUNT as int),
        write_error(s, key, value) is None,
        plans(s, key, value, plan),
    ensures
        ({
            let after = spliced(window, plan.slot * 0x9000, plan.raw@);
            &&& scanned(after, SLOT_COUNT as int) == replaced(
                s.slots,
                plan.slot as int,
                plan.record,
                match plan.old {
                    Some(o) => Some(o as int),
                    None => None,
                },
            )
            &&& stored(after, key) == Some(value)
            &&& forall|k: Key| k != key ==> #[trigger] stored(after, k) == stored(window, k)
            &&& top_revision(after, SLOT_COUNT as int) <= plan.record.revision
        }),
{
    broadcast use described_is_used;

    let n = SLOT_COUNT as int;
    let f = plan.slot as int;
    let raw = plan.raw@;
    let after = spliced(window, f * 0x9000, raw);
    record_round_trip(key, value, plan.record.revision);
    assert(raw_slot(after, f) =~= raw);
    assert forall|i: int| 0 <= i < n && i != f implies #[trigger] raw_slot(after, i) == raw_slot(
        window,
        i,
    ) by {
        other_slots_keep(window, f, raw, i);
    }
    assert(slot_at(after, f) == plan.record);
    assert(record_at(after, f));
    assert(!live(window, f, n)) by {
        assert(!s.slots[f].used);
    }
    assert forall|i: int| 0 <= i < n && i != f && record_at(window, i) implies slot_at(
        window,
        i,
    ).revision < plan.record.revision by {
        top_revision_bounds(window, n, i);
    }
    assert forall|j: int| 0 <= j < n implies !#[trigger] supersedes(after, j, f) by {
        if j != f {
            assert(raw_slot(after, j) == raw_slot(window, j));
            assert(record_at(after, j) == record_at(window, j));
        }
    }
    assert(live(after, f, n));
    assert forall|i: int| 0 <= i < n && i != f implies #[trigger] live(after, i, n) == (live(
        window,
        i,
        n,
    ) && slot_at(window, i).key != key) by {
        assert(raw_slot(after, i) == raw_slot(window, i));
        if live(after, i, n) {
            assert(!supersedes(after, f, i));
            assert(slot_at(window, i).key != key) by {
                if slot_at(window, i).key == key {
                    assert(record_at(window, i));
                    assert(supersedes(after, f, i));
                }
            }
            if !live(window, i, n) {
                let m = superseded_by_live(window, n, i);
                assert(m != f);
                assert(raw_slot(after, m) == raw_slot(window, m));
                assert(supersedes(after, m, i));
            }
        }
        if live(window, i, n) && slot_at(window, i).key != key {
            assert forall|j: int| 0 <= j < n implies !#[trigger] supersedes(after, j, i) by {
                if j != f {
                    assert(raw_slot(after, j) == raw_slot(window, j));
                    assert(!supersedes(window, j, i));
                }
            }
        }
    }
    let old_at = match plan.old {
        Some(o) => Some(o as int),
        None => None,
    };
    match plan.old {
        Some(o) => {
            let oi = o as int;
            assert(s.slots[oi].holds(key));
            assert(live(window, oi, n));
            assert forall|i: int| 0 <= i < n && live(window, i, n) && slot_at(window, i).key
                == key implies i == oi by {
                live_is_unique(window, n, i, oi);
            }
        },
        None => {
            assert forall|i: int| 0 <= i < n && live(window, i, n) implies slot_at(window, i).key
                != key by {
                if slot_at(window, i).key == key {
                    assert(s.slots[i].holds(key));
                }
            }
        },
    }
    assert(scanned(after, n) =~= replaced(s.slots, f, plan.record, old_at));
    stored_at(after, f);
    assert forall|k: Key| k != key implies #[trigger] stored(after, k) == stored(window, k) by {
        same_stored(window, after, k, f, key);
    }
    top_revision_after(window, after, n, f, plan.record.revision);
}

proof fn same_stored(window: Seq<u8>, after: Seq<u8>, k: Key, f: int, key: Key)
    requires
        k != key,
        0 <= f < SLOT_COUNT,
        !live(window, f, SLOT_COUNT as int),
        slot_at(after, f).key == key,
        forall|i: int|
            0 <= i < SLOT_COUNT && i != f ==> #[trigger] raw_slot(after, i) == raw_slot(window, i),
        forall|i: int|
            0 <= i < SLOT_COUNT && i != f ==> #[trigger] live(after, i, SLOT_COUNT as int) == (live(
                window,
                i,
                SLOT_COUNT as int,
            ) && slot_at(window, i).key != key),
    ensures
        stored(after, k) == stored(window, k),
{
    let n = SLOT_COUNT as int;
    if has_record(window, k) {
        live_exists(window, n, k);
        let i = choose|i: int| #[trigger] live(window, i, n) && slot_at(window, i).key == k;
        assert(raw_slot(after, i) == raw_slot(window, i));
        assert(live(after, i, n));
        stored_at(window, i);
        stored_at(after, i);
    } else if has_record(after, k) {
        live_exists(after, n, k);
        let i = choose|i: int| #[trigger] live(after, i, n) && slot_at(after, i).key == k;
        assert(i != f);
        assert(raw_slot(after, i) == raw_slot(window, i));
        assert(record_at(window, i));
    }
}

proof fn top_revision_after(window: Seq<u8>, after: Seq<u8>, n: int, f: int, revision: u64)
    requires
        0 <= n <= SLOT_COUNT,
        0 <= f < SLOT_COUNT,
        forall|i: int|
            0 <= i < SLOT_COUNT && i != f ==> #[trigger] raw_slot(after, i) == raw_slot(window, i),
        forall|i: int|
            0 <= i < SLOT_COUNT && i != f && #[trigger] record_at(window, i) ==> slot_at(
                window,
                i,
            ).revision <= revision,
        slot_at(after, f).revision <= revision,
    ensures
        top_revision(after, n) <= revision,
    decreases n,
{
    if n > 0 {
        top_revision_after(window, after, n - 1, f, revision);
        if n - 1 != f {
            assert(raw_slot(after, n - 1) == raw_slot(window, n - 1));
            if record_at(after, n - 1) {
                assert(record_at(window, n - 1));
            }
        }
    }
}

/// The bytes of a slot whose first block was erased.
pub open spec fn erased(window: Seq<u8>, i: int) -> Seq<u8> {
    spliced(window, i * 0x9000, zeroed(BLOCK_SIZE as int))
}

proof fn erased_holds_nothing(window: Seq<u8>, i: int)
    requires
        window.len() == STORE_SIZE,
        0 <= i < SLOT_COUNT,
    ensures
        !record_at(erased(window, i), i),
        raw_slot(erased(window, i), i)[1] == 0,
{
    reveal(described);
    reveal(is_record);
}

/// Erasing a slot that holds no live record changes no value: that is why a
/// replaced record may be erased at leisure, and a failure to do so does no
/// harm.
pub proof fn erasing_stale_is_harmless(window: Seq<u8>, f: int)
    requires
        window.len() == STORE_SIZE,
        0 <= f < SLOT_COUNT,
        !live(window, f, SLOT_COUNT as int),
    ensures
        scanned(erased(window, f), SLOT_COUNT as int) == scanned(window, SLOT_COUNT as int),
        forall|k: Key| #[trigger] stored(erased(window, f), k) == stored(window, k),
{
    broadcast use described_is_used;

    let n = SLOT_COUNT as int;
    let after = erased(window, f);
    erased_holds_nothing(window, f);
    assert forall|i: int| 0 <= i < n && i != f implies #[trigger] raw_slot(after, i) == raw_slot(
        window,
        i,
    ) by {
        other_slots_keep(window, f, zeroed(BLOCK_SIZE as int), i);
    }
    assert forall|i: int| 0 <= i < n implies #[trigger] live(after, i, n) == live(window, i, n) by {
        if i != f {
            assert(raw_slot(after, i) == raw_slot(window, i));
            if live(window, i, n) {
                assert forall|j: int| 0 <= j < n implies !#[trigger] supersedes(after, j, i) by {
                    if j != f {
                        assert(raw_slot(after, j) == raw_slot(window, j));
                        assert(!supersedes(window, j, i));
                    }
                }
            }
            if live(after, i, n) && !live(window, i, n) {
                let m = superseded_by_live(window, n, i);
                assert(raw_slot(after, m) == raw_slot(window, m));
                assert(supersedes(after, m, i));
            }
        }
    }
    assert forall|i: int| 0 <= i < n && live(window, i, n) implies slot_at(after, i) == slot_at(
        window,
        i,
    ) by {
        assert(raw_slot(after, i) == raw_slot(window, i));
    }
    assert(scanned(after, n) =~= scanned(window, n));
    assert forall|k: Key| #[trigger] stored(after, k) == stored(window, k) by {
        if has_record(window, k) {
            live_exists(window, n, k);
            let i = choose|i: int| #[trigger] live(window, i, n) && slot_at(window, i).key == k;
            assert(raw_slot(after, i) == raw_slot(window, i));
            assert(live(after, i, n));
            stored_at(window, i);
            stored_at(after, i);
        } else if has_record(after, k) {
            let i = choose|i: int|
                0 <= i < SLOT_COUNT && #[trigger] record_at(after, i) && slot_at(after, i).key == k;
            assert(raw_slot(after, i) == raw_slot(window, i));
            assert(record_at(window, i));
        }
    }
}

/// Erasing a key's only record deletes the key, and no other.
pub proof fn delete_takes_effect(window: Seq<u8>, f: int)
    requires
        window.len() == STORE_SIZE,
        live(window, f, SLOT_COUNT as int),
        forall|j: int|
            0 <= j < SLOT_COUNT && j != f && #[trigger] record_at(window, j) ==> slot_at(
                window,
                j,
            ).key != slot_at(window, f).key,
    ensures
        scanned(erased(window, f), SLOT_COUNT as int) == scanned(window, SLOT_COUNT as int).update(
            f,
            free_slot(),
        ),
        stored(erased(window, f), slot_at(window, f).key) is None,
        forall|k: Key|
            k != slot_at(window, f).key ==> #[trigger] stored(erased(window, f), k) == stored(
                window,
                k,
            ),
{
    broadcast use described_is_used;

    let n = SLOT_COUNT as int;
    let after = erased(window, f);
    let key = slot_at(window, f).key;
    erased_holds_nothing(window, f);
    assert forall|i: int| 0 <= i < n && i != f implies #[trigger] raw_slot(after, i) == raw_slot(
        window,
        i,
    ) by {
        other_slots_keep(window, f, zeroed(BLOCK_SIZE as int), i);
    }
    assert forall|i: int| 0 <= i < n && i != f implies #[trigger] live(after, i, n) == live(
        window,
        i,
        n,
    ) by {
        assert(raw_slot(after, i) == raw_slot(window, i));
        if live(window, i, n) {
            assert forall|j: int| 0 <= j < n implies !#[trigger] supersedes(after, j, i) by {
                if j != f {
                    assert(raw_slot(after, j) == raw_slot(window, j));
                    assert(!supersedes(window, j, i));
                }
            }
        }
        if live(after, i, n) {
            assert forall|j: int| 0 <= j < n implies !#[trigger] supersedes(window, j, i) by {
                if j != f {
                    assert(raw_slot(after, j) == raw_slot(window, j));
                    assert(!supersedes(after, j, i));
                } else {
                    assert(record_at(window, i));
                }
            }
        }
    }
    assert(scanned(after, n) =~= scanned(window, n).update(f, free_slot()));
    assert(stored(after, key) is None) by {
        if has_record(after, key) {
            let i = choose|i: int|
                0 <= i < SLOT_COUNT && #[trigger] record_at(after, i) && slot_at(after, i).key
                    == key;
            assert(raw_slot(after, i) == raw_slot(window, i));
            assert(record_at(window, i));
        }
    }
    assert forall|k: Key| k != key implies #[trigger] stored(after, k) == stored(window, k) by {
        if has_record(window, k) {
            live_exists(window, n, k);
            let i = choose|i: int| #[trigger] live(window, i, n) && slot_at(window, i).key == k;
            assert(raw_slot(after, i) == raw_slot(window, i));
            assert(live(after, i, n));
            stored_at(window, i);
            stored_at(after, i);
        } else if has_record(after, k) {
            let i = choose|i: int|
                0 <= i < SLOT_COUNT && #[trigger] record_at(after, i) && slot_at(after, i).key == k;
            assert(raw_slot(after, i) == raw_slot(window, i));
            assert(record_at(window, i));
        }
    }
}

/// A scan finds a record of a key exactly where the window has one.
pub proof fn scan_finds_what_is_there(window: Seq<u8>, key: Key)
    ensures
        has_record(window, key) <==> has_key(scanned(window, SLOT_COUNT as int), key),
{
    broadcast use described_is_used;

    let n = SLOT_COUNT as int;
    let slots = scanned(window, n);
    if has_record(window, key) {
        live_exists(window, n, key);
        let i = choose|i: int| #[trigger] live(window, i, n) && slot_at(window, i).key == key;
        assert(slots[i].holds(key));
    }
    if has_key(slots, key) {
        let j = choose|j: int| 0 <= j < slots.len() && #[trigger] slots[j].holds(key);
        assert(live(window, j, n));
        assert(record_at(window, j));
    }
}

/// A record of the kinds 1 and 2 has an identifier of zeros, one of the kinds 3 and 4 may
/// have any, and there are no other kinds.
pub proof fn kinds_of_records(kind: u8, uuid: Uuid)
    ensures
        kind == 1 || kind == 2 ==> (key_is_valid(Key { kind, uuid }) <==> uuid.lo == 0 && uuid.hi
            == 0),
        kind == 3 || kind == 4 ==> key_is_valid(Key { kind, uuid }),
        kind == 0 || kind > 4 ==> !key_is_valid(Key { kind, uuid }),
{
}

/// Where the parts of a record stand in its slot of 0x9000 bytes: a zero, the kind, the
/// identifier, the length of the value, its check, the revision, the value, and zeros up
/// to the end.
pub proof fn record_is_laid_out(key: Key, value: Seq<u8>, revision: u64)
    requires
        1 <= value.len() <= 0x8000,
    ensures
        ({
            let raw = record_bytes(key, value, revision);
            &&& raw.len() == 0x9000
            &&& raw[0] == 0
            &&& raw[1] == key.kind
            &&& raw.subrange(2, 18) == key.uuid@
            &&& u32_at(raw, 18) == value.len()
            &&& u32_at(raw, 22) == crc32(value)
            &&& u64_at(raw, 26) == revision
            &&& raw.subrange(34, 34 + value.len() as int) == value
            &&& forall|i: int| 34 + value.len() <= i < 0x9000 ==> raw[i] == 0
        }),
{
    broadcast use group_le;

    let raw = record_bytes(key, value, revision);
    uuid_round_trip(key.uuid);
    u64_round_trip(revision as int);
    assert(raw.subrange(2, 18) =~= key.uuid@);
    assert(raw.subrange(18, 22) =~= u32_le(value.len() as int));
    assert(raw.subrange(22, 26) =~= u32_le(crc32(value) as int));
    assert(raw.subrange(26, 34) =~= u64_le(revision as int));
    assert(raw.subrange(34, 34 + value.len() as int) =~= value);
    u32_reads_back(raw, 18, value.len() as int);
    u32_reads_back(raw, 22, crc32(value) as int);
    u64_reads_back(raw, 26, revision as int);
}

/// What a slot of the window has to say: its kind at 1, its identifier at 2, its length at
/// 18, its check at 22 and its revision at 26, and the value from 34 on. It is a record
/// where the key is valid, the length is 1 to 0x8000, and the check is that of the value.
pub proof fn slot_is_read(raw: Seq<u8>)
    ensures
        ({
            let s = described(raw);
            &&& s.used
            &&& s.key.kind == raw[1]
            &&& s.key.uuid == uuid_at(raw, 2)
            &&& s.len == u32_at(raw, 18) as u32
            &&& s.crc == u32_at(raw, 22) as u32
            &&& s.revision == u64_at(raw, 26) as u64
            &&& value_in(raw) == raw.subrange(34, 34 + s.len)
            &&& is_record(raw) <==> key_is_valid(s.key) && 1 <= s.len <= 0x8000 && crc32(
                value_in(raw),
            ) == s.crc
        }),
{
    reveal(described);
    reveal(is_record);
}

/// Of two records of one key the one of the higher revision counts, and of the same
/// revision the one in the later slot; of two slots never each counts over the other.
pub proof fn later_record_counts(window: Seq<u8>, i: int, j: int)
    requires
        record_at(window, i),
        record_at(window, j),
        slot_at(window, i).key == slot_at(window, j).key,
    ensures
        slot_at(window, j).revision > slot_at(window, i).revision ==> supersedes(window, j, i)
            && !supersedes(window, i, j),
        slot_at(window, j).revision == slot_at(window, i).revision && j > i ==> supersedes(
            window,
            j,
            i,
        ) && !supersedes(window, i, j),
        !supersedes(window, i, i),
{
}

/// The slots of the window are 0x9000 bytes apart, and the highest revision of all records
/// is where numbering goes on.
pub proof fn revisions_go_on(window: Seq<u8>, n: int, i: int)
    requires
        0 <= i < n,
    ensures
        raw_slot(window, i) == window.subrange(0x9000 * i, 0x9000 * (i + 1)),
        record_at(window, i) ==> slot_at(window, i).revision <= top_revision(window, n),
        top_revision(window, n) == 0 || exists|k: int|
            0 <= k < n && #[trigger] record_at(window, k) && slot_at(window, k).revision
                == top_revision(window, n),
    decreases n,
{
    if record_at(window, i) {
        top_revision_bounds(window, n, i);
    }
    if top_revision(window, n) != 0 {
        if record_at(window, n - 1) && slot_at(window, n - 1).revision > top_revision(
            window,
            n - 1,
        ) {
            assert(record_at(window, n - 1) && slot_at(window, n - 1).revision == top_revision(
                window,
                n,
            ));
        } else if n > 1 {
            revisions_go_on(window, n - 1, 0);
        }
    }
}

/// A new key takes the second free slot and leaves the first; a key that has a record takes
/// the first.
pub proof fn free_slots_are_taken(slots: Seq<Slot>, key: Key, i: int, j: int)
    requires
        0 <= i < j < slots.len(),
        !slots[i].used,
        !slots[j].used,
        forall|k: int| 0 <= k < j && k != i ==> (#[trigger] slots[k]).used,
    ensures
        has_key(slots, key) ==> fresh_slot(slots, key) == Some(i),
        !has_key(slots, key) ==> fresh_slot(slots, key) == Some(j),
{
    free_slot_is(slots, 0, 0, i);
    free_slot_is(slots, 0, i + 1, j);
    skipped_free_slot(slots, 0, i, j);
}

proof fn free_slot_is(slots: Seq<Slot>, skip: nat, from: int, at: int)
    requires
        0 <= from <= at < slots.len(),
        !slots[at].used,
        skip == 0,
        forall|k: int| from <= k < at ==> (#[trigger] slots[k]).used,
    ensures
        nth_free(slots, skip, from) == Some(at),
    decreases at - from,
{
    if from < at {
        free_slot_is(slots, skip, from + 1, at);
    }
}

proof fn skipped_free_slot(slots: Seq<Slot>, from: int, i: int, j: int)
    requires
        0 <= from <= i < j < slots.len(),
        !slots[i].used,
        forall|k: int| from <= k < i ==> (#[trigger] slots[k]).used,
        nth_free(slots, 0, i + 1) == Some(j),
    ensures
        nth_free(slots, 1, from) == Some(j),
    decreases i - from,
{
    if from < i {
        skipped_free_slot(slots, from + 1, i, j);
    }
}

/// A full store takes nothing, and one with a single free slot takes replacements alone.
pub proof fn full_store_takes_nothing(slots: Seq<Slot>, key: Key, i: int)
    requires
        0 <= i < slots.len(),
        forall|k: int| 0 <= k < slots.len() && k != i ==> (#[trigger] slots[k]).used,
    ensures
        slots[i].used ==> fresh_slot(slots, key) is None,
        !slots[i].used && !has_key(slots, key) ==> fresh_slot(slots, key) is None,
        !slots[i].used && has_key(slots, key) ==> fresh_slot(slots, key) == Some(i),
{
    no_free_slot(slots, 0, i + 1);
    no_free_slot(slots, 1, i + 1);
    if slots[i].used {
        no_free_slot(slots, 0, 0);
        no_free_slot(slots, 1, 0);
    } else {
        free_slot_is(slots, 0, 0, i);
        lone_free_slot(slots, 0, i);
    }
}

proof fn no_free_slot(slots: Seq<Slot>, skip: nat, from: int)
    requires
        0 <= from,
        forall|k: int| from <= k < slots.len() ==> (#[trigger] slots[k]).used,
    ensures
        nth_free(slots, skip, from) is None,
    decreases slots.len() - from,
{
    if from < slots.len() {
        no_free_slot(slots, skip, from + 1);
    }
}

proof fn lone_free_slot(slots: Seq<Slot>, from: int, i: int)
    requires
        0 <= from <= i < slots.len(),
        !slots[i].used,
        forall|k: int| from <= k < i ==> (#[trigger] slots[k]).used,
        nth_free(slots, 0, i + 1) is None,
    ensures
        nth_free(slots, 1, from) is None,
    decreases i - from,
{
    if from < i {
        lone_free_slot(slots, from + 1, i);
    }
}

/// Why a value is not stored, in this order: the store may not be written, the key is not
/// valid or the value empty or above 0x8000 bytes, there is no room, or the revisions have
/// run out.
pub proof fn writes_are_refused(s: StoreView, key: Key, value: Seq<u8>)
    ensures
        !s.writes_enabled ==> write_error(s, key, value) == Some(Errno::EROFS),
        s.writes_enabled && !key_is_valid(key) ==> write_error(s, key, value) == Some(
            Errno::EINVAL,
        ),
        s.writes_enabled && value.len() == 0 ==> write_error(s, key, value) == Some(Errno::EINVAL),
        s.writes_enabled && value.len() > 0x8000 ==> write_error(s, key, value) == Some(
            Errno::EINVAL,
        ),
        s.writes_enabled && key_is_valid(key) && 0 < value.len() <= 0x8000 && fresh_slot(
            s.slots,
            key,
        ) is None ==> write_error(s, key, value) == Some(Errno::ENOSPC),
        s.writes_enabled && s.revision == u64::MAX ==> write_error(s, key, value) is Some,
        s.writes_enabled && key_is_valid(key) && 0 < value.len() <= 0x8000 && fresh_slot(
            s.slots,
            key,
        ) is Some && s.revision < u64::MAX ==> write_error(s, key, value) is None,
{
}

/// A plan writes the record of its value under the revision behind the highest, and erases
/// the slot that the key had, if it had one.
pub proof fn plans_are_for_their_value(s: StoreView, key: Key, value: Seq<u8>, plan: WritePlan)
    requires
        plans(s, key, value, plan),
        s.revision < u64::MAX,
        value.len() <= 0x8000,
    ensures
        plan.raw@ == record_bytes(key, value, (s.revision + 1) as u64),
        plan.record.revision == s.revision + 1,
        plan.record.key == key,
        plan.record.len == value.len(),
        plan.record.crc == crc32(value),
        plan.record.used,
        plan.old is Some <==> has_key(s.slots, key),
        plan.old matches Some(o) ==> s.slots[o as int].holds(key) && o != plan.slot,
{
    if let Some(o) = plan.old {
        assert(s.slots[o as int].holds(key));
    }
}

/// Once a plan was carried out, its slot has the new record, the old slot is free, and all
/// others are as they were.
pub proof fn plan_is_taken_in(slots: Seq<Slot>, at: int, record: Slot, o: int, i: int)
    requires
        0 <= at < slots.len(),
        0 <= o < slots.len(),
        0 <= i < slots.len(),
        at != o,
    ensures
        replaced(slots, at, record, Some(o))[at] == record,
        !replaced(slots, at, record, Some(o))[o].used,
        i != at && i != o ==> replaced(slots, at, record, Some(o))[i] == slots[i],
        replaced(slots, at, record, None) == slots.update(at, record),
{
}

/// A window has 0x600000 bytes from a block of 0x1000 bytes on.
pub proof fn windows_are_judged(size: u64, base: u64)
    ensures
        window_fits(size, base) <==> base % 4096 == 0 && base + 0x60_0000 <= size,
{
}

/// What is erased before a store is written: a slot whose second byte is not zero and which
/// the index has free.
pub proof fn strays_are_erased(slots: Seq<Slot>, window: Seq<u8>, i: int)
    requires
        0 <= i,
        0x9000 * (i + 1) <= window.len(),
    ensures
        slots[i].used ==> !needs_repair(slots, window, i),
        window[0x9000 * i + 1] == 0 ==> !needs_repair(slots, window, i),
        !slots[i].used && window[0x9000 * i + 1] != 0 ==> needs_repair(slots, window, i),
{
    assert(raw_slot(window, i)[1] == window[0x9000 * i + 1]);
}

/// A record that is read has to be the one that the index has: with another key, length,
/// check or revision, or a value that the check is not of, it is not.
pub proof fn reread_record_is_judged(slot: Slot, key: Key, raw: Seq<u8>)
    ensures
        ({
            let d = described(raw);
            &&& d.key != key ==> !still_there(slot, key, raw)
            &&& d.len != slot.len ==> !still_there(slot, key, raw)
            &&& d.len > 0x8000 ==> !still_there(slot, key, raw)
            &&& d.crc != slot.crc ==> !still_there(slot, key, raw)
            &&& d.revision != slot.revision ==> !still_there(slot, key, raw)
            &&& crc32(value_in(raw)) != d.crc ==> !still_there(slot, key, raw)
            &&& is_record(raw) && slot == d ==> still_there(slot, d.key, raw)
        }),
{
    reveal(is_record);
}

/// What is counted in a scan: a slot that is not empty and no record is malformed, a record
/// whose key an earlier slot has is a duplicate, and each counts once.
pub proof fn records_are_counted(window: Seq<u8>, n: int)
    requires
        0 <= n,
    ensures
        malformed_count(window, n + 1) - malformed_count(window, n) == if raw_slot(window, n)[1]
            != 0 && !record_at(window, n) {
            1int
        } else {
            0
        },
        malformed_count(window, 0) == 0 && duplicate_count(window, 0) == 0,
        record_at(window, n) && (exists|j: int|
            0 <= j < n && #[trigger] record_at(window, j) && slot_at(window, j).key == slot_at(
                window,
                n,
            ).key) ==> duplicate_count(window, n + 1) == duplicate_count(window, n) + 1,
        !record_at(window, n) ==> duplicate_count(window, n + 1) == duplicate_count(window, n),
        (forall|j: int|
            0 <= j < n && #[trigger] record_at(window, j) ==> slot_at(window, j).key != slot_at(
                window,
                n,
            ).key) ==> duplicate_count(window, n + 1) == duplicate_count(window, n),
{
}

/// How many slots of an index are used: one more with a used one behind, as many with a
/// free one.
pub proof fn used_slots_are_counted(slots: Seq<Slot>, s: Slot)
    ensures
        used_count(Seq::empty()) == 0,
        s.used ==> used_count(slots.push(s)) == used_count(slots) + 1,
        !s.used ==> used_count(slots.push(s)) == used_count(slots),
        !free_slot().used && free_slot().key.kind == 0 && free_slot().len == 0,
        free_slot().crc == 0 && free_slot().revision == 0,
{
    assert(slots.push(s).drop_last() =~= slots);
}

} // verus!
