//! The fingerprint device as programs see it: what is enrolled, the operation
//! that is under way, and the token that a match leaves.

use crate::bytes::{array_at, group_le, put_bytes, put_u32, read_u32, same_array, u32_at, u32_le};
use crate::errno::Errno;
use crate::sbio::IdentityV1;
use crate::uuid::{uuid_at, uuid_at_subrange, uuid_round_trip, Uuid};
use vstd::prelude::*;

verus! {

pub const IFACE_VERSION: u32 = 4;

pub const ENROL_USER_ID: i32 = 1000;

pub const LABEL_LEN: usize = 128;

pub const NONCE_LEN: usize = 32;

pub const TOKEN_LEN: usize = 32;

pub const MAX_IDENTITIES: usize = 32;

pub const DEVICE_MODE: u16 = 0o600;

pub const ENROL_STAGES: u32 = 8;

pub const TOKEN_LIFETIME_NS: u64 = 10_000_000_000;

pub const SUSPEND_SLACK_NS: u64 = 1_000_000;

pub const STATUS_LOCAL: u32 = 0;

/// The private kind under which the index is stored.
pub const PRIVATE_TYPE_IDENTITIES: u8 = 0xF1;

pub const INDEX_FORMAT: u32 = 2;

/// An enrolled finger and the name that the user gave it.
#[derive(Clone, Copy)]
pub struct Identity {
    pub uuid: Uuid,
    pub label: [u8; 128],
}

pub const IDENTITY_LEN: usize = 144;

pub open spec fn identity_bytes(id: Identity) -> Seq<u8> {
    id.uuid@ + id.label@
}

/// The first `n` entries, one behind the other.
pub open spec fn entries_bytes(entries: Seq<Identity>, n: int) -> Seq<u8>
    decreases n,
{
    if n <= 0 {
        Seq::empty()
    } else {
        entries_bytes(entries, n - 1) + identity_bytes(entries[n - 1])
    }
}

/// The index as it is stored.
pub open spec fn index_bytes(entries: Seq<Identity>) -> Seq<u8> {
    u32_le(INDEX_FORMAT as int) + u32_le(entries.len() as int) + entries_bytes(
        entries,
        entries.len() as int,
    )
}

/// How many entries stored bytes hold: as many as they announce, as are ever
/// kept, and as are there whole.
pub open spec fn entry_count(raw: Seq<u8>) -> int {
    let announced = u32_at(raw, 4);
    let kept = if announced < MAX_IDENTITIES {
        announced
    } else {
        MAX_IDENTITIES as int
    };
    let whole = (raw.len() - 8) / 144;
    if kept < whole {
        kept
    } else {
        whole
    }
}

/// Whether `e` is the entry with number `i`.
pub open spec fn is_entry(raw: Seq<u8>, i: int, e: Identity) -> bool {
    &&& e.uuid == uuid_at(raw, 8 + 144 * i)
    &&& e.label@ == raw.subrange(24 + 144 * i, 152 + 144 * i)
}

/// Whether stored bytes stand for these entries. Too few bytes stand for none.
pub open spec fn holds(raw: Seq<u8>, entries: Seq<Identity>) -> bool {
    if raw.len() < 8 {
        entries.len() == 0
    } else {
        &&& entries.len() == entry_count(raw)
        &&& forall|i: int|
            0 <= i < entries.len() ==> is_entry(raw, i, #[trigger] entries[i])
    }
}

pub open spec fn readable(raw: Seq<u8>) -> bool {
    raw.len() >= 4 ==> u32_at(raw, 0) == INDEX_FORMAT
}

/// Whether a finger is among the entries.
pub open spec fn held(entries: Seq<Identity>, uuid: Uuid) -> bool {
    exists|i: int| 0 <= i < entries.len() && (#[trigger] entries[i]).uuid == uuid
}

/// Where the finger stands first, or the number of entries.
pub open spec fn place(entries: Seq<Identity>, uuid: Uuid, from: int) -> int
    decreases entries.len() - from,
{
    if from >= entries.len() {
        entries.len() as int
    } else if entries[from].uuid == uuid {
        from
    } else {
        place(entries, uuid, from + 1)
    }
}

/// The entries with one put in place of the first of the same finger, or at the
/// end.
pub open spec fn with(entries: Seq<Identity>, id: Identity) -> Seq<Identity> {
    let at = place(entries, id.uuid, 0);
    if at < entries.len() {
        entries.update(at, id)
    } else {
        entries.push(id)
    }
}

/// The entries that are not of this finger.
pub open spec fn without(entries: Seq<Identity>, uuid: Uuid) -> Seq<Identity>
    decreases entries.len(),
{
    if entries.len() == 0 {
        Seq::empty()
    } else if entries.last().uuid == uuid {
        without(entries.drop_last(), uuid)
    } else {
        without(entries.drop_last(), uuid).push(entries.last())
    }
}

/// The entries whose finger is listed.
pub open spec fn listed_ones(entries: Seq<Identity>, listed: Seq<Uuid>) -> Seq<Identity>
    decreases entries.len(),
{
    if entries.len() == 0 {
        Seq::empty()
    } else if listed.contains(entries.last().uuid) {
        listed_ones(entries.drop_last(), listed).push(entries.last())
    } else {
        listed_ones(entries.drop_last(), listed)
    }
}

/// The fingers of the entries whose finger is not listed.
pub open spec fn unlisted(entries: Seq<Identity>, listed: Seq<Uuid>) -> Seq<Uuid>
    decreases entries.len(),
{
    if entries.len() == 0 {
        Seq::empty()
    } else if listed.contains(entries.last().uuid) {
        unlisted(entries.drop_last(), listed)
    } else {
        unlisted(entries.drop_last(), listed).push(entries.last().uuid)
    }
}

/// A finger without a name: the label is all zeros.
pub open spec fn unnamed(uuid: Uuid) -> Identity {
    Identity { uuid, label: vstd::array::spec_array_fill_for_copy_type::<u8, 128>(0) }
}

/// The entries with the first `n` listed fingers taken in that are not there
/// yet, and whether there was room for all of them. The first for which there
/// is none ends it.
pub open spec fn taken_in(entries: Seq<Identity>, listed: Seq<Uuid>, n: int) -> (
    Seq<Identity>,
    bool,
)
    decreases n,
{
    if n <= 0 {
        (entries, true)
    } else {
        let (e, fits) = taken_in(entries, listed, n - 1);
        if !fits || held(e, listed[n - 1]) {
            (e, fits)
        } else if e.len() >= MAX_IDENTITIES {
            (e, false)
        } else {
            (e.push(unnamed(listed[n - 1])), true)
        }
    }
}

/// The entries brought in line with what is listed, and whether there was room.
pub open spec fn reconciled(entries: Seq<Identity>, listed: Seq<Uuid>) -> (Seq<Identity>, bool) {
    taken_in(listed_ones(entries, listed), listed, listed.len() as int)
}

/// What the host knows of the enrolled fingers.
pub struct IdentityIndex {
    entries: Vec<Identity>,
}

proof fn entries_len(entries: Seq<Identity>, n: int)
    requires
        0 <= n <= entries.len(),
    ensures
        entries_bytes(entries, n).len() == 144 * n,
    decreases n,
{
    broadcast use group_le;

    if n > 0 {
        entries_len(entries, n - 1);
    }
}

proof fn entry_at(entries: Seq<Identity>, n: int, i: int)
    requires
        0 <= i < n <= entries.len(),
    ensures
        entries_bytes(entries, n).len() == 144 * n,
        entries_bytes(entries, n).subrange(144 * i, 144 * i + 144) == identity_bytes(entries[i]),
    decreases n,
{
    broadcast use group_le;

    entries_len(entries, n);
    entries_len(entries, n - 1);
    let all = entries_bytes(entries, n);
    if i == n - 1 {
        assert(all.subrange(144 * i, 144 * i + 144) =~= identity_bytes(entries[i]));
    } else {
        entry_at(entries, n - 1, i);
        assert(all.subrange(144 * i, 144 * i + 144) =~= entries_bytes(entries, n - 1).subrange(
            144 * i,
            144 * i + 144,
        ));
    }
}

/// Loading what was saved gives the entries back.
pub proof fn load_gives_back_save(entries: Seq<Identity>)
    requires
        entries.len() <= MAX_IDENTITIES,
    ensures
        readable(index_bytes(entries)),
        holds(index_bytes(entries), entries),
        forall|other: Seq<Identity>| holds(index_bytes(entries), other) ==> other == entries,
{
    broadcast use group_le;

    let n = entries.len() as int;
    let raw = index_bytes(entries);
    entries_len(entries, n);
    assert(u32_at(raw, 0) == u32_at(u32_le(INDEX_FORMAT as int), 0));
    assert(u32_at(raw, 4) == u32_at(u32_le(n), 0));
    assert(raw.len() == 8 + 144 * n);
    assert(entry_count(raw) == n);
    assert forall|i: int| 0 <= i < n implies is_entry(raw, i, #[trigger] entries[i]) by {
        entry_at(entries, n, i);
        let part = identity_bytes(entries[i]);
        assert(raw.subrange(8 + 144 * i, 152 + 144 * i) =~= entries_bytes(entries, n).subrange(
            144 * i,
            144 * i + 144,
        ));
        uuid_at_subrange(raw, 8 + 144 * i, 152 + 144 * i, 0);
        uuid_round_trip(entries[i].uuid);
        assert(part.subrange(0, 16) =~= entries[i].uuid@);
        uuid_at_subrange(part, 0, 16, 0);
        assert(raw.subrange(24 + 144 * i, 152 + 144 * i) =~= part.subrange(16, 144));
        assert(part.subrange(16, 144) =~= entries[i].label@);
    }
    assert forall|other: Seq<Identity>| holds(raw, other) implies other == entries by {
        assert forall|i: int| 0 <= i < n implies other[i] == entries[i] by {
            assert(is_entry(raw, i, other[i]));
            assert(is_entry(raw, i, entries[i]));
            same_array(other[i].label, entries[i].label);
        }
        assert(other =~= entries);
    }
}

proof fn place_found(entries: Seq<Identity>, uuid: Uuid, from: int)
    requires
        0 <= from <= entries.len(),
    ensures
        from <= place(entries, uuid, from) <= entries.len(),
        place(entries, uuid, from) < entries.len() ==> entries[place(entries, uuid, from)].uuid
            == uuid,
        forall|i: int|
            from <= i < place(entries, uuid, from) ==> (#[trigger] entries[i]).uuid != uuid,
    decreases entries.len() - from,
{
    if from < entries.len() && entries[from].uuid != uuid {
        place_found(entries, uuid, from + 1);
    }
}

fn is_listed(listed: &Vec<Uuid>, uuid: &Uuid) -> (r: bool)
    ensures
        r == listed@.contains(*uuid),
{
    let mut i: usize = 0;
    while i < listed.len()
        invariant
            i <= listed.len(),
            forall|j: int| 0 <= j < i ==> listed@[j] != *uuid,
        decreases listed.len() - i,
    {
        if listed[i] == *uuid {
            assert(listed@[i as int] == *uuid);
            return true;
        }
        i = i + 1;
    }
    false
}

impl IdentityIndex {
    pub closed spec fn view(&self) -> Seq<Identity> {
        self.entries@
    }

    /// There is room for only so many.
    pub open spec fn wf(&self) -> bool {
        self@.len() <= MAX_IDENTITIES
    }

    pub fn new() -> (x: IdentityIndex)
        ensures
            x.wf(),
            x@ == Seq::<Identity>::empty(),
    {
        IdentityIndex { entries: Vec::new() }
    }

    /// Takes in what the store holds, if it holds anything. A format that is
    /// not known is an error.
    pub fn load(stored: Result<Option<Vec<u8>>, Errno>) -> (r: Result<IdentityIndex, Errno>)
        ensures
            match stored {
                Err(e) => r is Err && r->Err_0 == e,
                Ok(None) => r is Ok && (r->Ok_0).wf() && (r->Ok_0)@ == Seq::<Identity>::empty(),
                Ok(Some(raw)) => match r {
                    Ok(x) => readable(raw@) && x.wf() && holds(raw@, x@),
                    Err(e) => !readable(raw@) && e == Errno::EINVAL,
                },
            },
    {
        let raw: Vec<u8> = match stored {
            Err(e) => {
                return Err(e);
            },
            Ok(None) => {
                return Ok(IdentityIndex::new());
            },
            Ok(Some(raw)) => raw,
        };
        if raw.len() < 4 {
            return Ok(IdentityIndex::new());
        }
        if read_u32(&raw, 0) != INDEX_FORMAT {
            return Err(Errno::EINVAL);
        }
        if raw.len() < 8 {
            return Ok(IdentityIndex::new());
        }
        let announced: u32 = read_u32(&raw, 4);
        let kept: usize = if announced < MAX_IDENTITIES as u32 {
            announced as usize
        } else {
            MAX_IDENTITIES
        };
        let whole: usize = (raw.len() - 8) / IDENTITY_LEN;
        let count: usize = if kept < whole {
            kept
        } else {
            whole
        };
        let mut entries: Vec<Identity> = Vec::new();
        let mut i: usize = 0;
        while i < count
            invariant
                i <= count <= MAX_IDENTITIES,
                8 + 144 * count <= raw.len(),
                entries.len() == i,
                forall|j: int| 0 <= j < i ==> is_entry(raw@, j, #[trigger] entries@[j]),
            decreases count - i,
        {
            let at: usize = 8 + i * IDENTITY_LEN;
            let uuid = Uuid::read(&raw, at);
            let label: [u8; 128] = array_at(&raw, at + 16);
            entries.push(Identity { uuid, label });
            i = i + 1;
        }
        Ok(IdentityIndex { entries })
    }

    pub fn put_entries(&self, out: &mut Vec<u8>)
        ensures
            final(out)@ == old(out)@ + entries_bytes(self@, self@.len() as int),
    {
        let mut i: usize = 0;
        while i < self.entries.len()
            invariant
                i <= self.entries.len(),
                out@ == old(out)@ + entries_bytes(self@, i as int),
            decreases self.entries.len() - i,
        {
            self.entries[i].uuid.put(out);
            put_bytes(out, self.entries[i].label.as_slice());
            i = i + 1;
            assert(out@ =~= old(out)@ + entries_bytes(self@, i as int));
        }
    }

    /// The bytes that the store is to hold.
    pub fn persist(&self) -> (raw: Vec<u8>)
        requires
            self.wf(),
        ensures
            raw@ == index_bytes(self@),
    {
        let mut raw: Vec<u8> = Vec::new();
        put_u32(&mut raw, INDEX_FORMAT);
        put_u32(&mut raw, self.entries.len() as u32);
        self.put_entries(&mut raw);
        assert(raw@ =~= index_bytes(self@));
        raw
    }

    pub fn total(&self) -> (n: usize)
        ensures
            n == self@.len(),
    {
        self.entries.len()
    }

    pub fn entry(&self, i: usize) -> (e: &Identity)
        requires
            i < self@.len(),
        ensures
            *e == self@[i as int],
    {
        &self.entries[i]
    }

    /// Takes a finger in, in place of what is known of it. A new one needs room.
    pub fn insert(&mut self, id: Identity) -> (r: Result<(), Errno>)
        requires
            old(self).wf(),
        ensures
            final(self).wf(),
            match r {
                Ok(_) => {
                    &&& held(old(self)@, id.uuid) || old(self)@.len() < MAX_IDENTITIES
                    &&& final(self)@ == with(old(self)@, id)
                },
                Err(e) => {
                    &&& e == Errno::ENOSPC
                    &&& !held(old(self)@, id.uuid) && old(self)@.len() >= MAX_IDENTITIES
                    &&& final(self)@ == old(self)@
                },
            },
    {
        let mut i: usize = 0;
        while i < self.entries.len()
            invariant
                i <= self.entries.len(),
                *self == *old(self),
                place(self@, id.uuid, 0) == place(self@, id.uuid, i as int),
                forall|j: int| 0 <= j < i ==> (#[trigger] self@[j]).uuid != id.uuid,
                self.wf(),
            decreases self.entries.len() - i,
        {
            if self.entries[i].uuid == id.uuid {
                assert(held(self@, id.uuid)) by {
                    assert(self@[i as int].uuid == id.uuid);
                }
                self.entries.set(i, id);
                return Ok(());
            }
            i = i + 1;
        }
        if self.entries.len() >= MAX_IDENTITIES {
            return Err(Errno::ENOSPC);
        }
        self.entries.push(id);
        Ok(())
    }

    /// How the endpoint is told of a finger that is known.
    pub fn identity_v1_for(&self, uuid: &Uuid, user_id: i32) -> (r: Option<IdentityV1>)
        ensures
            r == (if held(self@, *uuid) {
                Some(IdentityV1 { user_id, uuid: *uuid })
            } else {
                None
            }),
    {
        if !self.contains_uuid(uuid) {
            return None;
        }
        Some(IdentityV1::from_index(user_id, *uuid))
    }

    /// Brings the index in line with what is listed. Gives the fingers that
    /// were dropped. If there is no room for all that are new, those that fit
    /// are in and it is an error.
    pub fn reconcile_to(&mut self, listed: &Vec<Uuid>) -> (r: Result<Vec<Uuid>, Errno>)
        requires
            old(self).wf(),
        ensures
            final(self).wf(),
            final(self)@ == reconciled(old(self)@, listed@).0,
            match r {
                Ok(dropped) => {
                    &&& reconciled(old(self)@, listed@).1
                    &&& dropped@ == unlisted(old(self)@, listed@)
                },
                Err(e) => !reconciled(old(self)@, listed@).1 && e == Errno::ENOSPC,
            },
    {
        let mut dropped: Vec<Uuid> = Vec::new();
        let mut kept: Vec<Identity> = Vec::new();
        let mut i: usize = 0;
        while i < self.entries.len()
            invariant
                i <= self.entries.len(),
                *self == *old(self),
                self.wf(),
                kept.len() <= i,
                dropped@ == unlisted(self@.subrange(0, i as int), listed@),
                kept@ == listed_ones(self@.subrange(0, i as int), listed@),
            decreases self.entries.len() - i,
        {
            let entry = self.entries[i];
            assert(self@.subrange(0, i + 1).drop_last() =~= self@.subrange(0, i as int));
            if is_listed(listed, &entry.uuid) {
                kept.push(entry);
            } else {
                dropped.push(entry.uuid);
            }
            i = i + 1;
        }
        assert(self@.subrange(0, i as int) =~= self@);
        self.entries = kept;
        let ghost start = self@;
        let mut j: usize = 0;
        while j < listed.len()
            invariant
                j <= listed.len(),
                self.wf(),
                start == listed_ones(old(self)@, listed@),
                taken_in(start, listed@, j as int) == (self@, true),
            decreases listed.len() - j,
        {
            let uuid = listed[j];
            if !self.contains_uuid(&uuid) {
                let ghost before = self@;
                proof {
                    place_found(before, uuid, 0);
                }
                if self.insert(Identity { uuid, label: [0u8; 128] }).is_err() {
                    proof {
                        never_again(start, listed@, j + 1, listed@.len() as int);
                    }
                    return Err(Errno::ENOSPC);
                }
                assert(self@ =~= before.push(unnamed(uuid)));
            }
            j = j + 1;
        }
        Ok(dropped)
    }

    pub fn remove(&mut self, uuid: &Uuid)
        requires
            old(self).wf(),
        ensures
            final(self).wf(),
            final(self)@ == without(old(self)@, *uuid),
    {
        let mut kept: Vec<Identity> = Vec::new();
        let mut i: usize = 0;
        while i < self.entries.len()
            invariant
                i <= self.entries.len(),
                *self == *old(self),
                self.wf(),
                kept.len() <= i,
                kept@ == without(self@.subrange(0, i as int), *uuid),
            decreases self.entries.len() - i,
        {
            let entry = self.entries[i];
            assert(self@.subrange(0, i + 1).drop_last() =~= self@.subrange(0, i as int));
            if entry.uuid != *uuid {
                kept.push(entry);
            }
            i = i + 1;
        }
        assert(self@.subrange(0, i as int) =~= self@);
        self.entries = kept;
    }

    pub fn contains_uuid(&self, uuid: &Uuid) -> (r: bool)
        ensures
            r == held(self@, *uuid),
    {
        let mut i: usize = 0;
        while i < self.entries.len()
            invariant
                i <= self.entries.len(),
                forall|j: int| 0 <= j < i ==> (#[trigger] self@[j]).uuid != *uuid,
            decreases self.entries.len() - i,
        {
            if self.entries[i].uuid == *uuid {
                assert(self@[i as int].uuid == *uuid);
                return true;
            }
            i = i + 1;
        }
        false
    }
}

/// The index to start with: what was loaded. Without a store, and where what it
/// holds cannot be read, there are no fingers.
pub fn index_or_empty(loaded: Option<Result<IdentityIndex, Errno>>) -> (x: IdentityIndex)
    ensures
        match loaded {
            Some(Ok(index)) => x == index,
            _ => x.wf() && x@ == Seq::<Identity>::empty(),
        },
{
    match loaded {
        Some(Ok(index)) => index,
        _ => IdentityIndex::new(),
    }
}

proof fn never_again(entries: Seq<Identity>, listed: Seq<Uuid>, from: int, to: int)
    requires
        !taken_in(entries, listed, from).1,
        from <= to,
    ensures
        taken_in(entries, listed, to) == taken_in(entries, listed, from),
    decreases to - from,
{
    if from < to {
        never_again(entries, listed, from, to - 1);
    }
}

proof fn kept_are_listed(entries: Seq<Identity>, listed: Seq<Uuid>)
    ensures
        forall|u: Uuid|
            #![trigger held(listed_ones(entries, listed), u)]
            held(listed_ones(entries, listed), u) == (held(entries, u) && listed.contains(u)),
    decreases entries.len(),
{
    if entries.len() > 0 {
        let rest = entries.drop_last();
        let last = entries.last();
        kept_are_listed(rest, listed);
        assert forall|u: Uuid|
            #![trigger held(listed_ones(entries, listed), u)]
            held(listed_ones(entries, listed), u) == (held(entries, u) && listed.contains(u)) by {
            let a = listed_ones(rest, listed);
            held_push(rest, last, u);
            assert(rest.push(last) =~= entries);
            held_push(a, last, u);
            assert(held(a, u) == (held(rest, u) && listed.contains(u)));
        }
    }
}

proof fn held_push(entries: Seq<Identity>, e: Identity, u: Uuid)
    ensures
        held(entries.push(e), u) == (held(entries, u) || e.uuid == u),
{
    let all = entries.push(e);
    if held(entries, u) {
        let i = choose|i: int| 0 <= i < entries.len() && (#[trigger] entries[i]).uuid == u;
        assert(all[i].uuid == u);
    }
    if e.uuid == u {
        assert(all[entries.len() as int].uuid == u);
    }
    if held(all, u) {
        let i = choose|i: int| 0 <= i < all.len() && (#[trigger] all[i]).uuid == u;
        if i < entries.len() {
            assert(entries[i].uuid == u);
        }
    }
}

proof fn taken_in_holds(entries: Seq<Identity>, listed: Seq<Uuid>, n: int)
    requires
        0 <= n <= listed.len(),
        taken_in(entries, listed, n).1,
    ensures
        forall|u: Uuid|
            #![trigger held(taken_in(entries, listed, n).0, u)]
            held(taken_in(entries, listed, n).0, u) == (held(entries, u) || listed.subrange(
                0,
                n,
            ).contains(u)),
        entries.is_prefix_of(taken_in(entries, listed, n).0),
    decreases n,
{
    if n > 0 {
        taken_in_holds(entries, listed, n - 1);
        let e = taken_in(entries, listed, n - 1).0;
        let now = taken_in(entries, listed, n).0;
        let x = listed[n - 1];
        let seen = listed.subrange(0, n - 1);
        assert(listed.subrange(0, n) =~= seen.push(x));
        assert forall|u: Uuid|
            #![trigger held(now, u)]
            held(now, u) == (held(entries, u) || listed.subrange(0, n).contains(u)) by {
            assert(held(e, u) == (held(entries, u) || seen.contains(u)));
            assert(seen.push(x).contains(u) == (seen.contains(u) || u == x)) by {
                if seen.contains(u) {
                    let i = choose|i: int| 0 <= i < seen.len() && seen[i] == u;
                    assert(seen.push(x)[i] == u);
                }
                assert(seen.push(x)[seen.len() as int] == x);
                if seen.push(x).contains(u) && u != x {
                    let i = choose|i: int| 0 <= i < seen.push(x).len() && seen.push(x)[i] == u;
                    assert(seen[i] == u);
                }
            }
            if !held(e, x) {
                held_push(e, unnamed(x), u);
            }
        }
    } else {
        assert(listed.subrange(0, 0).len() == 0);
    }
}

/// After a reconciliation that had room the index holds the listed fingers and
/// no others, and those that it held before keep their entries and their order.
pub proof fn reconciled_matches_listed(entries: Seq<Identity>, listed: Seq<Uuid>)
    requires
        reconciled(entries, listed).1,
    ensures
        forall|u: Uuid| held(reconciled(entries, listed).0, u) == listed.contains(u),
        listed_ones(entries, listed).is_prefix_of(reconciled(entries, listed).0),
{
    kept_are_listed(entries, listed);
    taken_in_holds(listed_ones(entries, listed), listed, listed.len() as int);
    assert(listed.subrange(0, listed.len() as int) =~= listed);
}

/// A finger that was removed is gone, and no other is.
pub proof fn removed_is_gone(entries: Seq<Identity>, uuid: Uuid, other: Uuid)
    ensures
        held(without(entries, uuid), other) == (other != uuid && held(entries, other)),
    decreases entries.len(),
{
    if entries.len() > 0 {
        let rest = entries.drop_last();
        removed_is_gone(rest, uuid, other);
        assert(rest.push(entries.last()) =~= entries);
        held_push(rest, entries.last(), other);
        held_push(without(rest, uuid), entries.last(), other);
    }
}

/// A finger that was taken in is there, under its new name, and no other finger
/// came or went.
pub proof fn inserted_is_held(entries: Seq<Identity>, id: Identity, other: Uuid)
    ensures
        held(with(entries, id), other) == (other == id.uuid || held(entries, other)),
        with(entries, id).contains(id),
{
    let at = place(entries, id.uuid, 0);
    place_found(entries, id.uuid, 0);
    let all = with(entries, id);
    if at < entries.len() {
        assert(all[at] == id);
        if held(entries, other) {
            let i = choose|i: int| 0 <= i < entries.len() && (#[trigger] entries[i]).uuid == other;
            if i != at {
                assert(all[i].uuid == other);
            } else {
                assert(all[at].uuid == other);
            }
        }
        if other == id.uuid {
            assert(all[at].uuid == other);
        }
        if held(all, other) {
            let i = choose|i: int| 0 <= i < all.len() && (#[trigger] all[i]).uuid == other;
            assert(entries[i].uuid == other);
        }
    } else {
        assert(all[entries.len() as int] == id);
        held_push(entries, id, other);
    }
}

/// Whether no finger stands twice among the entries.
pub open spec fn each_once(entries: Seq<Identity>) -> bool {
    forall|i: int, j: int|
        0 <= i < j < entries.len() ==> (#[trigger] entries[i]).uuid != (#[trigger] entries[j]).uuid
}

proof fn push_once(entries: Seq<Identity>, e: Identity)
    requires
        each_once(entries),
        !held(entries, e.uuid),
    ensures
        each_once(entries.push(e)),
{
    let all = entries.push(e);
    assert forall|i: int, j: int| 0 <= i < j < all.len() implies (#[trigger] all[i]).uuid != (
    #[trigger] all[j]).uuid by {
        assert(all[i] == entries[i]);
        if j < entries.len() {
            assert(all[j] == entries[j]);
        }
    }
}

/// What is left of entries stands in them once if each did.
proof fn rest_once(entries: Seq<Identity>)
    requires
        each_once(entries),
        entries.len() > 0,
    ensures
        each_once(entries.drop_last()),
        !held(entries.drop_last(), entries.last().uuid),
{
    let rest = entries.drop_last();
    assert forall|i: int, j: int| 0 <= i < j < rest.len() implies (#[trigger] rest[i]).uuid != (
    #[trigger] rest[j]).uuid by {
        assert(rest[i] == entries[i] && rest[j] == entries[j]);
    }
    if held(rest, entries.last().uuid) {
        let i = choose|i: int|
            0 <= i < rest.len() && (#[trigger] rest[i]).uuid == entries.last().uuid;
        assert(entries[i].uuid == entries[entries.len() - 1].uuid);
    }
}

proof fn removed_once(entries: Seq<Identity>, uuid: Uuid)
    requires
        each_once(entries),
    ensures
        each_once(without(entries, uuid)),
    decreases entries.len(),
{
    if entries.len() > 0 {
        let rest = entries.drop_last();
        rest_once(entries);
        removed_once(rest, uuid);
        removed_is_gone(rest, uuid, entries.last().uuid);
        if entries.last().uuid != uuid {
            push_once(without(rest, uuid), entries.last());
        }
    }
}

proof fn kept_once(entries: Seq<Identity>, listed: Seq<Uuid>)
    requires
        each_once(entries),
    ensures
        each_once(listed_ones(entries, listed)),
    decreases entries.len(),
{
    if entries.len() > 0 {
        let rest = entries.drop_last();
        rest_once(entries);
        kept_once(rest, listed);
        kept_are_listed(rest, listed);
        if listed.contains(entries.last().uuid) {
            assert(!held(listed_ones(rest, listed), entries.last().uuid));
            push_once(listed_ones(rest, listed), entries.last());
        }
    }
}

proof fn taken_in_once(entries: Seq<Identity>, listed: Seq<Uuid>, n: int)
    requires
        each_once(entries),
    ensures
        each_once(taken_in(entries, listed, n).0),
    decreases n,
{
    if n > 0 {
        taken_in_once(entries, listed, n - 1);
        let (e, fits) = taken_in(entries, listed, n - 1);
        if !held(e, listed[n - 1]) {
            push_once(e, unnamed(listed[n - 1]));
        }
    }
}

/// No finger stands twice in the index: an empty one has none twice, and neither
/// taking a finger in, nor removing one, nor bringing the index in line with a
/// list makes one stand there twice. What is saved is loaded again the same way.
pub proof fn no_finger_stands_twice(
    entries: Seq<Identity>,
    id: Identity,
    uuid: Uuid,
    listed: Seq<Uuid>,
)
    requires
        each_once(entries),
    ensures
        each_once(Seq::<Identity>::empty()),
        each_once(with(entries, id)),
        each_once(without(entries, uuid)),
        each_once(reconciled(entries, listed).0),
        entries.len() <= MAX_IDENTITIES ==> forall|loaded: Seq<Identity>| #[trigger]
            holds(index_bytes(entries), loaded) ==> each_once(loaded),
{
    place_found(entries, id.uuid, 0);
    let at = place(entries, id.uuid, 0);
    if at < entries.len() {
        let all = with(entries, id);
        assert forall|i: int, j: int| 0 <= i < j < all.len() implies (#[trigger] all[i]).uuid != (
        #[trigger] all[j]).uuid by {
            assert(all[i].uuid == entries[i].uuid);
            assert(all[j].uuid == entries[j].uuid);
        }
    } else {
        push_once(entries, id);
    }
    removed_once(entries, uuid);
    kept_once(entries, listed);
    taken_in_once(listed_ones(entries, listed), listed, listed.len() as int);
    if entries.len() <= MAX_IDENTITIES {
        load_gives_back_save(entries);
    }
}

/// An entry stands where its number says, its identifier first and its label behind.
pub proof fn entry_stands(entries: Seq<Identity>, n: int, i: int)
    requires
        0 <= i < n <= entries.len(),
    ensures
        entries_bytes(entries, n).len() == 144 * n,
        entries_bytes(entries, n).subrange(144 * i, 144 * i + 16) == entries[i].uuid@,
        entries_bytes(entries, n).subrange(144 * i + 16, 144 * i + 144) == entries[i].label@,
    decreases n,
{
    entries_len(entries, n);
    entries_len(entries, n - 1);
    crate::uuid::uuid_round_trip(entries[i].uuid);
    let all = entries_bytes(entries, n);
    let before = entries_bytes(entries, n - 1);
    if i < n - 1 {
        entry_stands(entries, n - 1, i);
        assert(all.subrange(144 * i, 144 * i + 16) =~= before.subrange(144 * i, 144 * i + 16));
        assert(all.subrange(144 * i + 16, 144 * i + 144) =~= before.subrange(
            144 * i + 16,
            144 * i + 144,
        ));
    } else {
        assert(all.subrange(144 * i, 144 * i + 16) =~= entries[i].uuid@);
        assert(all.subrange(144 * i + 16, 144 * i + 144) =~= entries[i].label@);
    }
}

/// What is told as dropped: the fingers of the entries that are not listed, and no others.
pub proof fn unlisted_are_told(entries: Seq<Identity>, listed: Seq<Uuid>, u: Uuid)
    ensures
        unlisted(entries, listed).contains(u) <==> held(entries, u) && !listed.contains(u),
    decreases entries.len(),
{
    let told = unlisted(entries, listed);
    if entries.len() > 0 {
        let rest = entries.drop_last();
        let last = entries.last().uuid;
        let before = unlisted(rest, listed);
        unlisted_are_told(rest, listed, u);
        assert(rest.push(entries.last()) =~= entries);
        held_push(rest, entries.last(), u);
        if !listed.contains(last) {
            assert(told == before.push(last));
            assert(told[before.len() as int] == last);
            if before.contains(u) {
                let i = choose|i: int| 0 <= i < before.len() && before[i] == u;
                assert(told[i] == u);
            }
            if told.contains(u) && u != last {
                let i = choose|i: int| 0 <= i < told.len() && told[i] == u;
                assert(before[i] == u);
            }
        }
    }
}

/// What is stored: eight bytes of a head, with the format and the number of entries, and
/// 144 bytes for each. Bytes for less than an entry stand for none, and no more entries
/// are taken than are announced or than are kept.
pub proof fn stored_entries_are_counted(raw: Seq<u8>)
    requires
        raw.len() >= 8,
    ensures
        entry_count(raw) <= u32_at(raw, 4),
        entry_count(raw) <= MAX_IDENTITIES,
        8 + 144 * entry_count(raw) <= raw.len(),
        u32_at(raw, 4) <= MAX_IDENTITIES && 8 + 144 * u32_at(raw, 4) <= raw.len() ==> entry_count(
            raw,
        ) == u32_at(raw, 4),
        0 <= entry_count(raw),
{
}

/// A finger that the listing brings has no name yet.
pub proof fn listed_finger_has_no_name(uuid: Uuid)
    ensures
        unnamed(uuid).uuid == uuid,
        unnamed(uuid).label@.len() == 128,
        forall|i: int| 0 <= i < 128 ==> #[trigger] unnamed(uuid).label@[i] == 0,
{
}

} // verus!
