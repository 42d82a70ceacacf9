//! The file in which the key bag is kept.
//!
//! A second bag must never be made while a stored one exists: that would strand
//! the first in the enclave for good. So the file counts as empty only where it
//! is missing or says that the enclave refused to make a bag; whatever else
//! cannot be read is an error.

use crate::bytes::{
    group_le, put_bytes, put_u16, put_u32, read_u16, read_u32, u16_at, u16_le, u32_at, u32_le,
    zeroed,
};
use crate::crc::{crc16_ccitt, crc16_ccitt_false};
use crate::errno::Errno;
use crate::image::wipe;
use crate::uuid::{uuid_at, zero_uuid, Uuid};
use vstd::prelude::*;

verus! {

pub const VERSION: u32 = 2;

/// A record of an attempt whose outcome is not known.
pub const STATE_INTENT: u32 = 0;

pub const STATE_COMMITTED: u32 = 1;

/// The enclave refused to make a bag: there is none, and another attempt is
/// allowed.
pub const STATE_REFUSED: u32 = 2;

/// The identifier is the bag's own, read back from it.
pub const STATE_COMMITTED_BAG_UUID: u32 = 3;

pub const HEADER: usize = 0x34;

pub const MAX_WRAPPED: usize = 0x8000;

/// Which bag is meant.
#[derive(Clone, Copy, Debug, PartialEq, Eq, Structural)]
pub enum Slot {
    Identity,
}

impl Slot {
    pub fn path(self) -> (p: &'static str)
        ensures
            p == "/var/lib/aurora-sep-keybag.bin",
    {
        match self {
            Slot::Identity => "/var/lib/aurora-sep-keybag.bin",
        }
    }
}

/// Where the stored identifier comes from. Only one that was generated here may
/// be repaired on a mismatch.
#[derive(Clone, Copy, Debug, PartialEq, Eq, Structural)]
pub enum UuidProvenance {
    AsGenerated,
    ReadBackFromBag,
}

impl UuidProvenance {
    pub open spec fn code(self) -> u32 {
        match self {
            UuidProvenance::AsGenerated => STATE_COMMITTED,
            UuidProvenance::ReadBackFromBag => STATE_COMMITTED_BAG_UUID,
        }
    }

    fn state(self) -> (r: u32)
        ensures
            r == self.code(),
    {
        match self {
            UuidProvenance::AsGenerated => STATE_COMMITTED,
            UuidProvenance::ReadBackFromBag => STATE_COMMITTED_BAG_UUID,
        }
    }

    fn from_state(state: u32) -> (r: Option<UuidProvenance>)
        ensures
            r == provenance_of(state),
    {
        if state == STATE_COMMITTED {
            Some(UuidProvenance::AsGenerated)
        } else if state == STATE_COMMITTED_BAG_UUID {
            Some(UuidProvenance::ReadBackFromBag)
        } else {
            None
        }
    }
}

pub open spec fn provenance_of(state: u32) -> Option<UuidProvenance> {
    if state == STATE_COMMITTED {
        Some(UuidProvenance::AsGenerated)
    } else if state == STATE_COMMITTED_BAG_UUID {
        Some(UuidProvenance::ReadBackFromBag)
    } else {
        None
    }
}

/// Leave to make a bag: the host holds none. It comes from [`read`] alone, and
/// making a bag uses it up.
pub struct NoStoredKeyBag {
    slot: Slot,
}

impl NoStoredKeyBag {
    pub closed spec fn for_slot(&self) -> Slot {
        self.slot
    }

    pub fn slot(&self) -> (s: Slot)
        ensures
            s == self.for_slot(),
    {
        self.slot
    }
}

/// A stored bag.
pub struct StoredKeyBag {
    pub wrapped: Vec<u8>,
    pub uuid: Uuid,
    pub secret: Vec<u8>,
    pub provenance: UuidProvenance,
}

impl StoredKeyBag {
    pub open spec fn view(&self) -> BagView {
        BagView {
            wrapped: self.wrapped@,
            uuid: self.uuid,
            secret: self.secret@,
            provenance: self.provenance,
        }
    }
}

#[verifier::ext_equal]
pub struct BagView {
    pub wrapped: Seq<u8>,
    pub uuid: Uuid,
    pub secret: Seq<u8>,
    pub provenance: UuidProvenance,
}

pub enum State {
    Present(StoredKeyBag),
    Absent(NoStoredKeyBag),
}

/// The first sixteen bytes of a record.
pub open spec fn magic() -> Seq<u8> {
    seq![
        0x41u8,
        0x50,
        0x50,
        0x4c,
        0x45,
        0x2d,
        0x53,
        0x45,
        0x50,
        0x2d,
        0x4b,
        0x42,
        0x41,
        0x47,
        0x30,
        0x31,
    ]
}

/// The bytes that the check of a record covers, in the order of the file
/// format.
pub open spec fn preimage(state: u32, wrapped: Seq<u8>, uuid: Uuid, secret: Seq<u8>) -> Seq<u8> {
    u32_le(VERSION as int) + u32_le(state as int) + u32_le(wrapped.len() as int) + u32_le(
        secret.len() as int,
    ) + uuid@ + wrapped + secret
}

/// The header of a record.
pub open spec fn head_of(state: u32, wrapped: Seq<u8>, uuid: Uuid, secret: Seq<u8>) -> Seq<u8> {
    magic() + u32_le(VERSION as int) + u32_le(state as int) + u32_le(wrapped.len() as int)
        + u16_le(crc16_ccitt(preimage(state, wrapped, uuid, secret)) as int) + seq![0u8, 0u8]
        + uuid@ + u32_le(secret.len() as int)
}

/// The whole file of a record.
pub open spec fn file_of(state: u32, wrapped: Seq<u8>, uuid: Uuid, secret: Seq<u8>) -> Seq<u8> {
    head_of(state, wrapped, uuid, secret) + wrapped + secret
}

/// What a file says: a bag, none (`Ok(None)`), or that it cannot be told.
pub open spec fn parsed(f: Seq<u8>) -> Result<Option<BagView>, Errno> {
    let state = u32_at(f, 0x14) as u32;
    let len = u32_at(f, 0x18);
    let secret_len = u32_at(f, 0x30);
    let wrapped = f.subrange(0x34, 0x34 + len);
    let secret = f.subrange(0x34 + len, 0x34 + len + secret_len);
    let uuid = uuid_at(f, 0x20);
    if f.len() < HEADER || f.subrange(0, 16) != magic() {
        Err(Errno::EINVAL)
    } else if u32_at(f, 0x10) != VERSION {
        Err(Errno::ENOTSYNC)
    } else if state == STATE_REFUSED {
        Ok(None)
    } else if provenance_of(state) is None {
        Err(Errno::EEXIST)
    } else if len == 0 || len > MAX_WRAPPED || secret_len > MAX_WRAPPED || f.len() != HEADER + len
        + secret_len || crc16_ccitt(preimage(state, wrapped, uuid, secret)) != u16_at(f, 0x1c) {
        Err(Errno::EINVAL)
    } else {
        Ok(Some(BagView { wrapped, uuid, secret, provenance: provenance_of(state)->0 }))
    }
}

fn has_magic(f: &[u8]) -> (r: bool)
    requires
        f.len() >= 16,
    ensures
        r == (f@.subrange(0, 16) == magic()),
{
    let expected: Vec<u8> = vec![
        0x41u8,
        0x50,
        0x50,
        0x4c,
        0x45,
        0x2d,
        0x53,
        0x45,
        0x50,
        0x2d,
        0x4b,
        0x42,
        0x41,
        0x47,
        0x30,
        0x31,
    ];
    assert(expected@ =~= magic());
    crate::bytes::same(vstd::slice::slice_subrange(f, 0, 16), &expected)
}

fn checksum_input(state: u32, wrapped: &[u8], uuid: &Uuid, secret: &[u8]) -> (v: Vec<u8>)
    requires
        wrapped.len() <= u32::MAX,
        secret.len() <= u32::MAX,
    ensures
        v@ == preimage(state, wrapped@, *uuid, secret@),
{
    let mut v: Vec<u8> = Vec::new();
    put_u32(&mut v, VERSION);
    put_u32(&mut v, state);
    put_u32(&mut v, wrapped.len() as u32);
    put_u32(&mut v, secret.len() as u32);
    uuid.put(&mut v);
    put_bytes(&mut v, wrapped);
    put_bytes(&mut v, secret);
    assert(v@ =~= preimage(state, wrapped@, *uuid, secret@));
    v
}

impl StoredKeyBag {
    /// Overwrites the secret, for when it is let go.
    pub fn wipe(&mut self)
        ensures
            final(self)@ == (BagView {
                secret: zeroed(old(self)@.secret.len() as int),
                ..old(self)@
            }),
    {
        wipe(&mut self.secret);
    }
}

/// The check over a record's fields. What it is made of holds the secret, and is
/// overwritten.
fn checksum(state: u32, wrapped: &[u8], uuid: &Uuid, secret: &[u8]) -> (crc: u16)
    requires
        wrapped.len() <= u32::MAX,
        secret.len() <= u32::MAX,
    ensures
        crc == crc16_ccitt(preimage(state, wrapped@, *uuid, secret@)),
{
    let mut input = checksum_input(state, wrapped, uuid, secret);
    let crc: u16 = crc16_ccitt_false(&input);
    wipe(&mut input);
    crc
}

/// What the stored record says, from the outcome of reading its file. A missing
/// file is the one failure that means that there is no bag.
pub fn read(slot: Slot, file: Result<Vec<u8>, Errno>) -> (r: Result<State, Errno>)
    ensures
        match r {
            Ok(State::Present(bag)) => file is Ok && parsed(file->Ok_0@) == Ok::<
                Option<BagView>,
                Errno,
            >(Some(bag@)),
            Ok(State::Absent(token)) => token.for_slot() == slot && match file {
                Ok(f) => parsed(f@) == Ok::<Option<BagView>, Errno>(None),
                Err(e) => e == Errno::ENOENT,
            },
            Err(e) => match file {
                Ok(f) => parsed(f@) == Err::<Option<BagView>, Errno>(e),
                Err(cause) => cause != Errno::ENOENT && e == cause,
            },
        },
{
    match file {
        Ok(f) => {
            let mut f = f;
            let r = parse(slot, &f);
            wipe(&mut f);
            r
        },
        Err(e) => {
            if e == Errno::ENOENT {
                return Ok(State::Absent(NoStoredKeyBag { slot }));
            }
            Err(e)
        },
    }
}

fn parse(slot: Slot, f: &[u8]) -> (r: Result<State, Errno>)
    ensures
        match r {
            Ok(State::Present(bag)) => parsed(f@) == Ok::<Option<BagView>, Errno>(Some(bag@)),
            Ok(State::Absent(token)) => token.for_slot() == slot && parsed(f@) == Ok::<
                Option<BagView>,
                Errno,
            >(None),
            Err(e) => parsed(f@) == Err::<Option<BagView>, Errno>(e),
        },
{
    if f.len() < HEADER {
        return Err(Errno::EINVAL);
    }
    if !has_magic(f) {
        return Err(Errno::EINVAL);
    }
    if read_u32(f, 0x10) != VERSION {
        return Err(Errno::ENOTSYNC);
    }
    let state: u32 = read_u32(f, 0x14);
    if state == STATE_REFUSED {
        return Ok(State::Absent(NoStoredKeyBag { slot }));
    }
    let provenance = match UuidProvenance::from_state(state) {
        Some(p) => p,
        None => {
            return Err(Errno::EEXIST);
        },
    };
    let len: usize = read_u32(f, 0x18) as usize;
    if len == 0 || len > MAX_WRAPPED || f.len() < HEADER + len {
        return Err(Errno::EINVAL);
    }
    let crc: u16 = read_u16(f, 0x1c);
    let uuid = Uuid::read(f, 0x20);
    let secret_len: usize = read_u32(f, 0x30) as usize;
    if secret_len > MAX_WRAPPED || f.len() != HEADER + len + secret_len {
        return Err(Errno::EINVAL);
    }
    let wrapped = crate::bytes::copy_range(f, HEADER, HEADER + len);
    let mut secret = crate::bytes::copy_range(f, HEADER + len, HEADER + len + secret_len);
    if checksum(state, &wrapped, &uuid, &secret) != crc {
        wipe(&mut secret);
        return Err(Errno::EINVAL);
    }
    Ok(State::Present(StoredKeyBag { wrapped, uuid, secret, provenance }))
}

/// A record on its way to its file. The body is written first, behind the place
/// of the header, and the header that vouches for it last.
pub struct Record {
    pub head: Vec<u8>,
    pub body: Vec<u8>,
}

impl Record {
    /// Overwrites the body, which may hold a secret, for when it is let go.
    pub fn wipe(&mut self)
        ensures
            final(self).head == old(self).head,
            final(self).body@ == zeroed(old(self).body@.len() as int),
    {
        wipe(&mut self.body);
    }

    pub open spec fn is(&self, state: u32, wrapped: Seq<u8>, uuid: Uuid, secret: Seq<u8>) -> bool {
        &&& self.head@ == head_of(state, wrapped, uuid, secret)
        &&& self.body@ == wrapped + secret
    }
}

/// The record of an attempt to make a bag, to be written before the attempt.
pub fn write_intent() -> (r: Record)
    ensures
        r.is(STATE_INTENT, Seq::empty(), zero_uuid(), Seq::empty()),
{
    let none: Vec<u8> = Vec::new();
    let zero = Uuid::zero();
    assert(none@ =~= Seq::<u8>::empty());
    write_record(STATE_INTENT, &none, &zero, &none)
}

/// The record of an attempt that the enclave refused.
pub fn mark_refused() -> (r: Record)
    ensures
        r.is(STATE_REFUSED, Seq::empty(), zero_uuid(), Seq::empty()),
{
    let none: Vec<u8> = Vec::new();
    let zero = Uuid::zero();
    assert(none@ =~= Seq::<u8>::empty());
    write_record(STATE_REFUSED, &none, &zero, &none)
}

/// The record of a bag whose identifier was read back from it.
pub fn write_bag_uuid(wrapped: &[u8], uuid: &Uuid, secret: &[u8]) -> (r: Result<Record, Errno>)
    ensures
        ({
            let fits = 0 < wrapped.len() <= MAX_WRAPPED && secret.len() <= MAX_WRAPPED;
            match r {
                Ok(rec) => fits && rec.is(STATE_COMMITTED_BAG_UUID, wrapped@, *uuid, secret@),
                Err(e) => !fits && e == Errno::EINVAL,
            }
        }),
{
    if wrapped.len() == 0 || wrapped.len() > MAX_WRAPPED || secret.len() > MAX_WRAPPED {
        return Err(Errno::EINVAL);
    }
    Ok(write_record(UuidProvenance::ReadBackFromBag.state(), wrapped, uuid, secret))
}

/// The record in which only the wrapped bag is replaced. The snapshot has to be
/// of the stored bag: one of another would strand it.
pub fn replace_wrapped(
    slot: Slot,
    file: Result<Vec<u8>, Errno>,
    fresh: &[u8],
    snapshot_uuid: &Uuid,
) -> (r: Result<Record, Errno>)
    ensures
        match r {
            Ok(rec) => {
                &&& 0 < fresh.len() <= MAX_WRAPPED
                &&& file is Ok
                &&& parsed(file->Ok_0@) matches Ok(Some(bag))
                &&& bag.uuid == *snapshot_uuid
                &&& rec.is(bag.provenance.code(), fresh@, bag.uuid, bag.secret)
            },
            Err(e) => if fresh.len() == 0 || fresh.len() > MAX_WRAPPED {
                e == Errno::EINVAL
            } else {
                match file {
                    Err(cause) => e == cause,
                    Ok(f) => match parsed(f@) {
                        Err(cause) => e == cause,
                        Ok(None) => e == Errno::ENOENT,
                        Ok(Some(bag)) => bag.uuid != *snapshot_uuid && e == Errno::EPERM,
                    },
                }
            },
        },
{
    if fresh.len() == 0 || fresh.len() > MAX_WRAPPED {
        return Err(Errno::EINVAL);
    }
    let mut stored = match read(slot, file) {
        Ok(State::Present(s)) => s,
        Ok(State::Absent(_)) => {
            return Err(Errno::ENOENT);
        },
        Err(e) => {
            return Err(e);
        },
    };
    if stored.uuid != *snapshot_uuid {
        stored.wipe();
        return Err(Errno::EPERM);
    }
    proof {
        assert(stored.secret.len() <= MAX_WRAPPED);
    }
    let record = write_record(stored.provenance.state(), fresh, &stored.uuid, &stored.secret);
    stored.wipe();
    Ok(record)
}

fn write_record(state: u32, wrapped: &[u8], uuid: &Uuid, secret: &[u8]) -> (r: Record)
    requires
        wrapped.len() <= MAX_WRAPPED,
        secret.len() <= MAX_WRAPPED,
    ensures
        r.is(state, wrapped@, *uuid, secret@),
{
    let crc: u16 = checksum(state, wrapped, uuid, secret);
    let mut head: Vec<u8> = vec![
        0x41u8,
        0x50,
        0x50,
        0x4c,
        0x45,
        0x2d,
        0x53,
        0x45,
        0x50,
        0x2d,
        0x4b,
        0x42,
        0x41,
        0x47,
        0x30,
        0x31,
    ];
    assert(head@ =~= magic());
    put_u32(&mut head, VERSION);
    put_u32(&mut head, state);
    put_u32(&mut head, wrapped.len() as u32);
    put_u16(&mut head, crc);
    head.push(0);
    head.push(0);
    uuid.put(&mut head);
    put_u32(&mut head, secret.len() as u32);
    assert(head@ =~= head_of(state, wrapped@, *uuid, secret@));
    let mut body: Vec<u8> = Vec::new();
    put_bytes(&mut body, wrapped);
    put_bytes(&mut body, secret);
    assert(body@ =~= wrapped@ + secret@);
    Record { head, body }
}

proof fn head_fields(state: u32, wrapped: Seq<u8>, uuid: Uuid, secret: Seq<u8>, rest: Seq<u8>)
    requires
        wrapped.len() <= MAX_WRAPPED,
        secret.len() <= MAX_WRAPPED,
    ensures
        ({
            let f = head_of(state, wrapped, uuid, secret) + rest;
            &&& head_of(state, wrapped, uuid, secret).len() == HEADER
            &&& f.subrange(0, 16) == magic()
            &&& u32_at(f, 0x10) == VERSION
            &&& u32_at(f, 0x14) == state
            &&& u32_at(f, 0x18) == wrapped.len()
            &&& u16_at(f, 0x1c) == crc16_ccitt(preimage(state, wrapped, uuid, secret))
            &&& uuid_at(f, 0x20) == uuid
            &&& u32_at(f, 0x30) == secret.len()
        }),
{
    broadcast use group_le;

    let head = head_of(state, wrapped, uuid, secret);
    let f = head + rest;
    crate::uuid::uuid_round_trip(uuid);
    assert(f.subrange(0, 16) =~= magic());
    assert(f.subrange(0x10, 0x14) =~= u32_le(VERSION as int));
    crate::bytes::u32_at_subrange(f, 0x10, 0x14, 0);
    assert(f.subrange(0x14, 0x18) =~= u32_le(state as int));
    crate::bytes::u32_at_subrange(f, 0x14, 0x18, 0);
    assert(f.subrange(0x18, 0x1c) =~= u32_le(wrapped.len() as int));
    crate::bytes::u32_at_subrange(f, 0x18, 0x1c, 0);
    let crc = u16_le(crc16_ccitt(preimage(state, wrapped, uuid, secret)) as int);
    assert(f.subrange(0x1c, 0x1e) =~= crc);
    assert(u16_at(f.subrange(0x1c, 0x1e), 0) == u16_at(f, 0x1c));
    assert(f.subrange(0x20, 0x30) =~= uuid@);
    crate::uuid::uuid_at_subrange(f, 0x20, 0x30, 0);
    assert(f.subrange(0x30, 0x34) =~= u32_le(secret.len() as int));
    crate::bytes::u32_at_subrange(f, 0x30, 0x34, 0);
}

/// A bag that is stored is read back as it was.
pub proof fn read_gives_back_write(
    provenance: UuidProvenance,
    wrapped: Seq<u8>,
    uuid: Uuid,
    secret: Seq<u8>,
)
    requires
        0 < wrapped.len() <= MAX_WRAPPED,
        secret.len() <= MAX_WRAPPED,
    ensures
        parsed(file_of(provenance.code(), wrapped, uuid, secret)) == Ok::<Option<BagView>, Errno>(
            Some(BagView { wrapped, uuid, secret, provenance }),
        ),
{
    let f = file_of(provenance.code(), wrapped, uuid, secret);
    head_fields(provenance.code(), wrapped, uuid, secret, wrapped + secret);
    assert(f =~= head_of(provenance.code(), wrapped, uuid, secret) + (wrapped + secret));
    assert(f.subrange(0x34, 0x34 + wrapped.len() as int) =~= wrapped);
    assert(f.subrange(
        0x34 + wrapped.len() as int,
        0x34 + wrapped.len() as int + secret.len() as int,
    ) =~= secret);
}

/// While the outcome of an attempt is not known, no leave to make a bag is
/// given; once it is known to have been refused, it is.
pub proof fn intent_blocks_and_refusal_allows()
    ensures
        parsed(file_of(STATE_INTENT, Seq::empty(), zero_uuid(), Seq::empty())) == Err::<
            Option<BagView>,
            Errno,
        >(Errno::EEXIST),
        parsed(file_of(STATE_REFUSED, Seq::empty(), zero_uuid(), Seq::empty())) == Ok::<
            Option<BagView>,
            Errno,
        >(None),
{
    let none = Seq::<u8>::empty();
    head_fields(STATE_INTENT, none, zero_uuid(), none, none + none);
    head_fields(STATE_REFUSED, none, zero_uuid(), none, none + none);
    assert(file_of(STATE_INTENT, none, zero_uuid(), none) =~= head_of(
        STATE_INTENT,
        none,
        zero_uuid(),
        none,
    ) + (none + none));
    assert(file_of(STATE_REFUSED, none, zero_uuid(), none) =~= head_of(
        STATE_REFUSED,
        none,
        zero_uuid(),
        none,
    ) + (none + none));
}

/// A write that was cut short before its header is an error to read, never a
/// bag and never the absence of one.
pub proof fn torn_write_is_an_error(written: Seq<u8>)
    ensures
        parsed(Seq::empty()) is Err,
        parsed(zeroed(HEADER as int) + written) is Err,
{
    let f = zeroed(HEADER as int) + written;
    assert(f.subrange(0, 16)[0] == 0);
    assert(magic()[0] == 0x41);
}

/// Where a stored bag stands in its file: sixteen bytes that say what the file is,
/// version 2, the state, the wrapped bag's length, the check, the identifier and the
/// secret's length, and behind them the wrapped bag and then the secret.
pub proof fn record_is_laid_out(state: u32, wrapped: Seq<u8>, uuid: Uuid, secret: Seq<u8>)
    requires
        wrapped.len() <= MAX_WRAPPED,
        secret.len() <= MAX_WRAPPED,
    ensures
        ({
            let f = file_of(state, wrapped, uuid, secret);
            let n = wrapped.len() as int;
            &&& f.len() == 52 + n + secret.len()
            &&& f.subrange(0, 16) == seq![
                0x41u8, 0x50, 0x50, 0x4c, 0x45, 0x2d, 0x53, 0x45, 0x50, 0x2d, 0x4b, 0x42, 0x41, 0x47,
                0x30, 0x31,
            ]
            &&& u32_at(f, 16) == 2
            &&& u32_at(f, 20) == state
            &&& u32_at(f, 24) == n
            &&& f[30] == 0
            &&& f[31] == 0
            &&& uuid_at(f, 32) == uuid
            &&& u32_at(f, 48) == secret.len()
            &&& f.subrange(52, 52 + n) == wrapped
            &&& f.subrange(52 + n, f.len() as int) == secret
        }),
{
    broadcast use group_le;

    head_fields(state, wrapped, uuid, secret, wrapped + secret);
    crate::uuid::uuid_round_trip(uuid);
    let f = file_of(state, wrapped, uuid, secret);
    let n = wrapped.len() as int;
    assert(f =~= head_of(state, wrapped, uuid, secret) + (wrapped + secret));
    assert(f.subrange(52, 52 + n) =~= wrapped);
    assert(f.subrange(52 + n, f.len() as int) =~= secret);
}

/// The check of a record covers the version, the state, both lengths, the identifier,
/// the wrapped bag and the secret, in that order.
pub proof fn check_covers_the_record(state: u32, wrapped: Seq<u8>, uuid: Uuid, secret: Seq<u8>)
    requires
        wrapped.len() <= MAX_WRAPPED,
        secret.len() <= MAX_WRAPPED,
    ensures
        ({
            let p = preimage(state, wrapped, uuid, secret);
            let n = wrapped.len() as int;
            &&& p.len() == 32 + n + secret.len()
            &&& u32_at(p, 0) == 2
            &&& u32_at(p, 4) == state
            &&& u32_at(p, 8) == n
            &&& u32_at(p, 12) == secret.len()
            &&& uuid_at(p, 16) == uuid
            &&& p.subrange(32, 32 + n) == wrapped
            &&& p.subrange(32 + n, p.len() as int) == secret
        }),
{
    broadcast use group_le;

    crate::uuid::uuid_round_trip(uuid);
    let p = preimage(state, wrapped, uuid, secret);
    let n = wrapped.len() as int;
    assert(p.subrange(0, 4) =~= u32_le(2));
    assert(p.subrange(4, 8) =~= u32_le(state as int));
    assert(p.subrange(8, 12) =~= u32_le(n));
    assert(p.subrange(12, 16) =~= u32_le(secret.len() as int));
    crate::bytes::u32_reads_back(p, 0, 2);
    crate::bytes::u32_reads_back(p, 4, state as int);
    crate::bytes::u32_reads_back(p, 8, n);
    crate::bytes::u32_reads_back(p, 12, secret.len() as int);
    assert(p.subrange(16, 32) =~= uuid@);
    crate::uuid::uuid_at_subrange(p, 16, 32, 0);
    assert(p.subrange(32, 32 + n) =~= wrapped);
    assert(p.subrange(32 + n, p.len() as int) =~= secret);
}

/// Of a record that says what it is and has version 2, state 2 means that there is no
/// bag, state 1 and state 3 that there may be one, whose identifier was generated or
/// read back, and any other that it cannot be told. Another version is not read.
pub proof fn states_are_told_apart(f: Seq<u8>)
    requires
        f.len() >= 52,
        f.subrange(0, 16) == magic(),
    ensures
        u32_at(f, 16) != 2 ==> parsed(f) == Err::<Option<BagView>, Errno>(Errno::ENOTSYNC),
        u32_at(f, 16) == 2 && u32_at(f, 20) == 2 ==> parsed(f) == Ok::<Option<BagView>, Errno>(
            None,
        ),
        u32_at(f, 16) == 2 && u32_at(f, 20) == 0 ==> parsed(f) == Err::<Option<BagView>, Errno>(
            Errno::EEXIST,
        ),
        u32_at(f, 16) == 2 && u32_at(f, 20) > 3 ==> parsed(f) == Err::<Option<BagView>, Errno>(
            Errno::EEXIST,
        ),
        parsed(f) matches Ok(Some(b)) ==> (u32_at(f, 20) == 1 && b.provenance
            is AsGenerated) || (u32_at(f, 20) == 3 && b.provenance is ReadBackFromBag),
{
}

/// What a file is told to be: without the mark or too short it is broken, of another
/// version it is out of step, refused it is none, and in a state that is neither committed
/// nor refused it blocks.
pub proof fn files_are_judged(f: Seq<u8>)
    ensures
        f.len() < 0x34 ==> parsed(f) == Err::<Option<BagView>, Errno>(Errno::EINVAL),
        f.len() >= 0x34 && f.subrange(0, 16) != magic() ==> parsed(f) == Err::<
            Option<BagView>,
            Errno,
        >(Errno::EINVAL),
        f.len() >= 0x34 && f.subrange(0, 16) == magic() && u32_at(f, 16) != VERSION ==> parsed(f)
            == Err::<Option<BagView>, Errno>(Errno::ENOTSYNC),
        f.len() >= 0x34 && f.subrange(0, 16) == magic() && u32_at(f, 16) == VERSION && u32_at(
            f,
            20,
        ) as u32 == STATE_REFUSED ==> parsed(f) == Ok::<Option<BagView>, Errno>(None),
        f.len() >= 0x34 && f.subrange(0, 16) == magic() && u32_at(f, 16) == VERSION && u32_at(
            f,
            20,
        ) as u32 == STATE_INTENT ==> parsed(f) == Err::<Option<BagView>, Errno>(Errno::EEXIST),
        parsed(f) matches Ok(Some(bag)) ==> {
            &&& bag.wrapped == f.subrange(0x34, 0x34 + u32_at(f, 0x18))
            &&& bag.uuid == uuid_at(f, 0x20)
            &&& bag.secret == f.subrange(0x34 + u32_at(f, 0x18), f.len() as int)
            &&& f.len() == 0x34 + u32_at(f, 0x18) + u32_at(f, 0x30)
            &&& 0 < bag.wrapped.len() <= MAX_WRAPPED
            &&& bag.secret.len() <= MAX_WRAPPED
            &&& bag.provenance.code() == u32_at(f, 20) as u32
        },
{
    if f.len() >= 0x34 {
        assert(0 <= u32_at(f, 20) < 0x1_0000_0000);
        assert(0 <= u32_at(f, 0x18) && 0 <= u32_at(f, 0x30));
    }
}

} // verus!
