//! What is done with the identity key bag: making it, loading it, designating
//! it, and taking a new snapshot of it.
//!
//! Each flow is a chain of stages. A stage is had from the one before it, and
//! going on uses it up, so that the order of the requests cannot be changed.

use crate::bytes::{i32_le, u32_le, u64_le, zeroed};
use crate::errno::Errno;
use crate::image::{blob_bytes, joined, joined_reads_as, reads_as, wipe, Field};
use crate::keybag::{
    mark_refused, parsed, read, replace_wrapped, write_bag_uuid, write_intent, BagView,
    NoStoredKeyBag, Record, Slot, State, MAX_WRAPPED, STATE_COMMITTED_BAG_UUID, STATE_INTENT,
    STATE_REFUSED,
};
use crate::sks::{
    created_handle, designated, handle_from_create_reply, handle_from_load_reply, loaded_handle,
    prefix, req_copy_keybag, req_copy_keybag_uuid, req_copy_uuid_special, req_unload_keybag,
    start_body, uuid_from_reply, uuid_in, wrapped_from_copy_reply, wrapped_in, KeyBagHandle,
    SksOutcome, SksRequest, SpecialHandle, OP_SKS_CREATE_KEYBAG, SKS_CREATE_VARIANT_IDENTITY, SKS_SECRET_LEN,
};
use crate::uuid::{zero_uuid, Uuid};
use vstd::prelude::*;

verus! {

/// The body that asks for an identity bag: no flags, the first identity's
/// handle, the secret, the identifier, and nothing else.
pub open spec fn create_body(secret: Seq<u8>, uuid: Seq<u8>) -> Seq<u8> {
    let none = blob_bytes(Seq::empty());
    prefix(SKS_CREATE_VARIANT_IDENTITY as int) + u32_le(0) + i32_le(-1) + blob_bytes(secret) + none
        + blob_bytes(uuid) + none + u64_le(0) + u64_le(0) + none
}

/// Asks for an identity bag. It takes the leave to make one, and uses it up.
pub fn req_create_identity_keybag(secret: &[u8], uuid: &[u8], proof_of_none: NoStoredKeyBag) -> (r:
    Result<SksRequest, Errno>)
    ensures
        match r {
            Ok(q) => q.selector == OP_SKS_CREATE_KEYBAG && q.body@ == create_body(secret@, uuid@),
            Err(e) => (secret.len() > u32::MAX || uuid.len() > u32::MAX) && e == Errno::EINVAL,
        },
{
    if proof_of_none.slot() != Slot::Identity {
        return Err(Errno::EINVAL);
    }
    let none: Vec<u8> = Vec::new();
    assert(none@ =~= Seq::<u8>::empty());
    let mut body = start_body(SKS_CREATE_VARIANT_IDENTITY);
    body.put_u32(0);
    body.put_i32(SpecialHandle::first_identity().value());
    match body.put_blob(secret) {
        Ok(_) => {},
        Err(e) => {
            return Err(e);
        },
    }
    let _ = body.put_blob(&none);
    match body.put_blob(uuid) {
        Ok(_) => {},
        Err(e) => {
            return Err(e);
        },
    }
    let _ = body.put_blob(&none);
    body.put_u64(0);
    body.put_u64(0);
    let _ = body.put_blob(&none);
    Ok(SksRequest { selector: OP_SKS_CREATE_KEYBAG, body })
}

/// Random bytes as a random identifier: the version and the variant are set,
/// the other bits stay.
pub open spec fn random_uuid(raw: Seq<u8>) -> Seq<u8> {
    raw.update(6, (0x40 + raw[6] % 0x10) as u8).update(8, (0x80 + raw[8] % 0x40) as u8)
}

fn shape_uuid(raw: Vec<u8>) -> (u: Vec<u8>)
    requires
        raw.len() == 16,
    ensures
        u@ == random_uuid(raw@),
{
    let mut u = raw;
    let b6: u8 = 0x40 + u[6] % 0x10;
    let b8: u8 = 0x80 + u[8] % 0x40;
    u.set(6, b6);
    u.set(8, b8);
    u
}

/// Whether a bag has to be made.
pub enum Provision {
    /// There is one, or it cannot be told.
    Settled(bool),
    /// There is none. The record of the attempt has to be written first.
    Intend(Intended),
}

/// The attempt may be made once its record is durable.
pub struct Intended {
    leave: NoStoredKeyBag,
}

/// The attempt is on record. The enclave has not been asked yet.
pub struct Drawing {
    leave: NoStoredKeyBag,
}

/// The enclave has been asked. From here on the record of the attempt stays
/// until the bag is stored: the bag may exist.
pub struct Pending {
    secret: Vec<u8>,
}

/// The bag exists, loaded under this handle.
pub struct Made {
    secret: Vec<u8>,
    handle: KeyBagHandle,
}

/// The bag's own identifier is known.
pub struct Named {
    secret: Vec<u8>,
    handle: KeyBagHandle,
    uuid: Uuid,
}

/// Lets go of a secret, whose bytes are overwritten first.
fn forget(secret: Vec<u8>) {
    let mut secret = secret;
    wipe(&mut secret);
}

impl Pending {
    pub closed spec fn secret(&self) -> Seq<u8> {
        self.secret@
    }

    /// Overwrites the secret, for when it is let go.
    pub fn wipe(&mut self)
        ensures
            final(self).secret() == zeroed(old(self).secret().len() as int),
    {
        wipe(&mut self.secret);
    }
}

impl Made {
    pub closed spec fn secret(&self) -> Seq<u8> {
        self.secret@
    }

    /// Overwrites the secret, for when it is let go.
    pub fn wipe(&mut self)
        ensures
            final(self).secret() == zeroed(old(self).secret().len() as int),
            final(self).handle() == old(self).handle(),
    {
        wipe(&mut self.secret);
    }

    pub closed spec fn handle(&self) -> KeyBagHandle {
        self.handle
    }
}

impl Named {
    pub closed spec fn secret(&self) -> Seq<u8> {
        self.secret@
    }

    /// Overwrites the secret, for when it is let go.
    pub fn wipe(&mut self)
        ensures
            final(self).secret() == zeroed(old(self).secret().len() as int),
            final(self).handle() == old(self).handle(),
            final(self).uuid() == old(self).uuid(),
    {
        wipe(&mut self.secret);
    }

    pub closed spec fn handle(&self) -> KeyBagHandle {
        self.handle
    }

    pub closed spec fn uuid(&self) -> Uuid {
        self.uuid
    }
}

/// Decides, from the stored record, whether a bag has to be made. Only where
/// the record says for certain that there is none.
pub fn provision(file: Result<Vec<u8>, Errno>) -> (r: Provision)
    ensures
        match r {
            Provision::Settled(ok) => match file {
                Ok(f) => if ok {
                    parsed(f@) matches Ok(Some(_))
                } else {
                    parsed(f@) is Err
                },
                Err(e) => e != Errno::ENOENT && !ok,
            },
            Provision::Intend(_) => match file {
                Ok(f) => parsed(f@) == Ok::<Option<BagView>, Errno>(None),
                Err(e) => e == Errno::ENOENT,
            },
        },
{
    match read(Slot::Identity, file) {
        Ok(State::Present(bag)) => {
            forget(bag.secret);
            Provision::Settled(true)
        },
        Ok(State::Absent(leave)) => Provision::Intend(Intended { leave }),
        Err(_) => Provision::Settled(false),
    }
}

impl Intended {
    /// The record to write before anything else.
    pub fn record(&self) -> (r: Record)
        ensures
            r.is(STATE_INTENT, Seq::empty(), zero_uuid(), Seq::empty()),
    {
        write_intent()
    }

    /// Goes on if the record was written.
    pub fn written(self, ok: bool) -> (r: Option<Drawing>)
        ensures
            r is Some == ok,
    {
        if ok {
            Some(Drawing { leave: self.leave })
        } else {
            None
        }
    }
}

impl Drawing {
    /// Makes the request from random bytes. Where that fails, the enclave has
    /// not been asked, and the record that allows another attempt comes back.
    pub fn drawn(self, secret: Option<Vec<u8>>, uuid: Option<Vec<u8>>) -> (r: Result<
        (SksRequest, Pending),
        Record,
    >)
        requires
            secret is Some ==> secret->0.len() == SKS_SECRET_LEN,
            uuid is Some ==> uuid->0.len() == 16,
        ensures
            match r {
                Ok((q, pending)) => secret is Some && uuid is Some && pending.secret() == secret->0@
                    && q.selector == OP_SKS_CREATE_KEYBAG && q.body@ == create_body(
                    secret->0@,
                    random_uuid(uuid->0@),
                ),
                Err(rec) => (secret is None || uuid is None) && rec.is(
                    STATE_REFUSED,
                    Seq::empty(),
                    zero_uuid(),
                    Seq::empty(),
                ),
            },
    {
        match (secret, uuid) {
            (Some(secret), Some(raw)) => {
                let shaped = shape_uuid(raw);
                match req_create_identity_keybag(&secret, &shaped, self.leave) {
                    Ok(q) => Ok((q, Pending { secret })),
                    Err(_) => {
                        forget(secret);
                        Err(mark_refused())
                    },
                }
            },
            (Some(secret), None) => {
                forget(secret);
                Err(mark_refused())
            },
            _ => Err(mark_refused()),
        }
    }
}

impl Pending {
    /// Judges the reply to the request, and asks for the identifier.
    pub fn created(self, out: Option<&SksOutcome>) -> (r: Option<(SksRequest, Made)>)
        ensures
            match r {
                Some((q, made)) => out is Some && created_handle(*out->0) == Some(made.handle())
                    && made.secret() == self.secret() && q.body@ == prefix(0) + i32_le(
                    made.handle().0 as int,
                ) && q.selector == crate::sks::OP_SKS_COPY_UUID,
                None => out is None || created_handle(*out->0) is None,
            },
    {
        match out {
            Some(o) => match handle_from_create_reply(o) {
                Some(handle) => Some(
                    (req_copy_keybag_uuid(handle), Made { secret: self.secret, handle }),
                ),
                None => {
                    forget(self.secret);
                    None
                },
            },
            None => {
                forget(self.secret);
                None
            },
        }
    }
}

impl Made {
    /// Takes the identifier, and asks for a copy of the bag.
    pub fn named(self, out: Option<&SksOutcome>) -> (r: Option<(SksRequest, Named)>)
        ensures
            match r {
                Some((q, named)) => out is Some && uuid_in(*out->0) == Some(named.uuid())
                    && named.secret() == self.secret() && named.handle() == self.handle()
                    && q.selector == crate::sks::OP_SKS_COPY_KEYBAG && q.body@ == prefix(0)
                    + i32_le(self.handle().0 as int),
                None => out is None || uuid_in(*out->0) is None,
            },
    {
        match out {
            Some(o) => match uuid_from_reply(o) {
                Some(uuid) => Some(
                    (
                        req_copy_keybag(self.handle),
                        Named { secret: self.secret, handle: self.handle, uuid },
                    ),
                ),
                None => {
                    forget(self.secret);
                    None
                },
            },
            None => {
                forget(self.secret);
                None
            },
        }
    }
}

impl Named {
    /// Takes the copy. The record of the bag has to be written; when it is, the
    /// bag is unloaded.
    pub fn copied(self, out: Option<&SksOutcome>) -> (r: Option<(Record, SksRequest)>)
        requires
            self.secret().len() <= MAX_WRAPPED,
        ensures
            match r {
                Some((rec, unload)) => {
                    &&& out is Some
                    &&& wrapped_in(*out->0) is Some
                    &&& wrapped_in(*out->0)->0.len() <= MAX_WRAPPED
                    &&& rec.is(
                        STATE_COMMITTED_BAG_UUID,
                        wrapped_in(*out->0)->0,
                        self.uuid(),
                        self.secret(),
                    )
                    &&& unload.selector == crate::sks::OP_SKS_UNLOAD_KEYBAG
                    &&& unload.body@ == prefix(0) + i32_le(self.handle().0 as int)
                },
                None => out is None || wrapped_in(*out->0) is None || wrapped_in(*out->0)->0.len()
                    > MAX_WRAPPED,
            },
    {
        let r = match out {
            Some(o) => match wrapped_from_copy_reply(o) {
                Some(wrapped) => match write_bag_uuid(&wrapped, &self.uuid, &self.secret) {
                    Ok(rec) => Some((rec, req_unload_keybag(self.handle))),
                    Err(_) => None,
                },
                None => None,
            },
            None => None,
        };
        forget(self.secret);
        r
    }
}

/// What a load of the stored bag came to.
pub enum Loaded {
    /// It could not be loaded.
    Not,
    /// It is loaded; this asks for its identifier.
    Ask(SksRequest, KeyBagHandle),
}

/// Judges the reply to the load of the stored bag.
pub fn recover_loaded(out: Option<&SksOutcome>) -> (r: Loaded)
    ensures
        match r {
            Loaded::Not => out is None || loaded_handle(*out->0) is None,
            Loaded::Ask(q, h) => out is Some && loaded_handle(*out->0) == Some(h) && q.selector
                == crate::sks::OP_SKS_COPY_UUID && q.body@ == prefix(0) + i32_le(h.0 as int),
        },
{
    match out {
        Some(o) => match handle_from_load_reply(o) {
            Some(h) => Loaded::Ask(req_copy_keybag_uuid(h), h),
            None => Loaded::Not,
        },
        None => Loaded::Not,
    }
}

/// What a loaded bag turned out to be.
pub enum Recovered {
    /// The stored one.
    Bag(KeyBagHandle, Uuid),
    /// Another, or unreadable: unload it.
    Unload(SksRequest),
}

/// Holds the identifier of the loaded bag against the stored one. A bag that is
/// not the stored one is unloaded.
pub fn recover_checked(handle: KeyBagHandle, out: Option<&SksOutcome>, stored_uuid: &Uuid) -> (r:
    Recovered)
    ensures
        match r {
            Recovered::Bag(h, u) => h == handle && u == *stored_uuid && out is Some && uuid_in(
                *out->0,
            ) == Some(u),
            Recovered::Unload(q) => (out is None || uuid_in(*out->0) != Some(*stored_uuid))
                && q.selector == crate::sks::OP_SKS_UNLOAD_KEYBAG && q.body@ == prefix(0) + i32_le(
                handle.0 as int,
            ),
        },
{
    let uuid = match out {
        Some(o) => uuid_from_reply(o),
        None => None,
    };
    match uuid {
        Some(u) => {
            if u == *stored_uuid {
                return Recovered::Bag(handle, u);
            }
            Recovered::Unload(req_unload_keybag(handle))
        },
        None => Recovered::Unload(req_unload_keybag(handle)),
    }
}

/// A copy of the designated bag, whose identifier is asked for.
pub struct Snapshot {
    wrapped: Vec<u8>,
}

impl Snapshot {
    pub closed spec fn wrapped(&self) -> Seq<u8> {
        self.wrapped@
    }
}

/// Begins a new snapshot of the designated bag, from the reply to the request
/// for a copy: the identifier is asked for only if there is one.
pub fn resnapshot(special: SpecialHandle, copy: Option<&SksOutcome>) -> (r: Option<
    (SksRequest, Snapshot),
>)
    ensures
        match r {
            Some((q, s)) => {
                &&& copy is Some
                &&& wrapped_in(*copy->0) == Some(s.wrapped())
                &&& q.selector == crate::sks::OP_SKS_COPY_UUID
                &&& q.body@ == prefix(0) + i32_le(special.0 as int)
            },
            None => copy is None || wrapped_in(*copy->0) is None,
        },
{
    match copy {
        Some(o) => match wrapped_from_copy_reply(o) {
            Some(wrapped) => Some((req_copy_uuid_special(special), Snapshot { wrapped })),
            None => None,
        },
        None => None,
    }
}

impl Snapshot {
    /// Puts the copy into the stored record, if its identifier is the record's.
    pub fn named(self, named: Option<&SksOutcome>, file: Result<Vec<u8>, Errno>) -> (r: Option<
        Record,
    >)
        ensures
            match r {
                Some(rec) => {
                    &&& named is Some
                    &&& 0 < self.wrapped().len() <= MAX_WRAPPED
                    &&& uuid_in(*named->0) is Some
                    &&& file is Ok
                    &&& parsed(file->Ok_0@) matches Ok(Some(bag))
                    &&& bag.uuid == uuid_in(*named->0)->0
                    &&& rec.is(bag.provenance.code(), self.wrapped(), bag.uuid, bag.secret)
                },
                None => {
                    ||| named is None
                    ||| self.wrapped().len() == 0
                    ||| self.wrapped().len() > MAX_WRAPPED
                    ||| uuid_in(*named->0) is None
                    ||| file is Err
                    ||| !(parsed(file->Ok_0@) matches Ok(Some(bag)) && bag.uuid == uuid_in(
                        *named->0,
                    )->0)
                },
            },
    {
        let uuid = match named {
            Some(o) => match uuid_from_reply(o) {
                Some(u) => u,
                None => {
                    return None;
                },
            },
            None => {
                return None;
            },
        };
        match replace_wrapped(Slot::Identity, file, &self.wrapped, &uuid) {
            Ok(rec) => Some(rec),
            Err(_) => None,
        }
    }
}

/// What enrolment needs of the designated bag.
pub struct EnrolMaterial {
    pub special: SpecialHandle,
    pub secret: Vec<u8>,
}

impl EnrolMaterial {
    /// Overwrites the secret, for when it is let go.
    pub fn wipe(&mut self)
        ensures
            final(self).special == old(self).special,
            final(self).secret@ == zeroed(old(self).secret@.len() as int),
    {
        wipe(&mut self.secret);
    }
}

/// Remembers the material for enrolment if the bag was designated.
pub fn remember_designated(
    out: Option<&SksOutcome>,
    user: &crate::sks::DesignateUser,
    secret: &[u8],
) -> (r: Option<EnrolMaterial>)
    requires
        user.0 >= crate::sks::SKS_DESIGNATE_USER_MIN,
    ensures
        match r {
            Some(m) => out is Some && designation_holds(*out->0) && m.special.0 == -user.0
                && m.secret@ == secret@,
            None => out is None || !designation_holds(*out->0),
        },
{
    match out {
        Some(o) => {
            if !designated(o) {
                return None;
            }
            Some(
                EnrolMaterial {
                    special: user.special_handle(),
                    secret: crate::bytes::copy_of(secret),
                },
            )
        },
        None => None,
    }
}

pub open spec fn designation_holds(out: SksOutcome) -> bool {
    out.body() is Some && out.body()->0.len() == 4 && crate::bytes::u32_at(out.body()->0, 0) == 1
}

/// Whether the designated bag may be prepared for a cold match: it is the bag
/// that was loaded.
pub fn cold_match_continue(keybag_designated: bool, uuid: Option<Uuid>, loaded: &Uuid) -> (r: bool)
    ensures
        r == (keybag_designated && uuid == Some(*loaded)),
{
    if !keybag_designated {
        return false;
    }
    match uuid {
        Some(u) => u == *loaded,
        None => false,
    }
}

/// Begins the preparation for a cold match: a bag that is designated is asked for
/// its identifier.
pub fn cold_match(keybag_designated: bool, special: SpecialHandle) -> (r: Option<SksRequest>)
    ensures
        match r {
            Some(q) => keybag_designated && q.selector == crate::sks::OP_SKS_COPY_UUID && q.body@
                == prefix(0) + i32_le(special.0 as int),
            None => !keybag_designated,
        },
{
    if !keybag_designated {
        return None;
    }
    Some(req_copy_uuid_special(special))
}

/// Goes on with the preparation: where the designated bag is the one that was
/// loaded, the one that was loaded is unloaded.
pub fn cold_match_unload(
    keybag_designated: bool,
    named: Option<&SksOutcome>,
    source: KeyBagHandle,
    loaded: &Uuid,
) -> (r: Option<SksRequest>)
    ensures
        match r {
            Some(q) => {
                &&& keybag_designated && named is Some && uuid_in(*named->0) == Some(*loaded)
                &&& q.selector == crate::sks::OP_SKS_UNLOAD_KEYBAG
                &&& q.body@ == prefix(0) + i32_le(source.0 as int)
            },
            None => !(keybag_designated && named is Some && uuid_in(*named->0) == Some(*loaded)),
        },
{
    let uuid = match named {
        Some(o) => uuid_from_reply(o),
        None => None,
    };
    if cold_match_continue(keybag_designated, uuid, loaded) {
        Some(req_unload_keybag(source))
    } else {
        None
    }
}

/// Whether the preparation is complete, from the reply to the unload: there has
/// to be one, whatever it says.
pub fn cold_match_prepared(unloaded: Option<&SksOutcome>) -> (r: bool)
    ensures
        r == (unloaded is Some),
{
    unloaded.is_some()
}

// ---------------------------------------------------------------------------
// Laws.
// ---------------------------------------------------------------------------
/// Reading a request for an identity bag field by field gives variant 5, the client,
/// no flags, the first identity's handle, the secret, nothing, the identifier,
/// nothing, two zeros and nothing.
pub proof fn create_request_reads_back(secret: Seq<u8>, uuid: Seq<u8>)
    requires
        secret.len() <= u32::MAX,
        uuid.len() <= u32::MAX,
    ensures
        reads_as(
            create_body(secret, uuid),
            seq![
                Field::U32(5),
                Field::U64(0x4c49_4e55_5853_4b53),
                Field::U32(0),
                Field::I32(-1),
                Field::Blob(secret),
                Field::Blob(Seq::empty()),
                Field::Blob(uuid),
                Field::Blob(Seq::empty()),
                Field::U64(0),
                Field::U64(0),
                Field::Blob(Seq::empty()),
            ],
        ),
{
    let f = seq![
        Field::U32(5),
        Field::U64(0x4c49_4e55_5853_4b53),
        Field::U32(0),
        Field::I32(-1),
        Field::Blob(secret),
        Field::Blob(Seq::empty()),
        Field::Blob(uuid),
        Field::Blob(Seq::empty()),
        Field::U64(0),
        Field::U64(0),
        Field::Blob(Seq::empty()),
    ];
    reveal_with_fuel(joined, 12);
    assert(joined(f, 11) =~= create_body(secret, uuid));
    joined_reads_as(f);
}

/// An identifier made of random bytes says in its seventh byte that it is of version
/// 4, and in its ninth that it is of the usual variant; every other bit is as it was
/// drawn.
pub proof fn random_identifier_keeps_its_bits(raw: Seq<u8>, i: int)
    requires
        raw.len() == 16,
        0 <= i < 16,
    ensures
        random_uuid(raw).len() == 16,
        random_uuid(raw)[6] / 16 == 4,
        random_uuid(raw)[6] % 16 == raw[6] % 16,
        random_uuid(raw)[8] / 64 == 2,
        random_uuid(raw)[8] % 64 == raw[8] % 64,
        i != 6 && i != 8 ==> random_uuid(raw)[i] == raw[i],
{
}

/// A bag was designated exactly if the reply's body is the one number 1.
pub proof fn designation_is_judged(out: SksOutcome, number: u32)
    requires
        out.body() is Some,
        reads_as(out.body()->0, seq![Field::U32(number as int)]),
    ensures
        designation_holds(out) <==> number == 1,
{
    reveal_with_fuel(crate::image::reads_from, 2);
}

} // verus!
