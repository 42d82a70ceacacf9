//! The machine's reference key: a key pair that the enclave keeps, under which
//! keys are sealed and challenges are signed. Whatever needs the private half
//! is asked of the enclave.

use vstd::prelude::*;

use crate::bytes::{copy_of, i32_le, u32_le};
use crate::der::{
    encodable, encode_refkey_set, find_gives_back_encode, found, is_single, joined,
    octet_string_body, octets_in, octets_round_trip, ordered, refkey_find, set_bytes, tlv, Item,
    RefKeyValue, MAX_ITEM, TAG_OCTET_STRING,
};
use crate::errno::Errno;
use crate::image::{blob_bytes, joined_reads_as, reads_as, reads_from, wipe, Field};
use crate::proto::blob_at;
use crate::refkey_seal::POINT_LEN;
use crate::sks::{
    blob_of_success, prefix, start_body, Healthy, KeyBagHandle, SksOutcome, SksRequest,
    OP_SKS_PERFORM_OPERATION,
};

verus! {

pub const REFKEY_ENVELOPE_VERSION: u32 = 2;

/// Keys of this class cannot be taken out of the enclave.
pub const PROTECTION_CLASS: u32 = 9;

/// A key pair on the 256-bit prime curve.
pub const KEY_TYPE: u32 = 5;

/// The longest key file that is looked at.
pub const MAX_KEY_FILE: usize = 8192;

pub const MACHINE_REFKEY_PATH: &'static str = "/var/lib/aurora-sep-refkey.bin";

// ---------------------------------------------------------------------------
// What is asked of the enclave.
// ---------------------------------------------------------------------------
/// An operation on a reference key.
#[derive(Clone, Copy)]
pub enum KeyOp<'a> {
    Create,
    /// Signs a digest.
    Sign { blob: &'a [u8], challenge: &'a [u8] },
    /// Opens what was sealed to the key.
    Unseal { blob: &'a [u8], sealed: &'a [u8] },
}

/// A value of a set, by what it holds.
pub enum Value {
    Utf8(Seq<u8>),
    Integer(u32),
    Octets(Seq<u8>),
    Der(Seq<u8>),
}

pub open spec fn holds(v: RefKeyValue, w: Value) -> bool {
    match (v, w) {
        (RefKeyValue::Utf8(a), Value::Utf8(b)) => a@ == b,
        (RefKeyValue::Integer(a), Value::Integer(b)) => a == b,
        (RefKeyValue::Octets(a), Value::Octets(b)) => a@ == b,
        (RefKeyValue::Der(a), Value::Der(b)) => a@ == b,
        _ => false,
    }
}

pub open spec fn is_item(i: Item, key: Seq<u8>, v: Value) -> bool {
    i.key@ == key && holds(i.value, v)
}

/// `o`, under which the operation stands.
pub open spec fn key_o() -> Seq<u8> {
    seq![0x6fu8]
}

/// `d`, under which the data stands.
pub open spec fn key_d() -> Seq<u8> {
    seq![0x64u8]
}

/// `rk`, under which the key stands.
pub open spec fn key_rk() -> Seq<u8> {
    seq![0x72u8, 0x6b]
}

/// `pub`, under which the public half stands.
pub open spec fn key_pub() -> Seq<u8> {
    seq![0x70u8, 0x75, 0x62]
}

/// `bc`, under which the class stands.
pub open spec fn key_bc() -> Seq<u8> {
    seq![0x62u8, 0x63]
}

/// `kt`, under which the type stands.
pub open spec fn key_kt() -> Seq<u8> {
    seq![0x6bu8, 0x74]
}

/// `oc`.
pub open spec fn op_create() -> Seq<u8> {
    seq![0x6fu8, 0x63]
}

/// `osgn`.
pub open spec fn op_sign() -> Seq<u8> {
    seq![0x6fu8, 0x73, 0x67, 0x6e]
}

/// `oecd`.
pub open spec fn op_unseal() -> Seq<u8> {
    seq![0x6fu8, 0x65, 0x63, 0x64]
}

/// The three values that make up the request for an operation.
pub open spec fn asks(op: KeyOp<'_>, items: Seq<Item>) -> bool {
    &&& items.len() == 3
    &&& match op {
        KeyOp::Create => {
            &&& is_item(items[0], key_o(), Value::Utf8(op_create()))
            &&& is_item(items[1], key_bc(), Value::Integer(9))
            &&& is_item(items[2], key_kt(), Value::Integer(5))
        },
        KeyOp::Sign { blob, challenge } => {
            &&& is_item(items[0], key_o(), Value::Utf8(op_sign()))
            &&& is_item(items[1], key_d(), Value::Octets(challenge@))
            &&& is_item(items[2], key_rk(), Value::Der(blob@))
        },
        KeyOp::Unseal { blob, sealed } => {
            &&& is_item(items[0], key_o(), Value::Utf8(op_unseal()))
            &&& is_item(items[1], key_d(), Value::Octets(sealed@))
            &&& is_item(items[2], key_rk(), Value::Der(blob@))
        },
    }
}

fn item(key: Vec<u8>, value: RefKeyValue) -> (i: Item)
    ensures
        i.key@ == key@,
        i.value == value,
{
    Item { key, value }
}

fn data_items(op: Vec<u8>, data: &[u8], blob: &[u8]) -> (items: Vec<Item>)
    ensures
        items.len() == 3,
        is_item(items@[0], key_o(), Value::Utf8(op@)),
        is_item(items@[1], key_d(), Value::Octets(data@)),
        is_item(items@[2], key_rk(), Value::Der(blob@)),
{
    let mut items: Vec<Item> = Vec::new();
    let o: Vec<u8> = vec![0x6f];
    let d: Vec<u8> = vec![0x64];
    let rk: Vec<u8> = vec![0x72, 0x6b];
    assert(o@ =~= key_o());
    assert(d@ =~= key_d());
    assert(rk@ =~= key_rk());
    items.push(item(o, RefKeyValue::Utf8(op)));
    items.push(item(d, RefKeyValue::Octets(copy_of(data))));
    items.push(item(rk, RefKeyValue::Der(copy_of(blob))));
    items
}

/// The values of the request for an operation.
pub fn op_items(op: &KeyOp<'_>) -> (items: Vec<Item>)
    ensures
        asks(*op, items@),
{
    match *op {
        KeyOp::Create => {
            let mut items: Vec<Item> = Vec::new();
            let o: Vec<u8> = vec![0x6f];
            let oc: Vec<u8> = vec![0x6f, 0x63];
            let bc: Vec<u8> = vec![0x62, 0x63];
            let kt: Vec<u8> = vec![0x6b, 0x74];
            assert(o@ =~= key_o());
            assert(oc@ =~= op_create());
            assert(bc@ =~= key_bc());
            assert(kt@ =~= key_kt());
            items.push(item(o, RefKeyValue::Utf8(oc)));
            items.push(item(bc, RefKeyValue::Integer(PROTECTION_CLASS)));
            items.push(item(kt, RefKeyValue::Integer(KEY_TYPE)));
            items
        },
        KeyOp::Sign { blob, challenge } => {
            let name: Vec<u8> = vec![0x6f, 0x73, 0x67, 0x6e];
            assert(name@ =~= op_sign());
            data_items(name, challenge, blob)
        },
        KeyOp::Unseal { blob, sealed } => {
            let name: Vec<u8> = vec![0x6f, 0x65, 0x63, 0x64];
            assert(name@ =~= op_unseal());
            data_items(name, sealed, blob)
        },
    }
}

/// The envelope in which a set is sent: the bag whose keys are used, the
/// envelope's version and the set.
pub open spec fn envelope(keybag: int, der: Seq<u8>) -> Seq<u8> {
    prefix(0) + i32_le(keybag) + u32_le(2) + blob_bytes(der)
}

/// Whether `s` is the set for an operation.
pub open spec fn is_request(op: KeyOp<'_>, s: Seq<u8>) -> bool {
    exists|items: Seq<Item>| #[trigger] asks(op, items) && encodable(items) && s == set_bytes(items)
}

/// Puts a set into the envelope. One whose length does not fit 32 bits is
/// refused.
pub fn req_refkey(keybag: KeyBagHandle, der_set: &[u8]) -> (r: Result<SksRequest, Errno>)
    ensures
        match r {
            Ok(req) => der_set.len() <= u32::MAX && req.selector == OP_SKS_PERFORM_OPERATION
                && req.body@ == envelope(keybag.0 as int, der_set@),
            Err(e) => der_set.len() > u32::MAX && e == Errno::EINVAL,
        },
{
    let mut body = start_body(0);
    body.put_i32(keybag.value());
    body.put_u32(REFKEY_ENVELOPE_VERSION);
    match body.put_blob(der_set) {
        Ok(_) => Ok(SksRequest { selector: OP_SKS_PERFORM_OPERATION, body }),
        Err(e) => Err(e),
    }
}

/// The request for an operation. There is none where its values do not make a
/// set.
pub fn op_request(keybag: KeyBagHandle, op: &KeyOp<'_>) -> (r: Option<SksRequest>)
    ensures
        match r {
            Some(req) => req.selector == OP_SKS_PERFORM_OPERATION && exists|s: Seq<u8>| #[trigger]
                is_request(*op, s) && req.body@ == envelope(keybag.0 as int, s),
            None => exists|items: Seq<Item>| #[trigger] asks(*op, items) && !encodable(items),
        },
{
    let items = op_items(op);
    match encode_refkey_set(&items) {
        Err(_) => None,
        Ok(der) => {
            assert(is_request(*op, der@));
            proof {
                assert(der@.len() <= 0x1_0004) by {
                    let j = joined(ordered(items@, items.len() as int));
                    assert(set_bytes(items@).len() <= j.len() + 4);
                }
            }
            match req_refkey(keybag, &der) {
                Ok(req) => Some(req),
                Err(_) => None,
            }
        },
    }
}

// ---------------------------------------------------------------------------
// What the enclave answers.
// ---------------------------------------------------------------------------
/// The blob in the answer to an operation that went well.
pub open spec fn op_result(out: Option<&SksOutcome>) -> Option<Seq<u8>> {
    match out {
        None => None,
        Some(o) => if o.succeeded() {
            match blob_at(o.body()->0, 4) {
                Some((b, _)) => Some(b),
                None => None,
            }
        } else {
            None
        },
    }
}

/// What an operation made: a key, or what was unsealed.
pub fn op_outcome(out: Option<&SksOutcome>) -> (r: Option<Vec<u8>>)
    ensures
        match r {
            Some(b) => op_result(out) == Some(b@),
            None => op_result(out) is None,
        },
{
    match out {
        None => None,
        Some(o) => match blob_of_success(o) {
            Some(b) => Some(copy_of(b)),
            None => None,
        },
    }
}

/// The signature in the answer to a request for one. The enclave wraps it once
/// more, which is taken off where it is there.
pub open spec fn signature_in(out: Option<&SksOutcome>) -> Option<Seq<u8>> {
    match op_result(out) {
        None => None,
        Some(b) => Some(
            match octets_in(b) {
                Some(inner) => inner,
                None => b,
            },
        ),
    }
}

pub fn signature(out: Option<&SksOutcome>) -> (r: Option<Vec<u8>>)
    ensures
        match r {
            Some(b) => signature_in(out) == Some(b@),
            None => signature_in(out) is None,
        },
{
    match op_outcome(out) {
        None => None,
        Some(b) => match octet_string_body(&b) {
            Some(inner) => Some(copy_of(inner)),
            None => Some(b),
        },
    }
}

/// The public half that a key's blob names: a point, in the key's own set.
pub open spec fn public_half(blob: Seq<u8>) -> Option<Seq<u8>> {
    match found(blob, key_rk()) {
        None => None,
        Some(rk) => match found(rk, key_pub()) {
            None => None,
            Some(v) => match octets_in(v) {
                Some(p) => if p.len() == 65 {
                    Some(p)
                } else {
                    None
                },
                None => None,
            },
        },
    }
}

pub fn refkey_pub(blob: &[u8]) -> (r: Option<Vec<u8>>)
    ensures
        match r {
            Some(p) => public_half(blob@) == Some(p@),
            None => public_half(blob@) is None,
        },
{
    let rk_name: [u8; 2] = [0x72, 0x6b];
    let pub_name: [u8; 3] = [0x70, 0x75, 0x62];
    assert(rk_name@ =~= key_rk());
    assert(pub_name@ =~= key_pub());
    match refkey_find(blob, rk_name.as_slice()) {
        None => None,
        Some(rk) => match refkey_find(rk, pub_name.as_slice()) {
            None => None,
            Some(v) => match octet_string_body(v) {
                None => None,
                Some(p) => {
                    if p.len() == POINT_LEN {
                        Some(copy_of(p))
                    } else {
                        None
                    }
                },
            },
        },
    }
}

// ---------------------------------------------------------------------------
// The key that is kept.
// ---------------------------------------------------------------------------
/// A key: its blob, and the public half that stands in it.
pub struct MachineRefKey {
    pub blob: Vec<u8>,
    pub pub_raw: Vec<u8>,
}

impl MachineRefKey {
    pub open spec fn wf(&self) -> bool {
        public_half(self.blob@) == Some(self.pub_raw@)
    }
}

/// The machine's key, once it is known.
pub struct Kept {
    key: Option<MachineRefKey>,
}

impl Kept {
    /// The blob of the key that is kept.
    pub closed spec fn view(&self) -> Option<Seq<u8>> {
        match self.key {
            Some(k) => Some(k.blob@),
            None => None,
        }
    }

    pub closed spec fn wf(&self) -> bool {
        match self.key {
            Some(k) => k.wf(),
            None => true,
        }
    }

    /// What is kept always has a public half.
    pub proof fn kept_has_public_half(&self)
        requires
            self.wf(),
            self@ is Some,
        ensures
            public_half(self@->0) is Some,
    {
    }

    pub fn new() -> (k: Kept)
        ensures
            k.wf(),
            k@ is None,
    {
        Kept { key: None }
    }

    pub fn is_known(&self) -> (r: bool)
        ensures
            r == (self@ is Some),
    {
        self.key.is_some()
    }

    /// Keeps a key, if a public half stands in its blob.
    pub fn cache(&mut self, blob: Vec<u8>) -> (r: bool)
        requires
            old(self).wf(),
        ensures
            final(self).wf(),
            r == (public_half(blob@) is Some),
            final(self)@ == (if r {
                Some(blob@)
            } else {
                old(self)@
            }),
    {
        match refkey_pub(&blob) {
            None => false,
            Some(pub_raw) => {
                self.key = Some(MachineRefKey { blob, pub_raw });
                true
            },
        }
    }

    /// Takes the key from its file, given the file's bytes where it could be
    /// read. An empty file and one that is too long are passed over.
    pub fn load(&mut self, file: Option<Vec<u8>>) -> (r: bool)
        requires
            old(self).wf(),
        ensures
            final(self).wf(),
            r == loadable(file),
            final(self)@ == (if r {
                Some(file->0@)
            } else {
                old(self)@
            }),
    {
        match file {
            None => false,
            Some(b) => {
                if b.len() < 1 || b.len() > MAX_KEY_FILE {
                    return false;
                }
                self.cache(b)
            },
        }
    }

    /// The point that a key is sealed to.
    pub fn recipient(&self) -> (r: Result<Vec<u8>, Errno>)
        requires
            self.wf(),
        ensures
            match r {
                Ok(p) => self@ is Some && public_half(self@->0) == Some(p@),
                Err(e) => self@ is None && e == Errno::ENODEV,
            },
    {
        match &self.key {
            Some(k) => Ok(copy_of(&k.pub_raw)),
            None => Err(Errno::ENODEV),
        }
    }

    /// The blob that names the key to the enclave.
    pub fn blob(&self) -> (r: Result<Vec<u8>, Errno>)
        ensures
            match r {
                Ok(b) => self@ == Some(b@),
                Err(e) => self@ is None && e == Errno::ENODEV,
            },
    {
        match &self.key {
            Some(k) => Ok(copy_of(&k.blob)),
            None => Err(Errno::ENODEV),
        }
    }
}

/// Whether a file holds a key.
pub open spec fn loadable(file: Option<Vec<u8>>) -> bool {
    match file {
        None => false,
        Some(b) => 1 <= b.len() <= 8192 && public_half(b@) is Some,
    }
}

// ---------------------------------------------------------------------------
// Finding the key.
// ---------------------------------------------------------------------------
#[derive(Clone, Copy, Debug, PartialEq, Eq, Structural)]
pub enum FindStage {
    File,
    Health,
    Unlock,
    Create,
    Write,
    Sync,
    Keep,
    Over,
}

/// What is to be done next to find the key.
#[derive(Debug, PartialEq, Eq)]
pub enum FindAsk<B = Vec<u8>> {
    /// Take the key from its file, and tell whether that worked.
    LoadFile,
    /// Have the enclave's health checked, and tell how that went.
    CheckHealth,
    /// Unlock this bag with this secret: without that no key is made in it.
    Unlock(KeyBagHandle, B, Healthy),
    /// Have a key made in this bag, and tell it.
    Create(KeyBagHandle),
    /// Write this key to its file, and tell whether that worked.
    WriteFile(B),
    SyncFile,
    /// Keep this key.
    Keep(B),
    Done,
}

/// How that went.
#[derive(Debug, PartialEq, Eq)]
pub enum FindEvent<B = Vec<u8>> {
    /// It worked, or did not; or it was done, for what has no outcome.
    Worked(bool),
    /// The health check, if it was passed.
    Health(Option<Healthy>),
    /// The key that was made.
    Made(Option<B>),
}

pub type FindAskView = FindAsk<Seq<u8>>;

pub type FindEventView = FindEvent<Seq<u8>>;

impl View for FindAsk {
    type V = FindAskView;

    open spec fn view(&self) -> FindAskView {
        match self {
            FindAsk::LoadFile => FindAsk::LoadFile,
            FindAsk::CheckHealth => FindAsk::CheckHealth,
            FindAsk::Unlock(h, s, p) => FindAsk::Unlock(*h, s@, *p),
            FindAsk::Create(h) => FindAsk::Create(*h),
            FindAsk::WriteFile(k) => FindAsk::WriteFile(k@),
            FindAsk::SyncFile => FindAsk::SyncFile,
            FindAsk::Keep(k) => FindAsk::Keep(k@),
            FindAsk::Done => FindAsk::Done,
        }
    }
}

impl View for FindEvent {
    type V = FindEventView;

    open spec fn view(&self) -> FindEventView {
        match self {
            FindEvent::Worked(ok) => FindEvent::Worked(*ok),
            FindEvent::Health(p) => FindEvent::Health(*p),
            FindEvent::Made(k) => FindEvent::Made(seen(*k)),
        }
    }
}

/// The bytes of a value that may be there.
pub open spec fn seen(b: Option<Vec<u8>>) -> Option<Seq<u8>> {
    match b {
        Some(v) => Some(v@),
        None => None,
    }
}

/// Finding the key: in its file, or by having one made while the bag is loaded. A
/// key that cannot be written to its file is kept all the same.
#[derive(Debug, PartialEq, Eq)]
pub struct FindKey<B = Vec<u8>> {
    pub stage: FindStage,
    /// The bag in which a key would be made.
    pub handle: KeyBagHandle,
    /// Its secret, until it is used.
    pub secret: Option<B>,
    /// The key that was made, until it is kept.
    pub made: Option<B>,
}

pub type FindKeyView = FindKey<Seq<u8>>;

impl View for FindKey {
    type V = FindKeyView;

    open spec fn view(&self) -> FindKeyView {
        FindKey {
            stage: self.stage,
            handle: self.handle,
            secret: seen(self.secret),
            made: seen(self.made),
        }
    }
}

pub open spec fn find_at(m: FindKeyView, stage: FindStage, ask: FindAskView) -> (
    FindKeyView,
    FindAskView,
) {
    (FindKey { stage, ..m }, ask)
}

/// Nothing is left to be done: the secret and the key that was made are let go.
pub open spec fn find_over(m: FindKeyView) -> (FindKeyView, FindAskView) {
    (FindKey { stage: FindStage::Over, secret: None, made: None, ..m }, FindAsk::Done)
}

/// Goes on to keep the key that was made.
pub open spec fn find_keep(m: FindKeyView) -> (FindKeyView, FindAskView) {
    match m.made {
        Some(k) => (
            FindKey { stage: FindStage::Keep, made: None, ..m },
            FindAsk::Keep(k),
        ),
        None => find_over(m),
    }
}

/// What comes after a step, given how it went. Whether the bag could be unlocked
/// does not matter here: if it could not, no key is made.
pub open spec fn find_step(m: FindKeyView, e: FindEventView) -> (FindKeyView, FindAskView) {
    match m.stage {
        FindStage::File => if e == FindEventView::Worked(true) {
            find_over(m)
        } else {
            find_at(m, FindStage::Health, FindAsk::CheckHealth)
        },
        FindStage::Health => match (e, m.secret) {
            (FindEvent::Health(Some(healthy)), Some(secret)) => (
                FindKey { stage: FindStage::Unlock, secret: None, ..m },
                FindAsk::Unlock(m.handle, secret, healthy),
            ),
            _ => (
                FindKey { stage: FindStage::Create, secret: None, ..m },
                FindAsk::Create(m.handle),
            ),
        },
        FindStage::Unlock => find_at(m, FindStage::Create, FindAsk::Create(m.handle)),
        FindStage::Create => match e {
            FindEvent::Made(Some(k)) => (
                FindKey { stage: FindStage::Write, made: Some(k), ..m },
                FindAsk::WriteFile(k),
            ),
            _ => find_over(m),
        },
        FindStage::Write => if e == FindEventView::Worked(true) {
            find_at(m, FindStage::Sync, FindAsk::SyncFile)
        } else {
            find_keep(m)
        },
        FindStage::Sync => find_keep(m),
        FindStage::Keep | FindStage::Over => find_over(m),
    }
}

/// Lets go of bytes that may be secret, which are overwritten first.
fn forget(b: Option<Vec<u8>>) {
    if let Some(v) = b {
        let mut v = v;
        wipe(&mut v);
    }
}

impl FindKey {
    /// Starts, unless the key is known, with the bag that is loaded and its
    /// secret.
    pub fn start(known: bool, handle: KeyBagHandle, secret: Vec<u8>) -> (r: (FindKey, FindAsk))
        ensures
            (r.0@, r.1@) == ({
                let m = FindKey {
                    stage: FindStage::File,
                    handle,
                    secret: Some(secret@),
                    made: None::<Seq<u8>>,
                };
                if known {
                    find_over(m)
                } else {
                    (m, FindAsk::LoadFile)
                }
            }),
    {
        if known {
            forget(Some(secret));
            (FindKey { stage: FindStage::Over, handle, secret: None, made: None }, FindAsk::Done)
        } else {
            (
                FindKey { stage: FindStage::File, handle, secret: Some(secret), made: None },
                FindAsk::LoadFile,
            )
        }
    }

    fn go(&mut self, stage: FindStage, ask: FindAsk) -> (a: FindAsk)
        ensures
            (final(self)@, a@) == find_at(old(self)@, stage, ask@),
    {
        self.stage = stage;
        ask
    }

    fn over(&mut self) -> (a: FindAsk)
        ensures
            (final(self)@, a@) == find_over(old(self)@),
    {
        forget(self.secret.take());
        forget(self.made.take());
        self.go(FindStage::Over, FindAsk::Done)
    }

    fn keep(&mut self) -> (a: FindAsk)
        ensures
            (final(self)@, a@) == find_keep(old(self)@),
    {
        match self.made.take() {
            Some(k) => self.go(FindStage::Keep, FindAsk::Keep(k)),
            None => self.over(),
        }
    }

    fn checked(&mut self, healthy: Option<Healthy>) -> (a: FindAsk)
        requires
            old(self).stage is Health,
        ensures
            (final(self)@, a@) == find_step(old(self)@, FindEvent::Health(healthy)),
    {
        let handle = self.handle;
        match (healthy, self.secret.take()) {
            (Some(p), Some(secret)) => self.go(
                FindStage::Unlock,
                FindAsk::Unlock(handle, secret, p),
            ),
            (_, secret) => {
                forget(secret);
                self.go(FindStage::Create, FindAsk::Create(handle))
            },
        }
    }

    /// Takes in how the step went, and says what comes next.
    pub fn step(&mut self, e: FindEvent) -> (a: FindAsk)
        ensures
            (final(self)@, a@) == find_step(old(self)@, e@),
    {
        let worked = match &e {
            FindEvent::Worked(ok) => *ok,
            _ => false,
        };
        match self.stage {
            FindStage::File => {
                if worked {
                    self.over()
                } else {
                    self.go(FindStage::Health, FindAsk::CheckHealth)
                }
            },
            FindStage::Health => match e {
                FindEvent::Health(healthy) => self.checked(healthy),
                _ => self.checked(None),
            },
            FindStage::Unlock => {
                let handle = self.handle;
                self.go(FindStage::Create, FindAsk::Create(handle))
            },
            FindStage::Create => match e {
                FindEvent::Made(Some(k)) => {
                    let copy = copy_of(&k);
                    self.made = Some(k);
                    self.go(FindStage::Write, FindAsk::WriteFile(copy))
                },
                _ => self.over(),
            },
            FindStage::Write => {
                if worked {
                    self.go(FindStage::Sync, FindAsk::SyncFile)
                } else {
                    self.keep()
                }
            },
            FindStage::Sync => self.keep(),
            FindStage::Keep | FindStage::Over => self.over(),
        }
    }
}

/// A key is made only where its file holds none, in the bag that is loaded, and
/// the one that was made is what is written and what is kept; the bag is only
/// unlocked for it when the enclave was found healthy, and with its own secret.
pub proof fn key_is_made_once(m: FindKeyView, e: FindEventView)
    ensures
        find_step(m, e).0.handle == m.handle,
        find_step(m, e).1 == FindAskView::CheckHealth ==> m.stage is File && e
            != FindEventView::Worked(true),
        find_step(m, e).1 matches FindAsk::Unlock(h, s, p) ==> m.stage is Health && h == m.handle
            && m.secret == Some(s) && e == FindEventView::Health(Some(p)),
        find_step(m, e).1 matches FindAsk::Create(h) ==> (m.stage is Health || m.stage is Unlock)
            && h == m.handle,
        m.stage is Create ==> (e matches FindEvent::Made(Some(k)) ==> find_step(m, e).1
            == FindAskView::WriteFile(k) && find_step(m, e).0.made == Some(k)),
        m.stage is Write && m.made is Some ==> find_step(m, e).1 == FindAskView::Keep(m.made->0)
            || (find_step(m, e).1 == FindAskView::SyncFile && find_step(m, e).0.made == m.made),
        m.stage is Sync && m.made is Some ==> find_step(m, e).1 == FindAskView::Keep(m.made->0),
{
}

// ---------------------------------------------------------------------------
// The procedures.
// ---------------------------------------------------------------------------
/// What a key is wanted for.
#[derive(Clone, Copy, Debug, PartialEq, Eq, Structural)]
pub enum Purpose {
    /// Sealing needs the public half alone.
    Seal,
    /// Unsealing and signing are asked of the enclave.
    Operate,
}

#[derive(Clone, Copy, Debug, PartialEq, Eq, Structural)]
pub enum Stage {
    Begin,
    FindBag,
    FindRecover,
    FindKey,
    FindUnload,
    UseBag,
    UseRecover,
    UseHealth,
    UseUnlock,
    UseOperate,
    UseUnload,
    Over,
}

/// What is to be done next.
#[derive(Debug, PartialEq, Eq)]
pub enum Ask<B = Vec<u8>> {
    /// Read the stored key bag, and tell its secret.
    ReadBag,
    /// Load that bag into the enclave, check that it is the stored one, and tell
    /// its handle.
    Recover,
    /// Find the key in its file, or have it made in this bag, whose secret this
    /// is; and tell the key.
    FindKey(KeyBagHandle, B),
    CheckHealth,
    /// Unlock this bag with this secret.
    Unlock(KeyBagHandle, B, Healthy),
    /// Operate with this key while this bag is loaded, and tell the result.
    Operate(KeyBagHandle, B),
    /// Unload this bag.
    Unload(KeyBagHandle),
    /// The public half of this key can be used.
    Ready(B),
    /// The operation gave this result.
    Finished(B),
    Failed(Errno),
}

/// What happened.
#[derive(Debug, PartialEq, Eq)]
pub enum Event<B = Vec<u8>> {
    /// The key, where it is known, and whether the enclave's key store is up.
    Begin { key: Option<B>, ready: bool },
    /// The secret of the stored bag, if there is one.
    Bag(Result<Option<B>, Errno>),
    /// The handle of the bag, if it was loaded and is the stored one.
    Recovered(Option<KeyBagHandle>),
    /// The key, if it is known now.
    Key(Option<B>),
    Health(Option<Healthy>),
    Unlocked,
    /// What the operation gave.
    Operated(Option<B>),
    Unloaded,
}

pub type AskView = Ask<Seq<u8>>;

pub type EventView = Event<Seq<u8>>;

impl View for Ask {
    type V = AskView;

    open spec fn view(&self) -> AskView {
        match self {
            Ask::ReadBag => Ask::ReadBag,
            Ask::Recover => Ask::Recover,
            Ask::FindKey(h, s) => Ask::FindKey(*h, s@),
            Ask::CheckHealth => Ask::CheckHealth,
            Ask::Unlock(h, s, p) => Ask::Unlock(*h, s@, *p),
            Ask::Operate(h, k) => Ask::Operate(*h, k@),
            Ask::Unload(h) => Ask::Unload(*h),
            Ask::Ready(k) => Ask::Ready(k@),
            Ask::Finished(r) => Ask::Finished(r@),
            Ask::Failed(e) => Ask::Failed(*e),
        }
    }
}

impl View for Event {
    type V = EventView;

    open spec fn view(&self) -> EventView {
        match self {
            Event::Begin { key, ready } => Event::Begin { key: seen(*key), ready: *ready },
            Event::Bag(Ok(s)) => Event::Bag(Ok(seen(*s))),
            Event::Bag(Err(e)) => Event::Bag(Err(*e)),
            Event::Recovered(h) => Event::Recovered(*h),
            Event::Key(k) => Event::Key(seen(*k)),
            Event::Health(p) => Event::Health(*p),
            Event::Unlocked => Event::Unlocked,
            Event::Operated(r) => Event::Operated(seen(*r)),
            Event::Unloaded => Event::Unloaded,
        }
    }
}

/// The use of the machine's key, from finding it to the result.
#[derive(Debug, PartialEq, Eq)]
pub struct UseKey<B = Vec<u8>> {
    pub purpose: Purpose,
    pub stage: Stage,
    /// The bag that is loaded.
    pub handle: Option<KeyBagHandle>,
    /// The secret of the stored bag, until it is used.
    pub secret: Option<B>,
    /// The key, once it is known.
    pub key: Option<B>,
    /// What the operation gave, until it is handed out.
    pub result: Option<B>,
}

pub type UseKeyView = UseKey<Seq<u8>>;

impl View for UseKey {
    type V = UseKeyView;

    open spec fn view(&self) -> UseKeyView {
        UseKey {
            purpose: self.purpose,
            stage: self.stage,
            handle: self.handle,
            secret: seen(self.secret),
            key: seen(self.key),
            result: seen(self.result),
        }
    }
}

impl<B> UseKey<B> {
    /// What a stage needs is there.
    pub open spec fn wf(self) -> bool {
        match self.stage {
            Stage::FindRecover => self.secret is Some,
            Stage::FindKey => self.handle is Some,
            Stage::UseBag => self.key is Some,
            Stage::UseRecover => self.secret is Some && self.key is Some,
            Stage::UseHealth => self.handle is Some && self.secret is Some && self.key is Some,
            Stage::UseUnlock | Stage::UseOperate => self.handle is Some && self.key is Some,
            _ => true,
        }
    }
}

pub open spec fn to(m: UseKeyView, stage: Stage, ask: AskView) -> (UseKeyView, AskView) {
    (UseKey { stage, ..m }, ask)
}

/// Ends; the secret and the result are let go.
pub open spec fn fail(m: UseKeyView, e: Errno) -> (UseKeyView, AskView) {
    (UseKey { stage: Stage::Over, secret: None, result: None, ..m }, Ask::Failed(e))
}

/// What follows once it is settled whether the key is known: sealing can start,
/// and the rest needs the bag.
pub open spec fn known(m: UseKeyView) -> (UseKeyView, AskView) {
    match (m.key, m.purpose) {
        (None, _) => fail(m, Errno::EIO),
        (Some(k), Purpose::Seal) => to(m, Stage::Over, Ask::Ready(k)),
        (Some(_), Purpose::Operate) => to(m, Stage::UseBag, Ask::ReadBag),
    }
}

pub open spec fn bag_step(m: UseKeyView, found: Result<Option<Seq<u8>>, Errno>, next: Stage) -> (
    UseKeyView,
    AskView,
) {
    match found {
        Err(e) => fail(m, e),
        Ok(None) => fail(m, Errno::ENODEV),
        Ok(Some(secret)) => (UseKey { stage: next, secret: Some(secret), ..m }, Ask::Recover),
    }
}

pub open spec fn use_step(m: UseKeyView, e: EventView) -> (UseKeyView, AskView) {
    match (m.stage, e) {
        (Stage::Begin, Event::Begin { key, ready }) => if key is Some {
            known(UseKey { key, ..m })
        } else if !ready {
            fail(m, Errno::ENODEV)
        } else {
            to(m, Stage::FindBag, Ask::ReadBag)
        },
        (Stage::FindBag, Event::Bag(b)) => bag_step(m, b, Stage::FindRecover),
        (Stage::FindRecover, Event::Recovered(Some(h))) => (
            UseKey { stage: Stage::FindKey, handle: Some(h), secret: None, ..m },
            Ask::FindKey(h, m.secret->0),
        ),
        (Stage::FindRecover, Event::Recovered(None)) => fail(m, Errno::EIO),
        (Stage::FindKey, Event::Key(key)) => (
            UseKey { stage: Stage::FindUnload, handle: None, key, ..m },
            Ask::Unload(m.handle->0),
        ),
        (Stage::FindUnload, Event::Unloaded) => known(m),
        (Stage::UseBag, Event::Bag(b)) => bag_step(m, b, Stage::UseRecover),
        (Stage::UseRecover, Event::Recovered(Some(h))) => (
            UseKey { stage: Stage::UseHealth, handle: Some(h), ..m },
            Ask::CheckHealth,
        ),
        (Stage::UseRecover, Event::Recovered(None)) => fail(m, Errno::EIO),
        (Stage::UseHealth, Event::Health(Some(healthy))) => (
            UseKey { stage: Stage::UseUnlock, secret: None, ..m },
            Ask::Unlock(m.handle->0, m.secret->0, healthy),
        ),
        (Stage::UseHealth, Event::Health(None)) => (
            UseKey { stage: Stage::UseOperate, secret: None, ..m },
            Ask::Operate(m.handle->0, m.key->0),
        ),
        (Stage::UseUnlock, Event::Unlocked) => to(
            m,
            Stage::UseOperate,
            Ask::Operate(m.handle->0, m.key->0),
        ),
        (Stage::UseOperate, Event::Operated(result)) => (
            UseKey { stage: Stage::UseUnload, handle: None, result, ..m },
            Ask::Unload(m.handle->0),
        ),
        (Stage::UseUnload, Event::Unloaded) => match m.result {
            Some(r) => (UseKey { stage: Stage::Over, result: None, ..m }, Ask::Finished(r)),
            None => fail(m, Errno::EIO),
        },
        _ => fail(m, Errno::EINVAL),
    }
}

impl UseKey {
    pub fn start(purpose: Purpose) -> (m: UseKey)
        ensures
            m.wf(),
            m@ == (UseKey {
                purpose,
                stage: Stage::Begin,
                handle: None,
                secret: None::<Seq<u8>>,
                key: None,
                result: None,
            }),
    {
        UseKey {
            purpose,
            stage: Stage::Begin,
            handle: None,
            secret: None,
            key: None,
            result: None,
        }
    }

    fn go(&mut self, stage: Stage, ask: Ask) -> (a: Ask)
        ensures
            (final(self)@, a@) == to(old(self)@, stage, ask@),
    {
        self.stage = stage;
        ask
    }

    fn fail(&mut self, e: Errno) -> (a: Ask)
        ensures
            (final(self)@, a@) == fail(old(self)@, e),
    {
        forget(self.secret.take());
        forget(self.result.take());
        self.go(Stage::Over, Ask::Failed(e))
    }

    fn known(&mut self) -> (a: Ask)
        ensures
            (final(self)@, a@) == known(old(self)@),
            final(self).wf(),
    {
        let copy = match &self.key {
            Some(k) => copy_of(k),
            None => {
                return self.fail(Errno::EIO);
            },
        };
        match self.purpose {
            Purpose::Seal => self.go(Stage::Over, Ask::Ready(copy)),
            Purpose::Operate => self.go(Stage::UseBag, Ask::ReadBag),
        }
    }

    fn bag(&mut self, found: Result<Option<Vec<u8>>, Errno>, next: Stage) -> (a: Ask)
        ensures
            (final(self)@, a@) == bag_step(old(self)@, Event::Bag(found)@->Bag_0, next),
    {
        match found {
            Err(e) => self.fail(e),
            Ok(Some(secret)) => {
                self.secret = Some(secret);
                self.go(next, Ask::Recover)
            },
            Ok(None) => self.fail(Errno::ENODEV),
        }
    }

    /// Unloads the bag that is loaded, and goes on.
    fn unload(&mut self, stage: Stage) -> (a: Ask)
        requires
            old(self).handle is Some,
        ensures
            (final(self)@, a@) == (
                UseKey { stage, handle: None, ..old(self)@ },
                AskView::Unload(old(self).handle->0),
            ),
    {
        match self.handle.take() {
            Some(h) => self.go(stage, Ask::Unload(h)),
            None => self.go(stage, Ask::ReadBag),
        }
    }

    /// Has the operation done in the bag that is loaded.
    fn operate(&mut self) -> (a: Ask)
        requires
            old(self).handle is Some,
            old(self).key is Some,
        ensures
            (final(self)@, a@) == to(
                old(self)@,
                Stage::UseOperate,
                Ask::Operate(old(self).handle->0, old(self)@.key->0),
            ),
    {
        let copy = match &self.key {
            Some(k) => copy_of(k),
            None => Vec::new(),
        };
        match self.handle {
            Some(h) => self.go(Stage::UseOperate, Ask::Operate(h, copy)),
            None => self.go(Stage::UseOperate, Ask::ReadBag),
        }
    }

    fn checked(&mut self, healthy: Option<Healthy>) -> (a: Ask)
        requires
            old(self).wf(),
            old(self).stage is UseHealth,
        ensures
            (final(self)@, a@) == use_step(old(self)@, Event::Health(healthy)),
            final(self).wf(),
    {
        match (self.handle, self.secret.take(), healthy) {
            (Some(h), Some(secret), Some(p)) => self.go(
                Stage::UseUnlock,
                Ask::Unlock(h, secret, p),
            ),
            (_, secret, _) => {
                forget(secret);
                self.operate()
            },
        }
    }

    fn recovered(&mut self, handle: Option<KeyBagHandle>) -> (a: Ask)
        requires
            old(self).wf(),
            old(self).stage is FindRecover || old(self).stage is UseRecover,
        ensures
            (final(self)@, a@) == use_step(old(self)@, Event::Recovered(handle)),
            final(self).wf(),
    {
        let h = match handle {
            Some(h) => h,
            None => {
                return self.fail(Errno::EIO);
            },
        };
        self.handle = Some(h);
        if self.stage == Stage::UseRecover {
            return self.go(Stage::UseHealth, Ask::CheckHealth);
        }
        match self.secret.take() {
            Some(secret) => self.go(Stage::FindKey, Ask::FindKey(h, secret)),
            None => self.go(Stage::FindKey, Ask::ReadBag),
        }
    }

    /// Takes in what happened and says what comes next. An event that does not
    /// fit the stage ends the use.
    pub fn step(&mut self, e: Event) -> (a: Ask)
        requires
            old(self).wf(),
        ensures
            final(self).wf(),
            (final(self)@, a@) == use_step(old(self)@, e@),
    {
        match (self.stage, e) {
            (Stage::Begin, Event::Begin { key, ready }) => {
                if key.is_some() {
                    self.key = key;
                    self.known()
                } else if !ready {
                    self.fail(Errno::ENODEV)
                } else {
                    self.go(Stage::FindBag, Ask::ReadBag)
                }
            },
            (Stage::FindBag, Event::Bag(b)) => self.bag(b, Stage::FindRecover),
            (Stage::FindRecover, Event::Recovered(h)) => self.recovered(h),
            (Stage::FindKey, Event::Key(key)) => {
                self.key = key;
                self.unload(Stage::FindUnload)
            },
            (Stage::FindUnload, Event::Unloaded) => self.known(),
            (Stage::UseBag, Event::Bag(b)) => self.bag(b, Stage::UseRecover),
            (Stage::UseRecover, Event::Recovered(h)) => self.recovered(h),
            (Stage::UseHealth, Event::Health(h)) => self.checked(h),
            (Stage::UseUnlock, Event::Unlocked) => self.operate(),
            (Stage::UseOperate, Event::Operated(result)) => {
                self.result = result;
                self.unload(Stage::UseUnload)
            },
            (Stage::UseUnload, Event::Unloaded) => match self.result.take() {
                Some(r) => self.go(Stage::Over, Ask::Finished(r)),
                None => self.fail(Errno::EIO),
            },
            _ => self.fail(Errno::EINVAL),
        }
    }
}

// ---------------------------------------------------------------------------
// Laws.
// ---------------------------------------------------------------------------
/// A bag that was loaded is unloaded again: until that very bag is to be
/// unloaded it stays the one that is loaded, and the use does not end.
pub proof fn loaded_bag_is_unloaded(m: UseKeyView, e: EventView)
    requires
        m.wf(),
        bag_is_loaded(m.stage),
        awaited(m.stage, e),
    ensures
        use_step(m, e).1 == AskView::Unload(m.handle->0) || (bag_is_loaded(use_step(m, e).0.stage)
            && use_step(m, e).0.handle == m.handle),
{
}

/// What a stage needs stays there.
proof fn step_keeps_wf(m: UseKeyView, e: EventView)
    requires
        m.wf(),
    ensures
        use_step(m, e).0.wf(),
{
}

/// The enclave is only told to unlock the bag when it was found healthy; it is
/// the bag that was loaded, and the secret is that of the stored bag.
pub proof fn unlocking_needs_health(m: UseKeyView, e: EventView)
    ensures
        use_step(m, e).1 matches Ask::Unlock(h, s, p) ==> m.stage is UseHealth && e
            == EventView::Health(Some(p)) && h == m.handle->0 && s == m.secret->0,
{
}

/// An operation is done with the key that is known and in the bag that was
/// loaded, and its result is what the use ends with.
pub proof fn operation_is_on_its_key(m: UseKeyView, e: EventView, result: Seq<u8>)
    requires
        m.wf(),
    ensures
        use_step(m, e).1 matches Ask::Operate(h, k) ==> m.handle == Some(h) && m.key == Some(k),
        m.stage is UseOperate ==> use_step(
            use_step(m, EventView::Operated(Some(result))).0,
            EventView::Unloaded,
        ).1 == AskView::Finished(result),
{
}

/// A use ends well only if what was wanted succeeded: the key is known, and, for
/// an operation, the operation gave a result and the bag was unloaded.
pub proof fn ending_well_needs_success(m: UseKeyView, e: EventView)
    ensures
        use_step(m, e).1 matches Ask::Finished(r) ==> m.stage is UseUnload && m.result == Some(r)
            && e == EventView::Unloaded,
        use_step(m, e).1 matches Ask::Ready(k) ==> m.purpose == Purpose::Seal && ((m.stage is Begin
            && (e matches Event::Begin { key, .. } && key == Some(k))) || (m.stage is FindUnload
            && m.key == Some(k) && e == EventView::Unloaded)),
{
}

/// The data that an operation is on.
pub open spec fn data_of(op: KeyOp<'_>) -> Seq<u8> {
    match op {
        KeyOp::Create => Seq::empty(),
        KeyOp::Sign { blob, challenge } => challenge@,
        KeyOp::Unseal { blob, sealed } => sealed@,
    }
}

/// The key that an operation uses.
pub open spec fn key_of(op: KeyOp<'_>) -> Seq<u8> {
    match op {
        KeyOp::Create => Seq::empty(),
        KeyOp::Sign { blob, challenge } => blob@,
        KeyOp::Unseal { blob, sealed } => blob@,
    }
}

/// The enclave finds in the request what was put in: the data, and the key,
/// which has to be one value. The request has to be short enough to be read.
pub proof fn request_names_its_parts(op: KeyOp<'_>, items: Seq<Item>)
    requires
        asks(op, items),
        encodable(items),
        joined(ordered(items, 3)).len() <= MAX_ITEM,
        op !is Create,
        is_single(key_of(op)),
    ensures
        found(set_bytes(items), key_d()) == Some(tlv(TAG_OCTET_STRING, data_of(op))),
        found(set_bytes(items), key_rk()) == Some(key_of(op)),
{
    assert(key_o()[0] != key_d()[0] && key_o().len() != key_rk().len());
    assert(key_d().len() != key_rk().len());
    assert forall|i: int|
        0 <= i < items.len() && (#[trigger] items[i]).key@ == items[1].key@ implies items[i]
        == items[1] by {
        assert(i == 0 || i == 1 || i == 2);
    }
    assert forall|i: int|
        0 <= i < items.len() && (#[trigger] items[i]).key@ == items[2].key@ implies items[i]
        == items[2] by {
        assert(i == 0 || i == 1 || i == 2);
    }
    assert(items[1].fits());
    octets_round_trip(data_of(op));
    find_gives_back_encode(items, 1);
    find_gives_back_encode(items, 2);
}

/// A key that was made and written to its file is what the next start takes
/// from there, if the file is not too long.
pub proof fn made_key_is_loaded_again(made: Vec<u8>, file: Vec<u8>)
    requires
        file@ == made@,
        public_half(made@) is Some,
        made.len() <= 8192,
    ensures
        loadable(Some(file)),
{
    assert(made@.len() > 0);
}

/// Whether an event is one that the stage waits for.
pub open spec fn awaited(s: Stage, e: EventView) -> bool {
    match s {
        Stage::Begin => e is Begin,
        Stage::FindBag | Stage::UseBag => e is Bag,
        Stage::FindRecover | Stage::UseRecover => e is Recovered,
        Stage::FindKey => e is Key,
        Stage::UseHealth => e is Health,
        Stage::UseUnlock => e is Unlocked,
        Stage::UseOperate => e is Operated,
        Stage::FindUnload | Stage::UseUnload => e is Unloaded,
        Stage::Over => false,
    }
}

/// The machine after the first `n` of these events.
pub open spec fn use_run(m: UseKeyView, events: Seq<EventView>, n: int) -> UseKeyView
    decreases n,
{
    if n <= 0 {
        m
    } else {
        use_step(use_run(m, events, n - 1), events[n - 1]).0
    }
}

/// What is asked for on the event `n`.
pub open spec fn use_asked(m: UseKeyView, events: Seq<EventView>, n: int) -> AskView {
    use_step(use_run(m, events, n), events[n]).1
}

/// Whether the bag is loaded and not yet to be unloaded.
pub open spec fn bag_is_loaded(s: Stage) -> bool {
    s is FindKey || s is UseHealth || s is UseUnlock || s is UseOperate
}

proof fn run_keeps_wf(m: UseKeyView, events: Seq<EventView>, n: int)
    requires
        m.wf(),
        0 <= n <= events.len(),
    ensures
        use_run(m, events, n).wf(),
    decreases n,
{
    if n > 0 {
        run_keeps_wf(m, events, n - 1);
        step_keeps_wf(use_run(m, events, n - 1), events[n - 1]);
    }
}

/// Over a whole use: a bag that was loaded, that very one, is unloaded before the
/// use ends, well or not.
pub proof fn use_unloads_its_bag(m: UseKeyView, events: Seq<EventView>, k: int, n: int)
    requires
        m.wf(),
        0 <= k <= n < events.len(),
        forall|i: int|
            0 <= i <= n ==> awaited((#[trigger] use_run(m, events, i)).stage, events[i]),
        bag_is_loaded(use_run(m, events, k).stage),
        use_run(m, events, n + 1).stage is Over,
    ensures
        exists|j: int|
            k <= j < n && #[trigger] use_asked(m, events, j) == AskView::Unload(
                use_run(m, events, k).handle->0,
            ),
    decreases n - k,
{
    let now = use_run(m, events, k);
    run_keeps_wf(m, events, k);
    assert(awaited(now.stage, events[k]));
    loaded_bag_is_unloaded(now, events[k]);
    assert(use_run(m, events, k + 1) == use_step(now, events[k]).0);
    if use_asked(m, events, k) != AskView::Unload(now.handle->0) {
        use_unloads_its_bag(m, events, k + 1, n);
    }
}

/// A name that stands once in a set is found there with what was put under it.
proof fn stands_once(items: Seq<Item>, k: int)
    requires
        encodable(items),
        joined(ordered(items, items.len() as int)).len() <= MAX_ITEM,
        items.len() == 3,
        0 <= k < 3,
        items[0].key@ != items[1].key@,
        items[1].key@ != items[2].key@,
        items[0].key@ != items[2].key@,
        is_single(items[k].value.encoded()),
    ensures
        found(set_bytes(items), items[k].key@) == Some(items[k].value.encoded()),
{
    assert forall|i: int|
        0 <= i < items.len() && (#[trigger] items[i]).key@ == items[k].key@ implies items[i]
        == items[k] by {
        assert(i == 0 || i == 1 || i == 2);
    }
    find_gives_back_encode(items, k);
}

/// The enclave finds under `o` what it is asked to do, as a UTF-8 string: `oc` for a
/// creation, `osgn` for a signature and `oecd` for an unsealing.
pub proof fn request_names_its_operation(op: KeyOp<'_>, items: Seq<Item>)
    requires
        asks(op, items),
        encodable(items),
        joined(ordered(items, items.len() as int)).len() <= MAX_ITEM,
    ensures
        op is Create ==> found(set_bytes(items), seq![0x6fu8]) == Some(
            seq![0x0cu8, 2, 0x6f, 0x63],
        ),
        op is Sign ==> found(set_bytes(items), seq![0x6fu8]) == Some(
            seq![0x0cu8, 4, 0x6f, 0x73, 0x67, 0x6e],
        ),
        op is Unseal ==> found(set_bytes(items), seq![0x6fu8]) == Some(
            seq![0x0cu8, 4, 0x6f, 0x65, 0x63, 0x64],
        ),
{
    assert(items[0].key@ =~= seq![0x6fu8]);
    assert(items[0].key@[0] != items[1].key@[0] && items[0].key@[0] != items[2].key@[0]);
    assert(items[1].key@[0] != items[2].key@[0]);
    let v = items[0].value.encoded();
    let none = Seq::<u8>::empty();
    match items[0].value {
        RefKeyValue::Utf8(s) => {
            crate::der::tlv_round_trip(crate::der::TAG_UTF8, s@, none);
            assert(tlv(crate::der::TAG_UTF8, s@) + none =~= tlv(crate::der::TAG_UTF8, s@));
        },
        _ => {},
    }
    stands_once(items, 0);
    assert(op is Create ==> v =~= seq![0x0cu8, 2, 0x6f, 0x63]);
    assert(op is Sign ==> v =~= seq![0x0cu8, 4, 0x6f, 0x73, 0x67, 0x6e]);
    assert(op is Unseal ==> v =~= seq![0x0cu8, 4, 0x6f, 0x65, 0x63, 0x64]);
}

/// Requests for operations of different kinds are different requests.
pub proof fn operations_are_told_apart(a: KeyOp<'_>, b: KeyOp<'_>, x: Seq<Item>, y: Seq<Item>)
    requires
        asks(a, x),
        asks(b, y),
        encodable(x),
        encodable(y),
        joined(ordered(x, x.len() as int)).len() <= MAX_ITEM,
        joined(ordered(y, y.len() as int)).len() <= MAX_ITEM,
        a is Create != b is Create || a is Sign != b is Sign || a is Unseal != b is Unseal,
    ensures
        set_bytes(x) != set_bytes(y),
{
    request_names_its_operation(a, x);
    request_names_its_operation(b, y);
    let oc = seq![0x0cu8, 2, 0x6f, 0x63];
    let osgn = seq![0x0cu8, 4, 0x6f, 0x73, 0x67, 0x6e];
    let oecd = seq![0x0cu8, 4, 0x6f, 0x65, 0x63, 0x64];
    assert(oc.len() != osgn.len() && oc.len() != oecd.len());
    assert(osgn[3] != oecd[3]);
}

/// A creation asks for a key of class 9, which stands under `bc`, and of type 5,
/// which stands under `kt`.
pub proof fn creation_names_class_and_type(items: Seq<Item>)
    requires
        asks(KeyOp::Create, items),
        encodable(items),
        joined(ordered(items, items.len() as int)).len() <= MAX_ITEM,
    ensures
        found(set_bytes(items), seq![0x62u8, 0x63]) == Some(seq![0x02u8, 1, 9]),
        found(set_bytes(items), seq![0x6bu8, 0x74]) == Some(seq![0x02u8, 1, 5]),
{
    assert(items[1].key@ =~= seq![0x62u8, 0x63]);
    assert(items[2].key@ =~= seq![0x6bu8, 0x74]);
    assert(items[0].key@[0] != items[1].key@[0] && items[0].key@[0] != items[2].key@[0]);
    assert(items[1].key@[0] != items[2].key@[0]);
    let none = Seq::<u8>::empty();
    let nine = crate::der::integer_content(9);
    let five = crate::der::integer_content(5);
    assert(nine =~= seq![9u8]);
    assert(five =~= seq![5u8]);
    crate::der::tlv_round_trip(crate::der::TAG_INTEGER, nine, none);
    crate::der::tlv_round_trip(crate::der::TAG_INTEGER, five, none);
    assert(tlv(crate::der::TAG_INTEGER, nine) + none =~= tlv(crate::der::TAG_INTEGER, nine));
    assert(tlv(crate::der::TAG_INTEGER, five) + none =~= tlv(crate::der::TAG_INTEGER, five));
    assert(tlv(crate::der::TAG_INTEGER, nine) =~= seq![0x02u8, 1, 9]);
    assert(tlv(crate::der::TAG_INTEGER, five) =~= seq![0x02u8, 1, 5]);
    stands_once(items, 1);
    stands_once(items, 2);
}

/// The names of the parts of a request, byte for byte.
proof fn part_names()
    ensures
        key_d() == seq![0x64u8],
        key_rk() == seq![0x72u8, 0x6b],
        key_pub() == seq![0x70u8, 0x75, 0x62],
{
    assert(key_d() =~= seq![0x64u8]);
    assert(key_rk() =~= seq![0x72u8, 0x6b]);
    assert(key_pub() =~= seq![0x70u8, 0x75, 0x62]);
}

/// What is to be signed or unsealed stands under `d` as an octet string, and the key
/// stands under `rk` as it was kept.
pub proof fn request_carries_data_and_key(op: KeyOp<'_>, items: Seq<Item>)
    requires
        asks(op, items),
        encodable(items),
        joined(ordered(items, 3)).len() <= MAX_ITEM,
        op !is Create,
        is_single(key_of(op)),
    ensures
        op matches KeyOp::Sign { blob, challenge } ==> found(set_bytes(items), seq![0x64u8])
            == Some(tlv(0x04, challenge@)) && found(set_bytes(items), seq![0x72u8, 0x6b]) == Some(
            blob@,
        ),
        op matches KeyOp::Unseal { blob, sealed } ==> found(set_bytes(items), seq![0x64u8])
            == Some(tlv(0x04, sealed@)) && found(set_bytes(items), seq![0x72u8, 0x6b]) == Some(
            blob@,
        ),
{
    request_names_its_parts(op, items);
    part_names();
}

/// Reading the envelope field by field gives variant 0, the client, the bag whose
/// keys are used, version 2 and the set.
pub proof fn envelope_reads_back(keybag: i32, der: Seq<u8>)
    requires
        der.len() <= u32::MAX,
    ensures
        reads_as(
            envelope(keybag as int, der),
            seq![
                Field::U32(0),
                Field::U64(0x4c49_4e55_5853_4b53),
                Field::I32(keybag as int),
                Field::U32(2),
                Field::Blob(der),
            ],
        ),
{
    let f = seq![
        Field::U32(0),
        Field::U64(0x4c49_4e55_5853_4b53),
        Field::I32(keybag as int),
        Field::U32(2),
        Field::Blob(der),
    ];
    reveal_with_fuel(crate::image::joined, 6);
    assert(crate::image::joined(f, 5) =~= envelope(keybag as int, der));
    joined_reads_as(f);
}

/// What an operation made is the blob of an answer whose status and whose own
/// number are both zero; otherwise nothing was made.
pub proof fn result_is_the_blob(o: SksOutcome, number: i32, blob: Seq<u8>)
    requires
        o.body() is Some,
        reads_as(o.body()->0, seq![Field::I32(number as int), Field::Blob(blob)]),
    ensures
        o.reply.status == 0 && number == 0 ==> op_result(Some(&o)) == Some(blob),
        o.reply.status != 0 || number != 0 ==> op_result(Some(&o)) is None,
        op_result(None) is None,
{
    reveal_with_fuel(reads_from, 3);
}

/// A signature that came as an octet string is what is in it, and one that did not
/// is taken as it is.
pub proof fn signature_is_unwrapped(out: Option<&SksOutcome>, inner: Seq<u8>)
    requires
        inner.len() < 0x80,
    ensures
        op_result(out) == Some(seq![0x04u8, inner.len() as u8] + inner) ==> signature_in(out)
            == Some(inner),
        op_result(out) matches Some(b) ==> octets_in(b) is None ==> signature_in(out) == Some(b),
        op_result(out) is None ==> signature_in(out) is None,
{
    octets_round_trip(inner);
    assert(tlv(TAG_OCTET_STRING, inner) =~= seq![0x04u8, inner.len() as u8] + inner);
}

/// The public half of a key is the point of 65 bytes that stands, as an octet
/// string, under `pub` in the set that stands under `rk`.
#[verifier::rlimit(60)]
pub proof fn public_half_is_the_point(blob: Seq<u8>, rk: Seq<u8>, point: Seq<u8>)
    requires
        found(blob, seq![0x72u8, 0x6b]) == Some(rk),
        found(rk, seq![0x70u8, 0x75, 0x62]) == Some(tlv(0x04, point)),
        point.len() <= MAX_ITEM,
    ensures
        point.len() == 65 ==> public_half(blob) == Some(point),
        point.len() != 65 ==> public_half(blob) is None,
{
    part_names();
    octets_round_trip(point);
}

/// A key whose file cannot be read is made: the enclave is found healthy, the bag is
/// unlocked with its secret, a key is made in it, written to its file, synced, and
/// kept.
pub proof fn key_is_made_and_kept(
    handle: KeyBagHandle,
    secret: Seq<u8>,
    healthy: Healthy,
    key: Seq<u8>,
    synced: bool,
)
    ensures
        ({
            let m0: FindKeyView = FindKey {
                stage: FindStage::File,
                handle,
                secret: Some(secret),
                made: None,
            };
            let (m1, a1) = find_step(m0, FindEvent::Worked(false));
            let (m2, a2) = find_step(m1, FindEvent::Health(Some(healthy)));
            let (m3, a3) = find_step(m2, FindEvent::Worked(true));
            let (m4, a4) = find_step(m3, FindEvent::Made(Some(key)));
            let (m5, a5) = find_step(m4, FindEvent::Worked(true));
            let (m6, a6) = find_step(m5, FindEvent::Worked(synced));
            let (m7, a7) = find_step(m6, FindEvent::Worked(true));
            &&& a1 == FindAskView::CheckHealth
            &&& a2 == FindAskView::Unlock(handle, secret, healthy)
            &&& a3 == FindAskView::Create(handle)
            &&& a4 == FindAskView::WriteFile(key)
            &&& a5 == FindAskView::SyncFile
            &&& a6 == FindAskView::Keep(key)
            &&& a7 == FindAskView::Done
        }),
{
}

/// Without health the bag is not unlocked, and a key is asked for all the same; one
/// that cannot be written is kept; and where none is made the search is over, as it
/// is where the file held one.
pub proof fn key_search_goes_on(
    handle: KeyBagHandle,
    secret: Seq<u8>,
    key: Seq<u8>,
)
    ensures
        ({
            let m0: FindKeyView = FindKey {
                stage: FindStage::File,
                handle,
                secret: Some(secret),
                made: None,
            };
            let (m1, a1) = find_step(m0, FindEvent::Worked(false));
            let (m2, a2) = find_step(m1, FindEvent::Health(None));
            let (m3, a3) = find_step(m2, FindEvent::Made(Some(key)));
            let (m4, a4) = find_step(m3, FindEvent::Worked(false));
            &&& find_step(m0, FindEvent::Worked(true)).1 == FindAskView::Done
            &&& a2 == FindAskView::Create(handle)
            &&& a3 == FindAskView::WriteFile(key)
            &&& a4 == FindAskView::Keep(key)
            &&& find_step(m2, FindEvent::Made(None)).1 == FindAskView::Done
        }),
{
}

/// A key that is not known is found first: the stored bag is read and loaded, the key
/// is found in it, and the bag is unloaded. Sealing can then start with that key.
pub proof fn sealing_finds_its_key(secret: Seq<u8>, h: KeyBagHandle, key: Seq<u8>)
    ensures
        ({
            let m0: UseKeyView = UseKey {
                purpose: Purpose::Seal,
                stage: Stage::Begin,
                handle: None,
                secret: None,
                key: None,
                result: None,
            };
            let (m1, a1) = use_step(m0, Event::Begin { key: None, ready: true });
            let (m2, a2) = use_step(m1, Event::Bag(Ok(Some(secret))));
            let (m3, a3) = use_step(m2, Event::Recovered(Some(h)));
            let (m4, a4) = use_step(m3, Event::Key(Some(key)));
            let (m5, a5) = use_step(m4, Event::Unloaded);
            &&& use_step(m0, Event::Begin { key: Some(key), ready: false }).1 == AskView::Ready(key)
            &&& use_step(m0, Event::Begin { key: None, ready: false }).1 == AskView::Failed(
                Errno::ENODEV,
            )
            &&& a1 == AskView::ReadBag
            &&& use_step(m1, Event::Bag(Ok(None))).1 == AskView::Failed(Errno::ENODEV)
            &&& a2 == AskView::Recover
            &&& use_step(m2, Event::Recovered(None)).1 == AskView::Failed(Errno::EIO)
            &&& a3 == AskView::FindKey(h, secret)
            &&& a4 == AskView::Unload(h)
            &&& a5 == AskView::Ready(key)
            &&& use_step(use_step(m3, Event::Key(None)).0, Event::Unloaded).1 == AskView::Failed(
                Errno::EIO,
            )
        }),
{
}

/// An operation with a key that is known: the stored bag is read and loaded, the
/// enclave is found healthy, the bag is unlocked with its secret, the operation is
/// done with the key, the bag is unloaded, and the result is handed out. Without
/// health the bag is not unlocked, and the operation is tried all the same.
pub proof fn operation_runs(
    key: Seq<u8>,
    secret: Seq<u8>,
    h: KeyBagHandle,
    healthy: Healthy,
    result: Seq<u8>,
    fault: Errno,
)
    ensures
        ({
            let m0: UseKeyView = UseKey {
                purpose: Purpose::Operate,
                stage: Stage::Begin,
                handle: None,
                secret: None,
                key: None,
                result: None,
            };
            let (m1, a1) = use_step(m0, Event::Begin { key: Some(key), ready: true });
            let (m2, a2) = use_step(m1, Event::Bag(Ok(Some(secret))));
            let (m3, a3) = use_step(m2, Event::Recovered(Some(h)));
            let (m4, a4) = use_step(m3, Event::Health(Some(healthy)));
            let (m5, a5) = use_step(m4, Event::Unlocked);
            let (m6, a6) = use_step(m5, Event::Operated(Some(result)));
            let (m7, a7) = use_step(m6, Event::Unloaded);
            let (n6, b6) = use_step(m5, Event::Operated(None));
            &&& a1 == AskView::ReadBag
            &&& use_step(m1, Event::Bag(Err(fault))).1 == AskView::Failed(fault)
            &&& a2 == AskView::Recover
            &&& a3 == AskView::CheckHealth
            &&& a4 == AskView::Unlock(h, secret, healthy)
            &&& use_step(m3, Event::Health(None)).1 == AskView::Operate(h, key)
            &&& a5 == AskView::Operate(h, key)
            &&& a6 == AskView::Unload(h)
            &&& a7 == AskView::Finished(result)
            &&& b6 == AskView::Unload(h)
            &&& use_step(n6, Event::Unloaded).1 == AskView::Failed(Errno::EIO)
        }),
{
}

} // verus!
