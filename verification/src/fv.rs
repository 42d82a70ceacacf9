//! Keys of encrypted volumes: what the file system asks of the enclave's key
//! store, and what it is given.

use vstd::prelude::*;

use crate::bytes::{
    copy_of, i32_at, i32_le, put_u64, put_zeros, read_i32, read_u32, u32_at, u32_le, u64_at, u64_le,
    zeroed,
    zeros,
};
use crate::der::{found, octet_string_body, octets_in, refkey_find};
use crate::errno::Errno;
use crate::fv_volumes::{bag_of, recorded, unrecord_undoes_record, unrecorded, VolumeMap, Volumes};
use crate::image::{
    blob_bytes, joined, joined_reads_as, read_blob, reads_as, reads_from, wipe, Body, Field,
};
use crate::proto::blob_at;
use crate::sks::{
    report_response, SksOutcome, SksRequest, OP_SKS_GET_BLOB_STATE, OP_SKS_NEW_PFK,
    OP_SKS_SET_PROTECTION, OP_SKS_UNWRAP_MEDIA_KEY, OP_SKS_UNWRAP_PFK, OP_SKS_UNWRAP_VEK,
};
use crate::uuid::{uuid_at, Uuid};

verus! {

pub const WRAPPED_KEY_LEN: usize = 40;

pub const OPAQUE_KEY_LEN: usize = 64;

pub const IV_KEY_LEN: usize = 16;

/// The client under whose name the file system's keys are asked for.
pub const SYSTEM_CLIENT: u64 = 1;

pub const NO_KEYBAG_HANDLE: i32 = -1;

pub const SECRET_MAX_LEN: usize = 1024;

pub const RECORD_MAX_LEN: usize = 528;

pub const FILE_KEY_MAX_LEN: usize = 168;

pub const EPHEMERAL_KEY_MAX_LEN: usize = 64;

pub const FV_UNWRAP_OPTIONS: u32 = 2;

pub const PFK_VERSION: u32 = 2;

pub const PFK_SYSTEM_VOLUME_HANDLE: i32 = -5;

pub const PFK_OPTIONS: u32 = 0x102;

pub const FV_LOAD_CLASS_KEYS: u32 = 0x12;

pub const FV_UNLOAD_CLASS_KEYS: u32 = 0x13;

pub const FV_SYSTEM_VOLUME_OPTION: u64 = 4;

// ---------------------------------------------------------------------------
// Parameters.
// ---------------------------------------------------------------------------
/// The parameters of a per-file key: a set with the bag's identifier under
/// `vuid`.
pub open spec fn pfk_params(bag: Uuid) -> Seq<u8> {
    seq![0x31u8, 0x1a, 0x30, 0x18, 0x0c, 0x04, 0x76, 0x75, 0x69, 0x64, 0x04, 0x10] + bag@
}

/// The parameters of a volume: a set with four zero bytes under `kc`, and the
/// options under `options`.
pub open spec fn fv_params(options: int) -> Seq<u8> {
    seq![
        0x31u8,
        0x21,
        0x30,
        0x0a,
        0x0c,
        0x02,
        0x6b,
        0x63,
        0x04,
        0x04,
        0,
        0,
        0,
        0,
        0x30,
        0x13,
        0x0c,
        0x07,
        0x6f,
        0x70,
        0x74,
        0x69,
        0x6f,
        0x6e,
        0x73,
        0x04,
        0x08,
    ] + u64_le(options)
}

fn pfk_params_bytes(bag: &Uuid) -> (p: Vec<u8>)
    ensures
        p@ == pfk_params(*bag),
{
    let head: [u8; 12] = [
        0x31,
        0x1a,
        0x30,
        0x18,
        0x0c,
        0x04,
        0x76,
        0x75,
        0x69,
        0x64,
        0x04,
        0x10,
    ];
    let mut p = copy_of(head.as_slice());
    bag.put(&mut p);
    assert(p@ =~= pfk_params(*bag));
    p
}

fn fv_params_bytes(options: u64) -> (p: Vec<u8>)
    ensures
        p@ == fv_params(options as int),
{
    let head: [u8; 27] = [
        0x31,
        0x21,
        0x30,
        0x0a,
        0x0c,
        0x02,
        0x6b,
        0x63,
        0x04,
        0x04,
        0,
        0,
        0,
        0,
        0x30,
        0x13,
        0x0c,
        0x07,
        0x6f,
        0x70,
        0x74,
        0x69,
        0x6f,
        0x6e,
        0x73,
        0x04,
        0x08,
    ];
    let mut p = copy_of(head.as_slice());
    put_u64(&mut p, options);
    assert(p@ =~= fv_params(options as int));
    p
}

/// The class that stands for a protection class in the key store. Its low five
/// bits say which it is, and two of them have another number there.
pub open spec fn stored_class(protection_class: u32) -> Option<int> {
    let low = protection_class % 32;
    if 1 <= low <= 4 {
        Some(protection_class as int)
    } else if low == 6 {
        Some(protection_class - 6 + 13)
    } else if low == 7 {
        Some(protection_class - 7 + 17)
    } else {
        None
    }
}

pub fn pfk_class(protection_class: u32) -> (r: Result<u32, Errno>)
    ensures
        match r {
            Ok(c) => stored_class(protection_class) == Some(c as int),
            Err(e) => stored_class(protection_class) is None && e == Errno::EINVAL,
        },
{
    let low: u32 = protection_class % 32;
    if 1 <= low && low <= 4 {
        Ok(protection_class)
    } else if low == 6 {
        Ok(protection_class - 6 + 13)
    } else if low == 7 {
        Ok(protection_class - 7 + 17)
    } else {
        Err(Errno::EINVAL)
    }
}

/// The options of a volume: the system's own volume has one.
pub open spec fn options_of(os: Option<Uuid>, volume: Uuid) -> int {
    if os == Some(volume) {
        4
    } else {
        0
    }
}

pub fn fv_options(os: Option<Uuid>, volume: Uuid) -> (o: u64)
    ensures
        o == options_of(os, volume),
{
    match os {
        Some(u) => {
            if u == volume {
                FV_SYSTEM_VOLUME_OPTION
            } else {
                0
            }
        },
        None => 0,
    }
}

// ---------------------------------------------------------------------------
// What comes in.
// ---------------------------------------------------------------------------
/// How far the enclave is.
#[derive(Clone, Copy, Debug, PartialEq, Eq, Structural)]
pub struct Readiness {
    /// Whether the driver has come up.
    pub phase_ready: bool,
    /// Whether the key store answers.
    pub sks_ready: bool,
}

impl Readiness {
    pub open spec fn fault(self) -> Option<Errno> {
        if !self.phase_ready {
            Some(Errno::EAGAIN)
        } else if !self.sks_ready {
            Some(Errno::ENODEV)
        } else {
            None
        }
    }
}

pub fn fv_ready(r: Readiness) -> (f: Option<Errno>)
    ensures
        f == r.fault(),
{
    if !r.phase_ready {
        return Some(Errno::EAGAIN);
    }
    if !r.sks_ready {
        return Some(Errno::ENODEV);
    }
    None
}

/// Bytes that have to be there: neither nothing nor too many.
pub open spec fn input_ok(b: Seq<u8>, max: int) -> bool {
    0 < b.len() <= max
}

/// The first fault of the bytes and of the enclave, in the order in which they
/// are looked at.
pub open spec fn start_fault(inputs_ok: bool, ready: Readiness) -> Option<Errno> {
    if !inputs_ok {
        Some(Errno::EINVAL)
    } else {
        ready.fault()
    }
}

fn check_start(inputs_ok: bool, ready: Readiness) -> (f: Option<Errno>)
    ensures
        f == start_fault(inputs_ok, ready),
{
    if !inputs_ok {
        return Some(Errno::EINVAL);
    }
    fv_ready(ready)
}

// ---------------------------------------------------------------------------
// Requests.
// ---------------------------------------------------------------------------
/// How every body starts: a version and the client.
pub open spec fn system_prefix(version: int) -> Seq<u8> {
    u32_le(version) + u64_le(1)
}

fn system_body(version: u32) -> (b: Body)
    ensures
        b@ == system_prefix(version as int),
{
    let mut b = Body::new();
    b.put_u32(version);
    b.put_u64(SYSTEM_CLIENT);
    assert(b@ =~= system_prefix(version as int));
    b
}

fn blob(b: &mut Body, part: &[u8])
    requires
        part.len() <= u32::MAX,
    ensures
        final(b)@ == old(b)@ + blob_bytes(part@),
{
    let _ = b.put_blob(part);
}

fn empty_blob(b: &mut Body)
    ensures
        final(b)@ == old(b)@ + blob_bytes(Seq::empty()),
{
    let none: Vec<u8> = Vec::new();
    assert(none@ =~= Seq::<u8>::empty());
    blob(b, &none);
}

pub open spec fn media_body(wrapped: Seq<u8>, class: int) -> Seq<u8> {
    system_prefix(1) + blob_bytes(wrapped) + i32_le(-1) + u32_le(class)
}

/// Asks for a media key that is wrapped under a class.
pub fn unwrap_media_key(wrapped: &[u8], protection_class: u32, ready: Readiness) -> (r: Result<
    SksRequest,
    Errno,
>)
    ensures
        match start_fault(wrapped.len() == 40, ready) {
            Some(e) => r == Err::<SksRequest, Errno>(e),
            None => r is Ok && r->Ok_0.selector == OP_SKS_UNWRAP_MEDIA_KEY && r->Ok_0.body@
                == media_body(wrapped@, protection_class as int),
        },
{
    match check_start(wrapped.len() == WRAPPED_KEY_LEN, ready) {
        Some(e) => Err(e),
        None => {
            let mut body = system_body(1);
            blob(&mut body, wrapped);
            body.put_i32(NO_KEYBAG_HANDLE);
            body.put_u32(protection_class);
            Ok(SksRequest { selector: OP_SKS_UNWRAP_MEDIA_KEY, body })
        },
    }
}

pub open spec fn vek_body(secret: Seq<u8>, kek: Seq<u8>, vek: Seq<u8>) -> Seq<u8> {
    system_prefix(0) + blob_bytes(fv_params(0)) + u32_le(2) + blob_bytes(secret) + blob_bytes(kek)
        + blob_bytes(vek) + blob_bytes(Seq::empty())
}

/// Asks for a volume's key. The secret and the record may be missing.
pub fn unwrap_vek(secret: &[u8], kek: &[u8], vek: &[u8], ready: Readiness) -> (r: Result<
    SksRequest,
    Errno,
>)
    ensures
        match start_fault(
            secret.len() <= 1024 && kek.len() <= 528 && input_ok(vek@, 528),
            ready,
        ) {
            Some(e) => r == Err::<SksRequest, Errno>(e),
            None => {
                &&& r is Ok
                &&& r->Ok_0.selector == OP_SKS_UNWRAP_VEK
                &&& r->Ok_0.body@ == vek_body(secret@, kek@, vek@)
                &&& reads_as(
                    r->Ok_0.body@,
                    seq![
                        Field::U32(0),
                        Field::U64(1),
                        Field::Blob(fv_params(0)),
                        Field::U32(2),
                        Field::Blob(secret@),
                        Field::Blob(kek@),
                        Field::Blob(vek@),
                        Field::Blob(Seq::empty()),
                    ],
                )
            },
        },
{
    let ok = secret.len() <= SECRET_MAX_LEN && kek.len() <= RECORD_MAX_LEN && vek.len() > 0
        && vek.len() <= RECORD_MAX_LEN;
    match check_start(ok, ready) {
        Some(e) => Err(e),
        None => {
            let params = fv_params_bytes(0);
            let mut body = system_body(0);
            proof {
                crate::bytes::u64_round_trip(0);
            }
            blob(&mut body, &params);
            body.put_u32(FV_UNWRAP_OPTIONS);
            blob(&mut body, secret);
            blob(&mut body, kek);
            blob(&mut body, vek);
            empty_blob(&mut body);
            proof {
                volume_key_request_reads_back(secret@, kek@, vek@);
            }
            Ok(SksRequest { selector: OP_SKS_UNWRAP_VEK, body })
        },
    }
}

pub open spec fn file_body(bag: Uuid, class: int, ekwk: Seq<u8>, ek: Seq<u8>) -> Seq<u8> {
    system_prefix(2) + i32_le(-5) + blob_bytes(pfk_params(bag)) + u32_le(class) + blob_bytes(ek)
        + blob_bytes(ekwk) + blob_bytes(Seq::empty()) + u32_le(0x102)
}

/// Asks for a file's key. A class that has no number in the key store makes no
/// request, and then there is no answer either.
pub fn unwrap_file_key(
    volumes: &Volumes,
    volume: Uuid,
    protection_class: u32,
    ekwk: &[u8],
    ek: &[u8],
    ready: Readiness,
) -> (r: Result<SksRequest, Errno>)
    ensures
        match start_fault(input_ok(ekwk@, 168) && input_ok(ek@, 168), ready) {
            Some(e) => r == Err::<SksRequest, Errno>(e),
            None => match stored_class(protection_class) {
                None => r == Err::<SksRequest, Errno>(Errno::EIO),
                Some(class) => r is Ok && r->Ok_0.selector == OP_SKS_UNWRAP_PFK && r->Ok_0.body@
                    == file_body(bag_of(volumes@, volume), class, ekwk@, ek@),
            },
        },
{
    let ok = ekwk.len() > 0 && ekwk.len() <= FILE_KEY_MAX_LEN && ek.len() > 0 && ek.len()
        <= FILE_KEY_MAX_LEN;
    match check_start(ok, ready) {
        Some(e) => Err(e),
        None => match pfk_class(protection_class) {
            Err(_) => Err(Errno::EIO),
            Ok(class) => {
                let bag = volumes.resolve(volume);
                let params = pfk_params_bytes(&bag);
                proof {
                    crate::uuid::uuid_round_trip(bag);
                }
                let mut body = system_body(PFK_VERSION);
                body.put_i32(PFK_SYSTEM_VOLUME_HANDLE);
                blob(&mut body, &params);
                body.put_u32(class);
                blob(&mut body, ek);
                blob(&mut body, ekwk);
                empty_blob(&mut body);
                body.put_u32(PFK_OPTIONS);
                Ok(SksRequest { selector: OP_SKS_UNWRAP_PFK, body })
            },
        },
    }
}

/// What a new key is bound to: the bag's identifier, amid zeros.
pub open spec fn fs_context(bag: Uuid) -> Seq<u8> {
    zeroed(10) + bag@ + zeroed(2)
}

pub open spec fn new_body(bag: Uuid, class: int) -> Seq<u8> {
    system_prefix(2) + i32_le(-5) + blob_bytes(pfk_params(bag)) + u32_le(class) + u32_le(0x102)
        + blob_bytes(fs_context(bag)) + blob_bytes(Seq::empty())
}

/// Asks for a new file key.
pub fn new_file_key(
    volumes: &Volumes,
    volume: Uuid,
    protection_class: u32,
    crypto_id: u64,
    key_revision: u16,
    ready: Readiness,
) -> (r: Result<SksRequest, Errno>)
    ensures
        match start_fault(crypto_id != 0 && key_revision != 0, ready) {
            Some(e) => r == Err::<SksRequest, Errno>(e),
            None => match stored_class(protection_class) {
                None => r == Err::<SksRequest, Errno>(Errno::EINVAL),
                Some(class) => r is Ok && r->Ok_0.selector == OP_SKS_NEW_PFK && r->Ok_0.body@
                    == new_body(bag_of(volumes@, volume), class),
            },
        },
{
    match check_start(crypto_id != 0 && key_revision != 0, ready) {
        Some(e) => Err(e),
        None => match pfk_class(protection_class) {
            Err(e) => Err(e),
            Ok(class) => {
                let bag = volumes.resolve(volume);
                let params = pfk_params_bytes(&bag);
                let mut context = zeros(10);
                bag.put(&mut context);
                put_zeros(&mut context, 2);
                proof {
                    crate::uuid::uuid_round_trip(bag);
                }
                let mut body = system_body(PFK_VERSION);
                body.put_i32(PFK_SYSTEM_VOLUME_HANDLE);
                blob(&mut body, &params);
                body.put_u32(class);
                body.put_u32(PFK_OPTIONS);
                blob(&mut body, &context);
                empty_blob(&mut body);
                Ok(SksRequest { selector: OP_SKS_NEW_PFK, body })
            },
        },
    }
}

pub open spec fn blob_state_body(options: int, volume_key: Seq<u8>) -> Seq<u8> {
    system_prefix(0) + blob_bytes(fv_params(options)) + blob_bytes(volume_key)
}

pub open spec fn protection_body(
    options: int,
    command: int,
    secret: Seq<u8>,
    record: Seq<u8>,
    volume_key: Seq<u8>,
) -> Seq<u8> {
    system_prefix(0) + blob_bytes(fv_params(options)) + u32_le(command) + u64_le(options)
        + blob_bytes(secret) + blob_bytes(record) + blob_bytes(volume_key)
}

fn req_blob_state(options: u64, volume_key: &[u8]) -> (r: SksRequest)
    requires
        volume_key.len() <= 528,
    ensures
        r.selector == OP_SKS_GET_BLOB_STATE,
        r.body@ == blob_state_body(options as int, volume_key@),
{
    let params = fv_params_bytes(options);
    proof {
        crate::bytes::u64_round_trip(options as int);
    }
    let mut body = system_body(0);
    blob(&mut body, &params);
    blob(&mut body, volume_key);
    SksRequest { selector: OP_SKS_GET_BLOB_STATE, body }
}

fn req_set_protection(options: u64, command: u32, secret: &[u8], record: &[u8], volume_key: &[u8])
    -> (r: SksRequest)
    requires
        secret.len() <= 1024,
        record.len() <= 528,
        volume_key.len() <= 528,
    ensures
        r.selector == OP_SKS_SET_PROTECTION,
        r.body@ == protection_body(
            options as int,
            command as int,
            secret@,
            record@,
            volume_key@,
        ),
{
    let params = fv_params_bytes(options);
    proof {
        crate::bytes::u64_round_trip(options as int);
    }
    let mut body = system_body(0);
    blob(&mut body, &params);
    body.put_u32(command);
    body.put_u64(options);
    blob(&mut body, secret);
    blob(&mut body, record);
    blob(&mut body, volume_key);
    SksRequest { selector: OP_SKS_SET_PROTECTION, body }
}

fn req_unload(options: u64, volume_key: &[u8]) -> (r: SksRequest)
    requires
        volume_key.len() <= 528,
    ensures
        r.selector == OP_SKS_SET_PROTECTION,
        r.body@ == unload_body(options as int, volume_key@),
{
    let none: Vec<u8> = Vec::new();
    assert(none@ =~= Seq::<u8>::empty());
    req_set_protection(options, FV_UNLOAD_CLASS_KEYS, &none, &none, volume_key)
}

pub open spec fn unload_body(options: int, volume_key: Seq<u8>) -> Seq<u8> {
    protection_body(options, 0x13, Seq::empty(), Seq::empty(), volume_key)
}

// ---------------------------------------------------------------------------
// Replies.
// ---------------------------------------------------------------------------
/// The body of a reply that says that it went well.
pub open spec fn reply_body(out: Option<&SksOutcome>) -> Result<Seq<u8>, Errno> {
    match out {
        None => Err(Errno::EIO),
        Some(o) => if o.reply.status != 0 {
            Err(Errno::EACCES)
        } else {
            match o.body() {
                None => Err(Errno::EMSGSIZE),
                Some(b) => Ok(b),
            }
        },
    }
}

fn body_of(out: Option<&SksOutcome>) -> (r: Result<&[u8], Errno>)
    ensures
        match r {
            Ok(b) => reply_body(out) == Ok::<Seq<u8>, Errno>(b@),
            Err(e) => reply_body(out) == Err::<Seq<u8>, Errno>(e),
        },
{
    match out {
        None => Err(Errno::EIO),
        Some(o) => {
            if o.reply.status != 0 {
                return Err(Errno::EACCES);
            }
            match report_response(o) {
                None => Err(Errno::EMSGSIZE),
                Some(b) => Ok(b),
            }
        },
    }
}

/// `n` blobs in a row, and where the next field starts.
pub open spec fn blobs_at(body: Seq<u8>, at: int, n: int) -> Option<(Seq<Seq<u8>>, int)>
    decreases n,
{
    if n <= 0 {
        Some((Seq::empty(), at))
    } else {
        match blobs_at(body, at, n - 1) {
            None => None,
            Some((before, next)) => match blob_at(body, next) {
                None => None,
                Some((b, end)) => Some((before.push(b), end)),
            },
        }
    }
}

/// The fields of a reply that starts with `version`: `n` blobs, and where the
/// numbers behind them start.
pub open spec fn fields_in(body: Seq<u8>, version: int, n: int) -> Option<(Seq<Seq<u8>>, int)> {
    if body.len() >= 4 && i32_at(body, 0) == version {
        blobs_at(body, 4, n)
    } else {
        None
    }
}

pub open spec fn views(v: Seq<Vec<u8>>) -> Seq<Seq<u8>> {
    Seq::new(v.len(), |i: int| v[i]@)
}

proof fn blobs_fail_on(body: Seq<u8>, at: int, k: int, n: int)
    requires
        0 <= k <= n,
        blobs_at(body, at, k) is None,
    ensures
        blobs_at(body, at, n) is None,
    decreases n - k,
{
    if k < n {
        blobs_fail_on(body, at, k, n - 1);
    }
}

fn read_fields(body: &[u8], version: i32, n: usize) -> (r: Option<(Vec<Vec<u8>>, usize)>)
    ensures
        match r {
            Some((v, end)) => fields_in(body@, version as int, n as int) == Some(
                (views(v@), end as int),
            ),
            None => fields_in(body@, version as int, n as int) is None,
        },
{
    if body.len() < 4 || read_i32(body, 0) != version {
        return None;
    }
    let mut v: Vec<Vec<u8>> = Vec::new();
    let mut at: usize = 4;
    let mut i: usize = 0;
    assert(views(v@) =~= Seq::<Seq<u8>>::empty());
    while i < n
        invariant
            i <= n,
            body.len() >= 4 && i32_at(body@, 0) == version,
            blobs_at(body@, 4, i as int) == Some((views(v@), at as int)),
        decreases n - i,
    {
        match read_blob(body, at) {
            None => {
                proof {
                    assert(blobs_at(body@, 4, i + 1) is None);
                    blobs_fail_on(body@, 4, i + 1, n as int);
                }
                return None;
            },
            Some((b, next)) => {
                let ghost before = views(v@);
                v.push(copy_of(b));
                assert(views(v@) =~= before.push(b@));
                at = next;
            },
        }
        i = i + 1;
    }
    Some((v, at))
}

/// Whether the first or the second bit of the number at `at` is set.
pub open spec fn flagged(body: Seq<u8>, at: int, second: bool) -> bool {
    if second {
        u32_at(body, at) / 2 % 2 == 1
    } else {
        u32_at(body, at) % 2 == 1
    }
}

fn is_flagged(body: &[u8], at: usize, second: bool) -> (r: bool)
    requires
        at + 4 <= body.len(),
    ensures
        r == flagged(body@, at as int, second),
{
    let f: u32 = read_u32(body, at);
    if second {
        f / 2 % 2 == 1
    } else {
        f % 2 == 1
    }
}

/// A key in the enclave's own form, with the key of its initial vectors.
pub struct Key {
    pub opaque: Vec<u8>,
    pub iv: Vec<u8>,
}

impl Key {
    /// Overwrites the key, for when it is let go.
    pub fn wipe(&mut self)
        ensures
            final(self).opaque@ == zeroed(old(self).opaque@.len() as int),
            final(self).iv@ == zeroed(old(self).iv@.len() as int),
    {
        wipe(&mut self.opaque);
        wipe(&mut self.iv);
    }
}

/// The fields of a reply with a key: at least one blob, the key; a second one,
/// its vector key, unless it has none; and a flag behind the blobs.
pub open spec fn key_in(body: Seq<u8>, version: int, n: int, second: bool) -> Option<
    (Seq<u8>, Seq<u8>),
> {
    match fields_in(body, version, n) {
        None => None,
        Some((f, end)) => if end + 4 <= body.len() && f[0].len() == 64 && (n == 1 || f[1].len()
            == 16) && flagged(body, end, second) {
            Some(
                (
                    f[0],
                    if n == 1 {
                        zeroed(16)
                    } else {
                        f[1]
                    },
                ),
            )
        } else {
            None
        },
    }
}

/// What is made of a reply with a key.
pub open spec fn key_result(out: Option<&SksOutcome>, version: int, n: int, second: bool) -> Result<
    (Seq<u8>, Seq<u8>),
    Errno,
> {
    match reply_body(out) {
        Err(e) => Err(e),
        Ok(b) => match key_in(b, version, n, second) {
            None => Err(Errno::EMSGSIZE),
            Some(k) => Ok(k),
        },
    }
}

fn decode_key(out: Option<&SksOutcome>, version: i32, n: usize, second: bool) -> (r: Result<
    Key,
    Errno,
>)
    requires
        n > 0,
    ensures
        match (r, key_result(out, version as int, n as int, second)) {
            (Ok(k), Ok((opaque, iv))) => k.opaque@ == opaque && k.iv@ == iv,
            (Err(e), Err(f)) => e == f,
            _ => false,
        },
{
    let body = match body_of(out) {
        Err(e) => {
            return Err(e);
        },
        Ok(b) => b,
    };
    match read_fields(body, version, n) {
        None => Err(Errno::EMSGSIZE),
        Some((f, end)) => {
            proof {
                blobs_len(body@, 4, n as int);
            }
            if body.len() < 4 || end > body.len() - 4 {
                return Err(Errno::EMSGSIZE);
            }
            assert(views(f@)[0] == f@[0]@);
            if f[0].len() != OPAQUE_KEY_LEN || !is_flagged(body, end, second) {
                return Err(Errno::EMSGSIZE);
            }
            if n == 1 {
                return Ok(Key { opaque: copy_of(&f[0]), iv: zeros(IV_KEY_LEN) });
            }
            assert(views(f@)[1] == f@[1]@);
            if f[1].len() != IV_KEY_LEN {
                return Err(Errno::EMSGSIZE);
            }
            Ok(Key { opaque: copy_of(&f[0]), iv: copy_of(&f[1]) })
        },
    }
}

proof fn blobs_len(body: Seq<u8>, at: int, n: int)
    requires
        0 <= n,
    ensures
        blobs_at(body, at, n) matches Some((f, _)) ==> f.len() == n,
    decreases n,
{
    if n > 0 {
        blobs_len(body, at, n - 1);
    }
}

/// What is made of the answer to a request for a media key.
pub open spec fn media_key_of(out: Option<&SksOutcome>) -> Result<(Seq<u8>, Seq<u8>), Errno> {
    key_result(out, 1, 2, true)
}

/// What is made of the answer to a request for a volume's key.
pub open spec fn volume_key_of(out: Option<&SksOutcome>) -> Result<(Seq<u8>, Seq<u8>), Errno> {
    key_result(out, 0, 1, false)
}

/// What is made of the answer to a request for a file's key.
pub open spec fn file_key_of(out: Option<&SksOutcome>) -> Result<(Seq<u8>, Seq<u8>), Errno> {
    key_result(out, 2, 3, true)
}

/// The media key in the answer to a request for it.
pub fn media_key(out: Option<&SksOutcome>) -> (r: Result<Key, Errno>)
    ensures
        match (r, media_key_of(out)) {
            (Ok(k), Ok((opaque, iv))) => k.opaque@ == opaque && k.iv@ == iv,
            (Err(e), Err(f)) => e == f,
            _ => false,
        },
{
    decode_key(out, 1, 2, true)
}

/// The volume's key in the answer to a request for it. It has no vector key.
pub fn volume_key(out: Option<&SksOutcome>) -> (r: Result<Key, Errno>)
    ensures
        match (r, volume_key_of(out)) {
            (Ok(k), Ok((opaque, iv))) => k.opaque@ == opaque && k.iv@ == iv,
            (Err(e), Err(f)) => e == f,
            _ => false,
        },
{
    decode_key(out, 0, 1, false)
}

/// The file's key in the answer to a request for it.
pub fn file_key(out: Option<&SksOutcome>) -> (r: Result<Key, Errno>)
    ensures
        match (r, file_key_of(out)) {
            (Ok(k), Ok((opaque, iv))) => k.opaque@ == opaque && k.iv@ == iv,
            (Err(e), Err(f)) => e == f,
            _ => false,
        },
{
    decode_key(out, 2, 3, true)
}

/// A new file key: the key, and its two wrapped forms, each in a field of fixed
/// size.
pub struct NewFileKey {
    pub key: Key,
    pub wrapped_ekwk: Vec<u8>,
    pub wrapped_ek: Vec<u8>,
    pub wrapped_ekwk_len: usize,
    pub wrapped_ek_len: usize,
}

impl NewFileKey {
    /// Whether these are the key and the wrapped forms of a reply's fields.
    pub open spec fn is_of(&self, f: Seq<Seq<u8>>) -> bool {
        &&& self.key.opaque@ == f[0]
        &&& self.key.iv@ == f[1]
        &&& self.wrapped_ek@ == padded(f[3])
        &&& self.wrapped_ek_len == f[3].len()
        &&& self.wrapped_ekwk@ == padded(f[4])
        &&& self.wrapped_ekwk_len == f[4].len()
    }

    /// Overwrites the key and its wrapped forms, for when they are let go.
    pub fn wipe(&mut self)
        ensures
            final(self).key.opaque@ == zeroed(old(self).key.opaque@.len() as int),
            final(self).key.iv@ == zeroed(old(self).key.iv@.len() as int),
            final(self).wrapped_ekwk@ == zeroed(old(self).wrapped_ekwk@.len() as int),
            final(self).wrapped_ek@ == zeroed(old(self).wrapped_ek@.len() as int),
            final(self).wrapped_ekwk_len == old(self).wrapped_ekwk_len,
            final(self).wrapped_ek_len == old(self).wrapped_ek_len,
    {
        self.key.wipe();
        wipe(&mut self.wrapped_ekwk);
        wipe(&mut self.wrapped_ek);
    }
}

/// A wrapped key in its field.
pub open spec fn padded(b: Seq<u8>) -> Seq<u8> {
    b + zeroed(168 - b.len())
}

/// The fields of a reply with a new key, if they are in order: the key, the
/// vector key, an ephemeral key, the two wrapped forms, a flag, and the class
/// that was asked for.
pub open spec fn new_key_in(body: Seq<u8>, class: int) -> Option<Seq<Seq<u8>>> {
    match fields_in(body, 2, 5) {
        None => None,
        Some((f, end)) => if end + 8 <= body.len() && f[0].len() == 64 && f[1].len() == 16
            && input_ok(f[2], 64) && input_ok(f[3], 168) && input_ok(f[4], 168) && flagged(
            body,
            end,
            true,
        ) && u32_at(body, end + 4) == class {
            Some(f)
        } else {
            None
        },
    }
}

fn pad(b: &Vec<u8>) -> (p: Vec<u8>)
    requires
        b.len() <= 168,
    ensures
        p@ == padded(b@),
{
    let mut p = copy_of(b);
    put_zeros(&mut p, FILE_KEY_MAX_LEN - b.len());
    p
}

/// The new key in the answer to a request for one, which was for a class that
/// the key store knows.
pub fn new_key(out: Option<&SksOutcome>, protection_class: u32) -> (r: Result<NewFileKey, Errno>)
    requires
        stored_class(protection_class) is Some,
    ensures
        match reply_body(out) {
            Err(e) => r == Err::<NewFileKey, Errno>(e),
            Ok(b) => match new_key_in(b, stored_class(protection_class)->0) {
                None => r == Err::<NewFileKey, Errno>(Errno::EMSGSIZE),
                Some(f) => r is Ok && r->Ok_0.is_of(f),
            },
        },
{
    let class: u32 = match pfk_class(protection_class) {
        Err(e) => {
            return Err(e);
        },
        Ok(c) => c,
    };
    let body = match body_of(out) {
        Err(e) => {
            return Err(e);
        },
        Ok(b) => b,
    };
    match read_fields(body, PFK_VERSION as i32, 5) {
        None => Err(Errno::EMSGSIZE),
        Some((f, end)) => {
            proof {
                blobs_len(body@, 4, 5);
                assert(views(f@)[0] == f@[0]@);
                assert(views(f@)[1] == f@[1]@);
                assert(views(f@)[2] == f@[2]@);
                assert(views(f@)[3] == f@[3]@);
                assert(views(f@)[4] == f@[4]@);
            }
            if body.len() < 8 || end > body.len() - 8 {
                return Err(Errno::EMSGSIZE);
            }
            if f[0].len() != OPAQUE_KEY_LEN || f[1].len() != IV_KEY_LEN || f[2].len() == 0
                || f[2].len() > EPHEMERAL_KEY_MAX_LEN || f[3].len() == 0 || f[3].len()
                > FILE_KEY_MAX_LEN || f[4].len() == 0 || f[4].len() > FILE_KEY_MAX_LEN
                || !is_flagged(body, end, true) || read_u32(body, end + 4) != class {
                return Err(Errno::EMSGSIZE);
            }
            Ok(
                NewFileKey {
                    key: Key { opaque: copy_of(&f[0]), iv: copy_of(&f[1]) },
                    wrapped_ekwk: pad(&f[4]),
                    wrapped_ek: pad(&f[3]),
                    wrapped_ekwk_len: f[4].len(),
                    wrapped_ek_len: f[3].len(),
                },
            )
        },
    }
}

/// `kid`, under which a volume's state names its bag.
pub open spec fn key_kid() -> Seq<u8> {
    seq![0x6bu8, 0x69, 0x64]
}

/// The identifier of the bag that a volume's state names.
pub open spec fn bag_in(body: Seq<u8>) -> Option<Uuid> {
    match fields_in(body, 0, 1) {
        None => None,
        Some((f, _)) => match found(f[0], key_kid()) {
            None => None,
            Some(v) => match octets_in(v) {
                None => None,
                Some(raw) => if raw.len() == 16 {
                    Some(uuid_at(raw, 0))
                } else {
                    None
                },
            },
        },
    }
}

/// What is made of the answer to a request for a volume's state.
pub open spec fn bag_result(out: Option<&SksOutcome>) -> Result<Uuid, Errno> {
    match reply_body(out) {
        Err(e) => Err(e),
        Ok(b) => match bag_in(b) {
            None => Err(Errno::EMSGSIZE),
            Some(u) => Ok(u),
        },
    }
}

/// The bag that holds a volume's class keys, from the volume's state.
pub fn fv_blob_uuid(out: Option<&SksOutcome>) -> (r: Result<Uuid, Errno>)
    ensures
        r == bag_result(out),
{
    let body = match body_of(out) {
        Err(e) => {
            return Err(e);
        },
        Ok(b) => b,
    };
    let kid: [u8; 3] = [0x6b, 0x69, 0x64];
    assert(kid@ =~= key_kid());
    match read_fields(body, 0, 1) {
        None => Err(Errno::EMSGSIZE),
        Some((f, _)) => {
            proof {
                blobs_len(body@, 4, 1);
                assert(views(f@)[0] == f@[0]@);
            }
            match refkey_find(&f[0], kid.as_slice()) {
                None => Err(Errno::EMSGSIZE),
                Some(v) => match octet_string_body(v) {
                    None => Err(Errno::EMSGSIZE),
                    Some(raw) => {
                        if raw.len() != 16 {
                            return Err(Errno::EMSGSIZE);
                        }
                        Ok(Uuid::read(raw, 0))
                    },
                },
            }
        },
    }
}

/// Whether the answer to a change of protection is whole.
pub open spec fn protected_in(body: Seq<u8>) -> bool {
    fields_in(body, 0, 1) is Some
}

// ---------------------------------------------------------------------------
// Loading and unloading class keys.
// ---------------------------------------------------------------------------
/// A load whose volume's state was asked for.
pub struct Load {
    pub volume: Uuid,
    pub secret: Vec<u8>,
    pub record: Vec<u8>,
    pub volume_key: Vec<u8>,
}

/// A load that was recorded and asked for.
pub struct Loading {
    pub volume: Uuid,
    pub bag: Uuid,
    pub volume_key: Vec<u8>,
}

/// Starts a load with a request for the volume's state. The secret and the
/// record may be missing.
pub fn load_class_keys(
    os: Option<Uuid>,
    volume: Uuid,
    secret: &[u8],
    record: &[u8],
    volume_key: &[u8],
    ready: Readiness,
) -> (r: Result<(SksRequest, Load), Errno>)
    ensures
        match start_fault(
            secret.len() <= 1024 && record.len() <= 528 && input_ok(volume_key@, 528),
            ready,
        ) {
            Some(e) => r == Err::<(SksRequest, Load), Errno>(e),
            None => {
                &&& r is Ok
                &&& (r->Ok_0).0.selector == OP_SKS_GET_BLOB_STATE
                &&& (r->Ok_0).0.body@ == blob_state_body(options_of(os, volume), volume_key@)
                &&& (r->Ok_0).1.wf()
                &&& (r->Ok_0).1.volume == volume
                &&& (r->Ok_0).1.secret@ == secret@
                &&& (r->Ok_0).1.record@ == record@
                &&& (r->Ok_0).1.volume_key@ == volume_key@
            },
        },
{
    let ok = secret.len() <= SECRET_MAX_LEN && record.len() <= RECORD_MAX_LEN && volume_key.len()
        > 0 && volume_key.len() <= RECORD_MAX_LEN;
    match check_start(ok, ready) {
        Some(e) => Err(e),
        None => Ok(
            (
                req_blob_state(fv_options(os, volume), volume_key),
                Load {
                    volume,
                    secret: copy_of(secret),
                    record: copy_of(record),
                    volume_key: copy_of(volume_key),
                },
            ),
        ),
    }
}

impl Load {
    pub open spec fn wf(&self) -> bool {
        &&& self.secret.len() <= 1024
        &&& self.record.len() <= 528
        &&& self.volume_key.len() <= 528
    }

    /// Goes on with the volume's state: the load is recorded and then asked
    /// for.
    pub fn named(self, volumes: &mut Volumes, os: Option<Uuid>, out: Option<&SksOutcome>) -> (r:
        Result<(SksRequest, Loading), Errno>)
        requires
            self.wf(),
            old(volumes).wf(),
        ensures
            final(volumes).wf(),
            match bag_result(out) {
                Err(e) => r == Err::<(SksRequest, Loading), Errno>(e) && final(volumes)@ == old(
                    volumes,
                )@,
                Ok(bag) => match recorded(old(volumes)@, self.volume, bag) {
                    Err(e) => r == Err::<(SksRequest, Loading), Errno>(e) && final(volumes)@
                        == old(volumes)@,
                    Ok(maps) => {
                        &&& final(volumes)@ == maps
                        &&& r is Ok
                        &&& (r->Ok_0).0.selector == OP_SKS_SET_PROTECTION
                        &&& (r->Ok_0).0.body@ == protection_body(
                            options_of(os, self.volume),
                            0x12,
                            self.secret@,
                            self.record@,
                            self.volume_key@,
                        )
                        &&& (r->Ok_0).1.wf()
                        &&& (r->Ok_0).1.volume == self.volume
                        &&& (r->Ok_0).1.bag == bag
                        &&& (r->Ok_0).1.volume_key@ == self.volume_key@
                    },
                },
            },
    {
        let bag = match fv_blob_uuid(out) {
            Err(e) => {
                let mut secret = self.secret;
                wipe(&mut secret);
                return Err(e);
            },
            Ok(b) => b,
        };
        let request = req_set_protection(
            fv_options(os, self.volume),
            FV_LOAD_CLASS_KEYS,
            &self.secret,
            &self.record,
            &self.volume_key,
        );
        let mut secret = self.secret;
        wipe(&mut secret);
        match volumes.record(self.volume, bag) {
            Err(e) => Err(e),
            Ok(_) => Ok(
                (request, Loading { volume: self.volume, bag, volume_key: self.volume_key }),
            ),
        }
    }
}

/// What comes of a load: the fault, if there was one, and whether the keys have
/// to be unloaded again because the answer to their load could not be read.
pub open spec fn load_fault(out: Option<&SksOutcome>) -> Option<(Errno, bool)> {
    match reply_body(out) {
        Err(e) => Some((e, e == Errno::EMSGSIZE)),
        Ok(b) => if protected_in(b) {
            None
        } else {
            Some((Errno::EMSGSIZE, true))
        },
    }
}

/// The volumes after a load: where it failed, without its record.
pub open spec fn after_load(
    maps: Seq<VolumeMap>,
    volume: Uuid,
    bag: Uuid,
    out: Option<&SksOutcome>,
) -> Seq<VolumeMap> {
    if load_fault(out) is None {
        maps
    } else {
        match unrecorded(maps, volume, bag) {
            Ok(left) => left,
            Err(_) => maps,
        }
    }
}

impl Loading {
    pub open spec fn wf(&self) -> bool {
        self.volume_key.len() <= 528
    }

    /// Ends the load. Where it failed the record is taken back; where the
    /// keys may have been loaded nevertheless, the request that unloads them
    /// is to be sent.
    pub fn loaded(self, volumes: &mut Volumes, os: Option<Uuid>, out: Option<&SksOutcome>) -> (r: (
        Result<(), Errno>,
        Option<SksRequest>,
    ))
        requires
            self.wf(),
            old(volumes).wf(),
        ensures
            final(volumes).wf(),
            match load_fault(out) {
                None => r.0 is Ok && r.1 is None,
                Some((e, undo)) => {
                    &&& r.0 == Err::<(), Errno>(e)
                    &&& (r.1 is Some) == undo
                    &&& undo ==> r.1->0.selector == OP_SKS_SET_PROTECTION && r.1->0.body@
                        == unload_body(options_of(os, self.volume), self.volume_key@)
                },
            },
            final(volumes)@ == after_load(old(volumes)@, self.volume, self.bag, out),
    {
        let (e, undo): (Errno, bool) = match body_of(out) {
            Err(e) => (e, e == Errno::EMSGSIZE),
            Ok(b) => match read_fields(b, 0, 1) {
                Some(_) => {
                    return (Ok(()), None);
                },
                None => (Errno::EMSGSIZE, true),
            },
        };
        let rollback = if undo {
            Some(req_unload(fv_options(os, self.volume), &self.volume_key))
        } else {
            None
        };
        let _ = volumes.unrecord(self.volume, self.bag);
        (Err(e), rollback)
    }
}

/// An unload whose volume's state was asked for.
pub struct Unload {
    pub volume: Uuid,
    pub volume_key: Vec<u8>,
}

/// An unload that was asked for.
pub struct Unloading {
    pub volume: Uuid,
    pub bag: Uuid,
}

/// Starts an unload with a request for the volume's state.
pub fn unload_class_keys(os: Option<Uuid>, volume: Uuid, volume_key: &[u8], ready: Readiness) -> (r:
    Result<(SksRequest, Unload), Errno>)
    ensures
        match start_fault(input_ok(volume_key@, 528), ready) {
            Some(e) => r == Err::<(SksRequest, Unload), Errno>(e),
            None => {
                &&& r is Ok
                &&& (r->Ok_0).0.selector == OP_SKS_GET_BLOB_STATE
                &&& (r->Ok_0).0.body@ == blob_state_body(options_of(os, volume), volume_key@)
                &&& (r->Ok_0).1.volume == volume
                &&& (r->Ok_0).1.volume_key@ == volume_key@
            },
        },
{
    let ok = volume_key.len() > 0 && volume_key.len() <= RECORD_MAX_LEN;
    match check_start(ok, ready) {
        Some(e) => Err(e),
        None => Ok(
            (
                req_blob_state(fv_options(os, volume), volume_key),
                Unload { volume, volume_key: copy_of(volume_key) },
            ),
        ),
    }
}

impl Unload {
    /// Goes on with the volume's state: the unload is asked for.
    pub fn named(self, os: Option<Uuid>, out: Option<&SksOutcome>) -> (r: Result<
        (SksRequest, Unloading),
        Errno,
    >)
        requires
            self.volume_key.len() <= 528,
        ensures
            match bag_result(out) {
                Err(e) => r == Err::<(SksRequest, Unloading), Errno>(e),
                Ok(bag) => {
                    &&& r is Ok
                    &&& (r->Ok_0).0.selector == OP_SKS_SET_PROTECTION
                    &&& (r->Ok_0).0.body@ == unload_body(
                        options_of(os, self.volume),
                        self.volume_key@,
                    )
                    &&& (r->Ok_0).1 == (Unloading { volume: self.volume, bag })
                },
            },
    {
        match fv_blob_uuid(out) {
            Err(e) => Err(e),
            Ok(bag) => Ok(
                (
                    req_unload(fv_options(os, self.volume), &self.volume_key),
                    Unloading { volume: self.volume, bag },
                ),
            ),
        }
    }
}

impl Unloading {
    /// Ends the unload: once the enclave confirmed it, so does the record.
    pub fn unloaded(self, volumes: &mut Volumes, out: Option<&SksOutcome>) -> (r: Result<
        (),
        Errno,
    >)
        requires
            old(volumes).wf(),
        ensures
            final(volumes).wf(),
            match load_fault(out) {
                Some((e, _)) => r == Err::<(), Errno>(e) && final(volumes)@ == old(volumes)@,
                None => match unrecorded(old(volumes)@, self.volume, self.bag) {
                    Ok(maps) => r is Ok && final(volumes)@ == maps,
                    Err(e) => r == Err::<(), Errno>(e) && final(volumes)@ == old(volumes)@,
                },
            },
    {
        match body_of(out) {
            Err(e) => Err(e),
            Ok(b) => match read_fields(b, 0, 1) {
                None => Err(Errno::EMSGSIZE),
                Some(_) => volumes.unrecord(self.volume, self.bag),
            },
        }
    }
}

// ---------------------------------------------------------------------------
// Laws.
// ---------------------------------------------------------------------------
/// A load that fails after it was recorded leaves the volumes as they were
/// before it.
pub proof fn failed_load_leaves_no_record(
    before: Seq<VolumeMap>,
    volume: Uuid,
    bag: Uuid,
    out: Option<&SksOutcome>,
)
    requires
        crate::fv_volumes::no_twice(before),
        forall|i: int| 0 <= i < before.len() ==> (#[trigger] before[i]).refs > 0,
        recorded(before, volume, bag) is Ok,
        load_fault(out) is Some,
    ensures
        after_load(recorded(before, volume, bag)->Ok_0, volume, bag, out) == before,
{
    unrecord_undoes_record(before, volume, bag);
}

/// Keys that the enclave says it loaded but whose answer cannot be read are
/// unloaded again; keys that it refused to load are not.
pub proof fn unreadable_load_is_undone(o: SksOutcome)
    ensures
        load_fault(Some(&o)) matches Some((e, undo)) ==> undo == (o.reply.status == 0),
        o.reply.status != 0 ==> load_fault(Some(&o)) == Some((Errno::EACCES, false)),
{
}

/// Two protection classes that differ have different numbers in the key store.
pub proof fn classes_differ(a: u32, b: u32)
    requires
        stored_class(a) is Some,
        stored_class(b) is Some,
        a != b,
    ensures
        stored_class(a) != stored_class(b),
{
}

/// The parameters take as many bytes as their own lengths say.
proof fn params_len(options: int)
    ensures
        fv_params(options).len() == 35,
{
    broadcast use crate::bytes::group_le;

}

proof fn file_params_len(bag: Uuid)
    ensures
        pfk_params(bag).len() == 28,
        fs_context(bag).len() == 28,
{
    crate::uuid::uuid_round_trip(bag);
}

/// Reading a request for a volume's key field by field gives version 0, client 1,
/// the parameters, options 2, then the secret, the wrapping record and the wrapped
/// key, each where it belongs, and nothing.
pub proof fn volume_key_request_reads_back(secret: Seq<u8>, kek: Seq<u8>, vek: Seq<u8>)
    requires
        secret.len() <= 1024,
        kek.len() <= 528,
        vek.len() <= 528,
    ensures
        reads_as(
            vek_body(secret, kek, vek),
            seq![
                Field::U32(0),
                Field::U64(1),
                Field::Blob(fv_params(0)),
                Field::U32(2),
                Field::Blob(secret),
                Field::Blob(kek),
                Field::Blob(vek),
                Field::Blob(Seq::empty()),
            ],
        ),
{
    broadcast use crate::bytes::group_le;

    params_len(0);
    let f = seq![
        Field::U32(0),
        Field::U64(1),
        Field::Blob(fv_params(0)),
        Field::U32(2),
        Field::Blob(secret),
        Field::Blob(kek),
        Field::Blob(vek),
        Field::Blob(Seq::empty()),
    ];
    reveal_with_fuel(joined, 9);
    assert(joined(f, 8) =~= vek_body(secret, kek, vek));
    joined_reads_as(f);
}

/// A request for a volume's key whose secret, record and wrapped key take one byte
/// each, byte for byte: they stand in that order.
pub proof fn short_volume_key_request(secret: u8, kek: u8, vek: u8)
    ensures
        vek_body(seq![secret], seq![kek], seq![vek]) == seq![
            0u8, 0, 0, 0,
            1, 0, 0, 0, 0, 0, 0, 0,
            35, 0, 0, 0,
            0x31, 0x21, 0x30, 0x0a, 0x0c, 0x02, 0x6b, 0x63, 0x04, 0x04, 0, 0, 0, 0,
            0x30, 0x13, 0x0c, 0x07, 0x6f, 0x70, 0x74, 0x69, 0x6f, 0x6e, 0x73, 0x04, 0x08,
            0, 0, 0, 0, 0, 0, 0, 0,
            0,
            2, 0, 0, 0,
            1, 0, 0, 0, secret, 0, 0, 0,
            1, 0, 0, 0, kek, 0, 0, 0,
            1, 0, 0, 0, vek, 0, 0, 0,
            0, 0, 0, 0,
        ],
{
    params_len(0);
    crate::bytes::small_u32_le(0);
    crate::bytes::small_u32_le(1);
    crate::bytes::small_u32_le(2);
    crate::bytes::small_u32_le(35);
    crate::bytes::small_u64_le(0);
    crate::bytes::small_u64_le(1);
    assert(zeroed(0) =~= Seq::<u8>::empty());
    assert(zeroed(1) =~= seq![0u8]);
    assert(zeroed(3) =~= seq![0u8, 0, 0]);
    assert(blob_bytes(Seq::<u8>::empty()) =~= seq![0u8, 0, 0, 0]);
    assert(blob_bytes(seq![secret]) =~= seq![1u8, 0, 0, 0, secret, 0, 0, 0]);
    assert(blob_bytes(seq![kek]) =~= seq![1u8, 0, 0, 0, kek, 0, 0, 0]);
    assert(blob_bytes(seq![vek]) =~= seq![1u8, 0, 0, 0, vek, 0, 0, 0]);
    assert(blob_bytes(fv_params(0)) =~= seq![35u8, 0, 0, 0] + fv_params(0) + seq![0u8]);
    assert(vek_body(seq![secret], seq![kek], seq![vek]) =~= seq![0u8, 0, 0, 0] + seq![
        1u8, 0, 0, 0, 0, 0, 0, 0,
    ] + (seq![35u8, 0, 0, 0] + fv_params(0) + seq![0u8]) + seq![2u8, 0, 0, 0] + seq![
        1u8, 0, 0, 0, secret, 0, 0, 0,
    ] + seq![1u8, 0, 0, 0, kek, 0, 0, 0] + seq![1u8, 0, 0, 0, vek, 0, 0, 0] + seq![
        0u8, 0, 0, 0,
    ]);
}

/// Reading a request for a media key field by field gives version 1, client 1, the
/// wrapped key, no bag's handle and the class.
pub proof fn media_key_request_reads_back(wrapped: Seq<u8>, class: u32)
    requires
        wrapped.len() == 40,
    ensures
        reads_as(
            media_body(wrapped, class as int),
            seq![
                Field::U32(1),
                Field::U64(1),
                Field::Blob(wrapped),
                Field::I32(-1),
                Field::U32(class as int),
            ],
        ),
{
    broadcast use crate::bytes::group_le;

    let f = seq![
        Field::U32(1),
        Field::U64(1),
        Field::Blob(wrapped),
        Field::I32(-1),
        Field::U32(class as int),
    ];
    reveal_with_fuel(joined, 6);
    assert(joined(f, 5) =~= media_body(wrapped, class as int));
    joined_reads_as(f);
}

/// Reading a request for a file's key field by field gives version 2, client 1, the
/// system volume's handle, the parameters that name the bag, the class, the key
/// wrapped under its class and then the other one, nothing, and the options.
pub proof fn file_key_request_reads_back(bag: Uuid, class: u32, ekwk: Seq<u8>, ek: Seq<u8>)
    requires
        ekwk.len() <= 168,
        ek.len() <= 168,
    ensures
        reads_as(
            file_body(bag, class as int, ekwk, ek),
            seq![
                Field::U32(2),
                Field::U64(1),
                Field::I32(-5),
                Field::Blob(pfk_params(bag)),
                Field::U32(class as int),
                Field::Blob(ek),
                Field::Blob(ekwk),
                Field::Blob(Seq::empty()),
                Field::U32(0x102),
            ],
        ),
{
    broadcast use crate::bytes::group_le;

    file_params_len(bag);
    let f = seq![
        Field::U32(2),
        Field::U64(1),
        Field::I32(-5),
        Field::Blob(pfk_params(bag)),
        Field::U32(class as int),
        Field::Blob(ek),
        Field::Blob(ekwk),
        Field::Blob(Seq::empty()),
        Field::U32(0x102),
    ];
    reveal_with_fuel(joined, 10);
    assert(joined(f, 9) =~= file_body(bag, class as int, ekwk, ek));
    joined_reads_as(f);
}

/// Reading a request for a new file key field by field gives version 2, client 1,
/// the system volume's handle, the parameters that name the bag, the class, the
/// options, what the key is bound to, and nothing.
pub proof fn new_key_request_reads_back(bag: Uuid, class: u32)
    ensures
        reads_as(
            new_body(bag, class as int),
            seq![
                Field::U32(2),
                Field::U64(1),
                Field::I32(-5),
                Field::Blob(pfk_params(bag)),
                Field::U32(class as int),
                Field::U32(0x102),
                Field::Blob(fs_context(bag)),
                Field::Blob(Seq::empty()),
            ],
        ),
{
    broadcast use crate::bytes::group_le;

    file_params_len(bag);
    let f = seq![
        Field::U32(2),
        Field::U64(1),
        Field::I32(-5),
        Field::Blob(pfk_params(bag)),
        Field::U32(class as int),
        Field::U32(0x102),
        Field::Blob(fs_context(bag)),
        Field::Blob(Seq::empty()),
    ];
    reveal_with_fuel(joined, 9);
    assert(joined(f, 8) =~= new_body(bag, class as int));
    joined_reads_as(f);
}

/// Reading a request for a volume's state field by field gives version 0, client 1,
/// the parameters with the volume's options, and the volume's key.
pub proof fn volume_state_request_reads_back(options: u64, volume_key: Seq<u8>)
    requires
        volume_key.len() <= 528,
    ensures
        reads_as(
            blob_state_body(options as int, volume_key),
            seq![
                Field::U32(0),
                Field::U64(1),
                Field::Blob(fv_params(options as int)),
                Field::Blob(volume_key),
            ],
        ),
{
    broadcast use crate::bytes::group_le;

    params_len(options as int);
    let f = seq![
        Field::U32(0),
        Field::U64(1),
        Field::Blob(fv_params(options as int)),
        Field::Blob(volume_key),
    ];
    reveal_with_fuel(joined, 5);
    assert(joined(f, 4) =~= blob_state_body(options as int, volume_key));
    joined_reads_as(f);
}

/// Reading a request that changes a volume's protection field by field gives
/// version 0, client 1, the parameters with the volume's options, the command, the
/// options once more, then the secret, the record and the volume's key.
pub proof fn load_request_reads_back(options: u64, command: u32, secret: Seq<u8>, record: Seq<u8>, volume_key: Seq<u8>)
    requires
        secret.len() <= 1024,
        record.len() <= 528,
        volume_key.len() <= 528,
    ensures
        reads_as(
            protection_body(options as int, command as int, secret, record, volume_key),
            seq![
                Field::U32(0),
                Field::U64(1),
                Field::Blob(fv_params(options as int)),
                Field::U32(command as int),
                Field::U64(options as int),
                Field::Blob(secret),
                Field::Blob(record),
                Field::Blob(volume_key),
            ],
        ),
{
    broadcast use crate::bytes::group_le;

    params_len(options as int);
    let f = seq![
        Field::U32(0),
        Field::U64(1),
        Field::Blob(fv_params(options as int)),
        Field::U32(command as int),
        Field::U64(options as int),
        Field::Blob(secret),
        Field::Blob(record),
        Field::Blob(volume_key),
    ];
    reveal_with_fuel(joined, 9);
    assert(joined(f, 8) =~= protection_body(options as int, command as int, secret, record, volume_key));
    joined_reads_as(f);
}

/// A request that unloads class keys carries the command 0x13, neither a secret nor
/// a record, and the volume's key.
pub proof fn unload_request_reads_back(options: u64, volume_key: Seq<u8>)
    requires
        volume_key.len() <= 528,
    ensures
        reads_as(
            unload_body(options as int, volume_key),
            seq![
                Field::U32(0),
                Field::U64(1),
                Field::Blob(fv_params(options as int)),
                Field::U32(0x13),
                Field::U64(options as int),
                Field::Blob(Seq::empty()),
                Field::Blob(Seq::empty()),
                Field::Blob(volume_key),
            ],
        ),
{
    load_request_reads_back(options, 0x13, Seq::empty(), Seq::empty(), volume_key);
}

/// The parameters of a per-file key are one set, with one pair: the bag's bytes
/// stand under `vuid`.
pub proof fn file_parameters_name_the_bag(bag: Uuid)
    ensures
        pfk_params(bag).len() == 28,
        pfk_params(bag)[0] == 0x31,
        pfk_params(bag)[1] == 26,
        pfk_params(bag).subrange(6, 10) == seq![0x76u8, 0x75, 0x69, 0x64],
        pfk_params(bag).subrange(10, 12) == seq![0x04u8, 16],
        pfk_params(bag).subrange(12, 28) == bag@,
        fs_context(bag).len() == 28,
        fs_context(bag).subrange(10, 26) == bag@,
        forall|i: int| 0 <= i < 10 || 26 <= i < 28 ==> fs_context(bag)[i] == 0,
{
    file_params_len(bag);
    crate::uuid::uuid_round_trip(bag);
}

/// The parameters of a volume are one set with two pairs: four zeros under `kc` and
/// the options under `options`.
pub proof fn volume_parameters_name_the_options(options: u64)
    ensures
        fv_params(options as int).len() == 35,
        fv_params(options as int)[0] == 0x31,
        fv_params(options as int)[1] == 33,
        fv_params(options as int).subrange(6, 8) == seq![0x6bu8, 0x63],
        fv_params(options as int).subrange(8, 14) == seq![0x04u8, 4, 0, 0, 0, 0],
        fv_params(options as int).subrange(18, 25) == seq![
            0x6fu8,
            0x70,
            0x74,
            0x69,
            0x6f,
            0x6e,
            0x73,
        ],
        fv_params(options as int).subrange(25, 27) == seq![0x04u8, 8],
        u64_at(fv_params(options as int), 27) == options,
{
    params_len(options as int);
    crate::bytes::u64_round_trip(options as int);
    assert(fv_params(options as int).subrange(27, 35) =~= u64_le(options as int));
    crate::bytes::u64_reads_back(fv_params(options as int), 27, options as int);
}

/// Two volumes have different options only if one of them is the system's own,
/// which alone has option 4.
pub proof fn only_the_system_volume_has_an_option(os: Option<Uuid>, volume: Uuid)
    ensures
        options_of(os, volume) == 4 <==> os == Some(volume),
        options_of(os, volume) != 4 ==> options_of(os, volume) == 0,
{
}

/// A class keeps all but its low five bits; of these 1, 2, 3 and 4 stay, 6 becomes
/// 13, 7 becomes 17, and no other class has a number in the key store.
pub proof fn class_numbers(high: u32, low: u32)
    requires
        low < 32,
        high <= 0x07ff_ffff,
    ensures
        ({
            let class = stored_class((high * 32 + low) as u32);
            &&& low == 1 || low == 2 || low == 3 || low == 4 ==> class == Some(high * 32 + low)
            &&& low == 6 ==> class == Some(high * 32 + 13)
            &&& low == 7 ==> class == Some(high * 32 + 17)
            &&& low == 0 || low == 5 || low > 7 ==> class is None
        }),
{
}

/// What is wrong with the bytes is said first, then that the driver has not come
/// up, then that there is no key store.
pub proof fn faults_in_order(ok: bool, ready: Readiness)
    ensures
        start_fault(ok, ready) is None <==> ok && ready.phase_ready && ready.sks_ready,
        !ok ==> start_fault(ok, ready) == Some(Errno::EINVAL),
        ok && !ready.phase_ready ==> start_fault(ok, ready) == Some(Errno::EAGAIN),
        ok && ready.phase_ready && !ready.sks_ready ==> start_fault(ok, ready) == Some(
            Errno::ENODEV,
        ),
{
}

/// Without an answer there is an I/O error; a refusal denies access; an answer
/// without a readable body is malformed.
pub proof fn answers_are_judged(out: Option<&SksOutcome>)
    ensures
        out is None ==> reply_body(out) == Err::<Seq<u8>, Errno>(Errno::EIO),
        out is Some && out->0.reply.status != 0 ==> reply_body(out) == Err::<Seq<u8>, Errno>(
            Errno::EACCES,
        ),
        out is Some && out->0.reply.status == 0 && out->0.body() is None ==> reply_body(out) == Err::<
            Seq<u8>,
            Errno,
        >(Errno::EMSGSIZE),
        out is Some && out->0.reply.status == 0 && out->0.body() is Some ==> reply_body(out) == Ok::<
            Seq<u8>,
            Errno,
        >(out->0.body()->0),
{
}

/// An answer with version 1, a key of 64 bytes, a vector key of 16 and a number
/// whose second bit is set gives a media key of these; with the bit clear it is
/// malformed.
pub proof fn media_key_is_read(out: Option<&SksOutcome>, key: Seq<u8>, iv: Seq<u8>, flags: u32)
    requires
        reply_body(out) is Ok,
        reads_as(
            reply_body(out)->Ok_0,
            seq![
                Field::I32(1),
                Field::Blob(key),
                Field::Blob(iv),
                Field::U32(flags as int),
            ],
        ),
    ensures
        key.len() == 64 && iv.len() == 16 && flags / 2 % 2 == 1 ==> media_key_of(out) == Ok::<
            (Seq<u8>, Seq<u8>),
            Errno,
        >((key, iv)),
        key.len() != 64 || iv.len() != 16 || flags / 2 % 2 == 0 ==> media_key_of(out) == Err::<
            (Seq<u8>, Seq<u8>),
            Errno,
        >(Errno::EMSGSIZE),
{
    reveal_with_fuel(reads_from, 5);
    reveal_with_fuel(blobs_at, 3);
}

/// An answer with version 0, a key of 64 bytes and a number whose lowest bit is set
/// gives a volume's key of these, with sixteen zeros for a vector key; with the
/// bit clear it is malformed.
pub proof fn volume_key_is_read(out: Option<&SksOutcome>, key: Seq<u8>, flags: u32)
    requires
        reply_body(out) is Ok,
        reads_as(
            reply_body(out)->Ok_0,
            seq![Field::I32(0), Field::Blob(key), Field::U32(flags as int)],
        ),
    ensures
        key.len() == 64 && flags % 2 == 1 ==> (volume_key_of(out) matches Ok((k, iv)) && k == key
            && iv.len() == 16 && forall|i: int| 0 <= i < 16 ==> iv[i] == 0),
        key.len() != 64 || flags % 2 == 0 ==> volume_key_of(out) == Err::<
            (Seq<u8>, Seq<u8>),
            Errno,
        >(Errno::EMSGSIZE),
{
    reveal_with_fuel(reads_from, 4);
    reveal_with_fuel(blobs_at, 2);
}

/// An answer with version 2, a key of 64 bytes, a vector key of 16, one more blob
/// and a number whose second bit is set gives a file's key of these; with the bit
/// clear it is malformed.
pub proof fn file_key_is_read(
    out: Option<&SksOutcome>,
    key: Seq<u8>,
    iv: Seq<u8>,
    more: Seq<u8>,
    flags: u32,
)
    requires
        reply_body(out) is Ok,
        reads_as(
            reply_body(out)->Ok_0,
            seq![
                Field::I32(2),
                Field::Blob(key),
                Field::Blob(iv),
                Field::Blob(more),
                Field::U32(flags as int),
            ],
        ),
    ensures
        key.len() == 64 && iv.len() == 16 && flags / 2 % 2 == 1 ==> file_key_of(out) == Ok::<
            (Seq<u8>, Seq<u8>),
            Errno,
        >((key, iv)),
        key.len() != 64 || iv.len() != 16 || flags / 2 % 2 == 0 ==> file_key_of(out) == Err::<
            (Seq<u8>, Seq<u8>),
            Errno,
        >(Errno::EMSGSIZE),
{
    reveal_with_fuel(reads_from, 6);
    reveal_with_fuel(blobs_at, 4);
}

/// Blobs that a body reads as are the blobs in a row there.
proof fn blobs_are_read(body: Seq<u8>, at: int, fields: Seq<Field>, i: int, n: int)
    requires
        reads_from(body, at, fields, i),
        0 <= n,
        0 <= i,
        i + n <= fields.len(),
        forall|j: int| i <= j < i + n ==> (#[trigger] fields[j]) is Blob,
    ensures
        blobs_at(body, at, n) matches Some((b, end)) && b.len() == n && reads_from(
            body,
            end,
            fields,
            i + n,
        ) && forall|j: int| 0 <= j < n ==> #[trigger] b[j] == fields[i + j]->Blob_0,
    decreases n,
{
    if n > 0 {
        blobs_are_read(body, at, fields, i, n - 1);
        let last = fields[i + n - 1];
        assert(last is Blob);
    }
}

/// An answer with version 2, a key, a vector key, an ephemeral key, the key wrapped
/// under its class and the other wrapped key, a number whose second bit is set and
/// the class that was asked for gives a new key with each of them in its own place,
/// filled up with zeros. The class of another request is not taken.
pub proof fn new_key_is_read(
    body: Seq<u8>,
    key: Seq<u8>,
    iv: Seq<u8>,
    ephemeral: Seq<u8>,
    ek: Seq<u8>,
    ekwk: Seq<u8>,
    flags: u32,
    named: u32,
    class: u32,
)
    requires
        reads_as(
            body,
            seq![
                Field::I32(2),
                Field::Blob(key),
                Field::Blob(iv),
                Field::Blob(ephemeral),
                Field::Blob(ek),
                Field::Blob(ekwk),
                Field::U32(flags as int),
                Field::U32(named as int),
            ],
        ),
    ensures
        new_key_in(body, class as int) is Some <==> key.len() == 64 && iv.len() == 16 && 0
            < ephemeral.len() <= 64 && 0 < ek.len() <= 168 && 0 < ekwk.len() <= 168 && flags / 2 % 2
            == 1 && named == class,
        new_key_in(body, class as int) matches Some(f) ==> forall|k: NewFileKey|
            k.is_of(f) ==> {
                &&& k.key.opaque@ == key
                &&& k.key.iv@ == iv
                &&& k.wrapped_ek_len == ek.len()
                &&& k.wrapped_ekwk_len == ekwk.len()
                &&& k.wrapped_ek@.len() == 168
                &&& k.wrapped_ekwk@.len() == 168
                &&& k.wrapped_ek@.subrange(0, ek.len() as int) == ek
                &&& k.wrapped_ekwk@.subrange(0, ekwk.len() as int) == ekwk
                &&& forall|i: int| ek.len() <= i < 168 ==> k.wrapped_ek@[i] == 0
                &&& forall|i: int| ekwk.len() <= i < 168 ==> k.wrapped_ekwk@[i] == 0
            },
{
    let fields = seq![
        Field::I32(2),
        Field::Blob(key),
        Field::Blob(iv),
        Field::Blob(ephemeral),
        Field::Blob(ek),
        Field::Blob(ekwk),
        Field::U32(flags as int),
        Field::U32(named as int),
    ];
    assert(reads_from(body, 4, fields, 1));
    blobs_are_read(body, 4, fields, 1, 5);
    let (f, end) = blobs_at(body, 4, 5)->0;
    assert(f[0] == fields[1]->Blob_0);
    assert(f[1] == fields[2]->Blob_0);
    assert(f[2] == fields[3]->Blob_0);
    assert(f[3] == fields[4]->Blob_0);
    assert(f[4] == fields[5]->Blob_0);
    assert(reads_from(body, end, fields, 6));
    assert(reads_from(body, end + 4, fields, 7));
    assert(padded(ek).subrange(0, ek.len() as int) =~= ek);
    assert(padded(ekwk).subrange(0, ekwk.len() as int) =~= ekwk);
}

/// A load went well only if the answer has version 0 and a whole blob.
pub proof fn load_is_confirmed(o: SksOutcome, state: Seq<u8>)
    requires
        o.reply.status == 0,
        o.body() is Some,
        reads_as(o.body()->0, seq![Field::I32(0), Field::Blob(state)]),
    ensures
        load_fault(Some(&o)) is None,
{
    reveal_with_fuel(reads_from, 3);
    reveal_with_fuel(blobs_at, 2);
}

/// The bag of a volume is the sixteen octets that stand under `kid` in the volume's
/// state.
pub proof fn bag_is_named_by_the_state(body: Seq<u8>, state: Seq<u8>, bag: Seq<u8>)
    requires
        reads_as(body, seq![Field::I32(0), Field::Blob(state)]),
        found(state, seq![0x6bu8, 0x69, 0x64]) == Some(seq![0x04u8, 16] + bag),
        bag.len() == 16,
    ensures
        bag_in(body) == Some(uuid_at(bag, 0)),
        bag_in(body)->0@ == bag,
{
    reveal_with_fuel(reads_from, 3);
    reveal_with_fuel(blobs_at, 2);
    assert(seq![0x6bu8, 0x69, 0x64] =~= key_kid());
    crate::uuid::uuid_bytes(bag, 0);
    assert(bag.subrange(0, 16) =~= bag);
}

} // verus!
