//! Request and response images of the key-store endpoint.

use crate::bytes::{
    group_le, i32_at, i32_le, put_bytes, put_i32, put_u32, put_u64, put_zeros, read_i32, read_u32,
    u32_at, u32_le, u64_at, u64_le, zeroed,
};
use crate::errno::Errno;
use crate::proto::{blob_at, pad4};
use vstd::prelude::*;

verus! {

pub const HEADER_SIZE: u32 = 0x50;

/// The length field and the header.
pub const HEADER_WIRE: usize = 0x54;

pub const SHA256_LEN: usize = 32;

/// How much of a digest an image carries.
pub const DIGEST_LEN: usize = 16;

/// The version of an image.
#[derive(Clone, Copy, Debug, PartialEq, Eq, Structural)]
pub enum Version {
    V1,
}

impl Version {
    pub open spec fn number(self) -> u32 {
        1
    }

    pub fn wire(self) -> (v: u32)
        ensures
            v == self.number(),
    {
        match self {
            Version::V1 => 1,
        }
    }
}

/// Overwrites secret bytes with zeros.
pub fn wipe(bytes: &mut Vec<u8>)
    ensures
        final(bytes)@ == zeroed(old(bytes).len() as int),
{
    let n: usize = bytes.len();
    let mut i: usize = 0;
    while i < n
        invariant
            i <= n,
            bytes.len() == n,
            forall|j: int| 0 <= j < i ==> bytes@[j] == 0,
        decreases n - i,
    {
        bytes.set(i, 0);
        i = i + 1;
    }
    assert(bytes@ =~= zeroed(n as int));
}

/// A blob as it stands in a body: its length, its bytes, and zeros up to a
/// four-byte boundary.
pub open spec fn blob_bytes(b: Seq<u8>) -> Seq<u8> {
    u32_le(b.len() as int) + b + zeroed(pad4(b.len() as int))
}

/// The body of a request, under construction.
pub struct Body {
    bytes: Vec<u8>,
}

impl Body {
    pub closed spec fn view(&self) -> Seq<u8> {
        self.bytes@
    }

    pub fn new() -> (b: Body)
        ensures
            b@ == Seq::<u8>::empty(),
    {
        Body { bytes: Vec::new() }
    }

    pub fn put_u32(&mut self, v: u32)
        ensures
            final(self)@ == old(self)@ + u32_le(v as int),
    {
        put_u32(&mut self.bytes, v);
    }

    pub fn put_i32(&mut self, v: i32)
        ensures
            final(self)@ == old(self)@ + i32_le(v as int),
    {
        put_i32(&mut self.bytes, v);
    }

    pub fn put_u64(&mut self, v: u64)
        ensures
            final(self)@ == old(self)@ + u64_le(v as int),
    {
        put_u64(&mut self.bytes, v);
    }

    /// Appends a blob. One whose length does not fit 32 bits is refused.
    pub fn put_blob(&mut self, b: &[u8]) -> (r: Result<(), Errno>)
        ensures
            match r {
                Ok(_) => b.len() <= u32::MAX && final(self)@ == old(self)@ + blob_bytes(b@),
                Err(e) => b.len() > u32::MAX && e == Errno::EINVAL && final(self)@ == old(self)@,
            },
    {
        if b.len() as u64 > 0xffff_ffff {
            return Err(Errno::EINVAL);
        }
        put_u32(&mut self.bytes, b.len() as u32);
        put_bytes(&mut self.bytes, b);
        let pad: usize = (4 - b.len() % 4) % 4;
        put_zeros(&mut self.bytes, pad);
        assert(self@ =~= old(self)@ + blob_bytes(b@));
        Ok(())
    }

    pub fn as_slice(&self) -> (s: &[u8])
        ensures
            s@ == self@,
    {
        self.bytes.as_slice()
    }

    /// Overwrites the bytes, for when they are let go.
    pub fn wipe(&mut self)
        ensures
            final(self)@ == zeroed(old(self)@.len() as int),
    {
        wipe(&mut self.bytes);
    }
}

/// The header from the version on: the version, the time, and zeros for the
/// fields that the enclave does not ask for.
pub open spec fn stamped(timestamp_us: u64) -> Seq<u8> {
    u32_le(1) + u64_le(timestamp_us as int) + zeroed(0x2c)
}

/// What the digest of an image covers: the header from the version up to its
/// trailer, and the body.
pub open spec fn covered(timestamp_us: u64, body: Seq<u8>) -> Seq<u8> {
    stamped(timestamp_us) + body
}

/// An image: the header's length, the start of the digest, the header, and the
/// body.
pub open spec fn image_bytes(timestamp_us: u64, body: Seq<u8>, digest: Seq<u8>) -> Seq<u8> {
    u32_le(HEADER_SIZE as int) + digest.subrange(0, 16) + stamped(timestamp_us) + zeroed(8) + body
}

fn put_stamped(out: &mut Vec<u8>, version: Version, timestamp_us: u64)
    ensures
        final(out)@ == old(out)@ + stamped(timestamp_us),
{
    put_u32(out, version.wire());
    put_u64(out, timestamp_us);
    put_zeros(out, 0x2c);
    assert(out@ =~= old(out)@ + stamped(timestamp_us));
}

/// The bytes to digest for a request.
pub fn digest_input(version: Version, timestamp_us: u64, body: &Body) -> (out: Vec<u8>)
    ensures
        out@ == covered(timestamp_us, body@),
{
    let mut out: Vec<u8> = Vec::new();
    put_stamped(&mut out, version, timestamp_us);
    put_bytes(&mut out, body.as_slice());
    assert(out@ =~= covered(timestamp_us, body@));
    out
}

/// A request, ready for the buffer.
pub struct RequestImage {
    bytes: Vec<u8>,
}

impl RequestImage {
    pub closed spec fn view(&self) -> Seq<u8> {
        self.bytes@
    }

    pub fn as_slice(&self) -> (s: &[u8])
        ensures
            s@ == self@,
    {
        self.bytes.as_slice()
    }

    pub fn len(&self) -> (n: usize)
        ensures
            n == self@.len(),
    {
        self.bytes.len()
    }

    /// Overwrites the bytes, for when they are let go.
    pub fn wipe(&mut self)
        ensures
            final(self)@ == zeroed(old(self)@.len() as int),
    {
        wipe(&mut self.bytes);
    }
}

/// Puts a request together, with the digest of its [`digest_input`].
pub fn build_request(version: Version, timestamp_us: u64, body: &Body, digest: &[u8]) -> (img:
    RequestImage)
    requires
        digest.len() == SHA256_LEN,
    ensures
        img@ == image_bytes(timestamp_us, body@, digest@),
        img@.len() == HEADER_WIRE + body@.len(),
{
    broadcast use group_le;

    let mut bytes: Vec<u8> = Vec::new();
    put_u32(&mut bytes, HEADER_SIZE);
    put_bytes(&mut bytes, vstd::slice::slice_subrange(digest, 0, DIGEST_LEN));
    put_stamped(&mut bytes, version, timestamp_us);
    put_zeros(&mut bytes, 8);
    put_bytes(&mut bytes, body.as_slice());
    assert(bytes@ =~= image_bytes(timestamp_us, body@, digest@));
    proof {
        crate::bytes::u64_round_trip(timestamp_us as int);
    }
    RequestImage { bytes }
}

/// The digest covers what the image says: the bytes of the image from the
/// version up to the trailer, and its body, are the bytes that were digested.
pub proof fn image_carries_what_is_covered(timestamp_us: u64, body: Seq<u8>, digest: Seq<u8>)
    requires
        digest.len() == SHA256_LEN,
    ensures
        ({
            let img = image_bytes(timestamp_us, body, digest);
            &&& img.len() == HEADER_WIRE + body.len()
            &&& img.subrange(0x14, 0x4c) + img.subrange(0x54, img.len() as int) == covered(
                timestamp_us,
                body,
            )
            &&& img.subrange(4, 0x14) == digest.subrange(0, 16)
        }),
{
    broadcast use group_le;

    let img = image_bytes(timestamp_us, body, digest);
    crate::bytes::u64_round_trip(timestamp_us as int);
    assert(stamped(timestamp_us).len() == 0x38);
    assert(img.subrange(0x14, 0x4c) =~= stamped(timestamp_us));
    assert(img.subrange(0x54, img.len() as int) =~= body);
    assert(img.subrange(4, 0x14) =~= digest.subrange(0, 16));
}

/// Where the body of a response starts, if the response has a whole header.
pub open spec fn response_body(bytes: Seq<u8>) -> Option<Seq<u8>> {
    if bytes.len() < 4 || u32_at(bytes, 0) < 0x14 || bytes.len() < 4 + u32_at(bytes, 0) {
        None
    } else {
        Some(bytes.subrange(4 + u32_at(bytes, 0), bytes.len() as int))
    }
}

/// The body of a response.
pub fn parse_response(bytes: &[u8]) -> (r: Result<&[u8], Errno>)
    ensures
        match r {
            Ok(body) => response_body(bytes@) == Some(body@),
            Err(e) => response_body(bytes@) is None && e == Errno::EINVAL,
        },
{
    if bytes.len() < 4 {
        return Err(Errno::EINVAL);
    }
    let header: usize = read_u32(bytes, 0) as usize;
    if header < 0x14 {
        return Err(Errno::EINVAL);
    }
    if bytes.len() - 4 < header {
        return Err(Errno::EINVAL);
    }
    Ok(vstd::slice::slice_subrange(bytes, 4 + header, bytes.len()))
}

/// The blob at `off`, and where the next field starts.
#[verifier::loop_isolation(false)]
pub fn read_blob(body: &[u8], off: usize) -> (r: Option<(&[u8], usize)>)
    ensures
        match r {
            Some((b, next)) => blob_at(body@, off as int) == Some((b@, next as int)),
            None => blob_at(body@, off as int) is None,
        },
{
    let len: usize = body.len();
    if len < 4 || off > len - 4 {
        return None;
    }
    let n: usize = read_u32(body, off) as usize;
    let start: usize = off + 4;
    if n > len - start {
        return None;
    }
    let end: usize = start + n;
    let pad: usize = (4 - n % 4) % 4;
    if pad > len - end {
        return None;
    }
    let next: usize = end + pad;
    let mut i: usize = end;
    while i < next
        invariant
            end <= i <= next <= len,
            forall|j: int| end <= j < i ==> body@[j] == 0,
        decreases next - i,
    {
        if body[i] != 0 {
            assert(body@[i as int] != 0);
            return None;
        }
        i = i + 1;
    }
    Some((vstd::slice::slice_subrange(body, start, end), next))
}

/// The status at the start of a body.
pub fn operation_status(body: &[u8]) -> (r: Option<i32>)
    ensures
        match r {
            Some(v) => body.len() >= 4 && v == i32_at(body@, 0),
            None => body.len() < 4,
        },
{
    if body.len() < 4 {
        return None;
    }
    Some(read_i32(body, 0))
}

/// A blob that is put into a body is read back, wherever it stands, and the
/// next field starts right behind it.
pub proof fn blob_round_trip(before: Seq<u8>, b: Seq<u8>, after: Seq<u8>)
    requires
        b.len() <= u32::MAX,
    ensures
        blob_at(before + blob_bytes(b) + after, before.len() as int) == Some(
            (b, (before.len() + blob_bytes(b).len()) as int),
        ),
{
    broadcast use group_le;

    let at = before.len() as int;
    let body = before + blob_bytes(b) + after;
    assert(body.subrange(at, at + 4) =~= u32_le(b.len() as int));
    crate::bytes::u32_at_subrange(body, at, at + 4, 0);
    assert(body.subrange(at + 4, at + 4 + b.len() as int) =~= b);
    let end = at + 4 + b.len();
    let next = end + pad4(b.len() as int);
    assert(!(exists|i: int| end <= i < next && body[i] != 0));
}

// ---------------------------------------------------------------------------
// Reading a body back.
// ---------------------------------------------------------------------------
/// A part of a body, as whoever reads it takes it.
#[verifier::ext_equal]
pub enum Field {
    U32(int),
    I32(int),
    U64(int),
    Blob(Seq<u8>),
}

pub open spec fn fits(f: Field) -> bool {
    match f {
        Field::U32(v) => 0 <= v < 0x1_0000_0000,
        Field::I32(v) => -0x8000_0000 <= v < 0x8000_0000,
        Field::U64(v) => 0 <= v < 0x1_0000_0000_0000_0000,
        Field::Blob(b) => b.len() < 0x1_0000_0000,
    }
}

/// Whether a body reads as these parts from the part `i` on, starting at `at` and
/// ending where the body ends.
pub open spec fn reads_from(body: Seq<u8>, at: int, fields: Seq<Field>, i: int) -> bool
    decreases fields.len() - i,
{
    if i >= fields.len() {
        at == body.len()
    } else {
        match fields[i] {
            Field::U32(v) => at + 4 <= body.len() && u32_at(body, at) == v && reads_from(
                body,
                at + 4,
                fields,
                i + 1,
            ),
            Field::I32(v) => at + 4 <= body.len() && i32_at(body, at) == v && reads_from(
                body,
                at + 4,
                fields,
                i + 1,
            ),
            Field::U64(v) => at + 8 <= body.len() && u64_at(body, at) == v && reads_from(
                body,
                at + 8,
                fields,
                i + 1,
            ),
            Field::Blob(b) => match blob_at(body, at) {
                Some((read, next)) => read == b && reads_from(body, next, fields, i + 1),
                None => false,
            },
        }
    }
}

/// Whether a body reads as these parts, one behind the other.
pub open spec fn reads_as(body: Seq<u8>, fields: Seq<Field>) -> bool {
    reads_from(body, 0, fields, 0)
}

/// The bytes that a part takes.
pub open spec fn part(f: Field) -> Seq<u8> {
    match f {
        Field::U32(v) => u32_le(v),
        Field::I32(v) => i32_le(v),
        Field::U64(v) => u64_le(v),
        Field::Blob(b) => blob_bytes(b),
    }
}

/// A blob is read where it stands.
proof fn blob_reads_back(p: Seq<u8>, at: int, b: Seq<u8>)
    requires
        0 <= at,
        at + blob_bytes(b).len() <= p.len(),
        b.len() < 0x1_0000_0000,
        p.subrange(at, at + blob_bytes(b).len()) == blob_bytes(b),
    ensures
        blob_at(p, at) == Some((b, (at + blob_bytes(b).len()) as int)),
{
    broadcast use group_le;

    let n = b.len() as int;
    let s = blob_bytes(b);
    let t = p.subrange(at, at + s.len());
    assert(s.len() == 4 + n + pad4(n));
    assert forall|k: int| 0 <= k < s.len() implies #[trigger] p[at + k] == s[k] by {
        assert(t[k] == s[k]);
    }
    assert(p.subrange(at, at + 4) =~= u32_le(n)) by {
        assert forall|k: int| 0 <= k < 4 implies p.subrange(at, at + 4)[k] == u32_le(n)[k] by {
            assert(p[at + k] == s[k]);
        }
    }
    crate::bytes::u32_reads_back(p, at, n);
    assert(p.subrange(at + 4, at + 4 + n) =~= b) by {
        assert forall|k: int| 0 <= k < n implies p.subrange(at + 4, at + 4 + n)[k] == b[k] by {
            assert(p[at + (4 + k)] == s[4 + k]);
        }
    }
    assert forall|i: int| at + 4 + n <= i < at + 4 + n + pad4(n) implies p[i] == 0 by {
        assert(p[at + (i - at)] == s[i - at]);
    }
}

/// The first `n` parts, one behind the other.
pub open spec fn joined(fields: Seq<Field>, n: int) -> Seq<u8>
    decreases n,
{
    if n <= 0 {
        Seq::empty()
    } else if n == 1 {
        part(fields[0])
    } else {
        joined(fields, n - 1) + part(fields[n - 1])
    }
}

/// Each part stands behind those before it.
proof fn part_stands(fields: Seq<Field>, n: int, i: int)
    requires
        0 <= i < n <= fields.len(),
    ensures
        ({
            let at = joined(fields, i).len() as int;
            let f = part(fields[i]);
            &&& joined(fields, i + 1).len() == at + f.len()
            &&& at + f.len() <= joined(fields, n).len()
            &&& joined(fields, n).subrange(at, at + f.len()) == f
        }),
    decreases n,
{
    let at = joined(fields, i).len() as int;
    let f = part(fields[i]);
    if i < n - 1 {
        part_stands(fields, n - 1, i);
        assert(joined(fields, n).subrange(at, at + f.len()) =~= joined(fields, n - 1).subrange(
            at,
            at + f.len(),
        ));
    } else {
        assert(joined(fields, n).subrange(at, at + f.len()) =~= f);
    }
}

proof fn reads_on(body: Seq<u8>, fields: Seq<Field>, i: int)
    requires
        0 <= i <= fields.len(),
        body == joined(fields, fields.len() as int),
        forall|j: int| 0 <= j < fields.len() ==> fits(#[trigger] fields[j]),
    ensures
        reads_from(body, joined(fields, i).len() as int, fields, i),
    decreases fields.len() - i,
{
    broadcast use group_le;

    if i < fields.len() {
        let at = joined(fields, i).len() as int;
        part_stands(fields, fields.len() as int, i);
        reads_on(body, fields, i + 1);
        match fields[i] {
            Field::U32(v) => crate::bytes::u32_reads_back(body, at, v),
            Field::I32(v) => crate::bytes::i32_reads_back(body, at, v),
            Field::U64(v) => {
                crate::bytes::u64_round_trip(v);
                crate::bytes::u64_reads_back(body, at, v)
            },
            Field::Blob(b) => blob_reads_back(body, at, b),
        }
    }
}

/// A body that is these parts, one behind the other, reads as these parts.
pub proof fn joined_reads_as(fields: Seq<Field>)
    requires
        forall|j: int| 0 <= j < fields.len() ==> fits(#[trigger] fields[j]),
    ensures
        reads_as(joined(fields, fields.len() as int), fields),
{
    reads_on(joined(fields, fields.len() as int), fields, 0);
}

/// Where the parts of an image stand: the header's length, which is 0x50, the first half
/// of the digest, version 1, the time, zeros, and the body from 0x54 on.
pub proof fn image_is_laid_out(timestamp_us: u64, body: Seq<u8>, digest: Seq<u8>)
    requires
        digest.len() == 32,
    ensures
        ({
            let img = image_bytes(timestamp_us, body, digest);
            &&& img.len() == 0x54 + body.len()
            &&& u32_at(img, 0) == 0x50
            &&& img.subrange(4, 20) == digest.subrange(0, 16)
            &&& u32_at(img, 20) == 1
            &&& u64_at(img, 24) == timestamp_us
            &&& forall|i: int| 32 <= i < 0x54 ==> img[i] == 0
            &&& img.subrange(0x54, img.len() as int) == body
        }),
{
    broadcast use group_le;

    crate::bytes::u64_round_trip(timestamp_us as int);
    let img = image_bytes(timestamp_us, body, digest);
    assert(img.subrange(0, 4) =~= u32_le(0x50));
    assert(img.subrange(4, 20) =~= digest.subrange(0, 16));
    assert(img.subrange(20, 24) =~= u32_le(1));
    assert(img.subrange(24, 32) =~= u64_le(timestamp_us as int));
    assert(img.subrange(0x54, img.len() as int) =~= body);
    crate::bytes::u32_reads_back(img, 0, 0x50);
    crate::bytes::u32_reads_back(img, 20, 1);
    crate::bytes::u64_reads_back(img, 24, timestamp_us as int);
}

/// The digest covers version 1, the time, 44 zeros, and the body.
pub proof fn digest_covers(timestamp_us: u64, body: Seq<u8>)
    ensures
        ({
            let c = covered(timestamp_us, body);
            &&& c.len() == 56 + body.len()
            &&& u32_at(c, 0) == 1
            &&& u64_at(c, 4) == timestamp_us
            &&& forall|i: int| 12 <= i < 56 ==> c[i] == 0
            &&& c.subrange(56, c.len() as int) == body
        }),
{
    broadcast use group_le;

    crate::bytes::u64_round_trip(timestamp_us as int);
    let c = covered(timestamp_us, body);
    assert(c.subrange(0, 4) =~= u32_le(1));
    assert(c.subrange(4, 12) =~= u64_le(timestamp_us as int));
    assert(c.subrange(56, c.len() as int) =~= body);
    crate::bytes::u32_reads_back(c, 0, 1);
    crate::bytes::u64_reads_back(c, 4, timestamp_us as int);
}

/// The body of a response is what stands behind its header, whose length it states, and
/// which takes at least twenty bytes.
pub proof fn response_is_parted(header: Seq<u8>, body: Seq<u8>)
    requires
        header.len() <= u32::MAX,
    ensures
        header.len() >= 20 ==> response_body(u32_le(header.len() as int) + header + body) == Some(
            body,
        ),
        header.len() < 20 ==> response_body(u32_le(header.len() as int) + header + body) is None,
        response_body(Seq::empty()) is None,
{
    broadcast use group_le;

    let r = u32_le(header.len() as int) + header + body;
    assert(r.subrange(0, 4) =~= u32_le(header.len() as int));
    crate::bytes::u32_reads_back(r, 0, header.len() as int);
    if header.len() >= 20 {
        assert(r.subrange(4 + header.len() as int, r.len() as int) =~= body);
    }
}

} // verus!
