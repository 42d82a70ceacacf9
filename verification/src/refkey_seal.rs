//! The host's half of sealing to an enclave key: an elliptic-curve exchange
//! with a fresh key, a key derivation over its result, and an authenticated
//! cipher. The exchange, the digests and the cipher are made elsewhere; what
//! goes into them and what is made of their results is decided here.

use vstd::prelude::*;

use crate::bytes::{
    copy_of, copy_range, group_le, put_be32, put_bytes, put_zeros, u32_at, u32_be, u32_le,
    u32_round_trip, zeroed, zeros,
};
use crate::errno::Errno;
use crate::image::wipe;

verus! {

pub const TAG_LEN: usize = 16;

pub const IV_LEN: usize = 16;

pub const AES256_KEY_LEN: usize = 32;

pub const AES128_KEY_LEN: usize = 16;

/// An uncompressed point: a byte that says so and two coordinates.
pub const POINT_LEN: usize = 65;

pub const COORDS_LEN: usize = 64;

pub const DIGEST_LEN: usize = 32;

/// The choices that the scheme leaves open.
#[derive(Clone, Copy, Debug, PartialEq, Eq, Structural)]
pub struct Scheme {
    pub key_len: usize,
    /// Whether the initial vector is derived with the key, or all zeros.
    pub variable_iv: bool,
    pub iv_len: usize,
    /// Whether the fresh point is authenticated as well.
    pub aad_eph: bool,
    /// What the key derivation is bound to.
    pub si_mode: u8,
    /// In what order the key derivation takes its parts.
    pub kdf_mode: u8,
}

impl Scheme {
    pub open spec fn sound(self) -> bool {
        &&& self.key_len == 32 || self.key_len == 16
        &&& self.iv_len == 12 || self.iv_len == 16
    }

    /// How many bytes are derived.
    pub open spec fn derived_len(self) -> int {
        if self.variable_iv {
            self.key_len + self.iv_len
        } else {
            self.key_len as int
        }
    }
}

/// The scheme under which the enclave opens what is sealed to it.
pub open spec fn enclave_scheme() -> Scheme {
    Scheme {
        key_len: 32,
        variable_iv: true,
        iv_len: 16,
        aad_eph: false,
        si_mode: 0,
        kdf_mode: 0,
    }
}

/// Whether `p` is an uncompressed point.
pub open spec fn is_point(p: Seq<u8>) -> bool {
    p.len() == 65 && p[0] == 0x04
}

/// What the key derivation is bound to.
pub open spec fn shared_info(si_mode: u8, eph: Seq<u8>, recipient: Seq<u8>) -> Seq<u8> {
    if si_mode == 0 {
        eph
    } else if si_mode == 1 {
        Seq::empty()
    } else if si_mode == 2 {
        eph.subrange(1, eph.len() as int)
    } else if si_mode == 3 {
        eph.subrange(1, 33)
    } else if si_mode == 4 {
        recipient
    } else {
        eph + recipient
    }
}

/// What is digested for block `counter` of the derived bytes.
pub open spec fn kdf_block(z: Seq<u8>, info: Seq<u8>, mode: u8, counter: int) -> Seq<u8> {
    let ctr = u32_be(counter);
    if mode == 0 {
        z + ctr + info
    } else if mode == 1 {
        ctr + z + info
    } else if mode == 2 {
        z + info + ctr
    } else if mode == 3 {
        info + z + ctr
    } else {
        z + info
    }
}

/// How many digests `out_len` bytes take.
pub open spec fn kdf_blocks(out_len: int) -> int {
    (out_len + 31) / 32
}

/// Whether the inputs are those of the blocks, counted from one.
pub open spec fn are_blocks(
    inputs: Seq<Vec<u8>>,
    z: Seq<u8>,
    info: Seq<u8>,
    mode: u8,
    n: int,
) -> bool {
    &&& inputs.len() == n
    &&& forall|i: int| 0 <= i < n ==> (#[trigger] inputs[i])@ == kdf_block(z, info, mode, i + 1)
}

/// The digests, one after the other.
pub open spec fn flat(digests: Seq<[u8; 32]>) -> Seq<u8>
    decreases digests.len(),
{
    if digests.len() == 0 {
        Seq::empty()
    } else {
        flat(digests.drop_last()) + digests.last()@
    }
}

proof fn flat_len(digests: Seq<[u8; 32]>)
    ensures
        flat(digests).len() == 32 * digests.len(),
    decreases digests.len(),
{
    if digests.len() > 0 {
        flat_len(digests.drop_last());
    }
}

fn block_input(z: &[u8], info: &[u8], mode: u8, counter: u32) -> (out: Vec<u8>)
    ensures
        out@ == kdf_block(z@, info@, mode, counter as int),
{
    let mut out: Vec<u8> = Vec::new();
    if mode == 0 {
        put_bytes(&mut out, z);
        put_be32(&mut out, counter);
        put_bytes(&mut out, info);
    } else if mode == 1 {
        put_be32(&mut out, counter);
        put_bytes(&mut out, z);
        put_bytes(&mut out, info);
    } else if mode == 2 {
        put_bytes(&mut out, z);
        put_bytes(&mut out, info);
        put_be32(&mut out, counter);
    } else if mode == 3 {
        put_bytes(&mut out, info);
        put_bytes(&mut out, z);
        put_be32(&mut out, counter);
    } else {
        put_bytes(&mut out, z);
        put_bytes(&mut out, info);
    }
    assert(out@ =~= kdf_block(z@, info@, mode, counter as int));
    out
}

/// What has to be digested, in order, to derive `out_len` bytes. The blocks are
/// counted in 32 bits, and a derivation that would use the last number is
/// refused.
pub fn kdf_inputs(z: &[u8], info: &[u8], out_len: usize, mode: u8) -> (r: Result<
    Vec<Vec<u8>>,
    Errno,
>)
    ensures
        match r {
            Ok(v) => kdf_blocks(out_len as int) < 0xffff_ffff && are_blocks(
                v@,
                z@,
                info@,
                mode,
                kdf_blocks(out_len as int),
            ),
            Err(e) => kdf_blocks(out_len as int) >= 0xffff_ffff && e == Errno::EINVAL,
        },
{
    let n: usize = out_len / 32 + (if out_len % 32 == 0 {
        0
    } else {
        1
    });
    assert(n == kdf_blocks(out_len as int));
    if n as u64 >= 0xffff_ffff {
        return Err(Errno::EINVAL);
    }
    let mut v: Vec<Vec<u8>> = Vec::new();
    let mut i: usize = 0;
    while i < n
        invariant
            i <= n < 0xffff_ffff,
            are_blocks(v@, z@, info@, mode, i as int),
        decreases n - i,
    {
        let b = block_input(z, info, mode, i as u32 + 1);
        v.push(b);
        i = i + 1;
    }
    Ok(v)
}

/// The first `out_len` bytes of the digests.
pub fn kdf_output(digests: &Vec<[u8; 32]>, out_len: usize) -> (out: Vec<u8>)
    requires
        digests.len() == kdf_blocks(out_len as int),
    ensures
        out@ == flat(digests@).subrange(0, out_len as int),
        out.len() == out_len,
{
    let mut all: Vec<u8> = Vec::new();
    let mut i: usize = 0;
    while i < digests.len()
        invariant
            i <= digests.len(),
            all@ == flat(digests@.subrange(0, i as int)),
        decreases digests.len() - i,
    {
        put_bytes(&mut all, digests[i].as_slice());
        proof {
            let next = digests@.subrange(0, i + 1);
            assert(next.drop_last() =~= digests@.subrange(0, i as int));
            assert(next.last() == digests@[i as int]);
        }
        i = i + 1;
    }
    proof {
        assert(digests@.subrange(0, i as int) =~= digests@);
        flat_len(digests@);
    }
    copy_range(&all, 0, out_len)
}

/// An encryption whose recipient and scheme are in order: the exchange is next.
pub struct Opening {
    pub recipient: Vec<u8>,
    pub plaintext: Vec<u8>,
    pub scheme: Scheme,
}

/// An encryption whose exchange is done: the digests are next.
pub struct Deriving {
    pub eph_point: Vec<u8>,
    pub inputs: Vec<Vec<u8>>,
    pub plaintext: Vec<u8>,
    pub scheme: Scheme,
}

/// An encryption whose key is derived: the cipher is next. It works in place on
/// `buf`, whose first `aad_len` bytes are only authenticated and whose last
/// bytes are room for the tag.
pub struct Ciphering {
    pub eph_point: Vec<u8>,
    pub key: Vec<u8>,
    pub iv: Vec<u8>,
    pub aad_len: usize,
    pub buf: Vec<u8>,
    pub plain_len: usize,
}

/// What an encryption makes.
pub struct EciesParts {
    pub eph_point: Vec<u8>,
    pub ciphertext: Vec<u8>,
    pub tag: Vec<u8>,
}

/// Starts an encryption to the point `recipient_pub`.
pub fn ecies_encrypt_parts(recipient_pub: &[u8], plaintext: &[u8], scheme: Scheme) -> (r: Result<
    Opening,
    Errno,
>)
    ensures
        match r {
            Ok(o) => is_point(recipient_pub@) && scheme.sound() && o.recipient@ == recipient_pub@
                && o.plaintext@ == plaintext@ && o.scheme == scheme,
            Err(e) => e == Errno::EINVAL && !(is_point(recipient_pub@) && scheme.sound()),
        },
{
    if recipient_pub.len() != POINT_LEN || recipient_pub[0] != 0x04 {
        return Err(Errno::EINVAL);
    }
    if scheme.key_len != AES256_KEY_LEN && scheme.key_len != AES128_KEY_LEN {
        return Err(Errno::EINVAL);
    }
    if scheme.iv_len != 12 && scheme.iv_len != 16 {
        return Err(Errno::EINVAL);
    }
    Ok(Opening { recipient: copy_of(recipient_pub), plaintext: copy_of(plaintext), scheme })
}

/// A point from its two coordinates.
pub open spec fn point(coords: Seq<u8>) -> Seq<u8> {
    seq![0x04u8] + coords
}

impl Opening {
    pub open spec fn wf(&self) -> bool {
        is_point(self.recipient@) && self.scheme.sound()
    }

    /// The coordinates that the exchange is made with.
    pub fn peer(&self) -> (p: Vec<u8>)
        requires
            self.wf(),
        ensures
            p@ == self.recipient@.subrange(1, 65),
    {
        copy_range(&self.recipient, 1, 65)
    }

    fn info(&self, eph: &Vec<u8>) -> (si: Vec<u8>)
        requires
            self.wf(),
            eph.len() == 65,
        ensures
            si@ == shared_info(self.scheme.si_mode, eph@, self.recipient@),
    {
        if self.scheme.si_mode == 0 {
            copy_of(eph)
        } else if self.scheme.si_mode == 1 {
            Vec::new()
        } else if self.scheme.si_mode == 2 {
            copy_range(eph, 1, eph.len())
        } else if self.scheme.si_mode == 3 {
            copy_range(eph, 1, 33)
        } else if self.scheme.si_mode == 4 {
            copy_of(&self.recipient)
        } else {
            let mut si = copy_of(eph);
            put_bytes(&mut si, &self.recipient);
            si
        }
    }

    /// Goes on with the fresh key's coordinates and the secret that the
    /// exchange gave, or ends with its error.
    pub fn agreed(self, exchange: Result<([u8; 64], [u8; 32]), Errno>) -> (r: Result<
        Deriving,
        Errno,
    >)
        requires
            self.wf(),
        ensures
            match (exchange, r) {
                (Ok((coords, shared)), Ok(d)) => d.wf() && d.eph_point@ == point(coords@)
                    && are_blocks(
                    d.inputs@,
                    shared@,
                    shared_info(self.scheme.si_mode, point(coords@), self.recipient@),
                    self.scheme.kdf_mode,
                    kdf_blocks(self.scheme.derived_len()),
                ) && d.plaintext@ == self.plaintext@ && d.scheme == self.scheme,
                (Err(e), Err(f)) => e == f,
                _ => false,
            },
    {
        match exchange {
            Err(e) => Err(e),
            Ok((coords, shared)) => {
                let mut eph_point: Vec<u8> = Vec::new();
                eph_point.push(0x04);
                put_bytes(&mut eph_point, coords.as_slice());
                assert(eph_point@ =~= point(coords@));
                let si = self.info(&eph_point);
                let n: usize = if self.scheme.variable_iv {
                    self.scheme.key_len + self.scheme.iv_len
                } else {
                    self.scheme.key_len
                };
                match kdf_inputs(shared.as_slice(), &si, n, self.scheme.kdf_mode) {
                    Err(e) => Err(e),
                    Ok(inputs) => Ok(
                        Deriving { eph_point, inputs, plaintext: self.plaintext, scheme: self.scheme },
                    ),
                }
            },
        }
    }
}

/// The initial vector that goes with the derived bytes `km`.
pub open spec fn iv_of(s: Scheme, km: Seq<u8>) -> Seq<u8> {
    if s.variable_iv {
        km.subrange(s.key_len as int, s.key_len + s.iv_len)
    } else {
        zeroed(s.iv_len as int)
    }
}

/// What is authenticated and not encrypted.
pub open spec fn aad_of(s: Scheme, eph: Seq<u8>) -> Seq<u8> {
    if s.aad_eph {
        eph
    } else {
        Seq::empty()
    }
}

/// Overwrites what was digested, before it is let go.
fn wipe_all(inputs: Vec<Vec<u8>>) {
    let mut inputs = inputs;
    let mut i: usize = 0;
    while i < inputs.len()
        decreases inputs.len() - i,
    {
        wipe(&mut inputs[i]);
        i = i + 1;
    }
}

impl Deriving {
    pub open spec fn wf(&self) -> bool {
        &&& self.scheme.sound()
        &&& self.inputs.len() == kdf_blocks(self.scheme.derived_len())
        &&& is_point(self.eph_point@)
    }

    /// Goes on with the digests of the inputs, in order.
    pub fn derived(self, digests: &Vec<[u8; 32]>) -> (c: Ciphering)
        requires
            self.wf(),
            digests.len() == self.inputs.len(),
        ensures
            c.wf(),
            c.eph_point@ == self.eph_point@,
            c.key@ == flat(digests@).subrange(0, self.scheme.key_len as int),
            c.iv@ == iv_of(
                self.scheme,
                flat(digests@).subrange(0, self.scheme.derived_len()),
            ),
            c.aad_len == aad_of(self.scheme, self.eph_point@).len(),
            c.buf@ == aad_of(self.scheme, self.eph_point@) + self.plaintext@ + zeroed(16),
            c.plain_len == self.plaintext.len(),
    {
        let n: usize = if self.scheme.variable_iv {
            self.scheme.key_len + self.scheme.iv_len
        } else {
            self.scheme.key_len
        };
        let mut km = kdf_output(digests, n);
        proof {
            flat_len(digests@);
        }
        let key = copy_range(&km, 0, self.scheme.key_len);
        assert(key@ =~= flat(digests@).subrange(0, self.scheme.key_len as int));
        let iv = if self.scheme.variable_iv {
            copy_range(&km, self.scheme.key_len, n)
        } else {
            zeros(self.scheme.iv_len)
        };
        wipe(&mut km);
        wipe_all(self.inputs);
        let mut buf: Vec<u8> = Vec::new();
        if self.scheme.aad_eph {
            put_bytes(&mut buf, &self.eph_point);
        }
        let aad_len: usize = buf.len();
        assert(buf@ =~= aad_of(self.scheme, self.eph_point@));
        put_bytes(&mut buf, &self.plaintext);
        put_zeros(&mut buf, TAG_LEN);
        Ciphering {
            eph_point: self.eph_point,
            key,
            iv,
            aad_len,
            buf,
            plain_len: self.plaintext.len(),
        }
    }
}

impl Ciphering {
    pub open spec fn wf(&self) -> bool {
        &&& self.aad_len + self.plain_len + 16 == self.buf.len()
        &&& is_point(self.eph_point@)
    }

    /// Takes apart what the cipher left in the buffer, or ends with its error. A
    /// buffer of another length is refused.
    pub fn encrypted(self, result: Result<Vec<u8>, Errno>) -> (r: Result<EciesParts, Errno>)
        requires
            self.wf(),
        ensures
            match result {
                Err(e) => r == Err::<EciesParts, Errno>(e),
                Ok(b) => if b.len() != self.buf.len() {
                    r == Err::<EciesParts, Errno>(Errno::EINVAL)
                } else {
                    &&& r is Ok
                    &&& r->Ok_0.eph_point@ == self.eph_point@
                    &&& r->Ok_0.ciphertext@ == b@.subrange(
                        self.aad_len as int,
                        self.aad_len + self.plain_len,
                    )
                    &&& r->Ok_0.tag@ == b@.subrange(self.aad_len + self.plain_len, b.len() as int)
                },
            },
    {
        let mut key = self.key;
        wipe(&mut key);
        match result {
            Err(e) => Err(e),
            Ok(b) => {
                if b.len() != self.buf.len() {
                    return Err(Errno::EINVAL);
                }
                let mid: usize = self.aad_len + self.plain_len;
                Ok(
                    EciesParts {
                        eph_point: self.eph_point,
                        ciphertext: copy_range(&b, self.aad_len, mid),
                        tag: copy_range(&b, mid, b.len()),
                    },
                )
            },
        }
    }
}

/// The scheme that the enclave opens.
pub fn sealing_scheme() -> (s: Scheme)
    ensures
        s == enclave_scheme(),
{
    Scheme {
        key_len: AES256_KEY_LEN,
        variable_iv: true,
        iv_len: IV_LEN,
        aad_eph: false,
        si_mode: 0,
        kdf_mode: 0,
    }
}

/// What the enclave is handed: the fresh point, the ciphertext and the tag.
pub open spec fn sealed_blob(eph: Seq<u8>, ciphertext: Seq<u8>, tag: Seq<u8>) -> Seq<u8> {
    eph + ciphertext + tag
}

/// Puts the parts of an encryption together for the enclave.
pub fn ecies_seal(parts: &EciesParts) -> (blob: Vec<u8>)
    ensures
        blob@ == sealed_blob(parts.eph_point@, parts.ciphertext@, parts.tag@),
{
    let mut blob = copy_of(&parts.eph_point);
    put_bytes(&mut blob, &parts.ciphertext);
    put_bytes(&mut blob, &parts.tag);
    blob
}

/// From a sealed blob its three parts can be told apart by their lengths alone.
pub proof fn blob_comes_apart(eph: Seq<u8>, ciphertext: Seq<u8>, tag: Seq<u8>)
    requires
        eph.len() == 65,
        tag.len() == 16,
    ensures
        ({
            let b = sealed_blob(eph, ciphertext, tag);
            &&& b.subrange(0, 65) == eph
            &&& b.subrange(65, b.len() - 16) == ciphertext
            &&& b.subrange(b.len() - 16, b.len() as int) == tag
        }),
{
    let b = sealed_blob(eph, ciphertext, tag);
    assert(b.subrange(0, 65) =~= eph);
    assert(b.subrange(65, b.len() - 16) =~= ciphertext);
    assert(b.subrange(b.len() - 16, b.len() as int) =~= tag);
}

/// Every block that is digested for the enclave's scheme starts with the shared
/// secret, and no two blocks of a derivation are alike.
pub proof fn blocks_differ(z: Seq<u8>, info: Seq<u8>, i: int, j: int)
    requires
        0 < i < j < 0x1_0000_0000,
    ensures
        kdf_block(z, info, 0, i).subrange(0, z.len() as int) == z,
        kdf_block(z, info, 0, i) != kdf_block(z, info, 0, j),
{
    broadcast use group_le;

    let a = kdf_block(z, info, 0, i);
    let b = kdf_block(z, info, 0, j);
    assert(a.subrange(0, z.len() as int) =~= z);
    let li = u32_le(i);
    let lj = u32_le(j);
    u32_round_trip(i);
    u32_round_trip(j);
    if a == b {
        let n = z.len() as int;
        assert(a[n] == li[3] && b[n] == lj[3]);
        assert(a[n + 1] == li[2] && b[n + 1] == lj[2]);
        assert(a[n + 2] == li[1] && b[n + 2] == lj[1]);
        assert(a[n + 3] == li[0] && b[n + 3] == lj[0]);
        assert(u32_at(li, 0) == u32_at(lj, 0));
    }
}

/// What the enclave opens was sealed under 48 derived bytes, which take two digests: of
/// the shared secret, the number 1 or 2 in four bytes with the highest first, and the
/// fresh point. The first 32 are the key, the 16 behind them the initial vector, and
/// nothing but the ciphertext is authenticated.
pub proof fn enclave_derivation(z: Seq<u8>, coords: Seq<u8>, recipient: Seq<u8>, km: Seq<u8>)
    requires
        coords.len() == 64,
        km.len() == 48,
    ensures
        ({
            let s = enclave_scheme();
            let info = shared_info(s.si_mode, point(coords), recipient);
            &&& s.sound()
            &&& s.derived_len() == 48
            &&& kdf_blocks(s.derived_len()) == 2
            &&& s.key_len == 32
            &&& kdf_block(z, info, s.kdf_mode, 1) == z + seq![0u8, 0, 0, 1, 4] + coords
            &&& kdf_block(z, info, s.kdf_mode, 2) == z + seq![0u8, 0, 0, 2, 4] + coords
            &&& iv_of(s, km) == km.subrange(32, 48)
            &&& aad_of(s, point(coords)) == Seq::<u8>::empty()
        }),
{
    let s = enclave_scheme();
    let info = shared_info(s.si_mode, point(coords), recipient);
    crate::bytes::small_u32_le(1);
    crate::bytes::small_u32_le(2);
    assert(u32_be(1) =~= seq![0u8, 0, 0, 1]);
    assert(u32_be(2) =~= seq![0u8, 0, 0, 2]);
    assert(kdf_block(z, info, 0, 1) =~= z + seq![0u8, 0, 0, 1, 4] + coords);
    assert(kdf_block(z, info, 0, 2) =~= z + seq![0u8, 0, 0, 2, 4] + coords);
}

/// The other choices of what the derivation is bound to, and of its order: the whole
/// fresh point, nothing, both coordinates, the first one, the recipient, or both points;
/// and the counter between, before or behind the secret and the rest.
pub proof fn other_derivations(z: Seq<u8>, coords: Seq<u8>, recipient: Seq<u8>, info: Seq<u8>)
    requires
        coords.len() == 64,
    ensures
        shared_info(0, point(coords), recipient) == seq![4u8] + coords,
        shared_info(1, point(coords), recipient).len() == 0,
        shared_info(2, point(coords), recipient) == coords,
        shared_info(3, point(coords), recipient) == coords.subrange(0, 32),
        shared_info(4, point(coords), recipient) == recipient,
        shared_info(5, point(coords), recipient) == seq![4u8] + coords + recipient,
        kdf_block(z, info, 1, 1) == seq![0u8, 0, 0, 1] + z + info,
        kdf_block(z, info, 2, 1) == z + info + seq![0u8, 0, 0, 1],
        kdf_block(z, info, 3, 1) == info + z + seq![0u8, 0, 0, 1],
        kdf_block(z, info, 4, 1) == z + info,
{
    crate::bytes::small_u32_le(1);
    assert(u32_be(1) =~= seq![0u8, 0, 0, 1]);
    assert(shared_info(2, point(coords), recipient) =~= coords);
    assert(shared_info(3, point(coords), recipient) =~= coords.subrange(0, 32));
}

/// As many digests are made as the bytes need, and no more; they stand in order.
pub proof fn digests_fill_the_bytes(out_len: int, digests: Seq<[u8; 32]>, i: int)
    requires
        0 <= out_len,
        0 <= i < digests.len(),
    ensures
        out_len <= 32 * kdf_blocks(out_len) < out_len + 32,
        flat(digests).len() == 32 * digests.len(),
        flat(digests).subrange(32 * i, 32 * i + 32) == digests[i]@,
    decreases digests.len(),
{
    flat_len(digests);
    flat_len(digests.drop_last());
    if i < digests.len() - 1 {
        digests_fill_the_bytes(out_len, digests.drop_last(), i);
        assert(flat(digests).subrange(32 * i, 32 * i + 32) =~= flat(digests.drop_last()).subrange(
            32 * i,
            32 * i + 32,
        ));
    } else {
        assert(flat(digests).subrange(32 * i, 32 * i + 32) =~= digests[i]@);
    }
}

/// A point is uncompressed: 65 bytes, the first of which is 4.
pub proof fn points_are_uncompressed(p: Seq<u8>, coords: Seq<u8>)
    requires
        coords.len() == 64,
    ensures
        is_point(p) <==> p.len() == 65 && p[0] == 4,
        is_point(point(coords)),
        point(coords).subrange(1, 65) == coords,
{
    assert(point(coords).subrange(1, 65) =~= coords);
}

} // verus!
