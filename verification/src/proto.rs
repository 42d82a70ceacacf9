//! The enclave's message fields, the shared-memory registration and the
//! operations of the control endpoint.

use crate::bytes::{i32_at, read_i32, read_u32, u32_at};
use crate::errno::Errno;
use crate::mailbox::Message;
use vstd::prelude::*;

verus! {

pub const EP_CONTROL: u8 = 0x00;

pub const EP_DISCOVER: u8 = 0xFD;

pub const EP_SHMEM: u8 = 0xFE;

pub const EP_BOOT: u8 = 0xFF;

pub const EP_XARM: u8 = 0x13;

pub const EP_SBIO: u8 = 0x08;

pub const EP_SCRD: u8 = 0x0a;

pub const EP_SKS: u8 = 0x12;

pub const DISCOVER_TYPE_DESCRIPTOR: u8 = 0x00;

pub const DISCOVER_TYPE_CONFIG: u8 = 0x01;

/// The unit of bus addresses and sizes in messages, whatever the page size is.
pub const IOVA_UNIT: u64 = 0x1000;

/// The parts of the first message word.
#[derive(Clone, Copy, Debug, PartialEq, Eq, Structural)]
pub struct Fields {
    pub ep: u8,
    pub tag: u8,
    pub ty: u8,
    pub param: u8,
    pub data_lo: u32,
}

/// The first message word made of these parts: endpoint, tag, type and
/// parameter in the low four bytes, data in the upper half.
pub open spec fn packed(f: Fields) -> int {
    f.ep + 0x100 * f.tag + 0x1_0000 * f.ty + 0x100_0000 * f.param + 0x1_0000_0000 * f.data_lo
}

/// Takes the first message word apart.
pub fn decode(msg: &Message) -> (f: Fields)
    ensures
        packed(f) == msg.msg0,
{
    let m: u64 = msg.msg0;
    proof {
        let n = m as int;
        vstd::arithmetic::div_mod::lemma_div_denominator(n, 0x100, 0x100);
        vstd::arithmetic::div_mod::lemma_div_denominator(n, 0x1_0000, 0x100);
        vstd::arithmetic::div_mod::lemma_div_denominator(n, 0x100_0000, 0x100);
        let k1 = n / 0x100;
        let k2 = k1 / 0x100;
        let k3 = k2 / 0x100;
        assert(k2 == n / 0x1_0000 && k3 == n / 0x100_0000 && k3 / 0x100 == n / 0x1_0000_0000);
    }
    Fields {
        ep: (m % 0x100) as u8,
        tag: (m / 0x100 % 0x100) as u8,
        ty: (m / 0x1_0000 % 0x100) as u8,
        param: (m / 0x100_0000 % 0x100) as u8,
        data_lo: (m / 0x1_0000_0000) as u32,
    }
}

/// Puts the first message word together.
pub fn encode(f: &Fields) -> (m: u64)
    ensures
        m == packed(*f),
{
    f.ep as u64 + 0x100 * (f.tag as u64) + 0x1_0000 * (f.ty as u64) + 0x100_0000 * (f.param as u64)
        + 0x1_0000_0000 * (f.data_lo as u64)
}

/// A message word has one reading: parts that pack to the same word are the
/// same parts.
pub proof fn packed_injective(a: Fields, b: Fields)
    requires
        packed(a) == packed(b),
    ensures
        a == b,
{
    low_byte(a.ep as int, above(a, 1));
    low_byte(b.ep as int, above(b, 1));
    low_byte(a.tag as int, above(a, 2));
    low_byte(b.tag as int, above(b, 2));
    low_byte(a.ty as int, above(a, 3));
    low_byte(b.ty as int, above(b, 3));
    low_byte(a.param as int, a.data_lo as int);
    low_byte(b.param as int, b.data_lo as int);
}

/// What stands above the lowest `n` bytes of the word.
spec fn above(f: Fields, n: int) -> int {
    let from_param = f.param + 0x100 * f.data_lo;
    let from_ty = f.ty + 0x100 * from_param;
    if n == 3 {
        from_param
    } else if n == 2 {
        from_ty
    } else {
        f.tag + 0x100 * from_ty
    }
}

proof fn low_byte(lo: int, hi: int)
    requires
        0 <= lo < 0x100,
    ensures
        (lo + 0x100 * hi) % 0x100 == lo,
        (lo + 0x100 * hi) / 0x100 == hi,
{
}

/// The word that announces a shared-memory buffer. Both numbers are counted in
/// units of [`IOVA_UNIT`].
pub fn encode_registration_msg0(iova: u64, size: u64) -> (m: u64)
    ensures
        m == (EP_SHMEM as u64 | ((size >> 12) << 16) | ((iova >> 12) << 32)),
        size < 0x1000_0000 && iova < 0x1000_0000_0000 ==> m == EP_SHMEM + 0x1_0000 * (size as int
            / 0x1000) + 0x1_0000_0000 * (iova as int / 0x1000),
{
    let m: u64 = EP_SHMEM as u64 | ((size >> 12) << 16) | ((iova >> 12) << 32);
    assert(size < 0x1000_0000 && iova < 0x1000_0000_0000 ==> (0xFEu64 | ((size >> 12) << 16) | ((
    iova >> 12) << 32)) == 0xFEu64 + 0x1_0000u64 * (size / 0x1000u64) + 0x1_0000_0000u64 * (iova
        / 0x1000u64)) by (bit_vector);
    m
}

/// Whether a buffer can be announced: a whole, non-zero number of units that
/// fits a byte, at a unit-aligned address whose unit number fits 32 bits.
pub open spec fn registrable(iova: u64, size: u64) -> bool {
    &&& size != 0
    &&& size % 0x1000 == 0
    &&& iova % 0x1000 == 0
    &&& size / 0x1000 <= 0xFF
    &&& iova / 0x1000 <= 0xFFFF_FFFF
}

/// The message that announces a shared-memory buffer to the enclave.
pub fn shmem_registration(iova: u64, size: u64) -> (r: Result<Message, Errno>)
    ensures
        match r {
            Ok(msg) => registrable(iova, size) && msg.msg1 == 0 && msg.msg0 == EP_SHMEM + 0x1_0000
                * (size as int / 0x1000) + 0x1_0000_0000 * (iova as int / 0x1000),
            Err(e) => !registrable(iova, size) && e == Errno::EINVAL,
        },
{
    if size == 0 || size % IOVA_UNIT != 0 {
        return Err(Errno::EINVAL);
    }
    if iova % IOVA_UNIT != 0 {
        return Err(Errno::EINVAL);
    }
    if size / IOVA_UNIT > 0xFF {
        return Err(Errno::EINVAL);
    }
    if iova / IOVA_UNIT > 0xFFFF_FFFF {
        return Err(Errno::EINVAL);
    }
    Ok(Message { msg0: encode_registration_msg0(iova, size), msg1: 0 })
}

pub const CONTROL_REPLY_TYPE: u8 = 0x01;

/// The tag under which entropy is asked for and answered.
pub const TAG_ENTROPY: u8 = 0xE7;

pub const CONTROL_TIMEOUT_MS: u32 = 2000;

pub const TAG_POOL_FIRST: u8 = 0x01;

pub const TAG_POOL_LAST: u8 = 0x7e;

/// One request to the control endpoint.
#[derive(Clone, Copy, Debug, PartialEq, Eq, Structural)]
pub struct ControlOp {
    pub ty: u8,
    pub param: u8,
    pub data: u32,
    pub expect_reply: bool,
    pub timeout_ms: u32,
    pub reserved_tag: bool,
}

impl ControlOp {
    pub fn expects_reply(&self) -> (r: bool)
        ensures
            r == self.expect_reply,
    {
        self.expect_reply
    }

    pub fn timeout_ms(&self) -> (r: u32)
        ensures
            r == self.timeout_ms,
    {
        self.timeout_ms
    }

    pub fn uses_reserved_tag(&self) -> (r: bool)
        ensures
            r == self.reserved_tag,
    {
        self.reserved_tag
    }

    /// What the request is called, by its type.
    pub fn name(&self) -> (s: &'static str)
        ensures
            s == op_name(self.ty),
    {
        match self.ty {
            0x00 => "NOP",
            0x02 => "OOL_IN_ADDR",
            0x03 => "OOL_OUT_ADDR",
            0x04 => "OOL_IN_SIZE",
            0x05 => "OOL_OUT_SIZE",
            0x14 => "SECMODE",
            0x36 => "GET_ENTROPY",
            _ => "UNKNOWN",
        }
    }
}

/// The names of the requests that are made.
pub open spec fn op_name(ty: u8) -> &'static str {
    match ty {
        0x00 => "NOP",
        0x02 => "OOL_IN_ADDR",
        0x03 => "OOL_OUT_ADDR",
        0x04 => "OOL_IN_SIZE",
        0x05 => "OOL_OUT_SIZE",
        0x14 => "SECMODE",
        0x36 => "GET_ENTROPY",
        _ => "UNKNOWN",
    }
}

/// A request that is answered, and that takes its tag from the pool.
pub open spec fn pooled_op(ty: u8, param: u8, data: u32) -> ControlOp {
    ControlOp {
        ty,
        param,
        data,
        expect_reply: true,
        timeout_ms: CONTROL_TIMEOUT_MS,
        reserved_tag: false,
    }
}

pub fn op_nop(param: u8) -> (op: ControlOp)
    ensures
        op == pooled_op(0x00, param, 0),
        op == nop_op(param),
{
    op_ool(0x00, param, 0)
}

pub fn op_security_mode() -> (op: ControlOp)
    ensures
        op == pooled_op(0x14, 0x00, 0),
        op == security_mode_op(),
{
    op_ool(0x14, 0x00, 0)
}

/// Asks for one word of entropy. The answer comes under [`TAG_ENTROPY`].
pub fn op_get_entropy() -> (op: ControlOp)
    ensures
        op == (ControlOp { reserved_tag: true, ..pooled_op(0x36, 0x00, 0) }),
        op == entropy_op(),
{
    ControlOp {
        ty: 0x36,
        param: 0x00,
        data: 0,
        expect_reply: true,
        timeout_ms: CONTROL_TIMEOUT_MS,
        reserved_tag: true,
    }
}

/// The message that carries a control request under `tag`.
pub fn encode_control(op: &ControlOp, tag: u8) -> (msg: Message)
    ensures
        msg.msg1 == 0,
        msg.msg0 == packed(
            (Fields { ep: EP_CONTROL, tag, ty: op.ty, param: op.param, data_lo: op.data }),
        ),
{
    Message {
        msg0: encode(
            &Fields { ep: EP_CONTROL, tag, ty: op.ty, param: op.param, data_lo: op.data },
        ),
        msg1: 0,
    }
}

fn op_ool(ty: u8, endpoint: u8, data: u32) -> (op: ControlOp)
    ensures
        op == pooled_op(ty, endpoint, data),
{
    ControlOp {
        ty,
        param: endpoint,
        data,
        expect_reply: true,
        timeout_ms: CONTROL_TIMEOUT_MS,
        reserved_tag: false,
    }
}

/// The request that does nothing.
pub open spec fn nop_op(param: u8) -> ControlOp {
    pooled_op(0x00, param, 0)
}

/// The request for the security mode.
pub open spec fn security_mode_op() -> ControlOp {
    pooled_op(0x14, 0x00, 0)
}

/// The request for a word of entropy, which has a tag of its own.
pub open spec fn entropy_op() -> ControlOp {
    ControlOp { reserved_tag: true, ..pooled_op(0x36, 0x00, 0) }
}

/// The request that tells of an endpoint's buffer: whether of the inbound one, and whether
/// its size or its address.
pub open spec fn buffer_op(inbound: bool, size: bool, endpoint: u8, data: u32) -> ControlOp {
    pooled_op(
        if inbound {
            if size {
                0x04
            } else {
                0x02
            }
        } else {
            if size {
                0x05
            } else {
                0x03
            }
        },
        endpoint,
        data,
    )
}

/// The low 32 bits of the unit number of a bus address.
pub open spec fn iova_field(iova: u64) -> u32 {
    (iova / 0x1000 % 0x1_0000_0000) as u32
}

pub fn op_ool_inbound_size(endpoint: u8, len: u32) -> (op: ControlOp)
    ensures
        op == pooled_op(0x04, endpoint, len),
        op == buffer_op(true, true, endpoint, len),
{
    op_ool(0x04, endpoint, len)
}

pub fn op_ool_inbound_addr(endpoint: u8, iova: u64) -> (op: ControlOp)
    ensures
        op == pooled_op(0x02, endpoint, iova_field(iova)),
        op == buffer_op(true, false, endpoint, iova_field(iova)),
{
    op_ool(0x02, endpoint, (iova / IOVA_UNIT % 0x1_0000_0000) as u32)
}

pub fn op_ool_outbound_size(endpoint: u8, len: u32) -> (op: ControlOp)
    ensures
        op == pooled_op(0x05, endpoint, len),
        op == buffer_op(false, true, endpoint, len),
{
    op_ool(0x05, endpoint, len)
}

pub fn op_ool_outbound_addr(endpoint: u8, iova: u64) -> (op: ControlOp)
    ensures
        op == pooled_op(0x03, endpoint, iova_field(iova)),
        op == buffer_op(false, false, endpoint, iova_field(iova)),
{
    op_ool(0x03, endpoint, (iova / IOVA_UNIT % 0x1_0000_0000) as u32)
}

/// The zero bytes that follow `n` bytes up to the next four-byte boundary.
pub open spec fn pad4(n: int) -> int {
    (4 - n % 4) % 4
}

/// A blob that starts at `at`: its bytes and where the next field starts. A
/// blob is a 32-bit length, that many bytes, and zero padding to a four-byte
/// boundary.
pub open spec fn blob_at(body: Seq<u8>, at: int) -> Option<(Seq<u8>, int)> {
    if at + 4 > body.len() {
        None
    } else {
        let n = u32_at(body, at);
        let end = at + 4 + n;
        let next = end + pad4(n);
        if next > body.len() {
            None
        } else if exists|i: int| end <= i < next && body[i] != 0 {
            None
        } else {
            Some((body.subrange(at + 4, end), next))
        }
    }
}

/// Reads the fields of a reply body one after the other.
pub struct FieldCursor<'a> {
    body: &'a [u8],
    at: usize,
}

impl<'a> FieldCursor<'a> {
    pub closed spec fn body(&self) -> Seq<u8> {
        self.body@
    }

    pub closed spec fn at(&self) -> int {
        self.at as int
    }

    pub fn new(body: &'a [u8]) -> (c: FieldCursor<'a>)
        ensures
            c.body() == body@,
            c.at() == 0,
    {
        FieldCursor { body, at: 0 }
    }

    /// The next four bytes as a signed number.
    pub fn i32(&mut self) -> (r: Option<i32>)
        ensures
            final(self).body() == old(self).body(),
            match r {
                Some(v) => old(self).at() + 4 <= old(self).body().len() && v == i32_at(
                    old(self).body(),
                    old(self).at(),
                ) && final(self).at() == old(self).at() + 4,
                None => old(self).at() + 4 > old(self).body().len() && final(self).at() == old(
                    self,
                ).at(),
            },
    {
        if self.body.len() < 4 || self.at > self.body.len() - 4 {
            return None;
        }
        let v = read_i32(self.body, self.at);
        self.at = self.at + 4;
        Some(v)
    }

    /// The bytes of the next blob.
    #[verifier::loop_isolation(false)]
    pub fn blob(&mut self) -> (r: Option<&'a [u8]>)
        ensures
            final(self).body() == old(self).body(),
            match r {
                Some(b) => blob_at(old(self).body(), old(self).at()) == Some(
                    (b@, final(self).at()),
                ),
                None => blob_at(old(self).body(), old(self).at()) is None && final(self).at()
                    == old(self).at(),
            },
    {
        let whole = self.body;
        let len: usize = whole.len();
        if len < 4 || self.at > len - 4 {
            return None;
        }
        let n: usize = read_u32(whole, self.at) as usize;
        let start: usize = self.at + 4;
        if n > len - start {
            return None;
        }
        let end: usize = start + n;
        let pad: usize = (4 - n % 4) % 4;
        if pad > len - end {
            return None;
        }
        let next: usize = end + pad;
        let mut i: usize = end;
        while i < next
            invariant
                end <= i <= next <= whole.len(),
                forall|j: int| end <= j < i ==> whole@[j] == 0,
            decreases next - i,
        {
            if whole[i] != 0 {
                proof {
                    assert(whole@[i as int] != 0);
                    assert(blob_at(old(self).body(), old(self).at()) is None);
                }
                return None;
            }
            i = i + 1;
        }
        self.at = next;
        Some(vstd::slice::slice_subrange(whole, start, end))
    }
}

/// The answer to a control request.
#[derive(Clone, Copy, Debug, PartialEq, Eq, Structural)]
pub struct ControlReply {
    pub tag: u8,
    pub data_lo: u32,
}

impl ControlReply {
    pub fn from_message(msg: &Message) -> (r: ControlReply)
        ensures
            forall|f: Fields| packed(f) == msg.msg0 ==> r.tag == f.tag && r.data_lo == f.data_lo,
    {
        let f = decode(msg);
        proof {
            assert forall|g: Fields| packed(g) == msg.msg0 implies f == g by {
                packed_injective(f, g);
            }
        }
        ControlReply { tag: f.tag, data_lo: f.data_lo }
    }
}

/// The endpoint is the lowest byte of the word, and the tag, the type and the
/// parameter are the bytes above it; the data is the upper half.
pub proof fn word_is_laid_out(f: Fields)
    ensures
        packed(f) % 0x100 == f.ep,
        packed(f) / 0x100 % 0x100 == f.tag,
        packed(f) / 0x1_0000 % 0x100 == f.ty,
        packed(f) / 0x100_0000 % 0x100 == f.param,
        packed(f) / 0x1_0000_0000 == f.data_lo,
{
    let k3 = f.param + 0x100 * f.data_lo;
    let k2 = f.ty + 0x100 * k3;
    let k1 = f.tag + 0x100 * k2;
    let m = packed(f);
    assert(m == f.ep + 0x100 * k1);
    low_byte(f.ep as int, k1);
    low_byte(f.tag as int, k2);
    low_byte(f.ty as int, k3);
    low_byte(f.param as int, f.data_lo as int);
    vstd::arithmetic::div_mod::lemma_div_denominator(m, 0x100, 0x100);
    vstd::arithmetic::div_mod::lemma_div_denominator(m, 0x1_0000, 0x100);
    vstd::arithmetic::div_mod::lemma_div_denominator(m, 0x100_0000, 0x100);
}

/// Padding reaches the next four-byte boundary and no further.
pub proof fn padding_reaches_the_boundary(n: int)
    requires
        0 <= n,
    ensures
        0 <= pad4(n) < 4,
        (n + pad4(n)) % 4 == 0,
{
}

/// A buffer can be announced if it is at most 255 units long and lies below the end
/// of what 32 bits of units reach.
pub proof fn registrable_buffers(units: u64, at: u64)
    requires
        units < 0x1_0000_0000,
        at < 0x10_0000_0000,
    ensures
        registrable((at * 0x1000) as u64, (units * 0x1000) as u64) <==> 1 <= units <= 255 && at
            <= 0xffff_ffff,
{
}

/// The numbers of the requests. Each is answered within two seconds, and all but the one
/// for entropy take their tag from the pool.
pub proof fn requests_have_their_numbers(param: u8, endpoint: u8, data: u32)
    ensures
        nop_op(param).ty == 0 && nop_op(param).param == param && nop_op(param).data == 0,
        security_mode_op().ty == 0x14 && security_mode_op().param == 0,
        entropy_op().ty == 0x36 && entropy_op().reserved_tag,
        buffer_op(true, false, endpoint, data).ty == 2,
        buffer_op(false, false, endpoint, data).ty == 3,
        buffer_op(true, true, endpoint, data).ty == 4,
        buffer_op(false, true, endpoint, data).ty == 5,
        forall|inbound: bool, size: bool|
            (#[trigger] buffer_op(inbound, size, endpoint, data)).param == endpoint && buffer_op(
                inbound,
                size,
                endpoint,
                data,
            ).data == data && !buffer_op(inbound, size, endpoint, data).reserved_tag && buffer_op(
                inbound,
                size,
                endpoint,
                data,
            ).expect_reply && buffer_op(inbound, size, endpoint, data).timeout_ms == 2000,
        !nop_op(param).reserved_tag && nop_op(param).expect_reply && nop_op(param).timeout_ms
            == 2000,
        entropy_op().expect_reply && entropy_op().timeout_ms == 2000,
{
}

/// An address is told by its unit of 0x1000 bytes.
pub proof fn addresses_are_told_in_units(unit: u32)
    ensures
        iova_field((0x1000 * unit) as u64) == unit,
{
}

/// What the requests are called.
pub proof fn requests_have_names(ty: u8)
    ensures
        op_name(0x00) == "NOP",
        op_name(0x02) == "OOL_IN_ADDR",
        op_name(0x03) == "OOL_OUT_ADDR",
        op_name(0x04) == "OOL_IN_SIZE",
        op_name(0x05) == "OOL_OUT_SIZE",
        op_name(0x14) == "SECMODE",
        op_name(0x36) == "GET_ENTROPY",
        ty != 0 && ty != 2 && ty != 3 && ty != 4 && ty != 5 && ty != 0x14 && ty != 0x36 ==> op_name(
            ty,
        ) == "UNKNOWN",
{
}

} // verus!
