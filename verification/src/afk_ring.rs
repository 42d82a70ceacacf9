//! Rings of messages in a buffer that is shared with the sensor processor.

use vstd::prelude::*;

use crate::bytes::{
    copy_range, group_le, put_u32, read_u32, set_u32, splice, spliced, u32_at, u32_le,
    u32_round_trip,
};
use crate::errno::Errno;

verus! {

pub const AFK_RB_BLOCK_STEP: u64 = 0x40;

pub const QEH_SIZE: u64 = 16;

/// What an entry starts with: one of two words.
pub const QE_MAGIC1: u32 = 0x2050_4f49;

pub const QE_MAGIC2: u32 = 0x2050_4f41;

/// A ring: three header blocks, which hold its size, the read pointer and the
/// write pointer, and the room for its entries behind them.
#[derive(Clone, Copy, Debug, PartialEq, Eq, Structural)]
pub struct AFKRingBuffer {
    pub offset: u64,
    pub block_size: u64,
    pub buf_size: u64,
}

impl AFKRingBuffer {
    /// Whether the ring lies within `len` bytes.
    pub open spec fn wf(self, len: int) -> bool {
        &&& 0 < self.block_size <= 0xffff_ffff
        &&& 0 < self.buf_size <= 0xffff_ffff
        &&& self.offset <= 0xffff_ffff
        &&& self.offset % 64 == 0
        &&& self.offset + self.block_size * 3 + self.buf_size <= len
        &&& is_power_of_two(self.block_size as int)
    }

    pub open spec fn rptr_at(self) -> int {
        self.offset + self.block_size
    }

    pub open spec fn wptr_at(self) -> int {
        self.offset + self.block_size * 2
    }

    /// Where the entries start.
    pub open spec fn base(self) -> int {
        self.offset + self.block_size * 3
    }
}

pub open spec fn is_power_of_two(n: int) -> bool
    decreases n,
{
    if n <= 1 {
        n == 1
    } else {
        n % 2 == 0 && is_power_of_two(n / 2)
    }
}

fn power_of_two(n: u64) -> (r: bool)
    ensures
        r == is_power_of_two(n as int),
{
    let mut k: u64 = n;
    while k > 1 && k % 2 == 0
        invariant
            is_power_of_two(n as int) == is_power_of_two(k as int),
        decreases k,
    {
        k = k / 2;
    }
    k == 1
}

/// `v` rounded up to a multiple of `a`.
pub open spec fn rounded_up(v: int, a: int) -> int {
    (v + a - 1) / a * a
}

proof fn rounded_up_bounds(v: int, a: int)
    requires
        0 <= v,
        0 < a,
    ensures
        v <= rounded_up(v, a) < v + a,
        rounded_up(v, a) % a == 0,
{
    let q = (v + a - 1) / a;
    vstd::arithmetic::div_mod::lemma_fundamental_div_mod(v + a - 1, a);
    vstd::arithmetic::div_mod::lemma_mod_bound(v + a - 1, a);
    vstd::arithmetic::mul::lemma_mul_is_commutative(a, q);
    vstd::arithmetic::div_mod::lemma_mod_multiples_basic(q, a);
}

fn round_up(v: u64, a: u64) -> (r: u64)
    requires
        0 < a,
        v + a <= u64::MAX,
    ensures
        r == rounded_up(v as int, a as int),
{
    proof {
        rounded_up_bounds(v as int, a as int);
    }
    (v + (a - 1)) / a * a
}

// ---------------------------------------------------------------------------
// Access to the shared buffer.
// ---------------------------------------------------------------------------
/// Whether `len` bytes at `off` lie within the buffer.
pub open spec fn inside(mem: Seq<u8>, off: int, len: int) -> bool {
    off + len <= mem.len()
}

/// The pointer word at `off`, if it is aligned and inside.
pub open spec fn word_in(mem: Seq<u8>, off: int) -> Option<int> {
    if off % 4 == 0 && inside(mem, off, 4) {
        Some(u32_at(mem, off))
    } else {
        None
    }
}

/// Reads a pointer word. One that is not aligned or not inside the buffer is
/// refused.
pub fn iomem_read32(mem: &[u8], off: u64) -> (r: Result<u32, Errno>)
    ensures
        match r {
            Ok(v) => word_in(mem@, off as int) == Some(v as int),
            Err(e) => word_in(mem@, off as int) is None && e == Errno::EIO,
        },
{
    if off % 4 != 0 || mem.len() < 4 || off > mem.len() as u64 - 4 {
        return Err(Errno::EIO);
    }
    Ok(read_u32(mem, off as usize))
}

/// Writes a pointer word. One that is not aligned or not inside the buffer is
/// refused, and then nothing is written.
pub fn iomem_write32(mem: &mut Vec<u8>, off: u64, v: u32) -> (r: Result<(), Errno>)
    ensures
        match r {
            Ok(_) => word_in(old(mem)@, off as int) is Some && final(mem)@ == spliced(
                old(mem)@,
                off as int,
                u32_le(v as int),
            ),
            Err(e) => word_in(old(mem)@, off as int) is None && e == Errno::EIO && final(mem)@
                == old(mem)@,
        },
{
    if off % 4 != 0 || mem.len() < 4 || off > mem.len() as u64 - 4 {
        return Err(Errno::EIO);
    }
    set_u32(mem, off as usize, v);
    Ok(())
}

/// Copies bytes out of the buffer.
pub fn memcpy_from_iomem(mem: &[u8], off: u64, len: u64) -> (r: Result<Vec<u8>, Errno>)
    ensures
        match r {
            Ok(b) => inside(mem@, off as int, len as int) && b@ == mem@.subrange(
                off as int,
                off + len,
            ),
            Err(e) => !inside(mem@, off as int, len as int) && e == Errno::EIO,
        },
{
    if len > mem.len() as u64 || off > mem.len() as u64 - len {
        return Err(Errno::EIO);
    }
    Ok(copy_range(mem, off as usize, off as usize + len as usize))
}

/// Copies bytes into the buffer.
pub fn memcpy_to_iomem(mem: &mut Vec<u8>, off: u64, part: &[u8]) -> (r: Result<(), Errno>)
    ensures
        match r {
            Ok(_) => inside(old(mem)@, off as int, part.len() as int) && final(mem)@ == spliced(
                old(mem)@,
                off as int,
                part@,
            ),
            Err(e) => !inside(old(mem)@, off as int, part.len() as int) && e == Errno::EIO
                && final(mem)@ == old(mem)@,
        },
{
    if part.len() > mem.len() || off > (mem.len() - part.len()) as u64 {
        return Err(Errno::EIO);
    }
    splice(mem, off as usize, part);
    Ok(())
}

// ---------------------------------------------------------------------------
// Finding a ring.
// ---------------------------------------------------------------------------
/// The size of the ring that a message announces.
pub open spec fn announced_size(msg: u64) -> int {
    (msg / 0x1_0000 % 0x1_0000) * 0x40
}

/// Where the ring that a message announces stands.
pub open spec fn announced_offset(msg: u64) -> int {
    (msg / 0x1_0000_0000 % 0x1_0000) * 0x40
}

/// The ring that a message announces, if the buffer can hold it: a third of
/// what its entries leave is a block, and a block's size is a power of two.
pub open spec fn ring_in(mem: Seq<u8>, msg: u64) -> Option<AFKRingBuffer> {
    let size = announced_size(msg);
    let offset = announced_offset(msg);
    match word_in(mem, offset) {
        None => None,
        Some(buf_size) => {
            let block = (size - buf_size) / 3;
            if buf_size > size || offset + size > mem.len() || buf_size == 0 || block == 0
                || !is_power_of_two(block) {
                None
            } else {
                Some(
                    AFKRingBuffer {
                        offset: offset as u64,
                        block_size: block as u64,
                        buf_size: buf_size as u64,
                    },
                )
            }
        },
    }
}

/// Finds the ring that a message announces.
pub fn parse_ring_buf(mem: &[u8], msg: u64) -> (r: Result<AFKRingBuffer, Errno>)
    ensures
        match r {
            Ok(ring) => ring_in(mem@, msg) == Some(ring) && ring.wf(mem.len() as int),
            Err(e) => ring_in(mem@, msg) is None && e == Errno::EIO,
        },
{
    let size: u64 = (msg / 0x1_0000 % 0x1_0000) * 0x40;
    let offset: u64 = (msg / 0x1_0000_0000 % 0x1_0000) * 0x40;
    let buf_size: u64 = match iomem_read32(mem, offset) {
        Err(e) => {
            return Err(e);
        },
        Ok(v) => v as u64,
    };
    if buf_size > size {
        return Err(Errno::EIO);
    }
    let block_size: u64 = (size - buf_size) / 3;
    if offset + size > mem.len() as u64 || buf_size == 0 || block_size == 0 || !power_of_two(
        block_size,
    ) {
        return Err(Errno::EIO);
    }
    Ok(AFKRingBuffer { offset, block_size, buf_size })
}

// ---------------------------------------------------------------------------
// Entries.
// ---------------------------------------------------------------------------
/// The header of an entry: what it starts with, the length of its payload, the
/// channel it is on and its type.
pub open spec fn qe_header(size: int, channel: int, ty: int) -> Seq<u8> {
    u32_le(0x2050_4f49) + u32_le(size) + u32_le(channel) + u32_le(ty)
}

/// An entry that was read, and where the next one starts.
pub struct Entry {
    pub channel: u32,
    pub payload: Vec<u8>,
    pub next: u32,
}

/// An entry, by what it holds.
pub struct EntryView {
    pub channel: int,
    pub payload: Seq<u8>,
    pub next: int,
}

/// Whether a header stands at `at` and starts as one should.
pub open spec fn header_at(mem: Seq<u8>, at: int) -> bool {
    inside(mem, at, 16) && (u32_at(mem, at) == 0x2050_4f49 || u32_at(mem, at) == 0x2050_4f41)
}

/// Where the pointer goes behind an entry of `size` bytes at `ptr`.
pub open spec fn advanced(ring: AFKRingBuffer, ptr: int, size: int) -> int {
    rounded_up(ptr + 16 + size, ring.block_size as int) % (ring.buf_size as int)
}

/// The entry whose header stands at `ptr` in the ring.
pub open spec fn entry_at(mem: Seq<u8>, ring: AFKRingBuffer, ptr: int) -> Option<EntryView> {
    let at = ring.base() + ptr;
    let size = u32_at(mem, at + 4);
    if !inside(mem, at + 16, size) {
        None
    } else {
        Some(
            EntryView {
                channel: u32_at(mem, at + 8),
                payload: mem.subrange(at + 16, at + 16 + size),
                next: advanced(ring, ptr, size),
            },
        )
    }
}

/// The entry that the read pointer leads to. One that does not fit behind its
/// header stands at the start of the ring instead.
pub open spec fn next_entry(mem: Seq<u8>, ring: AFKRingBuffer, rptr: int) -> Option<EntryView> {
    if !header_at(mem, ring.base() + rptr) || rptr + 16 > ring.buf_size {
        None
    } else if u32_at(mem, ring.base() + rptr + 4) > ring.buf_size - (rptr + 16) {
        if !header_at(mem, ring.base()) {
            None
        } else {
            entry_at(mem, ring, 0)
        }
    } else {
        entry_at(mem, ring, rptr)
    }
}

fn check_header(mem: &[u8], at: u64) -> (r: bool)
    ensures
        r == header_at(mem@, at as int),
{
    if mem.len() < 16 || at > mem.len() as u64 - 16 {
        return false;
    }
    let magic: u32 = read_u32(mem, at as usize);
    magic == QE_MAGIC1 || magic == QE_MAGIC2
}

fn take_entry(mem: &[u8], ring: &AFKRingBuffer, ptr: u64) -> (r: Result<Entry, Errno>)
    requires
        ring.wf(mem.len() as int),
        ptr <= 0xffff_ffff,
        header_at(mem@, ring.base() + ptr),
    ensures
        match (r, entry_at(mem@, *ring, ptr as int)) {
            (Ok(e), Some(v)) => e.channel == v.channel && e.payload@ == v.payload && e.next
                == v.next,
            (Err(e), None) => e == Errno::EIO,
            _ => false,
        },
{
    let at: u64 = ring.offset + ring.block_size * 3 + ptr;
    let size: u32 = read_u32(mem, at as usize + 4);
    let channel: u32 = read_u32(mem, at as usize + 8);
    match memcpy_from_iomem(mem, at + 16, size as u64) {
        Err(e) => Err(e),
        Ok(payload) => {
            let next: u64 = round_up(ptr + 16 + size as u64, ring.block_size) % ring.buf_size;
            Ok(Entry { channel, payload, next: next as u32 })
        },
    }
}

/// Reads the entry that the read pointer leads to. What does not look like an
/// entry is an error, and the ring cannot be read on.
pub fn read_entry(mem: &[u8], ring: &AFKRingBuffer, rptr: u32) -> (r: Result<Entry, Errno>)
    requires
        ring.wf(mem.len() as int),
    ensures
        match (r, next_entry(mem@, *ring, rptr as int)) {
            (Ok(e), Some(v)) => e.channel == v.channel && e.payload@ == v.payload && e.next
                == v.next,
            (Err(e), None) => e == Errno::EIO,
            _ => false,
        },
{
    let base: u64 = ring.offset + ring.block_size * 3;
    if !check_header(mem, base + rptr as u64) {
        return Err(Errno::EIO);
    }
    if rptr as u64 + 16 > ring.buf_size {
        return Err(Errno::EIO);
    }
    let size: u32 = read_u32(mem, (base + rptr as u64) as usize + 4);
    if size as u64 > ring.buf_size - (rptr as u64 + 16) {
        if !check_header(mem, base) {
            return Err(Errno::EIO);
        }
        return take_entry(mem, ring, 0);
    }
    take_entry(mem, ring, rptr as u64)
}

// ---------------------------------------------------------------------------
// Reading a ring.
// ---------------------------------------------------------------------------
/// The read pointer and the write pointer, if both words can be read.
pub open spec fn pointers_in(mem: Seq<u8>, ring: AFKRingBuffer) -> Option<(int, int)> {
    match (word_in(mem, ring.rptr_at()), word_in(mem, ring.wptr_at())) {
        (Some(r), Some(w)) => Some((r, w)),
        _ => None,
    }
}

/// Reads both pointers.
pub fn pointers(mem: &[u8], ring: &AFKRingBuffer) -> (r: Result<(u32, u32), Errno>)
    requires
        ring.wf(mem.len() as int),
    ensures
        match r {
            Ok((rp, wp)) => pointers_in(mem@, *ring) == Some((rp as int, wp as int)),
            Err(e) => pointers_in(mem@, *ring) is None && e == Errno::EIO,
        },
{
    match iomem_read32(mem, ring.offset + ring.block_size) {
        Err(e) => Err(e),
        Ok(rp) => match iomem_read32(mem, ring.offset + ring.block_size * 2) {
            Err(e) => Err(e),
            Ok(wp) => Ok((rp, wp)),
        },
    }
}

/// What the reader of a ring finds.
pub enum Found {
    /// The ring is read to its end.
    Nothing,
    Message(Entry),
}

/// Looks for the next entry. The reader keeps its own copy of the read pointer,
/// and the write pointer is read anew each time.
pub fn look(mem: &[u8], ring: &AFKRingBuffer, rptr: u32) -> (r: Result<Found, Errno>)
    requires
        ring.wf(mem.len() as int),
    ensures
        match word_in(mem@, ring.wptr_at()) {
            None => r == Err::<Found, Errno>(Errno::EIO),
            Some(wptr) => if wptr == rptr {
                r == Ok::<Found, Errno>(Found::Nothing)
            } else {
                match next_entry(mem@, *ring, rptr as int) {
                    None => r == Err::<Found, Errno>(Errno::EIO),
                    Some(v) => r matches Ok(Found::Message(e)) && e.channel == v.channel
                        && e.payload@ == v.payload && e.next == v.next,
                }
            },
        },
{
    match iomem_read32(mem, ring.offset + ring.block_size * 2) {
        Err(e) => Err(e),
        Ok(wptr) => {
            if wptr == rptr {
                return Ok(Found::Nothing);
            }
            match read_entry(mem, ring, rptr) {
                Err(e) => Err(e),
                Ok(e) => Ok(Found::Message(e)),
            }
        },
    }
}

/// Passes over an entry once it was dealt with: the writer may use its room.
pub fn pass(mem: &mut Vec<u8>, ring: &AFKRingBuffer, next: u32) -> (r: Result<(), Errno>)
    requires
        ring.wf(old(mem).len() as int),
    ensures
        match r {
            Ok(_) => word_in(old(mem)@, ring.rptr_at()) is Some && final(mem)@ == passed(
                old(mem)@,
                *ring,
                next as int,
            ),
            Err(e) => word_in(old(mem)@, ring.rptr_at()) is None && e == Errno::EIO && final(mem)@
                == old(mem)@,
        },
{
    iomem_write32(mem, ring.offset + ring.block_size, next)
}

// ---------------------------------------------------------------------------
// Writing a ring.
// ---------------------------------------------------------------------------
/// Where the payload of an entry goes: behind its header, or at the start of
/// the ring if it does not fit there.
pub open spec fn entry_place(ring: AFKRingBuffer, wptr: int, len: int) -> int {
    if len > ring.buf_size - (wptr + 16) {
        0
    } else {
        wptr
    }
}

/// The buffer with the header of an entry where the write pointer stands and,
/// if the entry goes elsewhere, there as well.
pub open spec fn with_headers(
    mem: Seq<u8>,
    ring: AFKRingBuffer,
    wptr: int,
    h: Seq<u8>,
    len: int,
) -> Seq<u8> {
    let first = spliced(mem, ring.base() + wptr, h);
    if entry_place(ring, wptr, len) == 0 && wptr != 0 {
        spliced(first, ring.base(), h)
    } else {
        first
    }
}

/// Whether there is room for one more header: the write pointer may not run
/// into the read pointer.
pub open spec fn is_full(rptr: int, wptr: int) -> bool {
    wptr < rptr && wptr + 16 >= rptr
}

/// Whether an entry can be written at all.
pub open spec fn can_write(mem: Seq<u8>, ring: AFKRingBuffer, len: int) -> bool {
    match pointers_in(mem, ring) {
        None => false,
        Some((rptr, wptr)) => {
            &&& !is_full(rptr, wptr)
            &&& inside(mem, ring.base() + wptr, 16)
            &&& wptr + 16 <= ring.buf_size
            &&& inside(mem, ring.base() + entry_place(ring, wptr, len) + 16, len)
        },
    }
}

/// The buffer after an entry was written, its write pointer behind the entry.
pub open spec fn with_entry(
    mem: Seq<u8>,
    ring: AFKRingBuffer,
    wptr: int,
    channel: int,
    ty: int,
    payload: Seq<u8>,
) -> Seq<u8> {
    let len = payload.len() as int;
    let at = entry_place(ring, wptr, len);
    let h = qe_header(len, channel, ty);
    let m = spliced(with_headers(mem, ring, wptr, h, len), ring.base() + at + 16, payload);
    spliced(m, ring.wptr_at(), u32_le(advanced(ring, at, len)))
}

/// The buffer after an entry could not be written: what was written of it lies
/// from the write pointer on, or at the start of the ring, and the write pointer
/// stays. Of the payload, which does not fit, no more than its first part is
/// there.
pub open spec fn with_remains(
    mem: Seq<u8>,
    ring: AFKRingBuffer,
    h: Seq<u8>,
    part: Seq<u8>,
    len: int,
) -> Seq<u8> {
    match pointers_in(mem, ring) {
        None => mem,
        Some((rptr, wptr)) => if is_full(rptr, wptr) || !inside(mem, ring.base() + wptr, 16) {
            mem
        } else if wptr + 16 > ring.buf_size {
            spliced(mem, ring.base() + wptr, h)
        } else {
            let headed = with_headers(mem, ring, wptr, h, len);
            let at = ring.base() + entry_place(ring, wptr, len) + 16;
            if inside(mem, at, part.len() as int) {
                spliced(headed, at, part)
            } else {
                headed
            }
        },
    }
}

fn header_bytes(size: u32, channel: u32, ty: u32) -> (h: Vec<u8>)
    ensures
        h@ == qe_header(size as int, channel as int, ty as int),
        h.len() == 16,
{
    broadcast use group_le;

    let mut h: Vec<u8> = Vec::new();
    put_u32(&mut h, QE_MAGIC1);
    put_u32(&mut h, size);
    put_u32(&mut h, channel);
    put_u32(&mut h, ty);
    assert(h@ =~= qe_header(size as int, channel as int, ty as int));
    h
}

/// Copies two parts into the buffer, one behind the other. Where both do not fit,
/// the first is copied if it fits.
fn put_parts(mem: &mut Vec<u8>, off: u64, first: &[u8], second: &[u8]) -> (r: Result<(), Errno>)
    requires
        off + first.len() <= u64::MAX,
    ensures
        final(mem).len() == old(mem).len(),
        match r {
            Ok(_) => inside(old(mem)@, off as int, first.len() + second.len()) && final(mem)@
                == spliced(old(mem)@, off as int, first@ + second@),
            Err(e) => {
                &&& e == Errno::EIO
                &&& !inside(old(mem)@, off as int, first.len() + second.len())
                &&& final(mem)@ == (if inside(old(mem)@, off as int, first.len() as int) {
                    spliced(old(mem)@, off as int, first@)
                } else {
                    old(mem)@
                })
            },
        },
{
    match memcpy_to_iomem(mem, off, first) {
        Err(e) => {
            return Err(e);
        },
        Ok(_) => {},
    }
    match memcpy_to_iomem(mem, off + first.len() as u64, second) {
        Err(e) => {
            return Err(e);
        },
        Ok(_) => {},
    }
    assert(mem@ =~= spliced(old(mem)@, off as int, first@ + second@));
    Ok(())
}

/// Writes an entry, whose payload is in two parts, and gives its new write
/// pointer. Nothing of it can be seen before the write pointer is told.
pub fn write_entry(
    mem: &mut Vec<u8>,
    ring: &AFKRingBuffer,
    channel: u32,
    ty: u32,
    header: &[u8],
    data: &[u8],
) -> (r: Result<u32, Errno>)
    requires
        ring.wf(old(mem).len() as int),
        header.len() + data.len() <= 0xffff_ffff,
    ensures
        final(mem).len() == old(mem).len(),
        ({
            let payload = header@ + data@;
            let len = payload.len() as int;
            match r {
                Ok(next) => {
                    let wptr = (pointers_in(old(mem)@, *ring)->0).1;
                    &&& can_write(old(mem)@, *ring, len)
                    &&& final(mem)@ == with_entry(
                        old(mem)@,
                        *ring,
                        wptr,
                        channel as int,
                        ty as int,
                        payload,
                    )
                    &&& next == advanced(*ring, entry_place(*ring, wptr, len), len)
                },
                Err(e) => {
                    &&& e == Errno::EIO
                    &&& !can_write(old(mem)@, *ring, len)
                    &&& final(mem)@ == with_remains(
                        old(mem)@,
                        *ring,
                        qe_header(len, channel as int, ty as int),
                        header@,
                        len,
                    )
                },
            }
        }),
{
    let (rptr, wptr): (u32, u32) = match pointers(mem.as_slice(), ring) {
        Err(e) => {
            return Err(e);
        },
        Ok(p) => p,
    };
    if wptr < rptr && wptr as u64 + 16 >= rptr as u64 {
        return Err(Errno::EIO);
    }
    let base: u64 = ring.offset + ring.block_size * 3;
    let len: u64 = header.len() as u64 + data.len() as u64;
    let h = header_bytes(len as u32, channel, ty);
    match memcpy_to_iomem(mem, base + wptr as u64, &h) {
        Err(e) => {
            return Err(e);
        },
        Ok(_) => {},
    }
    if wptr as u64 + 16 > ring.buf_size {
        return Err(Errno::EIO);
    }
    let mut at: u64 = wptr as u64;
    if len > ring.buf_size - (wptr as u64 + 16) {
        at = 0;
        let ghost before = mem@;
        match memcpy_to_iomem(mem, base, &h) {
            Err(e) => {
                return Err(e);
            },
            Ok(_) => {},
        }
        assert(wptr == 0 ==> mem@ =~= before);
    }
    assert(at == entry_place(*ring, wptr as int, len as int));
    assert(mem@ == with_headers(old(mem)@, *ring, wptr as int, h@, len as int));
    match put_parts(mem, base + at + 16, header, data) {
        Err(e) => {
            return Err(e);
        },
        Ok(_) => {},
    }
    let next: u64 = round_up(at + 16 + len, ring.block_size) % ring.buf_size;
    match iomem_write32(mem, ring.offset + ring.block_size * 2, next as u32) {
        Err(e) => Err(e),
        Ok(_) => Ok(next as u32),
    }
}

// ---------------------------------------------------------------------------
// Laws.
// ---------------------------------------------------------------------------
/// The number at `at` in a buffer with a part written over it, where the part
/// covers the number or does not touch it.
proof fn word_after(mem: Seq<u8>, at: int, part: Seq<u8>, off: int)
    requires
        0 <= at && at + part.len() <= mem.len(),
        0 <= off && off + 4 <= mem.len(),
        (at <= off && off + 4 <= at + part.len()) || off + 4 <= at || at + part.len() <= off,
    ensures
        at <= off && off + 4 <= at + part.len() ==> u32_at(spliced(mem, at, part), off) == u32_at(
            part,
            off - at,
        ),
        off + 4 <= at || at + part.len() <= off ==> u32_at(spliced(mem, at, part), off) == u32_at(
            mem,
            off,
        ),
{
}

proof fn header_words(size: int, channel: int, ty: int)
    requires
        0 <= size < 0x1_0000_0000,
        0 <= channel < 0x1_0000_0000,
        0 <= ty < 0x1_0000_0000,
    ensures
        qe_header(size, channel, ty).len() == 16,
        u32_at(qe_header(size, channel, ty), 0) == 0x2050_4f49,
        u32_at(qe_header(size, channel, ty), 4) == size,
        u32_at(qe_header(size, channel, ty), 8) == channel,
{
    broadcast use group_le;

    let h = qe_header(size, channel, ty);
    u32_round_trip(0x2050_4f49);
    u32_round_trip(size);
    u32_round_trip(channel);
    assert(u32_at(h, 0) == u32_at(u32_le(0x2050_4f49), 0));
    assert(u32_at(h, 4) == u32_at(u32_le(size), 0));
    assert(u32_at(h, 8) == u32_at(u32_le(channel), 0));
}

/// The header that stands at `off` is still there after a part was written
/// where it does not touch it.
proof fn header_stays(mem: Seq<u8>, at: int, part: Seq<u8>, off: int)
    requires
        0 <= at && at + part.len() <= mem.len(),
        0 <= off && off + 16 <= mem.len(),
        off + 16 <= at || at + part.len() <= off,
    ensures
        u32_at(spliced(mem, at, part), off) == u32_at(mem, off),
        u32_at(spliced(mem, at, part), off + 4) == u32_at(mem, off + 4),
        u32_at(spliced(mem, at, part), off + 8) == u32_at(mem, off + 8),
{
    word_after(mem, at, part, off);
    word_after(mem, at, part, off + 4);
    word_after(mem, at, part, off + 8);
}

/// A header that was written can be read.
proof fn header_reads(mem: Seq<u8>, at: int, size: int, channel: int, ty: int)
    requires
        0 <= at && at + 16 <= mem.len(),
        0 <= size < 0x1_0000_0000,
        0 <= channel < 0x1_0000_0000,
        0 <= ty < 0x1_0000_0000,
    ensures
        u32_at(spliced(mem, at, qe_header(size, channel, ty)), at) == 0x2050_4f49,
        u32_at(spliced(mem, at, qe_header(size, channel, ty)), at + 4) == size,
        u32_at(spliced(mem, at, qe_header(size, channel, ty)), at + 8) == channel,
{
    header_words(size, channel, ty);
    let h = qe_header(size, channel, ty);
    word_after(mem, at, h, at);
    word_after(mem, at, h, at + 4);
    word_after(mem, at, h, at + 8);
}

/// The two headers after the payload and the pointer were written.
proof fn headers_hold(
    mem: Seq<u8>,
    ring: AFKRingBuffer,
    wptr: int,
    channel: int,
    ty: int,
    payload: Seq<u8>,
)
    requires
        ring.wf(mem.len() as int),
        ring.block_size >= 4,
        payload.len() <= 0xffff_ffff,
        0 <= channel < 0x1_0000_0000,
        0 <= ty < 0x1_0000_0000,
        0 <= wptr,
        inside(mem, ring.base() + wptr, 16),
        inside(mem, ring.base() + entry_place(ring, wptr, payload.len() as int) + 16, payload.len() as int),
        keeps_clear(ring, wptr, payload.len() as int),
    ensures
        ({
            let after = with_entry(mem, ring, wptr, channel, ty, payload);
            let b = ring.base();
            let at = entry_place(ring, wptr, payload.len() as int);
            &&& u32_at(after, b + wptr) == 0x2050_4f49
            &&& u32_at(after, b + wptr + 4) == payload.len()
            &&& u32_at(after, b + at) == 0x2050_4f49
            &&& u32_at(after, b + at + 4) == payload.len()
            &&& u32_at(after, b + at + 8) == channel
        }),
{
    broadcast use group_le;

    let len = payload.len() as int;
    let at = entry_place(ring, wptr, len);
    let b = ring.base();
    let h = qe_header(len, channel, ty);
    header_words(len, channel, ty);
    let first = spliced(mem, b + wptr, h);
    header_reads(mem, b + wptr, len, channel, ty);
    let headed = with_headers(mem, ring, wptr, h, len);
    if at == 0 && wptr != 0 {
        header_reads(first, b, len, channel, ty);
        header_stays(first, b, h, b + wptr);
    }
    let filled = spliced(headed, b + at + 16, payload);
    header_stays(headed, b + at + 16, payload, b + wptr);
    header_stays(headed, b + at + 16, payload, b + at);
    let w = u32_le(advanced(ring, at, len));
    header_stays(filled, ring.wptr_at(), w, b + wptr);
    header_stays(filled, ring.wptr_at(), w, b + at);
}

/// Whether an entry that goes to the start of the ring ends before the header
/// that says so.
pub open spec fn keeps_clear(ring: AFKRingBuffer, wptr: int, len: int) -> bool {
    entry_place(ring, wptr, len) == wptr || 16 + len <= wptr
}

/// What is written into a ring is read from it: a reader that has read up to
/// the old write pointer finds the entry, whole and on its channel, and then
/// stands at the new write pointer. An entry that goes to the start of the ring
/// must not reach the header that sends the reader there.
#[verifier::spinoff_prover]
pub proof fn ring_carries_entries(
    mem: Seq<u8>,
    ring: AFKRingBuffer,
    channel: int,
    ty: int,
    payload: Seq<u8>,
)
    requires
        ring.wf(mem.len() as int),
        payload.len() <= 0xffff_ffff,
        0 <= channel < 0x1_0000_0000,
        0 <= ty < 0x1_0000_0000,
        can_write(mem, ring, payload.len() as int),
        keeps_clear(ring, (pointers_in(mem, ring)->0).1, payload.len() as int),
    ensures
        ({
            let wptr = (pointers_in(mem, ring)->0).1;
            let after = with_entry(mem, ring, wptr, channel, ty, payload);
            let found = next_entry(after, ring, wptr);
            &&& found is Some
            &&& found->0.channel == channel
            &&& found->0.payload == payload
            &&& word_in(after, ring.wptr_at()) == Some(found->0.next)
        }),
{
    broadcast use group_le;

    let wptr = (pointers_in(mem, ring)->0).1;
    let len = payload.len() as int;
    let at = entry_place(ring, wptr, len);
    let h = qe_header(len, channel, ty);
    let b = ring.base();
    let next = advanced(ring, at, len);
    assert(word_in(mem, ring.rptr_at()) is Some);
    assert(word_in(mem, ring.wptr_at()) is Some);
    assert(ring.block_size % 4 == 0);
    headers_hold(mem, ring, wptr, channel, ty, payload);
    vstd::arithmetic::div_mod::lemma_mod_bound(
        rounded_up(at + 16 + len, ring.block_size as int),
        ring.buf_size as int,
    );
    u32_round_trip(next);
    let headed = with_headers(mem, ring, wptr, h, len);
    let filled = spliced(headed, b + at + 16, payload);
    let after = with_entry(mem, ring, wptr, channel, ty, payload);
    word_after(filled, ring.wptr_at(), u32_le(next), ring.wptr_at());
    assert(after.subrange(b + at + 16, b + at + 16 + len) =~= payload);
}

/// The buffer after the reader has passed on to `next`.
pub open spec fn passed(mem: Seq<u8>, ring: AFKRingBuffer, next: int) -> Seq<u8> {
    spliced(mem, ring.rptr_at(), u32_le(next))
}

/// Whether a ring holds exactly these entries for a reader that stands at
/// `rptr`: each where the one before it ends, and the writer behind the last.
pub open spec fn ring_holds(
    mem: Seq<u8>,
    ring: AFKRingBuffer,
    rptr: int,
    entries: Seq<EntryView>,
) -> bool
    decreases entries.len(),
{
    if entries.len() == 0 {
        word_in(mem, ring.wptr_at()) == Some(rptr)
    } else {
        &&& word_in(mem, ring.wptr_at()) is Some
        &&& word_in(mem, ring.wptr_at()) != Some(rptr)
        &&& next_entry(mem, ring, rptr) == Some(entries[0])
        &&& ring_holds(
            mem,
            ring,
            entries[0].next,
            entries.subrange(1, entries.len() as int),
        )
    }
}

/// What reading a ring comes to: the entries that were handed on, in order, and
/// where the reader stands and what the buffer holds if the end was reached.
#[verifier::ext_equal]
pub struct ReadRun {
    pub entries: Seq<EntryView>,
    pub end: Option<(int, Seq<u8>)>,
}

/// Reads a ring for at most `turns` turns. A turn looks for the next entry, hands
/// it on, and passes over it.
pub open spec fn read_run(mem: Seq<u8>, ring: AFKRingBuffer, rptr: int, turns: nat) -> ReadRun
    decreases turns,
{
    match word_in(mem, ring.wptr_at()) {
        None => ReadRun { entries: Seq::empty(), end: None },
        Some(wptr) => if wptr == rptr {
            ReadRun { entries: Seq::empty(), end: Some((rptr, mem)) }
        } else {
            match next_entry(mem, ring, rptr) {
                None => ReadRun { entries: Seq::empty(), end: None },
                Some(v) => if turns == 0 {
                    ReadRun { entries: Seq::empty(), end: None }
                } else {
                    let rest = read_run(
                        passed(mem, ring, v.next),
                        ring,
                        v.next,
                        (turns - 1) as nat,
                    );
                    ReadRun { entries: seq![v] + rest.entries, ..rest }
                },
            }
        },
    }
}

/// The read pointer stands apart from all that the reader looks at.
proof fn passing_hides_nothing(mem: Seq<u8>, ring: AFKRingBuffer, next: int, rptr: int)
    requires
        ring.wf(mem.len() as int),
        word_in(mem, ring.rptr_at()) is Some,
        0 <= next < 0x1_0000_0000,
        0 <= rptr,
    ensures
        passed(mem, ring, next).len() == mem.len(),
        word_in(passed(mem, ring, next), ring.rptr_at()) == Some(next),
        word_in(passed(mem, ring, next), ring.wptr_at()) == word_in(mem, ring.wptr_at()),
        next_entry(passed(mem, ring, next), ring, rptr) == next_entry(mem, ring, rptr),
{
    broadcast use group_le;

    let after = passed(mem, ring, next);
    let w = u32_le(next);
    assert(ring.block_size % 4 == 0);
    u32_round_trip(next);
    word_after(mem, ring.rptr_at(), w, ring.rptr_at());
    assert(after.len() == mem.len());
    if ring.wptr_at() + 4 <= mem.len() {
        word_after(mem, ring.rptr_at(), w, ring.wptr_at());
    }
    let b = ring.base();
    if inside(mem, b + rptr, 16) {
        header_stays(mem, ring.rptr_at(), w, b + rptr);
    }
    if inside(mem, b, 16) {
        header_stays(mem, ring.rptr_at(), w, b);
    }
    assert forall|at: int, n: int| b <= at && 0 <= n && at + n <= mem.len() implies #[trigger] after.subrange(
        at,
        at + n,
    ) == mem.subrange(at, at + n) by {
        assert(after.subrange(at, at + n) =~= mem.subrange(at, at + n));
    }
    entry_stays(mem, ring, next, 0);
    entry_stays(mem, ring, next, rptr);
}

proof fn entry_stays(mem: Seq<u8>, ring: AFKRingBuffer, next: int, ptr: int)
    requires
        ring.wf(mem.len() as int),
        ring.block_size >= 4,
        0 <= next < 0x1_0000_0000,
        0 <= ptr,
    ensures
        inside(mem, ring.base() + ptr, 16) ==> entry_at(passed(mem, ring, next), ring, ptr)
            == entry_at(mem, ring, ptr),
{
    broadcast use group_le;

    let after = passed(mem, ring, next);
    let at = ring.base() + ptr;
    assert(after.len() == mem.len());
    if inside(mem, at, 16) {
        header_stays(mem, ring.rptr_at(), u32_le(next), at);
        let size = u32_at(mem, at + 4);
        if inside(mem, at + 16, size) {
            assert(after.subrange(at + 16, at + 16 + size) =~= mem.subrange(
                at + 16,
                at + 16 + size,
            ));
        }
    }
}

proof fn holding_stays(
    mem: Seq<u8>,
    ring: AFKRingBuffer,
    next: int,
    rptr: int,
    entries: Seq<EntryView>,
)
    requires
        ring.wf(mem.len() as int),
        word_in(mem, ring.rptr_at()) is Some,
        0 <= next < 0x1_0000_0000,
        0 <= rptr,
        ring_holds(mem, ring, rptr, entries),
    ensures
        ring_holds(passed(mem, ring, next), ring, rptr, entries),
    decreases entries.len(),
{
    passing_hides_nothing(mem, ring, next, rptr);
    if entries.len() > 0 {
        entry_leads_on(mem, ring, rptr);
        holding_stays(
            mem,
            ring,
            next,
            entries[0].next,
            entries.subrange(1, entries.len() as int),
        );
    }
}

proof fn entry_leads_on(mem: Seq<u8>, ring: AFKRingBuffer, rptr: int)
    requires
        ring.wf(mem.len() as int),
        next_entry(mem, ring, rptr) is Some,
    ensures
        0 <= next_entry(mem, ring, rptr)->0.next < 0x1_0000_0000,
{
    let v = next_entry(mem, ring, rptr)->0;
    vstd::arithmetic::div_mod::lemma_mod_bound(
        rounded_up(
            (if u32_at(mem, ring.base() + rptr + 4) > ring.buf_size - (rptr + 16) {
                0
            } else {
                rptr
            }) + 16 + v.payload.len(),
            ring.block_size as int,
        ),
        ring.buf_size as int,
    );
}

/// A whole run over a ring hands on each entry in it once, in order, and ends
/// with the read pointer, in hand and in the buffer, at the write pointer, which
/// nothing moved.
pub proof fn run_reads_all_in_order(
    mem: Seq<u8>,
    ring: AFKRingBuffer,
    rptr: int,
    entries: Seq<EntryView>,
    turns: nat,
)
    requires
        ring.wf(mem.len() as int),
        word_in(mem, ring.rptr_at()) == Some(rptr),
        0 <= rptr,
        ring_holds(mem, ring, rptr, entries),
        turns >= entries.len(),
    ensures
        ({
            let r = read_run(mem, ring, rptr, turns);
            &&& r.entries == entries
            &&& r.end is Some
            &&& word_in(mem, ring.wptr_at()) == Some((r.end->0).0)
            &&& word_in((r.end->0).1, ring.wptr_at()) == Some((r.end->0).0)
            &&& word_in((r.end->0).1, ring.rptr_at()) == Some((r.end->0).0)
        }),
    decreases entries.len(),
{
    if entries.len() > 0 {
        let v = entries[0];
        let rest = entries.subrange(1, entries.len() as int);
        entry_leads_on(mem, ring, rptr);
        passing_hides_nothing(mem, ring, v.next, v.next);
        holding_stays(mem, ring, v.next, v.next, rest);
        run_reads_all_in_order(passed(mem, ring, v.next), ring, v.next, rest, (turns - 1) as nat);
        assert(seq![v] + rest =~= entries);
    } else {
        assert(read_run(mem, ring, rptr, turns).entries =~= entries);
    }
}

/// A ring that is announced stands where the fifth and sixth byte of the message say, in
/// blocks of 64 bytes, and is as long as the third and fourth say. Its first word is the
/// room for entries; what that leaves is three header blocks, the second of which holds
/// the read pointer and the third the write pointer, and the entries stand behind.
pub proof fn announced_ring_is_laid_out(mem: Seq<u8>, msg: u64)
    ensures
        announced_size(msg) == 64 * (msg / 0x1_0000 % 0x1_0000),
        announced_offset(msg) == 64 * (msg / 0x1_0000_0000 % 0x1_0000),
        ring_in(mem, msg) matches Some(r) ==> {
            &&& r.offset == announced_offset(msg)
            &&& r.buf_size == u32_at(mem, r.offset as int)
            &&& 3 * r.block_size <= announced_size(msg) - r.buf_size < 3 * r.block_size + 3
            &&& r.rptr_at() == r.offset + r.block_size
            &&& r.wptr_at() == r.offset + 2 * r.block_size
            &&& r.base() == r.offset + 3 * r.block_size
            &&& r.offset + announced_size(msg) <= mem.len()
        },
{
}

/// A pointer moves past the entry to the next multiple of a block, and from the end of the
/// ring to its start.
pub proof fn pointers_move_on(ring: AFKRingBuffer, ptr: int, size: int)
    requires
        ring.wf(ring.offset + 3 * ring.block_size + ring.buf_size),
        0 <= ptr,
        0 <= size,
    ensures
        ({
            let end = rounded_up(ptr + 16 + size, ring.block_size as int);
            &&& ptr + 16 + size <= end < ptr + 16 + size + ring.block_size
            &&& end % (ring.block_size as int) == 0
            &&& end < ring.buf_size ==> advanced(ring, ptr, size) == end
            &&& end == ring.buf_size ==> advanced(ring, ptr, size) == 0
        }),
{
    rounded_up_bounds(ptr + 16 + size, ring.block_size as int);
    let end = rounded_up(ptr + 16 + size, ring.block_size as int);
    if end < ring.buf_size {
        vstd::arithmetic::div_mod::lemma_small_mod(end as nat, ring.buf_size as nat);
    }
}

/// The header of an entry: the letters `IOP` and a blank, then the length of the payload,
/// the channel and the type.
pub proof fn entry_header_is_laid_out(size: u32, channel: u32, ty: u32)
    ensures
        ({
            let h = qe_header(size as int, channel as int, ty as int);
            &&& h.len() == 16
            &&& h.subrange(0, 4) == seq![0x49u8, 0x4f, 0x50, 0x20]
            &&& u32_at(h, 4) == size
            &&& u32_at(h, 8) == channel
            &&& u32_at(h, 12) == ty
        }),
{
    broadcast use group_le;

    let h = qe_header(size as int, channel as int, ty as int);
    crate::bytes::bytes_are_in_order(0x49, 0x4f, 0x50, 0x20);
    assert(h.subrange(0, 4) =~= seq![0x49u8, 0x4f, 0x50, 0x20]);
    assert(h.subrange(4, 8) =~= u32_le(size as int));
    assert(h.subrange(8, 12) =~= u32_le(channel as int));
    assert(h.subrange(12, 16) =~= u32_le(ty as int));
    crate::bytes::u32_reads_back(h, 4, size as int);
    crate::bytes::u32_reads_back(h, 8, channel as int);
    crate::bytes::u32_reads_back(h, 12, ty as int);
}

/// A header is known by its first four letters, `IOP` or `AOP` and a blank, and has to have
/// room for sixteen bytes.
pub proof fn headers_are_known(mem: Seq<u8>, at: int)
    requires
        0 <= at,
    ensures
        at + 16 > mem.len() ==> !header_at(mem, at),
        at + 16 <= mem.len() ==> (header_at(mem, at) <==> (mem[at] == 0x49 || mem[at] == 0x41)
            && mem[at + 1] == 0x4f && mem[at + 2] == 0x50 && mem[at + 3] == 0x20),
{
}

/// Where the parts of a ring stand: its pointers a block and two blocks behind its start,
/// and its entries three behind.
pub proof fn ring_is_laid_out(ring: AFKRingBuffer)
    ensures
        ring.rptr_at() == ring.offset + ring.block_size,
        ring.wptr_at() == ring.offset + 2 * ring.block_size,
        ring.base() == ring.offset + 3 * ring.block_size,
{
}

/// A header may not reach the reader from behind: the ring is full where the reader stands
/// ahead of the writer by sixteen bytes or less.
pub proof fn writer_keeps_off_the_reader(rptr: int, wptr: int)
    ensures
        is_full(rptr, wptr) <==> 0 < rptr - wptr <= 16,
{
}

/// A payload goes behind its header where it fits before the end of the ring, and else to
/// the start, behind a second header.
pub proof fn payload_finds_its_place(ring: AFKRingBuffer, wptr: int, len: int)
    ensures
        wptr + 16 + len <= ring.buf_size ==> entry_place(ring, wptr, len) == wptr,
        wptr + 16 + len > ring.buf_size ==> entry_place(ring, wptr, len) == 0,
{
}

/// What is read of an entry: its channel eight bytes in, its payload sixteen bytes in and
/// as long as the word at four says, and where the next one starts. A payload that reaches
/// past the buffer is none.
pub proof fn entry_is_read(mem: Seq<u8>, ring: AFKRingBuffer, ptr: int)
    ensures
        ({
            let at = ring.base() + ptr;
            let size = u32_at(mem, at + 4);
            &&& at + 16 + size > mem.len() ==> entry_at(mem, ring, ptr) is None
            &&& at + 16 + size <= mem.len() ==> (entry_at(mem, ring, ptr) matches Some(e)
                && e.channel == u32_at(mem, at + 8) && e.payload == mem.subrange(
                at + 16,
                at + 16 + size,
            ) && e.next == advanced(ring, ptr, size))
        }),
{
}

/// Once an entry was passed over, the read pointer's word says where the next one starts,
/// and nothing else changed.
pub proof fn read_pointer_is_told(mem: Seq<u8>, ring: AFKRingBuffer, next: u32)
    requires
        ring.rptr_at() + 4 <= mem.len(),
    ensures
        ({
            let at = ring.rptr_at();
            let after = passed(mem, ring, next as int);
            &&& after.len() == mem.len()
            &&& u32_at(after, at) == next
            &&& after.subrange(0, at) == mem.subrange(0, at)
            &&& after.subrange(at + 4, mem.len() as int) == mem.subrange(at + 4, mem.len() as int)
        }),
{
    broadcast use group_le;

    crate::bytes::splice_keeps_the_rest(mem, ring.rptr_at(), u32_le(next as int));
    crate::bytes::u32_reads_back(passed(mem, ring, next as int), ring.rptr_at(), next as int);
}

} // verus!
