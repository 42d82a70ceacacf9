//! The table of items that is handed to the enclave in shared memory: three
//! items, each in a region of its own, behind a page of table entries.

use vstd::prelude::*;

use crate::bytes::{
    group_le, put_bytes, put_u32, put_u64, splice, spliced, u32_at, u32_le, u32_round_trip, u64_at,
    u64_le, u64_round_trip, zeroed, zeros,
};
use crate::errno::Errno;

verus! {

pub const ENTRY_SIZE: usize = 16;

/// Where the first item stands. Everything before it belongs to the table.
pub const PAYLOAD_BASE: usize = 0x4000;

pub const PAYLOAD_ALIGN: usize = 0x4000;

/// The least size of the first item's region.
pub const CINP_MIN_SIZE: usize = 0x8000;

/// `OPLA`, in the order of the wire.
pub open spec fn fourcc_opla() -> Seq<u8> {
    seq![0x4fu8, 0x50, 0x4c, 0x41]
}

/// `IPIS`, in the order of the wire.
pub open spec fn fourcc_ipis() -> Seq<u8> {
    seq![0x49u8, 0x50, 0x49, 0x53]
}

/// `llun`, which ends the table.
pub open spec fn fourcc_term() -> Seq<u8> {
    seq![0x6cu8, 0x6c, 0x75, 0x6e]
}

/// What the first item holds.
pub open spec fn cinp_payload() -> Seq<u8> {
    seq![0u8]
}

/// Where an item stands and how much room it has.
#[derive(Clone, Copy, Debug, PartialEq, Eq, Structural)]
pub struct Region {
    pub offset: usize,
    /// The size of the room, not that of the payload.
    pub size: usize,
    pub payload_len: usize,
}

/// `v` rounded up to a multiple of the alignment.
pub open spec fn aligned_up(v: int) -> int {
    (v + 0x3fff) / 0x4000 * 0x4000
}

/// The room that a payload with its length word takes.
pub open spec fn room(payload_len: int, min_size: int) -> int {
    if aligned_up(payload_len + 4) < min_size {
        min_size
    } else {
        aligned_up(payload_len + 4)
    }
}

impl Region {
    pub open spec fn limit(self) -> int {
        self.offset + self.size
    }

    /// Whether the region is aligned, holds its payload and lies within the
    /// buffer, past the table.
    pub open spec fn sound(self, capacity: int) -> bool {
        &&& self.offset >= 0x4000
        &&& self.offset % 0x4000 == 0
        &&& self.size % 0x4000 == 0
        &&& self.size >= self.payload_len + 4
        &&& self.limit() <= capacity
    }

    /// The region at `offset` for a payload.
    pub fn place(offset: usize, payload_len: usize, min_size: usize) -> (r: Region)
        requires
            payload_len + 0x4003 <= usize::MAX,
        ensures
            r.offset == offset,
            r.size == room(payload_len as int, min_size as int),
            r.payload_len == payload_len,
    {
        let mut size: usize = (payload_len + 4 + 0x3fff) / 0x4000 * 0x4000;
        if size < min_size {
            size = min_size;
        }
        Region { offset, size, payload_len }
    }

    /// The first byte past the region.
    pub fn end(&self) -> (e: usize)
        requires
            self.limit() <= usize::MAX,
        ensures
            e == self.limit(),
    {
        self.offset + self.size
    }

    fn is_sound(&self, capacity: usize) -> (r: bool)
        requires
            self.limit() <= usize::MAX,
            self.payload_len + 4 <= usize::MAX,
        ensures
            r == self.sound(capacity as int),
    {
        !(self.offset < PAYLOAD_BASE || self.offset % PAYLOAD_ALIGN != 0 || self.size
            % PAYLOAD_ALIGN != 0 || self.size < self.payload_len + 4 || self.end() > capacity)
    }
}

/// Whether the three regions follow each other without a gap from the base up
/// to `used`.
pub open spec fn tiled(cinp: Region, opla: Region, ipis: Region, used: int) -> bool {
    &&& cinp.offset == 0x4000
    &&& opla.offset == cinp.limit()
    &&& ipis.offset == opla.limit()
    &&& used == ipis.limit()
}

/// What is wrong with a layout, if anything.
pub open spec fn layout_fault(
    cinp: Region,
    opla: Region,
    ipis: Region,
    used: int,
    capacity: int,
) -> Option<Errno> {
    if !(cinp.sound(capacity) && opla.sound(capacity) && ipis.sound(capacity)) {
        Some(Errno::EINVAL)
    } else if !tiled(cinp, opla, ipis, used) || cinp.size < 0x8000 {
        Some(Errno::EINVAL)
    } else if used > capacity {
        Some(Errno::ENOSPC)
    } else {
        None
    }
}

/// Refuses a layout whose regions are unsound or do not tile the buffer.
pub fn verify_layout(
    cinp: &Region,
    opla: &Region,
    ipis: &Region,
    used: usize,
    capacity: usize,
) -> (r: Result<(), Errno>)
    requires
        cinp.limit() <= usize::MAX && opla.limit() <= usize::MAX && ipis.limit() <= usize::MAX,
        cinp.payload_len + 4 <= usize::MAX && opla.payload_len + 4 <= usize::MAX && ipis.payload_len
            + 4 <= usize::MAX,
    ensures
        match layout_fault(*cinp, *opla, *ipis, used as int, capacity as int) {
            Some(e) => r == Err::<(), Errno>(e),
            None => r is Ok,
        },
{
    if !cinp.is_sound(capacity) || !opla.is_sound(capacity) || !ipis.is_sound(capacity) {
        return Err(Errno::EINVAL);
    }
    if cinp.offset != PAYLOAD_BASE || opla.offset != cinp.end() || ipis.offset != opla.end() || used
        != ipis.end() {
        return Err(Errno::EINVAL);
    }
    if cinp.size < CINP_MIN_SIZE {
        return Err(Errno::EINVAL);
    }
    if 4 * ENTRY_SIZE > PAYLOAD_BASE || used > capacity {
        return Err(Errno::ENOSPC);
    }
    Ok(())
}

/// The length of a manifest, or why there is none.
pub open spec fn manifest_of(described: bool, count: Result<usize, Errno>) -> Result<
    usize,
    Errno,
> {
    if !described {
        Err(Errno::EIO)
    } else {
        match count {
            Err(e) => Err(e),
            Ok(n) => if n == 0 {
                Err(Errno::ENODATA)
            } else {
                Ok(n)
            },
        }
    }
}

/// The length of a manifest, given whether the device has a description at all
/// and how many bytes it says the property holds. An empty one is refused.
pub fn manifest_len(described: bool, count: Result<usize, Errno>) -> (r: Result<usize, Errno>)
    ensures
        r == manifest_of(described, count),
{
    if !described {
        return Err(Errno::EIO);
    }
    match count {
        Err(e) => Err(e),
        Ok(n) => {
            if n == 0 {
                Err(Errno::ENODATA)
            } else {
                Ok(n)
            }
        },
    }
}

/// An item as it stands in its region: the length of its payload, then the
/// payload.
pub open spec fn item(payload: Seq<u8>) -> Seq<u8> {
    u32_le(payload.len() as int) + payload
}

/// An entry of the table: the item's name, its room and its place.
pub open spec fn entry(fourcc: Seq<u8>, size: int, offset: int) -> Seq<u8> {
    fourcc + u32_le(size) + u64_le(offset)
}

/// Where the third item stands when the second holds `opla_len` bytes.
pub open spec fn ipis_offset(opla_len: int) -> int {
    0xc000 + room(opla_len, 0)
}

/// How much of the buffer the table and the three items take.
pub open spec fn used_len(opla_len: int, ipis_len: int) -> int {
    ipis_offset(opla_len) + room(ipis_len, 0)
}

/// Whether the table can be built: all of it has to fit the buffer, and no
/// region may be longer than an entry can say.
pub open spec fn fits(opla_len: int, ipis_len: int, capacity: int) -> bool {
    &&& used_len(opla_len, ipis_len) <= capacity
    &&& room(opla_len, 0) <= 0xffff_ffff
    &&& room(ipis_len, 0) <= 0xffff_ffff
}

/// The buffer with the three items in it and no table yet.
pub open spec fn items_image(opla: Seq<u8>, ipis: Seq<u8>, capacity: int) -> Seq<u8> {
    let b0 = spliced(zeroed(capacity), 0x4000, item(cinp_payload()));
    let b1 = spliced(b0, 0xc000, item(opla));
    spliced(b1, ipis_offset(opla.len() as int), item(ipis))
}

/// The four entries of the table.
pub open spec fn table(first: Seq<u8>, opla_len: int, ipis_len: int) -> Seq<u8> {
    entry(first, 0x8000, 0x4000) + entry(fourcc_opla(), room(opla_len, 0), 0xc000) + entry(
        fourcc_ipis(),
        room(ipis_len, 0),
        ipis_offset(opla_len),
    ) + entry(fourcc_term(), 0, 0)
}

/// The buffer as it is handed over.
pub open spec fn image(first: Seq<u8>, opla: Seq<u8>, ipis: Seq<u8>, capacity: int) -> Seq<u8> {
    spliced(
        items_image(opla, ipis, capacity),
        0,
        table(first, opla.len() as int, ipis.len() as int),
    )
}

fn write_item(buf: &mut Vec<u8>, off: usize, payload: &[u8])
    requires
        off + 4 + payload.len() <= old(buf).len(),
        payload.len() <= 0xffff_ffff,
    ensures
        final(buf)@ == spliced(old(buf)@, off as int, item(payload@)),
{
    broadcast use group_le;

    let mut part: Vec<u8> = Vec::new();
    put_u32(&mut part, payload.len() as u32);
    put_bytes(&mut part, payload);
    assert(part@ =~= item(payload@));
    splice(buf, off, &part);
}

fn put_entry(out: &mut Vec<u8>, fourcc: &[u8; 4], size: u32, offset: u64)
    ensures
        final(out)@ == old(out)@ + entry(fourcc@, size as int, offset as int),
{
    put_bytes(out, fourcc.as_slice());
    put_u32(out, size);
    put_u64(out, offset);
    assert(out@ =~= old(out)@ + entry(fourcc@, size as int, offset as int));
}

/// The four entries, one after the other.
fn table_bytes(first_item: &[u8; 4], opla: &Region, ipis: &Region) -> (out: Vec<u8>)
    requires
        opla.size == room(opla.payload_len as int, 0) && opla.size <= 0xffff_ffff,
        ipis.size == room(ipis.payload_len as int, 0) && ipis.size <= 0xffff_ffff,
        opla.offset == 0xc000,
        ipis.offset == ipis_offset(opla.payload_len as int),
    ensures
        out@ == table(first_item@, opla.payload_len as int, ipis.payload_len as int),
{
    let mut out: Vec<u8> = Vec::new();
    let o: [u8; 4] = [0x4f, 0x50, 0x4c, 0x41];
    let i: [u8; 4] = [0x49, 0x50, 0x49, 0x53];
    let t: [u8; 4] = [0x6c, 0x6c, 0x75, 0x6e];
    assert(o@ =~= fourcc_opla());
    assert(i@ =~= fourcc_ipis());
    assert(t@ =~= fourcc_term());
    put_entry(&mut out, first_item, CINP_MIN_SIZE as u32, PAYLOAD_BASE as u64);
    assert(out@ =~= entry(first_item@, 0x8000, 0x4000));
    put_entry(&mut out, &o, opla.size as u32, opla.offset as u64);
    put_entry(&mut out, &i, ipis.size as u32, ipis.offset as u64);
    put_entry(&mut out, &t, 0, 0);
    out
}

proof fn entry_len(fourcc: Seq<u8>, size: int, offset: int)
    requires
        fourcc.len() == 4,
    ensures
        entry(fourcc, size, offset).len() == 16,
{
    broadcast use group_le;

}

/// Lays out and fills the buffer. Without both manifests in full there is no
/// buffer: a table that lacked one could be registered, and only once.
pub fn build(opla: &[u8], ipis: &[u8], capacity: usize, first_item: &[u8; 4]) -> (r: Result<
    Vec<u8>,
    Errno,
>)
    requires
        opla.len() + ipis.len() + 0x2_0000 <= usize::MAX,
    ensures
        match r {
            Ok(buf) => fits(opla.len() as int, ipis.len() as int, capacity as int) && buf@ == image(
                first_item@,
                opla@,
                ipis@,
                capacity as int,
            ),
            Err(e) => e == Errno::EINVAL && !fits(
                opla.len() as int,
                ipis.len() as int,
                capacity as int,
            ),
        },
{
    broadcast use group_le;

    let cinp = Region::place(PAYLOAD_BASE, 1, CINP_MIN_SIZE);
    assert(cinp.limit() == 0xc000);
    let o = Region::place(cinp.end(), opla.len(), 0);
    let i = Region::place(o.end(), ipis.len(), 0);
    let used: usize = i.end();
    match verify_layout(&cinp, &o, &i, used, capacity) {
        Err(e) => {
            return Err(e);
        },
        Ok(_) => {},
    }
    if o.size as u64 > 0xffff_ffff || i.size as u64 > 0xffff_ffff {
        return Err(Errno::EINVAL);
    }
    let mut buf = zeros(capacity);
    let one: [u8; 1] = [0];
    assert(one@ =~= cinp_payload());
    write_item(&mut buf, cinp.offset, one.as_slice());
    write_item(&mut buf, o.offset, opla);
    write_item(&mut buf, i.offset, ipis);
    assert(buf@ == items_image(opla@, ipis@, capacity as int));
    let t = table_bytes(first_item, &o, &i);
    proof {
        entry_len(first_item@, 0x8000, 0x4000);
        entry_len(fourcc_opla(), o.size as int, 0xc000);
        entry_len(fourcc_ipis(), i.size as int, i.offset as int);
        entry_len(fourcc_term(), 0, 0);
    }
    splice(&mut buf, 0, &t);
    Ok(buf)
}

/// The item that the table's entry `n` leads to.
pub open spec fn item_at(buf: Seq<u8>, n: int) -> Seq<u8> {
    let off = u64_at(buf, 16 * n + 8);
    buf.subrange(off + 4, off + 4 + u32_at(buf, off))
}

/// The name under which entry `n` stands.
pub open spec fn name_at(buf: Seq<u8>, n: int) -> Seq<u8> {
    buf.subrange(16 * n, 16 * n + 4)
}

proof fn u32_at_same(a: Seq<u8>, at: int, b: Seq<u8>, bt: int)
    requires
        0 <= at && at + 4 <= a.len(),
        0 <= bt && bt + 4 <= b.len(),
        forall|k: int| 0 <= k < 4 ==> #[trigger] a[at + k] == b[bt + k],
    ensures
        u32_at(a, at) == u32_at(b, bt),
{
    assert(a[at + 0] == b[bt + 0]);
    assert(a[at + 1] == b[bt + 1]);
    assert(a[at + 2] == b[bt + 2]);
    assert(a[at + 3] == b[bt + 3]);
}

/// An entry that stands at `at` gives back its room and its place.
proof fn entry_reads(buf: Seq<u8>, at: int, fourcc: Seq<u8>, size: int, offset: int)
    requires
        fourcc.len() == 4,
        0 <= size < 0x1_0000_0000,
        0 <= offset < 0x1_0000_0000_0000_0000,
        0 <= at && at + 16 <= buf.len(),
        buf.subrange(at, at + 16) == entry(fourcc, size, offset),
    ensures
        buf.subrange(at, at + 4) == fourcc,
        u32_at(buf, at + 4) == size,
        u64_at(buf, at + 8) == offset,
{
    broadcast use group_le;

    let e = entry(fourcc, size, offset);
    let s = buf.subrange(at, at + 16);
    u64_round_trip(offset);
    u32_round_trip(size);
    assert(e.len() == 16);
    assert(forall|k: int| 0 <= k < 16 ==> #[trigger] buf[at + k] == e[k]) by {
        assert forall|k: int| 0 <= k < 16 implies #[trigger] buf[at + k] == e[k] by {
            assert(s[k] == e[k]);
        }
    }
    assert(buf.subrange(at, at + 4) =~= fourcc) by {
        assert forall|k: int| 0 <= k < 4 implies buf.subrange(at, at + 4)[k] == fourcc[k] by {
            assert(buf[at + k] == e[k]);
        }
    }
    assert forall|k: int| 0 <= k < 4 implies #[trigger] buf[(at + 4) + k] == u32_le(size)[0
        + k] by {
        assert(buf[at + (4 + k)] == e[4 + k]);
    }
    u32_at_same(buf, at + 4, u32_le(size), 0);
    assert forall|k: int| 0 <= k < 4 implies #[trigger] buf[(at + 8) + k] == u64_le(offset)[0
        + k] by {
        assert(buf[at + (8 + k)] == e[8 + k]);
    }
    u32_at_same(buf, at + 8, u64_le(offset), 0);
    assert forall|k: int| 0 <= k < 4 implies #[trigger] buf[(at + 12) + k] == u64_le(offset)[4
        + k] by {
        assert(buf[at + (12 + k)] == e[12 + k]);
    }
    u32_at_same(buf, at + 12, u64_le(offset), 4);
}

/// An item that stands at `off` gives back its payload.
proof fn item_reads(buf: Seq<u8>, off: int, payload: Seq<u8>)
    requires
        payload.len() < 0x1_0000_0000,
        0 <= off && off + 4 + payload.len() <= buf.len(),
        buf.subrange(off, off + 4 + payload.len()) == item(payload),
    ensures
        u32_at(buf, off) == payload.len(),
        buf.subrange(off + 4, off + 4 + payload.len()) == payload,
{
    broadcast use group_le;

    let s = buf.subrange(off, off + 4 + payload.len());
    u32_round_trip(payload.len() as int);
    assert forall|k: int| 0 <= k < 4 implies #[trigger] buf[off + k] == u32_le(
        payload.len() as int,
    )[0 + k] by {
        assert(s.len() == 4 + payload.len());
        assert(s[k] == buf[off + k]);
        assert(s[k] == item(payload)[k]);
        assert(item(payload)[k] == u32_le(payload.len() as int)[k]);
    }
    u32_at_same(buf, off, u32_le(payload.len() as int), 0);
    assert(buf.subrange(off + 4, off + 4 + payload.len()) =~= payload) by {
        assert forall|k: int| 0 <= k < payload.len() implies buf.subrange(
            off + 4,
            off + 4 + payload.len(),
        )[k] == payload[k] by {
            assert(s[4 + k] == buf[off + (4 + k)]);
            assert(s[4 + k] == item(payload)[4 + k]);
            assert(item(payload)[4 + k] == payload[k]);
        }
    }
}

proof fn image_parts(first: Seq<u8>, opla: Seq<u8>, ipis: Seq<u8>, capacity: int)
    requires
        first.len() == 4,
        fits(opla.len() as int, ipis.len() as int, capacity),
    ensures
        ({
            let b = image(first, opla, ipis, capacity);
            let io = ipis_offset(opla.len() as int);
            &&& b.len() == capacity
            &&& b.subrange(0, 16) == entry(first, 0x8000, 0x4000)
            &&& b.subrange(16, 32) == entry(fourcc_opla(), room(opla.len() as int, 0), 0xc000)
            &&& b.subrange(32, 48) == entry(fourcc_ipis(), room(ipis.len() as int, 0), io)
            &&& b.subrange(48, 64) == entry(fourcc_term(), 0, 0)
            &&& b.subrange(0x4000, 0x4005) == item(cinp_payload())
            &&& b.subrange(0xc000, 0xc004int + opla.len()) == item(opla)
            &&& b.subrange(io, io + 4 + ipis.len()) == item(ipis)
        }),
{
    broadcast use group_le;

    let b = image(first, opla, ipis, capacity);
    let io = ipis_offset(opla.len() as int);
    entry_len(first, 0x8000, 0x4000);
    entry_len(fourcc_opla(), room(opla.len() as int, 0), 0xc000);
    entry_len(fourcc_ipis(), room(ipis.len() as int, 0), io);
    entry_len(fourcc_term(), 0, 0);
    assert(table(first, opla.len() as int, ipis.len() as int).len() == 64);
    assert(b.subrange(0, 16) =~= entry(first, 0x8000, 0x4000));
    assert(b.subrange(16, 32) =~= entry(fourcc_opla(), room(opla.len() as int, 0), 0xc000));
    assert(b.subrange(32, 48) =~= entry(fourcc_ipis(), room(ipis.len() as int, 0), io));
    assert(b.subrange(48, 64) =~= entry(fourcc_term(), 0, 0));
    assert(b.subrange(0x4000, 0x4005) =~= item(cinp_payload()));
    assert(b.subrange(0xc000, 0xc004int + opla.len()) =~= item(opla));
    assert(b.subrange(io, io + 4 + ipis.len()) =~= item(ipis));
}

/// A built buffer leads whoever reads the table to each of the three items, in
/// order and whole, and then to the end of the table.
pub proof fn table_leads_to_items(first: Seq<u8>, opla: Seq<u8>, ipis: Seq<u8>, capacity: int)
    requires
        first.len() == 4,
        fits(opla.len() as int, ipis.len() as int, capacity),
        capacity < 0x1_0000_0000_0000_0000,
    ensures
        ({
            let b = image(first, opla, ipis, capacity);
            &&& name_at(b, 0) == first && item_at(b, 0) == cinp_payload()
            &&& name_at(b, 1) == fourcc_opla() && item_at(b, 1) == opla
            &&& name_at(b, 2) == fourcc_ipis() && item_at(b, 2) == ipis
            &&& name_at(b, 3) == fourcc_term() && u64_at(b, 56) == 0
        }),
{
    let b = image(first, opla, ipis, capacity);
    let io = ipis_offset(opla.len() as int);
    image_parts(first, opla, ipis, capacity);
    entry_reads(b, 0, first, 0x8000, 0x4000);
    entry_reads(b, 16, fourcc_opla(), room(opla.len() as int, 0), 0xc000);
    entry_reads(b, 32, fourcc_ipis(), room(ipis.len() as int, 0), io);
    entry_reads(b, 48, fourcc_term(), 0, 0);
    item_reads(b, 0x4000, cinp_payload());
    item_reads(b, 0xc000, opla);
    item_reads(b, io, ipis);
}

/// The three regions of a built buffer follow each other without overlap, each
/// holds its item, and the last ends within the buffer.
pub proof fn regions_tile(opla_len: int, ipis_len: int, capacity: int)
    requires
        0 <= opla_len && 0 <= ipis_len,
        fits(opla_len, ipis_len, capacity),
    ensures
        0x4000 + 0x8000 == 0xc000,
        0xc000 + opla_len + 4 <= ipis_offset(opla_len),
        ipis_offset(opla_len) + ipis_len + 4 <= used_len(opla_len, ipis_len) <= capacity,
        ipis_offset(opla_len) % 0x4000 == 0,
        used_len(opla_len, ipis_len) % 0x4000 == 0,
{
}

/// The room of an item is the least multiple of 0x4000 bytes that its length word and its
/// payload fit, or what it has to have at the least.
pub proof fn room_is_the_least(payload_len: int, min_size: int)
    requires
        0 <= payload_len,
        0 <= min_size,
    ensures
        room(payload_len, 0) % 0x4000 == 0,
        payload_len + 4 <= room(payload_len, 0) < payload_len + 4 + 0x4000,
        room(payload_len, min_size) >= min_size,
        room(payload_len, min_size) >= room(payload_len, 0),
        room(payload_len, min_size) == min_size || room(payload_len, min_size) == room(
            payload_len,
            0,
        ),
{
}

/// Where everything stands in a built buffer: the first item's entry with 0x8000 bytes at
/// 0x4000, `OPLA` from 0xc000 on, `IPIS` behind its room, and `llun` with neither size nor
/// place. The first item is a single zero.
pub proof fn image_is_laid_out(first: Seq<u8>, opla: Seq<u8>, ipis: Seq<u8>, capacity: int)
    requires
        first.len() == 4,
        fits(opla.len() as int, ipis.len() as int, capacity),
        capacity < 0x1_0000_0000_0000_0000,
    ensures
        ({
            let b = image(first, opla, ipis, capacity);
            let at = 0xc000 + room(opla.len() as int, 0);
            &&& b.len() == capacity
            &&& b.subrange(0, 4) == first
            &&& u32_at(b, 4) == 0x8000
            &&& u64_at(b, 8) == 0x4000
            &&& b.subrange(16, 20) == seq![0x4fu8, 0x50, 0x4c, 0x41]
            &&& u32_at(b, 20) == room(opla.len() as int, 0)
            &&& u64_at(b, 24) == 0xc000
            &&& b.subrange(32, 36) == seq![0x49u8, 0x50, 0x49, 0x53]
            &&& u32_at(b, 36) == room(ipis.len() as int, 0)
            &&& u64_at(b, 40) == at
            &&& b.subrange(48, 52) == seq![0x6cu8, 0x6c, 0x75, 0x6e]
            &&& u32_at(b, 52) == 0
            &&& u64_at(b, 56) == 0
            &&& u32_at(b, 0x4000) == 1
            &&& b[0x4004] == 0
            &&& u32_at(b, 0xc000) == opla.len()
            &&& b.subrange(0xc004, 0xc004int + opla.len()) == opla
            &&& u32_at(b, at) == ipis.len()
            &&& b.subrange(at + 4, at + 4 + ipis.len()) == ipis
        }),
{
    image_parts(first, opla, ipis, capacity);
    let b = image(first, opla, ipis, capacity);
    let at = ipis_offset(opla.len() as int);
    entry_reads(b, 0, first, 0x8000, 0x4000);
    entry_reads(b, 16, fourcc_opla(), room(opla.len() as int, 0), 0xc000);
    entry_reads(b, 32, fourcc_ipis(), room(ipis.len() as int, 0), at);
    entry_reads(b, 48, fourcc_term(), 0, 0);
    item_reads(b, 0x4000, cinp_payload());
    item_reads(b, 0xc000, opla);
    item_reads(b, at, ipis);
    assert(b[0x4004] == b.subrange(0x4004, 0x4005)[0]);
}

/// With manifests that a region of the smallest size holds, the buffer takes 0x14000 bytes,
/// and one byte less is too little.
pub proof fn least_capacity(opla_len: int, ipis_len: int, capacity: int)
    requires
        0 < opla_len <= 0x3ffc,
        0 < ipis_len <= 0x3ffc,
    ensures
        fits(opla_len, ipis_len, capacity) <==> capacity >= 0x1_4000,
{
}

/// What is wrong with a layout: a region that is not aligned, reaches past the buffer,
/// into the table or is too small for its payload; a gap; or a first region below 0x8000
/// bytes. The layout that a built buffer has is in order.
pub proof fn layouts_are_judged(cinp: Region, opla: Region, ipis: Region, used: int, capacity: int)
    ensures
        cinp.offset != 0x4000 ==> layout_fault(cinp, opla, ipis, used, capacity) is Some,
        opla.offset != cinp.offset + cinp.size ==> layout_fault(cinp, opla, ipis, used, capacity)
            == Some(Errno::EINVAL),
        ipis.offset != opla.offset + opla.size ==> layout_fault(cinp, opla, ipis, used, capacity)
            == Some(Errno::EINVAL),
        used != ipis.offset + ipis.size ==> layout_fault(cinp, opla, ipis, used, capacity) == Some(
            Errno::EINVAL,
        ),
        cinp.size < 0x8000 ==> layout_fault(cinp, opla, ipis, used, capacity) == Some(
            Errno::EINVAL,
        ),
        opla.size % 0x4000 != 0 ==> layout_fault(cinp, opla, ipis, used, capacity) == Some(
            Errno::EINVAL,
        ),
        ipis.size < ipis.payload_len + 4 ==> layout_fault(cinp, opla, ipis, used, capacity) == Some(
            Errno::EINVAL,
        ),
        ipis.offset + ipis.size > capacity ==> layout_fault(cinp, opla, ipis, used, capacity)
            is Some,
        layout_fault(
            Region { offset: 0x4000, size: 0x8000, payload_len: 1 },
            Region { offset: 0xc000, size: 0x4000, payload_len: 0x3ffc },
            Region { offset: 0x1_0000, size: 0x4000, payload_len: 5 },
            0x1_4000,
            0x1_4000,
        ) is None,
{
}

/// A device without a description has no manifest, and an empty manifest is none.
pub proof fn manifests_are_judged(count: Result<usize, Errno>, e: Errno, n: usize)
    requires
        n > 0,
    ensures
        manifest_of(false, count) == Err::<usize, Errno>(Errno::EIO),
        manifest_of(true, Err(e)) == Err::<usize, Errno>(e),
        manifest_of(true, Ok(0)) == Err::<usize, Errno>(Errno::ENODATA),
        manifest_of(true, Ok(n)) == Ok::<usize, Errno>(n),
{
}

} // verus!
