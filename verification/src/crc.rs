//! The cyclic redundancy checks of the record formats.

use vstd::prelude::*;

verus! {

/// One bit of a reflected 32-bit check with the IEEE polynomial.
pub open spec fn crc32_bit(c: u32) -> u32 {
    if c & 1 != 0 {
        (c >> 1) ^ 0xedb8_8320
    } else {
        c >> 1
    }
}

pub open spec fn crc32_bits(c: u32, n: nat) -> u32
    decreases n,
{
    if n == 0 {
        c
    } else {
        crc32_bit(crc32_bits(c, (n - 1) as nat))
    }
}

/// The register after `data`, before it is inverted.
pub open spec fn crc32_register(data: Seq<u8>) -> u32
    decreases data.len(),
{
    if data.len() == 0 {
        0xffff_ffff
    } else {
        crc32_bits(crc32_register(data.drop_last()) ^ (data.last() as u32), 8)
    }
}

/// CRC-32/ISO-HDLC of a byte string.
pub open spec fn crc32(data: Seq<u8>) -> u32 {
    crc32_register(data) ^ 0xffff_ffff
}

/// One bit of a 16-bit check, most significant bit first, with the CCITT
/// polynomial.
pub open spec fn ccitt_bit(c: u16) -> u16 {
    if c & 0x8000 != 0 {
        (c << 1) ^ 0x1021
    } else {
        c << 1
    }
}

pub open spec fn ccitt_bits(c: u16, n: nat) -> u16
    decreases n,
{
    if n == 0 {
        c
    } else {
        ccitt_bit(ccitt_bits(c, (n - 1) as nat))
    }
}

/// CRC-16/CCITT-FALSE of a byte string.
pub open spec fn crc16_ccitt(data: Seq<u8>) -> u16
    decreases data.len(),
{
    if data.len() == 0 {
        0xffff
    } else {
        ccitt_bits(crc16_ccitt(data.drop_last()) ^ ((data.last() as u16) << 8), 8)
    }
}

/// One bit of a reflected 16-bit check with the ANSI polynomial.
pub open spec fn ansi_bit(c: u16) -> u16 {
    if c & 1 != 0 {
        (c >> 1) ^ 0xA001
    } else {
        c >> 1
    }
}

pub open spec fn ansi_bits(c: u16, n: nat) -> u16
    decreases n,
{
    if n == 0 {
        c
    } else {
        ansi_bit(ansi_bits(c, (n - 1) as nat))
    }
}

/// CRC-16/ARC of a byte string.
pub open spec fn crc16_arc(data: Seq<u8>) -> u16
    decreases data.len(),
{
    if data.len() == 0 {
        0
    } else {
        ansi_bits(crc16_arc(data.drop_last()) ^ (data.last() as u16), 8)
    }
}

/// Computes CRC-32/ISO-HDLC, the check of gigalocker records.
pub fn crc32_ieee(data: &[u8]) -> (r: u32)
    ensures
        r == crc32(data@),
{
    let mut crc: u32 = 0xffff_ffff;
    let mut i: usize = 0;
    assert(data@.subrange(0, 0).len() == 0);
    while i < data.len()
        invariant
            i <= data.len(),
            crc == crc32_register(data@.subrange(0, i as int)),
        decreases data.len() - i,
    {
        let ghost seen = data@.subrange(0, i + 1);
        assert(seen.drop_last() =~= data@.subrange(0, i as int));
        crc = crc ^ (data[i] as u32);
        let ghost start = crc;
        let mut bit: u32 = 0;
        while bit < 8
            invariant
                bit <= 8,
                crc == crc32_bits(start, bit as nat),
            decreases 8 - bit,
        {
            crc = if crc & 1 != 0 {
                (crc >> 1) ^ 0xedb8_8320
            } else {
                crc >> 1
            };
            bit = bit + 1;
        }
        i = i + 1;
    }
    assert(data@.subrange(0, i as int) =~= data@);
    crc ^ 0xffff_ffff
}

/// Computes CRC-16/CCITT-FALSE.
pub fn crc16_ccitt_false(data: &[u8]) -> (r: u16)
    ensures
        r == crc16_ccitt(data@),
{
    let mut crc: u16 = 0xffff;
    let mut i: usize = 0;
    assert(data@.subrange(0, 0).len() == 0);
    while i < data.len()
        invariant
            i <= data.len(),
            crc == crc16_ccitt(data@.subrange(0, i as int)),
        decreases data.len() - i,
    {
        let ghost seen = data@.subrange(0, i + 1);
        assert(seen.drop_last() =~= data@.subrange(0, i as int));
        crc = crc ^ ((data[i] as u16) << 8);
        let ghost start = crc;
        let mut bit: u32 = 0;
        while bit < 8
            invariant
                bit <= 8,
                crc == ccitt_bits(start, bit as nat),
            decreases 8 - bit,
        {
            crc = if crc & 0x8000 != 0 {
                (crc << 1) ^ 0x1021
            } else {
                crc << 1
            };
            bit = bit + 1;
        }
        i = i + 1;
    }
    assert(data@.subrange(0, i as int) =~= data@);
    crc
}

/// Computes CRC-16/ARC, the check of sensor frames.
pub fn crc16_ansi(data: &[u8]) -> (r: u16)
    ensures
        r == crc16_arc(data@),
{
    let mut crc: u16 = 0;
    let mut i: usize = 0;
    assert(data@.subrange(0, 0).len() == 0);
    while i < data.len()
        invariant
            i <= data.len(),
            crc == crc16_arc(data@.subrange(0, i as int)),
        decreases data.len() - i,
    {
        let ghost seen = data@.subrange(0, i + 1);
        assert(seen.drop_last() =~= data@.subrange(0, i as int));
        crc = crc ^ (data[i] as u16);
        let ghost start = crc;
        let mut bit: u32 = 0;
        while bit < 8
            invariant
                bit <= 8,
                crc == ansi_bits(start, bit as nat),
            decreases 8 - bit,
        {
            crc = if crc & 1 != 0 {
                (crc >> 1) ^ 0xA001
            } else {
                crc >> 1
            };
            bit = bit + 1;
        }
        i = i + 1;
    }
    assert(data@.subrange(0, i as int) =~= data@);
    crc
}

/// Four bits at once.
spec fn four_of_crc32(c: u32) -> u32 {
    crc32_bit(crc32_bit(crc32_bit(crc32_bit(c))))
}

/// A mixture comes to the mixture of what its parts come to.
proof fn crc32_mixes(c: u32, d: u32, n: nat)
    ensures
        crc32_bits(c ^ d, n) == crc32_bits(c, n) ^ crc32_bits(d, n),
    decreases n,
{
    if n > 0 {
        crc32_mixes(c, d, (n - 1) as nat);
        let x = crc32_bits(c, (n - 1) as nat);
        let y = crc32_bits(d, (n - 1) as nat);
        assert(crc32_bit(x ^ y) == crc32_bit(x) ^ crc32_bit(y)) by (bit_vector);
    }
}

/// Eight bits of the reflected 32-bit check.
proof fn crc32_eight(c: u32, d: u32)
    ensures
        crc32_bits(c, 8) == (c >> 8) ^ crc32_bits(c & 0xff, 8),
        crc32_bits(c ^ d, 8) == crc32_bits(c, 8) ^ crc32_bits(d, 8),
        crc32_bits(0x01, 8) == 0x7707_3096,
        crc32_bits(0x02, 8) == 0xee0e_612c,
        crc32_bits(0x04, 8) == 0x076d_c419,
        crc32_bits(0x08, 8) == 0x0edb_8832,
        crc32_bits(0x10, 8) == 0x1db7_1064,
        crc32_bits(0x20, 8) == 0x3b6e_20c8,
        crc32_bits(0x40, 8) == 0x76dc_4190,
        crc32_bits(0x80, 8) == 0xedb8_8320,
{
    reveal_with_fuel(crc32_bits, 9);
    assert(four_of_crc32(four_of_crc32(c)) == (c >> 8) ^ four_of_crc32(four_of_crc32(c & 0xff)))
        by (bit_vector);
    crc32_mixes(c, d, 8);
    assert(four_of_crc32(four_of_crc32(0x01u32)) == 0x7707_3096
        && four_of_crc32(four_of_crc32(0x02u32)) == 0xee0e_612c
        && four_of_crc32(four_of_crc32(0x04u32)) == 0x076d_c419
        && four_of_crc32(four_of_crc32(0x08u32)) == 0x0edb_8832
        && four_of_crc32(four_of_crc32(0x10u32)) == 0x1db7_1064
        && four_of_crc32(four_of_crc32(0x20u32)) == 0x3b6e_20c8
        && four_of_crc32(four_of_crc32(0x40u32)) == 0x76dc_4190
        && four_of_crc32(four_of_crc32(0x80u32)) == 0xedb8_8320) by (bit_vector);
}

/// The 32-bit check goes byte by byte: the low byte of the register after the bytes so far
/// and the next byte pick what is mixed into the other bytes, which move down. What a byte
/// picks is the mixture of what its bits pick. The check is the register with all its bits
/// turned.
pub proof fn crc32_goes_byte_by_byte(data: Seq<u8>, b: u8, x: u32, y: u32)
    ensures
        crc32(Seq::empty()) == 0,
        crc32(data) == !crc32_register(data),
        ({
            let c = crc32_register(data) ^ (b as u32);
            crc32_register(data.push(b)) == (c >> 8) ^ crc32_bits(c & 0xff, 8)
        }),
        crc32_bits(x ^ y, 8) == crc32_bits(x, 8) ^ crc32_bits(y, 8),
        crc32_bits(0x01, 8) == 0x7707_3096,
        crc32_bits(0x02, 8) == 0xee0e_612c,
        crc32_bits(0x04, 8) == 0x076d_c419,
        crc32_bits(0x08, 8) == 0x0edb_8832,
        crc32_bits(0x10, 8) == 0x1db7_1064,
        crc32_bits(0x20, 8) == 0x3b6e_20c8,
        crc32_bits(0x40, 8) == 0x76dc_4190,
        crc32_bits(0x80, 8) == 0xedb8_8320,
{
    assert(data.push(b).drop_last() =~= data);
    crc32_eight(crc32_register(data) ^ (b as u32), 0);
    crc32_eight(x, y);
    let c = crc32_register(data);
    assert(0xffff_ffffu32 ^ 0xffff_ffff == 0) by (bit_vector);
    assert(c ^ 0xffff_ffff == !c) by (bit_vector);
}

/// Four bits at once.
spec fn four_of_ccitt(c: u16) -> u16 {
    ccitt_bit(ccitt_bit(ccitt_bit(ccitt_bit(c))))
}

/// A mixture comes to the mixture of what its parts come to.
proof fn ccitt_mixes(c: u16, d: u16, n: nat)
    ensures
        ccitt_bits(c ^ d, n) == ccitt_bits(c, n) ^ ccitt_bits(d, n),
    decreases n,
{
    if n > 0 {
        ccitt_mixes(c, d, (n - 1) as nat);
        let x = ccitt_bits(c, (n - 1) as nat);
        let y = ccitt_bits(d, (n - 1) as nat);
        assert(ccitt_bit(x ^ y) == ccitt_bit(x) ^ ccitt_bit(y)) by (bit_vector);
    }
}

/// Eight bits of the check that takes the most significant bit first.
proof fn ccitt_eight(c: u16, d: u16)
    ensures
        ccitt_bits(c, 8) == (c << 8) ^ ccitt_bits(c & 0xff00, 8),
        ccitt_bits(c ^ d, 8) == ccitt_bits(c, 8) ^ ccitt_bits(d, 8),
        ccitt_bits(0x0100, 8) == 0x1021,
        ccitt_bits(0x0200, 8) == 0x2042,
        ccitt_bits(0x0400, 8) == 0x4084,
        ccitt_bits(0x0800, 8) == 0x8108,
        ccitt_bits(0x1000, 8) == 0x1231,
        ccitt_bits(0x2000, 8) == 0x2462,
        ccitt_bits(0x4000, 8) == 0x48c4,
        ccitt_bits(0x8000, 8) == 0x9188,
{
    reveal_with_fuel(ccitt_bits, 9);
    assert(four_of_ccitt(four_of_ccitt(c)) == (c << 8) ^ four_of_ccitt(four_of_ccitt(c & 0xff00)))
        by (bit_vector);
    ccitt_mixes(c, d, 8);
    assert(four_of_ccitt(four_of_ccitt(0x0100u16)) == 0x1021
        && four_of_ccitt(four_of_ccitt(0x0200u16)) == 0x2042
        && four_of_ccitt(four_of_ccitt(0x0400u16)) == 0x4084
        && four_of_ccitt(four_of_ccitt(0x0800u16)) == 0x8108
        && four_of_ccitt(four_of_ccitt(0x1000u16)) == 0x1231
        && four_of_ccitt(four_of_ccitt(0x2000u16)) == 0x2462
        && four_of_ccitt(four_of_ccitt(0x4000u16)) == 0x48c4
        && four_of_ccitt(four_of_ccitt(0x8000u16)) == 0x9188) by (bit_vector);
}

/// The check that takes the most significant bit first goes byte by byte from 0xffff on:
/// the high byte and the next byte pick what is mixed into the low byte, which moves up.
/// What a byte picks is the mixture of what its bits pick.
pub proof fn ccitt_goes_byte_by_byte(data: Seq<u8>, b: u8, x: u16, y: u16)
    ensures
        crc16_ccitt(Seq::empty()) == 0xffff,
        ({
            let c = crc16_ccitt(data) ^ ((b as u16) << 8);
            crc16_ccitt(data.push(b)) == (c << 8) ^ ccitt_bits(c & 0xff00, 8)
        }),
        ccitt_bits(x ^ y, 8) == ccitt_bits(x, 8) ^ ccitt_bits(y, 8),
        ccitt_bits(0x0100, 8) == 0x1021,
        ccitt_bits(0x0200, 8) == 0x2042,
        ccitt_bits(0x0400, 8) == 0x4084,
        ccitt_bits(0x0800, 8) == 0x8108,
        ccitt_bits(0x1000, 8) == 0x1231,
        ccitt_bits(0x2000, 8) == 0x2462,
        ccitt_bits(0x4000, 8) == 0x48c4,
        ccitt_bits(0x8000, 8) == 0x9188,
{
    assert(data.push(b).drop_last() =~= data);
    ccitt_eight(crc16_ccitt(data) ^ ((b as u16) << 8), 0);
    ccitt_eight(x, y);
}

/// Four bits at once.
spec fn four_of_arc(c: u16) -> u16 {
    ansi_bit(ansi_bit(ansi_bit(ansi_bit(c))))
}

/// A mixture comes to the mixture of what its parts come to.
proof fn arc_mixes(c: u16, d: u16, n: nat)
    ensures
        ansi_bits(c ^ d, n) == ansi_bits(c, n) ^ ansi_bits(d, n),
    decreases n,
{
    if n > 0 {
        arc_mixes(c, d, (n - 1) as nat);
        let x = ansi_bits(c, (n - 1) as nat);
        let y = ansi_bits(d, (n - 1) as nat);
        assert(ansi_bit(x ^ y) == ansi_bit(x) ^ ansi_bit(y)) by (bit_vector);
    }
}

/// Eight bits of the reflected 16-bit check.
proof fn arc_eight(c: u16, d: u16)
    ensures
        ansi_bits(c, 8) == (c >> 8) ^ ansi_bits(c & 0xff, 8),
        ansi_bits(c ^ d, 8) == ansi_bits(c, 8) ^ ansi_bits(d, 8),
        ansi_bits(0x01, 8) == 0xc0c1,
        ansi_bits(0x02, 8) == 0xc181,
        ansi_bits(0x04, 8) == 0xc301,
        ansi_bits(0x08, 8) == 0xc601,
        ansi_bits(0x10, 8) == 0xcc01,
        ansi_bits(0x20, 8) == 0xd801,
        ansi_bits(0x40, 8) == 0xf001,
        ansi_bits(0x80, 8) == 0xa001,
{
    reveal_with_fuel(ansi_bits, 9);
    assert(four_of_arc(four_of_arc(c)) == (c >> 8) ^ four_of_arc(four_of_arc(c & 0xff)))
        by (bit_vector);
    arc_mixes(c, d, 8);
    assert(four_of_arc(four_of_arc(0x01u16)) == 0xc0c1
        && four_of_arc(four_of_arc(0x02u16)) == 0xc181
        && four_of_arc(four_of_arc(0x04u16)) == 0xc301
        && four_of_arc(four_of_arc(0x08u16)) == 0xc601
        && four_of_arc(four_of_arc(0x10u16)) == 0xcc01
        && four_of_arc(four_of_arc(0x20u16)) == 0xd801
        && four_of_arc(four_of_arc(0x40u16)) == 0xf001
        && four_of_arc(four_of_arc(0x80u16)) == 0xa001) by (bit_vector);
}

/// The check of sensor frames goes byte by byte from 0 on: the low byte and the next byte
/// pick what is mixed into the high byte, which moves down. What a byte picks is the
/// mixture of what its bits pick.
pub proof fn arc_goes_byte_by_byte(data: Seq<u8>, b: u8, x: u16, y: u16)
    ensures
        crc16_arc(Seq::empty()) == 0,
        ({
            let c = crc16_arc(data) ^ (b as u16);
            crc16_arc(data.push(b)) == (c >> 8) ^ ansi_bits(c & 0xff, 8)
        }),
        ansi_bits(x ^ y, 8) == ansi_bits(x, 8) ^ ansi_bits(y, 8),
        ansi_bits(0x01, 8) == 0xc0c1,
        ansi_bits(0x02, 8) == 0xc181,
        ansi_bits(0x04, 8) == 0xc301,
        ansi_bits(0x08, 8) == 0xc601,
        ansi_bits(0x10, 8) == 0xcc01,
        ansi_bits(0x20, 8) == 0xd801,
        ansi_bits(0x40, 8) == 0xf001,
        ansi_bits(0x80, 8) == 0xa001,
{
    assert(data.push(b).drop_last() =~= data);
    arc_eight(crc16_arc(data) ^ (b as u16), 0);
    arc_eight(x, y);
}

} // verus!
