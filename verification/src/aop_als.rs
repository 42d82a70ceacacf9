//! The ambient light sensor: which one it is, how it is set up, and the light in
//! its reports.

use vstd::prelude::*;

use crate::aop_sensors::MessageProcessor;
use crate::bytes::{
    group_le, put_bytes, put_u32, put_zeros, read_u32, same, small_u32_le, u32_at, u32_le,
    u32_reads_back, zeroed,
};
use crate::errno::Errno;

verus! {

pub const EPIC_SUBTYPE_GET_AOP_PROPERTY: u16 = 0xa;

pub const EPIC_SUBTYPE_SET_ALS_PROPERTY: u16 = 0x4;

pub const LUX_OFFSET_CT720: usize = 0x1d;

pub const LUX_OFFSET_VD6286: usize = 0x28;

/// The property that holds the sensor's name, and how long it may be.
pub const PROPERTY_NAME: u32 = 0xf;

pub const NAME_LEN: u32 = 16;

/// The property that the calibration goes into, and the one that holds the time
/// between two reports in microseconds.
pub const PROPERTY_CALIBRATION: u32 = 0xb;

pub const PROPERTY_INTERVAL: u32 = 0;

pub const INTERVAL_US: u32 = 200_000;

/// Where the light stands in a report of a sensor, by the sensor's name:
/// `Redbird` or `FireFish2`, each with the zero that ends it.
pub open spec fn lux_offset_of(name: Seq<u8>) -> Option<usize> {
    if name == seq![0x52u8, 0x65, 0x64, 0x62, 0x69, 0x72, 0x64, 0] {
        Some(LUX_OFFSET_VD6286)
    } else if name == seq![0x46u8, 0x69, 0x72, 0x65, 0x46, 0x69, 0x73, 0x68, 0x32, 0] {
        Some(LUX_OFFSET_CT720)
    } else {
        None
    }
}

/// Finds out where the light stands in a report. A sensor that is not known is
/// refused.
pub fn get_lux_offset(name: &[u8]) -> (r: Result<usize, Errno>)
    ensures
        match r {
            Ok(off) => lux_offset_of(name@) == Some(off),
            Err(e) => lux_offset_of(name@) is None && e == Errno::EIO,
        },
{
    let a: [u8; 8] = [0x52, 0x65, 0x64, 0x62, 0x69, 0x72, 0x64, 0];
    let b: [u8; 10] = [0x46, 0x69, 0x72, 0x65, 0x46, 0x69, 0x73, 0x68, 0x32, 0];
    assert(a@ =~= seq![0x52u8, 0x65, 0x64, 0x62, 0x69, 0x72, 0x64, 0]);
    assert(b@ =~= seq![0x46u8, 0x69, 0x72, 0x65, 0x46, 0x69, 0x73, 0x68, 0x32, 0]);
    if same(name, a.as_slice()) {
        return Ok(LUX_OFFSET_VD6286);
    }
    if same(name, b.as_slice()) {
        return Ok(LUX_OFFSET_CT720);
    }
    Err(Errno::EIO)
}

/// The message that reads the property of a tag.
pub open spec fn property_message(tag: u32) -> Seq<u8> {
    zeroed(4) + u32_le(tag as int)
}

/// The message that sets the property of a tag.
pub open spec fn setting_message(tag: u32, data: Seq<u8>) -> Seq<u8> {
    zeroed(4) + u32_le(tag as int) + data
}

/// The message that reads a property.
pub fn get_aop_property(tag: u32) -> (m: Vec<u8>)
    ensures
        m@ == property_message(tag),
{
    let mut m: Vec<u8> = Vec::new();
    put_zeros(&mut m, 4);
    assert(m@ =~= zeroed(4));
    put_u32(&mut m, tag);
    m
}

/// The message that sets a property.
pub fn set_als_property(tag: u32, data: &[u8]) -> (m: Vec<u8>)
    ensures
        m@ == setting_message(tag, data@),
{
    let mut m = get_aop_property(tag);
    put_bytes(&mut m, data);
    m
}

/// The message that asks for the sensor's name.
pub open spec fn name_message() -> Seq<u8> {
    zeroed(4) + u32_le(0xf)
}

/// The message that hands the calibration over.
pub open spec fn calibration_message(data: Seq<u8>) -> Seq<u8> {
    zeroed(4) + u32_le(0xb) + data
}

/// The message that sets the time between two reports.
pub open spec fn interval_message() -> Seq<u8> {
    zeroed(4) + u32_le(0) + u32_le(200_000)
}

/// The message that asks for the sensor's name.
pub fn get_name() -> (m: Vec<u8>)
    ensures
        m@ == name_message(),
{
    get_aop_property(PROPERTY_NAME)
}

/// The message that hands the calibration file's bytes over.
pub fn set_calibration(data: &[u8]) -> (m: Vec<u8>)
    ensures
        m@ == calibration_message(data@),
{
    set_als_property(PROPERTY_CALIBRATION, data)
}

/// The message that sets the time between two reports.
pub fn set_interval() -> (m: Vec<u8>)
    ensures
        m@ == interval_message(),
{
    let mut m = get_aop_property(PROPERTY_INTERVAL);
    put_u32(&mut m, INTERVAL_US);
    m
}

// ---------------------------------------------------------------------------
// The light in a report.
// ---------------------------------------------------------------------------
/// The fraction of a binary 32-bit number, with its leading one.
pub open spec fn fraction(f: u32) -> int {
    f % 0x80_0000 + 0x80_0000
}

/// The power of two that the fraction is multiplied with.
pub open spec fn exponent(f: u32) -> int {
    f / 0x80_0000 % 0x100 - 150
}

/// The light that the bits of a binary 32-bit number stand for, in millionths
/// and rounded down. What is negative or tiny is none, what is no number carries
/// no reading, and what is too large for 64 bits is as large as they can hold.
pub open spec fn micro_of(f: u32) -> Option<u64> {
    if f / 0x80_0000 % 0x100 == 0xff {
        None
    } else if f >= 0x8000_0000 || f / 0x80_0000 % 0x100 == 0 {
        Some(0)
    } else if exponent(f) >= 20 {
        Some(u64::MAX)
    } else if exponent(f) >= 0 {
        Some(
            (fraction(f) * 1_000_000 * vstd::arithmetic::power2::pow2(
                exponent(f) as nat,
            )) as u64,
        )
    } else {
        Some(
            (fraction(f) * 1_000_000 / vstd::arithmetic::power2::pow2(
                (-exponent(f)) as nat,
            ) as int) as u64,
        )
    }
}

/// A power of two up to the 19th is no more than the 19th.
proof fn small_powers(e: nat)
    requires
        e <= 19,
    ensures
        1 <= vstd::arithmetic::power2::pow2(e) <= 0x8_0000,
{
    vstd::arithmetic::power2::lemma2_to64();
    if e < 19 {
        vstd::arithmetic::power2::lemma_pow2_strictly_increases(e, 19);
    }
    vstd::arithmetic::power2::lemma_pow2_pos(e);
}

/// A power of two from the 64th on is larger than any fraction in millionths.
proof fn large_powers(e: nat)
    requires
        e >= 64,
    ensures
        vstd::arithmetic::power2::pow2(e) >= 0x1_0000_0000_0000_0000,
{
    vstd::arithmetic::power2::lemma2_to64();
    if e > 64 {
        vstd::arithmetic::power2::lemma_pow2_strictly_increases(64, e);
    }
}

/// Converts the bits of a binary 32-bit number to millionths.
pub fn f32_to_micro(f: u32) -> (r: Option<u64>)
    ensures
        r == micro_of(f),
{
    let exp: u32 = f / 0x80_0000 % 0x100;
    if exp == 0xff {
        return None;
    }
    if f >= 0x8000_0000 || exp == 0 {
        return Some(0);
    }
    let mant: u64 = (f % 0x80_0000 + 0x80_0000) as u64 * 1_000_000;
    assert(mant == fraction(f) * 1_000_000);
    if exp >= 170 {
        return Some(u64::MAX);
    }
    if exp >= 150 {
        let shift: u64 = (exp - 150) as u64;
        proof {
            small_powers(shift as nat);
            let p = vstd::arithmetic::power2::pow2(shift as nat);
            assert(mant * p <= 0xfff_ffff_ffff * 0x8_0000) by (nonlinear_arith)
                requires
                    0 <= mant <= 0xfff_ffff_ffff,
                    0 <= p <= 0x8_0000,
            ;
            vstd::bits::lemma_u64_shl_is_mul(mant, shift);
        }
        return Some(mant << shift);
    }
    let shift: u64 = (150 - exp) as u64;
    if shift >= 64 {
        proof {
            large_powers(shift as nat);
            let p = vstd::arithmetic::power2::pow2(shift as nat) as int;
            vstd::arithmetic::div_mod::lemma_basic_div(mant as int, p);
        }
        return Some(0);
    }
    proof {
        vstd::bits::lemma_u64_shr_is_div(mant, shift);
    }
    Some(mant >> shift)
}

/// Finds the light in a report, at the place where it stands for the sensor.
pub struct MsgProc(pub usize);

impl MessageProcessor for MsgProc {
    open spec fn reading(&self, message: Seq<u8>) -> Option<u64> {
        if self.0 + 4 <= message.len() {
            micro_of(u32_at(message, self.0 as int) as u32)
        } else {
            None
        }
    }

    fn process(&self, message: &[u8]) -> (r: Option<u64>) {
        if message.len() < 4 || self.0 > message.len() - 4 {
            return None;
        }
        f32_to_micro(read_u32(message, self.0))
    }
}

// ---------------------------------------------------------------------------
// Laws.
// ---------------------------------------------------------------------------
/// The conversion of a number that has room for a fraction rounds down: the
/// number lies less than one millionth above what is made of it.
pub proof fn conversion_rounds_down(f: u32)
    requires
        f < 0x8000_0000,
        0 < f / 0x80_0000 % 0x100 < 150,
    ensures
        ({
            let p = vstd::arithmetic::power2::pow2((-exponent(f)) as nat) as int;
            let m = micro_of(f)->0 as int;
            &&& micro_of(f) is Some
            &&& m * p <= fraction(f) * 1_000_000 < (m + 1) * p
        }),
{
    let x = fraction(f) * 1_000_000;
    let p = vstd::arithmetic::power2::pow2((-exponent(f)) as nat) as int;
    vstd::arithmetic::power2::lemma_pow2_pos((-exponent(f)) as nat);
    vstd::arithmetic::div_mod::lemma_fundamental_div_mod(x, p);
    vstd::arithmetic::div_mod::lemma_mod_bound(x, p);
    vstd::arithmetic::div_mod::lemma_div_pos_is_pos(x, p);
    let q = x / p;
    assert(q <= x) by (nonlinear_arith)
        requires
            q == x / p,
            p >= 1,
            x >= 0,
    ;
    assert(q * p <= x < (q + 1) * p) by (nonlinear_arith)
        requires
            x == p * q + x % p,
            0 <= x % p < p,
    ;
}

/// Two sensors are known, by their names with the zero behind: in a report of `Redbird`
/// the light stands at 0x28, in one of `FireFish2` at 0x1d.
pub proof fn sensors_are_known_by_name(name: Seq<u8>)
    ensures
        lux_offset_of(seq![0x52u8, 0x65, 0x64, 0x62, 0x69, 0x72, 0x64, 0]) == Some(0x28usize),
        lux_offset_of(seq![0x46u8, 0x69, 0x72, 0x65, 0x46, 0x69, 0x73, 0x68, 0x32, 0]) == Some(
            0x1dusize,
        ),
        name.len() != 8 && name.len() != 10 ==> lux_offset_of(name) is None,
        name.len() == 8 && name.last() != 0 ==> lux_offset_of(name) is None,
        name.len() == 10 && name.last() != 0 ==> lux_offset_of(name) is None,
{
    let red = seq![0x52u8, 0x65, 0x64, 0x62, 0x69, 0x72, 0x64, 0];
    let fire = seq![0x46u8, 0x69, 0x72, 0x65, 0x46, 0x69, 0x73, 0x68, 0x32, 0];
    assert(red.len() == 8 && red.last() == 0);
    assert(fire.len() == 10 && fire.last() == 0);
}

/// In the message for a property four zeros stand in front, then its tag, and then what
/// it is set to.
pub proof fn property_messages_are_laid_out(tag: u32, data: Seq<u8>)
    ensures
        property_message(tag).len() == 8,
        property_message(tag).subrange(0, 4) == seq![0u8, 0, 0, 0],
        u32_at(property_message(tag), 4) == tag,
        setting_message(tag, data).len() == 8 + data.len(),
        setting_message(tag, data).subrange(0, 8) == property_message(tag),
        setting_message(tag, data).subrange(8, 8 + data.len() as int) == data,
{
    broadcast use group_le;

    let p = property_message(tag);
    assert(p.subrange(4, 8) =~= u32_le(tag as int));
    u32_reads_back(p, 4, tag as int);
    assert(p.subrange(0, 4) =~= seq![0u8, 0, 0, 0]);
    assert(setting_message(tag, data).subrange(0, 8) =~= p);
    assert(setting_message(tag, data).subrange(8, 8 + data.len() as int) =~= data);
}

/// The name is the property 0xf, the calibration goes into 0xb, and the interval, which
/// is 200 000 microseconds, into 0.
pub proof fn sensor_messages_are_laid_out(data: Seq<u8>)
    ensures
        name_message() == seq![0u8, 0, 0, 0, 0xf, 0, 0, 0],
        calibration_message(data) == seq![0u8, 0, 0, 0, 0xb, 0, 0, 0] + data,
        interval_message().len() == 12,
        interval_message().subrange(0, 8) == seq![0u8, 0, 0, 0, 0, 0, 0, 0],
        u32_at(interval_message(), 8) == 200_000,
{
    broadcast use group_le;

    small_u32_le(0xf);
    small_u32_le(0xb);
    small_u32_le(0);
    assert(name_message() =~= seq![0u8, 0, 0, 0, 0xf, 0, 0, 0]);
    assert(calibration_message(data) =~= seq![0u8, 0, 0, 0, 0xb, 0, 0, 0] + data);
    let m = interval_message();
    assert(m.subrange(0, 8) =~= seq![0u8, 0, 0, 0, 0, 0, 0, 0]);
    assert(m.subrange(8, 12) =~= u32_le(200_000));
    u32_reads_back(m, 8, 200_000);
}

/// What is no number carries no reading, what is negative or has the smallest exponent
/// is no light, and what is too large is as large as 64 bits can hold.
pub proof fn odd_readings(f: u32)
    ensures
        micro_of(0x7f80_0000) is None,
        0x7f80_0000 <= f < 0x8000_0000 ==> micro_of(f) is None,
        0xff80_0000 <= f ==> micro_of(f) is None,
        0x8000_0000 <= f < 0xff80_0000 ==> micro_of(f) == Some(0u64),
        f < 0x80_0000 ==> micro_of(f) == Some(0u64),
        0x5500_0000 <= f < 0x7f80_0000 ==> micro_of(f) == Some(0xffff_ffff_ffff_ffffu64),
{
}

/// The light stands in a report as the bits of a binary 32-bit number, low byte first, at
/// the place where the sensor puts it. A report that ends before has none.
pub proof fn light_is_found(at: usize, before: Seq<u8>, bits: u32, after: Seq<u8>, message: Seq<u8>)
    requires
        before.len() == at,
    ensures
        MsgProc(at).reading(before + u32_le(bits as int) + after) == micro_of(bits),
        message.len() < at + 4 ==> MsgProc(at).reading(message) is None,
{
    broadcast use group_le;

    let m = before + u32_le(bits as int) + after;
    assert(m.subrange(at as int, at + 4) =~= u32_le(bits as int));
    u32_reads_back(m, at as int, bits as int);
}

/// The whole numbers from the 23rd power of two up to the 24th, whose bits count up one
/// by one, are so many millions.
pub proof fn whole_numbers_are_millions(n: u32)
    requires
        0x80_0000 <= n < 0x100_0000,
    ensures
        micro_of((0x4b00_0000 + (n - 0x80_0000)) as u32) == Some((n * 1_000_000) as u64),
{
    vstd::arithmetic::power2::lemma2_to64();
    let f = (0x4b00_0000 + (n - 0x80_0000)) as u32;
    assert(f / 0x80_0000 % 0x100 == 150);
    assert(exponent(f) == 0);
    assert(fraction(f) == n);
    let x = fraction(f) * 1_000_000;
    let p = vstd::arithmetic::power2::pow2(exponent(f) as nat) as int;
    assert(x * p == x) by (nonlinear_arith)
        requires
            p == 1,
    ;
}

/// A number whose exponent is smaller by one is half as large, rounded down.
pub proof fn smaller_exponent_halves(f: u32)
    requires
        0x80_0000 <= f,
        f + 0x80_0000 < 0x5500_0000,
    ensures
        micro_of(f) is Some,
        micro_of((f + 0x80_0000) as u32) is Some,
        micro_of(f)->0 == micro_of((f + 0x80_0000) as u32)->0 / 2,
{
    let g = (f + 0x80_0000) as u32;
    let x = fraction(f) * 1_000_000;
    assert(exponent(g) == exponent(f) + 1);
    assert(fraction(g) == fraction(f));
    if exponent(f) >= 0 {
        let e = exponent(f) as nat;
        small_powers(e);
        small_powers(e + 1);
        vstd::arithmetic::power2::lemma_pow2_unfold(e + 1);
        let p = vstd::arithmetic::power2::pow2(e) as int;
        assert(x * (2 * p) == 2 * (x * p)) by (nonlinear_arith);
        assert(0 <= x * p <= 0xff_ffff * 1_000_000 * 0x8_0000) by (nonlinear_arith)
            requires
                0 <= x <= 0xff_ffff * 1_000_000,
                1 <= p <= 0x8_0000,
        ;
        assert(0 <= x * (2 * p) <= 0xff_ffff * 1_000_000 * 0x8_0000) by (nonlinear_arith)
            requires
                0 <= x <= 0xff_ffff * 1_000_000,
                1 <= 2 * p <= 0x8_0000,
        ;
    } else {
        let k = (-exponent(f)) as nat;
        let q = vstd::arithmetic::power2::pow2((k - 1) as nat) as int;
        vstd::arithmetic::power2::lemma_pow2_unfold(k);
        vstd::arithmetic::power2::lemma_pow2_pos((k - 1) as nat);
        vstd::arithmetic::power2::lemma2_to64();
        vstd::arithmetic::div_mod::lemma_div_denominator(x, q, 2);
        assert(q * 2 == 2 * q);
        assert(0 <= x / q <= x) by (nonlinear_arith)
            requires
                0 <= x,
                q >= 1,
        ;
        assert(0 <= x / q / 2 <= x / q);
        if k == 1 {
            assert(q == 1);
            assert(x * 1 == x);
            assert(x / 1 == x);
        }
    }
}

} // verus!
