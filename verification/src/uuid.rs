//! Sixteen-byte identifiers.

use crate::bytes::{
    group_le, put_be64, put_u64, read_u64, small_u64_le, u64_at, u64_be, u64_le, u64_le_of_bytes,
    u64_round_trip,
};
use vstd::prelude::*;

verus! {

pub const UUID_LEN: usize = 16;

/// A sixteen-byte identifier, held as its two little-endian halves.
#[derive(Clone, Copy, Debug, PartialEq, Eq, Structural)]
pub struct Uuid {
    pub lo: u64,
    pub hi: u64,
}

/// The identifier that starts at `at`.
pub open spec fn uuid_at(s: Seq<u8>, at: int) -> Uuid {
    Uuid { lo: u64_at(s, at) as u64, hi: u64_at(s, at + 8) as u64 }
}

pub open spec fn zero_uuid() -> Uuid {
    Uuid { lo: 0, hi: 0 }
}

impl Uuid {
    /// The sixteen bytes.
    pub open spec fn view(&self) -> Seq<u8> {
        u64_le(self.lo as int) + u64_le(self.hi as int)
    }

    pub fn zero() -> (u: Uuid)
        ensures
            u == zero_uuid(),
    {
        Uuid { lo: 0, hi: 0 }
    }

    pub fn is_zero(&self) -> (r: bool)
        ensures
            r == (*self == zero_uuid()),
    {
        self.lo == 0 && self.hi == 0
    }

    /// Reads sixteen bytes.
    pub fn read(b: &[u8], at: usize) -> (u: Uuid)
        requires
            at + 16 <= b.len(),
        ensures
            u == uuid_at(b@, at as int),
            u@ == b@.subrange(at as int, at + 16),
    {
        proof {
            uuid_bytes(b@, at as int);
        }
        Uuid { lo: read_u64(b, at), hi: read_u64(b, at + 8) }
    }

    /// The identifier that two numbers spell, the most significant byte first.
    pub fn from_words(hi: u64, lo: u64) -> (u: Uuid)
        ensures
            u@ == u64_be(hi as int) + u64_be(lo as int),
    {
        let mut b: Vec<u8> = Vec::new();
        put_be64(&mut b, hi);
        put_be64(&mut b, lo);
        assert(b@ =~= u64_be(hi as int) + u64_be(lo as int));
        let u = Uuid::read(&b, 0);
        assert(b@.subrange(0, 16) =~= b@);
        u
    }

    /// Appends the sixteen bytes.
    pub fn put(&self, out: &mut Vec<u8>)
        ensures
            final(out)@ == old(out)@ + self@,
    {
        put_u64(out, self.lo);
        put_u64(out, self.hi);
        assert(out@ =~= old(out)@ + self@);
    }
}

/// Sixteen bytes are the bytes of the identifier they hold.
pub proof fn uuid_bytes(s: Seq<u8>, at: int)
    requires
        0 <= at,
        at + 16 <= s.len(),
    ensures
        uuid_at(s, at)@ == s.subrange(at, at + 16),
{
    broadcast use group_le;

    let a = s.subrange(at, at + 8);
    let b = s.subrange(at + 8, at + 16);
    u64_le_of_bytes(a);
    u64_le_of_bytes(b);
    assert(u64_at(a, 0) == u64_at(s, at));
    assert(u64_at(b, 0) == u64_at(s, at + 8));
    assert(a + b =~= s.subrange(at, at + 16));
}

/// Reading an identifier's bytes gives the identifier.
pub proof fn uuid_round_trip(u: Uuid)
    ensures
        u@.len() == 16,
        uuid_at(u@, 0) == u,
{
    broadcast use group_le;

    u64_round_trip(u.lo as int);
    u64_round_trip(u.hi as int);
    assert(u64_at(u@, 0) == u64_at(u64_le(u.lo as int), 0));
    assert(u64_at(u@, 8) == u64_at(u64_le(u.hi as int), 0));
}

/// The identifier at `at` depends on the sixteen bytes there alone.
pub proof fn uuid_at_subrange(s: Seq<u8>, from: int, to: int, at: int)
    requires
        0 <= from <= to <= s.len(),
        0 <= at,
        from + at + 16 <= to,
    ensures
        uuid_at(s.subrange(from, to), at) == uuid_at(s, from + at),
{
}

/// Identifiers with the same bytes are the same.
pub proof fn uuid_injective(a: Uuid, b: Uuid)
    requires
        a@ == b@,
    ensures
        a == b,
{
    uuid_round_trip(a);
    uuid_round_trip(b);
}

/// The bytes of an identifier stand low byte first within each half, the low half first.
pub proof fn bytes_are_in_order(u: Uuid)
    ensures
        u@.len() == 16,
        u64_at(u@, 0) == u.lo,
        u64_at(u@, 8) == u.hi,
        (Uuid { lo: 1, hi: 2 })@ == seq![1u8, 0, 0, 0, 0, 0, 0, 0, 2, 0, 0, 0, 0, 0, 0, 0],
{
    uuid_round_trip(u);
    small_u64_le(1);
    small_u64_le(2);
    assert((Uuid { lo: 1, hi: 2 })@ =~= seq![1u8, 0, 0, 0, 0, 0, 0, 0, 2, 0, 0, 0, 0, 0, 0, 0]);
}

} // verus!
