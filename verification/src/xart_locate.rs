//! Finds the record store inside the container that holds it.
//!
//! The container is read from the start, chunk by chunk, for the shape of a
//! root record. Every base that such a hit implies is probed without leave to
//! write, and the base that recovers the most live records is the store's.

use crate::errno::Errno;
use crate::bytes::{small_u64_le, zeroed};
use crate::uuid::{uuid_at, uuid_bytes, uuid_injective, uuid_round_trip, zero_uuid, Uuid};
use crate::xart_store::{BLOCK_SIZE, HEADER_SIZE, SLOT_SIZE, STORE_SIZE};
use vstd::prelude::*;

verus! {

/// How much of the container is read at a time.
pub const SCAN_CHUNK: usize = 0x1_0000;

/// How many bases are probed before the search gives up.
pub const MAX_LOCATE_ATTEMPTS: u32 = 64;

/// How many slots a store may have in front of a root record.
pub const MAX_SLOTS: u64 = 4096;

/// The byte at which a start sector stands, if one is named.
pub open spec fn said_base(start_sector: u64) -> Option<u64> {
    if start_sector != 0 {
        Some(start_sector << 9)
    } else {
        None
    }
}

/// Where the store is said to be: a start sector, or nowhere in particular.
pub fn owner_base(start_sector: u64) -> (r: Option<u64>)
    ensures
        r == said_base(start_sector),
{
    if start_sector != 0 {
        Some(start_sector << 9)
    } else {
        None
    }
}

/// A root record could start here.
pub open spec fn root_shape(buf: Seq<u8>, p: int) -> bool {
    &&& p + HEADER_SIZE <= buf.len()
    &&& (buf[p + 1] == 1 || buf[p + 1] == 2)
    &&& uuid_at(buf, p + 2) == zero_uuid()
}

/// The first block boundary from `from` on where a root record could start.
pub open spec fn next_hit(buf: Seq<u8>, from: int) -> Option<int>
    decreases buf.len() + BLOCK_SIZE - from,
{
    if from + HEADER_SIZE > buf.len() {
        None
    } else if root_shape(buf, from) {
        Some(from)
    } else {
        next_hit(buf, from + BLOCK_SIZE)
    }
}

/// The first block boundary from `from` on where a root record could start.
pub fn root_hit(buf: &[u8], from: usize) -> (r: Option<usize>)
    requires
        from % BLOCK_SIZE == 0,
        buf.len() <= SCAN_CHUNK,
        from <= SCAN_CHUNK,
    ensures
        match r {
            Some(p) => next_hit(buf@, from as int) == Some(p as int) && p % BLOCK_SIZE == 0 && p
                + HEADER_SIZE <= buf.len() && from <= p,
            None => next_hit(buf@, from as int) is None,
        },
{
    let mut p: usize = from;
    while p + HEADER_SIZE <= buf.len()
        invariant
            from <= p <= 0x2_0000,
            p % BLOCK_SIZE == 0,
            buf.len() <= SCAN_CHUNK,
            next_hit(buf@, from as int) == next_hit(buf@, p as int),
        decreases 0x2_0000 - p,
    {
        let kind: u8 = buf[p + 1];
        if (kind == 1 || kind == 2) && Uuid::read(buf, p + 2).is_zero() {
            return Some(p);
        }
        assert(!root_shape(buf@, p as int));
        p = p + BLOCK_SIZE;
    }
    None
}

/// The bases to probe for a hit, from `k` slots before it on, and how many
/// probes have been counted then. A base whose window does not fit the device
/// is passed over and not counted.
pub open spec fn bases_from(hit: int, size: int, attempts: int, k: int) -> (Seq<u64>, int)
    decreases 4097 - k,
{
    let base = hit - k * 0x9000;
    if k > MAX_SLOTS || base < 0 {
        (Seq::empty(), attempts)
    } else if base + STORE_SIZE > size {
        bases_from(hit, size, attempts, k + 1)
    } else if attempts + 1 > MAX_LOCATE_ATTEMPTS {
        (Seq::empty(), attempts + 1)
    } else {
        let rest = bases_from(hit, size, attempts + 1, k + 1);
        (seq![base as u64] + rest.0, rest.1)
    }
}

/// Every base that is probed lies a whole number of slots before the hit, its
/// window fits the device, and no more bases are probed than are left.
pub proof fn bases_are_sound(hit: int, size: int, attempts: int, k: int)
    requires
        0 <= attempts <= MAX_LOCATE_ATTEMPTS + 1,
        0 <= k,
        0 <= hit <= u64::MAX,
    ensures
        ({
            let (bases, counted) = bases_from(hit, size, attempts, k);
            &&& attempts <= counted <= MAX_LOCATE_ATTEMPTS + 2
            &&& attempts + bases.len() <= counted
            &&& attempts <= MAX_LOCATE_ATTEMPTS ==> attempts + bases.len() <= MAX_LOCATE_ATTEMPTS
            &&& forall|i: int|
                0 <= i < bases.len() ==> {
                    let b = #[trigger] bases[i];
                    &&& b + STORE_SIZE <= size
                    &&& b <= hit
                    &&& (hit - b) % 0x9000 == 0
                }
        }),
    decreases 4097 - k,
{
    let base = hit - k * 0x9000;
    if k > MAX_SLOTS || base < 0 {
    } else if base + STORE_SIZE > size {
        bases_are_sound(hit, size, attempts, k + 1);
    } else if attempts + 1 > MAX_LOCATE_ATTEMPTS {
    } else {
        bases_are_sound(hit, size, attempts + 1, k + 1);
        let rest = bases_from(hit, size, attempts + 1, k + 1);
        let bases = seq![base as u64] + rest.0;
        assert forall|i: int| 0 <= i < bases.len() implies ({
            let b = #[trigger] bases[i];
            &&& b + STORE_SIZE <= size
            &&& b <= hit
            &&& (hit - b) % 0x9000 == 0
        }) by {
            if i == 0 {
                assert((k * 0x9000) % 0x9000 == 0);
            } else {
                assert(bases[i] == rest.0[i - 1]);
            }
        }
    }
}

/// What a probe of a base found.
#[derive(Clone, Copy, Debug, PartialEq, Eq, Structural)]
pub struct Probe {
    pub valid: usize,
    pub malformed: usize,
    pub base: u64,
}

/// More live records are better; then fewer malformed ones; then the higher
/// base, since only a base below the true one can recover as many records.
pub open spec fn better(a: Probe, b: Probe) -> bool {
    ||| a.valid > b.valid
    ||| a.valid == b.valid && a.malformed < b.malformed
    ||| a.valid == b.valid && a.malformed == b.malformed && a.base > b.base
}

/// The best of the probes that opened as a store.
pub fn pick(probes: &Vec<Option<Probe>>) -> (r: Option<Probe>)
    ensures
        match r {
            Some(b) => probes@.contains(Some(b)) && forall|i: int|
                0 <= i < probes.len() && (#[trigger] probes@[i]) is Some ==> !better(
                    probes@[i]->0,
                    b,
                ),
            None => forall|i: int| 0 <= i < probes.len() ==> (#[trigger] probes@[i]) is None,
        },
{
    let mut best: Option<Probe> = None;
    let mut i: usize = 0;
    while i < probes.len()
        invariant
            i <= probes.len(),
            match best {
                Some(b) => probes@.contains(Some(b)) && forall|j: int|
                    0 <= j < i && (#[trigger] probes@[j]) is Some ==> !better(probes@[j]->0, b),
                None => forall|j: int| 0 <= j < i ==> (#[trigger] probes@[j]) is None,
            },
        decreases probes.len() - i,
    {
        match probes[i] {
            Some(c) => {
                assert(probes@[i as int] == Some(c));
                let take = match best {
                    None => true,
                    Some(b) => c.valid > b.valid || (c.valid == b.valid && c.malformed
                        < b.malformed) || (c.valid == b.valid && c.malformed == b.malformed
                        && c.base > b.base),
                };
                if take {
                    best = Some(c);
                }
            },
            None => {},
        }
        i = i + 1;
    }
    best
}

/// The base is that of the best of the probes.
pub open spec fn picked(probes: Seq<Option<Probe>>, base: u64) -> bool {
    exists|b: Probe|
        {
            &&& b.base == base
            &&& #[trigger] probes.contains(Some(b))
            &&& forall|i: int|
                0 <= i < probes.len() && (#[trigger] probes[i]) is Some ==> !better(
                    probes[i]->0,
                    b,
                )
        }
}

/// No probe opened as a store.
pub open spec fn in_vain(probes: Seq<Option<Probe>>) -> bool {
    forall|i: int| 0 <= i < probes.len() ==> (#[trigger] probes[i]) is None
}

/// What to do after a hit was probed.
#[derive(Clone, Copy, Debug, PartialEq, Eq, Structural)]
pub enum Decision {
    /// This base is the store's: open it, with leave to write if that is
    /// wanted.
    Open(u64),
    /// Too many bases were probed in vain.
    GiveUp,
    /// Search on behind the hit.
    GoOn,
}

/// The state of a search.
#[derive(Clone, Copy, Debug, PartialEq, Eq, Structural)]
pub struct Locator {
    pub size: u64,
    /// Where the chunk stands.
    pub off: u64,
    /// Where in the chunk the search goes on.
    pub from: usize,
    pub attempts: u32,
}

/// The bases to probe for a hit at `p` in the chunk, and how the search goes on
/// behind it.
pub open spec fn hit_at(l: Locator, p: int) -> (Seq<u64>, Locator) {
    let (bases, counted) = bases_from(l.off + p, l.size as int, l.attempts as int, 0);
    (bases, Locator { from: (p + BLOCK_SIZE) as usize, attempts: counted as u32, ..l })
}

/// The chunk after this one, which it overlaps by a block.
pub open spec fn next_chunk(l: Locator) -> Locator {
    Locator { off: (l.off + SCAN_CHUNK - BLOCK_SIZE) as u64, from: 0, ..l }
}

impl Locator {
    pub open spec fn wf(self) -> bool {
        &&& self.size >= STORE_SIZE
        &&& self.size < 0x8000_0000_0000_0000
        &&& self.off <= self.size
        &&& self.off % 0x1000 == 0
        &&& self.from % BLOCK_SIZE == 0
        &&& self.from <= SCAN_CHUNK
        &&& self.attempts <= MAX_LOCATE_ATTEMPTS + 1
    }

    /// Starts a search of a container of `size` bytes.
    pub fn start(size: u64) -> (r: Result<Locator, Errno>)
        requires
            size < 0x8000_0000_0000_0000,
        ensures
            match r {
                Ok(l) => size >= STORE_SIZE && l == (Locator {
                    size,
                    off: 0,
                    from: 0,
                    attempts: 0,
                }) && l.wf(),
                Err(e) => size < STORE_SIZE && e == Errno::ENODATA,
            },
    {
        if size < STORE_SIZE as u64 {
            return Err(Errno::ENODATA);
        }
        Ok(Locator { size, off: 0, from: 0, attempts: 0 })
    }

    /// The size of the chunk at `off`, or nothing when the container is read.
    pub open spec fn chunk(self) -> Option<int> {
        if self.off + HEADER_SIZE > self.size {
            None
        } else if self.size - self.off < SCAN_CHUNK {
            Some(self.size - self.off)
        } else {
            Some(SCAN_CHUNK as int)
        }
    }

    /// The chunk to read next: where it stands and how long it is.
    pub fn next_read(&self) -> (r: Option<(u64, usize)>)
        requires
            self.wf(),
        ensures
            match r {
                Some((off, len)) => off == self.off && self.chunk() == Some(len as int) && len
                    <= SCAN_CHUNK && off + len <= self.size,
                None => self.chunk() is None,
            },
    {
        if self.off + HEADER_SIZE as u64 > self.size {
            return None;
        }
        let left: u64 = self.size - self.off;
        let want: usize = if left < SCAN_CHUNK as u64 {
            left as usize
        } else {
            SCAN_CHUNK
        };
        Some((self.off, want))
    }

    /// Searches the chunk for the next hit and counts the bases to probe for
    /// it. Without a hit the chunk is done.
    pub fn search(&mut self, buf: &[u8]) -> (r: Option<Vec<u64>>)
        requires
            old(self).wf(),
            old(self).attempts <= MAX_LOCATE_ATTEMPTS,
            old(self).chunk() == Some(buf.len() as int),
        ensures
            final(self).wf(),
            match r {
                Some(bases) => {
                    &&& next_hit(buf@, old(self).from as int) matches Some(p)
                    &&& (bases@, *final(self)) == hit_at(*old(self), p)
                },
                None => *final(self) == *old(self) && next_hit(buf@, old(self).from as int) is None,
            },
    {
        let p: usize = match root_hit(buf, self.from) {
            Some(p) => p,
            None => {
                return None;
            },
        };
        let hit: u64 = self.off + p as u64;
        let mut bases: Vec<u64> = Vec::new();
        let mut attempts: u32 = self.attempts;
        let mut k: u64 = 0;
        let ghost whole = bases_from(
            hit as int,
            self.size as int,
            self.attempts as int,
            0,
        );
        assert(bases@ + whole.0 =~= whole.0);
        let mut open: bool = true;
        while open
            invariant
                *self == *old(self),
                self.wf(),
                hit == self.off + p,
                p + HEADER_SIZE <= SCAN_CHUNK,
                hit < 0x8000_0000_0001_0000,
                k <= MAX_SLOTS + 1,
                attempts <= MAX_LOCATE_ATTEMPTS + 1,
                open ==> attempts <= MAX_LOCATE_ATTEMPTS,
                whole == bases_from(hit as int, self.size as int, self.attempts as int, 0),
                open ==> ({
                    let rest = bases_from(hit as int, self.size as int, attempts as int, k as int);
                    &&& whole.0 == bases@ + rest.0
                    &&& whole.1 == rest.1
                }),
                !open ==> whole.0 == bases@ && whole.1 == attempts,
            ensures
                whole.0 == bases@,
                whole.1 == attempts,
                attempts <= MAX_LOCATE_ATTEMPTS + 1,
            decreases MAX_SLOTS + 1 - k, open as int,
        {
            let ghost rest = bases_from(hit as int, self.size as int, attempts as int, k as int);
            if k > MAX_SLOTS || k * (SLOT_SIZE as u64) > hit {
                assert(bases@ + Seq::<u64>::empty() =~= bases@);
                open = false;
            } else {
                let base: u64 = hit - k * (SLOT_SIZE as u64);
                if base + STORE_SIZE as u64 > self.size {
                    k = k + 1;
                } else if attempts + 1 > MAX_LOCATE_ATTEMPTS {
                    assert(bases@ + Seq::<u64>::empty() =~= bases@);
                    attempts = attempts + 1;
                    open = false;
                } else {
                    let ghost before = bases@;
                    attempts = attempts + 1;
                    bases.push(base);
                    k = k + 1;
                    assert(before + rest.0 =~= bases@ + bases_from(
                        hit as int,
                        self.size as int,
                        attempts as int,
                        k as int,
                    ).0);
                }
            }
        }
        self.attempts = attempts;
        self.from = p + BLOCK_SIZE;
        Some(bases)
    }

    /// Decides on the probes of a hit. The store is unique, so the first hit
    /// that opens at any base settles it.
    pub fn decide(&self, probes: &Vec<Option<Probe>>) -> (d: Decision)
        ensures
            match d {
                Decision::Open(base) => picked(probes@, base),
                Decision::GiveUp => in_vain(probes@) && self.attempts > MAX_LOCATE_ATTEMPTS,
                Decision::GoOn => in_vain(probes@) && self.attempts <= MAX_LOCATE_ATTEMPTS,
            },
    {
        match pick(probes) {
            Some(b) => {
                assert(probes@.contains(Some(b)));
                Decision::Open(b.base)
            },
            None => {
                if self.attempts > MAX_LOCATE_ATTEMPTS {
                    Decision::GiveUp
                } else {
                    Decision::GoOn
                }
            },
        }
    }

    /// Goes to the next chunk. It overlaps the last one by a block, so that a
    /// root record on the boundary is not missed. After a short chunk the
    /// container is read.
    pub fn advance(&mut self) -> (more: bool)
        requires
            old(self).wf(),
            old(self).chunk() is Some,
        ensures
            more == (old(self).chunk() == Some(SCAN_CHUNK as int)),
            more ==> final(self).wf() && *final(self) == next_chunk(*old(self)),
            !more ==> *final(self) == *old(self),
    {
        if self.size - self.off < SCAN_CHUNK as u64 {
            return false;
        }
        self.off = self.off + (SCAN_CHUNK - BLOCK_SIZE) as u64;
        self.from = 0;
        true
    }
}

// ---------------------------------------------------------------------------
// A whole search.
// ---------------------------------------------------------------------------
/// What a search comes to.
pub enum Outcome {
    /// The store is at this base.
    Found(u64),
    /// Too many bases were probed in vain.
    GaveUp,
    /// The container was searched to its end in vain.
    Nothing,
}

/// What probing each of some bases finds.
pub open spec fn probed(probe: spec_fn(u64) -> Option<Probe>, bases: Seq<u64>) -> Seq<
    Option<Probe>,
> {
    Seq::new(bases.len(), |i: int| probe(bases[i]))
}

/// The chunk that the search stands at.
pub open spec fn chunk_of(l: Locator, disk: Seq<u8>) -> Seq<u8> {
    disk.subrange(l.off as int, l.off + l.chunk()->0)
}

/// Whether a search of the container `disk` from a state on may come to `o`,
/// where `probe` says what probing a base finds.
pub open spec fn searched(
    l: Locator,
    disk: Seq<u8>,
    probe: spec_fn(u64) -> Option<Probe>,
    o: Outcome,
) -> bool
    decreases l.size - l.off, SCAN_CHUNK - l.from,
    when l.wf() && disk.len() == l.size
    via search_goes_on
{
    if l.chunk() is None {
        o is Nothing
    } else {
        match next_hit(chunk_of(l, disk), l.from as int) {
            None => if l.chunk() == Some(SCAN_CHUNK as int) {
                searched(next_chunk(l), disk, probe, o)
            } else {
                o is Nothing
            },
            Some(p) => {
                let (bases, next) = hit_at(l, p);
                let probes = probed(probe, bases);
                if !in_vain(probes) {
                    o matches Outcome::Found(base) && picked(probes, base)
                } else if next.attempts > MAX_LOCATE_ATTEMPTS {
                    o is GaveUp
                } else {
                    searched(next, disk, probe, o)
                }
            },
        }
    }
}

#[via_fn]
proof fn search_goes_on(
    l: Locator,
    disk: Seq<u8>,
    probe: spec_fn(u64) -> Option<Probe>,
    o: Outcome,
) {
    if l.chunk() is Some {
        hit_is_first(chunk_of(l, disk), l.from as int);
    }
}

/// A hit that is found is one, stands at a block boundary, and is the first.
pub proof fn hit_is_first(buf: Seq<u8>, from: int)
    requires
        0 <= from,
        from % (BLOCK_SIZE as int) == 0,
    ensures
        match next_hit(buf, from) {
            Some(p) => {
                &&& from <= p
                &&& p % (BLOCK_SIZE as int) == 0
                &&& root_shape(buf, p)
                &&& forall|q: int|
                    from <= q < p && q % (BLOCK_SIZE as int) == 0 ==> !#[trigger] root_shape(buf, q)
            },
            None => forall|q: int|
                from <= q && q % (BLOCK_SIZE as int) == 0 ==> !#[trigger] root_shape(buf, q),
        },
    decreases buf.len() + BLOCK_SIZE - from,
{
    if from + HEADER_SIZE <= buf.len() && !root_shape(buf, from) {
        hit_is_first(buf, from + BLOCK_SIZE);
    }
}

/// Whether no base that a hit implies opens as a store: none at a whole number
/// of slots in front of it whose window fits the container.
pub open spec fn hopeless(hit: int, size: int, probe: spec_fn(u64) -> Option<Probe>) -> bool {
    forall|k: int|
        0 <= k <= MAX_SLOTS && hit - k * 0x9000 >= 0 && hit - k * 0x9000 + STORE_SIZE <= size
            ==> (#[trigger] probe((hit - k * 0x9000) as u64)) is None
}

/// Unless the count runs out, all bases that a hit implies are probed.
proof fn all_bases_are_probed(
    hit: int,
    size: int,
    attempts: int,
    k: int,
    probe: spec_fn(u64) -> Option<Probe>,
)
    requires
        0 <= k,
        0 <= attempts,
        bases_from(hit, size, attempts, k).1 <= MAX_LOCATE_ATTEMPTS,
        in_vain(probed(probe, bases_from(hit, size, attempts, k).0)),
    ensures
        forall|j: int|
            k <= j <= MAX_SLOTS && hit - j * 0x9000 >= 0 && hit - j * 0x9000 + STORE_SIZE <= size
                ==> (#[trigger] probe((hit - j * 0x9000) as u64)) is None,
    decreases 4097 - k,
{
    let base = hit - k * 0x9000;
    if k > MAX_SLOTS || base < 0 {
    } else if base + STORE_SIZE > size {
        all_bases_are_probed(hit, size, attempts, k + 1, probe);
    } else if attempts + 1 > MAX_LOCATE_ATTEMPTS {
    } else {
        let all = bases_from(hit, size, attempts, k).0;
        let rest = bases_from(hit, size, attempts + 1, k + 1).0;
        assert(all =~= seq![base as u64] + rest);
        let probes = probed(probe, all);
        assert(probes[0] == probe(base as u64));
        assert forall|i: int| 0 <= i < probed(probe, rest).len() implies (#[trigger] probed(
            probe,
            rest,
        )[i]) is None by {
            assert(probes[i + 1] is None);
        }
        all_bases_are_probed(hit, size, attempts + 1, k + 1, probe);
        assert forall|j: int|
            k <= j <= MAX_SLOTS && hit - j * 0x9000 >= 0 && hit - j * 0x9000 + STORE_SIZE
                <= size implies (#[trigger] probe((hit - j * 0x9000) as u64)) is None by {
            if j == k {
                assert(probes[0] is None);
            }
        }
    }
}

/// Whether a hit implies a base: it lies a whole number of slots in front of the
/// hit, and its window fits the container.
pub open spec fn implied(hit: int, size: int, base: u64) -> bool {
    base <= hit && base + STORE_SIZE <= size && (hit - base) % 0x9000 == 0
}

/// What is said of a base is said of no other.
pub open spec fn honest(probe: spec_fn(u64) -> Option<Probe>) -> bool {
    forall|base: u64| (#[trigger] probe(base)) matches Some(p) ==> p.base == base
}

/// What is promised of the outcome of a search: the store that it finds opens at
/// a base that a root record implies, and no root record in front of that one
/// implies a base that opens; if it comes to the end of the container, no root
/// record in all of it does.
pub open spec fn misses_nothing(
    disk: Seq<u8>,
    probe: spec_fn(u64) -> Option<Probe>,
    o: Outcome,
) -> bool {
    match o {
        Outcome::Found(base) => exists|hit: int| #[trigger]
            found_by(disk, probe, base, hit),
        Outcome::Nothing => all_hopeless(0, disk.len() as int, disk, probe),
        Outcome::GaveUp => true,
    }
}

/// The root record at `hit` led to the base, and none in front of it did to any.
pub open spec fn found_by(
    disk: Seq<u8>,
    probe: spec_fn(u64) -> Option<Probe>,
    base: u64,
    hit: int,
) -> bool {
    &&& 0 <= hit
    &&& hit % (BLOCK_SIZE as int) == 0
    &&& root_shape(disk, hit)
    &&& implied(hit, disk.len() as int, base)
    &&& probe(base) is Some
    &&& all_hopeless(0, hit, disk, probe)
}

/// No root record from `start` up to `end` implies a base that opens.
pub open spec fn all_hopeless(
    start: int,
    end: int,
    disk: Seq<u8>,
    probe: spec_fn(u64) -> Option<Probe>,
) -> bool {
    forall|q: int|
        start <= q < end && q % (BLOCK_SIZE as int) == 0 && #[trigger] root_shape(disk, q)
            ==> hopeless(q, disk.len() as int, probe)
}

/// What looks like a root record in the chunk does so in the container.
proof fn chunk_shows(l: Locator, disk: Seq<u8>, q: int)
    requires
        l.wf(),
        l.chunk() is Some,
        disk.len() == l.size,
        0 <= q,
        q + HEADER_SIZE <= chunk_of(l, disk).len(),
    ensures
        root_shape(disk, l.off + q) == root_shape(chunk_of(l, disk), q),
{
    let buf = chunk_of(l, disk);
    assert(uuid_at(buf, q + 2) == uuid_at(disk, l.off + q + 2));
}

/// Up to the hit, or to the end of the chunk, no root record stands there.
proof fn chunk_is_clear(
    l: Locator,
    disk: Seq<u8>,
    probe: spec_fn(u64) -> Option<Probe>,
    end: int,
)
    requires
        l.wf(),
        l.chunk() is Some,
        disk.len() == l.size,
        match next_hit(chunk_of(l, disk), l.from as int) {
            Some(p) => end <= l.off + p,
            None => end <= l.off + l.chunk()->0 && (end == l.size || end <= l.off + l.chunk()->0
                - HEADER_SIZE + 1),
        },
    ensures
        all_hopeless(l.off + l.from, end, disk, probe),
{
    let buf = chunk_of(l, disk);
    hit_is_first(buf, l.from as int);
    assert forall|q: int|
        l.off + l.from <= q < end && q % (BLOCK_SIZE as int) == 0 && #[trigger] root_shape(
            disk,
            q,
        ) implies hopeless(q, disk.len() as int, probe) by {
        chunk_shows(l, disk, q - l.off);
        assert(!root_shape(buf, q - l.off));
    }
}

/// What a search from a state on comes to.
proof fn search_is_sound(
    l: Locator,
    disk: Seq<u8>,
    probe: spec_fn(u64) -> Option<Probe>,
    o: Outcome,
)
    requires
        l.wf(),
        l.attempts <= MAX_LOCATE_ATTEMPTS,
        disk.len() == l.size,
        honest(probe),
        all_hopeless(0, l.off + l.from, disk, probe),
        searched(l, disk, probe, o),
    ensures
        misses_nothing(disk, probe, o),
    decreases l.size - l.off, SCAN_CHUNK - l.from,
{
    if l.chunk() is None {
        assert(all_hopeless(0, l.size as int, disk, probe));
    } else {
        let buf = chunk_of(l, disk);
        hit_is_first(buf, l.from as int);
        match next_hit(buf, l.from as int) {
            None => {
                if l.chunk() == Some(SCAN_CHUNK as int) {
                    let n = next_chunk(l);
                    chunk_is_clear(l, disk, probe, n.off as int);
                    search_is_sound(n, disk, probe, o);
                } else {
                    chunk_is_clear(l, disk, probe, l.size as int);
                }
            },
            Some(p) => {
                let (bases, next) = hit_at(l, p);
                let probes = probed(probe, bases);
                let hit = l.off + p;
                bases_are_sound(hit, l.size as int, l.attempts as int, 0);
                chunk_shows(l, disk, p);
                chunk_is_clear(l, disk, probe, hit);
                if !in_vain(probes) {
                    let base = o->Found_0;
                    let b = choose|b: Probe|
                        {
                            &&& b.base == base
                            &&& #[trigger] probes.contains(Some(b))
                            &&& forall|i: int|
                                0 <= i < probes.len() && (#[trigger] probes[i]) is Some ==> !better(
                                    probes[i]->0,
                                    b,
                                )
                        };
                    let i = choose|i: int| 0 <= i < probes.len() && probes[i] == Some(b);
                    assert(probe(bases[i]) == Some(b));
                    assert(base == bases[i]);
                    assert(found_by(disk, probe, base, hit));
                } else if next.attempts <= MAX_LOCATE_ATTEMPTS {
                    all_bases_are_probed(hit, l.size as int, l.attempts as int, 0, probe);
                    assert(all_hopeless(0, hit + BLOCK_SIZE, disk, probe)) by {
                        assert forall|q: int|
                            0 <= q < hit + BLOCK_SIZE && q % (BLOCK_SIZE as int) == 0
                                && #[trigger] root_shape(disk, q) implies hopeless(
                            q,
                            disk.len() as int,
                            probe,
                        ) by {
                            if q > hit {
                                assert(hit % (BLOCK_SIZE as int) == 0);
                                assert(false);
                            }
                        }
                    }
                    search_is_sound(next, disk, probe, o);
                }
            },
        }
    }
}

/// A whole search misses nothing: the store that it finds opens at a base that a
/// root record implies, and no root record in front of that one implies a base
/// that opens. If it comes to the end of the container, no root record in all of
/// it does. Only a search that has counted too many bases may have missed one.
pub proof fn search_misses_nothing(
    size: u64,
    disk: Seq<u8>,
    probe: spec_fn(u64) -> Option<Probe>,
    o: Outcome,
)
    requires
        STORE_SIZE <= size < 0x8000_0000_0000_0000,
        disk.len() == size,
        honest(probe),
        searched(Locator { size, off: 0, from: 0, attempts: 0 }, disk, probe, o),
    ensures
        misses_nothing(disk, probe, o),
{
    search_is_sound(Locator { size, off: 0, from: 0, attempts: 0 }, disk, probe, o);
}

/// A sector has 512 bytes, and the sector 0 names no place.
pub proof fn sectors_are_counted(start_sector: u64)
    requires
        start_sector < 0x80_0000_0000_0000,
    ensures
        said_base(0) is None,
        start_sector > 0 ==> said_base(start_sector) == Some((start_sector * 512) as u64),
{
    assert(start_sector << 9 == start_sector * 512) by (bit_vector)
        requires
            start_sector < 0x80_0000_0000_0000,
    ;
}

/// A root record is known by its second byte, a 1 or a 2, and by the sixteen zeros behind,
/// where 34 bytes are left for its header.
pub proof fn root_records_are_known(first: u8, kind: u8, rest: Seq<u8>)
    requires
        rest.len() >= 16,
    ensures
        ({
            let b = seq![first, kind] + zeroed(16) + rest;
            root_shape(b, 0) <==> kind == 1 || kind == 2
        }),
        rest.len() < 34 ==> !root_shape(rest, 0),
{
    let b = seq![first, kind] + zeroed(16) + rest;
    uuid_bytes(b, 2);
    uuid_round_trip(zero_uuid());
    small_u64_le(0);
    assert(zero_uuid()@ =~= zeroed(16));
    assert(b.subrange(2, 18) =~= zeroed(16));
    uuid_injective(uuid_at(b, 2), zero_uuid());
}

/// The bases that a hit implies are probed from the hit itself downwards, 0x9000 bytes
/// apart, as far as a store of 0x600000 bytes fits behind each.
pub proof fn bases_go_down_slot_by_slot(hit: int, size: int, attempts: int)
    requires
        0x1_2000 <= hit <= u64::MAX,
        hit + 0x60_0000 <= size,
        0 <= attempts <= 61,
    ensures
        ({
            let (bases, counted) = bases_from(hit, size, attempts, 0);
            &&& bases.len() >= 3
            &&& bases[0] == hit
            &&& bases[1] == hit - 0x9000
            &&& bases[2] == hit - 0x1_2000
            &&& counted >= attempts + 3
        }),
{
    reveal_with_fuel(bases_from, 4);
    bases_are_sound(hit, size, attempts + 3, 3);
    let r2 = bases_from(hit, size, attempts + 2, 2);
    let r1 = bases_from(hit, size, attempts + 1, 1);
    assert(r2.0 == seq![(hit - 0x1_2000) as u64] + bases_from(hit, size, attempts + 3, 3).0);
    assert(r1.0 == seq![(hit - 0x9000) as u64] + r2.0);
    assert(bases_from(hit, size, attempts, 0).0 == seq![hit as u64] + r1.0);
}

/// Sixty-four bases are probed and no more; the one after them is only counted.
pub proof fn search_gives_up_after_sixty_four(hit: int, size: int, k: int)
    requires
        0 <= k <= 4096,
        hit - k * 0x9000 >= 0,
        hit - k * 0x9000 + 0x60_0000 <= size,
    ensures
        bases_from(hit, size, 64, k) == (Seq::<u64>::empty(), 65int),
{
}

/// Which of two probes is better: the one with more live records, then the one with fewer
/// malformed ones, then the one higher up. No probe is better than itself, and of two
/// that differ in any of this one is.
pub proof fn better_probe(a: Probe, b: Probe)
    ensures
        a.valid > b.valid ==> better(a, b) && !better(b, a),
        a.valid == b.valid && a.malformed < b.malformed ==> better(a, b) && !better(b, a),
        a.valid == b.valid && a.malformed == b.malformed && a.base > b.base ==> better(a, b)
            && !better(b, a),
        !better(a, a),
        a != b ==> better(a, b) || better(b, a),
{
}

/// A container is read 0x10000 bytes at a time, each chunk from the last block of 0x1000
/// bytes of the one before on; the last may be shorter, down to the 34 bytes of a header.
pub proof fn chunks_overlap_by_a_block(l: Locator)
    requires
        l.wf(),
    ensures
        l.size - l.off >= 0x1_0000 ==> l.chunk() == Some(0x1_0000int),
        34 <= l.size - l.off < 0x1_0000 ==> l.chunk() == Some(l.size - l.off),
        l.size - l.off < 34 ==> l.chunk() is None,
        l.size - l.off >= 0x1_0000 ==> next_chunk(l).off == l.off + 0xf000,
        next_chunk(l).from == 0,
        next_chunk(l).attempts == l.attempts,
        next_chunk(l).size == l.size,
{
}

/// Behind a hit the search goes on with the next block of the same chunk.
pub proof fn search_goes_on_behind_the_hit(l: Locator, p: int)
    requires
        l.wf(),
        0 <= p < 0x1_0000,
    ensures
        hit_at(l, p).1.from == p + 0x1000,
        hit_at(l, p).1.off == l.off,
        hit_at(l, p).1.size == l.size,
        hit_at(l, p).0 == bases_from(l.off + p, l.size as int, l.attempts as int, 0).0,
{
}

} // verus!
