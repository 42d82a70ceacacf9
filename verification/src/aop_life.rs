//! The life of the sensor processor's core: what differs between machines, the
//! arguments it boots with, and the order in which it is started, stopped and
//! taken down.

use vstd::prelude::*;

use crate::afk::{AFKEndpoint, AFK_ENDPOINT_COUNT, AFK_ENDPOINT_START};
use crate::aop::{FakehidListener, AOP};
use crate::aop_driver::{must_start, AopData};
use crate::bytes::{read_u32, splice, spliced, u32_at, u64_le};
use crate::errno::Errno;

verus! {

pub const CPU_RUN: u32 = 0x10;

// ---------------------------------------------------------------------------
// Machines.
// ---------------------------------------------------------------------------
/// The machines whose sensor processor is supported.
#[derive(Clone, Copy, Debug, PartialEq, Eq, Structural)]
pub enum AopMachine {
    T8103,
    T8112,
    T6000,
    T6020,
    T8140,
}

/// What differs between them.
#[derive(Clone, Copy, Debug, PartialEq, Eq, Structural)]
pub struct AopHwConfig {
    pub ec0p: u64,
    pub alig: u64,
    pub aopt: u64,
    /// Complete the firmware's boot arguments before it is started.
    pub patch_bootargs: bool,
    pub epic_v4: bool,
    /// The firmware boots through the setup port as well.
    pub setup_port: bool,
    pub quiesce_on_unbind: bool,
}

pub open spec fn config_of(m: AopMachine) -> AopHwConfig {
    let base = AopHwConfig {
        ec0p: 0x2_0000,
        aopt: 0,
        alig: 64,
        patch_bootargs: true,
        epic_v4: false,
        setup_port: false,
        quiesce_on_unbind: false,
    };
    match m {
        AopMachine::T8103 => AopHwConfig { aopt: 1, alig: 128, ..base },
        AopMachine::T8112 => AopHwConfig { alig: 128, ..base },
        AopMachine::T6000 => base,
        AopMachine::T6020 => AopHwConfig { ec0p: 0x100_0000_0000, ..base },
        AopMachine::T8140 => AopHwConfig {
            ec0p: 0,
            aopt: 0,
            alig: 0,
            patch_bootargs: false,
            epic_v4: true,
            setup_port: true,
            quiesce_on_unbind: true,
        },
    }
}

pub fn config(m: AopMachine) -> (c: AopHwConfig)
    ensures
        c == config_of(m),
{
    let base = AopHwConfig {
        ec0p: 0x2_0000,
        aopt: 0,
        alig: 64,
        patch_bootargs: true,
        epic_v4: false,
        setup_port: false,
        quiesce_on_unbind: false,
    };
    match m {
        AopMachine::T8103 => AopHwConfig { aopt: 1, alig: 128, ..base },
        AopMachine::T8112 => AopHwConfig { alig: 128, ..base },
        AopMachine::T6000 => base,
        AopMachine::T6020 => AopHwConfig { ec0p: 0x100_0000_0000, ..base },
        AopMachine::T8140 => AopHwConfig {
            ec0p: 0,
            aopt: 0,
            alig: 0,
            patch_bootargs: false,
            epic_v4: true,
            setup_port: true,
            quiesce_on_unbind: true,
        },
    }
}

/// The endpoints that have to start on a machine; none means all.
pub open spec fn required_on(m: AopMachine) -> Seq<u8> {
    match m {
        AopMachine::T8140 => seq![0x20u8, 0x21, 0x22, 0x23, 0x2b],
        _ => Seq::empty(),
    }
}

pub fn required_endpoints(m: AopMachine) -> (v: Vec<u8>)
    ensures
        v@ == required_on(m),
{
    match m {
        AopMachine::T8140 => {
            let v: Vec<u8> = vec![0x20, 0x21, 0x22, 0x23, 0x2b];
            assert(v@ =~= required_on(m));
            v
        },
        _ => Vec::new(),
    }
}

// ---------------------------------------------------------------------------
// Boot arguments.
// ---------------------------------------------------------------------------
/// A value to put under a name.
#[derive(Clone, Copy, Debug, PartialEq, Eq, Structural)]
pub struct Patch {
    pub key: u32,
    pub value: u64,
}

/// The first value to put under a name, from `from` on.
pub open spec fn patch_for(patches: Seq<Patch>, key: int, from: int) -> Option<u64>
    decreases patches.len() - from,
{
    if from < 0 || from >= patches.len() {
        None
    } else if patches[from].key == key {
        Some(patches[from].value)
    } else {
        patch_for(patches, key, from + 1)
    }
}

/// How many bytes there are from `idx` on.
pub open spec fn left(args: Seq<u8>, idx: int) -> int {
    if idx < args.len() {
        args.len() - idx
    } else {
        0
    }
}

/// The arguments from `idx` on: a name, a length and that many bytes, one after
/// the other. What is to be written has to be there, in at most eight bytes; the
/// last argument may claim more than is there if it is left alone.
pub open spec fn readable(args: Seq<u8>, patches: Seq<Patch>, idx: int) -> bool
    decreases left(args, idx),
{
    if idx >= args.len() {
        true
    } else if idx < 0 || idx + 8 > args.len() {
        false
    } else {
        let size = u32_at(args, idx + 4);
        &&& patch_for(patches, u32_at(args, idx), 0) is Some ==> size <= 8 && idx + 8 + size
            <= args.len()
        &&& readable(args, patches, idx + 8 + size)
    }
}

/// The arguments with the values in place from `idx` on.
pub open spec fn patched(args: Seq<u8>, patches: Seq<Patch>, idx: int) -> Seq<u8>
    decreases left(args, idx),
{
    if idx >= args.len() || idx < 0 || idx + 8 > args.len() {
        args
    } else {
        let size = u32_at(args, idx + 4);
        let at = idx + 8;
        let now = match patch_for(patches, u32_at(args, idx), 0) {
            Some(v) => spliced(args, at, u64_le(v as int).subrange(0, size)),
            None => args,
        };
        if now.len() == args.len() {
            patched(now, patches, at + size)
        } else {
            args
        }
    }
}

fn find_patch(patches: &[Patch], key: u32) -> (r: Option<u64>)
    ensures
        r == patch_for(patches@, key as int, 0),
{
    let mut i: usize = 0;
    while i < patches.len()
        invariant
            i <= patches.len(),
            patch_for(patches@, key as int, 0) == patch_for(patches@, key as int, i as int),
        decreases patches.len() - i,
    {
        if patches[i].key == key {
            return Some(patches[i].value);
        }
        i = i + 1;
    }
    None
}

/// What stands behind the argument that is written does not change.
proof fn readable_after(args: Seq<u8>, patches: Seq<Patch>, at: int, part: Seq<u8>, idx: int)
    requires
        0 <= at,
        at + part.len() <= idx,
        at + part.len() <= args.len(),
        readable(args, patches, idx),
    ensures
        readable(spliced(args, at, part), patches, idx),
    decreases left(args, idx),
{
    let b = spliced(args, at, part);
    if idx < args.len() {
        assert(u32_at(b, idx) == u32_at(args, idx));
        assert(u32_at(b, idx + 4) == u32_at(args, idx + 4));
        readable_after(args, patches, at, part, idx + 8 + u32_at(args, idx + 4));
    }
}

/// Puts values under their names in the boot arguments.
pub fn patch_bootargs(args: &mut Vec<u8>, patches: &[Patch])
    requires
        readable(old(args)@, patches@, 0),
    ensures
        final(args)@ == patched(old(args)@, patches@, 0),
        final(args).len() == old(args).len(),
{
    let mut idx: usize = 0;
    let n: usize = args.len();
    while idx < n
        invariant
            n == args.len(),
            args.len() == old(args).len(),
            idx <= n,
            readable(args@, patches@, idx as int),
            patched(old(args)@, patches@, 0) == patched(args@, patches@, idx as int),
        decreases n - idx,
    {
        let ghost before = args@;
        let key: u32 = read_u32(args.as_slice(), idx);
        let size: u32 = read_u32(args.as_slice(), idx + 4);
        let at: usize = idx + 8;
        if let Some(v) = find_patch(patches, key) {
            let mut bytes: Vec<u8> = Vec::new();
            crate::bytes::put_u64(&mut bytes, v);
            proof {
                crate::bytes::u64_round_trip(v as int);
                assert(bytes@ =~= u64_le(v as int));
            }
            let part = crate::bytes::copy_range(&bytes, 0, size as usize);
            splice(args, at, &part);
            proof {
                readable_after(before, patches@, at as int, part@, at + size);
            }
        }
        proof {
            // Behind the end there is nothing left to be written.
            assert(at + size >= n ==> patched(args@, patches@, at + size) == args@);
            assert(patched(args@, patches@, n as int) == args@);
            assert(patched(before, patches@, idx as int) == patched(args@, patches@, at + size));
        }
        idx = argument_end(at, size, n);
    }
}

/// Where the argument ends whose bytes start at `at`, which is no further than
/// the end of all.
fn argument_end(at: usize, size: u32, n: usize) -> (end: usize)
    requires
        at <= n,
    ensures
        end == (if at + size < n {
            at + size
        } else {
            n as int
        }),
{
    if n - at > size as usize {
        at + size as usize
    } else {
        n
    }
}

/// Whether values can be put under their names in these boot arguments.
pub fn bootargs_readable(args: &[u8], patches: &[Patch]) -> (r: bool)
    ensures
        r == readable(args@, patches@, 0),
{
    let mut idx: usize = 0;
    let n: usize = args.len();
    while idx < n
        invariant
            n == args.len(),
            idx <= n,
            readable(args@, patches@, 0) == readable(args@, patches@, idx as int),
        decreases n - idx,
    {
        if n - idx < 8 {
            return false;
        }
        let size: u32 = read_u32(args, idx + 4);
        let at: usize = idx + 8;
        if find_patch(patches, read_u32(args, idx)).is_some() && (size > 8 || size as usize > n
            - at) {
            return false;
        }
        assert(at + size >= n ==> readable(args@, patches@, at + size));
        assert(readable(args@, patches@, n as int));
        idx = argument_end(at, size, n);
    }
    true
}

pub open spec fn patches_of(c: AopHwConfig) -> Seq<Patch> {
    seq![
        Patch { key: 0x4543_3070, value: c.ec0p },
        Patch { key: 0x6e43_616c, value: 0 },
        Patch { key: 0x616c_6967, value: c.alig },
        Patch { key: 0x414f_5074, value: c.aopt },
    ]
}

/// The values that complete a machine's boot arguments. The names are `EC0p`,
/// `nCal`, `alig` and `AOPt`.
pub fn boot_patches(c: &AopHwConfig) -> (v: Vec<Patch>)
    ensures
        v@ == patches_of(*c),
{
    let mut v: Vec<Patch> = Vec::new();
    v.push(Patch { key: 0x4543_3070, value: c.ec0p });
    v.push(Patch { key: 0x6e43_616c, value: 0 });
    v.push(Patch { key: 0x616c_6967, value: c.alig });
    v.push(Patch { key: 0x414f_5074, value: c.aopt });
    v
}

/// The control word of a processor that runs.
pub open spec fn running(control: u32) -> u32 {
    control | 0x10u32
}

/// The control word that starts the processor.
pub fn start_cpu<L: FakehidListener>(aop: &mut AopData<L>, control: u32) -> (w: u32)
    ensures
        w == control | 0x10u32,
        w == running(control),
        *final(aop) == (AopData { cpu_started: true, ..*old(aop) }),
{
    aop.cpu_started = true;
    control | CPU_RUN
}

/// Whether two states of the core differ at most in which endpoints are started.
pub open spec fn same_but_started<L: FakehidListener>(a: AopData<L>, b: AopData<L>) -> bool {
    &&& a.epic_v4 == b.epic_v4
    &&& a.quiesce_on_unbind == b.quiesce_on_unbind
    &&& a.required == b.required
    &&& a.removing == b.removing
    &&& a.transport_closing == b.transport_closing
    &&& a.cpu_started == b.cpu_started
    &&& a.rtkit == b.rtkit
    &&& a.services == b.services
    &&& a.listeners == b.listeners
    &&& a.endpoints.len() == b.endpoints.len()
    &&& forall|j: int|
        0 <= j < a.endpoints.len() ==> (#[trigger] a.endpoints@[j]) == (AFKEndpoint {
            started: a.endpoints@[j].started,
            ..b.endpoints@[j]
        })
}

// ---------------------------------------------------------------------------
// Starting the endpoints.
// ---------------------------------------------------------------------------
/// What is to be done next.
#[derive(Clone, Copy, Debug, PartialEq, Eq, Structural)]
pub enum StartAsk {
    /// See whether the firmware has the endpoint.
    Look(u8),
    /// Start it, and send it the first message of its setup.
    Start(u8),
    Done,
    Failed(Errno),
}

/// What happened.
#[derive(Clone, Copy, Debug)]
pub enum StartEvent {
    Begin,
    /// Whether the firmware has the endpoint; nothing if the transport is gone.
    Seen(Option<bool>),
    Started(Result<(), Errno>),
}

/// Starting the endpoints one after the other.
#[derive(Clone, Copy, Debug, PartialEq, Eq, Structural)]
pub struct StartAfk {
    pub at: u8,
}

/// On to the next endpoint, if there is one.
pub open spec fn start_next(at: int) -> (StartAfk, StartAsk) {
    if at < 15 {
        (StartAfk { at: at as u8 }, StartAsk::Look((0x20 + at) as u8))
    } else {
        (StartAfk { at: 15 }, StartAsk::Done)
    }
}

pub open spec fn start_step(m: StartAfk, required: Seq<u8>, e: StartEvent) -> (StartAfk, StartAsk) {
    match e {
        StartEvent::Begin => start_next(0),
        StartEvent::Seen(None) => (m, StartAsk::Failed(Errno::ENODEV)),
        StartEvent::Seen(Some(false)) => start_next(m.at + 1),
        StartEvent::Seen(Some(true)) => (m, StartAsk::Start((0x20 + m.at) as u8)),
        StartEvent::Started(Ok(_)) => start_next(m.at + 1),
        StartEvent::Started(Err(e)) => if must_start(required, (0x20 + m.at) as u8) {
            (m, StartAsk::Failed(e))
        } else {
            start_next(m.at + 1)
        },
    }
}

impl StartAfk {
    pub fn start() -> (m: StartAfk)
        ensures
            m.at == 0,
    {
        StartAfk { at: 0 }
    }

    fn next(&mut self, at: u8) -> (a: StartAsk)
        requires
            at <= 15,
        ensures
            (*final(self), a) == start_next(at as int),
    {
        if at < AFK_ENDPOINT_COUNT {
            self.at = at;
            StartAsk::Look(AFK_ENDPOINT_START + at)
        } else {
            self.at = 15;
            StartAsk::Done
        }
    }

    /// Takes in what happened and says what comes next. An endpoint that does
    /// not have to start is passed over where it fails to.
    pub fn step<L: FakehidListener>(&mut self, aop: &mut AopData<L>, e: StartEvent) -> (a: StartAsk)
        requires
            old(aop).inv(),
            old(self).at < 15,
        ensures
            final(aop).inv(),
            (*final(self), a) == start_step(*old(self), old(aop).required@, e),
            final(self).at <= 15,
            same_but_started(*final(aop), *old(aop)),
            started_ones(*final(aop)) == (if e matches StartEvent::Started(r) && r is Ok {
                started_ones(*old(aop)).update(old(self).at as int, true)
            } else {
                started_ones(*old(aop))
            }),
    {
        match e {
            StartEvent::Begin => self.next(0),
            StartEvent::Seen(there) => match there {
                None => StartAsk::Failed(Errno::ENODEV),
                Some(true) => StartAsk::Start(AFK_ENDPOINT_START + self.at),
                Some(false) => self.next(self.at + 1),
            },
            StartEvent::Started(r) => match r {
                Ok(_) => {
                    let i: usize = self.at as usize;
                    aop.endpoints[i].started = true;
                    assert(started_ones(*aop) =~= started_ones(*old(aop)).update(i as int, true));
                    self.next(self.at + 1)
                },
                Err(e) => {
                    if aop.is_required(AFK_ENDPOINT_START + self.at) {
                        StartAsk::Failed(e)
                    } else {
                        self.next(self.at + 1)
                    }
                },
            },
        }
    }
}

/// An endpoint that has to start and does not ends the start; one that does not
/// have to is passed over, and the start comes to its end whatever it does.
pub proof fn only_required_failures_count(m: StartAfk, required: Seq<u8>, e: Errno)
    requires
        m.at < 15,
    ensures
        start_step(m, required, StartEvent::Started(Err(e))).1 is Failed <==> must_start(
            required,
            (0x20 + m.at) as u8,
        ),
        !must_start(required, (0x20 + m.at) as u8) ==> start_step(
            m,
            required,
            StartEvent::Started(Err(e)),
        ) == start_next(m.at + 1),
{
}

// ---------------------------------------------------------------------------
// Stopping the endpoints.
// ---------------------------------------------------------------------------
/// What is to be done next.
#[derive(Clone, Copy, Debug, PartialEq, Eq, Structural)]
pub enum StopAsk {
    /// Tell the endpoint to shut down.
    Shutdown(u8),
    /// Wait for its acknowledgement.
    Await(u8),
    /// All are stopped: the first error, if there was one.
    Done(Option<Errno>),
}

/// What happened.
#[derive(Clone, Copy, Debug)]
pub enum StopEvent {
    Told(Result<(), Errno>),
    /// Whether the acknowledgement came in time.
    Acknowledged(bool),
}

/// Stopping the endpoints that were started, one after the other.
#[derive(Clone, Copy, Debug)]
pub struct Stop {
    pub at: u8,
    pub first: Option<Errno>,
}

/// The next endpoint from `at` on that was started.
pub open spec fn next_started(started: Seq<bool>, at: int) -> Option<int>
    decreases started.len() - at,
{
    if at < 0 || at >= started.len() {
        None
    } else if started[at] {
        Some(at)
    } else {
        next_started(started, at + 1)
    }
}

/// The first of two errors.
pub open spec fn first_of(a: Option<Errno>, b: Errno) -> Option<Errno> {
    match a {
        Some(e) => Some(e),
        None => Some(b),
    }
}

/// Which endpoints are started.
pub open spec fn started_ones<L: FakehidListener>(aop: AopData<L>) -> Seq<bool> {
    Seq::new(aop.endpoints.len() as nat, |i: int| aop.endpoints@[i].started)
}

/// Where a stop stands: the machine, which endpoints are started, and what is
/// asked.
pub struct StopState {
    pub m: Stop,
    pub started: Seq<bool>,
    pub ask: StopAsk,
}

/// On to the next started endpoint from `from` on.
pub open spec fn stop_found(started: Seq<bool>, from: int, first: Option<Errno>) -> StopState {
    match next_started(started, from) {
        Some(i) => StopState {
            m: Stop { at: i as u8, first },
            started: started.update(i, false),
            ask: StopAsk::Shutdown((0x20 + i) as u8),
        },
        None => StopState { m: Stop { at: 15, first }, started, ask: StopAsk::Done(first) },
    }
}

/// What comes after an event. Whatever fails, the rest are stopped too.
pub open spec fn stop_step(m: Stop, started: Seq<bool>, e: StopEvent) -> StopState {
    match e {
        StopEvent::Told(Ok(_)) => StopState {
            m,
            started,
            ask: StopAsk::Await((0x20 + m.at) as u8),
        },
        StopEvent::Told(Err(f)) => stop_found(started, m.at + 1, first_of(m.first, f)),
        StopEvent::Acknowledged(ok) => stop_found(
            started,
            m.at + 1,
            if ok {
                m.first
            } else {
                first_of(m.first, Errno::ETIMEDOUT)
            },
        ),
    }
}

impl Stop {
    /// Starts to stop. Without the transport nothing can be stopped.
    pub fn start<L: FakehidListener>(aop: &mut AopData<L>) -> (r: Result<(Stop, StopAsk), Errno>)
        requires
            old(aop).inv(),
        ensures
            final(aop).inv(),
            match r {
                Err(e) => !old(aop).rtkit && e == Errno::ENODEV && *final(aop) == *old(aop),
                Ok((m, a)) => {
                    &&& old(aop).rtkit
                    &&& same_but_started(*final(aop), *old(aop))
                    &&& (StopState { m, started: started_ones(*final(aop)), ask: a })
                        == stop_found(started_ones(*old(aop)), 0, None)
                },
            },
    {
        if !aop.rtkit {
            return Err(Errno::ENODEV);
        }
        let mut m = Stop { at: 0, first: None };
        let a = m.next(aop, 0);
        Ok((m, a))
    }

    /// Goes on to the next started endpoint, which counts as stopped from here
    /// on.
    fn next<L: FakehidListener>(&mut self, aop: &mut AopData<L>, from: u8) -> (a: StopAsk)
        requires
            old(aop).inv(),
            from <= 15,
        ensures
            final(aop).inv(),
            same_but_started(*final(aop), *old(aop)),
            (StopState { m: *final(self), started: started_ones(*final(aop)), ask: a })
                == stop_found(started_ones(*old(aop)), from as int, old(self).first),
    {
        let mut i: u8 = from;
        while i < AFK_ENDPOINT_COUNT
            invariant
                from <= i <= 15,
                aop.inv(),
                *aop == *old(aop),
                *self == *old(self),
                next_started(started_ones(*aop), from as int) == next_started(
                    started_ones(*aop),
                    i as int,
                ),
            decreases 15 - i,
        {
            if aop.endpoints[i as usize].started {
                aop.endpoints[i as usize].started = false;
                self.at = i;
                assert(started_ones(*aop) =~= started_ones(*old(aop)).update(i as int, false));
                return StopAsk::Shutdown(AFK_ENDPOINT_START + i);
            }
            i = i + 1;
        }
        self.at = 15;
        StopAsk::Done(self.first)
    }

    /// Takes in what happened. Whatever fails, the rest are stopped too.
    pub fn step<L: FakehidListener>(&mut self, aop: &mut AopData<L>, e: StopEvent) -> (a: StopAsk)
        requires
            old(aop).inv(),
            old(self).at < 15,
        ensures
            final(aop).inv(),
            same_but_started(*final(aop), *old(aop)),
            (StopState { m: *final(self), started: started_ones(*final(aop)), ask: a })
                == stop_step(*old(self), started_ones(*old(aop)), e),
    {
        match e {
            StopEvent::Told(r) => match r {
                Ok(_) => StopAsk::Await(AFK_ENDPOINT_START + self.at),
                Err(f) => {
                    if self.first.is_none() {
                        self.first = Some(f);
                    }
                    self.next(aop, self.at + 1)
                },
            },
            StopEvent::Acknowledged(ok) => {
                if !ok && self.first.is_none() {
                    self.first = Some(Errno::ETIMEDOUT);
                }
                self.next(aop, self.at + 1)
            },
        }
    }
}

/// When the stop comes to its end, no endpoint from where it stood on is started
/// any more.
pub proof fn stop_leaves_none_started(started: Seq<bool>, from: int, i: int)
    requires
        0 <= from <= i < started.len(),
        next_started(started, from) is None,
    ensures
        !started[i],
    decreases started.len() - from,
{
    if from < i {
        stop_leaves_none_started(started, from + 1, i);
    }
}

/// How stopping each of the endpoints would go: whether it can be told, and
/// whether it acknowledges in time.
pub struct StopFates {
    pub told: Seq<Result<(), Errno>>,
    pub acknowledged: Seq<bool>,
}

/// What goes wrong with stopping the endpoint `i`, if anything does.
pub open spec fn stop_fault(f: StopFates, i: int) -> Option<Errno> {
    match f.told[i] {
        Err(e) => Some(e),
        Ok(_) => if f.acknowledged[i] {
            None
        } else {
            Some(Errno::ETIMEDOUT)
        },
    }
}

/// What a run of a stop comes to.
#[verifier::ext_equal]
pub struct StopRun {
    /// The endpoints that were told to shut down, in order.
    pub told: Seq<u8>,
    /// Which endpoints are started at the end.
    pub started: Seq<bool>,
    /// The result, if the end was reached.
    pub result: Option<Option<Errno>>,
}

/// A run of at most `steps` steps from a state on.
pub open spec fn stop_run(s: StopState, f: StopFates, steps: nat) -> StopRun
    decreases steps,
{
    match s.ask {
        StopAsk::Done(r) => StopRun { told: Seq::empty(), started: s.started, result: Some(r) },
        _ => if steps == 0 {
            StopRun { told: Seq::empty(), started: s.started, result: None }
        } else {
            match s.ask {
                StopAsk::Shutdown(ep) => {
                    let rest = stop_run(
                        stop_step(s.m, s.started, StopEvent::Told(f.told[s.m.at as int])),
                        f,
                        (steps - 1) as nat,
                    );
                    StopRun { told: seq![ep] + rest.told, ..rest }
                },
                _ => stop_run(
                    stop_step(
                        s.m,
                        s.started,
                        StopEvent::Acknowledged(f.acknowledged[s.m.at as int]),
                    ),
                    f,
                    (steps - 1) as nat,
                ),
            }
        },
    }
}

/// The started endpoints from `from` on, in order.
pub open spec fn started_from(started: Seq<bool>, from: int) -> Seq<u8>
    decreases started.len() - from,
{
    if from < 0 || from >= started.len() {
        Seq::empty()
    } else if started[from] {
        seq![(0x20 + from) as u8] + started_from(started, from + 1)
    } else {
        started_from(started, from + 1)
    }
}

/// What goes wrong first with the started endpoints from `from` on.
pub open spec fn first_fault(started: Seq<bool>, f: StopFates, from: int) -> Option<Errno>
    decreases started.len() - from,
{
    if from < 0 || from >= started.len() {
        None
    } else if started[from] && stop_fault(f, from) is Some {
        stop_fault(f, from)
    } else {
        first_fault(started, f, from + 1)
    }
}

proof fn next_started_skips(started: Seq<bool>, f: StopFates, from: int)
    requires
        0 <= from <= started.len(),
    ensures
        match next_started(started, from) {
            Some(i) => {
                &&& from <= i < started.len()
                &&& started[i]
                &&& forall|j: int| from <= j < i ==> !started[j]
                &&& started_from(started, from) == seq![(0x20 + i) as u8] + started_from(
                    started,
                    i + 1,
                )
                &&& first_fault(started, f, from) == (if stop_fault(f, i) is Some {
                    stop_fault(f, i)
                } else {
                    first_fault(started, f, i + 1)
                })
            },
            None => {
                &&& forall|j: int| from <= j < started.len() ==> !started[j]
                &&& started_from(started, from) == Seq::<u8>::empty()
                &&& first_fault(started, f, from) is None
            },
        },
    decreases started.len() - from,
{
    if from < started.len() && !started[from] {
        next_started_skips(started, f, from + 1);
    }
}

proof fn stopped_before_does_not_matter(started: Seq<bool>, f: StopFates, i: int, from: int)
    requires
        0 <= i < from <= started.len(),
    ensures
        started_from(started.update(i, false), from) == started_from(started, from),
        first_fault(started.update(i, false), f, from) == first_fault(started, f, from),
    decreases started.len() - from,
{
    if from < started.len() {
        stopped_before_does_not_matter(started, f, i, from + 1);
    }
}

proof fn stop_runs_on(
    started: Seq<bool>,
    f: StopFates,
    from: int,
    first: Option<Errno>,
    steps: nat,
)
    requires
        started.len() == 15,
        f.told.len() == 15,
        f.acknowledged.len() == 15,
        0 <= from <= 15,
        steps >= 2 * (15 - from),
    ensures
        ({
            let r = stop_run(stop_found(started, from, first), f, steps);
            &&& r.told == started_from(started, from)
            &&& r.result == Some(
                match first {
                    Some(e) => Some(e),
                    None => first_fault(started, f, from),
                },
            )
            &&& r.started.len() == 15
            &&& forall|j: int| 0 <= j < 15 ==> #[trigger] r.started[j] == (started[j] && j < from)
        }),
    decreases 15 - from,
{
    next_started_skips(started, f, from);
    if let Some(i) = next_started(started, from) {
        let s = stop_found(started, from, first);
        let e = StopEvent::Told(f.told[i]);
        let next = stop_step(s.m, s.started, e);
        stopped_before_does_not_matter(started, f, i, i + 1);
        match f.told[i] {
            Err(x) => {
                stop_runs_on(s.started, f, i + 1, first_of(first, x), (steps - 1) as nat);
            },
            Ok(_) => {
                let after = if f.acknowledged[i] {
                    first
                } else {
                    first_of(first, Errno::ETIMEDOUT)
                };
                stop_runs_on(s.started, f, i + 1, after, (steps - 2) as nat);
                assert(next.m.at == i && next.ask is Await);
                assert(stop_run(next, f, (steps - 1) as nat) == stop_run(
                    stop_found(s.started, i + 1, after),
                    f,
                    (steps - 2) as nat,
                ));
            },
        }
    }
}

/// A stop comes to its end whatever fails: each endpoint that was started is
/// told once, in order, none of them counts as started any more, and the result
/// is the error of the first that something went wrong with.
pub proof fn stop_tells_all_and_gives_first_error(started: Seq<bool>, f: StopFates, steps: nat)
    requires
        started.len() == 15,
        f.told.len() == 15,
        f.acknowledged.len() == 15,
        steps >= 30,
    ensures
        ({
            let r = stop_run(stop_found(started, 0, None), f, steps);
            &&& r.told == started_from(started, 0)
            &&& r.result == Some(first_fault(started, f, 0))
            &&& forall|j: int| 0 <= j < 15 ==> !#[trigger] r.started[j]
        }),
{
    stop_runs_on(started, f, 0, None, steps);
}

// ---------------------------------------------------------------------------
// Taking the core down.
// ---------------------------------------------------------------------------
/// The steps of taking the core down, in order.
#[derive(Clone, Copy, Debug, PartialEq, Eq, Structural)]
pub enum RemoveAsk {
    /// Wait for the registrations that are under way.
    DrainRegistrations,
    /// Unbind the services' drivers, which may still talk to their services.
    ReleaseDrivers,
    /// Drop the listeners that were left behind, and start no more calls.
    CloseTransport,
    StopEndpoints,
    /// Shut the processor down.
    ShutDown,
    /// Let go of the transport; whether its buffers are to be kept.
    DropTransport(bool),
    CloseSetupPort,
    /// Wait for the setup port's messages that are under way.
    DrainSetup,
    /// Keep what the firmware may still use, keep the services' devices from
    /// being bound, and the core from coming up again.
    Retire,
    /// Free the arena and unregister the services' devices.
    Free,
    Done,
}

/// Taking the core down.
#[derive(Clone, Copy, Debug, PartialEq, Eq, Structural)]
pub struct Remove {
    pub ask: RemoveAsk,
    /// The transport is there.
    pub rtkit: bool,
    /// The processor has to be shut down.
    pub quiesce: bool,
    /// There is a setup port.
    pub setup_port: bool,
    /// Nothing is left running, as far as is known.
    pub quiesced: bool,
}

/// How taking a core down starts.
pub open spec fn remove_start<L: FakehidListener>(aop: AopData<L>, setup_port: bool) -> Remove {
    Remove {
        ask: RemoveAsk::DrainRegistrations,
        rtkit: aop.rtkit,
        quiesce: aop.quiesce_on_unbind && aop.cpu_started,
        setup_port,
        quiesced: true,
    }
}

/// What comes after a step. Only for the shutdown does it matter how it went.
pub open spec fn remove_next(m: Remove, ok: bool) -> Remove {
    let (ask, quiesced) = match m.ask {
        RemoveAsk::DrainRegistrations => (RemoveAsk::ReleaseDrivers, m.quiesced),
        RemoveAsk::ReleaseDrivers => (RemoveAsk::CloseTransport, m.quiesced),
        RemoveAsk::CloseTransport => (RemoveAsk::StopEndpoints, m.quiesced),
        RemoveAsk::StopEndpoints => (
            if !m.rtkit {
                RemoveAsk::CloseSetupPort
            } else if m.quiesce {
                RemoveAsk::ShutDown
            } else {
                RemoveAsk::DropTransport(false)
            },
            m.quiesced,
        ),
        RemoveAsk::ShutDown => (RemoveAsk::DropTransport(!ok), ok),
        RemoveAsk::DropTransport(_) => (RemoveAsk::CloseSetupPort, m.quiesced),
        RemoveAsk::CloseSetupPort => (
            if m.setup_port {
                RemoveAsk::DrainSetup
            } else if m.quiesced {
                RemoveAsk::Free
            } else {
                RemoveAsk::Retire
            },
            m.quiesced,
        ),
        RemoveAsk::DrainSetup => (
            if m.quiesced {
                RemoveAsk::Free
            } else {
                RemoveAsk::Retire
            },
            m.quiesced,
        ),
        RemoveAsk::Retire => (RemoveAsk::Done, m.quiesced),
        RemoveAsk::Free => (RemoveAsk::Done, m.quiesced),
        RemoveAsk::Done => (RemoveAsk::Done, m.quiesced),
    };
    Remove { ask, quiesced, ..m }
}

impl Remove {
    /// Starts to take the core down. A core that is going away already is left
    /// alone.
    pub fn start<L: FakehidListener>(aop: &mut AopData<L>, setup_port: bool) -> (r: Option<Remove>)
        requires
            old(aop).inv(),
        ensures
            final(aop).inv(),
            *final(aop) == (AopData { removing: true, ..*old(aop) }),
            r == (if old(aop).removing {
                None
            } else {
                Some(remove_start(*old(aop), setup_port))
            }),
    {
        if !aop.remove() {
            return None;
        }
        Some(
            Remove {
                ask: RemoveAsk::DrainRegistrations,
                rtkit: aop.rtkit,
                quiesce: aop.quiesce_on_unbind && aop.cpu_started,
                setup_port,
                quiesced: true,
            },
        )
    }

    /// Notes that the step is done, and how it went.
    pub fn done(&mut self, ok: bool)
        ensures
            *final(self) == remove_next(*old(self), ok),
    {
        self.ask = match self.ask {
            RemoveAsk::DrainRegistrations => RemoveAsk::ReleaseDrivers,
            RemoveAsk::ReleaseDrivers => RemoveAsk::CloseTransport,
            RemoveAsk::CloseTransport => RemoveAsk::StopEndpoints,
            RemoveAsk::StopEndpoints => {
                if !self.rtkit {
                    RemoveAsk::CloseSetupPort
                } else if self.quiesce {
                    RemoveAsk::ShutDown
                } else {
                    RemoveAsk::DropTransport(false)
                }
            },
            RemoveAsk::ShutDown => {
                self.quiesced = ok;
                RemoveAsk::DropTransport(!ok)
            },
            RemoveAsk::DropTransport(_) => RemoveAsk::CloseSetupPort,
            RemoveAsk::CloseSetupPort => {
                if self.setup_port {
                    RemoveAsk::DrainSetup
                } else if self.quiesced {
                    RemoveAsk::Free
                } else {
                    RemoveAsk::Retire
                }
            },
            RemoveAsk::DrainSetup => {
                if self.quiesced {
                    RemoveAsk::Free
                } else {
                    RemoveAsk::Retire
                }
            },
            RemoveAsk::Retire => RemoveAsk::Done,
            RemoveAsk::Free => RemoveAsk::Done,
            RemoveAsk::Done => RemoveAsk::Done,
        };
    }
}

/// Nothing is freed that a processor may still write to: once a shutdown was not
/// confirmed, all is kept.
pub proof fn unconfirmed_is_never_freed(m: Remove, ok: bool)
    ensures
        remove_next(m, ok).ask == RemoveAsk::Free ==> m.quiesced && remove_next(m, ok).quiesced,
        m.ask == RemoveAsk::ShutDown && !ok ==> !remove_next(m, ok).quiesced && remove_next(
            m,
            ok,
        ).ask == RemoveAsk::DropTransport(true),
        m.ask != RemoveAsk::ShutDown ==> remove_next(m, ok).quiesced == m.quiesced,
{
}

/// The services' drivers are unbound while calls can still be made, and nothing
/// is let go of before the endpoints were told to stop.
pub proof fn drivers_leave_first(m: Remove, ok: bool)
    ensures
        remove_next(m, ok).ask == RemoveAsk::CloseTransport ==> m.ask == RemoveAsk::ReleaseDrivers,
        remove_next(m, ok).ask == RemoveAsk::StopEndpoints ==> m.ask == RemoveAsk::CloseTransport,
        remove_next(m, ok).ask is DropTransport ==> m.ask == RemoveAsk::StopEndpoints || m.ask
            == RemoveAsk::ShutDown,
{
}

/// The machine after the first `n` steps, given how each of them went.
pub open spec fn remove_run(m: Remove, oks: Seq<bool>, n: int) -> Remove
    decreases n,
{
    if n <= 0 {
        m
    } else {
        remove_next(remove_run(m, oks, n - 1), oks[n - 1])
    }
}

/// How far a removal has come.
spec fn remove_rank(a: RemoveAsk) -> int {
    match a {
        RemoveAsk::DrainRegistrations => 0,
        RemoveAsk::ReleaseDrivers => 1,
        RemoveAsk::CloseTransport => 2,
        RemoveAsk::StopEndpoints => 3,
        RemoveAsk::ShutDown => 4,
        RemoveAsk::DropTransport(_) => 5,
        RemoveAsk::CloseSetupPort => 6,
        RemoveAsk::DrainSetup => 7,
        RemoveAsk::Retire => 8,
        RemoveAsk::Free => 8,
        RemoveAsk::Done => 9,
    }
}

/// A whole removal: it comes to its end whatever fails, its steps come in
/// order, and anything is freed only if every shutdown that was asked for on
/// the way was confirmed.
pub proof fn removal_frees_only_what_is_safe<L: FakehidListener>(
    aop: AopData<L>,
    setup_port: bool,
    oks: Seq<bool>,
    n: int,
)
    requires
        0 <= n <= oks.len(),
    ensures
        ({
            let m = remove_run(remove_start(aop, setup_port), oks, n);
            &&& n >= 9 ==> m.ask == RemoveAsk::Done
            &&& m.ask == RemoveAsk::Free ==> forall|j: int|
                0 <= j < n && (#[trigger] remove_run(
                    remove_start(aop, setup_port),
                    oks,
                    j,
                )).ask == RemoveAsk::ShutDown ==> oks[j]
            &&& m.ask == RemoveAsk::Retire ==> exists|j: int|
                0 <= j < n && (#[trigger] remove_run(
                    remove_start(aop, setup_port),
                    oks,
                    j,
                )).ask == RemoveAsk::ShutDown && !oks[j]
        }),
{
    removal_advances(remove_start(aop, setup_port), oks, n);
}

proof fn removal_advances(m0: Remove, oks: Seq<bool>, n: int)
    requires
        0 <= n <= oks.len(),
        m0.ask == RemoveAsk::DrainRegistrations,
        m0.quiesced,
    ensures
        ({
            let m = remove_run(m0, oks, n);
            &&& m.ask == RemoveAsk::Done || remove_rank(m.ask) >= n
            &&& m.quiesced == (forall|j: int|
                0 <= j < n && (#[trigger] remove_run(m0, oks, j)).ask == RemoveAsk::ShutDown
                    ==> oks[j])
            &&& m.ask == RemoveAsk::Free ==> m.quiesced
            &&& m.ask == RemoveAsk::Retire ==> !m.quiesced
            &&& remove_rank(m.ask) <= 4 ==> m.quiesced
        }),
    decreases n,
{
    if n > 0 {
        removal_advances(m0, oks, n - 1);
        let before = remove_run(m0, oks, n - 1);
        let m = remove_run(m0, oks, n);
        if before.ask == RemoveAsk::ShutDown {
            assert(before.quiesced);
            if oks[n - 1] {
                assert forall|j: int|
                    0 <= j < n && (#[trigger] remove_run(m0, oks, j)).ask
                        == RemoveAsk::ShutDown implies oks[j] by {
                    if j < n - 1 {
                        assert(remove_run(m0, oks, j).ask == RemoveAsk::ShutDown);
                    }
                }
            } else {
                assert(remove_run(m0, oks, n - 1).ask == RemoveAsk::ShutDown && !oks[n - 1]);
            }
        }
    }
}

// ---------------------------------------------------------------------------
// Bringing the core up.
// ---------------------------------------------------------------------------
/// The steps of bringing the core up.
#[derive(Clone, Copy, Debug, PartialEq, Eq, Structural)]
pub enum ProbeAsk {
    SetDmaMask,
    MapAop,
    MapAsc,
    MakeData,
    PatchBootargs,
    MakeTransport,
    OpenSetupPort,
    StartCpu,
    Wake,
    FinishSetup,
    StartEndpoints,
    Done,
    Failed(Errno),
    /// Take down what was brought up, and fail.
    TakeDown(Errno),
}

/// Bringing the core up.
#[derive(Clone, Copy, Debug, PartialEq, Eq, Structural)]
pub struct Probe {
    pub ask: ProbeAsk,
    pub patch_bootargs: bool,
    pub setup_port: bool,
}

/// The step that follows one which succeeded.
pub open spec fn probe_after(m: Probe) -> ProbeAsk {
    match m.ask {
        ProbeAsk::SetDmaMask => ProbeAsk::MapAop,
        ProbeAsk::MapAop => ProbeAsk::MapAsc,
        ProbeAsk::MapAsc => ProbeAsk::MakeData,
        ProbeAsk::MakeData => if m.patch_bootargs {
            ProbeAsk::PatchBootargs
        } else {
            ProbeAsk::MakeTransport
        },
        ProbeAsk::PatchBootargs => ProbeAsk::MakeTransport,
        ProbeAsk::MakeTransport => if m.setup_port {
            ProbeAsk::OpenSetupPort
        } else {
            ProbeAsk::StartCpu
        },
        ProbeAsk::OpenSetupPort => ProbeAsk::StartCpu,
        ProbeAsk::StartCpu => ProbeAsk::Wake,
        ProbeAsk::Wake => if m.setup_port {
            ProbeAsk::FinishSetup
        } else {
            ProbeAsk::StartEndpoints
        },
        ProbeAsk::FinishSetup => ProbeAsk::StartEndpoints,
        ProbeAsk::StartEndpoints => ProbeAsk::Done,
        other => other,
    }
}

/// Whether there is nothing to take down yet.
pub open spec fn is_early(a: ProbeAsk) -> bool {
    a is SetDmaMask || a is MapAop || a is MapAsc || a is MakeData
}

pub open spec fn is_over(a: ProbeAsk) -> bool {
    a is Done || a is Failed || a is TakeDown
}

pub open spec fn probe_next(m: Probe, r: Result<(), Errno>) -> Probe {
    if is_over(m.ask) {
        m
    } else {
        match r {
            Ok(_) => Probe { ask: probe_after(m), ..m },
            Err(e) => Probe {
                ask: if is_early(m.ask) {
                    ProbeAsk::Failed(e)
                } else {
                    ProbeAsk::TakeDown(e)
                },
                ..m
            },
        }
    }
}

impl Probe {
    /// Starts to bring the core up on a machine. A machine that is not
    /// supported is refused, and so is any after an earlier core could not be
    /// shut down.
    pub fn start(machine: Option<AopMachine>, retired: bool) -> (r: Result<Probe, Errno>)
        ensures
            match machine {
                Some(m) => if retired {
                    r == Err::<Probe, Errno>(Errno::ENODEV)
                } else {
                    r == Ok::<Probe, Errno>(
                        Probe {
                            ask: ProbeAsk::SetDmaMask,
                            patch_bootargs: config_of(m).patch_bootargs,
                            setup_port: config_of(m).setup_port,
                        },
                    )
                },
                None => r == Err::<Probe, Errno>(Errno::ENODEV),
            },
    {
        match machine {
            None => Err(Errno::ENODEV),
            Some(m) => {
                if retired {
                    return Err(Errno::ENODEV);
                }
                let c = config(m);
                Ok(
                    Probe {
                        ask: ProbeAsk::SetDmaMask,
                        patch_bootargs: c.patch_bootargs,
                        setup_port: c.setup_port,
                    },
                )
            },
        }
    }

    fn after(&self) -> (a: ProbeAsk)
        ensures
            a == probe_after(*self),
    {
        match self.ask {
            ProbeAsk::SetDmaMask => ProbeAsk::MapAop,
            ProbeAsk::MapAop => ProbeAsk::MapAsc,
            ProbeAsk::MapAsc => ProbeAsk::MakeData,
            ProbeAsk::MakeData => {
                if self.patch_bootargs {
                    ProbeAsk::PatchBootargs
                } else {
                    ProbeAsk::MakeTransport
                }
            },
            ProbeAsk::PatchBootargs => ProbeAsk::MakeTransport,
            ProbeAsk::MakeTransport => {
                if self.setup_port {
                    ProbeAsk::OpenSetupPort
                } else {
                    ProbeAsk::StartCpu
                }
            },
            ProbeAsk::OpenSetupPort => ProbeAsk::StartCpu,
            ProbeAsk::StartCpu => ProbeAsk::Wake,
            ProbeAsk::Wake => {
                if self.setup_port {
                    ProbeAsk::FinishSetup
                } else {
                    ProbeAsk::StartEndpoints
                }
            },
            ProbeAsk::FinishSetup => ProbeAsk::StartEndpoints,
            ProbeAsk::StartEndpoints => ProbeAsk::Done,
            other => other,
        }
    }

    /// Notes how the step went.
    pub fn done(&mut self, r: Result<(), Errno>)
        ensures
            *final(self) == probe_next(*old(self), r),
    {
        match self.ask {
            ProbeAsk::Done => {},
            ProbeAsk::Failed(_) => {},
            ProbeAsk::TakeDown(_) => {},
            _ => {
                self.ask = match r {
                    Ok(_) => self.after(),
                    Err(e) => match self.ask {
                        ProbeAsk::SetDmaMask => ProbeAsk::Failed(e),
                        ProbeAsk::MapAop => ProbeAsk::Failed(e),
                        ProbeAsk::MapAsc => ProbeAsk::Failed(e),
                        ProbeAsk::MakeData => ProbeAsk::Failed(e),
                        _ => ProbeAsk::TakeDown(e),
                    },
                };
            },
        }
    }
}

/// The setup port is open before the processor runs, and its boot is complete
/// before any endpoint is started. Whatever fails once there is something to
/// take down, it is taken down.
pub proof fn setup_port_comes_in_time(m: Probe, r: Result<(), Errno>)
    requires
        m.setup_port,
        !is_over(m.ask),
    ensures
        probe_next(m, r).ask == ProbeAsk::StartCpu && m.ask != ProbeAsk::StartCpu ==> m.ask
            == ProbeAsk::OpenSetupPort && r is Ok,
        probe_next(m, r).ask == ProbeAsk::StartEndpoints ==> m.ask == ProbeAsk::FinishSetup && r is Ok,
        r is Err && !is_early(m.ask) ==> probe_next(m, r).ask is TakeDown,
{
}

// ---------------------------------------------------------------------------
// Services.
// ---------------------------------------------------------------------------
/// The services that get a device.
#[derive(Clone, Copy, Debug, PartialEq, Eq, Structural)]
pub enum ServiceDevice {
    Audio,
    Las,
    Als,
}

/// `aop-audio`, `las` and `als`.
pub open spec fn device_for(name: Seq<u8>) -> Option<ServiceDevice> {
    if name == seq![0x61u8, 0x6f, 0x70, 0x2d, 0x61, 0x75, 0x64, 0x69, 0x6f] {
        Some(ServiceDevice::Audio)
    } else if name == seq![0x6cu8, 0x61, 0x73] {
        Some(ServiceDevice::Las)
    } else if name == seq![0x61u8, 0x6c, 0x73] {
        Some(ServiceDevice::Als)
    } else {
        None
    }
}

/// Which device to register for a service that announced itself, if any: none
/// for a name that is not known, and none once the core is going away.
pub fn register_service(name: &[u8], removing: bool) -> (r: Option<ServiceDevice>)
    ensures
        r == (if removing {
            None
        } else {
            device_for(name@)
        }),
{
    let audio: [u8; 9] = [0x61, 0x6f, 0x70, 0x2d, 0x61, 0x75, 0x64, 0x69, 0x6f];
    let las: [u8; 3] = [0x6c, 0x61, 0x73];
    let als: [u8; 3] = [0x61, 0x6c, 0x73];
    assert(audio@ =~= seq![0x61u8, 0x6f, 0x70, 0x2d, 0x61, 0x75, 0x64, 0x69, 0x6f]);
    assert(las@ =~= seq![0x6cu8, 0x61, 0x73]);
    assert(als@ =~= seq![0x61u8, 0x6c, 0x73]);
    if removing {
        return None;
    }
    if crate::bytes::same(name, audio.as_slice()) {
        return Some(ServiceDevice::Audio);
    }
    if crate::bytes::same(name, las.as_slice()) {
        return Some(ServiceDevice::Las);
    }
    if crate::bytes::same(name, als.as_slice()) {
        return Some(ServiceDevice::Als);
    }
    None
}

/// The steps of registering a service's device.
#[derive(Clone, Copy, Debug, PartialEq, Eq, Structural)]
pub enum ChildAsk {
    /// Make room for one more device among those that are kept track of.
    Reserve,
    Register,
    /// Keep track of the device.
    Track,
    /// Unregister the device, which cannot be kept track of.
    Unregister,
    Done,
    Failed,
}

/// Registering a service's device. The room for it is made before it exists, so
/// that a device which was registered is always kept track of.
#[derive(Clone, Copy, Debug, PartialEq, Eq, Structural)]
pub struct RegisterChild {
    pub ask: ChildAsk,
}

pub open spec fn child_next(m: RegisterChild, ok: bool) -> RegisterChild {
    RegisterChild {
        ask: match m.ask {
            ChildAsk::Reserve => if ok {
                ChildAsk::Register
            } else {
                ChildAsk::Failed
            },
            ChildAsk::Register => if ok {
                ChildAsk::Track
            } else {
                ChildAsk::Failed
            },
            ChildAsk::Track => if ok {
                ChildAsk::Done
            } else {
                ChildAsk::Unregister
            },
            ChildAsk::Unregister => ChildAsk::Failed,
            other => other,
        },
    }
}

impl RegisterChild {
    pub fn start() -> (m: RegisterChild)
        ensures
            m.ask == ChildAsk::Reserve,
    {
        RegisterChild { ask: ChildAsk::Reserve }
    }

    /// Notes how the step went.
    pub fn done(&mut self, ok: bool)
        ensures
            *final(self) == child_next(*old(self), ok),
    {
        self.ask = match self.ask {
            ChildAsk::Reserve => {
                if ok {
                    ChildAsk::Register
                } else {
                    ChildAsk::Failed
                }
            },
            ChildAsk::Register => {
                if ok {
                    ChildAsk::Track
                } else {
                    ChildAsk::Failed
                }
            },
            ChildAsk::Track => {
                if ok {
                    ChildAsk::Done
                } else {
                    ChildAsk::Unregister
                }
            },
            ChildAsk::Unregister => ChildAsk::Failed,
            other => other,
        };
    }
}

/// A device that was registered is kept track of, or it is unregistered again.
pub proof fn registered_is_tracked(m: RegisterChild, ok: bool)
    ensures
        m.ask == ChildAsk::Register && ok ==> child_next(m, ok).ask == ChildAsk::Track,
        m.ask == ChildAsk::Track ==> child_next(m, ok).ask == (if ok {
            ChildAsk::Done
        } else {
            ChildAsk::Unregister
        }),
        child_next(m, ok).ask == ChildAsk::Register ==> m.ask == ChildAsk::Reserve,
{
}

/// What the machines have: which values complete their boot arguments, and that the last
/// of them needs none of that, boots through the setup port, speaks the fourth version and
/// has to be shut down.
pub proof fn machines_have_their_values(m: AopMachine)
    ensures
        config_of(AopMachine::T8103).ec0p == 0x2_0000,
        config_of(AopMachine::T8103).alig == 128,
        config_of(AopMachine::T8103).aopt == 1,
        config_of(AopMachine::T8112).ec0p == 0x2_0000,
        config_of(AopMachine::T8112).alig == 128,
        config_of(AopMachine::T8112).aopt == 0,
        config_of(AopMachine::T6000).ec0p == 0x2_0000,
        config_of(AopMachine::T6000).alig == 64,
        config_of(AopMachine::T6000).aopt == 0,
        config_of(AopMachine::T6020).ec0p == 0x100_0000_0000,
        config_of(AopMachine::T6020).alig == 64,
        config_of(AopMachine::T6020).aopt == 0,
        config_of(m).patch_bootargs == !(m is T8140),
        config_of(m).epic_v4 == (m is T8140),
        config_of(m).setup_port == (m is T8140),
        config_of(m).quiesce_on_unbind == (m is T8140),
{
}

/// On the last of the machines the endpoints 0x20 to 0x23 and 0x2b have to start; on the
/// others all have to.
pub proof fn endpoints_that_have_to_start(m: AopMachine, ep: u8)
    ensures
        !(m is T8140) ==> must_start(required_on(m), ep),
        m is T8140 ==> (must_start(required_on(m), ep) <==> 0x20 <= ep <= 0x23 || ep == 0x2b),
{
    if m is T8140 {
        let r = seq![0x20u8, 0x21, 0x22, 0x23, 0x2b];
        assert(r[0] == 0x20 && r[1] == 0x21 && r[2] == 0x22 && r[3] == 0x23 && r[4] == 0x2b);
        assert(r.contains(0x20) && r.contains(0x21) && r.contains(0x22) && r.contains(0x23)
            && r.contains(0x2b));
    }
}

/// Under each of the four names stands the machine's own value.
pub proof fn boot_arguments_are_completed(c: AopHwConfig)
    ensures
        patch_for(patches_of(c), 0x4543_3070, 0) == Some(c.ec0p),
        patch_for(patches_of(c), 0x6e43_616c, 0) == Some(0u64),
        patch_for(patches_of(c), 0x616c_6967, 0) == Some(c.alig),
        patch_for(patches_of(c), 0x414f_5074, 0) == Some(c.aopt),
{
    reveal_with_fuel(patch_for, 5);
}

/// An argument that is to be completed takes as many low bytes of its value as it has
/// room for, and its name, its length and what stands around it stay.
pub proof fn argument_takes_its_value(args: Seq<u8>, patches: Seq<Patch>, value: u64)
    requires
        args.len() == 16,
        u32_at(args, 4) == 8,
        patch_for(patches, u32_at(args, 0), 0) == Some(value),
    ensures
        patched(args, patches, 0) == args.subrange(0, 8) + u64_le(value as int),
{
    crate::bytes::u64_round_trip(value as int);
    let part = u64_le(value as int);
    assert(part.subrange(0, 8) =~= part);
    let now = spliced(args, 8, part);
    reveal_with_fuel(patched, 2);
    assert(now =~= args.subrange(0, 8) + part);
    assert(patched(now, patches, 16) == now);
}

/// An argument that is not to be completed is passed over, with its bytes.
pub proof fn other_argument_is_passed_over(args: Seq<u8>, patches: Seq<Patch>)
    requires
        args.len() >= 8,
        patch_for(patches, u32_at(args, 0), 0) is None,
    ensures
        patched(args, patches, 0) == patched(args, patches, 8 + u32_at(args, 4)),
        readable(args, patches, 0) == readable(args, patches, 8 + u32_at(args, 4)),
{
    reveal_with_fuel(patched, 2);
    reveal_with_fuel(readable, 2);
}

/// The endpoints are looked for from 0x20 on, one after the other, through 0x2e, and each
/// that the firmware has is started. Without the transport the start fails.
pub proof fn endpoints_start_in_order(at: u8, required: Seq<u8>)
    requires
        at < 15,
    ensures
        start_step(StartAfk { at: 0 }, required, StartEvent::Begin).1 == StartAsk::Look(0x20),
        ({
            let m = StartAfk { at };
            let next = if at == 14 {
                StartAsk::Done
            } else {
                StartAsk::Look((0x21 + at) as u8)
            };
            &&& start_step(m, required, StartEvent::Seen(Some(true))) == (
                m,
                StartAsk::Start((0x20 + at) as u8),
            )
            &&& start_step(m, required, StartEvent::Seen(Some(false))).1 == next
            &&& start_step(m, required, StartEvent::Started(Ok(()))).1 == next
            &&& start_step(m, required, StartEvent::Seen(None)).1 == StartAsk::Failed(Errno::ENODEV)
        }),
{
}

/// Bringing the core up asks for its steps in this order; the boot arguments are completed
/// only where that is wanted, and the setup port is opened, and its setup finished, only
/// where there is one.
pub proof fn probe_in_order(patch_bootargs: bool, setup_port: bool)
    ensures
        ({
            let p = |ask: ProbeAsk| Probe { ask, patch_bootargs, setup_port };
            &&& probe_after(p(ProbeAsk::SetDmaMask)) == ProbeAsk::MapAop
            &&& probe_after(p(ProbeAsk::MapAop)) == ProbeAsk::MapAsc
            &&& probe_after(p(ProbeAsk::MapAsc)) == ProbeAsk::MakeData
            &&& probe_after(p(ProbeAsk::MakeData)) == if patch_bootargs {
                ProbeAsk::PatchBootargs
            } else {
                ProbeAsk::MakeTransport
            }
            &&& probe_after(p(ProbeAsk::PatchBootargs)) == ProbeAsk::MakeTransport
            &&& probe_after(p(ProbeAsk::MakeTransport)) == if setup_port {
                ProbeAsk::OpenSetupPort
            } else {
                ProbeAsk::StartCpu
            }
            &&& probe_after(p(ProbeAsk::OpenSetupPort)) == ProbeAsk::StartCpu
            &&& probe_after(p(ProbeAsk::StartCpu)) == ProbeAsk::Wake
            &&& probe_after(p(ProbeAsk::Wake)) == if setup_port {
                ProbeAsk::FinishSetup
            } else {
                ProbeAsk::StartEndpoints
            }
            &&& probe_after(p(ProbeAsk::FinishSetup)) == ProbeAsk::StartEndpoints
            &&& probe_after(p(ProbeAsk::StartEndpoints)) == ProbeAsk::Done
        }),
{
}

/// Taking the core down asks for its steps in this order, where the transport and a setup
/// port are there; the processor is shut down only where that is wanted.
pub proof fn removal_asks_in_order(quiesce: bool, confirmed: bool)
    ensures
        ({
            let m0 = Remove {
                ask: RemoveAsk::DrainRegistrations,
                rtkit: true,
                quiesce,
                setup_port: true,
                quiesced: true,
            };
            let m1 = remove_next(m0, true);
            let m2 = remove_next(m1, true);
            let m3 = remove_next(m2, true);
            let m4 = remove_next(m3, true);
            let m5 = remove_next(m4, confirmed);
            let m6 = remove_next(m5, true);
            let m7 = remove_next(m6, true);
            let m8 = remove_next(m7, true);
            &&& m1.ask == RemoveAsk::ReleaseDrivers
            &&& m2.ask == RemoveAsk::CloseTransport
            &&& m3.ask == RemoveAsk::StopEndpoints
            &&& quiesce ==> m4.ask == RemoveAsk::ShutDown && m5.ask == RemoveAsk::DropTransport(
                !confirmed,
            ) && m6.ask == RemoveAsk::CloseSetupPort && m7.ask == RemoveAsk::DrainSetup && m8.ask
                == if confirmed {
                RemoveAsk::Free
            } else {
                RemoveAsk::Retire
            }
            &&& !quiesce ==> m4.ask == RemoveAsk::DropTransport(false) && m5.ask
                == RemoveAsk::CloseSetupPort && m6.ask == RemoveAsk::DrainSetup && m7.ask
                == RemoveAsk::Free && m8.ask == RemoveAsk::Done
        }),
{
}

/// Three services get a device, by their names.
pub proof fn services_get_devices(name: Seq<u8>)
    ensures
        device_for(seq![0x61u8, 0x6f, 0x70, 0x2d, 0x61, 0x75, 0x64, 0x69, 0x6f]) == Some(
            ServiceDevice::Audio,
        ),
        device_for(seq![0x6cu8, 0x61, 0x73]) == Some(ServiceDevice::Las),
        device_for(seq![0x61u8, 0x6c, 0x73]) == Some(ServiceDevice::Als),
        name.len() != 3 && name.len() != 9 ==> device_for(name) is None,
{
    assert(seq![0x6cu8, 0x61, 0x73][0] != seq![0x61u8, 0x6c, 0x73][0]);
    assert(seq![0x6cu8, 0x61, 0x73].len() == 3);
    assert(seq![0x61u8, 0x6c, 0x73].len() == 3);
    assert(seq![0x61u8, 0x6f, 0x70, 0x2d, 0x61, 0x75, 0x64, 0x69, 0x6f].len() == 9);
}

/// The processor is started by bit 4 of its control word; the other bits stay.
pub proof fn processor_is_started(control: u32, k: u32)
    requires
        k < 32,
        k != 4,
    ensures
        (running(control) >> 4) & 1 == 1,
        (running(control) >> k) & 1 == (control >> k) & 1,
{
    assert(((control | 0x10u32) >> 4) & 1 == 1) by (bit_vector);
    assert(((control | 0x10u32) >> k) & 1 == (control >> k) & 1) by (bit_vector)
        requires
            k < 32,
            k != 4,
    ;
}

} // verus!
