//! The enclave as a whole: attaching to it, learning its endpoints, routing
//! what it sends, and waiting for what it answers.

use crate::bytes::{put_u32, u32_le, u32_le_len};
use crate::control::{allotted, exhausted, free_slot, ControlState, ControlView, MAX_INFLIGHT};
use crate::errno::Errno;
use crate::mailbox::Message;
use crate::proto::{
    decode, encode_control, op_get_entropy, op_nop, op_security_mode, packed, packed_injective,
    pooled_op, registrable, shmem_registration, ControlOp, ControlReply, Fields, CONTROL_REPLY_TYPE,
    DISCOVER_TYPE_CONFIG, DISCOVER_TYPE_DESCRIPTOR, EP_CONTROL, EP_DISCOVER, EP_SBIO, EP_SCRD,
    EP_SHMEM, EP_SKS, EP_XARM, TAG_ENTROPY,
};
use crate::rxring::RxRing;
use vstd::prelude::*;

verus! {

pub const SETTLE_MS: u32 = 200;

pub const FIRST_RESPONSE_MS: u32 = 3000;

pub const EXCHANGE_TIMEOUT_MS: u32 = 15000;

pub const ENDPOINTS_BEFORE_EXCHANGE: usize = 7;

pub const MAX_ENDPOINTS: usize = 64;

pub const RNG_MAX_WORDS_PER_READ: usize = 16;

// ---------------------------------------------------------------------------
// Endpoints.
// ---------------------------------------------------------------------------
/// What is known of an endpoint.
#[derive(Clone, Copy, Debug, PartialEq, Eq, Structural)]
pub struct Endpoint {
    pub id: u8,
    pub descriptor: Option<Message>,
    pub config: Option<Message>,
}

pub open spec fn fresh_endpoint(id: u8) -> Endpoint {
    Endpoint { id, descriptor: None, config: None }
}

/// The endpoints that the enclave has announced.
pub struct EndpointTable {
    eps: Vec<Endpoint>,
    discovery_msgs: u32,
    unknown_types: u32,
    dirty: bool,
}

#[verifier::ext_equal]
pub struct TableView {
    pub eps: Seq<Endpoint>,
    pub discovery_msgs: u32,
    pub unknown_types: u32,
    pub dirty: bool,
}

/// Where an endpoint stands in the table, or how many there are.
pub open spec fn place_of(eps: Seq<Endpoint>, id: u8, from: int) -> int
    decreases eps.len() - from,
{
    if from >= eps.len() {
        eps.len() as int
    } else if eps[from].id == id {
        from
    } else {
        place_of(eps, id, from + 1)
    }
}

pub open spec fn present(eps: Seq<Endpoint>, id: u8) -> bool {
    exists|i: int| 0 <= i < eps.len() && (#[trigger] eps[i]).id == id
}

/// No endpoint stands in the table twice, and there are not too many.
pub open spec fn table_wf(eps: Seq<Endpoint>) -> bool {
    &&& eps.len() <= MAX_ENDPOINTS
    &&& forall|i: int, j: int|
        0 <= i < j < eps.len() ==> (#[trigger] eps[i]).id != (#[trigger] eps[j]).id
}

pub open spec fn bumped(n: u32) -> u32 {
    ((n + 1) % 0x1_0000_0000) as u32
}

/// The table with a place for this endpoint, and the place, if there is room.
pub open spec fn slotted(t: TableView, id: u8) -> (TableView, Option<int>) {
    let at = place_of(t.eps, id, 0);
    if at < t.eps.len() {
        (t, Some(at))
    } else if t.eps.len() >= MAX_ENDPOINTS {
        (t, None)
    } else {
        (TableView { eps: t.eps.push(fresh_endpoint(id)), dirty: true, ..t }, Some(at))
    }
}

/// What a message of the discovery endpoint does to the table.
pub open spec fn discovered(t: TableView, msg: Message, f: Fields) -> TableView {
    let counted = TableView { discovery_msgs: bumped(t.discovery_msgs), ..t };
    let (t2, at) = slotted(counted, f.param);
    match at {
        None => t2,
        Some(i) => if f.ty == DISCOVER_TYPE_DESCRIPTOR {
            TableView {
                eps: t2.eps.update(i, Endpoint { descriptor: Some(msg), ..t2.eps[i] }),
                dirty: true,
                ..t2
            }
        } else if f.ty == DISCOVER_TYPE_CONFIG {
            TableView {
                eps: t2.eps.update(i, Endpoint { config: Some(msg), ..t2.eps[i] }),
                dirty: true,
                ..t2
            }
        } else {
            TableView { unknown_types: bumped(t2.unknown_types), ..t2 }
        },
    }
}

proof fn place_found(eps: Seq<Endpoint>, id: u8, from: int)
    requires
        0 <= from <= eps.len(),
    ensures
        from <= place_of(eps, id, from) <= eps.len(),
        place_of(eps, id, from) < eps.len() ==> eps[place_of(eps, id, from)].id == id,
        forall|i: int| from <= i < place_of(eps, id, from) ==> (#[trigger] eps[i]).id != id,
    decreases eps.len() - from,
{
    if from < eps.len() && eps[from].id != id {
        place_found(eps, id, from + 1);
    }
}

impl EndpointTable {
    pub closed spec fn view(&self) -> TableView {
        TableView {
            eps: self.eps@,
            discovery_msgs: self.discovery_msgs,
            unknown_types: self.unknown_types,
            dirty: self.dirty,
        }
    }

    pub open spec fn wf(&self) -> bool {
        table_wf(self@.eps)
    }

    pub fn new() -> (t: EndpointTable)
        ensures
            t.wf(),
            t@ == (TableView {
                eps: Seq::empty(),
                discovery_msgs: 0,
                unknown_types: 0,
                dirty: false,
            }),
    {
        let t = EndpointTable {
            eps: Vec::new(),
            discovery_msgs: 0,
            unknown_types: 0,
            dirty: false,
        };
        assert(t@.eps =~= Seq::<Endpoint>::empty());
        t
    }

    /// Finds the place of an endpoint, or makes one.
    pub fn slot(&mut self, id: u8) -> (r: Result<usize, Errno>)
        requires
            old(self).wf(),
        ensures
            final(self).wf(),
            final(self)@ == slotted(old(self)@, id).0,
            match r {
                Ok(i) => slotted(old(self)@, id).1 == Some(i as int) && i < final(self)@.eps.len()
                    && final(self)@.eps[i as int].id == id,
                Err(e) => slotted(old(self)@, id).1 is None && e == Errno::ENOSPC,
            },
    {
        proof {
            place_found(self@.eps, id, 0);
        }
        let mut i: usize = 0;
        while i < self.eps.len()
            invariant
                i <= self.eps.len(),
                *self == *old(self),
                self.wf(),
                place_of(self@.eps, id, 0) == place_of(self@.eps, id, i as int),
                forall|j: int| 0 <= j < i ==> (#[trigger] self@.eps[j]).id != id,
            decreases self.eps.len() - i,
        {
            if self.eps[i].id == id {
                return Ok(i);
            }
            i = i + 1;
        }
        if self.eps.len() >= MAX_ENDPOINTS {
            return Err(Errno::ENOSPC);
        }
        self.eps.push(Endpoint { id, descriptor: None, config: None });
        self.dirty = true;
        Ok(self.eps.len() - 1)
    }

    /// Takes a message of the discovery endpoint in.
    pub fn on_discovery(&mut self, msg: Message, f: &Fields)
        requires
            old(self).wf(),
        ensures
            final(self).wf(),
            final(self)@ == discovered(old(self)@, msg, *f),
    {
        self.discovery_msgs = self.discovery_msgs.wrapping_add(1);
        let idx: usize = match self.slot(f.param) {
            Ok(i) => i,
            Err(_) => {
                return ;
            },
        };
        if f.ty == DISCOVER_TYPE_DESCRIPTOR {
            let e = self.eps[idx];
            self.eps.set(idx, Endpoint { id: e.id, descriptor: Some(msg), config: e.config });
            self.dirty = true;
        } else if f.ty == DISCOVER_TYPE_CONFIG {
            let e = self.eps[idx];
            self.eps.set(idx, Endpoint { id: e.id, descriptor: e.descriptor, config: Some(msg) });
            self.dirty = true;
        } else {
            self.unknown_types = self.unknown_types.wrapping_add(1);
        }
    }

    pub fn endpoint_present(&self, id: u8) -> (r: bool)
        ensures
            r == present(self@.eps, id),
    {
        let mut i: usize = 0;
        while i < self.eps.len()
            invariant
                i <= self.eps.len(),
                forall|j: int| 0 <= j < i ==> (#[trigger] self@.eps[j]).id != id,
            decreases self.eps.len() - i,
        {
            if self.eps[i].id == id {
                assert(self@.eps[i as int].id == id);
                return true;
            }
            i = i + 1;
        }
        false
    }

    pub fn endpoint_count(&self) -> (n: usize)
        ensures
            n == self@.eps.len(),
    {
        self.eps.len()
    }
}

/// An endpoint that was announced, and for which there was room, is present;
/// none that was present goes.
pub proof fn announced_is_present(t: TableView, msg: Message, f: Fields, other: u8)
    requires
        table_wf(t.eps),
    ensures
        table_wf(discovered(t, msg, f).eps),
        t.eps.len() < MAX_ENDPOINTS ==> present(discovered(t, msg, f).eps, f.param),
        present(t.eps, other) ==> present(discovered(t, msg, f).eps, other),
{
    place_found(t.eps, f.param, 0);
    let at = place_of(t.eps, f.param, 0);
    let after = discovered(t, msg, f).eps;
    if at < t.eps.len() {
        assert(after[at].id == f.param);
    } else if t.eps.len() < MAX_ENDPOINTS {
        assert(after[t.eps.len() as int].id == f.param);
    }
    if present(t.eps, other) {
        let i = choose|i: int| 0 <= i < t.eps.len() && (#[trigger] t.eps[i]).id == other;
        assert(after[i].id == other);
    }
}

// ---------------------------------------------------------------------------
// Routing.
// ---------------------------------------------------------------------------
/// Who a message is for.
#[derive(Clone, Copy, Debug, PartialEq, Eq, Structural)]
pub enum Route {
    Discovery(Fields),
    Control(ControlReply),
    Xarm,
    Sbio,
    Sks,
    Scrd,
    /// Nobody: an answer that is none, the boot endpoint, or one that is not
    /// served here.
    Nobody,
}

pub open spec fn route_of(f: Fields) -> Route {
    if f.ep == EP_DISCOVER {
        Route::Discovery(f)
    } else if f.ep == EP_CONTROL {
        if f.ty == CONTROL_REPLY_TYPE {
            Route::Control(ControlReply { tag: f.tag, data_lo: f.data_lo })
        } else {
            Route::Nobody
        }
    } else if f.ep == EP_XARM {
        Route::Xarm
    } else if f.ep == EP_SBIO {
        Route::Sbio
    } else if f.ep == EP_SKS {
        Route::Sks
    } else if f.ep == EP_SCRD {
        Route::Scrd
    } else {
        Route::Nobody
    }
}

/// Sorts a message by its endpoint.
pub fn dispatch(msg: &Message) -> (r: Route)
    ensures
        exists|f: Fields| #[trigger] packed(f) == msg.msg0 && r == route_of(f),
        forall|f: Fields| packed(f) == msg.msg0 ==> r == route_of(f),
{
    let f = decode(msg);
    proof {
        assert forall|g: Fields| packed(g) == msg.msg0 implies f == g by {
            packed_injective(f, g);
        }
    }
    if f.ep == EP_DISCOVER {
        Route::Discovery(f)
    } else if f.ep == EP_CONTROL {
        if f.ty == CONTROL_REPLY_TYPE {
            Route::Control(ControlReply { tag: f.tag, data_lo: f.data_lo })
        } else {
            Route::Nobody
        }
    } else if f.ep == EP_XARM {
        Route::Xarm
    } else if f.ep == EP_SBIO {
        Route::Sbio
    } else if f.ep == EP_SKS {
        Route::Sks
    } else if f.ep == EP_SCRD {
        Route::Scrd
    } else {
        Route::Nobody
    }
}

/// Takes everything that waits in the ring out, the oldest first.
pub fn drain(rx: &mut RxRing) -> (out: Vec<Message>)
    requires
        old(rx).wf(),
    ensures
        final(rx).wf(),
        out@ == old(rx)@,
        final(rx)@ == Seq::<Message>::empty(),
        final(rx).lost() == old(rx).lost(),
{
    let mut out: Vec<Message> = Vec::new();
    let ghost all = rx@;
    assert(all.subrange(0, 0) =~= Seq::<Message>::empty());
    assert(all.subrange(0, all.len() as int) =~= all);
    loop
        invariant
            rx.wf(),
            rx.lost() == old(rx).lost(),
            all == old(rx)@,
            out.len() <= all.len(),
            out@ == all.subrange(0, out.len() as int),
            rx@ == all.subrange(out.len() as int, all.len() as int),
        ensures
            rx@.len() == 0,
            rx.wf(),
            rx.lost() == old(rx).lost(),
            all == old(rx)@,
            out@ == all,
        decreases rx@.len(),
    {
        match rx.pop() {
            Some(m) => {
                out.push(m);
                assert(out@ =~= all.subrange(0, out.len() as int));
                assert(rx@ =~= all.subrange(out.len() as int, all.len() as int));
            },
            None => {
                assert(out@ =~= all);
                break;
            },
        }
    }
    assert(rx@ =~= Seq::<Message>::empty());
    out
}

// ---------------------------------------------------------------------------
// Settling.
// ---------------------------------------------------------------------------
#[derive(Clone, Copy, Debug, PartialEq, Eq, Structural)]
pub enum Phase {
    Attach,
    Exchange,
    Ready,
}

/// The wait for the enclave to fall silent, which tells that it has said all
/// that it has to say at this point.
#[derive(Clone, Copy, Debug, PartialEq, Eq, Structural)]
pub struct Settle {
    pub phase: Phase,
    pub rx_count: u64,
    pub mark: u64,
    pub idle_ticks: u64,
}

#[derive(Clone, Copy, Debug, PartialEq, Eq, Structural)]
pub enum Tick {
    /// Look again after a while.
    Again,
    /// Settle the identifier, survey the control endpoint, and register the
    /// buffers of the storage endpoint.
    Prepare,
    /// Bring the rest up.
    Bringup,
    Nothing,
}

pub open spec fn ticks_after(n: u64) -> u64 {
    if n == u64::MAX {
        0
    } else {
        (n + 1) as u64
    }
}

pub open spec fn still_early(ticks: u64, limit_ms: u32) -> bool {
    ticks * SETTLE_MS < limit_ms
}

/// One tick, with this many endpoints announced. Nothing received is waited for
/// longer; anything received since the last tick starts the wait anew.
pub open spec fn tick(s: Settle, endpoints: int) -> (Settle, Tick) {
    let waited = ticks_after(s.idle_ticks);
    match s.phase {
        Phase::Attach => {
            let s2 = if s.rx_count == 0 {
                Settle { idle_ticks: waited, ..s }
            } else {
                s
            };
            if s.rx_count == 0 && still_early(waited, FIRST_RESPONSE_MS) {
                (s2, Tick::Again)
            } else if s.rx_count != s.mark {
                (Settle { mark: s.rx_count, ..s2 }, Tick::Again)
            } else if endpoints == 0 {
                (Settle { phase: Phase::Ready, ..s2 }, Tick::Nothing)
            } else {
                (s2, Tick::Prepare)
            }
        },
        Phase::Exchange => if s.rx_count != s.mark {
            (Settle { mark: s.rx_count, idle_ticks: 0, ..s }, Tick::Again)
        } else if endpoints <= ENDPOINTS_BEFORE_EXCHANGE {
            let s2 = Settle { idle_ticks: waited, ..s };
            if still_early(waited, EXCHANGE_TIMEOUT_MS) {
                (s2, Tick::Again)
            } else {
                (Settle { phase: Phase::Ready, ..s2 }, Tick::Bringup)
            }
        } else {
            (Settle { phase: Phase::Ready, ..s }, Tick::Bringup)
        },
        Phase::Ready => (s, Tick::Nothing),
    }
}

fn early(ticks: u64, limit_ms: u32) -> (r: bool)
    ensures
        r == still_early(ticks, limit_ms),
{
    (ticks as u128) * 200 < limit_ms as u128
}

impl Settle {
    pub fn new() -> (s: Settle)
        ensures
            s == (Settle { phase: Phase::Attach, rx_count: 0, mark: 0, idle_ticks: 0 }),
    {
        Settle { phase: Phase::Attach, rx_count: 0, mark: 0, idle_ticks: 0 }
    }

    /// Counts messages that were taken out of the ring.
    pub fn received(&mut self, n: u32)
        ensures
            *final(self) == (Settle {
                rx_count: ((old(self).rx_count + n) % 0x1_0000_0000_0000_0000) as u64,
                ..*old(self)
            }),
    {
        self.rx_count = self.rx_count.wrapping_add(n as u64);
    }

    pub fn tick(&mut self, endpoints: usize) -> (t: Tick)
        ensures
            (*final(self), t) == tick(*old(self), endpoints as int),
    {
        let waited: u64 = self.idle_ticks.wrapping_add(1);
        match self.phase {
            Phase::Attach => {
                if self.rx_count == 0 {
                    self.idle_ticks = waited;
                    if early(waited, FIRST_RESPONSE_MS) {
                        return Tick::Again;
                    }
                }
                if self.rx_count != self.mark {
                    self.mark = self.rx_count;
                    return Tick::Again;
                }
                if endpoints == 0 {
                    self.phase = Phase::Ready;
                    return Tick::Nothing;
                }
                Tick::Prepare
            },
            Phase::Exchange => {
                if self.rx_count != self.mark {
                    self.mark = self.rx_count;
                    self.idle_ticks = 0;
                    return Tick::Again;
                }
                if endpoints <= ENDPOINTS_BEFORE_EXCHANGE {
                    self.idle_ticks = waited;
                    if early(waited, EXCHANGE_TIMEOUT_MS) {
                        return Tick::Again;
                    }
                }
                self.phase = Phase::Ready;
                Tick::Bringup
            },
            Phase::Ready => Tick::Nothing,
        }
    }

    /// The buffers of the storage endpoint are registered, or could not be. If
    /// they are, the query that was put off is answered and the exchange runs.
    pub fn prepared(&mut self, registered: bool) -> (go: bool)
        ensures
            go == registered,
            *final(self) == (if registered {
                Settle {
                    phase: Phase::Exchange,
                    mark: old(self).rx_count,
                    idle_ticks: 0,
                    ..*old(self)
                }
            } else {
                Settle { phase: Phase::Ready, ..*old(self) }
            }),
    {
        if registered {
            self.phase = Phase::Exchange;
            self.mark = self.rx_count;
            self.idle_ticks = 0;
        } else {
            self.phase = Phase::Ready;
        }
        registered
    }
}

/// Nothing is asked of an enclave that has never said anything, or that says
/// more from tick to tick.
pub proof fn prepared_only_after_silence(s: Settle, endpoints: int)
    ensures
        tick(s, endpoints).1 == Tick::Prepare ==> s.phase == Phase::Attach && s.rx_count == s.mark
            && endpoints != 0,
        tick(s, endpoints).1 == Tick::Bringup ==> s.phase == Phase::Exchange && s.rx_count
            == s.mark && tick(s, endpoints).0.phase == Phase::Ready,
{
}

/// The wait for an enclave that says nothing ends: after so many idle ticks it
/// is given up.
pub proof fn silence_is_given_up(s: Settle)
    requires
        s.phase == Phase::Attach,
        s.rx_count == 0,
        s.mark == 0,
        14 <= s.idle_ticks < u64::MAX,
    ensures
        tick(s, 0).0.phase == Phase::Ready,
{
}

/// Ready stays ready.
pub proof fn ready_is_final(s: Settle, endpoints: int)
    requires
        s.phase == Phase::Ready,
    ensures
        tick(s, endpoints) == (s, Tick::Nothing),
{
}

// ---------------------------------------------------------------------------
// Attaching.
// ---------------------------------------------------------------------------
/// What is left to do before the shared memory may be announced.
#[derive(Clone, Copy, Debug, PartialEq, Eq, Structural)]
pub enum Attach {
    /// Leave a mark that the announcement went out, and tell how that went.
    Mark(Announcement),
    Refused(Errno),
}

/// The announcement of the shared memory, which is given out once the mark is
/// left.
#[derive(Clone, Copy, Debug, PartialEq, Eq, Structural)]
pub struct Announcement {
    msg: Message,
}

/// The message that announces the shared memory.
pub open spec fn announces(m: Message, iova: u64, size: u64) -> bool {
    &&& m.msg0 == EP_SHMEM + 0x1_0000 * (size as int / 0x1000) + 0x1_0000_0000 * (iova as int
        / 0x1000)
    &&& m.msg1 == 0
}

impl Announcement {
    pub closed spec fn message(&self) -> Message {
        self.msg
    }

    /// Gives the message out if the mark was left. Without the mark it is not to
    /// be sent: nothing would keep it from being sent again.
    pub fn marked(self, mark: Result<(), Errno>) -> (r: Result<Message, Errno>)
        ensures
            r == (match mark {
                Ok(_) => Ok(self.message()),
                Err(e) => Err(e),
            }),
    {
        match mark {
            Ok(_) => Ok(self.msg),
            Err(e) => Err(e),
        }
    }
}

/// Whether the shared memory may be announced. It can be announced once in the
/// life of the enclave; the mark tells whether it was.
pub fn attach(iova: u64, size: u64, already_sent: bool) -> (a: Attach)
    ensures
        match a {
            Attach::Mark(m) => registrable(iova, size) && !already_sent && announces(
                m.message(),
                iova,
                size,
            ),
            Attach::Refused(e) => if !registrable(iova, size) {
                e == Errno::EINVAL
            } else {
                already_sent && e == Errno::EBUSY
            },
        },
{
    match shmem_registration(iova, size) {
        Err(e) => Attach::Refused(e),
        Ok(msg) => {
            if already_sent {
                Attach::Refused(Errno::EBUSY)
            } else {
                Attach::Mark(Announcement { msg })
            }
        },
    }
}

/// Why the driver does not start, if it does not.
pub open spec fn probe_refusal(
    provision_keybag: bool,
    xart_writes: bool,
    node_found: bool,
    already_sent: bool,
) -> Option<Errno> {
    if provision_keybag && !xart_writes {
        Some(Errno::EINVAL)
    } else if !node_found {
        Some(Errno::ENODEV)
    } else if already_sent {
        Some(Errno::EBUSY)
    } else {
        None
    }
}

/// Whether the driver may be set up at all.
pub fn may_probe(provision_keybag: bool, xart_writes: bool, node_found: bool, already_sent: bool) -> (r:
    Result<(), Errno>)
    ensures
        match r {
            Ok(_) => probe_refusal(provision_keybag, xart_writes, node_found, already_sent) is None,
            Err(e) => probe_refusal(provision_keybag, xart_writes, node_found, already_sent) == Some(
                e,
            ),
        },
{
    if provision_keybag && !xart_writes {
        return Err(Errno::EINVAL);
    }
    if !node_found {
        return Err(Errno::ENODEV);
    }
    if already_sent {
        return Err(Errno::EBUSY);
    }
    Ok(())
}

// ---------------------------------------------------------------------------
// Going.
// ---------------------------------------------------------------------------
/// The memory that the enclave may know of.
#[derive(Clone, Copy, Debug, PartialEq, Eq, Structural)]
pub enum Memory {
    XarmBuffers,
    SbioBuffers,
    SksBuffers,
    ScrdBuffers,
    DmaRing,
    Shared,
}

/// The steps by which the driver goes.
#[derive(Clone, Copy, Debug, PartialEq, Eq, Structural)]
pub enum RemoveStep {
    /// From here on no work is queued.
    ShutDown,
    UnregisterTrustedKeys,
    UnregisterVolumeKeys,
    ReleaseSession,
    SensorOff,
    UnregisterSensor,
    UnpublishDevice,
    WakeWaiters,
    UnregisterRng,
    CloseMailbox,
    CancelWork,
    CloseStores,
    /// Give memory back.
    Free(Memory),
    /// Leave memory to the enclave, which may write to it at any time.
    Leave(Memory),
}

/// Which memory there is, and which of it the enclave was told of.
#[derive(Clone, Copy, Debug, PartialEq, Eq, Structural)]
pub struct Holdings {
    pub xarm: Option<bool>,
    pub sbio: Option<bool>,
    pub sks: Option<bool>,
    pub scrd: Option<bool>,
    pub ring: Option<bool>,
    pub shared: Option<bool>,
}

pub open spec fn let_go(m: Memory, told: Option<bool>) -> Seq<RemoveStep> {
    match told {
        None => Seq::empty(),
        Some(true) => seq![RemoveStep::Leave(m)],
        Some(false) => seq![RemoveStep::Free(m)],
    }
}

pub open spec fn device_gone(published: bool) -> Seq<RemoveStep> {
    if published {
        seq![
            RemoveStep::ReleaseSession,
            RemoveStep::SensorOff,
            RemoveStep::UnregisterSensor,
            RemoveStep::UnpublishDevice,
        ]
    } else {
        Seq::empty()
    }
}

pub open spec fn rng_gone(registered: bool) -> Seq<RemoveStep> {
    if registered {
        seq![RemoveStep::UnregisterRng]
    } else {
        Seq::empty()
    }
}

/// What is done before any memory is let go of.
pub open spec fn before_memory(published: bool, rng: bool) -> Seq<RemoveStep> {
    seq![
        RemoveStep::ShutDown,
        RemoveStep::UnregisterTrustedKeys,
        RemoveStep::UnregisterVolumeKeys,
    ] + device_gone(published) + seq![RemoveStep::WakeWaiters] + rng_gone(rng) + seq![
        RemoveStep::CloseMailbox,
        RemoveStep::CancelWork,
        RemoveStep::CloseStores,
    ]
}

/// The steps in their order: callers first, then the mailbox, then the work
/// that it queued, and the memory last.
pub open spec fn removal(published: bool, rng: bool, h: Holdings) -> Seq<RemoveStep> {
    before_memory(published, rng) + let_go(Memory::XarmBuffers, h.xarm) + let_go(
        Memory::SbioBuffers,
        h.sbio,
    ) + let_go(Memory::SksBuffers, h.sks) + let_go(Memory::ScrdBuffers, h.scrd) + let_go(
        Memory::DmaRing,
        h.ring,
    ) + let_go(Memory::Shared, h.shared)
}

fn push_before_memory(published: bool, rng: bool) -> (out: Vec<RemoveStep>)
    ensures
        out@ == before_memory(published, rng),
{
    let mut out: Vec<RemoveStep> = Vec::new();
    out.push(RemoveStep::ShutDown);
    out.push(RemoveStep::UnregisterTrustedKeys);
    out.push(RemoveStep::UnregisterVolumeKeys);
    if published {
        out.push(RemoveStep::ReleaseSession);
        out.push(RemoveStep::SensorOff);
        out.push(RemoveStep::UnregisterSensor);
        out.push(RemoveStep::UnpublishDevice);
    }
    let ghost one = out@;
    assert(one =~= seq![
        RemoveStep::ShutDown,
        RemoveStep::UnregisterTrustedKeys,
        RemoveStep::UnregisterVolumeKeys,
    ] + device_gone(published));
    out.push(RemoveStep::WakeWaiters);
    if rng {
        out.push(RemoveStep::UnregisterRng);
    }
    let ghost two = out@;
    assert(two =~= one + seq![RemoveStep::WakeWaiters] + rng_gone(rng));
    out.push(RemoveStep::CloseMailbox);
    out.push(RemoveStep::CancelWork);
    out.push(RemoveStep::CloseStores);
    assert(out@ =~= two + seq![
        RemoveStep::CloseMailbox,
        RemoveStep::CancelWork,
        RemoveStep::CloseStores,
    ]);
    out
}

fn push_let_go(out: &mut Vec<RemoveStep>, m: Memory, told: Option<bool>)
    ensures
        final(out)@ == old(out)@ + let_go(m, told),
{
    match told {
        None => {},
        Some(t) => {
            if t {
                out.push(RemoveStep::Leave(m));
            } else {
                out.push(RemoveStep::Free(m));
            }
        },
    }
    assert(out@ =~= old(out)@ + let_go(m, told));
}

/// What has to be done for the driver to go.
pub fn remove(published: bool, rng: bool, h: &Holdings) -> (out: Vec<RemoveStep>)
    ensures
        out@ == removal(published, rng, *h),
{
    let mut out = push_before_memory(published, rng);
    push_let_go(&mut out, Memory::XarmBuffers, h.xarm);
    push_let_go(&mut out, Memory::SbioBuffers, h.sbio);
    push_let_go(&mut out, Memory::SksBuffers, h.sks);
    push_let_go(&mut out, Memory::ScrdBuffers, h.scrd);
    push_let_go(&mut out, Memory::DmaRing, h.ring);
    push_let_go(&mut out, Memory::Shared, h.shared);
    out
}

/// Memory that the enclave was told of is never given back, and no memory is
/// given back before the mailbox is closed.
pub proof fn told_memory_is_kept(published: bool, rng: bool, h: Holdings, i: int)
    requires
        0 <= i < removal(published, rng, h).len(),
        removal(published, rng, h)[i] is Free,
    ensures
        match removal(published, rng, h)[i]->Free_0 {
            Memory::XarmBuffers => h.xarm == Some(false),
            Memory::SbioBuffers => h.sbio == Some(false),
            Memory::SksBuffers => h.sks == Some(false),
            Memory::ScrdBuffers => h.scrd == Some(false),
            Memory::DmaRing => h.ring == Some(false),
            Memory::Shared => h.shared == Some(false),
        },
        exists|j: int|
            0 <= j < i && #[trigger] removal(published, rng, h)[j] == RemoveStep::CloseMailbox,
{
    let head = before_memory(published, rng);
    let all = removal(published, rng, h);
    let j = head.len() - 3;
    assert(all[j] == head[j]);
    assert(head[j] == RemoveStep::CloseMailbox);
    assert forall|k: int| 0 <= k < head.len() implies !(#[trigger] head[k] is Free) by {}
    if i < head.len() {
        assert(all[i] == head[i]);
    }
}

// ---------------------------------------------------------------------------
// Waiting for an answer.
// ---------------------------------------------------------------------------
/// Prepares a control request: its place, its tag and the message to send.
pub fn control_begin(control: &mut ControlState, op: &ControlOp) -> (r: Result<
    (usize, u8, Message),
    Errno,
>)
    requires
        old(control).wf(),
    ensures
        final(control).wf(),
        match r {
            Ok((idx, tag, msg)) => {
                &&& allotted(old(control)@, final(control)@, idx as int, tag)
                &&& msg.msg0 == packed(
                    (Fields { ep: EP_CONTROL, tag, ty: op.ty, param: op.param, data_lo: op.data }),
                )
                &&& msg.msg1 == 0
            },
            Err(e) => e == Errno::EBUSY && exhausted(old(control)@) && final(control)@ == old(
                control,
            )@,
        },
{
    match control.alloc_slot() {
        Ok((idx, tag)) => Ok((idx, tag, encode_control(op, tag))),
        Err(e) => Err(e),
    }
}

/// Takes note of whether the request in a place went out. One that did not gives
/// its place back, and its tag is withheld.
pub fn control_sent(control: &mut ControlState, idx: usize, sent: Result<(), Errno>) -> (r: Result<
    (),
    Errno,
>)
    requires
        old(control).wf(),
        idx < MAX_INFLIGHT,
    ensures
        final(control).wf(),
        r == sent,
        final(control)@ == (if sent is Ok {
            old(control)@
        } else {
            ControlView {
                slots: old(control)@.slots.update(idx as int, free_slot()),
                retired: old(control)@.retired.update(
                    old(control)@.slots[idx as int].tag as int,
                    true,
                ),
                ..old(control)@
            }
        }),
{
    if sent.is_err() {
        let _ = control.abandon(idx);
    }
    sent
}

/// Prepares a draw of one word of entropy: the message to send, unless a draw is
/// under way.
pub fn entropy_ask(control: &mut ControlState) -> (r: Result<Message, Errno>)
    requires
        old(control).wf(),
    ensures
        final(control).wf(),
        match r {
            Ok(msg) => {
                &&& !old(control)@.entropy_busy
                &&& final(control)@ == (ControlView {
                    entropy_busy: true,
                    entropy_value: None,
                    ..old(control)@
                })
                &&& msg.msg0 == packed(
                    (Fields { ep: EP_CONTROL, tag: TAG_ENTROPY, ty: 0x36, param: 0, data_lo: 0 }),
                )
                &&& msg.msg1 == 0
            },
            Err(e) => {
                &&& e == Errno::EBUSY
                &&& old(control)@.entropy_busy
                &&& final(control)@ == old(control)@
            },
        },
{
    match control.entropy_begin() {
        Ok(_) => Ok(encode_control(&op_get_entropy(), TAG_ENTROPY)),
        Err(e) => Err(e),
    }
}

/// Takes note of whether the draw went out. One that did not is over.
pub fn entropy_sent(control: &mut ControlState, sent: Result<(), Errno>) -> (r: Result<(), Errno>)
    requires
        old(control).wf(),
    ensures
        final(control).wf(),
        r == sent,
        final(control)@ == (if sent is Ok {
            old(control)@
        } else {
            ControlView { entropy_busy: false, ..old(control)@ }
        }),
{
    if sent.is_err() {
        control.entropy_end();
    }
    sent
}

/// How the wait for an answer stands.
#[derive(Clone, Copy, Debug, PartialEq, Eq, Structural)]
pub enum ControlWait {
    Longer,
    Reply(ControlReply),
    Silence,
    Failed(Errno),
}

/// Looks for the answer to the request in a place. It gives the place back once
/// the answer is there or the time is up; in the second case the tag is
/// withheld.
pub fn control_wait(control: &mut ControlState, idx: usize, tag: u8, remaining: u64) -> (w:
    ControlWait)
    requires
        old(control).wf(),
        idx < MAX_INFLIGHT,
    ensures
        final(control).wf(),
        match old(control)@.slots[idx as int].reply {
            Some(reply) => {
                &&& w == (if reply.tag == tag {
                    ControlWait::Reply(reply)
                } else {
                    ControlWait::Failed(Errno::EIO)
                })
                &&& final(control)@ == (ControlView {
                    slots: old(control)@.slots.update(idx as int, free_slot()),
                    ..old(control)@
                })
            },
            None => if remaining == 0 {
                &&& w == ControlWait::Silence
                &&& final(control)@ == (ControlView {
                    slots: old(control)@.slots.update(idx as int, free_slot()),
                    retired: old(control)@.retired.update(
                        old(control)@.slots[idx as int].tag as int,
                        true,
                    ),
                    ..old(control)@
                })
            } else {
                w == ControlWait::Longer && final(control)@ == old(control)@
            },
        },
{
    proof {
        control.wf_view();
    }
    match control.take_reply(idx) {
        Some(reply) => {
            control.release(idx);
            assert(control@.slots =~= old(control)@.slots.update(idx as int, free_slot()));
            if reply.tag != tag {
                return ControlWait::Failed(Errno::EIO);
            }
            ControlWait::Reply(reply)
        },
        None => {
            assert(control@.slots =~= old(control)@.slots);
            if remaining == 0 {
                let _ = control.abandon(idx);
                return ControlWait::Silence;
            }
            ControlWait::Longer
        },
    }
}

/// Looks for the word of a draw. The draw is over once the word is there, the driver
/// goes, or the time is up.
pub fn entropy_wait(control: &mut ControlState, shutdown: bool, remaining: u64) -> (r: Option<
    Result<u32, Errno>,
>)
    requires
        old(control).wf(),
    ensures
        final(control).wf(),
        r == (match old(control)@.entropy_value {
            Some(v) => Some(Ok::<u32, Errno>(v)),
            None => if shutdown {
                Some(Err::<u32, Errno>(Errno::ECANCELED))
            } else if remaining == 0 {
                Some(Err::<u32, Errno>(Errno::ETIMEDOUT))
            } else {
                None
            },
        }),
        final(control)@ == (ControlView {
            entropy_value: None,
            entropy_busy: if r is Some {
                false
            } else {
                old(control)@.entropy_busy
            },
            ..old(control)@
        }),
{
    let r = match control.entropy_take() {
        Some(v) => Ok(v),
        None => {
            if shutdown {
                Err(Errno::ECANCELED)
            } else if remaining == 0 {
                Err(Errno::ETIMEDOUT)
            } else {
                return None;
            }
        },
    };
    control.entropy_end();
    Some(r)
}

// ---------------------------------------------------------------------------
// The survey of the control endpoint, and random numbers.
// ---------------------------------------------------------------------------
/// The number of requests that the survey makes.
pub const SURVEY_REQUESTS: u8 = 4;

/// The number of words of entropy that the survey draws.
pub const SURVEY_DRAWS: u8 = 4;

/// What the survey asks for.
#[derive(Clone, Copy, Debug, PartialEq, Eq, Structural)]
pub enum SurveyAsk {
    Request(ControlOp),
    Draw,
    /// Every draw was answered: offer the source to the system.
    RegisterRng,
    /// A draw was not answered: do not offer it.
    LeaveRng,
    Nothing,
}

/// The survey under way: how many requests it made, and how many draws.
#[derive(Clone, Copy, Debug, PartialEq, Eq, Structural)]
pub struct Survey {
    pub requests: u8,
    pub draws: u8,
    pub over: bool,
}

/// The request in a place of the survey: three that do nothing, and one for the
/// security mode.
pub open spec fn survey_request(i: u8) -> ControlOp {
    if i == 0 {
        pooled_op(0x00, 0x00, 0)
    } else if i == 1 {
        pooled_op(0x00, 0x01, 0)
    } else if i == 2 {
        pooled_op(0x00, 0xff, 0)
    } else {
        pooled_op(0x14, 0x00, 0)
    }
}

/// What comes of the last ask's having been answered or not. What becomes of a
/// request does not matter; a draw without an answer ends the survey.
pub open spec fn survey_step(s: Survey, answered: bool) -> (Survey, SurveyAsk) {
    if s.over {
        (s, SurveyAsk::Nothing)
    } else if s.requests < SURVEY_REQUESTS {
        (
            Survey { requests: (s.requests + 1) as u8, ..s },
            SurveyAsk::Request(survey_request(s.requests)),
        )
    } else if s.draws > 0 && !answered {
        (Survey { over: true, ..s }, SurveyAsk::LeaveRng)
    } else if s.draws < SURVEY_DRAWS {
        (Survey { draws: (s.draws + 1) as u8, ..s }, SurveyAsk::Draw)
    } else {
        (Survey { over: true, ..s }, SurveyAsk::RegisterRng)
    }
}

/// The survey after as many answers.
pub open spec fn surveyed(answers: Seq<bool>) -> (Survey, SurveyAsk)
    decreases answers.len(),
{
    if answers.len() == 0 {
        survey_step(Survey { requests: 0, draws: 0, over: false }, true)
    } else {
        survey_step(surveyed(answers.drop_last()).0, answers.last())
    }
}

impl Survey {
    pub fn start() -> (s: Survey)
        ensures
            s == (Survey { requests: 0, draws: 0, over: false }),
    {
        Survey { requests: 0, draws: 0, over: false }
    }

    pub fn step(&mut self, answered: bool) -> (ask: SurveyAsk)
        ensures
            (*final(self), ask) == survey_step(*old(self), answered),
    {
        if self.over {
            return SurveyAsk::Nothing;
        }
        if self.requests < SURVEY_REQUESTS {
            let op = match self.requests {
                0 => op_nop(0x00),
                1 => op_nop(0x01),
                2 => op_nop(0xff),
                _ => op_security_mode(),
            };
            self.requests = self.requests + 1;
            return SurveyAsk::Request(op);
        }
        if self.draws > 0 && !answered {
            self.over = true;
            return SurveyAsk::LeaveRng;
        }
        if self.draws < SURVEY_DRAWS {
            self.draws = self.draws + 1;
            return SurveyAsk::Draw;
        }
        self.over = true;
        SurveyAsk::RegisterRng
    }
}

/// The source of entropy is offered to the system exactly where it answered
/// every draw of the survey, whatever became of the requests before.
pub proof fn rng_needs_every_draw(answers: Seq<bool>)
    requires
        answers.len() == SURVEY_REQUESTS + SURVEY_DRAWS,
    ensures
        (surveyed(answers).1 is RegisterRng) == (forall|i: int|
            SURVEY_REQUESTS <= i < answers.len() ==> answers[i]),
{
    reveal_with_fuel(surveyed, 9);
    assert(answers.drop_last().last() == answers[6]);
    assert(answers.drop_last().drop_last().last() == answers[5]);
    assert(answers.drop_last().drop_last().drop_last().last() == answers[4]);
}

/// A read of random bytes under way.
pub struct HwrngRead {
    words: usize,
    out: Vec<u8>,
    drawn: usize,
    failure: Option<Errno>,
}

#[verifier::ext_equal]
pub struct HwrngView {
    pub words: int,
    pub out: Seq<u8>,
    pub drawn: int,
    pub failure: Option<Errno>,
}

/// How many words a read of so many bytes is given.
pub open spec fn read_words(max: int) -> int {
    if max / 4 < RNG_MAX_WORDS_PER_READ {
        max / 4
    } else {
        RNG_MAX_WORDS_PER_READ as int
    }
}

/// What the next thing to do is.
#[derive(Clone, Copy, Debug, PartialEq, Eq, Structural)]
pub enum HwrngNext {
    Draw,
    /// Over: the number of bytes, or the error as a negative number.
    Return(i32),
}

/// A read never gives zero bytes as an answer to someone who waits: it would be
/// asked again at once. What it has is given, and if it has nothing, the
/// failure.
pub open spec fn hwrng_result(v: HwrngView) -> i32 {
    if v.out.len() > 0 {
        v.out.len() as i32
    } else {
        match v.failure {
            Some(e) => (-e.code()) as i32,
            None => (-Errno::EIO.code()) as i32,
        }
    }
}

impl HwrngRead {
    pub closed spec fn view(&self) -> HwrngView {
        HwrngView {
            words: self.words as int,
            out: self.out@,
            drawn: self.drawn as int,
            failure: self.failure,
        }
    }

    pub open spec fn wf(&self) -> bool {
        &&& 0 <= self@.drawn <= self@.words <= RNG_MAX_WORDS_PER_READ
        &&& self@.out.len() == 4 * self@.drawn
    }

    /// Starts a read of so many bytes. One that must not wait gives nothing.
    pub fn start(max: usize, wait: bool) -> (r: Option<HwrngRead>)
        ensures
            match r {
                Some(h) => wait && h.wf() && h@ == (HwrngView {
                    words: read_words(max as int),
                    out: Seq::empty(),
                    drawn: 0,
                    failure: None,
                }),
                None => !wait,
            },
    {
        if !wait {
            return None;
        }
        let words: usize = if max / 4 < RNG_MAX_WORDS_PER_READ {
            max / 4
        } else {
            RNG_MAX_WORDS_PER_READ
        };
        let h = HwrngRead { words, out: Vec::new(), drawn: 0, failure: None };
        assert(h@.out =~= Seq::<u8>::empty());
        Some(h)
    }

    /// What is next, given whether the driver is going.
    pub fn next(&mut self, shutdown: bool) -> (n: HwrngNext)
        requires
            old(self).wf(),
        ensures
            final(self).wf(),
            ({
                let more = old(self)@.drawn < old(self)@.words && old(self)@.failure is None;
                let after = if more && shutdown {
                    HwrngView { failure: Some(Errno::ENODEV), ..old(self)@ }
                } else {
                    old(self)@
                };
                &&& final(self)@ == after
                &&& n == (if more && !shutdown {
                    HwrngNext::Draw
                } else {
                    HwrngNext::Return(hwrng_result(after))
                })
            }),
    {
        if self.drawn < self.words && self.failure.is_none() {
            if !shutdown {
                return HwrngNext::Draw;
            }
            self.failure = Some(Errno::ENODEV);
        }
        if self.out.len() > 0 {
            return HwrngNext::Return(self.out.len() as i32);
        }
        match self.failure {
            Some(e) => HwrngNext::Return(e.to_errno()),
            None => HwrngNext::Return(Errno::EIO.to_errno()),
        }
    }

    /// Takes a word in, or the error in its place.
    pub fn drew(&mut self, word: Result<u32, Errno>)
        requires
            old(self).wf(),
            old(self)@.drawn < old(self)@.words,
        ensures
            final(self).wf(),
            final(self)@ == (match word {
                Ok(v) => HwrngView {
                    out: old(self)@.out + u32_le(v as int),
                    drawn: old(self)@.drawn + 1,
                    ..old(self)@
                },
                Err(e) => HwrngView { failure: Some(e), ..old(self)@ },
            }),
    {
        match word {
            Ok(v) => {
                proof {
                    u32_le_len(v as int);
                }
                put_u32(&mut self.out, v);
                self.drawn = self.drawn + 1;
            },
            Err(e) => {
                self.failure = Some(e);
            },
        }
    }

    /// The bytes that were drawn.
    pub fn bytes(&self) -> (b: &[u8])
        ensures
            b@ == self@.out,
    {
        self.out.as_slice()
    }
}

/// A read that waits never answers zero.
pub proof fn waiting_read_is_never_empty(v: HwrngView)
    requires
        v.out.len() <= 64,
    ensures
        hwrng_result(v) != 0,
        hwrng_result(v) > 0 <==> v.out.len() > 0,
{
}

// ---------------------------------------------------------------------------
// Hexadecimal.
// ---------------------------------------------------------------------------
pub open spec fn digit(n: int) -> char {
    if n < 10 {
        ('0' as int + n) as char
    } else {
        ('a' as int + (n - 10)) as char
    }
}

/// The bytes in hexadecimal, two digits each, with a blank between bytes.
pub open spec fn hex(b: Seq<u8>) -> Seq<char>
    decreases b.len(),
{
    if b.len() == 0 {
        Seq::empty()
    } else {
        let before = hex(b.drop_last());
        let parted = if b.len() > 1 {
            before.push(' ')
        } else {
            before
        };
        parted.push(digit(b.last() as int / 16)).push(digit(b.last() as int % 16))
    }
}

fn hex_digit(n: u8) -> (c: char)
    requires
        n < 16,
    ensures
        c == digit(n as int),
{
    match n {
        0 => '0',
        1 => '1',
        2 => '2',
        3 => '3',
        4 => '4',
        5 => '5',
        6 => '6',
        7 => '7',
        8 => '8',
        9 => '9',
        10 => 'a',
        11 => 'b',
        12 => 'c',
        13 => 'd',
        14 => 'e',
        _ => 'f',
    }
}

/// Writes bytes in hexadecimal.
pub fn to_hex(b: &[u8]) -> (out: Vec<char>)
    ensures
        out@ == hex(b@),
{
    let mut out: Vec<char> = Vec::new();
    let mut i: usize = 0;
    while i < b.len()
        invariant
            i <= b.len(),
            out@ == hex(b@.subrange(0, i as int)),
        decreases b.len() - i,
    {
        if i > 0 {
            out.push(' ');
        }
        out.push(hex_digit(b[i] / 16));
        out.push(hex_digit(b[i] % 16));
        assert(b@.subrange(0, i + 1).drop_last() =~= b@.subrange(0, i as int));
        i = i + 1;
    }
    assert(b@.subrange(0, i as int) =~= b@);
    out
}

/// The wait after `n` ticks, with nothing received and nothing announced.
pub open spec fn silent_ticks(s: Settle, n: nat) -> Settle
    decreases n,
{
    if n == 0 {
        s
    } else {
        tick(silent_ticks(s, (n - 1) as nat), 0).0
    }
}

/// An enclave that says nothing from the start is waited for through fourteen
/// ticks, and given up on at the fifteenth.
pub proof fn silence_from_the_start_is_given_up(n: nat)
    requires
        n <= 15,
    ensures
        ({
            let s = silent_ticks(
                Settle { phase: Phase::Attach, rx_count: 0, mark: 0, idle_ticks: 0 },
                n,
            );
            &&& s.rx_count == 0 && s.mark == 0 && s.idle_ticks == n
            &&& s.phase == (if n < 15 {
                Phase::Attach
            } else {
                Phase::Ready
            })
        }),
    decreases n,
{
    if n > 0 {
        silence_from_the_start_is_given_up((n - 1) as nat);
    }
}

/// A message of type 0 is filed as the descriptor of the endpoint that its parameter
/// names, one of type 1 as its configuration, and what was filed before under the other
/// stays; other endpoints stay as they were. A message of another type is counted.
pub proof fn announcements_are_filed(t: TableView, msg: Message, f: Fields, i: int)
    requires
        table_wf(t.eps),
        0 <= i < t.eps.len(),
    ensures
        ({
            let u = discovered(t, msg, f);
            &&& t.eps[i].id == f.param && f.ty == 0 ==> u.eps[i] == (Endpoint {
                id: f.param,
                descriptor: Some(msg),
                config: t.eps[i].config,
            })
            &&& t.eps[i].id == f.param && f.ty == 1 ==> u.eps[i] == (Endpoint {
                id: f.param,
                descriptor: t.eps[i].descriptor,
                config: Some(msg),
            })
            &&& t.eps[i].id != f.param || f.ty > 1 ==> u.eps[i] == t.eps[i]
            &&& t.discovery_msgs < u32::MAX ==> u.discovery_msgs == t.discovery_msgs + 1
            &&& t.eps[i].id == f.param && f.ty > 1 && t.unknown_types < u32::MAX
                ==> u.unknown_types == t.unknown_types + 1
            &&& f.ty <= 1 ==> u.unknown_types == t.unknown_types
        }),
{
    place_found(t.eps, f.param, 0);
    let at = place_of(t.eps, f.param, 0);
    if t.eps[i].id == f.param {
        if at < i {
            assert(t.eps[at].id != t.eps[i].id);
        }
    }
}

/// A new endpoint gets a place of its own behind the others, as long as there are fewer
/// than 64.
pub proof fn new_endpoint_gets_a_place(t: TableView, msg: Message, f: Fields)
    requires
        table_wf(t.eps),
        !present(t.eps, f.param),
    ensures
        ({
            let u = discovered(t, msg, f);
            let n = t.eps.len() as int;
            &&& n < 64 ==> u.eps.len() == n + 1 && u.eps[n].id == f.param && u.dirty
            &&& n < 64 && f.ty == 0 ==> u.eps[n].descriptor == Some(msg) && u.eps[n].config is None
            &&& n < 64 && f.ty == 1 ==> u.eps[n].config == Some(msg) && u.eps[n].descriptor is None
            &&& n >= 64 ==> u.eps == t.eps
        }),
{
    place_found(t.eps, f.param, 0);
}

/// Messages go by their endpoint: 0xfd is discovery, 0 with type 1 an answer to a
/// control request, 0x13 storage, 8 the sensor, 0x12 the key store and 10 credentials.
/// Nobody gets the rest.
pub proof fn messages_go_by_endpoint(f: Fields)
    ensures
        f.ep == 0xfd ==> route_of(f) == Route::Discovery(f),
        f.ep == 0 && f.ty == 1 ==> route_of(f) == Route::Control(
            ControlReply { tag: f.tag, data_lo: f.data_lo },
        ),
        f.ep == 0 && f.ty != 1 ==> route_of(f) == Route::Nobody,
        f.ep == 0x13 ==> route_of(f) == Route::Xarm,
        f.ep == 8 ==> route_of(f) == Route::Sbio,
        f.ep == 0x12 ==> route_of(f) == Route::Sks,
        f.ep == 10 ==> route_of(f) == Route::Scrd,
        f.ep != 0xfd && f.ep != 0 && f.ep != 0x13 && f.ep != 8 && f.ep != 0x12 && f.ep != 10
            ==> route_of(f) == Route::Nobody,
{
}

/// While attaching, an enclave that said something since the last tick is waited for;
/// once it is silent, with an endpoint announced, the exchange is prepared, and with
/// none it is given up.
pub proof fn attaching_waits_for_silence(s: Settle, endpoints: int)
    requires
        s.phase is Attach,
        s.rx_count > 0,
    ensures
        s.rx_count != s.mark ==> tick(s, endpoints) == (
            Settle { mark: s.rx_count, ..s },
            Tick::Again,
        ),
        s.rx_count == s.mark && endpoints == 0 ==> tick(s, endpoints) == (
            Settle { phase: Phase::Ready, ..s },
            Tick::Nothing,
        ),
        s.rx_count == s.mark && endpoints != 0 ==> tick(s, endpoints) == (s, Tick::Prepare),
{
}

/// During the exchange, an enclave that said something since the last tick is waited for
/// anew. Once it is silent with more than seven endpoints the rest is brought up; with
/// fewer it is waited for 75 silent ticks long, which is fifteen seconds.
pub proof fn exchange_waits_for_endpoints(s: Settle, endpoints: int)
    requires
        s.phase is Exchange,
        s.idle_ticks < 1000,
    ensures
        s.rx_count != s.mark ==> tick(s, endpoints) == (
            Settle { mark: s.rx_count, idle_ticks: 0, ..s },
            Tick::Again,
        ),
        s.rx_count == s.mark && endpoints > 7 ==> tick(s, endpoints).1 == Tick::Bringup && tick(
            s,
            endpoints,
        ).0.phase is Ready,
        s.rx_count == s.mark && endpoints <= 7 && s.idle_ticks < 74 ==> tick(s, endpoints).1
            == Tick::Again && tick(s, endpoints).0.idle_ticks == s.idle_ticks + 1,
        s.rx_count == s.mark && endpoints <= 7 && s.idle_ticks >= 74 ==> tick(s, endpoints).1
            == Tick::Bringup,
{
}

/// The driver goes in this order, where everything is there: nothing new is queued, the
/// keys are taken back, the device goes, who waits is woken, the source of entropy goes,
/// the mailbox is closed, its work cancelled, the stores closed, and then memory that the
/// enclave was told of is left to it, and other memory given back.
pub proof fn removal_in_order(told: bool)
    ensures
        ({
            let h = Holdings {
                xarm: Some(told),
                sbio: Some(told),
                sks: Some(told),
                scrd: Some(told),
                ring: Some(told),
                shared: Some(told),
            };
            let r = removal(true, true, h);
            &&& r.len() == 18
            &&& r[0] == RemoveStep::ShutDown
            &&& r[1] == RemoveStep::UnregisterTrustedKeys
            &&& r[2] == RemoveStep::UnregisterVolumeKeys
            &&& r[3] == RemoveStep::ReleaseSession
            &&& r[4] == RemoveStep::SensorOff
            &&& r[5] == RemoveStep::UnregisterSensor
            &&& r[6] == RemoveStep::UnpublishDevice
            &&& r[7] == RemoveStep::WakeWaiters
            &&& r[8] == RemoveStep::UnregisterRng
            &&& r[9] == RemoveStep::CloseMailbox
            &&& r[10] == RemoveStep::CancelWork
            &&& r[11] == RemoveStep::CloseStores
            &&& told ==> r[12] == RemoveStep::Leave(Memory::XarmBuffers) && r[13]
                == RemoveStep::Leave(Memory::SbioBuffers) && r[14] == RemoveStep::Leave(
                Memory::SksBuffers,
            ) && r[15] == RemoveStep::Leave(Memory::ScrdBuffers) && r[16] == RemoveStep::Leave(
                Memory::DmaRing,
            ) && r[17] == RemoveStep::Leave(Memory::Shared)
            &&& !told ==> r[12] == RemoveStep::Free(Memory::XarmBuffers) && r[13]
                == RemoveStep::Free(Memory::SbioBuffers) && r[14] == RemoveStep::Free(
                Memory::SksBuffers,
            ) && r[15] == RemoveStep::Free(Memory::ScrdBuffers) && r[16] == RemoveStep::Free(
                Memory::DmaRing,
            ) && r[17] == RemoveStep::Free(Memory::Shared)
        }),
        removal(
            false,
            false,
            Holdings { xarm: None, sbio: None, sks: None, scrd: None, ring: None, shared: None },
        ) == seq![
            RemoveStep::ShutDown,
            RemoveStep::UnregisterTrustedKeys,
            RemoveStep::UnregisterVolumeKeys,
            RemoveStep::WakeWaiters,
            RemoveStep::CloseMailbox,
            RemoveStep::CancelWork,
            RemoveStep::CloseStores,
        ],
{
    let none = Holdings { xarm: None, sbio: None, sks: None, scrd: None, ring: None, shared: None };
    assert(removal(false, false, none) =~= before_memory(false, false));
    assert(before_memory(false, false) =~= seq![
        RemoveStep::ShutDown,
        RemoveStep::UnregisterTrustedKeys,
        RemoveStep::UnregisterVolumeKeys,
        RemoveStep::WakeWaiters,
        RemoveStep::CloseMailbox,
        RemoveStep::CancelWork,
        RemoveStep::CloseStores,
    ]);
}

/// The survey asks three times for nothing, with 0, 1 and 0xff, then for the security
/// mode, and draws entropy four times, as long as each draw is answered.
pub proof fn survey_in_order(a: bool, b: bool, c: bool, d: bool)
    ensures
        ({
            let s0 = Survey { requests: 0, draws: 0, over: false };
            let (s1, a1) = survey_step(s0, a);
            let (s2, a2) = survey_step(s1, b);
            let (s3, a3) = survey_step(s2, c);
            let (s4, a4) = survey_step(s3, d);
            let (s5, a5) = survey_step(s4, a);
            let (s6, a6) = survey_step(s5, true);
            let (s7, a7) = survey_step(s6, true);
            let (s8, a8) = survey_step(s7, true);
            let (s9, a9) = survey_step(s8, true);
            &&& a1 matches SurveyAsk::Request(op) && op.ty == 0 && op.param == 0 && op.data == 0
            &&& a2 matches SurveyAsk::Request(op) && op.ty == 0 && op.param == 1 && op.data == 0
            &&& a3 matches SurveyAsk::Request(op) && op.ty == 0 && op.param == 0xff && op.data == 0
            &&& a4 matches SurveyAsk::Request(op) && op.ty == 0x14 && op.param == 0 && op.data == 0
            &&& a5 == SurveyAsk::Draw
            &&& a6 == SurveyAsk::Draw
            &&& a7 == SurveyAsk::Draw
            &&& a8 == SurveyAsk::Draw
            &&& a9 == SurveyAsk::RegisterRng
            &&& survey_step(s5, false).1 == SurveyAsk::LeaveRng
            &&& survey_step(s8, false).1 == SurveyAsk::LeaveRng
            &&& survey_step(s9, a).1 == SurveyAsk::Nothing
        }),
{
}

/// A read is given one word for every four bytes, and sixteen at most. It answers with
/// the bytes that it has, and else with the failure as a negative number.
pub proof fn read_answers(max: int, v: HwrngView, e: Errno)
    requires
        0 <= max,
        v.out.len() <= 64,
    ensures
        max >= 64 ==> read_words(max) == 16,
        max < 64 ==> read_words(max) == max / 4,
        v.out.len() > 0 ==> hwrng_result(v) == v.out.len(),
        v.out.len() == 0 && v.failure == Some(e) ==> hwrng_result(v) == -e.code(),
        v.out.len() == 0 && v.failure is None ==> hwrng_result(v) == -5,
{
}

/// Bytes are written with two digits each, the upper half first, and a blank between.
pub proof fn hexadecimal_digits(b: Seq<u8>, i: int)
    requires
        0 <= i < b.len(),
    ensures
        hex(b).len() == 3 * b.len() - 1,
        hex(b)[3 * i] == digit(b[i] as int / 16),
        hex(b)[3 * i + 1] == digit(b[i] as int % 16),
        i + 1 < b.len() ==> hex(b)[3 * i + 2] == ' ',
        digit(0) == '0',
        digit(9) == '9',
        digit(10) == 'a',
        digit(15) == 'f',
    decreases b.len(),
{
    if b.len() > 1 {
        let before = b.drop_last();
        hexadecimal_digits(
            before,
            if i < before.len() {
                i
            } else {
                0
            },
        );
        assert(hex(before).len() == 3 * b.len() - 4);
    } else {
        assert(b.drop_last() =~= Seq::<u8>::empty());
        assert(hex(b.drop_last()).len() == 0);
    }
}

/// The driver does not start where it is to make a key bag that could not be stored, where
/// there is no node, or where the memory was told of before, in this order.
pub proof fn probe_is_refused_in_order(a: bool, b: bool)
    ensures
        probe_refusal(true, false, a, b) == Some(Errno::EINVAL),
        probe_refusal(a, true, false, b) == Some(Errno::ENODEV),
        probe_refusal(false, a, false, b) == Some(Errno::ENODEV),
        probe_refusal(a, true, true, true) == Some(Errno::EBUSY),
        probe_refusal(false, a, true, true) == Some(Errno::EBUSY),
        probe_refusal(a, true, true, false) is None,
        probe_refusal(false, a, true, false) is None,
{
}

} // verus!
