//! The setup port, through which some of the sensor processor's firmware boots:
//! a handshake, and buffers for five endpoints out of one arena.

use vstd::prelude::*;

use crate::errno::Errno;
use crate::mailbox::Message;

verus! {

pub const SETUP_PAGE: u64 = 0x4000;

/// Five message pages and the reply windows.
pub const SETUP_ARENA_PAGES: u64 = 13;

pub const SETUP_MGMT_EP: u8 = 0;

pub const SETUP_TYPE_HELLO: u64 = 1;

pub const SETUP_TYPE_UNK3: u64 = 3;

pub const SETUP_TYPE_EPMAP: u64 = 8;

pub const SETUP_TYPE_AP_PWR: u64 = 0xb;

pub const SETUP_AP_PWR_ON: u64 = 0x20;

pub const SETUP_BUFFER_REQUEST: u64 = 0x12;

pub const SETUP_BOOT_TIMEOUT_MS: u32 = 15000;

/// The answer to the greeting.
pub const SETUP_HELLO_REPLY: u64 = 0x0020_0000_000c_000c;

pub const SETUP_UNK3_REPLY: u64 = 0x0040_0000_0000_0000;

/// The request for power.
pub const SETUP_POWER_REQUEST: u64 = 0x00b0_0000_0000_0220;

pub const SETUP_BUFFER_REQUEST_ACK: u64 = 0x1200_0000_0000_0000;

/// The five endpoints that get buffers.
pub open spec fn setup_endpoints() -> Seq<u8> {
    seq![0x20u8, 0x21, 0x23, 0x30, 0x32]
}

fn endpoint_slot(ep: u8) -> (r: Option<usize>)
    ensures
        match r {
            Some(i) => slot_of(ep) == Some(i as int) && i < 5 && setup_endpoints()[i as int] == ep,
            None => slot_of(ep) is None,
        },
{
    match ep {
        0x20 => Some(0),
        0x21 => Some(1),
        0x23 => Some(2),
        0x30 => Some(3),
        0x32 => Some(4),
        _ => None,
    }
}

/// Which of the five an endpoint is.
pub open spec fn slot_of(ep: u8) -> Option<int> {
    if ep == 0x20 {
        Some(0)
    } else if ep == 0x21 {
        Some(1)
    } else if ep == 0x23 {
        Some(2)
    } else if ep == 0x30 {
        Some(3)
    } else if ep == 0x32 {
        Some(4)
    } else {
        None
    }
}

/// An endpoint that has its buffers.
#[derive(Clone, Copy, Debug, PartialEq, Eq, Structural)]
pub struct SetupEndpoint {
    pub ep: u8,
    /// The last word on it that was not a request for buffers.
    pub reply: Option<u64>,
}

/// How far the setup port is.
pub struct SetupState {
    open: bool,
    arena: Option<u64>,
    next_page: u64,
    endpoints: Vec<Option<SetupEndpoint>>,
    map_done: bool,
    ap_ready: bool,
    power_sent: bool,
    failed: bool,
}

/// The state, by what it holds.
#[verifier::ext_equal]
pub struct SetupView {
    /// The port is open.
    pub open: bool,
    /// The address of the arena.
    pub arena: Option<u64>,
    /// The first page of the arena that was not given away.
    pub next_page: int,
    pub endpoints: Seq<Option<SetupEndpoint>>,
    pub map_done: bool,
    pub ap_ready: bool,
    pub power_sent: bool,
    /// The handshake broke down.
    pub failed: bool,
}

/// What is to be sent for a message, and what follows once it was.
#[derive(Clone, Copy, Debug, PartialEq, Eq, Structural)]
pub enum Plan {
    Nothing,
    Answer(u64),
    /// The same word goes back; whether it is the last of the endpoint map.
    Echo(u64, bool),
    /// The answer to a request for buffers: the acknowledgement, then where the
    /// endpoint's messages and its replies go.
    Buffers { ep: u8, slot: usize, tx: u64, rx: u64 },
    /// A request for buffers that is refused, and why. The handshake is broken.
    Refused(Errno),
}

/// A word on an endpoint.
pub open spec fn word_on(ep: u8, word: u64) -> Message {
    Message { msg0: word, msg1: ep as u32 }
}

/// The messages that carry a plan out, in order.
pub open spec fn plan_messages(p: Plan) -> Seq<Message> {
    match p {
        Plan::Nothing | Plan::Refused(_) => Seq::empty(),
        Plan::Answer(word) => seq![word_on(SETUP_MGMT_EP, word)],
        Plan::Echo(word, _) => seq![word_on(SETUP_MGMT_EP, word)],
        Plan::Buffers { ep, slot, tx, rx } => seq![
            word_on(ep, SETUP_BUFFER_REQUEST_ACK),
            word_on(ep, tx),
            word_on(ep, rx),
        ],
    }
}

impl Plan {
    /// The messages that carry the plan out, in order.
    pub fn messages(&self) -> (out: Vec<Message>)
        ensures
            out@ == plan_messages(*self),
    {
        let mut out: Vec<Message> = Vec::new();
        match self {
            Plan::Nothing | Plan::Refused(_) => {},
            Plan::Answer(word) | Plan::Echo(word, _) => {
                out.push(Message { msg0: *word, msg1: SETUP_MGMT_EP as u32 });
            },
            Plan::Buffers { ep, slot: _, tx, rx } => {
                out.push(Message { msg0: SETUP_BUFFER_REQUEST_ACK, msg1: *ep as u32 });
                out.push(Message { msg0: *tx, msg1: *ep as u32 });
                out.push(Message { msg0: *rx, msg1: *ep as u32 });
            },
        }
        assert(out@ =~= plan_messages(*self));
        out
    }
}

/// The word that hands a buffer over: its direction, its pages and its address.
pub open spec fn descriptor(iova: u64, pages: u64, host_to_aop: bool) -> u64 {
    (5u64 << 60) | ((if host_to_aop {
        1u64
    } else {
        0u64
    }) << 54) | (pages << 48) | (iova >> 4)
}

pub fn shared_descriptor(iova: u64, pages: u64, host_to_aop: bool) -> (w: u64)
    requires
        pages < 0x40,
    ensures
        w == descriptor(iova, pages, host_to_aop),
{
    let h: u64 = if host_to_aop {
        1
    } else {
        0
    };
    (5u64 << 60) | (h << 54) | (pages << 48) | (iova >> 4)
}

/// How many pages of replies a request is for, if it is one that is granted.
pub open spec fn reply_pages(word: u64) -> Option<int> {
    if word % 0x1_0000_0000 == 0x400 {
        Some(1)
    } else if word % 0x1_0000_0000 == 0x1000 {
        Some(4)
    } else {
        None
    }
}

/// Why a request for buffers is refused, if it is.
pub open spec fn request_fault(s: SetupView, ep: u8, word: u64) -> Option<Errno> {
    if slot_of(ep) is None || s.endpoints[slot_of(ep)->0] is Some || reply_pages(word) is None {
        Some(Errno::EINVAL)
    } else if s.next_page + 1 + reply_pages(word)->0 > 13 {
        Some(Errno::ENOMEM)
    } else if s.arena is None {
        Some(Errno::ENXIO)
    } else {
        None
    }
}

/// Where the page `n` of the arena is.
pub open spec fn page_iova(s: SetupView, n: int) -> int {
    s.arena->0 + n * 0x4000
}

/// What comes of a request for buffers. One that is refused changes nothing.
pub open spec fn request_step(s: SetupView, ep: u8, word: u64) -> (SetupView, Result<Plan, Errno>) {
    match request_fault(s, ep, word) {
        Some(e) => (s, Err(e)),
        None => {
            let pages = reply_pages(word)->0;
            (
                SetupView { next_page: s.next_page + 1 + pages, ..s },
                Ok(
                    Plan::Buffers {
                        ep,
                        slot: slot_of(ep)->0 as usize,
                        tx: descriptor(page_iova(s, s.next_page) as u64, 1, true),
                        rx: descriptor(page_iova(s, s.next_page + 1) as u64, pages as u64, false),
                    },
                ),
            )
        },
    }
}

/// What comes of a message on a service's endpoint. A request that is refused
/// breaks the handshake.
pub open spec fn endpoint_step(s: SetupView, ep: u8, word: u64) -> (SetupView, Plan) {
    if word / 0x100_0000_0000_0000 == 0x12 {
        match request_step(s, ep, word) {
            (t, Ok(p)) => (t, p),
            (t, Err(e)) => (SetupView { failed: true, ..t }, Plan::Refused(e)),
        }
    } else if slot_of(ep) is Some && s.endpoints[slot_of(ep)->0] is Some {
        let i = slot_of(ep)->0;
        (
            SetupView {
                endpoints: s.endpoints.update(i, Some(SetupEndpoint { ep, reply: Some(word) })),
                ..s
            },
            Plan::Nothing,
        )
    } else {
        (s, Plan::Nothing)
    }
}

/// What comes of a message of the handshake.
pub open spec fn management_step(s: SetupView, word: u64) -> (SetupView, Plan) {
    let ty = word / 0x10_0000_0000_0000 % 0x100;
    if ty == 1 {
        (s, Plan::Answer(SETUP_HELLO_REPLY))
    } else if ty == 8 {
        (s, Plan::Echo(word, word / 0x8_0000_0000_0000 % 2 == 1))
    } else if ty == 0xb {
        (SetupView { ap_ready: word % 0x1_0000 == 0x20, ..s }, Plan::Nothing)
    } else if ty == 3 {
        (s, Plan::Answer(SETUP_UNK3_REPLY))
    } else {
        (s, Plan::Nothing)
    }
}

/// What comes of a message.
pub open spec fn receive_step(s: SetupView, lost: bool, msg: Message) -> (SetupView, Plan) {
    if !s.open {
        (s, Plan::Nothing)
    } else if lost {
        (SetupView { failed: true, ..s }, Plan::Nothing)
    } else {
        let ep = (msg.msg1 % 0x100) as u8;
        if ep == 0 {
            management_step(s, msg.msg0)
        } else {
            endpoint_step(s, ep, msg.msg0)
        }
    }
}

/// What follows once a plan was carried out, or could not be.
pub open spec fn sent_step(s: SetupView, p: Plan, ok: bool) -> SetupView {
    if !ok {
        SetupView { failed: true, ..s }
    } else {
        match p {
            Plan::Echo(_, true) => SetupView { map_done: true, ..s },
            Plan::Buffers { ep, slot, .. } => SetupView {
                endpoints: s.endpoints.update(
                    slot as int,
                    Some(SetupEndpoint { ep, reply: None }),
                ),
                ..s
            },
            _ => s,
        }
    }
}

/// How many of the first `n` endpoints have their buffers.
pub open spec fn served(endpoints: Seq<Option<SetupEndpoint>>, n: int) -> int
    decreases n,
{
    if n <= 0 {
        0
    } else {
        served(endpoints, n - 1) + (if endpoints[n - 1] is Some {
            1int
        } else {
            0
        })
    }
}

proof fn served_bounds(endpoints: Seq<Option<SetupEndpoint>>, n: int)
    requires
        0 <= n,
    ensures
        0 <= served(endpoints, n) <= n,
        served(endpoints, n) == n <==> forall|i: int| 0 <= i < n ==> endpoints[i] is Some,
    decreases n,
{
    if n > 0 {
        served_bounds(endpoints, n - 1);
        if served(endpoints, n) == n {
            assert(endpoints[n - 1] is Some);
        }
    }
}

/// Whether every endpoint has its buffers.
pub open spec fn all_served(s: SetupView) -> bool {
    forall|i: int| 0 <= i < 5 ==> s.endpoints[i] is Some
}

/// The request for power that is still to be sent.
pub open spec fn power_word(s: SetupView) -> Option<u64> {
    if s.power_sent {
        None
    } else {
        Some(SETUP_POWER_REQUEST)
    }
}

/// What a look at how far the boot is comes to.
pub open spec fn waited(s: SetupView, lost: bool, timed_out: bool) -> Wait {
    if s.ap_ready && all_served(s) {
        Wait::Ready
    } else if timed_out {
        Wait::Failed(Errno::ETIMEDOUT)
    } else if s.failed || lost {
        Wait::Failed(Errno::EIO)
    } else {
        Wait::Again
    }
}

/// What a wait for the boot to complete comes to.
#[derive(Clone, Copy, Debug, PartialEq, Eq, Structural)]
pub enum Wait {
    Ready,
    Again,
    Failed(Errno),
}

impl SetupState {
    pub closed spec fn view(&self) -> SetupView {
        SetupView {
            open: self.open,
            arena: self.arena,
            next_page: self.next_page as int,
            endpoints: self.endpoints@,
            map_done: self.map_done,
            ap_ready: self.ap_ready,
            power_sent: self.power_sent,
            failed: self.failed,
        }
    }

    /// No more pages were given away than there are, and the arena's addresses
    /// fit the processor's 42 bits.
    pub open spec fn wf(&self) -> bool {
        &&& self@.endpoints.len() == 5
        &&& 0 <= self@.next_page <= 13
        &&& self@.arena matches Some(a) ==> a < 0x400_0000_0000
        &&& forall|i: int|
            0 <= i < 5 ==> (#[trigger] self@.endpoints[i] matches Some(e) ==> e.ep
                == setup_endpoints()[i])
    }

    pub fn new() -> (s: SetupState)
        ensures
            s.wf(),
            !s@.open && s@.arena is None && s@.next_page == 0,
            !s@.map_done && !s@.ap_ready && !s@.power_sent && !s@.failed,
            forall|i: int| 0 <= i < 5 ==> s@.endpoints[i] is None,
    {
        let mut endpoints: Vec<Option<SetupEndpoint>> = Vec::new();
        let mut i: usize = 0;
        while i < 5
            invariant
                i <= 5,
                endpoints.len() == i,
                forall|j: int| 0 <= j < i ==> endpoints@[j] is None,
            decreases 5 - i,
        {
            endpoints.push(None);
            i = i + 1;
        }
        SetupState {
            open: false,
            arena: None,
            next_page: 0,
            endpoints,
            map_done: false,
            ap_ready: false,
            power_sent: false,
            failed: false,
        }
    }

    /// The port is open, and its arena is at `iova`.
    pub fn opened(&mut self, iova: u64)
        requires
            old(self).wf(),
            iova < 0x400_0000_0000,
        ensures
            final(self).wf(),
            final(self)@ == (SetupView { open: true, arena: Some(iova), ..old(self)@ }),
    {
        self.open = true;
        self.arena = Some(iova);
        assert(self@ =~= SetupView { open: true, arena: Some(iova), ..old(self)@ });
    }

    /// Closes the port, and says whether it was open.
    pub fn close(&mut self) -> (was: bool)
        requires
            old(self).wf(),
        ensures
            final(self).wf(),
            was == old(self)@.open,
            final(self)@ == (SetupView { open: false, ..old(self)@ }),
    {
        let was = self.open;
        self.open = false;
        assert(self@ =~= SetupView { open: false, ..old(self)@ });
        was
    }

    /// Takes the arena out, to be freed or kept.
    pub fn take_arena(&mut self) -> (a: Option<u64>)
        requires
            old(self).wf(),
        ensures
            final(self).wf(),
            a == old(self)@.arena,
            final(self)@ == (SetupView { arena: None, ..old(self)@ }),
    {
        let a = self.arena;
        self.arena = None;
        assert(self@ =~= SetupView { arena: None, ..old(self)@ });
        a
    }

    fn fail(&mut self)
        requires
            old(self).wf(),
        ensures
            final(self).wf(),
            final(self)@ == (SetupView { failed: true, ..old(self)@ }),
    {
        self.failed = true;
        assert(self@ =~= SetupView { failed: true, ..old(self)@ });
    }

    /// Answers an endpoint's request for buffers: one page for messages to it,
    /// and a window for its replies.
    pub fn setup_endpoint_request(&mut self, ep: u8, word: u64) -> (r: Result<Plan, Errno>)
        requires
            old(self).wf(),
        ensures
            final(self).wf(),
            (final(self)@, r) == request_step(old(self)@, ep, word),
    {
        let slot = match endpoint_slot(ep) {
            None => {
                return Err(Errno::EINVAL);
            },
            Some(s) => s,
        };
        let requested: u64 = word % 0x1_0000_0000;
        if self.endpoints[slot].is_some() || (requested != 0x400 && requested != 0x1000) {
            return Err(Errno::EINVAL);
        }
        let pages: u64 = if requested == 0x400 {
            1
        } else {
            4
        };
        if self.next_page + 1 + pages > SETUP_ARENA_PAGES {
            return Err(Errno::ENOMEM);
        }
        let base: u64 = match self.arena {
            None => {
                return Err(Errno::ENXIO);
            },
            Some(a) => a,
        };
        let tx: u64 = base + self.next_page * 0x4000;
        let rx: u64 = base + (self.next_page + 1) * 0x4000;
        self.next_page = self.next_page + 1 + pages;
        assert(self@ =~= SetupView { next_page: old(self)@.next_page + 1 + pages, ..old(self)@ });
        Ok(
            Plan::Buffers {
                ep,
                slot,
                tx: shared_descriptor(tx, 1, true),
                rx: shared_descriptor(rx, pages, false),
            },
        )
    }

    /// Takes in a message on one of the services' endpoints.
    fn setup_endpoint(&mut self, ep: u8, word: u64) -> (p: Plan)
        requires
            old(self).wf(),
        ensures
            final(self).wf(),
            (final(self)@, p) == endpoint_step(old(self)@, ep, word),
    {
        if word / 0x100_0000_0000_0000 == SETUP_BUFFER_REQUEST {
            return match self.setup_endpoint_request(ep, word) {
                Ok(p) => p,
                Err(e) => {
                    self.fail();
                    Plan::Refused(e)
                },
            };
        }
        match endpoint_slot(ep) {
            None => {},
            Some(slot) => {
                if self.endpoints[slot].is_some() {
                    self.endpoints.set(slot, Some(SetupEndpoint { ep, reply: Some(word) }));
                    assert(self@ =~= SetupView {
                        endpoints: old(self)@.endpoints.update(
                            slot as int,
                            Some(SetupEndpoint { ep, reply: Some(word) }),
                        ),
                        ..old(self)@
                    });
                }
            },
        }
        Plan::Nothing
    }

    /// Takes in a message, and says what to send for it. A message that was
    /// lost before breaks the handshake, as does a request that cannot be
    /// granted.
    pub fn setup_handle(&mut self, lost: bool, msg: Message) -> (p: Plan)
        requires
            old(self).wf(),
        ensures
            final(self).wf(),
            (final(self)@, p) == receive_step(old(self)@, lost, msg),
    {
        if !self.open {
            return Plan::Nothing;
        }
        if lost {
            self.fail();
            return Plan::Nothing;
        }
        let ep: u8 = (msg.msg1 % 0x100) as u8;
        let word: u64 = msg.msg0;
        if ep != SETUP_MGMT_EP {
            return self.setup_endpoint(ep, word);
        }
        let ty: u64 = word / 0x10_0000_0000_0000 % 0x100;
        if ty == SETUP_TYPE_HELLO {
            return Plan::Answer(SETUP_HELLO_REPLY);
        }
        if ty == SETUP_TYPE_EPMAP {
            return Plan::Echo(word, word / 0x8_0000_0000_0000 % 2 == 1);
        }
        if ty == SETUP_TYPE_AP_PWR {
            self.ap_ready = word % 0x1_0000 == SETUP_AP_PWR_ON;
            assert(self@ =~= SetupView { ap_ready: word % 0x1_0000 == 0x20, ..old(self)@ });
            return Plan::Nothing;
        }
        if ty == SETUP_TYPE_UNK3 {
            return Plan::Answer(SETUP_UNK3_REPLY);
        }
        Plan::Nothing
    }

    /// Notes whether what a plan says could be sent. Whatever could not be
    /// breaks the handshake.
    pub fn sent(&mut self, p: Plan, ok: bool)
        requires
            old(self).wf(),
            p matches Plan::Buffers { ep, slot, .. } ==> slot < 5 && setup_endpoints()[slot as int]
                == ep,
        ensures
            final(self).wf(),
            final(self)@ == sent_step(old(self)@, p, ok),
    {
        if !ok {
            self.fail();
            return;
        }
        match p {
            Plan::Echo(_, last) => {
                if last {
                    self.map_done = true;
                    assert(self@ =~= SetupView { map_done: true, ..old(self)@ });
                }
            },
            Plan::Buffers { ep, slot, tx: _, rx: _ } => {
                self.endpoints.set(slot, Some(SetupEndpoint { ep, reply: None }));
                assert(self@ =~= SetupView {
                    endpoints: old(self)@.endpoints.update(
                        slot as int,
                        Some(SetupEndpoint { ep, reply: None }),
                    ),
                    ..old(self)@
                });
            },
            _ => {},
        }
    }

    /// How many endpoints have their buffers.
    pub fn endpoint_count(&self) -> (n: usize)
        requires
            self.wf(),
        ensures
            n == served(self@.endpoints, 5),
    {
        let mut n: usize = 0;
        let mut i: usize = 0;
        while i < 5
            invariant
                self.wf(),
                n <= i <= 5,
                n == served(self@.endpoints, i as int),
            decreases 5 - i,
        {
            if self.endpoints[i].is_some() {
                n = n + 1;
            }
            i = i + 1;
        }
        n
    }

    /// Whether the boot is complete.
    pub fn ready(&self) -> (r: bool)
        requires
            self.wf(),
        ensures
            r == (self@.ap_ready && all_served(self@)),
    {
        proof {
            served_bounds(self@.endpoints, 5);
        }
        self.ap_ready && self.endpoint_count() == 5
    }

    /// The request for power, unless it was sent.
    pub fn power_request(&self) -> (w: Option<u64>)
        ensures
            w == power_word(self@),
    {
        if self.power_sent {
            None
        } else {
            Some(SETUP_POWER_REQUEST)
        }
    }

    /// Notes that the request for power was sent.
    pub fn power_was_sent(&mut self)
        requires
            old(self).wf(),
        ensures
            final(self).wf(),
            final(self)@ == (SetupView { power_sent: true, ..old(self)@ }),
    {
        self.power_sent = true;
        assert(self@ =~= SetupView { power_sent: true, ..old(self)@ });
    }

    /// Whether to go on waiting for the boot to complete. A broken handshake
    /// ends the wait at once, unless the boot is complete; so does the time.
    pub fn setup_wait(&self, lost: bool, timed_out: bool) -> (w: Wait)
        requires
            self.wf(),
        ensures
            w == waited(self@, lost, timed_out),
    {
        if self.ready() {
            return Wait::Ready;
        }
        if timed_out {
            return Wait::Failed(Errno::ETIMEDOUT);
        }
        if self.failed || lost {
            return Wait::Failed(Errno::EIO);
        }
        Wait::Again
    }
}

// ---------------------------------------------------------------------------
// Laws.
// ---------------------------------------------------------------------------
/// The pages that a granted request gets.
pub open spec fn granted(s: SetupView, word: u64) -> (int, int) {
    (s.next_page, s.next_page + 1 + reply_pages(word)->0)
}

/// No page of the arena is given away twice: whatever is granted starts where
/// nothing was given away yet and lies within the arena, and afterwards it
/// counts as given away. No message makes a page that was given away free again.
pub proof fn pages_are_given_once(s: SetupView, lost: bool, msg: Message)
    requires
        0 <= s.next_page <= 13,
        s.endpoints.len() == 5,
    ensures
        ({
            let (t, p) = receive_step(s, lost, msg);
            &&& t.next_page >= s.next_page
            &&& t.next_page <= 13
            &&& p is Buffers ==> granted(s, msg.msg0).0 == s.next_page && granted(s, msg.msg0).1
                == t.next_page
            &&& p !is Buffers ==> t.next_page == s.next_page
        }),
{
}

/// An endpoint gets buffers once.
pub proof fn buffers_are_given_once(s: SetupView, lost: bool, msg: Message)
    requires
        s.endpoints.len() == 5,
    ensures
        receive_step(s, lost, msg).1 matches Plan::Buffers { ep, slot, .. } ==> slot_of(ep) == Some(
            slot as int,
        ) && s.endpoints[slot as int] is None,
{
}

/// A broken handshake stays broken.
pub proof fn failure_is_final(s: SetupView, lost: bool, msg: Message, p: Plan, ok: bool)
    requires
        s.failed,
    ensures
        receive_step(s, lost, msg).0.failed,
        sent_step(s, p, ok).failed,
{
}

/// From the word that hands a buffer over, its direction, its pages and its
/// address can be read back.
pub proof fn descriptor_round_trip(iova: u64, pages: u64, host_to_aop: bool)
    requires
        iova < 0x400_0000_0000,
        pages < 0x40,
    ensures
        descriptor(iova, pages, host_to_aop) & 0xffff_ffff_ffff == iova >> 4,
        (descriptor(iova, pages, host_to_aop) >> 48) & 0x3f == pages,
        (descriptor(iova, pages, host_to_aop) >> 54) & 1 == (if host_to_aop {
            1u64
        } else {
            0u64
        }),
        descriptor(iova, pages, host_to_aop) >> 60 == 5,
{
    let h: u64 = if host_to_aop {
        1u64
    } else {
        0u64
    };
    let d = descriptor(iova, pages, host_to_aop);
    assert(((5u64 << 60) | (h << 54) | (pages << 48) | (iova >> 4)) & 0xffff_ffff_ffff == iova >> 4
        && (((5u64 << 60) | (h << 54) | (pages << 48) | (iova >> 4)) >> 48) & 0x3f == pages && (((
    5u64 << 60) | (h << 54) | (pages << 48) | (iova >> 4)) >> 54) & 1 == h && ((5u64 << 60) | (h
        << 54) | (pages << 48) | (iova >> 4)) >> 60 == 5) by (bit_vector)
        requires
            iova < 0x400_0000_0000,
            pages < 0x40,
            h <= 1,
    ;
}

/// A request for buffers is refused with EINVAL exactly where the endpoint gets
/// none, has its own, or asks for a number of entries that is not given; else
/// with ENOMEM exactly where the arena has no pages left for it. Where the arena
/// is there, every other request is granted: the endpoint is sent the
/// acknowledgement, then where its messages go, then where its replies go, one
/// behind the other from the first page that was not given away.
pub proof fn requests_are_granted_or_refused(s: SetupView, ep: u8, word: u64)
    requires
        s.endpoints.len() == 5,
        s.arena is Some,
    ensures
        ({
            let (t, r) = request_step(s, ep, word);
            let known = slot_of(ep) is Some && s.endpoints[slot_of(ep)->0] is None;
            let pages = reply_pages(word);
            &&& r == Err::<Plan, Errno>(Errno::EINVAL) <==> !known || pages is None
            &&& r == Err::<Plan, Errno>(Errno::ENOMEM) <==> known && pages is Some && s.next_page
                + 1 + pages->0 > 13
            &&& r is Err ==> t == s
            &&& r matches Ok(p) ==> {
                &&& t == (SetupView { next_page: s.next_page + 1 + pages->0, ..s })
                &&& plan_messages(p) == seq![
                    word_on(ep, SETUP_BUFFER_REQUEST_ACK),
                    word_on(ep, descriptor(page_iova(s, s.next_page) as u64, 1, true)),
                    word_on(
                        ep,
                        descriptor(
                            page_iova(s, s.next_page + 1) as u64,
                            pages->0 as u64,
                            false,
                        ),
                    ),
                ]
                &&& sent_step(t, p, true).endpoints[slot_of(ep)->0] is Some
            }
        }),
{
}

/// Five endpoints get buffers, each in a place of its own: 0x20, 0x21, 0x23, 0x30 and
/// 0x32.
pub proof fn endpoints_that_get_buffers(ep: u8)
    ensures
        slot_of(0x20) == Some(0int) && slot_of(0x21) == Some(1int) && slot_of(0x23) == Some(2int),
        slot_of(0x30) == Some(3int) && slot_of(0x32) == Some(4int),
        slot_of(ep) is Some ==> ep == 0x20 || ep == 0x21 || ep == 0x23 || ep == 0x30 || ep == 0x32,
{
}

/// What the processor is answered in the handshake, on endpoint 0: the greeting and the
/// third message with fixed words, and a part of the endpoint map with the word that
/// came. The map is complete once its last part, the one with bit 51, was sent back.
pub proof fn handshake_is_answered(s: SetupView, x: u64, last: bool)
    requires
        s.open,
        x < 0x8_0000_0000_0000,
    ensures
        ({
            let (t, p) = receive_step(
                s,
                false,
                Message { msg0: (0x0010_0000_0000_0000 + x) as u64, msg1: 0 },
            );
            &&& t == s
            &&& plan_messages(p) == seq![Message { msg0: 0x0020_0000_000c_000c, msg1: 0 }]
            &&& sent_step(t, p, true) == s
        }),
        ({
            let (t, p) = receive_step(
                s,
                false,
                Message { msg0: (0x0030_0000_0000_0000 + x) as u64, msg1: 0 },
            );
            &&& t == s
            &&& plan_messages(p) == seq![Message { msg0: 0x0040_0000_0000_0000, msg1: 0 }]
            &&& sent_step(t, p, true) == s
        }),
        ({
            let word = (0x0080_0000_0000_0000 + x + if last {
                0x8_0000_0000_0000int
            } else {
                0
            }) as u64;
            let (t, p) = receive_step(s, false, Message { msg0: word, msg1: 0 });
            &&& t == s
            &&& plan_messages(p) == seq![Message { msg0: word, msg1: 0 }]
            &&& sent_step(t, p, true) == (SetupView { map_done: s.map_done || last, ..s })
            &&& sent_step(t, p, false) == (SetupView { failed: true, ..s })
        }),
{
}

/// The processor is up once it says 0x20 of its power, and down again once it says
/// anything else; neither is answered.
pub proof fn power_is_noted(s: SetupView, x: u64, state: u64)
    requires
        s.open,
        x < 0x10_0000_0000,
        state < 0x1_0000,
    ensures
        ({
            let (t, p) = receive_step(
                s,
                false,
                Message { msg0: (0x00b0_0000_0000_0000 + 0x1_0000 * x + state) as u64, msg1: 0 },
            );
            &&& t == (SetupView { ap_ready: state == 0x20, ..s })
            &&& plan_messages(p) == Seq::<Message>::empty()
        }),
{
}

/// A closed port takes nothing in, and a message that was lost before breaks the
/// handshake.
pub proof fn lost_message_breaks_the_handshake(s: SetupView, lost: bool, msg: Message)
    ensures
        !s.open ==> receive_step(s, lost, msg) == (s, Plan::Nothing),
        s.open ==> receive_step(s, true, msg) == (
            SetupView { failed: true, ..s },
            Plan::Nothing,
        ),
{
}

/// A request for 0x400 entries gets one page for messages and one for replies, a request
/// for 0x1000 gets four for replies. The endpoint is told of three things in order: the
/// acknowledgement, where its messages go, and where its replies go, which lie behind
/// them. Once that was sent the endpoint has its buffers.
pub proof fn buffers_are_granted(s: SetupView, ep: u8, x: u64, large: bool)
    requires
        s.open,
        s.arena is Some,
        s.arena->0 < 0x300_0000_0000,
        s.endpoints.len() == 5,
        slot_of(ep) is Some,
        s.endpoints[slot_of(ep)->0] is None,
        0 <= s.next_page,
        s.next_page + 2 <= 13,
        large ==> s.next_page + 5 <= 13,
        x < 0x100_0000,
    ensures
        ({
            let entries = if large {
                0x1000int
            } else {
                0x400
            };
            let pages = if large {
                4int
            } else {
                1
            };
            let word = (0x1200_0000_0000_0000 + 0x1_0000_0000 * x + entries) as u64;
            let (t, p) = receive_step(s, false, Message { msg0: word, msg1: ep as u32 });
            let told = plan_messages(p);
            &&& t == (SetupView { next_page: s.next_page + 1 + pages, ..s })
            &&& told.len() == 3
            &&& forall|i: int| 0 <= i < 3 ==> (#[trigger] told[i]).msg1 == ep
            &&& told[0].msg0 == 0x1200_0000_0000_0000
            &&& told[1].msg0 & 0xffff_ffff_ffff == ((s.arena->0 + s.next_page * 0x4000) as u64) >> 4
            &&& (told[1].msg0 >> 48) & 0x3f == 1
            &&& (told[1].msg0 >> 54) & 1 == 1
            &&& told[1].msg0 >> 60 == 5
            &&& told[2].msg0 & 0xffff_ffff_ffff == ((s.arena->0 + (s.next_page + 1)
                * 0x4000) as u64) >> 4
            &&& (told[2].msg0 >> 48) & 0x3f == pages
            &&& (told[2].msg0 >> 54) & 1 == 0
            &&& told[2].msg0 >> 60 == 5
            &&& sent_step(t, p, true) == (SetupView {
                endpoints: s.endpoints.update(
                    slot_of(ep)->0,
                    Some(SetupEndpoint { ep, reply: None }),
                ),
                ..t
            })
        }),
{
    let pages = if large {
        4int
    } else {
        1
    };
    descriptor_round_trip((s.arena->0 + s.next_page * 0x4000) as u64, 1, true);
    descriptor_round_trip(
        (s.arena->0 + (s.next_page + 1) * 0x4000) as u64,
        pages as u64,
        false,
    );
}

/// Whatever else an endpoint with buffers says is kept as its latest word, and whatever
/// one without says is passed over.
pub proof fn latest_word_is_kept(s: SetupView, ep: u8, word: u64)
    requires
        s.open,
        s.endpoints.len() == 5,
        ep != 0,
        word < 0x1200_0000_0000_0000,
    ensures
        ({
            let (t, p) = receive_step(s, false, Message { msg0: word, msg1: ep as u32 });
            &&& p == Plan::Nothing
            &&& slot_of(ep) is None || s.endpoints[slot_of(ep)->0] is None ==> t == s
            &&& slot_of(ep) is Some && s.endpoints[slot_of(ep)->0] is Some ==> t == (SetupView {
                endpoints: s.endpoints.update(
                    slot_of(ep)->0,
                    Some(SetupEndpoint { ep, reply: Some(word) }),
                ),
                ..s
            })
        }),
{
}

/// The request for power is sent once.
pub proof fn power_is_asked_for_once(s: SetupView)
    ensures
        !s.power_sent ==> power_word(s) == Some(0x00b0_0000_0000_0220u64),
        s.power_sent ==> power_word(s) is None,
{
}

/// The boot is complete once the processor is up and all five endpoints have their
/// buffers, late or broken as the rest may be. Until then the time that runs out ends
/// the wait before a broken handshake does, and otherwise it goes on.
pub proof fn boot_is_awaited(s: SetupView, lost: bool, timed_out: bool)
    ensures
        waited(s, lost, timed_out) == Wait::Ready <==> s.ap_ready && s.endpoints[0] is Some
            && s.endpoints[1] is Some && s.endpoints[2] is Some && s.endpoints[3] is Some
            && s.endpoints[4] is Some,
        !s.ap_ready ==> waited(s, lost, true) == Wait::Failed(Errno::ETIMEDOUT),
        !s.ap_ready && s.failed ==> waited(s, lost, false) == Wait::Failed(Errno::EIO),
        !s.ap_ready ==> waited(s, true, false) == Wait::Failed(Errno::EIO),
        !s.ap_ready && !s.failed ==> waited(s, false, false) == Wait::Again,
        s.endpoints[4] is None && !s.failed ==> waited(s, false, false) == Wait::Again,
{
}

} // verus!
