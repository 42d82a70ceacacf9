//! Transactions with the biometric endpoint: what is done when it notifies, and
//! how a request is sent and its answer waited for.

use crate::errno::Errno;
use crate::transfer::{
    aborted, ActiveView, header_in, on_packet, Completed, CompletedView, Continuation, DeviceStatus,
    Packet, Progress, Reassembly, ReassemblyView, Sender, HEADER_LEN, MAX_TRANSACTION,
};
use vstd::prelude::*;

verus! {

pub const OOL_SIZE_SBIO: usize = 0x4000;

/// What of the buffer is left behind a packet's header.
pub const SBIO_CAPACITY: usize = 0x3fe4;

pub const SBIO_TIMEOUT_MS: u32 = 5000;

/// Where the delivery of a packet stands.
#[derive(Clone, Copy, Debug, PartialEq, Eq, Structural)]
pub enum Stage {
    AwaitHeader,
    ReadHeader,
    AwaitPayload(Packet),
    ReadPayload(Packet),
    Continue,
    Over,
}

/// The delivery of the packet that a message announced. A notification and the
/// write of the buffer are not ordered, so that each part is read only once it
/// has been written.
#[derive(Clone, Copy, Debug, PartialEq, Eq, Structural)]
pub struct Delivery {
    pub marker: u8,
    pub stage: Stage,
}

#[derive(Clone, Copy, Debug, PartialEq, Eq, Structural)]
pub enum Ask {
    /// Wait for this part of the buffer to be written.
    AwaitWritten { at: usize, len: usize },
    Read { at: usize, len: usize },
    /// Put the continuation's packet into the buffer and announce it.
    Send(Continuation),
    /// Over, and whoever waits has to look.
    Notify,
    /// Over.
    Nothing,
}

pub enum Event<'a> {
    Written(bool),
    Bytes(Option<&'a [u8]>),
    Sent(bool),
}

pub open spec fn over(d: Delivery) -> Delivery {
    Delivery { stage: Stage::Over, ..d }
}

/// The transaction is given up, since the buffer was not to be read.
pub open spec fn given_up(
    rx: ReassemblyView,
    d: Delivery,
    status: DeviceStatus,
) -> (ReassemblyView, Delivery, Ask) {
    (aborted(rx, status), over(d), Ask::Notify)
}

/// A packet that was read is taken in.
pub open spec fn taken(rx: ReassemblyView, d: Delivery, p: Packet, payload: Seq<u8>) -> (
    ReassemblyView,
    Delivery,
    Ask,
) {
    let (next, progress) = on_packet(rx, d.marker, p, payload);
    match progress {
        Progress::NeedMore(c) => (next, Delivery { stage: Stage::Continue, ..d }, Ask::Send(c)),
        Progress::Complete | Progress::Grant | Progress::Failed => (next, over(d), Ask::Notify),
        Progress::Ignored | Progress::Notification => (next, over(d), Ask::Nothing),
    }
}

pub open spec fn delivery_step(rx: ReassemblyView, d: Delivery, e: Event) -> (
    ReassemblyView,
    Delivery,
    Ask,
) {
    match d.stage {
        Stage::AwaitHeader => match e {
            Event::Written(true) => (
                rx,
                Delivery { stage: Stage::ReadHeader, ..d },
                Ask::Read { at: 0, len: HEADER_LEN },
            ),
            _ => given_up(rx, d, DeviceStatus::BufferNeverWritten),
        },
        Stage::ReadHeader => match e {
            Event::Bytes(Some(b)) => if b@.len() < HEADER_LEN {
                given_up(rx, d, DeviceStatus::NotAnswered)
            } else if header_in(b@).chunk == 0 {
                taken(rx, d, header_in(b@), Seq::empty())
            } else {
                (
                    rx,
                    Delivery { stage: Stage::AwaitPayload(header_in(b@)), ..d },
                    Ask::AwaitWritten { at: HEADER_LEN, len: header_in(b@).chunk as usize },
                )
            },
            _ => given_up(rx, d, DeviceStatus::NotAnswered),
        },
        Stage::AwaitPayload(p) => match e {
            Event::Written(true) => (
                rx,
                Delivery { stage: Stage::ReadPayload(p), ..d },
                Ask::Read { at: HEADER_LEN, len: p.chunk as usize },
            ),
            _ => given_up(rx, d, DeviceStatus::BufferNeverWritten),
        },
        Stage::ReadPayload(p) => match e {
            Event::Bytes(Some(b)) => taken(rx, d, p, b@),
            _ => given_up(rx, d, DeviceStatus::NotAnswered),
        },
        Stage::Continue => match e {
            Event::Sent(true) => (rx, over(d), Ask::Nothing),
            _ => given_up(rx, d, DeviceStatus::NotAnswered),
        },
        Stage::Over => (rx, d, Ask::Nothing),
    }
}

impl Delivery {
    /// Starts with a message under this marker, if the buffers are registered.
    pub fn start(ready: bool, marker: u8) -> (r: (Delivery, Ask))
        ensures
            r == (if ready {
                (
                    Delivery { marker, stage: Stage::AwaitHeader },
                    Ask::AwaitWritten { at: 0, len: HEADER_LEN },
                )
            } else {
                (Delivery { marker, stage: Stage::Over }, Ask::Nothing)
            }),
    {
        if ready {
            (
                Delivery { marker, stage: Stage::AwaitHeader },
                Ask::AwaitWritten { at: 0, len: HEADER_LEN },
            )
        } else {
            (Delivery { marker, stage: Stage::Over }, Ask::Nothing)
        }
    }

    fn give_up(&mut self, rx: &mut Reassembly, status: DeviceStatus) -> (ask: Ask)
        ensures
            (final(rx)@, *final(self), ask) == given_up(old(rx)@, *old(self), status),
    {
        rx.abort_with(status);
        self.stage = Stage::Over;
        Ask::Notify
    }

    fn take(&mut self, rx: &mut Reassembly, p: &Packet, payload: &[u8]) -> (ask: Ask)
        ensures
            (final(rx)@, *final(self), ask) == taken(old(rx)@, *old(self), *p, payload@),
    {
        match rx.on_chunk(self.marker, p, payload) {
            Progress::NeedMore(c) => {
                self.stage = Stage::Continue;
                Ask::Send(c)
            },
            Progress::Complete | Progress::Grant | Progress::Failed => {
                self.stage = Stage::Over;
                Ask::Notify
            },
            Progress::Ignored | Progress::Notification => {
                self.stage = Stage::Over;
                Ask::Nothing
            },
        }
    }

    pub fn step(&mut self, rx: &mut Reassembly, e: &Event<'_>) -> (ask: Ask)
        ensures
            (final(rx)@, *final(self), ask) == delivery_step(old(rx)@, *old(self), *e),
    {
        match self.stage {
            Stage::AwaitHeader => match e {
                Event::Written(true) => {
                    self.stage = Stage::ReadHeader;
                    Ask::Read { at: 0, len: HEADER_LEN }
                },
                _ => self.give_up(rx, DeviceStatus::BufferNeverWritten),
            },
            Stage::ReadHeader => {
                let packet = match e {
                    Event::Bytes(Some(b)) => match Packet::decode(b) {
                        Ok(p) => p,
                        Err(_) => {
                            return self.give_up(rx, DeviceStatus::NotAnswered);
                        },
                    },
                    _ => {
                        return self.give_up(rx, DeviceStatus::NotAnswered);
                    },
                };
                if packet.chunk == 0 {
                    let nothing: Vec<u8> = Vec::new();
                    assert(nothing@ =~= Seq::<u8>::empty());
                    return self.take(rx, &packet, &nothing);
                }
                self.stage = Stage::AwaitPayload(packet);
                Ask::AwaitWritten { at: HEADER_LEN, len: packet.chunk as usize }
            },
            Stage::AwaitPayload(p) => match e {
                Event::Written(true) => {
                    self.stage = Stage::ReadPayload(p);
                    Ask::Read { at: HEADER_LEN, len: p.chunk as usize }
                },
                _ => self.give_up(rx, DeviceStatus::BufferNeverWritten),
            },
            Stage::ReadPayload(p) => match e {
                Event::Bytes(Some(b)) => self.take(rx, &p, b),
                _ => self.give_up(rx, DeviceStatus::NotAnswered),
            },
            Stage::Continue => match e {
                Event::Sent(true) => {
                    self.stage = Stage::Over;
                    Ask::Nothing
                },
                _ => self.give_up(rx, DeviceStatus::NotAnswered),
            },
            Stage::Over => Ask::Nothing,
        }
    }
}

/// Nothing runs and nothing is left over.
pub open spec fn at_rest() -> ReassemblyView {
    ReassemblyView { active: None, done: None, sending: None, grants: 0 }
}

/// A request is on its way out and nothing has come back.
pub open spec fn sending(opcode: u32) -> ReassemblyView {
    ReassemblyView {
        active: Some(ActiveView { opcode, total: 0, payload: Seq::empty(), seq: 0 }),
        done: None,
        sending: Some(opcode),
        grants: 0,
    }
}

/// What beginning a transaction leaves, or why it cannot be begun.
pub open spec fn begun(rx: ReassemblyView, ready: bool, len: int) -> Option<Errno> {
    if !ready {
        Some(Errno::ENODEV)
    } else if rx.active is Some {
        Some(Errno::EBUSY)
    } else if len > MAX_TRANSACTION {
        Some(Errno::EINVAL)
    } else {
        None
    }
}

/// Begins a transaction of this many bytes. One that is too long leaves nothing
/// behind.
pub fn begin_transfer(rx: &mut Reassembly, ready: bool, opcode: u16, len: usize) -> (r: Result<
    Sender,
    Errno,
>)
    ensures
        match r {
            Ok(s) => {
                &&& begun(old(rx)@, ready, len as int) is None
                &&& s == (Sender { opcode, offset: 0, seq: 0, first: true })
                &&& final(rx)@ == sending(opcode as u32)
            },
            Err(e) => {
                &&& begun(old(rx)@, ready, len as int) == Some(e)
                &&& e == Errno::EINVAL ==> final(rx)@ == (ReassemblyView { done: None, ..old(rx)@ })
                &&& e != Errno::EINVAL ==> final(rx)@ == old(rx)@
            },
        },
{
    if !ready {
        return Err(Errno::ENODEV);
    }
    if let Err(e) = rx.begin(opcode as u32) {
        return Err(e);
    }
    match Sender::start(opcode, len) {
        Ok(s) => {
            rx.begin_send(opcode as u32);
            Ok(s)
        },
        Err(e) => {
            rx.abort();
            let _ = rx.take_done();
            Err(e)
        },
    }
}

/// Every packet went out.
pub fn sent_all(rx: &mut Reassembly)
    ensures
        final(rx)@ == (ReassemblyView { sending: None, grants: 0, ..old(rx)@ }),
{
    rx.end_send();
}

/// A packet did not go out. Nothing of the transaction is left.
pub fn send_failed(rx: &mut Reassembly)
    ensures
        final(rx)@ == at_rest(),
{
    rx.end_send();
    rx.abort();
    let _ = rx.take_done();
}

/// How a wait stands.
pub enum Wait {
    /// Wait on.
    Longer,
    TimedOut,
    Granted,
    Answered(Completed),
}

/// Looks for the leave to send the next packet.
pub fn await_grant(rx: &mut Reassembly, remaining: u64) -> (w: Wait)
    ensures
        old(rx)@.grants > 0 ==> w is Granted && final(rx)@ == (ReassemblyView {
            grants: (old(rx)@.grants - 1) as u32,
            ..old(rx)@
        }),
        old(rx)@.grants == 0 ==> final(rx)@ == old(rx)@ && (if remaining == 0 {
            w is TimedOut
        } else {
            w is Longer
        }),
{
    if rx.take_grant() {
        return Wait::Granted;
    }
    if remaining == 0 {
        return Wait::TimedOut;
    }
    Wait::Longer
}

/// Looks for the answer. When the time is up, nothing of the transaction is
/// left.
pub fn await_answer(rx: &mut Reassembly, remaining: u64) -> (w: Wait)
    ensures
        match old(rx)@.done {
            Some(d) => {
                &&& w matches Wait::Answered(c) && c@ == d
                &&& final(rx)@ == (ReassemblyView { done: None, ..old(rx)@ })
            },
            None => if remaining == 0 {
                &&& w is TimedOut
                &&& final(rx)@ == (ReassemblyView { active: None, ..old(rx)@ })
            } else {
                w is Longer && final(rx)@ == old(rx)@
            },
        },
{
    if let Some(done) = rx.take_done() {
        return Wait::Answered(done);
    }
    if remaining == 0 {
        rx.abort();
        let _ = rx.take_done();
        return Wait::TimedOut;
    }
    Wait::Longer
}

/// After a transaction that failed on the way out, and after one that nobody
/// answered in time, the next one can be begun, unless it is too long.
pub proof fn failure_leaves_room(rx: ReassemblyView, len: int)
    ensures
        begun(at_rest(), true, len) is None <==> len <= MAX_TRANSACTION,
        begun((ReassemblyView { active: None, ..rx }), true, len) is None <==> len
            <= MAX_TRANSACTION,
{
}

/// A buffer that was never written is told apart from a device that gave no
/// answer, and neither touches a transaction that does not run.
pub proof fn unwritten_is_told(rx: ReassemblyView, d: Delivery)
    requires
        d.stage == Stage::AwaitHeader,
    ensures
        rx.active is Some ==> delivery_step(rx, d, Event::Written(false)).0.done == Some(
            CompletedView { status: DeviceStatus::BufferNeverWritten, payload: Seq::empty() },
        ),
        rx.active is None ==> delivery_step(rx, d, Event::Written(false)).0 == rx,
{
}

/// A delivery asks for its steps in this order: the 28 bytes of the header are waited for
/// and read, then as many bytes behind it as the header says, and the packet is taken in.
/// One without a payload is taken in at once.
pub proof fn delivery_in_order(
    rx: ReassemblyView,
    marker: u8,
    header: &[u8],
    payload: &[u8],
)
    requires
        header@.len() == 28,
    ensures
        ({
            let p = header_in(header@);
            let d0 = Delivery { marker, stage: Stage::AwaitHeader };
            let (r1, d1, a1) = delivery_step(rx, d0, Event::Written(true));
            let (r2, d2, a2) = delivery_step(r1, d1, Event::Bytes(Some(header)));
            let (r3, d3, a3) = delivery_step(r2, d2, Event::Written(true));
            let (r4, d4, a4) = delivery_step(r3, d3, Event::Bytes(Some(payload)));
            &&& a1 == (Ask::Read { at: 0, len: 28 })
            &&& p.chunk > 0 ==> a2 == (Ask::AwaitWritten { at: 28, len: p.chunk as usize }) && a3
                == (Ask::Read { at: 28, len: p.chunk as usize }) && r4 == on_packet(
                rx,
                marker,
                p,
                payload@,
            ).0
            &&& p.chunk == 0 ==> r2 == on_packet(rx, marker, p, Seq::empty()).0
        }),
{
}

/// What a packet amounts to decides what follows: more is asked for, whoever waits is
/// woken, or nothing is done.
pub proof fn packets_are_acted_on(rx: ReassemblyView, d: Delivery, p: Packet, payload: Seq<u8>)
    ensures
        on_packet(rx, d.marker, p, payload).1 matches Progress::NeedMore(c) ==> taken(
            rx,
            d,
            p,
            payload,
        ).2 == Ask::Send(c),
        on_packet(rx, d.marker, p, payload).1 is Complete || on_packet(rx, d.marker, p, payload).1
            is Grant || on_packet(rx, d.marker, p, payload).1 is Failed ==> taken(
            rx,
            d,
            p,
            payload,
        ).2 == Ask::Notify,
        on_packet(rx, d.marker, p, payload).1 is Ignored || on_packet(rx, d.marker, p, payload).1
            is Notification ==> taken(rx, d, p, payload).2 == Ask::Nothing,
{
}

/// A part of the buffer that cannot be read, or a continuation that cannot be sent, gives
/// the transaction up as unanswered, and wakes whoever waits.
pub proof fn broken_delivery_is_given_up(rx: ReassemblyView, d: Delivery)
    requires
        rx.active is Some,
    ensures
        d.stage is ReadHeader || d.stage is ReadPayload ==> delivery_step(
            rx,
            d,
            Event::Bytes(None),
        ).2 == Ask::Notify && delivery_step(rx, d, Event::Bytes(None)).0.done == Some(
            CompletedView { status: DeviceStatus::NotAnswered, payload: Seq::empty() },
        ),
        d.stage is Continue ==> delivery_step(rx, d, Event::Sent(false)).2 == Ask::Notify
            && delivery_step(rx, d, Event::Sent(false)).0.done == Some(
            CompletedView { status: DeviceStatus::NotAnswered, payload: Seq::empty() },
        ) && delivery_step(rx, d, Event::Sent(true)) == (
            rx,
            Delivery { stage: Stage::Over, ..d },
            Ask::Nothing,
        ),
{
}

/// A transaction is begun only on registered buffers, one at a time, and with at most
/// 307200 bytes.
pub proof fn transactions_are_begun(rx: ReassemblyView, len: int)
    ensures
        begun(rx, false, len) == Some(Errno::ENODEV),
        rx.active is Some ==> begun(rx, true, len) == Some(Errno::EBUSY),
        rx.active is None && len > 307_200 ==> begun(rx, true, len) == Some(Errno::EINVAL),
        rx.active is None && len <= 307_200 ==> begun(rx, true, len) is None,
{
}

} // verus!
