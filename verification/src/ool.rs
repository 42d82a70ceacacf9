//! The pairs of buffers through which an endpoint and the host exchange more
//! than fits a message.

use crate::bytes::{copy_range, splice, spliced};
use crate::errno::Errno;
use crate::proto::{
    iova_field, op_ool_inbound_addr, op_ool_inbound_size, op_ool_outbound_addr,
    op_ool_outbound_size, pooled_op, ControlOp,
};
use vstd::prelude::*;

verus! {

pub const OOL_WRITE_POLL_MS: u32 = 1;

pub const OOL_WRITE_POLL_ATTEMPTS: u32 = 200;

/// What the buffers are filled with before anyone has written to them.
pub const OOL_POISON_INBOUND: u8 = 0xA5;

pub const OOL_POISON_OUTBOUND: u8 = 0x5A;

/// A pair of buffers: the host writes to the inbound one, the enclave to the
/// outbound one.
#[derive(Clone, Copy, Debug, PartialEq, Eq, Structural)]
pub struct OolPair {
    pub endpoint: u8,
    pub allocated: usize,
    pub declared_in: usize,
    pub declared_out: usize,
    pub registered: bool,
}

/// The sizes that the key store is told of.
pub fn sks_declared_sizes() -> (r: (usize, usize))
    ensures
        r == (0x8000usize, 0x4000usize),
{
    (0x8000, 0x4000)
}

/// Bytes that are all the same.
pub open spec fn filled(n: int, b: u8) -> Seq<u8> {
    Seq::new(n as nat, |i: int| b)
}

/// A buffer of bytes that are all the same.
pub fn fill(n: usize, b: u8) -> (out: Vec<u8>)
    ensures
        out@ == filled(n as int, b),
{
    let mut out: Vec<u8> = Vec::new();
    while out.len() < n
        invariant
            out.len() <= n,
            out@ == filled(out.len() as int, b),
        decreases n - out.len(),
    {
        out.push(b);
        assert(out@ =~= filled(out.len() as int, b));
    }
    out
}

/// Whether anything but poison stands in this part of a buffer.
pub open spec fn is_written(outbound: Seq<u8>, off: int, len: int) -> bool {
    exists|i: int| off <= i < off + len && #[trigger] outbound[i] != OOL_POISON_OUTBOUND
}

impl OolPair {
    pub open spec fn wf(self) -> bool {
        self.declared_in <= self.allocated && self.declared_out <= self.allocated
    }

    /// A pair whose buffers hold what is declared of them.
    pub fn new(endpoint: u8, allocated: usize, declared: (usize, usize)) -> (r: Result<
        OolPair,
        Errno,
    >)
        ensures
            match r {
                Ok(p) => p.wf() && p == (OolPair {
                    endpoint,
                    allocated,
                    declared_in: declared.0,
                    declared_out: declared.1,
                    registered: false,
                }),
                Err(e) => (declared.0 > allocated || declared.1 > allocated) && e == Errno::EINVAL,
            },
    {
        if declared.0 > allocated || declared.1 > allocated {
            return Err(Errno::EINVAL);
        }
        Ok(
            OolPair {
                endpoint,
                allocated,
                declared_in: declared.0,
                declared_out: declared.1,
                registered: false,
            },
        )
    }

    /// Whether a part lies within the buffers.
    pub open spec fn covers(self, off: int, len: int) -> bool {
        off + len <= self.allocated
    }

    fn within(&self, off: usize, len: usize) -> (r: bool)
        ensures
            r == self.covers(off as int, len as int),
    {
        off <= self.allocated && len <= self.allocated - off
    }

    /// Takes bytes out of what the enclave wrote.
    pub fn read(&self, outbound: &[u8], off: usize, len: usize) -> (r: Result<Vec<u8>, Errno>)
        requires
            outbound.len() == self.allocated,
        ensures
            match r {
                Ok(b) => self.covers(off as int, len as int) && b@ == outbound@.subrange(
                    off as int,
                    off + len,
                ),
                Err(e) => !self.covers(off as int, len as int) && e == Errno::EINVAL,
            },
    {
        if !self.within(off, len) {
            return Err(Errno::EINVAL);
        }
        Ok(copy_range(outbound, off, off + len))
    }

    /// Whether the wait for the enclave's write is over: something is there,
    /// or what is waited for cannot be.
    pub fn written(&self, outbound: &[u8], off: usize, len: usize) -> (r: bool)
        requires
            outbound.len() == self.allocated,
        ensures
            r == (!self.covers(off as int, len as int) || is_written(
                outbound@,
                off as int,
                len as int,
            )),
    {
        if !self.within(off, len) {
            return true;
        }
        let mut i: usize = off;
        while i < off + len
            invariant
                off <= i <= off + len,
                off + len <= outbound.len(),
                forall|j: int| off <= j < i ==> #[trigger] outbound@[j] == OOL_POISON_OUTBOUND,
            decreases off + len - i,
        {
            if outbound[i] != OOL_POISON_OUTBOUND {
                assert(outbound@[i as int] != OOL_POISON_OUTBOUND);
                return true;
            }
            i = i + 1;
        }
        false
    }

    /// Writes bytes for the enclave.
    pub fn write(&self, inbound: &mut Vec<u8>, off: usize, bytes: &[u8]) -> (r: Result<(), Errno>)
        requires
            old(inbound).len() == self.allocated,
        ensures
            match r {
                Ok(_) => self.covers(off as int, bytes.len() as int) && final(inbound)@ == spliced(
                    old(inbound)@,
                    off as int,
                    bytes@,
                ),
                Err(e) => {
                    &&& !self.covers(off as int, bytes.len() as int) && e == Errno::ENOSPC
                    &&& final(inbound)@ == old(inbound)@
                },
            },
    {
        if !self.within(off, bytes.len()) {
            return Err(Errno::ENOSPC);
        }
        splice(inbound, off, bytes);
        Ok(())
    }
}

/// The wait for the enclave's write: how many looks were in vain.
#[derive(Clone, Copy, Debug, PartialEq, Eq, Structural)]
pub struct AwaitWritten {
    pub looks: u32,
}

#[derive(Clone, Copy, Debug, PartialEq, Eq, Structural)]
pub enum WriteWait {
    Look,
    Sleep(u32),
    Over(bool),
}

impl AwaitWritten {
    pub fn start() -> (r: (AwaitWritten, WriteWait))
        ensures
            r == (AwaitWritten { looks: 0 }, WriteWait::Look),
    {
        (AwaitWritten { looks: 0 }, WriteWait::Look)
    }

    pub fn looked(&mut self, written: bool) -> (w: WriteWait)
        requires
            old(self).looks < OOL_WRITE_POLL_ATTEMPTS,
        ensures
            final(self).looks == old(self).looks + 1,
            w == after_look(written),
    {
        self.looks = self.looks + 1;
        if written {
            WriteWait::Over(true)
        } else {
            WriteWait::Sleep(OOL_WRITE_POLL_MS)
        }
    }

    pub fn slept(&self) -> (w: WriteWait)
        ensures
            w == after_sleep(self.looks),
    {
        if self.looks < OOL_WRITE_POLL_ATTEMPTS {
            WriteWait::Look
        } else {
            WriteWait::Over(false)
        }
    }
}

/// Telling the enclave where a pair of buffers is: four requests, each of which
/// has to be answered.
#[derive(Clone, Copy, Debug, PartialEq, Eq, Structural)]
pub struct RegisterOol {
    pub pair: OolPair,
    pub in_iova: u64,
    pub out_iova: u64,
    pub sent: u8,
}

#[derive(Clone, Copy, Debug, PartialEq, Eq, Structural)]
pub enum RegisterAsk {
    Request(ControlOp),
    Done(Option<Errno>),
}

/// The request with this number.
pub open spec fn register_op(m: RegisterOol, n: int) -> ControlOp {
    let ep = m.pair.endpoint;
    if n == 0 {
        pooled_op(0x04, ep, m.pair.declared_in as u32)
    } else if n == 1 {
        pooled_op(0x02, ep, iova_field(m.in_iova))
    } else if n == 2 {
        pooled_op(0x05, ep, m.pair.declared_out as u32)
    } else {
        pooled_op(0x03, ep, iova_field(m.out_iova))
    }
}

/// How a request came out: answered, not answered in time, or not sent.
#[derive(Clone, Copy, Debug, PartialEq, Eq, Structural)]
pub enum Answer {
    Answered,
    Silence,
    NotSent(Errno),
}

pub open spec fn register_next(m: RegisterOol, a: Answer) -> (RegisterOol, RegisterAsk) {
    match a {
        Answer::NotSent(e) => (m, RegisterAsk::Done(Some(e))),
        Answer::Silence => (m, RegisterAsk::Done(Some(Errno::ETIMEDOUT))),
        Answer::Answered => if m.sent < 3 {
            (
                RegisterOol { sent: (m.sent + 1) as u8, ..m },
                RegisterAsk::Request(register_op(m, m.sent + 1)),
            )
        } else {
            (
                RegisterOol { pair: OolPair { registered: true, ..m.pair }, ..m },
                RegisterAsk::Done(None),
            )
        },
    }
}

impl RegisterOol {
    pub fn start(pair: OolPair, in_iova: u64, out_iova: u64) -> (r: (RegisterOol, RegisterAsk))
        requires
            pair.allocated <= u32::MAX,
        ensures
            r.0 == (RegisterOol { pair, in_iova, out_iova, sent: 0 }),
            r.1 == (if pair.registered {
                RegisterAsk::Done(None)
            } else if !pair.wf() {
                RegisterAsk::Done(Some(Errno::EINVAL))
            } else {
                RegisterAsk::Request(register_op(r.0, 0))
            }),
    {
        let m = RegisterOol { pair, in_iova, out_iova, sent: 0 };
        if pair.registered {
            return (m, RegisterAsk::Done(None));
        }
        if pair.declared_in > pair.allocated || pair.declared_out > pair.allocated {
            return (m, RegisterAsk::Done(Some(Errno::EINVAL)));
        }
        (m, RegisterAsk::Request(op_ool_inbound_size(pair.endpoint, pair.declared_in as u32)))
    }

    pub fn step(&mut self, a: Answer) -> (ask: RegisterAsk)
        requires
            old(self).pair.wf(),
            old(self).pair.allocated <= u32::MAX,
        ensures
            (*final(self), ask) == register_next(*old(self), a),
    {
        match a {
            Answer::NotSent(e) => RegisterAsk::Done(Some(e)),
            Answer::Silence => RegisterAsk::Done(Some(Errno::ETIMEDOUT)),
            Answer::Answered => {
                let ep: u8 = self.pair.endpoint;
                if self.sent >= 3 {
                    self.pair.registered = true;
                    return RegisterAsk::Done(None);
                }
                self.sent = self.sent + 1;
                if self.sent == 1 {
                    RegisterAsk::Request(op_ool_inbound_addr(ep, self.in_iova))
                } else if self.sent == 2 {
                    RegisterAsk::Request(op_ool_outbound_size(ep, self.pair.declared_out as u32))
                } else {
                    RegisterAsk::Request(op_ool_outbound_addr(ep, self.out_iova))
                }
            },
        }
    }
}

/// Whether requests can be put to an endpoint that works through buffers.
#[derive(Clone, Copy, Debug, PartialEq, Eq, Structural)]
pub enum Availability {
    Ready,
    /// The enclave did not announce the endpoint.
    Absent,
    /// The buffers have to be registered first.
    Register,
}

/// Whether an endpoint's buffers can be used, or what is to be done first.
pub open spec fn available(registered: bool, announced: bool) -> Availability {
    if registered {
        Availability::Ready
    } else if announced {
        Availability::Register
    } else {
        Availability::Absent
    }
}

pub fn availability(registered: bool, announced: bool) -> (a: Availability)
    ensures
        a == available(registered, announced),
{
    if registered {
        Availability::Ready
    } else if announced {
        Availability::Register
    } else {
        Availability::Absent
    }
}

/// Fresh buffers count as unwritten; a single byte that is not poison is enough
/// for them not to.
pub proof fn poison_is_unwritten(n: int, off: int, len: int, at: int, b: u8)
    requires
        0 <= off,
        0 <= len,
        off + len <= n,
        off <= at < off + len,
        b != OOL_POISON_OUTBOUND,
    ensures
        !is_written(filled(n, OOL_POISON_OUTBOUND), off, len),
        is_written(filled(n, OOL_POISON_OUTBOUND).update(at, b), off, len),
{
    assert(filled(n, OOL_POISON_OUTBOUND).update(at, b)[at] == b);
}

/// A pair counts as registered only after all four requests were answered.
pub proof fn registered_means_answered(m: RegisterOol, a: Answer)
    requires
        !m.pair.registered,
    ensures
        register_next(m, a).0.pair.registered ==> m.sent >= 3 && a == Answer::Answered,
{
}

/// The registration after the first `n` of these answers.
pub open spec fn register_run(m: RegisterOol, answers: Seq<Answer>, n: int) -> RegisterOol
    decreases n,
{
    if n <= 0 {
        m
    } else {
        register_next(register_run(m, answers, n - 1), answers[n - 1]).0
    }
}

/// A whole registration, which goes on for as long as it is answered: each
/// answer brings the next of the four requests, the first thing that goes wrong
/// ends it with that error, and the pair counts as registered exactly when all
/// four were answered.
pub proof fn four_answers_register(m: RegisterOol, answers: Seq<Answer>, n: int)
    requires
        1 <= n <= 4,
        n <= answers.len(),
        m.sent == 0,
        !m.pair.registered,
        forall|i: int| 0 <= i < n - 1 ==> #[trigger] answers[i] == Answer::Answered,
    ensures
        ({
            let (after, ask) = register_next(register_run(m, answers, n - 1), answers[n - 1]);
            &&& after == register_run(m, answers, n)
            &&& ask == match answers[n - 1] {
                Answer::NotSent(e) => RegisterAsk::Done(Some(e)),
                Answer::Silence => RegisterAsk::Done(Some(Errno::ETIMEDOUT)),
                Answer::Answered => if n < 4 {
                    RegisterAsk::Request(register_op(m, n))
                } else {
                    RegisterAsk::Done(None)
                },
            }
            &&& after.pair == (OolPair {
                registered: n == 4 && answers[3] == Answer::Answered,
                ..m.pair
            })
        }),
{
    reveal_with_fuel(register_run, 5);
    assert(n > 1 ==> answers[0] == Answer::Answered);
    assert(n > 2 ==> answers[1] == Answer::Answered);
    assert(n > 3 ==> answers[2] == Answer::Answered);
}

/// A registration asks four things of the control endpoint, each for the endpoint of the
/// pair: the inbound size under 4, the inbound address under 2, the outbound size under 5
/// and the outbound address under 3. Addresses are counted in units of 4096 bytes.
pub proof fn registration_in_order(m: RegisterOol)
    requires
        m.sent == 0,
        m.pair.declared_in <= u32::MAX,
        m.pair.declared_out <= u32::MAX,
        m.in_iova < 0x1000_0000_0000,
        m.out_iova < 0x1000_0000_0000,
    ensures
        ({
            let a0 = register_op(m, 0);
            let (m1, a1) = register_next(m, Answer::Answered);
            let (m2, a2) = register_next(m1, Answer::Answered);
            let (m3, a3) = register_next(m2, Answer::Answered);
            let (m4, a4) = register_next(m3, Answer::Answered);
            let ep = m.pair.endpoint;
            &&& a0.ty == 4 && a0.param == ep && a0.data == m.pair.declared_in && a0.expect_reply
            &&& a1 matches RegisterAsk::Request(op) && op.ty == 2 && op.param == ep && op.data
                == m.in_iova / 4096
            &&& a2 matches RegisterAsk::Request(op) && op.ty == 5 && op.param == ep && op.data
                == m.pair.declared_out
            &&& a3 matches RegisterAsk::Request(op) && op.ty == 3 && op.param == ep && op.data
                == m.out_iova / 4096
            &&& a4 == RegisterAsk::Done(None)
            &&& m4.pair.registered
        }),
{
}

/// What comes after a look for what is to be written.
pub open spec fn after_look(written: bool) -> WriteWait {
    if written {
        WriteWait::Over(true)
    } else {
        WriteWait::Sleep(OOL_WRITE_POLL_MS)
    }
}

/// What comes after a sleep, once so many looks were taken.
pub open spec fn after_sleep(looks: u32) -> WriteWait {
    if looks < OOL_WRITE_POLL_ATTEMPTS {
        WriteWait::Look
    } else {
        WriteWait::Over(false)
    }
}

/// Registered buffers can be used, those of an endpoint that announced itself can be
/// registered, and any others cannot be had.
pub proof fn buffers_can_be_had(announced: bool)
    ensures
        available(true, announced) == Availability::Ready,
        available(false, true) == Availability::Register,
        available(false, false) == Availability::Absent,
{
}

/// A write is looked for two hundred times, a millisecond apart.
pub proof fn writes_are_looked_for(looks: u32)
    ensures
        after_look(true) == WriteWait::Over(true),
        after_look(false) == WriteWait::Sleep(1),
        looks < 200 ==> after_sleep(looks) == WriteWait::Look,
        looks >= 200 ==> after_sleep(looks) == WriteWait::Over(false),
{
}

} // verus!
