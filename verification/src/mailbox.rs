//! The mailbox that carries messages between the processor and a coprocessor.

use crate::errno::Errno;
use vstd::prelude::*;

verus! {

/// A 96-bit message. What it means is up to the upper layer.
#[derive(Clone, Copy, Debug, PartialEq, Eq, Structural)]
pub struct Message {
    pub msg0: u64,
    pub msg1: u32,
}

/// What is called when a message arrives.
pub trait MailCallback {
    /// The context of the callback.
    type Data;

    /// The callback itself, in interrupt context.
    fn recv_message(data: &Self::Data, msg: Message);
}

/// The provider of a mailbox, by the handle that looking it up gave, and the
/// handle of its device.
#[derive(Clone, Copy, Debug, PartialEq, Eq, Structural)]
pub struct Provider {
    pub mbox: usize,
    pub device: usize,
}

/// What a provider can see of its client: whether messages are handed on.
#[derive(Clone, Copy, Debug, PartialEq, Eq, Structural)]
pub enum Wiring {
    /// Neither callback nor context is set.
    Bare,
    /// Both are.
    Wired,
}

/// A mailbox that is started, and the context that its messages are handed on
/// with.
pub struct Mailbox<T: MailCallback> {
    provider: Provider,
    data: T::Data,
}

/// A message on its way to the provider.
#[derive(Clone, Copy, Debug, PartialEq, Eq, Structural)]
pub struct Outgoing {
    pub provider: Provider,
    pub msg: Message,
    pub atomic: bool,
}

impl Outgoing {
    /// What the provider's status comes to. Zero and more is success.
    pub fn outcome(&self, status: i32) -> (r: Result<(), i32>)
        ensures
            match r {
                Ok(_) => status >= 0,
                Err(e) => status < 0 && e == status,
            },
    {
        if status < 0 {
            Err(status)
        } else {
            Ok(())
        }
    }
}

/// How the provider is wired when it is asked to start, and how if it does
/// not.
pub fn wiring_after_start(started: bool) -> (w: Wiring)
    ensures
        w == (if started {
            Wiring::Wired
        } else {
            Wiring::Bare
        }),
{
    if started {
        Wiring::Wired
    } else {
        Wiring::Bare
    }
}

impl<T: MailCallback> Mailbox<T> {
    pub closed spec fn provider(&self) -> Provider {
        self.provider
    }

    pub closed spec fn data(&self) -> T::Data {
        self.data
    }

    /// Makes a mailbox of a provider that was found under its name and
    /// started. If either failed, the context is let go.
    pub fn new_byname(
        found: Result<Provider, Errno>,
        started: Result<(), Errno>,
        data: T::Data,
    ) -> (r: Result<Mailbox<T>, Errno>)
        ensures
            match r {
                Ok(m) => {
                    &&& found == Ok::<Provider, Errno>(m.provider())
                    &&& started is Ok
                    &&& m.data() == data
                },
                Err(e) => match found {
                    Err(lookup) => e == lookup,
                    Ok(_) => started is Err && e == started->Err_0,
                },
            },
    {
        match found {
            Err(e) => Err(e),
            Ok(provider) => match started {
                Err(e) => Err(e),
                Ok(_) => Ok(Mailbox { provider, data }),
            },
        }
    }

    /// The provider's device, through which buffers are mapped.
    pub fn device(&self) -> (d: usize)
        ensures
            d == self.provider().device,
    {
        self.provider.device
    }

    /// Addresses a message to the provider.
    pub fn send(&self, msg: Message, atomic: bool) -> (o: Outgoing)
        ensures
            o == (Outgoing { provider: self.provider(), msg, atomic }),
    {
        Outgoing { provider: self.provider, msg, atomic }
    }

    /// Hands a message that arrived on to the callback.
    pub fn receive(&self, msg: Message)
        ensures
            call_ensures(T::recv_message, (&self.data(), msg), ()),
    {
        T::recv_message(&self.data, msg)
    }

    /// Takes the mailbox down: the provider is to be stopped and unset before
    /// the context, which is handed out, is let go.
    pub fn close(self) -> (r: (Provider, Wiring, T::Data))
        ensures
            r == (self.provider(), Wiring::Bare, self.data()),
    {
        (self.provider, Wiring::Bare, self.data)
    }
}

} // verus!
