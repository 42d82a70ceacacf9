//! Who holds the registration as a hardware random number generator.

use vstd::prelude::*;

use crate::errno::Errno;

verus! {

/// The share of entropy that is claimed for each word, out of 1024.
pub const QUALITY: u16 = 1024;

/// The memory of one registration, and whether it is registered.
pub struct HwRngHandle {
    registered: bool,
}

impl HwRngHandle {
    pub closed spec fn is_registered(&self) -> bool {
        self.registered
    }

    /// A handle, unless its memory could not be had.
    pub fn new(allocated: bool) -> (r: Result<HwRngHandle, Errno>)
        ensures
            match r {
                Ok(h) => allocated && !h.is_registered(),
                Err(e) => !allocated && e == Errno::ENOMEM,
            },
    {
        if !allocated {
            return Err(Errno::ENOMEM);
        }
        Ok(HwRngHandle { registered: false })
    }

    /// Whether the handle may be registered now.
    pub fn may_register(&self) -> (r: Result<(), Errno>)
        ensures
            match r {
                Ok(_) => !self.is_registered(),
                Err(e) => self.is_registered() && e == Errno::EBUSY,
            },
    {
        if self.registered {
            Err(Errno::EBUSY)
        } else {
            Ok(())
        }
    }

    /// Notes how the registration went.
    pub fn registered(&mut self, outcome: Result<(), Errno>) -> (r: Result<(), Errno>)
        requires
            !old(self).is_registered(),
        ensures
            match outcome {
                Ok(_) => r is Ok && final(self).is_registered(),
                Err(e) => r == Err::<(), Errno>(e) && !final(self).is_registered(),
            },
    {
        match outcome {
            Ok(_) => {
                self.registered = true;
                Ok(())
            },
            Err(e) => Err(e),
        }
    }

    /// Gives the registration up. The answer says whether there was one to be
    /// taken back, so that a second call has nothing to do.
    pub fn unregister(&mut self) -> (r: bool)
        ensures
            r == old(self).is_registered(),
            !final(self).is_registered(),
    {
        let was = self.registered;
        self.registered = false;
        was
    }
}

} // verus!
