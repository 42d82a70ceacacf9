//! The enclave as a source of trusted keys: what the keyring is told of a key
//! that was sealed, unsealed or drawn, and who holds the one place there is.

use vstd::prelude::*;

use crate::errno::Errno;
use crate::image::wipe;

verus! {

/// The place through which the keyring reaches the enclave. There is one, and
/// it is taken at most once at a time.
pub struct Source {
    taken: bool,
}

impl Source {
    pub closed spec fn is_taken(&self) -> bool {
        self.taken
    }

    /// The place, free.
    pub fn new() -> (s: Source)
        ensures
            !s.is_taken(),
    {
        Source { taken: false }
    }

    /// Takes the place, before the operations are handed to the keyring.
    pub fn claim(&mut self) -> (r: Result<(), Errno>)
        ensures
            final(self).is_taken(),
            match r {
                Ok(_) => !old(self).is_taken(),
                Err(e) => old(self).is_taken() && e == Errno::EBUSY,
            },
    {
        if self.taken {
            return Err(Errno::EBUSY);
        }
        self.taken = true;
        Ok(())
    }

    /// Notes what the keyring answered. Where it refused, the place is free
    /// again, so that a later attempt can succeed.
    pub fn wired(&mut self, rc: i32) -> (r: Result<(), i32>)
        requires
            old(self).is_taken(),
        ensures
            match r {
                Ok(_) => rc == 0 && final(self).is_taken(),
                Err(e) => rc != 0 && e == rc && !final(self).is_taken(),
            },
    {
        if rc != 0 {
            self.taken = false;
            return Err(rc);
        }
        Ok(())
    }

    /// Gives the place up. The answer says whether the keyring has to be told,
    /// which it has before anything that the operations use goes away.
    pub fn unregister(&mut self) -> (r: bool)
        ensures
            r == old(self).is_taken(),
            !final(self).is_taken(),
    {
        let was = self.taken;
        self.taken = false;
        was
    }

    /// What the keyring is told when it starts the source, given what the key
    /// type's own registration returned.
    pub fn init(&self, rc: i32) -> (r: i32)
        ensures
            r == (if self.is_taken() {
                rc as int
            } else {
                -Errno::ENODEV.code()
            }),
    {
        if self.taken {
            rc
        } else {
            Errno::ENODEV.to_errno()
        }
    }

    /// What the keyring gets of a key that was sealed: the blob, unless it is
    /// longer than the keyring can hold.
    pub fn seal(&self, sealed: Result<Vec<u8>, Errno>, max_blob: usize) -> (r: Result<
        Vec<u8>,
        Errno,
    >)
        ensures
            r == sealed_answer(self.is_taken(), sealed, max_blob),
    {
        if !self.taken {
            return Err(Errno::ENODEV);
        }
        match sealed {
            Err(e) => Err(e),
            Ok(blob) => {
                if blob.len() > max_blob {
                    Err(Errno::E2BIG)
                } else {
                    Ok(blob)
                }
            },
        }
    }

    /// What the keyring gets of a blob that was unsealed: the key. Every
    /// refusal looks the same, whatever its reason.
    pub fn unseal(&self, plain: Result<Vec<u8>, Errno>, max_key: usize) -> (r: Result<
        Vec<u8>,
        Errno,
    >)
        ensures
            r == unsealed(self.is_taken(), plain, max_key as int),
    {
        if !self.taken {
            return Err(Errno::ENODEV);
        }
        match plain {
            Err(_) => Err(Errno::EBADMSG),
            Ok(key) => {
                if key.len() == 0 || key.len() > max_key {
                    let mut key = key;
                    wipe(&mut key);
                    Err(Errno::EBADMSG)
                } else {
                    Ok(key)
                }
            },
        }
    }

    /// What the keyring is told of random bytes that it asked for: how many it
    /// got, or an error.
    pub fn get_random(&self, key_len: usize, drawn: Result<(), Errno>) -> (r: i32)
        requires
            key_len <= i32::MAX,
        ensures
            r == random_answer(self.is_taken(), key_len, drawn),
    {
        if !self.taken {
            return Errno::ENODEV.to_errno();
        }
        if key_len == 0 {
            return 0;
        }
        match drawn {
            Ok(_) => key_len as i32,
            Err(e) => e.to_errno(),
        }
    }
}

/// The answer to a request to unseal.
pub open spec fn unsealed(present: bool, plain: Result<Vec<u8>, Errno>, max_key: int) -> Result<
    Vec<u8>,
    Errno,
> {
    if !present {
        Err(Errno::ENODEV)
    } else if plain is Ok && 0 < plain->Ok_0.len() <= max_key {
        plain
    } else {
        Err(Errno::EBADMSG)
    }
}

/// Two blobs that are both refused are answered alike, so that the answer tells
/// nothing of the reason.
pub proof fn refusals_look_alike(
    present: bool,
    a: Result<Vec<u8>, Errno>,
    b: Result<Vec<u8>, Errno>,
    max_key: int,
)
    requires
        unsealed(present, a, max_key) is Err,
        unsealed(present, b, max_key) is Err,
    ensures
        unsealed(present, a, max_key) == unsealed(present, b, max_key),
{
}

/// A key that was unsealed is handed on as it is if there is a source and the key is
/// neither empty nor too long.
pub proof fn unsealed_key_is_handed_on(plain: Vec<u8>, e: Errno, max_key: int)
    ensures
        0 < plain.len() <= max_key ==> unsealed(true, Ok(plain), max_key) == Ok::<Vec<u8>, Errno>(
            plain,
        ),
        plain.len() == 0 || plain.len() > max_key ==> unsealed(true, Ok(plain), max_key) == Err::<
            Vec<u8>,
            Errno,
        >(Errno::EBADMSG),
        unsealed(true, Err(e), max_key) == Err::<Vec<u8>, Errno>(Errno::EBADMSG),
        unsealed(false, Ok(plain), max_key) == Err::<Vec<u8>, Errno>(Errno::ENODEV),
{
}

/// What sealing a key comes to, given what the enclave gave.
pub open spec fn sealed_answer(
    taken: bool,
    sealed: Result<Vec<u8>, Errno>,
    max_blob: usize,
) -> Result<Vec<u8>, Errno> {
    if !taken {
        Err(Errno::ENODEV)
    } else {
        match sealed {
            Err(e) => Err(e),
            Ok(blob) => if blob.len() > max_blob {
                Err(Errno::E2BIG)
            } else {
                Ok(blob)
            },
        }
    }
}

/// What drawing random bytes comes to: how many, or the number of the error.
pub open spec fn random_answer(taken: bool, key_len: usize, drawn: Result<(), Errno>) -> int {
    if !taken {
        -Errno::ENODEV.code()
    } else if key_len == 0 {
        0
    } else {
        match drawn {
            Ok(_) => key_len as int,
            Err(e) => -e.code(),
        }
    }
}

/// A sealed key is handed on whole where there is room for it, and not at all otherwise;
/// without a source there is none.
pub proof fn sealed_key_is_handed_on(
    sealed: Result<Vec<u8>, Errno>,
    blob: Vec<u8>,
    e: Errno,
    max_blob: usize,
)
    ensures
        sealed_answer(false, sealed, max_blob) == Err::<Vec<u8>, Errno>(Errno::ENODEV),
        sealed_answer(true, Err(e), max_blob) == Err::<Vec<u8>, Errno>(e),
        blob.len() <= max_blob ==> sealed_answer(true, Ok(blob), max_blob) == Ok::<Vec<u8>, Errno>(
            blob,
        ),
        blob.len() > max_blob ==> sealed_answer(true, Ok(blob), max_blob) == Err::<Vec<u8>, Errno>(
            Errno::E2BIG,
        ),
{
}

/// As many random bytes are told of as were asked for, none without a draw where none were,
/// and the negative number of the error otherwise.
pub proof fn random_bytes_are_told(key_len: usize, drawn: Result<(), Errno>)
    ensures
        random_answer(false, key_len, drawn) == -19,
        random_answer(true, 0, drawn) == 0,
        random_answer(true, key_len, Ok(())) == key_len,
        key_len > 0 ==> random_answer(true, key_len, Err(Errno::EIO)) == -5,
{
}

} // verus!
