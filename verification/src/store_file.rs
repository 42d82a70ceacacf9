//! Reading and writing a file that may take less than it is given at a time.

use vstd::prelude::*;

use crate::errno::Errno;

verus! {

/// A count, or the number of the error.
pub open spec fn counted(ret: i64) -> Result<u64, i64> {
    if ret < 0 {
        Err(ret)
    } else {
        Ok(ret as u64)
    }
}

/// What a call on a file returned: a count, or a negative error number.
pub fn result_of(ret: i64) -> (r: Result<u64, i64>)
    ensures
        r == counted(ret),
{
    if ret < 0 {
        Err(ret)
    } else {
        Ok(ret as u64)
    }
}

/// The size of a file, from what asking for it returned.
pub fn size(ret: i64) -> (r: Result<u64, Errno>)
    ensures
        r == (if ret < 0 {
            Err::<u64, Errno>(Errno::EIO)
        } else {
            Ok(ret as u64)
        }),
{
    if ret < 0 {
        Err(Errno::EIO)
    } else {
        Ok(ret as u64)
    }
}

/// A transfer of `len` bytes at `off`, of which `done` went through.
#[derive(Clone, Copy, Debug, PartialEq, Eq, Structural)]
pub struct Exact {
    pub off: u64,
    pub len: u64,
    pub done: u64,
}

/// Where the next part of a transfer goes and how long it may be.
pub open spec fn part_left(m: Exact) -> Option<(u64, u64)> {
    if m.done < m.len {
        Some(((m.off + m.done) as u64, (m.len - m.done) as u64))
    } else {
        None
    }
}

impl Exact {
    pub open spec fn wf(self) -> bool {
        &&& self.done <= self.len
        &&& self.off + self.len <= i64::MAX
    }

    pub fn start(off: u64, len: u64) -> (m: Exact)
        requires
            off + len <= i64::MAX,
        ensures
            m == (Exact { off, len, done: 0 }),
            m.wf(),
    {
        Exact { off, len, done: 0 }
    }

    /// Where the next part goes and how long it may be, if one is left.
    pub fn next(&self) -> (r: Option<(u64, u64)>)
        requires
            self.wf(),
        ensures
            r == part_left(*self),
    {
        if self.done < self.len {
            Some((self.off + self.done, self.len - self.done))
        } else {
            None
        }
    }

    /// Notes what the call for a part returned, which is no more than it was
    /// given. A call that moves nothing is an error.
    pub fn moved(&mut self, ret: i64) -> (r: Result<(), i64>)
        requires
            old(self).wf(),
            ret <= old(self).len - old(self).done,
        ensures
            final(self).wf(),
            match r {
                Ok(_) => ret > 0 && *final(self) == (Exact {
                    done: (old(self).done + ret) as u64,
                    ..*old(self)
                }),
                Err(e) => ret <= 0 && *final(self) == *old(self) && e == (if ret < 0 {
                    ret as int
                } else {
                    -Errno::EIO.code()
                }),
            },
    {
        match result_of(ret) {
            Err(e) => Err(e),
            Ok(n) => {
                if n == 0 {
                    return Err(-5);
                }
                self.done = self.done + n;
                Ok(())
            },
        }
    }
}

/// Whether a block went through, which is all or nothing.
pub fn block_exact(ret: i64, len: u64) -> (r: Result<(), i64>)
    ensures
        match r {
            Ok(_) => ret == len,
            Err(e) => ret != len && e == (if ret < 0 {
                ret as int
            } else {
                -Errno::EIO.code()
            }),
        },
{
    match result_of(ret) {
        Err(e) => Err(e),
        Ok(n) => {
            if n != len {
                Err(-5)
            } else {
                Ok(())
            }
        },
    }
}

/// A transfer that goes on moves closer to its end with every part, and when no
/// part is left all of it went through.
pub proof fn transfer_comes_to_its_end(m: Exact, ret: int)
    requires
        m.wf(),
        m.done < m.len,
        0 < ret <= m.len - m.done,
    ensures
        ({
            let n = Exact { done: (m.done + ret) as u64, ..m };
            n.wf() && n.len - n.done < m.len - m.done && (n.done >= n.len ==> n.done == n.len)
        }),
{
}

/// A negative number is an error, and any other a count.
pub proof fn returns_are_read(ret: i64)
    ensures
        ret < 0 ==> counted(ret) == Err::<u64, i64>(ret),
        ret >= 0 ==> counted(ret) is Ok && counted(ret)->Ok_0 == ret,
{
}

/// The parts of a transfer follow each other: the first starts where the transfer does and
/// may be all of it, the next starts where the one before ended and may be the rest, and
/// there is none once all went through.
pub proof fn parts_follow_each_other(off: u64, len: u64, n: u64)
    requires
        off + len <= i64::MAX,
        0 < n < len,
    ensures
        part_left(Exact { off, len, done: 0 }) == Some((off, len)),
        part_left(Exact { off, len, done: n }) == Some(((off + n) as u64, (len - n) as u64)),
        part_left(Exact { off, len, done: len }) is None,
{
}

} // verus!
