//! Error numbers that the drivers report.

use vstd::prelude::*;

verus! {

/// The reasons for which an operation is refused.
#[derive(Clone, Copy, Debug, PartialEq, Eq, Structural)]
pub enum Errno {
    EPERM,
    ENOENT,
    EINTR,
    EIO,
    ENXIO,
    E2BIG,
    EAGAIN,
    ENOMEM,
    EACCES,
    EFAULT,
    EBUSY,
    EEXIST,
    ENODEV,
    EINVAL,
    ENOTTY,
    ENOSPC,
    EROFS,
    ERANGE,
    ENOSYS,
    ENODATA,
    EPROTO,
    EBADMSG,
    EOVERFLOW,
    EMSGSIZE,
    EOPNOTSUPP,
    ETIMEDOUT,
    EALREADY,
    ESTALE,
    ECANCELED,
    EKEYREJECTED,
    EPROBEDEFER,
    ENOTSYNC,
    ENOTSUPP,
}

impl Errno {
    /// The magnitude of the number under which the error is known.
    pub open spec fn code(self) -> int {
        match self {
            Errno::EPERM => 1,
            Errno::ENOENT => 2,
            Errno::EINTR => 4,
            Errno::EIO => 5,
            Errno::ENXIO => 6,
            Errno::E2BIG => 7,
            Errno::EAGAIN => 11,
            Errno::ENOMEM => 12,
            Errno::EACCES => 13,
            Errno::EFAULT => 14,
            Errno::EBUSY => 16,
            Errno::EEXIST => 17,
            Errno::ENODEV => 19,
            Errno::EINVAL => 22,
            Errno::ENOTTY => 25,
            Errno::ENOSPC => 28,
            Errno::EROFS => 30,
            Errno::ERANGE => 34,
            Errno::ENOSYS => 38,
            Errno::ENODATA => 61,
            Errno::EPROTO => 71,
            Errno::EBADMSG => 74,
            Errno::EOVERFLOW => 75,
            Errno::EMSGSIZE => 90,
            Errno::EOPNOTSUPP => 95,
            Errno::ETIMEDOUT => 110,
            Errno::EALREADY => 114,
            Errno::ESTALE => 116,
            Errno::ECANCELED => 125,
            Errno::EKEYREJECTED => 129,
            Errno::EPROBEDEFER => 517,
            Errno::ENOTSYNC => 522,
            Errno::ENOTSUPP => 524,
        }
    }

    /// The negative number by which the error is returned to a caller that
    /// expects a count or a status.
    pub fn to_errno(self) -> (n: i32)
        ensures
            n == -self.code(),
    {
        match self {
            Errno::EPERM => -1,
            Errno::ENOENT => -2,
            Errno::EINTR => -4,
            Errno::EIO => -5,
            Errno::ENXIO => -6,
            Errno::E2BIG => -7,
            Errno::EAGAIN => -11,
            Errno::ENOMEM => -12,
            Errno::EACCES => -13,
            Errno::EFAULT => -14,
            Errno::EBUSY => -16,
            Errno::EEXIST => -17,
            Errno::ENODEV => -19,
            Errno::EINVAL => -22,
            Errno::ENOTTY => -25,
            Errno::ENOSPC => -28,
            Errno::EROFS => -30,
            Errno::ERANGE => -34,
            Errno::ENOSYS => -38,
            Errno::ENODATA => -61,
            Errno::EPROTO => -71,
            Errno::EBADMSG => -74,
            Errno::EOVERFLOW => -75,
            Errno::EMSGSIZE => -90,
            Errno::EOPNOTSUPP => -95,
            Errno::ETIMEDOUT => -110,
            Errno::EALREADY => -114,
            Errno::ESTALE => -116,
            Errno::ECANCELED => -125,
            Errno::EKEYREJECTED => -129,
            Errno::EPROBEDEFER => -517,
            Errno::ENOTSYNC => -522,
            Errno::ENOTSUPP => -524,
        }
    }
}

/// The numbers under which the errors are known.
pub proof fn errors_have_their_numbers()
    ensures
        Errno::EPERM.code() == 1 && Errno::ENOENT.code() == 2 && Errno::EINTR.code() == 4,
        Errno::EIO.code() == 5 && Errno::ENXIO.code() == 6 && Errno::E2BIG.code() == 7,
        Errno::EAGAIN.code() == 11 && Errno::ENOMEM.code() == 12 && Errno::EACCES.code() == 13,
        Errno::EFAULT.code() == 14 && Errno::EBUSY.code() == 16 && Errno::EEXIST.code() == 17,
        Errno::ENODEV.code() == 19 && Errno::EINVAL.code() == 22 && Errno::ENOTTY.code() == 25,
        Errno::ENOSPC.code() == 28 && Errno::EROFS.code() == 30 && Errno::ERANGE.code() == 34,
        Errno::ENOSYS.code() == 38 && Errno::ENODATA.code() == 61 && Errno::EPROTO.code() == 71,
        Errno::EBADMSG.code() == 74 && Errno::EOVERFLOW.code() == 75,
        Errno::EMSGSIZE.code() == 90 && Errno::EOPNOTSUPP.code() == 95,
        Errno::ETIMEDOUT.code() == 110 && Errno::EALREADY.code() == 114,
        Errno::ESTALE.code() == 116 && Errno::ECANCELED.code() == 125,
        Errno::EKEYREJECTED.code() == 129 && Errno::EPROBEDEFER.code() == 517,
        Errno::ENOTSYNC.code() == 522 && Errno::ENOTSUPP.code() == 524,
{
}

/// Errors that differ have different numbers.
pub proof fn errors_are_told_apart(a: Errno, b: Errno)
    ensures
        a.code() > 0,
        a.code() == b.code() ==> a == b,
{
}

} // verus!
