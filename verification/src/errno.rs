//! The error numbers that the session and the rings tell apart. Most of them are the same on every
//! system with FUSE; the others are a property of the system.

use vstd::prelude::*;

verus! {

pub const ENOENT: i32 = 2;

pub const EINTR: i32 = 4;

pub const EIO: i32 = 5;

pub const ENXIO: i32 = 6;

pub const EBADF: i32 = 9;

pub const EFAULT: i32 = 14;

pub const EBUSY: i32 = 16;

pub const ENODEV: i32 = 19;

pub const EINVAL: i32 = 22;

/// The error numbers that differ between systems: macOS and the BSDs count them otherwise than
/// Linux, and Linux itself does on some processors.
#[derive(Debug, Clone, Copy, PartialEq, Eq, Structural)]
pub struct ErrorNumbers {
    pub eagain: i32,
    pub etime: i32,
    pub eproto: i32,
    pub eopnotsupp: i32,
    pub econnaborted: i32,
    pub enotconn: i32,
    pub ecanceled: i32,
}

impl ErrorNumbers {
    /// Whether a read that failed with `code` says that the connection is gone: `ENODEV` after an
    /// unmount, `ECONNABORTED` after an abort.
    pub open spec fn disconnected(self, code: i32) -> bool {
        code == ENODEV || code == self.econnaborted
    }

    pub fn is_disconnected(&self, code: i32) -> (r: bool)
        ensures
            r == self.disconnected(code),
    {
        code == ENODEV || code == self.econnaborted
    }
}

/// An error number as a reply to the kernel names it.
#[derive(Debug, Clone, Copy, PartialEq, Eq, Structural)]
pub struct Errno(pub i32);

impl Errno {
    /// The errno with number `code`, `EIO` for zero.
    pub open spec fn numbered(code: i32) -> Errno {
        Errno(
            if code == 0 {
                EIO
            } else {
                code
            },
        )
    }

    /// The errno with number `code`; zero names no error and becomes `EIO`.
    pub fn from_i32(code: i32) -> (r: Errno)
        ensures
            r == Errno::numbered(code),
    {
        if code == 0 {
            Errno(EIO)
        } else {
            Errno(code)
        }
    }

    /// The number itself.
    pub fn code(self) -> (r: i32)
        ensures
            r == self.0,
    {
        self.0
    }
}

/// Every number but zero is its own errno, and no errno is zero.
pub proof fn errno_names_an_error(code: i32)
    ensures
        code != 0 ==> Errno::numbered(code).0 == code,
        Errno::numbered(0).0 == 5,
{
}

/// The connection is gone after an unmount or an abort, and after no other failure.
pub proof fn connection_ends_in_two_ways(numbers: ErrorNumbers, code: i32)
    ensures
        numbers.disconnected(code) <==> code == 19 || code == numbers.econnaborted,
{
}

} // verus!
