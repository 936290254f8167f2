//! What can go wrong in a session, with the kind and the text of each error.

use crate::text;
use vstd::prelude::*;
use vstd::string::*;

verus! {

/// The class of an error.
#[derive(Debug, Clone, Copy, PartialEq, Eq, Structural)]
pub enum ErrorKind {
    /// An error of the operating system; its number tells more.
    Os,
    NotConnected,
    InvalidInput,
    InvalidData,
    Unsupported,
    Other,
}

/// An error of the session or of its rings.
#[derive(Debug, Clone, Copy, PartialEq, Eq, Structural)]
pub enum Error {
    /// The operating system refused with this error number.
    Os(i32),
    /// The first request cannot be read; the parser tells why.
    Unparsable,
    /// The submission queue has no room even after a submit.
    QueueFull,
    /// A reply that came after the connection had ended.
    ReplyAfterEnd,
    /// A second reply to one request.
    DuplicateReply,
    /// A ring of no entries, or of more than a `u32` counts.
    EntryCount,
    /// The kernel handed out a request that nothing can be committed for.
    ZeroCommitId,
    /// The buffers of a ring do not fit.
    BufferSize,
    /// A session of no threads.
    NThreadsZero,
    /// io_uring on a system without it.
    NotLinux,
    /// io_uring in a build without it.
    NoIoUringFeature,
    /// Queues of no entries.
    QueueDepthZero,
    /// `auto_unmount` without `allow_root` or `allow_other`.
    AutoUnmountOwner,
    /// Several readers on a system where that is not known to work.
    ThreadsNotLinux,
    /// A session of no reader threads.
    ThreadCount,
    /// The device went away before the session was initialized.
    Disconnected,
    /// The first request has no operation that can be read.
    BadOperation,
    /// The first request is not `FUSE_INIT`.
    NotInit,
    /// The handshake has no filesystem to initialize.
    NoFilesystem,
    /// A request that cannot be read.
    InvalidRequest,
    /// A session thread panicked.
    ThreadPanicked,
    /// No session thread is left to tell how it ended.
    ThreadsUnnoticed,
    /// A thread that outlived the session still holds the filesystem.
    FilesystemShared,
    /// The thread of a background session panicked.
    BackgroundPanicked,
    /// The page size cannot hold the header and the staging area of an entry.
    PageTooSmall(usize),
    /// A completion with a positive result.
    UnexpectedResult(i32),
    /// The largest ring has more entries than an io_uring.
    RingTooLarge { largest: usize, depth: u32 },
    /// A ring thread ended before it registered its entries.
    ExitedBeforeRegistering(usize),
    /// A ring thread ended before it was given its handler.
    ExitedBeforeServing(usize),
    /// The kernel speaks an ABI before 7.6.
    UnsupportedAbi { major: u32, minor: u32 },
}

impl Error {
    /// The class of the error.
    pub open spec fn spec_kind(self) -> ErrorKind {
        match self {
            Error::Os(_) => ErrorKind::Os,
            Error::Unparsable => ErrorKind::InvalidData,
            Error::ReplyAfterEnd => ErrorKind::NotConnected,
            Error::NThreadsZero => ErrorKind::InvalidInput,
            Error::QueueDepthZero => ErrorKind::InvalidInput,
            Error::AutoUnmountOwner => ErrorKind::InvalidInput,
            Error::Disconnected => ErrorKind::NotConnected,
            Error::BadOperation => ErrorKind::InvalidData,
            Error::NotInit => ErrorKind::InvalidData,
            Error::NoFilesystem => ErrorKind::InvalidInput,
            Error::InvalidRequest => ErrorKind::InvalidData,
            Error::UnsupportedAbi { .. } => ErrorKind::Unsupported,
            _ => ErrorKind::Other,
        }
    }

    /// The text of the error; `None` where the operating system or the parser has it.
    pub open spec fn text(self) -> Option<Seq<char>> {
        match self {
            Error::Os(_) => None,
            Error::Unparsable => None,
            Error::QueueFull => Some("submission queue still full after submit"@),
            Error::ReplyAfterEnd => Some("reply after the connection ended"@),
            Error::DuplicateReply => Some("duplicate reply"@),
            Error::EntryCount => Some("io_uring: invalid entry count"@),
            Error::ZeroCommitId => Some("fetched entry with commit_id 0"@),
            Error::BufferSize => Some("ring buffer size overflows the address space"@),
            Error::NThreadsZero => Some("n_threads must be at least 1"@),
            Error::NotLinux => Some("io_uring transport is only supported on Linux"@),
            Error::NoIoUringFeature => Some("io_uring transport requires the io-uring cargo feature"@),
            Error::QueueDepthZero => Some("io_uring_queue_depth must be at least 1"@),
            Error::AutoUnmountOwner => Some("auto_unmount requires acl != Owner, got: Owner"@),
            Error::ThreadsNotLinux => Some("n_threads != 1 is only supported on Linux"@),
            Error::ThreadCount => Some("n_threads"@),
            Error::Disconnected => Some("FUSE device disconnected during handshake"@),
            Error::BadOperation => Some("Failed to parse FUSE operation"@),
            Error::NotInit => Some("Received non-init FUSE operation during handshake"@),
            Error::NoFilesystem => Some("Bug: filesystem must be initialized during handshake"@),
            Error::InvalidRequest => Some("Invalid request"@),
            Error::ThreadPanicked => Some("event loop thread panicked"@),
            Error::ThreadsUnnoticed => Some("BUG: every session thread exited unnoticed"@),
            Error::FilesystemShared => Some("BUG: must have one refcount for filesystem"@),
            Error::BackgroundPanicked => Some("filesystem background thread panicked"@),
            Error::PageTooSmall(page) => Some(
                "page size "@
                    + text::decimal(page as nat)
                    + " cannot hold the 288 byte header and 168 byte staging area"@,
            ),
            Error::UnexpectedResult(res) => Some(
                "unexpected result "@
                    + text::signed_decimal(res as int),
            ),
            Error::RingTooLarge { largest, depth } => Some(
                text::decimal(largest as nat)
                    + " queues x depth "@
                    + text::decimal(depth as nat)
                    + " exceed the 32768 entries an io_uring holds (lower io_uring_queue_depth or raise n_threads)"@,
            ),
            Error::ExitedBeforeRegistering(index) => Some(
                "io_uring: ring "@
                    + text::decimal(index as nat)
                    + " thread exited before registering"@,
            ),
            Error::ExitedBeforeServing(index) => Some(
                "io_uring: ring "@
                    + text::decimal(index as nat)
                    + " thread exited before serving"@,
            ),
            Error::UnsupportedAbi { major, minor } => Some(
                "Unsupported FUSE ABI version "@
                    + text::decimal(major as nat)
                    + "."@
                    + text::decimal(minor as nat),
            ),
        }
    }

    pub fn kind(&self) -> (r: ErrorKind)
        ensures
            r == self.spec_kind(),
    {
        match *self {
            Error::Os(_) => ErrorKind::Os,
            Error::Unparsable => ErrorKind::InvalidData,
            Error::ReplyAfterEnd => ErrorKind::NotConnected,
            Error::NThreadsZero => ErrorKind::InvalidInput,
            Error::QueueDepthZero => ErrorKind::InvalidInput,
            Error::AutoUnmountOwner => ErrorKind::InvalidInput,
            Error::Disconnected => ErrorKind::NotConnected,
            Error::BadOperation => ErrorKind::InvalidData,
            Error::NotInit => ErrorKind::InvalidData,
            Error::NoFilesystem => ErrorKind::InvalidInput,
            Error::InvalidRequest => ErrorKind::InvalidData,
            Error::UnsupportedAbi { .. } => ErrorKind::Unsupported,
            _ => ErrorKind::Other,
        }
    }

    /// The error number of the operating system, when that is what the error holds.
    pub fn raw_os_error(&self) -> (r: Option<i32>)
        ensures
            r == (match *self {
                Error::Os(code) => Some(code),
                _ => None,
            }),
    {
        match *self {
            Error::Os(code) => Some(code),
            _ => None,
        }
    }

    pub fn message(&self) -> (r: Option<String>)
        ensures
            match r {
                Some(s) => self.text() == Some(s@),
                None => self.text() is None,
            },
    {
        let mut out = String::new();
        match *self {
            Error::Os(_) => return None,
            Error::Unparsable => return None,
            Error::QueueFull => return Some(String::from_str("submission queue still full after submit")),
            Error::ReplyAfterEnd => return Some(String::from_str("reply after the connection ended")),
            Error::DuplicateReply => return Some(String::from_str("duplicate reply")),
            Error::EntryCount => return Some(String::from_str("io_uring: invalid entry count")),
            Error::ZeroCommitId => return Some(String::from_str("fetched entry with commit_id 0")),
            Error::BufferSize => return Some(String::from_str("ring buffer size overflows the address space")),
            Error::NThreadsZero => return Some(String::from_str("n_threads must be at least 1")),
            Error::NotLinux => return Some(String::from_str("io_uring transport is only supported on Linux")),
            Error::NoIoUringFeature => return Some(String::from_str("io_uring transport requires the io-uring cargo feature")),
            Error::QueueDepthZero => return Some(String::from_str("io_uring_queue_depth must be at least 1")),
            Error::AutoUnmountOwner => return Some(String::from_str("auto_unmount requires acl != Owner, got: Owner")),
            Error::ThreadsNotLinux => return Some(String::from_str("n_threads != 1 is only supported on Linux")),
            Error::ThreadCount => return Some(String::from_str("n_threads")),
            Error::Disconnected => return Some(String::from_str("FUSE device disconnected during handshake")),
            Error::BadOperation => return Some(String::from_str("Failed to parse FUSE operation")),
            Error::NotInit => return Some(String::from_str("Received non-init FUSE operation during handshake")),
            Error::NoFilesystem => return Some(String::from_str("Bug: filesystem must be initialized during handshake")),
            Error::InvalidRequest => return Some(String::from_str("Invalid request")),
            Error::ThreadPanicked => return Some(String::from_str("event loop thread panicked")),
            Error::ThreadsUnnoticed => return Some(String::from_str("BUG: every session thread exited unnoticed")),
            Error::FilesystemShared => return Some(String::from_str("BUG: must have one refcount for filesystem")),
            Error::BackgroundPanicked => return Some(String::from_str("filesystem background thread panicked")),
            Error::PageTooSmall(page) => {
                out.append("page size ");
                text::append_decimal(&mut out, page as u64);
                out.append(" cannot hold the 288 byte header and 168 byte staging area");
            },
            Error::UnexpectedResult(res) => {
                out.append("unexpected result ");
                text::append_signed(&mut out, res);
            },
            Error::RingTooLarge { largest, depth } => {
                text::append_decimal(&mut out, largest as u64);
                out.append(" queues x depth ");
                text::append_decimal(&mut out, depth as u64);
                out.append(" exceed the 32768 entries an io_uring holds (lower io_uring_queue_depth or raise n_threads)");
            },
            Error::ExitedBeforeRegistering(index) => {
                out.append("io_uring: ring ");
                text::append_decimal(&mut out, index as u64);
                out.append(" thread exited before registering");
            },
            Error::ExitedBeforeServing(index) => {
                out.append("io_uring: ring ");
                text::append_decimal(&mut out, index as u64);
                out.append(" thread exited before serving");
            },
            Error::UnsupportedAbi { major, minor } => {
                out.append("Unsupported FUSE ABI version ");
                text::append_decimal(&mut out, major as u64);
                out.append(".");
                text::append_decimal(&mut out, minor as u64);
            },
        }
        assert(self.text() is Some && self.text()->0 =~= out@);
        Some(out)
    }
}

/// The kinds tell apart who is at fault: the system, an ended connection, the caller's options, the
/// kernel's data or its version.
pub proof fn kinds_tell_who_is_at_fault(e: Error)
    ensures
        e.spec_kind() is Os <==> e is Os,
        e.spec_kind() is NotConnected <==> e is ReplyAfterEnd || e is Disconnected,
        e.spec_kind() is InvalidInput <==> e is NThreadsZero || e is QueueDepthZero
            || e is AutoUnmountOwner || e is NoFilesystem,
        e.spec_kind() is InvalidData <==> e is Unparsable || e is BadOperation || e is NotInit
            || e is InvalidRequest,
        e.spec_kind() is Unsupported <==> e is UnsupportedAbi,
        e.text() is None <==> e is Os || e is Unparsable,
{
}

/// The text of an error names the numbers that it holds.
pub proof fn text_names_the_numbers(n: usize, depth: u32, major: u32, minor: u32, res: i32)
    ensures
        (Error::UnexpectedResult(res)).text() matches Some(s) && text::ends_with(
            s,
            text::signed_decimal(res as int),
        ),
        (Error::UnsupportedAbi { major, minor }).text() matches Some(s) && text::ends_with(
            s,
            text::decimal(major as nat) + "."@ + text::decimal(minor as nat),
        ),
        (Error::PageTooSmall(n)).text() matches Some(s) && text::contains(
            s,
            text::decimal(n as nat),
        ),
        (Error::RingTooLarge { largest: n, depth }).text() matches Some(s) && text::matches_at(
            s,
            0,
            text::decimal(n as nat) + " queues x depth "@ + text::decimal(depth as nat),
        ),
        (Error::ExitedBeforeRegistering(n)).text() matches Some(s) && text::ends_with(
            s,
            text::decimal(n as nat) + " thread exited before registering"@,
        ),
        (Error::ExitedBeforeServing(n)).text() matches Some(s) && text::ends_with(
            s,
            text::decimal(n as nat) + " thread exited before serving"@,
        ),
{
    let number = text::decimal(n as nat);
    let none = Seq::<char>::empty();
    assert(none + text::signed_decimal(res as int) =~= text::signed_decimal(res as int));
    assert("unexpected result "@ + none + text::signed_decimal(res as int) =~= "unexpected result "@
        + text::signed_decimal(res as int));
    text::lemma_ends_with("unexpected result "@, none, text::signed_decimal(res as int));
    let front = "Unsupported FUSE ABI version "@;
    let version = text::decimal(major as nat) + "."@;
    let last = text::decimal(minor as nat);
    assert(front + version + last =~= front + text::decimal(major as nat) + "."@ + last);
    text::lemma_ends_with(front, version, last);
    let end = " cannot hold the 288 byte header and 168 byte staging area"@;
    text::text_contains_its_parts("page size "@, number, end, 0);
    text::lemma_ends_with("io_uring: ring "@, number, " thread exited before registering"@);
    text::lemma_ends_with("io_uring: ring "@, number, " thread exited before serving"@);
    let start = number + " queues x depth "@ + text::decimal(depth as nat);
    let large = (Error::RingTooLarge { largest: n, depth }).text()->0;
    assert(large.subrange(0, start.len() as int) =~= start);
}

} // verus!
