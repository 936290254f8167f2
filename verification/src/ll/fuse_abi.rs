//! FUSE kernel interface: the headers, opcodes and io_uring structures of the kernel protocol,
//! with their encoding as bytes.

#![allow(non_camel_case_types)]

use crate::bytes;
use vstd::prelude::*;

verus! {

pub const FUSE_KERNEL_VERSION: u32 = 7;

/// 7.44 is what `FUSE_NOTIFY_INC_EPOCH` needs.
pub const FUSE_KERNEL_MINOR_VERSION: u32 = 44;

/// The latest version that the headers of macFUSE declare. A newer one should be handled there,
/// but nothing promises it.
pub const FUSE_KERNEL_MINOR_VERSION_MACOS: u32 = 19;

/// The minor protocol version of a system.
pub open spec fn minor_version_of(macos: bool) -> u32 {
    if macos {
        FUSE_KERNEL_MINOR_VERSION_MACOS
    } else {
        FUSE_KERNEL_MINOR_VERSION
    }
}

/// The minor protocol version that is declared to the kernel.
pub fn kernel_minor_version(macos: bool) -> (r: u32)
    ensures
        r == minor_version_of(macos),
{
    if macos {
        FUSE_KERNEL_MINOR_VERSION_MACOS
    } else {
        FUSE_KERNEL_MINOR_VERSION
    }
}

/// The read buffer is required to be at least 8k, but may be much larger.
pub const FUSE_MIN_READ_BUFFER: usize = 8192;

/// Size of the `in_out` area of `fuse_uring_req_header`.
pub const FUSE_URING_IN_OUT_HEADER_SZ: usize = 128;

/// Size of the `op_in` area of `fuse_uring_req_header`.
pub const FUSE_URING_OP_IN_OUT_SZ: usize = 128;

/// Bytes of `fuse_in_header`.
pub const FUSE_IN_HEADER_SIZE: usize = 40;

/// Bytes of `fuse_out_header`.
pub const FUSE_OUT_HEADER_SIZE: usize = 16;

/// Bytes of `fuse_uring_ent_in_out`.
pub const FUSE_URING_ENT_IN_OUT_SIZE: usize = 32;

/// Bytes of `fuse_uring_req_header`.
pub const FUSE_URING_REQ_HEADER_SIZE: usize = 288;

/// Bytes of `fuse_uring_cmd_req`.
pub const FUSE_URING_CMD_REQ_SIZE: usize = 24;

/// Bytes of `fuse_init_in`.
pub const FUSE_INIT_IN_SIZE: usize = 5 * 4 + 11 * 4;

/// Bytes of `fuse_forget_in`.
pub const FUSE_FORGET_IN_SIZE: usize = 8;

/// Bytes of `fuse_batch_forget_in`.
pub const FUSE_BATCH_FORGET_IN_SIZE: usize = 4 + 4;

/// Bytes of `fuse_getattr_in`.
pub const FUSE_GETATTR_IN_SIZE: usize = 4 + 4 + 8;

/// Bytes of `fuse_setattr_in`.
pub const FUSE_SETATTR_IN_SIZE: usize = 2 * 4 + 6 * 8 + 8 * 4;

/// Bytes of `fuse_setattr_in` on macOS.
pub const FUSE_SETATTR_IN_SIZE_MACOS: usize = FUSE_SETATTR_IN_SIZE + 3 * 8 + 4 * 4;

/// Bytes of `fuse_mknod_in`.
pub const FUSE_MKNOD_IN_SIZE: usize = 4 * 4;

/// Bytes of `fuse_mkdir_in`.
pub const FUSE_MKDIR_IN_SIZE: usize = 4 + 4;

/// Bytes of `fuse_rename_in`.
pub const FUSE_RENAME_IN_SIZE: usize = 8;

/// Bytes of `fuse_rename_in` on macOS.
pub const FUSE_RENAME_IN_SIZE_MACOS: usize = FUSE_RENAME_IN_SIZE + 4 + 4;

/// Bytes of `fuse_rename2_in`.
pub const FUSE_RENAME2_IN_SIZE: usize = 8 + 4 + 4;

/// Bytes of `fuse_link_in`.
pub const FUSE_LINK_IN_SIZE: usize = 8;

/// Bytes of `fuse_open_in`.
pub const FUSE_OPEN_IN_SIZE: usize = 4 + 4;

/// Bytes of `fuse_create_in`.
pub const FUSE_CREATE_IN_SIZE: usize = 4 * 4;

/// Bytes of `fuse_release_in`.
pub const FUSE_RELEASE_IN_SIZE: usize = 8 + 4 + 4 + 8;

/// Bytes of `fuse_flush_in`.
pub const FUSE_FLUSH_IN_SIZE: usize = 8 + 4 + 4 + 8;

/// Bytes of `fuse_read_in`.
pub const FUSE_READ_IN_SIZE: usize = 8 + 8 + 4 + 4 + 8 + 4 + 4;

/// Bytes of `fuse_write_in`.
pub const FUSE_WRITE_IN_SIZE: usize = 8 + 8 + 4 + 4 + 8 + 4 + 4;

/// Bytes of `fuse_fsync_in`.
pub const FUSE_FSYNC_IN_SIZE: usize = 8 + 4 + 4;

/// Bytes of `fuse_setxattr_in`.
pub const FUSE_SETXATTR_IN_SIZE: usize = 4 + 4;

/// Bytes of `fuse_setxattr_in` on macOS.
pub const FUSE_SETXATTR_IN_SIZE_MACOS: usize = FUSE_SETXATTR_IN_SIZE + 4 + 4;

/// Bytes of `fuse_setxattr_in_ext`.
pub const FUSE_SETXATTR_IN_EXT_SIZE: usize = 4 + 4;

/// Bytes of `fuse_getxattr_in`.
pub const FUSE_GETXATTR_IN_SIZE: usize = 4 + 4;

/// Bytes of `fuse_getxattr_in` on macOS.
pub const FUSE_GETXATTR_IN_SIZE_MACOS: usize = FUSE_GETXATTR_IN_SIZE + 4 + 4;

/// Bytes of `fuse_file_lock`.
pub const FUSE_FILE_LOCK_SIZE: usize = 8 + 8 + 4 + 4;

/// Bytes of `fuse_lk_in`.
pub const FUSE_LK_IN_SIZE: usize = 8 + 8 + FUSE_FILE_LOCK_SIZE + 4 + 4;

/// Bytes of `fuse_access_in`.
pub const FUSE_ACCESS_IN_SIZE: usize = 4 + 4;

/// Bytes of `fuse_interrupt_in`.
pub const FUSE_INTERRUPT_IN_SIZE: usize = 8;

/// Bytes of `fuse_bmap_in`.
pub const FUSE_BMAP_IN_SIZE: usize = 8 + 4 + 4;

/// Bytes of `fuse_ioctl_in`.
pub const FUSE_IOCTL_IN_SIZE: usize = 8 + 4 + 4 + 8 + 4 + 4;

/// Bytes of `fuse_poll_in`.
pub const FUSE_POLL_IN_SIZE: usize = 8 + 8 + 4 + 4;

/// Bytes of `fuse_fallocate_in`.
pub const FUSE_FALLOCATE_IN_SIZE: usize = 8 + 8 + 8 + 4 + 4;

/// Bytes of `fuse_lseek_in`.
pub const FUSE_LSEEK_IN_SIZE: usize = 8 + 8 + 4 + 4;

/// Bytes of `fuse_copy_file_range_in`.
pub const FUSE_COPY_FILE_RANGE_IN_SIZE: usize = 7 * 8;

/// Bytes of `fuse_syncfs_in`.
pub const FUSE_SYNCFS_IN_SIZE: usize = 8;

/// Bytes of `fuse_statx_in`.
pub const FUSE_STATX_IN_SIZE: usize = 4 + 4 + 8 + 4 + 4;

/// Bytes of `fuse_notify_retrieve_in`.
pub const FUSE_NOTIFY_RETRIEVE_IN_SIZE: usize = 8 + 8 + 4 + 4 + 8 + 8;

/// `valid` bit of `fuse_setattr_in`: set the access time to the current time.
pub const FATTR_ATIME_NOW: u32 = 0x80;

/// `valid` bit of `fuse_setattr_in`: set the modification time to the current time.
pub const FATTR_MTIME_NOW: u32 = 0x100;

/// What a `u32` that is not a declared value of an enumeration is refused with.
#[derive(Debug, Clone, Copy, PartialEq, Eq, Structural)]
pub struct TryFromPrimitiveError {
    pub number: u32,
}

/// Commands carried in `io_uring_sqe.cmd_op` for `IORING_OP_URING_CMD` on `/dev/fuse`.
#[derive(Debug, Clone, Copy, PartialEq, Eq, Structural)]
pub enum fuse_uring_cmd {
    FUSE_IO_URING_CMD_INVALID,
    FUSE_IO_URING_CMD_REGISTER,
    FUSE_IO_URING_CMD_COMMIT_AND_FETCH,
}

impl fuse_uring_cmd {
    /// The value of the command on the wire.
    pub open spec fn spec_value(self) -> u32 {
        match self {
            fuse_uring_cmd::FUSE_IO_URING_CMD_INVALID => 0,
            fuse_uring_cmd::FUSE_IO_URING_CMD_REGISTER => 1,
            fuse_uring_cmd::FUSE_IO_URING_CMD_COMMIT_AND_FETCH => 2,
        }
    }

    #[verifier::when_used_as_spec(spec_value)]
    pub fn value(self) -> (r: u32)
        ensures
            r == self.spec_value(),
    {
        match self {
            fuse_uring_cmd::FUSE_IO_URING_CMD_INVALID => 0,
            fuse_uring_cmd::FUSE_IO_URING_CMD_REGISTER => 1,
            fuse_uring_cmd::FUSE_IO_URING_CMD_COMMIT_AND_FETCH => 2,
        }
    }

    /// The command with value `number`; any other number is handed back in the error.
    pub fn try_from(number: u32) -> (r: Result<fuse_uring_cmd, TryFromPrimitiveError>)
        ensures
            match r {
                Ok(cmd) => cmd.spec_value() == number,
                Err(e) => number > 2 && e.number == number,
            },
    {
        match number {
            0 => Ok(fuse_uring_cmd::FUSE_IO_URING_CMD_INVALID),
            1 => Ok(fuse_uring_cmd::FUSE_IO_URING_CMD_REGISTER),
            2 => Ok(fuse_uring_cmd::FUSE_IO_URING_CMD_COMMIT_AND_FETCH),
            _ => Err(TryFromPrimitiveError { number }),
        }
    }
}

/// The header of every request.
#[derive(Debug, Clone, Copy, PartialEq, Eq, Structural)]
pub struct fuse_in_header {
    pub len: u32,
    pub opcode: u32,
    pub unique: u64,
    pub nodeid: u64,
    pub uid: u32,
    pub gid: u32,
    pub pid: u32,
    pub padding: u32,
}

/// The header of every reply.
#[derive(Debug, Clone, Copy, PartialEq, Eq, Structural)]
pub struct fuse_out_header {
    pub len: u32,
    pub error: i32,
    pub unique: u64,
}

/// Trailer of `fuse_uring_req_header`, written by the kernel on fetch and by userspace on
/// commit.
#[derive(Debug, Clone, Copy, PartialEq, Eq, Structural)]
pub struct fuse_uring_ent_in_out {
    pub flags: u64,
    /// The request's `unique`, echoed in `fuse_uring_cmd_req.commit_id`.
    pub commit_id: u64,
    /// Bytes valid in the payload buffer, in either direction.
    pub payload_sz: u32,
    pub padding: u32,
    pub reserved: u64,
}

/// Per-entry header buffer, `iov[0]` of a REGISTER.
#[derive(Debug, Clone, Copy)]
pub struct fuse_uring_req_header {
    /// `fuse_in_header` on fetch, `fuse_out_header` on commit.
    pub in_out: [u8; 128],
    /// The fixed per-opcode in-struct; unused on commit.
    pub op_in: [u8; 128],
    pub ring_ent_in_out: fuse_uring_ent_in_out,
}

/// The command data in the 80-byte area of an SQE128.
#[derive(Debug, Clone, Copy)]
pub struct fuse_uring_cmd_req {
    pub flags: u64,
    /// 0 for REGISTER.
    pub commit_id: u64,
    pub qid: u16,
    pub padding: [u8; 6],
}

/// The attributes a `FUSE_SETATTR` request asks to change.
#[derive(Debug, Clone, Copy, PartialEq, Eq, Structural)]
pub struct fuse_setattr_in {
    pub valid: u32,
    pub padding: u32,
    pub fh: u64,
    pub size: u64,
    pub lock_owner: u64,
    pub atime: i64,
    pub mtime: i64,
    pub ctime: i64,
    pub atimensec: u32,
    pub mtimensec: u32,
    pub ctimensec: u32,
    pub mode: u32,
    pub unused4: u32,
    pub uid: u32,
    pub gid: u32,
    pub unused5: u32,
}

impl fuse_setattr_in {
    /// Whether `valid` has the bit for the current access time.
    pub open spec fn has_atime_now(self) -> bool {
        self.valid & FATTR_ATIME_NOW == FATTR_ATIME_NOW
    }

    /// Whether `valid` has the bit for the current modification time.
    pub open spec fn has_mtime_now(self) -> bool {
        self.valid & FATTR_MTIME_NOW == FATTR_MTIME_NOW
    }

    /// Whether the access time is to become the current time.
    pub fn atime_now(&self) -> (r: bool)
        ensures
            r == self.has_atime_now(),
    {
        self.valid & FATTR_ATIME_NOW == FATTR_ATIME_NOW
    }

    /// Whether the modification time is to become the current time.
    pub fn mtime_now(&self) -> (r: bool)
        ensures
            r == self.has_mtime_now(),
    {
        self.valid & FATTR_MTIME_NOW == FATTR_MTIME_NOW
    }
}

/// `fuse_setattr_in` of macOS, which has more to change.
#[derive(Debug, Clone, Copy, PartialEq, Eq, Structural)]
pub struct fuse_setattr_in_macos {
    pub common: fuse_setattr_in,
    pub bkuptime: u64,
    pub chgtime: u64,
    pub crtime: u64,
    pub bkuptimensec: u32,
    pub chgtimensec: u32,
    pub crtimensec: u32,
    /// See chflags(2).
    pub flags: u32,
}

/// The unsigned 32-bit value with the same two's complement representation as `x`.
pub open spec fn as_unsigned(x: i32) -> nat {
    if x >= 0 {
        x as nat
    } else {
        (x + 0x1_0000_0000) as nat
    }
}

fn to_unsigned(x: i32) -> (r: u32)
    ensures
        r as nat == as_unsigned(x),
{
    if x >= 0 {
        x as u32
    } else {
        (x as i64 + 0x1_0000_0000) as u32
    }
}

/// Copies the `N` bytes of `buf` from `at` on.
fn array_at<const N: usize>(buf: &[u8], at: usize) -> (r: [u8; N])
    requires
        at + N <= buf@.len(),
    ensures
        r@ == buf@.subrange(at as int, at + N),
{
    let mut out: [u8; N] = vstd::array::array_fill_for_copy_types(0u8);
    let mut i: usize = 0;
    while i < N
        invariant
            i <= N,
            at + N <= buf@.len(),
            forall|j: int| 0 <= j < i ==> out@[j] == buf@[at + j],
        decreases N - i,
    {
        let _len: usize = buf.len();
        out[i] = buf[at + i];
        i = i + 1;
    }
    assert(out@ =~= buf@.subrange(at as int, at + N));
    out
}

impl fuse_in_header {
    /// The 40 bytes of the structure, fields in declaration order.
    pub open spec fn spec_bytes(self) -> Seq<u8> {
        bytes::ne_bytes(self.len as nat, 4)
            + bytes::ne_bytes(self.opcode as nat, 4)
            + bytes::ne_bytes(self.unique as nat, 8)
            + bytes::ne_bytes(self.nodeid as nat, 8)
            + bytes::ne_bytes(self.uid as nat, 4)
            + bytes::ne_bytes(self.gid as nat, 4)
            + bytes::ne_bytes(self.pid as nat, 4)
            + bytes::ne_bytes(self.padding as nat, 4)
    }

    /// The encoding always takes `FUSE_IN_HEADER_SIZE` bytes.
    pub proof fn lemma_len(self)
        ensures
            self.spec_bytes().len() == FUSE_IN_HEADER_SIZE,
    {
        bytes::lemma_ne_bytes_len(self.len as nat, 4);
        bytes::lemma_ne_bytes_len(self.opcode as nat, 4);
        bytes::lemma_ne_bytes_len(self.unique as nat, 8);
        bytes::lemma_ne_bytes_len(self.nodeid as nat, 8);
        bytes::lemma_ne_bytes_len(self.uid as nat, 4);
        bytes::lemma_ne_bytes_len(self.gid as nat, 4);
        bytes::lemma_ne_bytes_len(self.pid as nat, 4);
        bytes::lemma_ne_bytes_len(self.padding as nat, 4);
    }

    /// The structure that the bytes `buf` hold; `None` when there are not exactly
    /// `FUSE_IN_HEADER_SIZE` of them.
    pub fn read_from_bytes(buf: &[u8]) -> (r: Option<fuse_in_header>)
        ensures
            r is Some <==> buf@.len() == FUSE_IN_HEADER_SIZE,
            r matches Some(x) ==> x.spec_bytes() == buf@,
    {
        if buf.len() != FUSE_IN_HEADER_SIZE {
            return None;
        }
        proof {
            bytes::lemma_pow256_sizes();
            bytes::encode_of_decode(buf@.subrange(0, 4));
        }
        let len: u32 = bytes::decode(buf, 0, 4) as u32;
        proof {
            bytes::lemma_pow256_sizes();
            bytes::encode_of_decode(buf@.subrange(4, 8));
        }
        let opcode: u32 = bytes::decode(buf, 4, 4) as u32;
        proof {
            bytes::lemma_pow256_sizes();
            bytes::encode_of_decode(buf@.subrange(8, 16));
        }
        let unique: u64 = bytes::decode(buf, 8, 8);
        proof {
            bytes::lemma_pow256_sizes();
            bytes::encode_of_decode(buf@.subrange(16, 24));
        }
        let nodeid: u64 = bytes::decode(buf, 16, 8);
        proof {
            bytes::lemma_pow256_sizes();
            bytes::encode_of_decode(buf@.subrange(24, 28));
        }
        let uid: u32 = bytes::decode(buf, 24, 4) as u32;
        proof {
            bytes::lemma_pow256_sizes();
            bytes::encode_of_decode(buf@.subrange(28, 32));
        }
        let gid: u32 = bytes::decode(buf, 28, 4) as u32;
        proof {
            bytes::lemma_pow256_sizes();
            bytes::encode_of_decode(buf@.subrange(32, 36));
        }
        let pid: u32 = bytes::decode(buf, 32, 4) as u32;
        proof {
            bytes::lemma_pow256_sizes();
            bytes::encode_of_decode(buf@.subrange(36, 40));
        }
        let padding: u32 = bytes::decode(buf, 36, 4) as u32;
        let r = fuse_in_header { len, opcode, unique, nodeid, uid, gid, pid, padding };
        assert(r.spec_bytes() =~= buf@);
        Some(r)
    }

    /// Each field is read back from its place in the structure.
    pub proof fn fields_read_back(self)
        ensures
            bytes::ne_value(self.spec_bytes().subrange(0, 4)) == self.len,
            bytes::ne_value(self.spec_bytes().subrange(4, 8)) == self.opcode,
            bytes::ne_value(self.spec_bytes().subrange(8, 16)) == self.unique,
            bytes::ne_value(self.spec_bytes().subrange(16, 24)) == self.nodeid,
            bytes::ne_value(self.spec_bytes().subrange(24, 28)) == self.uid,
            bytes::ne_value(self.spec_bytes().subrange(28, 32)) == self.gid,
            bytes::ne_value(self.spec_bytes().subrange(32, 36)) == self.pid,
            bytes::ne_value(self.spec_bytes().subrange(36, 40)) == self.padding,
    {
        let s = self.spec_bytes();
        self.lemma_len();
        bytes::lemma_pow256_sizes();
        bytes::lemma_ne_bytes_len(self.len as nat, 4);
        bytes::decode_of_encode(self.len as nat, 4);
        bytes::lemma_ne_bytes_len(self.opcode as nat, 4);
        bytes::decode_of_encode(self.opcode as nat, 4);
        bytes::lemma_ne_bytes_len(self.unique as nat, 8);
        bytes::decode_of_encode(self.unique as nat, 8);
        bytes::lemma_ne_bytes_len(self.nodeid as nat, 8);
        bytes::decode_of_encode(self.nodeid as nat, 8);
        bytes::lemma_ne_bytes_len(self.uid as nat, 4);
        bytes::decode_of_encode(self.uid as nat, 4);
        bytes::lemma_ne_bytes_len(self.gid as nat, 4);
        bytes::decode_of_encode(self.gid as nat, 4);
        bytes::lemma_ne_bytes_len(self.pid as nat, 4);
        bytes::decode_of_encode(self.pid as nat, 4);
        bytes::lemma_ne_bytes_len(self.padding as nat, 4);
        bytes::decode_of_encode(self.padding as nat, 4);
        assert(s.subrange(0, 4) =~= bytes::ne_bytes(self.len as nat, 4));
        assert(s.subrange(4, 8) =~= bytes::ne_bytes(self.opcode as nat, 4));
        assert(s.subrange(8, 16) =~= bytes::ne_bytes(self.unique as nat, 8));
        assert(s.subrange(16, 24) =~= bytes::ne_bytes(self.nodeid as nat, 8));
        assert(s.subrange(24, 28) =~= bytes::ne_bytes(self.uid as nat, 4));
        assert(s.subrange(28, 32) =~= bytes::ne_bytes(self.gid as nat, 4));
        assert(s.subrange(32, 36) =~= bytes::ne_bytes(self.pid as nat, 4));
        assert(s.subrange(36, 40) =~= bytes::ne_bytes(self.padding as nat, 4));
    }

    /// Two structures with the same bytes are the same, so reading back what was written gives
    /// every field its value.
    pub proof fn bytes_are_unique(self, other: fuse_in_header)
        requires
            self.spec_bytes() == other.spec_bytes(),
        ensures
            self == other,
    {
        let a = self.spec_bytes();
        let b = other.spec_bytes();
        self.lemma_len();
        other.lemma_len();
        bytes::lemma_pow256_sizes();
        bytes::lemma_ne_bytes_len(self.len as nat, 4);
        bytes::decode_of_encode(self.len as nat, 4);
        bytes::lemma_ne_bytes_len(other.len as nat, 4);
        bytes::decode_of_encode(other.len as nat, 4);
        bytes::lemma_ne_bytes_len(self.opcode as nat, 4);
        bytes::decode_of_encode(self.opcode as nat, 4);
        bytes::lemma_ne_bytes_len(other.opcode as nat, 4);
        bytes::decode_of_encode(other.opcode as nat, 4);
        bytes::lemma_ne_bytes_len(self.unique as nat, 8);
        bytes::decode_of_encode(self.unique as nat, 8);
        bytes::lemma_ne_bytes_len(other.unique as nat, 8);
        bytes::decode_of_encode(other.unique as nat, 8);
        bytes::lemma_ne_bytes_len(self.nodeid as nat, 8);
        bytes::decode_of_encode(self.nodeid as nat, 8);
        bytes::lemma_ne_bytes_len(other.nodeid as nat, 8);
        bytes::decode_of_encode(other.nodeid as nat, 8);
        bytes::lemma_ne_bytes_len(self.uid as nat, 4);
        bytes::decode_of_encode(self.uid as nat, 4);
        bytes::lemma_ne_bytes_len(other.uid as nat, 4);
        bytes::decode_of_encode(other.uid as nat, 4);
        bytes::lemma_ne_bytes_len(self.gid as nat, 4);
        bytes::decode_of_encode(self.gid as nat, 4);
        bytes::lemma_ne_bytes_len(other.gid as nat, 4);
        bytes::decode_of_encode(other.gid as nat, 4);
        bytes::lemma_ne_bytes_len(self.pid as nat, 4);
        bytes::decode_of_encode(self.pid as nat, 4);
        bytes::lemma_ne_bytes_len(other.pid as nat, 4);
        bytes::decode_of_encode(other.pid as nat, 4);
        bytes::lemma_ne_bytes_len(self.padding as nat, 4);
        bytes::decode_of_encode(self.padding as nat, 4);
        bytes::lemma_ne_bytes_len(other.padding as nat, 4);
        bytes::decode_of_encode(other.padding as nat, 4);
        assert(a.subrange(0, 4) =~= bytes::ne_bytes(self.len as nat, 4));
        assert(b.subrange(0, 4) =~= bytes::ne_bytes(other.len as nat, 4));
        assert(a.subrange(4, 8) =~= bytes::ne_bytes(self.opcode as nat, 4));
        assert(b.subrange(4, 8) =~= bytes::ne_bytes(other.opcode as nat, 4));
        assert(a.subrange(8, 16) =~= bytes::ne_bytes(self.unique as nat, 8));
        assert(b.subrange(8, 16) =~= bytes::ne_bytes(other.unique as nat, 8));
        assert(a.subrange(16, 24) =~= bytes::ne_bytes(self.nodeid as nat, 8));
        assert(b.subrange(16, 24) =~= bytes::ne_bytes(other.nodeid as nat, 8));
        assert(a.subrange(24, 28) =~= bytes::ne_bytes(self.uid as nat, 4));
        assert(b.subrange(24, 28) =~= bytes::ne_bytes(other.uid as nat, 4));
        assert(a.subrange(28, 32) =~= bytes::ne_bytes(self.gid as nat, 4));
        assert(b.subrange(28, 32) =~= bytes::ne_bytes(other.gid as nat, 4));
        assert(a.subrange(32, 36) =~= bytes::ne_bytes(self.pid as nat, 4));
        assert(b.subrange(32, 36) =~= bytes::ne_bytes(other.pid as nat, 4));
        assert(a.subrange(36, 40) =~= bytes::ne_bytes(self.padding as nat, 4));
        assert(b.subrange(36, 40) =~= bytes::ne_bytes(other.padding as nat, 4));
    }
}

impl fuse_out_header {
    /// The 16 bytes of the structure, fields in declaration order.
    pub open spec fn spec_bytes(self) -> Seq<u8> {
        bytes::ne_bytes(self.len as nat, 4)
            + bytes::ne_bytes(as_unsigned(self.error), 4)
            + bytes::ne_bytes(self.unique as nat, 8)
    }

    /// The bytes as they go on the wire.
    pub fn as_bytes(&self) -> (r: Vec<u8>)
        ensures
            r@ == self.spec_bytes(),
            r@.len() == FUSE_OUT_HEADER_SIZE,
    {
        proof {
            self.lemma_len();
        }
        let mut out: Vec<u8> = Vec::new();
        let mut len: Vec<u8> = bytes::encode(self.len as u64, 4);
        out.append(&mut len);
        let mut error: Vec<u8> = bytes::encode(to_unsigned(self.error) as u64, 4);
        out.append(&mut error);
        let mut unique: Vec<u8> = bytes::encode(self.unique as u64, 8);
        out.append(&mut unique);
        assert(out@ =~= self.spec_bytes());
        out
    }

    /// The encoding always takes `FUSE_OUT_HEADER_SIZE` bytes.
    pub proof fn lemma_len(self)
        ensures
            self.spec_bytes().len() == FUSE_OUT_HEADER_SIZE,
    {
        bytes::lemma_ne_bytes_len(self.len as nat, 4);
        bytes::lemma_ne_bytes_len(as_unsigned(self.error), 4);
        bytes::lemma_ne_bytes_len(self.unique as nat, 8);
    }

    /// Each field is read back from its place in the structure.
    pub proof fn fields_read_back(self)
        ensures
            bytes::ne_value(self.spec_bytes().subrange(0, 4)) == self.len,
            bytes::ne_value(self.spec_bytes().subrange(4, 8)) == if self.error >= 0 {
                self.error as int
            } else {
                0x1_0000_0000 + self.error
            },
            bytes::ne_value(self.spec_bytes().subrange(8, 16)) == self.unique,
    {
        let s = self.spec_bytes();
        self.lemma_len();
        bytes::lemma_pow256_sizes();
        bytes::lemma_ne_bytes_len(self.len as nat, 4);
        bytes::decode_of_encode(self.len as nat, 4);
        bytes::lemma_ne_bytes_len(as_unsigned(self.error), 4);
        bytes::decode_of_encode(as_unsigned(self.error), 4);
        bytes::lemma_ne_bytes_len(self.unique as nat, 8);
        bytes::decode_of_encode(self.unique as nat, 8);
        assert(s.subrange(0, 4) =~= bytes::ne_bytes(self.len as nat, 4));
        assert(s.subrange(4, 8) =~= bytes::ne_bytes(as_unsigned(self.error), 4));
        assert(s.subrange(8, 16) =~= bytes::ne_bytes(self.unique as nat, 8));
    }

    /// Two structures with the same bytes are the same, so reading back what was written gives
    /// every field its value.
    pub proof fn bytes_are_unique(self, other: fuse_out_header)
        requires
            self.spec_bytes() == other.spec_bytes(),
        ensures
            self == other,
    {
        let a = self.spec_bytes();
        let b = other.spec_bytes();
        self.lemma_len();
        other.lemma_len();
        bytes::lemma_pow256_sizes();
        bytes::lemma_ne_bytes_len(self.len as nat, 4);
        bytes::decode_of_encode(self.len as nat, 4);
        bytes::lemma_ne_bytes_len(other.len as nat, 4);
        bytes::decode_of_encode(other.len as nat, 4);
        bytes::lemma_ne_bytes_len(as_unsigned(self.error), 4);
        bytes::decode_of_encode(as_unsigned(self.error), 4);
        bytes::lemma_ne_bytes_len(as_unsigned(other.error), 4);
        bytes::decode_of_encode(as_unsigned(other.error), 4);
        bytes::lemma_ne_bytes_len(self.unique as nat, 8);
        bytes::decode_of_encode(self.unique as nat, 8);
        bytes::lemma_ne_bytes_len(other.unique as nat, 8);
        bytes::decode_of_encode(other.unique as nat, 8);
        assert(a.subrange(0, 4) =~= bytes::ne_bytes(self.len as nat, 4));
        assert(b.subrange(0, 4) =~= bytes::ne_bytes(other.len as nat, 4));
        assert(a.subrange(4, 8) =~= bytes::ne_bytes(as_unsigned(self.error), 4));
        assert(b.subrange(4, 8) =~= bytes::ne_bytes(as_unsigned(other.error), 4));
        assert(a.subrange(8, 16) =~= bytes::ne_bytes(self.unique as nat, 8));
        assert(b.subrange(8, 16) =~= bytes::ne_bytes(other.unique as nat, 8));
    }
}

impl fuse_uring_ent_in_out {
    /// The 32 bytes of the structure, fields in declaration order.
    pub open spec fn spec_bytes(self) -> Seq<u8> {
        bytes::ne_bytes(self.flags as nat, 8)
            + bytes::ne_bytes(self.commit_id as nat, 8)
            + bytes::ne_bytes(self.payload_sz as nat, 4)
            + bytes::ne_bytes(self.padding as nat, 4)
            + bytes::ne_bytes(self.reserved as nat, 8)
    }

    /// The bytes as they go on the wire.
    pub fn as_bytes(&self) -> (r: Vec<u8>)
        ensures
            r@ == self.spec_bytes(),
            r@.len() == FUSE_URING_ENT_IN_OUT_SIZE,
    {
        proof {
            self.lemma_len();
        }
        let mut out: Vec<u8> = Vec::new();
        let mut flags: Vec<u8> = bytes::encode(self.flags as u64, 8);
        out.append(&mut flags);
        let mut commit_id: Vec<u8> = bytes::encode(self.commit_id as u64, 8);
        out.append(&mut commit_id);
        let mut payload_sz: Vec<u8> = bytes::encode(self.payload_sz as u64, 4);
        out.append(&mut payload_sz);
        let mut padding: Vec<u8> = bytes::encode(self.padding as u64, 4);
        out.append(&mut padding);
        let mut reserved: Vec<u8> = bytes::encode(self.reserved as u64, 8);
        out.append(&mut reserved);
        assert(out@ =~= self.spec_bytes());
        out
    }

    /// The encoding always takes `FUSE_URING_ENT_IN_OUT_SIZE` bytes.
    pub proof fn lemma_len(self)
        ensures
            self.spec_bytes().len() == FUSE_URING_ENT_IN_OUT_SIZE,
    {
        bytes::lemma_ne_bytes_len(self.flags as nat, 8);
        bytes::lemma_ne_bytes_len(self.commit_id as nat, 8);
        bytes::lemma_ne_bytes_len(self.payload_sz as nat, 4);
        bytes::lemma_ne_bytes_len(self.padding as nat, 4);
        bytes::lemma_ne_bytes_len(self.reserved as nat, 8);
    }

    /// The structure that the bytes `buf` hold; `None` when there are not exactly
    /// `FUSE_URING_ENT_IN_OUT_SIZE` of them.
    pub fn read_from_bytes(buf: &[u8]) -> (r: Option<fuse_uring_ent_in_out>)
        ensures
            r is Some <==> buf@.len() == FUSE_URING_ENT_IN_OUT_SIZE,
            r matches Some(x) ==> x.spec_bytes() == buf@,
    {
        if buf.len() != FUSE_URING_ENT_IN_OUT_SIZE {
            return None;
        }
        proof {
            bytes::lemma_pow256_sizes();
            bytes::encode_of_decode(buf@.subrange(0, 8));
        }
        let flags: u64 = bytes::decode(buf, 0, 8);
        proof {
            bytes::lemma_pow256_sizes();
            bytes::encode_of_decode(buf@.subrange(8, 16));
        }
        let commit_id: u64 = bytes::decode(buf, 8, 8);
        proof {
            bytes::lemma_pow256_sizes();
            bytes::encode_of_decode(buf@.subrange(16, 20));
        }
        let payload_sz: u32 = bytes::decode(buf, 16, 4) as u32;
        proof {
            bytes::lemma_pow256_sizes();
            bytes::encode_of_decode(buf@.subrange(20, 24));
        }
        let padding: u32 = bytes::decode(buf, 20, 4) as u32;
        proof {
            bytes::lemma_pow256_sizes();
            bytes::encode_of_decode(buf@.subrange(24, 32));
        }
        let reserved: u64 = bytes::decode(buf, 24, 8);
        let r = fuse_uring_ent_in_out { flags, commit_id, payload_sz, padding, reserved };
        assert(r.spec_bytes() =~= buf@);
        Some(r)
    }

    /// Each field is read back from its place in the structure.
    pub proof fn fields_read_back(self)
        ensures
            bytes::ne_value(self.spec_bytes().subrange(0, 8)) == self.flags,
            bytes::ne_value(self.spec_bytes().subrange(8, 16)) == self.commit_id,
            bytes::ne_value(self.spec_bytes().subrange(16, 20)) == self.payload_sz,
            bytes::ne_value(self.spec_bytes().subrange(20, 24)) == self.padding,
            bytes::ne_value(self.spec_bytes().subrange(24, 32)) == self.reserved,
    {
        let s = self.spec_bytes();
        self.lemma_len();
        bytes::lemma_pow256_sizes();
        bytes::lemma_ne_bytes_len(self.flags as nat, 8);
        bytes::decode_of_encode(self.flags as nat, 8);
        bytes::lemma_ne_bytes_len(self.commit_id as nat, 8);
        bytes::decode_of_encode(self.commit_id as nat, 8);
        bytes::lemma_ne_bytes_len(self.payload_sz as nat, 4);
        bytes::decode_of_encode(self.payload_sz as nat, 4);
        bytes::lemma_ne_bytes_len(self.padding as nat, 4);
        bytes::decode_of_encode(self.padding as nat, 4);
        bytes::lemma_ne_bytes_len(self.reserved as nat, 8);
        bytes::decode_of_encode(self.reserved as nat, 8);
        assert(s.subrange(0, 8) =~= bytes::ne_bytes(self.flags as nat, 8));
        assert(s.subrange(8, 16) =~= bytes::ne_bytes(self.commit_id as nat, 8));
        assert(s.subrange(16, 20) =~= bytes::ne_bytes(self.payload_sz as nat, 4));
        assert(s.subrange(20, 24) =~= bytes::ne_bytes(self.padding as nat, 4));
        assert(s.subrange(24, 32) =~= bytes::ne_bytes(self.reserved as nat, 8));
    }

    /// Two structures with the same bytes are the same, so reading back what was written gives
    /// every field its value.
    pub proof fn bytes_are_unique(self, other: fuse_uring_ent_in_out)
        requires
            self.spec_bytes() == other.spec_bytes(),
        ensures
            self == other,
    {
        let a = self.spec_bytes();
        let b = other.spec_bytes();
        self.lemma_len();
        other.lemma_len();
        bytes::lemma_pow256_sizes();
        bytes::lemma_ne_bytes_len(self.flags as nat, 8);
        bytes::decode_of_encode(self.flags as nat, 8);
        bytes::lemma_ne_bytes_len(other.flags as nat, 8);
        bytes::decode_of_encode(other.flags as nat, 8);
        bytes::lemma_ne_bytes_len(self.commit_id as nat, 8);
        bytes::decode_of_encode(self.commit_id as nat, 8);
        bytes::lemma_ne_bytes_len(other.commit_id as nat, 8);
        bytes::decode_of_encode(other.commit_id as nat, 8);
        bytes::lemma_ne_bytes_len(self.payload_sz as nat, 4);
        bytes::decode_of_encode(self.payload_sz as nat, 4);
        bytes::lemma_ne_bytes_len(other.payload_sz as nat, 4);
        bytes::decode_of_encode(other.payload_sz as nat, 4);
        bytes::lemma_ne_bytes_len(self.padding as nat, 4);
        bytes::decode_of_encode(self.padding as nat, 4);
        bytes::lemma_ne_bytes_len(other.padding as nat, 4);
        bytes::decode_of_encode(other.padding as nat, 4);
        bytes::lemma_ne_bytes_len(self.reserved as nat, 8);
        bytes::decode_of_encode(self.reserved as nat, 8);
        bytes::lemma_ne_bytes_len(other.reserved as nat, 8);
        bytes::decode_of_encode(other.reserved as nat, 8);
        assert(a.subrange(0, 8) =~= bytes::ne_bytes(self.flags as nat, 8));
        assert(b.subrange(0, 8) =~= bytes::ne_bytes(other.flags as nat, 8));
        assert(a.subrange(8, 16) =~= bytes::ne_bytes(self.commit_id as nat, 8));
        assert(b.subrange(8, 16) =~= bytes::ne_bytes(other.commit_id as nat, 8));
        assert(a.subrange(16, 20) =~= bytes::ne_bytes(self.payload_sz as nat, 4));
        assert(b.subrange(16, 20) =~= bytes::ne_bytes(other.payload_sz as nat, 4));
        assert(a.subrange(20, 24) =~= bytes::ne_bytes(self.padding as nat, 4));
        assert(b.subrange(20, 24) =~= bytes::ne_bytes(other.padding as nat, 4));
        assert(a.subrange(24, 32) =~= bytes::ne_bytes(self.reserved as nat, 8));
        assert(b.subrange(24, 32) =~= bytes::ne_bytes(other.reserved as nat, 8));
    }
}

impl fuse_uring_req_header {
    /// The 288 bytes of the structure, fields in declaration order.
    pub open spec fn spec_bytes(self) -> Seq<u8> {
        self.in_out@
            + self.op_in@
            + self.ring_ent_in_out.spec_bytes()
    }

    /// The bytes as they go on the wire.
    pub fn as_bytes(&self) -> (r: Vec<u8>)
        ensures
            r@ == self.spec_bytes(),
            r@.len() == FUSE_URING_REQ_HEADER_SIZE,
    {
        proof {
            self.lemma_len();
        }
        let mut out: Vec<u8> = Vec::new();
        out.extend_from_slice(self.in_out.as_slice());
        out.extend_from_slice(self.op_in.as_slice());
        let mut ring_ent_in_out: Vec<u8> = self.ring_ent_in_out.as_bytes();
        out.append(&mut ring_ent_in_out);
        assert(out@ =~= self.spec_bytes());
        out
    }

    /// The encoding always takes `FUSE_URING_REQ_HEADER_SIZE` bytes.
    pub proof fn lemma_len(self)
        ensures
            self.spec_bytes().len() == FUSE_URING_REQ_HEADER_SIZE,
    {
        self.ring_ent_in_out.lemma_len();
    }

    /// The structure that the bytes `buf` hold; `None` when there are not exactly
    /// `FUSE_URING_REQ_HEADER_SIZE` of them.
    pub fn read_from_bytes(buf: &[u8]) -> (r: Option<fuse_uring_req_header>)
        ensures
            r is Some <==> buf@.len() == FUSE_URING_REQ_HEADER_SIZE,
            r matches Some(x) ==> x.spec_bytes() == buf@,
    {
        if buf.len() != FUSE_URING_REQ_HEADER_SIZE {
            return None;
        }
        let in_out: [u8; 128] = array_at::<128>(buf, 0);
        let op_in: [u8; 128] = array_at::<128>(buf, 128);
        let tail: [u8; 32] = array_at::<32>(buf, 256);
        let ring_ent_in_out = match fuse_uring_ent_in_out::read_from_bytes(tail.as_slice()) {
            Some(x) => x,
            None => return None,
        };
        let r = fuse_uring_req_header { in_out, op_in, ring_ent_in_out };
        assert(r.spec_bytes() =~= buf@);
        Some(r)
    }

    /// Two structures with the same bytes are the same, so reading back what was written gives
    /// every field its value.
    pub proof fn bytes_are_unique(self, other: fuse_uring_req_header)
        requires
            self.spec_bytes() == other.spec_bytes(),
        ensures
            self == other,
    {
        let a = self.spec_bytes();
        let b = other.spec_bytes();
        self.lemma_len();
        other.lemma_len();
        bytes::lemma_pow256_sizes();
        self.ring_ent_in_out.lemma_len();
        other.ring_ent_in_out.lemma_len();
        assert(a.subrange(0, 128) =~= self.in_out@);
        assert(b.subrange(0, 128) =~= other.in_out@);
        assert(self.in_out =~= other.in_out);
        assert(a.subrange(128, 256) =~= self.op_in@);
        assert(b.subrange(128, 256) =~= other.op_in@);
        assert(self.op_in =~= other.op_in);
        assert(a.subrange(256, 288) =~= self.ring_ent_in_out.spec_bytes());
        assert(b.subrange(256, 288) =~= other.ring_ent_in_out.spec_bytes());
        self.ring_ent_in_out.bytes_are_unique(other.ring_ent_in_out);
    }
}

impl fuse_uring_cmd_req {
    /// The 24 bytes of the structure, fields in declaration order.
    pub open spec fn spec_bytes(self) -> Seq<u8> {
        bytes::ne_bytes(self.flags as nat, 8)
            + bytes::ne_bytes(self.commit_id as nat, 8)
            + bytes::ne_bytes(self.qid as nat, 2)
            + self.padding@
    }

    /// The bytes as they go on the wire.
    pub fn as_bytes(&self) -> (r: Vec<u8>)
        ensures
            r@ == self.spec_bytes(),
            r@.len() == FUSE_URING_CMD_REQ_SIZE,
    {
        proof {
            self.lemma_len();
        }
        let mut out: Vec<u8> = Vec::new();
        let mut flags: Vec<u8> = bytes::encode(self.flags as u64, 8);
        out.append(&mut flags);
        let mut commit_id: Vec<u8> = bytes::encode(self.commit_id as u64, 8);
        out.append(&mut commit_id);
        let mut qid: Vec<u8> = bytes::encode(self.qid as u64, 2);
        out.append(&mut qid);
        out.extend_from_slice(self.padding.as_slice());
        assert(out@ =~= self.spec_bytes());
        out
    }

    /// The encoding always takes `FUSE_URING_CMD_REQ_SIZE` bytes.
    pub proof fn lemma_len(self)
        ensures
            self.spec_bytes().len() == FUSE_URING_CMD_REQ_SIZE,
    {
        bytes::lemma_ne_bytes_len(self.flags as nat, 8);
        bytes::lemma_ne_bytes_len(self.commit_id as nat, 8);
        bytes::lemma_ne_bytes_len(self.qid as nat, 2);
    }

    /// The structure that the bytes `buf` hold; `None` when there are not exactly
    /// `FUSE_URING_CMD_REQ_SIZE` of them.
    pub fn read_from_bytes(buf: &[u8]) -> (r: Option<fuse_uring_cmd_req>)
        ensures
            r is Some <==> buf@.len() == FUSE_URING_CMD_REQ_SIZE,
            r matches Some(x) ==> x.spec_bytes() == buf@,
    {
        if buf.len() != FUSE_URING_CMD_REQ_SIZE {
            return None;
        }
        proof {
            bytes::lemma_pow256_sizes();
            bytes::encode_of_decode(buf@.subrange(0, 8));
        }
        let flags: u64 = bytes::decode(buf, 0, 8);
        proof {
            bytes::lemma_pow256_sizes();
            bytes::encode_of_decode(buf@.subrange(8, 16));
        }
        let commit_id: u64 = bytes::decode(buf, 8, 8);
        proof {
            bytes::lemma_pow256_sizes();
            bytes::encode_of_decode(buf@.subrange(16, 18));
        }
        let qid: u16 = bytes::decode(buf, 16, 2) as u16;
        let padding: [u8; 6] = array_at::<6>(buf, 18);
        let r = fuse_uring_cmd_req { flags, commit_id, qid, padding };
        assert(r.spec_bytes() =~= buf@);
        Some(r)
    }

    /// Each field is read back from its place in the structure.
    pub proof fn fields_read_back(self)
        ensures
            bytes::ne_value(self.spec_bytes().subrange(0, 8)) == self.flags,
            bytes::ne_value(self.spec_bytes().subrange(8, 16)) == self.commit_id,
            bytes::ne_value(self.spec_bytes().subrange(16, 18)) == self.qid,
    {
        let s = self.spec_bytes();
        self.lemma_len();
        bytes::lemma_pow256_sizes();
        bytes::lemma_ne_bytes_len(self.flags as nat, 8);
        bytes::decode_of_encode(self.flags as nat, 8);
        bytes::lemma_ne_bytes_len(self.commit_id as nat, 8);
        bytes::decode_of_encode(self.commit_id as nat, 8);
        bytes::lemma_ne_bytes_len(self.qid as nat, 2);
        bytes::decode_of_encode(self.qid as nat, 2);
        assert(s.subrange(0, 8) =~= bytes::ne_bytes(self.flags as nat, 8));
        assert(s.subrange(8, 16) =~= bytes::ne_bytes(self.commit_id as nat, 8));
        assert(s.subrange(16, 18) =~= bytes::ne_bytes(self.qid as nat, 2));
    }

    /// Two structures with the same bytes are the same, so reading back what was written gives
    /// every field its value.
    pub proof fn bytes_are_unique(self, other: fuse_uring_cmd_req)
        requires
            self.spec_bytes() == other.spec_bytes(),
        ensures
            self == other,
    {
        let a = self.spec_bytes();
        let b = other.spec_bytes();
        self.lemma_len();
        other.lemma_len();
        bytes::lemma_pow256_sizes();
        bytes::lemma_ne_bytes_len(self.flags as nat, 8);
        bytes::decode_of_encode(self.flags as nat, 8);
        bytes::lemma_ne_bytes_len(other.flags as nat, 8);
        bytes::decode_of_encode(other.flags as nat, 8);
        bytes::lemma_ne_bytes_len(self.commit_id as nat, 8);
        bytes::decode_of_encode(self.commit_id as nat, 8);
        bytes::lemma_ne_bytes_len(other.commit_id as nat, 8);
        bytes::decode_of_encode(other.commit_id as nat, 8);
        bytes::lemma_ne_bytes_len(self.qid as nat, 2);
        bytes::decode_of_encode(self.qid as nat, 2);
        bytes::lemma_ne_bytes_len(other.qid as nat, 2);
        bytes::decode_of_encode(other.qid as nat, 2);
        assert(a.subrange(0, 8) =~= bytes::ne_bytes(self.flags as nat, 8));
        assert(b.subrange(0, 8) =~= bytes::ne_bytes(other.flags as nat, 8));
        assert(a.subrange(8, 16) =~= bytes::ne_bytes(self.commit_id as nat, 8));
        assert(b.subrange(8, 16) =~= bytes::ne_bytes(other.commit_id as nat, 8));
        assert(a.subrange(16, 18) =~= bytes::ne_bytes(self.qid as nat, 2));
        assert(b.subrange(16, 18) =~= bytes::ne_bytes(other.qid as nat, 2));
        assert(a.subrange(18, 24) =~= self.padding@);
        assert(b.subrange(18, 24) =~= other.padding@);
        assert(self.padding =~= other.padding);
    }
}

impl fuse_in_header {
    /// The header at the front of `buf`; `None` when `buf` is too short to hold one.
    pub fn read_from_prefix(buf: &[u8]) -> (r: Option<fuse_in_header>)
        ensures
            r is Some <==> buf@.len() >= FUSE_IN_HEADER_SIZE,
            r matches Some(x) ==> x.spec_bytes() == buf@.take(FUSE_IN_HEADER_SIZE as int),
    {
        if buf.len() < FUSE_IN_HEADER_SIZE {
            return None;
        }
        let front: [u8; 40] = array_at::<40>(buf, 0);
        assert(front@ =~= buf@.take(FUSE_IN_HEADER_SIZE as int));
        fuse_in_header::read_from_bytes(front.as_slice())
    }
}

/// What a request asks for.
#[derive(Debug, Clone, Copy, PartialEq, Eq, Structural)]
pub enum fuse_opcode {
    FUSE_LOOKUP,
    FUSE_FORGET,
    FUSE_GETATTR,
    FUSE_SETATTR,
    FUSE_READLINK,
    FUSE_SYMLINK,
    FUSE_MKNOD,
    FUSE_MKDIR,
    FUSE_UNLINK,
    FUSE_RMDIR,
    FUSE_RENAME,
    FUSE_LINK,
    FUSE_OPEN,
    FUSE_READ,
    FUSE_WRITE,
    FUSE_STATFS,
    FUSE_RELEASE,
    FUSE_FSYNC,
    FUSE_SETXATTR,
    FUSE_GETXATTR,
    FUSE_LISTXATTR,
    FUSE_REMOVEXATTR,
    FUSE_FLUSH,
    FUSE_INIT,
    FUSE_OPENDIR,
    FUSE_READDIR,
    FUSE_RELEASEDIR,
    FUSE_FSYNCDIR,
    FUSE_GETLK,
    FUSE_SETLK,
    FUSE_SETLKW,
    FUSE_ACCESS,
    FUSE_CREATE,
    FUSE_INTERRUPT,
    FUSE_BMAP,
    FUSE_DESTROY,
    FUSE_IOCTL,
    FUSE_POLL,
    FUSE_NOTIFY_REPLY,
    FUSE_BATCH_FORGET,
    FUSE_FALLOCATE,
    FUSE_READDIRPLUS,
    FUSE_RENAME2,
    FUSE_LSEEK,
    FUSE_COPY_FILE_RANGE,
    FUSE_SYNCFS,
    FUSE_TMPFILE,
    FUSE_STATX,
    FUSE_SETVOLNAME,
    FUSE_GETXTIMES,
    FUSE_EXCHANGE,
    CUSE_INIT,
}

impl fuse_opcode {
    /// Whether only macOS has this opcode.
    pub open spec fn macos_only(self) -> bool {
        self is FUSE_SETVOLNAME || self is FUSE_GETXTIMES || self is FUSE_EXCHANGE
    }

    /// The value on the wire.
    pub open spec fn spec_value(self) -> u32 {
        match self {
            fuse_opcode::FUSE_LOOKUP => 1,
            fuse_opcode::FUSE_FORGET => 2,
            fuse_opcode::FUSE_GETATTR => 3,
            fuse_opcode::FUSE_SETATTR => 4,
            fuse_opcode::FUSE_READLINK => 5,
            fuse_opcode::FUSE_SYMLINK => 6,
            fuse_opcode::FUSE_MKNOD => 8,
            fuse_opcode::FUSE_MKDIR => 9,
            fuse_opcode::FUSE_UNLINK => 10,
            fuse_opcode::FUSE_RMDIR => 11,
            fuse_opcode::FUSE_RENAME => 12,
            fuse_opcode::FUSE_LINK => 13,
            fuse_opcode::FUSE_OPEN => 14,
            fuse_opcode::FUSE_READ => 15,
            fuse_opcode::FUSE_WRITE => 16,
            fuse_opcode::FUSE_STATFS => 17,
            fuse_opcode::FUSE_RELEASE => 18,
            fuse_opcode::FUSE_FSYNC => 20,
            fuse_opcode::FUSE_SETXATTR => 21,
            fuse_opcode::FUSE_GETXATTR => 22,
            fuse_opcode::FUSE_LISTXATTR => 23,
            fuse_opcode::FUSE_REMOVEXATTR => 24,
            fuse_opcode::FUSE_FLUSH => 25,
            fuse_opcode::FUSE_INIT => 26,
            fuse_opcode::FUSE_OPENDIR => 27,
            fuse_opcode::FUSE_READDIR => 28,
            fuse_opcode::FUSE_RELEASEDIR => 29,
            fuse_opcode::FUSE_FSYNCDIR => 30,
            fuse_opcode::FUSE_GETLK => 31,
            fuse_opcode::FUSE_SETLK => 32,
            fuse_opcode::FUSE_SETLKW => 33,
            fuse_opcode::FUSE_ACCESS => 34,
            fuse_opcode::FUSE_CREATE => 35,
            fuse_opcode::FUSE_INTERRUPT => 36,
            fuse_opcode::FUSE_BMAP => 37,
            fuse_opcode::FUSE_DESTROY => 38,
            fuse_opcode::FUSE_IOCTL => 39,
            fuse_opcode::FUSE_POLL => 40,
            fuse_opcode::FUSE_NOTIFY_REPLY => 41,
            fuse_opcode::FUSE_BATCH_FORGET => 42,
            fuse_opcode::FUSE_FALLOCATE => 43,
            fuse_opcode::FUSE_READDIRPLUS => 44,
            fuse_opcode::FUSE_RENAME2 => 45,
            fuse_opcode::FUSE_LSEEK => 46,
            fuse_opcode::FUSE_COPY_FILE_RANGE => 47,
            fuse_opcode::FUSE_SYNCFS => 50,
            fuse_opcode::FUSE_TMPFILE => 51,
            fuse_opcode::FUSE_STATX => 52,
            fuse_opcode::FUSE_SETVOLNAME => 61,
            fuse_opcode::FUSE_GETXTIMES => 62,
            fuse_opcode::FUSE_EXCHANGE => 63,
            fuse_opcode::CUSE_INIT => 4096,
        }
    }

    #[verifier::when_used_as_spec(spec_value)]
    pub fn value(self) -> (r: u32)
        ensures
            r == self.spec_value(),
    {
        match self {
            fuse_opcode::FUSE_LOOKUP => 1,
            fuse_opcode::FUSE_FORGET => 2,
            fuse_opcode::FUSE_GETATTR => 3,
            fuse_opcode::FUSE_SETATTR => 4,
            fuse_opcode::FUSE_READLINK => 5,
            fuse_opcode::FUSE_SYMLINK => 6,
            fuse_opcode::FUSE_MKNOD => 8,
            fuse_opcode::FUSE_MKDIR => 9,
            fuse_opcode::FUSE_UNLINK => 10,
            fuse_opcode::FUSE_RMDIR => 11,
            fuse_opcode::FUSE_RENAME => 12,
            fuse_opcode::FUSE_LINK => 13,
            fuse_opcode::FUSE_OPEN => 14,
            fuse_opcode::FUSE_READ => 15,
            fuse_opcode::FUSE_WRITE => 16,
            fuse_opcode::FUSE_STATFS => 17,
            fuse_opcode::FUSE_RELEASE => 18,
            fuse_opcode::FUSE_FSYNC => 20,
            fuse_opcode::FUSE_SETXATTR => 21,
            fuse_opcode::FUSE_GETXATTR => 22,
            fuse_opcode::FUSE_LISTXATTR => 23,
            fuse_opcode::FUSE_REMOVEXATTR => 24,
            fuse_opcode::FUSE_FLUSH => 25,
            fuse_opcode::FUSE_INIT => 26,
            fuse_opcode::FUSE_OPENDIR => 27,
            fuse_opcode::FUSE_READDIR => 28,
            fuse_opcode::FUSE_RELEASEDIR => 29,
            fuse_opcode::FUSE_FSYNCDIR => 30,
            fuse_opcode::FUSE_GETLK => 31,
            fuse_opcode::FUSE_SETLK => 32,
            fuse_opcode::FUSE_SETLKW => 33,
            fuse_opcode::FUSE_ACCESS => 34,
            fuse_opcode::FUSE_CREATE => 35,
            fuse_opcode::FUSE_INTERRUPT => 36,
            fuse_opcode::FUSE_BMAP => 37,
            fuse_opcode::FUSE_DESTROY => 38,
            fuse_opcode::FUSE_IOCTL => 39,
            fuse_opcode::FUSE_POLL => 40,
            fuse_opcode::FUSE_NOTIFY_REPLY => 41,
            fuse_opcode::FUSE_BATCH_FORGET => 42,
            fuse_opcode::FUSE_FALLOCATE => 43,
            fuse_opcode::FUSE_READDIRPLUS => 44,
            fuse_opcode::FUSE_RENAME2 => 45,
            fuse_opcode::FUSE_LSEEK => 46,
            fuse_opcode::FUSE_COPY_FILE_RANGE => 47,
            fuse_opcode::FUSE_SYNCFS => 50,
            fuse_opcode::FUSE_TMPFILE => 51,
            fuse_opcode::FUSE_STATX => 52,
            fuse_opcode::FUSE_SETVOLNAME => 61,
            fuse_opcode::FUSE_GETXTIMES => 62,
            fuse_opcode::FUSE_EXCHANGE => 63,
            fuse_opcode::CUSE_INIT => 4096,
        }
    }

    /// The item with value `number`, on macOS; any number that is no value is handed back in the
    /// error.
    pub fn try_from_macos(number: u32) -> (r: Result<fuse_opcode, TryFromPrimitiveError>)
        ensures
            match r {
                Ok(x) => x.spec_value() == number,
                Err(e) => e.number == number && forall|x: fuse_opcode| x.spec_value() != number,
            },
    {
        match number {
            61 => Ok(fuse_opcode::FUSE_SETVOLNAME),
            62 => Ok(fuse_opcode::FUSE_GETXTIMES),
            63 => Ok(fuse_opcode::FUSE_EXCHANGE),
            _ => Self::try_from(number),
        }
    }

    /// The item with value `number`, elsewhere than on macOS; any number that is no value is
    /// handed back in the error.
    pub fn try_from(number: u32) -> (r: Result<fuse_opcode, TryFromPrimitiveError>)
        ensures
            match r {
                Ok(x) => x.spec_value() == number && !x.macos_only(),
                Err(e) => e.number == number && forall|x: fuse_opcode|
                    x.spec_value() == number ==> x.macos_only(),
            },
    {
        match number {
            1 => Ok(fuse_opcode::FUSE_LOOKUP),
            2 => Ok(fuse_opcode::FUSE_FORGET),
            3 => Ok(fuse_opcode::FUSE_GETATTR),
            4 => Ok(fuse_opcode::FUSE_SETATTR),
            5 => Ok(fuse_opcode::FUSE_READLINK),
            6 => Ok(fuse_opcode::FUSE_SYMLINK),
            8 => Ok(fuse_opcode::FUSE_MKNOD),
            9 => Ok(fuse_opcode::FUSE_MKDIR),
            10 => Ok(fuse_opcode::FUSE_UNLINK),
            11 => Ok(fuse_opcode::FUSE_RMDIR),
            12 => Ok(fuse_opcode::FUSE_RENAME),
            13 => Ok(fuse_opcode::FUSE_LINK),
            14 => Ok(fuse_opcode::FUSE_OPEN),
            15 => Ok(fuse_opcode::FUSE_READ),
            16 => Ok(fuse_opcode::FUSE_WRITE),
            17 => Ok(fuse_opcode::FUSE_STATFS),
            18 => Ok(fuse_opcode::FUSE_RELEASE),
            20 => Ok(fuse_opcode::FUSE_FSYNC),
            21 => Ok(fuse_opcode::FUSE_SETXATTR),
            22 => Ok(fuse_opcode::FUSE_GETXATTR),
            23 => Ok(fuse_opcode::FUSE_LISTXATTR),
            24 => Ok(fuse_opcode::FUSE_REMOVEXATTR),
            25 => Ok(fuse_opcode::FUSE_FLUSH),
            26 => Ok(fuse_opcode::FUSE_INIT),
            27 => Ok(fuse_opcode::FUSE_OPENDIR),
            28 => Ok(fuse_opcode::FUSE_READDIR),
            29 => Ok(fuse_opcode::FUSE_RELEASEDIR),
            30 => Ok(fuse_opcode::FUSE_FSYNCDIR),
            31 => Ok(fuse_opcode::FUSE_GETLK),
            32 => Ok(fuse_opcode::FUSE_SETLK),
            33 => Ok(fuse_opcode::FUSE_SETLKW),
            34 => Ok(fuse_opcode::FUSE_ACCESS),
            35 => Ok(fuse_opcode::FUSE_CREATE),
            36 => Ok(fuse_opcode::FUSE_INTERRUPT),
            37 => Ok(fuse_opcode::FUSE_BMAP),
            38 => Ok(fuse_opcode::FUSE_DESTROY),
            39 => Ok(fuse_opcode::FUSE_IOCTL),
            40 => Ok(fuse_opcode::FUSE_POLL),
            41 => Ok(fuse_opcode::FUSE_NOTIFY_REPLY),
            42 => Ok(fuse_opcode::FUSE_BATCH_FORGET),
            43 => Ok(fuse_opcode::FUSE_FALLOCATE),
            44 => Ok(fuse_opcode::FUSE_READDIRPLUS),
            45 => Ok(fuse_opcode::FUSE_RENAME2),
            46 => Ok(fuse_opcode::FUSE_LSEEK),
            47 => Ok(fuse_opcode::FUSE_COPY_FILE_RANGE),
            50 => Ok(fuse_opcode::FUSE_SYNCFS),
            51 => Ok(fuse_opcode::FUSE_TMPFILE),
            52 => Ok(fuse_opcode::FUSE_STATX),
            4096 => Ok(fuse_opcode::CUSE_INIT),
            _ => Err(TryFromPrimitiveError { number }),
        }
    }
}

/// What a notification to the kernel is about.
#[derive(Debug, Clone, Copy, PartialEq, Eq, Structural)]
pub enum fuse_notify_code {
    FUSE_POLL,
    FUSE_NOTIFY_INVAL_INODE,
    FUSE_NOTIFY_INVAL_ENTRY,
    FUSE_NOTIFY_STORE,
    FUSE_NOTIFY_RETRIEVE,
    FUSE_NOTIFY_DELETE,
    FUSE_NOTIFY_RESEND,
    FUSE_NOTIFY_INC_EPOCH,
}

impl fuse_notify_code {
    /// The value on the wire.
    pub open spec fn spec_value(self) -> u32 {
        match self {
            fuse_notify_code::FUSE_POLL => 1,
            fuse_notify_code::FUSE_NOTIFY_INVAL_INODE => 2,
            fuse_notify_code::FUSE_NOTIFY_INVAL_ENTRY => 3,
            fuse_notify_code::FUSE_NOTIFY_STORE => 4,
            fuse_notify_code::FUSE_NOTIFY_RETRIEVE => 5,
            fuse_notify_code::FUSE_NOTIFY_DELETE => 6,
            fuse_notify_code::FUSE_NOTIFY_RESEND => 7,
            fuse_notify_code::FUSE_NOTIFY_INC_EPOCH => 8,
        }
    }

    #[verifier::when_used_as_spec(spec_value)]
    pub fn value(self) -> (r: u32)
        ensures
            r == self.spec_value(),
    {
        match self {
            fuse_notify_code::FUSE_POLL => 1,
            fuse_notify_code::FUSE_NOTIFY_INVAL_INODE => 2,
            fuse_notify_code::FUSE_NOTIFY_INVAL_ENTRY => 3,
            fuse_notify_code::FUSE_NOTIFY_STORE => 4,
            fuse_notify_code::FUSE_NOTIFY_RETRIEVE => 5,
            fuse_notify_code::FUSE_NOTIFY_DELETE => 6,
            fuse_notify_code::FUSE_NOTIFY_RESEND => 7,
            fuse_notify_code::FUSE_NOTIFY_INC_EPOCH => 8,
        }
    }

    /// The item with value `number`; any number that is no value is handed back in the error.
    pub fn try_from(number: u32) -> (r: Result<fuse_notify_code, TryFromPrimitiveError>)
        ensures
            match r {
                Ok(x) => x.spec_value() == number,
                Err(e) => e.number == number && forall|x: fuse_notify_code| x.spec_value() != number,
            },
    {
        match number {
            1 => Ok(fuse_notify_code::FUSE_POLL),
            2 => Ok(fuse_notify_code::FUSE_NOTIFY_INVAL_INODE),
            3 => Ok(fuse_notify_code::FUSE_NOTIFY_INVAL_ENTRY),
            4 => Ok(fuse_notify_code::FUSE_NOTIFY_STORE),
            5 => Ok(fuse_notify_code::FUSE_NOTIFY_RETRIEVE),
            6 => Ok(fuse_notify_code::FUSE_NOTIFY_DELETE),
            7 => Ok(fuse_notify_code::FUSE_NOTIFY_RESEND),
            8 => Ok(fuse_notify_code::FUSE_NOTIFY_INC_EPOCH),
            _ => Err(TryFromPrimitiveError { number }),
        }
    }
}

/// The unsigned 64-bit value with the same two's complement representation as `x`.
pub open spec fn as_unsigned_64(x: i64) -> nat {
    if x >= 0 {
        x as nat
    } else {
        (x + 0x1_0000_0000_0000_0000) as nat
    }
}

/// The bytes of some `u32`s, one after the other.
pub open spec fn words_bytes(words: Seq<u32>) -> Seq<u8>
    decreases words.len(),
{
    if words.len() == 0 {
        Seq::empty()
    } else {
        words_bytes(words.drop_last()) + bytes::ne_bytes(words.last() as nat, 4)
    }
}

proof fn lemma_words_len(words: Seq<u32>)
    ensures
        words_bytes(words).len() == 4 * words.len(),
    decreases words.len(),
{
    if words.len() > 0 {
        lemma_words_len(words.drop_last());
        bytes::lemma_ne_bytes_len(words.last() as nat, 4);
    }
}

impl fuse_setattr_in {
    /// The bytes of the structure, fields in declaration order.
    pub open spec fn spec_bytes(self) -> Seq<u8> {
        bytes::ne_bytes(self.valid as nat, 4)
            + bytes::ne_bytes(self.padding as nat, 4)
            + bytes::ne_bytes(self.fh as nat, 8)
            + bytes::ne_bytes(self.size as nat, 8)
            + bytes::ne_bytes(self.lock_owner as nat, 8)
            + bytes::ne_bytes(as_unsigned_64(self.atime), 8)
            + bytes::ne_bytes(as_unsigned_64(self.mtime), 8)
            + bytes::ne_bytes(as_unsigned_64(self.ctime), 8)
            + bytes::ne_bytes(self.atimensec as nat, 4)
            + bytes::ne_bytes(self.mtimensec as nat, 4)
            + bytes::ne_bytes(self.ctimensec as nat, 4)
            + bytes::ne_bytes(self.mode as nat, 4)
            + bytes::ne_bytes(self.unused4 as nat, 4)
            + bytes::ne_bytes(self.uid as nat, 4)
            + bytes::ne_bytes(self.gid as nat, 4)
            + bytes::ne_bytes(self.unused5 as nat, 4)
    }

    /// The encoding always takes `FUSE_SETATTR_IN_SIZE` bytes.
    pub proof fn lemma_len(self)
        ensures
            self.spec_bytes().len() == FUSE_SETATTR_IN_SIZE,
    {
        bytes::lemma_ne_bytes_len(self.valid as nat, 4);
        bytes::lemma_ne_bytes_len(self.padding as nat, 4);
        bytes::lemma_ne_bytes_len(self.fh as nat, 8);
        bytes::lemma_ne_bytes_len(self.size as nat, 8);
        bytes::lemma_ne_bytes_len(self.lock_owner as nat, 8);
        bytes::lemma_ne_bytes_len(as_unsigned_64(self.atime), 8);
        bytes::lemma_ne_bytes_len(as_unsigned_64(self.mtime), 8);
        bytes::lemma_ne_bytes_len(as_unsigned_64(self.ctime), 8);
        bytes::lemma_ne_bytes_len(self.atimensec as nat, 4);
        bytes::lemma_ne_bytes_len(self.mtimensec as nat, 4);
        bytes::lemma_ne_bytes_len(self.ctimensec as nat, 4);
        bytes::lemma_ne_bytes_len(self.mode as nat, 4);
        bytes::lemma_ne_bytes_len(self.unused4 as nat, 4);
        bytes::lemma_ne_bytes_len(self.uid as nat, 4);
        bytes::lemma_ne_bytes_len(self.gid as nat, 4);
        bytes::lemma_ne_bytes_len(self.unused5 as nat, 4);
    }
}

impl fuse_setattr_in_macos {
    /// The bytes of the structure, fields in declaration order.
    pub open spec fn spec_bytes(self) -> Seq<u8> {
        self.common.spec_bytes()
            + bytes::ne_bytes(self.bkuptime as nat, 8)
            + bytes::ne_bytes(self.chgtime as nat, 8)
            + bytes::ne_bytes(self.crtime as nat, 8)
            + bytes::ne_bytes(self.bkuptimensec as nat, 4)
            + bytes::ne_bytes(self.chgtimensec as nat, 4)
            + bytes::ne_bytes(self.crtimensec as nat, 4)
            + bytes::ne_bytes(self.flags as nat, 4)
    }

    /// The encoding always takes `FUSE_SETATTR_IN_SIZE_MACOS` bytes.
    pub proof fn lemma_len(self)
        ensures
            self.spec_bytes().len() == FUSE_SETATTR_IN_SIZE_MACOS,
    {
        self.common.lemma_len();
        bytes::lemma_ne_bytes_len(self.bkuptime as nat, 8);
        bytes::lemma_ne_bytes_len(self.chgtime as nat, 8);
        bytes::lemma_ne_bytes_len(self.crtime as nat, 8);
        bytes::lemma_ne_bytes_len(self.bkuptimensec as nat, 4);
        bytes::lemma_ne_bytes_len(self.chgtimensec as nat, 4);
        bytes::lemma_ne_bytes_len(self.crtimensec as nat, 4);
        bytes::lemma_ne_bytes_len(self.flags as nat, 4);
    }
}

/// A file lock.
#[derive(Debug, Clone, Copy, PartialEq, Eq, Structural)]
pub struct fuse_file_lock {
    pub start: u64,
    pub end: u64,
    pub typ: i32,
    pub pid: u32,
}

impl fuse_file_lock {
    /// The bytes of the structure, fields in declaration order.
    pub open spec fn spec_bytes(self) -> Seq<u8> {
        bytes::ne_bytes(self.start as nat, 8)
            + bytes::ne_bytes(self.end as nat, 8)
            + bytes::ne_bytes(as_unsigned(self.typ), 4)
            + bytes::ne_bytes(self.pid as nat, 4)
    }

    /// The encoding always takes `FUSE_FILE_LOCK_SIZE` bytes.
    pub proof fn lemma_len(self)
        ensures
            self.spec_bytes().len() == FUSE_FILE_LOCK_SIZE,
    {
        bytes::lemma_ne_bytes_len(self.start as nat, 8);
        bytes::lemma_ne_bytes_len(self.end as nat, 8);
        bytes::lemma_ne_bytes_len(as_unsigned(self.typ), 4);
        bytes::lemma_ne_bytes_len(self.pid as nat, 4);
    }
}

/// What the kernel offers in `FUSE_INIT`.
#[derive(Debug, Clone, Copy)]
pub struct fuse_init_in {
    pub major: u32,
    pub minor: u32,
    pub max_readahead: u32,
    pub flags: u32,
    pub flags2: u32,
    pub unused: [u32; 11],
}

impl fuse_init_in {
    /// The bytes of the structure, fields in declaration order.
    pub open spec fn spec_bytes(self) -> Seq<u8> {
        bytes::ne_bytes(self.major as nat, 4)
            + bytes::ne_bytes(self.minor as nat, 4)
            + bytes::ne_bytes(self.max_readahead as nat, 4)
            + bytes::ne_bytes(self.flags as nat, 4)
            + bytes::ne_bytes(self.flags2 as nat, 4)
            + words_bytes(self.unused@)
    }

    /// The encoding always takes `FUSE_INIT_IN_SIZE` bytes.
    pub proof fn lemma_len(self)
        ensures
            self.spec_bytes().len() == FUSE_INIT_IN_SIZE,
    {
        bytes::lemma_ne_bytes_len(self.major as nat, 4);
        bytes::lemma_ne_bytes_len(self.minor as nat, 4);
        bytes::lemma_ne_bytes_len(self.max_readahead as nat, 4);
        bytes::lemma_ne_bytes_len(self.flags as nat, 4);
        bytes::lemma_ne_bytes_len(self.flags2 as nat, 4);
        lemma_words_len(self.unused@);
    }
}

/// How many lookups `FUSE_FORGET` takes back.
#[derive(Debug, Clone, Copy, PartialEq, Eq, Structural)]
pub struct fuse_forget_in {
    pub nlookup: u64,
}

impl fuse_forget_in {
    /// The bytes of the structure, fields in declaration order.
    pub open spec fn spec_bytes(self) -> Seq<u8> {
        bytes::ne_bytes(self.nlookup as nat, 8)
    }

    /// The encoding always takes `FUSE_FORGET_IN_SIZE` bytes.
    pub proof fn lemma_len(self)
        ensures
            self.spec_bytes().len() == FUSE_FORGET_IN_SIZE,
    {
        bytes::lemma_ne_bytes_len(self.nlookup as nat, 8);
    }
}

/// How many nodes `FUSE_BATCH_FORGET` names.
#[derive(Debug, Clone, Copy, PartialEq, Eq, Structural)]
pub struct fuse_batch_forget_in {
    pub count: u32,
    pub dummy: u32,
}

impl fuse_batch_forget_in {
    /// The bytes of the structure, fields in declaration order.
    pub open spec fn spec_bytes(self) -> Seq<u8> {
        bytes::ne_bytes(self.count as nat, 4)
            + bytes::ne_bytes(self.dummy as nat, 4)
    }

    /// The encoding always takes `FUSE_BATCH_FORGET_IN_SIZE` bytes.
    pub proof fn lemma_len(self)
        ensures
            self.spec_bytes().len() == FUSE_BATCH_FORGET_IN_SIZE,
    {
        bytes::lemma_ne_bytes_len(self.count as nat, 4);
        bytes::lemma_ne_bytes_len(self.dummy as nat, 4);
    }
}

/// Whose attributes `FUSE_GETATTR` asks for.
#[derive(Debug, Clone, Copy, PartialEq, Eq, Structural)]
pub struct fuse_getattr_in {
    pub getattr_flags: u32,
    pub dummy: u32,
    pub fh: u64,
}

impl fuse_getattr_in {
    /// The bytes of the structure, fields in declaration order.
    pub open spec fn spec_bytes(self) -> Seq<u8> {
        bytes::ne_bytes(self.getattr_flags as nat, 4)
            + bytes::ne_bytes(self.dummy as nat, 4)
            + bytes::ne_bytes(self.fh as nat, 8)
    }

    /// The encoding always takes `FUSE_GETATTR_IN_SIZE` bytes.
    pub proof fn lemma_len(self)
        ensures
            self.spec_bytes().len() == FUSE_GETATTR_IN_SIZE,
    {
        bytes::lemma_ne_bytes_len(self.getattr_flags as nat, 4);
        bytes::lemma_ne_bytes_len(self.dummy as nat, 4);
        bytes::lemma_ne_bytes_len(self.fh as nat, 8);
    }
}

/// The node that `FUSE_MKNOD` makes.
#[derive(Debug, Clone, Copy, PartialEq, Eq, Structural)]
pub struct fuse_mknod_in {
    pub mode: u32,
    pub rdev: u32,
    pub umask: u32,
    pub padding: u32,
}

impl fuse_mknod_in {
    /// The bytes of the structure, fields in declaration order.
    pub open spec fn spec_bytes(self) -> Seq<u8> {
        bytes::ne_bytes(self.mode as nat, 4)
            + bytes::ne_bytes(self.rdev as nat, 4)
            + bytes::ne_bytes(self.umask as nat, 4)
            + bytes::ne_bytes(self.padding as nat, 4)
    }

    /// The encoding always takes `FUSE_MKNOD_IN_SIZE` bytes.
    pub proof fn lemma_len(self)
        ensures
            self.spec_bytes().len() == FUSE_MKNOD_IN_SIZE,
    {
        bytes::lemma_ne_bytes_len(self.mode as nat, 4);
        bytes::lemma_ne_bytes_len(self.rdev as nat, 4);
        bytes::lemma_ne_bytes_len(self.umask as nat, 4);
        bytes::lemma_ne_bytes_len(self.padding as nat, 4);
    }
}

/// The directory that `FUSE_MKDIR` makes.
#[derive(Debug, Clone, Copy, PartialEq, Eq, Structural)]
pub struct fuse_mkdir_in {
    pub mode: u32,
    pub umask: u32,
}

impl fuse_mkdir_in {
    /// The bytes of the structure, fields in declaration order.
    pub open spec fn spec_bytes(self) -> Seq<u8> {
        bytes::ne_bytes(self.mode as nat, 4)
            + bytes::ne_bytes(self.umask as nat, 4)
    }

    /// The encoding always takes `FUSE_MKDIR_IN_SIZE` bytes.
    pub proof fn lemma_len(self)
        ensures
            self.spec_bytes().len() == FUSE_MKDIR_IN_SIZE,
    {
        bytes::lemma_ne_bytes_len(self.mode as nat, 4);
        bytes::lemma_ne_bytes_len(self.umask as nat, 4);
    }
}

/// Where `FUSE_RENAME` moves to.
#[derive(Debug, Clone, Copy, PartialEq, Eq, Structural)]
pub struct fuse_rename_in {
    pub newdir: u64,
}

impl fuse_rename_in {
    /// The bytes of the structure, fields in declaration order.
    pub open spec fn spec_bytes(self) -> Seq<u8> {
        bytes::ne_bytes(self.newdir as nat, 8)
    }

    /// The encoding always takes `FUSE_RENAME_IN_SIZE` bytes.
    pub proof fn lemma_len(self)
        ensures
            self.spec_bytes().len() == FUSE_RENAME_IN_SIZE,
    {
        bytes::lemma_ne_bytes_len(self.newdir as nat, 8);
    }
}

/// `fuse_rename_in` of macOS, with the flags of `renamex_np(2)`.
#[derive(Debug, Clone, Copy, PartialEq, Eq, Structural)]
pub struct fuse_rename_in_macos {
    pub newdir: u64,
    pub flags: u32,
    pub padding: u32,
}

impl fuse_rename_in_macos {
    /// The bytes of the structure, fields in declaration order.
    pub open spec fn spec_bytes(self) -> Seq<u8> {
        bytes::ne_bytes(self.newdir as nat, 8)
            + bytes::ne_bytes(self.flags as nat, 4)
            + bytes::ne_bytes(self.padding as nat, 4)
    }

    /// The encoding always takes `FUSE_RENAME_IN_SIZE_MACOS` bytes.
    pub proof fn lemma_len(self)
        ensures
            self.spec_bytes().len() == FUSE_RENAME_IN_SIZE_MACOS,
    {
        bytes::lemma_ne_bytes_len(self.newdir as nat, 8);
        bytes::lemma_ne_bytes_len(self.flags as nat, 4);
        bytes::lemma_ne_bytes_len(self.padding as nat, 4);
    }
}

/// Where `FUSE_RENAME2` moves to, and how.
#[derive(Debug, Clone, Copy, PartialEq, Eq, Structural)]
pub struct fuse_rename2_in {
    pub newdir: u64,
    pub flags: u32,
    pub padding: u32,
}

impl fuse_rename2_in {
    /// The bytes of the structure, fields in declaration order.
    pub open spec fn spec_bytes(self) -> Seq<u8> {
        bytes::ne_bytes(self.newdir as nat, 8)
            + bytes::ne_bytes(self.flags as nat, 4)
            + bytes::ne_bytes(self.padding as nat, 4)
    }

    /// The encoding always takes `FUSE_RENAME2_IN_SIZE` bytes.
    pub proof fn lemma_len(self)
        ensures
            self.spec_bytes().len() == FUSE_RENAME2_IN_SIZE,
    {
        bytes::lemma_ne_bytes_len(self.newdir as nat, 8);
        bytes::lemma_ne_bytes_len(self.flags as nat, 4);
        bytes::lemma_ne_bytes_len(self.padding as nat, 4);
    }
}

/// The node that `FUSE_LINK` links to.
#[derive(Debug, Clone, Copy, PartialEq, Eq, Structural)]
pub struct fuse_link_in {
    pub oldnodeid: u64,
}

impl fuse_link_in {
    /// The bytes of the structure, fields in declaration order.
    pub open spec fn spec_bytes(self) -> Seq<u8> {
        bytes::ne_bytes(self.oldnodeid as nat, 8)
    }

    /// The encoding always takes `FUSE_LINK_IN_SIZE` bytes.
    pub proof fn lemma_len(self)
        ensures
            self.spec_bytes().len() == FUSE_LINK_IN_SIZE,
    {
        bytes::lemma_ne_bytes_len(self.oldnodeid as nat, 8);
    }
}

/// How `FUSE_OPEN` and `FUSE_OPENDIR` open.
#[derive(Debug, Clone, Copy, PartialEq, Eq, Structural)]
pub struct fuse_open_in {
    pub flags: i32,
    pub open_flags: u32,
}

impl fuse_open_in {
    /// The bytes of the structure, fields in declaration order.
    pub open spec fn spec_bytes(self) -> Seq<u8> {
        bytes::ne_bytes(as_unsigned(self.flags), 4)
            + bytes::ne_bytes(self.open_flags as nat, 4)
    }

    /// The encoding always takes `FUSE_OPEN_IN_SIZE` bytes.
    pub proof fn lemma_len(self)
        ensures
            self.spec_bytes().len() == FUSE_OPEN_IN_SIZE,
    {
        bytes::lemma_ne_bytes_len(as_unsigned(self.flags), 4);
        bytes::lemma_ne_bytes_len(self.open_flags as nat, 4);
    }
}

/// The file that `FUSE_CREATE` makes, and how it is opened.
#[derive(Debug, Clone, Copy, PartialEq, Eq, Structural)]
pub struct fuse_create_in {
    pub flags: i32,
    pub mode: u32,
    pub umask: u32,
    pub open_flags: u32,
}

impl fuse_create_in {
    /// The bytes of the structure, fields in declaration order.
    pub open spec fn spec_bytes(self) -> Seq<u8> {
        bytes::ne_bytes(as_unsigned(self.flags), 4)
            + bytes::ne_bytes(self.mode as nat, 4)
            + bytes::ne_bytes(self.umask as nat, 4)
            + bytes::ne_bytes(self.open_flags as nat, 4)
    }

    /// The encoding always takes `FUSE_CREATE_IN_SIZE` bytes.
    pub proof fn lemma_len(self)
        ensures
            self.spec_bytes().len() == FUSE_CREATE_IN_SIZE,
    {
        bytes::lemma_ne_bytes_len(as_unsigned(self.flags), 4);
        bytes::lemma_ne_bytes_len(self.mode as nat, 4);
        bytes::lemma_ne_bytes_len(self.umask as nat, 4);
        bytes::lemma_ne_bytes_len(self.open_flags as nat, 4);
    }
}

/// What `FUSE_RELEASE` and `FUSE_RELEASEDIR` close.
#[derive(Debug, Clone, Copy, PartialEq, Eq, Structural)]
pub struct fuse_release_in {
    pub fh: u64,
    pub flags: i32,
    pub release_flags: u32,
    pub lock_owner: u64,
}

impl fuse_release_in {
    /// The bytes of the structure, fields in declaration order.
    pub open spec fn spec_bytes(self) -> Seq<u8> {
        bytes::ne_bytes(self.fh as nat, 8)
            + bytes::ne_bytes(as_unsigned(self.flags), 4)
            + bytes::ne_bytes(self.release_flags as nat, 4)
            + bytes::ne_bytes(self.lock_owner as nat, 8)
    }

    /// The encoding always takes `FUSE_RELEASE_IN_SIZE` bytes.
    pub proof fn lemma_len(self)
        ensures
            self.spec_bytes().len() == FUSE_RELEASE_IN_SIZE,
    {
        bytes::lemma_ne_bytes_len(self.fh as nat, 8);
        bytes::lemma_ne_bytes_len(as_unsigned(self.flags), 4);
        bytes::lemma_ne_bytes_len(self.release_flags as nat, 4);
        bytes::lemma_ne_bytes_len(self.lock_owner as nat, 8);
    }
}

/// What `FUSE_FLUSH` flushes.
#[derive(Debug, Clone, Copy, PartialEq, Eq, Structural)]
pub struct fuse_flush_in {
    pub fh: u64,
    pub unused: u32,
    pub padding: u32,
    pub lock_owner: u64,
}

impl fuse_flush_in {
    /// The bytes of the structure, fields in declaration order.
    pub open spec fn spec_bytes(self) -> Seq<u8> {
        bytes::ne_bytes(self.fh as nat, 8)
            + bytes::ne_bytes(self.unused as nat, 4)
            + bytes::ne_bytes(self.padding as nat, 4)
            + bytes::ne_bytes(self.lock_owner as nat, 8)
    }

    /// The encoding always takes `FUSE_FLUSH_IN_SIZE` bytes.
    pub proof fn lemma_len(self)
        ensures
            self.spec_bytes().len() == FUSE_FLUSH_IN_SIZE,
    {
        bytes::lemma_ne_bytes_len(self.fh as nat, 8);
        bytes::lemma_ne_bytes_len(self.unused as nat, 4);
        bytes::lemma_ne_bytes_len(self.padding as nat, 4);
        bytes::lemma_ne_bytes_len(self.lock_owner as nat, 8);
    }
}

/// What `FUSE_READ` and the reads of directories ask for.
#[derive(Debug, Clone, Copy, PartialEq, Eq, Structural)]
pub struct fuse_read_in {
    pub fh: u64,
    pub offset: u64,
    pub size: u32,
    pub read_flags: u32,
    pub lock_owner: u64,
    pub flags: i32,
    pub padding: u32,
}

impl fuse_read_in {
    /// The bytes of the structure, fields in declaration order.
    pub open spec fn spec_bytes(self) -> Seq<u8> {
        bytes::ne_bytes(self.fh as nat, 8)
            + bytes::ne_bytes(self.offset as nat, 8)
            + bytes::ne_bytes(self.size as nat, 4)
            + bytes::ne_bytes(self.read_flags as nat, 4)
            + bytes::ne_bytes(self.lock_owner as nat, 8)
            + bytes::ne_bytes(as_unsigned(self.flags), 4)
            + bytes::ne_bytes(self.padding as nat, 4)
    }

    /// The encoding always takes `FUSE_READ_IN_SIZE` bytes.
    pub proof fn lemma_len(self)
        ensures
            self.spec_bytes().len() == FUSE_READ_IN_SIZE,
    {
        bytes::lemma_ne_bytes_len(self.fh as nat, 8);
        bytes::lemma_ne_bytes_len(self.offset as nat, 8);
        bytes::lemma_ne_bytes_len(self.size as nat, 4);
        bytes::lemma_ne_bytes_len(self.read_flags as nat, 4);
        bytes::lemma_ne_bytes_len(self.lock_owner as nat, 8);
        bytes::lemma_ne_bytes_len(as_unsigned(self.flags), 4);
        bytes::lemma_ne_bytes_len(self.padding as nat, 4);
    }
}

/// Where `FUSE_WRITE` writes the data that follows.
#[derive(Debug, Clone, Copy, PartialEq, Eq, Structural)]
pub struct fuse_write_in {
    pub fh: u64,
    pub offset: i64,
    pub size: u32,
    pub write_flags: u32,
    pub lock_owner: u64,
    pub flags: i32,
    pub padding: u32,
}

impl fuse_write_in {
    /// The bytes of the structure, fields in declaration order.
    pub open spec fn spec_bytes(self) -> Seq<u8> {
        bytes::ne_bytes(self.fh as nat, 8)
            + bytes::ne_bytes(as_unsigned_64(self.offset), 8)
            + bytes::ne_bytes(self.size as nat, 4)
            + bytes::ne_bytes(self.write_flags as nat, 4)
            + bytes::ne_bytes(self.lock_owner as nat, 8)
            + bytes::ne_bytes(as_unsigned(self.flags), 4)
            + bytes::ne_bytes(self.padding as nat, 4)
    }

    /// The encoding always takes `FUSE_WRITE_IN_SIZE` bytes.
    pub proof fn lemma_len(self)
        ensures
            self.spec_bytes().len() == FUSE_WRITE_IN_SIZE,
    {
        bytes::lemma_ne_bytes_len(self.fh as nat, 8);
        bytes::lemma_ne_bytes_len(as_unsigned_64(self.offset), 8);
        bytes::lemma_ne_bytes_len(self.size as nat, 4);
        bytes::lemma_ne_bytes_len(self.write_flags as nat, 4);
        bytes::lemma_ne_bytes_len(self.lock_owner as nat, 8);
        bytes::lemma_ne_bytes_len(as_unsigned(self.flags), 4);
        bytes::lemma_ne_bytes_len(self.padding as nat, 4);
    }
}

/// What `FUSE_FSYNC` and `FUSE_FSYNCDIR` bring to disk.
#[derive(Debug, Clone, Copy, PartialEq, Eq, Structural)]
pub struct fuse_fsync_in {
    pub fh: u64,
    pub fsync_flags: u32,
    pub padding: u32,
}

impl fuse_fsync_in {
    /// The bytes of the structure, fields in declaration order.
    pub open spec fn spec_bytes(self) -> Seq<u8> {
        bytes::ne_bytes(self.fh as nat, 8)
            + bytes::ne_bytes(self.fsync_flags as nat, 4)
            + bytes::ne_bytes(self.padding as nat, 4)
    }

    /// The encoding always takes `FUSE_FSYNC_IN_SIZE` bytes.
    pub proof fn lemma_len(self)
        ensures
            self.spec_bytes().len() == FUSE_FSYNC_IN_SIZE,
    {
        bytes::lemma_ne_bytes_len(self.fh as nat, 8);
        bytes::lemma_ne_bytes_len(self.fsync_flags as nat, 4);
        bytes::lemma_ne_bytes_len(self.padding as nat, 4);
    }
}

/// How `FUSE_SETXATTR` sets the value that follows.
#[derive(Debug, Clone, Copy, PartialEq, Eq, Structural)]
pub struct fuse_setxattr_in {
    pub size: u32,
    pub flags: i32,
}

impl fuse_setxattr_in {
    /// The bytes of the structure, fields in declaration order.
    pub open spec fn spec_bytes(self) -> Seq<u8> {
        bytes::ne_bytes(self.size as nat, 4)
            + bytes::ne_bytes(as_unsigned(self.flags), 4)
    }

    /// The encoding always takes `FUSE_SETXATTR_IN_SIZE` bytes.
    pub proof fn lemma_len(self)
        ensures
            self.spec_bytes().len() == FUSE_SETXATTR_IN_SIZE,
    {
        bytes::lemma_ne_bytes_len(self.size as nat, 4);
        bytes::lemma_ne_bytes_len(as_unsigned(self.flags), 4);
    }
}

/// `fuse_setxattr_in` of macOS, with a position.
#[derive(Debug, Clone, Copy, PartialEq, Eq, Structural)]
pub struct fuse_setxattr_in_macos {
    pub size: u32,
    pub flags: i32,
    pub position: u32,
    pub padding: u32,
}

impl fuse_setxattr_in_macos {
    /// The bytes of the structure, fields in declaration order.
    pub open spec fn spec_bytes(self) -> Seq<u8> {
        bytes::ne_bytes(self.size as nat, 4)
            + bytes::ne_bytes(as_unsigned(self.flags), 4)
            + bytes::ne_bytes(self.position as nat, 4)
            + bytes::ne_bytes(self.padding as nat, 4)
    }

    /// The encoding always takes `FUSE_SETXATTR_IN_SIZE_MACOS` bytes.
    pub proof fn lemma_len(self)
        ensures
            self.spec_bytes().len() == FUSE_SETXATTR_IN_SIZE_MACOS,
    {
        bytes::lemma_ne_bytes_len(self.size as nat, 4);
        bytes::lemma_ne_bytes_len(as_unsigned(self.flags), 4);
        bytes::lemma_ne_bytes_len(self.position as nat, 4);
        bytes::lemma_ne_bytes_len(self.padding as nat, 4);
    }
}

/// Tail of the extended `fuse_setxattr_in`, which the kernel appends once that was negotiated, but
/// never on macOS.
#[derive(Debug, Clone, Copy, PartialEq, Eq, Structural)]
pub struct fuse_setxattr_in_ext {
    pub setxattr_flags: u32,
    pub padding: u32,
}

impl fuse_setxattr_in_ext {
    /// The bytes of the structure, fields in declaration order.
    pub open spec fn spec_bytes(self) -> Seq<u8> {
        bytes::ne_bytes(self.setxattr_flags as nat, 4)
            + bytes::ne_bytes(self.padding as nat, 4)
    }

    /// The encoding always takes `FUSE_SETXATTR_IN_EXT_SIZE` bytes.
    pub proof fn lemma_len(self)
        ensures
            self.spec_bytes().len() == FUSE_SETXATTR_IN_EXT_SIZE,
    {
        bytes::lemma_ne_bytes_len(self.setxattr_flags as nat, 4);
        bytes::lemma_ne_bytes_len(self.padding as nat, 4);
    }
}

/// How much `FUSE_GETXATTR` and `FUSE_LISTXATTR` have room for.
#[derive(Debug, Clone, Copy, PartialEq, Eq, Structural)]
pub struct fuse_getxattr_in {
    pub size: u32,
    pub padding: u32,
}

impl fuse_getxattr_in {
    /// The bytes of the structure, fields in declaration order.
    pub open spec fn spec_bytes(self) -> Seq<u8> {
        bytes::ne_bytes(self.size as nat, 4)
            + bytes::ne_bytes(self.padding as nat, 4)
    }

    /// The encoding always takes `FUSE_GETXATTR_IN_SIZE` bytes.
    pub proof fn lemma_len(self)
        ensures
            self.spec_bytes().len() == FUSE_GETXATTR_IN_SIZE,
    {
        bytes::lemma_ne_bytes_len(self.size as nat, 4);
        bytes::lemma_ne_bytes_len(self.padding as nat, 4);
    }
}

/// `fuse_getxattr_in` of macOS, with a position.
#[derive(Debug, Clone, Copy, PartialEq, Eq, Structural)]
pub struct fuse_getxattr_in_macos {
    pub size: u32,
    pub padding: u32,
    pub position: u32,
    pub padding2: u32,
}

impl fuse_getxattr_in_macos {
    /// The bytes of the structure, fields in declaration order.
    pub open spec fn spec_bytes(self) -> Seq<u8> {
        bytes::ne_bytes(self.size as nat, 4)
            + bytes::ne_bytes(self.padding as nat, 4)
            + bytes::ne_bytes(self.position as nat, 4)
            + bytes::ne_bytes(self.padding2 as nat, 4)
    }

    /// The encoding always takes `FUSE_GETXATTR_IN_SIZE_MACOS` bytes.
    pub proof fn lemma_len(self)
        ensures
            self.spec_bytes().len() == FUSE_GETXATTR_IN_SIZE_MACOS,
    {
        bytes::lemma_ne_bytes_len(self.size as nat, 4);
        bytes::lemma_ne_bytes_len(self.padding as nat, 4);
        bytes::lemma_ne_bytes_len(self.position as nat, 4);
        bytes::lemma_ne_bytes_len(self.padding2 as nat, 4);
    }
}

/// The lock that `FUSE_GETLK`, `FUSE_SETLK` and `FUSE_SETLKW` are about.
#[derive(Debug, Clone, Copy, PartialEq, Eq, Structural)]
pub struct fuse_lk_in {
    pub fh: u64,
    pub owner: u64,
    pub lk: fuse_file_lock,
    pub lk_flags: u32,
    pub padding: u32,
}

impl fuse_lk_in {
    /// The bytes of the structure, fields in declaration order.
    pub open spec fn spec_bytes(self) -> Seq<u8> {
        bytes::ne_bytes(self.fh as nat, 8)
            + bytes::ne_bytes(self.owner as nat, 8)
            + self.lk.spec_bytes()
            + bytes::ne_bytes(self.lk_flags as nat, 4)
            + bytes::ne_bytes(self.padding as nat, 4)
    }

    /// The encoding always takes `FUSE_LK_IN_SIZE` bytes.
    pub proof fn lemma_len(self)
        ensures
            self.spec_bytes().len() == FUSE_LK_IN_SIZE,
    {
        bytes::lemma_ne_bytes_len(self.fh as nat, 8);
        bytes::lemma_ne_bytes_len(self.owner as nat, 8);
        self.lk.lemma_len();
        bytes::lemma_ne_bytes_len(self.lk_flags as nat, 4);
        bytes::lemma_ne_bytes_len(self.padding as nat, 4);
    }
}

/// The access that `FUSE_ACCESS` checks.
#[derive(Debug, Clone, Copy, PartialEq, Eq, Structural)]
pub struct fuse_access_in {
    pub mask: i32,
    pub padding: u32,
}

impl fuse_access_in {
    /// The bytes of the structure, fields in declaration order.
    pub open spec fn spec_bytes(self) -> Seq<u8> {
        bytes::ne_bytes(as_unsigned(self.mask), 4)
            + bytes::ne_bytes(self.padding as nat, 4)
    }

    /// The encoding always takes `FUSE_ACCESS_IN_SIZE` bytes.
    pub proof fn lemma_len(self)
        ensures
            self.spec_bytes().len() == FUSE_ACCESS_IN_SIZE,
    {
        bytes::lemma_ne_bytes_len(as_unsigned(self.mask), 4);
        bytes::lemma_ne_bytes_len(self.padding as nat, 4);
    }
}

/// The request that `FUSE_INTERRUPT` interrupts.
#[derive(Debug, Clone, Copy, PartialEq, Eq, Structural)]
pub struct fuse_interrupt_in {
    pub unique: u64,
}

impl fuse_interrupt_in {
    /// The bytes of the structure, fields in declaration order.
    pub open spec fn spec_bytes(self) -> Seq<u8> {
        bytes::ne_bytes(self.unique as nat, 8)
    }

    /// The encoding always takes `FUSE_INTERRUPT_IN_SIZE` bytes.
    pub proof fn lemma_len(self)
        ensures
            self.spec_bytes().len() == FUSE_INTERRUPT_IN_SIZE,
    {
        bytes::lemma_ne_bytes_len(self.unique as nat, 8);
    }
}

/// The block that `FUSE_BMAP` maps.
#[derive(Debug, Clone, Copy, PartialEq, Eq, Structural)]
pub struct fuse_bmap_in {
    pub block: u64,
    pub blocksize: u32,
    pub padding: u32,
}

impl fuse_bmap_in {
    /// The bytes of the structure, fields in declaration order.
    pub open spec fn spec_bytes(self) -> Seq<u8> {
        bytes::ne_bytes(self.block as nat, 8)
            + bytes::ne_bytes(self.blocksize as nat, 4)
            + bytes::ne_bytes(self.padding as nat, 4)
    }

    /// The encoding always takes `FUSE_BMAP_IN_SIZE` bytes.
    pub proof fn lemma_len(self)
        ensures
            self.spec_bytes().len() == FUSE_BMAP_IN_SIZE,
    {
        bytes::lemma_ne_bytes_len(self.block as nat, 8);
        bytes::lemma_ne_bytes_len(self.blocksize as nat, 4);
        bytes::lemma_ne_bytes_len(self.padding as nat, 4);
    }
}

/// The command of `FUSE_IOCTL`.
#[derive(Debug, Clone, Copy, PartialEq, Eq, Structural)]
pub struct fuse_ioctl_in {
    pub fh: u64,
    pub flags: u32,
    pub cmd: u32,
    pub arg: u64,
    pub in_size: u32,
    pub out_size: u32,
}

impl fuse_ioctl_in {
    /// The bytes of the structure, fields in declaration order.
    pub open spec fn spec_bytes(self) -> Seq<u8> {
        bytes::ne_bytes(self.fh as nat, 8)
            + bytes::ne_bytes(self.flags as nat, 4)
            + bytes::ne_bytes(self.cmd as nat, 4)
            + bytes::ne_bytes(self.arg as nat, 8)
            + bytes::ne_bytes(self.in_size as nat, 4)
            + bytes::ne_bytes(self.out_size as nat, 4)
    }

    /// The encoding always takes `FUSE_IOCTL_IN_SIZE` bytes.
    pub proof fn lemma_len(self)
        ensures
            self.spec_bytes().len() == FUSE_IOCTL_IN_SIZE,
    {
        bytes::lemma_ne_bytes_len(self.fh as nat, 8);
        bytes::lemma_ne_bytes_len(self.flags as nat, 4);
        bytes::lemma_ne_bytes_len(self.cmd as nat, 4);
        bytes::lemma_ne_bytes_len(self.arg as nat, 8);
        bytes::lemma_ne_bytes_len(self.in_size as nat, 4);
        bytes::lemma_ne_bytes_len(self.out_size as nat, 4);
    }
}

/// The events that `FUSE_POLL` waits for.
#[derive(Debug, Clone, Copy, PartialEq, Eq, Structural)]
pub struct fuse_poll_in {
    pub fh: u64,
    pub kh: u64,
    pub flags: u32,
    pub events: u32,
}

impl fuse_poll_in {
    /// The bytes of the structure, fields in declaration order.
    pub open spec fn spec_bytes(self) -> Seq<u8> {
        bytes::ne_bytes(self.fh as nat, 8)
            + bytes::ne_bytes(self.kh as nat, 8)
            + bytes::ne_bytes(self.flags as nat, 4)
            + bytes::ne_bytes(self.events as nat, 4)
    }

    /// The encoding always takes `FUSE_POLL_IN_SIZE` bytes.
    pub proof fn lemma_len(self)
        ensures
            self.spec_bytes().len() == FUSE_POLL_IN_SIZE,
    {
        bytes::lemma_ne_bytes_len(self.fh as nat, 8);
        bytes::lemma_ne_bytes_len(self.kh as nat, 8);
        bytes::lemma_ne_bytes_len(self.flags as nat, 4);
        bytes::lemma_ne_bytes_len(self.events as nat, 4);
    }
}

/// The range that `FUSE_FALLOCATE` allocates.
#[derive(Debug, Clone, Copy, PartialEq, Eq, Structural)]
pub struct fuse_fallocate_in {
    pub fh: u64,
    pub offset: u64,
    pub length: u64,
    pub mode: i32,
    pub padding: u32,
}

impl fuse_fallocate_in {
    /// The bytes of the structure, fields in declaration order.
    pub open spec fn spec_bytes(self) -> Seq<u8> {
        bytes::ne_bytes(self.fh as nat, 8)
            + bytes::ne_bytes(self.offset as nat, 8)
            + bytes::ne_bytes(self.length as nat, 8)
            + bytes::ne_bytes(as_unsigned(self.mode), 4)
            + bytes::ne_bytes(self.padding as nat, 4)
    }

    /// The encoding always takes `FUSE_FALLOCATE_IN_SIZE` bytes.
    pub proof fn lemma_len(self)
        ensures
            self.spec_bytes().len() == FUSE_FALLOCATE_IN_SIZE,
    {
        bytes::lemma_ne_bytes_len(self.fh as nat, 8);
        bytes::lemma_ne_bytes_len(self.offset as nat, 8);
        bytes::lemma_ne_bytes_len(self.length as nat, 8);
        bytes::lemma_ne_bytes_len(as_unsigned(self.mode), 4);
        bytes::lemma_ne_bytes_len(self.padding as nat, 4);
    }
}

/// Where `FUSE_LSEEK` seeks to.
#[derive(Debug, Clone, Copy, PartialEq, Eq, Structural)]
pub struct fuse_lseek_in {
    pub fh: u64,
    pub offset: i64,
    pub whence: i32,
    pub padding: u32,
}

impl fuse_lseek_in {
    /// The bytes of the structure, fields in declaration order.
    pub open spec fn spec_bytes(self) -> Seq<u8> {
        bytes::ne_bytes(self.fh as nat, 8)
            + bytes::ne_bytes(as_unsigned_64(self.offset), 8)
            + bytes::ne_bytes(as_unsigned(self.whence), 4)
            + bytes::ne_bytes(self.padding as nat, 4)
    }

    /// The encoding always takes `FUSE_LSEEK_IN_SIZE` bytes.
    pub proof fn lemma_len(self)
        ensures
            self.spec_bytes().len() == FUSE_LSEEK_IN_SIZE,
    {
        bytes::lemma_ne_bytes_len(self.fh as nat, 8);
        bytes::lemma_ne_bytes_len(as_unsigned_64(self.offset), 8);
        bytes::lemma_ne_bytes_len(as_unsigned(self.whence), 4);
        bytes::lemma_ne_bytes_len(self.padding as nat, 4);
    }
}

/// The ranges that `FUSE_COPY_FILE_RANGE` copies between.
#[derive(Debug, Clone, Copy, PartialEq, Eq, Structural)]
pub struct fuse_copy_file_range_in {
    pub fh_in: u64,
    pub off_in: i64,
    pub nodeid_out: u64,
    pub fh_out: u64,
    pub off_out: i64,
    pub len: u64,
    pub flags: u64,
}

impl fuse_copy_file_range_in {
    /// The bytes of the structure, fields in declaration order.
    pub open spec fn spec_bytes(self) -> Seq<u8> {
        bytes::ne_bytes(self.fh_in as nat, 8)
            + bytes::ne_bytes(as_unsigned_64(self.off_in), 8)
            + bytes::ne_bytes(self.nodeid_out as nat, 8)
            + bytes::ne_bytes(self.fh_out as nat, 8)
            + bytes::ne_bytes(as_unsigned_64(self.off_out), 8)
            + bytes::ne_bytes(self.len as nat, 8)
            + bytes::ne_bytes(self.flags as nat, 8)
    }

    /// The encoding always takes `FUSE_COPY_FILE_RANGE_IN_SIZE` bytes.
    pub proof fn lemma_len(self)
        ensures
            self.spec_bytes().len() == FUSE_COPY_FILE_RANGE_IN_SIZE,
    {
        bytes::lemma_ne_bytes_len(self.fh_in as nat, 8);
        bytes::lemma_ne_bytes_len(as_unsigned_64(self.off_in), 8);
        bytes::lemma_ne_bytes_len(self.nodeid_out as nat, 8);
        bytes::lemma_ne_bytes_len(self.fh_out as nat, 8);
        bytes::lemma_ne_bytes_len(as_unsigned_64(self.off_out), 8);
        bytes::lemma_ne_bytes_len(self.len as nat, 8);
        bytes::lemma_ne_bytes_len(self.flags as nat, 8);
    }
}

/// `FUSE_SYNCFS` says nothing more.
#[derive(Debug, Clone, Copy, PartialEq, Eq, Structural)]
pub struct fuse_syncfs_in {
    pub padding: u64,
}

impl fuse_syncfs_in {
    /// The bytes of the structure, fields in declaration order.
    pub open spec fn spec_bytes(self) -> Seq<u8> {
        bytes::ne_bytes(self.padding as nat, 8)
    }

    /// The encoding always takes `FUSE_SYNCFS_IN_SIZE` bytes.
    pub proof fn lemma_len(self)
        ensures
            self.spec_bytes().len() == FUSE_SYNCFS_IN_SIZE,
    {
        bytes::lemma_ne_bytes_len(self.padding as nat, 8);
    }
}

/// What `FUSE_STATX` asks for.
#[derive(Debug, Clone, Copy, PartialEq, Eq, Structural)]
pub struct fuse_statx_in {
    pub getattr_flags: u32,
    pub reserved: u32,
    pub fh: u64,
    pub sx_flags: u32,
    pub sx_mask: u32,
}

impl fuse_statx_in {
    /// The bytes of the structure, fields in declaration order.
    pub open spec fn spec_bytes(self) -> Seq<u8> {
        bytes::ne_bytes(self.getattr_flags as nat, 4)
            + bytes::ne_bytes(self.reserved as nat, 4)
            + bytes::ne_bytes(self.fh as nat, 8)
            + bytes::ne_bytes(self.sx_flags as nat, 4)
            + bytes::ne_bytes(self.sx_mask as nat, 4)
    }

    /// The encoding always takes `FUSE_STATX_IN_SIZE` bytes.
    pub proof fn lemma_len(self)
        ensures
            self.spec_bytes().len() == FUSE_STATX_IN_SIZE,
    {
        bytes::lemma_ne_bytes_len(self.getattr_flags as nat, 4);
        bytes::lemma_ne_bytes_len(self.reserved as nat, 4);
        bytes::lemma_ne_bytes_len(self.fh as nat, 8);
        bytes::lemma_ne_bytes_len(self.sx_flags as nat, 4);
        bytes::lemma_ne_bytes_len(self.sx_mask as nat, 4);
    }
}

/// The data that `FUSE_NOTIFY_REPLY` brings; as large as `fuse_write_in`.
#[derive(Debug, Clone, Copy, PartialEq, Eq, Structural)]
pub struct fuse_notify_retrieve_in {
    pub dummy1: u64,
    pub offset: u64,
    pub size: u32,
    pub dummy2: u32,
    pub dummy3: u64,
    pub dummy4: u64,
}

impl fuse_notify_retrieve_in {
    /// The bytes of the structure, fields in declaration order.
    pub open spec fn spec_bytes(self) -> Seq<u8> {
        bytes::ne_bytes(self.dummy1 as nat, 8)
            + bytes::ne_bytes(self.offset as nat, 8)
            + bytes::ne_bytes(self.size as nat, 4)
            + bytes::ne_bytes(self.dummy2 as nat, 4)
            + bytes::ne_bytes(self.dummy3 as nat, 8)
            + bytes::ne_bytes(self.dummy4 as nat, 8)
    }

    /// The encoding always takes `FUSE_NOTIFY_RETRIEVE_IN_SIZE` bytes.
    pub proof fn lemma_len(self)
        ensures
            self.spec_bytes().len() == FUSE_NOTIFY_RETRIEVE_IN_SIZE,
    {
        bytes::lemma_ne_bytes_len(self.dummy1 as nat, 8);
        bytes::lemma_ne_bytes_len(self.offset as nat, 8);
        bytes::lemma_ne_bytes_len(self.size as nat, 4);
        bytes::lemma_ne_bytes_len(self.dummy2 as nat, 4);
        bytes::lemma_ne_bytes_len(self.dummy3 as nat, 8);
        bytes::lemma_ne_bytes_len(self.dummy4 as nat, 8);
    }
}

/// A fixed structure that a request carries: its header, or what stands first behind the header of
/// the requests of one kind.
pub enum FixedIn {
    Header(fuse_in_header),
    Init(fuse_init_in),
    Forget(fuse_forget_in),
    BatchForget(fuse_batch_forget_in),
    Getattr(fuse_getattr_in),
    Setattr(fuse_setattr_in),
    SetattrMacos(fuse_setattr_in_macos),
    Mknod(fuse_mknod_in),
    Mkdir(fuse_mkdir_in),
    Rename(fuse_rename_in),
    RenameMacos(fuse_rename_in_macos),
    Rename2(fuse_rename2_in),
    Link(fuse_link_in),
    Open(fuse_open_in),
    Create(fuse_create_in),
    Release(fuse_release_in),
    Flush(fuse_flush_in),
    Read(fuse_read_in),
    Write(fuse_write_in),
    Fsync(fuse_fsync_in),
    Setxattr(fuse_setxattr_in),
    SetxattrMacos(fuse_setxattr_in_macos),
    SetxattrExt(fuse_setxattr_in_ext),
    Getxattr(fuse_getxattr_in),
    GetxattrMacos(fuse_getxattr_in_macos),
    Lk(fuse_lk_in),
    Access(fuse_access_in),
    Interrupt(fuse_interrupt_in),
    Bmap(fuse_bmap_in),
    Ioctl(fuse_ioctl_in),
    Poll(fuse_poll_in),
    Fallocate(fuse_fallocate_in),
    Lseek(fuse_lseek_in),
    CopyFileRange(fuse_copy_file_range_in),
    Syncfs(fuse_syncfs_in),
    Statx(fuse_statx_in),
    NotifyRetrieve(fuse_notify_retrieve_in),
}

impl FixedIn {
    /// The bytes of the structure.
    pub open spec fn spec_bytes(self) -> Seq<u8> {
        match self {
            FixedIn::Header(x) => x.spec_bytes(),
            FixedIn::Init(x) => x.spec_bytes(),
            FixedIn::Forget(x) => x.spec_bytes(),
            FixedIn::BatchForget(x) => x.spec_bytes(),
            FixedIn::Getattr(x) => x.spec_bytes(),
            FixedIn::Setattr(x) => x.spec_bytes(),
            FixedIn::SetattrMacos(x) => x.spec_bytes(),
            FixedIn::Mknod(x) => x.spec_bytes(),
            FixedIn::Mkdir(x) => x.spec_bytes(),
            FixedIn::Rename(x) => x.spec_bytes(),
            FixedIn::RenameMacos(x) => x.spec_bytes(),
            FixedIn::Rename2(x) => x.spec_bytes(),
            FixedIn::Link(x) => x.spec_bytes(),
            FixedIn::Open(x) => x.spec_bytes(),
            FixedIn::Create(x) => x.spec_bytes(),
            FixedIn::Release(x) => x.spec_bytes(),
            FixedIn::Flush(x) => x.spec_bytes(),
            FixedIn::Read(x) => x.spec_bytes(),
            FixedIn::Write(x) => x.spec_bytes(),
            FixedIn::Fsync(x) => x.spec_bytes(),
            FixedIn::Setxattr(x) => x.spec_bytes(),
            FixedIn::SetxattrMacos(x) => x.spec_bytes(),
            FixedIn::SetxattrExt(x) => x.spec_bytes(),
            FixedIn::Getxattr(x) => x.spec_bytes(),
            FixedIn::GetxattrMacos(x) => x.spec_bytes(),
            FixedIn::Lk(x) => x.spec_bytes(),
            FixedIn::Access(x) => x.spec_bytes(),
            FixedIn::Interrupt(x) => x.spec_bytes(),
            FixedIn::Bmap(x) => x.spec_bytes(),
            FixedIn::Ioctl(x) => x.spec_bytes(),
            FixedIn::Poll(x) => x.spec_bytes(),
            FixedIn::Fallocate(x) => x.spec_bytes(),
            FixedIn::Lseek(x) => x.spec_bytes(),
            FixedIn::CopyFileRange(x) => x.spec_bytes(),
            FixedIn::Syncfs(x) => x.spec_bytes(),
            FixedIn::Statx(x) => x.spec_bytes(),
            FixedIn::NotifyRetrieve(x) => x.spec_bytes(),
        }
    }
}

/// The ring places each request's fixed in-struct at `op_in`: every one of them is a whole number
/// of `u64`s and fits there.
pub proof fn fixed_in_structs_are_multiples_of_8(x: FixedIn)
    ensures
        x.spec_bytes().len() % 8 == 0,
        x.spec_bytes().len() <= FUSE_URING_OP_IN_OUT_SZ,
{
    match x {
        FixedIn::Header(x) => x.lemma_len(),
        FixedIn::Init(x) => x.lemma_len(),
        FixedIn::Forget(x) => x.lemma_len(),
        FixedIn::BatchForget(x) => x.lemma_len(),
        FixedIn::Getattr(x) => x.lemma_len(),
        FixedIn::Setattr(x) => x.lemma_len(),
        FixedIn::SetattrMacos(x) => x.lemma_len(),
        FixedIn::Mknod(x) => x.lemma_len(),
        FixedIn::Mkdir(x) => x.lemma_len(),
        FixedIn::Rename(x) => x.lemma_len(),
        FixedIn::RenameMacos(x) => x.lemma_len(),
        FixedIn::Rename2(x) => x.lemma_len(),
        FixedIn::Link(x) => x.lemma_len(),
        FixedIn::Open(x) => x.lemma_len(),
        FixedIn::Create(x) => x.lemma_len(),
        FixedIn::Release(x) => x.lemma_len(),
        FixedIn::Flush(x) => x.lemma_len(),
        FixedIn::Read(x) => x.lemma_len(),
        FixedIn::Write(x) => x.lemma_len(),
        FixedIn::Fsync(x) => x.lemma_len(),
        FixedIn::Setxattr(x) => x.lemma_len(),
        FixedIn::SetxattrMacos(x) => x.lemma_len(),
        FixedIn::SetxattrExt(x) => x.lemma_len(),
        FixedIn::Getxattr(x) => x.lemma_len(),
        FixedIn::GetxattrMacos(x) => x.lemma_len(),
        FixedIn::Lk(x) => x.lemma_len(),
        FixedIn::Access(x) => x.lemma_len(),
        FixedIn::Interrupt(x) => x.lemma_len(),
        FixedIn::Bmap(x) => x.lemma_len(),
        FixedIn::Ioctl(x) => x.lemma_len(),
        FixedIn::Poll(x) => x.lemma_len(),
        FixedIn::Fallocate(x) => x.lemma_len(),
        FixedIn::Lseek(x) => x.lemma_len(),
        FixedIn::CopyFileRange(x) => x.lemma_len(),
        FixedIn::Syncfs(x) => x.lemma_len(),
        FixedIn::Statx(x) => x.lemma_len(),
        FixedIn::NotifyRetrieve(x) => x.lemma_len(),
    }
}

/// Both headers fit where the ring places them, at `in_out`.
pub proof fn headers_fit_in_out(request: fuse_in_header, reply: fuse_out_header)
    ensures
        request.spec_bytes().len() <= FUSE_URING_IN_OUT_HEADER_SZ,
        reply.spec_bytes().len() <= FUSE_URING_IN_OUT_HEADER_SZ,
{
    request.lemma_len();
    reply.lemma_len();
}

/// The opcodes have the numbers of the kernel, each its own.
pub proof fn opcodes_are_the_kernels(x: fuse_opcode)
    ensures
        x is FUSE_LOOKUP <==> x.spec_value() == 1,
        x is FUSE_FORGET <==> x.spec_value() == 2,
        x is FUSE_GETATTR <==> x.spec_value() == 3,
        x is FUSE_SETATTR <==> x.spec_value() == 4,
        x is FUSE_READLINK <==> x.spec_value() == 5,
        x is FUSE_SYMLINK <==> x.spec_value() == 6,
        x is FUSE_MKNOD <==> x.spec_value() == 8,
        x is FUSE_MKDIR <==> x.spec_value() == 9,
        x is FUSE_UNLINK <==> x.spec_value() == 10,
        x is FUSE_RMDIR <==> x.spec_value() == 11,
        x is FUSE_RENAME <==> x.spec_value() == 12,
        x is FUSE_LINK <==> x.spec_value() == 13,
        x is FUSE_OPEN <==> x.spec_value() == 14,
        x is FUSE_READ <==> x.spec_value() == 15,
        x is FUSE_WRITE <==> x.spec_value() == 16,
        x is FUSE_STATFS <==> x.spec_value() == 17,
        x is FUSE_RELEASE <==> x.spec_value() == 18,
        x is FUSE_FSYNC <==> x.spec_value() == 20,
        x is FUSE_SETXATTR <==> x.spec_value() == 21,
        x is FUSE_GETXATTR <==> x.spec_value() == 22,
        x is FUSE_LISTXATTR <==> x.spec_value() == 23,
        x is FUSE_REMOVEXATTR <==> x.spec_value() == 24,
        x is FUSE_FLUSH <==> x.spec_value() == 25,
        x is FUSE_INIT <==> x.spec_value() == 26,
        x is FUSE_OPENDIR <==> x.spec_value() == 27,
        x is FUSE_READDIR <==> x.spec_value() == 28,
        x is FUSE_RELEASEDIR <==> x.spec_value() == 29,
        x is FUSE_FSYNCDIR <==> x.spec_value() == 30,
        x is FUSE_GETLK <==> x.spec_value() == 31,
        x is FUSE_SETLK <==> x.spec_value() == 32,
        x is FUSE_SETLKW <==> x.spec_value() == 33,
        x is FUSE_ACCESS <==> x.spec_value() == 34,
        x is FUSE_CREATE <==> x.spec_value() == 35,
        x is FUSE_INTERRUPT <==> x.spec_value() == 36,
        x is FUSE_BMAP <==> x.spec_value() == 37,
        x is FUSE_DESTROY <==> x.spec_value() == 38,
        x is FUSE_IOCTL <==> x.spec_value() == 39,
        x is FUSE_POLL <==> x.spec_value() == 40,
        x is FUSE_NOTIFY_REPLY <==> x.spec_value() == 41,
        x is FUSE_BATCH_FORGET <==> x.spec_value() == 42,
        x is FUSE_FALLOCATE <==> x.spec_value() == 43,
        x is FUSE_READDIRPLUS <==> x.spec_value() == 44,
        x is FUSE_RENAME2 <==> x.spec_value() == 45,
        x is FUSE_LSEEK <==> x.spec_value() == 46,
        x is FUSE_COPY_FILE_RANGE <==> x.spec_value() == 47,
        x is FUSE_SYNCFS <==> x.spec_value() == 50,
        x is FUSE_TMPFILE <==> x.spec_value() == 51,
        x is FUSE_STATX <==> x.spec_value() == 52,
        x is FUSE_SETVOLNAME <==> x.spec_value() == 61,
        x is FUSE_GETXTIMES <==> x.spec_value() == 62,
        x is FUSE_EXCHANGE <==> x.spec_value() == 63,
        x is CUSE_INIT <==> x.spec_value() == 4096,
{
}

/// The notifications have the numbers of the kernel, each its own.
pub proof fn notify_codes_are_the_kernels(x: fuse_notify_code)
    ensures
        x is FUSE_POLL <==> x.spec_value() == 1,
        x is FUSE_NOTIFY_INVAL_INODE <==> x.spec_value() == 2,
        x is FUSE_NOTIFY_INVAL_ENTRY <==> x.spec_value() == 3,
        x is FUSE_NOTIFY_STORE <==> x.spec_value() == 4,
        x is FUSE_NOTIFY_RETRIEVE <==> x.spec_value() == 5,
        x is FUSE_NOTIFY_DELETE <==> x.spec_value() == 6,
        x is FUSE_NOTIFY_RESEND <==> x.spec_value() == 7,
        x is FUSE_NOTIFY_INC_EPOCH <==> x.spec_value() == 8,
{
}

/// The ring commands have the numbers of the kernel, each its own.
pub proof fn ring_commands_are_the_kernels(x: fuse_uring_cmd)
    ensures
        x is FUSE_IO_URING_CMD_INVALID <==> x.spec_value() == 0,
        x is FUSE_IO_URING_CMD_REGISTER <==> x.spec_value() == 1,
        x is FUSE_IO_URING_CMD_COMMIT_AND_FETCH <==> x.spec_value() == 2,
{
}

/// The bits of `valid` that ask for the current time are the seventh for the access time and the
/// eighth for the modification time, counted from zero.
pub proof fn current_time_bits_are_the_kernels(x: fuse_setattr_in)
    ensures
        x.has_atime_now() <==> (x.valid >> 7u32) & 1 == 1,
        x.has_mtime_now() <==> (x.valid >> 8u32) & 1 == 1,
{
    let valid = x.valid;
    assert(valid & 0x80u32 == 0x80u32 <==> (valid >> 7u32) & 1 == 1) by (bit_vector);
    assert(valid & 0x100u32 == 0x100u32 <==> (valid >> 8u32) & 1 == 1) by (bit_vector);
}

/// The three areas of a request header follow each other without a gap, and the last one holds the
/// fields of its structure.
pub proof fn request_header_has_three_areas(x: fuse_uring_req_header)
    ensures
        x.spec_bytes().len() == 288,
        x.spec_bytes().subrange(0, 128) == x.in_out@,
        x.spec_bytes().subrange(128, 256) == x.op_in@,
        x.spec_bytes().subrange(256, 288) == x.ring_ent_in_out.spec_bytes(),
{
    x.lemma_len();
    x.ring_ent_in_out.lemma_len();
    assert(x.spec_bytes().subrange(0, 128) =~= x.in_out@);
    assert(x.spec_bytes().subrange(128, 256) =~= x.op_in@);
    assert(x.spec_bytes().subrange(256, 288) =~= x.ring_ent_in_out.spec_bytes());
}

/// The protocol that is spoken is 7.44, on macOS 7.19.
pub proof fn protocol_version_is_declared(macos: bool)
    ensures
        FUSE_KERNEL_VERSION == 7,
        macos ==> minor_version_of(macos) == 19,
        !macos ==> minor_version_of(macos) == 44,
{
}

/// A signed value and its representation differ by a multiple of the range, and the representation
/// of what is not negative is the value.
pub proof fn representation_is_twos_complement(x: i32, y: i64)
    ensures
        as_unsigned(x) < 0x1_0000_0000,
        (as_unsigned(x) - x) % 0x1_0000_0000 == 0,
        as_unsigned_64(y) < 0x1_0000_0000_0000_0000,
        (as_unsigned_64(y) - y) % 0x1_0000_0000_0000_0000 == 0,
{
}

/// The opcodes from 61 to 63 are those of macOS alone.
pub proof fn macos_has_opcodes_of_its_own(x: fuse_opcode)
    ensures
        x.macos_only() <==> 61 <= x.spec_value() <= 63,
{
}

} // verus!
