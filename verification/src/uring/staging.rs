//! Turns a fetched entry into the contiguous request bytes the `/dev/fuse` parser expects.

use crate::bytes;
use crate::ll::fuse_abi::{
    fuse_in_header, fuse_uring_ent_in_out, FUSE_IN_HEADER_SIZE, FUSE_URING_OP_IN_OUT_SZ,
};
use crate::uring::mem::{COMMIT_ID_OFFSET, HEADER_SZ, OP_IN_OFFSET, PAYLOAD_SZ_OFFSET, STAGING_SZ};
use vstd::prelude::*;

verus! {

/// A fetched request, staged so that `[req, req + len)` of the stride is one contiguous
/// `fuse_in_header` followed by the op arguments and payload.
#[derive(Debug, Clone, Copy, PartialEq, Eq, Structural)]
pub struct Staged {
    pub commit_id: u64,
    pub payload_sz: u32,
    /// Offset of the request in the entry's stride.
    pub req: usize,
    pub len: usize,
}

#[derive(Debug, Clone, Copy, PartialEq, Eq, Structural)]
pub enum StagingError {
    /// The kernel never hands out `commit_id` 0; nothing can be committed for this fetch.
    ZeroCommitId,
    /// The lengths do not describe a request; `commit_id` lets the caller reply `EIO`.
    Malformed { commit_id: u64, in_len: u32, payload_sz: u32 },
}

/// `commit_id` of the trailer in a fetched stride.
pub open spec fn commit_id_of(stride: Seq<u8>) -> u64 {
    bytes::ne_value(
        stride.subrange(COMMIT_ID_OFFSET as int, COMMIT_ID_OFFSET + 8),
    ) as u64
}

/// `payload_sz` of the trailer in a fetched stride.
pub open spec fn payload_sz_of(stride: Seq<u8>) -> u32 {
    bytes::ne_value(
        stride.subrange(PAYLOAD_SZ_OFFSET as int, PAYLOAD_SZ_OFFSET + 4),
    ) as u32
}

/// `len` of the `fuse_in_header` in a fetched stride.
pub open spec fn in_len_of(stride: Seq<u8>) -> u32 {
    bytes::ne_value(stride.subrange(0, 4)) as u32
}

/// Bytes of the op arguments: what the header and the payload leave of the request.
pub open spec fn op_in_len_of(stride: Seq<u8>) -> int {
    in_len_of(stride) - FUSE_IN_HEADER_SIZE - payload_sz_of(stride)
}

/// Whether the lengths in a fetched stride describe a request.
pub open spec fn lengths_fit(stride: Seq<u8>, payload_cap: nat) -> bool {
    &&& 0 <= op_in_len_of(stride) <= FUSE_URING_OP_IN_OUT_SZ
    &&& op_in_len_of(stride) % 8 == 0
    &&& payload_sz_of(stride) <= payload_cap
}

/// What staging makes of a fetched stride.
pub open spec fn staged_of(stride: Seq<u8>, gap: nat, payload_cap: nat) -> Result<
    Staged,
    StagingError,
> {
    if commit_id_of(stride) == 0 {
        Err(StagingError::ZeroCommitId)
    } else if !lengths_fit(stride, payload_cap) {
        Err(
            StagingError::Malformed {
                commit_id: commit_id_of(stride),
                in_len: in_len_of(stride),
                payload_sz: payload_sz_of(stride),
            },
        )
    } else {
        Ok(
            Staged {
                commit_id: commit_id_of(stride),
                payload_sz: payload_sz_of(stride),
                req: (gap - FUSE_IN_HEADER_SIZE - op_in_len_of(stride)) as usize,
                len: in_len_of(stride) as usize,
            },
        )
    }
}

/// The stride after staging: the request header and the op arguments are copied to just before
/// the payload, unless there is no request to stage.
pub open spec fn staged_stride(stride: Seq<u8>, gap: nat, payload_cap: nat) -> Seq<u8> {
    match staged_of(stride, gap, payload_cap) {
        Ok(s) => {
            let op_in_len = op_in_len_of(stride);
            let with_header = bytes::splice(
                stride,
                s.req as int,
                stride.subrange(0, FUSE_IN_HEADER_SIZE as int),
            );
            bytes::splice(
                with_header,
                gap - op_in_len,
                stride.subrange(OP_IN_OFFSET as int, OP_IN_OFFSET + op_in_len),
            )
        },
        Err(_) => stride,
    }
}

/// Copies `in_out[0..40]` and `op_in[0..op_in_len]` to the bytes just before `gap`, where
/// `op_in_len = in_header.len - 40 - payload_sz`, so the request continues into the payload.
///
/// `entry` is a stride whose SQE has completed.
pub fn stage_request(entry: &mut [u8], gap: usize, payload_cap: usize) -> (r: Result<
    Staged,
    StagingError,
>)
    requires
        gap >= HEADER_SZ + STAGING_SZ,
        gap + payload_cap <= old(entry)@.len(),
    ensures
        r == staged_of(old(entry)@, gap as nat, payload_cap as nat),
        final(entry)@ == staged_stride(old(entry)@, gap as nat, payload_cap as nat),
{
    proof {
        bytes::lemma_pow256_sizes();
        bytes::encode_of_decode(
            entry@.subrange(COMMIT_ID_OFFSET as int, COMMIT_ID_OFFSET + 8),
        );
        bytes::encode_of_decode(
            entry@.subrange(PAYLOAD_SZ_OFFSET as int, PAYLOAD_SZ_OFFSET + 4),
        );
        bytes::encode_of_decode(entry@.subrange(0, 4));
    }
    let commit_id: u64 = bytes::decode(entry, COMMIT_ID_OFFSET, 8);
    let payload_sz: u32 = bytes::decode(entry, PAYLOAD_SZ_OFFSET, 4) as u32;
    let in_len: u32 = bytes::decode(entry, 0, 4) as u32;
    if commit_id == 0 {
        return Err(StagingError::ZeroCommitId);
    }
    let malformed = StagingError::Malformed { commit_id, in_len, payload_sz };
    let prefix: u64 = FUSE_IN_HEADER_SIZE as u64 + payload_sz as u64;
    if (in_len as u64) < prefix {
        return Err(malformed);
    }
    let op_in_len: u64 = in_len as u64 - prefix;
    if payload_sz as u64 > payload_cap as u64 || op_in_len > FUSE_URING_OP_IN_OUT_SZ as u64
        || op_in_len % 8 != 0 {
        return Err(malformed);
    }
    let op_in_len: usize = op_in_len as usize;
    let req: usize = gap - FUSE_IN_HEADER_SIZE - op_in_len;
    bytes::copy_within(entry, 0, req, FUSE_IN_HEADER_SIZE);
    bytes::copy_within(entry, OP_IN_OFFSET, gap - op_in_len, op_in_len);
    proof {
        let stride = old(entry)@;
        let with_header = bytes::splice(stride, req as int, stride.subrange(0, 40));
        assert(with_header.subrange(OP_IN_OFFSET as int, OP_IN_OFFSET + op_in_len)
            =~= stride.subrange(OP_IN_OFFSET as int, OP_IN_OFFSET + op_in_len));
    }
    Ok(Staged { commit_id, payload_sz, req, len: in_len as usize })
}

/// The staged request is the kernel's header, the op arguments and the payload, one after the
/// other, and it lies inside the stride behind the header area.
pub proof fn staged_request_is_contiguous(stride: Seq<u8>, gap: nat, payload_cap: nat)
    requires
        gap >= HEADER_SZ + STAGING_SZ,
        gap + payload_cap <= stride.len(),
        staged_of(stride, gap, payload_cap) is Ok,
        stride.len() <= usize::MAX,
    ensures
        ({
            let s = staged_of(stride, gap, payload_cap)->Ok_0;
            let op_in_len = op_in_len_of(stride);
            &&& HEADER_SZ <= s.req
            &&& s.req + s.len <= gap + payload_cap
            &&& staged_stride(stride, gap, payload_cap).subrange(s.req as int, s.req + s.len)
                == stride.subrange(0, FUSE_IN_HEADER_SIZE as int) + stride.subrange(
                OP_IN_OFFSET as int,
                OP_IN_OFFSET + op_in_len,
            ) + stride.subrange(gap as int, gap + s.payload_sz)
        }),
{
    let s = staged_of(stride, gap, payload_cap)->Ok_0;
    let op_in_len = op_in_len_of(stride);
    assert(staged_stride(stride, gap, payload_cap).subrange(s.req as int, s.req + s.len)
        =~= stride.subrange(0, FUSE_IN_HEADER_SIZE as int) + stride.subrange(
        OP_IN_OFFSET as int,
        OP_IN_OFFSET + op_in_len,
    ) + stride.subrange(gap as int, gap + s.payload_sz));
}

/// Staging writes only the staging area: the header and the payload keep their bytes.
pub proof fn staging_keeps_header_and_payload(stride: Seq<u8>, gap: nat, payload_cap: nat)
    requires
        gap >= HEADER_SZ + STAGING_SZ,
        gap + payload_cap <= stride.len(),
        stride.len() <= usize::MAX,
    ensures
        ({
            let after = staged_stride(stride, gap, payload_cap);
            &&& after.len() == stride.len()
            &&& after.take(gap - STAGING_SZ) == stride.take(gap - STAGING_SZ)
            &&& after.skip(gap as int) == stride.skip(gap as int)
        }),
{
    let after = staged_stride(stride, gap, payload_cap);
    assert(after.len() == stride.len());
    assert(after.take(gap - STAGING_SZ) =~= stride.take(gap - STAGING_SZ));
    assert(after.skip(gap as int) =~= stride.skip(gap as int));
}

/// The staged request starts 8-byte aligned when the payload does.
pub proof fn staged_request_is_aligned(stride: Seq<u8>, base: int, gap: nat, payload_cap: nat)
    requires
        gap >= HEADER_SZ + STAGING_SZ,
        gap + payload_cap <= stride.len() <= usize::MAX,
        (base + gap) % 8 == 0,
    ensures
        staged_of(stride, gap, payload_cap) matches Ok(s) ==> (base + s.req) % 8 == 0,
{
}

/// Every request that the kernel hands out is staged: whatever the sizes of its arguments and of
/// its payload are, as long as the arguments are a whole number of `u64`s that fit `op_in` and the
/// payload fits its buffer. `header` and `trailer` are what the kernel wrote into the stride.
pub proof fn every_request_is_staged(
    stride: Seq<u8>,
    gap: nat,
    payload_cap: nat,
    header: fuse_in_header,
    trailer: fuse_uring_ent_in_out,
    op_in_len: nat,
)
    requires
        gap >= HEADER_SZ + STAGING_SZ,
        gap + payload_cap <= stride.len() <= usize::MAX,
        stride.subrange(0, 40) == header.spec_bytes(),
        stride.subrange(256, 288) == trailer.spec_bytes(),
        trailer.commit_id != 0,
        trailer.payload_sz <= payload_cap,
        op_in_len <= 128,
        op_in_len % 8 == 0,
        header.len == 40 + op_in_len + trailer.payload_sz,
    ensures
        staged_of(stride, gap, payload_cap) == Ok::<Staged, StagingError>(
            Staged {
                commit_id: trailer.commit_id,
                payload_sz: trailer.payload_sz,
                req: (gap - 40 - op_in_len) as usize,
                len: header.len as usize,
            },
        ),
{
    lemma_fetched_fields(stride, header, trailer);
}

/// Nothing else is: without a commit id there is nothing to answer, and lengths that describe no
/// request are handed back with the id that they came with.
pub proof fn nothing_else_is_staged(
    stride: Seq<u8>,
    gap: nat,
    payload_cap: nat,
    header: fuse_in_header,
    trailer: fuse_uring_ent_in_out,
)
    requires
        stride.len() >= HEADER_SZ,
        stride.subrange(0, 40) == header.spec_bytes(),
        stride.subrange(256, 288) == trailer.spec_bytes(),
    ensures
        trailer.commit_id == 0 ==> staged_of(stride, gap, payload_cap) == Err::<
            Staged,
            StagingError,
        >(StagingError::ZeroCommitId),
        trailer.commit_id != 0 && (trailer.payload_sz > payload_cap || header.len < 40
            + trailer.payload_sz || header.len > 168 + trailer.payload_sz || (header.len
            - trailer.payload_sz) % 8 != 0) ==> staged_of(stride, gap, payload_cap) == Err::<
            Staged,
            StagingError,
        >(
            StagingError::Malformed {
                commit_id: trailer.commit_id,
                in_len: header.len,
                payload_sz: trailer.payload_sz,
            },
        ),
{
    lemma_fetched_fields(stride, header, trailer);
}

/// What the kernel wrote is what is read.
proof fn lemma_fetched_fields(
    stride: Seq<u8>,
    header: fuse_in_header,
    trailer: fuse_uring_ent_in_out,
)
    requires
        stride.len() >= HEADER_SZ,
        stride.subrange(0, 40) == header.spec_bytes(),
        stride.subrange(256, 288) == trailer.spec_bytes(),
    ensures
        in_len_of(stride) == header.len,
        commit_id_of(stride) == trailer.commit_id,
        payload_sz_of(stride) == trailer.payload_sz,
{
    header.fields_read_back();
    trailer.fields_read_back();
    assert(stride.subrange(0, 40).subrange(0, 4) =~= stride.subrange(0, 4));
    assert(stride.subrange(256, 288).subrange(8, 16) =~= stride.subrange(264, 272));
    assert(stride.subrange(256, 288).subrange(16, 20) =~= stride.subrange(272, 276));
}

/// A staged request is what the kernel wrote: the 40 bytes of its header, the arguments from offset
/// 128 on and the payload, in one piece, and nothing outside of it changed. A stride that is not
/// staged keeps every byte.
pub proof fn staged_request_is_the_kernels(
    stride: Seq<u8>,
    gap: nat,
    payload_cap: nat,
    op_in_len: int,
    i: int,
)
    requires
        gap >= 288 + 168,
        gap + payload_cap <= stride.len() <= usize::MAX,
        op_in_len == in_len_of(stride) - 40 - payload_sz_of(stride),
        0 <= i < stride.len(),
    ensures
        ({
            let after = staged_stride(stride, gap, payload_cap);
            let from = gap - 40 - op_in_len;
            match staged_of(stride, gap, payload_cap) {
                Err(_) => after == stride,
                Ok(s) => {
                    &&& s.req == from
                    &&& s.len == in_len_of(stride)
                    &&& after.len() == stride.len()
                    &&& after.subrange(from, from + s.len) == stride.subrange(0, 40)
                        + stride.subrange(128, 128 + op_in_len) + stride.subrange(
                        gap as int,
                        gap + payload_sz_of(stride),
                    )
                    &&& i < from || i >= gap ==> after[i] == stride[i]
                },
            }
        }),
{
    let after = staged_stride(stride, gap, payload_cap);
    let from = gap - 40 - op_in_len;
    if let Ok(s) = staged_of(stride, gap, payload_cap) {
        assert(after.subrange(from, from + s.len) =~= stride.subrange(0, 40) + stride.subrange(
            128,
            128 + op_in_len,
        ) + stride.subrange(gap as int, gap + payload_sz_of(stride)));
    }
}

} // verus!
