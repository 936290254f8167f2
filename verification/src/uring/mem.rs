//! Buffer layout of a ring: one mapping holding every entry's stride.
//!
//! ```text
//! entry e at base + e * stride, stride = HEADER_AREA + payload_cap, HEADER_AREA = PAGE_SIZE
//!   [0, 288)                 fuse_uring_req_header, iov[0]        kernel owned while a SQE is pending
//!   [GAP - 168, GAP)         staging: fuse_in_header + op_in copy, ends at GAP
//!   [GAP, GAP + payload_cap) payload, iov[1]                      kernel owned while a SQE is pending
//! ```
//!
//! The staging copy makes the request contiguous for the `/dev/fuse` parser: the header lands
//! 8-byte aligned because the mapping, `stride` and `GAP` are page multiples.

use crate::error::Error;
use crate::ll::fuse_abi::{
    FUSE_IN_HEADER_SIZE, FUSE_URING_IN_OUT_HEADER_SZ, FUSE_URING_OP_IN_OUT_SZ,
    FUSE_URING_REQ_HEADER_SIZE,
};
use vstd::prelude::*;

verus! {

/// Bytes of `fuse_uring_req_header`, `iov[0]` of a REGISTER.
pub const HEADER_SZ: usize = FUSE_URING_REQ_HEADER_SIZE;

/// Largest staged request prefix: `fuse_in_header` plus a full `op_in`.
pub const STAGING_SZ: usize = FUSE_IN_HEADER_SIZE + FUSE_URING_OP_IN_OUT_SZ;

/// Offset of `op_in` in `fuse_uring_req_header`.
pub const OP_IN_OFFSET: usize = FUSE_URING_IN_OUT_HEADER_SZ;

/// Offset of `ring_ent_in_out` in `fuse_uring_req_header`.
pub const ENT_IN_OUT_OFFSET: usize = OP_IN_OFFSET + FUSE_URING_OP_IN_OUT_SZ;

pub const FLAGS_OFFSET: usize = ENT_IN_OUT_OFFSET;

pub const COMMIT_ID_OFFSET: usize = ENT_IN_OUT_OFFSET + 8;

pub const PAYLOAD_SZ_OFFSET: usize = ENT_IN_OUT_OFFSET + 16;

/// `page_size::get`: the page size of the machine the program runs on. Nothing is claimed of it.
pub assume_specification[ page_size::get ]() -> usize
;

/// Whether `page_size::get` reports `page` as the page size of this machine.
pub open spec fn is_page_size(page: usize) -> bool {
    call_ensures(page_size::get, (), page)
}

/// Size of the header area of every entry, and so the offset of its payload: one page of the
/// machine. What a page measures is only known where the program runs; `RingMemory::layout`
/// takes the measure as an argument.
pub fn header_area() -> (r: usize)
    ensures
        is_page_size(r),
{
    page_size::get()
}

/// The least multiple of `m` that is not less than `x`.
pub open spec fn next_multiple(x: nat, m: nat) -> nat {
    if x % m == 0 {
        x
    } else {
        (x / m + 1) * m
    }
}

/// `next_multiple(x, m)` is what its name says.
pub proof fn next_multiple_is_least(x: nat, m: nat)
    requires
        m > 0,
    ensures
        next_multiple(x, m) % m == 0,
        x <= next_multiple(x, m) < x + m,
{
    let q = x / m;
    assert(x == q * m + x % m && 0 <= x % m < m) by (nonlinear_arith)
        requires
            m > 0,
            q == x / m,
    ;
    assert((q + 1) * m == q * m + m) by (nonlinear_arith);
    assert(((q + 1) * m) % m == 0) by (nonlinear_arith)
        requires
            m > 0,
    ;
}

fn checked_next_multiple_of(x: usize, m: usize) -> (r: Option<usize>)
    requires
        m > 0,
    ensures
        r == (if next_multiple(x as nat, m as nat) <= usize::MAX {
            Some(next_multiple(x as nat, m as nat) as usize)
        } else {
            None
        }),
{
    let rest: usize = x % m;
    if rest == 0 {
        return Some(x);
    }
    proof {
        let q = x / m;
        assert(x == q * m + x % m) by (nonlinear_arith)
            requires
                m > 0,
                q == x / m,
        ;
        assert((q + 1) * m == q * m + m) by (nonlinear_arith);
        assert(next_multiple(x as nat, m as nat) == x + (m - rest));
    }
    x.checked_add(m - rest)
}

/// The sizes of a ring's buffers.
pub struct Layout {
    /// Offset of the payload within a stride.
    pub gap: nat,
    /// Bytes of the payload.
    pub payload_cap: nat,
    /// Number of strides.
    pub entries: nat,
}

impl Layout {
    /// Bytes from one entry to the next.
    pub open spec fn stride(self) -> nat {
        self.gap + self.payload_cap
    }

    /// Bytes of the whole mapping.
    pub open spec fn len(self) -> nat {
        self.entries * self.stride()
    }

    /// Start of entry `e`'s stride.
    pub open spec fn entry(self, e: int) -> int {
        e * self.stride()
    }

    /// What every layout keeps.
    pub open spec fn valid(self) -> bool {
        &&& self.gap >= HEADER_SZ + STAGING_SZ
        &&& self.payload_cap % self.gap == 0
        &&& self.payload_cap <= u32::MAX
        &&& 0 < self.len() <= usize::MAX
    }
}

/// The layout for `entries` entries of at least `payload_cap` payload bytes on pages of `page`
/// bytes, or why there is none.
pub open spec fn layout_of(page: usize, entries: usize, payload_cap: usize) -> Result<
    Layout,
    Error,
> {
    let l = Layout {
        gap: page as nat,
        payload_cap: next_multiple(payload_cap as nat, page as nat),
        entries: entries as nat,
    };
    if page < HEADER_SZ + STAGING_SZ {
        Err(Error::PageTooSmall(page))
    } else if l.payload_cap > u32::MAX || l.stride() > usize::MAX || l.len() > usize::MAX || l.len()
        == 0 {
        Err(Error::BufferSize)
    } else {
        Ok(l)
    }
}

/// The buffers of one ring, as offsets into its mapping.
#[derive(Debug, Clone, Copy)]
pub struct RingMemory {
    len: usize,
    stride: usize,
    payload_cap: usize,
    entries: usize,
}

impl View for RingMemory {
    type V = Layout;

    closed spec fn view(&self) -> Layout {
        Layout {
            gap: (self.stride - self.payload_cap) as nat,
            payload_cap: self.payload_cap as nat,
            entries: self.entries as nat,
        }
    }
}

impl RingMemory {
    #[verifier::type_invariant]
    spec fn inv(self) -> bool {
        &&& self.payload_cap <= self.stride
        &&& self.len == self@.len()
        &&& self@.valid()
    }

    /// The layout of a machine whose pages have `page` bytes. `payload_cap` is rounded up to a
    /// page multiple so every header is page aligned, and must fit `payload_sz: u32`.
    pub fn layout(page: usize, entries: usize, payload_cap: usize) -> (r: Result<RingMemory, Error>)
        ensures
            match r {
                Ok(m) => layout_of(page, entries, payload_cap) == Ok::<Layout, Error>(m@),
                Err(e) => layout_of(page, entries, payload_cap) == Err::<Layout, Error>(e),
            },
            r matches Ok(m) ==> m@.valid(),
    {
        if page < HEADER_SZ + STAGING_SZ {
            return Err(Error::PageTooSmall(page));
        }
        proof {
            next_multiple_is_least(payload_cap as nat, page as nat);
        }
        let cap: usize = match checked_next_multiple_of(payload_cap, page) {
            Some(cap) => cap,
            None => return Err(Error::BufferSize),
        };
        if cap as u64 > u32::MAX as u64 {
            return Err(Error::BufferSize);
        }
        let stride: usize = match page.checked_add(cap) {
            Some(stride) => stride,
            None => return Err(Error::BufferSize),
        };
        let len: usize = match entries.checked_mul(stride) {
            Some(len) => len,
            None => return Err(Error::BufferSize),
        };
        if len == 0 {
            return Err(Error::BufferSize);
        }
        Ok(RingMemory { len, stride, payload_cap: cap, entries })
    }

    /// The layout on this machine, whatever its page size is.
    pub fn new(entries: usize, payload_cap: usize) -> (r: Result<RingMemory, Error>)
        ensures
            exists|page: usize| #[trigger]
                is_page_size(page) && match r {
                    Ok(m) => layout_of(page, entries, payload_cap) == Ok::<Layout, Error>(m@),
                    Err(e) => layout_of(page, entries, payload_cap) == Err::<Layout, Error>(e),
                },
    {
        Self::layout(header_area(), entries, payload_cap)
    }

    /// Offset of the payload within a stride; the staging area ends here.
    pub fn gap(&self) -> (r: usize)
        ensures
            r == self@.gap,
            self@.valid(),
    {
        proof {
            use_type_invariant(self);
        }
        self.stride - self.payload_cap
    }

    pub fn payload_cap(&self) -> (r: usize)
        ensures
            r == self@.payload_cap,
    {
        self.payload_cap
    }

    pub fn stride(&self) -> (r: usize)
        ensures
            r == self@.stride(),
    {
        proof {
            use_type_invariant(self);
        }
        self.stride
    }

    pub fn len(&self) -> (r: usize)
        ensures
            r == self@.len(),
            r > 0,
    {
        proof {
            use_type_invariant(self);
        }
        self.len
    }

    pub fn entries(&self) -> (r: usize)
        ensures
            r == self@.entries,
    {
        self.entries
    }

    /// Offset of entry `e`'s stride in the mapping.
    pub fn entry(&self, e: usize) -> (r: usize)
        requires
            e < self@.entries,
        ensures
            r == self@.entry(e as int),
            r + self@.stride() <= self@.len(),
    {
        proof {
            use_type_invariant(self);
            let n = self.entries as int;
            let s = self.stride as int;
            assert(e * s + s <= n * s) by (nonlinear_arith)
                requires
                    e < n,
                    s >= 0,
            ;
        }
        e * self.stride
    }
}

/// The strides of two entries never overlap, and each lies inside the mapping.
pub proof fn strides_are_disjoint(l: Layout, a: int, b: int)
    requires
        l.valid(),
        0 <= a < b < l.entries,
    ensures
        0 <= l.entry(a),
        l.entry(a) + l.stride() <= l.entry(b),
        l.entry(b) + l.stride() <= l.len(),
{
    let s = l.stride() as int;
    let n = l.entries as int;
    assert(0 <= a * s && a * s + s <= b * s && b * s + s <= n * s) by (nonlinear_arith)
        requires
            0 <= a < b < n,
            s >= 0,
    ;
}

/// Every stride and every payload starts on a page when the mapping does.
pub proof fn strides_are_page_aligned(l: Layout, base: int, e: int)
    requires
        l.valid(),
        base % (l.gap as int) == 0,
        0 <= e < l.entries,
    ensures
        (base + l.entry(e)) % (l.gap as int) == 0,
        (base + l.entry(e) + l.gap) % (l.gap as int) == 0,
{
    let p = l.gap as int;
    let k = base / p;
    let c = l.payload_cap as int / p;
    assert(base == k * p) by (nonlinear_arith)
        requires
            p > 0,
            base % p == 0,
            k == base / p,
    ;
    assert(l.payload_cap == c * p) by (nonlinear_arith)
        requires
            p > 0,
            l.payload_cap as int % p == 0,
            c == l.payload_cap as int / p,
    ;
    let m = k + e * (1 + c);
    assert(base + l.entry(e) == m * p) by (nonlinear_arith)
        requires
            base == k * p,
            l.entry(e) == e * (p + c * p),
            m == k + e * (1 + c),
    ;
    assert((m * p) % p == 0) by (nonlinear_arith)
        requires
            p > 0,
    ;
    assert(m * p + p == (m + 1) * p) by (nonlinear_arith);
    assert(((m + 1) * p) % p == 0) by (nonlinear_arith)
        requires
            p > 0,
    ;
}

/// The staging area ends where the payload starts and never reaches into the header.
pub proof fn staging_is_disjoint_from_the_header(l: Layout)
    requires
        l.valid(),
    ensures
        HEADER_SZ <= l.gap - STAGING_SZ,
        l.gap < l.stride() || l.payload_cap == 0,
{
}

/// Each entry of a layout starts where the one before it ends, the first at the start of the
/// mapping, and the last ends with it.
pub proof fn strides_follow_each_other(l: Layout, e: int)
    ensures
        l.entry(0) == 0,
        l.entry(e + 1) == l.entry(e) + l.gap + l.payload_cap,
        l.entry(l.entries as int) == l.len(),
{
    let s = l.stride() as int;
    assert(0 * s == 0 && (e + 1) * s == e * s + s) by (nonlinear_arith);
}

/// A layout has one page for the header of each entry, and for its payload what was asked for,
/// filled up to whole pages: no more than that. There is none only for pages that cannot hold the
/// 288 bytes of the header and the 168 of the staging area, and for sizes that are nothing, that a
/// `u32` does not hold or that do not fit the address space.
pub proof fn layout_fills_up_whole_pages(
    page: usize,
    entries: usize,
    payload_cap: usize,
    filled: nat,
)
    requires
        page > 0,
        filled % (page as nat) == 0,
        payload_cap <= filled < payload_cap + page,
    ensures
        page < 288 + 168 ==> layout_of(page, entries, payload_cap) == Err::<Layout, Error>(
            Error::PageTooSmall(page),
        ),
        page >= 288 + 168 ==> layout_of(page, entries, payload_cap) == (if entries == 0 || filled
            > u32::MAX || page + filled > usize::MAX || entries * (page + filled) > usize::MAX {
            Err::<Layout, Error>(Error::BufferSize)
        } else {
            Ok(Layout { gap: page as nat, payload_cap: filled, entries: entries as nat })
        }),
{
    let p = page as int;
    let other = next_multiple(payload_cap as nat, page as nat) as int;
    next_multiple_is_least(payload_cap as nat, page as nat);
    let a = filled as int / p;
    let b = other / p;
    assert(filled == a * p && other == b * p) by (nonlinear_arith)
        requires
            p > 0,
            filled as int % p == 0,
            other % p == 0,
            a == filled as int / p,
            b == other / p,
    ;
    assert(a == b) by (nonlinear_arith)
        requires
            p > 0,
            a * p - b * p < p,
            b * p - a * p < p,
    ;
    let total = page + filled;
    assert(entries > 0 ==> entries * total > 0) by (nonlinear_arith)
        requires
            total > 0,
    ;
    assert(0 * total == 0) by (nonlinear_arith);
}

} // verus!
