//! One entry of a ring: its state, its identity in the io_uring protocol and the reply written
//! into its buffers.

use crate::bytes;
use crate::errno::{Errno, EINVAL};
use crate::ll::fuse_abi::{fuse_out_header, fuse_uring_cmd_req, FUSE_OUT_HEADER_SIZE};
use crate::text;
use crate::uring::mem::{FLAGS_OFFSET, HEADER_SZ, PAYLOAD_SZ_OFFSET};
use vstd::prelude::*;
use vstd::string::*;

verus! {

/// `user_data` of the eventfd poll. Entry `user_data` is `qid << 32 | idx`, so it never gets
/// here.
pub const WAKE: u64 = u64::MAX;

pub const OUT_HEADER_SZ: usize = FUSE_OUT_HEADER_SIZE;

/// Where an entry is between the kernel and the filesystem. `describe` shows it; a stashed reply
/// is file data and never shown.
pub enum EntryState {
    /// A REGISTER (`last == 0`) or COMMIT_AND_FETCH for `last` is pending in the kernel.
    InKernel { last: u64 },
    /// The handler is running; `direct_ok` means the request has no payload, so a reply may
    /// be written while the request slice is live.
    Dispatching { direct_ok: bool, reply_taken: bool, commit_id: u64 },
    /// A reply arrived during dispatch while the payload was borrowed; written after dispatch.
    Deferred { bytes: Vec<u8>, commit_id: u64 },
    /// Dispatch returned, reply still to come.
    Dispatched { commit_id: u64 },
    /// Buffers being written by exactly one thread.
    Committing,
    /// Buffers written, the entry is queued, awaiting the ring thread's push.
    Pending { commit_id: u64 },
    /// Not in the kernel and not coming back: before REGISTER, after ENOTCONN, a fatal
    /// error, or ring exit.
    Dead,
}

/// `EntryState` with the bytes of a stashed reply as a sequence.
#[verifier::ext_equal]
pub enum StateView {
    InKernel { last: u64 },
    Dispatching { direct_ok: bool, reply_taken: bool, commit_id: u64 },
    Deferred { bytes: Seq<u8>, commit_id: u64 },
    Dispatched { commit_id: u64 },
    Committing,
    Pending { commit_id: u64 },
    Dead,
}

impl StateView {
    /// Fetched and held by userspace.
    pub open spec fn outstanding(self) -> bool {
        self is Dispatching || self is Deferred || self is Dispatched || self is Committing
    }

    /// Pending in the kernel, or queued to become so.
    pub open spec fn in_kernel(self) -> bool {
        self is InKernel || self is Pending
    }
}

impl View for EntryState {
    type V = StateView;

    open spec fn view(&self) -> StateView {
        match *self {
            EntryState::InKernel { last } => StateView::InKernel { last },
            EntryState::Dispatching { direct_ok, reply_taken, commit_id } => {
                StateView::Dispatching { direct_ok, reply_taken, commit_id }
            },
            EntryState::Deferred { bytes, commit_id } => {
                StateView::Deferred { bytes: bytes@, commit_id }
            },
            EntryState::Dispatched { commit_id } => StateView::Dispatched { commit_id },
            EntryState::Committing => StateView::Committing,
            EntryState::Pending { commit_id } => StateView::Pending { commit_id },
            EntryState::Dead => StateView::Dead,
        }
    }
}

impl EntryState {
    /// Fetched and held by userspace, counted as outstanding.
    pub fn is_outstanding(&self) -> (r: bool)
        ensures
            r == self@.outstanding(),
    {
        match self {
            EntryState::Dispatching { .. } => true,
            EntryState::Deferred { .. } => true,
            EntryState::Dispatched { .. } => true,
            EntryState::Committing => true,
            _ => false,
        }
    }
}

/// One entry: its place in the ring, its queue, its buffers and its state.
pub struct RingEntry {
    /// Position in the ring.
    pub idx: u32,
    /// The kernel queue the entry belongs to.
    pub qid: u16,
    /// Offset of the entry's stride in the ring's mapping.
    pub base: usize,
    /// Offset of the payload within the stride.
    pub gap: usize,
    /// Bytes of the payload.
    pub payload_cap: usize,
    pub state: EntryState,
}

#[verifier::ext_equal]
pub struct EntryView {
    pub idx: u32,
    pub qid: u16,
    pub base: usize,
    pub gap: usize,
    pub payload_cap: usize,
    pub state: StateView,
}

impl View for RingEntry {
    type V = EntryView;

    open spec fn view(&self) -> EntryView {
        EntryView {
            idx: self.idx,
            qid: self.qid,
            base: self.base,
            gap: self.gap,
            payload_cap: self.payload_cap,
            state: self.state@,
        }
    }
}

/// `(qid, entry index)` as `user_data`.
pub open spec fn user_data_of(qid: u16, idx: u32) -> u64 {
    (qid * 0x1_0000_0000 + idx) as u64
}

/// `(qid, entry index)` to `user_data`; the index is the position in the ring.
pub fn user_data(qid: u16, idx: u32) -> (r: u64)
    ensures
        r == user_data_of(qid, idx),
        r == qid * 0x1_0000_0000 + idx,
{
    (qid as u64) * 0x1_0000_0000 + idx as u64
}

/// The two halves of a `user_data`; bits above the queue id are ignored.
pub fn decode(ud: u64) -> (r: (u16, u32))
    ensures
        r.0 == (ud / 0x1_0000_0000) % 0x1_0000,
        r.1 == ud % 0x1_0000_0000,
{
    (((ud / 0x1_0000_0000) % 0x1_0000) as u16, (ud % 0x1_0000_0000) as u32)
}

/// Decoding the `user_data` of an entry gives the entry back.
pub proof fn user_data_round_trips(qid: u16, idx: u32)
    ensures
        (user_data_of(qid, idx) / 0x1_0000_0000) % 0x1_0000 == qid,
        user_data_of(qid, idx) % 0x1_0000_0000 == idx,
{
}

/// No entry has the `user_data` of the eventfd poll, and no two entries share one.
pub proof fn user_data_is_unique(qid: u16, idx: u32, other_qid: u16, other_idx: u32)
    ensures
        user_data_of(qid, idx) != WAKE,
        user_data_of(qid, idx) == user_data_of(other_qid, other_idx) ==> qid == other_qid && idx
            == other_idx,
{
}

/// The header of a reply that holds an error number alone.
pub open spec fn errno_header_of(unique: u64, errno: Errno) -> fuse_out_header {
    fuse_out_header { len: OUT_HEADER_SZ as u32, error: (-errno.0) as i32, unique }
}

pub fn errno_header(unique: u64, errno: Errno) -> (r: fuse_out_header)
    requires
        errno.0 != i32::MIN,
    ensures
        r == errno_header_of(unique, errno),
        r.error == -errno.0,
{
    fuse_out_header { len: OUT_HEADER_SZ as u32, error: -errno.code(), unique }
}

/// The header of an empty reply that reports success.
pub open spec fn empty_header_of(unique: u64) -> fuse_out_header {
    fuse_out_header { len: OUT_HEADER_SZ as u32, error: 0, unique }
}

/// The command area of an SQE: no flags, the commit id, the queue, and zeros to its end.
pub open spec fn cmd_bytes_of(qid: u16, commit_id: u64) -> Seq<u8> {
    bytes::ne_bytes(0, 8) + bytes::ne_bytes(commit_id as nat, 8) + bytes::ne_bytes(qid as nat, 2)
        + Seq::new(62, |i: int| 0u8)
}

/// `fuse_uring_cmd_req` at the front of the 80-byte area, the rest zero.
pub fn cmd_bytes(qid: u16, commit_id: u64) -> (r: [u8; 80])
    ensures
        r@ == cmd_bytes_of(qid, commit_id),
{
    let req = fuse_uring_cmd_req { flags: 0, commit_id, qid, padding: [0u8; 6] };
    let bytes: Vec<u8> = req.as_bytes();
    let mut cmd: [u8; 80] = [0u8; 80];
    let mut i: usize = 0;
    while i < bytes.len()
        invariant
            i <= bytes@.len() == 24,
            forall|j: int| 0 <= j < i ==> cmd@[j] == bytes@[j],
            forall|j: int| i <= j < 80 ==> cmd@[j] == 0,
        decreases bytes@.len() - i,
    {
        cmd[i] = bytes[i];
        i = i + 1;
    }
    proof {
        req.lemma_len();
        assert(req.spec_bytes() + Seq::new(56, |i: int| 0u8) =~= cmd_bytes_of(qid, commit_id));
        assert(cmd@ =~= req.spec_bytes() + Seq::new(56, |i: int| 0u8));
    }
    cmd
}

/// A stride with a reply in it: header at the front, payload behind the gap, then the trailer.
pub open spec fn with_reply(
    stride: Seq<u8>,
    gap: nat,
    header: Seq<u8>,
    payload: Seq<u8>,
) -> Seq<u8> {
    let s = bytes::splice(stride, 0, header);
    let s = bytes::splice(s, gap as int, payload);
    let s = bytes::splice(s, FLAGS_OFFSET as int, bytes::ne_bytes(0, 8));
    bytes::splice(s, PAYLOAD_SZ_OFFSET as int, bytes::ne_bytes(payload.len(), 4))
}

/// Whether a reply fits the entry: `iov[0]` is a `fuse_out_header` and the rest fits the payload.
pub open spec fn reply_fits(iov: Seq<&[u8]>, payload_cap: nat) -> bool {
    &&& iov.len() > 0
    &&& iov[0]@.len() == OUT_HEADER_SZ
    &&& bytes::concat(iov.skip(1)).len() <= payload_cap
    &&& bytes::concat(iov.skip(1)).len() <= u32::MAX
}

/// The stride after an errno reply to `commit_id`.
pub open spec fn errno_written(stride: Seq<u8>, gap: nat, commit_id: u64, errno: Errno) -> Seq<
    u8,
> {
    with_reply(stride, gap, errno_header_of(commit_id, errno).spec_bytes(), Seq::empty())
}

/// The stride after the reply `iov` to `commit_id`. A reply that does not fit becomes `EINVAL`.
pub open spec fn reply_written(
    stride: Seq<u8>,
    gap: nat,
    payload_cap: nat,
    commit_id: u64,
    iov: Seq<&[u8]>,
) -> Seq<u8> {
    if reply_fits(iov, payload_cap) {
        with_reply(stride, gap, iov[0]@, bytes::concat(iov.skip(1)))
    } else {
        errno_written(stride, gap, commit_id, Errno(EINVAL))
    }
}

/// Writing `a` and then `b` right behind it is writing `a + b`.
proof fn lemma_splice_append(s: Seq<u8>, at: int, a: Seq<u8>, b: Seq<u8>)
    requires
        0 <= at,
        at + a.len() + b.len() <= s.len(),
    ensures
        bytes::splice(bytes::splice(s, at, a), at + a.len(), b) == bytes::splice(s, at, a + b),
{
    assert(bytes::splice(bytes::splice(s, at, a), at + a.len(), b) =~= bytes::splice(s, at, a + b));
}

proof fn lemma_concat_prefix_len(iov: Seq<&[u8]>, k: int)
    requires
        0 <= k <= iov.len(),
    ensures
        bytes::concat(iov.take(k)).len() <= bytes::concat(iov).len(),
    decreases iov.len() - k,
{
    if k < iov.len() {
        lemma_concat_prefix_len(iov, k + 1);
        assert(iov.take(k + 1).drop_last() =~= iov.take(k));
    } else {
        assert(iov.take(k) =~= iov);
    }
}

/// Bytes of `iov[1..]`.
fn payload_len(iov: &[&[u8]]) -> (r: usize)
    requires
        iov@.len() > 0,
        bytes::concat(iov@.skip(1)).len() <= usize::MAX,
    ensures
        r == bytes::concat(iov@.skip(1)).len(),
{
    let mut n: usize = 0;
    let mut i: usize = 1;
    assert(iov@.skip(1).take(0) =~= Seq::empty());
    while i < iov.len()
        invariant
            1 <= i <= iov@.len(),
            bytes::concat(iov@.skip(1)).len() <= usize::MAX,
            n == bytes::concat(iov@.skip(1).take(i - 1)).len(),
        decreases iov@.len() - i,
    {
        proof {
            assert(iov@.skip(1).take(i as int).drop_last() =~= iov@.skip(1).take(i - 1));
            lemma_concat_prefix_len(iov@.skip(1), i as int);
        }
        n = n + iov[i].len();
        i = i + 1;
    }
    assert(iov@.skip(1).take(iov@.len() - 1) =~= iov@.skip(1));
    n
}

impl RingEntry {
    /// Whether `stride` can be this entry's stride.
    pub open spec fn owns(self, stride: Seq<u8>) -> bool {
        HEADER_SZ <= self.gap && self.gap + self.payload_cap <= stride.len()
    }

    /// The two buffers that a REGISTER names, as offset and length in the ring's mapping: the
    /// header and the payload.
    pub fn iov(&self) -> (r: ((usize, usize), (usize, usize)))
        requires
            self.base + self.gap <= usize::MAX,
        ensures
            r.0 == (self.base, HEADER_SZ),
            r.1 == ((self.base + self.gap) as usize, self.payload_cap),
    {
        ((self.base, HEADER_SZ), (self.base + self.gap, self.payload_cap))
    }

    fn write_parts(&self, stride: &mut [u8], header: &[u8], iov: &[&[u8]], payload_sz: u32)
        requires
            self.owns(old(stride)@),
            header@.len() == OUT_HEADER_SZ,
            iov@.len() > 0,
            payload_sz == bytes::concat(iov@.skip(1)).len(),
            payload_sz <= self.payload_cap,
        ensures
            final(stride)@ == with_reply(
                old(stride)@,
                self.gap as nat,
                header@,
                bytes::concat(iov@.skip(1)),
            ),
    {
        bytes::copy_into(stride, 0, header);
        let ghost headed = stride@;
        let mut off: usize = self.gap;
        let mut i: usize = 1;
        assert(iov@.skip(1).take(0) =~= Seq::empty());
        assert(bytes::splice(headed, self.gap as int, Seq::empty()) =~= headed);
        while i < iov.len()
            invariant
                1 <= i <= iov@.len(),
                self.gap + self.payload_cap <= headed.len(),
                headed.len() == stride@.len(),
                bytes::concat(iov@.skip(1)).len() <= self.payload_cap,
                off == self.gap + bytes::concat(iov@.skip(1).take(i - 1)).len(),
                stride@ == bytes::splice(
                    headed,
                    self.gap as int,
                    bytes::concat(iov@.skip(1).take(i - 1)),
                ),
            decreases iov@.len() - i,
        {
            let _len: usize = stride.len();
            let ghost before = bytes::concat(iov@.skip(1).take(i - 1));
            proof {
                assert(iov@.skip(1).take(i as int).drop_last() =~= iov@.skip(1).take(i - 1));
                assert(iov@.skip(1).take(i as int).last() == iov@[i as int]);
                lemma_concat_prefix_len(iov@.skip(1), i as int);
                lemma_splice_append(headed, self.gap as int, before, iov@[i as int]@);
            }
            bytes::copy_into(stride, off, iov[i]);
            off = off + iov[i].len();
            i = i + 1;
        }
        assert(iov@.skip(1).take(iov@.len() - 1) =~= iov@.skip(1));
        let flags: Vec<u8> = bytes::encode(0, 8);
        let size: Vec<u8> = bytes::encode(payload_sz as u64, 4);
        proof {
            bytes::lemma_ne_bytes_len(0, 8);
            bytes::lemma_ne_bytes_len(payload_sz as nat, 4);
        }
        bytes::copy_into(stride, FLAGS_OFFSET, flags.as_slice());
        bytes::copy_into(stride, PAYLOAD_SZ_OFFSET, size.as_slice());
    }

    /// Writes a reply: header into `[0, 16)`, payload into `[gap, ..)`, then the trailer. A
    /// payload larger than the buffer, or `iov[0]` that is not a `fuse_out_header`, becomes an
    /// `EINVAL` reply, as `/dev/fuse` would make an oversized one.
    ///
    /// The caller is the entry's only writer: the entry is `Committing`, or its CQE just came.
    pub fn write_reply(&self, stride: &mut [u8], commit_id: u64, iov: &[&[u8]])
        requires
            self.owns(old(stride)@),
            bytes::concat(iov@.skip(1)).len() <= usize::MAX,
        ensures
            final(stride)@ == reply_written(
                old(stride)@,
                self.gap as nat,
                self.payload_cap as nat,
                commit_id,
                iov@,
            ),
    {
        if iov.len() == 0 || iov[0].len() != OUT_HEADER_SZ {
            return self.write_errno(stride, commit_id, Errno(EINVAL));
        }
        let n: usize = payload_len(iov);
        if n > self.payload_cap || n as u64 > u32::MAX as u64 {
            return self.write_errno(stride, commit_id, Errno(EINVAL));
        }
        self.write_parts(stride, iov[0], iov, n as u32);
    }

    /// Writes a reply that holds an error number alone.
    pub fn write_errno(&self, stride: &mut [u8], commit_id: u64, errno: Errno)
        requires
            self.owns(old(stride)@),
            errno.0 != i32::MIN,
        ensures
            final(stride)@ == errno_written(old(stride)@, self.gap as nat, commit_id, errno),
    {
        let header: Vec<u8> = errno_header(commit_id, errno).as_bytes();
        let iov: [&[u8]; 1] = [header.as_slice()];
        assert(iov@.skip(1) =~= Seq::empty());
        self.write_parts(stride, header.as_slice(), iov.as_slice(), 0);
    }
}

/// The stride after a reply that was stashed as `bytes` during dispatch: the first 16 bytes are
/// its header, the rest its payload.
pub open spec fn stashed_written(
    stride: Seq<u8>,
    gap: nat,
    payload_cap: nat,
    commit_id: u64,
    bytes: Seq<u8>,
) -> Seq<u8> {
    if OUT_HEADER_SZ <= bytes.len() <= OUT_HEADER_SZ + payload_cap && bytes.len() - OUT_HEADER_SZ
        <= u32::MAX {
        with_reply(
            stride,
            gap,
            bytes.take(OUT_HEADER_SZ as int),
            bytes.skip(OUT_HEADER_SZ as int),
        )
    } else {
        errno_written(stride, gap, commit_id, Errno(EINVAL))
    }
}

impl RingEntry {
    /// Writes the reply that was stashed as `bytes` during dispatch.
    pub fn write_stashed(&self, stride: &mut [u8], commit_id: u64, bytes: &[u8])
        requires
            self.owns(old(stride)@),
        ensures
            final(stride)@ == stashed_written(
                old(stride)@,
                self.gap as nat,
                self.payload_cap as nat,
                commit_id,
                bytes@,
            ),
    {
        let split: usize = if bytes.len() < OUT_HEADER_SZ {
            bytes.len()
        } else {
            OUT_HEADER_SZ
        };
        let (header, payload) = bytes.split_at(split);
        let iov: [&[u8]; 2] = [header, payload];
        proof {
            assert(iov@.skip(1) =~= seq![payload]);
            assert(seq![payload].drop_last() =~= Seq::empty());
            reveal_with_fuel(bytes::concat, 2);
            assert(bytes::concat(iov@.skip(1)) =~= payload@);
            assert(payload@ =~= bytes@.skip(split as int));
            assert(header@ =~= bytes@.take(split as int));
        }
        self.write_reply(stride, commit_id, iov.as_slice());
    }
}

proof fn lemma_concat_split_first(iov: Seq<&[u8]>)
    requires
        iov.len() > 0,
    ensures
        bytes::concat(iov) == iov[0]@ + bytes::concat(iov.skip(1)),
    decreases iov.len(),
{
    if iov.len() == 1 {
        assert(iov.drop_last() =~= Seq::empty());
        assert(iov.skip(1) =~= Seq::empty());
        reveal_with_fuel(bytes::concat, 2);
        assert(bytes::concat(iov) =~= iov[0]@ + bytes::concat(iov.skip(1)));
    } else {
        lemma_concat_split_first(iov.drop_last());
        assert(iov.drop_last().skip(1) =~= iov.skip(1).drop_last());
        assert(bytes::concat(iov) =~= iov[0]@ + bytes::concat(iov.skip(1)));
    }
}

/// A reply that is stashed during dispatch and written afterwards leaves the same bytes as one
/// that is written at once.
pub proof fn stashed_reply_is_the_direct_one(
    stride: Seq<u8>,
    gap: nat,
    payload_cap: nat,
    commit_id: u64,
    iov: Seq<&[u8]>,
)
    requires
        iov.len() > 0,
        iov[0]@.len() == OUT_HEADER_SZ,
    ensures
        stashed_written(stride, gap, payload_cap, commit_id, bytes::concat(iov)) == reply_written(
            stride,
            gap,
            payload_cap,
            commit_id,
            iov,
        ),
{
    lemma_concat_split_first(iov);
    assert(bytes::concat(iov).take(OUT_HEADER_SZ as int) =~= iov[0]@);
    assert(bytes::concat(iov).skip(OUT_HEADER_SZ as int) =~= bytes::concat(iov.skip(1)));
}

/// What the kernel reads of a written reply: the header, the payload and its size, with the
/// flags clear; every other byte of the stride, the commit id among them, keeps its value.
pub proof fn written_reply_reads_back(
    stride: Seq<u8>,
    gap: nat,
    header: Seq<u8>,
    payload: Seq<u8>,
)
    requires
        HEADER_SZ <= gap,
        gap + payload.len() <= stride.len(),
        header.len() == OUT_HEADER_SZ,
        payload.len() <= u32::MAX,
    ensures
        ({
            let w = with_reply(stride, gap, header, payload);
            &&& w.len() == stride.len()
            &&& w.subrange(0, OUT_HEADER_SZ as int) == header
            &&& w.subrange(gap as int, (gap + payload.len()) as int) == payload
            &&& bytes::ne_value(w.subrange(FLAGS_OFFSET as int, FLAGS_OFFSET + 8)) == 0
            &&& bytes::ne_value(w.subrange(PAYLOAD_SZ_OFFSET as int, PAYLOAD_SZ_OFFSET + 4))
                == payload.len()
            &&& forall|i: int|
                OUT_HEADER_SZ <= i < FLAGS_OFFSET || FLAGS_OFFSET + 8 <= i < PAYLOAD_SZ_OFFSET
                    || PAYLOAD_SZ_OFFSET + 4 <= i < gap || gap + payload.len() <= i < stride.len()
                    ==> w[i] == stride[i]
        }),
{
    let w = with_reply(stride, gap, header, payload);
    bytes::lemma_pow256_sizes();
    bytes::lemma_ne_bytes_len(0, 8);
    bytes::lemma_ne_bytes_len(payload.len(), 4);
    bytes::decode_of_encode(0, 8);
    bytes::decode_of_encode(payload.len(), 4);
    assert(w.subrange(0, OUT_HEADER_SZ as int) =~= header);
    assert(w.subrange(gap as int, (gap + payload.len()) as int) =~= payload);
    assert(w.subrange(FLAGS_OFFSET as int, FLAGS_OFFSET + 8) =~= bytes::ne_bytes(0, 8));
    assert(w.subrange(PAYLOAD_SZ_OFFSET as int, PAYLOAD_SZ_OFFSET + 4) =~= bytes::ne_bytes(
        payload.len(),
        4,
    ));
}

/// `true` or `false`.
pub open spec fn bool_text(b: bool) -> Seq<char> {
    if b {
        "true"@
    } else {
        "false"@
    }
}

fn bool_str(b: bool) -> (r: &'static str)
    ensures
        r@ == bool_text(b),
{
    if b {
        "true"
    } else {
        "false"
    }
}

impl StateView {
    /// The state in words: its name and its fields, of a stashed reply only the length.
    pub open spec fn description(self) -> Seq<char> {
        match self {
            StateView::InKernel { last } => "InKernel { last: "@ + text::decimal(last as nat)
                + " }"@,
            StateView::Dispatching { direct_ok, reply_taken, commit_id } => {
                "Dispatching { direct_ok: "@ + bool_text(direct_ok) + ", reply_taken: "@
                    + bool_text(reply_taken) + ", commit_id: "@ + text::decimal(commit_id as nat)
                    + " }"@
            },
            StateView::Deferred { bytes, commit_id } => "Deferred { bytes: "@ + text::decimal(
                bytes.len(),
            ) + " bytes, commit_id: "@ + text::decimal(commit_id as nat) + " }"@,
            StateView::Dispatched { commit_id } => "Dispatched { commit_id: "@ + text::decimal(
                commit_id as nat,
            ) + " }"@,
            StateView::Committing => "Committing"@,
            StateView::Pending { commit_id } => "Pending { commit_id: "@ + text::decimal(
                commit_id as nat,
            ) + " }"@,
            StateView::Dead => "Dead"@,
        }
    }
}

impl EntryState {
    /// The state in words; of a stashed reply only the length, because the bytes are file data.
    pub fn describe(&self) -> (r: String)
        ensures
            r@ == self@.description(),
    {
        let mut out = String::new();
        match self {
            EntryState::InKernel { last } => {
                out.append("InKernel { last: ");
                text::append_decimal(&mut out, *last);
                out.append(" }");
            },
            EntryState::Dispatching { direct_ok, reply_taken, commit_id } => {
                out.append("Dispatching { direct_ok: ");
                out.append(bool_str(*direct_ok));
                out.append(", reply_taken: ");
                out.append(bool_str(*reply_taken));
                out.append(", commit_id: ");
                text::append_decimal(&mut out, *commit_id);
                out.append(" }");
            },
            EntryState::Deferred { bytes, commit_id } => {
                out.append("Deferred { bytes: ");
                text::append_decimal(&mut out, bytes.len() as u64);
                out.append(" bytes, commit_id: ");
                text::append_decimal(&mut out, *commit_id);
                out.append(" }");
            },
            EntryState::Dispatched { commit_id } => {
                out.append("Dispatched { commit_id: ");
                text::append_decimal(&mut out, *commit_id);
                out.append(" }");
            },
            EntryState::Committing => out.append("Committing"),
            EntryState::Pending { commit_id } => {
                out.append("Pending { commit_id: ");
                text::append_decimal(&mut out, *commit_id);
                out.append(" }");
            },
            EntryState::Dead => out.append("Dead"),
        }
        assert(out@ =~= self@.description());
        out
    }
}

/// A header in a stride, as the kernel reads it: its length, its error number and the request that
/// it answers.
pub open spec fn header_reads(w: Seq<u8>, len: nat, error: int, unique: u64) -> bool {
    &&& bytes::ne_value(w.subrange(0, 4)) == len
    &&& bytes::ne_value(w.subrange(4, 8)) == if error >= 0 {
        error
    } else {
        0x1_0000_0000 + error
    }
    &&& bytes::ne_value(w.subrange(8, 16)) == unique
}

proof fn lemma_header_reads(w: Seq<u8>, header: fuse_out_header)
    requires
        w.len() >= 16,
        w.subrange(0, 16) == header.spec_bytes(),
    ensures
        header_reads(w, header.len as nat, header.error as int, header.unique),
{
    header.fields_read_back();
    assert(w.subrange(0, 16).subrange(0, 4) =~= w.subrange(0, 4));
    assert(w.subrange(0, 16).subrange(4, 8) =~= w.subrange(4, 8));
    assert(w.subrange(0, 16).subrange(8, 16) =~= w.subrange(8, 16));
}

/// An errno reply is a header alone, with the number negated, and names the request that it
/// answers: read back from the stride it is of 16 bytes, without payload and with the flags clear.
pub proof fn errno_reply_names_its_request(
    stride: Seq<u8>,
    gap: nat,
    commit_id: u64,
    errno: Errno,
    i: int,
)
    requires
        288 <= gap <= stride.len(),
        errno.0 != i32::MIN,
    ensures
        errno_header_of(commit_id, errno).unique == commit_id,
        errno_header_of(commit_id, errno).error + errno.0 == 0,
        errno_header_of(commit_id, errno).len == 16,
        ({
            let w = errno_written(stride, gap, commit_id, errno);
            &&& w.len() == stride.len()
            &&& header_reads(w, 16, -errno.0, commit_id)
            &&& bytes::ne_value(w.subrange(256, 264)) == 0
            &&& bytes::ne_value(w.subrange(272, 276)) == 0
            &&& 16 <= i < 256 || 264 <= i < 272 || 276 <= i < w.len() ==> w[i] == stride[i]
        }),
{
    let header = errno_header_of(commit_id, errno);
    header.lemma_len();
    written_reply_reads_back(stride, gap, header.spec_bytes(), Seq::empty());
    lemma_header_reads(errno_written(stride, gap, commit_id, errno), header);
}

/// An empty reply reports success to the request that it answers.
pub proof fn empty_reply_names_its_request(stride: Seq<u8>, gap: nat, payload_cap: nat, id: u64)
    requires
        288 <= gap,
        gap + payload_cap <= stride.len(),
    ensures
        header_reads(
            stashed_written(stride, gap, payload_cap, id, empty_header_of(id).spec_bytes()),
            16,
            0,
            id,
        ),
{
    let header = empty_header_of(id);
    let bytes = header.spec_bytes();
    header.lemma_len();
    assert(bytes.take(16) =~= bytes);
    assert(bytes.skip(16) =~= Seq::empty());
    written_reply_reads_back(stride, gap, bytes, Seq::empty());
    lemma_header_reads(with_reply(stride, gap, bytes, Seq::empty()), header);
}

/// A reply of a header and any parts of payload that the entry has room for arrives whole: the
/// header at the front, the parts one after the other behind the gap, and their size in the trailer.
pub proof fn reply_with_room_arrives_whole(
    stride: Seq<u8>,
    gap: nat,
    payload_cap: nat,
    commit_id: u64,
    header: &[u8],
    parts: Seq<&[u8]>,
)
    requires
        288 <= gap,
        gap + payload_cap <= stride.len(),
        header@.len() == 16,
        bytes::concat(parts).len() <= payload_cap,
        payload_cap <= u32::MAX,
    ensures
        ({
            let w = reply_written(stride, gap, payload_cap, commit_id, seq![header] + parts);
            let size = bytes::concat(parts).len();
            &&& w.subrange(0, 16) == header@
            &&& w.subrange(gap as int, (gap + size) as int) == bytes::concat(parts)
            &&& bytes::ne_value(w.subrange(256, 264)) == 0
            &&& bytes::ne_value(w.subrange(272, 276)) == size
            &&& w == stashed_written(
                stride,
                gap,
                payload_cap,
                commit_id,
                header@ + bytes::concat(parts),
            )
        }),
{
    let iov = seq![header] + parts;
    assert(iov.skip(1) =~= parts);
    written_reply_reads_back(stride, gap, header@, bytes::concat(parts));
    let all = header@ + bytes::concat(parts);
    assert(all.take(16) =~= header@);
    assert(all.skip(16) =~= bytes::concat(parts));
}

/// A reply without a header of its own, or with more payload than the entry has room for, is
/// answered with `EINVAL`, directly or after it was stashed.
pub proof fn reply_without_room_is_refused(
    stride: Seq<u8>,
    gap: nat,
    payload_cap: nat,
    commit_id: u64,
    iov: Seq<&[u8]>,
    stashed: Seq<u8>,
)
    requires
        288 <= gap,
        gap + payload_cap <= stride.len(),
    ensures
        iov.len() == 0 || iov[0]@.len() != 16 || bytes::concat(iov.skip(1)).len() > payload_cap
            ==> header_reads(
            reply_written(stride, gap, payload_cap, commit_id, iov),
            16,
            -22,
            commit_id,
        ),
        stashed.len() < 16 || stashed.len() > 16 + payload_cap ==> header_reads(
            stashed_written(stride, gap, payload_cap, commit_id, stashed),
            16,
            -22,
            commit_id,
        ),
{
    errno_reply_names_its_request(stride, gap, commit_id, Errno(EINVAL), 0);
}

/// A command carries the queue and the request that it is about: no flags, the commit id, the
/// queue id, and zeros up to the 80 bytes of its area.
pub proof fn command_names_its_queue_and_request(qid: u16, commit_id: u64, i: int)
    ensures
        ({
            let cmd = cmd_bytes_of(qid, commit_id);
            &&& cmd.len() == 80
            &&& bytes::ne_value(cmd.subrange(0, 8)) == 0
            &&& bytes::ne_value(cmd.subrange(8, 16)) == commit_id
            &&& bytes::ne_value(cmd.subrange(16, 18)) == qid
            &&& 18 <= i < 80 ==> cmd[i] == 0
        }),
{
    let cmd = cmd_bytes_of(qid, commit_id);
    bytes::lemma_pow256_sizes();
    bytes::lemma_ne_bytes_len(0, 8);
    bytes::lemma_ne_bytes_len(commit_id as nat, 8);
    bytes::lemma_ne_bytes_len(qid as nat, 2);
    bytes::decode_of_encode(0, 8);
    bytes::decode_of_encode(commit_id as nat, 8);
    bytes::decode_of_encode(qid as nat, 2);
    assert(cmd.subrange(0, 8) =~= bytes::ne_bytes(0, 8));
    assert(cmd.subrange(8, 16) =~= bytes::ne_bytes(commit_id as nat, 8));
    assert(cmd.subrange(16, 18) =~= bytes::ne_bytes(qid as nat, 2));
}

/// An entry is counted as held from its fetch until its hand-off, and as the kernel's from its
/// push until its completion; a queued one counts for the kernel already.
pub proof fn states_are_counted_once(id: u64, direct_ok: bool, reply_taken: bool, reply: Seq<u8>)
    ensures
        ({
            let dispatching = StateView::Dispatching { direct_ok, reply_taken, commit_id: id };
            let deferred = StateView::Deferred { bytes: reply, commit_id: id };
            let dispatched = StateView::Dispatched { commit_id: id };
            let in_kernel = StateView::InKernel { last: id };
            let pending = StateView::Pending { commit_id: id };
            &&& dispatching.outstanding() && deferred.outstanding() && dispatched.outstanding()
            &&& StateView::Committing.outstanding()
            &&& in_kernel.in_kernel() && pending.in_kernel()
            &&& !StateView::Dead.in_kernel() && !StateView::Dead.outstanding()
        }),
        forall|state: StateView| !(state.in_kernel() && #[trigger] state.outstanding()),
{
}

/// A state in words tells of a stashed reply nothing but its length, and names the request of every
/// state that has one.
pub proof fn stashed_reply_is_not_shown(a: Seq<u8>, b: Seq<u8>, commit_id: u64)
    requires
        a.len() == b.len(),
    ensures
        (StateView::Deferred { bytes: a, commit_id }).description() == (StateView::Deferred {
            bytes: b,
            commit_id,
        }).description(),
        text::ends_with(
            (StateView::Deferred { bytes: a, commit_id }).description(),
            text::decimal(commit_id as nat) + " }"@,
        ),
        text::ends_with(
            (StateView::Dispatched { commit_id }).description(),
            text::decimal(commit_id as nat) + " }"@,
        ),
        text::ends_with(
            (StateView::Pending { commit_id }).description(),
            text::decimal(commit_id as nat) + " }"@,
        ),
        text::ends_with(
            (StateView::InKernel { last: commit_id }).description(),
            text::decimal(commit_id as nat) + " }"@,
        ),
        forall|direct_ok: bool, reply_taken: bool|
            text::ends_with(
                #[trigger] (StateView::Dispatching {
                    direct_ok,
                    reply_taken,
                    commit_id,
                }).description(),
                text::decimal(commit_id as nat) + " }"@,
            ),
        bool_text(true) == "true"@ && bool_text(false) == "false"@,
{
    let id = text::decimal(commit_id as nat);
    text::lemma_ends_with("InKernel { last: "@, id, " }"@);
    assert forall|direct_ok: bool, reply_taken: bool|
        text::ends_with(
            #[trigger] (StateView::Dispatching {
                direct_ok,
                reply_taken,
                commit_id,
            }).description(),
            id + " }"@,
        ) by {
        text::lemma_ends_with(
            "Dispatching { direct_ok: "@ + bool_text(direct_ok) + ", reply_taken: "@ + bool_text(
                reply_taken,
            ) + ", commit_id: "@,
            id,
            " }"@,
        );
    }
    let deferred = "Deferred { bytes: "@ + text::decimal(a.len()) + " bytes, commit_id: "@;
    text::lemma_ends_with(deferred, id, " }"@);
    text::lemma_ends_with("Dispatched { commit_id: "@, id, " }"@);
    text::lemma_ends_with("Pending { commit_id: "@, id, " }"@);
}

} // verus!
