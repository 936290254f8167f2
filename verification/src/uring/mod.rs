//! FUSE-over-io_uring transport (kernel protocol 7.42 and later).
//!
//! Userspace registers per-CPU queues of entries with `IORING_OP_URING_CMD` SQEs on an SQE128
//! ring. The kernel fills an entry with a request and posts a CQE; the reply is written into the
//! same entry and committed with `COMMIT_AND_FETCH`, which re-arms the entry. Every SQE of a ring
//! is submitted by that ring's own thread, because the kernel delivers the next request into an
//! entry as task work of the task that submitted the entry's SQE.

pub mod accounting;
pub mod cpus;
pub mod entry;
pub mod mem;
pub mod protocol;
pub mod ring;
pub mod staging;
pub mod thread;

use crate::error::Error;
use crate::text;
use vstd::prelude::*;

verus! {

/// Largest SQ io_uring accepts; the CQ may be twice that.
pub const IORING_MAX_ENTRIES: usize = 32768;

/// The first of `p`, `2 * p`, `4 * p`, ... that is not less than `n`.
pub open spec fn doubled_to(p: nat, n: nat) -> nat
    decreases
            (if p < n {
                n - p
            } else {
                0
            }),
{
    if p >= n || p == 0 {
        p
    } else {
        doubled_to(2 * p, n)
    }
}

/// The least power of two that is not less than `n`.
pub open spec fn next_power_of_two(n: nat) -> nat {
    doubled_to(1, n)
}

pub open spec fn clamp(x: nat, lo: nat, hi: nat) -> nat {
    if x < lo {
        lo
    } else if x > hi {
        hi
    } else {
        x
    }
}

/// Submission and completion queue sizes for a ring of `entries` entries.
pub open spec fn sizes_of(entries: nat) -> (nat, nat) {
    let sq = clamp(next_power_of_two(entries), 8, IORING_MAX_ENTRIES as nat);
    (sq, clamp(next_power_of_two(2 * entries), sq, (2 * IORING_MAX_ENTRIES) as nat))
}

proof fn lemma_doubled_to(p: nat, n: nat)
    requires
        p > 0,
    ensures
        doubled_to(p, n) >= n,
        doubled_to(p, n) >= p,
        doubled_to(p, n) < 2 * n || doubled_to(p, n) == p,
    decreases
            (if p < n {
                n - p
            } else {
                0
            }),
{
    if p < n {
        lemma_doubled_to(2 * p, n);
    }
}

proof fn lemma_doubled_power(k: nat, n: nat) -> (j: nat)
    requires
        k == 0 || vstd::arithmetic::power2::pow2((k - 1) as nat) < n,
    ensures
        doubled_to(vstd::arithmetic::power2::pow2(k), n) == vstd::arithmetic::power2::pow2(j),
        j == 0 || vstd::arithmetic::power2::pow2((j - 1) as nat) < n,
    decreases
            (if vstd::arithmetic::power2::pow2(k) < n {
                n - vstd::arithmetic::power2::pow2(k)
            } else {
                0
            }),
{
    vstd::arithmetic::power2::lemma_pow2_pos(k);
    if vstd::arithmetic::power2::pow2(k) < n {
        vstd::arithmetic::power2::lemma_pow2_unfold(k + 1);
        lemma_doubled_power(k + 1, n)
    } else {
        k
    }
}

/// One, doubled until it is not less than `n`, is the least power of two that is not: a power of
/// two, and no greater than any other that is not less than `n`.
pub proof fn next_power_of_two_is_least(n: nat, m: nat) -> (j: nat)
    requires
        vstd::arithmetic::power2::pow2(m) >= n,
    ensures
        next_power_of_two(n) == vstd::arithmetic::power2::pow2(j),
        n <= next_power_of_two(n) <= vstd::arithmetic::power2::pow2(m),
{
    vstd::arithmetic::power2::lemma2_to64();
    lemma_doubled_to(1, n);
    let j = lemma_doubled_power(0, n);
    if m < j {
        if m < j - 1 {
            vstd::arithmetic::power2::lemma_pow2_strictly_increases(m, (j - 1) as nat);
        }
    } else if m > j {
        vstd::arithmetic::power2::lemma_pow2_strictly_increases(j, m);
    }
    j
}

/// `next_power_of_two(n)`, but never more than `max`, which is itself a power of two.
fn power_of_two_up_to(n: u64, max: u64) -> (r: u64)
    requires
        max == 0x8000 || max == 0x1_0000,
    ensures
        r as nat == clamp(next_power_of_two(n as nat), 0, max as nat),
{
    let mut p: u64 = 1;
    while p < n && p < max
        invariant
            max == 0x8000 || max == 0x1_0000,
            1 <= p,
            p <= max,
            doubled_to(p as nat, n as nat) == next_power_of_two(n as nat),
            p == 1 || p == 2 || p == 4 || p == 8 || p == 0x10 || p == 0x20 || p == 0x40 || p
                == 0x80 || p == 0x100 || p == 0x200 || p == 0x400 || p == 0x800 || p == 0x1000 || p
                == 0x2000 || p == 0x4000 || p == 0x8000 || p == 0x1_0000,
        decreases max - p,
    {
        p = 2 * p;
    }
    proof {
        lemma_doubled_to(p as nat, n as nat);
    }
    p
}

/// Submission and completion queue sizes for a ring of `entries` entries. The kernel needs
/// `cq >= sq` when the CQ size is given explicitly. The power of two above twice the entries must
/// be a `usize`.
pub fn ring_sizes(entries: usize) -> (r: (u32, u32))
    requires
        4 * entries <= usize::MAX + 1,
    ensures
        (r.0 as nat, r.1 as nat) == sizes_of(entries as nat),
{
    let mut sq: u64 = power_of_two_up_to(entries as u64, 0x8000);
    if sq < 8 {
        sq = 8;
    }
    let mut cq: u64 = power_of_two_up_to(2 * (entries as u64), 0x1_0000);
    if cq < sq {
        cq = sq;
    }
    (sq as u32, cq as u32)
}

/// The queue sizes keep to the kernel's limits, and while the entries fit an io_uring every one
/// of them has a place in both queues.
pub proof fn sizes_follow_the_limits(entries: nat)
    ensures
        ({
            let (sq, cq) = sizes_of(entries);
            &&& 8 <= sq <= IORING_MAX_ENTRIES
            &&& sq <= cq <= 2 * IORING_MAX_ENTRIES
            &&& entries <= IORING_MAX_ENTRIES ==> entries <= sq && 2 * entries <= cq
        }),
{
    lemma_doubled_to(1, entries);
    lemma_doubled_to(1, 2 * entries);
}

/// Number of rings for `n_queues` queues: one per thread, but no more than queues.
pub open spec fn ring_count(n_queues: u16, n_threads: usize) -> nat {
    let threads = if n_threads == 0 {
        1nat
    } else {
        n_threads as nat
    };
    if threads < n_queues {
        threads
    } else {
        n_queues as nat
    }
}

/// The queues of ring `r` of `rings`: `r`, `r + rings`, `r + 2 * rings`, ... below `n_queues`.
pub open spec fn queues_of(n_queues: u16, rings: nat, r: int) -> Seq<u16> {
    Seq::new(
        ((n_queues - r + rings - 1) / (rings as int)) as nat,
        |k: int| (r + k * rings) as u16,
    )
}

fn queues_of_ring(n_queues: u16, rings: usize, r: usize) -> (qids: Vec<u16>)
    requires
        r < rings <= n_queues,
    ensures
        qids@ == queues_of(n_queues, rings as nat, r as int),
{
    let n: usize = n_queues as usize;
    let mut qids: Vec<u16> = Vec::new();
    let mut q: usize = r;
    assert(0 * rings == 0) by (nonlinear_arith);
    while q < n
        invariant
            n == n_queues,
            r < rings <= n,
            q == r + qids@.len() * rings,
            r + qids@.len() * rings < n + rings,
            forall|k: int| 0 <= k < qids@.len() ==> (#[trigger] qids@[k]) == (r + k * rings) as u16,
        decreases n + rings - q,
    {
        assert((qids@.len() + 1) * rings == qids@.len() * rings + rings) by (nonlinear_arith);
        qids.push(q as u16);
        q = q + rings;
    }
    proof {
        let len = qids@.len() as int;
        let m = rings as int;
        assert(len == (n - r + m - 1) / m) by (nonlinear_arith)
            requires
                m > 0,
                n <= r + len * m < n + m,
        ;
        assert(qids@ =~= queues_of(n_queues, rings as nat, r as int));
    }
    qids
}

/// Assigns the queues `0..n_queues` round-robin to `min(n_threads, n_queues)` rings. Ring `r`
/// owns queue `q` when `q % rings == r`, so every queue belongs to exactly one ring.
pub fn partition(n_queues: u16, n_threads: usize) -> (rings: Vec<Vec<u16>>)
    ensures
        rings@.len() == ring_count(n_queues, n_threads),
        forall|r: int|
            0 <= r < rings@.len() ==> (#[trigger] rings@[r])@ == queues_of(
                n_queues,
                rings@.len(),
                r,
            ),
{
    let threads: usize = if n_threads == 0 {
        1
    } else {
        n_threads
    };
    let count: usize = if threads < n_queues as usize {
        threads
    } else {
        n_queues as usize
    };
    let mut rings: Vec<Vec<u16>> = Vec::new();
    let mut r: usize = 0;
    while r < count
        invariant
            r <= count <= n_queues,
            rings@.len() == r,
            forall|k: int|
                0 <= k < r ==> (#[trigger] rings@[k])@ == queues_of(n_queues, count as nat, k),
        decreases count - r,
    {
        rings.push(queues_of_ring(n_queues, count, r));
        r = r + 1;
    }
    rings
}

/// Every queue belongs to ring `q % rings`, where it stands at position `q / rings`, and to no
/// other ring, and it stands there once.
pub proof fn partition_is_round_robin_and_complete(n_queues: u16, rings: nat, q: u16)
    requires
        0 < rings <= n_queues,
        q < n_queues,
    ensures
        ({
            let own = queues_of(n_queues, rings, (q % (rings as u16)) as int);
            &&& (q as int / rings as int) < own.len()
            &&& own[q as int / rings as int] == q
        }),
        forall|r: int, k: int|
            0 <= r < rings && 0 <= k < queues_of(n_queues, rings, r).len() && (
            #[trigger] queues_of(n_queues, rings, r)[k]) == q ==> r == q as int % rings as int && k
                == q as int / rings as int,
{
    let m = rings as int;
    let r0 = q as int % m;
    let k0 = q as int / m;
    assert(q == r0 + k0 * m && 0 <= r0 < m && 0 <= k0) by (nonlinear_arith)
        requires
            m > 0,
            q >= 0,
            r0 == q as int % m,
            k0 == q as int / m,
    ;
    assert(k0 < (n_queues - r0 + m - 1) / m) by (nonlinear_arith)
        requires
            m > 0,
            q == r0 + k0 * m,
            q < n_queues,
    ;
    assert forall|r: int, k: int|
        0 <= r < rings && 0 <= k < queues_of(n_queues, rings, r).len() && (#[trigger] queues_of(
            n_queues,
            rings,
            r,
        )[k]) == q implies r == r0 && k == k0 by {
        let len = queues_of(n_queues, rings, r).len() as int;
        assert(r + k * m < n_queues) by (nonlinear_arith)
            requires
                m > 0,
                0 <= k < len,
                len == (n_queues - r + m - 1) / m,
        ;
        assert(k * m >= 0) by (nonlinear_arith)
            requires
                m > 0,
                k >= 0,
        ;
        assert(r + k * m == q);
        assert(r == r0 && k == k0) by (nonlinear_arith)
            requires
                m > 0,
                0 <= r < m,
                0 <= r0 < m,
                r + k * m == r0 + k0 * m,
        ;
    }
}

/// One ring of a session: the queues it serves, and the sizes of its io_uring.
#[derive(Debug)]
pub struct RingPlan {
    pub qids: Vec<u16>,
    pub sq: u32,
    pub cq: u32,
}

/// Every ring of a session.
#[derive(Debug)]
pub struct RingSet {
    pub rings: Vec<RingPlan>,
}

/// Queues of the ring that has the most.
pub open spec fn largest_ring(n_queues: u16, n_threads: usize) -> nat {
    if n_queues == 0 {
        0
    } else {
        queues_of(n_queues, ring_count(n_queues, n_threads), 0).len()
    }
}

/// Ring 0 has the most queues, and none of the rings is without one.
pub proof fn first_ring_is_largest(n_queues: u16, n_threads: usize, r: int)
    requires
        0 <= r < ring_count(n_queues, n_threads),
    ensures
        0 < queues_of(n_queues, ring_count(n_queues, n_threads), r).len() <= largest_ring(
            n_queues,
            n_threads,
        ) <= n_queues,
{
    let m = ring_count(n_queues, n_threads) as int;
    assert(0 < (n_queues - r + m - 1) / m <= (n_queues + m - 1) / m) by (nonlinear_arith)
        requires
            0 <= r < m <= n_queues,
    ;
    assert((n_queues + m - 1) / m <= n_queues) by (nonlinear_arith)
        requires
            1 <= m <= n_queues,
    ;
}

impl RingSet {
    /// Distributes the queues over `min(n_threads, queues)` rings, and refuses what the largest
    /// of them cannot hold: beyond that the completion queue overflows and fetches can be lost.
    pub fn plan(n_queues: u16, n_threads: usize, depth: u32) -> (r: Result<RingSet, Error>)
        ensures
            ({
                let largest = largest_ring(n_queues, n_threads);
                match r {
                    Err(e) => largest * depth > IORING_MAX_ENTRIES && e == (Error::RingTooLarge {
                        largest: largest as usize,
                        depth,
                    }),
                    Ok(set) => {
                        &&& largest * depth <= IORING_MAX_ENTRIES
                        &&& set.rings@.len() == ring_count(n_queues, n_threads)
                        &&& forall|i: int|
                            0 <= i < set.rings@.len() ==> {
                                let ring = #[trigger] set.rings@[i];
                                &&& ring.qids@ == queues_of(n_queues, set.rings@.len(), i)
                                &&& (ring.sq as nat, ring.cq as nat) == sizes_of(
                                    ring.qids@.len() * depth as nat,
                                )
                            }
                    },
                }
            }),
    {
        let mut queues: Vec<Vec<u16>> = partition(n_queues, n_threads);
        let count: usize = queues.len();
        let largest: usize = if count == 0 {
            0
        } else {
            queues[0].len()
        };
        proof {
            if count > 0 {
                first_ring_is_largest(n_queues, n_threads, 0);
            }
        }
        let entries: u64 = match (largest as u64).checked_mul(depth as u64) {
            Some(entries) => entries,
            None => u64::MAX,
        };
        if entries > IORING_MAX_ENTRIES as u64 {
            return Err(Error::RingTooLarge { largest, depth });
        }
        let ghost all = queues@;
        let mut rings: Vec<RingPlan> = Vec::new();
        let mut i: usize = 0;
        while i < count
            invariant
                i <= count == all.len() == ring_count(n_queues, n_threads),
                queues@ == all,
                largest == largest_ring(n_queues, n_threads),
                largest * depth <= IORING_MAX_ENTRIES,
                forall|r: int|
                    0 <= r < all.len() ==> (#[trigger] all[r])@ == queues_of(
                        n_queues,
                        count as nat,
                        r,
                    ),
                rings@.len() == i,
                forall|k: int|
                    0 <= k < i ==> {
                        let ring = #[trigger] rings@[k];
                        &&& ring.qids@ == queues_of(n_queues, count as nat, k)
                        &&& (ring.sq as nat, ring.cq as nat) == sizes_of(
                            ring.qids@.len() * depth as nat,
                        )
                    },
            decreases count - i,
        {
            let qids: Vec<u16> = clone_qids(&queues[i]);
            proof {
                first_ring_is_largest(n_queues, n_threads, i as int);
                assert(qids@.len() * depth <= largest * depth) by (nonlinear_arith)
                    requires
                        qids@.len() <= largest,
                ;
            }
            let (sq, cq): (u32, u32) = ring_sizes(qids.len() * depth as usize);
            rings.push(RingPlan { qids, sq, cq });
            i = i + 1;
        }
        Ok(RingSet { rings })
    }
}

fn clone_qids(qids: &Vec<u16>) -> (r: Vec<u16>)
    ensures
        r@ == qids@,
{
    let mut out: Vec<u16> = Vec::new();
    out.extend_from_slice(qids.as_slice());
    assert(out@ =~= qids@);
    out
}

/// Whether ring `index` is registered.
pub open spec fn registered(index: usize, reported: Option<Result<(), Error>>) -> Result<
    (),
    Error,
> {
    match reported {
        Some(result) => result,
        None => Err(Error::ExitedBeforeRegistering(index)),
    }
}

/// Whether ring `index` is registered, from what its thread reported; `None` when the thread is
/// gone without a report. The first ring that is not makes the session abandon all of them.
pub fn registration(index: usize, reported: Option<Result<(), Error>>) -> (r: Result<(), Error>)
    ensures
        r == registered(index, reported),
{
    match reported {
        Some(result) => result,
        None => Err(Error::ExitedBeforeRegistering(index)),
    }
}

/// How the start of a session's rings goes on.
#[derive(Debug, Clone, Copy, PartialEq, Eq)]
pub enum StartAction {
    /// Wait for the report of this ring.
    Await(usize),
    /// Abandon every ring, the registered ones too, and fail.
    AbandonAll(Error),
    /// Every ring is registered.
    Started,
}

/// What follows on the report of ring `index` of `rings`.
pub open spec fn start_after(rings: usize, index: usize, reported: Option<Result<(), Error>>)
    -> StartAction {
    match reported {
        Some(Ok(())) => if index + 1 < rings {
            StartAction::Await((index + 1) as usize)
        } else {
            StartAction::Started
        },
        Some(Err(e)) => StartAction::AbandonAll(e),
        None => StartAction::AbandonAll(Error::ExitedBeforeRegistering(index)),
    }
}

/// What follows on the report of ring `index` of `rings`.
pub fn after_report(rings: usize, index: usize, reported: Option<Result<(), Error>>) -> (r:
    StartAction)
    requires
        index < rings,
    ensures
        r == start_after(rings, index, reported),
{
    match registration(index, reported) {
        Err(err) => StartAction::AbandonAll(err),
        Ok(()) => {
            if index + 1 < rings {
                StartAction::Await(index + 1)
            } else {
                StartAction::Started
            }
        },
    }
}

/// The name of the thread of ring `index`.
pub fn ring_thread_name(index: usize) -> (r: String)
    ensures
        r@ == "fuser-ring-"@ + text::decimal(index as nat),
{
    text::numbered("fuser-ring-", index as u64)
}

/// While the entries fit an io_uring, the submission queue is the least power of two that holds
/// them and eight, and the completion queue the least that holds each twice and is no smaller than
/// the submission queue; beyond that both are as large as an io_uring allows.
pub proof fn queues_are_as_small_as_can_be(entries: nat, k: nat)
    ensures
        ({
            let (sq, cq) = sizes_of(entries);
            let two_to_k = vstd::arithmetic::power2::pow2(k);
            &&& exists|j: nat| sq == #[trigger] vstd::arithmetic::power2::pow2(j)
            &&& exists|j: nat| cq == #[trigger] vstd::arithmetic::power2::pow2(j)
            &&& entries <= 32768 ==> {
                &&& sq >= entries && sq >= 8
                &&& two_to_k >= entries && two_to_k >= 8 ==> sq <= two_to_k
                &&& cq >= 2 * entries && cq >= sq
                &&& two_to_k >= 2 * entries && two_to_k >= sq ==> cq <= two_to_k
            }
            &&& entries > 32768 ==> sq == 32768 && cq == 65536
        }),
{
    vstd::arithmetic::power2::lemma2_to64();
    lemma_doubled_to(1, entries);
    lemma_doubled_to(1, 2 * entries);
    let _ = lemma_doubled_power(0, entries);
    let _ = lemma_doubled_power(0, 2 * entries);
    assert(vstd::arithmetic::power2::pow2(3) == 8);
    assert(vstd::arithmetic::power2::pow2(15) == 32768);
    assert(vstd::arithmetic::power2::pow2(16) == 65536);
    if entries <= 32768 {
        let _ = next_power_of_two_is_least(entries, 15);
        let _ = next_power_of_two_is_least(2 * entries, 16);
        if vstd::arithmetic::power2::pow2(k) >= entries {
            let _ = next_power_of_two_is_least(entries, k);
        }
        if vstd::arithmetic::power2::pow2(k) >= 2 * entries {
            let _ = next_power_of_two_is_least(2 * entries, k);
        }
    }
}

/// There are as many rings as threads, at least one, but no more than queues.
pub proof fn rings_are_threads_or_queues(n_queues: u16, n_threads: usize)
    ensures
        ({
            let rings = ring_count(n_queues, n_threads);
            &&& rings <= n_queues
            &&& n_threads > 0 ==> rings <= n_threads
            &&& n_threads == 0 ==> rings <= 1
            &&& n_queues > 0 ==> rings > 0
            &&& rings == n_queues || rings == n_threads || (n_threads == 0 && rings == 1)
        }),
{
}

/// What stands in a ring's list is a queue of that ring: below the number of queues, in ascending
/// order, and the ring's own by the remainder.
pub proof fn ring_lists_its_own_queues(n_queues: u16, rings: nat, r: int, k: int)
    requires
        0 <= r < rings <= n_queues,
        0 <= k < queues_of(n_queues, rings, r).len(),
    ensures
        queues_of(n_queues, rings, r)[k] < n_queues,
        queues_of(n_queues, rings, r)[k] as int % rings as int == r,
        k > 0 ==> queues_of(n_queues, rings, r)[k] == queues_of(n_queues, rings, r)[k - 1] + rings,
        k == 0 ==> queues_of(n_queues, rings, r)[k] == r,
{
    let m = rings as int;
    let len = queues_of(n_queues, rings, r).len() as int;
    assert(0 <= k * m && r + k * m < n_queues) by (nonlinear_arith)
        requires
            m > 0,
            0 <= k < len,
            len == (n_queues - r + m - 1) / m,
    ;
    assert((r + k * m) % m == r) by (nonlinear_arith)
        requires
            0 <= r < m,
            k >= 0,
    ;
    assert((k - 1) * m + m == k * m) by (nonlinear_arith);
    assert(k >= 1 ==> (k - 1) * m >= 0) by (nonlinear_arith)
        requires
            m > 0,
    ;
    assert(0 * m == 0) by (nonlinear_arith);
}

/// The largest ring has its even share of the queues, rounded up.
pub proof fn largest_ring_has_its_share(n_queues: u16, n_threads: usize)
    requires
        n_queues > 0,
    ensures
        largest_ring(n_queues, n_threads) * ring_count(n_queues, n_threads) >= n_queues,
        (largest_ring(n_queues, n_threads) - 1) * ring_count(n_queues, n_threads) < n_queues,
{
    let m = ring_count(n_queues, n_threads) as int;
    let len = (n_queues + m - 1) / m;
    assert(len * m >= n_queues && (len - 1) * m < n_queues && len >= 0) by (nonlinear_arith)
        requires
            m > 0,
            n_queues > 0,
            len == (n_queues + m - 1) / m,
    ;
}

/// The reports of the rings are awaited one after the other; the session has started when the last
/// one came and every ring is registered, and the first ring that failed, or ended without a word,
/// makes it abandon all of them with that error.
pub proof fn every_ring_reports(rings: usize, index: usize, e: Error)
    requires
        index < rings,
    ensures
        index + 1 < rings ==> start_after(rings, index, Some(Ok(()))) == StartAction::Await(
            (index + 1) as usize,
        ),
        index + 1 == rings ==> start_after(rings, index, Some(Ok(()))) == StartAction::Started,
        start_after(rings, index, Some(Err(e))) == StartAction::AbandonAll(e),
        start_after(rings, index, None) == StartAction::AbandonAll(
            Error::ExitedBeforeRegistering(index),
        ),
        registered(index, Some(Err(e))) == Err::<(), Error>(e),
        registered(index, Some(Ok(()))) == Ok::<(), Error>(()),
        registered(index, None) == Err::<(), Error>(Error::ExitedBeforeRegistering(index)),
{
}

} // verus!
