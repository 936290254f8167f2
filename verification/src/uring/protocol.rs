//! Laws of the commit protocol: every completion reaches its entry, every fetched request is
//! answered once, in order, and the ring leaves only when that loses nothing.

use crate::error::Error;
use crate::uring::accounting;
use crate::uring::entry;
use crate::uring::entry::{EntryView, StateView};
use crate::uring::ring::{Begun, Command, Failure, Fetched, LiveView, RingView};
use crate::uring::staging::{Staged, StagingError};
use crate::uring::thread::{Action, Event, Phase, ThreadView};
use vstd::prelude::*;

verus! {

/// Whether entry `i` holds the request `commit_id`, not yet replied to.
pub open spec fn awaits_reply(r: RingView, i: int, commit_id: u64) -> bool {
    match r.state(i) {
        StateView::Dispatching { commit_id: id, .. } => id == commit_id,
        StateView::Dispatched { commit_id: id } => id == commit_id,
        _ => false,
    }
}

/// Buffers that may be given back are named by no command that is pending in the kernel or
/// queued to become so.
pub proof fn released_buffers_are_idle(t: ThreadView, r: RingView, i: int)
    requires
        accounting::inv(t, r),
        r.live.in_kernel == 0,
        0 <= i < r.entries.len(),
    ensures
        !(r.state(i) is InKernel),
        !(r.state(i) is Pending),
{
    if r.state(i).in_kernel() {
        accounting::lemma_count_positive(r.entries, i, true);
    }
}

/// While the ring serves, a commit is accepted exactly when its entry still awaits the reply to
/// that request; otherwise it is refused and changes nothing.
pub proof fn only_the_awaited_commit_is_accepted(
    r: RingView,
    i: int,
    commit_id: u64,
    reply: Seq<u8>,
)
    requires
        0 <= i < r.entries.len(),
        !r.live.exited,
    ensures
        ({
            let (after, begun) = r.begin(i, commit_id, reply);
            if awaits_reply(r, i, commit_id) {
                begun == Ok::<Begun, Error>(Begun::Direct) || begun == Ok::<Begun, Error>(
                    Begun::Deferred,
                )
            } else {
                &&& after == r
                &&& begun == Err::<Begun, Error>(
                    if r.live.conn_dead {
                        Error::ReplyAfterEnd
                    } else {
                        Error::DuplicateReply
                    },
                )
            }
        }),
{
}

/// A second commit for the same fetch is refused and never written: right after the first, once
/// the first was handed off, and once its command was pushed.
pub proof fn second_commit_is_refused(
    r: RingView,
    i: int,
    commit_id: u64,
    reply: Seq<u8>,
    second: Seq<u8>,
)
    requires
        0 <= i < r.entries.len(),
        !r.live.exited,
        awaits_reply(r, i, commit_id),
    ensures
        ({
            let begun = r.begin(i, commit_id, reply).0;
            let queued = begun.hand_off(i, commit_id);
            let pushed = queued.with_state(i, StateView::InKernel { last: commit_id });
            &&& begun.begin(i, commit_id, second).0 == begun
            &&& begun.begin(i, commit_id, second).1 is Err
            &&& queued.begin(i, commit_id, second).0 == queued
            &&& queued.begin(i, commit_id, second).1 is Err
            &&& pushed.begin(i, commit_id, second).0 == pushed
            &&& pushed.begin(i, commit_id, second).1 is Err
        }),
{
}

/// What can happen to a ring: the steps of its thread, with the fetch and the end of a dispatch in
/// between, what repliers do from any thread, and the end of the session.
pub enum RingOp {
    Begin { i: int, commit_id: u64, reply: Seq<u8> },
    HandOff { i: int, commit_id: u64 },
    ReplyCreated { i: int, commit_id: u64 },
    Fetch { i: int, staged: Result<Staged, StagingError> },
    FinishDispatch { i: int, commit_id: u64 },
    Step { thread: ThreadView, event: Event },
    Shutdown,
    Abandon,
}

impl RingOp {
    /// The ring afterwards.
    pub open spec fn apply(self, r: RingView) -> RingView {
        match self {
            RingOp::Begin { i, commit_id, reply } => r.begin(i, commit_id, reply).0,
            RingOp::HandOff { i, commit_id } => r.hand_off(i, commit_id),
            RingOp::ReplyCreated { i, commit_id } => r.reply_created(i, commit_id),
            RingOp::Fetch { i, staged } => r.fetch(i, staged).0,
            RingOp::FinishDispatch { i, commit_id } => r.finish_dispatch(i, commit_id).0,
            RingOp::Step { thread, event } => thread.step(r, event).1,
            RingOp::Shutdown => r.with_live(LiveView { shutdown: true, ..r.live }),
            RingOp::Abandon => r.with_live(LiveView { abandon: true, ..r.live }),
        }
    }

    /// Whether this is about an entry of the ring, is an event that the ring thread can take, or
    /// ends the dispatch of the request that the entry holds.
    pub open spec fn fits(self, r: RingView) -> bool {
        match self {
            RingOp::Begin { i, .. } | RingOp::HandOff { i, .. } | RingOp::ReplyCreated { i, .. }
            | RingOp::Fetch { i, .. } => 0 <= i < r.entries.len(),
            RingOp::FinishDispatch { i, commit_id } => 0 <= i < r.entries.len()
                && dispatches_only(r, i, commit_id),
            RingOp::Step { thread, event } => thread.accepts(r, event),
            RingOp::Shutdown | RingOp::Abandon => true,
        }
    }

    /// Whether this fetches the request `commit_id` into entry `i`.
    pub open spec fn brings(self, i: int, commit_id: u64) -> bool {
        self matches RingOp::Fetch { i: j, staged: Ok(s) } && j == i && s.commit_id == commit_id
    }

    /// Whether this settles the reply to the request `commit_id` of entry `i`: a commit of it that
    /// is accepted, or the end of its dispatch that leaves an empty reply to be written.
    pub open spec fn answers(self, r: RingView, i: int, commit_id: u64) -> bool {
        match self {
            RingOp::Begin { i: j, commit_id: id, reply } => {
                &&& j == i && id == commit_id
                &&& r.begin(i, commit_id, reply).1 matches Ok(begun) && !(begun is Dropped)
            },
            RingOp::FinishDispatch { i: j, commit_id: id } => {
                &&& j == i && id == commit_id
                &&& r.state(i) is Dispatching
                &&& r.finish_dispatch(i, commit_id).1 is Some
            },
            _ => false,
        }
    }
}

/// Whether entry `i`, if it is being dispatched, holds the request `commit_id`.
pub open spec fn dispatches_only(r: RingView, i: int, commit_id: u64) -> bool {
    r.state(i) matches StateView::Dispatching { commit_id: id, .. } ==> id == commit_id
}

/// The ring after the first `k` of `ops`.
pub open spec fn ring_at(r: RingView, ops: Seq<RingOp>, k: nat) -> RingView
    decreases k,
{
    if k == 0 {
        r
    } else {
        ops[k - 1].apply(ring_at(r, ops, (k - 1) as nat))
    }
}

/// Whether each of `ops` fits the ring that it finds.
pub open spec fn all_fit(r: RingView, ops: Seq<RingOp>) -> bool {
    forall|k: nat| k < ops.len() ==> (#[trigger] ops[k as int]).fits(ring_at(r, ops, k))
}

/// What repliers do on whatever entry while a request is dispatched leaves the dispatch with that
/// request, so that its end is about no other.
pub proof fn dispatch_ends_with_its_own_request(
    r: RingView,
    i: int,
    s: Staged,
    j: int,
    commit_id: u64,
    reply: Seq<u8>,
)
    requires
        0 <= i < r.entries.len(),
        0 <= j < r.entries.len(),
    ensures
        dispatches_only(r.fetch(i, Ok(s)).0, i, s.commit_id),
        dispatches_only(r, i, s.commit_id) ==> {
            &&& dispatches_only(r.begin(j, commit_id, reply).0, i, s.commit_id)
            &&& dispatches_only(r.hand_off(j, commit_id), i, s.commit_id)
            &&& dispatches_only(r.reply_created(j, commit_id), i, s.commit_id)
        },
{
}

/// Once an entry does not await the reply to a request, nothing that happens to the ring makes it
/// await that reply, except a fetch that brings this request to this entry.
pub proof fn settled_request_stays_settled(r: RingView, op: RingOp, i: int, commit_id: u64)
    requires
        0 <= i < r.entries.len(),
        op.fits(r),
        !op.brings(i, commit_id),
        !awaits_reply(r, i, commit_id),
    ensures
        !awaits_reply(op.apply(r), i, commit_id),
{
    if let RingOp::Step { thread, event } = op {
        lemma_thread_awaits_nothing_new(thread, r, event, i, commit_id);
    }
}

/// The ring thread's own steps only give entries to the kernel or take them out of use.
#[verifier::rlimit(40)]
#[verifier::spinoff_prover]
proof fn lemma_thread_awaits_nothing_new(
    t: ThreadView,
    r: RingView,
    event: Event,
    i: int,
    commit_id: u64,
)
    requires
        0 <= i < r.entries.len(),
        t.accepts(r, event),
        !awaits_reply(r, i, commit_id),
    ensures
        !awaits_reply(t.step(r, event).1, i, commit_id),
{
}

/// Only the reply to a request that is awaited is settled, and it is not awaited any more.
pub proof fn answer_settles_the_request(r: RingView, op: RingOp, i: int, commit_id: u64)
    requires
        0 <= i < r.entries.len(),
        op.fits(r),
        op.answers(r, i, commit_id),
    ensures
        awaits_reply(r, i, commit_id),
        !awaits_reply(op.apply(r), i, commit_id),
{
}

/// Each fetched request is answered at most once: however the steps of the ring thread and of the
/// repliers follow each other, between two answers to the same request of an entry there is a
/// fetch that brought it once more.
pub proof fn request_is_answered_at_most_once(
    r: RingView,
    ops: Seq<RingOp>,
    i: int,
    commit_id: u64,
    a: nat,
    b: nat,
)
    requires
        0 <= i < r.entries.len(),
        all_fit(r, ops),
        a < b < ops.len(),
        ops[a as int].answers(ring_at(r, ops, a), i, commit_id),
        ops[b as int].answers(ring_at(r, ops, b), i, commit_id),
    ensures
        exists|k: int| a < k < b && (#[trigger] ops[k]).brings(i, commit_id),
{
    lemma_entries_stay(r, ops, a);
    answer_settles_the_request(ring_at(r, ops, a), ops[a as int], i, commit_id);
    lemma_entries_stay(r, ops, b);
    answer_settles_the_request(ring_at(r, ops, b), ops[b as int], i, commit_id);
    if forall|k: int| a < k < b ==> !(#[trigger] ops[k]).brings(i, commit_id) {
        lemma_settled_until(r, ops, i, commit_id, a + 1, b);
    }
}

/// A ring keeps its entries.
proof fn lemma_entries_stay(r: RingView, ops: Seq<RingOp>, k: nat)
    requires
        all_fit(r, ops),
        k <= ops.len(),
    ensures
        ring_at(r, ops, k).entries.len() == r.entries.len(),
    decreases k,
{
    if k > 0 {
        lemma_entries_stay(r, ops, (k - 1) as nat);
    }
}

proof fn lemma_settled_until(
    r: RingView,
    ops: Seq<RingOp>,
    i: int,
    commit_id: u64,
    a: nat,
    b: nat,
)
    requires
        0 <= i < r.entries.len(),
        all_fit(r, ops),
        a <= b <= ops.len(),
        forall|k: int| a <= k < b ==> !(#[trigger] ops[k]).brings(i, commit_id),
        !awaits_reply(ring_at(r, ops, a), i, commit_id),
    ensures
        !awaits_reply(ring_at(r, ops, b), i, commit_id),
    decreases b,
{
    if a < b {
        let k = (b - 1) as nat;
        lemma_settled_until(r, ops, i, commit_id, a, k);
        lemma_entries_stay(r, ops, k);
        let op = ops[k as int];
        assert(op.fits(ring_at(r, ops, k)));
        settled_request_stays_settled(ring_at(r, ops, k), op, i, commit_id);
    }
}

/// While one thread writes the buffers of an entry, nobody else is told to: every commit of
/// whatever request is refused, and the end of the dispatch leaves nothing to write. Only the
/// writer's own hand-off moves the entry on.
pub proof fn committing_entry_has_one_writer(
    r: RingView,
    i: int,
    commit_id: u64,
    reply: Seq<u8>,
)
    requires
        0 <= i < r.entries.len(),
        !r.live.exited,
        r.state(i) is Committing,
    ensures
        r.begin(i, commit_id, reply).0 == r,
        r.begin(i, commit_id, reply).1 is Err,
        r.dispatched(i),
        r.finish_dispatch(i, commit_id) == (r, None::<(Seq<u8>, u64)>),
        r.reply_created(i, commit_id) == r,
        r.hand_off(i, commit_id).state(i) == (StateView::Pending { commit_id }),
{
}

/// A request that the handler neither replied to nor took a reply object for is answered with an
/// empty reply.
pub proof fn unanswered_request_gets_an_empty_reply(r: RingView, i: int, s: Staged)
    requires
        0 <= i < r.entries.len(),
    ensures
        ({
            let dispatching = r.fetch(i, Ok(s)).0;
            let (finished, reply) = dispatching.finish_dispatch(i, s.commit_id);
            &&& dispatching.dispatched(i)
            &&& finished.state(i) is Committing
            &&& reply == Some(
                (entry::empty_header_of(s.commit_id).spec_bytes(), s.commit_id),
            )
        }),
{
}

/// A request whose reply object was taken stays open after dispatch, and its reply is accepted
/// whenever it comes.
pub proof fn taken_request_stays_open(r: RingView, i: int, s: Staged, reply: Seq<u8>)
    requires
        0 <= i < r.entries.len(),
        !r.live.exited,
    ensures
        ({
            let taken = r.fetch(i, Ok(s)).0.reply_created(i, s.commit_id);
            let (finished, left) = taken.finish_dispatch(i, s.commit_id);
            &&& left is None
            &&& finished.state(i) == (StateView::Dispatched { commit_id: s.commit_id })
            &&& finished.begin(i, s.commit_id, reply).1 == Ok::<Begun, Error>(Begun::Direct)
        }),
{
}

/// A reply that comes while the payload of the request is borrowed is kept whole until dispatch
/// returns.
pub proof fn deferred_reply_is_kept(r: RingView, i: int, s: Staged, reply: Seq<u8>)
    requires
        0 <= i < r.entries.len(),
        !r.live.exited,
        s.payload_sz != 0,
    ensures
        ({
            let (deferred, begun) = r.fetch(i, Ok(s)).0.begin(i, s.commit_id, reply);
            let (finished, left) = deferred.finish_dispatch(i, s.commit_id);
            &&& begun == Ok::<Begun, Error>(Begun::Deferred)
            &&& left == Some((reply, s.commit_id))
            &&& finished.state(i) is Committing
        }),
{
}

/// A request without payload is replied to at once, and dispatch leaves nothing to write.
pub proof fn direct_reply_leaves_nothing(r: RingView, i: int, s: Staged, reply: Seq<u8>)
    requires
        0 <= i < r.entries.len(),
        !r.live.exited,
        s.payload_sz == 0,
    ensures
        ({
            let (committing, begun) = r.fetch(i, Ok(s)).0.begin(i, s.commit_id, reply);
            let queued = committing.hand_off(i, s.commit_id);
            &&& begun == Ok::<Begun, Error>(Begun::Direct)
            &&& queued.state(i) == (StateView::Pending { commit_id: s.commit_id })
            &&& queued.finish_dispatch(i, s.commit_id) == (queued, None::<(Seq<u8>, u64)>)
        }),
{
}

/// A malformed fetch goes straight back: its entry stays counted as in the kernel and is queued.
pub proof fn malformed_fetch_goes_back(
    r: RingView,
    i: int,
    commit_id: u64,
    in_len: u32,
    payload_sz: u32,
)
    requires
        0 <= i < r.entries.len(),
    ensures
        ({
            let after = r.fetch(i, Err(StagingError::Malformed { commit_id, in_len, payload_sz })).0;
            &&& after.live.in_kernel == r.live.in_kernel
            &&& after.live.outstanding == r.live.outstanding
            &&& after.state(i) == (StateView::Pending { commit_id })
            &&& accounting::queue(after) == accounting::queue(r).push(r.entries[i].idx)
        }),
{
    let after = r.fetch(i, Err(StagingError::Malformed { commit_id, in_len, payload_sz })).0;
    assert(accounting::queue(after) =~= accounting::queue(r).push(r.entries[i].idx));
}

/// Commits are pushed in the order in which they were handed off.
pub proof fn commits_are_pushed_in_order(r: RingView, i: int, commit_id: u64)
    requires
        0 <= i < r.entries.len(),
    ensures
        !r.live.exited ==> accounting::queue(r.hand_off(i, commit_id)) == accounting::queue(r).push(
            r.entries[i].idx,
        ),
        r.live.flushing.len() == 0 ==> accounting::queue(r.take_pending()) == accounting::queue(r),
        r.flush_next().1 matches Some(pushed) ==> pushed.0 == accounting::queue(r)[0]
            && accounting::queue(r.flush_next().0) == accounting::queue(r).skip(1),
{
    assert(!r.live.exited ==> accounting::queue(r.hand_off(i, commit_id)) =~= accounting::queue(
        r,
    ).push(r.entries[i].idx));
    assert(r.live.flushing.len() == 0 ==> accounting::queue(r.take_pending())
        =~= accounting::queue(r));
    if r.flush_next().1 is Some {
        assert(accounting::queue(r.flush_next().0) =~= accounting::queue(r).skip(1));
    }
}

/// A commit that races the exit is never lost: handed off before the decision, it keeps the ring
/// from leaving; handed off after it, the entry is dropped and nothing is queued.
pub proof fn commit_racing_the_exit_is_never_lost(r: RingView, i: int, commit_id: u64)
    requires
        0 <= i < r.entries.len(),
        r.live.in_kernel < usize::MAX,
    ensures
        ({
            let after = r.hand_off(i, commit_id);
            if r.live.exited {
                &&& after.state(i) is Dead
                &&& after.live.pending == r.live.pending
                &&& after.live.in_kernel == r.live.in_kernel
            } else {
                &&& after.live.pending.last() == r.entries[i].idx
                &&& !after.may_exit()
            }
        }),
{
}

/// After the ring left, a commit is dropped without touching a buffer or the queue.
pub proof fn late_commit_is_dropped(r: RingView, i: int, commit_id: u64, reply: Seq<u8>)
    requires
        0 <= i < r.entries.len(),
        r.live.exited,
    ensures
        ({
            let (after, begun) = r.begin(i, commit_id, reply);
            &&& begun == Ok::<Begun, Error>(Begun::Dropped)
            &&& after.state(i) is Dead
            &&& after.live.pending == r.live.pending
            &&& after.live.in_kernel == r.live.in_kernel
            &&& after.live.exited
        }),
{
}

/// A recorded error alone does not end the ring while a fetched request is held.
pub proof fn fatal_waits_for_held_requests(r: RingView)
    requires
        r.live.outstanding > 0,
        !r.live.conn_dead,
        !r.live.shutdown,
    ensures
        !r.may_exit(),
{
}

/// A shutdown ends a ring that has nothing in the kernel, even while every entry is held.
pub proof fn shutdown_ends_a_ring_of_held_entries(r: RingView)
    requires
        r.live.in_kernel == 0,
    ensures
        r.with_live(LiveView { shutdown: true, ..r.live }).may_exit(),
{
}

/// The first error that was recorded stays.
pub proof fn first_error_is_kept(r: RingView, i: int, first: Error, second: Error)
    ensures
        r.fail(first).fail(second) == r.fail(first),
        r.retire(i, Some(first)).retire(i, Some(second)).live.fatal == r.retire(
            i,
            Some(first),
        ).live.fatal,
        r.live.fatal is Some ==> r.retire(i, Some(first)).live.fatal == r.live.fatal,
{
}

/// Once other threads can no longer wake the ring thread, none of its waits is unbounded.
pub proof fn dead_wake_bounds_every_wait(t: ThreadView, r: RingView, event: Event)
    requires
        t.wake_dead,
        t.accepts(r, event),
    ensures
        t.step(r, event).0.wake_dead,
        t.step(r, event).2 matches Action::Wait { timed } ==> timed,
{
}

/// The ring thread leaves its serve loop without an error of the io_uring only when nothing is
/// pending in the kernel, and then takes no more commits.
pub proof fn clean_exit_leaves_nothing_in_the_kernel(t: ThreadView, r: RingView, event: Event)
    requires
        accounting::is_serving(t.phase),
        t.accepts(r, event),
        t.step(r, event).2 is Exit,
    ensures
        t.step(r, event).1.live.exited,
        t.step(r, event).1.live.in_kernel == 0 || (event matches Event::Done(Err(e))
            && t.step(r, event).2 == Action::Exit(Err(e))),
{
}

/// The `user_data` that a command of entry `i` carries.
pub open spec fn user_data_at(r: RingView, i: int) -> u64 {
    entry::user_data_of(r.entries[i].qid, r.entries[i].idx)
}

/// A completion finds the entry whose command it completes: the `user_data` of an entry, which is
/// its queue above its position, names that entry and no other, and what is no entry's `user_data`
/// names none.
pub proof fn completion_finds_its_entry(r: RingView, i: int, ud: u64)
    requires
        accounting::indexed(r),
        0 <= i < r.entries.len(),
        ud < 0x1_0000_0000_0000,
    ensures
        user_data_at(r, i) == r.entries[i].qid * 0x1_0000_0000 + i,
        r.named(user_data_at(r, i)) == Some(i),
        r.named(ud) matches Some(j) ==> 0 <= j < r.entries.len() && user_data_at(r, j) == ud,
        r.named(ud) is None ==> ud != user_data_at(r, i),
{
    entry::user_data_round_trips(r.entries[i].qid, r.entries[i].idx);
    if let Some(j) = r.named(ud) {
        assert(r.entries[j].idx == j);
        assert(r.entries[j].qid == (ud / 0x1_0000_0000) % 0x1_0000);
        assert(ud == (ud / 0x1_0000_0000) * 0x1_0000_0000 + ud % 0x1_0000_0000);
    }
}

/// A completion is named by the queue and the position in its `user_data`, and by nothing above them.
pub proof fn completion_is_named_by_queue_and_position(r: RingView, ud: u64)
    ensures
        r.named(ud) == r.named(ud % 0x1_0000_0000_0000),
{
    assert((ud % 0x1_0000_0000_0000) % 0x1_0000_0000 == ud % 0x1_0000_0000);
    assert(((ud % 0x1_0000_0000_0000) / 0x1_0000_0000) % 0x1_0000 == (ud / 0x1_0000_0000)
        % 0x1_0000);
}

/// Whether the ring thread is about to work on a completion for entry `i` with result `res`.
pub open spec fn completes(t: ThreadView, r: RingView, i: int, res: i32) -> bool {
    &&& t.phase is Completions
    &&& t.next < t.cqes.len()
    &&& t.cqes[t.next as int].0 == user_data_at(r, i)
    &&& t.cqes[t.next as int].1 == res
}

/// Whether nothing of `r` changed but entry `i`, which is gone, and the count of the kernel's
/// entries, which lost it.
pub open spec fn lost_only(r: RingView, after: RingView, i: int) -> bool {
    &&& after.entries.len() == r.entries.len()
    &&& after.state(i) is Dead
    &&& forall|j: int|
        0 <= j < r.entries.len() && j != i ==> (#[trigger] after.entries[j]) == r.entries[j]
    &&& r.live.in_kernel > 0 ==> after.live.in_kernel == r.live.in_kernel - 1
    &&& after.live.outstanding == r.live.outstanding
    &&& after.live.pending == r.live.pending
    &&& after.live.flushing == r.live.flushing
    &&& after.live.shutdown == r.live.shutdown
    &&& after.live.abandon == r.live.abandon
    &&& after.live.exited == r.live.exited
}

/// A request that the kernel delivered into an entry is fetched from that entry, whichever entry
/// of the ring it is.
pub proof fn delivered_request_is_fetched(t: ThreadView, r: RingView, i: int)
    requires
        accounting::indexed(r),
        0 <= i < r.entries.len(),
        r.state(i) is InKernel,
        completes(t, r, i, 0),
    ensures
        t.accepts(r, Event::Ready),
        t.step(r, Event::Ready).2 == Action::Fetch(i as u32),
        t.step(r, Event::Ready).1 == r,
        t.step(r, Event::Ready).0.phase is Fetching,
        t.step(r, Event::Ready).0.next == (t.next + 1) as usize,
{
    completion_finds_its_entry(r, i, 0);
    entry::user_data_is_unique(r.entries[i].qid, r.entries[i].idx, 0, 0);
}

/// A command that the kernel could not take now is pushed again, the same one for the same entry.
pub proof fn interrupted_command_is_repeated(t: ThreadView, r: RingView, i: int, last: u64, res: i32)
    requires
        accounting::indexed(r),
        0 <= i < r.entries.len(),
        r.state(i) == (StateView::InKernel { last }),
        completes(t, r, i, res),
        i32::MIN < res < 0,
        res == -4 || res + r.numbers.eagain == 0,
    ensures
        ({
            let (after, ring, action) = t.step(r, Event::Ready);
            &&& ring == r
            &&& action == Action::YieldAndPush(
                if last == 0 {
                    Command::Register { idx: i as u32 }
                } else {
                    Command::Commit { idx: i as u32, commit_id: last }
                },
            )
            &&& after.next == (t.next + 1) as usize
            // It stays in the kernel once it is pushed
            &&& after.step(r, Event::Done(Ok(()))).1 == r
        }),
{
    completion_finds_its_entry(r, i, 0);
    entry::user_data_is_unique(r.entries[i].qid, r.entries[i].idx, 0, 0);
}

/// A command that ended with the connection ends its entry, and is no error.
pub proof fn end_of_the_connection_is_no_error(t: ThreadView, r: RingView, i: int, res: i32)
    requires
        accounting::indexed(r),
        0 <= i < r.entries.len(),
        r.state(i) is InKernel,
        completes(t, r, i, res),
        i32::MIN < res < 0,
        res != -4 && res + r.numbers.eagain != 0,
        res + r.numbers.enotconn == 0 || res + r.numbers.econnaborted == 0,
    ensures
        ({
            let (after, ring, action) = t.step(r, Event::Ready);
            &&& lost_only(r, ring, i)
            &&& ring.live.conn_dead
            &&& ring.live.fatal == r.live.fatal
            &&& action == Action::Continue
            &&& after.next == (t.next + 1) as usize
            &&& after.phase is Completions
        }),
{
    completion_finds_its_entry(r, i, 0);
    entry::user_data_is_unique(r.entries[i].qid, r.entries[i].idx, 0, 0);
}

/// Any other result ends its entry with the error that it stands for, which is recorded unless an
/// earlier one was, and is reported with what it means.
pub proof fn failed_command_is_reported(t: ThreadView, r: RingView, i: int, last: u64, res: i32)
    requires
        accounting::indexed(r),
        0 <= i < r.entries.len(),
        r.state(i) == (StateView::InKernel { last }),
        completes(t, r, i, res),
        res > i32::MIN && res != 0 && res != -4,
        res + r.numbers.eagain != 0,
        res + r.numbers.enotconn != 0,
        res + r.numbers.econnaborted != 0,
    ensures
        ({
            let (after, ring, action) = t.step(r, Event::Ready);
            let err = if res > 0 {
                Error::UnexpectedResult(res)
            } else {
                Error::Os((0 - res) as i32)
            };
            &&& lost_only(r, ring, i)
            &&& ring.live.conn_dead == r.live.conn_dead
            &&& ring.live.fatal == (if r.live.fatal is Some {
                r.live.fatal
            } else {
                Some(err)
            })
            &&& action matches Action::Failed { idx, report } && {
                &&& idx == i
                &&& report.err == err
                &&& report.last == last
                &&& report.failure == (if res == -2 {
                    Failure::UnknownCommit
                } else if res + r.numbers.ecanceled == 0 {
                    Failure::Cancelled
                } else {
                    Failure::Failed
                })
                &&& report.register_rejected <==> last == 0 && r.live.fatal is None && (res == -22
                    || res == -14 || res + r.numbers.eopnotsupp == 0)
            }
            &&& after.next == (t.next + 1) as usize
            &&& after.phase is Completions
        }),
{
    completion_finds_its_entry(r, i, 0);
    entry::user_data_is_unique(r.entries[i].qid, r.entries[i].idx, 0, 0);
}

/// A completion that is for no entry in the kernel changes nothing, and the next one follows; after
/// the last one comes the next pass.
pub proof fn stray_completion_changes_nothing(t: ThreadView, r: RingView)
    requires
        t.phase is Completions,
    ensures
        t.next < t.cqes.len() && t.cqes[t.next as int].0 != u64::MAX && (r.named(
            t.cqes[t.next as int].0,
        ) matches Some(i) ==> !(r.state(i) is InKernel)) ==> {
            let (after, ring, action) = t.step(r, Event::Ready);
            &&& ring == r
            &&& action == Action::Ignored(t.cqes[t.next as int].0)
            &&& after == (ThreadView { next: (t.next + 1) as usize, ..t })
        },
        t.next >= t.cqes.len() ==> t.step(r, Event::Ready) == (
            ThreadView { phase: Phase::Top, ..t },
            r,
            Action::Continue,
        ),
{
}

/// Whether the ring thread is about to work on a completion of the eventfd poll.
pub open spec fn wakes(t: ThreadView, res: i32, flags: u32) -> bool {
    &&& t.phase is Completions
    &&& t.next < t.cqes.len()
    &&& t.cqes[t.next as int] == (u64::MAX, res, flags)
}

/// A wake-up is taken note of by reading the eventfd, and its poll is armed again when no more
/// completions of it follow.
pub proof fn wake_up_is_drained_and_rearmed(t: ThreadView, r: RingView, res: i32, flags: u32)
    requires
        wakes(t, res, flags),
        res >= 0,
    ensures
        ({
            let (t1, r1, drain) = t.step(r, Event::Ready);
            let (t2, r2, next) = t1.step(r1, Event::Ready);
            &&& drain == Action::DrainWake
            &&& r1 == r && r2 == r
            &&& flags & 2 != 0 ==> next == Action::Continue && t2.phase is Completions
            &&& flags & 2 == 0 ==> next == Action::Push(Command::Wake) && {
                let (t3, r3, on) = t2.step(r2, Event::Done(Ok(())));
                on == Action::Continue && t3.phase is Completions && r3 == r && t3.wake_dead
                    == t.wake_dead
            }
            &&& t2.next == (t.next + 1) as usize
        }),
{
}

/// A failed eventfd poll is armed once more, the first time; when that fails too, or the second
/// time, it is given up with the error of the poll, and every wait is bounded from then on.
pub proof fn failed_wake_poll_is_tried_once_more(t: ThreadView, r: RingView, res: i32, flags: u32)
    requires
        wakes(t, res, flags),
        i32::MIN < res < 0,
    ensures
        ({
            let (t1, r1, first) = t.step(r, Event::Ready);
            let err = Error::Os((0 - res) as i32);
            let fatal = if r.live.fatal is Some {
                r.live.fatal
            } else {
                Some(err)
            };
            &&& !t.wake_retried ==> first == Action::Push(Command::Wake) && r1 == r && {
                let (t2, r2, armed) = t1.step(r1, Event::Done(Ok(())));
                armed == (Action::WakeFailed { err, rearmed: true }) && r2 == r && t2.wake_retried
                    && t2.wake_dead == t.wake_dead && t2.phase is Completions
            }
            &&& !t.wake_retried ==> forall|e: Error| {
                let (t2, r2, dead) = #[trigger] t1.step(r1, Event::Done(Err(e)));
                dead == (Action::WakeFailed { err, rearmed: false }) && t2.wake_dead
                    && r2.live.fatal == fatal && r2.entries == r.entries && t2.phase is Completions
            }
            &&& t.wake_retried ==> first == (Action::WakeFailed { err, rearmed: false })
                && t1.wake_dead && r1.live.fatal == fatal && r1.entries == r.entries
                && t1.phase is Completions
            &&& t1.next == (t.next + 1) as usize
        }),
{
}

/// A pass pushes what is queued when it begins, first in first out, each commit with the id that
/// it was handed off for; then it waits or leaves.
pub proof fn pass_pushes_every_queued_commit(t: ThreadView, r: RingView, idx: u32, commit_id: u64)
    requires
        t.phase is Top || t.phase is Flushing,
    ensures
        t.phase is Top ==> {
            let (after, ring, action) = t.step(r, Event::Ready);
            &&& action == Action::Continue
            &&& after.phase is Flushing
            &&& ring.live.flushing == r.live.pending
            &&& ring.live.pending.len() == 0
            &&& ring.entries == r.entries
            &&& ring.live.in_kernel == r.live.in_kernel
            &&& ring.live.outstanding == r.live.outstanding
        },
        t.phase is Flushing && r.live.flushing.len() > 0 && r.live.flushing[0] == idx && idx
            < r.entries.len() && r.state(idx as int) == (StateView::Pending { commit_id }) ==> {
            let (after, ring, action) = t.step(r, Event::Ready);
            &&& action == Action::Push(Command::Commit { idx, commit_id })
            &&& ring.state(idx as int) == (StateView::InKernel { last: commit_id })
            &&& ring.live == (LiveView { flushing: r.live.flushing.skip(1), ..r.live })
            &&& forall|j: int|
                0 <= j < r.entries.len() && j != idx ==> (#[trigger] ring.entries[j])
                    == r.entries[j]
            &&& after.step(ring, Event::Done(Ok(()))) == (t, ring, Action::Continue)
        },
        t.phase is Flushing && r.live.flushing.len() == 0 ==> {
            let (after, ring, action) = t.step(r, Event::Ready);
            if r.live.in_kernel == 0 && (r.live.conn_dead || r.live.shutdown || (r.live.fatal is Some
                && r.live.outstanding == 0)) {
                &&& ring.live == (LiveView { exited: true, fatal: None, ..r.live })
                &&& ring.entries == r.entries
                &&& after.phase is Done
                &&& action == Action::Exit(
                    match r.live.fatal {
                        Some(e) => Err(e),
                        None => Ok(()),
                    },
                )
            } else {
                &&& ring == r
                &&& after == (ThreadView { phase: Phase::Waiting, ..t })
                &&& action == (Action::Wait { timed: t.wake_dead })
            }
        },
{
}

/// After a fetch was dispatched, and after a command was pushed again, the next completion follows.
pub proof fn completions_go_on(t: ThreadView, r: RingView)
    requires
        t.phase is Fetching || t.phase is Resubmitted,
    ensures
        t.phase is Fetching ==> t.step(r, Event::Ready) == (
            ThreadView { phase: Phase::Completions, ..t },
            r,
            Action::Continue,
        ),
        t.phase is Resubmitted ==> t.step(r, Event::Done(Ok(()))) == (
            ThreadView { phase: Phase::Completions, ..t },
            r,
            Action::Continue,
        ),
{
}

/// An error of a push ends the ring when it is about the io_uring itself (`EBADF`, `ENXIO`,
/// `EFAULT`); otherwise it costs the entry that it was for.
pub proof fn failed_push_costs_its_entry_or_the_ring(t: ThreadView, r: RingView, idx: u32, e: Error)
    requires
        idx < r.entries.len(),
        r.state(idx as int) is InKernel,
        t.phase == (Phase::CommitPushed { idx }) || t.phase == (Phase::Resubmitted { idx }),
    ensures
        ({
            let (after, ring, action) = t.step(r, Event::Done(Err(e)));
            if e == Error::Os(9) || e == Error::Os(6) || e == Error::Os(14) {
                &&& action == Action::Exit(Err(e))
                &&& ring.live.exited
                &&& ring.entries == r.entries
                &&& ring.live.in_kernel == r.live.in_kernel
            } else {
                &&& action == Action::Continue
                &&& lost_only(r, ring, idx as int)
                &&& ring.live.fatal == (if r.live.fatal is Some {
                    r.live.fatal
                } else {
                    Some(e)
                })
                &&& t.phase is CommitPushed ==> after.phase is Flushing
                &&& t.phase is Resubmitted ==> after.phase is Completions
            }
        }),
{
}

/// A wake poll that cannot be armed again ends the ring or is given up, as its error has it.
pub proof fn failed_rearm_gives_the_poll_up_or_the_ring(t: ThreadView, r: RingView, e: Error)
    requires
        t.phase is WakeRearmed,
    ensures
        ({
            let (after, ring, action) = t.step(r, Event::Done(Err(e)));
            if e == Error::Os(9) || e == Error::Os(6) || e == Error::Os(14) {
                action == Action::Exit(Err(e)) && ring.live.exited
            } else {
                &&& action == (Action::WakeFailed { err: e, rearmed: false })
                &&& after.wake_dead && after.phase is Completions
                &&& ring.live.fatal == (if r.live.fatal is Some {
                    r.live.fatal
                } else {
                    Some(e)
                })
            }
        }),
{
}

/// A wait that was interrupted is another pass, and so is a bounded one that timed out; what could
/// not be submitted is retried after the completions were collected; any other error ends the ring.
pub proof fn failed_wait_is_repeated_or_ends_the_ring(t: ThreadView, r: RingView, e: Error)
    requires
        t.phase is Waiting,
    ensures
        ({
            let (after, ring, action) = t.step(r, Event::Done(Err(e)));
            if e == Error::Os(4) || (t.wake_dead && e == Error::Os(r.numbers.etime)) {
                action == Action::Continue && after.phase is Top && ring == r
            } else if e == Error::Os(16) || e == Error::Os(r.numbers.eagain) {
                action == Action::YieldAndReap && after.phase is Reaping && ring == r
            } else {
                action == Action::Exit(Err(e)) && ring.live.exited && ring.entries == r.entries
            }
        }),
        ({
            let (after, ring, action) = t.step(r, Event::Done(Ok(())));
            &&& action == Action::Reap
            &&& ring == r
            &&& after.cqes.len() == 0 && after.next == 0
            &&& after.wake_dead == t.wake_dead && after.wake_retried == t.wake_retried
            &&& after.step(r, Event::Ready) == (
                ThreadView { phase: Phase::Completions, ..after },
                r,
                Action::Continue,
            )
        }),
{
}

/// Registration reaches every entry in order, then the eventfd poll is armed and everything is
/// submitted; an error anywhere is reported and ends the thread.
pub proof fn registration_reaches_every_entry(t: ThreadView, r: RingView, next: u32, e: Error)
    requires
        next <= r.entries.len() <= u32::MAX,
    ensures
        t.phase is Parked ==> {
            &&& t.step(r, Event::Released(true)) == (
                ThreadView { phase: Phase::Enabling, ..t },
                r,
                Action::Enable,
            )
            &&& t.step(r, Event::Released(false)).2 == Action::Exit(Ok(()))
        },
        t.phase is Enabling ==> {
            let (after, ring, action) = t.step(r, Event::Done(Ok(())));
            &&& after.phase == (Phase::Registering { next: 0 })
            &&& ring.live.in_kernel == r.entries.len()
            &&& ring.entries == r.entries
        },
        t.phase == (Phase::Registering { next }) && next < r.entries.len() ==> {
            let (after, ring, action) = t.step(r, Event::Ready);
            &&& action == Action::Push(Command::Register { idx: next })
            &&& ring.state(next as int) == (StateView::InKernel { last: 0 })
            &&& ring.live == r.live
            &&& after.step(ring, Event::Done(Ok(()))) == (
                ThreadView { phase: Phase::Registering { next: (next + 1) as u32 }, ..t },
                ring,
                Action::Continue,
            )
        },
        t.phase == (Phase::Registering { next }) && next == r.entries.len() ==> t.step(
            r,
            Event::Ready,
        ) == (ThreadView { phase: Phase::ArmingWake, ..t }, r, Action::Push(Command::Wake)),
        t.phase is ArmingWake ==> t.step(r, Event::Done(Ok(()))) == (
            ThreadView { phase: Phase::Submitting, ..t },
            r,
            Action::Submit,
        ),
        t.phase is Submitting ==> t.step(r, Event::Done(Ok(()))) == (
            ThreadView { phase: Phase::AwaitingHandler, ..t },
            r,
            Action::Registered(Ok(())),
        ),
        t.phase is Enabling || t.phase is RegisterPushed || t.phase is ArmingWake
            || t.phase is Submitting ==> {
            let (after, ring, action) = t.step(r, Event::Done(Err(e)));
            &&& ring == r
            &&& action == Action::Registered(Err(e))
            &&& after.step(r, Event::Ready).2 == Action::Exit(Ok(()))
        },
{
}

/// A registered ring serves once its handler came. When its session is gone instead, it serves
/// `EIO` while an unmount will end the connection, unless it was abandoned; else its thread leaves.
pub proof fn ring_without_handler_serves_eio_while_mounted(t: ThreadView, r: RingView)
    requires
        t.phase is AwaitingHandler,
    ensures
        t.step(r, Event::Handler(true)) == (
            ThreadView { phase: Phase::Top, ..t },
            r,
            Action::Continue,
        ),
        ({
            let (after, ring, action) = t.step(r, Event::Handler(false));
            &&& ring == r
            &&& r.mounted && !r.live.abandon <==> action == Action::ServeEio
            &&& !r.mounted || r.live.abandon <==> action == Action::Exit(Ok(()))
            &&& action == Action::ServeEio ==> after.phase is Top
        }),
{
}

/// What identifies a ring, its entries and their buffers never changes.
pub proof fn ring_keeps_its_identity(r: RingView, op: RingOp, j: int)
    requires
        op.fits(r),
        0 <= j < r.entries.len(),
    ensures
        ({
            let after = op.apply(r);
            &&& after.index == r.index
            &&& after.mounted == r.mounted
            &&& after.numbers == r.numbers
            &&& after.mem == r.mem
            &&& after.entries.len() == r.entries.len()
            &&& after.entries[j] == (EntryView { state: after.entries[j].state, ..r.entries[j] })
        }),
{
    if let RingOp::Step { thread, event } = op {
        lemma_thread_keeps_identity(thread, r, event, j);
    }
}

#[verifier::rlimit(40)]
#[verifier::spinoff_prover]
proof fn lemma_thread_keeps_identity(t: ThreadView, r: RingView, event: Event, j: int)
    requires
        t.accepts(r, event),
        0 <= j < r.entries.len(),
    ensures
        ({
            let after = t.step(r, event).1;
            &&& after.index == r.index
            &&& after.mounted == r.mounted
            &&& after.numbers == r.numbers
            &&& after.mem == r.mem
            &&& after.entries.len() == r.entries.len()
            &&& after.entries[j] == (EntryView { state: after.entries[j].state, ..r.entries[j] })
        }),
{
}

/// What is done to one entry leaves every other entry alone, and no operation of a replier or of a
/// dispatch clears what the ring knows of its end.
pub proof fn operation_touches_one_entry(r: RingView, op: RingOp, i: int, j: int)
    requires
        op.fits(r),
        0 <= j < r.entries.len(),
        j != i,
        op matches RingOp::Begin { i: k, .. } ==> k == i,
        op matches RingOp::HandOff { i: k, .. } ==> k == i,
        op matches RingOp::ReplyCreated { i: k, .. } ==> k == i,
        op matches RingOp::Fetch { i: k, .. } ==> k == i,
        op matches RingOp::FinishDispatch { i: k, .. } ==> k == i,
        !(op is Step),
    ensures
        op.apply(r).entries[j] == r.entries[j],
        op.apply(r).live.conn_dead == r.live.conn_dead,
        op.apply(r).live.exited == r.live.exited,
        op.apply(r).live.flushing == r.live.flushing,
        r.live.fatal is Some ==> op.apply(r).live.fatal == r.live.fatal,
        op.apply(r).live.shutdown == (r.live.shutdown || op is Shutdown),
        op.apply(r).live.abandon == (r.live.abandon || op is Abandon),
{
}

/// What a commit does while the ring serves: a request without payload is written at once, one
/// whose payload is borrowed keeps the reply for later, and neither touches a count or the queue.
pub proof fn begun_commit_follows_the_payload(
    r: RingView,
    i: int,
    commit_id: u64,
    direct_ok: bool,
    reply_taken: bool,
    reply: Seq<u8>,
)
    requires
        0 <= i < r.entries.len(),
        !r.live.exited,
    ensures
        r.begin(i, commit_id, reply).0.live == r.live,
        r.state(i) == (StateView::Dispatching { direct_ok, reply_taken, commit_id }) ==> {
            let (after, begun) = r.begin(i, commit_id, reply);
            if direct_ok {
                begun == Ok::<Begun, Error>(Begun::Direct) && after.state(i) is Committing
            } else {
                begun == Ok::<Begun, Error>(Begun::Deferred) && after.state(i) == (
                StateView::Deferred { bytes: reply, commit_id })
            }
        },
        r.state(i) == (StateView::Dispatched { commit_id }) ==> {
            let (after, begun) = r.begin(i, commit_id, reply);
            begun == Ok::<Begun, Error>(Begun::Direct) && after.state(i) is Committing
        },
{
}

/// Handing off moves an entry from the held ones to the kernel's and queues it behind the others;
/// on a ring that left it is only given up.
pub proof fn hand_off_moves_the_entry(r: RingView, i: int, commit_id: u64)
    requires
        0 <= i < r.entries.len(),
        r.live.in_kernel < usize::MAX,
        r.state(i) is Committing,
        r.live.outstanding > 0,
    ensures
        ({
            let after = r.hand_off(i, commit_id);
            &&& after.live.outstanding == r.live.outstanding - 1
            &&& after.live.fatal == r.live.fatal
            &&& !r.live.exited ==> {
                &&& after.state(i) == (StateView::Pending { commit_id })
                &&& after.live.in_kernel == r.live.in_kernel + 1
                &&& after.live.pending == r.live.pending.push(r.entries[i].idx)
            }
            &&& r.live.exited ==> {
                &&& after.state(i) is Dead
                &&& after.live.in_kernel == r.live.in_kernel
                &&& after.live.pending == r.live.pending
            }
        }),
{
}

/// A reply object of the request that is being dispatched is remembered; one of any other request
/// changes nothing.
pub proof fn reply_object_counts_for_its_own_request(
    r: RingView,
    i: int,
    commit_id: u64,
    id: u64,
    direct_ok: bool,
    reply_taken: bool,
)
    requires
        0 <= i < r.entries.len(),
    ensures
        r.reply_created(i, commit_id).live == r.live,
        r.state(i) == (StateView::Dispatching { direct_ok, reply_taken, commit_id: id }) && id
            == commit_id ==> r.reply_created(i, commit_id).state(i) == (StateView::Dispatching {
            direct_ok,
            reply_taken: true,
            commit_id: id,
        }),
        !awaits_reply(r, i, commit_id) || r.state(i) is Dispatched ==> r.reply_created(i, commit_id)
            == r,
{
}

/// A fetch moves its entry from the kernel's to the held ones and dispatches the request that was
/// staged; one that cannot be answered is given up with an error, and one that cannot be read goes
/// back with the lengths it came with.
pub proof fn fetch_moves_the_entry(
    r: RingView,
    i: int,
    s: Staged,
    commit_id: u64,
    in_len: u32,
    payload_sz: u32,
)
    requires
        0 <= i < r.entries.len(),
        r.state(i) is InKernel,
        r.live.in_kernel > 0,
        r.live.outstanding < usize::MAX,
    ensures
        ({
            let (after, fetched) = r.fetch(i, Ok(s));
            &&& fetched == Fetched::Dispatch(s)
            &&& after.state(i) == (StateView::Dispatching {
                direct_ok: s.payload_sz == 0,
                reply_taken: false,
                commit_id: s.commit_id,
            })
            &&& after.live == (LiveView {
                in_kernel: (r.live.in_kernel - 1) as usize,
                outstanding: (r.live.outstanding + 1) as usize,
                ..r.live
            })
        }),
        ({
            let (after, fetched) = r.fetch(i, Err(StagingError::ZeroCommitId));
            &&& fetched == Fetched::Retired
            &&& lost_only(r, after, i)
            &&& after.live.fatal == (if r.live.fatal is Some {
                r.live.fatal
            } else {
                Some(Error::ZeroCommitId)
            })
        }),
        ({
            let malformed = StagingError::Malformed { commit_id, in_len, payload_sz };
            let (after, fetched) = r.fetch(i, Err(malformed));
            &&& fetched == (Fetched::Answered { in_len, payload_sz })
            &&& after.state(i) == (StateView::Pending { commit_id })
            &&& after.live == (LiveView {
                pending: r.live.pending.push(r.entries[i].idx),
                ..r.live
            })
        }),
{
}

/// What is left to write when a dispatch returns: the reply that came meanwhile, or an empty one
/// when none will come; a request whose reply object was taken stays open under its own id.
pub proof fn dispatch_leaves_what_was_not_written(
    r: RingView,
    i: int,
    commit_id: u64,
    id: u64,
    bytes: Seq<u8>,
    direct_ok: bool,
)
    requires
        0 <= i < r.entries.len(),
    ensures
        r.finish_dispatch(i, commit_id).0.live == r.live,
        r.state(i) == (StateView::Deferred { bytes, commit_id: id }) ==> {
            let (after, left) = r.finish_dispatch(i, commit_id);
            after.state(i) is Committing && left == Some((bytes, id))
        },
        r.state(i) == (StateView::Dispatching { direct_ok, reply_taken: false, commit_id }) ==> {
            let (after, left) = r.finish_dispatch(i, commit_id);
            after.state(i) is Committing && left == Some(
                (entry::empty_header_of(commit_id).spec_bytes(), commit_id),
            )
        },
        r.state(i) == (StateView::Dispatching { direct_ok, reply_taken: true, commit_id }) ==> {
            let (after, left) = r.finish_dispatch(i, commit_id);
            after.state(i) == (StateView::Dispatched { commit_id }) && left is None
        },
        r.state(i) is Pending || r.state(i) is Committing ==> r.finish_dispatch(i, commit_id) == (
            r,
            None::<(Seq<u8>, u64)>,
        ),
        empty_reply_is(entry::empty_header_of(commit_id).spec_bytes(), commit_id),
{
    let header = entry::empty_header_of(commit_id);
    header.lemma_len();
    header.fields_read_back();
}

/// Whether `bytes` are a reply without payload that reports success to `unique`.
pub open spec fn empty_reply_is(bytes: Seq<u8>, unique: u64) -> bool {
    bytes.len() == 16 && entry::header_reads(bytes, 16, 0, unique)
}

/// The handler of an entry may have left it replied to, being replied to, or still open, but not
/// with the kernel, given up or waiting for a reply that its dispatch has to mark.
pub proof fn dispatch_ends_in_few_states(r: RingView, i: int)
    ensures
        r.dispatched(i) <==> !(r.state(i) is InKernel) && !(r.state(i) is Dispatched) && !(r.state(
            i,
        ) is Dead),
{
}

/// The ring thread can always be told what came of what it asked for: whichever way that went, it
/// goes on. Only the result of a completion that is for somebody has to be one that the kernel can
/// give.
#[verifier::rlimit(80)]
#[verifier::spinoff_prover]
pub proof fn every_answer_is_taken(
    t: ThreadView,
    r: RingView,
    event: Event,
    came: bool,
    outcome: Result<(), Error>,
)
    requires
        accounting::inv(t, r),
        t.accepts(r, event),
    ensures
        ({
            let (t2, r2, action) = t.step(r, event);
            match action {
                Action::Enable | Action::Push(_) | Action::YieldAndPush(_) | Action::Submit
                | Action::Wait { .. } => t2.accepts(r2, Event::Done(outcome)),
                Action::Registered(Ok(_)) => t2.accepts(r2, Event::Handler(came)),
                Action::Exit(_) => t2.phase is Done,
                _ => t2.accepts(r2, Event::Ready) || (t2.next_is_judged(r2)
                    && t2.cqes[t2.next as int].1 == i32::MIN),
            }
        }),
{
    accounting::thread_step_keeps_order(t, r, event);
    let (t2, r2, action) = t.step(r, event);
    if t2.phase is Flushing {
        accounting::thread_can_always_go_on(t2, r2, Event::Ready);
    }
}

} // verus!
