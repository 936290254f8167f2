//! What every operation on a ring keeps: each entry is counted where it is, each queued entry is
//! ready to be pushed, and the buffers outlive every command that names them.

use crate::errno::ErrorNumbers;
use crate::error::Error;
use crate::uring::entry::{EntryView, StateView};
use crate::uring::mem::Layout;
use crate::uring::ring;
use crate::uring::ring::{LiveView, RingView};
use crate::uring::staging::{Staged, StagingError};
use crate::uring::thread::{Event, Phase, ThreadView};
use vstd::prelude::*;

verus! {

/// Whether an entry in `state` is counted in `in_kernel` (`kernel`) or in `outstanding`.
pub open spec fn counted(kernel: bool, state: StateView) -> bool {
    if kernel {
        state.in_kernel()
    } else {
        state.outstanding()
    }
}

/// How many entries are counted.
pub open spec fn count(entries: Seq<EntryView>, kernel: bool) -> nat
    decreases entries.len(),
{
    if entries.len() == 0 {
        0
    } else {
        count(entries.drop_last(), kernel) + (if counted(kernel, entries.last().state) {
            1nat
        } else {
            0nat
        })
    }
}

/// The queued entries, in the order in which they are pushed.
pub open spec fn queue(r: RingView) -> Seq<u32> {
    r.live.flushing + r.live.pending
}

/// Every entry knows its position, and a `u32` holds it.
pub open spec fn indexed(r: RingView) -> bool {
    &&& r.entries.len() <= u32::MAX
    &&& forall|i: int| 0 <= i < r.entries.len() ==> (#[trigger] r.entries[i]).idx == i
}

/// The queue holds the `Pending` entries, each once.
pub open spec fn queue_is_pending(r: RingView) -> bool {
    let q = queue(r);
    &&& q.no_duplicates()
    &&& forall|k: int| 0 <= k < q.len() ==> (#[trigger] q[k]) < r.entries.len()
    &&& forall|k: int| 0 <= k < q.len() ==> r.state((#[trigger] q[k]) as int) is Pending
    &&& forall|i: int|
        0 <= i < r.entries.len() && (#[trigger] r.entries[i]).state is Pending ==> q.contains(
            i as u32,
        )
}

/// Every entry from `lo` up to `hi` is registered and nothing else is known of it.
pub open spec fn registered(r: RingView, lo: int, hi: int) -> bool {
    forall|i: int| lo <= i < hi ==> (#[trigger] r.entries[i]).state is InKernel
}

/// Every entry from `lo` up to `hi` is `Dead`.
pub open spec fn dead(r: RingView, lo: int, hi: int) -> bool {
    forall|i: int| lo <= i < hi ==> (#[trigger] r.entries[i]).state is Dead
}

/// Nothing was committed yet and the ring has not left.
pub open spec fn untouched(r: RingView) -> bool {
    &&& r.live.pending.len() == 0
    &&& r.live.flushing.len() == 0
    &&& !r.live.exited
}

/// The ring thread is in its serve loop.
pub open spec fn is_serving(p: Phase) -> bool {
    match p {
        Phase::Top | Phase::Flushing | Phase::CommitPushed { .. } | Phase::Waiting | Phase::Reaping
        | Phase::Completions | Phase::WakeRetried { .. } | Phase::WakeDraining { .. }
        | Phase::WakeRearmed | Phase::Resubmitted { .. } | Phase::Fetching => true,
        _ => false,
    }
}

/// What holds of a ring and its thread at all times.
pub open spec fn inv(t: ThreadView, r: RingView) -> bool {
    let n = r.entries.len() as int;
    &&& indexed(r)
    &&& r.live.outstanding == count(r.entries, false)
    // Whatever the kernel may still write into is counted
    &&& r.live.in_kernel >= count(r.entries, true)
    &&& r.live.in_kernel + r.live.outstanding <= n
    &&& match t.phase {
        Phase::Parked | Phase::Enabling => untouched(r) && dead(r, 0, n) && r.live.in_kernel == 0,
        Phase::Registering { next } => untouched(r) && next <= n && r.live.in_kernel == n
            && registered(r, 0, next as int) && dead(r, next as int, n),
        Phase::RegisterPushed { next } => untouched(r) && next < n && r.live.in_kernel == n
            && registered(r, 0, next + 1) && dead(r, next + 1, n),
        Phase::ArmingWake | Phase::Submitting | Phase::AwaitingHandler => untouched(r)
            && r.live.in_kernel == n && registered(r, 0, n),
        Phase::NotRegistered | Phase::Done => true,
        _ => {
            &&& !r.live.exited
            &&& r.live.in_kernel == count(r.entries, true)
            &&& queue_is_pending(r)
            &&& (t.phase is Flushing || t.phase is CommitPushed) || r.live.flushing.len() == 0
            &&& match t.phase {
                Phase::CommitPushed { idx } => idx < n && r.state(idx as int) is InKernel,
                Phase::Resubmitted { idx } => idx < n && r.state(idx as int) is InKernel,
                _ => true,
            }
        },
    }
}

proof fn lemma_count_update(s: Seq<EntryView>, i: int, e: EntryView, kernel: bool)
    requires
        0 <= i < s.len(),
    ensures
        count(s.update(i, e), kernel) + (if counted(kernel, s[i].state) {
            1int
        } else {
            0int
        }) == count(s, kernel) + (if counted(kernel, e.state) {
            1int
        } else {
            0int
        }),
    decreases s.len(),
{
    if i == s.len() - 1 {
        assert(s.update(i, e).drop_last() =~= s.drop_last());
    } else {
        lemma_count_update(s.drop_last(), i, e, kernel);
        assert(s.update(i, e).drop_last() =~= s.drop_last().update(i, e));
    }
}

proof fn lemma_count_bound(s: Seq<EntryView>, kernel: bool)
    ensures
        count(s, kernel) <= s.len(),
    decreases s.len(),
{
    if s.len() > 0 {
        lemma_count_bound(s.drop_last(), kernel);
    }
}

pub proof fn lemma_count_positive(s: Seq<EntryView>, i: int, kernel: bool)
    requires
        0 <= i < s.len(),
        counted(kernel, s[i].state),
    ensures
        count(s, kernel) > 0,
    decreases s.len(),
{
    if i < s.len() - 1 {
        lemma_count_positive(s.drop_last(), i, kernel);
    }
}

/// Where all entries are alike, all or none of them are counted.
proof fn lemma_count_uniform(s: Seq<EntryView>, kernel: bool, all: bool)
    requires
        forall|i: int| 0 <= i < s.len() ==> counted(kernel, (#[trigger] s[i]).state) == all,
    ensures
        count(s, kernel) == (if all {
            s.len()
        } else {
            0
        }),
    decreases s.len(),
{
    if s.len() > 0 {
        assert(counted(kernel, s[s.len() - 1].state) == all);
        assert forall|i: int| 0 <= i < s.drop_last().len() implies counted(
            kernel,
            (#[trigger] s.drop_last()[i]).state,
        ) == all by {
            assert(s.drop_last()[i] == s[i]);
        }
        lemma_count_uniform(s.drop_last(), kernel, all);
    }
}

/// The effect of one changed state on both counts.
proof fn lemma_state_counts(r: RingView, i: int, state: StateView)
    requires
        0 <= i < r.entries.len(),
    ensures
        count(r.with_state(i, state).entries, true) + (if r.state(i).in_kernel() {
            1int
        } else {
            0int
        }) == count(r.entries, true) + (if state.in_kernel() {
            1int
        } else {
            0int
        }),
        count(r.with_state(i, state).entries, false) + (if r.state(i).outstanding() {
            1int
        } else {
            0int
        }) == count(r.entries, false) + (if state.outstanding() {
            1int
        } else {
            0int
        }),
        indexed(r) ==> indexed(r.with_state(i, state)),
        count(r.entries, true) <= r.entries.len(),
        count(r.entries, false) <= r.entries.len(),
        r.state(i).in_kernel() ==> count(r.entries, true) > 0,
        r.state(i).outstanding() ==> count(r.entries, false) > 0,
{
    let e = EntryView { state, ..r.entries[i] };
    lemma_count_update(r.entries, i, e, true);
    lemma_count_update(r.entries, i, e, false);
    lemma_count_bound(r.entries, true);
    lemma_count_bound(r.entries, false);
    if r.state(i).in_kernel() {
        lemma_count_positive(r.entries, i, true);
    }
    if r.state(i).outstanding() {
        lemma_count_positive(r.entries, i, false);
    }
}

/// A state change between two states that are not `Pending` leaves the queue in order.
proof fn lemma_queue_kept(r: RingView, i: int, state: StateView)
    requires
        0 <= i < r.entries.len(),
        queue_is_pending(r),
        !(r.state(i) is Pending),
        !(state is Pending),
    ensures
        queue_is_pending(r.with_state(i, state)),
{
    let s = r.with_state(i, state);
    assert(queue(s) == queue(r));
    assert forall|k: int| 0 <= k < queue(s).len() implies s.state(
        (#[trigger] queue(s)[k]) as int,
    ) is Pending by {
        assert(r.state(queue(r)[k] as int) is Pending);
    }
    assert forall|j: int|
        0 <= j < s.entries.len() && (#[trigger] s.entries[j]).state is Pending implies queue(
        s,
    ).contains(j as u32) by {
        assert(r.entries[j].state is Pending);
    }
}

/// Queueing an entry as it becomes `Pending` leaves the queue in order.
proof fn lemma_queue_pushed(r: RingView, i: int, commit_id: u64, live: LiveView)
    requires
        0 <= i < r.entries.len(),
        indexed(r),
        queue_is_pending(r),
        !(r.state(i) is Pending),
        live.flushing == r.live.flushing,
        live.pending == r.live.pending.push(r.entries[i].idx),
    ensures
        queue_is_pending(r.with_state(i, StateView::Pending { commit_id }).with_live(live)),
{
    let s = r.with_state(i, StateView::Pending { commit_id }).with_live(live);
    let q = queue(r);
    assert(queue(s) =~= q.push(i as u32));
    assert forall|k: int| 0 <= k < queue(s).len() implies (#[trigger] queue(s)[k])
        < s.entries.len() && s.state(queue(s)[k] as int) is Pending by {
        if k < q.len() {
            assert(queue(s)[k] == q[k]);
            assert(r.state(q[k] as int) is Pending);
        }
    }
    assert(queue(s).no_duplicates()) by {
        assert forall|a: int, b: int|
            0 <= a < queue(s).len() && 0 <= b < queue(s).len() && a != b implies queue(s)[a]
            != queue(s)[b] by {
            if a < q.len() {
                assert(r.state(q[a] as int) is Pending);
            }
            if b < q.len() {
                assert(r.state(q[b] as int) is Pending);
            }
        }
    }
    assert forall|j: int|
        0 <= j < s.entries.len() && (#[trigger] s.entries[j]).state is Pending implies queue(
        s,
    ).contains(j as u32) by {
        if j == i {
            assert(queue(s)[q.len() as int] == j as u32);
        } else {
            assert(r.entries[j].state is Pending);
            assert(q.contains(j as u32));
            let k = choose|k: int| 0 <= k < q.len() && q[k] == j as u32;
            assert(queue(s)[k] == j as u32);
        }
    }
}

/// Pushing the head of the queue leaves the rest in order.
proof fn lemma_queue_popped(r: RingView)
    requires
        indexed(r),
        queue_is_pending(r),
        r.live.flushing.len() > 0,
    ensures
        r.next_is_pending(),
        queue_is_pending(r.flush_next().0),
        r.flush_next().1 is Some,
{
    let q = queue(r);
    let idx = r.live.flushing[0];
    assert(q[0] == idx);
    assert(r.state(idx as int) is Pending);
    let s = r.flush_next().0;
    assert(queue(s) =~= q.skip(1));
    assert forall|k: int| 0 <= k < queue(s).len() implies (#[trigger] queue(s)[k])
        < s.entries.len() && s.state(queue(s)[k] as int) is Pending by {
        assert(queue(s)[k] == q[k + 1]);
        assert(r.state(q[k + 1] as int) is Pending);
        assert(q[k + 1] != q[0]);
    }
    assert(queue(s).no_duplicates()) by {
        assert forall|a: int, b: int|
            0 <= a < queue(s).len() && 0 <= b < queue(s).len() && a != b implies queue(s)[a]
            != queue(s)[b] by {
            assert(q[a + 1] != q[b + 1]);
        }
    }
    assert forall|j: int|
        0 <= j < s.entries.len() && (#[trigger] s.entries[j]).state is Pending implies queue(
        s,
    ).contains(j as u32) by {
        assert(j != idx);
        assert(r.entries[j].state is Pending);
        assert(q.contains(j as u32));
        let k = choose|k: int| 0 <= k < q.len() && q[k] == j as u32;
        assert(k > 0);
        assert(queue(s)[k - 1] == j as u32);
    }
}

/// A ring that was just made, with its thread parked, is in order.
pub proof fn fresh_ring_is_in_order(
    index: usize,
    mounted: bool,
    qids: Seq<u16>,
    depth: nat,
    mem: Layout,
    numbers: ErrorNumbers,
    t: ThreadView,
)
    requires
        qids.len() * depth <= u32::MAX,
        t.phase is Parked,
    ensures
        inv(t, ring::fresh_ring(index, mounted, qids, depth, mem, numbers)),
{
    let r = ring::fresh_ring(index, mounted, qids, depth, mem, numbers);
    lemma_count_uniform(r.entries, true, false);
    lemma_count_uniform(r.entries, false, false);
}

/// Killing an entry keeps both counts covering, and `outstanding` exact.
proof fn lemma_kill(r: RingView, i: int)
    requires
        0 <= i < r.entries.len(),
        indexed(r),
        r.live.outstanding == count(r.entries, false),
    ensures
        ({
            let k = r.kill(i);
            &&& indexed(k)
            &&& k.live.outstanding == count(k.entries, false)
            &&& count(k.entries, true) + (if r.state(i).in_kernel() {
                1int
            } else {
                0int
            }) == count(r.entries, true)
            &&& k.live.in_kernel == r.live.in_kernel
        }),
{
    lemma_state_counts(r, i, StateView::Dead);
}

/// Retiring an entry that is in the kernel keeps everything in order.
proof fn lemma_retire(r: RingView, i: int, err: Option<Error>)
    requires
        0 <= i < r.entries.len(),
        indexed(r),
        r.live.outstanding == count(r.entries, false),
        r.live.in_kernel == count(r.entries, true),
        r.state(i) is InKernel,
        queue_is_pending(r),
    ensures
        ({
            let k = r.retire(i, err);
            &&& indexed(k)
            &&& k.live.outstanding == count(k.entries, false)
            &&& k.live.in_kernel == count(k.entries, true)
            &&& queue_is_pending(k)
        }),
{
    lemma_kill(r, i);
    lemma_state_counts(r, i, StateView::Dead);
    lemma_queue_kept(r, i, StateView::Dead);
    let k = r.retire(i, err);
    let d = r.with_state(i, StateView::Dead);
    assert(k.entries == d.entries);
    assert(queue(k) == queue(d));
}

/// A step of the ring thread keeps everything in order.
#[verifier::rlimit(40)]
pub proof fn thread_step_keeps_order(t: ThreadView, r: RingView, event: Event)
    requires
        inv(t, r),
        t.accepts(r, event),
    ensures
        inv(t.step(r, event).0, t.step(r, event).1),
{
    let n = r.entries.len() as int;
    let (t2, r2, action) = t.step(r, event);
    match t.phase {
        Phase::Enabling => {
            lemma_count_uniform(r.entries, true, false);
            lemma_count_uniform(r.entries, false, false);
        },
        Phase::Registering { next } => {
            if next < n {
                lemma_state_counts(r, next as int, StateView::InKernel { last: 0 });
                lemma_count_bound(r2.entries, true);
            } else {
                lemma_count_uniform(r.entries, true, true);
            }
        },
        Phase::AwaitingHandler => {
            lemma_count_uniform(r.entries, true, true);
            assert(queue(r) =~= Seq::empty());
        },
        Phase::Top => {
            assert(queue(r2) =~= queue(r));
        },
        Phase::Flushing => {
            if r.live.flushing.len() > 0 {
                lemma_queue_popped(r);
                let idx = r.live.flushing[0];
                assert(queue(r)[0] == idx);
                assert(r.state(idx as int) is Pending);
                match r.state(idx as int) {
                    StateView::Pending { commit_id } => {
                        lemma_state_counts(r, idx as int, StateView::InKernel { last: commit_id });
                    },
                    _ => {},
                }
            }
        },
        Phase::CommitPushed { idx } => {
            match event {
                Event::Done(Err(e)) => {
                    lemma_retire(r, idx as int, Some(e));
                },
                _ => {},
            }
        },
        Phase::Resubmitted { idx } => {
            match event {
                Event::Done(Err(e)) => {
                    lemma_retire(r, idx as int, Some(e));
                },
                _ => {},
            }
        },
        Phase::Completions => {
            if t.next < t.cqes.len() {
                let (ud, res, flags) = t.cqes[t.next as int];
                match r.named(ud) {
                    Some(i) => {
                        if r.state(i) is InKernel {
                            let ended = r.with_live(LiveView { conn_dead: true, ..r.live });
                            assert(queue(ended) == queue(r));
                            assert(queue_is_pending(ended)) by {
                                assert forall|j: int|
                                    0 <= j < ended.entries.len() && (#[trigger] ended.entries[j]).state is Pending
                                    implies queue(ended).contains(j as u32) by {
                                    assert(r.entries[j].state is Pending);
                                }
                            }
                            lemma_retire(ended, i, None);
                            lemma_retire(r, i, Some(ring::result_error(res)));
                        }
                    },
                    None => {},
                }
            }
        },
        _ => {},
    }
}

/// The ring thread never finds a queued entry in another state, nor an entry that is not there:
/// whatever it is told, the conditions on the ring under which it can go on hold.
pub proof fn thread_can_always_go_on(t: ThreadView, r: RingView, event: Event)
    requires
        inv(t, r),
        t.accepts(
            RingView { live: LiveView { flushing: Seq::empty(), ..r.live }, ..r },
            event,
        ),
    ensures
        t.accepts(r, event),
{
    if t.phase is Flushing && r.live.flushing.len() > 0 {
        lemma_queue_popped(r);
    }
}

/// A commit that starts keeps everything in order, whatever it names and whenever it comes.
pub proof fn begin_keeps_order(t: ThreadView, r: RingView, i: int, commit_id: u64, reply: Seq<u8>)
    requires
        inv(t, r),
        0 <= i < r.entries.len(),
    ensures
        inv(t, r.begin(i, commit_id, reply).0),
{
    let s = r.begin(i, commit_id, reply).0;
    if r.live.exited {
        lemma_kill(r, i);
    } else if s != r {
        lemma_state_counts(r, i, s.state(i));
        if is_serving(t.phase) {
            lemma_queue_kept(r, i, s.state(i));
        }
    }
}

/// Handing off an entry whose buffers were written keeps everything in order.
pub proof fn hand_off_keeps_order(t: ThreadView, r: RingView, i: int, commit_id: u64)
    requires
        inv(t, r),
        0 <= i < r.entries.len(),
        r.state(i) is Committing || r.live.exited,
    ensures
        inv(t, r.hand_off(i, commit_id)),
{
    if r.live.exited {
        lemma_kill(r, i);
    } else {
        lemma_state_counts(r, i, StateView::Pending { commit_id });
        if is_serving(t.phase) {
            lemma_queue_pushed(r, i, commit_id, r.hand_off(i, commit_id).live);
        }
    }
}

/// Making a reply object keeps everything in order.
pub proof fn reply_created_keeps_order(t: ThreadView, r: RingView, i: int, commit_id: u64)
    requires
        inv(t, r),
        0 <= i < r.entries.len(),
    ensures
        inv(t, r.reply_created(i, commit_id)),
{
    let s = r.reply_created(i, commit_id);
    lemma_state_counts(r, i, s.state(i));
    if s != r && is_serving(t.phase) {
        lemma_queue_kept(r, i, s.state(i));
    }
}

/// Taking a request out of an entry whose command completed keeps everything in order.
pub proof fn fetch_keeps_order(
    t: ThreadView,
    r: RingView,
    i: int,
    staged: Result<Staged, StagingError>,
)
    requires
        inv(t, r),
        t.phase is Fetching,
        0 <= i < r.entries.len(),
        r.state(i) is InKernel,
    ensures
        inv(t, r.fetch(i, staged).0),
{
    let s = r.fetch(i, staged).0;
    match staged {
        Err(StagingError::ZeroCommitId) => {
            lemma_retire(r, i, Some(Error::ZeroCommitId));
        },
        Err(StagingError::Malformed { commit_id, .. }) => {
            lemma_state_counts(r, i, StateView::Pending { commit_id });
            lemma_queue_pushed(r, i, commit_id, s.live);
        },
        Ok(_) => {
            lemma_state_counts(r, i, s.state(i));
            lemma_queue_kept(r, i, s.state(i));
            let d = r.with_state(i, s.state(i));
            assert(s.entries == d.entries);
            assert(queue(s) == queue(d));
        },
    }
}

/// Finishing a dispatch keeps everything in order.
pub proof fn finish_dispatch_keeps_order(t: ThreadView, r: RingView, i: int, commit_id: u64)
    requires
        inv(t, r),
        0 <= i < r.entries.len(),
        r.dispatched(i),
    ensures
        inv(t, r.finish_dispatch(i, commit_id).0),
{
    let s = r.finish_dispatch(i, commit_id).0;
    lemma_state_counts(r, i, s.state(i));
    if s != r && is_serving(t.phase) {
        lemma_queue_kept(r, i, s.state(i));
    }
}

/// Telling the ring to shut down or to abandon its commands keeps everything in order.
pub proof fn teardown_keeps_order(t: ThreadView, r: RingView)
    requires
        inv(t, r),
    ensures
        inv(t, r.with_live(LiveView { shutdown: true, ..r.live })),
        inv(t, r.with_live(LiveView { abandon: true, ..r.live })),
{
    assert(queue(r.with_live(LiveView { shutdown: true, ..r.live })) == queue(r));
    assert(queue(r.with_live(LiveView { abandon: true, ..r.live })) == queue(r));
}

} // verus!
