//! One ring: its entries, their state machine and the commit protocol.
//!
//! Every SQE of a ring is pushed and submitted by the ring's own thread. Other threads reply by
//! writing the entry's buffers under the entry state machine and queueing the entry in
//! `Live::pending`. Each method here is one critical section, and none of them waits. `begin` and
//! `hand_off` are the two halves of a commit, between which the buffers of the entry belong to the
//! thread that began it.

use crate::bytes;
use crate::errno::{Errno, ErrorNumbers, EFAULT, EINVAL, EIO, ENOENT};
use crate::error::Error;
use crate::ll::fuse_abi::{fuse_out_header, fuse_uring_cmd};
use crate::text;
use crate::uring::entry;
use crate::uring::entry::{
    errno_header, EntryState, EntryView, RingEntry, StateView, OUT_HEADER_SZ, WAKE,
};
use crate::uring::mem;
use crate::uring::mem::{header_area, Layout, RingMemory, HEADER_SZ, STAGING_SZ};
use crate::uring::staging;
use crate::uring::staging::{stage_request, Staged, StagingError};
use vstd::prelude::*;
use vstd::string::*;

verus! {

/// Exit decision, in-kernel accounting and the commit queue.
#[derive(Debug)]
pub struct Live {
    /// Entries whose command is pending in the kernel or queued in `pending` to become so.
    pub in_kernel: usize,
    /// Entries fetched and not yet handed back: `Dispatching`, `Deferred`, `Dispatched` or
    /// `Committing`. Their kernel requests would hang if the ring left while they are held.
    pub outstanding: usize,
    /// Entries in state `Pending`, waiting for the ring thread to push their COMMIT_AND_FETCH.
    pub pending: Vec<u32>,
    /// Entries taken out of `pending` by the ring thread, and how many of them were pushed.
    pub flushing: Vec<u32>,
    pub flushed: usize,
    /// An `-ENOTCONN` or `-ECONNABORTED` CQE was seen.
    pub conn_dead: bool,
    /// First unexpected CQE error or submit failure.
    pub fatal: Option<Error>,
    /// The session is tearing down. The kernel posts no CQE at unmount for an entry held in
    /// userspace, so a ring whose entries are all held would otherwise never see `conn_dead`.
    pub shutdown: bool,
    /// The session failed before it could serve, so the thread returns instead of draining.
    pub abandon: bool,
    /// Set in the same critical section that decides to exit, so a commit either finds it or
    /// is counted in `in_kernel` before the decision.
    pub exited: bool,
}

#[verifier::ext_equal]
pub struct LiveView {
    pub in_kernel: usize,
    pub outstanding: usize,
    pub pending: Seq<u32>,
    /// What is left of the list the ring thread took out of `pending`.
    pub flushing: Seq<u32>,
    pub conn_dead: bool,
    pub fatal: Option<Error>,
    pub shutdown: bool,
    pub abandon: bool,
    pub exited: bool,
}

impl View for Live {
    type V = LiveView;

    open spec fn view(&self) -> LiveView {
        LiveView {
            in_kernel: self.in_kernel,
            outstanding: self.outstanding,
            pending: self.pending@,
            flushing: if self.flushed <= self.flushing@.len() {
                self.flushing@.skip(self.flushed as int)
            } else {
                Seq::empty()
            },
            conn_dead: self.conn_dead,
            fatal: self.fatal,
            shutdown: self.shutdown,
            abandon: self.abandon,
            exited: self.exited,
        }
    }
}

/// One less, but never below zero.
pub open spec fn less_one(n: usize) -> usize {
    if n == 0 {
        0
    } else {
        (n - 1) as usize
    }
}

/// Decrements a count; a count already at zero means the accounting is wrong, and is kept
/// rather than wrapped so that the ring keeps erring towards leaking its buffers.
fn dec(count: &mut usize)
    ensures
        *final(count) == less_one(*old(count)),
{
    if *count > 0 {
        *count = *count - 1;
    }
}

/// State shared between the ring thread and every `RingCommit`.
pub struct Ring {
    pub index: usize,
    /// Whether an unmount will end the connection when the session is dropped without
    /// running; a session on a descriptor it was given has nothing that will.
    pub mounted: bool,
    /// The error numbers of the system.
    pub numbers: ErrorNumbers,
    pub live: Live,
    pub entries: Vec<RingEntry>,
    /// Released only when `live.in_kernel` is zero; otherwise leaked.
    pub mem: RingMemory,
}

#[verifier::ext_equal]
pub struct RingView {
    pub index: usize,
    pub mounted: bool,
    pub numbers: ErrorNumbers,
    pub live: LiveView,
    pub entries: Seq<EntryView>,
    pub mem: Layout,
}

impl View for Ring {
    type V = RingView;

    open spec fn view(&self) -> RingView {
        RingView {
            index: self.index,
            mounted: self.mounted,
            numbers: self.numbers,
            live: self.live@,
            entries: self.entries@.map_values(|e: RingEntry| e@),
            mem: self.mem@,
        }
    }
}

/// Outcome of `RingCommit::begin`.
#[derive(Debug, Clone, Copy, PartialEq, Eq, Structural)]
pub enum Begun {
    /// The entry is `Committing`; write the buffers and hand off.
    Direct,
    /// The reply was stored in the entry for the ring thread to write after dispatch.
    Deferred,
    /// The ring exited; nothing to do.
    Dropped,
}

/// What became of a fetched entry.
#[derive(Debug, Clone, Copy, PartialEq, Eq, Structural)]
pub enum Fetched {
    /// Nothing can be committed for the fetch; the entry is gone.
    Retired,
    /// The lengths describe no request; the entry is on its way back with `EIO`.
    Answered { in_len: u32, payload_sz: u32 },
    /// The staged request is to be dispatched.
    Dispatch(Staged),
}

impl RingView {
    pub open spec fn state(self, i: int) -> StateView {
        self.entries[i].state
    }

    pub open spec fn with_state(self, i: int, state: StateView) -> RingView {
        RingView {
            entries: self.entries.update(i, EntryView { state, ..self.entries[i] }),
            ..self
        }
    }

    pub open spec fn with_live(self, live: LiveView) -> RingView {
        RingView { live, ..self }
    }

    /// The entry becomes `Dead`, and leaves `outstanding` if it was counted there.
    pub open spec fn kill(self, i: int) -> RingView {
        self.with_state(i, StateView::Dead).with_live(
            LiveView {
                outstanding: if self.state(i).outstanding() {
                    less_one(self.live.outstanding)
                } else {
                    self.live.outstanding
                },
                ..self.live
            },
        )
    }

    /// `err` is recorded unless an earlier error was.
    pub open spec fn fail(self, err: Error) -> RingView {
        self.with_live(
            LiveView {
                fatal: if self.live.fatal is Some {
                    self.live.fatal
                } else {
                    Some(err)
                },
                ..self.live
            },
        )
    }

    /// The entry leaves the kernel for good.
    pub open spec fn retire(self, i: int, err: Option<Error>) -> RingView {
        let killed = self.kill(i);
        let left = killed.with_live(
            LiveView { in_kernel: less_one(killed.live.in_kernel), ..killed.live },
        );
        match err {
            Some(e) => left.fail(e),
            None => left,
        }
    }

    /// A commit of `commit_id` with the bytes `reply` starts.
    pub open spec fn begin(self, i: int, commit_id: u64, reply: Seq<u8>) -> (
        RingView,
        Result<Begun, Error>,
    ) {
        if self.live.exited {
            (self.kill(i), Ok(Begun::Dropped))
        } else {
            match self.state(i) {
                StateView::Dispatching { direct_ok, commit_id: id, .. } if id == commit_id => {
                    if direct_ok {
                        (self.with_state(i, StateView::Committing), Ok(Begun::Direct))
                    } else {
                        (
                            self.with_state(i, StateView::Deferred { bytes: reply, commit_id }),
                            Ok(Begun::Deferred),
                        )
                    }
                },
                StateView::Dispatched { commit_id: id } if id == commit_id => {
                    (self.with_state(i, StateView::Committing), Ok(Begun::Direct))
                },
                _ => (
                    self,
                    Err(
                        if self.live.conn_dead {
                            Error::ReplyAfterEnd
                        } else {
                            Error::DuplicateReply
                        },
                    ),
                ),
            }
        }
    }

    /// The buffers of entry `i` hold the reply to `commit_id`.
    pub open spec fn hand_off(self, i: int, commit_id: u64) -> RingView {
        if self.live.exited {
            self.kill(i)
        } else {
            self.with_state(i, StateView::Pending { commit_id }).with_live(
                LiveView {
                    outstanding: less_one(self.live.outstanding),
                    in_kernel: (self.live.in_kernel + 1) as usize,
                    pending: self.live.pending.push(self.entries[i].idx),
                    ..self.live
                },
            )
        }
    }

    /// A reply object exists for `commit_id`.
    pub open spec fn reply_created(self, i: int, commit_id: u64) -> RingView {
        match self.state(i) {
            StateView::Dispatching { direct_ok, commit_id: id, .. } if id == commit_id => {
                self.with_state(
                    i,
                    StateView::Dispatching { direct_ok, reply_taken: true, commit_id },
                )
            },
            _ => self,
        }
    }

    /// The CQE of entry `i` brought what `staged` says.
    pub open spec fn fetch(self, i: int, staged: Result<Staged, StagingError>) -> (
        RingView,
        Fetched,
    ) {
        match staged {
            Err(StagingError::ZeroCommitId) => (
                self.retire(i, Some(Error::ZeroCommitId)),
                Fetched::Retired,
            ),
            Err(StagingError::Malformed { commit_id, in_len, payload_sz }) => (
                self.with_state(i, StateView::Pending { commit_id }).with_live(
                    LiveView {
                        pending: self.live.pending.push(self.entries[i].idx),
                        ..self.live
                    },
                ),
                Fetched::Answered { in_len, payload_sz },
            ),
            Ok(s) => (
                self.with_state(
                    i,
                    StateView::Dispatching {
                        direct_ok: s.payload_sz == 0,
                        reply_taken: false,
                        commit_id: s.commit_id,
                    },
                ).with_live(
                    LiveView {
                        in_kernel: less_one(self.live.in_kernel),
                        outstanding: (self.live.outstanding + 1) as usize,
                        ..self.live
                    },
                ),
                Fetched::Dispatch(s),
            ),
        }
    }

    /// Whether entry `i` is as a handler that ran may have left it.
    pub open spec fn dispatched(self, i: int) -> bool {
        let s = self.state(i);
        s is Deferred || s is Dispatching || s is Pending || s is Committing
    }

    /// The handler of entry `i` returned: what is left to write, and for which commit.
    pub open spec fn finish_dispatch(self, i: int, commit_id: u64) -> (
        RingView,
        Option<(Seq<u8>, u64)>,
    ) {
        match self.state(i) {
            StateView::Deferred { bytes, commit_id: id } => (
                self.with_state(i, StateView::Committing),
                Some((bytes, id)),
            ),
            StateView::Dispatching { reply_taken: false, .. } => (
                self.with_state(i, StateView::Committing),
                Some((entry::empty_header_of(commit_id).spec_bytes(), commit_id)),
            ),
            StateView::Dispatching { reply_taken: true, .. } => (
                self.with_state(i, StateView::Dispatched { commit_id }),
                None,
            ),
            _ => (self, None),
        }
    }

    /// The ring thread takes the whole queue to push it.
    pub open spec fn take_pending(self) -> RingView {
        self.with_live(
            LiveView { flushing: self.live.pending, pending: Seq::empty(), ..self.live },
        )
    }

    /// Whether the next entry to be pushed is there and `Pending`.
    pub open spec fn next_is_pending(self) -> bool {
        self.live.flushing.len() > 0 ==> {
            let i = self.live.flushing[0] as int;
            i < self.entries.len() && self.state(i) is Pending
        }
    }

    /// The next entry to be pushed, now counted as pending in the kernel.
    pub open spec fn flush_next(self) -> (RingView, Option<(u32, u64)>) {
        if self.live.flushing.len() == 0 {
            (self, None)
        } else {
            let idx = self.live.flushing[0];
            match self.state(idx as int) {
                StateView::Pending { commit_id } => (
                    self.with_state(idx as int, StateView::InKernel { last: commit_id }).with_live(
                        LiveView { flushing: self.live.flushing.skip(1), ..self.live },
                    ),
                    Some((idx, commit_id)),
                ),
                _ => (self, None),
            }
        }
    }

    /// Whether the ring may leave: nothing is pending in the kernel, and either the connection
    /// ended or the session shut down, or an error was recorded and no fetched request is held.
    pub open spec fn may_exit(self) -> bool {
        &&& self.live.in_kernel == 0
        &&& self.live.conn_dead || self.live.shutdown || (self.live.fatal is Some
            && self.live.outstanding == 0)
    }
}

impl Ring {
    fn set_state(&mut self, i: usize, state: EntryState)
        requires
            i < old(self)@.entries.len(),
        ensures
            final(self)@ == old(self)@.with_state(i as int, state@),
            final(self).live == old(self).live,
            final(self).entries@ == old(self).entries@.update(
                i as int,
                RingEntry { state, ..old(self).entries@[i as int] },
            ),
    {
        self.entries[i].state = state;
        assert(self@.entries =~= old(self)@.with_state(i as int, state@).entries);
    }

    /// Moves entry `i` to `Dead`, keeping `outstanding` in step with the state it leaves.
    fn kill(&mut self, i: usize)
        requires
            i < old(self)@.entries.len(),
        ensures
            final(self)@ == old(self)@.kill(i as int),
    {
        if self.entries[i].state.is_outstanding() {
            dec(&mut self.live.outstanding);
        }
        self.set_state(i, EntryState::Dead);
    }

    /// Records `err` unless an earlier error was.
    pub fn fail(&mut self, err: Error)
        ensures
            final(self)@ == old(self)@.fail(err),
    {
        if self.live.fatal.is_none() {
            self.live.fatal = Some(err);
        }
    }

    /// The entry leaves the kernel for good.
    pub fn retire(&mut self, i: usize, err: Option<Error>)
        requires
            i < old(self)@.entries.len(),
        ensures
            final(self)@ == old(self)@.retire(i as int, err),
    {
        self.kill(i);
        dec(&mut self.live.in_kernel);
        if let Some(err) = err {
            self.fail(err);
        }
    }

    /// The buffers are written; queues the entry for the ring thread. Returns whether it was
    /// queued; `must_wake` tells whether the ring thread is to be woken then.
    pub fn hand_off(&mut self, i: usize, commit_id: u64) -> (queued: bool)
        requires
            i < old(self)@.entries.len(),
            old(self)@.live.in_kernel < usize::MAX,
        ensures
            final(self)@ == old(self)@.hand_off(i as int, commit_id),
            queued == !old(self)@.live.exited,
    {
        if self.live.exited {
            self.kill(i);
            return false;
        }
        dec(&mut self.live.outstanding);
        self.set_state(i, EntryState::Pending { commit_id });
        self.live.in_kernel = self.live.in_kernel + 1;
        let idx: u32 = self.entries[i].idx;
        self.live.pending.push(idx);
        true
    }

    /// Stages the request that a CQE with result 0 brought to entry `i`, whose stride is
    /// `stride`, and answers what cannot be staged.
    pub fn fetch(&mut self, i: usize, stride: &mut [u8]) -> (r: Fetched)
        requires
            i < old(self)@.entries.len(),
            old(self).entries@[i as int].owns(old(stride)@),
            old(self)@.entries[i as int].gap >= HEADER_SZ + STAGING_SZ,
            old(self)@.live.outstanding < usize::MAX,
        ensures
            ({
                let e = old(self)@.entries[i as int];
                let staged = staging::staged_of(old(stride)@, e.gap as nat, e.payload_cap as nat);
                &&& (final(self)@, r) == old(self)@.fetch(i as int, staged)
                &&& final(stride)@ == (match staged {
                    Err(StagingError::Malformed { commit_id, .. }) => entry::errno_written(
                        old(stride)@,
                        e.gap as nat,
                        commit_id,
                        Errno(EIO),
                    ),
                    _ => staging::staged_stride(old(stride)@, e.gap as nat, e.payload_cap as nat),
                })
            }),
    {
        let gap: usize = self.entries[i].gap;
        let payload_cap: usize = self.entries[i].payload_cap;
        match stage_request(stride, gap, payload_cap) {
            Err(StagingError::ZeroCommitId) => {
                self.retire(i, Some(Error::ZeroCommitId));
                Fetched::Retired
            },
            Err(StagingError::Malformed { commit_id, in_len, payload_sz }) => {
                self.entries[i].write_errno(stride, commit_id, Errno(EIO));
                // The entry stays counted in `in_kernel`; it goes straight back
                self.set_state(i, EntryState::Pending { commit_id });
                let idx: u32 = self.entries[i].idx;
                self.live.pending.push(idx);
                Fetched::Answered { in_len, payload_sz }
            },
            Ok(staged) => {
                self.set_state(
                    i,
                    EntryState::Dispatching {
                        direct_ok: staged.payload_sz == 0,
                        reply_taken: false,
                        commit_id: staged.commit_id,
                    },
                );
                dec(&mut self.live.in_kernel);
                self.live.outstanding = self.live.outstanding + 1;
                Fetched::Dispatch(staged)
            },
        }
    }

    /// Whether entry `i` is as a handler that ran may have left it; anything else means that
    /// somebody else pushed it, marked it dispatched or marked it dead.
    pub fn is_dispatched(&self, i: usize) -> (r: bool)
        requires
            i < self@.entries.len(),
        ensures
            r == self@.dispatched(i as int),
    {
        match self.entries[i].state {
            EntryState::Deferred { .. } => true,
            EntryState::Dispatching { .. } => true,
            EntryState::Pending { .. } => true,
            EntryState::Committing => true,
            _ => false,
        }
    }

    /// The handler of entry `i`, fetched as `commit_id`, returned. Hands out the reply that is
    /// left to write, with the id it answers: one that arrived during dispatch, or an empty one
    /// when no reply object was made. The entry is then `Committing`.
    pub fn finish_dispatch(&mut self, i: usize, commit_id: u64) -> (r: Option<(Vec<u8>, u64)>)
        requires
            i < old(self)@.entries.len(),
            old(self)@.dispatched(i as int),
        ensures
            ({
                let want = old(self)@.finish_dispatch(i as int, commit_id);
                &&& final(self)@ == want.0
                &&& match r {
                    Some(reply) => want.1 == Some((reply.0@, reply.1)),
                    None => want.1 is None,
                }
            }),
    {
        let mut state = EntryState::Committing;
        std::mem::swap(&mut state, &mut self.entries[i].state);
        assert(self@ =~= old(self)@.with_state(i as int, StateView::Committing));
        match state {
            EntryState::Deferred { bytes, commit_id: id } => Some((bytes, id)),
            EntryState::Dispatching { reply_taken, .. } => {
                if reply_taken {
                    self.set_state(i, EntryState::Dispatched { commit_id });
                    assert(self@ =~= old(self)@.finish_dispatch(i as int, commit_id).0);
                    None
                } else {
                    let header = fuse_out_header {
                        len: OUT_HEADER_SZ as u32,
                        error: 0,
                        unique: commit_id,
                    };
                    Some((header.as_bytes(), commit_id))
                }
            },
            // A reply already happened, or another thread is writing one right now
            other => {
                self.set_state(i, other);
                assert(self@ =~= old(self)@);
                None
            },
        }
    }

    /// The handler of entry `i`, fetched as `commit_id`, returned: writes the reply that is left to
    /// write into the entry's stride and queues the entry. Returns whether it did; otherwise the
    /// reply was written before, is being written, or is still to come.
    pub fn answer_dispatch(&mut self, i: usize, commit_id: u64, stride: &mut [u8]) -> (queued: bool)
        requires
            i < old(self)@.entries.len(),
            old(self)@.dispatched(i as int),
            old(self).entries@[i as int].owns(old(stride)@),
            old(self)@.live.in_kernel < usize::MAX,
        ensures
            ({
                let e = old(self)@.entries[i as int];
                let (left, reply) = old(self)@.finish_dispatch(i as int, commit_id);
                match reply {
                    Some((bytes, id)) => {
                        &&& final(self)@ == left.hand_off(i as int, id)
                        &&& final(stride)@ == entry::stashed_written(
                            old(stride)@,
                            e.gap as nat,
                            e.payload_cap as nat,
                            id,
                            bytes,
                        )
                        &&& queued == !old(self)@.live.exited
                    },
                    None => {
                        &&& final(self)@ == left
                        &&& final(stride)@ == old(stride)@
                        &&& !queued
                    },
                }
            }),
    {
        let ghost before = self@;
        assert(self.entries@[i as int]@ == before.entries[i as int]);
        match self.finish_dispatch(i, commit_id) {
            Some((bytes, id)) => {
                assert(self@.entries.len() == self.entries@.len());
                assert(self.entries@[i as int]@ == self@.entries[i as int]);
                assert(self@.entries[i as int].gap == before.entries[i as int].gap);
                assert(self@.entries[i as int].payload_cap == before.entries[i as int].payload_cap);
                self.entries[i].write_stashed(stride, id, bytes.as_slice());
                self.hand_off(i, id)
            },
            None => false,
        }
    }

    /// Takes the queue to push it; what is queued from here on waits for the next pass.
    pub fn take_pending(&mut self)
        ensures
            final(self)@ == old(self)@.take_pending(),
    {
        let mut taken: Vec<u32> = Vec::new();
        std::mem::swap(&mut taken, &mut self.live.pending);
        self.live.flushing = taken;
        self.live.flushed = 0;
        assert(self.live.flushing@.skip(0) =~= self.live.flushing@);
    }

    /// Whether the next entry to be pushed is `Pending`, as every queued entry is.
    pub fn next_is_pending(&self) -> (r: bool)
        ensures
            r == self@.next_is_pending(),
    {
        if self.live.flushed >= self.live.flushing.len() {
            return true;
        }
        let idx: usize = self.live.flushing[self.live.flushed] as usize;
        assert(idx == self@.live.flushing[0]);
        if idx >= self.entries.len() {
            return false;
        }
        match self.entries[idx].state {
            EntryState::Pending { .. } => true,
            _ => false,
        }
    }

    /// The next entry to push a COMMIT_AND_FETCH for, with the id it commits; `None` when the
    /// pass is over.
    pub fn flush_next(&mut self) -> (r: Option<(u32, u64)>)
        requires
            old(self)@.next_is_pending(),
        ensures
            (final(self)@, r) == old(self)@.flush_next(),
    {
        if self.live.flushed >= self.live.flushing.len() {
            return None;
        }
        let idx: u32 = self.live.flushing[self.live.flushed];
        let i: usize = idx as usize;
        let ghost live = self@.live;
        assert(idx == live.flushing[0]);
        let commit_id: u64 = match self.entries[i].state {
            EntryState::Pending { commit_id } => commit_id,
            _ => 0,
        };
        self.set_state(i, EntryState::InKernel { last: commit_id });
        self.live.flushed = self.live.flushed + 1;
        assert(self@.live.flushing =~= live.flushing.skip(1));
        Some((idx, commit_id))
    }

    /// Decides whether the ring leaves; a commit that comes later finds the decision.
    pub fn check_exit(&mut self) -> (r: bool)
        ensures
            r == old(self)@.may_exit(),
            final(self)@ == old(self)@.with_live(
                LiveView { exited: old(self)@.live.exited || r, ..old(self)@.live },
            ),
    {
        let drained: bool = self.live.conn_dead || self.live.shutdown || (self.live.fatal.is_some()
            && self.live.outstanding == 0);
        if self.live.in_kernel == 0 && drained {
            self.live.exited = true;
            true
        } else {
            false
        }
    }
}

/// What a completion that ends an entry means.
#[derive(Debug, Clone, Copy, PartialEq, Eq, Structural)]
pub enum Failure {
    /// A commit named an id the kernel does not know; its queue has lost one entry for good.
    UnknownCommit,
    /// The thread that submitted the command exited.
    Cancelled,
    /// Anything else; the error tells.
    Failed,
}

/// How `fail_entry` judged a completion.
#[derive(Debug, Clone, Copy, PartialEq, Eq, Structural)]
pub struct FailureReport {
    pub failure: Failure,
    pub err: Error,
    /// The command that failed: the id it committed, 0 for REGISTER.
    pub last: u64,
    /// The kernel rejected the registration of the ring, and this is the first error: the
    /// session ends once the ring's entries are back.
    pub register_rejected: bool,
}

/// The error that the result of a completion stands for.
pub open spec fn result_error(res: i32) -> Error {
    if res > 0 {
        Error::UnexpectedResult(res)
    } else {
        Error::Os((-res) as i32)
    }
}

/// The judgement on a completion `res` of the command `last`, 0 for REGISTER, while `fatal` is
/// what was recorded before, on a system with these error numbers.
pub open spec fn failure_report(
    numbers: ErrorNumbers,
    res: i32,
    last: u64,
    fatal: Option<Error>,
) -> FailureReport {
    FailureReport {
        failure: if res == -ENOENT {
            Failure::UnknownCommit
        } else if res == -numbers.ecanceled {
            Failure::Cancelled
        } else {
            Failure::Failed
        },
        err: result_error(res),
        last,
        register_rejected: last == 0 && (res == -EINVAL || res == -numbers.eopnotsupp || res
            == -EFAULT) && fatal is None,
    }
}

/// A command of the ring thread to its io_uring.
#[derive(Debug, Clone, Copy, PartialEq, Eq, Structural)]
pub enum Command {
    /// REGISTER for an entry.
    Register { idx: u32 },
    /// COMMIT_AND_FETCH for an entry.
    Commit { idx: u32, commit_id: u64 },
    /// The poll of the eventfd that other threads wake the ring thread with.
    Wake,
}

/// The fields of a submission queue entry.
#[derive(Debug, Clone, Copy)]
pub enum Sqe {
    /// `IORING_OP_URING_CMD` on `/dev/fuse`; `iov` names the entry whose two iovecs `addr`
    /// points to.
    UringCmd { cmd_op: u32, cmd: [u8; 80], iov: Option<u32>, len: u32, user_data: u64 },
    /// Multishot `IORING_OP_POLL_ADD` on the eventfd.
    PollMulti { events: u32, user_data: u64 },
}

/// `POLLIN` of `poll(2)`.
pub const POLLIN: u32 = 1;

/// A ring as it is before its entries are registered.
pub open spec fn fresh_ring(
    index: usize,
    mounted: bool,
    qids: Seq<u16>,
    depth: nat,
    mem: Layout,
    numbers: ErrorNumbers,
) -> RingView {
    RingView {
        index,
        mounted,
        numbers,
        live: LiveView {
            in_kernel: 0,
            outstanding: 0,
            pending: Seq::empty(),
            flushing: Seq::empty(),
            conn_dead: false,
            fatal: None,
            shutdown: false,
            abandon: false,
            exited: false,
        },
        entries: Seq::new(
            qids.len() * depth,
            |i: int|
                EntryView {
                    idx: i as u32,
                    qid: qids[i / (depth as int)],
                    base: mem.entry(i) as usize,
                    gap: mem.gap as usize,
                    payload_cap: mem.payload_cap as usize,
                    state: StateView::Dead,
                },
        ),
        mem,
    }
}

/// The ring for `depth` entries on each of `qids` on pages of `page` bytes, or why there is none.
pub open spec fn ring_of(
    page: usize,
    index: usize,
    mounted: bool,
    qids: Seq<u16>,
    depth: u32,
    payload_cap: usize,
    numbers: ErrorNumbers,
) -> Result<RingView, Error> {
    let n = qids.len() * depth;
    if n == 0 || n > u32::MAX {
        Err(Error::EntryCount)
    } else {
        match mem::layout_of(page, n as usize, payload_cap) {
            Ok(l) => Ok(fresh_ring(index, mounted, qids, depth as nat, l, numbers)),
            Err(e) => Err(e),
        }
    }
}

impl Ring {
    /// The ring for `depth` entries on each of `qids`, on a machine whose pages have `page`
    /// bytes.
    pub fn layout(
        page: usize,
        index: usize,
        mounted: bool,
        qids: &[u16],
        depth: u32,
        payload_cap: usize,
        numbers: ErrorNumbers,
    ) -> (r: Result<Ring, Error>)
        ensures
            match r {
                Ok(ring) => ring_of(page, index, mounted, qids@, depth, payload_cap, numbers) == Ok::<
                    RingView,
                    Error,
                >(ring@),
                Err(e) => ring_of(page, index, mounted, qids@, depth, payload_cap, numbers) == Err::<
                    RingView,
                    Error,
                >(e),
            },
    {
        let n: usize = match qids.len().checked_mul(depth as usize) {
            Some(n) => n,
            None => return Err(Error::EntryCount),
        };
        if n == 0 || n as u64 > u32::MAX as u64 {
            return Err(Error::EntryCount);
        }
        assert(depth > 0) by (nonlinear_arith)
            requires
                n == qids@.len() * depth,
                n > 0,
        ;
        let mem = match RingMemory::layout(page, n, payload_cap) {
            Ok(mem) => mem,
            Err(err) => return Err(err),
        };
        let gap: usize = mem.gap();
        let payload_cap: usize = mem.payload_cap();
        let mut entries: Vec<RingEntry> = Vec::new();
        let ghost want = fresh_ring(index, mounted, qids@, depth as nat, mem@, numbers).entries;
        let mut i: usize = 0;
        while i < n
            invariant
                i <= n <= u32::MAX,
                n == qids@.len() * depth,
                depth > 0,
                n == mem@.entries,
                mem@.valid(),
                gap == mem@.gap,
                payload_cap == mem@.payload_cap,
                want == fresh_ring(index, mounted, qids@, depth as nat, mem@, numbers).entries,
                entries@.len() == i,
                forall|j: int| 0 <= j < i ==> (#[trigger] entries@[j])@ == want[j],
            decreases n - i,
        {
            let q: usize = i / (depth as usize);
            assert(q < qids@.len()) by (nonlinear_arith)
                requires
                    i < qids@.len() * depth,
                    depth > 0,
                    q == i / (depth as usize),
            ;
            let base: usize = mem.entry(i);
            entries.push(
                RingEntry {
                    idx: i as u32,
                    qid: qids[q],
                    base,
                    gap,
                    payload_cap,
                    state: EntryState::Dead,
                },
            );
            i = i + 1;
        }
        let ring = Ring {
            index,
            mounted,
            numbers,
            live: Live {
                in_kernel: 0,
                outstanding: 0,
                pending: Vec::new(),
                flushing: Vec::new(),
                flushed: 0,
                conn_dead: false,
                fatal: None,
                shutdown: false,
                abandon: false,
                exited: false,
            },
            entries,
            mem,
        };
        assert(ring@.entries =~= want);
        assert(ring@.live =~= fresh_ring(index, mounted, qids@, depth as nat, mem@, numbers).live);
        Ok(ring)
    }

    /// Reserves the buffers for `depth` entries on each of `qids`, on this machine.
    pub fn new(
        index: usize,
        mounted: bool,
        qids: &[u16],
        depth: u32,
        payload_cap: usize,
        numbers: ErrorNumbers,
    ) -> (r: Result<Ring, Error>)
        ensures
            exists|page: usize| #[trigger]
                mem::is_page_size(page) && match r {
                    Ok(ring) => ring_of(page, index, mounted, qids@, depth, payload_cap, numbers) == Ok::<
                        RingView,
                        Error,
                    >(ring@),
                    Err(e) => ring_of(page, index, mounted, qids@, depth, payload_cap, numbers) == Err::<
                        RingView,
                        Error,
                    >(e),
                },
    {
        Self::layout(header_area(), index, mounted, qids, depth, payload_cap, numbers)
    }

    /// Address space reserved for the entry buffers.
    pub fn reserved_bytes(&self) -> (r: usize)
        ensures
            r == self@.mem.len(),
    {
        self.mem.len()
    }

    /// Tells the ring thread to leave once nothing is pending in the kernel, even while
    /// requests are still held by userspace; for after the connection ended. The ring thread
    /// must be woken to see it.
    pub fn shutdown(&mut self)
        ensures
            final(self)@ == old(self)@.with_live(LiveView { shutdown: true, ..old(self)@.live }),
    {
        self.live.shutdown = true;
    }

    /// Makes a thread still waiting for its handler return instead of serving until the
    /// connection ends, for a session that failed to start, mounted or not: a caller blocked in
    /// the mount keeps its unmount from ending the connection, so the registered commands must
    /// be cancelled for it to abort.
    pub fn abandon(&mut self)
        ensures
            final(self)@ == old(self)@.with_live(LiveView { abandon: true, ..old(self)@.live }),
    {
        self.live.abandon = true;
    }

    /// The connection ended under a command of entry `i`.
    pub fn connection_ended(&mut self, i: usize)
        requires
            i < old(self)@.entries.len(),
        ensures
            final(self)@ == old(self)@.with_live(
                LiveView { conn_dead: true, ..old(self)@.live },
            ).retire(i as int, None),
    {
        self.live.conn_dead = true;
        self.retire(i, None);
    }

    /// The command an `InKernel` entry has pending: `Some(0)` for REGISTER, else the
    /// commit id; `None` when the entry is not in the kernel, so its CQE is not ours to count.
    pub fn last_command(&self, i: usize) -> (r: Option<u64>)
        requires
            i < self@.entries.len(),
        ensures
            r == (match self@.state(i as int) {
                StateView::InKernel { last } => Some(last),
                _ => None,
            }),
    {
        match self.entries[i].state {
            EntryState::InKernel { last } => Some(last),
            _ => None,
        }
    }

    /// A CQE that ends the entry: judges what it means and retires the entry as fatal. `last`
    /// is the command that failed, 0 for REGISTER.
    pub fn fail_entry(&mut self, i: usize, res: i32, last: u64) -> (r: FailureReport)
        requires
            i < old(self)@.entries.len(),
            res != i32::MIN,
        ensures
            r == failure_report(old(self)@.numbers, res, last, old(self)@.live.fatal),
            final(self)@ == old(self)@.retire(i as int, Some(result_error(res))),
    {
        let err = if res > 0 {
            Error::UnexpectedResult(res)
        } else {
            Error::Os(-res)
        };
        let failure = if -res == ENOENT {
            Failure::UnknownCommit
        } else if -res == self.numbers.ecanceled {
            Failure::Cancelled
        } else {
            Failure::Failed
        };
        let register_rejected: bool = last == 0 && (-res == EINVAL || -res
            == self.numbers.eopnotsupp || -res == EFAULT) && self.live.fatal.is_none();
        self.retire(i, Some(err));
        FailureReport { failure, err, last, register_rejected }
    }

    /// Whether the buffers may be given back: memory the kernel may still write into must not
    /// be, so only once every command has completed.
    pub fn is_releasable(&self) -> (r: bool)
        ensures
            r == (self@.live.in_kernel == 0),
    {
        self.live.in_kernel == 0
    }

    /// REGISTER of entry `i`: the queue, no commit id, and the entry's two iovecs.
    pub fn register_sqe(&self, i: usize) -> (r: Sqe)
        requires
            i < self@.entries.len(),
        ensures
            registers(self@.entries[i as int], r),
    {
        let qid: u16 = self.entries[i].qid;
        let idx: u32 = self.entries[i].idx;
        Sqe::UringCmd {
            cmd_op: fuse_uring_cmd::FUSE_IO_URING_CMD_REGISTER.value(),
            cmd: entry::cmd_bytes(qid, 0),
            iov: Some(idx),
            len: 2,
            user_data: entry::user_data(qid, idx),
        }
    }

    /// COMMIT_AND_FETCH of entry `i`: the queue and the commit id.
    pub fn commit_sqe(&self, i: usize, commit_id: u64) -> (r: Sqe)
        requires
            i < self@.entries.len(),
        ensures
            commits(self@.entries[i as int], commit_id, r),
    {
        let qid: u16 = self.entries[i].qid;
        let idx: u32 = self.entries[i].idx;
        Sqe::UringCmd {
            cmd_op: fuse_uring_cmd::FUSE_IO_URING_CMD_COMMIT_AND_FETCH.value(),
            cmd: entry::cmd_bytes(qid, commit_id),
            iov: None,
            len: 0,
            user_data: entry::user_data(qid, idx),
        }
    }

    /// The poll of the eventfd.
    pub fn wake_sqe(&self) -> (r: Sqe)
        ensures
            r == (Sqe::PollMulti { events: POLLIN, user_data: WAKE }),
            polls_the_eventfd(r),
    {
        Sqe::PollMulti { events: POLLIN, user_data: WAKE }
    }
}

/// Whether `sqe` is REGISTER of the entry `e`.
pub open spec fn registers(e: EntryView, sqe: Sqe) -> bool {
    sqe matches Sqe::UringCmd { cmd_op, cmd, iov, len, user_data } && cmd_op == 1 && cmd@
        == entry::cmd_bytes_of(e.qid, 0) && iov == Some(e.idx) && len == 2 && user_data
        == entry::user_data_of(e.qid, e.idx)
}

/// Whether `sqe` is COMMIT_AND_FETCH of the entry `e`.
pub open spec fn commits(e: EntryView, commit_id: u64, sqe: Sqe) -> bool {
    sqe matches Sqe::UringCmd { cmd_op, cmd, iov, len, user_data } && cmd_op == 2 && cmd@
        == entry::cmd_bytes_of(e.qid, commit_id) && iov is None && len == 0 && user_data
        == entry::user_data_of(e.qid, e.idx)
}

/// Whether `sqe` is the poll of the eventfd.
pub open spec fn polls_the_eventfd(sqe: Sqe) -> bool {
    sqe matches Sqe::PollMulti { events, user_data } && events == POLLIN && user_data == WAKE
}

/// Whether the thread of a ring has to be woken after a hand-off.
pub open spec fn wakes_the_thread(queued: bool, on_ring_thread: bool) -> bool {
    queued && !on_ring_thread
}

/// Whether the eventfd has to be written after a hand-off: an entry was queued, and by a thread
/// other than the ring's own, which pushes what is queued itself before it waits.
pub fn must_wake(queued: bool, on_ring_thread: bool) -> (r: bool)
    ensures
        r == wakes_the_thread(queued, on_ring_thread),
{
    queued && !on_ring_thread
}

/// The ring variant of a reply sender. `Copy` so the usual owned reply objects can be
/// handed out; a second commit for the same fetch is rejected by the state machine, never
/// written.
#[derive(Debug, Clone, Copy, PartialEq, Eq, Structural)]
pub struct RingCommit {
    pub idx: u32,
    pub commit_id: u64,
}

/// Whether `iov[0]` can be a `fuse_out_header`.
pub open spec fn has_out_header(iov: Seq<&[u8]>) -> bool {
    iov.len() > 0 && iov[0]@.len() == OUT_HEADER_SZ
}

impl RingCommit {
    /// The bytes that a commit of `iov` stands for: what does not start with a
    /// `fuse_out_header` is an `EINVAL` reply.
    pub open spec fn reply_bytes(self, iov: Seq<&[u8]>) -> Seq<u8> {
        if has_out_header(iov) {
            bytes::concat(iov)
        } else {
            entry::errno_header_of(self.commit_id, Errno(EINVAL)).spec_bytes()
        }
    }

    /// The stride after a commit of `iov` was written into it.
    pub open spec fn reply_stride(self, e: EntryView, stride: Seq<u8>, iov: Seq<&[u8]>) -> Seq<
        u8,
    > {
        if has_out_header(iov) {
            entry::reply_written(
                stride,
                e.gap as nat,
                e.payload_cap as nat,
                self.commit_id,
                iov,
            )
        } else {
            entry::errno_written(stride, e.gap as nat, self.commit_id, Errno(EINVAL))
        }
    }

    /// Whether `iov` starts with what can be a `fuse_out_header`; anything else is committed as
    /// `EINVAL`.
    pub fn is_reply(iov: &[&[u8]]) -> (r: bool)
        ensures
            r == has_out_header(iov@),
    {
        iov.len() > 0 && iov[0].len() == OUT_HEADER_SZ
    }

    /// Starts a commit. A refused one is `ReplyAfterEnd` when the connection ended (expected
    /// after unmount) and `DuplicateReply` otherwise (a filesystem bug).
    pub fn begin(&self, ring: &mut Ring, iov: &[&[u8]]) -> (r: Result<Begun, Error>)
        requires
            self.idx < old(ring)@.entries.len(),
        ensures
            (final(ring)@, r) == old(ring)@.begin(
                self.idx as int,
                self.commit_id,
                bytes::concat(iov@),
            ),
    {
        let i: usize = self.idx as usize;
        if ring.live.exited {
            ring.kill(i);
            return Ok(Begun::Dropped);
        }
        let conn_dead: bool = ring.live.conn_dead;
        let direct: Option<bool> = match &ring.entries[i].state {
            EntryState::Dispatching { direct_ok, commit_id, .. } => {
                if *commit_id == self.commit_id {
                    Some(*direct_ok)
                } else {
                    None
                }
            },
            EntryState::Dispatched { commit_id } => {
                if *commit_id == self.commit_id {
                    Some(true)
                } else {
                    None
                }
            },
            _ => None,
        };
        match direct {
            Some(true) => {
                ring.set_state(i, EntryState::Committing);
                Ok(Begun::Direct)
            },
            Some(false) => {
                let bytes: Vec<u8> = bytes::gather(iov);
                ring.set_state(i, EntryState::Deferred { bytes, commit_id: self.commit_id });
                Ok(Begun::Deferred)
            },
            None => {
                if conn_dead {
                    Err(Error::ReplyAfterEnd)
                } else {
                    Err(Error::DuplicateReply)
                }
            },
        }
    }

    /// Starts a commit of `iov`; what does not start with a `fuse_out_header` is an `EINVAL` reply.
    /// The buffers of an entry that is then `Committing` are for the caller to `write`, whoever
    /// else uses the ring meanwhile, and to hand off.
    pub fn begin_reply(&self, ring: &mut Ring, iov: &[&[u8]]) -> (r: Result<Begun, Error>)
        requires
            self.idx < old(ring)@.entries.len(),
        ensures
            (final(ring)@, r) == old(ring)@.begin(
                self.idx as int,
                self.commit_id,
                self.reply_bytes(iov@),
            ),
    {
        if Self::is_reply(iov) {
            return self.begin(ring, iov);
        }
        let header: Vec<u8> = errno_header(self.commit_id, Errno(EINVAL)).as_bytes();
        let refusal: [&[u8]; 1] = [header.as_slice()];
        proof {
            assert(refusal@.drop_last() =~= Seq::empty());
            reveal_with_fuel(bytes::concat, 2);
            assert(bytes::concat(refusal@) =~= header@);
        }
        self.begin(ring, refusal.as_slice())
    }

    /// Writes a reply that was begun directly into the stride of its entry `e`.
    pub fn write(&self, e: &RingEntry, stride: &mut [u8], iov: &[&[u8]])
        requires
            e.owns(old(stride)@),
            bytes::concat(iov@.skip(1)).len() <= usize::MAX,
        ensures
            final(stride)@ == self.reply_stride(e@, old(stride)@, iov@),
    {
        if Self::is_reply(iov) {
            e.write_reply(stride, self.commit_id, iov);
        } else {
            e.write_errno(stride, self.commit_id, Errno(EINVAL));
        }
    }

    /// Commits a reply; `iov[0]` is the `fuse_out_header`, the rest the payload. Anything else
    /// in `iov[0]` is answered with `EINVAL`, whichever path the reply takes. Returns whether
    /// the entry was queued for the ring thread.
    pub fn commit(&self, ring: &mut Ring, stride: &mut [u8], iov: &[&[u8]]) -> (r: Result<
        bool,
        Error,
    >)
        requires
            self.idx < old(ring)@.entries.len(),
            old(ring).entries@[self.idx as int].owns(old(stride)@),
            old(ring)@.live.in_kernel < usize::MAX,
            bytes::concat(iov@.skip(1)).len() <= usize::MAX,
        ensures
            ({
                let i = self.idx as int;
                let e = old(ring)@.entries[i];
                let begun = old(ring)@.begin(i, self.commit_id, self.reply_bytes(iov@));
                match begun.1 {
                    Ok(Begun::Direct) => {
                        &&& r == Ok::<bool, Error>(true)
                        &&& final(ring)@ == begun.0.hand_off(i, self.commit_id)
                        &&& final(stride)@ == self.reply_stride(e, old(stride)@, iov@)
                    },
                    Ok(_) => {
                        &&& r == Ok::<bool, Error>(false)
                        &&& final(ring)@ == begun.0
                        &&& final(stride)@ == old(stride)@
                    },
                    Err(err) => {
                        &&& r == Err::<bool, Error>(err)
                        &&& final(ring)@ == begun.0
                        &&& final(stride)@ == old(stride)@
                    },
                }
            }),
    {
        let i: usize = self.idx as usize;
        let ghost before = ring@;
        match self.begin_reply(ring, iov) {
            Ok(Begun::Direct) => {
                assert(ring@.entries.len() == ring.entries@.len());
                assert(ring.entries@[i as int]@ == ring@.entries[i as int]);
                assert(ring@.entries[i as int].gap == before.entries[i as int].gap);
                assert(ring@.entries[i as int].payload_cap == before.entries[i as int].payload_cap);
                self.write(&ring.entries[i], stride, iov);
                Ok(ring.hand_off(i, self.commit_id))
            },
            Ok(_) => Ok(false),
            Err(err) => Err(err),
        }
    }

    /// Commits an errno reply. Only answers while the entry is `Dispatching` or `Dispatched`.
    pub fn commit_errno(&self, ring: &mut Ring, stride: &mut [u8], errno: Errno) -> (r: Result<
        bool,
        Error,
    >)
        requires
            self.idx < old(ring)@.entries.len(),
            old(ring).entries@[self.idx as int].owns(old(stride)@),
            old(ring)@.live.in_kernel < usize::MAX,
            errno.0 != i32::MIN,
        ensures
            ({
                let i = self.idx as int;
                let e = old(ring)@.entries[i];
                let begun = old(ring)@.begin(
                    i,
                    self.commit_id,
                    entry::errno_header_of(self.commit_id, errno).spec_bytes(),
                );
                match begun.1 {
                    Ok(Begun::Direct) => {
                        &&& r == Ok::<bool, Error>(true)
                        &&& final(ring)@ == begun.0.hand_off(i, self.commit_id)
                        &&& final(stride)@ == entry::errno_written(
                            old(stride)@,
                            e.gap as nat,
                            self.commit_id,
                            errno,
                        )
                    },
                    Ok(_) => {
                        &&& r == Ok::<bool, Error>(false)
                        &&& final(ring)@ == begun.0
                        &&& final(stride)@ == old(stride)@
                    },
                    Err(err) => {
                        &&& r == Err::<bool, Error>(err)
                        &&& final(ring)@ == begun.0
                        &&& final(stride)@ == old(stride)@
                    },
                }
            }),
    {
        let header: Vec<u8> = errno_header(self.commit_id, errno).as_bytes();
        let iov: [&[u8]; 1] = [header.as_slice()];
        proof {
            assert(iov@.skip(1) =~= Seq::empty());
            assert(iov@.drop_last() =~= Seq::empty());
            reveal_with_fuel(bytes::concat, 2);
            assert(bytes::concat(iov@) =~= header@);
        }
        self.commit(ring, stride, iov.as_slice())
    }

    /// Records that a reply object exists for this fetch, so the ring thread does not answer
    /// with an empty reply when dispatch returns without one.
    pub fn reply_created(&self, ring: &mut Ring)
        requires
            self.idx < old(ring)@.entries.len(),
        ensures
            final(ring)@ == old(ring)@.reply_created(self.idx as int, self.commit_id),
    {
        let i: usize = self.idx as usize;
        if let EntryState::Dispatching { direct_ok, commit_id, .. } = ring.entries[i].state {
            if commit_id == self.commit_id {
                ring.set_state(
                    i,
                    EntryState::Dispatching { direct_ok, reply_taken: true, commit_id },
                );
            }
        }
    }
}

impl RingCommit {
    /// The handle in words.
    pub fn describe(&self, ring: &Ring) -> (r: String)
        ensures
            r@ == "RingCommit { ring: "@ + text::decimal(ring@.index as nat) + ", idx: "@
                + text::decimal(self.idx as nat) + ", commit_id: "@ + text::decimal(
                self.commit_id as nat,
            ) + " }"@,
    {
        let mut out = String::from_str("RingCommit { ring: ");
        text::append_decimal(&mut out, ring.index as u64);
        out.append(", idx: ");
        text::append_decimal(&mut out, self.idx as u64);
        out.append(", commit_id: ");
        text::append_decimal(&mut out, self.commit_id);
        out.append(" }");
        out
    }
}

/// Every queue has as many entries as it is deep, one after the other, and each entry of the ring
/// its own buffers: entry `q * depth + k` is the `k`th of queue `qids[q]`. None of them is with the
/// kernel or held, and nothing has ended.
pub proof fn new_ring_has_its_entries(
    page: usize,
    index: usize,
    mounted: bool,
    qids: Seq<u16>,
    depth: u32,
    payload_cap: usize,
    numbers: ErrorNumbers,
    q: int,
    k: int,
)
    requires
        0 <= q < qids.len(),
        0 <= k < depth,
        qids.len() * depth <= u32::MAX,
    ensures
        ({
            let made = ring_of(page, index, mounted, qids, depth, payload_cap, numbers);
            let sized = mem::layout_of(page, (qids.len() * depth) as usize, payload_cap);
            &&& sized matches Err(e) ==> made == Err::<RingView, Error>(e)
            &&& sized matches Ok(l) ==> (made matches Ok(r) && {
                let i = q * depth + k;
                &&& r.entries.len() == qids.len() * depth
                &&& 0 <= i < r.entries.len()
                &&& r.entries[i].idx == i
                &&& r.entries[i].qid == qids[q]
                &&& r.entries[i].base == i * (l.gap + l.payload_cap)
                &&& r.entries[i].gap == l.gap
                &&& r.entries[i].payload_cap == l.payload_cap
                &&& r.entries[i].state is Dead
                &&& r.index == index && r.mounted == mounted && r.numbers == numbers && r.mem == l
                &&& r.live.in_kernel == 0 && r.live.outstanding == 0
                &&& r.live.pending.len() == 0 && r.live.flushing.len() == 0
                &&& r.live.fatal is None && !r.live.conn_dead && !r.live.shutdown
                &&& !r.live.abandon && !r.live.exited
            })
        }),
{
    let d = depth as int;
    let n = qids.len() as int;
    let i = q * d + k;
    assert(0 <= i < n * d) by (nonlinear_arith)
        requires
            0 <= q < n,
            0 <= k < d,
            i == q * d + k,
    ;
    assert(i / d == q) by (nonlinear_arith)
        requires
            0 <= k < d,
            i == q * d + k,
    ;
    if let Ok(l) = mem::layout_of(page, (qids.len() * depth) as usize, payload_cap) {
        let s = l.stride() as int;
        assert(0 <= i * s <= (n * d) * s) by (nonlinear_arith)
            requires
                0 <= i < n * d,
                s >= 0,
        ;
        assert(l.gap <= usize::MAX && l.payload_cap <= u32::MAX);
        let r = fresh_ring(index, mounted, qids, depth as nat, l, numbers);
        assert(r.entries.len() == n * d);
    }
}

/// A ring of no entries is refused, and so is one of more than a `u32` counts.
pub proof fn ring_has_entries_that_can_be_counted(
    page: usize,
    index: usize,
    mounted: bool,
    qids: Seq<u16>,
    depth: u32,
    payload_cap: usize,
    numbers: ErrorNumbers,
)
    ensures
        qids.len() == 0 || depth == 0 || qids.len() * depth > u32::MAX ==> ring_of(
            page,
            index,
            mounted,
            qids,
            depth,
            payload_cap,
            numbers,
        ) == Err::<RingView, Error>(Error::EntryCount),
{
    let n = qids.len() as int;
    assert(n * 0 == 0 && 0 * depth == 0) by (nonlinear_arith);
}

/// A commit of a header and parts of payload is that header and those parts; a commit of anything
/// else is an `EINVAL` reply to the same request, which is stashed and written alike.
pub proof fn commit_without_header_is_refused(
    c: RingCommit,
    e: EntryView,
    stride: Seq<u8>,
    header: &[u8],
    parts: Seq<&[u8]>,
    other: Seq<&[u8]>,
)
    requires
        288 <= e.gap,
        e.gap + e.payload_cap <= stride.len(),
        header@.len() == 16,
        other.len() == 0 || other[0]@.len() != 16,
    ensures
        c.reply_bytes(seq![header] + parts) == header@ + bytes::concat(parts),
        bytes::concat(parts).len() <= e.payload_cap <= u32::MAX ==> {
            let w = c.reply_stride(e, stride, seq![header] + parts);
            &&& w.subrange(0, 16) == header@
            &&& w.subrange(e.gap as int, e.gap + bytes::concat(parts).len()) == bytes::concat(parts)
        },
        c.reply_bytes(other).len() == 16,
        entry::header_reads(c.reply_bytes(other), 16, -22, c.commit_id),
        entry::header_reads(c.reply_stride(e, stride, other), 16, -22, c.commit_id),
{
    let iov = seq![header] + parts;
    bytes::concat_keeps_the_slices(seq![header], parts, header);
    if bytes::concat(parts).len() <= e.payload_cap <= u32::MAX {
        entry::reply_with_room_arrives_whole(
            stride,
            e.gap as nat,
            e.payload_cap as nat,
            c.commit_id,
            header,
            parts,
        );
    }
    entry::errno_reply_names_its_request(stride, e.gap as nat, c.commit_id, Errno(EINVAL), 0);
    let refusal = entry::errno_header_of(c.commit_id, Errno(EINVAL));
    refusal.lemma_len();
    refusal.fields_read_back();
}

/// What an io_uring result means: a negative one is an error number, a positive one no result of a
/// command of the ring.
pub proof fn result_is_an_error_number(res: i32)
    requires
        res > i32::MIN,
    ensures
        res < 0 ==> (result_error(res) matches Error::Os(code) && code + res == 0),
        res > 0 ==> result_error(res) == Error::UnexpectedResult(res),
{
}

/// A command of an entry tells the kernel its queue, and REGISTER its two buffers, a commit its
/// request; the completion brings back the queue and the entry. The poll asks for readability alone,
/// and no command of an entry can be taken for it.
pub proof fn command_is_for_its_entry(e: EntryView, commit_id: u64, sqe: Sqe, poll: Sqe)
    requires
        registers(e, sqe) || commits(e, commit_id, sqe),
        polls_the_eventfd(poll),
    ensures
        sqe matches Sqe::UringCmd { cmd_op, cmd, iov, len, user_data } && {
            &&& cmd_op == 1 <==> registers(e, sqe)
            &&& cmd_op == 2 <==> commits(e, commit_id, sqe)
            &&& cmd_op == 1 ==> len == 2 && iov == Some(e.idx) && bytes::ne_value(
                cmd@.subrange(8, 16),
            ) == 0
            &&& cmd_op == 2 ==> len == 0 && iov is None && bytes::ne_value(cmd@.subrange(8, 16))
                == commit_id
            &&& bytes::ne_value(cmd@.subrange(0, 8)) == 0
            &&& bytes::ne_value(cmd@.subrange(16, 18)) == e.qid
            &&& user_data == e.qid * 0x1_0000_0000 + e.idx
            &&& poll matches Sqe::PollMulti { events, user_data: wake } && events == 1 && wake
                != user_data
        },
{
    entry::command_names_its_queue_and_request(e.qid, 0, 18);
    entry::command_names_its_queue_and_request(e.qid, commit_id, 18);
    entry::user_data_is_unique(e.qid, e.idx, 0, 0);
}

/// The thread of a ring is woken exactly for what another thread queued.
pub proof fn thread_is_woken_for_what_others_queue(queued: bool, on_ring_thread: bool)
    ensures
        wakes_the_thread(queued, on_ring_thread) ==> queued && !on_ring_thread,
        !wakes_the_thread(queued, on_ring_thread) ==> !queued || on_ring_thread,
{
}

} // verus!
