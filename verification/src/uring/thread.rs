//! The ring thread: registration, the serve loop and the end of a ring, as a machine that tells
//! its driver what to do next and is told what came of it.

use crate::errno::{EBADF, EBUSY, EFAULT, EINTR, ENXIO};
use crate::error::Error;
use crate::uring::entry;
use crate::uring::entry::{EntryState, StateView, WAKE};
use crate::uring::ring;
use crate::uring::ring::{Command, FailureReport, LiveView, Ring, RingView};
use smallvec::SmallVec;
use vstd::prelude::*;

verus! {

/// Most completions that one completion queue holds: twice the largest submission queue.
pub const MAX_COMPLETIONS: usize = 65536;

/// `flags` bit of a completion that more completions of the same command follow.
pub const IORING_CQE_F_MORE: u32 = 2;

/// The completions of one pass, `(user_data, result, flags)` each, in the order they were reaped.
///
/// Held in a `smallvec::SmallVec`, so that a pass over few completions allocates nothing.
#[verifier::external_body]
pub struct CqeBatch {
    items: SmallVec<[(u64, i32, u32); 64]>,
}

/// What a batch holds, first reaped first.
pub uninterp spec fn batch_items(batch: CqeBatch) -> Seq<(u64, i32, u32)>;

impl View for CqeBatch {
    type V = Seq<(u64, i32, u32)>;

    open spec fn view(&self) -> Seq<(u64, i32, u32)> {
        batch_items(*self)
    }
}

impl CqeBatch {
    /// `SmallVec::new`: a vector without items.
    #[verifier::external_body]
    fn new() -> (r: CqeBatch)
        ensures
            batch_items(r) == Seq::<(u64, i32, u32)>::empty(),
    {
        CqeBatch { items: SmallVec::new() }
    }

    /// `SmallVec::len`: the number of items.
    #[verifier::external_body]
    fn len(&self) -> (r: usize)
        ensures
            r == batch_items(*self).len(),
    {
        self.items.len()
    }

    /// `SmallVec::push`: appends one item. The bound keeps clear of the capacity at which a
    /// vector refuses to grow.
    #[verifier::external_body]
    fn push(&mut self, cqe: (u64, i32, u32))
        requires
            batch_items(*old(self)).len() < MAX_COMPLETIONS,
        ensures
            batch_items(*final(self)) == batch_items(*old(self)).push(cqe),
    {
        self.items.push(cqe)
    }

    /// Indexing a `SmallVec`: the item at a position that exists.
    #[verifier::external_body]
    fn get(&self, i: usize) -> (r: (u64, i32, u32))
        requires
            i < batch_items(*self).len(),
        ensures
            r == batch_items(*self)[i as int],
    {
        self.items[i]
    }
}

/// `io_uring::cqueue::more`: whether the flag is set that announces more completions.
pub assume_specification[ io_uring::cqueue::more ](flags: u32) -> (r: bool)
    ensures
        r == (flags & IORING_CQE_F_MORE != 0),
;

/// `io_uring_enter` errors that mean the ring itself is unusable, as opposed to one SQE.
pub open spec fn ring_failure(err: Error) -> bool {
    err == Error::Os(EBADF) || err == Error::Os(ENXIO) || err == Error::Os(EFAULT)
}

pub fn is_ring_failure(err: &Error) -> (r: bool)
    ensures
        r == ring_failure(*err),
{
    match *err {
        Error::Os(code) => code == EBADF || code == ENXIO || code == EFAULT,
        _ => false,
    }
}

/// What came of pushing a command, or of submitting the queue to make room for it.
#[derive(Debug, Clone, Copy, PartialEq, Eq)]
pub enum PushEvent {
    /// The queue took the command, or was full.
    Pushed(bool),
    Submitted(Result<(), Error>),
}

/// How a command gets into the queue.
#[derive(Debug, Clone, Copy, PartialEq, Eq)]
pub enum PushAction {
    /// Push it; answer `Pushed`.
    Push,
    /// Submit the queue; answer `Submitted`.
    Submit,
    /// It is pushed, or was not.
    Return(Result<(), Error>),
}

/// What follows in pushing a command.
pub open spec fn push_after(submitted: bool, event: PushEvent) -> PushAction {
    match event {
        PushEvent::Pushed(true) => PushAction::Return(Ok(())),
        PushEvent::Pushed(false) => if submitted {
            PushAction::Return(Err(Error::QueueFull))
        } else {
            PushAction::Submit
        },
        PushEvent::Submitted(Ok(())) => PushAction::Push,
        PushEvent::Submitted(Err(e)) => PushAction::Return(Err(e)),
    }
}

/// Pushes one command, making room with one submit when the queue is full; `submitted` tells
/// whether that was done before. An error means that the command was not pushed.
pub fn push_or_submit(submitted: bool, event: PushEvent) -> (r: PushAction)
    ensures
        r == push_after(submitted, event),
{
    match event {
        PushEvent::Pushed(pushed) => {
            if pushed {
                PushAction::Return(Ok(()))
            } else if submitted {
                PushAction::Return(Err(Error::QueueFull))
            } else {
                PushAction::Submit
            }
        },
        PushEvent::Submitted(Ok(())) => PushAction::Push,
        PushEvent::Submitted(Err(err)) => PushAction::Return(Err(err)),
    }
}

/// Where the ring thread is.
#[derive(Debug, Clone, Copy, PartialEq, Eq, Structural)]
pub enum Phase {
    /// Parked until the reply that commits the kernel to the queues was written.
    Parked,
    /// The io_uring is being enabled.
    Enabling,
    /// REGISTER is to be pushed for the entries from `next` on.
    Registering { next: u32 },
    /// REGISTER was pushed for the entry `next`.
    RegisterPushed { next: u32 },
    /// The first eventfd poll was pushed.
    ArmingWake,
    /// The registration was submitted.
    Submitting,
    /// The registration failed and was reported.
    NotRegistered,
    /// The registration was reported; the session has yet to run.
    AwaitingHandler,
    /// A pass begins.
    Top,
    /// The queued commits are being pushed.
    Flushing,
    /// COMMIT_AND_FETCH was pushed for `idx`.
    CommitPushed { idx: u32 },
    /// Waiting for a completion.
    Waiting,
    /// The completions are being collected.
    Reaping,
    /// The completions are being worked on.
    Completions,
    /// The eventfd poll failed with `res` and was pushed once more.
    WakeRetried { res: i32 },
    /// The eventfd is being read; `more` completions of its poll follow or not.
    WakeDraining { more: bool },
    /// The eventfd poll ended and was pushed again.
    WakeRearmed,
    /// The last command of `idx` was pushed again.
    Resubmitted { idx: u32 },
    /// The request of an entry is being handled.
    Fetching,
    /// The thread returned.
    Done,
}

/// What came of the last action.
#[derive(Debug, Clone, Copy, PartialEq, Eq)]
pub enum Event {
    /// It is done.
    Ready,
    /// The thread was released, or its session is gone.
    Released(bool),
    /// It succeeded or failed.
    Done(Result<(), Error>),
    /// The handler came, or its session is gone.
    Handler(bool),
}

/// What the driver does next.
#[derive(Debug, Clone, Copy, PartialEq, Eq)]
pub enum Action {
    /// Nothing; step again with `Ready`.
    Continue,
    /// Enable the io_uring for this thread; answer `Done`.
    Enable,
    /// Push a command, submitting when the queue is full; answer `Done`.
    Push(Command),
    /// Yield, then push a command as above; answer `Done`.
    YieldAndPush(Command),
    /// Submit the queue; answer `Done`.
    Submit,
    /// Report the registration. Answer `Handler` with whether the handler came when it
    /// succeeded, `Ready` when it failed.
    Registered(Result<(), Error>),
    /// Serve with a handler that answers every request with `EIO`; answer `Ready`.
    ServeEio,
    /// Submit the queue and wait for a completion, at most 10 ms when `timed`; answer `Done`.
    Wait { timed: bool },
    /// Record every completion; answer `Ready`.
    Reap,
    /// Yield, then record every completion; answer `Ready`.
    YieldAndReap,
    /// Read the eventfd; answer `Ready`.
    DrainWake,
    /// Fetch, dispatch and finish the request of this entry; answer `Ready`.
    Fetch(u32),
    /// A completion named no entry that is in the kernel; answer `Ready`.
    Ignored(u64),
    /// A completion ended this entry; answer `Ready`.
    Failed { idx: u32, report: FailureReport },
    /// The eventfd poll failed, and was re-armed once or is given up: from then on every wait is
    /// bounded; answer `Ready`.
    WakeFailed { err: Error, rearmed: bool },
    /// Return from the thread.
    Exit(Result<(), Error>),
}

/// The ring thread's own state.
pub struct RingThread {
    pub phase: Phase,
    /// The eventfd poll was re-armed after a failure.
    pub wake_retried: bool,
    /// The eventfd poll is dead, so other threads cannot wake this one: every wait is bounded.
    pub wake_dead: bool,
    pub cqes: CqeBatch,
    /// How many of `cqes` were worked on.
    pub next: usize,
}

#[verifier::ext_equal]
pub struct ThreadView {
    pub phase: Phase,
    pub wake_retried: bool,
    pub wake_dead: bool,
    pub cqes: Seq<(u64, i32, u32)>,
    pub next: usize,
}

impl View for RingThread {
    type V = ThreadView;

    open spec fn view(&self) -> ThreadView {
        ThreadView {
            phase: self.phase,
            wake_retried: self.wake_retried,
            wake_dead: self.wake_dead,
            cqes: self.cqes@,
            next: self.next,
        }
    }
}

impl RingView {
    /// Every entry is counted as in the kernel before the first REGISTER is pushed.
    pub open spec fn begin_register(self) -> RingView {
        self.with_live(LiveView { in_kernel: self.entries.len() as usize, ..self.live })
    }

    /// The ring thread returns with `outcome`: a failed ring takes no more commits, and a
    /// drained one reports the error it recorded.
    pub open spec fn finish(self, outcome: Result<(), Error>) -> (RingView, Result<(), Error>) {
        match outcome {
            Err(e) => (self.with_live(LiveView { exited: true, ..self.live }), Err(e)),
            Ok(()) => match self.live.fatal {
                Some(e) => (self.with_live(LiveView { fatal: None, ..self.live }), Err(e)),
                None => (self, Ok(())),
            },
        }
    }

    /// The entry that a completion's `user_data` names.
    pub open spec fn named(self, ud: u64) -> Option<int> {
        let idx = ud % 0x1_0000_0000;
        if idx < self.entries.len() && self.entries[idx as int].qid == (ud / 0x1_0000_0000)
            % 0x1_0000 {
            Some(idx as int)
        } else {
            None
        }
    }
}

impl ThreadView {
    pub open spec fn at(self, phase: Phase) -> ThreadView {
        ThreadView { phase, ..self }
    }

    /// Whether the next completion is for the ring thread to judge: it is the eventfd poll's, or
    /// names an entry that is in the kernel. Any other is ignored, whatever its result.
    pub open spec fn next_is_judged(self, r: RingView) -> bool {
        let ud = self.cqes[self.next as int].0;
        &&& self.next < self.cqes.len()
        &&& ud == WAKE || (r.named(ud) matches Some(i) && r.state(i) is InKernel)
    }

    /// Whether the machine can take `event`: the one its last action is answered with, about
    /// entries that the ring has. Two of the conditions are on what came from outside: a queued
    /// entry is `Pending`, and the result of a completion that is judged can be negated.
    pub open spec fn accepts(self, r: RingView, event: Event) -> bool {
        let n = r.entries.len();
        match self.phase {
            Phase::Parked => event is Released,
            Phase::Enabling | Phase::ArmingWake | Phase::Submitting | Phase::Waiting
            | Phase::WakeRearmed => event is Done,
            Phase::WakeRetried { res } => event is Done && i32::MIN < res < 0,
            Phase::RegisterPushed { next } => event is Done && next < n <= u32::MAX,
            Phase::CommitPushed { idx } => event is Done && idx < n,
            Phase::Resubmitted { idx } => event is Done && idx < n,
            Phase::Registering { next } => event is Ready && next <= n <= u32::MAX,
            Phase::AwaitingHandler => event is Handler,
            Phase::Flushing => event is Ready && r.next_is_pending(),
            Phase::Completions => event is Ready && (self.next_is_judged(r)
                ==> self.cqes[self.next as int].1 > i32::MIN),
            Phase::NotRegistered | Phase::Top | Phase::Reaping | Phase::WakeDraining { .. }
            | Phase::Fetching => event is Ready,
            Phase::Done => false,
        }
    }

    /// The serve loop ends with `outcome`.
    pub open spec fn leave(self, r: RingView, outcome: Result<(), Error>) -> (
        ThreadView,
        RingView,
        Action,
    ) {
        let finished = r.finish(outcome);
        (self.at(Phase::Done), finished.0, Action::Exit(finished.1))
    }

    /// The eventfd poll is given up.
    pub open spec fn poll_failed(self, r: RingView, err: Error) -> (ThreadView, RingView, Action) {
        (
            ThreadView { wake_dead: true, phase: Phase::Completions, ..self },
            r.fail(err),
            Action::WakeFailed { err, rearmed: false },
        )
    }

    /// A completion of the eventfd poll.
    pub open spec fn wake_completed(self, r: RingView, res: i32, flags: u32) -> (
        ThreadView,
        RingView,
        Action,
    ) {
        if res < 0 {
            if self.wake_retried {
                self.poll_failed(r, ring::result_error(res))
            } else {
                (self.at(Phase::WakeRetried { res }), r, Action::Push(Command::Wake))
            }
        } else {
            (
                self.at(Phase::WakeDraining { more: flags & IORING_CQE_F_MORE != 0 }),
                r,
                Action::DrainWake,
            )
        }
    }

    /// A completion of the command `last` of entry `i`.
    pub open spec fn entry_completed(self, r: RingView, i: int, last: u64, res: i32) -> (
        ThreadView,
        RingView,
        Action,
    ) {
        let idx = i as u32;
        if res == 0 {
            (self.at(Phase::Fetching), r, Action::Fetch(idx))
        } else if res == -r.numbers.eagain || res == -EINTR {
            (
                self.at(Phase::Resubmitted { idx }),
                r,
                Action::YieldAndPush(
                    if last == 0 {
                        Command::Register { idx }
                    } else {
                        Command::Commit { idx, commit_id: last }
                    },
                ),
            )
        } else if res == -r.numbers.enotconn || res == -r.numbers.econnaborted {
            (
                self,
                r.with_live(LiveView { conn_dead: true, ..r.live }).retire(i, None),
                Action::Continue,
            )
        } else {
            (
                self,
                r.retire(i, Some(ring::result_error(res))),
                Action::Failed {
                    idx,
                    report: ring::failure_report(r.numbers, res, last, r.live.fatal),
                },
            )
        }
    }

    /// The next completion of the batch, or the next pass.
    pub open spec fn next_completion(self, r: RingView) -> (ThreadView, RingView, Action) {
        if self.next >= self.cqes.len() {
            (self.at(Phase::Top), r, Action::Continue)
        } else {
            let (ud, res, flags) = self.cqes[self.next as int];
            let t = ThreadView { next: (self.next + 1) as usize, ..self };
            if ud == WAKE {
                t.wake_completed(r, res, flags)
            } else {
                match r.named(ud) {
                    Some(i) => match r.state(i) {
                        StateView::InKernel { last } => t.entry_completed(r, i, last, res),
                        _ => (t, r, Action::Ignored(ud)),
                    },
                    None => (t, r, Action::Ignored(ud)),
                }
            }
        }
    }

    /// What the ring thread does about `event`, and what becomes of it and of its ring.
    pub open spec fn step(self, r: RingView, event: Event) -> (ThreadView, RingView, Action) {
        match (self.phase, event) {
            (Phase::Parked, Event::Released(true)) => (
                self.at(Phase::Enabling),
                r,
                Action::Enable,
            ),
            // Nothing was registered
            (Phase::Parked, Event::Released(false)) => (
                self.at(Phase::Done),
                r,
                Action::Exit(Ok(())),
            ),
            (Phase::Enabling, Event::Done(Ok(()))) => (
                self.at(Phase::Registering { next: 0 }),
                r.begin_register(),
                Action::Continue,
            ),
            (Phase::Registering { next }, _) => {
                if next < r.entries.len() {
                    (
                        self.at(Phase::RegisterPushed { next }),
                        r.with_state(next as int, StateView::InKernel { last: 0 }),
                        Action::Push(Command::Register { idx: next }),
                    )
                } else {
                    (self.at(Phase::ArmingWake), r, Action::Push(Command::Wake))
                }
            },
            (Phase::RegisterPushed { next }, Event::Done(Ok(()))) => (
                self.at(Phase::Registering { next: (next + 1) as u32 }),
                r,
                Action::Continue,
            ),
            (Phase::ArmingWake, Event::Done(Ok(()))) => (
                self.at(Phase::Submitting),
                r,
                Action::Submit,
            ),
            (Phase::Submitting, Event::Done(Ok(()))) => (
                self.at(Phase::AwaitingHandler),
                r,
                Action::Registered(Ok(())),
            ),
            // The session fails and its unmount completes whatever earlier batches submitted
            (
                Phase::Enabling | Phase::RegisterPushed { .. } | Phase::ArmingWake
                | Phase::Submitting,
                Event::Done(Err(e)),
            ) => (self.at(Phase::NotRegistered), r, Action::Registered(Err(e))),
            (Phase::NotRegistered, _) => (self.at(Phase::Done), r, Action::Exit(Ok(()))),
            (Phase::AwaitingHandler, Event::Handler(true)) => (
                self.at(Phase::Top),
                r,
                Action::Continue,
            ),
            (Phase::AwaitingHandler, Event::Handler(false)) => {
                if !r.live.abandon && r.mounted {
                    (self.at(Phase::Top), r, Action::ServeEio)
                } else {
                    // Returning closes the io_uring, which cancels the commands and releases
                    // their references to the connection
                    (self.at(Phase::Done), r, Action::Exit(Ok(())))
                }
            },
            (Phase::Top, _) => (self.at(Phase::Flushing), r.take_pending(), Action::Continue),
            (Phase::Flushing, _) => match r.flush_next() {
                (flushed, Some((idx, commit_id))) => (
                    self.at(Phase::CommitPushed { idx }),
                    flushed,
                    Action::Push(Command::Commit { idx, commit_id }),
                ),
                (_, None) => {
                    if r.may_exit() {
                        self.leave(r.with_live(LiveView { exited: true, ..r.live }), Ok(()))
                    } else {
                        (self.at(Phase::Waiting), r, Action::Wait { timed: self.wake_dead })
                    }
                },
            },
            (Phase::CommitPushed { .. }, Event::Done(Ok(()))) => (
                self.at(Phase::Flushing),
                r,
                Action::Continue,
            ),
            (Phase::CommitPushed { idx }, Event::Done(Err(e))) => {
                if ring_failure(e) {
                    self.leave(r, Err(e))
                } else {
                    (
                        self.at(Phase::Flushing),
                        r.retire(idx as int, Some(e)),
                        Action::Continue,
                    )
                }
            },
            (Phase::Waiting, Event::Done(Ok(()))) => (
                ThreadView { phase: Phase::Reaping, cqes: Seq::empty(), next: 0, ..self },
                r,
                Action::Reap,
            ),
            (Phase::Waiting, Event::Done(Err(e))) => {
                if e == Error::Os(EINTR) || (self.wake_dead && e == Error::Os(r.numbers.etime)) {
                    (self.at(Phase::Top), r, Action::Continue)
                } else if e == Error::Os(EBUSY) || e == Error::Os(r.numbers.eagain) {
                    // The queue was not consumed; what has completed makes room to retry
                    (
                        ThreadView { phase: Phase::Reaping, cqes: Seq::empty(), next: 0, ..self },
                        r,
                        Action::YieldAndReap,
                    )
                } else {
                    self.leave(r, Err(e))
                }
            },
            (Phase::Reaping, _) => (self.at(Phase::Completions), r, Action::Continue),
            (Phase::Completions, _) => self.next_completion(r),
            (Phase::WakeRetried { res }, Event::Done(Ok(()))) => (
                ThreadView { wake_retried: true, phase: Phase::Completions, ..self },
                r,
                Action::WakeFailed { err: ring::result_error(res), rearmed: true },
            ),
            (Phase::WakeRetried { res }, _) => self.poll_failed(r, ring::result_error(res)),
            (Phase::WakeDraining { more }, _) => {
                if more {
                    (self.at(Phase::Completions), r, Action::Continue)
                } else {
                    (self.at(Phase::WakeRearmed), r, Action::Push(Command::Wake))
                }
            },
            (Phase::WakeRearmed, Event::Done(Ok(()))) => (
                self.at(Phase::Completions),
                r,
                Action::Continue,
            ),
            (Phase::WakeRearmed, Event::Done(Err(e))) => {
                if ring_failure(e) {
                    self.leave(r, Err(e))
                } else {
                    self.poll_failed(r, e)
                }
            },
            (Phase::Resubmitted { .. }, Event::Done(Ok(()))) => (
                self.at(Phase::Completions),
                r,
                Action::Continue,
            ),
            (Phase::Resubmitted { idx }, Event::Done(Err(e))) => {
                if ring_failure(e) {
                    self.leave(r, Err(e))
                } else {
                    (
                        self.at(Phase::Completions),
                        r.retire(idx as int, Some(e)),
                        Action::Continue,
                    )
                }
            },
            (Phase::Fetching, _) => (self.at(Phase::Completions), r, Action::Continue),
            _ => (self, r, Action::Continue),
        }
    }
}

impl Ring {
    /// Counts every entry as in the kernel, before the first REGISTER is pushed.
    fn begin_register(&mut self)
        ensures
            final(self)@ == old(self)@.begin_register(),
    {
        self.live.in_kernel = self.entries.len();
    }

    /// Marks entry `i` as registered, as its REGISTER is pushed.
    fn register_entry(&mut self, i: usize)
        requires
            i < old(self)@.entries.len(),
        ensures
            final(self)@ == old(self)@.with_state(i as int, StateView::InKernel { last: 0 }),
    {
        self.entries[i].state = EntryState::InKernel { last: 0 };
        assert(self@.entries =~= old(self)@.with_state(
            i as int,
            StateView::InKernel { last: 0 },
        ).entries);
    }

    /// Ends the ring with the outcome of its serve loop.
    pub fn finish(&mut self, outcome: Result<(), Error>) -> (r: Result<(), Error>)
        ensures
            (final(self)@, r) == old(self)@.finish(outcome),
    {
        match outcome {
            Err(err) => {
                self.live.exited = true;
                Err(err)
            },
            Ok(()) => match self.live.fatal.take() {
                Some(err) => Err(err),
                None => Ok(()),
            },
        }
    }

    /// The entry that a completion's `user_data` names.
    fn named(&self, ud: u64) -> (r: Option<usize>)
        ensures
            match r {
                Some(i) => self@.named(ud) == Some(i as int) && i < self@.entries.len() && i
                    <= u32::MAX,
                None => self@.named(ud) is None,
            },
    {
        let (qid, idx): (u16, u32) = entry::decode(ud);
        let i: usize = idx as usize;
        if i < self.entries.len() && self.entries[i].qid == qid {
            Some(i)
        } else {
            None
        }
    }
}

impl RingThread {
    /// A thread that is parked.
    pub fn new() -> (r: RingThread)
        ensures
            r@ == (ThreadView {
                phase: Phase::Parked,
                wake_retried: false,
                wake_dead: false,
                cqes: Seq::empty(),
                next: 0,
            }),
    {
        RingThread {
            phase: Phase::Parked,
            wake_retried: false,
            wake_dead: false,
            cqes: CqeBatch::new(),
            next: 0,
        }
    }

    /// Records one completion, for `Action::Reap` and `Action::YieldAndReap`.
    pub fn record(&mut self, user_data: u64, result: i32, flags: u32)
        requires
            old(self)@.cqes.len() < MAX_COMPLETIONS,
        ensures
            final(self)@ == (ThreadView {
                cqes: old(self)@.cqes.push((user_data, result, flags)),
                ..old(self)@
            }),
    {
        self.cqes.push((user_data, result, flags));
    }

    /// How many completions were recorded for this pass.
    pub fn recorded(&self) -> (r: usize)
        ensures
            r == self@.cqes.len(),
    {
        self.cqes.len()
    }

    /// Whether the next completion is the eventfd poll's, or names an entry that is in the kernel.
    fn next_is_judged(&self, ring: &Ring) -> (r: bool)
        ensures
            r == self@.next_is_judged(ring@),
    {
        if self.next >= self.cqes.len() {
            return false;
        }
        let (ud, _, _): (u64, i32, u32) = self.cqes.get(self.next);
        if ud == WAKE {
            return true;
        }
        match ring.named(ud) {
            Some(i) => ring.last_command(i).is_some(),
            None => false,
        }
    }

    /// Whether `step` can take `event`.
    pub fn can_take(&self, ring: &Ring, event: &Event) -> (r: bool)
        ensures
            r == self@.accepts(ring@, *event),
    {
        let n: usize = ring.entries.len();
        assert(n == ring@.entries.len());
        let ready: bool = matches!(event, Event::Ready);
        let done: bool = matches!(event, Event::Done(_));
        match self.phase {
            Phase::Parked => matches!(event, Event::Released(_)),
            Phase::Enabling => done,
            Phase::ArmingWake => done,
            Phase::Submitting => done,
            Phase::Waiting => done,
            Phase::WakeRearmed => done,
            Phase::WakeRetried { res } => done && i32::MIN < res && res < 0,
            Phase::RegisterPushed { next } => done && (next as usize) < n && n as u64
                <= u32::MAX as u64,
            Phase::CommitPushed { idx } => done && (idx as usize) < n,
            Phase::Resubmitted { idx } => done && (idx as usize) < n,
            Phase::Registering { next } => ready && next as usize <= n && n as u64
                <= u32::MAX as u64,
            Phase::AwaitingHandler => matches!(event, Event::Handler(_)),
            Phase::Flushing => ready && ring.next_is_pending(),
            Phase::Completions => ready && (!self.next_is_judged(ring) || self.cqes.get(
                self.next,
            ).1 > i32::MIN),
            Phase::NotRegistered => ready,
            Phase::Top => ready,
            Phase::Reaping => ready,
            Phase::WakeDraining { .. } => ready,
            Phase::Fetching => ready,
            Phase::Done => false,
        }
    }

    fn leave(&mut self, ring: &mut Ring, outcome: Result<(), Error>) -> (r: Action)
        ensures
            (final(self)@, final(ring)@, r) == old(self)@.leave(old(ring)@, outcome),
    {
        self.phase = Phase::Done;
        Action::Exit(ring.finish(outcome))
    }

    fn poll_failed(&mut self, ring: &mut Ring, err: Error) -> (r: Action)
        ensures
            (final(self)@, final(ring)@, r) == old(self)@.poll_failed(old(ring)@, err),
    {
        ring.fail(err);
        self.wake_dead = true;
        self.phase = Phase::Completions;
        Action::WakeFailed { err, rearmed: false }
    }

    fn wake_completed(&mut self, ring: &mut Ring, res: i32, flags: u32) -> (r: Action)
        requires
            res > i32::MIN,
        ensures
            (final(self)@, final(ring)@, r) == old(self)@.wake_completed(old(ring)@, res, flags),
    {
        if res < 0 {
            if self.wake_retried {
                self.poll_failed(ring, Error::Os(-res))
            } else {
                self.phase = Phase::WakeRetried { res };
                Action::Push(Command::Wake)
            }
        } else {
            let more: bool = io_uring::cqueue::more(flags);
            self.phase = Phase::WakeDraining { more };
            Action::DrainWake
        }
    }

    fn entry_completed(&mut self, ring: &mut Ring, i: usize, last: u64, res: i32) -> (r: Action)
        requires
            i < old(ring)@.entries.len(),
            i <= u32::MAX,
            res > i32::MIN,
        ensures
            (final(self)@, final(ring)@, r) == old(self)@.entry_completed(
                old(ring)@,
                i as int,
                last,
                res,
            ),
    {
        let idx: u32 = i as u32;
        if res == 0 {
            self.phase = Phase::Fetching;
            Action::Fetch(idx)
        } else if -res == ring.numbers.eagain || -res == EINTR {
            self.phase = Phase::Resubmitted { idx };
            if last == 0 {
                Action::YieldAndPush(Command::Register { idx })
            } else {
                Action::YieldAndPush(Command::Commit { idx, commit_id: last })
            }
        } else if -res == ring.numbers.enotconn || -res == ring.numbers.econnaborted {
            ring.connection_ended(i);
            Action::Continue
        } else {
            let report = ring.fail_entry(i, res, last);
            Action::Failed { idx, report }
        }
    }

    fn next_completion(&mut self, ring: &mut Ring) -> (r: Action)
        requires
            old(self)@.next_is_judged(old(ring)@) ==> old(self)@.cqes[old(self).next as int].1
                > i32::MIN,
        ensures
            (final(self)@, final(ring)@, r) == old(self)@.next_completion(old(ring)@),
    {
        if self.next >= self.cqes.len() {
            self.phase = Phase::Top;
            return Action::Continue;
        }
        let (ud, res, flags): (u64, i32, u32) = self.cqes.get(self.next);
        self.next = self.next + 1;
        if ud == WAKE {
            return self.wake_completed(ring, res, flags);
        }
        match ring.named(ud) {
            Some(i) => match ring.last_command(i) {
                Some(last) => self.entry_completed(ring, i, last, res),
                None => Action::Ignored(ud),
            },
            None => Action::Ignored(ud),
        }
    }

    /// The registration failed.
    fn not_registered(&mut self, err: Error) -> (r: Action)
        ensures
            final(self)@ == old(self)@.at(Phase::NotRegistered),
            r == Action::Registered(Err(err)),
    {
        self.phase = Phase::NotRegistered;
        Action::Registered(Err(err))
    }

    /// Goes on to `phase` with nothing for the driver to do.
    fn go(&mut self, phase: Phase) -> (r: Action)
        ensures
            final(self)@ == old(self)@.at(phase),
            r == Action::Continue,
    {
        self.phase = phase;
        Action::Continue
    }

    /// Takes what came of the last action and tells the next one.
    ///
    /// The ring leaves once nothing is pending in the kernel and either the connection ended
    /// or the session shut down (requests still held by userspace are stranded by the kernel
    /// anyway), or a fatal error was recorded and no fetched request is still held, since
    /// leaving earlier would drop the replies of those requests and hang the applications
    /// behind them.
    pub fn step(&mut self, ring: &mut Ring, event: Event) -> (r: Action)
        requires
            old(self)@.accepts(old(ring)@, event),
        ensures
            (final(self)@, final(ring)@, r) == old(self)@.step(old(ring)@, event),
    {
        let outcome: Result<(), Error> = match event {
            Event::Done(outcome) => outcome,
            _ => Ok(()),
        };
        match self.phase {
            Phase::Parked => {
                if matches!(event, Event::Released(true)) {
                    self.phase = Phase::Enabling;
                    Action::Enable
                } else {
                    self.phase = Phase::Done;
                    Action::Exit(Ok(()))
                }
            },
            Phase::Enabling => match outcome {
                Ok(()) => {
                    ring.begin_register();
                    self.go(Phase::Registering { next: 0 })
                },
                Err(err) => self.not_registered(err),
            },
            Phase::Registering { next } => {
                if (next as usize) < ring.entries.len() {
                    ring.register_entry(next as usize);
                    self.phase = Phase::RegisterPushed { next };
                    Action::Push(Command::Register { idx: next })
                } else {
                    self.phase = Phase::ArmingWake;
                    Action::Push(Command::Wake)
                }
            },
            Phase::RegisterPushed { next } => match outcome {
                Ok(()) => self.go(Phase::Registering { next: next + 1 }),
                Err(err) => self.not_registered(err),
            },
            Phase::ArmingWake => match outcome {
                Ok(()) => {
                    self.phase = Phase::Submitting;
                    Action::Submit
                },
                Err(err) => self.not_registered(err),
            },
            Phase::Submitting => match outcome {
                Ok(()) => {
                    self.phase = Phase::AwaitingHandler;
                    Action::Registered(Ok(()))
                },
                Err(err) => self.not_registered(err),
            },
            Phase::NotRegistered => {
                self.phase = Phase::Done;
                Action::Exit(Ok(()))
            },
            Phase::AwaitingHandler => {
                if matches!(event, Event::Handler(true)) {
                    self.go(Phase::Top)
                } else if !ring.live.abandon && ring.mounted {
                    self.phase = Phase::Top;
                    Action::ServeEio
                } else {
                    self.phase = Phase::Done;
                    Action::Exit(Ok(()))
                }
            },
            Phase::Top => {
                ring.take_pending();
                self.go(Phase::Flushing)
            },
            Phase::Flushing => match ring.flush_next() {
                Some((idx, commit_id)) => {
                    self.phase = Phase::CommitPushed { idx };
                    Action::Push(Command::Commit { idx, commit_id })
                },
                None => {
                    if ring.check_exit() {
                        self.leave(ring, Ok(()))
                    } else {
                        self.phase = Phase::Waiting;
                        Action::Wait { timed: self.wake_dead }
                    }
                },
            },
            Phase::CommitPushed { idx } => match outcome {
                Ok(()) => self.go(Phase::Flushing),
                Err(err) => {
                    if is_ring_failure(&err) {
                        self.leave(ring, Err(err))
                    } else {
                        ring.retire(idx as usize, Some(err));
                        self.go(Phase::Flushing)
                    }
                },
            },
            Phase::Waiting => match outcome {
                Ok(()) => {
                    self.cqes = CqeBatch::new();
                    self.next = 0;
                    self.phase = Phase::Reaping;
                    Action::Reap
                },
                Err(err) => match err {
                    Error::Os(code) => {
                        if code == EINTR || (self.wake_dead && code == ring.numbers.etime) {
                            self.go(Phase::Top)
                        } else if code == EBUSY || code == ring.numbers.eagain {
                            self.cqes = CqeBatch::new();
                            self.next = 0;
                            self.phase = Phase::Reaping;
                            Action::YieldAndReap
                        } else {
                            self.leave(ring, Err(err))
                        }
                    },
                    _ => self.leave(ring, Err(err)),
                },
            },
            Phase::Reaping => self.go(Phase::Completions),
            Phase::Completions => self.next_completion(ring),
            Phase::WakeRetried { res } => match outcome {
                Ok(()) => {
                    self.wake_retried = true;
                    self.phase = Phase::Completions;
                    Action::WakeFailed { err: Error::Os(-res), rearmed: true }
                },
                Err(_) => self.poll_failed(ring, Error::Os(-res)),
            },
            Phase::WakeDraining { more } => {
                if more {
                    self.go(Phase::Completions)
                } else {
                    self.phase = Phase::WakeRearmed;
                    Action::Push(Command::Wake)
                }
            },
            Phase::WakeRearmed => match outcome {
                Ok(()) => self.go(Phase::Completions),
                Err(err) => {
                    if is_ring_failure(&err) {
                        self.leave(ring, Err(err))
                    } else {
                        self.poll_failed(ring, err)
                    }
                },
            },
            Phase::Resubmitted { idx } => match outcome {
                Ok(()) => self.go(Phase::Completions),
                Err(err) => {
                    if is_ring_failure(&err) {
                        self.leave(ring, Err(err))
                    } else {
                        ring.retire(idx as usize, Some(err));
                        self.go(Phase::Completions)
                    }
                },
            },
            Phase::Fetching => self.go(Phase::Completions),
            Phase::Done => Action::Continue,
        }
    }
}

/// A command that fits is pushed. One that does not is pushed again after one submit, and given up
/// when that fails, with its error, or when there is still no room.
pub proof fn command_is_pushed_or_given_up(submitted: bool, e: Error)
    ensures
        push_after(submitted, PushEvent::Pushed(true)) == PushAction::Return(Ok(())),
        push_after(false, PushEvent::Pushed(false)) == PushAction::Submit,
        push_after(true, PushEvent::Pushed(false)) == PushAction::Return(Err(Error::QueueFull)),
        push_after(submitted, PushEvent::Submitted(Ok(()))) == PushAction::Push,
        push_after(submitted, PushEvent::Submitted(Err(e))) == PushAction::Return(Err(e)),
{
}

/// A ring is unusable on `EBADF`, `ENXIO` and `EFAULT`, and on no other error.
pub proof fn few_errors_cost_the_ring(err: Error)
    ensures
        ring_failure(err) <==> (err matches Error::Os(code) && (code == 9 || code == 6 || code
            == 14)),
{
}

} // verus!
