//! The threads of a running session: the readers of `/dev/fuse`, the ring threads beside one
//! reader, what each of them does about a request, and how their ends become the session's.

use crate::errno::{Errno, ErrorNumbers, EIO};
use crate::error::Error;
use crate::session::Config;
use crate::text;
use vstd::prelude::*;

verus! {

/// How a thread ended.
#[derive(Debug, Clone, Copy, PartialEq, Eq)]
pub enum ThreadOutcome {
    Ended(Result<(), Error>),
    Panicked,
}

/// The result of joining threads that ended like `outcomes`, in that order.
pub open spec fn joined(outcomes: Seq<ThreadOutcome>) -> Result<(), Error>
    decreases outcomes.len(),
{
    if outcomes.len() == 0 {
        Ok(())
    } else {
        joined_after(joined(outcomes.drop_last()), outcomes.last())
    }
}

/// `reply` after one more thread was joined: a panic overrides, else the first error wins.
pub open spec fn joined_after(reply: Result<(), Error>, outcome: ThreadOutcome) -> Result<
    (),
    Error,
> {
    match outcome {
        ThreadOutcome::Panicked => Err(Error::ThreadPanicked),
        ThreadOutcome::Ended(Err(e)) => if reply is Ok {
            Err(e)
        } else {
            reply
        },
        ThreadOutcome::Ended(Ok(())) => reply,
    }
}

/// The reply after one more thread was joined, and whether the join goes on: a panicked thread
/// ends it at once, leaving later threads detached.
pub fn join_one(reply: Result<(), Error>, outcome: ThreadOutcome) -> (r: (Result<(), Error>, bool))
    ensures
        r.0 == joined_after(reply, outcome),
        r.1 == !(outcome is Panicked),
{
    match outcome {
        ThreadOutcome::Panicked => (Err(Error::ThreadPanicked), false),
        ThreadOutcome::Ended(res) => match res {
            Err(err) => {
                if reply.is_ok() {
                    (Err(err), true)
                } else {
                    (reply, true)
                }
            },
            Ok(()) => (reply, true),
        },
    }
}

/// The result of joining threads that end like `outcomes`. First error wins. A panicked thread
/// ends the join at once, leaving later threads detached.
pub fn join_all(outcomes: &[ThreadOutcome]) -> (r: Result<(), Error>)
    ensures
        r == joined(outcomes@),
{
    let mut reply: Result<(), Error> = Ok(());
    let mut i: usize = 0;
    while i < outcomes.len()
        invariant
            i <= outcomes@.len(),
            reply == joined(outcomes@.take(i as int)),
        decreases outcomes@.len() - i,
    {
        assert(outcomes@.take(i + 1).drop_last() =~= outcomes@.take(i as int));
        let (next, go_on): (Result<(), Error>, bool) = join_one(reply, outcomes[i]);
        if !go_on {
            proof {
                any_panic_is_reported(outcomes@, i as int);
            }
            return next;
        }
        reply = next;
        i = i + 1;
    }
    assert(outcomes@.take(outcomes@.len() as int) =~= outcomes@);
    reply
}

/// One panicked thread, whatever the others do, makes the session report the panic.
pub proof fn any_panic_is_reported(outcomes: Seq<ThreadOutcome>, i: int)
    requires
        0 <= i < outcomes.len(),
        outcomes[i] is Panicked,
    ensures
        joined(outcomes) == Err::<(), Error>(Error::ThreadPanicked),
    decreases outcomes.len(),
{
    if i < outcomes.len() - 1 {
        any_panic_is_reported(outcomes.drop_last(), i);
    }
}

/// Without a panic, the first error is reported, and success only when every thread succeeded.
pub proof fn first_error_is_reported(outcomes: Seq<ThreadOutcome>, i: int)
    requires
        0 <= i <= outcomes.len(),
        forall|j: int| 0 <= j < outcomes.len() ==> !((#[trigger] outcomes[j]) is Panicked),
        forall|j: int|
            0 <= j < i ==> (#[trigger] outcomes[j]) == ThreadOutcome::Ended(Ok::<(), Error>(())),
        i < outcomes.len() ==> outcomes[i] matches ThreadOutcome::Ended(Err(_)),
    ensures
        i == outcomes.len() ==> joined(outcomes) == Ok::<(), Error>(()),
        i < outcomes.len() ==> ThreadOutcome::Ended(joined(outcomes)) == outcomes[i],
    decreases outcomes.len(),
{
    if outcomes.len() > 0 {
        let rest = outcomes.drop_last();
        assert forall|j: int| 0 <= j < rest.len() implies !((#[trigger] rest[j]) is Panicked) by {
            assert(rest[j] == outcomes[j]);
        }
        assert(!(outcomes[outcomes.len() - 1] is Panicked));
        if i < outcomes.len() - 1 {
            assert forall|j: int| 0 <= j < i implies (#[trigger] rest[j]) == ThreadOutcome::Ended(
                Ok::<(), Error>(()),
            ) by {
                assert(rest[j] == outcomes[j]);
            }
            first_error_is_reported(rest, i);
        } else {
            let k = outcomes.len() - 1;
            assert forall|j: int| 0 <= j < k implies (#[trigger] rest[j]) == ThreadOutcome::Ended(
                Ok::<(), Error>(()),
            ) by {
                assert(rest[j] == outcomes[j]);
            }
            first_error_is_reported(rest, k);
            if i == outcomes.len() {
                assert(outcomes[k] == ThreadOutcome::Ended(Ok::<(), Error>(())));
            }
        }
    }
}

/// The channel that a reader thread reads from.
#[derive(Debug, Clone, Copy, PartialEq, Eq, Structural)]
pub enum ReaderChannel {
    /// A descriptor of its own, cloned from the session's.
    Cloned,
    /// The session's descriptor, shared with other readers.
    Shared,
    /// The session's descriptor.
    Own,
}

/// The channels that `n` reader threads read from.
pub open spec fn channels_of(n: nat, clone_fd: bool) -> Seq<ReaderChannel> {
    Seq::new(
        n,
        |i: int|
            if i == n - 1 {
                ReaderChannel::Own
            } else if clone_fd {
                ReaderChannel::Cloned
            } else {
                ReaderChannel::Shared
            },
    )
}

/// Why a session cannot have the reader threads that `config` asks for.
pub open spec fn readers_error(config: Config, linux: bool) -> Option<Error> {
    match config.n_threads {
        None => None,
        Some(n) => if !linux && n != 1 {
            Some(Error::ThreadsNotLinux)
        } else if n == 0 {
            Some(Error::ThreadCount)
        } else {
            None
        },
    }
}

/// The channels of the reader threads of a session: the last thread reads the session's own, the
/// others a clone of it each, or share it.
pub fn reader_channels(config: &Config, linux: bool) -> (r: Result<Vec<ReaderChannel>, Error>)
    ensures
        ({
            let n = match config.n_threads {
                Some(n) => n,
                None => 1,
            };
            match r {
                Err(e) => if !linux && n != 1 {
                    e == Error::ThreadsNotLinux
                } else {
                    n == 0 && e == Error::ThreadCount
                },
                Ok(channels) => {
                    &&& linux || n == 1
                    &&& n > 0
                    &&& channels@.len() == n
                    &&& forall|i: int|
                        0 <= i < n ==> (#[trigger] channels@[i]) == (if i == n - 1 {
                            ReaderChannel::Own
                        } else if config.clone_fd {
                            ReaderChannel::Cloned
                        } else {
                            ReaderChannel::Shared
                        })
                },
            }
        }),
        match r {
            Err(e) => readers_error(*config, linux) == Some(e),
            Ok(channels) => readers_error(*config, linux) is None && channels@ == channels_of(
                match config.n_threads {
                    Some(n) => n as nat,
                    None => 1,
                },
                config.clone_fd,
            ),
        },
{
    let n: usize = match config.n_threads {
        Some(n) => n,
        None => 1,
    };
    if !linux && n != 1 {
        return Err(Error::ThreadsNotLinux);
    }
    if n == 0 {
        return Err(Error::ThreadCount);
    }
    let mut channels: Vec<ReaderChannel> = Vec::new();
    let mut i: usize = 0;
    while i < n - 1
        invariant
            i <= n - 1,
            channels@.len() == i,
            forall|k: int|
                0 <= k < i ==> (#[trigger] channels@[k]) == (if config.clone_fd {
                    ReaderChannel::Cloned
                } else {
                    ReaderChannel::Shared
                }),
        decreases n - i,
    {
        if config.clone_fd {
            channels.push(ReaderChannel::Cloned);
        } else {
            channels.push(ReaderChannel::Shared);
        }
        i = i + 1;
    }
    channels.push(ReaderChannel::Own);
    Ok(channels)
}

/// The name of reader thread `i`.
pub fn reader_name(i: usize) -> (r: String)
    ensures
        r@ == "fuser-"@ + text::decimal(i as nat),
{
    text::numbered("fuser-", i as u64)
}

/// What a reader read.
#[derive(Debug, Clone, Copy, PartialEq, Eq, Structural)]
pub enum Read {
    /// Reading failed with this error number.
    Failed(i32),
    /// The bytes are no request.
    Illegal,
    /// The request to end the session.
    Destroy,
    /// Any other request.
    Request,
}

/// What a reader does about it.
#[derive(Debug, Clone, Copy, PartialEq, Eq)]
pub enum ReadAction {
    /// Dispatch the request and read on.
    Dispatch,
    /// Reply with success and end without an error.
    ReplyAndEnd,
    /// End.
    End(Result<(), Error>),
}

/// What a reader does about what it read.
pub open spec fn turn(read: Read, numbers: ErrorNumbers) -> ReadAction {
    match read {
        Read::Request => ReadAction::Dispatch,
        Read::Destroy => ReadAction::ReplyAndEnd,
        Read::Illegal => ReadAction::End(Err(Error::InvalidRequest)),
        Read::Failed(code) => if numbers.disconnected(code) {
            ReadAction::End(Ok(()))
        } else {
            ReadAction::End(Err(Error::Os(code)))
        },
    }
}

/// One turn of the event loop. The kernel returns `ENODEV` when the filesystem was unmounted, or
/// `ECONNABORTED` when the connection was aborted: either way the connection is gone, which is a
/// normal end of the session.
pub fn event_loop(read: Read, numbers: &ErrorNumbers) -> (r: ReadAction)
    ensures
        r == turn(read, *numbers),
{
    match read {
        Read::Request => ReadAction::Dispatch,
        Read::Destroy => ReadAction::ReplyAndEnd,
        Read::Illegal => ReadAction::End(Err(Error::InvalidRequest)),
        Read::Failed(code) => {
            if numbers.is_disconnected(code) {
                ReadAction::End(Ok(()))
            } else {
                ReadAction::End(Err(Error::Os(code)))
            }
        },
    }
}

/// What a ring thread does about a fetched request.
#[derive(Debug, Clone, Copy, PartialEq, Eq, Structural)]
pub enum FetchAction {
    /// Dispatch the request.
    Dispatch,
    /// Reply with success.
    Reply,
    /// Commit this error number.
    CommitErrno(Errno),
}

/// The handler of one ring thread; it lives exactly as long as the thread serves.
#[derive(Debug, Clone, Copy, PartialEq, Eq, Structural)]
pub struct RingHandler {
    /// A callback panicked on this ring: it no longer enters the filesystem, as a `/dev/fuse`
    /// reader that died does not either; other rings and the reader are unaffected.
    pub panicked: bool,
}

impl RingHandler {
    /// What is done about a fetched request.
    pub open spec fn action(self, read: Read) -> FetchAction {
        if self.panicked || read is Illegal {
            FetchAction::CommitErrno(Errno(EIO))
        } else if read is Destroy {
            FetchAction::Reply
        } else {
            FetchAction::Dispatch
        }
    }

    /// The handler after a dispatch.
    pub open spec fn after(self, panicked: bool) -> RingHandler {
        RingHandler { panicked: self.panicked || panicked }
    }

    /// What is done about a fetched request: unlike on a `/dev/fuse` stream, one that cannot be
    /// read leaves the ring usable.
    pub fn handle(&self, read: Read) -> (r: FetchAction)
        requires
            !(read is Failed),
        ensures
            r == self.action(read),
    {
        if self.panicked {
            return FetchAction::CommitErrno(Errno(EIO));
        }
        match read {
            Read::Illegal => FetchAction::CommitErrno(Errno(EIO)),
            Read::Destroy => FetchAction::Reply,
            _ => FetchAction::Dispatch,
        }
    }

    /// The dispatch returned or panicked. Returns whether the session is to be told: a ring
    /// thread must outlive its panicking callback, since only it can submit the reply that the
    /// unwind committed.
    pub fn handled(&mut self, panicked: bool) -> (r: bool)
        ensures
            *final(self) == old(self).after(panicked),
            r == panicked,
    {
        if panicked {
            self.panicked = true;
        }
        panicked
    }
}

/// What a thread of a ring session tells.
#[derive(Debug, Clone, Copy, PartialEq, Eq)]
pub enum SessionEvent {
    /// The last action is done.
    Ready,
    /// The thread at this index is done, panicked or not.
    Exited(usize),
    /// A filesystem callback on a ring thread panicked.
    Panicked,
    /// Every thread is gone without a word.
    Gone,
    /// The thread that was joined ended like this.
    Joined(ThreadOutcome),
}

/// What the driver of a ring session does next.
#[derive(Debug, Clone, Copy, PartialEq, Eq)]
pub enum SessionAction {
    /// Step again with `Ready`.
    Continue,
    /// Wait for a thread; answer `Exited`, `Panicked` or `Gone`.
    Await,
    /// Join the thread at this index; answer `Joined`.
    Join(usize),
    /// Tell every ring to shut down; answer `Ready`.
    Shutdown,
    /// End the session.
    Return(Result<(), Error>),
}

#[derive(Debug, Clone, Copy, PartialEq, Eq)]
pub enum SessionPhase {
    Awaiting,
    /// One thread exited and is being joined.
    JoiningOne { thread: usize },
    /// The reader ended; the rings are told to leave.
    ShuttingDown,
    /// The threads from `next` on are joined, `reply` so far.
    JoiningRest { next: usize, reply: Result<(), Error> },
    /// The thread before `next` is being joined.
    JoinedRest { next: usize, reply: Result<(), Error> },
    Ended,
}

/// Index of the `/dev/fuse` reader among the threads of a ring session; ring `r` is `r + 1`.
pub const DEV: usize = 0;

/// A session served over its rings, with one `/dev/fuse` reader for the requests the kernel
/// never sends over a ring.
///
/// The ring threads have no way to learn that the connection ended while every entry they
/// own is held by userspace, so they are told to leave once the `/dev/fuse` reader has seen
/// the end of the connection, and joined only then. A panic or error on any thread ends the
/// session at once; the other threads are left to exit with the connection, which is still
/// alive at that point and is not told to shut down.
#[derive(Debug)]
pub struct RingSession {
    pub phase: SessionPhase,
    /// Which threads are still to be joined; the reader is the first.
    pub running: Vec<bool>,
}

#[verifier::ext_equal]
pub struct RingSessionView {
    pub phase: SessionPhase,
    pub running: Seq<bool>,
}

impl View for RingSession {
    type V = RingSessionView;

    open spec fn view(&self) -> RingSessionView {
        RingSessionView { phase: self.phase, running: self.running@ }
    }
}

impl RingSessionView {
    pub open spec fn at(self, phase: SessionPhase) -> RingSessionView {
        RingSessionView { phase, ..self }
    }

    pub open spec fn ended(self, result: Result<(), Error>) -> (RingSessionView, SessionAction) {
        (self.at(SessionPhase::Ended), SessionAction::Return(result))
    }

    pub open spec fn accepts(self, event: SessionEvent) -> bool {
        match self.phase {
            SessionPhase::Awaiting => match event {
                SessionEvent::Exited(t) => t < self.running.len(),
                SessionEvent::Panicked | SessionEvent::Gone => true,
                _ => false,
            },
            SessionPhase::JoiningOne { .. } | SessionPhase::JoinedRest { .. } => event is Joined,
            SessionPhase::ShuttingDown | SessionPhase::JoiningRest { .. } => event is Ready,
            SessionPhase::Ended => false,
        }
    }

    /// The session goes on after thread `t` was joined without an error.
    pub open spec fn joined_one(self, t: usize) -> (RingSessionView, SessionAction) {
        if t == DEV {
            (self.at(SessionPhase::ShuttingDown), SessionAction::Shutdown)
        } else {
            // A ring leaving cleanly before the reader means the connection is ending
            (self.at(SessionPhase::Awaiting), SessionAction::Await)
        }
    }

    pub open spec fn step(self, event: SessionEvent) -> (RingSessionView, SessionAction) {
        match (self.phase, event) {
            (SessionPhase::Awaiting, SessionEvent::Exited(t)) => {
                if self.running[t as int] {
                    (
                        RingSessionView {
                            phase: SessionPhase::JoiningOne { thread: t },
                            running: self.running.update(t as int, false),
                        },
                        SessionAction::Join(t),
                    )
                } else {
                    self.joined_one(t)
                }
            },
            (SessionPhase::Awaiting, SessionEvent::Panicked) => self.ended(
                Err(Error::ThreadPanicked),
            ),
            (SessionPhase::Awaiting, _) => self.ended(Err(Error::ThreadsUnnoticed)),
            (SessionPhase::JoiningOne { thread }, SessionEvent::Joined(outcome)) => {
                match joined_after(Ok(()), outcome) {
                    Err(e) => self.ended(Err(e)),
                    Ok(()) => self.joined_one(thread),
                }
            },
            (SessionPhase::ShuttingDown, _) => (
                self.at(SessionPhase::JoiningRest { next: 0, reply: Ok(()) }),
                SessionAction::Continue,
            ),
            (SessionPhase::JoiningRest { next, reply }, _) => {
                if next >= self.running.len() {
                    self.ended(reply)
                } else if self.running[next as int] {
                    (
                        RingSessionView {
                            phase: SessionPhase::JoinedRest { next: (next + 1) as usize, reply },
                            running: self.running.update(next as int, false),
                        },
                        SessionAction::Join(next),
                    )
                } else {
                    (
                        self.at(SessionPhase::JoiningRest { next: (next + 1) as usize, reply }),
                        SessionAction::Continue,
                    )
                }
            },
            (SessionPhase::JoinedRest { next, reply }, SessionEvent::Joined(outcome)) => {
                let after = joined_after(reply, outcome);
                if outcome is Panicked {
                    self.ended(after)
                } else {
                    (
                        self.at(SessionPhase::JoiningRest { next, reply: after }),
                        SessionAction::Continue,
                    )
                }
            },
            _ => (self, SessionAction::Continue),
        }
    }
}

impl RingSession {
    /// A session with `rings` ring threads and a reader; its first action is to wait for one of
    /// them.
    pub fn new(rings: usize) -> (r: RingSession)
        requires
            rings < usize::MAX,
        ensures
            r@.phase == SessionPhase::Awaiting,
            r@.running == Seq::new((rings + 1) as nat, |i: int| true),
    {
        let mut running: Vec<bool> = Vec::new();
        let mut i: usize = 0;
        while i < rings + 1
            invariant
                rings < usize::MAX,
                i <= rings + 1,
                running@ == Seq::new(i as nat, |j: int| true),
            decreases rings + 1 - i,
        {
            running.push(true);
            assert(running@ =~= Seq::new((i + 1) as nat, |j: int| true));
            i = i + 1;
        }
        RingSession { phase: SessionPhase::Awaiting, running }
    }

    /// Whether `step` can take `event`.
    pub fn can_take(&self, event: &SessionEvent) -> (r: bool)
        ensures
            r == self@.accepts(*event),
    {
        match self.phase {
            SessionPhase::Awaiting => match event {
                SessionEvent::Exited(t) => *t < self.running.len(),
                SessionEvent::Panicked => true,
                SessionEvent::Gone => true,
                _ => false,
            },
            SessionPhase::JoiningOne { .. } => matches!(event, SessionEvent::Joined(_)),
            SessionPhase::JoinedRest { .. } => matches!(event, SessionEvent::Joined(_)),
            SessionPhase::ShuttingDown => matches!(event, SessionEvent::Ready),
            SessionPhase::JoiningRest { .. } => matches!(event, SessionEvent::Ready),
            SessionPhase::Ended => false,
        }
    }

    fn end(&mut self, result: Result<(), Error>) -> (r: SessionAction)
        ensures
            (final(self)@, r) == old(self)@.ended(result),
    {
        self.phase = SessionPhase::Ended;
        SessionAction::Return(result)
    }

    fn go_on(&mut self, thread: usize) -> (r: SessionAction)
        ensures
            (final(self)@, r) == old(self)@.joined_one(thread),
    {
        if thread == DEV {
            self.phase = SessionPhase::ShuttingDown;
            SessionAction::Shutdown
        } else {
            self.phase = SessionPhase::Awaiting;
            SessionAction::Await
        }
    }

    /// Takes what came of the last action and tells the next one.
    pub fn step(&mut self, event: SessionEvent) -> (r: SessionAction)
        requires
            old(self)@.accepts(event),
        ensures
            (final(self)@, r) == old(self)@.step(event),
    {
        match self.phase {
            SessionPhase::Awaiting => match event {
                SessionEvent::Exited(t) => {
                    if self.running[t] {
                        self.running[t] = false;
                        self.phase = SessionPhase::JoiningOne { thread: t };
                        SessionAction::Join(t)
                    } else {
                        self.go_on(t)
                    }
                },
                SessionEvent::Panicked => self.end(Err(Error::ThreadPanicked)),
                _ => self.end(Err(Error::ThreadsUnnoticed)),
            },
            SessionPhase::JoiningOne { thread } => match event {
                SessionEvent::Joined(outcome) => match join_one(Ok(()), outcome).0 {
                    Err(err) => self.end(Err(err)),
                    Ok(()) => self.go_on(thread),
                },
                _ => SessionAction::Continue,
            },
            SessionPhase::ShuttingDown => {
                self.phase = SessionPhase::JoiningRest { next: 0, reply: Ok(()) };
                SessionAction::Continue
            },
            SessionPhase::JoiningRest { next, reply } => {
                if next >= self.running.len() {
                    self.end(reply)
                } else if self.running[next] {
                    self.running[next] = false;
                    self.phase = SessionPhase::JoinedRest { next: next + 1, reply };
                    SessionAction::Join(next)
                } else {
                    self.phase = SessionPhase::JoiningRest { next: next + 1, reply };
                    SessionAction::Continue
                }
            },
            SessionPhase::JoinedRest { next, reply } => match event {
                SessionEvent::Joined(outcome) => {
                    let (after, go_on): (Result<(), Error>, bool) = join_one(reply, outcome);
                    if !go_on {
                        self.end(after)
                    } else {
                        self.phase = SessionPhase::JoiningRest { next, reply: after };
                        SessionAction::Continue
                    }
                },
                _ => SessionAction::Continue,
            },
            SessionPhase::Ended => SessionAction::Continue,
        }
    }
}

/// The threads before `next` were joined once the rest is being joined.
pub open spec fn joined_in_order(s: RingSessionView) -> bool {
    match s.phase {
        SessionPhase::JoiningRest { next, .. } => next <= s.running.len() && forall|i: int|
            0 <= i < next ==> !(#[trigger] s.running[i]),
        SessionPhase::JoinedRest { next, .. } => next <= s.running.len() && forall|i: int|
            0 <= i < next ==> !(#[trigger] s.running[i]),
        _ => true,
    }
}

/// A ring session joins each thread at most once, and ends without an error only when it has
/// joined all of them.
pub proof fn session_ends_well_with_every_thread(s: RingSessionView, event: SessionEvent)
    requires
        joined_in_order(s),
        s.accepts(event),
    ensures
        ({
            let (after, action) = s.step(event);
            &&& joined_in_order(after)
            &&& after.running.len() == s.running.len()
            &&& forall|i: int|
                0 <= i < s.running.len() && (#[trigger] after.running[i]) ==> s.running[i]
            &&& action matches SessionAction::Join(t) ==> t < s.running.len()
                && s.running[t as int] && !after.running[t as int]
            &&& action == SessionAction::Return(Ok(())) ==> forall|i: int|
                0 <= i < s.running.len() ==> !(#[trigger] after.running[i])
        }),
{
}

/// While a ring session serves, a panic ends it at once, and a thread that ends with an error
/// ends it with that error.
pub proof fn panic_or_error_ends_the_session(s: RingSessionView, thread: usize, e: Error)
    ensures
        s.phase is Awaiting ==> s.step(SessionEvent::Panicked).1 == SessionAction::Return(
            Err(Error::ThreadPanicked),
        ),
        s.phase == (SessionPhase::JoiningOne { thread }) ==> {
            &&& s.step(SessionEvent::Joined(ThreadOutcome::Panicked)).1 == SessionAction::Return(
                Err(Error::ThreadPanicked),
            )
            &&& s.step(SessionEvent::Joined(ThreadOutcome::Ended(Err(e)))).1
                == SessionAction::Return(Err(e))
        },
{
}

/// The rings are told to leave once the reader ended well, and not before.
pub proof fn rings_leave_after_the_reader(s: RingSessionView, event: SessionEvent)
    requires
        s.accepts(event),
    ensures
        s.step(event).1 is Shutdown <==> match (s.phase, event) {
            (
                SessionPhase::JoiningOne { thread },
                SessionEvent::Joined(ThreadOutcome::Ended(Ok(_))),
            ) => thread == DEV,
            (SessionPhase::Awaiting, SessionEvent::Exited(thread)) => thread == DEV
                && !s.running[0],
            _ => false,
        },
{
}

/// Exactly one reader, the last, reads the session's own descriptor; the others read a clone each,
/// or share it, as the session was asked.
pub proof fn last_reader_owns_the_descriptor(n: nat, clone_fd: bool, i: int)
    requires
        0 <= i < n,
    ensures
        channels_of(n, clone_fd).len() == n,
        channels_of(n, clone_fd)[i] is Own <==> i == n - 1,
        channels_of(n, clone_fd)[i] is Cloned <==> i < n - 1 && clone_fd,
        channels_of(n, clone_fd)[i] is Shared <==> i < n - 1 && !clone_fd,
{
}

/// A session has reader threads whenever it asks for one, for none in particular, or on Linux for
/// any number but zero.
pub proof fn readers_are_refused_with_reason(config: Config, linux: bool)
    ensures
        readers_error(config, linux) is None <==> match config.n_threads {
            None => true,
            Some(n) => n == 1 || (linux && n > 1),
        },
        readers_error(config, linux) == Some(Error::ThreadsNotLinux) <==> !linux && (
        config.n_threads matches Some(n) && n != 1),
        readers_error(config, linux) == Some(Error::ThreadCount) <==> linux && config.n_threads
            == Some(0usize),
{
}

/// A reader dispatches every request but the last one, which it answers; it ends without an error
/// where the connection is gone, and with the error it got on any other.
pub proof fn reader_serves_until_the_connection_ends(numbers: ErrorNumbers, code: i32)
    ensures
        turn(Read::Request, numbers) == ReadAction::Dispatch,
        turn(Read::Destroy, numbers) == ReadAction::ReplyAndEnd,
        turn(Read::Illegal, numbers) == ReadAction::End(Err(Error::InvalidRequest)),
        code == 19 || code == numbers.econnaborted ==> turn(Read::Failed(code), numbers)
            == ReadAction::End(Ok(())),
        code != 19 && code != numbers.econnaborted ==> turn(Read::Failed(code), numbers)
            == ReadAction::End(Err(Error::Os(code))),
{
}

/// A ring dispatches every request that can be read until a callback panicked on it, and answers
/// `EIO` to all that follow.
pub proof fn ring_serves_until_a_callback_panics(h: RingHandler, later: bool)
    ensures
        !h.panicked ==> {
            &&& h.action(Read::Request) == FetchAction::Dispatch
            &&& h.action(Read::Destroy) == FetchAction::Reply
            &&& h.action(Read::Illegal) == FetchAction::CommitErrno(Errno(5))
            &&& h.after(false) == h
        },
        forall|read: Read| #[trigger]
            h.after(true).after(later).action(read) == FetchAction::CommitErrno(Errno(5)),
{
}

/// A thread of a ring session that exits is joined, unless that was done before; when it is a ring,
/// the session waits on, and when it is the reader, the rings are told to leave and the rest of the
/// threads are joined from the first on.
pub proof fn exited_thread_is_joined(s: RingSessionView, t: usize)
    requires
        s.phase is Awaiting,
        t < s.running.len(),
    ensures
        s.running[t as int] ==> {
            let (joining, join) = s.step(SessionEvent::Exited(t));
            let (after, action) = joining.step(
                SessionEvent::Joined(ThreadOutcome::Ended(Ok(()))),
            );
            &&& join == SessionAction::Join(t)
            &&& joining.running == s.running.update(t as int, false)
            &&& after.running == joining.running
            &&& t != 0 ==> action == SessionAction::Await && after.phase is Awaiting
            &&& t == 0 ==> action == SessionAction::Shutdown && after.step(SessionEvent::Ready) == (
                RingSessionView {
                    phase: SessionPhase::JoiningRest { next: 0, reply: Ok(()) },
                    running: joining.running,
                },
                SessionAction::Continue,
            )
        },
        !s.running[t as int] && t != 0 ==> s.step(SessionEvent::Exited(t)) == (
            s,
            SessionAction::Await,
        ),
        s.step(SessionEvent::Gone).1 == SessionAction::Return(Err(Error::ThreadsUnnoticed)),
{
}

/// The threads that are left are joined in order, each once, and the first of their errors is the
/// session's result; a panic ends the join and is the result.
pub proof fn rest_is_joined_in_order(
    s: RingSessionView,
    next: usize,
    reply: Result<(), Error>,
    e: Error,
)
    requires
        s.phase == (SessionPhase::JoiningRest { next, reply }),
        s.running.len() <= usize::MAX,
    ensures
        next >= s.running.len() ==> s.step(SessionEvent::Ready).1 == SessionAction::Return(reply),
        next < s.running.len() && !s.running[next as int] ==> s.step(SessionEvent::Ready) == (
            RingSessionView {
                phase: SessionPhase::JoiningRest { next: (next + 1) as usize, reply },
                running: s.running,
            },
            SessionAction::Continue,
        ),
        next < s.running.len() && s.running[next as int] ==> {
            let (joining, action) = s.step(SessionEvent::Ready);
            let running = s.running.update(next as int, false);
            &&& action == SessionAction::Join(next)
            &&& joining.running == running
            &&& joining.step(SessionEvent::Joined(ThreadOutcome::Ended(Ok(())))) == (
                RingSessionView {
                    phase: SessionPhase::JoiningRest { next: (next + 1) as usize, reply },
                    running,
                },
                SessionAction::Continue,
            )
            &&& joining.step(SessionEvent::Joined(ThreadOutcome::Ended(Err(e)))) == (
                RingSessionView {
                    phase: SessionPhase::JoiningRest {
                        next: (next + 1) as usize,
                        reply: if reply is Ok {
                            Err(e)
                        } else {
                            reply
                        },
                    },
                    running,
                },
                SessionAction::Continue,
            )
            &&& joining.step(SessionEvent::Joined(ThreadOutcome::Panicked)).1
                == SessionAction::Return(Err(Error::ThreadPanicked))
        },
{
}

/// A ring session can always be told what came of what it asked for.
pub proof fn session_takes_every_answer(
    s: RingSessionView,
    event: SessionEvent,
    t: usize,
    outcome: ThreadOutcome,
)
    requires
        s.accepts(event),
    ensures
        ({
            let (after, action) = s.step(event);
            match action {
                SessionAction::Continue | SessionAction::Shutdown => after.accepts(
                    SessionEvent::Ready,
                ),
                SessionAction::Await => after.accepts(SessionEvent::Panicked) && after.accepts(
                    SessionEvent::Gone,
                ) && (t < s.running.len() ==> after.accepts(SessionEvent::Exited(t))),
                SessionAction::Join(_) => after.accepts(SessionEvent::Joined(outcome)),
                SessionAction::Return(_) => after.phase is Ended,
            }
        }),
{
}

} // verus!
