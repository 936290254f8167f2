//! A session that runs in the background, and how it is taken down: by unmounting and joining,
//! by joining alone, or by dropping the handle.

use crate::error::Error;
use crate::session::threads::ThreadOutcome;
use vstd::prelude::*;

verus! {

/// How long teardown waits for the kernel connection to end after a successful unmount request,
/// before giving up on joining the session thread, in seconds. The connection can end
/// asynchronously, but a few seconds only pass without it ending when the session cannot be
/// waited for, e.g. a lazily unmounted filesystem still in use.
pub const UNMOUNT_WAIT_SECS: u64 = 5;

/// The background session data structure.
///
/// Dropping this unmounts the filesystem and blocks until the session has ended, which
/// guarantees that the filesystem was destroyed when drop returns. For a session on a descriptor
/// it was given there is no mount to remove, so dropping cannot end the session and leaves its
/// thread detached. The thread is likewise left detached rather than waited for when the unmount
/// fails, or when the kernel connection is still alive a few seconds after a successful unmount
/// request.
#[derive(Debug, Clone, Copy, PartialEq, Eq, Structural)]
pub struct BackgroundSession {
    /// The thread of the session is neither joined nor detached.
    pub guard: bool,
    /// There is a mount to remove.
    pub mount: bool,
}

/// How a background session is taken down.
#[derive(Debug, Clone, Copy, PartialEq, Eq, Structural)]
pub enum Teardown {
    /// Unmount the filesystem and join the thread.
    UmountAndJoin,
    /// Join the thread: blocks until something else ends the session, e.g. an external unmount.
    Join,
    /// Drop the handle.
    Drop,
}

/// What came of the last action.
#[derive(Debug, Clone, Copy, PartialEq, Eq)]
pub enum TeardownEvent {
    /// The teardown begins.
    Begin,
    /// The filesystem was unmounted, or could not be.
    Unmounted(Result<(), Error>),
    /// The kernel connection ended within the wait, or did not.
    ConnectionEnded(bool),
    /// The thread was joined.
    Joined(ThreadOutcome),
}

/// What the driver does next.
#[derive(Debug, Clone, Copy, PartialEq, Eq)]
pub enum TeardownAction {
    /// Unmount the filesystem; answer `Unmounted`.
    Umount,
    /// Wait boundedly for the connection to end; answer `ConnectionEnded`.
    AwaitEnd,
    /// Join the thread; answer `Joined`.
    Join,
    /// The teardown is over. The thread was joined, or is left to itself.
    Return { joined: bool, result: Result<(), Error> },
}

/// The result of the thread of a background session.
pub open spec fn thread_result(outcome: ThreadOutcome) -> Result<(), Error> {
    match outcome {
        ThreadOutcome::Ended(result) => result,
        ThreadOutcome::Panicked => Err(Error::BackgroundPanicked),
    }
}

impl BackgroundSession {
    /// The session leaves with its thread detached.
    pub open spec fn detached(self, result: Result<(), Error>) -> (
        BackgroundSession,
        TeardownAction,
    ) {
        (
            BackgroundSession { guard: false, ..self },
            TeardownAction::Return { joined: false, result },
        )
    }

    /// The thread is joined, unless it was before.
    pub open spec fn joining(self) -> (BackgroundSession, TeardownAction) {
        if self.guard {
            (BackgroundSession { guard: false, ..self }, TeardownAction::Join)
        } else {
            (self, TeardownAction::Return { joined: false, result: Ok(()) })
        }
    }

    /// What is done about `event` when the session is taken down by `how`.
    pub open spec fn spec_step(self, how: Teardown, event: TeardownEvent) -> (
        BackgroundSession,
        TeardownAction,
    ) {
        match event {
            TeardownEvent::Begin => {
                if how is Join {
                    self.joining()
                } else if self.mount {
                    (BackgroundSession { mount: false, ..self }, TeardownAction::Umount)
                } else if how is Drop {
                    // Nothing here can end the session
                    self.detached(Ok(()))
                } else {
                    self.joining()
                }
            },
            // Still mounted and still running, so joining would block indefinitely
            TeardownEvent::Unmounted(Err(e)) => self.detached(Err(e)),
            TeardownEvent::Unmounted(Ok(())) => {
                if how is Drop {
                    (self, TeardownAction::AwaitEnd)
                } else {
                    self.joining()
                }
            },
            TeardownEvent::ConnectionEnded(ended) => {
                if ended {
                    self.joining()
                } else {
                    self.detached(Ok(()))
                }
            },
            TeardownEvent::Joined(outcome) => (
                self,
                TeardownAction::Return { joined: true, result: thread_result(outcome) },
            ),
        }
    }

    /// The handle of a session whose thread was just spawned.
    pub fn new(mounted: bool) -> (r: BackgroundSession)
        ensures
            r == (BackgroundSession { guard: true, mount: mounted }),
    {
        BackgroundSession { guard: true, mount: mounted }
    }

    fn detach(&mut self, result: Result<(), Error>) -> (r: TeardownAction)
        ensures
            (*final(self), r) == old(self).detached(result),
    {
        self.guard = false;
        TeardownAction::Return { joined: false, result }
    }

    fn join_impl(&mut self) -> (r: TeardownAction)
        ensures
            (*final(self), r) == old(self).joining(),
    {
        if self.guard {
            self.guard = false;
            TeardownAction::Join
        } else {
            TeardownAction::Return { joined: false, result: Ok(()) }
        }
    }

    /// Takes what came of the last action and tells the next one.
    pub fn step(&mut self, how: Teardown, event: TeardownEvent) -> (r: TeardownAction)
        ensures
            (*final(self), r) == old(self).spec_step(how, event),
    {
        match event {
            TeardownEvent::Begin => match how {
                Teardown::Join => self.join_impl(),
                Teardown::UmountAndJoin => {
                    if self.mount {
                        self.mount = false;
                        TeardownAction::Umount
                    } else {
                        self.join_impl()
                    }
                },
                Teardown::Drop => {
                    if self.mount {
                        self.mount = false;
                        TeardownAction::Umount
                    } else {
                        self.detach(Ok(()))
                    }
                },
            },
            TeardownEvent::Unmounted(result) => match result {
                Err(err) => self.detach(Err(err)),
                Ok(()) => match how {
                    Teardown::Drop => TeardownAction::AwaitEnd,
                    _ => self.join_impl(),
                },
            },
            TeardownEvent::ConnectionEnded(ended) => {
                if ended {
                    self.join_impl()
                } else {
                    self.detach(Ok(()))
                }
            },
            TeardownEvent::Joined(outcome) => match outcome {
                ThreadOutcome::Ended(result) => TeardownAction::Return { joined: true, result },
                ThreadOutcome::Panicked => TeardownAction::Return {
                    joined: true,
                    result: Err(Error::BackgroundPanicked),
                },
            },
        }
    }

    /// Unmounts the filesystem and joins the thread.
    pub fn umount_and_join(&mut self, event: TeardownEvent) -> (r: TeardownAction)
        ensures
            (*final(self), r) == old(self).spec_step(Teardown::UmountAndJoin, event),
    {
        self.step(Teardown::UmountAndJoin, event)
    }

    /// Joins the thread without unmounting first.
    pub fn join(&mut self, event: TeardownEvent) -> (r: TeardownAction)
        ensures
            (*final(self), r) == old(self).spec_step(Teardown::Join, event),
    {
        self.step(Teardown::Join, event)
    }
}

/// Dropping a mounted session waits for it to end once the unmount succeeded and the connection
/// is gone; in every other case the thread is left detached.
pub proof fn drop_waits_for_the_session(unmounted: Result<(), Error>, ended: bool)
    ensures
        ({
            let s = BackgroundSession { guard: true, mount: true };
            let (s1, first) = s.spec_step(Teardown::Drop, TeardownEvent::Begin);
            let (s2, second) = s1.spec_step(Teardown::Drop, TeardownEvent::Unmounted(unmounted));
            let (s3, third) = s2.spec_step(Teardown::Drop, TeardownEvent::ConnectionEnded(ended));
            &&& first == TeardownAction::Umount
            &&& unmounted is Err ==> (second matches TeardownAction::Return { joined: false, .. })
            &&& unmounted is Ok ==> second == TeardownAction::AwaitEnd && third == (if ended {
                TeardownAction::Join
            } else {
                TeardownAction::Return { joined: false, result: Ok(()) }
            })
        }),
{
}

/// A handle is taken down at most once: its mount is removed once and its thread joined once,
/// whatever is done to it.
pub proof fn teardown_happens_once(s: BackgroundSession, how: Teardown, event: TeardownEvent)
    ensures
        ({
            let (after, action) = s.spec_step(how, event);
            &&& after.guard ==> s.guard
            &&& after.mount ==> s.mount
            &&& action is Umount ==> s.mount && !after.mount
            &&& action is Join ==> s.guard && !after.guard
        }),
{
}

/// However a session is taken down, the result of its thread is what the teardown returns, whatever
/// it is; a thread that panicked is told as such.
pub proof fn result_of_the_thread_is_returned(
    s: BackgroundSession,
    how: Teardown,
    result: Result<(), Error>,
)
    ensures
        s.spec_step(how, TeardownEvent::Joined(ThreadOutcome::Ended(result))) == (
            s,
            TeardownAction::Return { joined: true, result },
        ),
        s.spec_step(how, TeardownEvent::Joined(ThreadOutcome::Panicked)) == (
            s,
            TeardownAction::Return { joined: true, result: Err(Error::BackgroundPanicked) },
        ),
{
}

/// Unmounting and joining a running session removes its mount, where it has one, joins its thread
/// and returns the thread's result; a mount that cannot be removed leaves the thread detached and is
/// told with its error.
pub proof fn umount_and_join_returns_the_result(
    mounted: bool,
    result: Result<(), Error>,
    e: Error,
)
    ensures
        ({
            let how = Teardown::UmountAndJoin;
            let s = BackgroundSession { guard: true, mount: mounted };
            let (s1, first) = s.spec_step(how, TeardownEvent::Begin);
            let (s2, second) = s1.spec_step(how, TeardownEvent::Unmounted(Ok(())));
            let joined = if mounted {
                s2
            } else {
                s1
            };
            &&& first == (if mounted {
                TeardownAction::Umount
            } else {
                TeardownAction::Join
            })
            &&& mounted ==> second == TeardownAction::Join
            &&& !joined.guard && !joined.mount
            &&& joined.spec_step(how, TeardownEvent::Joined(ThreadOutcome::Ended(result))).1 == (
            TeardownAction::Return { joined: true, result })
            &&& mounted ==> s1.spec_step(how, TeardownEvent::Unmounted(Err(e))) == (
                BackgroundSession { guard: false, mount: false },
                TeardownAction::Return { joined: false, result: Err(e) },
            )
        }),
{
}

/// Joining waits for the thread without touching the mount.
pub proof fn join_leaves_the_mount(s: BackgroundSession)
    ensures
        ({
            let (after, action) = s.spec_step(Teardown::Join, TeardownEvent::Begin);
            &&& after.mount == s.mount
            &&& !after.guard
            &&& s.guard ==> action == TeardownAction::Join
            &&& !s.guard ==> action == (TeardownAction::Return { joined: false, result: Ok(()) })
        }),
{
}

/// Dropping a handle without a mount detaches its thread at once, and dropping one whose mount
/// cannot be removed, or whose connection does not end in time, detaches it then.
pub proof fn drop_detaches_what_cannot_end(s: BackgroundSession, e: Error)
    ensures
        !s.mount ==> s.spec_step(Teardown::Drop, TeardownEvent::Begin) == (
            BackgroundSession { guard: false, mount: false },
            TeardownAction::Return { joined: false, result: Ok(()) },
        ),
        s.mount ==> s.spec_step(Teardown::Drop, TeardownEvent::Begin) == (
            BackgroundSession { guard: s.guard, mount: false },
            TeardownAction::Umount,
        ),
        s.spec_step(Teardown::Drop, TeardownEvent::Unmounted(Err(e))) == (
            BackgroundSession { guard: false, mount: s.mount },
            TeardownAction::Return { joined: false, result: Err(e) },
        ),
        s.spec_step(Teardown::Drop, TeardownEvent::ConnectionEnded(false)) == (
            BackgroundSession { guard: false, mount: s.mount },
            TeardownAction::Return { joined: false, result: Ok(()) },
        ),
        s.guard ==> s.spec_step(Teardown::Drop, TeardownEvent::ConnectionEnded(true)) == (
            BackgroundSession { guard: false, mount: s.mount },
            TeardownAction::Join,
        ),
{
}

} // verus!
