//! Filesystem session
//!
//! A session runs a filesystem implementation while it is being mounted to a specific mount
//! point. A session begins by mounting the filesystem and ends by unmounting it. While the
//! filesystem is mounted, the session loop receives, dispatches and replies to kernel requests
//! for filesystem operations under its mount point.

pub mod background;
pub mod handshake;
pub mod threads;

use crate::errno::ErrorNumbers;
use crate::error::Error;
use crate::session::background::BackgroundSession;
use vstd::prelude::*;

verus! {

/// The max size of write requests from the kernel. The absolute minimum is 4k,
/// FUSE recommends at least 128k, max 16M. The FUSE default is 16M on macOS
/// and 128k on other systems.
pub const MAX_WRITE_SIZE: usize = 16 * 1024 * 1024;

/// The minimum write size the kernel will honor: a smaller negotiated `max_write` is clamped up
/// to 4096, so advertising less would not stop larger write requests from arriving.
pub const MIN_WRITE_SIZE: usize = 4096;

/// Smallest payload that the kernel's REGISTER accepts.
pub const MIN_RING_PAYLOAD: usize = 8192;

/// How requests should be filtered based on the calling UID.
#[derive(Debug, Clone, Copy, PartialEq, Eq, Structural)]
pub enum SessionACL {
    /// Allow requests from any user. Corresponds to the `allow_other` mount option.
    All,
    /// Allow requests from root. Corresponds to the `allow_root` mount option.
    RootAndOwner,
    /// Allow requests from the owning UID. This is FUSE's default mode of operation.
    Owner,
}

impl Default for SessionACL {
    fn default() -> (r: SessionACL)
        ensures
            r == SessionACL::Owner,
    {
        SessionACL::Owner
    }
}

impl SessionACL {
    /// Returns the mount option string for kernel/fusermount/libfuse paths.
    /// Both `All` and `RootAndOwner` map to `allow_other` - the kernel only
    /// understands `allow_other`, and the root-only restriction is enforced by the session.
    pub fn to_mount_option(self) -> (r: Option<&'static str>)
        ensures
            match self {
                SessionACL::Owner => r is None,
                _ => r matches Some(s) && s@ == "allow_other"@,
            },
    {
        match self {
            SessionACL::All => Some("allow_other"),
            SessionACL::RootAndOwner => Some("allow_other"),
            SessionACL::Owner => None,
        }
    }
}

/// What a filesystem does when its session ends.
pub trait Filesystem: Sized {
    /// Clean up. Called on filesystem exit.
    fn destroy(&mut self);
}

/// Holds a filesystem until `destroy` was called on it, which happens once.
#[derive(Debug)]
pub struct FilesystemHolder<FS: Filesystem> {
    pub fs: Option<FS>,
}

impl<FS: Filesystem> FilesystemHolder<FS> {
    /// Calls `destroy` on the filesystem unless that was done before. What that does is the
    /// filesystem's own; here it is called once, on the filesystem that was held.
    pub fn destroy(&mut self)
        ensures
            final(self).fs is None,
            old(self).fs matches Some(fs) ==> exists|held: &mut FS|
                *held == fs && #[trigger] call_ensures(FS::destroy, (held,), ()),
    {
        if let Some(mut fs) = self.fs.take() {
            fs.destroy();
        }
    }
}

/// The options of a session that its own logic reads.
#[derive(Debug, Clone, Copy, PartialEq, Eq)]
pub struct Config {
    /// Which users may use the mount.
    pub acl: SessionACL,
    /// Threads that read requests, or rings when io_uring serves; one when not given.
    pub n_threads: Option<usize>,
    /// Give each reader thread its own descriptor.
    pub clone_fd: bool,
    /// Serve over io_uring when the kernel can.
    pub io_uring: bool,
    /// Ring entries per kernel queue.
    pub io_uring_queue_depth: u32,
    /// Unmount when the process exits.
    pub auto_unmount: bool,
    /// Let the kernel check permissions.
    pub default_permissions: bool,
}

impl Default for Config {
    fn default() -> (r: Config)
        ensures
            r == (Config {
                acl: SessionACL::Owner,
                n_threads: None,
                clone_fd: false,
                io_uring: false,
                io_uring_queue_depth: 8,
                auto_unmount: false,
                default_permissions: false,
            }),
    {
        Config {
            acl: SessionACL::Owner,
            n_threads: None,
            clone_fd: false,
            io_uring: false,
            io_uring_queue_depth: 8,
            auto_unmount: false,
            default_permissions: false,
        }
    }
}

/// What the program was built with and for.
#[derive(Debug, Clone, Copy, PartialEq, Eq, Structural)]
pub struct Build {
    pub linux: bool,
    pub io_uring: bool,
    pub numbers: ErrorNumbers,
}

/// What is wrong with the thread count or the transport of `config` in `build`; the thread count
/// comes first, and the rest only matters for io_uring.
pub open spec fn transport_error(config: Config, build: Build) -> Option<Error> {
    if config.n_threads == Some(0usize) {
        Some(Error::NThreadsZero)
    } else if !config.io_uring {
        None
    } else if !build.linux {
        Some(Error::NotLinux)
    } else if !build.io_uring {
        Some(Error::NoIoUringFeature)
    } else if config.io_uring_queue_depth == 0 {
        Some(Error::QueueDepthZero)
    } else {
        None
    }
}

/// Rejects a thread count or transport choice this build or target cannot honor, before
/// anything is mounted.
pub fn validate_transport(config: &Config, build: &Build) -> (r: Result<(), Error>)
    ensures
        r == (match transport_error(*config, *build) {
            Some(e) => Err(e),
            None => Ok(()),
        }),
{
    if let Some(n_threads) = config.n_threads {
        if n_threads == 0 {
            return Err(Error::NThreadsZero);
        }
    }
    if !config.io_uring {
        return Ok(());
    }
    if !build.linux {
        return Err(Error::NotLinux);
    }
    if !build.io_uring {
        return Err(Error::NoIoUringFeature);
    }
    if config.io_uring_queue_depth == 0 {
        return Err(Error::QueueDepthZero);
    }
    Ok(())
}

/// A version of the kernel protocol.
#[derive(Debug, Clone, Copy, PartialEq, Eq, Structural)]
pub struct Version(pub u32, pub u32);

/// What a session knows of itself and of the kernel it talks to.
#[derive(Debug, Clone, Copy, PartialEq, Eq)]
pub struct Session {
    /// Whether to restrict access to owner, root + owner, or unrestricted.
    pub allowed: SessionACL,
    /// User that launched the process.
    pub session_owner: u32,
    /// FUSE protocol version, as reported by the kernel; known once the init message came.
    pub proto_version: Option<Version>,
    /// Capabilities agreed with the kernel during init. Some request layouts depend on
    /// them, so the event loops need them to parse correctly.
    pub negotiated: u64,
    /// Everything the kernel advertised during init, whether or not it was requested.
    /// Some operations are honoured by the kernel without being negotiated, so this,
    /// not `negotiated`, says whether the kernel can perform them.
    pub kernel_capabilities: u64,
    pub config: Config,
    /// The error numbers of the system.
    pub numbers: ErrorNumbers,
    /// Whether the session has a mount that ends with it.
    pub mounted: bool,
    /// Whether the kernel serves this session over io_uring.
    pub ring: bool,
}

impl Session {
    /// A session before its handshake.
    pub open spec fn fresh(
        allowed: SessionACL,
        config: Config,
        numbers: ErrorNumbers,
        session_owner: u32,
        mounted: bool,
    ) -> Session {
        Session {
            allowed,
            session_owner,
            proto_version: None,
            negotiated: 0,
            kernel_capabilities: 0,
            config,
            numbers,
            mounted,
            ring: false,
        }
    }

    /// The session of `new`, or why there is none.
    pub open spec fn opened(options: Config, build: Build, session_owner: u32) -> Result<
        Session,
        Error,
    > {
        match transport_error(options, build) {
            Some(e) => Err(e),
            None => if options.auto_unmount && options.acl == SessionACL::Owner {
                Err(Error::AutoUnmountOwner)
            } else {
                Ok(Session::fresh(options.acl, options, build.numbers, session_owner, true))
            },
        }
    }

    /// The session of `from_fd`, or why there is none.
    pub open spec fn adopted(
        acl: SessionACL,
        config: Config,
        build: Build,
        session_owner: u32,
    ) -> Result<Session, Error> {
        match transport_error(config, build) {
            Some(e) => Err(e),
            None => Ok(Session::fresh(acl, config, build.numbers, session_owner, false)),
        }
    }

    /// The payload of `ring_payload`.
    pub open spec fn payload_for(max_write: u32, max_pages: u16, page: usize) -> int {
        let pages = max_pages * page;
        let larger = if pages > max_write {
            pages
        } else {
            max_write as int
        };
        if larger < MIN_RING_PAYLOAD {
            MIN_RING_PAYLOAD as int
        } else {
            larger
        }
    }

    /// What `run` returns, and whether the filesystem is destroyed.
    pub open spec fn run_ends(reply: Result<(), Error>, exclusive: bool) -> (
        bool,
        Result<(), Error>,
    ) {
        (
            exclusive,
            if exclusive || reply is Err {
                reply
            } else {
                Err(Error::FilesystemShared)
            },
        )
    }

    /// A session that mounts its filesystem, refused before anything is mounted when its options
    /// are incorrect. `auto_unmount` needs `allow_root` or `allow_other`, because fusermount
    /// does.
    pub fn new(options: &Config, build: &Build, session_owner: u32) -> (r: Result<Session, Error>)
        ensures
            r == Session::opened(*options, *build, session_owner),
    {
        if let Err(err) = validate_transport(options, build) {
            return Err(err);
        }
        if options.auto_unmount && options.acl == SessionACL::Owner {
            return Err(Error::AutoUnmountOwner);
        }
        Ok(
            Session {
                allowed: options.acl,
                session_owner,
                proto_version: None,
                negotiated: 0,
                kernel_capabilities: 0,
                config: *options,
                numbers: build.numbers,
                mounted: true,
                ring: false,
            },
        )
    }

    /// A session on a descriptor that is mounted elsewhere, or nowhere yet.
    pub fn from_fd(acl: SessionACL, config: Config, build: &Build, session_owner: u32) -> (r: Result<
        Session,
        Error,
    >)
        ensures
            r == Session::adopted(acl, config, *build, session_owner),
    {
        if let Err(err) = validate_transport(&config, build) {
            return Err(err);
        }
        Ok(
            Session {
                allowed: acl,
                session_owner,
                proto_version: None,
                negotiated: 0,
                kernel_capabilities: 0,
                config,
                numbers: build.numbers,
                mounted: false,
                ring: false,
            },
        )
    }

    /// The payload that each ring entry needs for the negotiated buffer sizes, on a machine
    /// whose pages have `page` bytes: the kernel's REGISTER requires
    /// `max(8192, max_write, max_pages * PAGE_SIZE)`.
    pub fn ring_payload(max_write: u32, max_pages: u16, page: usize) -> (r: usize)
        requires
            max_pages * page <= usize::MAX,
        ensures
            r >= max_write,
            r >= max_pages * page,
            r >= MIN_RING_PAYLOAD,
            r == max_write || r == max_pages * page || r == MIN_RING_PAYLOAD,
            r == Session::payload_for(max_write, max_pages, page),
    {
        let mut cap: usize = max_write as usize;
        let pages: usize = max_pages as usize * page;
        if pages > cap {
            cap = pages;
        }
        if cap < MIN_RING_PAYLOAD {
            cap = MIN_RING_PAYLOAD;
        }
        cap
    }

    /// Rings to serve with: one per thread.
    pub fn ring_threads(&self) -> (r: usize)
        ensures
            r == (match self.config.n_threads {
                Some(n) => n,
                None => 1,
            }),
    {
        match self.config.n_threads {
            Some(n) => n,
            None => 1,
        }
    }

    /// The mount is taken out of the session to be removed; returns whether there was one.
    pub fn unmount(&mut self) -> (r: bool)
        ensures
            r == old(self).mounted,
            *final(self) == (Session { mounted: false, ..*old(self) }),
    {
        let mounted: bool = self.mounted;
        self.mounted = false;
        mounted
    }

    /// The session goes to a thread of its own. The handle that stays behind takes the mount, so
    /// that it can unmount.
    pub fn spawn(self) -> (r: (BackgroundSession, Session))
        ensures
            r.0 == (BackgroundSession { guard: true, mount: self.mounted }),
            r.1 == (Session { mounted: false, ..self }),
    {
        let mut session: Session = self;
        let mounted: bool = session.unmount();
        (BackgroundSession::new(mounted), session)
    }

    /// What `run` returns: the result of serving, unless threads that outlived the session still
    /// hold the filesystem. `exclusive` is whether none does; then the filesystem is destroyed.
    pub fn run_result(reply: Result<(), Error>, exclusive: bool) -> (r: (bool, Result<(), Error>))
        ensures
            r == Session::run_ends(reply, exclusive),
    {
        if !exclusive && reply.is_ok() {
            // Only a panic ends the join early
            return (exclusive, Err(Error::FilesystemShared));
        }
        (exclusive, reply)
    }
}

/// A transport is refused only for a session of no threads, or for io_uring that the system, the
/// build or a queue depth of zero rules out, and then for the first of these reasons.
pub proof fn transport_is_refused_with_reason(config: Config, build: Build)
    ensures
        ({
            let e = transport_error(config, build);
            let threads = config.n_threads != Some(0usize);
            let ring = threads && config.io_uring;
            &&& e == Some(Error::NThreadsZero) <==> !threads
            &&& e == Some(Error::NotLinux) <==> ring && !build.linux
            &&& e == Some(Error::NoIoUringFeature) <==> ring && build.linux && !build.io_uring
            &&& e == Some(Error::QueueDepthZero) <==> ring && build.linux && build.io_uring
                && config.io_uring_queue_depth == 0
            &&& e is None <==> threads && (config.io_uring ==> build.linux && build.io_uring
                && config.io_uring_queue_depth > 0)
        }),
{
}

/// A session that is not refused starts with the options it was given and with nothing known of the
/// kernel. One that mounts is refused, beyond the transport, only for unmounting by itself on
/// behalf of its owner alone.
pub proof fn session_starts_as_it_was_asked(
    acl: SessionACL,
    config: Config,
    build: Build,
    owner: u32,
)
    ensures
        ({
            let refused = transport_error(config, build);
            let lonely = config.auto_unmount && config.acl is Owner;
            &&& refused matches Some(e) ==> Session::opened(config, build, owner) == Err::<
                Session,
                Error,
            >(e) && Session::adopted(acl, config, build, owner) == Err::<Session, Error>(e)
            &&& refused is None && lonely ==> Session::opened(config, build, owner) == Err::<
                Session,
                Error,
            >(Error::AutoUnmountOwner)
            &&& refused is None && !lonely ==> (Session::opened(config, build, owner) matches Ok(s)
                && s.allowed == config.acl && s.mounted && unknown_yet(s, config, build, owner))
            &&& refused is None ==> (Session::adopted(acl, config, build, owner) matches Ok(s)
                && s.allowed == acl && !s.mounted && unknown_yet(s, config, build, owner))
        }),
{
}

/// Whether `s` has its options and knows nothing of the kernel.
pub open spec fn unknown_yet(s: Session, config: Config, build: Build, owner: u32) -> bool {
    &&& s.config == config
    &&& s.numbers == build.numbers
    &&& s.session_owner == owner
    &&& s.proto_version is None
    &&& s.negotiated == 0
    &&& s.kernel_capabilities == 0
    &&& !s.ring
}

/// The payload of a ring entry holds the largest write and all the pages of a request, is accepted
/// by the kernel, and is no larger than one of these needs.
pub proof fn payload_is_the_largest_need(max_write: u32, max_pages: u16, page: usize, bound: int)
    ensures
        ({
            let payload = Session::payload_for(max_write, max_pages, page);
            payload <= bound <==> max_write <= bound && max_pages * page <= bound && 8192 <= bound
        }),
{
}

/// The result of serving is what a run returns, unless it is success while a thread still holds the
/// filesystem; the filesystem is destroyed exactly where none does.
pub proof fn run_returns_the_result(reply: Result<(), Error>, exclusive: bool)
    ensures
        Session::run_ends(reply, exclusive).0 == exclusive,
        exclusive ==> Session::run_ends(reply, exclusive).1 == reply,
        reply is Err ==> Session::run_ends(reply, exclusive).1 == reply,
        !exclusive && reply is Ok ==> Session::run_ends(reply, exclusive).1 == Err::<(), Error>(
            Error::FilesystemShared,
        ),
{
}

} // verus!
