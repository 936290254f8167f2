//! The options of a session, its handshake, its threads and its end.

use std::cell::Cell;

use fuser::errno::{Errno, ErrorNumbers, EIO};
use fuser::error::{Error, ErrorKind};
use fuser::session::background::{
    BackgroundSession, Teardown, TeardownAction, TeardownEvent, UNMOUNT_WAIT_SECS,
};
use fuser::session::handshake::{
    capability_status, CapabilityStatus, Fallback, Handshake, HandshakeAction, HandshakeError,
    HandshakeEvent, Received, FUSE_INIT_EXT_BIT, FUSE_OVER_IO_URING,
};
use fuser::session::threads::{
    event_loop, join_all, join_one, reader_channels, reader_name, FetchAction, Read, ReadAction,
    ReaderChannel, RingHandler, RingSession, SessionAction, SessionEvent, ThreadOutcome, DEV,
};
use fuser::session::{
    validate_transport, Build, Config, Filesystem, FilesystemHolder, Session, SessionACL, Version,
    MAX_WRITE_SIZE, MIN_WRITE_SIZE,
};

const NUMBERS: ErrorNumbers = ErrorNumbers {
    eagain: libc::EAGAIN,
    etime: libc::ETIME,
    eproto: libc::EPROTO,
    eopnotsupp: libc::EOPNOTSUPP,
    econnaborted: libc::ECONNABORTED,
    enotconn: libc::ENOTCONN,
    ecanceled: libc::ECANCELED,
};

const FULL: Build = Build {
    linux: true,
    io_uring: true,
    numbers: NUMBERS,
};

const FUSE_ASYNC_READ: u64 = 1;

fn ring_config() -> Config {
    Config {
        io_uring: true,
        ..Config::default()
    }
}

#[test]
fn acl_and_mount_options() {
    assert_eq!(SessionACL::default(), SessionACL::Owner);
    assert_eq!(SessionACL::All.to_mount_option(), Some("allow_other"));
    assert_eq!(SessionACL::RootAndOwner.to_mount_option(), Some("allow_other"));
    assert_eq!(SessionACL::Owner.to_mount_option(), None);
    assert_eq!(Config::default().io_uring_queue_depth, 8);
    assert_eq!((MAX_WRITE_SIZE, MIN_WRITE_SIZE), (1 << 24, 4096));
}

#[test]
fn validate_transport_rejects_what_this_build_cannot_serve() {
    assert!(validate_transport(&Config::default(), &FULL).is_ok());
    assert!(validate_transport(&ring_config(), &FULL).is_ok());
    let err = validate_transport(
        &Config {
            io_uring_queue_depth: 0,
            ..ring_config()
        },
        &FULL,
    )
    .unwrap_err();
    assert_eq!(err.kind(), ErrorKind::InvalidInput);
    assert_eq!(
        err.message().unwrap(),
        "io_uring_queue_depth must be at least 1"
    );
    // The depth is only checked once it matters
    assert!(validate_transport(
        &Config {
            io_uring_queue_depth: 0,
            ..Config::default()
        },
        &FULL
    )
    .is_ok());
    // The thread count is checked for both transports alike
    let err = validate_transport(
        &Config {
            n_threads: Some(0),
            ..ring_config()
        },
        &FULL,
    )
    .unwrap_err();
    assert_eq!(err.message().unwrap(), "n_threads must be at least 1");
    // Both constructors refuse before touching anything
    let config = Config {
        io_uring_queue_depth: 0,
        ..ring_config()
    };
    let err = Session::new(&config, &FULL, 0)
        .err()
        .expect("a depth of 0 must be refused");
    assert_eq!(err.kind(), ErrorKind::InvalidInput);
    let err = Session::from_fd(SessionACL::Owner, config, &FULL, 0)
        .err()
        .expect("a depth of 0 must be refused");
    assert_eq!(err.kind(), ErrorKind::InvalidInput);
}

#[test]
fn zero_threads_are_refused_before_mounting() {
    let config = Config {
        n_threads: Some(0),
        ..Config::default()
    };
    let err = validate_transport(&config, &FULL).unwrap_err();
    assert_eq!(err.kind(), ErrorKind::InvalidInput);
    assert_eq!(err.message().unwrap(), "n_threads must be at least 1");
    let err = Session::new(&config, &FULL, 0)
        .err()
        .expect("n_threads == 0 must be refused");
    assert_eq!(err.kind(), ErrorKind::InvalidInput);
    let err = Session::from_fd(SessionACL::Owner, config, &FULL, 0)
        .err()
        .expect("n_threads == 0 must be refused");
    assert_eq!(err.kind(), ErrorKind::InvalidInput);
}

#[test]
fn io_uring_without_the_feature_is_refused() {
    let build = Build {
        linux: true,
        io_uring: false,
        numbers: NUMBERS,
    };
    let config = ring_config();
    assert!(validate_transport(&Config::default(), &build).is_ok());
    let err = validate_transport(&config, &build).unwrap_err();
    assert_eq!(err.kind(), ErrorKind::Other);
    assert_eq!(
        err.message().unwrap(),
        "io_uring transport requires the io-uring cargo feature"
    );
    let err = Session::new(&config, &build, 0)
        .err()
        .expect("io_uring without the feature must be refused");
    assert_eq!(err.kind(), ErrorKind::Other);
    let err = Session::from_fd(SessionACL::Owner, config, &build, 0)
        .err()
        .expect("io_uring without the feature must be refused");
    assert_eq!(
        err.message().unwrap(),
        "io_uring transport requires the io-uring cargo feature"
    );
    let elsewhere = Build {
        linux: false,
        io_uring: true,
        numbers: NUMBERS,
    };
    assert_eq!(
        validate_transport(&config, &elsewhere),
        Err(Error::NotLinux)
    );
}

#[test]
fn auto_unmount_needs_more_than_the_owner() {
    let mut config = Config {
        auto_unmount: true,
        ..Config::default()
    };
    assert_eq!(Session::new(&config, &FULL, 7), Err(Error::AutoUnmountOwner));
    // A session on a descriptor mounts nothing
    let session = Session::from_fd(SessionACL::Owner, config, &FULL, 7).unwrap();
    assert!(!session.mounted);
    config.acl = SessionACL::RootAndOwner;
    let session = Session::new(&config, &FULL, 7).unwrap();
    assert!(session.mounted && !session.ring);
    assert_eq!(session.allowed, SessionACL::RootAndOwner);
    assert_eq!(session.session_owner, 7);
    assert_eq!(session.proto_version, None);
    assert_eq!(session.negotiated, 0);
}

#[test]
fn ring_payload_is_what_the_kernel_requires() {
    assert_eq!(Session::ring_payload(0, 1, 4096), 8192);
    assert_eq!(Session::ring_payload(1 << 20, 1, 4096), 1 << 20);
    assert_eq!(Session::ring_payload(4096, 256, 4096), 1 << 20);
    assert_eq!(Session::ring_payload(8192, 2, 4096), 8192);
    let session = Session::new(&Config::default(), &FULL, 0).unwrap();
    assert_eq!(session.ring_threads(), 1);
    let config = Config {
        n_threads: Some(3),
        ..Config::default()
    };
    let session = Session::new(&config, &FULL, 0).unwrap();
    assert_eq!(session.ring_threads(), 3);
}

fn init(major: u32, minor: u32, capabilities: u64) -> HandshakeEvent {
    HandshakeEvent::Received(Received::Init {
        version: Version(major, minor),
        capabilities,
    })
}

/// Steps a handshake through `events` and returns its last action
fn shake(session: &mut Session, events: &[HandshakeEvent]) -> HandshakeAction {
    let mut handshake = Handshake::new();
    let mut action = HandshakeAction::Receive;
    for event in events {
        assert!(handshake.can_take(event), "{event:?}");
        action = handshake.step(session, *event);
    }
    action
}

const DONE: HandshakeAction = HandshakeAction::Return {
    reply: None,
    result: Ok(()),
};

#[test]
fn plain_handshake() {
    let mut session = Session::new(&Config::default(), &FULL, 0).unwrap();
    let offered = FUSE_ASYNC_READ | FUSE_OVER_IO_URING | 0b1000;
    let events = [
        init(7, 45, offered),
        HandshakeEvent::Initialized { requested: 0b1011 },
    ];
    assert_eq!(
        shake(&mut session, &events[..1]),
        HandshakeAction::InitFilesystem
    );
    assert_eq!(
        shake(&mut session, &events),
        HandshakeAction::Reply {
            requested: 0b1011,
            agreed: 0b1001,
            fallback: None
        }
    );
    assert_eq!(session.proto_version, Some(Version(7, 45)));
    assert_eq!(session.negotiated, 0b1001);
    assert_eq!(session.kernel_capabilities, offered);
    assert!(!session.ring);
    let sent = HandshakeEvent::Sent(Ok(()));
    assert_eq!(shake(&mut session, &[events[0], events[1], sent]), DONE);
}

#[test]
fn ring_handshake() {
    let mut session = Session::new(&ring_config(), &FULL, 0).unwrap();
    let start = [
        init(7, 42, FUSE_OVER_IO_URING),
        HandshakeEvent::Initialized { requested: 0 },
    ];
    assert_eq!(shake(&mut session, &start), HandshakeAction::CreateRings);
    let mut events = start.to_vec();
    events.push(HandshakeEvent::Rings(true));
    assert_eq!(
        shake(&mut session, &events),
        HandshakeAction::Reply {
            requested: FUSE_OVER_IO_URING,
            agreed: FUSE_OVER_IO_URING,
            fallback: None
        }
    );
    assert!(session.ring);
    let mut session = Session::new(&ring_config(), &FULL, 0).unwrap();
    events.push(HandshakeEvent::Sent(Ok(())));
    assert_eq!(shake(&mut session, &events), HandshakeAction::StartRings);
    events.push(HandshakeEvent::Started(Ok(())));
    let mut session = Session::new(&ring_config(), &FULL, 0).unwrap();
    assert_eq!(shake(&mut session, &events), DONE);
    events.pop();
    events.push(HandshakeEvent::Started(Err(Error::ExitedBeforeRegistering(0))));
    let mut session = Session::new(&ring_config(), &FULL, 0).unwrap();
    assert_eq!(
        shake(&mut session, &events),
        HandshakeAction::Return {
            reply: None,
            result: Err(HandshakeError::Session(Error::ExitedBeforeRegistering(0)))
        }
    );
}

#[test]
fn kernel_without_the_flag_falls_back_to_dev_fuse() {
    let mut session = Session::from_fd(SessionACL::Owner, ring_config(), &FULL, 0).unwrap();
    let events = [
        init(7, 45, FUSE_ASYNC_READ),
        HandshakeEvent::Initialized {
            requested: FUSE_ASYNC_READ,
        },
    ];
    let action = shake(&mut session, &events);
    assert_eq!(
        action,
        HandshakeAction::Reply {
            requested: FUSE_ASYNC_READ,
            agreed: FUSE_ASYNC_READ,
            fallback: Some(Fallback::NotAdvertised)
        }
    );
    assert!(!session.ring);
    assert_eq!(session.negotiated & FUSE_OVER_IO_URING, 0);
}

#[test]
fn rings_that_cannot_be_created_fall_back_to_dev_fuse() {
    let mut session = Session::new(&ring_config(), &FULL, 0).unwrap();
    let events = [
        init(7, 45, FUSE_OVER_IO_URING),
        HandshakeEvent::Initialized { requested: 0 },
        HandshakeEvent::Rings(false),
    ];
    assert_eq!(
        shake(&mut session, &events),
        HandshakeAction::Reply {
            requested: 0,
            agreed: 0,
            fallback: Some(Fallback::NoRings)
        }
    );
    assert!(!session.ring);
    assert_eq!(session.negotiated & FUSE_OVER_IO_URING, 0);
}

#[test]
fn unwritable_init_reply_fails_only_a_ring_session() {
    let lost = HandshakeEvent::Sent(Err(Error::Os(libc::EPIPE)));
    let mut session = Session::from_fd(SessionACL::Owner, ring_config(), &FULL, 0).unwrap();
    let events = [
        init(7, 45, FUSE_OVER_IO_URING),
        HandshakeEvent::Initialized { requested: 0 },
        HandshakeEvent::Rings(true),
        lost,
    ];
    match shake(&mut session, &events) {
        HandshakeAction::Return {
            reply: None,
            result: Err(HandshakeError::Session(err)),
        } => assert_eq!(err.raw_os_error(), Some(libc::EPIPE)),
        other => panic!("a ring session cannot go on: {other:?}"),
    }
    let mut session = Session::from_fd(SessionACL::Owner, Config::default(), &FULL, 0).unwrap();
    let events = [
        init(7, 45, FUSE_OVER_IO_URING),
        HandshakeEvent::Initialized { requested: 0 },
        lost,
    ];
    assert_eq!(
        shake(&mut session, &events),
        DONE,
        "a /dev/fuse session is failed by its event loop"
    );
}

#[test]
fn handshakes_that_end_early() {
    let ends = |event: HandshakeEvent, reply: Option<i32>, err: Error| {
        let mut session = Session::new(&Config::default(), &FULL, 0).unwrap();
        let before = session;
        assert_eq!(
            shake(&mut session, &[event]),
            HandshakeAction::Return {
                reply: reply.map(Errno),
                result: Err(HandshakeError::Session(err))
            }
        );
        assert_eq!(session, before);
    };
    for gone in [libc::ENODEV, libc::ECONNABORTED] {
        ends(
            HandshakeEvent::Received(Received::Failed(gone)),
            None,
            Error::Disconnected,
        );
    }
    ends(
        HandshakeEvent::Received(Received::Failed(libc::EPERM)),
        None,
        Error::Os(libc::EPERM),
    );
    ends(
        HandshakeEvent::Received(Received::Unparsable),
        None,
        Error::Unparsable,
    );
    ends(
        HandshakeEvent::Received(Received::BadOperation),
        None,
        Error::BadOperation,
    );
    ends(
        HandshakeEvent::Received(Received::NotInit),
        Some(EIO),
        Error::NotInit,
    );
    for (major, minor) in [(7, 5), (6, 99), (0, 0)] {
        ends(
            init(major, minor, 0),
            Some(libc::EPROTO),
            Error::UnsupportedAbi { major, minor },
        );
    }
}

#[test]
fn filesystem_decides_in_init() {
    let refused = |code: Option<i32>| {
        let mut session = Session::new(&Config::default(), &FULL, 0).unwrap();
        shake(
            &mut session,
            &[init(7, 6, 0), HandshakeEvent::Refused(code)],
        )
    };
    for (code, errno) in [
        (Some(libc::EACCES), libc::EACCES),
        (Some(0), libc::EIO),
        (None, libc::EIO),
    ] {
        assert_eq!(
            refused(code),
            HandshakeAction::Return {
                reply: Some(Errno(errno)),
                result: Err(HandshakeError::Filesystem)
            }
        );
    }
    let mut session = Session::new(&Config::default(), &FULL, 0).unwrap();
    assert_eq!(
        shake(
            &mut session,
            &[init(7, 6, 0), HandshakeEvent::NoFilesystem]
        ),
        HandshakeAction::Return {
            reply: None,
            result: Err(HandshakeError::Session(Error::NoFilesystem))
        }
    );
}

#[test]
fn newer_kernel_sends_a_second_init() {
    let mut session = Session::new(&Config::default(), &FULL, 0).unwrap();
    assert_eq!(
        shake(&mut session, &[init(8, 0, u64::MAX)]),
        HandshakeAction::ReplyVersion
    );
    assert_eq!(
        shake(&mut session, &[init(8, 0, u64::MAX), init(7, 45, 1)]),
        HandshakeAction::InitFilesystem
    );
    assert!(!Handshake::new().can_take(&HandshakeEvent::Sent(Ok(()))));
}

#[test]
fn capability_statuses() {
    assert_eq!(FUSE_OVER_IO_URING, 1 << 41);
    let (kernel, ours, known) = (0b0011, 0b0101, 0b1111);
    let status = |bit| capability_status(kernel, ours, known, bit);
    assert_eq!(status(0), Some(CapabilityStatus::Enabled));
    assert_eq!(status(1), Some(CapabilityStatus::NotRequested));
    assert_eq!(status(2), Some(CapabilityStatus::NotSupported));
    assert_eq!(status(3), Some(CapabilityStatus::Neither));
    assert_eq!(status(4), None);
    assert_eq!(
        capability_status(u64::MAX, u64::MAX, u64::MAX, FUSE_INIT_EXT_BIT),
        None
    );
    assert_eq!(
        capability_status(u64::MAX, 1 << 63, 0, 63),
        Some(CapabilityStatus::Enabled)
    );
}

#[test]
fn join_all_reports_the_first_error_after_joining_every_thread() {
    let first = Error::Os(libc::EIO);
    let second = Error::Os(libc::ENOENT);
    let outcomes = [
        ThreadOutcome::Ended(Err(first)),
        ThreadOutcome::Ended(Err(second)),
        ThreadOutcome::Ended(Ok(())),
        ThreadOutcome::Ended(Err(Error::InvalidRequest)),
    ];
    assert_eq!(join_all(&outcomes), Err(first));
    let mut reply = Ok(());
    for outcome in outcomes {
        let (next, go_on) = join_one(reply, outcome);
        assert!(go_on, "every thread must be joined");
        reply = next;
    }
    assert_eq!(reply, Err(first));
    assert_eq!(join_all(&[]), Ok(()));
    assert_eq!(join_all(&[ThreadOutcome::Ended(Ok(()))]), Ok(()));
}

#[test]
fn join_all_reports_a_panic() {
    let err = join_all(&[ThreadOutcome::Panicked]).unwrap_err();
    assert_eq!(err.message().unwrap(), "event loop thread panicked");
    let err = join_all(&[
        ThreadOutcome::Ended(Err(Error::InvalidRequest)),
        ThreadOutcome::Panicked,
        ThreadOutcome::Ended(Ok(())),
    ])
    .unwrap_err();
    assert_eq!(err, Error::ThreadPanicked);
    assert!(!join_one(Ok(()), ThreadOutcome::Panicked).1, "the join ends");
}

#[test]
fn readers_and_their_channels() {
    let channels = |n_threads, clone_fd, linux| {
        reader_channels(
            &Config {
                n_threads,
                clone_fd,
                ..Config::default()
            },
            linux,
        )
    };
    let (cloned, shared, own) = (
        ReaderChannel::Cloned,
        ReaderChannel::Shared,
        ReaderChannel::Own,
    );
    assert_eq!(channels(None, true, true), Ok(vec![own]));
    assert_eq!(channels(Some(3), true, true), Ok(vec![cloned, cloned, own]));
    assert_eq!(channels(Some(3), false, true), Ok(vec![shared, shared, own]));
    assert_eq!(channels(Some(1), true, false), Ok(vec![own]));
    assert_eq!(channels(Some(2), true, false), Err(Error::ThreadsNotLinux));
    assert_eq!(channels(Some(0), true, false), Err(Error::ThreadsNotLinux));
    assert_eq!(channels(Some(0), true, true), Err(Error::ThreadCount));
    assert_eq!(reader_name(0), "fuser-0");
    assert_eq!(reader_name(99), "fuser-99");
}

#[test]
fn reader_turns() {
    assert_eq!(event_loop(Read::Request, &NUMBERS), ReadAction::Dispatch);
    assert_eq!(event_loop(Read::Destroy, &NUMBERS), ReadAction::ReplyAndEnd);
    assert_eq!(
        event_loop(Read::Illegal, &NUMBERS),
        ReadAction::End(Err(Error::InvalidRequest))
    );
    for gone in [libc::ENODEV, libc::ECONNABORTED] {
        assert_eq!(event_loop(Read::Failed(gone), &NUMBERS), ReadAction::End(Ok(())));
    }
    assert_eq!(
        event_loop(Read::Failed(libc::EINVAL), &NUMBERS),
        ReadAction::End(Err(Error::Os(libc::EINVAL)))
    );
}

/// On macOS an aborted connection has another number, and 103 is an error like any other
#[test]
fn the_end_of_the_connection_has_the_number_of_the_system() {
    let macos = ErrorNumbers {
        eagain: 35,
        etime: 101,
        eproto: 100,
        eopnotsupp: 102,
        econnaborted: 53,
        enotconn: 57,
        ecanceled: 89,
    };
    assert_eq!(event_loop(Read::Failed(53), &macos), ReadAction::End(Ok(())));
    assert_eq!(
        event_loop(Read::Failed(103), &macos),
        ReadAction::End(Err(Error::Os(103)))
    );
    assert!(macos.is_disconnected(19) && !NUMBERS.is_disconnected(53));
    let build = Build {
        linux: false,
        io_uring: false,
        numbers: macos,
    };
    let mut session = Session::new(&Config::default(), &build, 0).ok().unwrap();
    assert_eq!(
        shake(&mut session, &[init(6, 0, 0)]),
        HandshakeAction::Return {
            reply: Some(Errno(100)),
            result: Err(HandshakeError::Session(Error::UnsupportedAbi { major: 6, minor: 0 })),
        }
    );
    assert_eq!(
        shake(&mut session, &[HandshakeEvent::Received(Received::Failed(53))]),
        HandshakeAction::Return {
            reply: None,
            result: Err(HandshakeError::Session(Error::Disconnected)),
        }
    );
}

/// After a panic the ring no longer enters the filesystem and answers EIO
#[test]
fn spawned_ring_session_answers_eio_after_a_panic() {
    let eio = FetchAction::CommitErrno(Errno(libc::EIO));
    let mut handler = RingHandler { panicked: false };
    assert_eq!(handler.handle(Read::Request), FetchAction::Dispatch);
    assert_eq!(handler.handle(Read::Destroy), FetchAction::Reply);
    assert_eq!(handler.handle(Read::Illegal), eio);
    assert!(!handler.handled(false));
    assert!(handler.handled(true), "the session is told");
    for read in [Read::Request, Read::Destroy, Read::Illegal] {
        assert_eq!(handler.handle(read), eio);
    }
    assert!(!handler.handled(false));
    assert!(handler.panicked);
    let mut session = RingSession::new(1);
    assert_eq!(
        session.step(SessionEvent::Panicked),
        SessionAction::Return(Err(Error::ThreadPanicked))
    );
}

fn drive(session: &mut RingSession, event: SessionEvent) -> SessionAction {
    assert!(session.can_take(&event), "{event:?}");
    let mut action = session.step(event);
    while action == SessionAction::Continue {
        action = session.step(SessionEvent::Ready);
    }
    action
}

const WELL: SessionEvent = SessionEvent::Joined(ThreadOutcome::Ended(Ok(())));

#[test]
fn ring_session_leaves_after_its_reader() {
    let mut session = RingSession::new(2);
    assert_eq!(
        drive(&mut session, SessionEvent::Exited(2)),
        SessionAction::Join(2)
    );
    assert_eq!(drive(&mut session, WELL), SessionAction::Await);
    assert_eq!(
        drive(&mut session, SessionEvent::Exited(DEV)),
        SessionAction::Join(DEV)
    );
    assert_eq!(drive(&mut session, WELL), SessionAction::Shutdown);
    assert_eq!(
        drive(&mut session, SessionEvent::Ready),
        SessionAction::Join(1)
    );
    assert_eq!(drive(&mut session, WELL), SessionAction::Return(Ok(())));
    assert!(!session.can_take(&SessionEvent::Ready));
}

#[test]
fn ring_session_ends_with_an_error() {
    let failed = SessionEvent::Joined(ThreadOutcome::Ended(Err(Error::QueueFull)));
    let mut session = RingSession::new(1);
    assert!(!session.can_take(&SessionEvent::Exited(2)));
    drive(&mut session, SessionEvent::Exited(1));
    assert_eq!(
        drive(&mut session, failed),
        SessionAction::Return(Err(Error::QueueFull))
    );
    // An error of a ring that is joined last is returned too, the first of them
    let mut session = RingSession::new(2);
    drive(&mut session, SessionEvent::Exited(DEV));
    drive(&mut session, WELL);
    assert_eq!(
        drive(&mut session, SessionEvent::Ready),
        SessionAction::Join(1)
    );
    assert_eq!(drive(&mut session, failed), SessionAction::Join(2));
    assert_eq!(
        drive(
            &mut session,
            SessionEvent::Joined(ThreadOutcome::Ended(Err(Error::EntryCount)))
        ),
        SessionAction::Return(Err(Error::QueueFull))
    );
    // A panic overrides
    let mut session = RingSession::new(2);
    drive(&mut session, SessionEvent::Exited(DEV));
    drive(&mut session, WELL);
    drive(&mut session, SessionEvent::Ready);
    assert_eq!(
        drive(&mut session, SessionEvent::Joined(ThreadOutcome::Panicked)),
        SessionAction::Return(Err(Error::ThreadPanicked))
    );
    let mut session = RingSession::new(2);
    assert_eq!(
        drive(&mut session, SessionEvent::Gone),
        SessionAction::Return(Err(Error::ThreadsUnnoticed))
    );
}

#[test]
fn run_result_keeps_the_error_of_the_threads() {
    let err = Err(Error::InvalidRequest);
    assert_eq!(Session::run_result(Ok(()), true), (true, Ok(())));
    assert_eq!(Session::run_result(err, true), (true, err));
    assert_eq!(Session::run_result(err, false), (false, err));
    assert_eq!(
        Session::run_result(Ok(()), false),
        (false, Err(Error::FilesystemShared))
    );
}

struct DestroyFs<'a> {
    destroyed: &'a Cell<u32>,
}

impl Filesystem for DestroyFs<'_> {
    fn destroy(&mut self) {
        self.destroyed.set(self.destroyed.get() + 1);
    }
}

#[test]
fn filesystem_is_destroyed_once() {
    let destroyed = Cell::new(0);
    let mut holder = FilesystemHolder {
        fs: Some(DestroyFs {
            destroyed: &destroyed,
        }),
    };
    holder.destroy();
    assert_eq!(destroyed.get(), 1);
    assert!(holder.fs.is_none());
    holder.destroy();
    assert_eq!(destroyed.get(), 1);
}

const ENDED: TeardownEvent = TeardownEvent::Joined(ThreadOutcome::Ended(Ok(())));

/// Dropping joins, so the session has ended when it returns
#[test]
fn drop_waits_for_destroy() {
    let session = Session::new(&Config::default(), &FULL, 0).unwrap();
    let (mut bg, session) = session.spawn();
    assert!(!session.mounted, "the handle has the mount");
    assert!(bg.guard && bg.mount);
    let how = Teardown::Drop;
    assert_eq!(bg.step(how, TeardownEvent::Begin), TeardownAction::Umount);
    assert_eq!(
        bg.step(how, TeardownEvent::Unmounted(Ok(()))),
        TeardownAction::AwaitEnd
    );
    assert_eq!(
        bg.step(how, TeardownEvent::ConnectionEnded(true)),
        TeardownAction::Join
    );
    assert_eq!(
        bg.step(how, ENDED),
        TeardownAction::Return {
            joined: true,
            result: Ok(())
        }
    );
    assert!(!bg.guard && !bg.mount);
    assert_eq!(UNMOUNT_WAIT_SECS, 5);
}

#[test]
fn drop_detaches_what_it_cannot_end() {
    let detached = |result| TeardownAction::Return {
        joined: false,
        result,
    };
    let how = Teardown::Drop;
    let mut bg = BackgroundSession::new(false);
    assert_eq!(bg.step(how, TeardownEvent::Begin), detached(Ok(())));
    let mut bg = BackgroundSession::new(true);
    bg.step(how, TeardownEvent::Begin);
    let busy = Err(Error::Os(libc::EBUSY));
    assert_eq!(bg.step(how, TeardownEvent::Unmounted(busy)), detached(busy));
    let mut bg = BackgroundSession::new(true);
    bg.step(how, TeardownEvent::Begin);
    bg.step(how, TeardownEvent::Unmounted(Ok(())));
    assert_eq!(
        bg.step(how, TeardownEvent::ConnectionEnded(false)),
        detached(Ok(()))
    );
}

#[test]
fn umount_and_join_or_join_alone() {
    let mut bg = BackgroundSession::new(true);
    assert_eq!(
        bg.umount_and_join(TeardownEvent::Begin),
        TeardownAction::Umount
    );
    assert_eq!(
        bg.umount_and_join(TeardownEvent::Unmounted(Ok(()))),
        TeardownAction::Join
    );
    let panicked = TeardownEvent::Joined(ThreadOutcome::Panicked);
    assert_eq!(
        bg.umount_and_join(panicked),
        TeardownAction::Return {
            joined: true,
            result: Err(Error::BackgroundPanicked)
        }
    );
    let mut bg = BackgroundSession::new(true);
    assert_eq!(bg.join(TeardownEvent::Begin), TeardownAction::Join);
    assert!(bg.mount, "joining does not unmount");
    assert_eq!(
        bg.join(TeardownEvent::Begin),
        TeardownAction::Return {
            joined: false,
            result: Ok(())
        }
    );
    let mut bg = BackgroundSession::new(false);
    assert_eq!(
        bg.umount_and_join(TeardownEvent::Begin),
        TeardownAction::Join
    );
}

#[test]
fn a_session_is_unmounted_once() {
    let mut session = Session::new(&Config::default(), &FULL, 0).unwrap();
    assert!(session.unmount());
    assert!(!session.unmount());
}
