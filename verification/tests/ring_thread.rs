//! The ring thread's loop, driven by hand.

use fuser::errno::ErrorNumbers;
use fuser::error::Error;
use fuser::uring::entry::{user_data, EntryState, WAKE};
use fuser::uring::ring::{Command, Ring};
use fuser::uring::thread::{
    is_ring_failure, push_or_submit, Action, Event, Phase, PushAction, PushEvent, RingThread,
};

const NUMBERS: ErrorNumbers = ErrorNumbers {
    eagain: libc::EAGAIN,
    etime: libc::ETIME,
    eproto: libc::EPROTO,
    eopnotsupp: libc::EOPNOTSUPP,
    econnaborted: libc::ECONNABORTED,
    enotconn: libc::ENOTCONN,
    ecanceled: libc::ECANCELED,
};

fn fake_ring(n: u16, mounted: bool) -> Ring {
    let qids: Vec<u16> = (0..n).collect();
    Ring::new(7, mounted, &qids, 1, 8192, NUMBERS).ok().unwrap()
}

fn set_in_kernel(ring: &mut Ring, i: usize, last: u64) {
    ring.entries[i].state = EntryState::InKernel { last };
    ring.live.in_kernel += 1;
}

fn fake_dispatched(ring: &mut Ring, i: usize, commit_id: u64) {
    ring.entries[i].state = EntryState::Dispatched { commit_id };
    ring.live.outstanding += 1;
}

fn is_dead(ring: &Ring, i: usize) -> bool {
    matches!(ring.entries[i].state, EntryState::Dead)
}

/// A thread in its serve loop
fn serving() -> RingThread {
    let mut t = RingThread::new();
    t.phase = Phase::Top;
    t
}

fn step(t: &mut RingThread, ring: &mut Ring, event: Event) -> Action {
    assert!(t.can_take(ring, &event), "{:?} in {:?}", event, t.phase);
    t.step(ring, event)
}

/// Steps until there is something to do
fn run(t: &mut RingThread, ring: &mut Ring, event: Event) -> Action {
    let mut action = step(t, ring, event);
    while action == Action::Continue {
        action = step(t, ring, Event::Ready);
    }
    action
}

/// Takes the thread from the top of a pass to its first completion
fn reap(t: &mut RingThread, ring: &mut Ring, cqes: &[(u64, i32, u32)]) -> Action {
    assert_eq!(run(t, ring, Event::Ready), Action::Wait { timed: t.wake_dead });
    complete(t, ring, cqes)
}

fn complete(t: &mut RingThread, ring: &mut Ring, cqes: &[(u64, i32, u32)]) -> Action {
    assert_eq!(step(t, ring, Event::Done(Ok(()))), Action::Reap);
    for (ud, res, flags) in cqes {
        t.record(*ud, *res, *flags);
    }
    assert_eq!(t.recorded(), cqes.len());
    run(t, ring, Event::Ready)
}

fn os(errno: i32) -> Event {
    Event::Done(Err(Error::Os(errno)))
}

const OK: Event = Event::Done(Ok(()));

#[test]
fn registers_every_entry_and_then_serves() {
    let mut ring = fake_ring(2, true);
    let mut t = RingThread::new();
    assert_eq!(step(&mut t, &mut ring, Event::Released(true)), Action::Enable);
    assert_eq!(ring.live.in_kernel, 0);
    assert_eq!(
        run(&mut t, &mut ring, OK),
        Action::Push(Command::Register { idx: 0 })
    );
    assert_eq!(ring.live.in_kernel, 2, "counted before the first push");
    assert_eq!(
        run(&mut t, &mut ring, OK),
        Action::Push(Command::Register { idx: 1 })
    );
    assert_eq!(run(&mut t, &mut ring, OK), Action::Push(Command::Wake));
    assert_eq!(run(&mut t, &mut ring, OK), Action::Submit);
    assert_eq!(run(&mut t, &mut ring, OK), Action::Registered(Ok(())));
    for e in &ring.entries {
        assert!(matches!(e.state, EntryState::InKernel { last: 0 }));
    }
    assert_eq!(
        run(&mut t, &mut ring, Event::Handler(true)),
        Action::Wait { timed: false }
    );
    let cqes = [(user_data(1, 1), 0, 0), (user_data(0, 0), 0, 0)];
    assert_eq!(complete(&mut t, &mut ring, &cqes), Action::Fetch(1));
    assert_eq!(run(&mut t, &mut ring, Event::Ready), Action::Fetch(0));
}

#[test]
fn dropped_go_registers_nothing() {
    let mut ring = fake_ring(2, true);
    let mut t = RingThread::new();
    assert_eq!(
        step(&mut t, &mut ring, Event::Released(false)),
        Action::Exit(Ok(()))
    );
    assert_eq!(ring.live.in_kernel, 0);
    assert!(is_dead(&ring, 0) && is_dead(&ring, 1));
    assert!(ring.is_releasable());
    assert!(!t.can_take(&ring, &Event::Ready), "the thread is gone");
}

#[test]
fn failed_enable_registers_nothing() {
    let mut ring = fake_ring(2, true);
    let mut t = RingThread::new();
    step(&mut t, &mut ring, Event::Released(true));
    assert_eq!(
        step(&mut t, &mut ring, os(libc::EBADFD)),
        Action::Registered(Err(Error::Os(libc::EBADFD)))
    );
    assert_eq!(step(&mut t, &mut ring, Event::Ready), Action::Exit(Ok(())));
    assert_eq!(ring.live.in_kernel, 0);
    assert!(is_dead(&ring, 0));
}

#[test]
fn failed_registration_keeps_the_buffers() {
    let mut ring = fake_ring(3, true);
    let mut t = RingThread::new();
    step(&mut t, &mut ring, Event::Released(true));
    run(&mut t, &mut ring, OK);
    run(&mut t, &mut ring, OK);
    assert_eq!(
        run(&mut t, &mut ring, Event::Done(Err(Error::QueueFull))),
        Action::Registered(Err(Error::QueueFull))
    );
    assert_eq!(
        Error::QueueFull.message().unwrap(),
        "submission queue still full after submit"
    );
    assert_eq!(run(&mut t, &mut ring, Event::Ready), Action::Exit(Ok(())));
    assert!(!ring.is_releasable(), "two commands may be in the kernel");
    assert!(is_dead(&ring, 2));
}

/// A registered thread whose session is gone
fn without_handler(mounted: bool, abandon: bool) -> (Action, Ring) {
    let mut ring = fake_ring(1, mounted);
    let mut t = RingThread::new();
    step(&mut t, &mut ring, Event::Released(true));
    for _ in 0..4 {
        run(&mut t, &mut ring, OK);
    }
    if abandon {
        ring.abandon();
    }
    let action = step(&mut t, &mut ring, Event::Handler(false));
    (action, ring)
}

#[test]
fn dropped_from_fd_session_abandons_the_ring() {
    let (action, ring) = without_handler(false, false);
    assert_eq!(action, Action::Exit(Ok(())));
    assert_eq!(ring.live.in_kernel, 1);
}

#[test]
fn failed_start_abandons_a_registered_ring() {
    assert_eq!(without_handler(true, true).0, Action::Exit(Ok(())));
    assert_eq!(without_handler(false, true).0, Action::Exit(Ok(())));
}

#[test]
fn dropped_mounted_session_drains() {
    assert_eq!(without_handler(true, false).0, Action::ServeEio);
}

#[test]
fn flush_pending_failures() {
    let mut ring = fake_ring(2, true);
    let queue = |ring: &mut Ring, idx: u32, commit_id: u64| {
        ring.entries[idx as usize].state = EntryState::Pending { commit_id };
        ring.live.pending.push(idx);
        ring.live.in_kernel += 1;
    };

    // The push fails per entry: retired, counted out, first error kept
    queue(&mut ring, 0, 81);
    let mut t = serving();
    assert_eq!(
        run(&mut t, &mut ring, Event::Ready),
        Action::Push(Command::Commit {
            idx: 0,
            commit_id: 81
        })
    );
    let end = run(&mut t, &mut ring, os(libc::EBUSY));
    assert!(is_dead(&ring, 0));
    assert_eq!(ring.live.in_kernel, 0);
    assert!(ring.live.pending.is_empty());
    // Nothing is left, so the ring ends with the error it recorded
    assert_eq!(end, Action::Exit(Err(Error::Os(libc::EBUSY))));
    assert!(ring.live.exited);

    // A ring-level errno ends the loop with the entry neither pushed nor retired, which is why
    // the buffers are then leaked
    let mut ring = fake_ring(2, true);
    queue(&mut ring, 1, 82);
    let mut t = serving();
    run(&mut t, &mut ring, Event::Ready);
    assert_eq!(
        run(&mut t, &mut ring, os(libc::EBADF)),
        Action::Exit(Err(Error::Os(libc::EBADF)))
    );
    assert_eq!(ring.live.in_kernel, 1);
    assert!(ring.live.pending.is_empty());
    assert_eq!(ring.last_command(1), Some(82));
    assert!(ring.live.exited);
    assert!(!ring.is_releasable());

    // A push that succeeds leaves the command to the next wait
    let mut ring = fake_ring(1, true);
    queue(&mut ring, 0, 83);
    let mut t = serving();
    run(&mut t, &mut ring, Event::Ready);
    assert_eq!(run(&mut t, &mut ring, OK), Action::Wait { timed: false });
    assert_eq!(ring.last_command(0), Some(83));
    assert_eq!(ring.live.in_kernel, 1);
}

#[test]
fn commits_are_pushed_in_order_and_late_ones_wait_for_the_next_pass() {
    let mut ring = fake_ring(3, true);
    for idx in [2u32, 0] {
        ring.entries[idx as usize].state = EntryState::Pending { commit_id: 10 + u64::from(idx) };
        ring.live.pending.push(idx);
        ring.live.in_kernel += 1;
    }
    let mut t = serving();
    assert_eq!(
        run(&mut t, &mut ring, Event::Ready),
        Action::Push(Command::Commit {
            idx: 2,
            commit_id: 12
        })
    );
    // Queued while the pass is under way
    ring.entries[1].state = EntryState::Committing;
    ring.live.outstanding = 1;
    assert!(ring.hand_off(1, 11));
    assert_eq!(
        run(&mut t, &mut ring, OK),
        Action::Push(Command::Commit {
            idx: 0,
            commit_id: 10
        })
    );
    assert_eq!(run(&mut t, &mut ring, OK), Action::Wait { timed: false });
    assert_eq!(
        complete(&mut t, &mut ring, &[]),
        Action::Push(Command::Commit {
            idx: 1,
            commit_id: 11
        })
    );
}

#[test]
fn a_queued_entry_that_is_not_pending_is_refused() {
    let mut ring = fake_ring(1, true);
    ring.live.pending.push(0);
    let mut t = serving();
    step(&mut t, &mut ring, Event::Ready);
    assert!(!ring.next_is_pending());
    assert!(!t.can_take(&ring, &Event::Ready));
    ring.live.flushing = vec![5];
    assert!(!t.can_take(&ring, &Event::Ready), "no such entry");
}

/// A completion that is for nobody is ignored whatever it says; one that is judged has a result
/// that can be negated
#[test]
fn stray_completions_are_ignored_whatever_their_result() {
    for state in [
        EntryState::Dead,
        EntryState::Committing,
        EntryState::Pending { commit_id: 3 },
        EntryState::Dispatched { commit_id: 3 },
    ] {
        let mut ring = fake_ring(2, true);
        set_in_kernel(&mut ring, 1, 0);
        ring.entries[0].state = state;
        let strays = [
            (user_data(0, 0), i32::MIN, 0),
            (user_data(0, 2), i32::MIN, 0),
            (user_data(9, 1), i32::MIN, 0),
            (user_data(0, 0), i32::MAX, 0),
        ];
        let mut t = serving();
        let mut action = reap(&mut t, &mut ring, &strays);
        for (ud, _, _) in strays {
            assert_eq!(action, Action::Ignored(ud));
            action = run(&mut t, &mut ring, Event::Ready);
        }
        assert_eq!(action, Action::Wait { timed: false });
        assert_eq!((ring.live.in_kernel, ring.live.fatal), (1, None));
    }
    for judged in [user_data(1, 1), WAKE] {
        let mut ring = fake_ring(2, true);
        set_in_kernel(&mut ring, 1, 0);
        let mut t = serving();
        t.phase = Phase::Reaping;
        t.record(judged, i32::MIN, 0);
        assert_eq!(step(&mut t, &mut ring, Event::Ready), Action::Continue);
        assert!(!t.can_take(&ring, &Event::Ready));
    }
}

#[test]
fn cqe_classification() {
    let mut ring = fake_ring(6, true);
    for (idx, last) in [(0, 0), (1, 5), (2, 0), (3, 9), (4, 0), (5, 0)] {
        set_in_kernel(&mut ring, idx, last);
    }
    let cqes = [
        (user_data(0, 0), -libc::EAGAIN, 0),
        (user_data(1, 1), -libc::EINTR, 0),
        (user_data(2, 2), -libc::ENOENT, 0),
        (user_data(3, 3), -libc::ECANCELED, 0),
        (user_data(4, 4), 7, 0),
        // Unknown entries: index out of range, and valid indexes under the wrong qid
        (user_data(0, 6), 0, 0),
        (user_data(u16::MAX, 0), 0, 0),
        (user_data(0, 5), 0, 0),
        (user_data(5, 5), -libc::ECONNABORTED, 0),
    ];
    let mut t = serving();
    let mut action = reap(&mut t, &mut ring, &cqes);
    let mut resubmitted = Vec::new();
    let mut ignored = 0;
    let mut failed = Vec::new();
    loop {
        action = match action {
            Action::YieldAndPush(command) => {
                resubmitted.push(command);
                run(&mut t, &mut ring, OK)
            }
            Action::Ignored(_) => {
                ignored += 1;
                run(&mut t, &mut ring, Event::Ready)
            }
            Action::Failed { idx, report } => {
                failed.push((idx, report.err));
                run(&mut t, &mut ring, Event::Ready)
            }
            Action::Wait { timed } => {
                assert!(!timed);
                break;
            }
            other => panic!("{other:?}"),
        };
    }
    assert_eq!(
        resubmitted,
        [
            Command::Register { idx: 0 },
            Command::Commit {
                idx: 1,
                commit_id: 5
            }
        ],
        "REGISTER for 0, COMMIT_AND_FETCH for 1"
    );
    assert_eq!(ignored, 3, "unknown CQEs dropped");
    assert_eq!(
        failed,
        [
            (2, Error::Os(libc::ENOENT)),
            (3, Error::Os(libc::ECANCELED)),
            (4, Error::UnexpectedResult(7))
        ]
    );
    assert!(ring.live.conn_dead);
    assert_eq!(ring.live.in_kernel, 2, "0 and 1 are still in the kernel");
    assert_eq!(ring.live.fatal, Some(Error::Os(libc::ENOENT)));
    // The resubmitted commands fail too, and the ring leaves
    let cqes = [
        (user_data(0, 0), -libc::EOPNOTSUPP, 0),
        (user_data(1, 1), -libc::EOPNOTSUPP, 0),
    ];
    assert!(matches!(
        complete(&mut t, &mut ring, &cqes),
        Action::Failed { idx: 0, .. }
    ));
    assert!(matches!(
        run(&mut t, &mut ring, Event::Ready),
        Action::Failed { idx: 1, .. }
    ));
    assert_eq!(
        run(&mut t, &mut ring, Event::Ready),
        Action::Exit(Err(Error::Os(libc::ENOENT)))
    );
    assert!(ring.live.exited);
    assert_eq!((ring.live.in_kernel, ring.live.outstanding), (0, 0));
    for i in 0..6 {
        assert!(is_dead(&ring, i));
    }
}

#[test]
fn cqe_for_an_entry_not_in_the_kernel_is_ignored() {
    let mut ring = fake_ring(2, true);
    set_in_kernel(&mut ring, 1, 0);
    // Entry 0 is Dispatched (held by the filesystem)
    fake_dispatched(&mut ring, 0, 200);
    let cqes = [
        (user_data(0, 0), 0, 0),
        (user_data(0, 0), -libc::ENOENT, 0),
        (user_data(1, 1), -libc::ENOTCONN, 0),
    ];
    let mut t = serving();
    assert_eq!(
        reap(&mut t, &mut ring, &cqes),
        Action::Ignored(user_data(0, 0))
    );
    assert_eq!(
        run(&mut t, &mut ring, Event::Ready),
        Action::Ignored(user_data(0, 0))
    );
    assert_eq!(run(&mut t, &mut ring, Event::Ready), Action::Exit(Ok(())));
    assert!(ring.live.exited && ring.live.conn_dead);
    assert_eq!((ring.live.in_kernel, ring.live.outstanding), (0, 1));
    assert!(
        ring.live.fatal.is_none(),
        "the stray ENOENT was not classified"
    );
    assert!(matches!(
        ring.entries[0].state,
        EntryState::Dispatched { commit_id: 200 }
    ));
}

#[test]
fn enotconn_is_a_clean_end() {
    let mut ring = fake_ring(2, true);
    set_in_kernel(&mut ring, 0, 0);
    set_in_kernel(&mut ring, 1, 3);
    let cqes = [
        (user_data(0, 0), -libc::ENOTCONN, 0),
        (user_data(1, 1), -libc::ENOTCONN, 0),
    ];
    let mut t = serving();
    assert_eq!(reap(&mut t, &mut ring, &cqes), Action::Exit(Ok(())));
    assert!(ring.live.exited && ring.live.conn_dead);
    assert!(ring.live.fatal.is_none());
    assert_eq!(ring.live.in_kernel, 0);
}

/// Leaving earlier would drop the held reply
#[test]
fn fatal_does_not_exit_while_a_request_is_outstanding() {
    let mut ring = fake_ring(1, true);
    fake_dispatched(&mut ring, 0, 61);
    ring.live.fatal = Some(Error::EntryCount);
    let mut t = serving();
    assert_eq!(
        run(&mut t, &mut ring, Event::Ready),
        Action::Wait { timed: false }
    );
    assert!(!ring.live.exited);

    ring.entries[0].state = EntryState::Committing;
    assert!(ring.hand_off(0, 61));
    assert_eq!(
        complete(&mut t, &mut ring, &[]),
        Action::Push(Command::Commit {
            idx: 0,
            commit_id: 61
        })
    );
    assert_eq!(run(&mut t, &mut ring, OK), Action::Wait { timed: false });
    assert!(matches!(
        complete(&mut t, &mut ring, &[(user_data(0, 0), -libc::EOPNOTSUPP, 0)]),
        Action::Failed { idx: 0, .. }
    ));
    assert_eq!(
        run(&mut t, &mut ring, Event::Ready),
        Action::Exit(Err(Error::EntryCount)),
        "the first error"
    );
    assert!(ring.live.exited);
    assert_eq!((ring.live.in_kernel, ring.live.outstanding), (0, 0));
    assert!(is_dead(&ring, 0));
}

/// With every entry held by userspace nothing in the kernel can ever complete
#[test]
fn shutdown_ends_a_ring_whose_entries_are_all_held() {
    let mut ring = fake_ring(2, true);
    fake_dispatched(&mut ring, 0, 61);
    fake_dispatched(&mut ring, 1, 62);
    let mut t = serving();
    assert_eq!(
        run(&mut t, &mut ring, Event::Ready),
        Action::Wait { timed: false }
    );
    ring.shutdown();
    // The eventfd wakes the thread
    assert_eq!(
        complete(&mut t, &mut ring, &[(WAKE, 1, 2)]),
        Action::DrainWake
    );
    assert_eq!(run(&mut t, &mut ring, Event::Ready), Action::Exit(Ok(())));
    assert!(ring.live.exited && ring.live.shutdown && !ring.live.conn_dead);
    assert_eq!((ring.live.in_kernel, ring.live.outstanding), (0, 2));
    for idx in 0..2 {
        assert!(!ring.hand_off(idx, 61 + idx as u64));
        assert!(is_dead(&ring, idx));
    }
    assert_eq!(ring.live.outstanding, 0);
    assert!(ring.live.pending.is_empty());
}

#[test]
fn cancelled_wake_poll_degrades_to_timed_waits() {
    let mut ring = fake_ring(1, true);
    set_in_kernel(&mut ring, 0, 0);
    let mut t = serving();
    // The poll is re-armed once
    assert_eq!(
        reap(&mut t, &mut ring, &[(WAKE, -libc::ECANCELED, 0)]),
        Action::Push(Command::Wake)
    );
    assert_eq!(
        run(&mut t, &mut ring, OK),
        Action::WakeFailed {
            err: Error::Os(libc::ECANCELED),
            rearmed: true
        }
    );
    assert_eq!(
        run(&mut t, &mut ring, Event::Ready),
        Action::Wait { timed: false }
    );
    assert!(t.wake_retried && !t.wake_dead);
    assert!(ring.live.fatal.is_none(), "one re-arm is not fatal");
    // The poll is now dead; the wait is timed
    assert_eq!(
        complete(&mut t, &mut ring, &[(WAKE, -libc::ECANCELED, 0)]),
        Action::WakeFailed {
            err: Error::Os(libc::ECANCELED),
            rearmed: false
        }
    );
    assert_eq!(
        run(&mut t, &mut ring, Event::Ready),
        Action::Wait { timed: true }
    );
    assert!(t.wake_dead);
    assert_eq!(ring.live.fatal, Some(Error::Os(libc::ECANCELED)));
    // A wait that times out is another pass
    assert_eq!(
        run(&mut t, &mut ring, os(libc::ETIME)),
        Action::Wait { timed: true }
    );
}

#[test]
fn failed_rearm_is_fatal_for_the_poll_or_for_the_ring() {
    // After a failed poll any failure gives it up with the error of the poll
    let mut ring = fake_ring(1, true);
    set_in_kernel(&mut ring, 0, 0);
    let mut t = serving();
    reap(&mut t, &mut ring, &[(WAKE, -libc::ENOMEM, 0)]);
    assert_eq!(
        run(&mut t, &mut ring, os(libc::EBADF)),
        Action::WakeFailed {
            err: Error::Os(libc::ENOMEM),
            rearmed: false
        }
    );
    assert_eq!(
        run(&mut t, &mut ring, Event::Ready),
        Action::Wait { timed: true }
    );
    assert_eq!(ring.live.fatal, Some(Error::Os(libc::ENOMEM)));

    // After the multishot poll ended, a failed re-arm degrades like a failed poll
    let mut ring = fake_ring(1, true);
    set_in_kernel(&mut ring, 0, 0);
    let mut t = serving();
    assert_eq!(
        reap(&mut t, &mut ring, &[(WAKE, 1, 0)]),
        Action::DrainWake
    );
    assert_eq!(
        run(&mut t, &mut ring, Event::Ready),
        Action::Push(Command::Wake)
    );
    assert_eq!(
        run(&mut t, &mut ring, os(libc::ENOMEM)),
        Action::WakeFailed {
            err: Error::Os(libc::ENOMEM),
            rearmed: false
        }
    );
    assert_eq!(
        run(&mut t, &mut ring, Event::Ready),
        Action::Wait { timed: true }
    );
    assert_eq!(ring.live.fatal, Some(Error::Os(libc::ENOMEM)));

    // A failure of the ring ends it
    let mut ring = fake_ring(1, true);
    set_in_kernel(&mut ring, 0, 0);
    let mut t = serving();
    reap(&mut t, &mut ring, &[(WAKE, 1, 0)]);
    run(&mut t, &mut ring, Event::Ready);
    assert_eq!(
        run(&mut t, &mut ring, os(libc::ENXIO)),
        Action::Exit(Err(Error::Os(libc::ENXIO)))
    );
    assert!(ring.live.exited);

    // While more completions of the poll follow there is nothing to re-arm
    let mut ring = fake_ring(1, true);
    set_in_kernel(&mut ring, 0, 0);
    let mut t = serving();
    reap(&mut t, &mut ring, &[(WAKE, 1, 2)]);
    assert_eq!(
        run(&mut t, &mut ring, Event::Ready),
        Action::Wait { timed: false }
    );
}

#[test]
fn push_or_submit_batches_when_the_queue_is_full() {
    let mut ring = fake_ring(20, true);
    let mut t = RingThread::new();
    let (mut queued, mut submits) = (0, 0);
    let mut action = run(&mut t, &mut ring, Event::Released(true));
    loop {
        action = match action {
            Action::Enable => run(&mut t, &mut ring, OK),
            Action::Push(_) => {
                let mut submitted = false;
                let mut next = PushAction::Push;
                let result = loop {
                    next = match next {
                        PushAction::Push => {
                            let fits = queued < 8;
                            queued += usize::from(fits);
                            push_or_submit(submitted, PushEvent::Pushed(fits))
                        }
                        PushAction::Submit => {
                            submitted = true;
                            submits += 1;
                            queued = 0;
                            push_or_submit(submitted, PushEvent::Submitted(Ok(())))
                        }
                        PushAction::Return(result) => break result,
                    };
                };
                run(&mut t, &mut ring, Event::Done(result))
            }
            Action::Submit => {
                submits += 1;
                queued = 0;
                run(&mut t, &mut ring, OK)
            }
            Action::Registered(result) => {
                result.unwrap();
                break;
            }
            other => panic!("{other:?}"),
        };
    }
    // 20 REGISTERs and the poll: the queue fills after 8 and 16, then the final submit
    assert_eq!(submits, 3);
    assert_eq!(queued, 0);
    assert_eq!(ring.live.in_kernel, 20);
    for i in 0..20 {
        assert!(matches!(
            ring.entries[i].state,
            EntryState::InKernel { last: 0 }
        ));
    }
}

#[test]
fn full_queue_is_submitted_once() {
    for submitted in [false, true] {
        assert_eq!(
            push_or_submit(submitted, PushEvent::Pushed(true)),
            PushAction::Return(Ok(()))
        );
        assert_eq!(
            push_or_submit(submitted, PushEvent::Submitted(Ok(()))),
            PushAction::Push
        );
        assert_eq!(
            push_or_submit(submitted, PushEvent::Submitted(Err(Error::Os(libc::EBUSY)))),
            PushAction::Return(Err(Error::Os(libc::EBUSY)))
        );
    }
    assert_eq!(
        push_or_submit(false, PushEvent::Pushed(false)),
        PushAction::Submit
    );
    assert_eq!(
        push_or_submit(true, PushEvent::Pushed(false)),
        PushAction::Return(Err(Error::QueueFull))
    );
}

#[test]
fn errors_of_the_wait() {
    let waiting = || {
        let mut ring = fake_ring(1, true);
        set_in_kernel(&mut ring, 0, 0);
        let mut t = serving();
        assert_eq!(
            run(&mut t, &mut ring, Event::Ready),
            Action::Wait { timed: false }
        );
        (t, ring)
    };
    let (mut t, mut ring) = waiting();
    assert_eq!(
        run(&mut t, &mut ring, os(libc::EINTR)),
        Action::Wait { timed: false }
    );
    for errno in [libc::EBUSY, libc::EAGAIN] {
        let (mut t, mut ring) = waiting();
        assert_eq!(step(&mut t, &mut ring, os(errno)), Action::YieldAndReap);
    }
    // A timeout is only expected of a timed wait
    for err in [
        Error::Os(libc::ETIME),
        Error::Os(libc::ENOMEM),
        Error::QueueFull,
    ] {
        let (mut t, mut ring) = waiting();
        assert_eq!(
            step(&mut t, &mut ring, Event::Done(Err(err))),
            Action::Exit(Err(err))
        );
        assert!(ring.live.exited);
        assert_eq!(ring.live.in_kernel, 1);
    }
}

#[test]
fn failed_resubmission() {
    let mut ring = fake_ring(2, true);
    set_in_kernel(&mut ring, 0, 4);
    set_in_kernel(&mut ring, 1, 0);
    let mut t = serving();
    reap(&mut t, &mut ring, &[(user_data(0, 0), -libc::EAGAIN, 0)]);
    assert_eq!(
        run(&mut t, &mut ring, Event::Done(Err(Error::QueueFull))),
        Action::Wait { timed: false }
    );
    assert!(is_dead(&ring, 0));
    assert_eq!(ring.live.in_kernel, 1);
    assert_eq!(ring.live.fatal, Some(Error::QueueFull));
    complete(&mut t, &mut ring, &[(user_data(1, 1), -libc::EINTR, 0)]);
    assert_eq!(
        run(&mut t, &mut ring, os(libc::EFAULT)),
        Action::Exit(Err(Error::Os(libc::EFAULT)))
    );
}

#[test]
fn ring_failures() {
    for errno in [libc::EBADF, libc::ENXIO, libc::EFAULT] {
        assert!(is_ring_failure(&Error::Os(errno)));
    }
    for err in [
        Error::Os(libc::EBUSY),
        Error::Os(0),
        Error::QueueFull,
        Error::UnexpectedResult(libc::EBADF),
    ] {
        assert!(!is_ring_failure(&err));
    }
}

#[test]
fn a_pass_of_many_completions() {
    let mut ring = fake_ring(200, true);
    let mut cqes = Vec::new();
    for i in 0..200u16 {
        set_in_kernel(&mut ring, i as usize, 0);
        cqes.push((user_data(i, u32::from(i)), 0, 0));
    }
    let mut t = serving();
    let mut action = reap(&mut t, &mut ring, &cqes);
    for i in 0..200 {
        assert_eq!(action, Action::Fetch(i));
        action = run(&mut t, &mut ring, Event::Ready);
    }
    assert_eq!(action, Action::Wait { timed: false });
}
