//! The entries of a ring, their states and the commit protocol.

use fuser::errno::{Errno, ErrorNumbers, EINVAL, EIO, ENOENT};
use fuser::error::{Error, ErrorKind};
use fuser::ll::fuse_abi::{fuse_opcode, fuse_out_header};
use fuser::uring::entry::{cmd_bytes, decode, errno_header, user_data, EntryState, WAKE};
use fuser::uring::mem::{COMMIT_ID_OFFSET, HEADER_SZ, OP_IN_OFFSET, PAYLOAD_SZ_OFFSET};
use fuser::uring::ring::{must_wake, Begun, Failure, Fetched, Ring, RingCommit, Sqe};

const NUMBERS: ErrorNumbers = ErrorNumbers {
    eagain: libc::EAGAIN,
    etime: libc::ETIME,
    eproto: libc::EPROTO,
    eopnotsupp: libc::EOPNOTSUPP,
    econnaborted: libc::ECONNABORTED,
    enotconn: libc::ENOTCONN,
    ecanceled: libc::ECANCELED,
};

/// A ring of `n` entries, one queue per entry, and its strides
struct Fake {
    ring: Ring,
    strides: Vec<Vec<u8>>,
}

fn fake_ring(n: u16, mounted: bool) -> Fake {
    let qids: Vec<u16> = (0..n).collect();
    let ring = Ring::new(7, mounted, &qids, 1, 8192, NUMBERS).unwrap();
    let strides = vec![vec![0; ring.mem.stride()]; n as usize];
    Fake { ring, strides }
}

fn state_name(ring: &Ring, i: usize) -> &'static str {
    match ring.entries[i].state {
        EntryState::InKernel { .. } => "InKernel",
        EntryState::Dispatching { .. } => "Dispatching",
        EntryState::Deferred { .. } => "Deferred",
        EntryState::Dispatched { .. } => "Dispatched",
        EntryState::Committing => "Committing",
        EntryState::Pending { .. } => "Pending",
        EntryState::Dead => "Dead",
    }
}

fn u16_at(b: &[u8], off: usize) -> u16 {
    u16::from_ne_bytes(b[off..off + 2].try_into().unwrap())
}

fn u32_at(b: &[u8], off: usize) -> u32 {
    u32::from_ne_bytes(b[off..off + 4].try_into().unwrap())
}

fn u64_at(b: &[u8], off: usize) -> u64 {
    u64::from_ne_bytes(b[off..off + 8].try_into().unwrap())
}

/// `fuse_in_header` bytes: len, opcode, unique, nodeid 1, uid/gid 1000, pid 4242
fn in_header(len: u32, opcode: u32, unique: u64) -> [u8; 40] {
    let mut h = [0u8; 40];
    h[0..4].copy_from_slice(&len.to_ne_bytes());
    h[4..8].copy_from_slice(&opcode.to_ne_bytes());
    h[8..16].copy_from_slice(&unique.to_ne_bytes());
    h[16..24].copy_from_slice(&1u64.to_ne_bytes());
    h[24..28].copy_from_slice(&1000u32.to_ne_bytes());
    h[28..32].copy_from_slice(&1000u32.to_ne_bytes());
    h[32..36].copy_from_slice(&4242u32.to_ne_bytes());
    h
}

impl Fake {
    /// Writes what the kernel writes on fetch
    fn fake_fetch(&mut self, i: usize, unique: u64, opcode: fuse_opcode, op_in: &[u8], payload: &[u8]) {
        let len = (40 + op_in.len() + payload.len()) as u32;
        let gap = self.ring.entries[i].gap;
        let s = &mut self.strides[i];
        s[..40].copy_from_slice(&in_header(len, opcode.value(), unique));
        s[OP_IN_OFFSET..OP_IN_OFFSET + op_in.len()].copy_from_slice(op_in);
        s[COMMIT_ID_OFFSET..COMMIT_ID_OFFSET + 8].copy_from_slice(&unique.to_ne_bytes());
        s[PAYLOAD_SZ_OFFSET..PAYLOAD_SZ_OFFSET + 4]
            .copy_from_slice(&(payload.len() as u32).to_ne_bytes());
        s[gap..gap + payload.len()].copy_from_slice(payload);
    }

    fn set_in_kernel(&mut self, i: usize, last: u64) {
        self.ring.entries[i].state = EntryState::InKernel { last };
        self.ring.live.in_kernel += 1;
    }

    fn fake_dispatched(&mut self, i: usize, commit_id: u64) -> RingCommit {
        self.ring.entries[i].state = EntryState::Dispatched { commit_id };
        self.ring.live.outstanding += 1;
        RingCommit {
            idx: i as u32,
            commit_id,
        }
    }

    fn commit(&mut self, commit: &RingCommit, iov: &[&[u8]]) -> Result<bool, Error> {
        commit.commit(&mut self.ring, &mut self.strides[commit.idx as usize], iov)
    }

    fn commit_errno(&mut self, commit: &RingCommit, errno: i32) -> Result<bool, Error> {
        commit.commit_errno(
            &mut self.ring,
            &mut self.strides[commit.idx as usize],
            Errno(errno),
        )
    }

    /// Stages and dispatches to `handler`, then finishes what dispatch left behind
    fn handle_fetch(&mut self, i: usize, mut handler: impl FnMut(&mut Fake, RingCommit, &[u8])) {
        let staged = match self.ring.fetch(i, &mut self.strides[i]) {
            Fetched::Dispatch(staged) => staged,
            _ => return,
        };
        let request = self.strides[i][staged.req..staged.req + staged.len].to_vec();
        let commit = RingCommit {
            idx: i as u32,
            commit_id: staged.commit_id,
        };
        handler(self, commit, &request);
        assert!(self.ring.is_dispatched(i), "right after dispatch");
        if let Some((bytes, id)) = self.ring.finish_dispatch(i, staged.commit_id) {
            self.ring.entries[i].write_stashed(&mut self.strides[i], id, &bytes);
            self.ring.hand_off(i, id);
        }
    }

    fn header_bytes(&self, i: usize) -> Vec<u8> {
        self.strides[i][..HEADER_SZ].to_vec()
    }

    fn counts(&self) -> (usize, usize) {
        (self.ring.live.in_kernel, self.ring.live.outstanding)
    }
}

fn ok_header(unique: u64) -> Vec<u8> {
    fuse_out_header {
        len: 16,
        error: 0,
        unique,
    }
    .as_bytes()
}

#[test]
fn user_data_round_trips_and_never_collides_with_wake() {
    for (qid, idx) in [(0, 0), (447, 3583), (u16::MAX, u32::MAX), (1, u32::MAX)] {
        let ud = user_data(qid, idx);
        assert_eq!(decode(ud), (qid, idx));
        assert_ne!(ud, WAKE);
    }
    assert_eq!(user_data(2, 5), 0x2_0000_0005);
    // Bits above the queue id are ignored
    assert_eq!(decode(0xabcd_0002_0000_0005), (2, 5));
}

#[test]
fn register_and_commit_sqe_encoding() {
    let f = fake_ring(3, true);
    let ring = &f.ring;
    let e = &ring.entries[2];
    assert_eq!((e.qid, e.idx), (2, 2));

    match ring.register_sqe(2) {
        Sqe::UringCmd {
            cmd_op,
            cmd,
            iov,
            len,
            user_data: ud,
        } => {
            assert_eq!(cmd_op, 1, "REGISTER");
            assert_eq!(iov, Some(2));
            assert_eq!(len, 2, "len is the iovec count");
            assert_eq!(ud, user_data(2, 2));
            // cmd: fuse_uring_cmd_req { flags 0, commit_id 0, qid 2 }, rest zero
            assert_eq!(u64_at(&cmd, 0), 0);
            assert_eq!(u64_at(&cmd, 8), 0);
            assert_eq!(u16_at(&cmd, 16), 2);
            assert!(cmd[18..].iter().all(|b| *b == 0));
        }
        other => panic!("{other:?}"),
    }
    let (header, payload) = e.iov();
    assert_eq!(header, (e.base, 288));
    assert_eq!(payload, (e.base + e.gap, ring.mem.payload_cap()));
    assert_eq!(e.base, 2 * ring.mem.stride());
    assert!(ring.mem.payload_cap() >= 8192);
    assert_eq!(e.gap, page_size::get());
    assert_eq!(ring.reserved_bytes(), ring.mem.len());

    match ring.commit_sqe(2, 0xDEAD_BEEF_0000_0042) {
        Sqe::UringCmd {
            cmd_op,
            cmd,
            iov,
            len,
            user_data: ud,
        } => {
            assert_eq!(cmd_op, 2, "COMMIT_AND_FETCH");
            assert_eq!(iov, None, "no addr");
            assert_eq!(len, 0, "no len");
            assert_eq!(ud, user_data(2, 2));
            assert_eq!(u64_at(&cmd, 0), 0);
            assert_eq!(u64_at(&cmd, 8), 0xDEAD_BEEF_0000_0042);
            assert_eq!(u16_at(&cmd, 16), 2);
            assert!(cmd[18..].iter().all(|b| *b == 0));
            assert_eq!(cmd, cmd_bytes(2, 0xDEAD_BEEF_0000_0042));
        }
        other => panic!("{other:?}"),
    }

    match ring.wake_sqe() {
        Sqe::PollMulti { events, user_data } => {
            assert_eq!(events, libc::POLLIN as u32, "poll32_events");
            assert_eq!(user_data, WAKE);
        }
        other => panic!("{other:?}"),
    }
}

#[test]
fn ring_new_rejects_empty_and_oversized_rings() {
    assert!(Ring::new(0, true, &[], 1, 8192, NUMBERS).is_err());
    assert!(Ring::new(0, true, &[0, 1], 0, 8192, NUMBERS).is_err());
    let all: Vec<u16> = (0..=u16::MAX).collect();
    assert!(Ring::new(0, true, &all, u32::MAX, 8192, NUMBERS).is_err());
    let err = Ring::new(0, true, &[], 1, 8192, NUMBERS).err().unwrap();
    assert_eq!(err, Error::EntryCount);
    assert_eq!(err.message().unwrap(), "io_uring: invalid entry count");
}

#[test]
fn entries_follow_their_queues() {
    let ring = Ring::layout(4096, 3, false, &[5, 9], 3, 10_000, NUMBERS).ok().unwrap();
    assert_eq!(ring.index, 3);
    assert!(!ring.mounted);
    let qids: Vec<u16> = ring.entries.iter().map(|e| e.qid).collect();
    assert_eq!(qids, [5, 5, 5, 9, 9, 9]);
    for (i, e) in ring.entries.iter().enumerate() {
        assert_eq!(e.idx as usize, i);
        assert_eq!(e.base, i * (4096 + 12288));
        assert_eq!((e.gap, e.payload_cap), (4096, 12288));
        assert_eq!(state_name(&ring, i), "Dead");
    }
    assert_eq!(ring.live.in_kernel, 0);
    assert!(!ring.live.exited);
    assert_eq!(ring.live.fatal, None);
    assert!(matches!(
        Ring::layout(100, 3, false, &[5], 3, 10_000, NUMBERS),
        Err(Error::PageTooSmall(100))
    ));
}

#[test]
fn fail_entry_keeps_the_first_error() {
    let mut f = fake_ring(4, true);
    for idx in 0..4 {
        f.set_in_kernel(idx, 0);
    }
    let report = f.ring.fail_entry(0, -libc::ENOENT, 0);
    assert_eq!(report.failure, Failure::UnknownCommit);
    assert!(!report.register_rejected);
    assert_eq!(state_name(&f.ring, 0), "Dead");
    assert_eq!(f.ring.live.in_kernel, 3);
    assert_eq!(
        f.ring.live.fatal.unwrap().raw_os_error(),
        Some(libc::ENOENT)
    );
    assert_eq!(
        f.ring.fail_entry(1, -libc::ECANCELED, 0).failure,
        Failure::Cancelled
    );
    let rejected = f.ring.fail_entry(2, -libc::EINVAL, 0);
    assert_eq!(rejected.failure, Failure::Failed);
    assert!(!rejected.register_rejected, "an error came before");
    f.ring.fail_entry(3, 12, 0);
    assert_eq!(f.ring.live.in_kernel, 0);
    assert_eq!(
        f.ring.live.fatal.unwrap().raw_os_error(),
        Some(libc::ENOENT)
    );
    for i in 0..4 {
        assert_eq!(state_name(&f.ring, i), "Dead");
    }
    let mut f = fake_ring(1, true);
    f.set_in_kernel(0, 0);
    f.ring.fail_entry(0, 12, 4);
    assert_eq!(
        f.ring.live.fatal.unwrap().message().unwrap(),
        "unexpected result 12"
    );
    // A CQE for an entry that is not counted does not underflow the count
    f.ring.retire(0, None);
    assert_eq!(f.ring.live.in_kernel, 0);
}

#[test]
fn rejected_registration_is_reported_once() {
    for errno in [libc::EINVAL, libc::EOPNOTSUPP, libc::EFAULT] {
        let mut f = fake_ring(2, true);
        f.set_in_kernel(0, 0);
        f.set_in_kernel(1, 0);
        let report = f.ring.fail_entry(0, -errno, 0);
        assert!(report.register_rejected);
        assert_eq!(report.err, Error::Os(errno));
        assert!(!f.ring.fail_entry(1, -errno, 0).register_rejected);
        // A failed commit is no rejected registration
        let mut f = fake_ring(1, true);
        f.set_in_kernel(0, 9);
        assert!(!f.ring.fail_entry(0, -errno, 9).register_rejected);
    }
}

#[test]
fn deferred_reply_is_written_after_dispatch() {
    let mut f = fake_ring(1, true);
    f.fake_fetch(0, 9, fuse_opcode::FUSE_LOOKUP, &[], b"hello\0");
    f.set_in_kernel(0, 0);
    f.handle_fetch(0, |f, commit, request| {
        assert_eq!(commit.commit_id, 9);
        assert_eq!(&request[40..], b"hello\0");
        // Dispatching { direct_ok: false } while the name is borrowed
        assert_eq!(state_name(&f.ring, 0), "Dispatching");
        assert_eq!(f.counts(), (0, 1));
        let header = fuse_out_header {
            len: 16 + 8,
            error: 0,
            unique: 9,
        }
        .as_bytes();
        let before = f.strides[0].clone();
        assert_eq!(f.commit(&commit, &[&header, b"abcd", b"efgh"]), Ok(false));
        assert_eq!(state_name(&f.ring, 0), "Deferred");
        // Nothing was written yet: the request bytes are intact
        assert_eq!(f.strides[0], before);
    });
    assert_eq!(state_name(&f.ring, 0), "Pending");
    assert_eq!(f.counts(), (1, 0));
    assert_eq!(f.ring.live.pending, [0]);
    let bytes = f.header_bytes(0);
    assert_eq!(u32_at(&bytes, 0), 24);
    assert_eq!(u32_at(&bytes, 4), 0);
    assert_eq!(u64_at(&bytes, 8), 9);
    assert_eq!(u32_at(&bytes, PAYLOAD_SZ_OFFSET), 8);
    let gap = f.ring.entries[0].gap;
    assert_eq!(&f.strides[0][gap..gap + 8], b"abcdefgh");
}

#[test]
fn direct_reply_and_reply_taken() {
    let mut f = fake_ring(2, true);
    let getattr_in = [0u8; 16];

    f.fake_fetch(0, 21, fuse_opcode::FUSE_GETATTR, &getattr_in, &[]);
    f.set_in_kernel(0, 0);
    f.set_in_kernel(1, 0);
    f.handle_fetch(0, |f, commit, _| {
        let header = ok_header(21);
        let queued = f.commit(&commit, &[&header]).unwrap();
        assert!(queued);
        assert!(
            !must_wake(queued, true),
            "the ring thread's own commit does not touch the eventfd"
        );
        assert_eq!(state_name(&f.ring, 0), "Pending");
        // A second reply for the same fetch is refused
        let err = f.commit(&commit, &[&header]).unwrap_err();
        assert_eq!(err.kind(), ErrorKind::Other);
        // A reply object for a fetch that is over changes nothing
        commit.reply_created(&mut f.ring);
        assert_eq!(state_name(&f.ring, 0), "Pending");
    });
    assert_eq!(state_name(&f.ring, 0), "Pending");
    assert_eq!(f.ring.live.pending, [0]);
    assert_eq!(f.counts(), (2, 0));

    f.fake_fetch(1, 22, fuse_opcode::FUSE_GETATTR, &getattr_in, &[]);
    let mut kept = None;
    f.handle_fetch(1, |f, commit, _| {
        // A stale handle for an earlier fetch of this entry must not flip reply_taken
        RingCommit {
            idx: commit.idx,
            commit_id: 2,
        }
        .reply_created(&mut f.ring);
        assert!(matches!(
            f.ring.entries[1].state,
            EntryState::Dispatching {
                reply_taken: false,
                ..
            }
        ));
        commit.reply_created(&mut f.ring);
        kept = Some(commit);
    });
    assert_eq!(state_name(&f.ring, 1), "Dispatched");
    assert_eq!(f.counts(), (1, 1));
    // The retained reply object commits later, directly
    let commit = kept.unwrap();
    let header = fuse_out_header {
        len: 16,
        error: -5,
        unique: 22,
    }
    .as_bytes();
    let queued = f.commit(&commit, &[&header]).unwrap();
    assert!(
        must_wake(queued, false),
        "a foreign commit wakes the ring thread"
    );
    assert_eq!(state_name(&f.ring, 1), "Pending");
    assert_eq!(f.ring.live.pending, [0, 1]);
    assert_eq!(f.counts(), (2, 0));

    // Without a reply object the ring thread answers with an empty OK
    f.fake_fetch(0, 23, fuse_opcode::FUSE_GETATTR, &getattr_in, &[]);
    f.ring.entries[0].state = EntryState::InKernel { last: 21 };
    f.ring.live.pending.clear();
    f.handle_fetch(0, |_, _, _| {});
    assert_eq!(state_name(&f.ring, 0), "Pending");
    let bytes = f.header_bytes(0);
    assert_eq!(
        (u32_at(&bytes, 0), u32_at(&bytes, 4), u64_at(&bytes, 8)),
        (16, 0, 23)
    );
}

#[test]
fn committing_entry_is_left_to_its_committer() {
    let mut f = fake_ring(1, true);
    f.fake_fetch(0, 71, fuse_opcode::FUSE_GETATTR, &[0; 16], &[]);
    f.set_in_kernel(0, 0);
    f.handle_fetch(0, |f, _, _| {
        f.ring.entries[0].state = EntryState::Committing;
    });
    assert_eq!(state_name(&f.ring, 0), "Committing");
    assert!(f.ring.live.pending.is_empty());
    assert_eq!(f.counts(), (0, 1));
    // The header still holds the request, not a reply
    assert_eq!(u64_at(&f.header_bytes(0), 8), 71);
}

#[test]
#[should_panic(expected = "right after dispatch")]
fn dead_entry_after_dispatch_is_a_bug() {
    let mut f = fake_ring(1, true);
    f.fake_fetch(0, 72, fuse_opcode::FUSE_GETATTR, &[0; 16], &[]);
    f.set_in_kernel(0, 0);
    f.handle_fetch(0, |f, _, _| {
        f.ring.entries[0].state = EntryState::Dead;
    });
}

#[test]
fn oversized_or_malformed_reply_becomes_einval() {
    let mut f = fake_ring(1, true);
    let commit = f.fake_dispatched(0, 31);
    let too_big = vec![1u8; f.ring.entries[0].payload_cap + 1];
    let header = fuse_out_header {
        len: 16 + too_big.len() as u32,
        error: 0,
        unique: 31,
    }
    .as_bytes();
    f.commit(&commit, &[&header, &too_big]).unwrap();
    let bytes = f.header_bytes(0);
    assert_eq!(u32_at(&bytes, 4) as i32, -libc::EINVAL);
    assert_eq!(u64_at(&bytes, 8), 31);
    assert_eq!(u32_at(&bytes, PAYLOAD_SZ_OFFSET), 0);
    assert_eq!(state_name(&f.ring, 0), "Pending");

    // iov[0] that is not a fuse_out_header, direct
    let commit = f.fake_dispatched(0, 32);
    f.commit(&commit, &[b"short"]).unwrap();
    let bytes = f.header_bytes(0);
    assert_eq!(u32_at(&bytes, 4) as i32, -libc::EINVAL);
    assert_eq!(u64_at(&bytes, 8), 32);

    // No header at all
    let commit = f.fake_dispatched(0, 34);
    f.commit(&commit, &[]).unwrap();
    let bytes = f.header_bytes(0);
    assert_eq!(u32_at(&bytes, 4) as i32, -libc::EINVAL);
    assert_eq!(u64_at(&bytes, 8), 34);

    // The same during dispatch of a payload-bearing request: stashed as EINVAL, not as
    // sixteen bytes of header plus payload
    f.ring.entries[0].state = EntryState::Dispatching {
        direct_ok: false,
        reply_taken: true,
        commit_id: 33,
    };
    let commit = RingCommit {
        idx: 0,
        commit_id: 33,
    };
    f.commit(&commit, &[b"short", &[0; 64]]).unwrap();
    match &f.ring.entries[0].state {
        EntryState::Deferred {
            bytes,
            commit_id: 33,
        } => {
            assert_eq!(bytes.len(), 16);
            assert_eq!(bytes, &errno_header(33, Errno(EINVAL)).as_bytes());
        }
        other => panic!("{}", other.describe()),
    }
}

#[test]
fn a_full_payload_fits() {
    let mut f = fake_ring(1, true);
    let commit = f.fake_dispatched(0, 41);
    let cap = f.ring.entries[0].payload_cap;
    let gap = f.ring.entries[0].gap;
    let full = vec![7u8; cap];
    f.commit(&commit, &[&ok_header(41), &full[..10], &full[10..]]).unwrap();
    assert_eq!(f.strides[0][gap..], full[..]);
    assert_eq!(u32_at(&f.strides[0], PAYLOAD_SZ_OFFSET) as usize, cap);
    assert_eq!(u32_at(&f.strides[0], 4), 0);
}

#[test]
fn malformed_fetch_is_answered_with_eio() {
    let mut f = fake_ring(1, true);
    // op_in_len 12 is not a multiple of 8
    f.fake_fetch(0, 61, fuse_opcode::FUSE_GETATTR, &[0; 12], &[]);
    f.set_in_kernel(0, 0);
    f.handle_fetch(0, |_, _, _| panic!("malformed requests are not dispatched"));
    assert_eq!(state_name(&f.ring, 0), "Pending");
    assert_eq!(f.ring.live.in_kernel, 1, "stays counted");
    assert_eq!(f.ring.live.pending, [0]);
    let bytes = f.header_bytes(0);
    assert_eq!(u32_at(&bytes, 4) as i32, -libc::EIO);
    assert_eq!(u64_at(&bytes, 8), 61);

    // commit_id 0 retires the entry instead
    f.fake_fetch(0, 0, fuse_opcode::FUSE_GETATTR, &[0; 16], &[]);
    f.ring.entries[0].state = EntryState::InKernel { last: 0 };
    f.handle_fetch(0, |_, _, _| panic!("nothing to dispatch"));
    assert_eq!(state_name(&f.ring, 0), "Dead");
    assert_eq!(f.ring.live.in_kernel, 0);
    assert_eq!(f.ring.live.fatal, Some(Error::ZeroCommitId));
    assert_eq!(
        f.ring.live.fatal.unwrap().message().unwrap(),
        "fetched entry with commit_id 0"
    );
}

#[test]
fn late_commit_after_exit_is_dropped() {
    let mut f = fake_ring(2, true);
    let retained = RingCommit {
        idx: 0,
        commit_id: 99,
    };
    f.ring.live.conn_dead = true;
    assert!(f.ring.check_exit());
    assert!(f.ring.live.exited);

    assert_eq!(f.commit(&retained, &[&ok_header(99)]), Ok(false));
    assert_eq!(f.commit_errno(&retained, EIO), Ok(false));
    assert!(f.ring.live.pending.is_empty());
    assert_eq!(f.counts(), (0, 0));
    assert_eq!(state_name(&f.ring, 0), "Dead");
    // The buffers were not touched
    assert!(f.header_bytes(0).iter().all(|b| *b == 0));
}

/// Whichever of the commit and the exit comes first, the outcome is the same
#[test]
fn commit_racing_the_exit_is_never_lost() {
    // The commit first: the ring stays until it is pushed and completed
    let mut f = fake_ring(1, true);
    let commit = f.fake_dispatched(0, 70);
    f.ring.live.conn_dead = true;
    assert_eq!(f.commit(&commit, &[&ok_header(70)]), Ok(true));
    assert!(!f.ring.check_exit());
    f.ring.take_pending();
    assert!(f.ring.next_is_pending());
    assert_eq!(f.ring.flush_next(), Some((0, 70)));
    assert_eq!(f.ring.flush_next(), None);
    assert!(!f.ring.check_exit());
    f.ring.connection_ended(0);
    assert!(f.ring.check_exit());
    assert_eq!(f.counts(), (0, 0));
    assert_eq!(state_name(&f.ring, 0), "Dead");

    // The exit between the two halves of the commit
    let mut f = fake_ring(1, true);
    let commit = f.fake_dispatched(0, 70);
    f.ring.live.conn_dead = true;
    assert_eq!(commit.begin(&mut f.ring, &[&ok_header(70)]), Ok(Begun::Direct));
    assert!(f.ring.check_exit());
    assert!(!f.ring.hand_off(0, 70));
    assert_eq!(f.counts(), (0, 0));
    assert!(f.ring.live.pending.is_empty());
    assert_eq!(state_name(&f.ring, 0), "Dead");

    // The exit first
    let mut f = fake_ring(1, true);
    let commit = f.fake_dispatched(0, 70);
    f.ring.live.conn_dead = true;
    assert!(f.ring.check_exit());
    assert_eq!(commit.begin(&mut f.ring, &[&ok_header(70)]), Ok(Begun::Dropped));
    assert_eq!(f.counts(), (0, 0));
    assert!(f.ring.live.pending.is_empty());
    assert_eq!(state_name(&f.ring, 0), "Dead");
}

#[test]
fn drop_unmaps_only_when_nothing_is_in_the_kernel() {
    let mut f = fake_ring(2, true);
    f.ring.live.in_kernel = 1;
    assert!(!f.ring.is_releasable(), "leaked while pending");
    f.ring.live.in_kernel = 0;
    assert!(f.ring.is_releasable());
}

#[test]
fn write_errno_and_hand_off_then_duplicate_commit_errno() {
    let mut f = fake_ring(1, true);
    f.ring.entries[0].state = EntryState::Committing;
    f.ring.live.outstanding = 1;
    let commit = RingCommit {
        idx: 0,
        commit_id: 91,
    };
    f.ring.entries[0].write_errno(&mut f.strides[0], 91, Errno(EIO));
    assert!(f.ring.hand_off(0, 91));
    let bytes = f.header_bytes(0);
    assert_eq!(u32_at(&bytes, 0), 16);
    assert_eq!(u32_at(&bytes, 4) as i32, -libc::EIO);
    assert_eq!(u64_at(&bytes, 8), 91);
    assert_eq!(u32_at(&bytes, PAYLOAD_SZ_OFFSET), 0);
    assert_eq!(state_name(&f.ring, 0), "Pending");
    assert_eq!(f.ring.live.pending, [0]);
    assert_eq!(f.counts(), (1, 0));

    // A second errno reply is refused without touching anything
    assert!(f.commit_errno(&commit, ENOENT).is_err());
    assert_eq!(f.header_bytes(0), bytes);
    assert_eq!(state_name(&f.ring, 0), "Pending");
    assert_eq!(f.ring.live.pending, [0]);
    assert_eq!(f.ring.live.in_kernel, 1);
    let err = f.commit(&commit, &[&ok_header(91)]).unwrap_err();
    assert_eq!(err.kind(), ErrorKind::Other);
    assert_eq!(err.message().unwrap(), "duplicate reply");
    // Once the connection is gone the same refusal is a late reply
    f.ring.live.conn_dead = true;
    let err = f.commit(&commit, &[&ok_header(91)]).unwrap_err();
    assert_eq!(err.kind(), ErrorKind::NotConnected);
    f.ring.live.conn_dead = false;

    // commit_errno from Dispatched writes the header
    f.ring.entries[0].state = EntryState::Dispatched { commit_id: 91 };
    f.ring.live.outstanding = 1;
    f.ring.live.pending.clear();
    assert_eq!(f.commit_errno(&commit, ENOENT), Ok(true));
    assert_eq!(u32_at(&f.header_bytes(0), 4) as i32, -libc::ENOENT);
    assert_eq!(state_name(&f.ring, 0), "Pending");
    assert_eq!(f.ring.live.in_kernel, 2);
    // A stale handle for an earlier fetch of the same entry is refused too
    f.ring.entries[0].state = EntryState::Dispatched { commit_id: 92 };
    assert!(f.commit_errno(&commit, ENOENT).is_err());
    assert_eq!(state_name(&f.ring, 0), "Dispatched");
}

/// A handle whose commit is refused: expected once the connection ended, else a bug
#[test]
fn late_reply_after_the_connection_ended_is_not_an_error() {
    let refused = |conn_dead: bool| {
        let mut f = fake_ring(1, true);
        f.ring.live.conn_dead = conn_dead;
        let commit = RingCommit {
            idx: 0,
            commit_id: 7,
        };
        f.commit(&commit, &[&ok_header(7)]).unwrap_err()
    };
    let late = refused(true);
    assert_eq!(late.kind(), ErrorKind::NotConnected);
    assert_eq!(late.message().unwrap(), "reply after the connection ended");
    let duplicate = refused(false);
    assert_eq!(duplicate.kind(), ErrorKind::Other);
    assert_eq!(duplicate.message().unwrap(), "duplicate reply");
}

#[test]
fn debug_output_names_states_without_payloads() {
    let f = fake_ring(1, true);
    let commit = RingCommit {
        idx: 0,
        commit_id: 5,
    };
    assert_eq!(
        commit.describe(&f.ring),
        "RingCommit { ring: 7, idx: 0, commit_id: 5 }"
    );
    let deferred = EntryState::Deferred {
        bytes: vec![0xAB; 4096],
        commit_id: 8,
    };
    assert_eq!(
        deferred.describe(),
        "Deferred { bytes: 4096 bytes, commit_id: 8 }"
    );
    assert_eq!(
        EntryState::InKernel { last: 0 }.describe(),
        "InKernel { last: 0 }"
    );
    assert_eq!(
        EntryState::Dispatching {
            direct_ok: true,
            reply_taken: false,
            commit_id: 12
        }
        .describe(),
        "Dispatching { direct_ok: true, reply_taken: false, commit_id: 12 }"
    );
    assert_eq!(
        EntryState::Dispatched { commit_id: 3 }.describe(),
        "Dispatched { commit_id: 3 }"
    );
    assert_eq!(
        EntryState::Pending { commit_id: 4 }.describe(),
        "Pending { commit_id: 4 }"
    );
    assert_eq!(EntryState::Committing.describe(), "Committing");
    assert_eq!(EntryState::Dead.describe(), "Dead");
}

#[test]
fn only_held_states_are_outstanding() {
    assert!(!EntryState::InKernel { last: 1 }.is_outstanding());
    assert!(!EntryState::Pending { commit_id: 1 }.is_outstanding());
    assert!(!EntryState::Dead.is_outstanding());
    assert!(EntryState::Committing.is_outstanding());
    assert!(EntryState::Dispatched { commit_id: 1 }.is_outstanding());
    assert!(EntryState::Deferred {
        bytes: vec![],
        commit_id: 1
    }
    .is_outstanding());
    assert!(EntryState::Dispatching {
        direct_ok: false,
        reply_taken: false,
        commit_id: 1
    }
    .is_outstanding());
}

/// A reply stashed during dispatch leaves the same bytes as one written at once
#[test]
fn stashed_and_direct_replies_are_the_same() {
    let header = ok_header(5);
    for payload in [vec![], vec![3u8; 100], vec![4u8; 9000]] {
        let mut direct = fake_ring(1, true);
        let mut stashed = fake_ring(1, true);
        direct.ring.entries[0].write_reply(&mut direct.strides[0], 5, &[&header, &payload]);
        let mut bytes = header.clone();
        bytes.extend_from_slice(&payload);
        stashed.ring.entries[0].write_stashed(&mut stashed.strides[0], 5, &bytes);
        assert_eq!(direct.strides, stashed.strides);
    }
    // A stash that is shorter than a header becomes EINVAL
    let mut f = fake_ring(1, true);
    f.ring.entries[0].write_stashed(&mut f.strides[0], 5, b"short");
    assert_eq!(u32_at(&f.strides[0], 4) as i32, -libc::EINVAL);
}

#[test]
fn errno_headers() {
    let header = errno_header(77, Errno(EINVAL));
    assert_eq!(header.len, 16);
    assert_eq!(header.error, -libc::EINVAL);
    assert_eq!(header.unique, 77);
}

/// What is left to write after dispatch is written and queued in one go
#[test]
fn dispatch_is_answered_once() {
    let mut f = fake_ring(1, true);
    f.fake_fetch(0, 9, fuse_opcode::FUSE_LOOKUP, &[], b"hello\0");
    f.set_in_kernel(0, 0);
    assert!(matches!(
        f.ring.fetch(0, &mut f.strides[0]),
        Fetched::Dispatch(_)
    ));
    let commit = RingCommit {
        idx: 0,
        commit_id: 9,
    };
    assert_eq!(f.commit(&commit, &[&ok_header(9), b"payload"]), Ok(false));
    assert!(f.ring.answer_dispatch(0, 9, &mut f.strides[0]));
    assert_eq!(state_name(&f.ring, 0), "Pending");
    let gap = f.ring.entries[0].gap;
    assert_eq!(&f.strides[0][gap..gap + 7], b"payload");
    // The second time nothing is left
    assert!(!f.ring.answer_dispatch(0, 9, &mut f.strides[0]));
    assert_eq!(f.ring.live.pending, [0]);
    assert!(RingCommit::is_reply(&[&ok_header(9), b""]));
    assert!(!RingCommit::is_reply(&[]));
    assert!(!RingCommit::is_reply(&[b"short"]));
}

/// Whatever the ring thread does after the first reply, a second one waits for another fetch
#[test]
fn request_is_answered_at_most_once() {
    let mut f = fake_ring(1, true);
    f.fake_fetch(0, 9, fuse_opcode::FUSE_GETATTR, &[0; 16], &[]);
    f.set_in_kernel(0, 0);
    let commit = RingCommit {
        idx: 0,
        commit_id: 9,
    };
    let refused = |f: &mut Fake| {
        assert_eq!(
            f.commit(&commit, &[&ok_header(9)]),
            Err(Error::DuplicateReply)
        );
    };
    refused(&mut f);
    f.handle_fetch(0, |f, commit, _| {
        assert_eq!(f.commit(&commit, &[&ok_header(9)]), Ok(true));
        refused(f);
    });
    refused(&mut f);
    f.ring.take_pending();
    refused(&mut f);
    assert_eq!(f.ring.flush_next(), Some((0, 9)));
    refused(&mut f);
    // Another request, and then the same one once more
    f.fake_fetch(0, 10, fuse_opcode::FUSE_GETATTR, &[0; 16], &[]);
    f.handle_fetch(0, |f, commit, _| {
        refused(f);
        commit.reply_created(&mut f.ring);
    });
    refused(&mut f);
    let other = RingCommit {
        idx: 0,
        commit_id: 10,
    };
    assert_eq!(f.commit(&other, &[&ok_header(10)]), Ok(true));
    f.ring.take_pending();
    assert_eq!(f.ring.flush_next(), Some((0, 10)));
    f.fake_fetch(0, 9, fuse_opcode::FUSE_GETATTR, &[0; 16], &[]);
    f.handle_fetch(0, |f, commit, _| {
        assert_eq!(f.commit(&commit, &[&ok_header(9)]), Ok(true));
    });
    assert_eq!(f.counts(), (1, 0));
}

#[test]
fn only_a_foreign_hand_off_wakes_the_ring_thread() {
    assert!(must_wake(true, false));
    assert!(!must_wake(true, true));
    assert!(!must_wake(false, false));
    assert!(!must_wake(false, true));
    let mut f = fake_ring(1, true);
    f.fake_dispatched(0, 8);
    f.ring.live.exited = true;
    let queued = f.ring.hand_off(0, 8);
    assert!(!must_wake(queued, false), "nobody is left to be woken");
}

/// A commit in halves, with the ring free for others in between, is the whole commit
#[test]
fn commit_in_halves_is_the_commit() {
    let cases: [Vec<Vec<u8>>; 4] = [
        vec![ok_header(5), b"payload".to_vec()],
        vec![ok_header(5), b"pay".to_vec(), b"load".to_vec()],
        vec![b"short".to_vec(), b"payload".to_vec()],
        vec![],
    ];
    for parts in cases {
        let iov: Vec<&[u8]> = parts.iter().map(|part| &part[..]).collect();
        let mut whole = fake_ring(1, true);
        let commit = whole.fake_dispatched(0, 5);
        assert_eq!(whole.commit(&commit, &iov), Ok(true));
        let mut halves = fake_ring(1, true);
        halves.fake_dispatched(0, 5);
        assert_eq!(
            commit.begin_reply(&mut halves.ring, &iov),
            Ok(Begun::Direct)
        );
        assert_eq!(state_name(&halves.ring, 0), "Committing");
        commit.write(&halves.ring.entries[0], &mut halves.strides[0], &iov);
        assert!(halves.ring.hand_off(0, 5));
        assert_eq!(whole.strides, halves.strides);
        assert_eq!(whole.counts(), halves.counts());
        assert_eq!(state_name(&halves.ring, 0), "Pending");
        let error = if RingCommit::is_reply(&iov) { 0 } else { -libc::EINVAL };
        assert_eq!(u32_at(&halves.strides[0], 4) as i32, error);
    }
    // What is kept for later is the refusal too
    let mut f = fake_ring(1, true);
    f.fake_fetch(0, 9, fuse_opcode::FUSE_LOOKUP, &[], b"hello\0");
    f.set_in_kernel(0, 0);
    f.handle_fetch(0, |f, commit, _| {
        assert_eq!(
            commit.begin_reply(&mut f.ring, &[b"short"]),
            Ok(Begun::Deferred)
        );
    });
    assert_eq!(u32_at(&f.strides[0], 4) as i32, -libc::EINVAL);
    assert_eq!(u64_at(&f.strides[0], 8), 9);
}

/// While one thread writes an entry's buffers nobody else is told to
#[test]
fn committing_entry_refuses_every_commit() {
    let mut f = fake_ring(1, true);
    let commit = f.fake_dispatched(0, 50);
    assert_eq!(
        commit.begin(&mut f.ring, &[&ok_header(50)]),
        Ok(Begun::Direct)
    );
    for commit_id in [50, 51] {
        let other = RingCommit { idx: 0, commit_id };
        assert_eq!(
            other.begin(&mut f.ring, &[&ok_header(commit_id)]),
            Err(Error::DuplicateReply)
        );
        other.reply_created(&mut f.ring);
    }
    assert!(f.ring.is_dispatched(0));
    assert!(f.ring.finish_dispatch(0, 50).is_none());
    assert_eq!(state_name(&f.ring, 0), "Committing");
    assert!(f.ring.hand_off(0, 50));
    assert_eq!(state_name(&f.ring, 0), "Pending");
    assert_eq!(f.counts(), (1, 0));
}
