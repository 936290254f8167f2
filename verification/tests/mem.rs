//! The buffer layout of a ring and the staging of requests.

use fuser::error::{Error, ErrorKind};
use fuser::ll::fuse_abi::{fuse_in_header, fuse_opcode, fuse_out_header, FUSE_WRITE_IN_SIZE};
use fuser::uring::mem::{
    header_area, RingMemory, COMMIT_ID_OFFSET, FLAGS_OFFSET, HEADER_SZ, OP_IN_OFFSET,
    PAYLOAD_SZ_OFFSET, STAGING_SZ,
};
use fuser::uring::staging::{stage_request, Staged, StagingError};

const GAP: usize = 4096;
const CAP: usize = 8192;
const IN_HEADER_SZ: usize = 40;

#[test]
fn layout_offsets() {
    assert_eq!(HEADER_SZ, 288);
    assert_eq!(STAGING_SZ, 168);
    assert_eq!(OP_IN_OFFSET, 128);
    assert_eq!(FLAGS_OFFSET, 256);
    assert_eq!(COMMIT_ID_OFFSET, 264);
    assert_eq!(PAYLOAD_SZ_OFFSET, 272);
    assert!(header_area() >= HEADER_SZ + STAGING_SZ);
    assert_eq!(header_area(), page_size::get());
}

/// The layout half; the mapping itself belongs to the caller
#[test]
fn strides_are_page_aligned_and_unmapped_on_drop() {
    let page = page_size::get();
    let mem = RingMemory::new(3, 1 << 30).unwrap();
    let base = mem.entry(0);
    let stride = mem.entry(1) - base;
    assert_eq!(base % page, 0);
    assert_eq!(stride, page + (1 << 30));
    assert_eq!(mem.stride(), stride);
    assert_eq!(mem.entries(), 3);
    assert_eq!(mem.gap(), page);
    assert_eq!(mem.payload_cap(), 1 << 30);
    assert_eq!(mem.len(), 3 * stride);
    for e in 0..3 {
        let entry = mem.entry(e);
        assert_eq!(entry, base + e * stride);
        assert_eq!(entry % page, 0);
        assert_eq!((entry + mem.gap() - IN_HEADER_SZ) % 8, 0);
    }
}

#[test]
fn payload_cap_rounds_up_to_a_page() {
    let page = page_size::get();
    let mem = RingMemory::new(1, 8192 + 1).unwrap();
    assert_eq!(mem.payload_cap(), 8193usize.next_multiple_of(page));
    assert_eq!(RingMemory::new(1, page).unwrap().payload_cap(), page);
}

#[test]
fn rejects_sizes_that_do_not_fit() {
    assert!(RingMemory::new(usize::MAX, 4096).is_err());
    assert!(RingMemory::new(0, 4096).is_err());
    assert!(RingMemory::new(1, usize::MAX - 4096).is_err());
    assert!(RingMemory::new(1, 1 << 32).is_err(), "payload_sz is a u32");
}

#[test]
fn layouts_for_any_page_size() {
    let mem = RingMemory::layout(16384, 5, 100_000).unwrap();
    assert_eq!(mem.gap(), 16384);
    assert_eq!(mem.payload_cap(), 114_688);
    assert_eq!(mem.stride(), 131_072);
    assert_eq!(mem.len(), 5 * 131_072);
    assert_eq!(mem.entry(4), 4 * 131_072);
    assert_eq!(RingMemory::layout(4096, 1, 0).unwrap().payload_cap(), 0);
    assert_eq!(RingMemory::layout(456, 1, 1).unwrap().payload_cap(), 456);
    let err = RingMemory::layout(455, 1, 8192).unwrap_err();
    assert_eq!(err, Error::PageTooSmall(455));
    assert_eq!(err.kind(), ErrorKind::Other);
    assert_eq!(
        err.message().unwrap(),
        "page size 455 cannot hold the 288 byte header and 168 byte staging area"
    );
    let err = RingMemory::layout(0, 1, 8192).unwrap_err();
    assert_eq!(err, Error::PageTooSmall(0));
    let err = RingMemory::layout(4096, 0, 8192).unwrap_err();
    assert_eq!(err, Error::BufferSize);
    assert_eq!(
        err.message().unwrap(),
        "ring buffer size overflows the address space"
    );
    assert!(RingMemory::layout(4096, 1, u32::MAX as usize).is_err());
    assert!(RingMemory::layout(4096, 1, u32::MAX as usize - 4095).is_ok());
}

/// A stride standing in for one entry
struct FakeEntry {
    bytes: Vec<u8>,
}

impl FakeEntry {
    fn new() -> Self {
        Self {
            bytes: vec![0; GAP + CAP],
        }
    }

    /// What the kernel writes on fetch: in_header, `in_args[0]`, payload, trailer
    fn fill(&mut self, unique: u64, opcode: fuse_opcode, op_in: &[u8], payload: &[u8]) {
        let len = (IN_HEADER_SZ + op_in.len() + payload.len()) as u32;
        let header = in_header(len, opcode.value(), unique);
        self.fill_raw(&header, op_in, payload, unique, payload.len() as u32);
    }

    fn fill_raw(
        &mut self,
        in_header: &[u8],
        op_in: &[u8],
        payload: &[u8],
        commit_id: u64,
        payload_sz: u32,
    ) {
        self.write(0, in_header);
        self.write(OP_IN_OFFSET, op_in);
        self.write(COMMIT_ID_OFFSET, &commit_id.to_ne_bytes());
        self.write(PAYLOAD_SZ_OFFSET, &payload_sz.to_ne_bytes());
        self.write(GAP, payload);
    }

    fn write(&mut self, offset: usize, bytes: &[u8]) {
        self.bytes[offset..offset + bytes.len()].copy_from_slice(bytes);
    }

    fn stage(&mut self) -> Result<Staged, StagingError> {
        stage_request(&mut self.bytes, GAP, CAP)
    }

    fn request(&self, s: &Staged) -> &[u8] {
        &self.bytes[s.req..s.req + s.len]
    }
}

/// `fuse_in_header` bytes: len, opcode, unique, nodeid 1, uid/gid 1000, pid 4242
fn in_header(len: u32, opcode: u32, unique: u64) -> [u8; IN_HEADER_SZ] {
    let mut h = [0u8; IN_HEADER_SZ];
    h[0..4].copy_from_slice(&len.to_ne_bytes());
    h[4..8].copy_from_slice(&opcode.to_ne_bytes());
    h[8..16].copy_from_slice(&unique.to_ne_bytes());
    h[16..24].copy_from_slice(&1u64.to_ne_bytes());
    h[24..28].copy_from_slice(&1000u32.to_ne_bytes());
    h[28..32].copy_from_slice(&1000u32.to_ne_bytes());
    h[32..36].copy_from_slice(&4242u32.to_ne_bytes());
    h
}

#[test]
fn lookup_without_op_in_parses() {
    let mut e = FakeEntry::new();
    e.fill(7, fuse_opcode::FUSE_LOOKUP, &[], b"hello\0");
    let s = e.stage().unwrap();
    assert_eq!(s.commit_id, 7);
    assert_eq!(s.payload_sz, 6);
    assert_eq!(s.len, IN_HEADER_SZ + 6);
    assert_eq!(s.req, GAP - IN_HEADER_SZ);
    let req = fuse_in_header::read_from_prefix(e.request(&s)).unwrap();
    assert_eq!(req.unique, 7);
    assert_eq!(req.len as usize, s.len);
    // The whole header was copied, not just the leading fields
    assert_eq!(req.nodeid, 1);
    assert_eq!(req.uid, 1000);
    assert_eq!(req.gid, 1000);
    assert_eq!(req.pid, 4242);
    assert_eq!(fuse_opcode::try_from(req.opcode), Ok(fuse_opcode::FUSE_LOOKUP));
    assert_eq!(&e.request(&s)[IN_HEADER_SZ..], b"hello\0");
}

/// The largest accepted prefix (op_in full), the largest payload, and the smallest request
#[test]
fn accepts_the_boundaries() {
    let mut e = FakeEntry::new();
    let getattr = fuse_opcode::FUSE_GETATTR.value();
    e.fill_raw(
        &in_header((IN_HEADER_SZ + 128) as u32, getattr, 11),
        &[7; 128],
        &[],
        11,
        0,
    );
    let s = e.stage().unwrap();
    assert_eq!(s.req, GAP - STAGING_SZ);
    assert_eq!(s.len, IN_HEADER_SZ + 128);
    assert_eq!(
        fuse_in_header::read_from_prefix(e.request(&s)).unwrap().unique,
        11
    );
    assert_eq!(e.bytes[GAP - 128..GAP], [7; 128]);

    let mut e = FakeEntry::new();
    let payload = vec![9u8; CAP];
    e.fill(12, fuse_opcode::FUSE_LOOKUP, &[], &payload);
    let s = e.stage().unwrap();
    assert_eq!(s.payload_sz as usize, CAP);
    assert_eq!(s.len, IN_HEADER_SZ + CAP);
    assert_eq!(
        fuse_in_header::read_from_prefix(e.request(&s)).unwrap().unique,
        12
    );

    let mut e = FakeEntry::new();
    e.fill(13, fuse_opcode::FUSE_STATFS, &[], &[]);
    let s = e.stage().unwrap();
    assert_eq!(s.req, GAP - IN_HEADER_SZ);
    assert_eq!(s.len, IN_HEADER_SZ);
    let req = fuse_in_header::read_from_prefix(e.request(&s)).unwrap();
    assert_eq!(fuse_opcode::try_from(req.opcode), Ok(fuse_opcode::FUSE_STATFS));
}

#[test]
fn write_with_op_in_and_payload_parses() {
    let data: Vec<u8> = (0..4096u32).map(|i| i as u8).collect();
    // fuse_write_in: fh, offset, size, write_flags, lock_owner, flags, padding
    let mut arg = Vec::new();
    arg.extend_from_slice(&3u64.to_ne_bytes());
    arg.extend_from_slice(&512i64.to_ne_bytes());
    arg.extend_from_slice(&(data.len() as u32).to_ne_bytes());
    arg.extend_from_slice(&0u32.to_ne_bytes());
    arg.extend_from_slice(&9u64.to_ne_bytes());
    arg.extend_from_slice(&[0; 8]);
    assert_eq!(arg.len(), FUSE_WRITE_IN_SIZE);
    let mut e = FakeEntry::new();
    e.fill(8, fuse_opcode::FUSE_WRITE, &arg, &data);
    let s = e.stage().unwrap();
    assert_eq!(s.len, IN_HEADER_SZ + FUSE_WRITE_IN_SIZE + data.len());
    let request = e.request(&s);
    let op_in = &request[IN_HEADER_SZ..IN_HEADER_SZ + FUSE_WRITE_IN_SIZE];
    assert_eq!(op_in, &arg[..]);
    assert_eq!(&request[IN_HEADER_SZ + FUSE_WRITE_IN_SIZE..], &data[..]);
    // The payload is used in place, not copied
    assert_eq!(s.req + IN_HEADER_SZ + FUSE_WRITE_IN_SIZE, GAP);
    assert_eq!(&e.bytes[GAP..GAP + data.len()], &data[..]);
}

#[test]
fn rejects_bad_lengths() {
    let mut e = FakeEntry::new();
    // op_in_len 12 is not a multiple of 8
    e.fill(1, fuse_opcode::FUSE_GETATTR, &[0; 12], &[]);
    assert!(matches!(
        e.stage(),
        Err(StagingError::Malformed { commit_id: 1, .. })
    ));

    // payload_sz larger than the buffer
    let mut e = FakeEntry::new();
    let write = fuse_opcode::FUSE_WRITE.value();
    let header = in_header((IN_HEADER_SZ + CAP + 8) as u32, write, 2);
    e.fill_raw(&header, &[], &[], 2, (CAP + 8) as u32);
    assert!(matches!(
        e.stage(),
        Err(StagingError::Malformed {
            commit_id: 2,
            payload_sz,
            ..
        }) if payload_sz as usize == CAP + 8
    ));

    // op_in_len over 128
    let mut e = FakeEntry::new();
    e.fill_raw(
        &in_header((IN_HEADER_SZ + 136) as u32, write, 3),
        &[],
        &[],
        3,
        0,
    );
    assert!(matches!(
        e.stage(),
        Err(StagingError::Malformed { commit_id: 3, .. })
    ));

    // in_len shorter than the header
    e.fill_raw(&in_header(8, write, 3), &[], &[], 3, 0);
    assert!(matches!(
        e.stage(),
        Err(StagingError::Malformed { in_len: 8, .. })
    ));

    // in_len shorter than header plus payload
    e.fill_raw(
        &in_header((IN_HEADER_SZ + 4) as u32, write, 3),
        &[],
        &[0; 8],
        3,
        8,
    );
    assert!(matches!(e.stage(), Err(StagingError::Malformed { .. })));

    // Lengths whose sum does not fit a u32
    e.fill_raw(&in_header(u32::MAX, write, 4), &[], &[], 4, u32::MAX);
    let before = e.bytes.clone();
    assert_eq!(
        e.stage(),
        Err(StagingError::Malformed {
            commit_id: 4,
            in_len: u32::MAX,
            payload_sz: u32::MAX,
        })
    );
    assert_eq!(e.bytes, before, "nothing was staged");
}

#[test]
fn rejects_commit_id_zero() {
    let mut e = FakeEntry::new();
    e.fill(0, fuse_opcode::FUSE_LOOKUP, &[], b"x\0");
    assert_eq!(e.stage().unwrap_err(), StagingError::ZeroCommitId);
}

#[test]
fn no_reference_survives_a_fetch() {
    let mut e = FakeEntry::new();
    e.fill(5, fuse_opcode::FUSE_LOOKUP, &[], b"a\0");
    let s = e.stage().unwrap();
    let unique = fuse_in_header::read_from_prefix(e.request(&s)).unwrap().unique;
    assert_eq!(unique, 5);
    let out = fuse_out_header {
        len: 16,
        error: 0,
        unique,
    };
    e.write(0, &out.as_bytes());
    e.write(PAYLOAD_SZ_OFFSET, &0u32.to_ne_bytes());
    e.fill(6, fuse_opcode::FUSE_LOOKUP, &[], b"bb\0");
    let s = e.stage().unwrap();
    assert_eq!(s.commit_id, 6);
    assert_eq!(
        fuse_in_header::read_from_prefix(e.request(&s)).unwrap().unique,
        6
    );
    assert_eq!(&e.bytes[GAP..GAP + 3], b"bb\0");
}

#[test]
fn staging_writes_only_the_staging_area() {
    let mut e = FakeEntry::new();
    for (i, b) in e.bytes.iter_mut().enumerate() {
        *b = (i * 7 + 3) as u8;
    }
    e.fill(77, fuse_opcode::FUSE_GETATTR, &[1; 16], &[2; 100]);
    let before = e.bytes.clone();
    let s = e.stage().unwrap();
    assert_eq!(e.bytes[..GAP - STAGING_SZ], before[..GAP - STAGING_SZ]);
    assert_eq!(e.bytes[GAP..], before[GAP..]);
    let mut want = before[..40].to_vec();
    want.extend_from_slice(&[1; 16]);
    want.extend_from_slice(&[2; 100]);
    assert_eq!(e.request(&s), &want[..]);
    assert_eq!(s.req % 8, 0);
}
