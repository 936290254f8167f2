//! The wire format.

use std::mem::size_of;

use fuser::errno;
use fuser::ll::fuse_abi::{
    fuse_access_in, fuse_batch_forget_in, fuse_bmap_in, fuse_copy_file_range_in, fuse_create_in,
    fuse_fallocate_in, fuse_file_lock, fuse_flush_in, fuse_forget_in, fuse_fsync_in,
    fuse_getattr_in, fuse_getxattr_in, fuse_getxattr_in_macos, fuse_in_header, fuse_init_in,
    fuse_interrupt_in, fuse_ioctl_in, fuse_link_in, fuse_lk_in, fuse_lseek_in, fuse_mkdir_in,
    fuse_mknod_in, fuse_notify_code, fuse_notify_retrieve_in, fuse_opcode, fuse_open_in,
    fuse_out_header, fuse_poll_in, fuse_read_in, fuse_release_in, fuse_rename2_in, fuse_rename_in,
    fuse_rename_in_macos, fuse_setattr_in, fuse_setattr_in_macos, fuse_setxattr_in,
    fuse_setxattr_in_ext, fuse_setxattr_in_macos, fuse_statx_in, fuse_syncfs_in, fuse_uring_cmd,
    fuse_uring_cmd_req, fuse_uring_ent_in_out, fuse_uring_req_header, fuse_write_in,
    kernel_minor_version, FATTR_ATIME_NOW, FATTR_MTIME_NOW, FUSE_ACCESS_IN_SIZE,
    FUSE_BATCH_FORGET_IN_SIZE, FUSE_BMAP_IN_SIZE, FUSE_COPY_FILE_RANGE_IN_SIZE, FUSE_CREATE_IN_SIZE,
    FUSE_FALLOCATE_IN_SIZE, FUSE_FILE_LOCK_SIZE, FUSE_FLUSH_IN_SIZE, FUSE_FORGET_IN_SIZE,
    FUSE_FSYNC_IN_SIZE, FUSE_GETATTR_IN_SIZE, FUSE_GETXATTR_IN_SIZE, FUSE_GETXATTR_IN_SIZE_MACOS,
    FUSE_INIT_IN_SIZE, FUSE_INTERRUPT_IN_SIZE, FUSE_IN_HEADER_SIZE, FUSE_IOCTL_IN_SIZE,
    FUSE_KERNEL_MINOR_VERSION, FUSE_LINK_IN_SIZE, FUSE_LK_IN_SIZE, FUSE_LSEEK_IN_SIZE,
    FUSE_MKDIR_IN_SIZE, FUSE_MKNOD_IN_SIZE, FUSE_NOTIFY_RETRIEVE_IN_SIZE, FUSE_OPEN_IN_SIZE,
    FUSE_POLL_IN_SIZE, FUSE_READ_IN_SIZE, FUSE_RELEASE_IN_SIZE, FUSE_RENAME2_IN_SIZE,
    FUSE_RENAME_IN_SIZE, FUSE_RENAME_IN_SIZE_MACOS, FUSE_SETATTR_IN_SIZE,
    FUSE_SETATTR_IN_SIZE_MACOS, FUSE_SETXATTR_IN_EXT_SIZE, FUSE_SETXATTR_IN_SIZE,
    FUSE_SETXATTR_IN_SIZE_MACOS, FUSE_STATX_IN_SIZE, FUSE_SYNCFS_IN_SIZE, FUSE_URING_CMD_REQ_SIZE,
    FUSE_URING_ENT_IN_OUT_SIZE, FUSE_URING_IN_OUT_HEADER_SZ, FUSE_URING_OP_IN_OUT_SZ,
    FUSE_URING_REQ_HEADER_SIZE, FUSE_WRITE_IN_SIZE,
};

#[test]
fn uring_ent_in_out_layout() {
    assert_eq!(FUSE_URING_ENT_IN_OUT_SIZE, 32);
    let zero = fuse_uring_ent_in_out {
        flags: 0,
        commit_id: 0,
        payload_sz: 0,
        padding: 0,
        reserved: 0,
    };
    let place = |x: fuse_uring_ent_in_out| -> (usize, usize) {
        let bytes = x.as_bytes();
        assert_eq!(bytes.len(), 32);
        let first = bytes.iter().position(|b| *b != 0).unwrap();
        let last = bytes.iter().rposition(|b| *b != 0).unwrap();
        (first, last + 1 - first)
    };
    assert_eq!(place(fuse_uring_ent_in_out { flags: u64::MAX, ..zero }), (0, 8));
    assert_eq!(place(fuse_uring_ent_in_out { commit_id: u64::MAX, ..zero }), (8, 8));
    assert_eq!(place(fuse_uring_ent_in_out { payload_sz: u32::MAX, ..zero }), (16, 4));
    assert_eq!(place(fuse_uring_ent_in_out { padding: u32::MAX, ..zero }), (20, 4));
    assert_eq!(place(fuse_uring_ent_in_out { reserved: u64::MAX, ..zero }), (24, 8));
}

#[test]
fn uring_req_header_layout() {
    assert_eq!(FUSE_URING_REQ_HEADER_SIZE, 288);
    let header = fuse_uring_req_header {
        in_out: [1; 128],
        op_in: [2; 128],
        ring_ent_in_out: fuse_uring_ent_in_out {
            flags: u64::MAX,
            commit_id: u64::MAX,
            payload_sz: u32::MAX,
            padding: u32::MAX,
            reserved: u64::MAX,
        },
    };
    let bytes = header.as_bytes();
    assert_eq!(bytes.len(), 288);
    assert_eq!(bytes[..128], [1; 128]);
    assert_eq!(bytes[128..256], [2; 128]);
    assert_eq!(bytes[256..], [0xff; 32]);
}

#[test]
fn uring_cmd_req_layout() {
    assert_eq!(FUSE_URING_CMD_REQ_SIZE, 24);
    let zero = fuse_uring_cmd_req {
        flags: 0,
        commit_id: 0,
        qid: 0,
        padding: [0; 6],
    };
    let place = |x: fuse_uring_cmd_req| -> (usize, usize) {
        let bytes = x.as_bytes();
        assert_eq!(bytes.len(), 24);
        let first = bytes.iter().position(|b| *b != 0).unwrap();
        let last = bytes.iter().rposition(|b| *b != 0).unwrap();
        (first, last + 1 - first)
    };
    assert_eq!(place(fuse_uring_cmd_req { flags: u64::MAX, ..zero }), (0, 8));
    assert_eq!(place(fuse_uring_cmd_req { commit_id: u64::MAX, ..zero }), (8, 8));
    assert_eq!(place(fuse_uring_cmd_req { qid: u16::MAX, ..zero }), (16, 2));
    assert_eq!(place(fuse_uring_cmd_req { padding: [0xff; 6], ..zero }), (18, 6));
}

#[test]
fn uring_cmd_req_round_trip() {
    let req = fuse_uring_cmd_req {
        flags: 0x0102_0304_0506_0708,
        commit_id: 0x1112_1314_1516_1718,
        qid: 0x2122,
        padding: [0x31, 0x32, 0x33, 0x34, 0x35, 0x36],
    };
    let bytes = req.as_bytes();
    assert_eq!(bytes.len(), 24);
    assert_eq!(&bytes[..8], &0x0102_0304_0506_0708u64.to_ne_bytes());
    assert_eq!(&bytes[8..16], &0x1112_1314_1516_1718u64.to_ne_bytes());
    assert_eq!(&bytes[16..18], &0x2122u16.to_ne_bytes());
    assert_eq!(&bytes[18..], &[0x31, 0x32, 0x33, 0x34, 0x35, 0x36]);
    let back = fuse_uring_cmd_req::read_from_bytes(&bytes).unwrap();
    assert_eq!(back.flags, req.flags);
    assert_eq!(back.commit_id, req.commit_id);
    assert_eq!(back.qid, req.qid);
    assert_eq!(back.padding, req.padding);
}

/// The direction the transport reads: a kernel-filled header buffer decodes into the
/// `fuse_in_header` at the front and the trailer at 256
#[test]
fn uring_req_header_read() {
    let mut bytes = [0u8; 288];
    bytes[..4].copy_from_slice(&0x0000_0028u32.to_ne_bytes());
    bytes[4..8].copy_from_slice(&fuse_opcode::FUSE_GETATTR.value().to_ne_bytes());
    bytes[8..16].copy_from_slice(&0x4142_4344_4546_4748u64.to_ne_bytes());
    bytes[256..264].copy_from_slice(&0x0102_0304_0506_0708u64.to_ne_bytes());
    bytes[264..272].copy_from_slice(&0x1112_1314_1516_1718u64.to_ne_bytes());
    bytes[272..276].copy_from_slice(&0x2122_2324u32.to_ne_bytes());
    bytes[276..280].copy_from_slice(&0x3132_3334u32.to_ne_bytes());
    bytes[280..288].copy_from_slice(&0x5152_5354_5556_5758u64.to_ne_bytes());
    let hdr = fuse_uring_req_header::read_from_bytes(&bytes).unwrap();
    let in_header = fuse_in_header::read_from_prefix(&hdr.in_out).unwrap();
    assert_eq!(in_header.len, 0x28);
    assert_eq!(in_header.opcode, fuse_opcode::FUSE_GETATTR.value());
    assert_eq!(in_header.unique, 0x4142_4344_4546_4748);
    assert_eq!(hdr.ring_ent_in_out.flags, 0x0102_0304_0506_0708);
    assert_eq!(hdr.ring_ent_in_out.commit_id, 0x1112_1314_1516_1718);
    assert_eq!(hdr.ring_ent_in_out.payload_sz, 0x2122_2324);
    assert_eq!(hdr.ring_ent_in_out.padding, 0x3132_3334);
    assert_eq!(hdr.ring_ent_in_out.reserved, 0x5152_5354_5556_5758);
    assert_eq!(hdr.as_bytes(), bytes);
}

#[test]
fn reads_only_what_has_the_right_size() {
    assert!(fuse_uring_cmd_req::read_from_bytes(&[0; 23]).is_none());
    assert!(fuse_uring_cmd_req::read_from_bytes(&[0; 25]).is_none());
    assert!(fuse_uring_req_header::read_from_bytes(&[0; 287]).is_none());
    assert!(fuse_uring_ent_in_out::read_from_bytes(&[]).is_none());
    assert!(fuse_in_header::read_from_bytes(&[0; 41]).is_none());
    assert!(fuse_in_header::read_from_prefix(&[0; 39]).is_none());
    assert!(fuse_in_header::read_from_prefix(&[0; 41]).is_some());
}

#[test]
fn uring_cmd_values() {
    assert_eq!(fuse_uring_cmd::FUSE_IO_URING_CMD_INVALID.value(), 0);
    assert_eq!(fuse_uring_cmd::FUSE_IO_URING_CMD_REGISTER.value(), 1);
    assert_eq!(fuse_uring_cmd::FUSE_IO_URING_CMD_COMMIT_AND_FETCH.value(), 2);
    assert_eq!(
        fuse_uring_cmd::try_from(0),
        Ok(fuse_uring_cmd::FUSE_IO_URING_CMD_INVALID)
    );
    assert_eq!(
        fuse_uring_cmd::try_from(1),
        Ok(fuse_uring_cmd::FUSE_IO_URING_CMD_REGISTER)
    );
    assert_eq!(
        fuse_uring_cmd::try_from(2),
        Ok(fuse_uring_cmd::FUSE_IO_URING_CMD_COMMIT_AND_FETCH)
    );
    assert_eq!(fuse_uring_cmd::try_from(3).unwrap_err().number, 3);
    assert!(fuse_uring_cmd::try_from(u32::MAX).is_err());
}

#[test]
fn opcodes_and_notify_codes_round_trip() {
    let mut known = 0;
    for number in 0..5000 {
        if let Ok(op) = fuse_opcode::try_from(number) {
            assert_eq!(op.value(), number);
            known += 1;
        }
    }
    assert_eq!(known, 49);
    assert_eq!(fuse_opcode::FUSE_LOOKUP.value(), 1);
    assert_eq!(fuse_opcode::FUSE_INIT.value(), 26);
    assert_eq!(fuse_opcode::CUSE_INIT.value(), 4096);
    assert_eq!(fuse_opcode::try_from(7).unwrap_err().number, 7);
    assert_eq!(fuse_opcode::try_from(61).unwrap_err().number, 61);
    let mut known_on_macos = 0;
    for number in 0..5000 {
        if let Ok(op) = fuse_opcode::try_from_macos(number) {
            assert_eq!(op.value(), number);
            known_on_macos += 1;
        }
    }
    assert_eq!(known_on_macos, 52);
    assert_eq!(fuse_opcode::try_from_macos(61), Ok(fuse_opcode::FUSE_SETVOLNAME));
    assert_eq!(fuse_opcode::try_from_macos(62), Ok(fuse_opcode::FUSE_GETXTIMES));
    assert_eq!(fuse_opcode::try_from_macos(63), Ok(fuse_opcode::FUSE_EXCHANGE));
    assert_eq!(fuse_opcode::try_from_macos(64).unwrap_err().number, 64);
    for number in 1..9 {
        assert_eq!(fuse_notify_code::try_from(number).unwrap().value(), number);
    }
    assert_eq!(fuse_notify_code::try_from(9).unwrap_err().number, 9);
}

/// The ring places each request's fixed in-struct at `op_in`, and the io_uring transport
/// relies on every such struct being a whole number of `u64`s
#[test]
fn fixed_in_structs_are_multiples_of_8() {
    assert!(size_of::<fuse_in_header>() <= FUSE_URING_IN_OUT_HEADER_SZ);
    assert!(size_of::<fuse_out_header>() <= FUSE_URING_IN_OUT_HEADER_SZ);
    let sizes = [
        ("fuse_in_header", size_of::<fuse_in_header>(), FUSE_IN_HEADER_SIZE),
        ("fuse_init_in", size_of::<fuse_init_in>(), FUSE_INIT_IN_SIZE),
        ("fuse_forget_in", size_of::<fuse_forget_in>(), FUSE_FORGET_IN_SIZE),
        ("fuse_batch_forget_in", size_of::<fuse_batch_forget_in>(), FUSE_BATCH_FORGET_IN_SIZE),
        ("fuse_getattr_in", size_of::<fuse_getattr_in>(), FUSE_GETATTR_IN_SIZE),
        ("fuse_mknod_in", size_of::<fuse_mknod_in>(), FUSE_MKNOD_IN_SIZE),
        ("fuse_mkdir_in", size_of::<fuse_mkdir_in>(), FUSE_MKDIR_IN_SIZE),
        ("fuse_rename_in", size_of::<fuse_rename_in>(), FUSE_RENAME_IN_SIZE),
        ("fuse_rename_in_macos", size_of::<fuse_rename_in_macos>(), FUSE_RENAME_IN_SIZE_MACOS),
        ("fuse_rename2_in", size_of::<fuse_rename2_in>(), FUSE_RENAME2_IN_SIZE),
        ("fuse_link_in", size_of::<fuse_link_in>(), FUSE_LINK_IN_SIZE),
        ("fuse_open_in", size_of::<fuse_open_in>(), FUSE_OPEN_IN_SIZE),
        ("fuse_create_in", size_of::<fuse_create_in>(), FUSE_CREATE_IN_SIZE),
        ("fuse_release_in", size_of::<fuse_release_in>(), FUSE_RELEASE_IN_SIZE),
        ("fuse_flush_in", size_of::<fuse_flush_in>(), FUSE_FLUSH_IN_SIZE),
        ("fuse_read_in", size_of::<fuse_read_in>(), FUSE_READ_IN_SIZE),
        ("fuse_write_in", size_of::<fuse_write_in>(), FUSE_WRITE_IN_SIZE),
        ("fuse_fsync_in", size_of::<fuse_fsync_in>(), FUSE_FSYNC_IN_SIZE),
        ("fuse_setxattr_in", size_of::<fuse_setxattr_in>(), FUSE_SETXATTR_IN_SIZE),
        ("fuse_setxattr_in_macos", size_of::<fuse_setxattr_in_macos>(), FUSE_SETXATTR_IN_SIZE_MACOS),
        ("fuse_setxattr_in_ext", size_of::<fuse_setxattr_in_ext>(), FUSE_SETXATTR_IN_EXT_SIZE),
        ("fuse_getxattr_in", size_of::<fuse_getxattr_in>(), FUSE_GETXATTR_IN_SIZE),
        ("fuse_getxattr_in_macos", size_of::<fuse_getxattr_in_macos>(), FUSE_GETXATTR_IN_SIZE_MACOS),
        ("fuse_lk_in", size_of::<fuse_lk_in>(), FUSE_LK_IN_SIZE),
        ("fuse_access_in", size_of::<fuse_access_in>(), FUSE_ACCESS_IN_SIZE),
        ("fuse_interrupt_in", size_of::<fuse_interrupt_in>(), FUSE_INTERRUPT_IN_SIZE),
        ("fuse_bmap_in", size_of::<fuse_bmap_in>(), FUSE_BMAP_IN_SIZE),
        ("fuse_ioctl_in", size_of::<fuse_ioctl_in>(), FUSE_IOCTL_IN_SIZE),
        ("fuse_poll_in", size_of::<fuse_poll_in>(), FUSE_POLL_IN_SIZE),
        ("fuse_fallocate_in", size_of::<fuse_fallocate_in>(), FUSE_FALLOCATE_IN_SIZE),
        ("fuse_lseek_in", size_of::<fuse_lseek_in>(), FUSE_LSEEK_IN_SIZE),
        ("fuse_copy_file_range_in", size_of::<fuse_copy_file_range_in>(), FUSE_COPY_FILE_RANGE_IN_SIZE),
        ("fuse_syncfs_in", size_of::<fuse_syncfs_in>(), FUSE_SYNCFS_IN_SIZE),
        ("fuse_statx_in", size_of::<fuse_statx_in>(), FUSE_STATX_IN_SIZE),
        ("fuse_notify_retrieve_in", size_of::<fuse_notify_retrieve_in>(), FUSE_NOTIFY_RETRIEVE_IN_SIZE),
        ("fuse_setattr_in", size_of::<fuse_setattr_in>(), FUSE_SETATTR_IN_SIZE),
        ("fuse_setattr_in_macos", size_of::<fuse_setattr_in_macos>(), FUSE_SETATTR_IN_SIZE_MACOS),
    ];
    for (name, size, stated) in sizes {
        assert_eq!(size % 8, 0, "{name} is {size} bytes");
        assert!(size <= FUSE_URING_OP_IN_OUT_SZ, "{name} is {size} bytes");
        assert_eq!(size, stated, "{name}");
    }
    assert_eq!(FUSE_SETATTR_IN_SIZE, 88);
    assert_eq!(FUSE_SETATTR_IN_SIZE_MACOS, 128);
    assert_eq!(size_of::<fuse_file_lock>(), FUSE_FILE_LOCK_SIZE);
}

#[test]
fn the_minor_version_is_the_one_of_the_system() {
    assert_eq!(kernel_minor_version(false), 44);
    assert_eq!(kernel_minor_version(true), 19);
    assert_eq!(FUSE_KERNEL_MINOR_VERSION, 44);
}

#[test]
fn setattr_now_flags() {
    let mut arg = fuse_setattr_in {
        valid: 0,
        padding: 0,
        fh: 0,
        size: 0,
        lock_owner: 0,
        atime: 0,
        mtime: 0,
        ctime: 0,
        atimensec: 0,
        mtimensec: 0,
        ctimensec: 0,
        mode: 0,
        unused4: 0,
        uid: 0,
        gid: 0,
        unused5: 0,
    };
    assert!(!arg.atime_now() && !arg.mtime_now());
    arg.valid = FATTR_ATIME_NOW | 1;
    assert!(arg.atime_now() && !arg.mtime_now());
    arg.valid = FATTR_MTIME_NOW;
    assert!(!arg.atime_now() && arg.mtime_now());
    arg.valid = u32::MAX;
    assert!(arg.atime_now() && arg.mtime_now());
}

#[test]
fn out_header_bytes() {
    let header = fuse_out_header {
        len: 16,
        error: -5,
        unique: 9,
    };
    let bytes = header.as_bytes();
    assert_eq!(bytes[..4], 16u32.to_ne_bytes());
    assert_eq!(bytes[4..8], (-5i32).to_ne_bytes());
    assert_eq!(bytes[8..], 9u64.to_ne_bytes());
    let least = fuse_out_header {
        len: 16,
        error: i32::MIN,
        unique: 0,
    };
    assert_eq!(least.as_bytes()[4..8], i32::MIN.to_ne_bytes());
}

#[test]
fn integers_are_in_native_order() {
    assert_eq!(fuser::bytes::is_little_endian(), 1u16.to_ne_bytes() == [1, 0]);
    for x in [0u64, 1, 0x0102, 0x0102_0304_0506_0708, u64::MAX] {
        assert_eq!(fuser::bytes::encode(x, 8), x.to_ne_bytes());
        assert_eq!(fuser::bytes::encode(x, 4), (x as u32).to_ne_bytes());
        assert_eq!(fuser::bytes::encode(x, 2), (x as u16).to_ne_bytes());
        assert_eq!(fuser::bytes::decode(&x.to_ne_bytes(), 0, 8), x);
    }
    let buf = [9, 1, 2, 3, 4, 9];
    assert_eq!(
        fuser::bytes::decode(&buf, 1, 4),
        u64::from(u32::from_ne_bytes([1, 2, 3, 4]))
    );
}

#[test]
fn errno_values_are_the_systems() {
    let pairs = [
        (errno::ENOENT, libc::ENOENT),
        (errno::EINTR, libc::EINTR),
        (errno::EIO, libc::EIO),
        (errno::ENXIO, libc::ENXIO),
        (errno::EBADF, libc::EBADF),
        (errno::EFAULT, libc::EFAULT),
        (errno::EBUSY, libc::EBUSY),
        (errno::ENODEV, libc::ENODEV),
        (errno::EINVAL, libc::EINVAL),
    ];
    for (ours, theirs) in pairs {
        assert_eq!(ours, theirs);
    }
    assert_eq!(errno::Errno::from_i32(0).code(), libc::EIO);
    assert_eq!(errno::Errno::from_i32(libc::ENOENT).code(), libc::ENOENT);
}
