//! Numbers, searching and the byte order.

use fuser::bytes::{copy_into, copy_within, decode, encode, gather, is_little_endian};
use fuser::errno::{Errno, EIO};
use fuser::error::{Error, ErrorKind};
use fuser::text::{
    append_decimal, append_left_aligned, append_right_aligned, append_signed, chars_of,
    contains_in, find_in, find_str_in, is_at, is_white_space, joined, lines_in, numbered,
    rfind_str_in, trimmed,
};

#[test]
fn decimal_numbers() {
    for n in [0, 1, 9, 10, 99, 100, 65535, 1_000_000, u64::MAX] {
        let mut out = String::from("n=");
        append_decimal(&mut out, n);
        assert_eq!(out, format!("n={n}"));
        assert_eq!(numbered("n=", n), out);
    }
    for n in [0, 7, -1, -10, i32::MAX, i32::MIN] {
        let mut out = String::new();
        append_signed(&mut out, n);
        assert_eq!(out, n.to_string());
    }
    assert_eq!(joined("of=", "/mnt/data"), "of=/mnt/data");
}

#[test]
fn white_space_is_unicodes() {
    for c in '\0'..=char::MAX {
        assert_eq!(is_white_space(c), c.is_whitespace(), "{c:?}");
    }
}

#[test]
fn trimming() {
    for s in ["", " ", "a", " a b\t\n", "\u{3000}x\u{85}", "x  ", "\r\n"] {
        let chars = chars_of(s);
        assert_eq!(chars, s.chars().collect::<Vec<char>>());
        let (from, to) = trimmed(&chars);
        let kept: String = chars[from..to].iter().collect();
        assert_eq!(kept, s.trim());
    }
}

#[test]
fn searching() {
    let chars = chars_of("abcabcd");
    assert_eq!(find_in(&chars, 0, 7, 'c'), 2);
    assert_eq!(find_in(&chars, 3, 7, 'c'), 5);
    assert_eq!(find_in(&chars, 0, 2, 'c'), 2, "the end");
    let abc = chars_of("abc");
    assert_eq!(find_str_in(&chars, 0, 7, &abc), Some(0));
    assert_eq!(find_str_in(&chars, 1, 7, &abc), Some(3));
    assert_eq!(rfind_str_in(&chars, 0, 7, &abc), Some(3));
    assert_eq!(rfind_str_in(&chars, 0, 5, &abc), Some(0));
    assert_eq!(find_str_in(&chars, 1, 5, &abc), None);
    assert!(contains_in(&chars, 0, 7, &chars_of("cd")));
    assert!(!contains_in(&chars, 0, 7, &chars_of("dc")));
    assert!(contains_in(&chars, 2, 2, &chars_of("")));
    assert!(is_at(&chars, 0, 7, 3, &abc));
    assert!(!is_at(&chars, 0, 5, 3, &abc));
}

#[test]
fn lines_are_those_of_std() {
    for s in ["", "\n", "a", "a\n", "a\r\nb", "a\r", "\r\n\r\n", "a\n\nb\n", "\r\r\n"] {
        let chars = chars_of(s);
        let lines: Vec<String> = lines_in(&chars)
            .into_iter()
            .map(|(from, to)| chars[from..to].iter().collect())
            .collect();
        assert_eq!(lines, s.lines().collect::<Vec<&str>>(), "{s:?}");
    }
}

#[test]
fn alignment_is_that_of_std() {
    for s in ["", "x", "\u{e9}t\u{e9}", "12345", "123456"] {
        let mut left = String::from("|");
        append_left_aligned(&mut left, s, 5);
        assert_eq!(left, format!("|{s:<5}"));
        let mut right = String::from("|");
        append_right_aligned(&mut right, s, 5);
        assert_eq!(right, format!("|{s:>5}"));
    }
}

#[test]
fn encoded_integers_are_those_of_std() {
    assert_eq!(is_little_endian(), 1u16.to_ne_bytes() == [1, 0]);
    for x in [0u64, 1, 0x0102, 0xdead_beef, 0x0102_0304_0506_0708, u64::MAX] {
        assert_eq!(encode(x, 8), x.to_ne_bytes());
        assert_eq!(decode(&x.to_ne_bytes(), 0, 8), x);
    }
    assert_eq!(encode(0x0102, 2), 0x0102u16.to_ne_bytes());
    assert_eq!(encode(0x1_0000_0007, 4), 7u32.to_ne_bytes());
    let mut buf = vec![0xff; 7];
    buf[3..7].copy_from_slice(&0x0a0b_0c0du32.to_ne_bytes());
    assert_eq!(decode(&buf, 3, 4), 0x0a0b_0c0d);
    assert_eq!(decode(&buf, 7, 0), 0);
}

#[test]
fn buffers() {
    let mut buf = *b"0123456789";
    copy_into(&mut buf, 2, b"ab");
    assert_eq!(&buf, b"01ab456789");
    copy_within(&mut buf, 1, 5, 4);
    assert_eq!(&buf, b"01ab41ab49");
    assert_eq!(gather(&[b"ab", b"", b"c"]), b"abc");
    assert!(gather(&[]).is_empty());
}

#[test]
fn errnos() {
    assert_eq!(Errno::from_i32(0), Errno(EIO));
    assert_eq!(Errno::from_i32(libc::ENOENT).code(), libc::ENOENT);
}

#[test]
fn every_error_has_its_kind_and_its_text() {
    let table = [
        (Error::QueueFull, ErrorKind::Other, "submission queue still full after submit"),
        (Error::ReplyAfterEnd, ErrorKind::NotConnected, "reply after the connection ended"),
        (Error::DuplicateReply, ErrorKind::Other, "duplicate reply"),
        (Error::EntryCount, ErrorKind::Other, "io_uring: invalid entry count"),
        (Error::ZeroCommitId, ErrorKind::Other, "fetched entry with commit_id 0"),
        (Error::BufferSize, ErrorKind::Other, "ring buffer size overflows the address space"),
        (Error::NThreadsZero, ErrorKind::InvalidInput, "n_threads must be at least 1"),
        (Error::NotLinux, ErrorKind::Other, "io_uring transport is only supported on Linux"),
        (
            Error::NoIoUringFeature,
            ErrorKind::Other,
            "io_uring transport requires the io-uring cargo feature",
        ),
        (
            Error::QueueDepthZero,
            ErrorKind::InvalidInput,
            "io_uring_queue_depth must be at least 1",
        ),
        (
            Error::AutoUnmountOwner,
            ErrorKind::InvalidInput,
            "auto_unmount requires acl != Owner, got: Owner",
        ),
        (
            Error::ThreadsNotLinux,
            ErrorKind::Other,
            "n_threads != 1 is only supported on Linux",
        ),
        (Error::ThreadCount, ErrorKind::Other, "n_threads"),
        (
            Error::Disconnected,
            ErrorKind::NotConnected,
            "FUSE device disconnected during handshake",
        ),
        (Error::BadOperation, ErrorKind::InvalidData, "Failed to parse FUSE operation"),
        (
            Error::NotInit,
            ErrorKind::InvalidData,
            "Received non-init FUSE operation during handshake",
        ),
        (
            Error::NoFilesystem,
            ErrorKind::InvalidInput,
            "Bug: filesystem must be initialized during handshake",
        ),
        (Error::InvalidRequest, ErrorKind::InvalidData, "Invalid request"),
        (Error::ThreadPanicked, ErrorKind::Other, "event loop thread panicked"),
        (
            Error::ThreadsUnnoticed,
            ErrorKind::Other,
            "BUG: every session thread exited unnoticed",
        ),
        (
            Error::FilesystemShared,
            ErrorKind::Other,
            "BUG: must have one refcount for filesystem",
        ),
        (
            Error::BackgroundPanicked,
            ErrorKind::Other,
            "filesystem background thread panicked",
        ),
        (
            Error::PageTooSmall(256),
            ErrorKind::Other,
            "page size 256 cannot hold the 288 byte header and 168 byte staging area",
        ),
        (Error::UnexpectedResult(-3), ErrorKind::Other, "unexpected result -3"),
        (
            Error::UnsupportedAbi { major: 7, minor: 5 },
            ErrorKind::Unsupported,
            "Unsupported FUSE ABI version 7.5",
        ),
    ];
    for (err, kind, text) in table {
        assert_eq!(err.kind(), kind, "{err:?}");
        assert_eq!(err.message().as_deref(), Some(text));
        assert_eq!(err.raw_os_error(), None);
    }
    assert_eq!(Error::Os(libc::EPIPE).kind(), ErrorKind::Os);
    assert_eq!(Error::Os(libc::EPIPE).raw_os_error(), Some(libc::EPIPE));
    assert_eq!(Error::Os(libc::EPIPE).message(), None);
    assert_eq!(Error::Unparsable.kind(), ErrorKind::InvalidData);
    assert_eq!(Error::Unparsable.message(), None);
}
