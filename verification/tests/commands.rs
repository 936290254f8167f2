//! The commands of the test runner: what they start and what they make of the outcome.

use fuser::commands::transport_bench::{
    affinity_list, dd_args, measurable, pinning, pread_offset, server_args, server_cpus,
    size_label, table, workloads, ServerCpus, Transport, Workload, DATA_FILE, SPAN,
};
use fuser::commands::uring_check::{
    content_is_expected, has_fallback, is_ring_ready, transport_verdict, uring_enabled, Verdict, ENABLE_URING,
    QUEUE_DEPTH,
};

#[test]
fn hello_content() {
    assert!(content_is_expected("Hello World!\n"));
    for other in ["", "Hello World!", "Hello World!\n\n", "hello World!\n", "Hello World!\r"] {
        assert!(!content_is_expected(other), "{other:?}");
    }
}

#[test]
fn parameter_file() {
    assert!(uring_enabled("Y\n"));
    assert!(uring_enabled(" Y"));
    for no in ["N\n", "", "YY", "y", "Y Y", "1"] {
        assert!(!uring_enabled(no), "{no:?}");
    }
    assert_eq!(ENABLE_URING, "/sys/module/fuse/parameters/enable_uring");
    assert_eq!(QUEUE_DEPTH, "2");
}

#[test]
fn ring_ready_lines() {
    for yes in [
        "io_uring: ring 0 registered 4 entries",
        "[DEBUG fuser::uring::ring] io_uring: ring 12 registered 896 entries",
        "io_uring: ring  registered entries",
    ] {
        assert!(is_ring_ready(yes), "{yes:?}");
    }
    for no in [
        "",
        "io_uring: ring 0 registered 4 entries ",
        "io_uring: ring 0 registering 4 entries",
        "io_uring: ring 0",
        "io_uring: ring 0 registered",
        "io_uring: rings 0 registered 4 entries",
        "io_uring: ring 0 0 registered entries",
        "io_uring: ring x io_uring: ring 0 registered 4 entries",
    ] {
        assert!(!is_ring_ready(no), "{no:?}");
    }
}

const SETUP: &str = "io_uring: 4 queues over 1 rings, depth 2, 65536 byte payloads\n";
const READY: &str = "io_uring: ring 0 registered 8 entries\n";
const READ: &str = "FUSE(  8) ino 2 READ offset 0 thread=fuser-ring-0\n";
const LOOKUP: &str = "FUSE(  6) ino 1 LOOKUP name \"x\" thread=fuser-ring-0\n";
const DEV_READ: &str = "FUSE(  8) ino 2 READ offset 0 thread=fuser-0\n";
const DISABLED: &str = "io_uring requested but the kernel did not advertise FUSE_OVER_IO_URING \
                        (fuse.enable_uring=N or kernel < 6.14); using /dev/fuse";
const REFUSED: &str =
    "io_uring requested but io_uring_setup failed (Operation not permitted (os error 1)); \
     using /dev/fuse";
const MISSING: &str =
    "io_uring requested but io_uring_setup failed (Function not implemented (os error 38)); \
     using /dev/fuse";

#[test]
fn verdicts() {
    let log = [SETUP, READY, READ].concat();
    assert_eq!(transport_verdict(true, &log), Verdict::IoUring);
    let log = [READY, READ].concat();
    assert_eq!(transport_verdict(true, &log), Verdict::WrongDepth);
    for (enabled, reason) in [(false, DISABLED), (true, REFUSED), (true, MISSING)] {
        let log = [reason, "\r\n", DEV_READ].concat();
        assert_eq!(
            transport_verdict(enabled, &log),
            Verdict::DevFuse(reason),
            "{reason}"
        );
        assert!(has_fallback(&log));
        assert!(matches!(
            transport_verdict(!enabled, &log),
            Verdict::Unexpected { .. }
        ));
    }
    assert!(!has_fallback(DEV_READ));
}

#[test]
fn verdicts_on_what_should_not_be() {
    // Served over the rings although the kernel has them disabled
    let log = [SETUP, READY, READ].concat();
    assert_eq!(
        transport_verdict(false, &log),
        Verdict::Unexpected {
            ring_ready: true,
            fallback: None,
            ring_dispatch: true,
            ring_read: true
        }
    );
    // Registered, but another request than the read came over the ring
    let log = [SETUP, READY, LOOKUP, DEV_READ].concat();
    assert_eq!(
        transport_verdict(true, &log),
        Verdict::Unexpected {
            ring_ready: true,
            fallback: None,
            ring_dispatch: true,
            ring_read: false
        }
    );
    // Fell back, and a ring dispatched all the same; the first reason counts
    let log = [DISABLED, "\n", REFUSED, "\n", LOOKUP].concat();
    assert_eq!(
        transport_verdict(false, &log),
        Verdict::Unexpected {
            ring_ready: false,
            fallback: Some(DISABLED),
            ring_dispatch: true,
            ring_read: false
        }
    );
    assert_eq!(
        transport_verdict(true, ""),
        Verdict::Unexpected {
            ring_ready: false,
            fallback: None,
            ring_dispatch: false,
            ring_read: false
        }
    );
}

#[test]
fn workload_table() {
    let names: Vec<String> = workloads().iter().map(Workload::name).collect();
    assert_eq!(
        names,
        [
            "read 4k",
            "write 4k",
            "read 128k",
            "write 128k",
            "read 1M",
            "write 1M",
            "stat (lookup+getattr) x1",
            "stat (lookup+getattr) x8",
            "pread 4k x1",
            "pread 4k x8",
            "pread 64k x1",
            "pread 64k x8",
        ]
    );
    let units: Vec<&str> = workloads().iter().map(Workload::unit).collect();
    assert_eq!(units[..6], ["MB/s"; 6]);
    assert_eq!(units[6..], ["ops/s"; 6]);
    assert_eq!(
        workloads()[7],
        Workload::Stat {
            threads: 8,
            iters: 100_000
        }
    );
    assert_eq!(
        workloads()[11],
        Workload::Pread {
            size: 65536,
            threads: 8,
            iters: 20_000
        }
    );
}

#[test]
fn size_labels() {
    assert_eq!(size_label(0), "0k");
    assert_eq!(size_label(1023), "0k");
    assert_eq!(size_label(4096), "4k");
    assert_eq!(size_label((1 << 20) - 1), "1023k");
    assert_eq!(size_label(1 << 20), "1M");
    assert_eq!(size_label(3 << 30), "3072M");
}

#[test]
fn pread_offsets_are_scattered() {
    assert_eq!(pread_offset(0, 4096), 0);
    let blocks = SPAN / 65536;
    assert_eq!(
        pread_offset(1, 65536),
        2_654_435_761u64 % blocks * 65536
    );
    assert_eq!(
        pread_offset(u64::MAX, 65536),
        u64::MAX.wrapping_mul(2_654_435_761) % blocks * 65536
    );
    let mut seen = vec![false; blocks as usize];
    for i in 0..blocks {
        let block = (pread_offset(i, 65536) / 65536) as usize;
        assert!(!seen[block], "block {block} again after {i} calls");
        seen[block] = true;
    }
    assert_eq!(pread_offset(blocks, 65536), pread_offset(0, 65536));
    assert_eq!(pread_offset(5, SPAN), 0);
}

#[test]
fn dd_command_lines() {
    assert_eq!(
        dd_args("/mnt/data", 4096, false),
        [
            "if=/mnt/data",
            "of=/dev/null",
            "iflag=fullblock",
            "bs=4096",
            "count=262144"
        ]
    );
    assert_eq!(
        dd_args("/mnt/data", 1 << 20, true),
        [
            "if=/dev/zero",
            "of=/mnt/data",
            "conv=notrunc",
            "bs=1048576",
            "count=1024"
        ]
    );
}

#[test]
fn server_command_lines() {
    assert_eq!(
        server_args("/mnt", 1, Transport::Dev, false),
        ["/mnt", "--n-threads", "1"]
    );
    assert_eq!(
        server_args("/mnt", 8, Transport::Dev, true),
        ["/mnt", "--n-threads", "8", "--clone-fd", "--reply-data"]
    );
    assert_eq!(
        server_args("/mnt", 8, Transport::Uring, false),
        ["/mnt", "--n-threads", "8", "--io-uring"]
    );
    assert_eq!(DATA_FILE, "data");
    assert_eq!(pinning(Some("8-15")), ["taskset", "-c", "8-15"]);
    assert!(pinning(None).is_empty());
    assert_eq!(server_cpus(true, true), ServerCpus::Given);
    assert_eq!(server_cpus(false, true), ServerCpus::Given);
    assert_eq!(server_cpus(true, false), ServerCpus::Starting);
    assert_eq!(server_cpus(false, false), ServerCpus::Unpinned);
}

#[test]
fn measurable_transports() {
    let both = vec![Transport::Dev, Transport::Uring, Transport::Dev];
    assert_eq!(measurable(&both, true), Some(both.clone()));
    assert_eq!(
        measurable(&both, false),
        Some(vec![Transport::Dev, Transport::Dev])
    );
    assert_eq!(measurable(&vec![Transport::Uring], false), None);
    assert_eq!(measurable(&vec![], true), None);
    assert_eq!(Transport::Dev.name(), "/dev/fuse");
    assert_eq!(Transport::Uring.name(), "io_uring");
}

#[test]
fn affinity_lists() {
    assert_eq!(
        affinity_list("pid 123's current affinity list: 0-447\n"),
        Some("0-447")
    );
    assert_eq!(affinity_list("a: b: c"), Some("c"));
    assert_eq!(affinity_list("nothing"), None);
    // The colon at the end has lost its space
    assert_eq!(affinity_list("list: \n"), None);
}

#[test]
fn result_table() {
    let workloads = vec![
        Workload::Dd {
            block: 4096,
            write: false,
        },
        Workload::Stat {
            threads: 8,
            iters: 1,
        },
    ];
    let transports = vec![Transport::Dev, Transport::Uring];
    let cell = |s: &str| s.to_string();
    let results = vec![
        vec![cell("10 (9-11) MB/s"), cell("2 (1-3) ops/s")],
        vec![cell("20 (19-21) MB/s"), cell("4 (3-5) ops/s")],
    ];
    let expected = format!(
        "\n{:<26}  {:>28}  {:>28}\n{:<26}  {:>28}  {:>28}\n{:<26}  {:>28}  {:>28}\n\
         median (min-max) of 5 runs",
        "workload",
        "/dev/fuse",
        "io_uring",
        "read 4k",
        "10 (9-11) MB/s",
        "20 (19-21) MB/s",
        "stat (lookup+getattr) x8",
        "2 (1-3) ops/s",
        "4 (3-5) ops/s",
    );
    assert_eq!(table(&workloads, &transports, &results, 5), expected);
}
