//! How the kernel's queues are counted and shared between rings.

use fuser::error::{Error, ErrorKind};
use fuser::uring::cpus::{possible_cpus, possible_cpus_parse, CpuListError, POSSIBLE_CPUS};
use fuser::uring::{
    after_report, partition, registration, ring_sizes, ring_thread_name, RingSet, StartAction,
    IORING_MAX_ENTRIES,
};

#[test]
fn parses_cpu_lists() {
    assert_eq!(possible_cpus_parse("0-447\n").unwrap(), 448);
    assert_eq!(possible_cpus_parse("0").unwrap(), 1);
    assert_eq!(possible_cpus_parse("0-3,8-11").unwrap(), 8);
    for garbage in ["", "\n", "abc", "3-1", "0-", "-1", "0,,1"] {
        let err = possible_cpus_parse(garbage).unwrap_err();
        assert_eq!(err.kind(), ErrorKind::InvalidData, "{garbage:?}");
    }
}

#[test]
fn cpu_lists_at_the_edges() {
    assert_eq!(possible_cpus_parse(" \t0-1,4 \r\n").unwrap(), 3);
    assert_eq!(possible_cpus_parse("7-7").unwrap(), 1);
    assert_eq!(possible_cpus_parse("+1-+2").unwrap(), 2);
    assert_eq!(possible_cpus_parse("007").unwrap(), 1);
    let max = usize::MAX.to_string();
    assert_eq!(possible_cpus_parse(&format!("1-{max}")).unwrap(), usize::MAX);
    assert_eq!(possible_cpus_parse(&max).unwrap(), 1);
    for bad in [
        format!("0-{max}"),
        format!("1-{max},0"),
        format!("{max}0"),
        "99999999999999999999999".to_string(),
        "1-2-3".to_string(),
        "0 -1".to_string(),
        "+".to_string(),
        "0x1".to_string(),
        "\u{663}".to_string(),
    ] {
        assert_eq!(possible_cpus_parse(&bad), Err(CpuListError::Parse), "{bad:?}");
    }
}

#[test]
fn possible_cpus_are_held_against_the_present_ones() {
    assert_eq!(possible_cpus("0-447\n", 448), Ok(448));
    assert_eq!(possible_cpus("0-447\n", 2), Ok(448));
    assert_eq!(possible_cpus("0-65534", 1), Ok(65535));
    assert_eq!(
        possible_cpus("0-3", 5),
        Err(CpuListError::BelowPresent {
            count: 4,
            present: 5
        })
    );
    assert_eq!(
        possible_cpus("0-65535", 1),
        Err(CpuListError::TooMany { count: 65536 })
    );
    assert_eq!(possible_cpus("none", 1), Err(CpuListError::Parse));
}

#[test]
fn cpu_list_messages() {
    assert_eq!(
        CpuListError::Parse.message("3-1\n"),
        "cannot parse CPU list \"3-1\\n\""
    );
    assert_eq!(
        CpuListError::Parse.message_with("'x'"),
        "cannot parse CPU list 'x'"
    );
    assert_eq!(
        CpuListError::BelowPresent {
            count: 4,
            present: 5
        }
        .message("0-3"),
        "/sys/devices/system/cpu/possible lists 4 CPUs but 5 are present"
    );
    assert_eq!(
        CpuListError::TooMany { count: 65536 }.message("0-65535"),
        "65536 possible CPUs exceed the 16-bit queue id"
    );
    assert_eq!(POSSIBLE_CPUS, "/sys/devices/system/cpu/possible");
}

#[test]
fn sizes_follow_the_kernel_limits() {
    for entries in [1, 2, 3, 8, 9, 3584, 32768, 40_000, 100_000] {
        let (sq, cq) = ring_sizes(entries);
        assert!(sq.is_power_of_two(), "{entries}");
        assert!((8..=32768).contains(&sq), "{entries}");
        assert!(cq >= sq, "{entries}: cq {cq} < sq {sq}");
        assert!(cq <= 65536, "{entries}");
        assert!(cq as usize >= (2 * entries).min(65536), "{entries}");
    }
    assert_eq!(ring_sizes(2), (8, 8));
    assert_eq!(ring_sizes(3584), (4096, 8192));
    assert_eq!(ring_sizes(100_000), (32768, 65536));
    assert_eq!(ring_sizes(0), (8, 8));
    assert_eq!(ring_sizes(usize::MAX / 4 + 1), (32768, 65536));
}

#[test]
fn partition_is_round_robin_and_complete() {
    let one = partition(448, 1);
    assert_eq!(one.len(), 1);
    assert_eq!(one[0].len(), 448);
    assert_eq!(one[0], (0..448).collect::<Vec<u16>>());

    let three = partition(448, 3);
    assert_eq!(
        three.iter().map(Vec::len).collect::<Vec<_>>(),
        [150, 149, 149]
    );
    let mut all: Vec<u16> = three.iter().flatten().copied().collect();
    all.sort_unstable();
    assert_eq!(all, (0..448).collect::<Vec<u16>>());
    for (r, qids) in three.iter().enumerate() {
        assert!(qids.iter().all(|&q| usize::from(q) % 3 == r));
    }

    // More threads than queues clamps to one ring per queue; zero threads means one ring
    assert_eq!(partition(4, 16), [[0], [1], [2], [3]]);
    assert_eq!(partition(4, 0), [[0, 1, 2, 3]]);
    assert!(partition(0, 3).is_empty());
    assert_eq!(partition(u16::MAX, usize::MAX).len(), 65535);
}

/// A depth the largest ring cannot hold is refused before anything is set up
#[test]
fn oversized_depth_is_refused_up_front() {
    for queues in [1u16, 4, 448, 1000] {
        let depth = (IORING_MAX_ENTRIES / usize::from(queues) + 1) as u32;
        let err = RingSet::plan(queues, 1, depth).unwrap_err();
        assert!(err
            .message()
            .unwrap()
            .starts_with(&format!("{queues} queues x depth {depth} exceed")));
        assert!(RingSet::plan(queues, 1, depth - 1).is_ok());
        assert!(RingSet::plan(queues, 1, u32::MAX).is_err());
    }
    assert_eq!(
        RingSet::plan(448, 3, 219).unwrap_err(),
        Error::RingTooLarge {
            largest: 150,
            depth: 219
        }
    );
    assert_eq!(
        RingSet::plan(448, 3, 219).unwrap_err().message().unwrap(),
        "150 queues x depth 219 exceed the 32768 entries an io_uring holds \
         (lower io_uring_queue_depth or raise n_threads)"
    );
}

#[test]
fn each_ring_is_sized_for_its_queues() {
    let set = RingSet::plan(5, 2, 100).unwrap();
    assert_eq!(set.rings.len(), 2);
    assert_eq!(set.rings[0].qids, [0, 2, 4]);
    assert_eq!((set.rings[0].sq, set.rings[0].cq), (512, 1024));
    assert_eq!(set.rings[1].qids, [1, 3]);
    assert_eq!((set.rings[1].sq, set.rings[1].cq), (256, 512));
    assert!(RingSet::plan(0, 3, u32::MAX).unwrap().rings.is_empty());
}

#[test]
fn ring_threads_report_and_have_names() {
    assert_eq!(registration(3, Some(Ok(()))), Ok(()));
    assert_eq!(
        registration(3, Some(Err(Error::Os(libc::EPERM)))),
        Err(Error::Os(libc::EPERM))
    );
    let refused = Some(Err(Error::Os(libc::EPERM)));
    assert_eq!(after_report(3, 1, Some(Ok(()))), StartAction::Await(2));
    assert_eq!(after_report(3, 2, Some(Ok(()))), StartAction::Started);
    assert_eq!(
        after_report(3, 0, refused),
        StartAction::AbandonAll(Error::Os(libc::EPERM))
    );
    assert_eq!(
        after_report(3, 1, None),
        StartAction::AbandonAll(Error::ExitedBeforeRegistering(1))
    );
    let gone = registration(3, None).unwrap_err();
    assert_eq!(
        gone.message().unwrap(),
        "io_uring: ring 3 thread exited before registering"
    );
    assert_eq!(
        Error::ExitedBeforeServing(12).message().unwrap(),
        "io_uring: ring 12 thread exited before serving"
    );
    assert_eq!(ring_thread_name(0), "fuser-ring-0");
    assert_eq!(ring_thread_name(447), "fuser-ring-447");
}
