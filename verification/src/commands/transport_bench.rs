//! Transport benchmark: the workloads that every transport runs, how the filesystem and the
//! workloads are started, and the table of the results.

use crate::text;
use vstd::prelude::*;
use vstd::string::*;

verus! {

#[derive(Debug, Clone, Copy, PartialEq, Eq, Structural)]
pub enum Transport {
    /// Reads and writes on /dev/fuse.
    Dev,
    /// FUSE-over-io_uring.
    Uring,
}

impl Transport {
    pub open spec fn spec_name(self) -> Seq<char> {
        match self {
            Transport::Dev => "/dev/fuse"@,
            Transport::Uring => "io_uring"@,
        }
    }

    pub fn name(self) -> (r: &'static str)
        ensures
            r@ == self.spec_name(),
    {
        match self {
            Transport::Dev => "/dev/fuse",
            Transport::Uring => "io_uring",
        }
    }
}

/// Bytes each workload covers; the file is larger, so no request hits its end.
pub const SPAN: u64 = 0x4000_0000;

pub const KIB: u64 = 0x400;

pub const MIB: u64 = 0x10_0000;

pub const DATA_FILE: &'static str = "data";

pub const NAME_WIDTH: usize = 26;

pub const CELL_WIDTH: usize = 28;

#[derive(Debug, Clone, Copy, PartialEq, Eq, Structural)]
pub enum Workload {
    /// One `dd` stream of `SPAN` bytes in `block`-sized blocks.
    Dd { block: u64, write: bool },
    /// `stat(2)` loops on `threads` client threads, `iters` calls each; with a zero entry TTL
    /// each call is a lookup and a getattr.
    Stat { threads: usize, iters: u64 },
    /// `pread(2)` loops of `size` bytes at scattered offsets, `iters` calls per thread.
    Pread { size: usize, threads: usize, iters: u64 },
}

/// The workloads every transport runs, in table order. The kernel splits requests above its
/// `max_pages` (1 MiB here), so larger `dd` blocks would measure 1 MiB requests again.
pub fn workloads() -> (r: Vec<Workload>)
    ensures
        r@ == seq![
            Workload::Dd { block: 4096, write: false },
            Workload::Dd { block: 4096, write: true },
            Workload::Dd { block: 131072, write: false },
            Workload::Dd { block: 131072, write: true },
            Workload::Dd { block: 1048576, write: false },
            Workload::Dd { block: 1048576, write: true },
            Workload::Stat { threads: 1, iters: 100_000 },
            Workload::Stat { threads: 8, iters: 100_000 },
            Workload::Pread { size: 4096, threads: 1, iters: 100_000 },
            Workload::Pread { size: 4096, threads: 8, iters: 100_000 },
            Workload::Pread { size: 65536, threads: 1, iters: 20_000 },
            Workload::Pread { size: 65536, threads: 8, iters: 20_000 },
        ],
{
    let mut list: Vec<Workload> = Vec::new();
    list.push(Workload::Dd { block: 4 * KIB, write: false });
    list.push(Workload::Dd { block: 4 * KIB, write: true });
    list.push(Workload::Dd { block: 128 * KIB, write: false });
    list.push(Workload::Dd { block: 128 * KIB, write: true });
    list.push(Workload::Dd { block: MIB, write: false });
    list.push(Workload::Dd { block: MIB, write: true });
    list.push(Workload::Stat { threads: 1, iters: 100_000 });
    list.push(Workload::Stat { threads: 8, iters: 100_000 });
    list.push(Workload::Pread { size: 4096, threads: 1, iters: 100_000 });
    list.push(Workload::Pread { size: 4096, threads: 8, iters: 100_000 });
    list.push(Workload::Pread { size: 65536, threads: 1, iters: 20_000 });
    list.push(Workload::Pread { size: 65536, threads: 8, iters: 20_000 });
    list
}

/// A size in whole KiB below 1 MiB, in whole MiB from there on.
pub open spec fn size_label_of(bytes: u64) -> Seq<char> {
    if bytes < MIB {
        text::decimal((bytes / KIB) as nat) + "k"@
    } else {
        text::decimal((bytes / MIB) as nat) + "M"@
    }
}

pub fn size_label(bytes: u64) -> (r: String)
    ensures
        r@ == size_label_of(bytes),
{
    let mut out = String::new();
    if bytes < MIB {
        text::append_decimal(&mut out, bytes / KIB);
        out.append("k");
    } else {
        text::append_decimal(&mut out, bytes / MIB);
        out.append("M");
    }
    assert(out@ =~= size_label_of(bytes));
    out
}

impl Workload {
    pub open spec fn spec_name(self) -> Seq<char> {
        match self {
            Workload::Dd { block, write } => (if write {
                "write "@
            } else {
                "read "@
            }) + size_label_of(block),
            Workload::Stat { threads, .. } => "stat (lookup+getattr) x"@ + text::decimal(
                threads as nat,
            ),
            Workload::Pread { size, threads, .. } => "pread "@ + size_label_of(size as u64) + " x"@
                + text::decimal(threads as nat),
        }
    }

    pub fn name(&self) -> (r: String)
        ensures
            r@ == self.spec_name(),
    {
        let mut out = String::new();
        match *self {
            Workload::Dd { block, write } => {
                if write {
                    out.append("write ");
                } else {
                    out.append("read ");
                }
                let label = size_label(block);
                out.append(label.as_str());
            },
            Workload::Stat { threads, .. } => {
                out.append("stat (lookup+getattr) x");
                text::append_decimal(&mut out, threads as u64);
            },
            Workload::Pread { size, threads, .. } => {
                out.append("pread ");
                let label = size_label(size as u64);
                out.append(label.as_str());
                out.append(" x");
                text::append_decimal(&mut out, threads as u64);
            },
        }
        assert(out@ =~= self.spec_name());
        out
    }

    pub fn unit(&self) -> (r: &'static str)
        ensures
            r@ == (match *self {
                Workload::Dd { .. } => "MB/s"@,
                _ => "ops/s"@,
            }),
    {
        match *self {
            Workload::Dd { .. } => "MB/s",
            Workload::Stat { .. } => "ops/s",
            Workload::Pread { .. } => "ops/s",
        }
    }
}

/// The odd multiplier that scatters the blocks.
pub const SCATTER: u64 = 2_654_435_761;

/// The block that call `i` of a `pread` loop over `blocks` blocks reads.
pub open spec fn scattered(i: u64, blocks: u64) -> int {
    ((i * SCATTER) % 0x1_0000_0000_0000_0000) % (blocks as int)
}

/// The offset that call `i` of a `pread` loop with `size`-byte reads starts at.
pub fn pread_offset(i: u64, size: u64) -> (r: u64)
    requires
        0 < size <= SPAN,
    ensures
        r == scattered(i, SPAN / size) * size,
        r + size <= SPAN,
{
    let blocks: u64 = SPAN / size;
    proof {
        assert(blocks >= 1 && blocks * size <= SPAN) by (nonlinear_arith)
            requires
                0 < size <= SPAN,
                blocks == SPAN / size,
        ;
    }
    let product: u64 = i.wrapping_mul(SCATTER);
    let block: u64 = product % blocks;
    proof {
        assert(product == (i * SCATTER) % 0x1_0000_0000_0000_0000);
        assert(block * size + size <= blocks * size) by (nonlinear_arith)
            requires
                block < blocks,
        ;
    }
    block * size
}

/// An odd factor can be cancelled modulo a power of two.
proof fn lemma_odd_cancels(m: int, d: int, q: int, k: nat) -> (t: int)
    requires
        m % 2 == 1,
        m * d == q * vstd::arithmetic::power2::pow2(k),
    ensures
        d == t * vstd::arithmetic::power2::pow2(k),
    decreases k,
{
    if k == 0 {
        vstd::arithmetic::power2::lemma2_to64();
        assert(d == d * 1) by (nonlinear_arith);
        d
    } else {
        vstd::arithmetic::power2::lemma_pow2_unfold(k);
        let p = vstd::arithmetic::power2::pow2((k - 1) as nat) as int;
        let a = m / 2;
        let e = q * p - a * d;
        assert(d == 2 * e) by (nonlinear_arith)
            requires
                m == 2 * a + 1,
                m * d == q * (2 * p),
                e == q * p - a * d,
        ;
        assert(m * e == q * p) by (nonlinear_arith)
            requires
                m * d == q * (2 * p),
                d == 2 * e,
        ;
        let t = lemma_odd_cancels(m, e, q, (k - 1) as nat);
        assert(d == t * (2 * p)) by (nonlinear_arith)
            requires
                d == 2 * e,
                e == t * p,
        ;
        t
    }
}

/// An odd multiplier modulo a power of two permutes the blocks: the offsets are scattered and
/// repeat only after `blocks` calls.
pub proof fn offsets_repeat_only_after_every_block(i: u64, j: u64, blocks: u64, k: nat)
    requires
        blocks == vstd::arithmetic::power2::pow2(k),
        k <= 64,
        j <= i < j + blocks,
        scattered(i, blocks) == scattered(j, blocks),
    ensures
        i == j,
{
    let b = blocks as int;
    let rest = vstd::arithmetic::power2::pow2((64 - k) as nat) as int;
    vstd::arithmetic::power2::lemma2_to64();
    vstd::arithmetic::power2::lemma_pow2_adds(k, (64 - k) as nat);
    vstd::arithmetic::power2::lemma_pow2_pos((64 - k) as nat);
    vstd::arithmetic::power2::lemma_pow2_pos(k);
    assert(b * rest == 0x1_0000_0000_0000_0000);
    let x = i * SCATTER;
    let y = j * SCATTER;
    vstd::arithmetic::div_mod::lemma_mod_mod(x, b, rest);
    vstd::arithmetic::div_mod::lemma_mod_mod(y, b, rest);
    assert(x % b == y % b);
    let q = x / b - y / b;
    let d = i - j;
    let m = SCATTER as int;
    assert(x == b * (x / b) + x % b && y == b * (y / b) + y % b) by (nonlinear_arith)
        requires
            b > 0,
    ;
    assert(m * d == q * b) by (nonlinear_arith)
        requires
            x == m * i,
            y == m * j,
            d == i - j,
            q == x / b - y / b,
            x == b * (x / b) + x % b,
            y == b * (y / b) + y % b,
            x % b == y % b,
    ;
    let t = lemma_odd_cancels(m, d, q, k);
    assert(t == 0) by (nonlinear_arith)
        requires
            0 <= d < b,
            d == t * b,
    ;
    assert(d == 0) by (nonlinear_arith)
        requires
            d == t * b,
            t == 0,
    ;
}

/// The arguments of the `dd` that copies `SPAN` bytes in `block`-sized blocks, reading the file
/// `data` into `/dev/null` or writing zeros over it. Without `fullblock` a short read would count
/// as a whole block.
pub fn dd_args(data: &str, block: u64, write: bool) -> (r: Vec<String>)
    requires
        block > 0,
    ensures
        text::texts(r@) == (if write {
            seq!["if=/dev/zero"@, "of="@ + data@, "conv=notrunc"@]
        } else {
            seq!["if="@ + data@, "of=/dev/null"@, "iflag=fullblock"@]
        }) + seq![
            "bs="@ + text::decimal(block as nat),
            "count="@ + text::decimal((SPAN / block) as nat),
        ],
{
    let mut args: Vec<String> = Vec::new();
    if write {
        args.push(String::from_str("if=/dev/zero"));
        args.push(text::joined("of=", data));
        args.push(String::from_str("conv=notrunc"));
    } else {
        args.push(text::joined("if=", data));
        args.push(String::from_str("of=/dev/null"));
        args.push(String::from_str("iflag=fullblock"));
    }
    args.push(text::numbered("bs=", block));
    args.push(text::numbered("count=", SPAN / block));
    assert(text::texts(args@) =~= (if write {
        seq!["if=/dev/zero"@, "of="@ + data@, "conv=notrunc"@]
    } else {
        seq!["if="@ + data@, "of=/dev/null"@, "iflag=fullblock"@]
    }) + seq![
        "bs="@ + text::decimal(block as nat),
        "count="@ + text::decimal((SPAN / block) as nat),
    ]);
    args
}

/// The transports of a list that can be measured.
pub open spec fn kept(transports: Seq<Transport>, uring_enabled: bool) -> Seq<Transport> {
    transports.filter(|t: Transport| uring_enabled || t != Transport::Uring)
}

/// The transports that can be measured: io_uring only where the fuse module has it enabled.
/// `None` when there is nothing to measure.
pub fn measurable(transports: &Vec<Transport>, uring_enabled: bool) -> (r: Option<Vec<Transport>>)
    ensures
        match r {
            Some(v) => v@ == kept(transports@, uring_enabled) && v@.len() > 0,
            None => kept(transports@, uring_enabled).len() == 0,
        },
{
    let ghost keep = |t: Transport| uring_enabled || t != Transport::Uring;
    let mut out: Vec<Transport> = Vec::new();
    let mut i: usize = 0;
    assert(transports@.take(0).filter(keep) =~= Seq::empty()) by {
        reveal(Seq::filter);
    }
    while i < transports.len()
        invariant
            i <= transports@.len(),
            keep == (|t: Transport| uring_enabled || t != Transport::Uring),
            out@ == transports@.take(i as int).filter(keep),
        decreases transports@.len() - i,
    {
        proof {
            reveal(Seq::filter);
            assert(transports@.take(i + 1).drop_last() =~= transports@.take(i as int));
        }
        let t: Transport = transports[i];
        if uring_enabled || t != Transport::Uring {
            out.push(t);
        }
        i = i + 1;
    }
    assert(transports@.take(transports@.len() as int) =~= transports@);
    if out.is_empty() {
        None
    } else {
        Some(out)
    }
}

/// Whose CPUs the filesystem process gets.
#[derive(Debug, Clone, Copy, PartialEq, Eq, Structural)]
pub enum ServerCpus {
    /// Those of its own option.
    Given,
    /// Those that the benchmark started with. Pinning the benchmark also pins what it spawns, so
    /// without its own CPUs the filesystem has to be given them.
    Starting,
    /// Nobody is pinned.
    Unpinned,
}

pub fn server_cpus(client_given: bool, server_given: bool) -> (r: ServerCpus)
    ensures
        r is Given <==> server_given,
        r is Starting <==> client_given && !server_given,
{
    if server_given {
        ServerCpus::Given
    } else if client_given {
        ServerCpus::Starting
    } else {
        ServerCpus::Unpinned
    }
}

/// What stands before the program in the command that starts it on `cpus`.
pub fn pinning(cpus: Option<&str>) -> (r: Vec<String>)
    ensures
        text::texts(r@) == (match cpus {
            Some(list) => seq!["taskset"@, "-c"@, list@],
            None => Seq::empty(),
        }),
{
    let mut args: Vec<String> = Vec::new();
    if let Some(list) = cpus {
        args.push(String::from_str("taskset"));
        args.push(String::from_str("-c"));
        args.push(String::from_str(list));
    }
    assert(text::texts(args@) =~= (match cpus {
        Some(list) => seq!["taskset"@, "-c"@, list@],
        None => Seq::empty(),
    }));
    args
}

/// The arguments that `bench_fs` is started with for a transport. Several threads over
/// `/dev/fuse` also get a descriptor each.
pub fn server_args(mount_path: &str, n_threads: usize, transport: Transport, reply_data: bool) -> (r:
    Vec<String>)
    ensures
        text::texts(r@) == seq![mount_path@, "--n-threads"@, text::decimal(n_threads as nat)] + (
        match transport {
            Transport::Dev => if n_threads > 1 {
                seq!["--clone-fd"@]
            } else {
                Seq::empty()
            },
            Transport::Uring => seq!["--io-uring"@],
        }) + (if reply_data {
            seq!["--reply-data"@]
        } else {
            Seq::empty()
        }),
{
    let mut args: Vec<String> = Vec::new();
    args.push(String::from_str(mount_path));
    args.push(String::from_str("--n-threads"));
    let mut n = String::new();
    text::append_decimal(&mut n, n_threads as u64);
    assert(n@ =~= text::decimal(n_threads as nat));
    args.push(n);
    match transport {
        Transport::Dev => {
            if n_threads > 1 {
                args.push(String::from_str("--clone-fd"));
            }
        },
        Transport::Uring => {
            args.push(String::from_str("--io-uring"));
        },
    }
    if reply_data {
        args.push(String::from_str("--reply-data"));
    }
    assert(text::texts(args@) =~= seq![
        mount_path@,
        "--n-threads"@,
        text::decimal(n_threads as nat),
    ] + (match transport {
        Transport::Dev => if n_threads > 1 {
            seq!["--clone-fd"@]
        } else {
            Seq::empty()
        },
        Transport::Uring => seq!["--io-uring"@],
    }) + (if reply_data {
        seq!["--reply-data"@]
    } else {
        Seq::empty()
    }));
    args
}

/// Whether `list` is the CPU list in `output`.
pub open spec fn affinity_is(output: Seq<char>, list: Option<Seq<char>>) -> bool {
    let s = text::trim_end(text::trim_start(output));
    match list {
        Some(cpus) => exists|k: int|
            #[trigger] text::last_at(s, k, ": "@) && cpus == s.skip(k + 2),
        None => !text::contains(s, ": "@),
    }
}

/// The CPU list in the output of `taskset -c -p`, such as `pid 123's current affinity list:
/// 0-447`: what follows the last colon and space, `None` when there is none.
pub fn affinity_list<'a>(output: &'a str) -> (r: Option<&'a str>)
    ensures
        affinity_is(
            output@,
            match r {
                Some(cpus) => Some(cpus@),
                None => None,
            },
        ),
{
    let chars: Vec<char> = text::chars_of(output);
    let (from, to): (usize, usize) = text::trimmed(&chars);
    let colon: Vec<char> = text::chars_of(": ");
    let ghost s = chars@.subrange(from as int, to as int);
    proof {
        reveal_strlit(": ");
    }
    match text::rfind_str_in(&chars, from, to, &colon) {
        Some(k) => {
            assert(s.skip(k - from + 2) =~= output@.subrange(k + 2, to as int));
            assert(text::last_at(s, k - from, ": "@));
            Some(output.substring_char(k + 2, to))
        },
        None => None,
    }
}

/// A name in the first column.
pub open spec fn name_cell(s: Seq<char>) -> Seq<char> {
    "\n"@ + (s + text::spaces(text::missing(s, NAME_WIDTH as nat)))
}

/// A cell in one of the other columns.
pub open spec fn value_cell(s: Seq<char>) -> Seq<char> {
    "  "@ + (text::spaces(text::missing(s, CELL_WIDTH as nat)) + s)
}

/// The transports' names, a cell each.
pub open spec fn heading(transports: Seq<Transport>) -> Seq<char>
    decreases transports.len(),
{
    if transports.len() == 0 {
        name_cell("workload"@)
    } else {
        heading(transports.drop_last()) + value_cell(transports.last().spec_name())
    }
}

/// The results of workload `i` on the first `n` transports.
pub open spec fn row(workload: Workload, results: Seq<Vec<String>>, i: int, n: nat) -> Seq<char>
    decreases n,
{
    if n == 0 {
        name_cell(workload.spec_name())
    } else {
        row(workload, results, i, (n - 1) as nat) + value_cell(results[n - 1]@[i]@)
    }
}

/// The rows of the first `n` workloads.
pub open spec fn rows(workloads: Seq<Workload>, results: Seq<Vec<String>>, n: nat) -> Seq<char>
    decreases n,
{
    if n == 0 {
        Seq::empty()
    } else {
        rows(workloads, results, (n - 1) as nat) + row(
            workloads[n - 1],
            results,
            n - 1,
            results.len(),
        )
    }
}

fn append_value(out: &mut String, s: &str)
    ensures
        final(out)@ == old(out)@ + value_cell(s@),
{
    out.append("  ");
    text::append_right_aligned(out, s, CELL_WIDTH);
    assert(out@ =~= old(out)@ + value_cell(s@));
}

fn append_name(out: &mut String, s: &str)
    ensures
        final(out)@ == old(out)@ + name_cell(s@),
{
    out.append("\n");
    text::append_left_aligned(out, s, NAME_WIDTH);
    assert(out@ =~= old(out)@ + name_cell(s@));
}

fn append_heading(out: &mut String, transports: &Vec<Transport>)
    ensures
        final(out)@ == old(out)@ + heading(transports@),
{
    append_name(out, "workload");
    let mut i: usize = 0;
    assert(transports@.take(0) =~= Seq::empty());
    while i < transports.len()
        invariant
            i <= transports@.len(),
            out@ == old(out)@ + heading(transports@.take(i as int)),
        decreases transports@.len() - i,
    {
        proof {
            assert(transports@.take(i + 1).drop_last() =~= transports@.take(i as int));
        }
        append_value(out, transports[i].name());
        assert(out@ =~= old(out)@ + heading(transports@.take(i + 1)));
        i = i + 1;
    }
    assert(transports@.take(transports@.len() as int) =~= transports@);
}

fn append_row(out: &mut String, workload: &Workload, results: &Vec<Vec<String>>, i: usize)
    requires
        forall|t: int| 0 <= t < results@.len() ==> i < (#[trigger] results@[t])@.len(),
    ensures
        final(out)@ == old(out)@ + row(*workload, results@, i as int, results@.len()),
{
    let name = workload.name();
    append_name(out, name.as_str());
    let mut t: usize = 0;
    while t < results.len()
        invariant
            t <= results@.len(),
            forall|t: int| 0 <= t < results@.len() ==> i < (#[trigger] results@[t])@.len(),
            out@ == old(out)@ + row(*workload, results@, i as int, t as nat),
        decreases results@.len() - t,
    {
        append_value(out, results[t][i].as_str());
        assert(out@ =~= old(out)@ + row(*workload, results@, i as int, (t + 1) as nat));
        t = t + 1;
    }
}

/// The table of the results: one row per workload, one column per transport. `results[t][i]` is
/// the cell of workload `i` on transport `t`.
pub fn table(
    workloads: &Vec<Workload>,
    transports: &Vec<Transport>,
    results: &Vec<Vec<String>>,
    reps: u32,
) -> (r: String)
    requires
        forall|t: int|
            0 <= t < results@.len() ==> (#[trigger] results@[t])@.len() == workloads@.len(),
    ensures
        r@ == heading(transports@) + rows(workloads@, results@, workloads@.len())
            + "\nmedian (min-max) of "@ + text::decimal(reps as nat) + " runs"@,
{
    let mut out = String::new();
    append_heading(&mut out, transports);
    let ghost head = heading(transports@);
    assert(out@ =~= head + rows(workloads@, results@, 0));
    let mut i: usize = 0;
    while i < workloads.len()
        invariant
            i <= workloads@.len(),
            forall|t: int|
                0 <= t < results@.len() ==> (#[trigger] results@[t])@.len() == workloads@.len(),
            out@ == head + rows(workloads@, results@, i as nat),
        decreases workloads@.len() - i,
    {
        append_row(&mut out, &workloads[i], results, i);
        assert(out@ =~= head + rows(workloads@, results@, (i + 1) as nat));
        i = i + 1;
    }
    out.append("\nmedian (min-max) of ");
    text::append_decimal(&mut out, reps as u64);
    out.append(" runs");
    out
}

/// Every transport is measured in its turn, io_uring only where it is enabled.
pub proof fn transports_are_kept_in_order(list: Seq<Transport>, enabled: bool)
    ensures
        kept(Seq::<Transport>::empty(), enabled).len() == 0,
        kept(list.push(Transport::Dev), enabled) == kept(list, enabled).push(Transport::Dev),
        kept(list.push(Transport::Uring), true) == kept(list, true).push(Transport::Uring),
        kept(list.push(Transport::Uring), false) == kept(list, false),
{
    reveal(Seq::filter);
    assert(list.push(Transport::Dev).drop_last() =~= list);
    assert(list.push(Transport::Uring).drop_last() =~= list);
}

/// The CPU list is what follows the last colon and space, and nothing else.
pub proof fn affinity_follows_the_last_colon(
    before: Seq<char>,
    cpus: Seq<char>,
    list: Option<Seq<char>>,
)
    requires
        before.len() > 0 && !text::white_space(before[0]),
        cpus.len() > 0 && !text::white_space(cpus.last()),
        forall|i: int| 0 <= i < cpus.len() ==> #[trigger] cpus[i] != ':',
        affinity_is(before + ": "@ + cpus, list),
    ensures
        list == Some(cpus),
{
    reveal_strlit(": ");
    let colon = ": "@;
    let s = before + colon + cpus;
    let none = Seq::<char>::empty();
    assert(none + s + none =~= s);
    assert(s[0] == before[0]);
    assert(s.last() == cpus.last());
    text::trimming_cuts_white_space_alone(none, s, none);
    let n = before.len() as int;
    text::text_contains_its_parts(before, colon, cpus, 0);
    assert(text::matches_at(s, n, colon));
    assert forall|j: int| n < j implies !text::matches_at(s, j, colon) by {
        if text::matches_at(s, j, colon) {
            assert(s.subrange(j, j + 2)[0] == ':');
            assert(s[j] == ':');
            if j > n + 1 {
                assert(s[j] == cpus[j - n - 2]);
            }
        }
    }
    assert(text::last_at(s, n, colon));
    assert(s.skip(n + 2) =~= cpus);
    if let Some(found) = list {
        let k = choose|k: int| #[trigger] text::last_at(s, k, colon) && found == s.skip(k + 2);
        text::first_and_last_place_are_bounds(s, colon, k, n);
        text::first_and_last_place_are_bounds(s, colon, n, k);
    }
}

/// A size is labelled with the whole units it has: of 1024 bytes below 1024 of them, of 1024 times
/// that from there on.
pub proof fn size_is_labelled_in_whole_units(bytes: u64, n: nat)
    ensures
        bytes < 1048576 && n * 1024 <= bytes < (n + 1) * 1024 ==> size_label_of(bytes)
            == text::decimal(n) + "k"@,
        bytes >= 1048576 && n * 1048576 <= bytes < (n + 1) * 1048576 ==> size_label_of(bytes)
            == text::decimal(n) + "M"@,
{
}

/// The blocks that a loop reads are those of the span, by the multiples of one odd number.
pub proof fn offsets_stay_in_the_span(i: u64, size: u64)
    requires
        0 < size <= 0x4000_0000,
    ensures
        ({
            let blocks = 0x4000_0000u64 / size;
            let block = scattered(i, blocks);
            &&& 0 <= block < blocks
            &&& block * size + size <= 0x4000_0000
            &&& i <= 0x1_0000_0000 ==> block == (i * 2_654_435_761) % (blocks as int)
        }),
{
    let blocks = 0x4000_0000u64 / size;
    let block = scattered(i, blocks);
    assert(blocks >= 1 && blocks * size <= 0x4000_0000) by (nonlinear_arith)
        requires
            0 < size <= 0x4000_0000,
            blocks == 0x4000_0000u64 / size,
    ;
    vstd::arithmetic::div_mod::lemma_mod_bound(
        (i * SCATTER) % 0x1_0000_0000_0000_0000,
        blocks as int,
    );
    assert(block * size + size <= blocks * size) by (nonlinear_arith)
        requires
            block < blocks,
    ;
}

/// A value is set flush right in 28 characters behind two spaces, a name flush left in 26 on a line
/// of its own; what is wider takes the room it needs.
pub proof fn cells_have_their_width(s: Seq<char>)
    ensures
        ({
            let value = value_cell(s);
            let name = name_cell(s);
            &&& s.len() <= 28 ==> value.len() == 30
            &&& s.len() > 28 ==> value.len() == s.len() + 2
            &&& text::ends_with(value, s)
            &&& forall|i: int| 0 <= i < value.len() - s.len() ==> #[trigger] value[i] == ' '
            &&& s.len() <= 26 ==> name.len() == 27
            &&& s.len() > 26 ==> name.len() == s.len() + 1
            &&& name[0] == '\n'
            &&& name.subrange(1, 1int + s.len()) == s
            &&& forall|i: int| 1 + s.len() <= i < name.len() ==> #[trigger] name[i] == ' '
        }),
{
    reveal_strlit("  ");
    reveal_strlit("\n");
    let value = value_cell(s);
    let name = name_cell(s);
    assert(value.subrange(value.len() - s.len(), value.len() as int) =~= s);
    assert(name.subrange(1, 1int + s.len()) =~= s);
}

/// The columns of a row line up, and every result stands in the cell of its transport.
pub proof fn results_stand_in_their_cells(
    workload: Workload,
    results: Seq<Vec<String>>,
    i: int,
    n: nat,
    t: int,
)
    requires
        workload.spec_name().len() <= 26,
        forall|k: int| 0 <= k < n ==> (#[trigger] results[k])@[i]@.len() <= 28,
    ensures
        row(workload, results, i, n).len() == 27 + 30 * n,
        row(workload, results, i, n).subrange(1, 1int + workload.spec_name().len())
            == workload.spec_name(),
        0 <= t < n ==> row(workload, results, i, n).subrange(27 + 30 * t, 57 + 30 * t)
            == value_cell(results[t]@[i]@),
    decreases n,
{
    cells_have_their_width(workload.spec_name());
    let whole = row(workload, results, i, n);
    let name = workload.spec_name();
    if n > 0 {
        let rest = row(workload, results, i, (n - 1) as nat);
        results_stand_in_their_cells(workload, results, i, (n - 1) as nat, t);
        cells_have_their_width(results[n - 1]@[i]@);
        assert(whole.subrange(1, 1int + name.len()) =~= rest.subrange(1, 1int + name.len()));
        if 0 <= t < n - 1 {
            assert(whole.subrange(27 + 30 * t, 57 + 30 * t) =~= rest.subrange(
                27 + 30 * t,
                57 + 30 * t,
            ));
        } else if t == n - 1 {
            assert(whole.subrange(27 + 30 * t, 57 + 30 * t) =~= value_cell(results[t]@[i]@));
        }
    }
}

/// The names of the transports stand over their results.
pub proof fn names_stand_over_their_columns(transports: Seq<Transport>, t: int)
    ensures
        heading(transports).len() == 27 + 30 * transports.len(),
        heading(transports).subrange(1, 9) == "workload"@,
        0 <= t < transports.len() ==> heading(transports).subrange(27 + 30 * t, 57 + 30 * t)
            == value_cell(
            match transports[t] {
                Transport::Dev => "/dev/fuse"@,
                Transport::Uring => "io_uring"@,
            },
        ),
    decreases transports.len(),
{
    reveal_strlit("workload");
    reveal_strlit("/dev/fuse");
    reveal_strlit("io_uring");
    cells_have_their_width("workload"@);
    let whole = heading(transports);
    let n = transports.len();
    if n > 0 {
        let rest = heading(transports.drop_last());
        names_stand_over_their_columns(transports.drop_last(), t);
        cells_have_their_width(transports.last().spec_name());
        assert(whole.subrange(1, 9) =~= rest.subrange(1, 9));
        if 0 <= t < n - 1 {
            assert(whole.subrange(27 + 30 * t, 57 + 30 * t) =~= rest.subrange(
                27 + 30 * t,
                57 + 30 * t,
            ));
        } else if t == n - 1 {
            assert(whole.subrange(27 + 30 * t, 57 + 30 * t) =~= value_cell(
                transports[t].spec_name(),
            ));
        }
    }
}

/// The rows follow each other in the order of the workloads, each with the results of its own.
pub proof fn rows_follow_the_workloads(
    workloads: Seq<Workload>,
    results: Seq<Vec<String>>,
    n: nat,
)
    ensures
        rows(workloads, results, 0).len() == 0,
        rows(workloads, results, n + 1) == rows(workloads, results, n) + row(
            workloads[n as int],
            results,
            n as int,
            results.len(),
        ),
{
}

/// Without a colon there is no CPU list.
pub proof fn affinity_needs_a_colon(output: Seq<char>, list: Option<Seq<char>>)
    requires
        forall|i: int| 0 <= i < output.len() ==> #[trigger] output[i] != ':',
        affinity_is(output, list),
    ensures
        list is None,
{
    reveal_strlit(": ");
    let s = text::trim_end(text::trim_start(output));
    let (a, b) = text::trimmed_text_stands_inside(output);
    if let Some(cpus) = list {
        let k = choose|k: int| #[trigger] text::last_at(s, k, ": "@) && cpus == s.skip(k + 2);
        assert(s.subrange(k, k + 2)[0] == ':');
        assert(s[k] == output[a + k]);
    }
}

/// The name of a workload tells its direction, its size and its threads.
pub proof fn name_tells_the_workload(block: u64, size: usize, threads: usize, iters: u64)
    ensures
        (Workload::Dd { block, write: false }).spec_name() == "read "@ + size_label_of(block),
        (Workload::Dd { block, write: true }).spec_name() == "write "@ + size_label_of(block),
        text::ends_with(
            (Workload::Stat { threads, iters }).spec_name(),
            "x"@ + text::decimal(threads as nat),
        ),
        text::ends_with(
            (Workload::Pread { size, threads, iters }).spec_name(),
            " x"@ + text::decimal(threads as nat),
        ),
        text::matches_at(
            (Workload::Pread { size, threads, iters }).spec_name(),
            0,
            "pread "@ + size_label_of(size as u64),
        ),
{
    reveal_strlit("stat (lookup+getattr) x");
    reveal_strlit("stat (lookup+getattr) ");
    reveal_strlit("x");
    let n = text::decimal(threads as nat);
    assert("stat (lookup+getattr) x"@ =~= "stat (lookup+getattr) "@ + "x"@);
    text::lemma_ends_with("stat (lookup+getattr) "@, "x"@, n);
    let front = "pread "@ + size_label_of(size as u64);
    text::lemma_ends_with(front, " x"@, n);
    let name = (Workload::Pread { size, threads, iters }).spec_name();
    assert(name.subrange(0, front.len() as int) =~= front);
}

} // verus!
