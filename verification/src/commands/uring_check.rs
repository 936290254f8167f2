//! Which transport served a mount, as its log tells.

use crate::text;
use vstd::prelude::*;
use vstd::string::*;

verus! {

/// Whether the fuse module has FUSE-over-io_uring enabled.
pub const ENABLE_URING: &'static str = "/sys/module/fuse/parameters/enable_uring";

pub const QUEUE_DEPTH: &'static str = "2";

/// Logged by the session when it stays on `/dev/fuse` although `--io-uring` was set.
pub const FALLBACK: &'static str = "; using /dev/fuse";

/// The fallback reason when the kernel has FUSE-over-io_uring disabled or predates it.
pub const NOT_ADVERTISED: &'static str = "did not advertise FUSE_OVER_IO_URING";

/// The fallback reason when the container runtime answers the io_uring syscalls with EPERM.
pub const SETUP_REFUSED_EPERM: &'static str = "io_uring_setup failed (Operation not permitted";

/// The fallback reason when the container runtime answers the io_uring syscalls with ENOSYS.
pub const SETUP_REFUSED_ENOSYS: &'static str = "io_uring_setup failed (Function not implemented";

/// Suffix of the request debug lines dispatched by a ring thread.
pub const RING_THREAD: &'static str = "thread=fuser-ring-";

/// In the log line about the rings that were set up.
pub const DEPTH_LINE: &'static str = ", depth 2,";

/// Whether a mount of the `hello` example served its file whole.
pub fn content_is_expected(content: &str) -> (r: bool)
    ensures
        r == (content@ == "Hello World!\n"@),
{
    let chars: Vec<char> = text::chars_of(content);
    let expected: Vec<char> = text::chars_of("Hello World!\n");
    if chars.len() != expected.len() {
        return false;
    }
    assert(chars@.subrange(0, chars@.len() as int) =~= chars@);
    text::is_at(&chars, 0, chars.len(), 0, &expected)
}

/// Whether the parameter file says yes.
pub open spec fn says_yes(value: Seq<char>) -> bool {
    text::trim_end(text::trim_start(value)) == "Y"@
}

/// Whether the content of `ENABLE_URING` says that the fuse module has FUSE-over-io_uring
/// enabled.
pub fn uring_enabled(value: &str) -> (r: bool)
    ensures
        r == says_yes(value@),
{
    let chars: Vec<char> = text::chars_of(value);
    let (from, to): (usize, usize) = text::trimmed(&chars);
    proof {
        reveal_strlit("Y");
    }
    let ghost s = chars@.subrange(from as int, to as int);
    if to - from == 1 && chars[from] == 'Y' {
        assert(s =~= "Y"@);
        true
    } else {
        assert(s =~= "Y"@ ==> s[0] == 'Y' && s.len() == 1);
        false
    }
}

/// What follows the first space of `s`, up to the next one.
pub open spec fn second_word_is(s: Seq<char>, word: Seq<char>) -> bool {
    let a = text::find(s, ' ') as int;
    let t = s.skip(a + 1);
    a < s.len() && t.take(text::find(t, ' ') as int) == word
}

/// Whether a line says that a ring's queues are registered:
/// `io_uring: ring <index> registered <count> entries`.
pub open spec fn ring_ready(line: Seq<char>) -> bool {
    exists|k: int|
        {
            let rest = line.skip(k + "io_uring: ring "@.len());
            &&& #[trigger] text::first_at(line, k, "io_uring: ring "@)
            &&& second_word_is(rest, "registered"@)
            &&& text::ends_with(rest, " entries"@)
        }
}

fn is_ring_ready_in(chars: &Vec<char>, from: usize, to: usize) -> (r: bool)
    requires
        from <= to <= chars@.len(),
    ensures
        r == ring_ready(chars@.subrange(from as int, to as int)),
{
    let needle: Vec<char> = text::chars_of("io_uring: ring ");
    let word: Vec<char> = text::chars_of("registered");
    let suffix: Vec<char> = text::chars_of(" entries");
    let ghost line = chars@.subrange(from as int, to as int);
    let k: usize = match text::find_str_in(chars, from, to, &needle) {
        Some(k) => k,
        None => {
            proof {
                assert forall|j: int| !text::first_at(line, j, "io_uring: ring "@) by {
                    assert(!text::matches_at(line, j, "io_uring: ring "@));
                }
            }
            return false;
        },
    };
    let start: usize = k + needle.len();
    let ghost rest = line.skip(k - from + needle@.len());
    proof {
        assert(rest =~= chars@.subrange(start as int, to as int));
        // The first place is the only one to look at
        assert forall|j: int| text::first_at(line, j, "io_uring: ring "@) implies j == k - from by {
            if j < k - from {
                assert(!text::matches_at(line, j, needle@));
            } else if j > k - from {
                assert(text::matches_at(line, k - from, needle@));
            }
        }
    }
    let a: usize = text::find_in(chars, start, to, ' ');
    if a == to {
        return false;
    }
    let b: usize = text::find_in(chars, a + 1, to, ' ');
    let ghost t = rest.skip(a - start + 1);
    proof {
        assert(t =~= chars@.subrange(a + 1, to as int));
        assert(t.take(b - a - 1) =~= chars@.subrange(a + 1, b as int));
    }
    let is_word: bool = b - (a + 1) == word.len() && text::is_at(chars, a + 1, b, a + 1, &word);
    proof {
        let w = chars@.subrange(a + 1, b as int);
        if is_word {
            assert(w.subrange(0, word@.len() as int) =~= w);
        }
        if w == word@ {
            assert(w.subrange(0, word@.len() as int) =~= w);
        }
        assert(is_word == (w == word@));
    }
    if !is_word || to - start < suffix.len() {
        return false;
    }
    text::is_at(chars, start, to, to - suffix.len(), &suffix)
}

/// Logged by the session once a ring's queues are registered with the kernel:
/// `io_uring: ring <index> registered <count> entries`, the line the shell tests grep for too.
pub fn is_ring_ready(line: &str) -> (r: bool)
    ensures
        r == ring_ready(line@),
{
    let chars: Vec<char> = text::chars_of(line);
    assert(chars@.subrange(0, chars@.len() as int) =~= line@);
    is_ring_ready_in(&chars, 0, chars.len())
}

/// Whether a line was logged for a request that a ring thread dispatched.
pub open spec fn ring_dispatched(line: Seq<char>) -> bool {
    text::contains(line, RING_THREAD@)
}

/// Whether a line was logged for a read that a ring thread dispatched.
pub open spec fn ring_read(line: Seq<char>) -> bool {
    text::contains(line, " READ "@) && text::contains(line, RING_THREAD@)
}

/// Whether a line says that the session fell back to `/dev/fuse`.
pub open spec fn fell_back(line: Seq<char>) -> bool {
    text::contains(line, FALLBACK@)
}

/// Whether the log of a session says that it fell back to `/dev/fuse`, which a measurement of the
/// rings must not.
pub fn has_fallback(log: &str) -> (r: bool)
    ensures
        r == text::contains(log@, FALLBACK@),
{
    let chars: Vec<char> = text::chars_of(log);
    let needle: Vec<char> = text::chars_of(FALLBACK);
    assert(chars@.subrange(0, chars@.len() as int) =~= log@);
    text::contains_in(&chars, 0, chars.len(), &needle)
}

/// Whether the reason for a fallback is the expected one: with FUSE-over-io_uring enabled only a
/// refused `io_uring_setup`, else that the kernel did not advertise it.
pub open spec fn expected_reason(enable_uring: bool, line: Seq<char>) -> bool {
    if enable_uring {
        text::contains(line, SETUP_REFUSED_EPERM@) || text::contains(line, SETUP_REFUSED_ENOSYS@)
    } else {
        text::contains(line, NOT_ADVERTISED@)
    }
}

/// Which transport served the read.
#[derive(Debug, Clone, Copy, PartialEq, Eq)]
pub enum Verdict<'a> {
    /// The rings, set up with the requested depth.
    IoUring,
    /// The rings, but not with the requested depth.
    WrongDepth,
    /// `/dev/fuse`, for this expected reason.
    DevFuse(&'a str),
    /// Neither as it should be.
    Unexpected { ring_ready: bool, fallback: Option<&'a str>, ring_dispatch: bool, ring_read: bool },
}

/// Whether some line says that a ring is registered.
pub open spec fn any_ready(lines: Seq<Seq<char>>) -> bool {
    exists|i: int| 0 <= i < lines.len() && ring_ready(#[trigger] lines[i])
}

/// Whether some line is about a request that a ring thread dispatched.
pub open spec fn any_dispatched(lines: Seq<Seq<char>>) -> bool {
    exists|i: int| 0 <= i < lines.len() && ring_dispatched(#[trigger] lines[i])
}

/// Whether some line is about a read that a ring thread dispatched.
pub open spec fn any_read(lines: Seq<Seq<char>>) -> bool {
    exists|i: int| 0 <= i < lines.len() && ring_read(#[trigger] lines[i])
}

/// The first line that says the session fell back.
pub open spec fn first_fallback(lines: Seq<Seq<char>>) -> Option<Seq<char>>
    decreases lines.len(),
{
    if lines.len() == 0 {
        None
    } else {
        match first_fallback(lines.drop_last()) {
            Some(line) => Some(line),
            None => if fell_back(lines.last()) {
                Some(lines.last())
            } else {
                None
            },
        }
    }
}

/// What the lines of a log tell.
pub struct LogView {
    pub ring_ready: bool,
    pub ring_dispatch: bool,
    pub ring_read: bool,
    pub depth: bool,
    pub fallback: Option<Seq<char>>,
}

pub open spec fn log_view(log: Seq<char>) -> LogView {
    let lines = text::lines_of(log);
    LogView {
        ring_ready: any_ready(lines),
        ring_dispatch: any_dispatched(lines),
        ring_read: any_read(lines),
        depth: text::contains(log, DEPTH_LINE@),
        fallback: first_fallback(lines),
    }
}

/// Whether `verdict` is the one on a log.
pub open spec fn verdict_is(verdict: Verdict, enable_uring: bool, log: LogView) -> bool {
    if log.ring_ready && log.fallback is None && enable_uring && log.ring_read {
        if log.depth {
            verdict is IoUring
        } else {
            verdict is WrongDepth
        }
    } else if !log.ring_ready && log.fallback is Some && !log.ring_dispatch && expected_reason(
        enable_uring,
        log.fallback->0,
    ) {
        verdict matches Verdict::DevFuse(reason) && reason@ == log.fallback->0
    } else {
        verdict matches Verdict::Unexpected { ring_ready, fallback, ring_dispatch, ring_read }
            && ring_ready == log.ring_ready && ring_dispatch == log.ring_dispatch && ring_read
            == log.ring_read && match (fallback, log.fallback) {
            (Some(a), Some(b)) => a@ == b,
            (None, None) => true,
            _ => false,
        }
    }
}

/// What one more line adds.
proof fn lemma_one_more_line(before: Seq<Seq<char>>, line: Seq<char>)
    ensures
        ({
            let after = before.push(line);
            &&& any_ready(after) == (any_ready(before) || ring_ready(line))
            &&& any_dispatched(after) == (any_dispatched(before) || ring_dispatched(line))
            &&& any_read(after) == (any_read(before) || ring_read(line))
            &&& after.drop_last() == before
        }),
{
    let after = before.push(line);
    assert(after.drop_last() =~= before);
    assert(after[before.len() as int] == line);
    assert forall|k: int| 0 <= k < before.len() implies after[k] == before[k] by {}
    if any_ready(before) {
        let k = choose|k: int| 0 <= k < before.len() && ring_ready(#[trigger] before[k]);
        assert(ring_ready(after[k]));
    }
    if any_dispatched(before) {
        let k = choose|k: int| 0 <= k < before.len() && ring_dispatched(#[trigger] before[k]);
        assert(ring_dispatched(after[k]));
    }
    if any_read(before) {
        let k = choose|k: int| 0 <= k < before.len() && ring_read(#[trigger] before[k]);
        assert(ring_read(after[k]));
    }
    if any_ready(after) && !ring_ready(line) {
        let k = choose|k: int| 0 <= k < after.len() && ring_ready(#[trigger] after[k]);
        assert(ring_ready(before[k]));
    }
    if any_dispatched(after) && !ring_dispatched(line) {
        let k = choose|k: int| 0 <= k < after.len() && ring_dispatched(#[trigger] after[k]);
        assert(ring_dispatched(before[k]));
    }
    if any_read(after) && !ring_read(line) {
        let k = choose|k: int| 0 <= k < after.len() && ring_read(#[trigger] after[k]);
        assert(ring_read(before[k]));
    }
}

/// Checks which transport served a read on a mount that asked for io_uring, from its log: with
/// FUSE-over-io_uring enabled the rings must serve it unless `io_uring_setup` was refused
/// (container seccomp profiles); otherwise the session must have fallen back because the kernel
/// did not advertise the flag.
pub fn transport_verdict<'a>(enable_uring: bool, log: &'a str) -> (r: Verdict<'a>)
    ensures
        verdict_is(r, enable_uring, log_view(log@)),
{
    let chars: Vec<char> = text::chars_of(log);
    let lines: Vec<(usize, usize)> = text::lines_in(&chars);
    let thread: Vec<char> = text::chars_of(RING_THREAD);
    let read: Vec<char> = text::chars_of(" READ ");
    let fallback_text: Vec<char> = text::chars_of(FALLBACK);
    let mut ring_ready: bool = false;
    let mut ring_dispatch: bool = false;
    let mut ring_read: bool = false;
    let mut fallback: Option<(usize, usize)> = None;
    let ghost all = text::lines_of(log@);
    let mut i: usize = 0;
    while i < lines.len()
        invariant
            chars@ == log@,
            all == text::lines_of(log@),
            thread@ == RING_THREAD@,
            read@ == " READ "@,
            fallback_text@ == FALLBACK@,
            i <= lines@.len() == all.len(),
            forall|k: int|
                0 <= k < lines@.len() ==> (#[trigger] lines@[k]).0 <= lines@[k].1 <= chars@.len()
                    && chars@.subrange(lines@[k].0 as int, lines@[k].1 as int) == all[k],
            ring_ready == any_ready(all.take(i as int)),
            ring_dispatch == any_dispatched(all.take(i as int)),
            ring_read == any_read(all.take(i as int)),
            match fallback {
                Some((a, b)) => a <= b <= chars@.len() && first_fallback(all.take(i as int))
                    == Some(chars@.subrange(a as int, b as int)),
                None => first_fallback(all.take(i as int)) is None,
            },
        decreases lines@.len() - i,
    {
        let (a, b): (usize, usize) = lines[i];
        let ghost before = all.take(i as int);
        let ghost after = all.take(i + 1);
        let is_ready: bool = is_ring_ready_in(&chars, a, b);
        let on_ring: bool = text::contains_in(&chars, a, b, &thread);
        let is_read: bool = on_ring && text::contains_in(&chars, a, b, &read);
        let is_fallback: bool = text::contains_in(&chars, a, b, &fallback_text);
        proof {
            lemma_one_more_line(before, all[i as int]);
            assert(after =~= before.push(all[i as int]));
        }
        ring_ready = ring_ready || is_ready;
        ring_dispatch = ring_dispatch || on_ring;
        ring_read = ring_read || is_read;
        if fallback.is_none() && is_fallback {
            fallback = Some((a, b));
        }
        i = i + 1;
    }
    assert(all.take(all.len() as int) =~= all);
    let reason: Option<&'a str> = match fallback {
        Some((a, b)) => Some(log.substring_char(a, b)),
        None => None,
    };
    if ring_ready && fallback.is_none() && enable_uring && ring_read {
        let depth: Vec<char> = text::chars_of(DEPTH_LINE);
        assert(chars@.subrange(0, chars@.len() as int) =~= log@);
        if text::contains_in(&chars, 0, chars.len(), &depth) {
            return Verdict::IoUring;
        }
        return Verdict::WrongDepth;
    }
    if let Some((a, b)) = fallback {
        if !ring_ready && !ring_dispatch && is_expected_in(&chars, a, b, enable_uring) {
            return Verdict::DevFuse(log.substring_char(a, b));
        }
    }
    Verdict::Unexpected { ring_ready, fallback: reason, ring_dispatch, ring_read }
}

fn is_expected_in(chars: &Vec<char>, from: usize, to: usize, enable_uring: bool) -> (r: bool)
    requires
        from <= to <= chars@.len(),
    ensures
        r == expected_reason(enable_uring, chars@.subrange(from as int, to as int)),
{
    if enable_uring {
        let eperm: Vec<char> = text::chars_of(SETUP_REFUSED_EPERM);
        let enosys: Vec<char> = text::chars_of(SETUP_REFUSED_ENOSYS);
        text::contains_in(chars, from, to, &eperm) || text::contains_in(chars, from, to, &enosys)
    } else {
        let reason: Vec<char> = text::chars_of(NOT_ADVERTISED);
        text::contains_in(chars, from, to, &reason)
    }
}

/// The parameter says yes with a `Y` and any white space round it.
pub proof fn y_says_yes(before: Seq<char>, after: Seq<char>)
    requires
        forall|i: int| 0 <= i < before.len() ==> text::white_space(#[trigger] before[i]),
        forall|i: int| 0 <= i < after.len() ==> text::white_space(#[trigger] after[i]),
    ensures
        says_yes(before + seq!['Y'] + after),
{
    reveal_strlit("Y");
    assert("Y"@ =~= seq!['Y']);
    text::trimming_cuts_white_space_alone(before, seq!['Y'], after);
}

/// What says yes holds a `Y`, once, and nothing else but white space.
pub proof fn only_y_says_yes(value: Seq<char>) -> (k: int)
    requires
        says_yes(value),
    ensures
        0 <= k < value.len(),
        value[k] == 'Y',
        forall|i: int| 0 <= i < value.len() && i != k ==> text::white_space(#[trigger] value[i]),
{
    reveal_strlit("Y");
    let (a, b) = text::trimmed_text_stands_inside(value);
    let t = value.subrange(a, b);
    assert(t.len() == 1);
    assert(t[0] == 'Y');
    assert(value[a] == t[0]);
    a
}

/// The line about a ring's registered entries is noticed, whatever stands before it in the log, the
/// index of the ring and the count.
pub proof fn registered_ring_is_noticed(before: Seq<char>, index: nat, count: Seq<char>)
    requires
        text::first_at(
            before + "io_uring: ring "@ + (text::decimal(index) + " registered "@ + count
                + " entries"@),
            before.len() as int,
            "io_uring: ring "@,
        ),
    ensures
        ring_ready(
            before + "io_uring: ring "@ + (text::decimal(index) + " registered "@ + count
                + " entries"@),
        ),
{
    let needle = "io_uring: ring "@;
    let id = text::decimal(index);
    let rest = id + " registered "@ + count + " entries"@;
    let line = before + needle + rest;
    reveal_strlit(" registered ");
    reveal_strlit("registered");
    let word = "registered"@;
    let tail = count + " entries"@;
    assert(" registered "@ =~= seq![' '] + word + seq![' ']);
    assert(line.skip((before.len() + needle.len()) as int) =~= rest);
    let t = word + seq![' '] + tail;
    assert(rest =~= id + seq![' '] + t);
    text::decimal_is_made_of_figures(index);
    text::first_character_is_found(id, ' ', t);
    assert(rest.skip(id.len() + 1int) =~= t);
    assert forall|j: int| 0 <= j < word.len() implies #[trigger] word[j] != ' ' by {}
    text::first_character_is_found(word, ' ', tail);
    assert(t.take(word.len() as int) =~= word);
    assert(second_word_is(rest, word));
    text::lemma_ends_with(id + " registered "@ + count, Seq::empty(), " entries"@);
    assert(Seq::<char>::empty() + " entries"@ =~= " entries"@);
    assert(id + " registered "@ + count + Seq::<char>::empty() + " entries"@ =~= rest);
    assert(text::ends_with(rest, " entries"@));
}

/// A line that is noticed as a registered ring says so.
pub proof fn noticed_ring_says_so(line: Seq<char>)
    requires
        ring_ready(line),
    ensures
        text::contains(line, "io_uring: ring "@),
        text::contains(line, " registered"@),
        text::ends_with(line, " entries"@),
{
    let needle = "io_uring: ring "@;
    let k = choose|k: int|
        {
            let rest = line.skip(k + needle.len());
            &&& #[trigger] text::first_at(line, k, needle)
            &&& second_word_is(rest, "registered"@)
            &&& text::ends_with(rest, " entries"@)
        };
    assert(text::matches_at(line, k, needle));
    let from = k + needle.len() as int;
    let rest = line.skip(from);
    let a = text::find(rest, ' ') as int;
    text::found_character_is_the_first(rest, ' ');
    let t = rest.skip(a + 1);
    text::found_character_is_the_first(t, ' ');
    let b = text::find(t, ' ') as int;
    reveal_strlit("registered");
    reveal_strlit(" registered");
    assert(t.take(b).len() == 10);
    assert forall|j: int| 0 <= j < 10 implies "registered"@[j] == #[trigger] line[from + a + 1 + j] by {
        assert(t.take(b)[j] == line[from + a + 1 + j]);
    }
    let here = line.subrange(from + a, from + a + 11);
    assert(here[0] == rest[a]);
    assert forall|j: int| 0 <= j < 11 implies #[trigger] here[j] == " registered"@[j] by {
        if j > 0 {
            assert("registered"@[j - 1] == line[from + a + 1 + (j - 1)]);
            assert(" registered"@[j] == "registered"@[j - 1]);
        }
    }
    assert(here =~= " registered"@);
    assert(text::matches_at(line, from + a, " registered"@));
    let n = " entries"@.len() as int;
    assert(line.subrange(line.len() - n, line.len() as int) =~= rest.subrange(
        rest.len() - n,
        rest.len() as int,
    ));
}

/// The first line about a fallback is the one that is told, and none is told where there is none.
pub proof fn told_fallback_is_the_first(lines: Seq<Seq<char>>) -> (k: int)
    ensures
        0 <= k <= lines.len(),
        forall|j: int| 0 <= j < k ==> !text::contains(#[trigger] lines[j], "; using /dev/fuse"@),
        k < lines.len() ==> text::contains(lines[k], "; using /dev/fuse"@),
        k < lines.len() ==> first_fallback(lines) == Some(lines[k]),
        k == lines.len() ==> first_fallback(lines) is None,
    decreases lines.len(),
{
    if lines.len() == 0 {
        0
    } else {
        let rest = lines.drop_last();
        let k = told_fallback_is_the_first(rest);
        assert forall|j: int| 0 <= j < k implies !text::contains(
            #[trigger] lines[j],
            "; using /dev/fuse"@,
        ) by {
            assert(rest[j] == lines[j]);
        }
        if k == rest.len() && !fell_back(lines.last()) {
            k + 1
        } else {
            k
        }
    }
}

/// What a log tells stands in one of its lines, word for word.
pub proof fn log_tells_what_a_line_says(log: Seq<char>)
    ensures
        ({
            let lines = text::lines_of(log);
            let told = log_view(log);
            &&& told.ring_dispatch <==> exists|i: int|
                0 <= i < lines.len() && text::contains(#[trigger] lines[i], "thread=fuser-ring-"@)
            &&& told.ring_read <==> exists|i: int|
                0 <= i < lines.len() && text::contains(#[trigger] lines[i], "thread=fuser-ring-"@)
                    && text::contains(lines[i], " READ "@)
            &&& told.ring_ready <==> exists|i: int|
                0 <= i < lines.len() && ring_ready(#[trigger] lines[i])
            &&& told.depth <==> text::contains(log, ", depth 2,"@)
            &&& told.ring_read ==> told.ring_dispatch
            &&& told.fallback == first_fallback(lines)
        }),
{
    let lines = text::lines_of(log);
    if any_dispatched(lines) {
        let i = choose|i: int| 0 <= i < lines.len() && ring_dispatched(#[trigger] lines[i]);
        assert(text::contains(lines[i], "thread=fuser-ring-"@));
    }
    if exists|i: int|
        0 <= i < lines.len() && text::contains(#[trigger] lines[i], "thread=fuser-ring-"@) {
        let i = choose|i: int|
            0 <= i < lines.len() && text::contains(#[trigger] lines[i], "thread=fuser-ring-"@);
        assert(ring_dispatched(lines[i]));
    }
    if any_read(lines) {
        let i = choose|i: int| 0 <= i < lines.len() && ring_read(#[trigger] lines[i]);
        assert(ring_dispatched(lines[i]));
        assert(text::contains(lines[i], "thread=fuser-ring-"@));
    }
    if exists|i: int|
        0 <= i < lines.len() && text::contains(#[trigger] lines[i], "thread=fuser-ring-"@)
            && text::contains(lines[i], " READ "@) {
        let i = choose|i: int|
            0 <= i < lines.len() && text::contains(#[trigger] lines[i], "thread=fuser-ring-"@)
                && text::contains(lines[i], " READ "@);
        assert(ring_read(lines[i]));
    }
}

/// The verdict tells the transport: the rings where one is registered, served a read and nothing
/// fell back although they were enabled, with the depth that was asked for or another; `/dev/fuse`
/// where the session fell back for an expected reason and no ring was in use; and else all that was
/// seen.
pub proof fn verdict_tells_the_transport(v: Verdict, enabled: bool, log: LogView)
    requires
        verdict_is(v, enabled, log),
    ensures
        ({
            let rings = enabled && log.ring_ready && log.ring_read && log.fallback is None;
            let dev = !log.ring_ready && !log.ring_dispatch && (log.fallback matches Some(line) && (
            if enabled {
                text::contains(line, "io_uring_setup failed (Operation not permitted"@)
                    || text::contains(line, "io_uring_setup failed (Function not implemented"@)
            } else {
                text::contains(line, "did not advertise FUSE_OVER_IO_URING"@)
            }));
            &&& v is IoUring <==> rings && log.depth
            &&& v is WrongDepth <==> rings && !log.depth
            &&& v is DevFuse <==> dev
            &&& v is Unexpected <==> !rings && !dev
            &&& v matches Verdict::DevFuse(reason) ==> Some(reason@) == log.fallback
            &&& v matches Verdict::Unexpected { ring_ready, fallback, ring_dispatch, ring_read } ==> {
                &&& ring_ready == log.ring_ready
                &&& ring_dispatch == log.ring_dispatch
                &&& ring_read == log.ring_read
                &&& fallback is Some <==> log.fallback is Some
                &&& fallback matches Some(line) ==> Some(line@) == log.fallback
            }
        }),
{
}

} // verus!
