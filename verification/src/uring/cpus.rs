//! How many queues the kernel expects: one per possible CPU, from the CPU list in sysfs.

use crate::error::ErrorKind;
use crate::text;
use vstd::prelude::*;
use vstd::string::*;

verus! {

/// The kernel's `cpu_possible_mask`, which is the number of queues `REGISTER` must populate
/// before the connection becomes ready.
pub const POSSIBLE_CPUS: &'static str = "/sys/devices/system/cpu/possible";

/// The value of a string of decimal digits.
pub open spec fn digits(s: Seq<char>) -> Option<nat>
    decreases s.len(),
{
    if s.len() == 0 {
        Some(0)
    } else {
        let d = s.last() as u32;
        match digits(s.drop_last()) {
            Some(n) if 0x30 <= d <= 0x39 => Some(10 * n + (d - 0x30) as nat),
            _ => None,
        }
    }
}

/// The `usize` that a string spells: decimal digits, at least one, after an optional plus sign.
pub open spec fn number(s: Seq<char>) -> Option<nat> {
    let d = if s.len() > 0 && s[0] == '+' {
        s.skip(1)
    } else {
        s
    };
    match digits(d) {
        Some(n) if d.len() > 0 && n <= usize::MAX => Some(n),
        _ => None,
    }
}

/// The CPUs in `lo-hi` or in a single number.
pub open spec fn range_size(s: Seq<char>) -> Option<nat> {
    let k = text::find(s, '-') as int;
    let (lo, hi) = if k < s.len() {
        (s.take(k), s.skip(k + 1))
    } else {
        (s, s)
    };
    match (number(lo), number(hi)) {
        (Some(a), Some(b)) if a <= b => Some((b - a + 1) as nat),
        _ => None,
    }
}

/// The CPUs in ranges that are separated by commas.
pub open spec fn list_size(s: Seq<char>) -> Option<nat>
    decreases s.len(),
{
    let k = text::find(s, ',') as int;
    if k < s.len() {
        match (range_size(s.take(k)), list_size(s.skip(k + 1))) {
            (Some(a), Some(b)) => Some(a + b),
            _ => None,
        }
    } else {
        range_size(s)
    }
}

/// The CPUs in a sysfs CPU list; `None` when it is not one, or lists more than a `usize` counts.
pub open spec fn cpus_in(text: Seq<char>) -> Option<usize> {
    match list_size(text::trim_end(text::trim_start(text))) {
        Some(n) if n <= usize::MAX => Some(n as usize),
        _ => None,
    }
}

/// Why the possible CPU count is unknown.
#[derive(Debug, Clone, Copy, PartialEq, Eq, Structural)]
pub enum CpuListError {
    /// The text is not a CPU list.
    Parse,
    /// The list holds fewer CPUs than are present, so the file is not what it should be.
    BelowPresent { count: usize, present: usize },
    /// The list holds more CPUs than queue ids.
    TooMany { count: usize },
}

/// The text of a string as `{:?}` shows it.
pub uninterp spec fn debug_str(s: Seq<char>) -> Seq<char>;

/// `format!("{:?}", s)`: the string in quotes, with what is not printable escaped. The escapes
/// are not spelled out.
#[verifier::external_body]
fn format_debug(s: &str) -> (r: String)
    ensures
        r@ == debug_str(s@),
{
    format!("{:?}", s)
}

impl CpuListError {
    pub fn kind(&self) -> (r: ErrorKind)
        ensures
            r == ErrorKind::InvalidData,
    {
        ErrorKind::InvalidData
    }

    /// The message about the list `text`; `quoted` is `text` as `{:?}` shows it.
    pub open spec fn describes(self, quoted: Seq<char>) -> Seq<char> {
        match self {
            CpuListError::Parse => "cannot parse CPU list "@ + quoted,
            CpuListError::BelowPresent { count, present } => POSSIBLE_CPUS@ + " lists "@
                + text::decimal(count as nat) + " CPUs but "@ + text::decimal(present as nat)
                + " are present"@,
            CpuListError::TooMany { count } => text::decimal(count as nat)
                + " possible CPUs exceed the 16-bit queue id"@,
        }
    }

    /// The message about a list, given as `{:?}` shows it.
    pub fn message_with(&self, quoted: &str) -> (r: String)
        ensures
            r@ == self.describes(quoted@),
    {
        let mut out = String::new();
        match *self {
            CpuListError::Parse => {
                out.append("cannot parse CPU list ");
                out.append(quoted);
            },
            CpuListError::BelowPresent { count, present } => {
                out.append(POSSIBLE_CPUS);
                out.append(" lists ");
                text::append_decimal(&mut out, count as u64);
                out.append(" CPUs but ");
                text::append_decimal(&mut out, present as u64);
                out.append(" are present");
            },
            CpuListError::TooMany { count } => {
                text::append_decimal(&mut out, count as u64);
                out.append(" possible CPUs exceed the 16-bit queue id");
            },
        }
        assert(out@ =~= self.describes(quoted@));
        out
    }

    /// The message about the list `list`.
    pub fn message(&self, list: &str) -> (r: String)
        ensures
            r@ == self.describes(debug_str(list@)),
    {
        let quoted = format_debug(list);
        self.message_with(quoted.as_str())
    }
}

proof fn lemma_digits_prefix(s: Seq<char>, k: int)
    requires
        0 <= k <= s.len(),
    ensures
        digits(s.take(k)) is None ==> digits(s) is None,
        digits(s) matches Some(n) ==> digits(s.take(k))->0 <= n,
    decreases s.len() - k,
{
    if k < s.len() {
        lemma_digits_prefix(s, k + 1);
        assert(s.take(k + 1).drop_last() =~= s.take(k));
    } else {
        assert(s.take(k) =~= s);
    }
}

/// The number that `chars[from..to]` spells.
fn number_in(chars: &Vec<char>, from: usize, to: usize) -> (r: Option<usize>)
    requires
        from <= to <= chars@.len(),
    ensures
        match r {
            Some(n) => number(chars@.subrange(from as int, to as int)) == Some(n as nat),
            None => number(chars@.subrange(from as int, to as int)) is None,
        },
{
    let ghost s = chars@.subrange(from as int, to as int);
    let start: usize = if from < to && chars[from] == '+' {
        from + 1
    } else {
        from
    };
    let ghost d = chars@.subrange(start as int, to as int);
    proof {
        if start > from {
            assert(s[0] == '+');
            assert(s.skip(1) =~= d);
        } else if from < to {
            assert(s[0] == chars@[from as int]);
        }
    }
    if start == to {
        return None;
    }
    let mut n: usize = 0;
    let mut i: usize = start;
    assert(d.take(0) =~= Seq::empty());
    while i < to
        invariant
            start <= i <= to <= chars@.len(),
            d == chars@.subrange(start as int, to as int),
            start < to,
            s == chars@.subrange(from as int, to as int),
            number(s) == (match digits(d) {
                Some(n) if n <= usize::MAX => Some(n),
                _ => None,
            }),
            digits(d.take(i - start)) == Some(n as nat),
        decreases to - i,
    {
        let c: u32 = chars[i] as u32;
        proof {
            assert(d.take(i + 1 - start).drop_last() =~= d.take(i - start));
            assert(d.take(i + 1 - start).last() == chars@[i as int]);
            lemma_digits_prefix(d, i + 1 - start);
        }
        if c < 0x30 || c > 0x39 {
            return None;
        }
        let ten: usize = match n.checked_mul(10) {
            Some(ten) => ten,
            None => return None,
        };
        n = match ten.checked_add((c - 0x30) as usize) {
            Some(n) => n,
            None => return None,
        };
        i = i + 1;
    }
    assert(d.take(to - start) =~= d);
    Some(n)
}

/// The CPUs in the range that `chars[from..to]` spells.
fn range_in(chars: &Vec<char>, from: usize, to: usize) -> (r: Option<usize>)
    requires
        from <= to <= chars@.len(),
    ensures
        match r {
            Some(n) => range_size(chars@.subrange(from as int, to as int)) == Some(n as nat),
            None => range_size(chars@.subrange(from as int, to as int)) matches Some(n) ==> n
                > usize::MAX,
        },
{
    let ghost s = chars@.subrange(from as int, to as int);
    let dash: usize = text::find_in(chars, from, to, '-');
    let (lo, hi): (Option<usize>, Option<usize>) = if dash < to {
        proof {
            assert(s.take(dash - from) =~= chars@.subrange(from as int, dash as int));
            assert(s.skip(dash - from + 1) =~= chars@.subrange(dash + 1, to as int));
        }
        (number_in(chars, from, dash), number_in(chars, dash + 1, to))
    } else {
        (number_in(chars, from, to), number_in(chars, from, to))
    };
    match (lo, hi) {
        (Some(lo), Some(hi)) => {
            if hi < lo {
                None
            } else {
                (hi - lo).checked_add(1)
            }
        },
        _ => None,
    }
}

/// `a` more than `b`, when there is a `b`.
spec fn plus(a: nat, b: Option<nat>) -> Option<nat> {
    match b {
        Some(b) => Some(a + b),
        None => None,
    }
}

/// `list_size`, one range at a time.
proof fn lemma_list_size(s: Seq<char>, k: int)
    requires
        k == text::find(s, ','),
    ensures
        k < s.len() ==> list_size(s) == (match range_size(s.take(k)) {
            Some(a) => plus(a, list_size(s.skip(k + 1))),
            None => None,
        }),
        k == s.len() ==> list_size(s) == range_size(s),
{
}

/// The CPUs in the list that `chars[start..to]` spells.
fn list_in(chars: &Vec<char>, start: usize, to: usize) -> (r: Option<usize>)
    requires
        start <= to <= chars@.len(),
    ensures
        match r {
            Some(n) => list_size(chars@.subrange(start as int, to as int)) == Some(n as nat) && n
                > 0,
            None => list_size(chars@.subrange(start as int, to as int)) matches Some(n) ==> n
                > usize::MAX,
        },
{
    let ghost whole = list_size(chars@.subrange(start as int, to as int));
    let mut from: usize = start;
    let mut count: usize = 0;
    loop
        invariant
            from <= to <= chars@.len(),
            whole == list_size(chars@.subrange(start as int, to as int)),
            whole == plus(count as nat, list_size(chars@.subrange(from as int, to as int))),
        decreases to - from,
    {
        let ghost s = chars@.subrange(from as int, to as int);
        let comma: usize = text::find_in(chars, from, to, ',');
        proof {
            lemma_list_size(s, comma - from);
            assert(s.take(comma - from) =~= chars@.subrange(from as int, comma as int));
        }
        let size: usize = match range_in(chars, from, comma) {
            Some(size) => size,
            None => return None,
        };
        let sum: Option<usize> = count.checked_add(size);
        if comma == to {
            return sum;
        }
        assert(s.skip(comma - from + 1) =~= chars@.subrange(comma + 1, to as int));
        count = match sum {
            Some(count) => count,
            None => return None,
        };
        from = comma + 1;
    }
}

/// Counts the CPUs in a sysfs CPU list such as `0-3,8-11`.
pub fn possible_cpus_parse(text: &str) -> (r: Result<usize, CpuListError>)
    ensures
        match r {
            Ok(n) => cpus_in(text@) == Some(n) && n > 0,
            Err(e) => cpus_in(text@) is None && e == CpuListError::Parse,
        },
{
    let chars: Vec<char> = text::chars_of(text);
    let (start, to): (usize, usize) = text::trimmed(&chars);
    let whole: Option<usize> = list_in(&chars, start, to);
    match whole {
        Some(count) => Ok(count),
        None => Err(CpuListError::Parse),
    }
}

/// Number of queues for a list of CPUs, or why it is unknown.
pub open spec fn queue_count(text: Seq<char>, present: usize) -> Result<u16, CpuListError> {
    match cpus_in(text) {
        None => Err(CpuListError::Parse),
        Some(count) => if count < present {
            Err(CpuListError::BelowPresent { count, present })
        } else if count > u16::MAX {
            Err(CpuListError::TooMany { count })
        } else {
            Ok(count as u16)
        },
    }
}

/// Number of queues the kernel expects, from the text of `POSSIBLE_CPUS` and the number of
/// present CPUs.
///
/// The present count can be less than the possible one; registering that many queues would
/// leave every request on the mount blocked. So only the list counts, and a count below the
/// present one means the file is not what this expects.
pub fn possible_cpus(text: &str, present: usize) -> (r: Result<u16, CpuListError>)
    ensures
        r == queue_count(text@, present),
{
    let count: usize = match possible_cpus_parse(text) {
        Ok(count) => count,
        Err(err) => return Err(err),
    };
    if count < present {
        return Err(CpuListError::BelowPresent { count, present });
    }
    if count > u16::MAX as usize {
        return Err(CpuListError::TooMany { count });
    }
    Ok(count as u16)
}

/// Digits are read from the first to the last: each one makes the number ten times as large and adds
/// its own value, and anything else makes it no number.
pub proof fn digits_are_read_in_order(s: Seq<char>, c: char, d: nat)
    requires
        d < 10,
    ensures
        digits(Seq::<char>::empty()) == Some(0nat),
        digits(s) matches Some(n) ==> digits(s.push(text::figures()[d as int])) == Some(10 * n + d),
        digits(s) is None ==> digits(s.push(c)) is None,
        c < '0' || '9' < c ==> digits(s.push(c)) is None,
{
    assert(s.push(text::figures()[d as int]).drop_last() =~= s);
    assert(s.push(c).drop_last() =~= s);
}

/// A decimal number is read as what it spells, with a plus sign or without, unless a `usize` cannot
/// hold it.
pub proof fn decimal_is_read_back(n: nat)
    ensures
        digits(text::decimal(n)) == Some(n),
        n <= usize::MAX ==> number(text::decimal(n)) == Some(n),
        n <= usize::MAX ==> number(seq!['+'] + text::decimal(n)) == Some(n),
        n > usize::MAX ==> number(text::decimal(n)) is None,
    decreases n,
{
    text::decimal_is_made_of_figures(n);
    if n >= 10 {
        decimal_is_read_back(n / 10);
        digits_are_read_in_order(text::decimal(n / 10), '0', n % 10);
        text::decimal_is_positional(n / 10, n % 10);
        assert(10 * (n / 10) + n % 10 == n);
    } else {
        digits_are_read_in_order(Seq::<char>::empty(), '0', n);
        text::decimal_is_positional(0, n);
        assert(Seq::<char>::empty().push(text::figures()[n as int]) =~= text::decimal(n));
    }
    assert((seq!['+'] + text::decimal(n)).skip(1) =~= text::decimal(n));
    assert(text::decimal(n)[0] != '+');
}

proof fn lemma_figure(c: char)
    requires
        0x30 <= c as u32 <= 0x39,
    ensures
        '0' <= c && c <= '9',
{
}

proof fn lemma_digits_only(s: Seq<char>, i: int)
    requires
        digits(s) is Some,
        0 <= i < s.len(),
    ensures
        '0' <= s[i] && s[i] <= '9',
    decreases s.len(),
{
    if i < s.len() - 1 {
        lemma_digits_only(s.drop_last(), i);
        assert(s.drop_last()[i] == s[i]);
    } else {
        assert(s.last() == s[i]);
        lemma_figure(s[i]);
    }
}

/// What is read as a number has a digit, and nothing but digits behind an optional plus sign.
pub proof fn number_is_made_of_digits(s: Seq<char>, i: int)
    requires
        number(s) is Some,
        0 <= i < s.len(),
    ensures
        '0' <= s[i] && s[i] <= '9' || i == 0 && s[0] == '+' && s.len() > 1,
        number(s)->0 <= usize::MAX,
        s.len() > 0,
{
    if s[0] == '+' {
        if i > 0 {
            lemma_digits_only(s.skip(1), i - 1);
        }
    } else {
        lemma_digits_only(s, i);
    }
}

/// Nothing is no number, nor is a plus sign alone.
pub proof fn number_has_a_digit()
    ensures
        number(Seq::<char>::empty()) is None,
        number(seq!['+']) is None,
{
    assert(seq!['+'].skip(1).len() == 0);
}

/// A range counts its ends and what is between them; one that runs backwards, or whose ends are no
/// numbers, counts nothing. A single number counts one.
pub proof fn range_counts_both_ends(lo: Seq<char>, hi: Seq<char>)
    requires
        forall|j: int| 0 <= j < lo.len() ==> #[trigger] lo[j] != '-',
    ensures
        range_size(lo + seq!['-'] + hi) == (match (number(lo), number(hi)) {
            (Some(a), Some(b)) => if b >= a {
                Some((b - a + 1) as nat)
            } else {
                None
            },
            _ => None,
        }),
        number(lo) is Some ==> range_size(lo) == Some(1nat),
        number(lo) is None ==> range_size(lo) is None,
{
    text::first_character_is_found(lo, '-', hi);
    let s = lo + seq!['-'] + hi;
    let k = lo.len() as int;
    assert(s.take(k) =~= lo);
    assert(s.skip(k + 1) =~= hi);
}

/// A list counts what its first range and the rest of it count, together.
pub proof fn list_counts_every_range(range: Seq<char>, rest: Seq<char>)
    requires
        forall|j: int| 0 <= j < range.len() ==> #[trigger] range[j] != ',',
    ensures
        list_size(range + seq![','] + rest) == (match (range_size(range), list_size(rest)) {
            (Some(a), Some(b)) => Some(a + b),
            _ => None,
        }),
        list_size(range) == range_size(range),
{
    text::first_character_is_found(range, ',', rest);
    let s = range + seq![','] + rest;
    let k = range.len() as int;
    assert(s.take(k) =~= range);
    assert(s.skip(k + 1) =~= rest);
}

/// The CPUs from `a` to `b` in a list, with white space round it, are `b - a + 1`.
pub proof fn list_of_one_range_is_counted(before: Seq<char>, a: usize, b: usize, after: Seq<char>)
    requires
        a <= b,
        b - a < usize::MAX,
        forall|i: int| 0 <= i < before.len() ==> text::white_space(#[trigger] before[i]),
        forall|i: int| 0 <= i < after.len() ==> text::white_space(#[trigger] after[i]),
    ensures
        cpus_in(
            before + (text::decimal(a as nat) + seq!['-'] + text::decimal(b as nat)) + after,
        ) == Some((b - a + 1) as usize),
        cpus_in(before + text::decimal(a as nat) + after) == Some(1usize),
{
    let lo = text::decimal(a as nat);
    let hi = text::decimal(b as nat);
    let range = lo + seq!['-'] + hi;
    text::decimal_is_made_of_figures(a as nat);
    text::decimal_is_made_of_figures(b as nat);
    decimal_is_read_back(a as nat);
    decimal_is_read_back(b as nat);
    range_counts_both_ends(lo, hi);
    assert forall|j: int| 0 <= j < range.len() implies #[trigger] range[j] != ',' by {
        if j < lo.len() {
            assert(range[j] == lo[j]);
        } else if j > lo.len() {
            assert(range[j] == hi[j - lo.len() - 1]);
        }
    }
    assert(range[0] == lo[0]);
    assert(range.last() == hi.last());
    list_counts_every_range(range, Seq::empty());
    list_counts_every_range(lo, Seq::empty());
    text::trimming_cuts_white_space_alone(before, range, after);
    text::trimming_cuts_white_space_alone(before, lo, after);
}

/// The kernel's number of queues is the number of CPUs in the list, where that is not below the
/// present ones and a queue id can tell them apart.
pub proof fn queues_are_the_listed_cpus(text: Seq<char>, present: usize, n: usize)
    ensures
        ({
            let r = queue_count(text, present);
            &&& cpus_in(text) is None <==> r == Err::<u16, CpuListError>(CpuListError::Parse)
            &&& cpus_in(text) matches Some(count) ==> {
                &&& r is Ok <==> present <= count <= 65535
                &&& r is Ok ==> r->Ok_0 == count
                &&& count < present <==> r == Err::<u16, CpuListError>(
                    CpuListError::BelowPresent { count, present },
                )
                &&& present <= count && count > 65535 <==> r == Err::<u16, CpuListError>(
                    CpuListError::TooMany { count },
                )
            }
            &&& cpus_in(text) == Some(n) <==> list_size(text::trim_end(text::trim_start(text)))
                == Some(n as nat)
        }),
{
}

} // verus!
