//! Decimal numbers and string building for names and messages, and searching in text.

use vstd::prelude::*;
use vstd::string::*;

verus! {

/// The character of the decimal digit `d`.
pub open spec fn digit(d: nat) -> char {
    (0x30 + d) as char
}

/// `n` in decimal, without leading zeros.
pub open spec fn decimal(n: nat) -> Seq<char>
    decreases n,
{
    if n < 10 {
        seq![digit(n)]
    } else {
        decimal(n / 10).push(digit(n % 10))
    }
}

/// `n` in decimal, with a minus sign when it is negative.
pub open spec fn signed_decimal(n: int) -> Seq<char> {
    if n < 0 {
        seq!['-'] + decimal((-n) as nat)
    } else {
        decimal(n as nat)
    }
}

/// The digit `d` as a string.
fn digit_str(d: u64) -> (r: &'static str)
    requires
        d < 10,
    ensures
        r@ == seq![digit(d as nat)],
{
    proof {
        reveal_strlit("0");
        reveal_strlit("1");
        reveal_strlit("2");
        reveal_strlit("3");
        reveal_strlit("4");
        reveal_strlit("5");
        reveal_strlit("6");
        reveal_strlit("7");
        reveal_strlit("8");
        reveal_strlit("9");
    }
    let r: &'static str = match d {
        0 => "0",
        1 => "1",
        2 => "2",
        3 => "3",
        4 => "4",
        5 => "5",
        6 => "6",
        7 => "7",
        8 => "8",
        _ => "9",
    };
    assert(r@ =~= seq![digit(d as nat)]);
    r
}

/// Appends `n` in decimal.
pub fn append_decimal(out: &mut String, n: u64)
    ensures
        final(out)@ == old(out)@ + decimal(n as nat),
    decreases n,
{
    if n < 10 {
        out.append(digit_str(n));
    } else {
        append_decimal(out, n / 10);
        out.append(digit_str(n % 10));
        assert(out@ =~= old(out)@ + decimal(n as nat));
    }
}

/// Appends `n` in decimal, with its sign.
pub fn append_signed(out: &mut String, n: i32)
    ensures
        final(out)@ == old(out)@ + signed_decimal(n as int),
{
    if n < 0 {
        proof {
            reveal_strlit("-");
            assert("-"@ =~= seq!['-']);
        }
        out.append("-");
        append_decimal(out, (-(n as i64)) as u64);
        assert(out@ =~= old(out)@ + signed_decimal(n as int));
    } else {
        append_decimal(out, n as u64);
    }
}

/// `prefix` followed by `n` in decimal.
pub fn numbered(prefix: &str, n: u64) -> (r: String)
    ensures
        r@ == prefix@ + decimal(n as nat),
{
    let mut out = String::from_str(prefix);
    append_decimal(&mut out, n);
    out
}

/// Unicode's `White_Space` property.
pub open spec fn white_space(c: char) -> bool {
    let x = c as u32;
    ||| 0x9 <= x <= 0xd
    ||| x == 0x20
    ||| x == 0x85
    ||| x == 0xa0
    ||| x == 0x1680
    ||| 0x2000 <= x <= 0x200a
    ||| x == 0x2028
    ||| x == 0x2029
    ||| x == 0x202f
    ||| x == 0x205f
    ||| x == 0x3000
}

/// `s` without leading white space.
pub open spec fn trim_start(s: Seq<char>) -> Seq<char>
    decreases s.len(),
{
    if s.len() > 0 && white_space(s[0]) {
        trim_start(s.skip(1))
    } else {
        s
    }
}

/// `s` without trailing white space.
pub open spec fn trim_end(s: Seq<char>) -> Seq<char>
    decreases s.len(),
{
    if s.len() > 0 && white_space(s.last()) {
        trim_end(s.drop_last())
    } else {
        s
    }
}

/// The first position of `c` in `s`, or the length of `s`.
pub open spec fn find(s: Seq<char>, c: char) -> nat
    decreases s.len(),
{
    if s.len() == 0 || s[0] == c {
        0
    } else {
        1 + find(s.skip(1), c)
    }
}

/// Whether `c` is white space.
pub fn is_white_space(c: char) -> (r: bool)
    ensures
        r == white_space(c),
{
    let x: u32 = c as u32;
    (0x9 <= x && x <= 0xd) || x == 0x20 || x == 0x85 || x == 0xa0 || x == 0x1680 || (0x2000 <= x && x
        <= 0x200a) || x == 0x2028 || x == 0x2029 || x == 0x202f || x == 0x205f || x == 0x3000
}

/// The characters of `s`.
pub fn chars_of(s: &str) -> (r: Vec<char>)
    ensures
        r@ == s@,
{
    let mut out: Vec<char> = Vec::new();
    for c in it: s.chars()
        invariant
            it.seq() == s@,
            out@ == s@.take(it.index() as int),
    {
        out.push(c);
        assert(out@ =~= s@.take(it.index() + 1));
    }
    assert(out@ =~= s@);
    out
}

/// The end of `chars[from..to]`, or the first position of `c` in it.
pub fn find_in(chars: &Vec<char>, from: usize, to: usize, c: char) -> (r: usize)
    requires
        from <= to <= chars@.len(),
    ensures
        from <= r <= to,
        r == from + find(chars@.subrange(from as int, to as int), c),
{
    let ghost s = chars@.subrange(from as int, to as int);
    let mut i: usize = from;
    assert(s.skip(0) =~= s);
    while i < to && chars[i] != c
        invariant
            from <= i <= to <= chars@.len(),
            s == chars@.subrange(from as int, to as int),
            find(s, c) == (i - from) + find(s.skip(i - from), c),
        decreases to - i,
    {
        assert(s.skip(i - from)[0] == chars@[i as int]);
        assert(s.skip(i - from).skip(1) =~= s.skip(i + 1 - from));
        i = i + 1;
    }
    proof {
        if i < to {
            assert(s.skip(i - from)[0] == chars@[i as int]);
        }
    }
    i
}

/// The bounds of `chars` without the white space at both ends.
pub fn trimmed(chars: &Vec<char>) -> (r: (usize, usize))
    ensures
        r.0 <= r.1 <= chars@.len(),
        chars@.subrange(r.0 as int, r.1 as int) == trim_end(trim_start(chars@)),
{
    let n: usize = chars.len();
    let mut a: usize = 0;
    assert(chars@.skip(0) =~= chars@);
    while a < n && is_white_space(chars[a])
        invariant
            a <= n == chars@.len(),
            trim_start(chars@) == trim_start(chars@.skip(a as int)),
        decreases n - a,
    {
        assert(chars@.skip(a as int)[0] == chars@[a as int]);
        assert(chars@.skip(a as int).skip(1) =~= chars@.skip(a + 1));
        a = a + 1;
    }
    proof {
        if a < n {
            assert(chars@.skip(a as int)[0] == chars@[a as int]);
        }
    }
    assert(trim_start(chars@) == chars@.skip(a as int));
    let mut b: usize = n;
    assert(chars@.skip(a as int) =~= chars@.subrange(a as int, n as int));
    while b > a && is_white_space(chars[b - 1])
        invariant
            a <= b <= n == chars@.len(),
            trim_end(trim_start(chars@)) == trim_end(chars@.subrange(a as int, b as int)),
        decreases b,
    {
        let ghost s = chars@.subrange(a as int, b as int);
        assert(s.last() == chars@[b - 1]);
        assert(s.drop_last() =~= chars@.subrange(a as int, b - 1));
        b = b - 1;
    }
    proof {
        if b > a {
            assert(chars@.subrange(a as int, b as int).last() == chars@[b - 1]);
        }
    }
    (a, b)
}

/// Whether `needle` stands in `s` at position `k`.
pub open spec fn matches_at(s: Seq<char>, k: int, needle: Seq<char>) -> bool {
    &&& 0 <= k
    &&& k + needle.len() <= s.len()
    &&& s.subrange(k, k + needle.len()) == needle
}

/// Whether `needle` stands in `s`.
pub open spec fn contains(s: Seq<char>, needle: Seq<char>) -> bool {
    exists|k: int| matches_at(s, k, needle)
}

/// Whether `k` is the first place where `needle` stands in `s`.
pub open spec fn first_at(s: Seq<char>, k: int, needle: Seq<char>) -> bool {
    &&& matches_at(s, k, needle)
    &&& forall|j: int| 0 <= j < k ==> !matches_at(s, j, needle)
}

/// Whether `k` is the last place where `needle` stands in `s`.
pub open spec fn last_at(s: Seq<char>, k: int, needle: Seq<char>) -> bool {
    &&& matches_at(s, k, needle)
    &&& forall|j: int| k < j ==> !matches_at(s, j, needle)
}

/// Whether `s` ends with `suffix`.
pub open spec fn ends_with(s: Seq<char>, suffix: Seq<char>) -> bool {
    matches_at(s, s.len() - suffix.len(), suffix)
}

/// `line` without a carriage return at its end.
pub open spec fn strip_cr(line: Seq<char>) -> Seq<char> {
    if line.len() > 0 && line.last() == '\r' {
        line.drop_last()
    } else {
        line
    }
}

/// The lines of `s`: what stands before each line feed, without a carriage return before it, and
/// what is left after the last one.
pub open spec fn lines_of(s: Seq<char>) -> Seq<Seq<char>>
    decreases s.len(),
{
    if s.len() == 0 {
        Seq::empty()
    } else {
        let k = find(s, '\n') as int;
        if k < s.len() {
            seq![strip_cr(s.take(k))] + lines_of(s.skip(k + 1))
        } else {
            seq![s]
        }
    }
}

/// Whether `needle` stands in `chars[from..to]` at position `k` of `chars`.
pub fn is_at(chars: &Vec<char>, from: usize, to: usize, k: usize, needle: &Vec<char>) -> (r: bool)
    requires
        from <= k <= to <= chars@.len(),
    ensures
        r == matches_at(chars@.subrange(from as int, to as int), k - from, needle@),
{
    let ghost s = chars@.subrange(from as int, to as int);
    if needle.len() > to - k {
        return false;
    }
    let mut i: usize = 0;
    while i < needle.len()
        invariant
            from <= k <= to <= chars@.len(),
            needle@.len() <= to - k,
            i <= needle@.len(),
            s == chars@.subrange(from as int, to as int),
            forall|j: int| 0 <= j < i ==> (#[trigger] needle@[j]) == chars@[k + j],
        decreases needle@.len() - i,
    {
        if chars[k + i] != needle[i] {
            proof {
                let here = s.subrange(k - from, k - from + needle@.len());
                assert(here[i as int] == chars@[k + i]);
            }
            return false;
        }
        i = i + 1;
    }
    assert(s.subrange(k - from, k - from + needle@.len()) =~= needle@);
    true
}

/// The first position in `chars[from..to]` where `needle` stands.
pub fn find_str_in(chars: &Vec<char>, from: usize, to: usize, needle: &Vec<char>) -> (r: Option<
    usize,
>)
    requires
        from <= to <= chars@.len(),
    ensures
        match r {
            Some(k) => from <= k <= to && first_at(
                chars@.subrange(from as int, to as int),
                k - from,
                needle@,
            ),
            None => !contains(chars@.subrange(from as int, to as int), needle@),
        },
{
    let ghost s = chars@.subrange(from as int, to as int);
    let mut k: usize = from;
    loop
        invariant
            from <= k <= to <= chars@.len(),
            s == chars@.subrange(from as int, to as int),
            forall|j: int| 0 <= j < k - from ==> !matches_at(s, j, needle@),
        decreases to - k,
    {
        if is_at(chars, from, to, k, needle) {
            return Some(k);
        }
        if k == to {
            assert forall|j: int| !matches_at(s, j, needle@) by {
                if j == to - from {
                    assert(!matches_at(s, j, needle@));
                }
            }
            return None;
        }
        k = k + 1;
    }
}

/// The last position in `chars[from..to]` where `needle` stands.
pub fn rfind_str_in(chars: &Vec<char>, from: usize, to: usize, needle: &Vec<char>) -> (r: Option<
    usize,
>)
    requires
        from <= to <= chars@.len(),
    ensures
        match r {
            Some(k) => from <= k <= to && last_at(
                chars@.subrange(from as int, to as int),
                k - from,
                needle@,
            ),
            None => !contains(chars@.subrange(from as int, to as int), needle@),
        },
{
    let ghost s = chars@.subrange(from as int, to as int);
    let mut k: usize = to;
    loop
        invariant
            from <= k <= to <= chars@.len(),
            s == chars@.subrange(from as int, to as int),
            forall|j: int| k - from < j ==> !matches_at(s, j, needle@),
        decreases k,
    {
        if is_at(chars, from, to, k, needle) {
            return Some(k);
        }
        if k == from {
            assert forall|j: int| !matches_at(s, j, needle@) by {
                if j == 0 {
                    assert(!matches_at(s, j, needle@));
                }
            }
            return None;
        }
        k = k - 1;
    }
}

/// Whether `needle` stands in `chars[from..to]`.
pub fn contains_in(chars: &Vec<char>, from: usize, to: usize, needle: &Vec<char>) -> (r: bool)
    requires
        from <= to <= chars@.len(),
    ensures
        r == contains(chars@.subrange(from as int, to as int), needle@),
{
    find_str_in(chars, from, to, needle).is_some()
}

/// Where the lines of `chars` start and end.
pub fn lines_in(chars: &Vec<char>) -> (r: Vec<(usize, usize)>)
    ensures
        r@.len() == lines_of(chars@).len(),
        forall|i: int|
            0 <= i < r@.len() ==> (#[trigger] r@[i]).0 <= r@[i].1 <= chars@.len()
                && chars@.subrange(r@[i].0 as int, r@[i].1 as int) == lines_of(chars@)[i],
{
    let n: usize = chars.len();
    let mut lines: Vec<(usize, usize)> = Vec::new();
    let mut from: usize = 0;
    let ghost all = lines_of(chars@);
    assert(chars@.skip(0) =~= chars@);
    while from < n
        invariant
            from <= n == chars@.len(),
            all == lines_of(chars@),
            lines@.len() + lines_of(chars@.skip(from as int)).len() == all.len(),
            forall|i: int|
                0 <= i < lines_of(chars@.skip(from as int)).len() ==> all[lines@.len() + i]
                    == #[trigger] lines_of(chars@.skip(from as int))[i],
            forall|i: int|
                0 <= i < lines@.len() ==> (#[trigger] lines@[i]).0 <= lines@[i].1 <= n
                    && chars@.subrange(lines@[i].0 as int, lines@[i].1 as int) == all[i],
        decreases n - from,
    {
        let ghost s = chars@.skip(from as int);
        let ghost before = lines@.len();
        let end: usize = find_in(chars, from, n, '\n');
        assert(chars@.subrange(from as int, n as int) =~= s);
        if end == n {
            proof {
                assert(lines_of(s) =~= seq![s]);
                assert(all[before as int] == lines_of(s)[0]);
            }
            lines.push((from, n));
            from = n;
            assert(lines_of(chars@.skip(from as int)) =~= Seq::empty());
        } else {
            let stop: usize = if end > from && chars[end - 1] == '\r' {
                end - 1
            } else {
                end
            };
            proof {
                let line = s.take(end - from);
                assert(line =~= chars@.subrange(from as int, end as int));
                if end > from {
                    assert(line.last() == chars@[end - 1]);
                }
                assert(strip_cr(line) =~= chars@.subrange(from as int, stop as int));
                assert(s.skip(end - from + 1) =~= chars@.skip(end + 1));
                let rest = lines_of(chars@.skip(end + 1));
                assert(lines_of(s) =~= seq![strip_cr(line)] + rest);
                assert(all[before as int] == lines_of(s)[0]);
                assert forall|i: int| 0 <= i < rest.len() implies all[before + 1 + i]
                    == #[trigger] rest[i] by {
                    assert(lines_of(s)[i + 1] == rest[i]);
                }
            }
            lines.push((from, stop));
            from = end + 1;
        }
    }
    assert(lines_of(chars@.skip(from as int)) =~= Seq::empty());
    lines
}

/// The texts of strings.
pub open spec fn texts(v: Seq<String>) -> Seq<Seq<char>> {
    v.map_values(|s: String| s@)
}

/// `prefix` followed by `rest`.
pub fn joined(prefix: &str, rest: &str) -> (r: String)
    ensures
        r@ == prefix@ + rest@,
{
    let mut out = String::from_str(prefix);
    out.append(rest);
    out
}

/// `n` spaces.
pub open spec fn spaces(n: nat) -> Seq<char> {
    Seq::new(n, |i: int| ' ')
}

/// What is missing of `width` characters.
pub open spec fn missing(s: Seq<char>, width: nat) -> nat {
    if s.len() < width {
        (width - s.len()) as nat
    } else {
        0
    }
}

fn append_spaces(out: &mut String, s: &str, width: usize)
    ensures
        final(out)@ == old(out)@ + spaces(missing(s@, width as nat)),
{
    let mut n: usize = s.unicode_len();
    let ghost len = n;
    assert(spaces(0) =~= Seq::empty());
    while n < width
        invariant
            s@.len() == len,
            len <= n,
            n <= width || n == len,
            out@ == old(out)@ + spaces((n - len) as nat),
        decreases width - n,
    {
        proof {
            reveal_strlit(" ");
            assert(spaces((n - len) as nat) + " "@ =~= spaces((n + 1 - len) as nat));
            assert(old(out)@ + spaces((n - len) as nat) + " "@ =~= old(out)@ + (spaces(
                (n - len) as nat,
            ) + " "@));
        }
        out.append(" ");
        n = n + 1;
    }
}

/// Appends `s`, filled up with spaces behind it to `width` characters.
pub fn append_left_aligned(out: &mut String, s: &str, width: usize)
    ensures
        final(out)@ == old(out)@ + (s@ + spaces(missing(s@, width as nat))),
{
    out.append(s);
    append_spaces(out, s, width);
    assert(out@ =~= old(out)@ + (s@ + spaces(missing(s@, width as nat))));
}

/// Appends `s`, filled up with spaces before it to `width` characters.
pub fn append_right_aligned(out: &mut String, s: &str, width: usize)
    ensures
        final(out)@ == old(out)@ + (spaces(missing(s@, width as nat)) + s@),
{
    append_spaces(out, s, width);
    out.append(s);
    assert(out@ =~= old(out)@ + (spaces(missing(s@, width as nat)) + s@));
}

/// The figures of decimal numbers.
pub open spec fn figures() -> Seq<char> {
    seq!['0', '1', '2', '3', '4', '5', '6', '7', '8', '9']
}

/// Decimal numbers are positional: a figure stands for itself, and one more figure behind a number
/// makes it ten times as large and adds the figure. Zero is one figure, and no other number begins
/// with it.
pub proof fn decimal_is_positional(n: nat, d: nat)
    requires
        d < 10,
    ensures
        decimal(d) == seq![figures()[d as int]],
        n > 0 ==> decimal(10 * n + d) == decimal(n).push(figures()[d as int]),
        signed_decimal(n as int) == decimal(n),
        n > 0 ==> signed_decimal(-n) == seq!['-'] + decimal(n),
{
    assert(digit(d) == figures()[d as int]);
    if n > 0 {
        assert((10 * n + d) / 10 == n && (10 * n + d) % 10 == d);
    }
}

/// A decimal number has at least one character and nothing but figures.
pub proof fn decimal_is_made_of_figures(n: nat)
    ensures
        decimal(n).len() > 0,
        forall|i: int|
            0 <= i < decimal(n).len() ==> '0' <= #[trigger] decimal(n)[i] && decimal(n)[i] <= '9',
        n > 0 ==> decimal(n)[0] != '0',
    decreases n,
{
    if n >= 10 {
        decimal_is_made_of_figures(n / 10);
    }
}

/// White space is the characters of Unicode's list, and no others.
pub proof fn white_space_is_listed(c: char)
    ensures
        white_space(c) <==> seq![
            '\t',
            '\n',
            '\u{b}',
            '\u{c}',
            '\r',
            ' ',
            '\u{85}',
            '\u{a0}',
            '\u{1680}',
            '\u{2000}',
            '\u{2001}',
            '\u{2002}',
            '\u{2003}',
            '\u{2004}',
            '\u{2005}',
            '\u{2006}',
            '\u{2007}',
            '\u{2008}',
            '\u{2009}',
            '\u{200a}',
            '\u{2028}',
            '\u{2029}',
            '\u{202f}',
            '\u{205f}',
            '\u{3000}',
        ].contains(c),
{
    let list = seq![
        '\t',
        '\n',
        '\u{b}',
        '\u{c}',
        '\r',
        ' ',
        '\u{85}',
        '\u{a0}',
        '\u{1680}',
        '\u{2000}',
        '\u{2001}',
        '\u{2002}',
        '\u{2003}',
        '\u{2004}',
        '\u{2005}',
        '\u{2006}',
        '\u{2007}',
        '\u{2008}',
        '\u{2009}',
        '\u{200a}',
        '\u{2028}',
        '\u{2029}',
        '\u{202f}',
        '\u{205f}',
        '\u{3000}',
    ];
    if white_space(c) {
        let x = c as u32;
        let i: int = if x <= 0xd {
            x - 9
        } else if x == 0x20 {
            5
        } else if x == 0x85 {
            6
        } else if x == 0xa0 {
            7
        } else if x == 0x1680 {
            8
        } else if x <= 0x200a {
            x - 0x2000 + 9
        } else if x == 0x2028 {
            20
        } else if x == 0x2029 {
            21
        } else if x == 0x202f {
            22
        } else if x == 0x205f {
            23
        } else {
            24
        };
        assert(list[i] == c);
    }
}

proof fn lemma_trim_start(a: Seq<char>, s: Seq<char>)
    requires
        forall|i: int| 0 <= i < a.len() ==> white_space(#[trigger] a[i]),
        s.len() > 0 ==> !white_space(s[0]),
    ensures
        trim_start(a + s) == s,
    decreases a.len(),
{
    if a.len() > 0 {
        assert((a + s)[0] == a[0]);
        assert((a + s).skip(1) =~= a.skip(1) + s);
        lemma_trim_start(a.skip(1), s);
    } else {
        assert(a + s =~= s);
    }
}

proof fn lemma_trim_end(s: Seq<char>, b: Seq<char>)
    requires
        forall|i: int| 0 <= i < b.len() ==> white_space(#[trigger] b[i]),
        s.len() > 0 ==> !white_space(s.last()),
    ensures
        trim_end(s + b) == s,
    decreases b.len(),
{
    if b.len() > 0 {
        assert((s + b).last() == b.last());
        assert((s + b).drop_last() =~= s + b.drop_last());
        lemma_trim_end(s, b.drop_last());
    } else {
        assert(s + b =~= s);
    }
}

/// White space round a text that neither begins nor ends with it is cut off, and nothing else is.
pub proof fn trimming_cuts_white_space_alone(a: Seq<char>, s: Seq<char>, b: Seq<char>)
    requires
        forall|i: int| 0 <= i < a.len() ==> white_space(#[trigger] a[i]),
        forall|i: int| 0 <= i < b.len() ==> white_space(#[trigger] b[i]),
        s.len() > 0 ==> !white_space(s[0]) && !white_space(s.last()),
    ensures
        trim_end(trim_start(a + s + b)) == s,
{
    if s.len() > 0 {
        assert(a + s + b =~= a + (s + b));
        lemma_trim_start(a, s + b);
        lemma_trim_end(s, b);
    } else {
        assert(a + s + b =~= (a + b) + Seq::<char>::empty());
        assert forall|i: int| 0 <= i < (a + b).len() implies white_space(#[trigger] (a + b)[i]) by {
            if i < a.len() {
                assert((a + b)[i] == a[i]);
            } else {
                assert((a + b)[i] == b[i - a.len()]);
            }
        }
        lemma_trim_start(a + b, Seq::<char>::empty());
        assert(s =~= Seq::<char>::empty());
    }
}

/// The position found is the first one of the character; without one it is the end.
pub proof fn found_character_is_the_first(s: Seq<char>, c: char)
    ensures
        find(s, c) <= s.len(),
        find(s, c) < s.len() ==> s[find(s, c) as int] == c,
        forall|j: int| 0 <= j < find(s, c) ==> #[trigger] s[j] != c,
    decreases s.len(),
{
    if s.len() > 0 && s[0] != c {
        let rest = s.skip(1);
        found_character_is_the_first(rest, c);
        assert forall|j: int| 0 <= j < find(s, c) implies #[trigger] s[j] != c by {
            if j > 0 {
                assert(rest[j - 1] == s[j]);
            }
        }
    }
}

/// A character is found where it first stands.
pub proof fn first_character_is_found(a: Seq<char>, c: char, b: Seq<char>)
    requires
        forall|j: int| 0 <= j < a.len() ==> #[trigger] a[j] != c,
    ensures
        find(a + seq![c] + b, c) == a.len(),
        find(a, c) == a.len(),
{
    let s = a + seq![c] + b;
    found_character_is_the_first(s, c);
    found_character_is_the_first(a, c);
    let k = find(s, c) as int;
    assert(s[a.len() as int] == c);
    if k < a.len() {
        assert(s[k] == a[k]);
    }
    if find(a, c) < a.len() {
        assert(a[find(a, c) as int] == c);
    }
}

/// A text contains what it was put together from, and contains a needle only where every character
/// of the needle stands.
pub proof fn text_contains_its_parts(a: Seq<char>, needle: Seq<char>, b: Seq<char>, k: int)
    ensures
        ({
            let s = a + needle + b;
            &&& contains(s, needle)
            &&& ends_with(a + needle, needle)
            &&& matches_at(s, a.len() as int, needle)
            &&& matches_at(a, k, needle) <==> 0 <= k && k + needle.len() <= a.len() && forall|j: int|
                0 <= j < needle.len() ==> a[k + j] == #[trigger] needle[j]
        }),
{
    let s = a + needle + b;
    assert(s.subrange(a.len() as int, (a.len() + needle.len()) as int) =~= needle);
    assert(matches_at(s, a.len() as int, needle));
    let t = a + needle;
    assert(t.subrange(t.len() - needle.len(), t.len() as int) =~= needle);
    if 0 <= k && k + needle.len() <= a.len() {
        let here = a.subrange(k, k + needle.len());
        assert forall|j: int| 0 <= j < needle.len() implies here[j] == #[trigger] a[k + j] by {}
        if matches_at(a, k, needle) {
            assert forall|j: int| 0 <= j < needle.len() implies a[k + j] == #[trigger] needle[j] by {
                assert(here[j] == a[k + j]);
            }
        }
        if forall|j: int| 0 <= j < needle.len() ==> a[k + j] == #[trigger] needle[j] {
            assert(here =~= needle);
        }
    }
}

/// No needle stands in a text before its first place or behind its last one.
pub proof fn first_and_last_place_are_bounds(s: Seq<char>, needle: Seq<char>, j: int, k: int)
    requires
        matches_at(s, k, needle),
    ensures
        first_at(s, j, needle) ==> j <= k,
        last_at(s, j, needle) ==> k <= j,
        first_at(s, j, needle) || last_at(s, j, needle) ==> matches_at(s, j, needle),
{
    if j > k {
        assert(matches_at(s, k, needle));
    }
    if last_at(s, j, needle) && k > j {
        assert(matches_at(s, k, needle));
    }
}

/// A line ends at its line feed, without a carriage return before it; what follows the last line
/// feed is a line unless it is empty.
pub proof fn lines_end_at_line_feeds(line: Seq<char>, rest: Seq<char>)
    requires
        forall|j: int| 0 <= j < line.len() ==> #[trigger] line[j] != '\n',
    ensures
        line.len() > 0 ==> lines_of(line) == seq![line],
        lines_of(Seq::<char>::empty()).len() == 0,
        line.len() == 0 || line.last() != '\r' ==> lines_of(line + seq!['\n'] + rest) == seq![line]
            + lines_of(rest),
        lines_of(line + seq!['\r', '\n'] + rest) == seq![line] + lines_of(rest),
{
    first_character_is_found(line, '\n', rest);
    let s = line + seq!['\n'] + rest;
    let k = line.len() as int;
    assert(s.take(k) =~= line);
    assert(s.skip(k + 1) =~= rest);
    let ended = line.push('\r');
    assert forall|j: int| 0 <= j < ended.len() implies #[trigger] ended[j] != '\n' by {
        if j < line.len() {
            assert(ended[j] == line[j]);
        }
    }
    first_character_is_found(ended, '\n', rest);
    let t = line + seq!['\r', '\n'] + rest;
    assert(t =~= ended + seq!['\n'] + rest);
    assert(t.take(k + 1) =~= ended);
    assert(t.skip(k + 2) =~= rest);
    assert(ended.drop_last() =~= line);
    assert(strip_cr(ended) == line);
}

/// Filling up adds as many spaces as are missing of the width, and none to what is wider.
pub proof fn filling_up_reaches_the_width(s: Seq<char>, width: nat)
    ensures
        ({
            let fill = spaces(missing(s, width));
            &&& s.len() <= width ==> s.len() + fill.len() == width
            &&& s.len() > width ==> fill.len() == 0
            &&& forall|i: int| 0 <= i < fill.len() ==> #[trigger] fill[i] == ' '
        }),
{
}

/// A text ends with its last parts.
pub proof fn lemma_ends_with(a: Seq<char>, b: Seq<char>, c: Seq<char>)
    ensures
        ends_with(a + b + c, b + c),
{
    let s = a + b + c;
    assert(s.subrange(s.len() - (b + c).len(), s.len() as int) =~= b + c);
}

proof fn lemma_trim_start_cuts(s: Seq<char>) -> (n: nat)
    ensures
        n <= s.len(),
        trim_start(s) == s.skip(n as int),
        forall|k: int| 0 <= k < n ==> white_space(#[trigger] s[k]),
        n < s.len() ==> !white_space(s[n as int]),
    decreases s.len(),
{
    if s.len() > 0 && white_space(s[0]) {
        let rest = s.skip(1);
        let m = lemma_trim_start_cuts(rest);
        assert(rest.skip(m as int) =~= s.skip(m + 1int));
        assert forall|k: int| 0 <= k < m + 1 implies white_space(#[trigger] s[k]) by {
            if k > 0 {
                assert(rest[k - 1] == s[k]);
            }
        }
        m + 1
    } else {
        assert(s.skip(0) =~= s);
        0
    }
}

proof fn lemma_trim_end_cuts(s: Seq<char>) -> (n: nat)
    ensures
        n <= s.len(),
        trim_end(s) == s.take(n as int),
        forall|k: int| n <= k < s.len() ==> white_space(#[trigger] s[k]),
        n > 0 ==> !white_space(s[n - 1]),
    decreases s.len(),
{
    if s.len() > 0 && white_space(s.last()) {
        let rest = s.drop_last();
        let m = lemma_trim_end_cuts(rest);
        assert(rest.take(m as int) =~= s.take(m as int));
        assert forall|k: int| m <= k < s.len() implies white_space(#[trigger] s[k]) by {
            if k < s.len() - 1 {
                assert(rest[k] == s[k]);
            }
        }
        m
    } else {
        assert(s.take(s.len() as int) =~= s);
        s.len()
    }
}

/// What is left of a text after trimming stands in it from `r.0` to `r.1`, between white space, and
/// neither begins nor ends with it.
pub proof fn trimmed_text_stands_inside(s: Seq<char>) -> (r: (int, int))
    ensures
        0 <= r.0 <= r.1 <= s.len(),
        trim_end(trim_start(s)) == s.subrange(r.0, r.1),
        forall|k: int| 0 <= k < s.len() && !(r.0 <= k < r.1) ==> white_space(#[trigger] s[k]),
        r.0 < r.1 ==> !white_space(s[r.0]) && !white_space(s[r.1 - 1]),
{
    let a = lemma_trim_start_cuts(s) as int;
    let u = s.skip(a);
    let n = lemma_trim_end_cuts(u) as int;
    assert(u.take(n) =~= s.subrange(a, a + n));
    assert forall|k: int| 0 <= k < s.len() && !(a <= k < a + n) implies white_space(
        #[trigger] s[k],
    ) by {
        if k >= a {
            assert(u[k - a] == s[k]);
        }
    }
    if n > 0 {
        assert(u[n - 1] == s[a + n - 1]);
    }
    (a, a + n)
}

} // verus!
