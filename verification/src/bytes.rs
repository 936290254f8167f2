//! Native byte order and the few buffer operations the transport needs.
//!
//! The kernel exchanges every integer in the byte order of the machine, so the contracts here
//! are stated over `vstd::endian::endianness()`.

use vstd::prelude::*;

verus! {

/// `256^n`, the number of values that fit in `n` bytes.
pub open spec fn pow256(n: nat) -> nat
    decreases n,
{
    if n == 0 {
        1
    } else {
        256 * pow256((n - 1) as nat)
    }
}

/// The `n` low bytes of `x`, least significant first.
pub open spec fn le_bytes(x: nat, n: nat) -> Seq<u8>
    decreases n,
{
    if n == 0 {
        Seq::empty()
    } else {
        seq![(x % 256) as u8] + le_bytes(x / 256, (n - 1) as nat)
    }
}

/// The number whose bytes, least significant first, are `s`.
pub open spec fn le_value(s: Seq<u8>) -> nat
    decreases s.len(),
{
    if s.len() == 0 {
        0
    } else {
        s[0] as nat + 256 * le_value(s.skip(1))
    }
}

/// The `n` low bytes of `x` in the byte order of this machine.
pub open spec fn ne_bytes(x: nat, n: nat) -> Seq<u8> {
    match vstd::endian::endianness() {
        vstd::endian::Endian::Little => le_bytes(x, n),
        vstd::endian::Endian::Big => le_bytes(x, n).reverse(),
    }
}

/// The number that the bytes `s` hold in the byte order of this machine.
pub open spec fn ne_value(s: Seq<u8>) -> nat {
    match vstd::endian::endianness() {
        vstd::endian::Endian::Little => le_value(s),
        vstd::endian::Endian::Big => le_value(s.reverse()),
    }
}

/// `s` with `src` written over it from position `at` on.
pub open spec fn splice(s: Seq<u8>, at: int, src: Seq<u8>) -> Seq<u8> {
    s.take(at) + src + s.skip(at + src.len())
}

/// The bytes of every slice of `iov`, one after the other.
pub open spec fn concat(iov: Seq<&[u8]>) -> Seq<u8>
    decreases iov.len(),
{
    if iov.len() == 0 {
        Seq::empty()
    } else {
        concat(iov.drop_last()) + iov.last()@
    }
}

pub proof fn lemma_le_bytes_len(x: nat, n: nat)
    ensures
        le_bytes(x, n).len() == n,
    decreases n,
{
    if n > 0 {
        lemma_le_bytes_len(x / 256, (n - 1) as nat);
    }
}

pub proof fn lemma_le_value_bound(s: Seq<u8>)
    ensures
        le_value(s) < pow256(s.len()),
    decreases s.len(),
{
    if s.len() > 0 {
        lemma_le_value_bound(s.skip(1));
    }
}

proof fn lemma_le_value_of_bytes(x: nat, n: nat)
    requires
        x < pow256(n),
    ensures
        le_value(le_bytes(x, n)) == x,
    decreases n,
{
    lemma_le_bytes_len(x, n);
    if n > 0 {
        lemma_le_value_of_bytes(x / 256, (n - 1) as nat);
        assert(le_bytes(x, n).skip(1) =~= le_bytes(x / 256, (n - 1) as nat));
    }
}

proof fn lemma_le_bytes_of_value(s: Seq<u8>)
    ensures
        le_bytes(le_value(s), s.len()) == s,
    decreases s.len(),
{
    if s.len() > 0 {
        lemma_le_bytes_of_value(s.skip(1));
        let v = le_value(s.skip(1));
        assert((s[0] as nat + 256 * v) % 256 == s[0]);
        assert((s[0] as nat + 256 * v) / 256 == v);
        assert(seq![s[0]] + s.skip(1) =~= s);
    } else {
        assert(s =~= Seq::empty());
    }
}

/// Encoding takes exactly `n` bytes.
pub proof fn lemma_ne_bytes_len(x: nat, n: nat)
    ensures
        ne_bytes(x, n).len() == n,
{
    lemma_le_bytes_len(x, n);
}

/// Decoding what was encoded gives the number back, for every number that fits.
pub proof fn decode_of_encode(x: nat, n: nat)
    requires
        x < pow256(n),
    ensures
        ne_value(ne_bytes(x, n)) == x,
{
    lemma_le_value_of_bytes(x, n);
    assert(le_bytes(x, n).reverse().reverse() =~= le_bytes(x, n));
}

/// Encoding what was decoded gives the bytes back, for every byte string.
pub proof fn encode_of_decode(s: Seq<u8>)
    ensures
        ne_value(s) < pow256(s.len()),
        ne_bytes(ne_value(s), s.len()) == s,
{
    lemma_le_value_bound(s);
    lemma_le_value_bound(s.reverse());
    lemma_le_bytes_of_value(s);
    lemma_le_bytes_of_value(s.reverse());
    assert(s.reverse().reverse() =~= s);
}

/// The sizes of the integers of the wire format, in terms of `pow256`.
pub proof fn lemma_pow256_sizes()
    ensures
        pow256(1) == 0x100,
        pow256(2) == 0x1_0000,
        pow256(4) == 0x1_0000_0000,
        pow256(8) == 0x1_0000_0000_0000_0000,
{
    reveal_with_fuel(pow256, 9);
}

proof fn lemma_pow256_monotonic(m: nat, n: nat)
    requires
        m <= n,
    ensures
        pow256(m) <= pow256(n),
        pow256(m) >= 1,
    decreases n,
{
    if n > 0 {
        if m == n {
            lemma_pow256_monotonic((m - 1) as nat, (n - 1) as nat);
        } else {
            lemma_pow256_monotonic(m, (n - 1) as nat);
        }
    }
}

/// `u16::to_ne_bytes`: the memory representation of an integer, in the byte order that
/// `endianness()` stands for.
#[verifier::external_body]
fn u16_to_ne_bytes(x: u16) -> (r: [u8; 2])
    ensures
        r@ == ne_bytes(x as nat, 2),
{
    x.to_ne_bytes()
}

/// Whether this machine stores the least significant byte first.
pub fn is_little_endian() -> (r: bool)
    ensures
        r == (vstd::endian::endianness() == vstd::endian::Endian::Little),
{
    let one: [u8; 2] = u16_to_ne_bytes(1);
    proof {
        reveal_with_fuel(le_bytes, 3);
        assert(le_bytes(1, 2) =~= seq![1u8, 0u8]);
        assert(le_bytes(1, 2).reverse() =~= seq![0u8, 1u8]);
    }
    one[0] == 1
}

/// The low `n` bytes of `x` in native byte order.
pub fn encode(x: u64, n: usize) -> (r: Vec<u8>)
    requires
        n <= 8,
    ensures
        r@ == ne_bytes(x as nat, n as nat),
{
    let little: bool = is_little_endian();
    let mut low: Vec<u8> = Vec::new();
    let mut rest: u64 = x;
    let mut i: usize = 0;
    while i < n
        invariant
            i <= n,
            low@ + le_bytes(rest as nat, (n - i) as nat) == le_bytes(x as nat, n as nat),
            low@.len() == i,
        decreases n - i,
    {
        proof {
            let tail = le_bytes((rest / 256) as nat, (n - i - 1) as nat);
            assert(low@ + (seq![(rest % 256) as u8] + tail) =~= low@.push((rest % 256) as u8) + tail);
        }
        low.push((rest % 256) as u8);
        rest = rest / 256;
        i = i + 1;
    }
    assert(low@ =~= le_bytes(x as nat, n as nat));
    if little {
        return low;
    }
    let mut high: Vec<u8> = Vec::new();
    let mut k: usize = n;
    while k > 0
        invariant
            k <= n,
            low@.len() == n,
            high@ == low@.skip(k as int).reverse(),
        decreases k,
    {
        k = k - 1;
        high.push(low[k]);
        assert(high@ =~= low@.skip(k as int).reverse());
    }
    assert(low@.skip(0) =~= low@);
    high
}

/// The integer in the `n` bytes of `buf` from `at` on, in native byte order.
pub fn decode(buf: &[u8], at: usize, n: usize) -> (r: u64)
    requires
        n <= 8,
        at + n <= buf@.len(),
    ensures
        r as nat == ne_value(buf@.subrange(at as int, at + n)),
{
    let little: bool = is_little_endian();
    let ghost s = buf@.subrange(at as int, at + n);
    let ghost low = if little {
        s
    } else {
        s.reverse()
    };
    let mut value: u64 = 0;
    let mut i: usize = n;
    assert(low.skip(n as int) =~= Seq::empty());
    while i > 0
        invariant
            i <= n <= 8,
            at + n <= buf@.len(),
            s == buf@.subrange(at as int, at + n),
            low == (if little {
                s
            } else {
                s.reverse()
            }),
            value as nat == le_value(low.skip(i as int)),
        decreases i,
    {
        let _len: usize = buf.len();
        i = i - 1;
        let b: u8 = if little {
            buf[at + i]
        } else {
            buf[at + (n - 1 - i)]
        };
        proof {
            assert(b == low[i as int]);
            let t = low.skip(i as int);
            assert(t.skip(1) =~= low.skip(i + 1));
            lemma_le_value_bound(t);
            lemma_pow256_monotonic(t.len(), 8);
            lemma_pow256_sizes();
        }
        value = b as u64 + 256 * value;
    }
    assert(low.skip(0) =~= low);
    value
}

/// Writes `src` over `buf` from `at` on; everything else keeps its value.
pub fn copy_into(buf: &mut [u8], at: usize, src: &[u8])
    requires
        at + src@.len() <= old(buf)@.len(),
    ensures
        final(buf)@ == splice(old(buf)@, at as int, src@),
{
    let mut i: usize = 0;
    while i < src.len()
        invariant
            i <= src@.len(),
            at + src@.len() <= buf@.len(),
            buf@.len() == old(buf)@.len(),
            forall|j: int| 0 <= j < at || at + i <= j < buf@.len() ==> buf@[j] == old(buf)@[j],
            forall|j: int| 0 <= j < i ==> buf@[at + j] == src@[j],
        decreases src@.len() - i,
    {
        let _len: usize = buf.len();
        buf[at + i] = src[i];
        i = i + 1;
    }
    proof {
        let want = splice(old(buf)@, at as int, src@);
        assert forall|j: int| 0 <= j < want.len() implies buf@[j] == want[j] by {
            if at <= j < at + src@.len() {
                assert(buf@[at + (j - at)] == src@[j - at]);
            }
        }
        assert(buf@ =~= want);
    }
}

/// Copies `n` bytes within `buf` from `from` to `to`; the two ranges do not overlap.
pub fn copy_within(buf: &mut [u8], from: usize, to: usize, n: usize)
    requires
        from + n <= to,
        to + n <= old(buf)@.len(),
    ensures
        final(buf)@ == splice(old(buf)@, to as int, old(buf)@.subrange(from as int, from + n)),
{
    let mut i: usize = 0;
    while i < n
        invariant
            i <= n,
            from + n <= to,
            to + n <= buf@.len(),
            buf@.len() == old(buf)@.len(),
            forall|j: int| 0 <= j < to || to + i <= j < buf@.len() ==> buf@[j] == old(buf)@[j],
            forall|j: int| to <= j < to + i ==> buf@[j] == #[trigger] old(buf)@[from + (j - to)],
        decreases n - i,
    {
        let _len: usize = buf.len();
        let b: u8 = buf[from + i];
        buf[to + i] = b;
        i = i + 1;
    }
    proof {
        let src = old(buf)@.subrange(from as int, from + n);
        let want = splice(old(buf)@, to as int, src);
        assert forall|j: int| 0 <= j < want.len() implies buf@[j] == want[j] by {
            if to <= j < to + n {
                assert(src[j - to] == old(buf)@[from + (j - to)]);
            }
        }
        assert(buf@ =~= want);
    }
}

/// All of `iov` in one vector.
pub fn gather(iov: &[&[u8]]) -> (r: Vec<u8>)
    ensures
        r@ == concat(iov@),
{
    let mut out: Vec<u8> = Vec::new();
    let mut i: usize = 0;
    while i < iov.len()
        invariant
            i <= iov@.len(),
            out@ == concat(iov@.take(i as int)),
        decreases iov@.len() - i,
    {
        assert(iov@.take(i + 1).drop_last() =~= iov@.take(i as int));
        out.extend_from_slice(iov[i]);
        i = i + 1;
    }
    assert(iov@.take(iov@.len() as int) =~= iov@);
    out
}

proof fn lemma_le_byte_at(x: nat, n: nat, i: nat)
    requires
        i < n,
    ensures
        le_bytes(x, n).len() == n,
        le_bytes(x, n)[i as int] == (x / pow256(i)) % 256,
    decreases n,
{
    lemma_le_bytes_len(x, n);
    lemma_le_bytes_len(x / 256, (n - 1) as nat);
    if i > 0 {
        let j = (i - 1) as nat;
        lemma_le_byte_at(x / 256, (n - 1) as nat, j);
        lemma_pow256_monotonic(j, j);
        vstd::arithmetic::div_mod::lemma_div_denominator(x as int, 256, pow256(j) as int);
        assert(pow256(i) == 256 * pow256(j));
        assert(le_bytes(x, n)[i as int] == le_bytes(x / 256, (n - 1) as nat)[j as int]);
        assert(x as int / (256 * pow256(j)) as int == x / pow256(i));
    } else {
        assert(pow256(0) == 1);
        assert(x / 1 == x) by (nonlinear_arith);
    }
}

/// The byte of weight `256^i` of a number in memory: at position `i` where the least significant
/// byte comes first, at `n - 1 - i` where it comes last.
pub proof fn bytes_stand_by_their_weight(x: nat, n: nat, i: nat)
    requires
        i < n,
    ensures
        ({
            let at = if vstd::endian::endianness() == vstd::endian::Endian::Little {
                i as int
            } else {
                n - 1 - i
            };
            ne_bytes(x, n)[at] == (x / pow256(i)) % 256
        }),
{
    lemma_le_byte_at(x, n, i);
}

/// Writing over a buffer changes the written range alone, and that holds what was written.
pub proof fn splice_changes_its_range_alone(s: Seq<u8>, at: int, src: Seq<u8>, j: int)
    requires
        0 <= at,
        at + src.len() <= s.len(),
        0 <= j < s.len(),
    ensures
        splice(s, at, src).len() == s.len(),
        at <= j < at + src.len() ==> splice(s, at, src)[j] == src[j - at],
        j < at || at + src.len() <= j ==> splice(s, at, src)[j] == s[j],
{
}

/// Gathering keeps every slice whole and in its place.
pub proof fn concat_keeps_the_slices(a: Seq<&[u8]>, b: Seq<&[u8]>, one: &[u8])
    ensures
        concat(seq![one]) == one@,
        concat(a + b) == concat(a) + concat(b),
        concat(Seq::<&[u8]>::empty()).len() == 0,
    decreases b.len(),
{
    reveal_with_fuel(concat, 2);
    assert(seq![one].drop_last() =~= Seq::empty());
    assert(concat(seq![one]) =~= one@);
    if b.len() == 0 {
        assert(a + b =~= a);
        assert(concat(a) + concat(b) =~= concat(a));
    } else {
        concat_keeps_the_slices(a, b.drop_last(), one);
        assert((a + b).drop_last() =~= a + b.drop_last());
        assert(concat(a + b) =~= concat(a) + concat(b));
    }
}

} // verus!
