//! Little-endian integers of a given byte width, as they stand in a frame header.

use vstd::prelude::*;

verus! {

/// `256` raised to `n`: one more than the largest value that `n` bytes hold.
pub open spec fn pow256(n: nat) -> nat
    decreases n,
{
    if n == 0 {
        1
    } else {
        256 * pow256((n - 1) as nat)
    }
}

/// The value of a little-endian byte sequence: the first byte is the least significant.
pub open spec fn le_value(s: Seq<u8>) -> nat
    decreases s.len(),
{
    if s.len() == 0 {
        0
    } else {
        s[0] as nat + 256 * le_value(s.drop_first())
    }
}

/// The `n` low bytes of `v`, least significant first.
pub open spec fn le_bytes(v: nat, n: nat) -> Seq<u8>
    decreases n,
{
    if n == 0 {
        Seq::empty()
    } else {
        seq![(v % 256) as u8] + le_bytes(v / 256, (n - 1) as nat)
    }
}

pub proof fn lemma_pow256_values()
    ensures
        pow256(1) == 0x100,
        pow256(2) == 0x1_0000,
        pow256(4) == 0x1_0000_0000,
        pow256(8) == 0x1_0000_0000_0000_0000,
{
    reveal_with_fuel(pow256, 9);
}

pub proof fn lemma_pow256_monotonic(m: nat, n: nat)
    requires
        m <= n,
    ensures
        pow256(m) <= pow256(n),
    decreases n,
{
    if m < n {
        lemma_pow256_monotonic(m, (n - 1) as nat);
    }
}

pub proof fn lemma_le_bytes_len(v: nat, n: nat)
    ensures
        le_bytes(v, n).len() == n,
    decreases n,
{
    if n > 0 {
        lemma_le_bytes_len(v / 256, (n - 1) as nat);
    }
}

pub proof fn lemma_pow256_positive(n: nat)
    ensures
        pow256(n) > 0,
    decreases n,
{
    if n > 0 {
        lemma_pow256_positive((n - 1) as nat);
    }
}

/// Byte `i` of the `n` bytes written for `v` is digit `i` of `v` in base 256:
/// the least significant byte comes first.
pub proof fn lemma_le_bytes_index(v: nat, n: nat, i: nat)
    requires
        i < n,
    ensures
        le_bytes(v, n).len() == n,
        le_bytes(v, n)[i as int] as nat == (v / pow256(i)) % 256,
    decreases n,
{
    lemma_le_bytes_len(v, n);
    let rest = le_bytes(v / 256, (n - 1) as nat);
    assert(le_bytes(v, n) == seq![(v % 256) as u8] + rest);
    if i == 0 {
        assert(pow256(0) == 1);
        assert(v / 1 == v);
    } else {
        lemma_le_bytes_len(v / 256, (n - 1) as nat);
        assert(le_bytes(v, n)[i as int] == rest[i - 1]);
        assert(pow256(i) == 256 * pow256((i - 1) as nat));
        lemma_le_bytes_index(v / 256, (n - 1) as nat, (i - 1) as nat);
        lemma_pow256_positive((i - 1) as nat);
        vstd::arithmetic::div_mod::lemma_div_denominator(v as int, 256, pow256((i - 1) as nat) as int);
    }
}

/// A byte sequence holds less than `256` raised to its length.
pub proof fn lemma_le_value_bound(s: Seq<u8>)
    ensures
        le_value(s) < pow256(s.len()),
    decreases s.len(),
{
    if s.len() > 0 {
        lemma_le_value_bound(s.drop_first());
    }
}

/// Reading back the `n` bytes written for `v` gives `v`, where `v` fits in `n` bytes.
pub proof fn lemma_le_value_of_bytes(v: nat, n: nat)
    requires
        v < pow256(n),
    ensures
        le_value(le_bytes(v, n)) == v,
    decreases n,
{
    if n > 0 {
        let s = le_bytes(v, n);
        lemma_le_bytes_len(v, n);
        assert(s.drop_first() =~= le_bytes(v / 256, (n - 1) as nat));
        lemma_le_value_of_bytes(v / 256, (n - 1) as nat);
    }
}

/// Writing back the value of a byte sequence, in as many bytes, gives the sequence.
pub proof fn lemma_le_bytes_of_value(s: Seq<u8>)
    ensures
        le_bytes(le_value(s), s.len()) == s,
    decreases s.len(),
{
    if s.len() > 0 {
        let v = le_value(s);
        let rest = le_value(s.drop_first());
        assert(v % 256 == s[0] as nat);
        assert(v / 256 == rest);
        lemma_le_bytes_of_value(s.drop_first());
        assert(le_bytes(v, s.len()) =~= s);
    }
}

/// Appends the `n` low bytes of `v`, least significant first.
pub fn push_le(out: &mut Vec<u8>, v: u64, n: usize)
    ensures
        final(out)@ == old(out)@ + le_bytes(v as nat, n as nat),
{
    let ghost start = out@;
    let mut x: u64 = v;
    let mut i: usize = 0;
    while i < n
        invariant
            i <= n,
            out@ + le_bytes(x as nat, (n - i) as nat) == start + le_bytes(v as nat, n as nat),
        decreases n - i,
    {
        let ghost before = out@;
        let b: u8 = (x % 256) as u8;
        assert(le_bytes(x as nat, (n - i) as nat) == seq![b] + le_bytes((x / 256) as nat, (
        n - i - 1) as nat));
        out.push(b);
        assert(out@ + le_bytes((x / 256) as nat, (n - i - 1) as nat) =~= before + le_bytes(
            x as nat,
            (n - i) as nat,
        ));
        x = x / 256;
        i = i + 1;
    }
    assert(out@ + le_bytes(x as nat, 0) =~= out@);
}

/// The value of the `n` bytes of `s` from `start` on, read little-endian.
pub fn read_le(s: &[u8], start: usize, n: usize) -> (r: u64)
    requires
        start + n <= s@.len(),
        n <= 8,
    ensures
        r as nat == le_value(s@.subrange(start as int, start + n)),
{
    let len: usize = s.len();
    let mut acc: u64 = 0;
    let mut i: usize = n;
    proof {
        assert(s@.subrange(start + n, start + n) =~= Seq::<u8>::empty());
        lemma_pow256_values();
        lemma_pow256_monotonic(n as nat, 8);
    }
    while i > 0
        invariant
            i <= n <= 8,
            start + n <= s@.len() == len,
            pow256(n as nat) <= 0x1_0000_0000_0000_0000,
            acc as nat == le_value(s@.subrange(start + i, start + n)),
        decreases i,
    {
        i = i - 1;
        let ghost sub = s@.subrange(start + i, start + n);
        proof {
            assert(sub.drop_first() =~= s@.subrange(start + i + 1, start + n));
            lemma_le_value_bound(sub);
            lemma_pow256_monotonic(sub.len(), n as nat);
        }
        acc = acc * 256 + s[start + i] as u64;
    }
    acc
}

} // verus!
