//! Big-endian integers as byte sequences.
use vstd::prelude::*;

verus! {

/// 256 to the power `n`.
pub open spec fn pow256(n: nat) -> nat
    decreases n,
{
    if n == 0 {
        1
    } else {
        256 * pow256((n - 1) as nat)
    }
}

/// The `n` low bytes of `v`, most significant first.
pub open spec fn be_bytes(v: nat, n: nat) -> Seq<u8>
    decreases n,
{
    if n == 0 {
        Seq::empty()
    } else {
        be_bytes(v / 256, (n - 1) as nat).push((v % 256) as u8)
    }
}

/// The number whose big-endian bytes are `s`.
pub open spec fn be_value(s: Seq<u8>) -> nat
    decreases s.len(),
{
    if s.len() == 0 {
        0
    } else {
        be_value(s.drop_last()) * 256 + s.last() as nat
    }
}

/// The two's complement of `v` in `n` bytes, as an unsigned number.
pub open spec fn twos(v: int, n: nat) -> nat {
    if v < 0 {
        (v + pow256(n)) as nat
    } else {
        v as nat
    }
}

/// The signed number that the unsigned `u` stands for in `n` bytes of two's complement.
pub open spec fn signed_of(u: nat, n: nat) -> int {
    if 2 * u >= pow256(n) {
        u - pow256(n)
    } else {
        u as int
    }
}

pub proof fn lemma_pow256_values()
    ensures
        pow256(0) == 1,
        pow256(1) == 0x100,
        pow256(2) == 0x1_0000,
        pow256(4) == 0x1_0000_0000,
        pow256(8) == 0x1_0000_0000_0000_0000,
{
    reveal_with_fuel(pow256, 9);
}

pub proof fn lemma_pow256_positive(n: nat)
    ensures
        pow256(n) >= 1,
    decreases n,
{
    if n > 0 {
        lemma_pow256_positive((n - 1) as nat);
    }
}

pub proof fn lemma_be_bytes_len(v: nat, n: nat)
    ensures
        be_bytes(v, n).len() == n,
    decreases n,
{
    if n > 0 {
        lemma_be_bytes_len(v / 256, (n - 1) as nat);
    }
}

/// The value of `n` big-endian bytes is below `256^n`.
pub proof fn lemma_be_value_bound(s: Seq<u8>)
    ensures
        be_value(s) < pow256(s.len()),
    decreases s.len(),
{
    if s.len() > 0 {
        lemma_be_value_bound(s.drop_last());
    }
}

/// Reading back the big-endian bytes of a number that fits gives the number.
pub proof fn lemma_be_roundtrip(v: nat, n: nat)
    requires
        v < pow256(n),
    ensures
        be_value(be_bytes(v, n)) == v,
    decreases n,
{
    if n > 0 {
        lemma_be_roundtrip(v / 256, (n - 1) as nat);
        assert(be_bytes(v, n).drop_last() =~= be_bytes(v / 256, (n - 1) as nat));
    }
}

/// Writing the value of a byte sequence in as many bytes gives the sequence back.
pub proof fn lemma_be_bytes_of_value(s: Seq<u8>)
    ensures
        be_bytes(be_value(s), s.len()) == s,
    decreases s.len(),
{
    if s.len() > 0 {
        lemma_be_bytes_of_value(s.drop_last());
        assert(be_bytes(be_value(s), s.len()) =~= s);
    }
}

/// The two's complement of a number that fits in `n` bytes fits in `n` bytes, and gives the number back.
pub proof fn lemma_twos_roundtrip(v: int, n: nat)
    requires
        n > 0,
        -pow256(n) <= 2 * v < pow256(n),
    ensures
        twos(v, n) < pow256(n),
        signed_of(twos(v, n), n) == v,
{
}

/// `n` big-endian bytes of a number below `2^64` as computed by machine division.
pub fn be_encode(v: u64, n: usize) -> (r: Vec<u8>)
    ensures
        r@ == be_bytes(v as nat, n as nat),
        r@.len() == n,
    decreases n,
{
    if n == 0 {
        Vec::new()
    } else {
        let mut r = be_encode(v / 256, n - 1);
        r.push((v % 256) as u8);
        r
    }
}

/// The number whose big-endian bytes are `bytes[start..start + n]`, for `n` up to 8.
pub fn be_read(bytes: &[u8], start: usize, n: usize) -> (r: u64)
    requires
        n <= 8,
        start + n <= bytes@.len(),
    ensures
        r == be_value(bytes@.subrange(start as int, start + n)),
{
    let mut value: u64 = 0;
    let len = bytes.len();
    assert(start + n <= len);
    let end = start + n;
    let mut i: usize = start;
    proof {
        lemma_pow256_values();
        assert(bytes@.subrange(start as int, start as int) =~= Seq::<u8>::empty());
    }
    while i < end
        invariant
            end == start + n,
            start <= i <= start + n,
            start + n <= bytes@.len(),
            n <= 8,
            value == be_value(bytes@.subrange(start as int, i as int)),
            pow256(8) == 0x1_0000_0000_0000_0000,
        decreases end - i,
    {
        let ghost prefix = bytes@.subrange(start as int, i as int);
        proof {
            lemma_be_value_bound(prefix);
            lemma_pow256_monotone((i - start) as nat, 7);
            assert(bytes@.subrange(start as int, i + 1).drop_last() =~= prefix);
        }
        value = value * 256 + bytes[i] as u64;
        i = i + 1;
    }
    value
}

pub proof fn lemma_pow256_monotone(a: nat, b: nat)
    requires
        a <= b,
    ensures
        pow256(a) <= pow256(b),
    decreases b,
{
    if a < b {
        lemma_pow256_monotone(a, (b - 1) as nat);
        lemma_pow256_positive((b - 1) as nat);
    }
}

} // verus!
