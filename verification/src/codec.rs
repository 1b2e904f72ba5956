//! Minimal big-endian integer encoding, as used by the wire-level log format:
//! leading zero bytes are stripped, and zero encodes to the empty sequence.

use vstd::prelude::*;

verus! {

/// The unsigned value that a big-endian byte sequence denotes.
pub open spec fn be_value(s: Seq<u8>) -> nat
    decreases s.len(),
{
    if s.len() == 0 {
        0
    } else {
        (be_value(s.drop_last()) * 256 + s.last()) as nat
    }
}

/// The minimal big-endian encoding of an unsigned integer: no leading zero
/// bytes, and zero encodes to the empty sequence.
pub open spec fn min_be(n: nat) -> Seq<u8>
    decreases n,
{
    if n == 0 {
        Seq::empty()
    } else {
        min_be(n / 256).push((n % 256) as u8)
    }
}

/// 256 to the power `k`: the number of values a `k`-byte sequence can denote.
pub open spec fn pow256(k: nat) -> nat
    decreases k,
{
    if k == 0 {
        1
    } else {
        256 * pow256((k - 1) as nat)
    }
}

/// 256^k is positive and grows with `k`.
pub proof fn lemma_pow256_increases(a: nat, b: nat)
    requires
        a <= b,
    ensures
        1 <= pow256(a) <= pow256(b),
    decreases b,
{
    if a == b {
        if a > 0 {
            lemma_pow256_increases((a - 1) as nat, (b - 1) as nat);
        }
    } else {
        lemma_pow256_increases(a, (b - 1) as nat);
    }
}

/// A big-endian sequence of `k` bytes denotes a value below 256^k.
pub proof fn lemma_be_value_bound(s: Seq<u8>)
    ensures
        be_value(s) < pow256(s.len()),
    decreases s.len(),
{
    if s.len() > 0 {
        lemma_be_value_bound(s.drop_last());
    }
}

/// Decoding the minimal big-endian encoding of `n` yields `n` again.
pub proof fn lemma_min_be_round_trip(n: nat)
    ensures
        be_value(min_be(n)) == n,
    decreases n,
{
    if n > 0 {
        lemma_min_be_round_trip(n / 256);
        assert(min_be(n).drop_last() =~= min_be(n / 256));
    }
}

/// The minimal encoding never starts with a zero byte.
pub proof fn lemma_min_be_no_leading_zero(n: nat)
    ensures
        min_be(n).len() > 0 ==> min_be(n)[0] != 0,
    decreases n,
{
    if n > 0 {
        lemma_min_be_no_leading_zero(n / 256);
        if n / 256 > 0 {
            assert(min_be(n)[0] == min_be(n / 256)[0]);
        }
    }
}

/// A value below 256^k encodes to at most `k` bytes.
pub proof fn lemma_min_be_len(n: nat, k: nat)
    requires
        n < pow256(k),
    ensures
        min_be(n).len() <= k,
    decreases n,
{
    if n > 0 {
        lemma_min_be_len(n / 256, (k - 1) as nat);
    }
}

/// Any `u64` encodes to at most 8 bytes.
pub proof fn lemma_min_be_u64_len(n: u64)
    ensures
        min_be(n as nat).len() <= 8,
{
    assert(pow256(0) == 1);
    assert(pow256(1) == 256);
    assert(pow256(2) == 0x10000);
    assert(pow256(3) == 0x1000000);
    assert(pow256(4) == 0x100000000);
    assert(pow256(5) == 0x10000000000);
    assert(pow256(6) == 0x1000000000000);
    assert(pow256(7) == 0x100000000000000);
    assert(pow256(8) == 0x10000000000000000);
    lemma_min_be_len(n as nat, 8);
}

/// Round trip for nonce encodings: the minimal big-endian form of a `u64`
/// fits in 8 bytes and decodes back to the original integer.
pub proof fn lemma_nonce_codec_round_trip(n: u64)
    ensures
        min_be(n as nat).len() <= 8,
        be_value(min_be(n as nat)) == n,
{
    lemma_min_be_u64_len(n);
    lemma_min_be_round_trip(n as nat);
}

/// Encodes a `u64` in minimal big-endian form (the nonce topic encoding).
pub fn top_encode_u64(value: u64) -> (r: Vec<u8>)
    ensures
        r@ == min_be(value as nat),
    decreases value,
{
    if value == 0 {
        let r: Vec<u8> = Vec::new();
        assert(r@ =~= min_be(0));
        r
    } else {
        let mut r = top_encode_u64(value / 256);
        r.push((value % 256) as u8);
        r
    }
}

/// Encodes a `u128` amount in minimal big-endian form (the amount topic and
/// argument encoding).
pub fn top_encode_u128(value: u128) -> (r: Vec<u8>)
    ensures
        r@ == min_be(value as nat),
    decreases value,
{
    if value == 0 {
        let r: Vec<u8> = Vec::new();
        assert(r@ =~= min_be(0));
        r
    } else {
        let mut r = top_encode_u128(value / 256);
        r.push((value % 256) as u8);
        r
    }
}

/// Decodes a big-endian `u64`, accepting leading zero bytes and the empty
/// sequence (which denotes 0). Inputs longer than 8 bytes do not fit and are
/// rejected.
pub fn top_decode_u64(bytes: &[u8]) -> (r: Option<u64>)
    ensures
        bytes@.len() > 8 ==> r is None,
        bytes@.len() <= 8 ==> r == Some(be_value(bytes@) as u64),
{
    if bytes.len() > 8 {
        return None;
    }
    let mut acc: u64 = 0;
    let mut i: usize = 0;
    proof {
        assert(bytes@.take(0) =~= Seq::<u8>::empty());
    }
    while i < bytes.len()
        invariant
            i <= bytes@.len() <= 8,
            acc == be_value(bytes@.take(i as int)),
        decreases bytes@.len() - i,
    {
        proof {
            lemma_be_value_bound(bytes@.take(i as int));
            assert(pow256(0) == 1);
            assert(pow256(1) == 256);
            assert(pow256(2) == 0x10000);
            assert(pow256(3) == 0x1000000);
            assert(pow256(4) == 0x100000000);
            assert(pow256(5) == 0x10000000000);
            assert(pow256(6) == 0x1000000000000);
            assert(pow256(7) == 0x100000000000000);
            lemma_pow256_increases(i as nat, 7);
            assert(bytes@.take(i + 1).drop_last() =~= bytes@.take(i as int));
            assert(bytes@.take(i + 1).last() == bytes@[i as int]);
        }
        acc = acc * 256 + (bytes[i] as u64);
        i = i + 1;
    }
    proof {
        assert(bytes@.take(bytes@.len() as int) =~= bytes@);
    }
    Some(acc)
}

} // verus!
