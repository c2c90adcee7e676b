//! Byte order: integers as fixed-width byte strings and back, and 32-bit
//! words read from byte buffers.
use vstd::prelude::*;
use vstd::arithmetic::div_mod::lemma_mod_breakdown;

verus! {

/// 256 to the power `n`: one more than the largest value `n` bytes can hold.
pub open spec fn pow256(n: nat) -> nat
    decreases n,
{
    if n == 0 {
        1
    } else {
        256 * pow256((n - 1) as nat)
    }
}

/// The `n` low-order bytes of `x` (that is, `x mod 256^n`), most significant first.
pub open spec fn be_bytes(x: nat, n: nat) -> Seq<u8>
    decreases n,
{
    if n == 0 {
        seq![]
    } else {
        be_bytes(x / 256, (n - 1) as nat).push((x % 256) as u8)
    }
}

/// The `n` low-order bytes of `x` (that is, `x mod 256^n`), least significant first.
pub open spec fn le_bytes(x: nat, n: nat) -> Seq<u8>
    decreases n,
{
    if n == 0 {
        seq![]
    } else {
        seq![(x % 256) as u8] + le_bytes(x / 256, (n - 1) as nat)
    }
}

/// The number that the bytes `s` spell, most significant first.
pub open spec fn be_value(s: Seq<u8>) -> nat
    decreases s.len(),
{
    if s.len() == 0 {
        0
    } else {
        (be_value(s.drop_last()) * 256 + s.last()) as nat
    }
}

/// The number that the bytes `s` spell, least significant first.
pub open spec fn le_value(s: Seq<u8>) -> nat
    decreases s.len(),
{
    if s.len() == 0 {
        0
    } else {
        (s[0] + 256 * le_value(s.drop_first())) as nat
    }
}

/// The 32-bit word stored little-endian in `s[pos..pos + 4]`.
pub open spec fn le_word(s: Seq<u8>, pos: int) -> u32 {
    (s[pos] + 0x100 * s[pos + 1] + 0x1_0000 * s[pos + 2] + 0x100_0000 * s[pos + 3]) as u32
}

/// The 32-bit word stored big-endian in `s[pos..pos + 4]`.
pub open spec fn be_word(s: Seq<u8>, pos: int) -> u32 {
    (0x100_0000 * s[pos] + 0x1_0000 * s[pos + 1] + 0x100 * s[pos + 2] + s[pos + 3]) as u32
}

/// `256^n` is positive.
pub proof fn lemma_pow256_positive(n: nat)
    ensures
        pow256(n) > 0,
    decreases n,
{
    if n > 0 {
        lemma_pow256_positive((n - 1) as nat);
    }
}

/// Reading back `n` big-endian bytes of `x` gives `x mod 256^n`.
pub proof fn lemma_be_round_trip(x: nat, n: nat)
    ensures
        be_bytes(x, n).len() == n,
        be_value(be_bytes(x, n)) == x % pow256(n),
    decreases n,
{
    if n > 0 {
        let p = pow256((n - 1) as nat);
        lemma_be_round_trip(x / 256, (n - 1) as nat);
        assert(be_bytes(x, n).drop_last() =~= be_bytes(x / 256, (n - 1) as nat));
        lemma_pow256_positive((n - 1) as nat);
        lemma_mod_breakdown(x as int, 256, p as int);
    }
}

/// Reading back `n` little-endian bytes of `x` gives `x mod 256^n`.
pub proof fn lemma_le_round_trip(x: nat, n: nat)
    ensures
        le_bytes(x, n).len() == n,
        le_value(le_bytes(x, n)) == x % pow256(n),
    decreases n,
{
    if n > 0 {
        let p = pow256((n - 1) as nat);
        lemma_le_round_trip(x / 256, (n - 1) as nat);
        assert(le_bytes(x, n).drop_first() =~= le_bytes(x / 256, (n - 1) as nat));
        lemma_pow256_positive((n - 1) as nat);
        lemma_mod_breakdown(x as int, 256, p as int);
    }
}

/// Appends the `n` low-order bytes of `x` to `v`, most significant first.
pub(crate) fn push_be(v: &mut Vec<u8>, x: u128, n: usize)
    ensures
        final(v)@ == old(v)@ + be_bytes(x as nat, n as nat),
    decreases n,
{
    if n == 0 {
        assert(old(v)@ + be_bytes(x as nat, 0) =~= old(v)@);
    } else {
        push_be(v, x / 256, n - 1);
        v.push((x % 256) as u8);
        assert(old(v)@ + be_bytes(x as nat, n as nat) =~= old(v)@ + be_bytes(
            (x / 256) as nat,
            (n - 1) as nat,
        ) + seq![(x % 256) as u8]);
    }
}

/// Appends the `n` low-order bytes of `x` to `v`, least significant first.
pub(crate) fn push_le(v: &mut Vec<u8>, x: u128, n: usize)
    ensures
        final(v)@ == old(v)@ + le_bytes(x as nat, n as nat),
    decreases n,
{
    if n == 0 {
        assert(old(v)@ + le_bytes(x as nat, 0) =~= old(v)@);
    } else {
        v.push((x % 256) as u8);
        push_le(v, x / 256, n - 1);
        assert(old(v)@ + le_bytes(x as nat, n as nat) =~= old(v)@ + seq![(x % 256) as u8]
            + le_bytes((x / 256) as nat, (n - 1) as nat));
    }
}

/// The little-endian word at `v[pos..pos + 4]`.
pub(crate) fn le_word_at(v: &Vec<u8>, pos: usize) -> (r: u32)
    requires
        pos + 4 <= v@.len(),
    ensures
        r == le_word(v@, pos as int),
{
    let len = v.len();
    assert(pos + 4 <= len);
    let b0 = v[pos] as u32;
    let b1 = v[pos + 1] as u32;
    let b2 = v[pos + 2] as u32;
    let b3 = v[pos + 3] as u32;
    b0 + 0x100 * b1 + 0x1_0000 * b2 + 0x100_0000 * b3
}

/// The big-endian word at `v[pos..pos + 4]`.
pub(crate) fn be_word_at(v: &Vec<u8>, pos: usize) -> (r: u32)
    requires
        pos + 4 <= v@.len(),
    ensures
        r == be_word(v@, pos as int),
{
    let len = v.len();
    assert(pos + 4 <= len);
    let b0 = v[pos] as u32;
    let b1 = v[pos + 1] as u32;
    let b2 = v[pos + 2] as u32;
    let b3 = v[pos + 3] as u32;
    0x100_0000 * b0 + 0x1_0000 * b1 + 0x100 * b2 + b3
}

} // verus!
