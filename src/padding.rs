//! Length padding: a message is extended with a 0x80 marker byte, zero fill and
//! its length in bits, so that it spans whole blocks.
use vstd::prelude::*;
use vstd::arithmetic::div_mod::{
    lemma_fundamental_div_mod,
    lemma_fundamental_div_mod_converse,
    lemma_mod_multiples_basic,
    lemma_small_mod,
};
use crate::endian::{be_bytes, be_value, le_bytes, le_value, pow256, push_be, lemma_be_round_trip, lemma_le_round_trip};

verus! {

/// How many zero bytes follow the marker byte of a message of `len` bytes, so
/// that the length becomes `field` bytes short of a multiple of `block`.
pub open spec fn zero_fill(len: nat, block: nat, field: nat) -> nat {
    let r = (len + 1) % block;
    if r <= block - field {
        (block - field - r) as nat
    } else {
        (2 * block - field - r) as nat
    }
}

/// The message, the marker byte 0x80 and the zero fill: everything but the
/// length field.
pub open spec fn pad_body(m: Seq<u8>, block: nat, field: nat) -> Seq<u8> {
    m.push(0x80) + Seq::new(zero_fill(m.len(), block, field), |i: int| 0u8)
}

/// Padding to 64-byte blocks with an 8-byte big-endian bit length.
pub open spec fn padded_v1(m: Seq<u8>) -> Seq<u8> {
    pad_body(m, 64, 8) + be_bytes(m.len() * 8, 8)
}

/// Padding to 128-byte blocks with a 16-byte big-endian bit length.
pub open spec fn padded_v2(m: Seq<u8>) -> Seq<u8> {
    pad_body(m, 128, 16) + be_bytes(m.len() * 8, 16)
}

/// Padding to 64-byte blocks with an 8-byte little-endian bit length, taken
/// modulo 2^64, as MD5 lays it out.
pub open spec fn padded_le(m: Seq<u8>) -> Seq<u8> {
    pad_body(m, 64, 8) + le_bytes(m.len() * 8, 8)
}

/// The body and the length field together span `(len + field) / block + 1`
/// whole blocks.
pub proof fn lemma_pad_body_len(len: nat, block: nat, field: nat)
    requires
        0 < field < block,
    ensures
        zero_fill(len, block, field) < block,
        len + 1 + zero_fill(len, block, field) + field == block * ((len + field) / block + 1),
        (len + 1 + zero_fill(len, block, field) + field) % block == 0,
{
    let b: int = block as int;
    let x: int = (len + 1) as int;
    let y: int = (len + field) as int;
    lemma_fundamental_div_mod(x, b);
    let q: int = x / b;
    let r: int = x % b;
    assert(b * q == q * b) by (nonlinear_arith);
    assert(b * (q + 1) == q * b + b) by (nonlinear_arith);
    assert(b * (q + 2) == q * b + 2 * b) by (nonlinear_arith);
    if r <= block - field {
        lemma_fundamental_div_mod_converse(y, b, q, r + field - 1);
    } else {
        assert((q + 1) * b == q * b + b) by (nonlinear_arith);
        lemma_fundamental_div_mod_converse(y, b, q + 1, r + field - 1 - b);
    }
    lemma_mod_multiples_basic(y / b + 1, b);
    assert(b * (y / b + 1) == (y / b + 1) * b) by (nonlinear_arith);
}

/// Appends the marker byte and the zero fill to `v`.
pub(crate) fn push_pad_body(v: &mut Vec<u8>, block: usize, field: usize)
    requires
        0 < field < block <= 128,
    ensures
        final(v)@ == pad_body(old(v)@, block as nat, field as nat),
{
    v.push(0x80);
    let r = v.len() % block;
    let fill = if r <= block - field {
        block - field - r
    } else {
        2 * block - field - r
    };
    assert(fill == zero_fill(old(v)@.len(), block as nat, field as nat));
    for k in 0..fill
        invariant
            v@ == old(v)@.push(0x80) + Seq::new(k as nat, |i: int| 0u8),
    {
        v.push(0);
        assert(v@ =~= old(v)@.push(0x80) + Seq::new((k + 1) as nat, |i: int| 0u8));
    }
    assert(v@ =~= pad_body(old(v)@, block as nat, field as nat));
}

/// Pads `v` in place to whole 64-byte blocks: a 0x80 byte, zeros, then the
/// message's length in bits as an 8-byte big-endian number. Fails, leaving
/// `v` as it was, where that length does not fit in 64 bits.
pub fn padding_v1(v: &mut Vec<u8>) -> (r: Result<(), ()>)
    ensures
        r is Err <==> old(v)@.len() * 8 > u64::MAX,
        r is Err ==> final(v)@ == old(v)@,
        r is Ok ==> final(v)@ == padded_v1(old(v)@),
{
    let len: u128 = v.len() as u128 * 8;
    if len > u64::MAX as u128 {
        return Err(());
    }
    push_pad_body(v, 64, 8);
    push_be(v, len, 8);
    Ok(())
}

/// Pads `v` in place to whole 128-byte blocks: a 0x80 byte, zeros, then the
/// message's length in bits as a 16-byte big-endian number. Fails, leaving
/// `v` as it was, where that length does not fit in 128 bits.
pub fn padding_v2(v: &mut Vec<u8>) -> (r: Result<(), ()>)
    ensures
        r is Err <==> old(v)@.len() * 8 > u128::MAX,
        r is Err ==> final(v)@ == old(v)@,
        r is Ok ==> final(v)@ == padded_v2(old(v)@),
{
    let len = match (v.len() as u128).checked_mul(8) {
        Some(len) => len,
        None => {
            return Err(());
        },
    };
    push_pad_body(v, 128, 16);
    push_be(v, len, 16);
    Ok(())
}

/// Padding to 64-byte blocks with a big-endian length field keeps the message
/// as its prefix, spans `(len + 8) / 64 + 1` whole blocks, and its last 8
/// bytes read back as the message's length in bits.
pub proof fn lemma_padded_v1(m: Seq<u8>)
    requires
        m.len() * 8 <= u64::MAX,
    ensures
        padded_v1(m).len() == 64 * ((m.len() + 8) / 64 + 1),
        padded_v1(m).len() % 64 == 0,
        padded_v1(m).len() / 64 == (m.len() + 8) / 64 + 1,
        padded_v1(m).subrange(0, m.len() as int) == m,
        be_value(padded_v1(m).subrange(padded_v1(m).len() - 8, padded_v1(m).len() as int)) == m.len() * 8,
{
    let p = padded_v1(m);
    lemma_pad_body_len(m.len(), 64, 8);
    lemma_be_round_trip(m.len() * 8, 8);
    reveal_with_fuel(pow256, 9);
    assert(pow256(8) == 0x1_0000_0000_0000_0000);
    lemma_small_mod(m.len() * 8, pow256(8));
    assert(p.subrange(0, m.len() as int) =~= m);
    assert(p.subrange(p.len() - 8, p.len() as int) =~= be_bytes(m.len() * 8, 8));
}

/// Padding to 128-byte blocks with a big-endian length field keeps the
/// message as its prefix, spans `(len + 16) / 128 + 1` whole blocks, and its
/// last 16 bytes read back as the message's length in bits.
pub proof fn lemma_padded_v2(m: Seq<u8>)
    requires
        m.len() * 8 <= u128::MAX,
    ensures
        padded_v2(m).len() == 128 * ((m.len() + 16) / 128 + 1),
        padded_v2(m).len() % 128 == 0,
        padded_v2(m).len() / 128 == (m.len() + 16) / 128 + 1,
        padded_v2(m).subrange(0, m.len() as int) == m,
        be_value(padded_v2(m).subrange(padded_v2(m).len() - 16, padded_v2(m).len() as int)) == m.len() * 8,
{
    let p = padded_v2(m);
    lemma_pad_body_len(m.len(), 128, 16);
    lemma_be_round_trip(m.len() * 8, 16);
    reveal_with_fuel(pow256, 17);
    assert(pow256(16) == 0x1_0000_0000_0000_0000_0000_0000_0000_0000);
    lemma_small_mod(m.len() * 8, pow256(16));
    assert(p.subrange(0, m.len() as int) =~= m);
    assert(p.subrange(p.len() - 16, p.len() as int) =~= be_bytes(m.len() * 8, 16));
}

/// MD5's padding keeps the message as its prefix, spans `(len + 8) / 64 + 1`
/// whole blocks, and its last 8 bytes read back, least significant first, as
/// the message's length in bits modulo 2^64.
pub proof fn lemma_padded_le(m: Seq<u8>)
    ensures
        padded_le(m).len() == 64 * ((m.len() + 8) / 64 + 1),
        padded_le(m).len() % 64 == 0,
        padded_le(m).len() / 64 == (m.len() + 8) / 64 + 1,
        padded_le(m).subrange(0, m.len() as int) == m,
        le_value(padded_le(m).subrange(padded_le(m).len() - 8, padded_le(m).len() as int))
            == (m.len() * 8) % 0x1_0000_0000_0000_0000,
{
    let p = padded_le(m);
    lemma_pad_body_len(m.len(), 64, 8);
    lemma_le_round_trip(m.len() * 8, 8);
    reveal_with_fuel(pow256, 9);
    assert(pow256(8) == 0x1_0000_0000_0000_0000);
    assert(p.subrange(0, m.len() as int) =~= m);
    assert(p.subrange(p.len() - 8, p.len() as int) =~= le_bytes(m.len() * 8, 8));
}

} // verus!
