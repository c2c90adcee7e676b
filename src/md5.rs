//! MD5 (RFC 1321): four rounds of sixteen operations over each 64-byte block,
//! words and the digest in little-endian order.
use vstd::prelude::*;
use crate::endian::{le_bytes, le_word, le_word_at, push_le, lemma_le_round_trip};
use crate::padding::{padded_le, push_pad_body, lemma_padded_le};
use crate::rotate::{rotl, rotate_left};
use crate::MAC;

verus! {

/// The working registers `(a, b, c, d)`.
pub type Md5Regs = (u32, u32, u32, u32);

pub const MD_BUFFER: [u32; 4] = [0x67452301, 0xefcdab89, 0x98badcfe, 0x10325476];

/// `floor(2^32 * |sin(t + 1)|)` for operation `t`.
pub const SINCONST: [u32; 64] = [
    0xd76aa478, 0xe8c7b756, 0x242070db, 0xc1bdceee, 0xf57c0faf, 0x4787c62a, 0xa8304613, 0xfd469501,
    0x698098d8, 0x8b44f7af, 0xffff5bb1, 0x895cd7be, 0x6b901122, 0xfd987193, 0xa679438e, 0x49b40821,
    0xf61e2562, 0xc040b340, 0x265e5a51, 0xe9b6c7aa, 0xd62f105d, 0x02441453, 0xd8a1e681, 0xe7d3fbc8,
    0x21e1cde6, 0xc33707d6, 0xf4d50d87, 0x455a14ed, 0xa9e3e905, 0xfcefa3f8, 0x676f02d9, 0x8d2a4c8a,
    0xfffa3942, 0x8771f681, 0x6d9d6122, 0xfde5380c, 0xa4beea44, 0x4bdecfa9, 0xf6bb4b60, 0xbebfbc70,
    0x289b7ec6, 0xeaa127fa, 0xd4ef3085, 0x04881d05, 0xd9d4d039, 0xe6db99e5, 0x1fa27cf8, 0xc4ac5665,
    0xf4292244, 0x432aff97, 0xab9423a7, 0xfc93a039, 0x655b59c3, 0x8f0ccc92, 0xffeff47d, 0x85845dd1,
    0x6fa87e4f, 0xfe2ce6e0, 0xa3014314, 0x4e0811a1, 0xf7537e82, 0xbd3af235, 0x2ad7d2bb, 0xeb86d391,
];

/// Rotation amounts: four for each round, used in turn.
pub const SHIFT: [u32; 16] = [7, 12, 17, 22, 5, 9, 14, 20, 4, 11, 16, 23, 6, 10, 15, 21];

/// The registers before the first block.
pub open spec fn md5_init() -> Md5Regs {
    (MD_BUFFER@[0], MD_BUFFER@[1], MD_BUFFER@[2], MD_BUFFER@[3])
}

/// Round 1's auxiliary function.
pub open spec fn md5_f(b: u32, c: u32, d: u32) -> u32 {
    (b & c) | (!b & d)
}

/// Round 2's auxiliary function.
pub open spec fn md5_g(b: u32, c: u32, d: u32) -> u32 {
    (b & d) | (c & !d)
}

/// Round 3's auxiliary function.
pub open spec fn md5_h(b: u32, c: u32, d: u32) -> u32 {
    b ^ c ^ d
}

/// Round 4's auxiliary function.
pub open spec fn md5_i(b: u32, c: u32, d: u32) -> u32 {
    c ^ (b | !d)
}

/// The auxiliary function of operation `t` (0 to 63).
pub open spec fn md5_aux(t: int, b: u32, c: u32, d: u32) -> u32 {
    if t < 16 {
        md5_f(b, c, d)
    } else if t < 32 {
        md5_g(b, c, d)
    } else if t < 48 {
        md5_h(b, c, d)
    } else {
        md5_i(b, c, d)
    }
}

/// Which of the block's sixteen words operation `t` reads.
pub open spec fn md5_word_index(t: int) -> int {
    let k = t % 16;
    if t < 16 {
        k
    } else if t < 32 {
        (1 + 5 * k) % 16
    } else if t < 48 {
        (5 + 3 * k) % 16
    } else {
        (7 * k) % 16
    }
}

/// The rotation amount of operation `t`.
pub open spec fn md5_shift(t: int) -> u32 {
    SHIFT@[4 * (t / 16) + t % 4]
}

/// One operation: `b + ((a + aux + element + sincon) <<< shift)`, modulo 2^32.
pub open spec fn md5_op(a: u32, b: u32, aux: u32, element: u32, shift: u32, sincon: u32) -> u32 {
    b.wrapping_add(rotl(a.wrapping_add(aux).wrapping_add(element).wrapping_add(sincon), shift))
}

/// Operation `t` on the registers, with the block's words `w`: the new value
/// goes to `b`, and `(a, b, c, d)` move on to `(d, new, b, c)`.
pub open spec fn md5_step(r: Md5Regs, t: int, w: Seq<u32>) -> Md5Regs {
    let (a, b, c, d) = r;
    (d, md5_op(a, b, md5_aux(t, b, c, d), w[md5_word_index(t)], md5_shift(t), SINCONST@[t]), b, c)
}

/// Operations `lo` up to (not including) `hi`, in order.
pub open spec fn md5_steps(r: Md5Regs, w: Seq<u32>, lo: int, hi: int) -> Md5Regs
    decreases hi - lo,
{
    if hi <= lo {
        r
    } else {
        md5_step(md5_steps(r, w, lo, hi - 1), hi - 1, w)
    }
}

/// Round `j` (0 to 3): operations `16 j` to `16 j + 15`.
pub open spec fn md5_round(r: Md5Regs, w: Seq<u32>, j: int) -> Md5Regs {
    md5_steps(r, w, 16 * j, 16 * j + 16)
}

/// One block: the four rounds, then the registers from before the block
/// added back in.
pub open spec fn md5_compress(r: Md5Regs, w: Seq<u32>) -> Md5Regs {
    let s = md5_round(md5_round(md5_round(md5_round(r, w, 0), w, 1), w, 2), w, 3);
    (s.0.wrapping_add(r.0), s.1.wrapping_add(r.1), s.2.wrapping_add(r.2), s.3.wrapping_add(r.3))
}

/// The sixteen little-endian words of block `i` of `p`.
pub open spec fn md5_block_words(p: Seq<u8>, i: int) -> Seq<u32> {
    Seq::new(16, |x: int| le_word(p, 64 * i + 4 * x))
}

/// The registers after the first `n` blocks of the padded buffer `p`.
pub open spec fn md5_blocks(p: Seq<u8>, n: nat) -> Md5Regs
    decreases n,
{
    if n == 0 {
        md5_init()
    } else {
        md5_compress(md5_blocks(p, (n - 1) as nat), md5_block_words(p, n - 1))
    }
}

/// The four registers, each least significant byte first.
pub open spec fn md5_regs_bytes(r: Md5Regs) -> Seq<u8> {
    le_bytes(r.0 as nat, 4) + le_bytes(r.1 as nat, 4) + le_bytes(r.2 as nat, 4) + le_bytes(
        r.3 as nat,
        4,
    )
}

/// The MD5 digest of `m`.
pub open spec fn md5_digest(m: Seq<u8>) -> Seq<u8> {
    let p = padded_le(m);
    md5_regs_bytes(md5_blocks(p, p.len() / 64))
}

/// Equal messages have equal MD5 digests: the digest depends on the message
/// alone.
pub proof fn lemma_md5_deterministic(m1: Seq<u8>, m2: Seq<u8>)
    requires
        m1 == m2,
    ensures
        md5_digest(m1) == md5_digest(m2),
{
}

/// Every MD5 digest is 16 bytes long, whatever the length of the message.
pub proof fn lemma_md5_digest_len(m: Seq<u8>)
    ensures
        md5_digest(m).len() == 16,
{
    let r = md5_blocks(padded_le(m), padded_le(m).len() / 64);
    lemma_le_round_trip(r.0 as nat, 4);
    lemma_le_round_trip(r.1 as nat, 4);
    lemma_le_round_trip(r.2 as nat, 4);
    lemma_le_round_trip(r.3 as nat, 4);
}

/// MD5: 512-bit blocks, a 128-bit digest, no bound on the message size.
pub struct MD5 {}

impl MAC for MD5 {
    const BLOCK_SIZE: u16 = 512;
    const DIGEST_SIZE: u16 = 128;
    const WORD_SIZE: u16 = 32;
    const MAX_SIZE: usize = 0;

    type Digest = Vec<u8>;

    /// The MD5 digest of `v`, as `md5` computes it.
    fn hash(v: Vec<u8>) -> (r: Vec<u8>)
        ensures
            r@ == md5_digest(v@),
            r@.len() == 16,
    {
        md5(v)
    }
}

struct MD5State {
    input: Vec<u8>,
    a: u32,
    b: u32,
    c: u32,
    d: u32,
}

impl MD5State {
    spec fn regs(&self) -> Md5Regs {
        (self.a, self.b, self.c, self.d)
    }
}

/// The MD5 digest of `input`: 16 bytes.
pub fn md5(input: Vec<u8>) -> (r: Vec<u8>)
    ensures
        r@ == md5_digest(input@),
        r@.len() == 16,
{
    let ghost m = input@;
    let mut input = input;
    let length: u128 = input.len() as u128 * 8;
    push_pad_body(&mut input, 64, 8);
    push_le(&mut input, length, 8);
    proof {
        lemma_padded_le(m);
    }
    let mut state = MD5State {
        input: input,
        a: MD_BUFFER[0],
        b: MD_BUFFER[1],
        c: MD_BUFFER[2],
        d: MD_BUFFER[3],
    };
    let blocks = state.input.len() / 64;
    for i in 0..blocks
        invariant
            state.input@ == padded_le(m),
            blocks == padded_le(m).len() / 64,
            state.regs() == md5_blocks(padded_le(m), i as nat),
    {
        let prev_a = state.a;
        let prev_b = state.b;
        let prev_c = state.c;
        let prev_d = state.d;

        round1(&mut state, i);
        round2(&mut state, i);
        round3(&mut state, i);
        round4(&mut state, i);

        state.a = state.a.wrapping_add(prev_a);
        state.b = state.b.wrapping_add(prev_b);
        state.c = state.c.wrapping_add(prev_c);
        state.d = state.d.wrapping_add(prev_d);
    }
    let mut hash: Vec<u8> = Vec::new();
    push_le(&mut hash, state.a as u128, 4);
    push_le(&mut hash, state.b as u128, 4);
    push_le(&mut hash, state.c as u128, 4);
    push_le(&mut hash, state.d as u128, 4);
    proof {
        lemma_le_round_trip(state.a as nat, 4);
        lemma_le_round_trip(state.b as nat, 4);
        lemma_le_round_trip(state.c as nat, 4);
        lemma_le_round_trip(state.d as nat, 4);
        assert(hash@ =~= md5_regs_bytes(state.regs()));
    }
    hash
}

fn round1(state: &mut MD5State, i: usize)
    requires
        64 * i + 64 <= old(state).input@.len(),
    ensures
        final(state).input@ == old(state).input@,
        final(state).regs() == md5_round(
            old(state).regs(),
            md5_block_words(old(state).input@, i as int),
            0,
        ),
{
    let ghost w = md5_block_words(state.input@, i as int);
    let ghost start = state.regs();
    let len = state.input.len();
    let base = 64 * i;
    for k in 0..16
        invariant
            state.input@ == old(state).input@,
            base == 64 * i,
            base + 64 <= state.input@.len() == len,
            w == md5_block_words(state.input@, i as int),
            state.regs() == md5_steps(start, w, 0, k as int),
    {
        proof {
            let t: int = 0 + k as int;
            assert(t % 16 == k && t / 16 == 0 && t % 4 == k % 4);
        }
        let x = le_word_at(&state.input, base + 4 * k);
        let t = f(state.a, state.b, state.c, state.d, x, SHIFT[k % 4], SINCONST[k]);
        state.a = state.d;
        state.d = state.c;
        state.c = state.b;
        state.b = t;
    }
}

fn round2(state: &mut MD5State, i: usize)
    requires
        64 * i + 64 <= old(state).input@.len(),
    ensures
        final(state).input@ == old(state).input@,
        final(state).regs() == md5_round(
            old(state).regs(),
            md5_block_words(old(state).input@, i as int),
            1,
        ),
{
    let ghost w = md5_block_words(state.input@, i as int);
    let ghost start = state.regs();
    let len = state.input.len();
    let base = 64 * i;
    for k in 0..16
        invariant
            state.input@ == old(state).input@,
            base == 64 * i,
            base + 64 <= state.input@.len() == len,
            w == md5_block_words(state.input@, i as int),
            state.regs() == md5_steps(start, w, 16, 16 + k),
    {
        proof {
            let t: int = 16 + k as int;
            assert(t % 16 == k && t / 16 == 1 && t % 4 == k % 4);
        }
        let x = le_word_at(&state.input, base + 4 * ((1 + 5 * k) % 16));
        let t = g(state.a, state.b, state.c, state.d, x, SHIFT[4 + k % 4], SINCONST[16 + k]);
        state.a = state.d;
        state.d = state.c;
        state.c = state.b;
        state.b = t;
    }
}

fn round3(state: &mut MD5State, i: usize)
    requires
        64 * i + 64 <= old(state).input@.len(),
    ensures
        final(state).input@ == old(state).input@,
        final(state).regs() == md5_round(
            old(state).regs(),
            md5_block_words(old(state).input@, i as int),
            2,
        ),
{
    let ghost w = md5_block_words(state.input@, i as int);
    let ghost start = state.regs();
    let len = state.input.len();
    let base = 64 * i;
    for k in 0..16
        invariant
            state.input@ == old(state).input@,
            base == 64 * i,
            base + 64 <= state.input@.len() == len,
            w == md5_block_words(state.input@, i as int),
            state.regs() == md5_steps(start, w, 32, 32 + k),
    {
        proof {
            let t: int = 32 + k as int;
            assert(t % 16 == k && t / 16 == 2 && t % 4 == k % 4);
        }
        let x = le_word_at(&state.input, base + 4 * ((5 + 3 * k) % 16));
        let t = h(state.a, state.b, state.c, state.d, x, SHIFT[8 + k % 4], SINCONST[32 + k]);
        state.a = state.d;
        state.d = state.c;
        state.c = state.b;
        state.b = t;
    }
}

fn round4(state: &mut MD5State, i: usize)
    requires
        64 * i + 64 <= old(state).input@.len(),
    ensures
        final(state).input@ == old(state).input@,
        final(state).regs() == md5_round(
            old(state).regs(),
            md5_block_words(old(state).input@, i as int),
            3,
        ),
{
    let ghost w = md5_block_words(state.input@, i as int);
    let ghost start = state.regs();
    let len = state.input.len();
    let base = 64 * i;
    for k in 0..16
        invariant
            state.input@ == old(state).input@,
            base == 64 * i,
            base + 64 <= state.input@.len() == len,
            w == md5_block_words(state.input@, i as int),
            state.regs() == md5_steps(start, w, 48, 48 + k),
    {
        proof {
            let t: int = 48 + k as int;
            assert(t % 16 == k && t / 16 == 3 && t % 4 == k % 4);
        }
        let x = le_word_at(&state.input, base + 4 * ((7 * k) % 16));
        let t = fi(state.a, state.b, state.c, state.d, x, SHIFT[12 + k % 4], SINCONST[48 + k]);
        state.a = state.d;
        state.d = state.c;
        state.c = state.b;
        state.b = t;
    }
}

fn f(a: u32, b: u32, c: u32, d: u32, element: u32, shift: u32, sincon: u32) -> (r: u32)
    ensures
        r == md5_op(a, b, md5_f(b, c, d), element, shift, sincon),
{
    let sum = a.wrapping_add((b & c) | (!b & d)).wrapping_add(element).wrapping_add(sincon);
    b.wrapping_add(rotate_left(sum, shift))
}

fn g(a: u32, b: u32, c: u32, d: u32, element: u32, shift: u32, sincon: u32) -> (r: u32)
    ensures
        r == md5_op(a, b, md5_g(b, c, d), element, shift, sincon),
{
    let sum = a.wrapping_add((b & d) | (c & !d)).wrapping_add(element).wrapping_add(sincon);
    b.wrapping_add(rotate_left(sum, shift))
}

fn h(a: u32, b: u32, c: u32, d: u32, element: u32, shift: u32, sincon: u32) -> (r: u32)
    ensures
        r == md5_op(a, b, md5_h(b, c, d), element, shift, sincon),
{
    let sum = a.wrapping_add(b ^ c ^ d).wrapping_add(element).wrapping_add(sincon);
    b.wrapping_add(rotate_left(sum, shift))
}

fn fi(a: u32, b: u32, c: u32, d: u32, element: u32, shift: u32, sincon: u32) -> (r: u32)
    ensures
        r == md5_op(a, b, md5_i(b, c, d), element, shift, sincon),
{
    let sum = a.wrapping_add(c ^ (b | !d)).wrapping_add(element).wrapping_add(sincon);
    b.wrapping_add(rotate_left(sum, shift))
}

} // verus!
