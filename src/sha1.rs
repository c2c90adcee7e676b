//! SHA-1 (FIPS 180-1): an 80-word message schedule and 80 steps in four bands
//! over each 64-byte block, words read big-endian. The digest serialises each
//! of the five registers least significant byte first, so each 4-byte group is
//! the reverse of the conventional big-endian SHA-1 digest.
use vstd::prelude::*;
use crate::endian::{be_word, be_word_at, le_bytes, push_le, lemma_le_round_trip};
use crate::padding::{padded_v1, padding_v1, lemma_padded_v1};
use crate::rotate::{rotl, rotate_left};
use crate::MAC;

verus! {

/// The working registers `(a, b, c, d, e)`.
pub type Sha1Regs = (u32, u32, u32, u32, u32);

/// The registers before the first block.
pub const INIT: [u32; 5] = [0x67452301, 0xefcdab89, 0x98badcfe, 0x10325476, 0xc3d2e1f0];

/// The registers before the first block, as a tuple.
pub open spec fn sha1_init() -> Sha1Regs {
    (INIT@[0], INIT@[1], INIT@[2], INIT@[3], INIT@[4])
}

/// The band function of step `t` (0 to 79).
pub open spec fn sha1_ft(t: int, b: u32, c: u32, d: u32) -> u32 {
    if t < 20 {
        (b & c) | (!b & d)
    } else if t < 40 {
        b ^ c ^ d
    } else if t < 60 {
        (b & c) | (b & d) | (c & d)
    } else {
        b ^ c ^ d
    }
}

/// The additive constant of step `t` (0 to 79).
pub open spec fn sha1_kt(t: int) -> u32 {
    if t < 20 {
        0x5a827999
    } else if t < 40 {
        0x6ed9eba1
    } else if t < 60 {
        0x8f1bbcdc
    } else {
        0xca62c1d6
    }
}

/// Word `t` of the message schedule of a block whose sixteen words are `m`.
pub open spec fn sha1_schedule(m: Seq<u32>, t: nat) -> u32
    decreases t,
{
    if t < 16 {
        m[t as int]
    } else {
        rotl(
            sha1_schedule(m, (t - 3) as nat) ^ sha1_schedule(m, (t - 8) as nat) ^ sha1_schedule(
                m,
                (t - 14) as nat,
            ) ^ sha1_schedule(m, (t - 16) as nat),
            1,
        )
    }
}

/// Step `t` on the registers, with schedule word `wt`.
pub open spec fn sha1_step(r: Sha1Regs, t: int, wt: u32) -> Sha1Regs {
    let (a, b, c, d, e) = r;
    let temp = rotl(a, 5).wrapping_add(e).wrapping_add(wt).wrapping_add(
        sha1_ft(t, b, c, d).wrapping_add(sha1_kt(t)),
    );
    (temp, a, rotl(b, 30), c, d)
}

/// The first `n` steps over a block whose sixteen words are `m`.
pub open spec fn sha1_steps(r: Sha1Regs, m: Seq<u32>, n: nat) -> Sha1Regs
    decreases n,
{
    if n == 0 {
        r
    } else {
        sha1_step(sha1_steps(r, m, (n - 1) as nat), n - 1, sha1_schedule(m, (n - 1) as nat))
    }
}

/// One block: the 80 steps, then the registers from before the block added
/// back in.
pub open spec fn sha1_compress(r: Sha1Regs, m: Seq<u32>) -> Sha1Regs {
    let s = sha1_steps(r, m, 80);
    (
        s.0.wrapping_add(r.0),
        s.1.wrapping_add(r.1),
        s.2.wrapping_add(r.2),
        s.3.wrapping_add(r.3),
        s.4.wrapping_add(r.4),
    )
}

/// The sixteen big-endian words of block `i` of `p`.
pub open spec fn sha1_block_words(p: Seq<u8>, i: int) -> Seq<u32> {
    Seq::new(16, |x: int| be_word(p, 64 * i + 4 * x))
}

/// The registers after the first `n` blocks of the padded buffer `p`.
pub open spec fn sha1_blocks(p: Seq<u8>, n: nat) -> Sha1Regs
    decreases n,
{
    if n == 0 {
        sha1_init()
    } else {
        sha1_compress(sha1_blocks(p, (n - 1) as nat), sha1_block_words(p, n - 1))
    }
}

/// The five registers, each least significant byte first.
pub open spec fn sha1_regs_bytes(r: Sha1Regs) -> Seq<u8> {
    le_bytes(r.0 as nat, 4) + le_bytes(r.1 as nat, 4) + le_bytes(r.2 as nat, 4) + le_bytes(
        r.3 as nat,
        4,
    ) + le_bytes(r.4 as nat, 4)
}

/// The SHA-1 digest of `m`, with each register serialised least significant
/// byte first. Defined where the bit length of `m` fits in 64 bits.
pub open spec fn sha1_digest(m: Seq<u8>) -> Seq<u8> {
    let p = padded_v1(m);
    sha1_regs_bytes(sha1_blocks(p, p.len() / 64))
}

/// Equal messages have equal SHA-1 digests: the digest depends on the
/// message alone.
pub proof fn lemma_sha1_deterministic(m1: Seq<u8>, m2: Seq<u8>)
    requires
        m1 == m2,
    ensures
        sha1_digest(m1) == sha1_digest(m2),
{
}

/// Every SHA-1 digest is 20 bytes long, whatever the length of the message.
pub proof fn lemma_sha1_digest_len(m: Seq<u8>)
    ensures
        sha1_digest(m).len() == 20,
{
    let r = sha1_blocks(padded_v1(m), padded_v1(m).len() / 64);
    lemma_le_round_trip(r.0 as nat, 4);
    lemma_le_round_trip(r.1 as nat, 4);
    lemma_le_round_trip(r.2 as nat, 4);
    lemma_le_round_trip(r.3 as nat, 4);
    lemma_le_round_trip(r.4 as nat, 4);
}

/// SHA-1: 512-bit blocks, a 160-bit digest.
pub struct SHA1 {}

impl MAC for SHA1 {
    const BLOCK_SIZE: u16 = 512;
    const DIGEST_SIZE: u16 = 160;
    const WORD_SIZE: u16 = 32;
    const MAX_SIZE: usize = usize::MAX;

    type Digest = Result<[u8; 20], ()>;

    /// The SHA-1 digest of `v`; an error where the bit length of `v` does not
    /// fit in 64 bits.
    fn hash(v: Vec<u8>) -> (r: Result<[u8; 20], ()>)
        ensures
            r is Err <==> v@.len() * 8 > u64::MAX,
            r matches Ok(d) ==> d@ == sha1_digest(v@),
    {
        let ghost m = v@;
        let mut v = v;
        if padding_v1(&mut v).is_err() {
            return Err(());
        }
        proof {
            lemma_padded_v1(m);
        }
        let mut a: u32 = INIT[0];
        let mut b: u32 = INIT[1];
        let mut c: u32 = INIT[2];
        let mut d: u32 = INIT[3];
        let mut e: u32 = INIT[4];

        let len = v.len();
        let blocks = len / 64;
        for i in 0..blocks
            invariant
                v@ == padded_v1(m),
                len == v@.len(),
                blocks == len / 64,
                (a, b, c, d, e) == sha1_blocks(v@, i as nat),
        {
            let ghost words = sha1_block_words(v@, i as int);
            let base = 64 * i;
            let mut w_block: Vec<u32> = Vec::new();
            for x in 0..16
                invariant
                    base == 64 * i,
                    base + 64 <= len == v@.len(),
                    words == sha1_block_words(v@, i as int),
                    w_block@.len() == x,
                    forall|j: int| 0 <= j < x ==> #[trigger] w_block@[j] == sha1_schedule(words, j as nat),
            {
                w_block.push(be_word_at(&v, base + 4 * x));
            }
            for x in 16..80
                invariant
                    w_block@.len() == x,
                    forall|j: int| 0 <= j < x ==> #[trigger] w_block@[j] == sha1_schedule(words, j as nat),
            {
                let wx = rotate_left(w_block[x - 3] ^ w_block[x - 8] ^ w_block[x - 14] ^ w_block[x - 16], 1);
                w_block.push(wx);
            }

            let (bef_a, bef_b, bef_c, bef_d, bef_e) = (a, b, c, d, e);

            for x in 0..80
                invariant
                    w_block@.len() == 80,
                    forall|j: int| 0 <= j < 80 ==> #[trigger] w_block@[j] == sha1_schedule(words, j as nat),
                    (a, b, c, d, e) == sha1_steps((bef_a, bef_b, bef_c, bef_d, bef_e), words, x as nat),
            {
                let temp = rotate_left(a, 5).wrapping_add(e).wrapping_add(w_block[x]).wrapping_add(
                    SHA1::f(x, b, c, d),
                );
                e = d;
                d = c;
                c = rotate_left(b, 30);
                b = a;
                a = temp;
            }

            a = a.wrapping_add(bef_a);
            b = b.wrapping_add(bef_b);
            c = c.wrapping_add(bef_c);
            d = d.wrapping_add(bef_d);
            e = e.wrapping_add(bef_e);
        }
        let mut bytes: Vec<u8> = Vec::new();
        push_le(&mut bytes, a as u128, 4);
        push_le(&mut bytes, b as u128, 4);
        push_le(&mut bytes, c as u128, 4);
        push_le(&mut bytes, d as u128, 4);
        push_le(&mut bytes, e as u128, 4);
        proof {
            lemma_le_round_trip(a as nat, 4);
            lemma_le_round_trip(b as nat, 4);
            lemma_le_round_trip(c as nat, 4);
            lemma_le_round_trip(d as nat, 4);
            lemma_le_round_trip(e as nat, 4);
            assert(bytes@ =~= sha1_regs_bytes((a, b, c, d, e)));
        }
        let hash = [
            bytes[0], bytes[1], bytes[2], bytes[3], bytes[4], bytes[5], bytes[6], bytes[7],
            bytes[8], bytes[9], bytes[10], bytes[11], bytes[12], bytes[13], bytes[14], bytes[15],
            bytes[16], bytes[17], bytes[18], bytes[19],
        ];
        assert(hash@ =~= bytes@);
        Ok(hash)
    }
}

impl SHA1 {
    /// The band function of step `i` plus the band's constant.
    fn f(i: usize, x: u32, y: u32, z: u32) -> (r: u32)
        requires
            i < 80,
        ensures
            r == sha1_ft(i as int, x, y, z).wrapping_add(sha1_kt(i as int)),
    {
        if i < 20 {
            ((x & y) | (!x & z)).wrapping_add(0x5a827999)
        } else if i < 40 {
            (x ^ y ^ z).wrapping_add(0x6ed9eba1)
        } else if i < 60 {
            ((x & y) | (x & z) | (y & z)).wrapping_add(0x8f1bbcdc)
        } else {
            (x ^ y ^ z).wrapping_add(0xca62c1d6)
        }
    }
}

} // verus!
