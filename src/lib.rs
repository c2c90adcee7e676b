//! MD5 and SHA-1 message digests over in-memory byte buffers, with their
//! padding, block iteration and round functions stated and proved against
//! mathematical definitions.
use vstd::prelude::*;

pub mod endian;
pub mod padding;
pub mod rotate;
pub mod md5;
pub mod sha1;

pub use md5::{md5, MD5};
pub use sha1::SHA1;

verus! {

/// A message digest algorithm: its geometry, and the one hashing operation.
pub trait MAC {
    /// The size of the blocks this algorithm operates on, in bits.
    const BLOCK_SIZE: u16;
    /// The size of the digest, in bits.
    const DIGEST_SIZE: u16;
    /// The largest message that can be hashed, in bits; 0 means unbounded.
    const MAX_SIZE: usize;
    /// The size of the working registers, in bits.
    const WORD_SIZE: u16;

    /// What `hash` returns.
    type Digest;

    /// Pads `v`, runs every block through the compression function and
    /// serialises the final registers.
    fn hash(v: Vec<u8>) -> Self::Digest;
}

} // verus!
