//! The content hash of a provider's canonical text.
//!
//! The hash is 64-bit FNV-1a over the UTF-8 bytes of the canonical text: a
//! fixed-width value that is a pure function of the text, so that two
//! providers with identical canonical text always hash alike.

use vstd::prelude::*;
use vstd::utf8::encode_utf8;

verus! {

/// The FNV-1a 64-bit offset basis.
pub const FNV_OFFSET: u64 = 0xcbf29ce484222325;

/// The FNV-1a 64-bit prime.
pub const FNV_PRIME: u64 = 0x100000001b3;

/// One FNV-1a round: fold one byte into the running hash.
pub open spec fn fnv_step(h: u64, b: u8) -> u64 {
    vstd::wrapping::u64_specs::wrapping_mul(h ^ (b as u64), FNV_PRIME)
}

/// FNV-1a over the first `i` bytes.
pub open spec fn fnv1a_to(bytes: Seq<u8>, i: int) -> u64
    decreases i,
{
    if i <= 0 {
        FNV_OFFSET
    } else {
        fnv_step(fnv1a_to(bytes, i - 1), bytes[i - 1])
    }
}

/// FNV-1a over a byte sequence.
pub open spec fn fnv1a(bytes: Seq<u8>) -> u64 {
    fnv1a_to(bytes, bytes.len() as int)
}

/// The content hash of a text: FNV-1a over its UTF-8 bytes.
pub open spec fn spec_content_hash(text: Seq<char>) -> u64 {
    fnv1a(encode_utf8(text))
}

/// Computes the content hash of a text.
pub fn hash_text(text: &str) -> (r: u64)
    ensures
        r == spec_content_hash(text@),
{
    let bytes: &[u8] = text.as_bytes();
    let mut h: u64 = FNV_OFFSET;
    let n = bytes.len();
    for i in 0..n
        invariant
            n == bytes@.len(),
            bytes@ == encode_utf8(text@),
            h == fnv1a_to(bytes@, i as int),
    {
        let b: u8 = bytes[i];
        h = (h ^ (b as u64)).wrapping_mul(FNV_PRIME);
    }
    h
}

} // verus!
