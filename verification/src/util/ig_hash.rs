//! The 32-bit name hash (FNV-1a) by which names, paths and namespaces are
//! indexed.

use crate::util::text::{lowercase_of, to_lowercase};
use vstd::prelude::*;
use vstd::string::StringSliceAdditionalSpecFns;

verus! {

/// Start value of the hash.
pub const HASH_BASIS: u32 = 0x811c9dc5;

/// Multiplier of the hash.
pub const HASH_PRIME: u32 = 0x01000193;

/// One step: mix a byte into the state, then multiply, modulo `2^32`.
pub open spec fn spec_hash_step(state: u32, byte: u8) -> u32 {
    (((state ^ (byte as u32)) as int * HASH_PRIME as int) % 0x1_0000_0000) as u32
}

/// The hash of a byte string: the steps folded over the bytes from the left.
pub open spec fn spec_hash_bytes(bytes: Seq<u8>) -> u32
    decreases bytes.len(),
{
    if bytes.len() == 0 {
        HASH_BASIS
    } else {
        spec_hash_step(spec_hash_bytes(bytes.drop_last()), bytes.last())
    }
}

/// The hash of a text: that of its UTF-8 bytes.
pub open spec fn spec_hash(s: Seq<char>) -> u32 {
    spec_hash_bytes(vstd::utf8::encode_utf8(s))
}

/// The case-insensitive hash of a text: the hash of its lowercase form.
pub open spec fn spec_hash_lower(s: Seq<char>) -> u32 {
    spec_hash(lowercase_of(s))
}

/// Hashes a byte string.
pub fn hash_bytes(bytes: &[u8]) -> (h: u32)
    ensures
        h == spec_hash_bytes(bytes@),
{
    let mut h: u32 = HASH_BASIS;
    let mut i: usize = 0;
    while i < bytes.len()
        invariant
            i <= bytes.len(),
            h == spec_hash_bytes(bytes@.subrange(0, i as int)),
        decreases bytes.len() - i,
    {
        let mixed: u32 = h ^ (bytes[i] as u32);
        assert(bytes@.subrange(0, i + 1).drop_last() =~= bytes@.subrange(0, i as int));
        h = mixed.wrapping_mul(HASH_PRIME);
        i = i + 1;
    }
    assert(bytes@.subrange(0, bytes.len() as int) =~= bytes@);
    h
}

/// Hashes a text.
pub fn hash(s: &str) -> (h: u32)
    ensures
        h == spec_hash(s@),
{
    hash_bytes(s.as_bytes())
}

/// Hashes a text without regard to case.
pub fn hash_lower(s: &str) -> (h: u32)
    ensures
        h == spec_hash_lower(s@),
{
    let lower = to_lowercase(s);
    hash(lower.as_str())
}

} // verus!
