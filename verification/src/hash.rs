//! The 64-bit content fingerprint used by the streams table for change
//! detection. It is a Fowler–Noll–Vo style fold over the characters of a
//! string; per-entry fingerprints combine the component hashes with XOR.

use vstd::prelude::*;
use vstd::string::StrSliceExecFns;

verus! {

/// Offset basis of the 64-bit fold.
pub const HASH_BASIS: u64 = 0xcbf29ce484222325;

/// Multiplicative prime of the 64-bit fold.
pub const HASH_PRIME: u64 = 0x100000001b3;

/// One folding step: mix one character into the running hash.
pub open spec fn hash_step(h: u64, c: char) -> u64 {
    ((((h ^ (c as u64)) as u128) * (HASH_PRIME as u128)) % 0x1_0000_0000_0000_0000) as u64
}

/// The hash of a character sequence, folded left to right from `h`.
pub open spec fn hash_fold(h: u64, s: Seq<char>) -> u64
    decreases s.len(),
{
    if s.len() == 0 {
        h
    } else {
        hash_fold(hash_step(h, s[0]), s.skip(1))
    }
}

/// The content hash of a character sequence.
pub open spec fn spec_hash_chars(s: Seq<char>) -> u64 {
    hash_fold(HASH_BASIS, s)
}

/// Computes the content hash of a string, exact against `spec_hash_chars`.
pub fn calculate_hash(data: &str) -> (r: u64)
    ensures
        r == spec_hash_chars(data@),
{
    let len = data.unicode_len();
    let mut h: u64 = HASH_BASIS;
    proof {
        assert(data@.skip(0) =~= data@);
    }
    let mut i: usize = 0;
    while i < len
        invariant
            i <= len,
            len == data@.len(),
            hash_fold(h, data@.skip(i as int)) == spec_hash_chars(data@),
        decreases len - i,
    {
        let c = data.get_char(i);
        proof {
            assert(data@.skip(i as int)[0] == data@[i as int]);
            assert(data@.skip(i as int).skip(1) =~= data@.skip(i as int + 1));
        }
        let mixed: u64 = h ^ (c as u64);
        let wide: u128 = (mixed as u128) * (HASH_PRIME as u128);
        let folded: u64 = (wide % 0x1_0000_0000_0000_0000) as u64;
        assert(folded == hash_step(h, c));
        h = folded;
        i = i + 1;
    }
    proof {
        assert(data@.skip(len as int) =~= Seq::<char>::empty());
    }
    h
}

} // verus!
