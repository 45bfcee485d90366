//! The FNV-1a hash that names per-workspace resources.

use vstd::prelude::*;
use vstd::string::StringSliceAdditionalSpecFns;

use crate::text::{format_hex16, hex_digits};

verus! {

/// 64-bit FNV-1a over `bytes`.
pub open spec fn fnv1a(bytes: Seq<u8>) -> u64
    decreases bytes.len(),
{
    if bytes.len() == 0 {
        0xcbf29ce484222325u64
    } else {
        (((fnv1a(bytes.drop_last()) ^ (bytes.last() as u64)) as nat * 0x100000001b3nat) % 0x1_0000_0000_0000_0000nat) as u64
    }
}

/// The hash of a string as it names resources: 64-bit FNV-1a over its UTF-8
/// bytes, written as sixteen lowercase hexadecimal digits.
pub open spec fn stable_hash_of(s: Seq<char>) -> Seq<char> {
    hex_digits(fnv1a(vstd::utf8::encode_utf8(s)) as nat, 16)
}

/// 64-bit FNV-1a of the UTF-8 bytes of `input`, as sixteen hexadecimal digits.
pub fn stable_hash(input: &str) -> (r: String)
    ensures
        r@ == stable_hash_of(input@),
{
    let bytes = input.as_bytes();
    let mut hash: u64 = 0xcbf29ce484222325u64;
    let mut i: usize = 0;
    while i < bytes.len()
        invariant
            bytes@ == input.spec_bytes(),
            i <= bytes@.len(),
            hash == fnv1a(bytes@.take(i as int)),
        decreases bytes@.len() - i,
    {
        assert(bytes@.take(i + 1).drop_last() =~= bytes@.take(i as int));
        assert(bytes@.take(i + 1).last() == bytes@[i as int]);
        hash = (hash ^ (bytes[i] as u64)).wrapping_mul(0x100000001b3u64);
        i = i + 1;
    }
    assert(bytes@.take(bytes@.len() as int) =~= bytes@);
    format_hex16(hash)
}

} // verus!
