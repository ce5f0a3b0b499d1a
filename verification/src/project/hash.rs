use vstd::prelude::*;
use vstd::string::StringSliceAdditionalSpecFns;

verus! {

/// The FNV-1a offset basis that every hash starts from.
pub const FNV_OFFSET: u64 = 0xcbf29ce484222325;

/// The FNV-1a prime that each step multiplies by.
pub const FNV_PRIME: u64 = 0x100000001b3;

/// One FNV-1a step: xor the byte in, then multiply by the prime modulo 2^64.
pub open spec fn fnv_step(hash: u64, byte: u8) -> u64 {
    (hash ^ (byte as u64)).wrapping_mul(FNV_PRIME)
}

/// The FNV-1a hash of a byte sequence, folded from the left.
pub open spec fn fnv_hash(bytes: Seq<u8>) -> u64
    decreases bytes.len(),
{
    if bytes.len() == 0 {
        FNV_OFFSET
    } else {
        fnv_step(fnv_hash(bytes.drop_last()), bytes.last())
    }
}

/// Hashes bytes with 64-bit FNV-1a.
pub fn stable_hash_bytes(bytes: &[u8]) -> (hash: u64)
    ensures
        hash == fnv_hash(bytes@),
{
    let mut hash: u64 = FNV_OFFSET;
    let mut index: usize = 0;
    while index < bytes.len()
        invariant
            index <= bytes@.len(),
            hash == fnv_hash(bytes@.take(index as int)),
        decreases bytes@.len() - index,
    {
        assert(bytes@.take(index as int + 1).drop_last() == bytes@.take(index as int));
        hash = (hash ^ (bytes[index] as u64)).wrapping_mul(FNV_PRIME);
        index += 1;
    }
    assert(bytes@.take(bytes@.len() as int) == bytes@);
    hash
}

} // verus!

verus! {

/// Hashes the UTF-8 bytes of a string with 64-bit FNV-1a.
pub fn stable_hash_str(value: &str) -> (hash: u64)
    ensures
        hash == fnv_hash(value.spec_bytes()),
{
    stable_hash_bytes(value.as_bytes())
}

} // verus!
