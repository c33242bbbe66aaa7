use vstd::prelude::*;
use vstd::string::StringSliceAdditionalSpecFns;

verus! {

/// FNV-1a (64-bit) offset basis.
pub const FNV64_OFFSET: u64 = 0xcbf29ce484222325;

/// FNV-1a (64-bit) prime.
pub const FNV64_PRIME: u64 = 0x100000001b3;

/// FNV-1a (32-bit) offset basis.
pub const FNV32_OFFSET: u32 = 0x811c9dc5;

/// FNV-1a (32-bit) prime.
pub const FNV32_PRIME: u32 = 0x01000193;

/// The 64-bit FNV-1a hash of `bytes`: start from the offset basis, then for each byte xor
/// it in and multiply by the prime, wrapping.
pub open spec fn spec_fnv1a(bytes: Seq<u8>) -> u64
    decreases bytes.len(),
{
    if bytes.len() == 0 {
        FNV64_OFFSET
    } else {
        (spec_fnv1a(bytes.drop_last()) ^ (bytes.last() as u64)).wrapping_mul(FNV64_PRIME)
    }
}

/// The 32-bit FNV-1a hash of `bytes`.
pub open spec fn spec_fnv1a_32(bytes: Seq<u8>) -> u32
    decreases bytes.len(),
{
    if bytes.len() == 0 {
        FNV32_OFFSET
    } else {
        (spec_fnv1a_32(bytes.drop_last()) ^ (bytes.last() as u32)).wrapping_mul(FNV32_PRIME)
    }
}

/// The 64-bit FNV-1a hash of the UTF-8 bytes of `s`.
pub fn fnv1a(s: &str) -> (r: u64)
    ensures
        r == spec_fnv1a(s.spec_bytes()),
{
    fnv1a_bytes(s.as_bytes())
}

/// The 64-bit FNV-1a hash of `bytes`.
pub fn fnv1a_bytes(bytes: &[u8]) -> (r: u64)
    ensures
        r == spec_fnv1a(bytes@),
{
    let mut hash: u64 = FNV64_OFFSET;
    let mut i: usize = 0;
    while i < bytes.len()
        invariant
            0 <= i <= bytes@.len(),
            hash == spec_fnv1a(bytes@.subrange(0, i as int)),
        decreases bytes@.len() - i,
    {
        proof {
            let next = bytes@.subrange(0, i + 1);
            assert(next.drop_last() =~= bytes@.subrange(0, i as int));
            assert(next.last() == bytes@[i as int]);
        }
        hash = (hash ^ (bytes[i] as u64)).wrapping_mul(FNV64_PRIME);
        i = i + 1;
    }
    assert(bytes@.subrange(0, bytes@.len() as int) =~= bytes@);
    hash
}

/// The 32-bit FNV-1a hash of the UTF-8 bytes of `s`.
pub fn fnv1a_32(s: &str) -> (r: u32)
    ensures
        r == spec_fnv1a_32(s.spec_bytes()),
{
    let bytes = s.as_bytes();
    let mut hash: u32 = FNV32_OFFSET;
    let mut i: usize = 0;
    while i < bytes.len()
        invariant
            0 <= i <= bytes@.len(),
            hash == spec_fnv1a_32(bytes@.subrange(0, i as int)),
        decreases bytes@.len() - i,
    {
        proof {
            let next = bytes@.subrange(0, i + 1);
            assert(next.drop_last() =~= bytes@.subrange(0, i as int));
            assert(next.last() == bytes@[i as int]);
        }
        hash = (hash ^ (bytes[i] as u32)).wrapping_mul(FNV32_PRIME);
        i = i + 1;
    }
    assert(bytes@.subrange(0, bytes@.len() as int) =~= bytes@);
    hash
}

} // verus!
