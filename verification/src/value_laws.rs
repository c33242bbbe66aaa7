use vstd::prelude::*;
use crate::traits::VarMapValue;
use crate::types::ip::{IpOctets, Ipv4Octets, Ipv6Octets};
use crate::types::numbers::{F32Bits, F64Bits};
use crate::value::Content;

verus! {

// What each built-in value type reads back, which stored values it reads, and which it can
// update in place. With the contracts of `set`, `get` and `update`, these say that a write
// followed by a read of the same type gives back the value written, that a read of another
// type fails, and that `update` applies the closure to every stored number and digest.

/// A stored `u8` reads back as the same `u8`.
pub proof fn law_u8_reads_back(x: u8, d: u8)
    requires
        <u8 as VarMapValue>::decoded_content(d) == x.content(),
    ensures
        d == x,
{
}

/// A read as `u8` succeeds exactly on the values stored as `u8`.
pub proof fn law_u8_reads_only_its_own(c: Content)
    ensures
        <u8 as VarMapValue>::accepts(c) <==> exists|x: u8| #[trigger] x.content() == c,
{
    if <u8 as VarMapValue>::accepts(c) {
        let x = c->U8_0;
        assert(x.content() == c);
    }
}

/// A stored `u16` reads back as the same `u16`.
pub proof fn law_u16_reads_back(x: u16, d: u16)
    requires
        <u16 as VarMapValue>::decoded_content(d) == x.content(),
    ensures
        d == x,
{
}

/// A read as `u16` succeeds exactly on the values stored as `u16`.
pub proof fn law_u16_reads_only_its_own(c: Content)
    ensures
        <u16 as VarMapValue>::accepts(c) <==> exists|x: u16| #[trigger] x.content() == c,
{
    if <u16 as VarMapValue>::accepts(c) {
        let x = c->U16_0;
        assert(x.content() == c);
    }
}

/// A stored `u32` reads back as the same `u32`.
pub proof fn law_u32_reads_back(x: u32, d: u32)
    requires
        <u32 as VarMapValue>::decoded_content(d) == x.content(),
    ensures
        d == x,
{
}

/// A read as `u32` succeeds exactly on the values stored as `u32`.
pub proof fn law_u32_reads_only_its_own(c: Content)
    ensures
        <u32 as VarMapValue>::accepts(c) <==> exists|x: u32| #[trigger] x.content() == c,
{
    if <u32 as VarMapValue>::accepts(c) {
        let x = c->U32_0;
        assert(x.content() == c);
    }
}

/// A stored `u64` reads back as the same `u64`.
pub proof fn law_u64_reads_back(x: u64, d: u64)
    requires
        <u64 as VarMapValue>::decoded_content(d) == x.content(),
    ensures
        d == x,
{
}

/// A read as `u64` succeeds exactly on the values stored as `u64`.
pub proof fn law_u64_reads_only_its_own(c: Content)
    ensures
        <u64 as VarMapValue>::accepts(c) <==> exists|x: u64| #[trigger] x.content() == c,
{
    if <u64 as VarMapValue>::accepts(c) {
        let x = c->U64_0;
        assert(x.content() == c);
    }
}

/// A stored `i8` reads back as the same `i8`.
pub proof fn law_i8_reads_back(x: i8, d: i8)
    requires
        <i8 as VarMapValue>::decoded_content(d) == x.content(),
    ensures
        d == x,
{
}

/// A read as `i8` succeeds exactly on the values stored as `i8`.
pub proof fn law_i8_reads_only_its_own(c: Content)
    ensures
        <i8 as VarMapValue>::accepts(c) <==> exists|x: i8| #[trigger] x.content() == c,
{
    if <i8 as VarMapValue>::accepts(c) {
        let x = c->I8_0;
        assert(x.content() == c);
    }
}

/// A stored `i16` reads back as the same `i16`.
pub proof fn law_i16_reads_back(x: i16, d: i16)
    requires
        <i16 as VarMapValue>::decoded_content(d) == x.content(),
    ensures
        d == x,
{
}

/// A read as `i16` succeeds exactly on the values stored as `i16`.
pub proof fn law_i16_reads_only_its_own(c: Content)
    ensures
        <i16 as VarMapValue>::accepts(c) <==> exists|x: i16| #[trigger] x.content() == c,
{
    if <i16 as VarMapValue>::accepts(c) {
        let x = c->I16_0;
        assert(x.content() == c);
    }
}

/// A stored `i32` reads back as the same `i32`.
pub proof fn law_i32_reads_back(x: i32, d: i32)
    requires
        <i32 as VarMapValue>::decoded_content(d) == x.content(),
    ensures
        d == x,
{
}

/// A read as `i32` succeeds exactly on the values stored as `i32`.
pub proof fn law_i32_reads_only_its_own(c: Content)
    ensures
        <i32 as VarMapValue>::accepts(c) <==> exists|x: i32| #[trigger] x.content() == c,
{
    if <i32 as VarMapValue>::accepts(c) {
        let x = c->I32_0;
        assert(x.content() == c);
    }
}

/// A stored `i64` reads back as the same `i64`.
pub proof fn law_i64_reads_back(x: i64, d: i64)
    requires
        <i64 as VarMapValue>::decoded_content(d) == x.content(),
    ensures
        d == x,
{
}

/// A read as `i64` succeeds exactly on the values stored as `i64`.
pub proof fn law_i64_reads_only_its_own(c: Content)
    ensures
        <i64 as VarMapValue>::accepts(c) <==> exists|x: i64| #[trigger] x.content() == c,
{
    if <i64 as VarMapValue>::accepts(c) {
        let x = c->I64_0;
        assert(x.content() == c);
    }
}

/// A stored `F32Bits` reads back as the same `F32Bits`.
pub proof fn law_f32_bits_reads_back(x: F32Bits, d: F32Bits)
    requires
        <F32Bits as VarMapValue>::decoded_content(d) == x.content(),
    ensures
        d == x,
{
}

/// A read as `F32Bits` succeeds exactly on the values stored as `F32Bits`.
pub proof fn law_f32_bits_reads_only_its_own(c: Content)
    ensures
        <F32Bits as VarMapValue>::accepts(c) <==> exists|x: F32Bits| #[trigger] x.content() == c,
{
    if <F32Bits as VarMapValue>::accepts(c) {
        let x = F32Bits(c->F32_0);
        assert(x.content() == c);
    }
}

/// A stored `F64Bits` reads back as the same `F64Bits`.
pub proof fn law_f64_bits_reads_back(x: F64Bits, d: F64Bits)
    requires
        <F64Bits as VarMapValue>::decoded_content(d) == x.content(),
    ensures
        d == x,
{
}

/// A read as `F64Bits` succeeds exactly on the values stored as `F64Bits`.
pub proof fn law_f64_bits_reads_only_its_own(c: Content)
    ensures
        <F64Bits as VarMapValue>::accepts(c) <==> exists|x: F64Bits| #[trigger] x.content() == c,
{
    if <F64Bits as VarMapValue>::accepts(c) {
        let x = F64Bits(c->F64_0);
        assert(x.content() == c);
    }
}

/// A stored `u128` reads back as the same `u128`.
pub proof fn law_u128_reads_back(x: u128, d: u128)
    requires
        <u128 as VarMapValue>::decoded_content(d) == x.content(),
    ensures
        d == x,
{
}

/// A read as `u128` succeeds exactly on the values stored as `u128`.
pub proof fn law_u128_reads_only_its_own(c: Content)
    ensures
        <u128 as VarMapValue>::accepts(c) <==> exists|x: u128| #[trigger] x.content() == c,
{
    if <u128 as VarMapValue>::accepts(c) {
        let x = c->U128_0;
        assert(x.content() == c);
    }
}

/// A stored `i128` reads back as the same `i128`.
pub proof fn law_i128_reads_back(x: i128, d: i128)
    requires
        <i128 as VarMapValue>::decoded_content(d) == x.content(),
    ensures
        d == x,
{
}

/// A read as `i128` succeeds exactly on the values stored as `i128`.
pub proof fn law_i128_reads_only_its_own(c: Content)
    ensures
        <i128 as VarMapValue>::accepts(c) <==> exists|x: i128| #[trigger] x.content() == c,
{
    if <i128 as VarMapValue>::accepts(c) {
        let x = c->I128_0;
        assert(x.content() == c);
    }
}

/// A stored `bool` reads back as the same `bool`.
pub proof fn law_bool_reads_back(x: bool, d: bool)
    requires
        <bool as VarMapValue>::decoded_content(d) == x.content(),
    ensures
        d == x,
{
}

/// A read as `bool` succeeds exactly on the values stored as `bool`.
pub proof fn law_bool_reads_only_its_own(c: Content)
    ensures
        <bool as VarMapValue>::accepts(c) <==> exists|x: bool| #[trigger] x.content() == c,
{
    if <bool as VarMapValue>::accepts(c) {
        let x = c->Bool_0;
        assert(x.content() == c);
    }
}

/// A stored `char` reads back as the same `char`.
pub proof fn law_char_reads_back(x: char, d: char)
    requires
        <char as VarMapValue>::decoded_content(d) == x.content(),
    ensures
        d == x,
{
}

/// A read as `char` succeeds exactly on the values stored as `char`.
pub proof fn law_char_reads_only_its_own(c: Content)
    ensures
        <char as VarMapValue>::accepts(c) <==> exists|x: char| #[trigger] x.content() == c,
{
    if <char as VarMapValue>::accepts(c) {
        let x = c->Char_0;
        assert(x.content() == c);
    }
}

/// Every stored `u8` can be updated in place by `u8`.
pub proof fn law_u8_updates_in_place(c: Content)
    requires
        <u8 as VarMapValue>::accepts(c),
    ensures
        <u8 as VarMapValue>::updatable(c),
{
}

/// Every stored `u16` can be updated in place by `u16`.
pub proof fn law_u16_updates_in_place(c: Content)
    requires
        <u16 as VarMapValue>::accepts(c),
    ensures
        <u16 as VarMapValue>::updatable(c),
{
}

/// Every stored `u32` can be updated in place by `u32`.
pub proof fn law_u32_updates_in_place(c: Content)
    requires
        <u32 as VarMapValue>::accepts(c),
    ensures
        <u32 as VarMapValue>::updatable(c),
{
}

/// Every stored `u64` can be updated in place by `u64`.
pub proof fn law_u64_updates_in_place(c: Content)
    requires
        <u64 as VarMapValue>::accepts(c),
    ensures
        <u64 as VarMapValue>::updatable(c),
{
}

/// Every stored `i8` can be updated in place by `i8`.
pub proof fn law_i8_updates_in_place(c: Content)
    requires
        <i8 as VarMapValue>::accepts(c),
    ensures
        <i8 as VarMapValue>::updatable(c),
{
}

/// Every stored `i16` can be updated in place by `i16`.
pub proof fn law_i16_updates_in_place(c: Content)
    requires
        <i16 as VarMapValue>::accepts(c),
    ensures
        <i16 as VarMapValue>::updatable(c),
{
}

/// Every stored `i32` can be updated in place by `i32`.
pub proof fn law_i32_updates_in_place(c: Content)
    requires
        <i32 as VarMapValue>::accepts(c),
    ensures
        <i32 as VarMapValue>::updatable(c),
{
}

/// Every stored `i64` can be updated in place by `i64`.
pub proof fn law_i64_updates_in_place(c: Content)
    requires
        <i64 as VarMapValue>::accepts(c),
    ensures
        <i64 as VarMapValue>::updatable(c),
{
}

/// Every stored `F32Bits` can be updated in place by `F32Bits`.
pub proof fn law_f32_bits_updates_in_place(c: Content)
    requires
        <F32Bits as VarMapValue>::accepts(c),
    ensures
        <F32Bits as VarMapValue>::updatable(c),
{
}

/// Every stored `F64Bits` can be updated in place by `F64Bits`.
pub proof fn law_f64_bits_updates_in_place(c: Content)
    requires
        <F64Bits as VarMapValue>::accepts(c),
    ensures
        <F64Bits as VarMapValue>::updatable(c),
{
}

/// Every stored `u128` can be updated in place by `u128`.
pub proof fn law_u128_updates_in_place(c: Content)
    requires
        <u128 as VarMapValue>::accepts(c),
    ensures
        <u128 as VarMapValue>::updatable(c),
{
}

/// Every stored `i128` can be updated in place by `i128`.
pub proof fn law_i128_updates_in_place(c: Content)
    requires
        <i128 as VarMapValue>::accepts(c),
    ensures
        <i128 as VarMapValue>::updatable(c),
{
}

/// A stored 16-byte digest reads back as the same digest, and can be updated in place.
pub proof fn law_digest16_reads_back(x: [u8; 16], d: &[u8; 16], c: Content)
    requires
        <[u8; 16] as VarMapValue>::decoded_content(d) == x.content(),
    ensures
        *d == x,
        <[u8; 16] as VarMapValue>::accepts(c) ==> <[u8; 16] as VarMapValue>::updatable(c),
{
    assert((*d)@ == x@);
    assert forall|i: int| 0 <= i < 16 implies (*d)[i] == x[i] by {
        assert((*d)@[i] == x@[i]);
    }
    vstd::array::axiom_array_ext_equal(*d, x);
    assert(*d =~= x);
}

/// A stored 20-byte digest reads back as the same digest, and can be updated in place.
pub proof fn law_digest20_reads_back(x: [u8; 20], d: &[u8; 20], c: Content)
    requires
        <[u8; 20] as VarMapValue>::decoded_content(d) == x.content(),
    ensures
        *d == x,
        <[u8; 20] as VarMapValue>::accepts(c) ==> <[u8; 20] as VarMapValue>::updatable(c),
{
    assert((*d)@ == x@);
    assert forall|i: int| 0 <= i < 20 implies (*d)[i] == x[i] by {
        assert((*d)@[i] == x@[i]);
    }
    vstd::array::axiom_array_ext_equal(*d, x);
    assert(*d =~= x);
}

/// A stored 32-byte digest reads back as the same digest, and can be updated in place.
pub proof fn law_digest32_reads_back(x: [u8; 32], d: &[u8; 32], c: Content)
    requires
        <[u8; 32] as VarMapValue>::decoded_content(d) == x.content(),
    ensures
        *d == x,
        <[u8; 32] as VarMapValue>::accepts(c) ==> <[u8; 32] as VarMapValue>::updatable(c),
{
    assert((*d)@ == x@);
    assert forall|i: int| 0 <= i < 32 implies (*d)[i] == x[i] by {
        assert((*d)@[i] == x@[i]);
    }
    vstd::array::axiom_array_ext_equal(*d, x);
    assert(*d =~= x);
}

/// A stored 48-byte digest reads back as the same digest, and can be updated in place.
pub proof fn law_digest48_reads_back(x: [u8; 48], d: &[u8; 48], c: Content)
    requires
        <[u8; 48] as VarMapValue>::decoded_content(d) == x.content(),
    ensures
        *d == x,
        <[u8; 48] as VarMapValue>::accepts(c) ==> <[u8; 48] as VarMapValue>::updatable(c),
{
    assert((*d)@ == x@);
    assert forall|i: int| 0 <= i < 48 implies (*d)[i] == x[i] by {
        assert((*d)@[i] == x@[i]);
    }
    vstd::array::axiom_array_ext_equal(*d, x);
    assert(*d =~= x);
}

/// A stored 64-byte digest reads back as the same digest, and can be updated in place.
pub proof fn law_digest64_reads_back(x: [u8; 64], d: &[u8; 64], c: Content)
    requires
        <[u8; 64] as VarMapValue>::decoded_content(d) == x.content(),
    ensures
        *d == x,
        <[u8; 64] as VarMapValue>::accepts(c) ==> <[u8; 64] as VarMapValue>::updatable(c),
{
    assert((*d)@ == x@);
    assert forall|i: int| 0 <= i < 64 implies (*d)[i] == x[i] by {
        assert((*d)@[i] == x@[i]);
    }
    vstd::array::axiom_array_ext_equal(*d, x);
    assert(*d =~= x);
}

/// A stored IPv4 address reads back as the same address.
pub proof fn law_ipv4_reads_back(x: Ipv4Octets, d: Ipv4Octets)
    requires
        <Ipv4Octets as VarMapValue>::decoded_content(d) == x.content(),
    ensures
        d == x,
{
}

/// A stored IPv6 address reads back as the same address, octet for octet.
pub proof fn law_ipv6_reads_back(x: Ipv6Octets, d: Ipv6Octets)
    requires
        <Ipv6Octets as VarMapValue>::decoded_content(d) == x.content(),
    ensures
        d == x,
{
    assert(d.0@ == x.0@);
    assert forall|i: int| 0 <= i < 16 implies d.0[i] == x.0[i] by {
        assert(d.0@[i] == x.0@[i]);
    }
    vstd::array::axiom_array_ext_equal(d.0, x.0);
    assert(d.0 =~= x.0);
}

/// A stored address of either family reads back as the same address, octet for octet.
pub proof fn law_ip_reads_back(x: IpOctets, d: IpOctets)
    requires
        <IpOctets as VarMapValue>::decoded_content(d) == x.content(),
    ensures
        d == x,
{
    match (x, d) {
        (IpOctets::V6(a), IpOctets::V6(b)) => {
            assert(b@ == a@);
            assert forall|i: int| 0 <= i < 16 implies b[i] == a[i] by {
                assert(b@[i] == a@[i]);
            }
            vstd::array::axiom_array_ext_equal(b, a);
            assert(b =~= a);
        },
        _ => {},
    }
}

/// A stored byte string reads back with the same bytes.
pub proof fn law_bytes_reads_back(x: &[u8], d: &[u8])
    requires
        <&[u8] as VarMapValue>::decoded_content(d) == x.content(),
    ensures
        d@ == x@,
{
}

/// Booleans, characters, strings, byte strings and addresses are never updated in place,
/// whatever is stored.
pub proof fn law_not_updated_in_place(c: Content)
    ensures
        !<bool as VarMapValue>::updatable(c),
        !<char as VarMapValue>::updatable(c),
        !<&str as VarMapValue>::updatable(c),
        !<&[u8] as VarMapValue>::updatable(c),
        !<Ipv4Octets as VarMapValue>::updatable(c),
        !<Ipv6Octets as VarMapValue>::updatable(c),
        !<IpOctets as VarMapValue>::updatable(c),
{
}

} // verus!
