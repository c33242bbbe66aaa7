use std::fmt::Debug;
use varmap::{Arena, ArenaIndex, F32Bits, F64Bits, Value, ValueBuilder, ValueKind, VarMapValue};

fn check_type_value<T>(obj: T, kind: ValueKind)
where
    T: Sized + Copy + PartialEq + Debug + for<'a> VarMapValue<Decoded<'a> = T>,
{
    let mut builder = ValueBuilder::new(Arena::new());
    let stored = obj.to_value(&mut builder);
    assert_eq!(stored, kind);
    let arena = builder.into_arena();
    let value = Value::view(&stored, &arena);
    let value2 = T::from_value(&value);
    assert_eq!(value2, Some(obj));
}

#[test]
fn check_value_bool() {
    check_type_value(true, ValueKind::Bool(true));
    check_type_value(false, ValueKind::Bool(false));
}

#[test]
fn check_value_i8() {
    check_type_value(127i8, ValueKind::I8(127));
    check_type_value(-128i8, ValueKind::I8(-128));
}

#[test]
fn check_value_u8() {
    check_type_value(255u8, ValueKind::U8(255));
    check_type_value(0u8, ValueKind::U8(0));
}

#[test]
fn check_value_i16() {
    check_type_value(32767i16, ValueKind::I16(32767));
    check_type_value(-32768i16, ValueKind::I16(-32768));
}

#[test]
fn check_value_u16() {
    check_type_value(65535u16, ValueKind::U16(65535));
    check_type_value(0u16, ValueKind::U16(0));
}

#[test]
fn check_value_i32() {
    check_type_value(2147483647i32, ValueKind::I32(2147483647));
    check_type_value(-2147483648i32, ValueKind::I32(-2147483648));
}

#[test]
fn check_value_u32() {
    check_type_value(4294967295u32, ValueKind::U32(4294967295));
    check_type_value(0u32, ValueKind::U32(0));
}

#[test]
fn check_value_i64() {
    check_type_value(9223372036854775807i64, ValueKind::I64(9223372036854775807));
    check_type_value(-9223372036854775808i64, ValueKind::I64(-9223372036854775808));
}

#[test]
fn check_value_u64() {
    check_type_value(18446744073709551615u64, ValueKind::U64(18446744073709551615));
    check_type_value(0u64, ValueKind::U64(0));
}

#[test]
fn check_value_f32() {
    check_type_value(F32Bits(3.14f32.to_bits()), ValueKind::F32(3.14f32.to_bits()));
    check_type_value(F32Bits((-3.14f32).to_bits()), ValueKind::F32((-3.14f32).to_bits()));
}

#[test]
fn check_value_f64() {
    check_type_value(F64Bits(3.14f64.to_bits()), ValueKind::F64(3.14f64.to_bits()));
    check_type_value(F64Bits((-3.14f64).to_bits()), ValueKind::F64((-3.14f64).to_bits()));
}

#[test]
fn check_value_i128() {
    let mut builder = ValueBuilder::new(Arena::new());
    let stored = 9223372036854775807i128.to_value(&mut builder);
    assert_eq!(stored, ValueKind::I128(ArenaIndex::new(0, 16))); // first offset in the arena index
    let arena = builder.into_arena();
    let value2 = i128::from_value(&Value::view(&stored, &arena));
    assert_eq!(value2, Some(9223372036854775807i128));
}

#[test]
fn check_value_u128() {
    let mut builder = ValueBuilder::new(Arena::new());
    let stored = 18446744073709551615u128.to_value(&mut builder);
    assert_eq!(stored, ValueKind::U128(ArenaIndex::new(0, 16))); // first offset in the arena index
    let arena = builder.into_arena();
    let value2 = u128::from_value(&Value::view(&stored, &arena));
    assert_eq!(value2, Some(18446744073709551615u128));
}

#[test]
fn check_update_value_mut() {
    let mut kind = ValueKind::U32(10);
    let mut arena = Arena::new();
    assert!(u32::update(&mut kind, &mut arena, |n| n + 5));
    assert_eq!(kind, ValueKind::U32(15));
}

#[test]
fn check_sizes() {
    assert_eq!(std::mem::size_of::<ValueKind>(), 16);
    assert_eq!(std::mem::size_of::<Option<ValueKind>>(), 16);
    assert_eq!(std::mem::size_of::<ArenaIndex>(), 8);
}

#[test]
fn value_negative_i128_round_trip() {
    let mut builder = ValueBuilder::new(Arena::new());
    let stored = (-5i128).to_value(&mut builder);
    let arena = builder.into_arena();
    assert_eq!(i128::from_value(&Value::view(&stored, &arena)), Some(-5i128));
    assert_eq!(u128::from_value(&Value::view(&stored, &arena)), None);
}

#[test]
fn value_wide_update_in_place() {
    let mut builder = ValueBuilder::new(Arena::new());
    let mut stored = 7u128.to_value(&mut builder);
    let mut arena = builder.into_arena();
    assert!(u128::update(&mut stored, &mut arena, |n| n * 1000));
    assert_eq!(stored, ValueKind::U128(ArenaIndex::new(0, 16)));
    assert_eq!(arena.len(), 16);
    assert_eq!(u128::from_value(&Value::view(&stored, &arena)), Some(7000));
    assert!(!i128::update(&mut stored, &mut arena, |n| n + 1));
}

#[test]
fn value_strings_inline_and_arena() {
    let mut builder = ValueBuilder::new(Arena::new());
    let short = "fourteen bytes".to_value(&mut builder);
    assert!(matches!(short, ValueKind::SmallString(_, 14)));
    let long = "fifteen bytes!!".to_value(&mut builder);
    assert_eq!(long, ValueKind::String(ArenaIndex::new(0, 15)));
    let arena = builder.into_arena();
    assert_eq!(<&str>::from_value(&Value::view(&short, &arena)), Some("fourteen bytes"));
    assert_eq!(<&str>::from_value(&Value::view(&long, &arena)), Some("fifteen bytes!!"));
    assert_eq!(<&[u8]>::from_value(&Value::view(&long, &arena)), None);
}

#[test]
fn value_wrong_type_reads_none() {
    let mut builder = ValueBuilder::new(Arena::new());
    let stored = 3u16.to_value(&mut builder);
    let arena = builder.into_arena();
    let value = Value::view(&stored, &arena);
    assert_eq!(u32::from_value(&value), None);
    assert_eq!(bool::from_value(&value), None);
    assert_eq!(u16::from_value(&value), Some(3));
}

#[test]
fn builder_arena_mut_writes_through() {
    let mut builder = ValueBuilder::new(Arena::new());
    let index = builder.arena_mut().store(&[1, 2, 3], varmap::MemAlign::Bits8);
    assert_eq!(index, ArenaIndex::new(0, 3));
    assert_eq!(builder.arena().len(), 3);
    assert_eq!(builder.arena().get(index), Some(&[1u8, 2, 3][..]));
}
