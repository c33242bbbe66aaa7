use varmap::{
    var, Arena, EnumVarMap, EnumVarMapKey, IpOctets, Ipv4Octets, Ipv6Octets, Key, MemAlign, StrVarMap,
    Value, ValueBuilder, ValueKind, VarMap, VarMapValue,
};

#[test]
fn check_simple() {
    let mut map = VarMap::new();
    map.set(Key::new(10000000), 1u8);
    map.set(Key::new(20000000), 2u32);
    map.set(Key::new(30000000), "Hello, world! ");
    assert_eq!(map.get::<u8>(Key::new(10000000)), Some(1u8));
    assert_eq!(map.get::<u32>(Key::new(20000000)), Some(2u32));
    assert_eq!(map.get::<&str>(Key::new(30000000)), Some("Hello, world! "));
    assert_eq!(map.contains(Key::new(10000000)), true);
    assert_eq!(map.contains(Key::new(20000000)), true);
    assert_eq!(map.contains(Key::new(30000000)), true);
    assert_eq!(map.get::<u8>(Key::new(40000000)), None);
    assert_eq!(map.contains(Key::new(40000000)), false);
    map.set(Key::new(40000000), "Helo");
    let s: &str = map.get::<&str>(Key::new(40000000)).unwrap();
    assert_eq!(s, "Helo");
}

#[test]
fn check_update_numeric() {
    let mut map = VarMap::new();
    map.set(Key::new(10_000_000), 10u32);
    map.set(Key::new(20_000_000), "text");

    assert!(map.update::<u32>(Key::new(10_000_000), |n| n + 5));
    assert_eq!(map.get::<u32>(Key::new(10_000_000)), Some(15));

    assert!(!map.update::<u32>(Key::new(20_000_000), |n| n + 1));
    assert!(!map.update(Key::new(99_000_000), |n: u32| n + 1));
}

#[test]
fn check_var_map_update_or_default() {
    let mut map = VarMap::new();
    let count = var("count");
    let name = var("name");

    let mut called = false;
    assert!(map.update_or_default::<u32>(count, |n| {
        called = true;
        n + 1
    }));
    assert!(!called);
    assert_eq!(map.get_u32(count), Some(0));

    assert!(map.update_or_default::<u32>(count, |n| n + 5));
    assert_eq!(map.get_u32(count), Some(5));

    map.set(name, "alice");
    assert!(!map.update_or_default::<u32>(name, |n| n + 1));
    assert_eq!(map.get_str(name), Some("alice"));
}

#[test]
fn check_str_var_map_update_or_default() {
    let mut map = StrVarMap::new();

    let mut called = false;
    assert!(map.update_or_default::<u32>("count", |n| {
        called = true;
        n + 1
    }));
    assert!(!called);
    assert_eq!(map.get_u32("count"), Some(0));

    assert!(map.update_or_default::<u32>("count", |n| n + 5));
    assert_eq!(map.get_u32("count"), Some(5));

    map.set("name", "alice");
    assert!(!map.update_or_default::<u32>("name", |n| n + 1));
    assert_eq!(map.get_str("name"), Some("alice"));
}

#[derive(Copy, Clone, Debug)]
enum TestEnum {
    Var1,
    Var2,
    Var3,
}

impl EnumVarMapKey for TestEnum {
    const INDEX_COUNT: u32 = 3;

    fn to_index(self) -> u16 {
        match self {
            TestEnum::Var1 => 0,
            TestEnum::Var2 => 1,
            TestEnum::Var3 => 2,
        }
    }
}

#[test]
fn check_enum_var_map_update_or_default() {
    let mut map = EnumVarMap::<TestEnum>::new();

    let mut called = false;
    assert!(map.update_or_default::<u32>(TestEnum::Var1, |n| {
        called = true;
        n + 1
    }));
    assert!(!called);
    assert_eq!(map.get_u32(TestEnum::Var1), Some(0));

    assert!(map.update_or_default::<u32>(TestEnum::Var1, |n| n + 5));
    assert_eq!(map.get_u32(TestEnum::Var1), Some(5));

    map.set(TestEnum::Var2, "alice");
    assert!(map.update_or_default::<u32>(TestEnum::Var2, |n| n + 1));
    assert_eq!(map.get_str(TestEnum::Var2), Some("alice"));
}

#[test]
fn check_str_var_map() {
    let mut map = StrVarMap::new();
    map.set("var1", 1u8);
    map.set("var2", 2u32);
    map.set("var3", "Hello, world! ");
    assert_eq!(map.get_u8("var1"), Some(1u8));
    assert_eq!(map.get_u32("var2"), Some(2u32));
    assert_eq!(map.get_str("var3"), Some("Hello, world! "));
}

#[test]
fn check_get_bytes() {
    let mut map = StrVarMap::new();
    let bytes = [1u8, 2u8, 3u8];
    map.set("var1", bytes.as_slice());
    assert_eq!(map.get_bytes("var1"), Some(bytes.as_slice()));
}

#[test]
fn check_var_map_var_proc_macro() {
    let mut map = VarMap::new();
    map.set(var("var1"), 1u8);
    map.set(var("var2"), 2u32);
    map.set(var("var3"), "Hello, world! ");
    assert_eq!(map.get_u8(var("var1")), Some(1u8));
    assert_eq!(map.get_u32(var("var2")), Some(2u32));
    assert_eq!(map.get_str(var("var3")), Some("Hello, world! "));
}

#[test]
fn check_enum_var_map() {
    let mut map = EnumVarMap::<TestEnum>::new();
    map.set(TestEnum::Var1, 1u8);
    map.set(TestEnum::Var2, 2u32);
    map.set(TestEnum::Var3, "Hello, world! ");
    assert_eq!(map.get_u8(TestEnum::Var1), Some(1u8));
    assert_eq!(map.get_u32(TestEnum::Var2), Some(2u32));
    assert_eq!(map.get_str(TestEnum::Var3), Some("Hello, world! "));
    assert_eq!(map.contains(TestEnum::Var1), true);
    assert_eq!(map.contains(TestEnum::Var2), true);
    assert_eq!(map.contains(TestEnum::Var3), true);
    assert_eq!(map.get_bool(TestEnum::Var1), None);
}

#[derive(Copy, Clone, Eq, PartialEq, Debug)]
struct MyType {
    a: i32,
    b: u32,
    c: u128,
    d: i128,
    e: [u8; 3],
}

impl MyType {
    fn to_bytes(&self) -> Vec<u8> {
        let mut out = vec![0u8; std::mem::size_of::<MyType>()];
        out[0..4].copy_from_slice(&self.a.to_le_bytes());
        out[4..8].copy_from_slice(&self.b.to_le_bytes());
        out[8..24].copy_from_slice(&self.c.to_le_bytes());
        out[24..40].copy_from_slice(&self.d.to_le_bytes());
        out[40..43].copy_from_slice(&self.e);
        out
    }

    fn from_bytes(b: &[u8]) -> MyType {
        MyType {
            a: i32::from_le_bytes(b[0..4].try_into().unwrap()),
            b: u32::from_le_bytes(b[4..8].try_into().unwrap()),
            c: u128::from_le_bytes(b[8..24].try_into().unwrap()),
            d: i128::from_le_bytes(b[24..40].try_into().unwrap()),
            e: b[40..43].try_into().unwrap(),
        }
    }
}

impl VarMapValue for MyType {
    type Decoded<'a> = MyType;

    const TYPE_ID: u32 = 1304786539;

    fn to_value(&self, builder: &mut ValueBuilder) -> ValueKind {
        let align = MemAlign::from_align(std::mem::align_of::<MyType>()).unwrap();
        builder.build(&self.to_bytes(), align, Self::TYPE_ID)
    }

    fn from_value<'a>(value: &Value<'a>) -> Option<MyType> {
        value.as_bytes::<MyType>().map(MyType::from_bytes)
    }

    fn update<F: FnOnce(Self) -> Self>(kind: &mut ValueKind, arena: &mut Arena, f: F) -> bool {
        let ValueKind::Custom(index, type_id) = *kind else {
            return false;
        };
        if type_id != Self::TYPE_ID {
            return false;
        }
        let Some(bytes) = arena.get(index) else {
            return false;
        };
        if bytes.len() != std::mem::size_of::<MyType>() {
            return false;
        }
        let updated = f(MyType::from_bytes(bytes));
        arena.write(index, &updated.to_bytes())
    }
}

#[test]
fn check_custom_type() {
    let mut m = StrVarMap::new();
    let obj = MyType { a: 0, b: 1, c: 2, d: 3, e: [0, 1, 2] };
    m.set("my_type", obj);
    let obj2 = m.get::<MyType>("my_type").unwrap();
    assert_eq!(obj, obj2);
}

#[test]
fn check_update_custom_type() {
    let mut m = StrVarMap::new();
    let obj = MyType { a: 0, b: 1, c: 2, d: 3, e: [0, 1, 2] };
    m.set("my_type", obj);
    assert!(m.update::<MyType>("my_type", |mut obj| {
        obj.a += 1;
        obj
    }));
    let obj2 = m.get::<MyType>("my_type").unwrap();
    assert_eq!(obj2.a, 1);
}

#[test]
fn check_char() {
    let mut m = StrVarMap::new();
    m.set("char", 'a');
    assert_eq!(m.get_char("char"), Some('a'));
}

#[test]
fn check_ip_addr() {
    let mut m = StrVarMap::new();
    m.set("ip_addr", IpOctets::V4([127, 0, 0, 1]));
    assert_eq!(m.get_ip("ip_addr"), Some(IpOctets::V4([127, 0, 0, 1])));
}

#[test]
fn check_ipv4_addr() {
    let mut m = StrVarMap::new();
    m.set("ipv4_addr", Ipv4Octets([127, 0, 0, 1]));
    assert_eq!(m.get_ipv4("ipv4_addr"), Some(Ipv4Octets([127, 0, 0, 1])));
}

#[test]
fn check_ipv6_addr() {
    let mut m = StrVarMap::new();
    let loopback = Ipv6Octets([0, 0, 0, 0, 0, 0, 0, 0, 0, 0, 0, 0, 0, 0, 0, 1]);
    m.set("ipv6_addr", loopback);
    assert_eq!(m.get_ipv6("ipv6_addr"), Some(loopback));
}

#[test]
fn check_ip_addr_str_var_map() {
    let mut m = StrVarMap::new();
    m.set("ip_addr", IpOctets::V4([127, 0, 0, 1]));
    assert_eq!(m.get_ip("ip_addr"), Some(IpOctets::V4([127, 0, 0, 1])));
}

#[test]
fn check_ipv4_addr_str_var_map() {
    let mut m = StrVarMap::new();
    m.set("ipv4_addr", Ipv4Octets([127, 0, 0, 1]));
    assert_eq!(m.get_ipv4("ipv4_addr"), Some(Ipv4Octets([127, 0, 0, 1])));
}

#[test]
fn enum_var_map_update_refuses_other_types() {
    let mut map = EnumVarMap::<TestEnum>::new();
    map.set(TestEnum::Var2, "alice");
    assert!(!map.update::<u32>(TestEnum::Var2, |n| n + 1));
    assert_eq!(map.get_str(TestEnum::Var2), Some("alice"));
    assert!(!map.update::<u32>(TestEnum::Var3, |n| n + 1));
    assert!(!map.contains(TestEnum::Var3));
    map.set(TestEnum::Var1, 4u32);
    assert!(map.update::<u32>(TestEnum::Var1, |n| n + 1));
    assert_eq!(map.get_u32(TestEnum::Var1), Some(5));
}

#[derive(Copy, Clone, Debug)]
struct WideKey(u16);

impl EnumVarMapKey for WideKey {
    const INDEX_COUNT: u32 = 65536;

    fn to_index(self) -> u16 {
        self.0
    }
}

#[test]
fn enum_var_map_with_65536_slots() {
    let mut map = EnumVarMap::<WideKey>::new();
    map.set(WideKey(65535), 9u8);
    map.set(WideKey(0), 1u8);
    assert_eq!(map.get_u8(WideKey(65535)), Some(9));
    assert_eq!(map.get_u8(WideKey(0)), Some(1));
    assert!(!map.contains(WideKey(1)));
}
