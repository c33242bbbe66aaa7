use varmap::arena::Arena;
use varmap::derive::{
    count_and_validate_variants, generate_implementation, is_repr_u16, process_enum_var_map, var_key, Delimiter,
    DeriveError, Token,
};
use varmap::hashing::{fnv1a, fnv1a_32};
use varmap::keep_order::keep_order;
use varmap::{var, ClearStrategy, Hash256, Key, MemAlign, Readonly, Shared, StrVarMap, VarMap};

fn ident(s: &str) -> Token {
    Token::Ident(s.to_string())
}

fn punct(c: char) -> Token {
    Token::Punct(c)
}

fn group(d: Delimiter, inner: Vec<Token>) -> Token {
    Token::Group(d, inner)
}

fn repr_u16() -> Token {
    group(Delimiter::Bracket, vec![ident("repr"), group(Delimiter::Parenthesis, vec![ident("u16")])])
}

#[test]
fn mem_align_from_align_rounds_up() {
    assert_eq!(MemAlign::from_align(1), Some(MemAlign::Bits8));
    assert_eq!(MemAlign::from_align(2), Some(MemAlign::Bits16));
    assert_eq!(MemAlign::from_align(3), Some(MemAlign::Bits32));
    assert_eq!(MemAlign::from_align(8), Some(MemAlign::Bits64));
    assert_eq!(MemAlign::from_align(9), Some(MemAlign::Bits128));
    assert_eq!(MemAlign::from_align(16), Some(MemAlign::Bits128));
    assert_eq!(MemAlign::from_align(0), None);
    assert_eq!(MemAlign::from_align(17), None);
}

#[test]
fn mem_align_offset_is_next_multiple() {
    assert_eq!(MemAlign::Bits8.align_offset(13), 13);
    assert_eq!(MemAlign::Bits32.align_offset(13), 16);
    assert_eq!(MemAlign::Bits64.align_offset(16), 16);
    assert_eq!(MemAlign::Bits128.align_offset(17), 32);
    assert_eq!(MemAlign::Bits128.align_offset(0), 0);
}

#[test]
fn arena_store_aligns_and_appends() {
    let mut arena = Arena::new();
    let a = arena.store(&[1, 2, 3], MemAlign::Bits8);
    let b = arena.store(&[9, 9], MemAlign::Bits64);
    assert_eq!((a.offset, a.size), (0, 3));
    assert_eq!((b.offset, b.size), (8, 2));
    assert_eq!(arena.len(), 10);
    assert_eq!(arena.get(a), Some(&[1u8, 2, 3][..]));
    assert_eq!(arena.get(b), Some(&[9u8, 9][..]));
}

#[test]
fn arena_clear_makes_old_indices_unreadable() {
    let mut arena = Arena::new();
    let a = arena.store(&[1, 2, 3, 4], MemAlign::Bits8);
    arena.clear();
    assert_eq!(arena.len(), 0);
    assert_eq!(arena.get(a), None);
    let b = arena.store(&[7], MemAlign::Bits8);
    assert_eq!(b.offset, 0);
}

#[test]
fn arena_write_in_place() {
    let mut arena = Arena::new();
    let a = arena.store(&[1, 2], MemAlign::Bits8);
    assert!(arena.write(a, &[5, 6]));
    assert_eq!(arena.get(a), Some(&[5u8, 6][..]));
    assert!(!arena.write(a, &[5, 6, 7]));
    assert_eq!(arena.get(a), Some(&[5u8, 6][..]));
}

#[test]
fn fnv1a_known_values() {
    assert_eq!(fnv1a(""), 0xcbf29ce484222325);
    assert_eq!(fnv1a("a"), 0xaf63dc4c8601ec8c);
    assert_eq!(fnv1a_32(""), 0x811c9dc5);
    assert_eq!(fnv1a_32("a"), 0xe40c292c);
    assert_eq!(fnv1a_32("MyType"), 1304786539);
}

#[test]
fn var_is_fnv1a_of_name() {
    assert_eq!(var("user.age"), Key::new(fnv1a("user.age")));
}

#[test]
fn key_low_bits_alias() {
    let mut map = VarMap::new();
    map.set(Key::new(0x1234_0000), 1u8);
    assert!(map.contains(Key::new(0x1234_FFFF)));
    assert_eq!(map.get_u8(Key::new(0x1234_0001)), Some(1));
    assert!(!map.contains(Key::new(0x1235_0000)));
}

#[test]
fn overwrite_replaces_type_and_keeps_count() {
    let mut map = VarMap::new();
    map.set(Key::new(0x10000), 1u8);
    map.set(Key::new(0x10000), "now a string");
    assert_eq!(map.len(), 1);
    assert_eq!(map.get_u8(Key::new(0x10000)), None);
    assert_eq!(map.get_str(Key::new(0x10000)), Some("now a string"));
}

#[test]
fn clear_empties_map() {
    let mut map = StrVarMap::new();
    map.set("a", 1u64);
    map.set("b", "a long string stored in the arena");
    map.clear();
    assert!(!map.contains("a"));
    assert!(!map.contains("b"));
    map.set("b", 2u64);
    assert_eq!(map.get_u64("b"), Some(2));
}

#[test]
fn hash_digest_round_trip_and_update() {
    let mut map = StrVarMap::new();
    let digest: Hash256 = [7u8; 32];
    map.set("sha", digest);
    assert_eq!(map.get::<Hash256>("sha"), Some(&[7u8; 32]));
    assert!(map.update::<Hash256>("sha", |mut d| {
        d[0] = 1;
        d
    }));
    let back = map.get::<Hash256>("sha").unwrap();
    assert_eq!(back[0], 1);
    assert_eq!(back[1], 7);
    assert_eq!(map.get::<[u8; 16]>("sha"), None);
}

#[test]
fn wide_integers_in_maps() {
    let mut map = VarMap::new();
    map.set(var("big"), u128::MAX);
    map.set(var("neg"), i128::MIN);
    assert_eq!(map.get::<u128>(var("big")), Some(u128::MAX));
    assert_eq!(map.get::<i128>(var("neg")), Some(i128::MIN));
    assert!(map.update::<i128>(var("neg"), |n| n + 1));
    assert_eq!(map.get::<i128>(var("neg")), Some(i128::MIN + 1));
    assert_eq!(map.get::<u128>(var("big")), Some(u128::MAX));
}

#[test]
fn readonly_and_shared_views() {
    let mut map = VarMap::new();
    map.set(var("port"), 8080u16);
    let ro: Readonly<'_, VarMap> = map.as_readonly();
    let copy = ro;
    assert_eq!(copy.get_u16(var("port")), Some(8080));
    assert_eq!(ro.get().get_u16(var("port")), Some(8080));

    let shared = map.into_shared();
    let other = shared.clone();
    assert_eq!(shared.handle_count(), 2);
    other.try_write().unwrap().set(var("port"), 443u16);
    assert_eq!(shared.try_read().unwrap().get_u16(var("port")), Some(443));
    {
        let guard = shared.try_read().unwrap();
        assert!(other.try_write().is_none());
        assert!(other.try_read().is_some());
        assert_eq!(guard.get_u16(var("port")), Some(443));
    }
    assert_eq!(shared.lock().read().unwrap().get_u16(var("port")), Some(443));
    let shared = match shared.try_unwrap() {
        Ok(_) => panic!("two handles exist"),
        Err(s) => s,
    };
    drop(other);
    let inner = shared.try_unwrap().ok().unwrap().unwrap();
    assert_eq!(inner.get_u16(var("port")), Some(443));
}

#[test]
fn keep_order_ranks_and_breaks_ties_by_position() {
    let sizes = vec![5usize, 1, 3, 1];
    assert_eq!(keep_order(&sizes, ClearStrategy::KeepSmallestN(3)), vec![1, 3, 2]);
    assert_eq!(keep_order(&sizes, ClearStrategy::KeepLargestN(2)), vec![0, 2]);
    assert_eq!(keep_order(&sizes, ClearStrategy::KeepNClosestToAverage(2)), vec![1, 2]);
    assert_eq!(keep_order(&sizes, ClearStrategy::KeepLargestN(100)), vec![0, 2, 1, 3]);
    assert_eq!(keep_order(&sizes, ClearStrategy::FreeEntireMemory), Vec::<usize>::new());
    assert_eq!(keep_order(&Vec::new(), ClearStrategy::KeepNClosestToAverage(2)), Vec::<usize>::new());
}

#[test]
fn derive_value_reads_name_and_type_id() {
    let ts = vec![
        punct('#'),
        group(Delimiter::Bracket, vec![ident("derive")]),
        ident("pub"),
        group(Delimiter::Parenthesis, vec![ident("crate")]),
        ident("struct"),
        ident("MyType"),
        group(Delimiter::Brace, vec![]),
    ];
    let v = generate_implementation(&ts).unwrap();
    assert_eq!(v.name, "MyType");
    assert_eq!(v.type_id, 1304786539);
}

#[test]
fn derive_value_errors() {
    assert_eq!(generate_implementation(&[ident("union"), ident("U")]).unwrap_err(), DeriveError::Union);
    assert_eq!(generate_implementation(&[ident("fn"), ident("f")]).unwrap_err(), DeriveError::UnexpectedToken(0));
    assert_eq!(generate_implementation(&[ident("struct")]).unwrap_err(), DeriveError::ExpectedTypeName);
    assert_eq!(
        generate_implementation(&[ident("struct"), ident("P"), punct('<'), ident("T"), punct('>')]).unwrap_err(),
        DeriveError::GenericType
    );
}

#[test]
fn derive_enum_counts_variants() {
    let body = vec![
        ident("Port"),
        punct(','),
        punct('#'),
        group(Delimiter::Bracket, vec![ident("doc")]),
        ident("Enabled"),
        punct(','),
        ident("Host"),
    ];
    let ts = vec![punct('#'), repr_u16(), ident("enum"), ident("ConfigKey"), group(Delimiter::Brace, body)];
    let e = process_enum_var_map(&ts).unwrap();
    assert_eq!(e.name, "ConfigKey");
    assert_eq!(e.count, 3);
}

#[test]
fn derive_enum_errors() {
    let body = vec![ident("A")];
    assert_eq!(
        process_enum_var_map(&[ident("enum"), ident("E"), group(Delimiter::Brace, body)]).unwrap_err(),
        DeriveError::MissingReprU16
    );
    assert_eq!(
        process_enum_var_map(&[punct('#'), repr_u16(), ident("struct"), ident("S")]).unwrap_err(),
        DeriveError::NotAnEnum(2)
    );
    assert_eq!(
        process_enum_var_map(&[punct('#'), repr_u16(), ident("enum"), ident("E"), group(Delimiter::Brace, vec![])])
            .unwrap_err(),
        DeriveError::NoVariants
    );
    assert_eq!(
        process_enum_var_map(&[punct('#'), repr_u16(), ident("enum"), ident("E"), punct('<')]).unwrap_err(),
        DeriveError::GenericEnum
    );
    assert_eq!(
        process_enum_var_map(&[punct('#'), repr_u16(), ident("enum"), ident("E")]).unwrap_err(),
        DeriveError::ExpectedVariantBody
    );
    assert_eq!(
        count_and_validate_variants(&[ident("A"), group(Delimiter::Parenthesis, vec![ident("u8")])]).unwrap_err(),
        DeriveError::VariantHasFields(1)
    );
    assert_eq!(
        count_and_validate_variants(&[ident("A"), punct('='), Token::Literal("5".to_string())]).unwrap_err(),
        DeriveError::ExplicitDiscriminant(1)
    );
}

#[test]
fn repr_u16_is_exact() {
    assert!(is_repr_u16(&[ident("repr"), group(Delimiter::Parenthesis, vec![ident("u16")])]));
    assert!(!is_repr_u16(&[ident("repr"), group(Delimiter::Parenthesis, vec![ident("u8")])]));
    assert!(!is_repr_u16(&[ident("repr")]));
}

#[test]
fn var_key_from_literal() {
    let k = var_key(&[Token::Literal("\"app.port\"".to_string())]).unwrap();
    assert_eq!(k, var("app.port"));
    assert_eq!(var_key(&[Token::Literal("\"\"".to_string())]).unwrap_err(), DeriveError::EmptyName);
    assert_eq!(var_key(&[ident("x")]).unwrap_err(), DeriveError::NotAStringLiteral);
    assert_eq!(var_key(&[Token::Literal("5".to_string())]).unwrap_err(), DeriveError::NotAStringLiteral);
    assert_eq!(
        var_key(&[Token::Literal("\"a\"".to_string()), Token::Literal("\"b\"".to_string())]).unwrap_err(),
        DeriveError::ExtraTokens
    );
}

#[test]
fn var_key_from_raw_literal() {
    assert_eq!(var_key(&[Token::Literal("r\"app.port\"".to_string())]).unwrap(), var("app.port"));
    assert_eq!(var_key(&[Token::Literal("r#\"a\"b\"#".to_string())]).unwrap(), var("a\"b"));
    assert_eq!(var_key(&[Token::Literal("r\"\"".to_string())]).unwrap_err(), DeriveError::EmptyName);
    assert_eq!(var_key(&[Token::Literal("b\"x\"".to_string())]).unwrap_err(), DeriveError::NotAStringLiteral);
}

#[test]
fn var_key_resolves_escapes() {
    let lit = |s: &str| var_key(&[Token::Literal(s.to_string())]);
    assert_eq!(lit("\"a\\nb\"").unwrap(), var("a\nb"));
    assert_eq!(lit("\"\\x41\\t\\\\\\\"\\'\\0\\r\"").unwrap(), var("A\t\\\"'\0\r"));
    assert_eq!(lit("\"\\u{e9}\\u{20AC}\\u{1F6_00}x\"").unwrap(), var("é€😀x"));
    assert_eq!(lit("\"a\\\n    b\"").unwrap(), var("ab"));
    assert_eq!(lit("\"\\\n   \"").unwrap_err(), DeriveError::EmptyName);
    assert_eq!(lit("\"\\q\"").unwrap_err(), DeriveError::NotAStringLiteral);
}
