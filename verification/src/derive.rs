use vstd::prelude::*;
use vstd::utf8::encode_utf8;
use crate::hashing::{fnv1a_32, fnv1a_bytes, spec_fnv1a, spec_fnv1a_32};
use crate::var_map::Key;

verus! {

/// Delimiter of a token group.
#[derive(Clone, Copy, Debug, PartialEq, Eq, Structural)]
pub enum Delimiter {
    Parenthesis,
    Brace,
    Bracket,
    Invisible,
}

/// One token tree of item source, as the derive and key checks read it.
#[derive(Debug)]
pub enum Token {
    Punct(char),
    Ident(String),
    Literal(String),
    Group(Delimiter, Vec<Token>),
}

/// Why an item cannot derive a map trait, or a key literal was refused. Positions index the
/// token list that was checked (for variant errors, the enum body).
#[derive(Clone, Copy, Debug, PartialEq, Eq, Structural)]
pub enum DeriveError {
    /// `VarMapValue` cannot be derived on unions.
    Union,
    /// An identifier other than `pub`, `struct` or `enum` stood before the type.
    UnexpectedToken(usize),
    /// No type name followed `struct` or `enum`.
    ExpectedTypeName,
    /// The type has generic parameters.
    GenericType,
    /// The enum key derive met an identifier other than `pub` or `enum` before the enum.
    NotAnEnum(usize),
    /// The enum has no `#[repr(u16)]`.
    MissingReprU16,
    /// No enum name followed `enum`.
    ExpectedEnumName,
    /// The enum has generic parameters.
    GenericEnum,
    /// No `{ ... }` variant body followed the enum name.
    ExpectedVariantBody,
    /// A variant carries fields.
    VariantHasFields(usize),
    /// A variant has an explicit discriminant.
    ExplicitDiscriminant(usize),
    /// The enum has no variants.
    NoVariants,
    /// The enum has more than 65 536 variants.
    TooManyVariants,
    /// The key argument is not a single string literal.
    NotAStringLiteral,
    /// More than one token was given as a key name.
    ExtraTokens,
    /// The key name is empty.
    EmptyName,
}

/// What a value derive produces: the type's name and its type id, the 32-bit FNV-1a hash of
/// the name.
#[derive(Debug)]
pub struct ValueImpl {
    pub name: String,
    pub type_id: u32,
}

/// What an enum key derive produces: the enum's name and its number of variants.
#[derive(Debug)]
pub struct EnumKeyImpl {
    pub name: String,
    pub count: usize,
}

/// `s` is the word `w`.
fn is_word(s: &String, w: &str) -> (r: bool)
    ensures
        r == (s@ == w@),
{
    *s == w.to_owned()
}

/// The token is a group with delimiter `d`.
pub open spec fn is_group(t: Token, d: Delimiter) -> bool {
    t matches Token::Group(g, _) && g == d
}

/// The token is the punctuation `c`.
pub open spec fn is_punct(t: Token, c: char) -> bool {
    t matches Token::Punct(p) && p == c
}

/// The token is the identifier `w`.
pub open spec fn is_ident(t: Token, w: Seq<char>) -> bool {
    t matches Token::Ident(s) && s@ == w
}

/// The attribute body is exactly `repr(u16)`.
pub open spec fn spec_is_repr_u16(ts: Seq<Token>) -> bool {
    &&& ts.len() == 2
    &&& is_ident(ts[0], "repr"@)
    &&& ts[1] matches Token::Group(d, inner) && d == Delimiter::Parenthesis && inner@.len() == 1 && is_ident(
        inner@[0],
        "u16"@,
    )
}

/// Whether the tokens inside an attribute's brackets are exactly `repr(u16)`.
pub fn is_repr_u16(ts: &[Token]) -> (r: bool)
    ensures
        r == spec_is_repr_u16(ts@),
{
    if ts.len() != 2 {
        return false;
    }
    let first = match &ts[0] {
        Token::Ident(id) => is_word(id, "repr"),
        _ => false,
    };
    if !first {
        return false;
    }
    match &ts[1] {
        Token::Group(d, inner) => {
            if *d != Delimiter::Parenthesis || inner.len() != 1 {
                return false;
            }
            match &inner[0] {
                Token::Ident(id) => is_word(id, "u16"),
                _ => false,
            }
        },
        _ => false,
    }
}

/// Position after the attributes, visibility and `struct`/`enum` keyword of a type, or why
/// the header is refused.
pub open spec fn spec_value_header(ts: Seq<Token>, i: nat) -> Result<nat, DeriveError>
    decreases ts.len() - i,
{
    if i >= ts.len() {
        Ok(i)
    } else if is_punct(ts[i as int], '#') {
        if i + 1 < ts.len() && is_group(ts[i + 1int], Delimiter::Bracket) {
            spec_value_header(ts, i + 2)
        } else {
            spec_value_header(ts, i + 1)
        }
    } else if is_ident(ts[i as int], "pub"@) {
        if i + 1 < ts.len() && is_group(ts[i + 1int], Delimiter::Parenthesis) {
            spec_value_header(ts, i + 2)
        } else {
            spec_value_header(ts, i + 1)
        }
    } else if is_ident(ts[i as int], "struct"@) || is_ident(ts[i as int], "enum"@) {
        Ok(i + 1)
    } else if is_ident(ts[i as int], "union"@) {
        Err(DeriveError::Union)
    } else if ts[i as int] is Ident {
        Err(DeriveError::UnexpectedToken(i as usize))
    } else {
        spec_value_header(ts, i + 1)
    }
}

/// Walks past the attributes, visibility and `struct`/`enum` keyword of a type.
fn value_header(ts: &[Token]) -> (r: Result<usize, DeriveError>)
    ensures
        match spec_value_header(ts@, 0) {
            Ok(i) => r == Ok::<usize, DeriveError>(i as usize) && i <= ts@.len(),
            Err(e) => r == Err::<usize, DeriveError>(e),
        },
{
    let mut i: usize = 0;
    while i < ts.len()
        invariant
            0 <= i <= ts@.len(),
            spec_value_header(ts@, 0) == spec_value_header(ts@, i as nat),
        decreases ts@.len() - i,
    {
        match &ts[i] {
            Token::Punct(p) if *p == '#' => {
                if i + 1 < ts.len() {
                    if let Token::Group(Delimiter::Bracket, _) = &ts[i + 1] {
                        i = i + 2;
                        continue;
                    }
                }
                i = i + 1;
            },
            Token::Ident(id) => {
                if is_word(id, "pub") {
                    if i + 1 < ts.len() {
                        if let Token::Group(Delimiter::Parenthesis, _) = &ts[i + 1] {
                            i = i + 2;
                            continue;
                        }
                    }
                    i = i + 1;
                    continue;
                }
                if is_word(id, "struct") || is_word(id, "enum") {
                    return Ok(i + 1);
                }
                if is_word(id, "union") {
                    return Err(DeriveError::Union);
                }
                return Err(DeriveError::UnexpectedToken(i));
            },
            _ => {
                i = i + 1;
            },
        }
    }
    Ok(i)
}

/// Outcome of the value derive: the position of the type name, or why it is refused.
pub open spec fn spec_value_derive(ts: Seq<Token>) -> Result<nat, DeriveError> {
    match spec_value_header(ts, 0) {
        Err(e) => Err(e),
        Ok(i) => if i < ts.len() && ts[i as int] is Ident {
            if i + 1 < ts.len() && is_punct(ts[i + 1int], '<') {
                Err(DeriveError::GenericType)
            } else {
                Ok(i)
            }
        } else {
            Err(DeriveError::ExpectedTypeName)
        },
    }
}

/// Reads the header of a `Copy` struct or enum that derives a map value: its name and the
/// type id that tags its stored values.
///
/// Attributes and visibility are skipped; unions, generic types and any other leading
/// identifier are refused.
pub fn generate_implementation(ts: &[Token]) -> (r: Result<ValueImpl, DeriveError>)
    ensures
        match spec_value_derive(ts@) {
            Ok(i) => r matches Ok(v) && ts@[i as int] matches Token::Ident(name) && v.name@ == name@
                && v.type_id == spec_fnv1a_32(encode_utf8(name@)),
            Err(e) => r == Err::<ValueImpl, DeriveError>(e),
        },
{
    let i = match value_header(ts) {
        Ok(i) => i,
        Err(e) => {
            return Err(e);
        },
    };
    if i >= ts.len() {
        return Err(DeriveError::ExpectedTypeName);
    }
    let name = match &ts[i] {
        Token::Ident(id) => id.clone(),
        _ => {
            return Err(DeriveError::ExpectedTypeName);
        },
    };
    if i + 1 < ts.len() {
        if let Token::Punct(p) = &ts[i + 1] {
            if *p == '<' {
                return Err(DeriveError::GenericType);
            }
        }
    }
    let type_id = fnv1a_32(name.as_str());
    Ok(ValueImpl { name, type_id })
}

/// Count of unit variants from position `i` on, given that `count` were seen and whether
/// the last token named a variant; or why a variant is refused.
pub open spec fn spec_variants(ts: Seq<Token>, i: nat, count: nat, just_saw_variant: bool) -> Result<nat, DeriveError>
    decreases ts.len() - i,
{
    if i >= ts.len() {
        Ok(count)
    } else if is_punct(ts[i as int], '#') {
        if i + 1 < ts.len() && is_group(ts[i + 1int], Delimiter::Bracket) {
            spec_variants(ts, i + 2, count, just_saw_variant)
        } else {
            spec_variants(ts, i + 1, count, just_saw_variant)
        }
    } else if ts[i as int] is Ident && !just_saw_variant {
        spec_variants(ts, i + 1, count + 1, true)
    } else if is_punct(ts[i as int], ',') {
        spec_variants(ts, i + 1, count, false)
    } else if ts[i as int] is Group && just_saw_variant {
        Err(DeriveError::VariantHasFields(i as usize))
    } else if is_punct(ts[i as int], '=') && just_saw_variant {
        Err(DeriveError::ExplicitDiscriminant(i as usize))
    } else {
        spec_variants(ts, i + 1, count, just_saw_variant)
    }
}

/// Counts the variants in an enum body, refusing variants with fields or explicit
/// discriminants. Attributes on variants are skipped.
pub fn count_and_validate_variants(ts: &[Token]) -> (r: Result<usize, DeriveError>)
    ensures
        match spec_variants(ts@, 0, 0, false) {
            Ok(n) => r matches Ok(c) && c == n,
            Err(e) => r == Err::<usize, DeriveError>(e),
        },
{
    let mut count: usize = 0;
    let mut i: usize = 0;
    let mut just_saw_variant = false;
    while i < ts.len()
        invariant
            0 <= i <= ts@.len(),
            count <= i,
            spec_variants(ts@, 0, 0, false) == spec_variants(ts@, i as nat, count as nat, just_saw_variant),
        decreases ts@.len() - i,
    {
        match &ts[i] {
            Token::Punct(p) if *p == '#' => {
                if i + 1 < ts.len() {
                    if let Token::Group(Delimiter::Bracket, _) = &ts[i + 1] {
                        i = i + 2;
                        continue;
                    }
                }
                i = i + 1;
            },
            Token::Ident(_) if !just_saw_variant => {
                count = count + 1;
                just_saw_variant = true;
                i = i + 1;
            },
            Token::Punct(p) if *p == ',' => {
                just_saw_variant = false;
                i = i + 1;
            },
            Token::Group(_, _) if just_saw_variant => {
                return Err(DeriveError::VariantHasFields(i));
            },
            Token::Punct(p) if *p == '=' && just_saw_variant => {
                return Err(DeriveError::ExplicitDiscriminant(i));
            },
            _ => {
                i = i + 1;
            },
        }
    }
    Ok(count)
}

/// Position after the attributes, visibility and `enum` keyword of an enum key, whether a
/// `#[repr(u16)]` attribute was seen, or why the header is refused.
pub open spec fn spec_enum_header(ts: Seq<Token>, i: nat, has_repr: bool) -> Result<(nat, bool), DeriveError>
    decreases ts.len() - i,
{
    if i >= ts.len() {
        Ok((i, has_repr))
    } else if is_punct(ts[i as int], '#') {
        if i + 1 < ts.len() {
            let repr = ts[i + 1int] matches Token::Group(d, inner) && d == Delimiter::Bracket
                && spec_is_repr_u16(inner@);
            spec_enum_header(ts, i + 2, has_repr || repr)
        } else {
            Ok((ts.len(), has_repr))
        }
    } else if is_ident(ts[i as int], "pub"@) {
        if i + 1 < ts.len() && is_group(ts[i + 1int], Delimiter::Parenthesis) {
            spec_enum_header(ts, i + 2, has_repr)
        } else {
            spec_enum_header(ts, i + 1, has_repr)
        }
    } else if is_ident(ts[i as int], "enum"@) {
        Ok((i + 1, has_repr))
    } else if ts[i as int] is Ident {
        Err(DeriveError::NotAnEnum(i as usize))
    } else {
        spec_enum_header(ts, i + 1, has_repr)
    }
}

/// Walks past the attributes, visibility and `enum` keyword of an enum key, noting whether
/// `#[repr(u16)]` was among the attributes.
fn enum_header(ts: &[Token]) -> (r: Result<(usize, bool), DeriveError>)
    ensures
        match spec_enum_header(ts@, 0, false) {
            Ok((i, b)) => r == Ok::<(usize, bool), DeriveError>((i as usize, b)) && i <= ts@.len(),
            Err(e) => r == Err::<(usize, bool), DeriveError>(e),
        },
{
    let mut i: usize = 0;
    let mut has_repr_u16 = false;
    while i < ts.len()
        invariant
            0 <= i <= ts@.len(),
            spec_enum_header(ts@, 0, false) == spec_enum_header(ts@, i as nat, has_repr_u16),
        decreases ts@.len() - i,
    {
        match &ts[i] {
            Token::Punct(p) if *p == '#' => {
                if i + 1 < ts.len() {
                    if let Token::Group(Delimiter::Bracket, inner) = &ts[i + 1] {
                        if is_repr_u16(inner.as_slice()) {
                            has_repr_u16 = true;
                        }
                    }
                    i = i + 2;
                } else {
                    return Ok((ts.len(), has_repr_u16));
                }
            },
            Token::Ident(id) => {
                if is_word(id, "pub") {
                    if i + 1 < ts.len() {
                        if let Token::Group(Delimiter::Parenthesis, _) = &ts[i + 1] {
                            i = i + 2;
                            continue;
                        }
                    }
                    i = i + 1;
                } else if is_word(id, "enum") {
                    return Ok((i + 1, has_repr_u16));
                } else {
                    return Err(DeriveError::NotAnEnum(i));
                }
            },
            _ => {
                i = i + 1;
            },
        }
    }
    Ok((i, has_repr_u16))
}

/// Outcome of the enum key derive: the position of the enum name and its variant count, or
/// why it is refused.
pub open spec fn spec_enum_derive(ts: Seq<Token>) -> Result<(nat, nat), DeriveError> {
    match spec_enum_header(ts, 0, false) {
        Err(e) => Err(e),
        Ok((i, has_repr)) => if !has_repr {
            Err(DeriveError::MissingReprU16)
        } else if !(i < ts.len() && ts[i as int] is Ident) {
            Err(DeriveError::ExpectedEnumName)
        } else if i + 1 < ts.len() && is_punct(ts[i + 1int], '<') {
            Err(DeriveError::GenericEnum)
        } else if !(i + 1 < ts.len() && is_group(ts[i + 1int], Delimiter::Brace)) {
            Err(DeriveError::ExpectedVariantBody)
        } else {
            match ts[i + 1int] {
                Token::Group(_, body) => match spec_variants(body@, 0, 0, false) {
                    Err(e) => Err(e),
                    Ok(n) => if n == 0 {
                        Err(DeriveError::NoVariants)
                    } else if n > 65536 {
                        Err(DeriveError::TooManyVariants)
                    } else {
                        Ok((i, n))
                    },
                },
                _ => Err(DeriveError::ExpectedVariantBody),
            }
        },
    }
}

/// Reads a unit enum that derives an enum key: its name and number of variants.
///
/// The enum needs `#[repr(u16)]`, no generics, at least one and at most 65 536 unit
/// variants without explicit discriminants.
pub fn process_enum_var_map(ts: &[Token]) -> (r: Result<EnumKeyImpl, DeriveError>)
    ensures
        match spec_enum_derive(ts@) {
            Ok((i, n)) => r matches Ok(v) && ts@[i as int] matches Token::Ident(name) && v.name@ == name@
                && v.count == n,
            Err(e) => r == Err::<EnumKeyImpl, DeriveError>(e),
        },
{
    let (i, has_repr_u16) = match enum_header(ts) {
        Ok(x) => x,
        Err(e) => {
            return Err(e);
        },
    };
    if !has_repr_u16 {
        return Err(DeriveError::MissingReprU16);
    }
    if i >= ts.len() {
        return Err(DeriveError::ExpectedEnumName);
    }
    let name = match &ts[i] {
        Token::Ident(id) => id.clone(),
        _ => {
            return Err(DeriveError::ExpectedEnumName);
        },
    };
    let i = i + 1;
    if i < ts.len() {
        if let Token::Punct(p) = &ts[i] {
            if *p == '<' {
                return Err(DeriveError::GenericEnum);
            }
        }
    }
    if i >= ts.len() {
        return Err(DeriveError::ExpectedVariantBody);
    }
    let body = match &ts[i] {
        Token::Group(Delimiter::Brace, body) => body,
        _ => {
            return Err(DeriveError::ExpectedVariantBody);
        },
    };
    let count = match count_and_validate_variants(body.as_slice()) {
        Ok(c) => c,
        Err(e) => {
            return Err(e);
        },
    };
    if count == 0 {
        return Err(DeriveError::NoVariants);
    }
    if count > 65536 {
        return Err(DeriveError::TooManyVariants);
    }
    Ok(EnumKeyImpl { name, count })
}

/// The byte a one-character escape `\c` stands for: `n`, `r`, `t`, `\\`, `0`, `'` or `"`.
pub open spec fn spec_simple_escape(c: u8) -> Option<u8> {
    if c == 0x6eu8 {
        Some(0x0au8)
    } else if c == 0x72u8 {
        Some(0x0du8)
    } else if c == 0x74u8 {
        Some(0x09u8)
    } else if c == 0x5cu8 {
        Some(0x5cu8)
    } else if c == 0x30u8 {
        Some(0x00u8)
    } else if c == 0x27u8 {
        Some(0x27u8)
    } else if c == 0x22u8 {
        Some(0x22u8)
    } else {
        None
    }
}

/// The value of a hexadecimal digit.
pub open spec fn spec_hex_digit(c: u8) -> Option<u32> {
    if 0x30u8 <= c <= 0x39u8 {
        Some((c - 0x30u8) as u32)
    } else if 0x61u8 <= c <= 0x66u8 {
        Some((c - 0x61u8 + 10) as u32)
    } else if 0x41u8 <= c <= 0x46u8 {
        Some((c - 0x41u8 + 10) as u32)
    } else {
        None
    }
}

/// The digits of a `\u{..}` escape from position `i` on, `acc` being the value read so far:
/// the code point and the position just past the closing brace. Underscores are skipped.
pub open spec fn spec_unicode_from(b: Seq<u8>, i: nat, acc: u32) -> Option<(u32, nat)>
    decreases b.len() - i,
{
    if i >= b.len() {
        None
    } else if b[i as int] == 0x7du8 {
        Some((acc, i + 1))
    } else if b[i as int] == 0x5fu8 {
        spec_unicode_from(b, i + 1, acc)
    } else {
        match spec_hex_digit(b[i as int]) {
            Some(d) => if acc > 0x10FFFF {
                None
            } else {
                spec_unicode_from(b, i + 1, (acc * 16 + d) as u32)
            },
            None => None,
        }
    }
}

/// The UTF-8 encoding of the code point `c`.
pub open spec fn spec_utf8_of(c: u32) -> Seq<u8> {
    if c < 0x80 {
        seq![c as u8]
    } else if c < 0x800 {
        seq![(0xC0u32 | (c >> 6u32)) as u8, (0x80u32 | (c & 0x3Fu32)) as u8]
    } else if c < 0x10000 {
        seq![
            (0xE0u32 | (c >> 12u32)) as u8,
            (0x80u32 | ((c >> 6u32) & 0x3Fu32)) as u8,
            (0x80u32 | (c & 0x3Fu32)) as u8,
        ]
    } else {
        seq![
            (0xF0u32 | (c >> 18u32)) as u8,
            (0x80u32 | ((c >> 12u32) & 0x3Fu32)) as u8,
            (0x80u32 | ((c >> 6u32) & 0x3Fu32)) as u8,
            (0x80u32 | (c & 0x3Fu32)) as u8,
        ]
    }
}

/// Whether `c` is whitespace that a line continuation (`\` at the end of a line) skips.
pub open spec fn is_skipped_space(c: u8) -> bool {
    c == 0x20u8 || c == 0x09u8 || c == 0x0au8 || c == 0x0du8
}

/// The first position from `i` on that is not skipped whitespace.
pub open spec fn spec_skip_space(b: Seq<u8>, i: nat) -> nat
    decreases b.len() - i,
{
    if i < b.len() && is_skipped_space(b[i as int]) {
        spec_skip_space(b, i + 1)
    } else {
        i
    }
}

/// The bytes that the body of a string literal, from position `i` on, stands for once its
/// escapes are resolved; `None` if it holds an escape that no string literal can hold.
pub open spec fn spec_unescape_from(b: Seq<u8>, i: nat) -> Option<Seq<u8>>
    decreases b.len() - i,
{
    if i >= b.len() {
        Some(Seq::<u8>::empty())
    } else if b[i as int] != 0x5cu8 {
        match spec_unescape_from(b, i + 1) {
            Some(t) => Some(seq![b[i as int]] + t),
            None => None,
        }
    } else if i + 1 >= b.len() {
        None
    } else {
        let c = b[i + 1int];
        match spec_simple_escape(c) {
            Some(x) => match spec_unescape_from(b, i + 2) {
                Some(t) => Some(seq![x] + t),
                None => None,
            },
            None => if c == 0x78u8 {
                if i + 3 < b.len() {
                    match (spec_hex_digit(b[i + 2int]), spec_hex_digit(b[i + 3int])) {
                        (Some(hi), Some(lo)) => if hi * 16 + lo <= 0x7f {
                            match spec_unescape_from(b, i + 4) {
                                Some(t) => Some(seq![(hi * 16 + lo) as u8] + t),
                                None => None,
                            }
                        } else {
                            None
                        },
                        _ => None,
                    }
                } else {
                    None
                }
            } else if c == 0x75u8 {
                if i + 2 < b.len() && b[i + 2int] == 0x7bu8 {
                    match spec_unicode_from(b, i + 3, 0) {
                        Some((cp, j)) => if i < j <= b.len() {
                            match spec_unescape_from(b, j) {
                                Some(t) => Some(spec_utf8_of(cp) + t),
                                None => None,
                            }
                        } else {
                            None
                        },
                        None => None,
                    }
                } else {
                    None
                }
            } else if c == 0x0au8 {
                let k = spec_skip_space(b, i + 2);
                if i < k <= b.len() {
                    spec_unescape_from(b, k)
                } else {
                    None
                }
            } else {
                None
            },
        }
    }
}

/// A literal body without backslashes stands for itself.
pub proof fn lemma_unescape_plain(b: Seq<u8>, i: nat)
    requires
        forall|j: int| 0 <= j < b.len() ==> b[j] != 0x5cu8,
        i <= b.len(),
    ensures
        spec_unescape_from(b, i) == Some(b.subrange(i as int, b.len() as int)),
    decreases b.len() - i,
{
    if i < b.len() {
        lemma_unescape_plain(b, i + 1);
        assert(seq![b[i as int]] + b.subrange(i + 1int, b.len() as int) =~= b.subrange(i as int, b.len() as int));
    } else {
        assert(b.subrange(i as int, b.len() as int) =~= Seq::<u8>::empty());
    }
}

fn simple_escape(c: u8) -> (r: Option<u8>)
    ensures
        r == spec_simple_escape(c),
{
    if c == 0x6eu8 {
        Some(0x0au8)
    } else if c == 0x72u8 {
        Some(0x0du8)
    } else if c == 0x74u8 {
        Some(0x09u8)
    } else if c == 0x5cu8 {
        Some(0x5cu8)
    } else if c == 0x30u8 {
        Some(0x00u8)
    } else if c == 0x27u8 {
        Some(0x27u8)
    } else if c == 0x22u8 {
        Some(0x22u8)
    } else {
        None
    }
}

fn hex_digit(c: u8) -> (r: Option<u32>)
    ensures
        r == spec_hex_digit(c),
{
    if 0x30u8 <= c && c <= 0x39u8 {
        Some((c - 0x30u8) as u32)
    } else if 0x61u8 <= c && c <= 0x66u8 {
        Some((c - 0x61u8 + 10) as u32)
    } else if 0x41u8 <= c && c <= 0x46u8 {
        Some((c - 0x41u8 + 10) as u32)
    } else {
        None
    }
}

/// A `\u{..}` escape read from `i` on ends past `i`, within `b`.
proof fn lemma_unicode_end(b: Seq<u8>, i: nat, acc: u32)
    ensures
        spec_unicode_from(b, i, acc) matches Some((_, j)) ==> i < j <= b.len(),
    decreases b.len() - i,
{
    if i < b.len() && b[i as int] != 0x7du8 {
        if b[i as int] == 0x5fu8 {
            lemma_unicode_end(b, i + 1, acc);
        } else if let Some(d) = spec_hex_digit(b[i as int]) {
            if acc <= 0x10FFFF {
                lemma_unicode_end(b, i + 1, (acc * 16 + d) as u32);
            }
        }
    }
}

/// Reads the digits of a `\u{..}` escape starting at `start`.
fn unicode_from(b: &[u8], start: usize) -> (r: Option<(u32, usize)>)
    requires
        start <= b@.len(),
    ensures
        match spec_unicode_from(b@, start as nat, 0) {
            Some((cp, j)) => r == Some((cp, j as usize)) && j <= b@.len(),
            None => r is None,
        },
{
    proof {
        lemma_unicode_end(b@, start as nat, 0);
    }
    let mut acc: u32 = 0;
    let mut i: usize = start;
    while i < b.len()
        invariant
            start <= i <= b@.len(),
            spec_unicode_from(b@, start as nat, 0) == spec_unicode_from(b@, i as nat, acc),
        decreases b@.len() - i,
    {
        let c = b[i];
        if c == 0x7du8 {
            return Some((acc, i + 1));
        } else if c == 0x5fu8 {
            i = i + 1;
        } else {
            match hex_digit(c) {
                Some(d) => {
                    if acc > 0x10FFFF {
                        return None;
                    }
                    acc = acc * 16 + d;
                    i = i + 1;
                },
                None => {
                    return None;
                },
            }
        }
    }
    None
}

/// The first position from `i` on that is not skipped whitespace.
fn skip_space(b: &[u8], i: usize) -> (r: usize)
    requires
        i <= b@.len(),
    ensures
        r == spec_skip_space(b@, i as nat),
        i <= r <= b@.len(),
{
    let mut k = i;
    while k < b.len() && (b[k] == 0x20u8 || b[k] == 0x09u8 || b[k] == 0x0au8 || b[k] == 0x0du8)
        invariant
            i <= k <= b@.len(),
            spec_skip_space(b@, i as nat) == spec_skip_space(b@, k as nat),
        decreases b@.len() - k,
    {
        k = k + 1;
    }
    k
}

/// Appends the UTF-8 encoding of the code point `c`.
fn push_utf8(out: &mut Vec<u8>, c: u32)
    ensures
        final(out)@ == old(out)@ + spec_utf8_of(c),
{
    let ghost pre = out@;
    if c < 0x80 {
        out.push(c as u8);
    } else if c < 0x800 {
        out.push((0xC0u32 | (c >> 6u32)) as u8);
        out.push((0x80u32 | (c & 0x3Fu32)) as u8);
    } else if c < 0x10000 {
        out.push((0xE0u32 | (c >> 12u32)) as u8);
        out.push((0x80u32 | ((c >> 6u32) & 0x3Fu32)) as u8);
        out.push((0x80u32 | (c & 0x3Fu32)) as u8);
    } else {
        out.push((0xF0u32 | (c >> 18u32)) as u8);
        out.push((0x80u32 | ((c >> 12u32) & 0x3Fu32)) as u8);
        out.push((0x80u32 | ((c >> 6u32) & 0x3Fu32)) as u8);
        out.push((0x80u32 | (c & 0x3Fu32)) as u8);
    }
    assert(out@ =~= pre + spec_utf8_of(c));
}

/// The bytes the body `b` of a string literal stands for once its escapes are resolved.
fn unescape(b: &[u8]) -> (r: Option<Vec<u8>>)
    ensures
        match spec_unescape_from(b@, 0) {
            Some(t) => r matches Some(v) && v@ == t,
            None => r is None,
        },
{
    let mut out: Vec<u8> = Vec::new();
    let mut i: usize = 0;
    while i < b.len()
        invariant
            i <= b@.len(),
            spec_unescape_from(b@, 0) == match spec_unescape_from(b@, i as nat) {
                Some(t) => Some(out@ + t),
                None => None::<Seq<u8>>,
            },
        decreases b@.len() - i,
    {
        let ghost before = out@;
        let c = b[i];
        if c != 0x5cu8 {
            out.push(c);
            proof {
                match spec_unescape_from(b@, (i + 1) as nat) {
                    Some(t) => {
                        assert(before + (seq![c] + t) =~= out@ + t);
                    },
                    None => {},
                }
            }
            i = i + 1;
        } else {
            if i + 1 >= b.len() {
                return None;
            }
            let e = b[i + 1];
            match simple_escape(e) {
                Some(x) => {
                    out.push(x);
                    proof {
                        match spec_unescape_from(b@, (i + 2) as nat) {
                            Some(t) => {
                                assert(before + (seq![x] + t) =~= out@ + t);
                            },
                            None => {},
                        }
                    }
                    i = i + 2;
                },
                None => {
                    if e == 0x78u8 {
                        if b.len() - i <= 3 {
                            return None;
                        }
                        let hi = hex_digit(b[i + 2]);
                        let lo = hex_digit(b[i + 3]);
                        match (hi, lo) {
                            (Some(h), Some(l)) => {
                                if h * 16 + l > 0x7f {
                                    return None;
                                }
                                let x = (h * 16 + l) as u8;
                                out.push(x);
                                proof {
                                    match spec_unescape_from(b@, (i + 4) as nat) {
                                        Some(t) => {
                                            assert(before + (seq![x] + t) =~= out@ + t);
                                        },
                                        None => {},
                                    }
                                }
                                i = i + 4;
                            },
                            _ => {
                                return None;
                            },
                        }
                    } else if e == 0x75u8 {
                        if i + 2 >= b.len() || b[i + 2] != 0x7bu8 {
                            return None;
                        }
                        match unicode_from(b, i + 3) {
                            Some((cp, j)) => {
                                if j <= i {
                                    return None;
                                }
                                push_utf8(&mut out, cp);
                                proof {
                                    match spec_unescape_from(b@, j as nat) {
                                        Some(t) => {
                                            assert(before + (spec_utf8_of(cp) + t) =~= out@ + t);
                                        },
                                        None => {},
                                    }
                                }
                                i = j;
                            },
                            None => {
                                return None;
                            },
                        }
                    } else if e == 0x0au8 {
                        let k = skip_space(b, i + 2);
                        i = k;
                    } else {
                        return None;
                    }
                },
            }
        }
    }
    Some(out)
}

/// Number of `#` bytes in `b` from position `i` on, before any other byte.
pub open spec fn hashes_from(b: Seq<u8>, i: nat) -> nat
    decreases b.len() - i,
{
    if i < b.len() && b[i as int] == 0x23u8 {
        1 + hashes_from(b, i + 1)
    } else {
        0
    }
}

/// The text of a raw string literal `r"text"` or `r#"text"#` (any number of `#`), when `b`
/// is one.
pub open spec fn raw_literal_text(b: Seq<u8>) -> Option<Seq<u8>> {
    if b.len() >= 1 && b[0] == 0x72u8 {
        let k = hashes_from(b, 1);
        if b.len() >= 2 * k + 3 && b[(k + 1) as int] == 0x22u8 && b[b.len() - k - 1] == 0x22u8 && forall|j: int|
            b.len() - k <= j < b.len() ==> b[j] == 0x23u8 {
            Some(b.subrange((k + 2) as int, b.len() - k - 1))
        } else {
            None
        }
    } else {
        None
    }
}

/// Outcome of reading a key name: the text a string literal stands for (a raw literal's
/// text as written, a plain literal's with its escapes resolved), or why it is refused.
pub open spec fn spec_var_name(ts: Seq<Token>) -> Result<Seq<u8>, DeriveError> {
    if ts.len() == 0 || !(ts[0] is Literal) {
        Err(DeriveError::NotAStringLiteral)
    } else if ts.len() > 1 {
        Err(DeriveError::ExtraTokens)
    } else {
        let b = encode_utf8(ts[0]->Literal_0@);
        match raw_literal_text(b) {
            Some(text) => if text.len() == 0 {
                Err(DeriveError::EmptyName)
            } else {
                Ok(text)
            },
            None => if b.len() < 2 || b[0] != 0x22u8 || b[b.len() - 1] != 0x22u8 {
                Err(DeriveError::NotAStringLiteral)
            } else {
                match spec_unescape_from(b.subrange(1, b.len() - 1), 0) {
                    None => Err(DeriveError::NotAStringLiteral),
                    Some(text) => if text.len() == 0 {
                        Err(DeriveError::EmptyName)
                    } else {
                        Ok(text)
                    },
                }
            },
        }
    }
}

/// The text of `b` as a raw string literal, if it is one.
fn raw_text(b: &[u8]) -> (r: Option<&[u8]>)
    ensures
        match raw_literal_text(b@) {
            Some(t) => r matches Some(x) && x@ == t,
            None => r is None,
        },
{
    if b.len() == 0 || b[0] != 0x72u8 {
        return None;
    }
    let mut k: usize = 0;
    while k < b.len() - 1 && b[1 + k] == 0x23u8
        invariant
            1 <= b@.len(),
            1 + k <= b@.len(),
            hashes_from(b@, 1) == k + hashes_from(b@, (1 + k) as nat),
        decreases b@.len() - k,
    {
        k = k + 1;
    }
    assert(hashes_from(b@, (1 + k) as nat) == 0);
    if b.len() - k - 1 <= k + 1 || b[k + 1] != 0x22u8 || b[b.len() - k - 1] != 0x22u8 {
        return None;
    }
    let mut j: usize = b.len() - k;
    while j < b.len()
        invariant
            k == hashes_from(b@, 1),
            b@.len() >= 2 * k + 3,
            b@.len() - k <= j <= b@.len(),
            forall|m: int| b@.len() - k <= m < j ==> b@[m] == 0x23u8,
        decreases b@.len() - j,
    {
        if b[j] != 0x23u8 {
            return None;
        }
        j = j + 1;
    }
    Some(vstd::slice::slice_subrange(b, k + 2, b.len() - k - 1))
}

/// The [`Key`] named by a single, non-empty string literal (plain or raw): the FNV-1a hash
/// of the text it stands for.
pub fn var_key(ts: &[Token]) -> (r: Result<Key, DeriveError>)
    ensures
        match spec_var_name(ts@) {
            Ok(name) => r matches Ok(k) && k.hash == spec_fnv1a(name),
            Err(e) => r == Err::<Key, DeriveError>(e),
        },
{
    if ts.len() == 0 {
        return Err(DeriveError::NotAStringLiteral);
    }
    let lit = match &ts[0] {
        Token::Literal(s) => s,
        _ => {
            return Err(DeriveError::NotAStringLiteral);
        },
    };
    if ts.len() > 1 {
        return Err(DeriveError::ExtraTokens);
    }
    let b = lit.as_str().as_bytes();
    match raw_text(b) {
        Some(text) => {
            if text.len() == 0 {
                return Err(DeriveError::EmptyName);
            }
            return Ok(Key::new(fnv1a_bytes(text)));
        },
        None => {},
    }
    if b.len() < 2 || b[0] != 0x22u8 || b[b.len() - 1] != 0x22u8 {
        return Err(DeriveError::NotAStringLiteral);
    }
    let inner = vstd::slice::slice_subrange(b, 1, b.len() - 1);
    match unescape(inner) {
        None => Err(DeriveError::NotAStringLiteral),
        Some(text) => {
            if text.len() == 0 {
                Err(DeriveError::EmptyName)
            } else {
                Ok(Key::new(fnv1a_bytes(text.as_slice())))
            }
        },
    }
}

} // verus!
