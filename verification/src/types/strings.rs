use vstd::prelude::*;
use vstd::utf8::{valid_utf8, encode_utf8_valid_utf8};
use vstd::string::StringSliceAdditionalSpecFns;
use crate::arena::Arena;
use crate::mem_align::MemAlign;
use crate::traits::VarMapValue;
use crate::value::{Content, Value, ValueBuilder, ValueKind};

verus! {

/// Calls `std::str::from_utf8`. std documents that it succeeds exactly when the bytes are
/// valid UTF-8 and that the string it hands back is made of those same bytes.
#[verifier::external_body]
fn utf8_str<'a>(bytes: &'a [u8]) -> (r: Option<&'a str>)
    ensures
        r is Some <==> valid_utf8(bytes@),
        r matches Some(s) ==> s.spec_bytes() == bytes@,
{
    std::str::from_utf8(bytes).ok()
}

/// Copies up to fourteen bytes into the inline buffer of a small value.
pub(crate) fn inline_copy(bytes: &[u8]) -> (r: [u8; 14])
    requires
        bytes@.len() <= 14,
    ensures
        r@.subrange(0, bytes@.len() as int) == bytes@,
{
    let mut small = [0u8; 14];
    let mut i: usize = 0;
    while i < bytes.len()
        invariant
            0 <= i <= bytes@.len() <= 14,
            small@.len() == 14,
            forall|j: int| 0 <= j < i ==> small@[j] == bytes@[j],
        decreases bytes@.len() - i,
    {
        small[i] = bytes[i];
        i = i + 1;
    }
    assert(small@.subrange(0, bytes@.len() as int) =~= bytes@);
    small
}

/// The first `len` bytes of an inline buffer.
pub(crate) fn inline_bytes<'a>(small: &'a [u8; 14], len: u8) -> (r: &'a [u8])
    requires
        len <= 14,
    ensures
        r@ == small@.subrange(0, len as int),
{
    vstd::slice::slice_subrange(vstd::array::array_as_slice(small), 0, len as usize)
}

impl<'s> VarMapValue for &'s str {
    type Decoded<'a> = &'a str;

    const TYPE_ID: u32 = 0;

    open spec fn content(&self) -> Content {
        Content::Str((*self).spec_bytes())
    }

    open spec fn accepts(c: Content) -> bool {
        c matches Content::Str(b) && valid_utf8(b)
    }

    open spec fn decoded_content<'a>(d: &'a str) -> Content {
        Content::Str(d.spec_bytes())
    }

    open spec fn fits(&self, arena: Arena) -> bool {
        (*self).spec_bytes().len() <= 14 || arena.has_room((*self).spec_bytes().len(), MemAlign::Bits8)
    }

    open spec fn footprint(&self) -> nat {
        if (*self).spec_bytes().len() <= 14 {
            0
        } else {
            (*self).spec_bytes().len()
        }
    }


    fn to_value(&self, builder: &mut ValueBuilder) -> (r: ValueKind) {
        proof {
            encode_utf8_valid_utf8((*self)@);
        }
        let bytes = self.as_bytes();
        if bytes.len() <= 14 {
            ValueKind::SmallString(inline_copy(bytes), bytes.len() as u8)
        } else {
            ValueKind::String(builder.store(bytes, MemAlign::Bits8))
        }
    }

    fn from_value<'a>(value: &Value<'a>) -> (r: Option<&'a str>) {
        match value.kind() {
            ValueKind::String(index) => {
                match value.arena().get(*index) {
                    Some(b) => utf8_str(b),
                    None => None,
                }
            },
            ValueKind::SmallString(small, len) => utf8_str(inline_bytes(small, *len)),
            _ => None,
        }
    }

    open spec fn updatable(c: Content) -> bool {
        false
    }

    fn update<F: FnOnce(Self) -> Self>(kind: &mut ValueKind, arena: &mut Arena, f: F) -> (r: bool) {
        false
    }
}

impl<'s> VarMapValue for &'s [u8] {
    type Decoded<'a> = &'a [u8];

    const TYPE_ID: u32 = 0;

    open spec fn content(&self) -> Content {
        Content::Bytes((*self)@)
    }

    open spec fn accepts(c: Content) -> bool {
        c is Bytes
    }

    open spec fn decoded_content<'a>(d: &'a [u8]) -> Content {
        Content::Bytes(d@)
    }

    open spec fn fits(&self, arena: Arena) -> bool {
        (*self)@.len() <= 14 || arena.has_room((*self)@.len(), MemAlign::Bits8)
    }

    open spec fn footprint(&self) -> nat {
        if (*self)@.len() <= 14 {
            0
        } else {
            (*self)@.len()
        }
    }


    fn to_value(&self, builder: &mut ValueBuilder) -> (r: ValueKind) {
        let bytes: &[u8] = *self;
        if bytes.len() <= 14 {
            ValueKind::SmallBytes(inline_copy(bytes), bytes.len() as u8)
        } else {
            ValueKind::Bytes(builder.store(bytes, MemAlign::Bits8))
        }
    }

    fn from_value<'a>(value: &Value<'a>) -> (r: Option<&'a [u8]>) {
        match value.kind() {
            ValueKind::Bytes(index) => value.arena().get(*index),
            ValueKind::SmallBytes(small, len) => Some(inline_bytes(small, *len)),
            _ => None,
        }
    }

    open spec fn updatable(c: Content) -> bool {
        false
    }

    fn update<F: FnOnce(Self) -> Self>(kind: &mut ValueKind, arena: &mut Arena, f: F) -> (r: bool) {
        false
    }
}

} // verus!
