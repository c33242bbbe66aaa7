use vstd::prelude::*;
use crate::arena::{Arena, ArenaIndex, spec_overwritten};
use crate::mem_align::MemAlign;
use crate::traits::VarMapValue;
use crate::value::{Content, Value, ValueBuilder, ValueKind};

verus! {

/// Calls `<&[u8; N]>::try_from(&[u8])`. std documents that the conversion succeeds exactly when
/// the slice holds `N` elements, and that the array is a view of those same elements.
#[verifier::external_body]
fn slice_as_array<'a, const N: usize>(b: &'a [u8]) -> (r: Option<&'a [u8; N]>)
    ensures
        r is Some <==> b@.len() == N,
        r matches Some(a) ==> a@ == b@,
{
    <&[u8; N]>::try_from(b).ok()
}

/// Overwriting a payload in place leaves it holding the new bytes and every other byte as it was.
proof fn lemma_rewrite_digest(old: Arena, new: Arena, index: ArenaIndex, bytes: Seq<u8>)
    requires
        old.wf(),
        old.holds(index),
        bytes.len() == index.size,
        new.bytes() == spec_overwritten(old.bytes(), index.offset as int, bytes),
        new.used() == old.used(),
    ensures
        new.wf(),
        new.region(index) == bytes,
        new.bytes().len() == old.bytes().len(),
        forall|i: int|
            0 <= i < old.bytes().len() && !(index.offset <= i < index.end()) ==> #[trigger] new.bytes()[i]
                == old.bytes()[i],
{
    assert(new.region(index) =~= bytes);
}

/// A 128-bit hash digest, stored in the map arena.
pub type Hash128 = [u8; 16];

impl VarMapValue for [u8; 16] {
    type Decoded<'a> = &'a [u8; 16];

    const TYPE_ID: u32 = 0;

    open spec fn content(&self) -> Content {
        Content::Digest(self@)
    }

    open spec fn accepts(c: Content) -> bool {
        c matches Content::Digest(b) && b.len() == 16
    }

    open spec fn decoded_content<'a>(d: &'a [u8; 16]) -> Content {
        Content::Digest(d@)
    }

    open spec fn updatable(c: Content) -> bool {
        c matches Content::Digest(b) && b.len() == 16
    }

    open spec fn fits(&self, arena: Arena) -> bool {
        arena.has_room(16, MemAlign::Bits8)
    }

    open spec fn footprint(&self) -> nat {
        16
    }

    fn to_value(&self, builder: &mut ValueBuilder) -> (r: ValueKind) {
        ValueKind::Hash128(builder.store(vstd::array::array_as_slice(self), MemAlign::Bits8))
    }

    fn from_value<'a>(value: &Value<'a>) -> (r: Option<&'a [u8; 16]>) {
        match *value.kind() {
            ValueKind::Hash128(index) => match value.arena().get(index) {
                Some(b) => slice_as_array(b),
                None => None,
            },
            _ => None,
        }
    }

    fn update<F: FnOnce([u8; 16]) -> [u8; 16]>(kind: &mut ValueKind, arena: &mut Arena, f: F) -> (r: bool) {
        match *kind {
            ValueKind::Hash128(index) => {
                let current = match arena.get(index) {
                    Some(b) => slice_as_array::<16>(b),
                    None => None,
                };
                match current {
                    Some(a) => {
                        let w = f(*a);
                        let ghost before = *arena;
                        let ok = arena.write(index, vstd::array::array_as_slice(&w));
                        proof {
                            lemma_rewrite_digest(before, *arena, index, w@);
                        }
                        ok
                    },
                    None => false,
                }
            },
            _ => false,
        }
    }
}

/// A 160-bit hash digest, stored in the map arena.
pub type Hash160 = [u8; 20];

impl VarMapValue for [u8; 20] {
    type Decoded<'a> = &'a [u8; 20];

    const TYPE_ID: u32 = 0;

    open spec fn content(&self) -> Content {
        Content::Digest(self@)
    }

    open spec fn accepts(c: Content) -> bool {
        c matches Content::Digest(b) && b.len() == 20
    }

    open spec fn decoded_content<'a>(d: &'a [u8; 20]) -> Content {
        Content::Digest(d@)
    }

    open spec fn updatable(c: Content) -> bool {
        c matches Content::Digest(b) && b.len() == 20
    }

    open spec fn fits(&self, arena: Arena) -> bool {
        arena.has_room(20, MemAlign::Bits8)
    }

    open spec fn footprint(&self) -> nat {
        20
    }

    fn to_value(&self, builder: &mut ValueBuilder) -> (r: ValueKind) {
        ValueKind::Hash160(builder.store(vstd::array::array_as_slice(self), MemAlign::Bits8))
    }

    fn from_value<'a>(value: &Value<'a>) -> (r: Option<&'a [u8; 20]>) {
        match *value.kind() {
            ValueKind::Hash160(index) => match value.arena().get(index) {
                Some(b) => slice_as_array(b),
                None => None,
            },
            _ => None,
        }
    }

    fn update<F: FnOnce([u8; 20]) -> [u8; 20]>(kind: &mut ValueKind, arena: &mut Arena, f: F) -> (r: bool) {
        match *kind {
            ValueKind::Hash160(index) => {
                let current = match arena.get(index) {
                    Some(b) => slice_as_array::<20>(b),
                    None => None,
                };
                match current {
                    Some(a) => {
                        let w = f(*a);
                        let ghost before = *arena;
                        let ok = arena.write(index, vstd::array::array_as_slice(&w));
                        proof {
                            lemma_rewrite_digest(before, *arena, index, w@);
                        }
                        ok
                    },
                    None => false,
                }
            },
            _ => false,
        }
    }
}

/// A 256-bit hash digest, stored in the map arena.
pub type Hash256 = [u8; 32];

impl VarMapValue for [u8; 32] {
    type Decoded<'a> = &'a [u8; 32];

    const TYPE_ID: u32 = 0;

    open spec fn content(&self) -> Content {
        Content::Digest(self@)
    }

    open spec fn accepts(c: Content) -> bool {
        c matches Content::Digest(b) && b.len() == 32
    }

    open spec fn decoded_content<'a>(d: &'a [u8; 32]) -> Content {
        Content::Digest(d@)
    }

    open spec fn updatable(c: Content) -> bool {
        c matches Content::Digest(b) && b.len() == 32
    }

    open spec fn fits(&self, arena: Arena) -> bool {
        arena.has_room(32, MemAlign::Bits8)
    }

    open spec fn footprint(&self) -> nat {
        32
    }

    fn to_value(&self, builder: &mut ValueBuilder) -> (r: ValueKind) {
        ValueKind::Hash256(builder.store(vstd::array::array_as_slice(self), MemAlign::Bits8))
    }

    fn from_value<'a>(value: &Value<'a>) -> (r: Option<&'a [u8; 32]>) {
        match *value.kind() {
            ValueKind::Hash256(index) => match value.arena().get(index) {
                Some(b) => slice_as_array(b),
                None => None,
            },
            _ => None,
        }
    }

    fn update<F: FnOnce([u8; 32]) -> [u8; 32]>(kind: &mut ValueKind, arena: &mut Arena, f: F) -> (r: bool) {
        match *kind {
            ValueKind::Hash256(index) => {
                let current = match arena.get(index) {
                    Some(b) => slice_as_array::<32>(b),
                    None => None,
                };
                match current {
                    Some(a) => {
                        let w = f(*a);
                        let ghost before = *arena;
                        let ok = arena.write(index, vstd::array::array_as_slice(&w));
                        proof {
                            lemma_rewrite_digest(before, *arena, index, w@);
                        }
                        ok
                    },
                    None => false,
                }
            },
            _ => false,
        }
    }
}

/// A 384-bit hash digest, stored in the map arena.
pub type Hash384 = [u8; 48];

impl VarMapValue for [u8; 48] {
    type Decoded<'a> = &'a [u8; 48];

    const TYPE_ID: u32 = 0;

    open spec fn content(&self) -> Content {
        Content::Digest(self@)
    }

    open spec fn accepts(c: Content) -> bool {
        c matches Content::Digest(b) && b.len() == 48
    }

    open spec fn decoded_content<'a>(d: &'a [u8; 48]) -> Content {
        Content::Digest(d@)
    }

    open spec fn updatable(c: Content) -> bool {
        c matches Content::Digest(b) && b.len() == 48
    }

    open spec fn fits(&self, arena: Arena) -> bool {
        arena.has_room(48, MemAlign::Bits8)
    }

    open spec fn footprint(&self) -> nat {
        48
    }

    fn to_value(&self, builder: &mut ValueBuilder) -> (r: ValueKind) {
        ValueKind::Hash384(builder.store(vstd::array::array_as_slice(self), MemAlign::Bits8))
    }

    fn from_value<'a>(value: &Value<'a>) -> (r: Option<&'a [u8; 48]>) {
        match *value.kind() {
            ValueKind::Hash384(index) => match value.arena().get(index) {
                Some(b) => slice_as_array(b),
                None => None,
            },
            _ => None,
        }
    }

    fn update<F: FnOnce([u8; 48]) -> [u8; 48]>(kind: &mut ValueKind, arena: &mut Arena, f: F) -> (r: bool) {
        match *kind {
            ValueKind::Hash384(index) => {
                let current = match arena.get(index) {
                    Some(b) => slice_as_array::<48>(b),
                    None => None,
                };
                match current {
                    Some(a) => {
                        let w = f(*a);
                        let ghost before = *arena;
                        let ok = arena.write(index, vstd::array::array_as_slice(&w));
                        proof {
                            lemma_rewrite_digest(before, *arena, index, w@);
                        }
                        ok
                    },
                    None => false,
                }
            },
            _ => false,
        }
    }
}

/// A 512-bit hash digest, stored in the map arena.
pub type Hash512 = [u8; 64];

impl VarMapValue for [u8; 64] {
    type Decoded<'a> = &'a [u8; 64];

    const TYPE_ID: u32 = 0;

    open spec fn content(&self) -> Content {
        Content::Digest(self@)
    }

    open spec fn accepts(c: Content) -> bool {
        c matches Content::Digest(b) && b.len() == 64
    }

    open spec fn decoded_content<'a>(d: &'a [u8; 64]) -> Content {
        Content::Digest(d@)
    }

    open spec fn updatable(c: Content) -> bool {
        c matches Content::Digest(b) && b.len() == 64
    }

    open spec fn fits(&self, arena: Arena) -> bool {
        arena.has_room(64, MemAlign::Bits8)
    }

    open spec fn footprint(&self) -> nat {
        64
    }

    fn to_value(&self, builder: &mut ValueBuilder) -> (r: ValueKind) {
        ValueKind::Hash512(builder.store(vstd::array::array_as_slice(self), MemAlign::Bits8))
    }

    fn from_value<'a>(value: &Value<'a>) -> (r: Option<&'a [u8; 64]>) {
        match *value.kind() {
            ValueKind::Hash512(index) => match value.arena().get(index) {
                Some(b) => slice_as_array(b),
                None => None,
            },
            _ => None,
        }
    }

    fn update<F: FnOnce([u8; 64]) -> [u8; 64]>(kind: &mut ValueKind, arena: &mut Arena, f: F) -> (r: bool) {
        match *kind {
            ValueKind::Hash512(index) => {
                let current = match arena.get(index) {
                    Some(b) => slice_as_array::<64>(b),
                    None => None,
                };
                match current {
                    Some(a) => {
                        let w = f(*a);
                        let ghost before = *arena;
                        let ok = arena.write(index, vstd::array::array_as_slice(&w));
                        proof {
                            lemma_rewrite_digest(before, *arena, index, w@);
                        }
                        ok
                    },
                    None => false,
                }
            },
            _ => false,
        }
    }
}

} // verus!
