use vstd::prelude::*;
use vstd::bytes::{spec_u128_from_le_bytes, spec_u128_to_le_bytes, lemma_auto_spec_u128_to_from_le_bytes,
    u128_from_le_bytes, u128_to_le_bytes};
use crate::arena::{Arena, spec_overwritten};
use crate::mem_align::MemAlign;
use crate::traits::VarMapValue;
use crate::value::{Content, Value, ValueBuilder, ValueKind};

verus! {

/// Reads the sixteen little-endian bytes of a 128-bit payload.
fn read_u128(arena: &Arena, index: crate::arena::ArenaIndex) -> (r: u128)
    requires
        arena.wf(),
        arena.holds(index),
        index.size == 16,
    ensures
        r == spec_u128_from_le_bytes(arena.region(index)),
{
    let bytes = arena.get(index);
    match bytes {
        Some(b) => u128_from_le_bytes(b),
        None => 0,
    }
}

/// Overwrites a 128-bit payload in place with the little-endian bytes of `x`.
proof fn lemma_rewrite_u128(old: Arena, new: Arena, index: crate::arena::ArenaIndex, x: u128)
    requires
        old.wf(),
        old.holds(index),
        index.size == 16,
        new.bytes() == spec_overwritten(old.bytes(), index.offset as int, spec_u128_to_le_bytes(x)),
        new.used() == old.used(),
    ensures
        new.wf(),
        spec_u128_from_le_bytes(new.region(index)) == x,
        new.bytes().len() == old.bytes().len(),
        forall|i: int|
            0 <= i < old.bytes().len() && !(index.offset <= i < index.end()) ==> #[trigger] new.bytes()[i]
                == old.bytes()[i],
{
    lemma_auto_spec_u128_to_from_le_bytes();
    assert(new.region(index) =~= spec_u128_to_le_bytes(x));
}

impl VarMapValue for u128 {
    type Decoded<'a> = u128;

    const TYPE_ID: u32 = 0;

    open spec fn content(&self) -> Content {
        Content::U128(*self)
    }

    open spec fn accepts(c: Content) -> bool {
        c is U128
    }

    open spec fn updatable(c: Content) -> bool {
        c is U128
    }

    open spec fn decoded_content<'a>(d: u128) -> Content {
        Content::U128(d)
    }

    open spec fn fits(&self, arena: Arena) -> bool {
        arena.has_room(16, MemAlign::Bits8)
    }

    open spec fn footprint(&self) -> nat {
        16
    }


    fn to_value(&self, builder: &mut ValueBuilder) -> (r: ValueKind) {
        proof {
            lemma_auto_spec_u128_to_from_le_bytes();
        }
        let bytes = u128_to_le_bytes(*self);
        let index = builder.store(bytes.as_slice(), MemAlign::Bits8);
        ValueKind::U128(index)
    }

    fn from_value<'a>(value: &Value<'a>) -> (r: Option<u128>) {
        match *value.kind() {
            ValueKind::U128(index) => Some(read_u128(value.arena(), index)),
            _ => None,
        }
    }

    fn update<F: FnOnce(u128) -> u128>(kind: &mut ValueKind, arena: &mut Arena, f: F) -> (r: bool) {
        match *kind {
            ValueKind::U128(index) => {
                let v = read_u128(arena, index);
                let w = f(v);
                let bytes = u128_to_le_bytes(w);
                let ghost before = *arena;
                let ok = arena.write(index, bytes.as_slice());
                proof {
                    lemma_rewrite_u128(before, *arena, index, w);
                }
                ok
            },
            _ => false,
        }
    }
}

impl VarMapValue for i128 {
    type Decoded<'a> = i128;

    const TYPE_ID: u32 = 0;

    open spec fn content(&self) -> Content {
        Content::I128(*self)
    }

    open spec fn accepts(c: Content) -> bool {
        c is I128
    }

    open spec fn updatable(c: Content) -> bool {
        c is I128
    }

    open spec fn decoded_content<'a>(d: i128) -> Content {
        Content::I128(d)
    }

    open spec fn fits(&self, arena: Arena) -> bool {
        arena.has_room(16, MemAlign::Bits8)
    }

    open spec fn footprint(&self) -> nat {
        16
    }


    fn to_value(&self, builder: &mut ValueBuilder) -> (r: ValueKind) {
        let x = *self;
        proof {
            lemma_auto_spec_u128_to_from_le_bytes();
            assert((x as u128) as i128 == x) by (bit_vector);
        }
        let bytes = u128_to_le_bytes(x as u128);
        let index = builder.store(bytes.as_slice(), MemAlign::Bits8);
        ValueKind::I128(index)
    }

    fn from_value<'a>(value: &Value<'a>) -> (r: Option<i128>) {
        match *value.kind() {
            ValueKind::I128(index) => Some(read_u128(value.arena(), index) as i128),
            _ => None,
        }
    }

    fn update<F: FnOnce(i128) -> i128>(kind: &mut ValueKind, arena: &mut Arena, f: F) -> (r: bool) {
        match *kind {
            ValueKind::I128(index) => {
                let v = read_u128(arena, index) as i128;
                let w = f(v);
                proof {
                    assert((w as u128) as i128 == w) by (bit_vector);
                }
                let bytes = u128_to_le_bytes(w as u128);
                let ghost before = *arena;
                let ok = arena.write(index, bytes.as_slice());
                proof {
                    lemma_rewrite_u128(before, *arena, index, w as u128);
                }
                ok
            },
            _ => false,
        }
    }
}

} // verus!
