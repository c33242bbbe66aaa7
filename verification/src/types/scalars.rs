use vstd::prelude::*;
use crate::arena::Arena;
use crate::traits::VarMapValue;
use crate::value::{Content, Value, ValueBuilder, ValueKind};

verus! {

impl VarMapValue for bool {
    type Decoded<'a> = bool;

    const TYPE_ID: u32 = 0;

    open spec fn content(&self) -> Content {
        Content::Bool(*self)
    }

    open spec fn accepts(c: Content) -> bool {
        c is Bool
    }

    open spec fn decoded_content<'a>(d: bool) -> Content {
        Content::Bool(d)
    }

    open spec fn fits(&self, arena: Arena) -> bool {
        true
    }

    open spec fn footprint(&self) -> nat {
        0
    }


    fn to_value(&self, builder: &mut ValueBuilder) -> (r: ValueKind) {
        ValueKind::Bool(*self)
    }

    fn from_value<'a>(value: &Value<'a>) -> (r: Option<bool>) {
        match *value.kind() {
            ValueKind::Bool(v) => Some(v),
            _ => None,
        }
    }

    open spec fn updatable(c: Content) -> bool {
        false
    }

    fn update<F: FnOnce(Self) -> Self>(kind: &mut ValueKind, arena: &mut Arena, f: F) -> (r: bool) {
        false
    }
}

impl VarMapValue for char {
    type Decoded<'a> = char;

    const TYPE_ID: u32 = 0;

    open spec fn content(&self) -> Content {
        Content::Char(*self)
    }

    open spec fn accepts(c: Content) -> bool {
        c is Char
    }

    open spec fn decoded_content<'a>(d: char) -> Content {
        Content::Char(d)
    }

    open spec fn fits(&self, arena: Arena) -> bool {
        true
    }

    open spec fn footprint(&self) -> nat {
        0
    }


    fn to_value(&self, builder: &mut ValueBuilder) -> (r: ValueKind) {
        ValueKind::Char(*self)
    }

    fn from_value<'a>(value: &Value<'a>) -> (r: Option<char>) {
        match *value.kind() {
            ValueKind::Char(v) => Some(v),
            _ => None,
        }
    }

    open spec fn updatable(c: Content) -> bool {
        false
    }

    fn update<F: FnOnce(Self) -> Self>(kind: &mut ValueKind, arena: &mut Arena, f: F) -> (r: bool) {
        false
    }
}

} // verus!
