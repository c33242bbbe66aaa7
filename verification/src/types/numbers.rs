use vstd::prelude::*;
use crate::arena::Arena;
use crate::traits::VarMapValue;
use crate::value::{Content, Value, ValueBuilder, ValueKind};

verus! {

impl VarMapValue for u8 {
    type Decoded<'a> = u8;

    const TYPE_ID: u32 = 0;

    open spec fn content(&self) -> Content {
        Content::U8(*self)
    }

    open spec fn accepts(c: Content) -> bool {
        c is U8
    }

    open spec fn updatable(c: Content) -> bool {
        c is U8
    }

    open spec fn decoded_content<'a>(d: u8) -> Content {
        Content::U8(d)
    }

    open spec fn fits(&self, arena: Arena) -> bool {
        true
    }

    open spec fn footprint(&self) -> nat {
        0
    }


    fn to_value(&self, builder: &mut ValueBuilder) -> (r: ValueKind) {
        ValueKind::U8(*self)
    }

    fn from_value<'a>(value: &Value<'a>) -> (r: Option<u8>) {
        match *value.kind() {
            ValueKind::U8(v) => Some(v),
            _ => None,
        }
    }

    fn update<F: FnOnce(u8) -> u8>(kind: &mut ValueKind, arena: &mut Arena, f: F) -> (r: bool) {
        match *kind {
            ValueKind::U8(v) => {
                let w = f(v);
                *kind = ValueKind::U8(w);
                true
            },
            _ => false,
        }
    }
}

impl VarMapValue for u16 {
    type Decoded<'a> = u16;

    const TYPE_ID: u32 = 0;

    open spec fn content(&self) -> Content {
        Content::U16(*self)
    }

    open spec fn accepts(c: Content) -> bool {
        c is U16
    }

    open spec fn updatable(c: Content) -> bool {
        c is U16
    }

    open spec fn decoded_content<'a>(d: u16) -> Content {
        Content::U16(d)
    }

    open spec fn fits(&self, arena: Arena) -> bool {
        true
    }

    open spec fn footprint(&self) -> nat {
        0
    }


    fn to_value(&self, builder: &mut ValueBuilder) -> (r: ValueKind) {
        ValueKind::U16(*self)
    }

    fn from_value<'a>(value: &Value<'a>) -> (r: Option<u16>) {
        match *value.kind() {
            ValueKind::U16(v) => Some(v),
            _ => None,
        }
    }

    fn update<F: FnOnce(u16) -> u16>(kind: &mut ValueKind, arena: &mut Arena, f: F) -> (r: bool) {
        match *kind {
            ValueKind::U16(v) => {
                let w = f(v);
                *kind = ValueKind::U16(w);
                true
            },
            _ => false,
        }
    }
}

impl VarMapValue for u32 {
    type Decoded<'a> = u32;

    const TYPE_ID: u32 = 0;

    open spec fn content(&self) -> Content {
        Content::U32(*self)
    }

    open spec fn accepts(c: Content) -> bool {
        c is U32
    }

    open spec fn updatable(c: Content) -> bool {
        c is U32
    }

    open spec fn decoded_content<'a>(d: u32) -> Content {
        Content::U32(d)
    }

    open spec fn fits(&self, arena: Arena) -> bool {
        true
    }

    open spec fn footprint(&self) -> nat {
        0
    }


    fn to_value(&self, builder: &mut ValueBuilder) -> (r: ValueKind) {
        ValueKind::U32(*self)
    }

    fn from_value<'a>(value: &Value<'a>) -> (r: Option<u32>) {
        match *value.kind() {
            ValueKind::U32(v) => Some(v),
            _ => None,
        }
    }

    fn update<F: FnOnce(u32) -> u32>(kind: &mut ValueKind, arena: &mut Arena, f: F) -> (r: bool) {
        match *kind {
            ValueKind::U32(v) => {
                let w = f(v);
                *kind = ValueKind::U32(w);
                true
            },
            _ => false,
        }
    }
}

impl VarMapValue for u64 {
    type Decoded<'a> = u64;

    const TYPE_ID: u32 = 0;

    open spec fn content(&self) -> Content {
        Content::U64(*self)
    }

    open spec fn accepts(c: Content) -> bool {
        c is U64
    }

    open spec fn updatable(c: Content) -> bool {
        c is U64
    }

    open spec fn decoded_content<'a>(d: u64) -> Content {
        Content::U64(d)
    }

    open spec fn fits(&self, arena: Arena) -> bool {
        true
    }

    open spec fn footprint(&self) -> nat {
        0
    }


    fn to_value(&self, builder: &mut ValueBuilder) -> (r: ValueKind) {
        ValueKind::U64(*self)
    }

    fn from_value<'a>(value: &Value<'a>) -> (r: Option<u64>) {
        match *value.kind() {
            ValueKind::U64(v) => Some(v),
            _ => None,
        }
    }

    fn update<F: FnOnce(u64) -> u64>(kind: &mut ValueKind, arena: &mut Arena, f: F) -> (r: bool) {
        match *kind {
            ValueKind::U64(v) => {
                let w = f(v);
                *kind = ValueKind::U64(w);
                true
            },
            _ => false,
        }
    }
}

impl VarMapValue for i8 {
    type Decoded<'a> = i8;

    const TYPE_ID: u32 = 0;

    open spec fn content(&self) -> Content {
        Content::I8(*self)
    }

    open spec fn accepts(c: Content) -> bool {
        c is I8
    }

    open spec fn updatable(c: Content) -> bool {
        c is I8
    }

    open spec fn decoded_content<'a>(d: i8) -> Content {
        Content::I8(d)
    }

    open spec fn fits(&self, arena: Arena) -> bool {
        true
    }

    open spec fn footprint(&self) -> nat {
        0
    }


    fn to_value(&self, builder: &mut ValueBuilder) -> (r: ValueKind) {
        ValueKind::I8(*self)
    }

    fn from_value<'a>(value: &Value<'a>) -> (r: Option<i8>) {
        match *value.kind() {
            ValueKind::I8(v) => Some(v),
            _ => None,
        }
    }

    fn update<F: FnOnce(i8) -> i8>(kind: &mut ValueKind, arena: &mut Arena, f: F) -> (r: bool) {
        match *kind {
            ValueKind::I8(v) => {
                let w = f(v);
                *kind = ValueKind::I8(w);
                true
            },
            _ => false,
        }
    }
}

impl VarMapValue for i16 {
    type Decoded<'a> = i16;

    const TYPE_ID: u32 = 0;

    open spec fn content(&self) -> Content {
        Content::I16(*self)
    }

    open spec fn accepts(c: Content) -> bool {
        c is I16
    }

    open spec fn updatable(c: Content) -> bool {
        c is I16
    }

    open spec fn decoded_content<'a>(d: i16) -> Content {
        Content::I16(d)
    }

    open spec fn fits(&self, arena: Arena) -> bool {
        true
    }

    open spec fn footprint(&self) -> nat {
        0
    }


    fn to_value(&self, builder: &mut ValueBuilder) -> (r: ValueKind) {
        ValueKind::I16(*self)
    }

    fn from_value<'a>(value: &Value<'a>) -> (r: Option<i16>) {
        match *value.kind() {
            ValueKind::I16(v) => Some(v),
            _ => None,
        }
    }

    fn update<F: FnOnce(i16) -> i16>(kind: &mut ValueKind, arena: &mut Arena, f: F) -> (r: bool) {
        match *kind {
            ValueKind::I16(v) => {
                let w = f(v);
                *kind = ValueKind::I16(w);
                true
            },
            _ => false,
        }
    }
}

impl VarMapValue for i32 {
    type Decoded<'a> = i32;

    const TYPE_ID: u32 = 0;

    open spec fn content(&self) -> Content {
        Content::I32(*self)
    }

    open spec fn accepts(c: Content) -> bool {
        c is I32
    }

    open spec fn updatable(c: Content) -> bool {
        c is I32
    }

    open spec fn decoded_content<'a>(d: i32) -> Content {
        Content::I32(d)
    }

    open spec fn fits(&self, arena: Arena) -> bool {
        true
    }

    open spec fn footprint(&self) -> nat {
        0
    }


    fn to_value(&self, builder: &mut ValueBuilder) -> (r: ValueKind) {
        ValueKind::I32(*self)
    }

    fn from_value<'a>(value: &Value<'a>) -> (r: Option<i32>) {
        match *value.kind() {
            ValueKind::I32(v) => Some(v),
            _ => None,
        }
    }

    fn update<F: FnOnce(i32) -> i32>(kind: &mut ValueKind, arena: &mut Arena, f: F) -> (r: bool) {
        match *kind {
            ValueKind::I32(v) => {
                let w = f(v);
                *kind = ValueKind::I32(w);
                true
            },
            _ => false,
        }
    }
}

impl VarMapValue for i64 {
    type Decoded<'a> = i64;

    const TYPE_ID: u32 = 0;

    open spec fn content(&self) -> Content {
        Content::I64(*self)
    }

    open spec fn accepts(c: Content) -> bool {
        c is I64
    }

    open spec fn updatable(c: Content) -> bool {
        c is I64
    }

    open spec fn decoded_content<'a>(d: i64) -> Content {
        Content::I64(d)
    }

    open spec fn fits(&self, arena: Arena) -> bool {
        true
    }

    open spec fn footprint(&self) -> nat {
        0
    }


    fn to_value(&self, builder: &mut ValueBuilder) -> (r: ValueKind) {
        ValueKind::I64(*self)
    }

    fn from_value<'a>(value: &Value<'a>) -> (r: Option<i64>) {
        match *value.kind() {
            ValueKind::I64(v) => Some(v),
            _ => None,
        }
    }

    fn update<F: FnOnce(i64) -> i64>(kind: &mut ValueKind, arena: &mut Arena, f: F) -> (r: bool) {
        match *kind {
            ValueKind::I64(v) => {
                let w = f(v);
                *kind = ValueKind::I64(w);
                true
            },
            _ => false,
        }
    }
}

/// A single-precision floating-point value, held by its IEEE-754 bit pattern.
#[derive(Clone, Copy, Debug, PartialEq, Eq)]
pub struct F32Bits(pub u32);

/// A double-precision floating-point value, held by its IEEE-754 bit pattern.
#[derive(Clone, Copy, Debug, PartialEq, Eq)]
pub struct F64Bits(pub u64);

impl VarMapValue for F32Bits {
    type Decoded<'a> = F32Bits;

    const TYPE_ID: u32 = 0;

    open spec fn content(&self) -> Content {
        Content::F32(self.0)
    }

    open spec fn accepts(c: Content) -> bool {
        c is F32
    }

    open spec fn updatable(c: Content) -> bool {
        c is F32
    }

    open spec fn decoded_content<'a>(d: F32Bits) -> Content {
        Content::F32(d.0)
    }

    open spec fn fits(&self, arena: Arena) -> bool {
        true
    }

    open spec fn footprint(&self) -> nat {
        0
    }


    fn to_value(&self, builder: &mut ValueBuilder) -> (r: ValueKind) {
        ValueKind::F32(self.0)
    }

    fn from_value<'a>(value: &Value<'a>) -> (r: Option<F32Bits>) {
        match *value.kind() {
            ValueKind::F32(v) => Some(F32Bits(v)),
            _ => None,
        }
    }

    fn update<F: FnOnce(F32Bits) -> F32Bits>(kind: &mut ValueKind, arena: &mut Arena, f: F) -> (r: bool) {
        match *kind {
            ValueKind::F32(v) => {
                let w = f(F32Bits(v));
                *kind = ValueKind::F32(w.0);
                true
            },
            _ => false,
        }
    }
}

impl VarMapValue for F64Bits {
    type Decoded<'a> = F64Bits;

    const TYPE_ID: u32 = 0;

    open spec fn content(&self) -> Content {
        Content::F64(self.0)
    }

    open spec fn accepts(c: Content) -> bool {
        c is F64
    }

    open spec fn updatable(c: Content) -> bool {
        c is F64
    }

    open spec fn decoded_content<'a>(d: F64Bits) -> Content {
        Content::F64(d.0)
    }

    open spec fn fits(&self, arena: Arena) -> bool {
        true
    }

    open spec fn footprint(&self) -> nat {
        0
    }


    fn to_value(&self, builder: &mut ValueBuilder) -> (r: ValueKind) {
        ValueKind::F64(self.0)
    }

    fn from_value<'a>(value: &Value<'a>) -> (r: Option<F64Bits>) {
        match *value.kind() {
            ValueKind::F64(v) => Some(F64Bits(v)),
            _ => None,
        }
    }

    fn update<F: FnOnce(F64Bits) -> F64Bits>(kind: &mut ValueKind, arena: &mut Arena, f: F) -> (r: bool) {
        match *kind {
            ValueKind::F64(v) => {
                let w = f(F64Bits(v));
                *kind = ValueKind::F64(w.0);
                true
            },
            _ => false,
        }
    }
}

} // verus!
