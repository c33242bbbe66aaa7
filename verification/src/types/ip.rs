use vstd::prelude::*;
use crate::arena::Arena;
use crate::mem_align::MemAlign;
use crate::traits::VarMapValue;
use crate::value::{Content, Value, ValueBuilder, ValueKind};

verus! {

/// An IPv4 address by its four octets, most significant first.
#[derive(Clone, Copy, Debug, PartialEq, Eq)]
pub struct Ipv4Octets(pub [u8; 4]);

/// An IPv6 address by its sixteen octets, most significant first.
#[derive(Clone, Copy, Debug, PartialEq, Eq)]
pub struct Ipv6Octets(pub [u8; 16]);

/// An IPv4 or IPv6 address by its octets.
#[derive(Clone, Copy, Debug, PartialEq, Eq)]
pub enum IpOctets {
    V4([u8; 4]),
    V6([u8; 16]),
}

/// Copies sixteen bytes into an array.
fn copy16(bytes: &[u8]) -> (r: [u8; 16])
    requires
        bytes@.len() == 16,
    ensures
        r@ == bytes@,
{
    let mut out = [0u8; 16];
    let mut i: usize = 0;
    while i < 16
        invariant
            0 <= i <= 16,
            bytes@.len() == 16,
            out@.len() == 16,
            forall|j: int| 0 <= j < i ==> out@[j] == bytes@[j],
        decreases 16 - i,
    {
        out[i] = bytes[i];
        i = i + 1;
    }
    assert(out@ =~= bytes@);
    out
}

/// Reads the sixteen octets of a stored IPv6 address.
fn read_ipv6<'a>(value: &Value<'a>) -> (r: Option<[u8; 16]>)
    requires
        value.wf(),
    ensures
        r is Some <==> value.spec_kind() is Ipv6,
        r matches Some(o) ==> value.content() == Content::Ipv6(o@),
{
    match *value.kind() {
        ValueKind::Ipv6(index) => {
            match value.arena().get(index) {
                Some(b) => Some(copy16(b)),
                None => None,
            }
        },
        _ => None,
    }
}

impl VarMapValue for Ipv4Octets {
    type Decoded<'a> = Ipv4Octets;

    const TYPE_ID: u32 = 0;

    open spec fn content(&self) -> Content {
        Content::Ipv4(self.0)
    }

    open spec fn accepts(c: Content) -> bool {
        c is Ipv4
    }

    open spec fn decoded_content<'a>(d: Ipv4Octets) -> Content {
        Content::Ipv4(d.0)
    }

    open spec fn fits(&self, arena: Arena) -> bool {
        true
    }

    open spec fn footprint(&self) -> nat {
        0
    }


    fn to_value(&self, builder: &mut ValueBuilder) -> (r: ValueKind) {
        ValueKind::IpV4(self.0)
    }

    fn from_value<'a>(value: &Value<'a>) -> (r: Option<Ipv4Octets>) {
        match *value.kind() {
            ValueKind::IpV4(o) => Some(Ipv4Octets(o)),
            _ => None,
        }
    }

    open spec fn updatable(c: Content) -> bool {
        false
    }

    fn update<F: FnOnce(Self) -> Self>(kind: &mut ValueKind, arena: &mut Arena, f: F) -> (r: bool) {
        false
    }
}

impl VarMapValue for Ipv6Octets {
    type Decoded<'a> = Ipv6Octets;

    const TYPE_ID: u32 = 0;

    open spec fn content(&self) -> Content {
        Content::Ipv6(self.0@)
    }

    open spec fn accepts(c: Content) -> bool {
        c matches Content::Ipv6(b) && b.len() == 16
    }

    open spec fn decoded_content<'a>(d: Ipv6Octets) -> Content {
        Content::Ipv6(d.0@)
    }

    open spec fn fits(&self, arena: Arena) -> bool {
        arena.has_room(16, MemAlign::Bits8)
    }

    open spec fn footprint(&self) -> nat {
        16
    }


    fn to_value(&self, builder: &mut ValueBuilder) -> (r: ValueKind) {
        ValueKind::Ipv6(builder.store(vstd::array::array_as_slice(&self.0), MemAlign::Bits8))
    }

    fn from_value<'a>(value: &Value<'a>) -> (r: Option<Ipv6Octets>) {
        match read_ipv6(value) {
            Some(o) => Some(Ipv6Octets(o)),
            None => None,
        }
    }

    open spec fn updatable(c: Content) -> bool {
        false
    }

    fn update<F: FnOnce(Self) -> Self>(kind: &mut ValueKind, arena: &mut Arena, f: F) -> (r: bool) {
        false
    }
}

impl VarMapValue for IpOctets {
    type Decoded<'a> = IpOctets;

    const TYPE_ID: u32 = 0;

    open spec fn content(&self) -> Content {
        match *self {
            IpOctets::V4(o) => Content::Ipv4(o),
            IpOctets::V6(o) => Content::Ipv6(o@),
        }
    }

    open spec fn accepts(c: Content) -> bool {
        c is Ipv4 || (c matches Content::Ipv6(b) && b.len() == 16)
    }

    open spec fn decoded_content<'a>(d: IpOctets) -> Content {
        match d {
            IpOctets::V4(o) => Content::Ipv4(o),
            IpOctets::V6(o) => Content::Ipv6(o@),
        }
    }

    open spec fn fits(&self, arena: Arena) -> bool {
        self is V4 || arena.has_room(16, MemAlign::Bits8)
    }

    open spec fn footprint(&self) -> nat {
        if self is V4 {
            0
        } else {
            16
        }
    }


    fn to_value(&self, builder: &mut ValueBuilder) -> (r: ValueKind) {
        match self {
            IpOctets::V4(o) => ValueKind::IpV4(*o),
            IpOctets::V6(o) => ValueKind::Ipv6(builder.store(vstd::array::array_as_slice(o), MemAlign::Bits8)),
        }
    }

    fn from_value<'a>(value: &Value<'a>) -> (r: Option<IpOctets>) {
        match *value.kind() {
            ValueKind::IpV4(o) => Some(IpOctets::V4(o)),
            _ => match read_ipv6(value) {
                Some(o) => Some(IpOctets::V6(o)),
                None => None,
            },
        }
    }

    open spec fn updatable(c: Content) -> bool {
        false
    }

    fn update<F: FnOnce(Self) -> Self>(kind: &mut ValueKind, arena: &mut Arena, f: F) -> (r: bool) {
        false
    }
}

} // verus!
