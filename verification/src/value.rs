use vstd::prelude::*;
use vstd::bytes::spec_u128_from_le_bytes;
use crate::arena::{Arena, ArenaIndex};
use crate::mem_align::MemAlign;

verus! {

/// The stored form of one value: sixteen bytes at most, with longer payloads kept in the
/// map's arena and referred to by an [`ArenaIndex`].
///
/// Floating-point values are kept by their IEEE-754 bit pattern.
#[derive(Clone, Copy, Debug, PartialEq, Eq)]
pub enum ValueKind {
    Bool(bool),
    I8(i8),
    U8(u8),
    I16(i16),
    U16(u16),
    I32(i32),
    U32(u32),
    I64(i64),
    U64(u64),
    F32(u32),
    F64(u64),
    I128(ArenaIndex),
    U128(ArenaIndex),
    Char(char),
    IpV4([u8; 4]),
    Ipv6(ArenaIndex),
    SmallString([u8; 14], u8),
    String(ArenaIndex),
    SmallBytes([u8; 14], u8),
    Bytes(ArenaIndex),
    Custom(ArenaIndex, u32),
    Hash128(ArenaIndex),
    Hash160(ArenaIndex),
    Hash256(ArenaIndex),
    Hash384(ArenaIndex),
    Hash512(ArenaIndex),
}

/// What a stored value means, independent of where its bytes live.
pub enum Content {
    Bool(bool),
    I8(i8),
    U8(u8),
    I16(i16),
    U16(u16),
    I32(i32),
    U32(u32),
    I64(i64),
    U64(u64),
    F32(u32),
    F64(u64),
    I128(i128),
    U128(u128),
    Char(char),
    Ipv4([u8; 4]),
    Ipv6(Seq<u8>),
    Str(Seq<u8>),
    Bytes(Seq<u8>),
    Custom(u32, Seq<u8>),
    Digest(Seq<u8>),
}

/// The arena payload a stored value refers to, if any.
pub open spec fn kind_index(kind: ValueKind) -> Option<ArenaIndex> {
    match kind {
        ValueKind::I128(ix) => Some(ix),
        ValueKind::U128(ix) => Some(ix),
        ValueKind::Ipv6(ix) => Some(ix),
        ValueKind::String(ix) => Some(ix),
        ValueKind::Bytes(ix) => Some(ix),
        ValueKind::Custom(ix, _) => Some(ix),
        ValueKind::Hash128(ix) => Some(ix),
        ValueKind::Hash160(ix) => Some(ix),
        ValueKind::Hash256(ix) => Some(ix),
        ValueKind::Hash384(ix) => Some(ix),
        ValueKind::Hash512(ix) => Some(ix),
        _ => None,
    }
}

/// A stored value is well formed in `arena`: its payload lies in the used part of the
/// arena and has the length its type needs.
pub open spec fn kind_valid(kind: ValueKind, arena: Arena) -> bool {
    match kind {
        ValueKind::I128(ix) => arena.holds(ix) && ix.size == 16,
        ValueKind::U128(ix) => arena.holds(ix) && ix.size == 16,
        ValueKind::Ipv6(ix) => arena.holds(ix) && ix.size == 16,
        ValueKind::String(ix) => arena.holds(ix),
        ValueKind::Bytes(ix) => arena.holds(ix),
        ValueKind::Custom(ix, _) => arena.holds(ix),
        ValueKind::Hash128(ix) => arena.holds(ix) && ix.size == 16,
        ValueKind::Hash160(ix) => arena.holds(ix) && ix.size == 20,
        ValueKind::Hash256(ix) => arena.holds(ix) && ix.size == 32,
        ValueKind::Hash384(ix) => arena.holds(ix) && ix.size == 48,
        ValueKind::Hash512(ix) => arena.holds(ix) && ix.size == 64,
        ValueKind::SmallString(_, len) => len <= 14,
        ValueKind::SmallBytes(_, len) => len <= 14,
        _ => true,
    }
}

/// The payload of `kind`, if it has one, starts at or after `offset`.
pub open spec fn kind_after(kind: ValueKind, offset: nat) -> bool {
    match kind_index(kind) {
        Some(ix) => ix.offset >= offset,
        None => true,
    }
}

/// Byte `i` of the arena belongs to the payload of `kind`.
pub open spec fn kind_covers(kind: ValueKind, i: int) -> bool {
    match kind_index(kind) {
        Some(ix) => ix.offset <= i < ix.end(),
        None => false,
    }
}

/// The payloads of two stored values do not overlap.
pub open spec fn kinds_disjoint(a: ValueKind, b: ValueKind) -> bool {
    match (kind_index(a), kind_index(b)) {
        (Some(x), Some(y)) => x.end() <= y.offset || y.end() <= x.offset,
        _ => true,
    }
}

/// What `kind` means when its payload is read from `arena`.
pub open spec fn kind_content(kind: ValueKind, arena: Arena) -> Content {
    match kind {
        ValueKind::Bool(b) => Content::Bool(b),
        ValueKind::I8(v) => Content::I8(v),
        ValueKind::U8(v) => Content::U8(v),
        ValueKind::I16(v) => Content::I16(v),
        ValueKind::U16(v) => Content::U16(v),
        ValueKind::I32(v) => Content::I32(v),
        ValueKind::U32(v) => Content::U32(v),
        ValueKind::I64(v) => Content::I64(v),
        ValueKind::U64(v) => Content::U64(v),
        ValueKind::F32(v) => Content::F32(v),
        ValueKind::F64(v) => Content::F64(v),
        ValueKind::I128(ix) => Content::I128(spec_u128_from_le_bytes(arena.region(ix)) as i128),
        ValueKind::U128(ix) => Content::U128(spec_u128_from_le_bytes(arena.region(ix))),
        ValueKind::Char(c) => Content::Char(c),
        ValueKind::IpV4(o) => Content::Ipv4(o),
        ValueKind::Ipv6(ix) => Content::Ipv6(arena.region(ix)),
        ValueKind::SmallString(b, len) => Content::Str(b@.subrange(0, len as int)),
        ValueKind::String(ix) => Content::Str(arena.region(ix)),
        ValueKind::SmallBytes(b, len) => Content::Bytes(b@.subrange(0, len as int)),
        ValueKind::Bytes(ix) => Content::Bytes(arena.region(ix)),
        ValueKind::Custom(ix, id) => Content::Custom(id, arena.region(ix)),
        ValueKind::Hash128(ix) => Content::Digest(arena.region(ix)),
        ValueKind::Hash160(ix) => Content::Digest(arena.region(ix)),
        ValueKind::Hash256(ix) => Content::Digest(arena.region(ix)),
        ValueKind::Hash384(ix) => Content::Digest(arena.region(ix)),
        ValueKind::Hash512(ix) => Content::Digest(arena.region(ix)),
    }
}

/// Two arenas agree on every byte of the payload of `kind`.
pub open spec fn same_payload(kind: ValueKind, a: Arena, b: Arena) -> bool {
    match kind_index(kind) {
        Some(ix) => a.region(ix) == b.region(ix),
        None => true,
    }
}

/// A stored value keeps its meaning when the arena only grows.
pub proof fn lemma_content_kept(kind: ValueKind, old: Arena, new: Arena)
    requires
        old.wf(),
        kind_valid(kind, old),
        new.extends(&old),
    ensures
        kind_valid(kind, new),
        same_payload(kind, old, new),
        kind_content(kind, new) == kind_content(kind, old),
{
    if let Some(ix) = kind_index(kind) {
        let u = old.used() as int;
        assert(new.region(ix) =~= new.bytes().subrange(0, u).subrange(ix.offset as int, ix.end()));
        assert(old.region(ix) =~= old.bytes().subrange(0, u).subrange(ix.offset as int, ix.end()));
    }
}

/// A stored value keeps its meaning when only bytes of another, disjoint payload changed.
pub proof fn lemma_content_untouched(other: ValueKind, changed: ValueKind, old: Arena, new: Arena)
    requires
        old.wf(),
        kind_valid(other, old),
        kinds_disjoint(other, changed),
        new.used() == old.used(),
        new.bytes().len() == old.bytes().len(),
        forall|i: int|
            0 <= i < old.bytes().len() && !kind_covers(changed, i) ==> #[trigger] new.bytes()[i]
                == old.bytes()[i],
    ensures
        kind_valid(other, new),
        kind_content(other, new) == kind_content(other, old),
{
    if let Some(ix) = kind_index(other) {
        assert forall|i: int| ix.offset <= i < ix.end() implies #[trigger] new.bytes()[i] == old.bytes()[i] by {
            assert(!kind_covers(changed, i));
        }
        assert(new.region(ix) =~= old.region(ix));
    }
}

/// An encoded value together with the arena its payload lives in.
pub struct Value<'a> {
    kind: &'a ValueKind,
    arena: &'a Arena,
}

impl<'a> Value<'a> {
    /// The stored form.
    pub closed spec fn spec_kind(&self) -> ValueKind {
        *self.kind
    }

    /// The arena the payload is read from.
    pub closed spec fn spec_arena(&self) -> Arena {
        *self.arena
    }

    /// What the value means.
    pub open spec fn content(&self) -> Content {
        kind_content(self.spec_kind(), self.spec_arena())
    }

    /// The value's payload can be read from its arena.
    pub open spec fn wf(&self) -> bool {
        self.spec_arena().wf() && kind_valid(self.spec_kind(), self.spec_arena())
    }

    /// Pairs a stored value with the arena it was written to.
    pub fn view(kind: &'a ValueKind, arena: &'a Arena) -> (r: Self)
        ensures
            r.spec_kind() == *kind,
            r.spec_arena() == *arena,
    {
        Value { kind, arena }
    }

    /// The stored form.
    pub fn kind(&self) -> (r: &'a ValueKind)
        ensures
            *r == self.spec_kind(),
    {
        self.kind
    }

    /// The arena the payload is read from.
    pub fn arena(&self) -> (r: &'a Arena)
        ensures
            *r == self.spec_arena(),
    {
        self.arena
    }

    /// Returns the raw arena bytes of a custom value of type `T`.
    ///
    /// Returns `None` if this value is not a custom payload, if its type id is not
    /// `T::TYPE_ID`, or if its length is not the size of `T`.
    pub fn as_bytes<T: crate::traits::VarMapValue>(&self) -> (r: Option<&'a [u8]>)
        requires
            self.wf(),
        ensures
            r is Some <==> (self.spec_kind() matches ValueKind::Custom(ix, id) && id == T::TYPE_ID
                && ix.size == vstd::layout::size_of::<T>()),
            r matches Some(b) ==> self.content() == Content::Custom(T::TYPE_ID, b@),
    {
        match self.kind {
            ValueKind::Custom(index, type_id) => {
                if *type_id == T::TYPE_ID {
                    let bytes = self.arena.get(*index);
                    match bytes {
                        Some(b) => {
                            if b.len() == core::mem::size_of::<T>() {
                                Some(b)
                            } else {
                                None
                            }
                        },
                        None => None,
                    }
                } else {
                    None
                }
            },
            _ => None,
        }
    }
}

/// Encodes values into an arena: an arena on loan to [`crate::traits::VarMapValue::to_value`].
pub struct ValueBuilder {
    arena: Arena,
}

impl ValueBuilder {
    /// The arena being written to.
    pub closed spec fn spec_arena(&self) -> Arena {
        self.arena
    }

    /// Lends `arena` to a builder.
    pub fn new(arena: Arena) -> (r: Self)
        ensures
            r.spec_arena() == arena,
    {
        ValueBuilder { arena }
    }

    /// Hands the arena back.
    pub fn into_arena(self) -> (r: Arena)
        ensures
            r == self.spec_arena(),
    {
        self.arena
    }

    /// The arena being written to.
    pub fn arena(&self) -> (r: &Arena)
        ensures
            *r == self.spec_arena(),
    {
        &self.arena
    }

    /// The arena being written to, lent out for writing; what is written through the
    /// returned reference is what the builder holds afterwards.
    pub fn arena_mut(&mut self) -> (r: &mut Arena)
        ensures
            *r == old(self).spec_arena(),
            final(self).spec_arena() == *final(r),
    {
        &mut self.arena
    }

    /// Appends `buf` to the arena with the given alignment and returns where it went.
    pub fn store(&mut self, buf: &[u8], align: MemAlign) -> (r: ArenaIndex)
        requires
            old(self).spec_arena().wf(),
            old(self).spec_arena().has_room(buf@.len(), align),
        ensures
            final(self).spec_arena().wf(),
            final(self).spec_arena().extends(&old(self).spec_arena()),
            final(self).spec_arena().holds(r),
            final(self).spec_arena().region(r) == buf@,
            r.offset >= old(self).spec_arena().used(),
            r.offset == crate::mem_align::align_up(old(self).spec_arena().used() as int, align.spec_bytes() as int),
            r.size == buf@.len(),
            final(self).spec_arena().used() == r.offset + r.size,
            final(self).spec_arena().used() <= old(self).spec_arena().used() + buf@.len() + align.spec_bytes() - 1,
    {
        proof {
            crate::mem_align::lemma_align_up_bounds(
                self.arena.used() as int,
                align.spec_bytes() as int,
            );
        }
        self.arena.store(buf, align)
    }

    /// Copies `buffer` into the arena with the given alignment and records it as a custom
    /// value tagged `type_id_hash`.
    pub fn build(&mut self, buffer: &[u8], mem_align: MemAlign, type_id_hash: u32) -> (r: ValueKind)
        requires
            old(self).spec_arena().wf(),
            old(self).spec_arena().has_room(buffer@.len(), mem_align),
        ensures
            final(self).spec_arena().wf(),
            final(self).spec_arena().extends(&old(self).spec_arena()),
            kind_valid(r, final(self).spec_arena()),
            kind_after(r, old(self).spec_arena().used()),
            kind_content(r, final(self).spec_arena()) == Content::Custom(type_id_hash, buffer@),
    {
        let index = self.store(buffer, mem_align);
        ValueKind::Custom(index, type_id_hash)
    }
}

} // verus!
