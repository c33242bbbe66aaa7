use vstd::prelude::*;
use crate::arena::Arena;
use crate::value::{Content, Value, ValueBuilder, ValueKind, kind_valid, kind_after, kind_content,
    kind_index, kind_covers};

verus! {

/// Types that can be stored in and read from a map.
///
/// Each implementation says what a value means ([`content`](Self::content)), which stored
/// meanings it can read back ([`accepts`](Self::accepts)) and what a read hands out
/// ([`decoded_content`](Self::decoded_content)). An implementation written outside Verus
/// cannot define these spec functions; the defaults then stand for fixed functions of their
/// arguments of which nothing more is known, so such an implementation must behave as a
/// function of them.
pub trait VarMapValue: Sized {
    /// Type returned by `get` and the typed getters.
    type Decoded<'a>;

    /// Type discriminator for custom values (`0` for built-in types).
    const TYPE_ID: u32;

    /// What storing `self` records.
    open spec fn content(&self) -> Content {
        (arbitrary::<spec_fn(Self) -> Content>())(*self)
    }

    /// Whether a read as this type succeeds on a stored value that means `c`.
    open spec fn accepts(c: Content) -> bool {
        (arbitrary::<spec_fn(Content) -> bool>())(c)
    }

    /// What a value handed out by a read means.
    open spec fn decoded_content<'a>(d: Self::Decoded<'a>) -> Content {
        (arbitrary::<spec_fn(Self::Decoded<'a>) -> Content>())(d)
    }

    /// Whether [`update`](Self::update) changes a stored value that means `c` in place.
    open spec fn updatable(c: Content) -> bool {
        (arbitrary::<spec_fn(Content) -> bool>())(c)
    }

    /// `self` can be encoded into `arena`: whatever it appends fits the arena's offsets.
    open spec fn fits(&self, arena: Arena) -> bool {
        (arbitrary::<spec_fn(Self, Arena) -> bool>())(*self, arena)
    }

    /// Most bytes that encoding `self` adds to the used part of an arena: nothing for a value
    /// kept inline.
    open spec fn footprint(&self) -> nat {
        (arbitrary::<spec_fn(Self) -> nat>())(*self)
    }

    /// Encodes `self`, appending any payload to the builder's arena.
    fn to_value(&self, builder: &mut ValueBuilder) -> (r: ValueKind)
        requires
            old(builder).spec_arena().wf(),
            self.fits(old(builder).spec_arena()),
        ensures
            final(builder).spec_arena().wf(),
            final(builder).spec_arena().extends(&old(builder).spec_arena()),
            final(builder).spec_arena().used() <= old(builder).spec_arena().used() + self.footprint(),
            kind_valid(r, final(builder).spec_arena()),
            kind_after(r, old(builder).spec_arena().used()),
            kind_content(r, final(builder).spec_arena()) == self.content(),
            Self::accepts(self.content()),
    ;

    /// Decodes a stored value, or `None` if it does not hold this type.
    fn from_value<'a>(value: &Value<'a>) -> (r: Option<Self::Decoded<'a>>)
        requires
            value.wf(),
        ensures
            r is Some <==> Self::accepts(value.content()),
            r matches Some(d) ==> Self::decoded_content(d) == value.content(),
    ;

    /// Replaces a stored value `v` of this type by `f(v)`, in place.
    ///
    /// Returns `false`, and changes nothing, if the slot does not hold this type or the type
    /// cannot be updated in place. The payload keeps its place in the arena; no other byte
    /// of the arena changes.
    fn update<F: FnOnce(Self) -> Self>(kind: &mut ValueKind, arena: &mut Arena, f: F) -> (r: bool)
        requires
            old(arena).wf(),
            kind_valid(*old(kind), *old(arena)),
            forall|v: Self| f.requires((v,)),
        ensures
            final(arena).wf(),
            final(arena).used() == old(arena).used(),
            final(arena).bytes().len() == old(arena).bytes().len(),
            forall|i: int|
                0 <= i < old(arena).bytes().len() && !kind_covers(*old(kind), i)
                    ==> #[trigger] final(arena).bytes()[i] == old(arena).bytes()[i],
            kind_index(*final(kind)) == kind_index(*old(kind)),
            kind_valid(*final(kind), *final(arena)),
            r == Self::updatable(kind_content(*old(kind), *old(arena))),
            r ==> exists|v: Self, w: Self|
                #![trigger f.ensures((v,), w)]
                v.content() == kind_content(*old(kind), *old(arena)) && f.ensures((v,), w)
                    && kind_content(*final(kind), *final(arena)) == w.content(),
            !r ==> *final(kind) == *old(kind) && *final(arena) == *old(arena),
    ;
}

/// Enum key type for [`crate::enum_var_map::EnumVarMap`]: each variant names one slot.
///
/// An implementation should give distinct variants distinct slot indexes, as the derive
/// does (`self as u16` on a unit enum without explicit discriminants); the map's contracts
/// are stated over indexes, so variants that share an index share a slot. An implementation
/// written outside Verus cannot define [`spec_index`](Self::spec_index); the default then
/// stands for a fixed function of the variant of which nothing more is known.
pub trait EnumVarMapKey: Copy {
    /// Number of enum variants (and slots in the map), at most 65 536.
    const INDEX_COUNT: u32;

    /// Index of the slot for this variant.
    open spec fn spec_index(self) -> u16 {
        (arbitrary::<spec_fn(Self) -> u16>())(self)
    }

    /// Index of the slot for this variant, below `INDEX_COUNT`.
    fn to_index(self) -> (r: u16)
        ensures
            r == self.spec_index(),
            r < Self::INDEX_COUNT,
    ;
}

} // verus!
