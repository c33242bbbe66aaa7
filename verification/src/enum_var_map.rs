use vstd::prelude::*;
use core::marker::PhantomData;
use crate::arena::Arena;
use crate::readonly::Readonly;
use crate::shared::Shared;
use crate::traits::{EnumVarMapKey, VarMapValue};
use crate::types::ip::{IpOctets, Ipv4Octets, Ipv6Octets};
use crate::types::numbers::{F32Bits, F64Bits};
use crate::value::{Content, Value, ValueBuilder, ValueKind, kind_valid, kind_content, kinds_disjoint,
    lemma_content_kept, lemma_content_untouched};

verus! {

/// Heterogeneous map keyed by an enum implementing [`EnumVarMapKey`].
///
/// Each variant has a fixed slot, reserved when the map is created, for access without
/// hashing. The map owns its own append-only arena.
#[verifier::reject_recursive_types(E)]
pub struct EnumVarMap<E: EnumVarMapKey> {
    arena: Arena,
    values: Vec<Option<ValueKind>>,
    phantom: PhantomData<E>,
}

impl<E: EnumVarMapKey> EnumVarMap<E> {
    /// One slot per variant; every stored value is well formed and payloads do not overlap.
    pub closed spec fn wf(&self) -> bool {
        &&& self.arena.wf()
        &&& self.values@.len() == E::INDEX_COUNT
        &&& forall|k: int| #![trigger self.values@[k]]
            0 <= k < self.values@.len() && self.values@[k] is Some ==> kind_valid(self.values@[k]->0, self.arena)
        &&& forall|k: int, l: int|
            0 <= k < self.values@.len() && 0 <= l < self.values@.len() && k != l && self.values@[k] is Some
                && self.values@[l] is Some ==> kinds_disjoint(
                #[trigger] self.values@[k]->0,
                #[trigger] self.values@[l]->0,
            )
    }

    /// What the map holds: for each set slot, the meaning of its value.
    pub closed spec fn contents(&self) -> Map<int, Content> {
        Map::new(
            |i: int| 0 <= i < self.values@.len() && self.values@[i] is Some,
            |i: int| kind_content(self.values@[i]->0, self.arena),
        )
    }

    /// The arena the map's payloads live in.
    pub closed spec fn spec_arena(&self) -> Arena {
        self.arena
    }

    /// Creates a map with one empty slot per enum variant.
    pub fn new() -> (r: Self)
        ensures
            r.wf(),
            r.contents() == Map::<int, Content>::empty(),
            r.spec_arena().used() == 0,
            r.spec_arena().bytes().len() == 0,
    {
        let n = E::INDEX_COUNT as usize;
        let mut values: Vec<Option<ValueKind>> = Vec::with_capacity(n);
        let mut i: usize = 0;
        while i < n
            invariant
                0 <= i <= n,
                n == E::INDEX_COUNT,
                values@.len() == i,
                forall|k: int| 0 <= k < i ==> #[trigger] values@[k] is None,
            decreases n - i,
        {
            values.push(None);
            i = i + 1;
        }
        let r = EnumVarMap { arena: Arena::new(), values, phantom: PhantomData };
        assert(r.contents() =~= Map::<int, Content>::empty());
        r
    }

    /// Empties every slot and rewinds the arena; capacity is kept.
    pub fn clear(&mut self)
        requires
            old(self).wf(),
        ensures
            final(self).wf(),
            final(self).contents() == Map::<int, Content>::empty(),
            final(self).spec_arena().used() == 0,
            final(self).spec_arena().bytes() == old(self).spec_arena().bytes(),
    {
        let ghost kept = self.arena.bytes();
        self.arena.clear();
        let n = self.values.len();
        let mut i: usize = 0;
        while i < n
            invariant
                0 <= i <= n,
                n == E::INDEX_COUNT,
                self.values@.len() == n,
                self.arena.wf(),
                self.arena.used() == 0,
                self.arena.bytes() == kept,
                forall|k: int| 0 <= k < i ==> #[trigger] self.values@[k] is None,
            decreases n - i,
        {
            self.values.set(i, None);
            i = i + 1;
        }
        assert(self.contents() =~= Map::<int, Content>::empty());
    }

    /// Stores `value` in the slot for `key`.
    pub fn set<T: VarMapValue>(&mut self, key: E, value: T)
        requires
            old(self).wf(),
            value.fits(old(self).spec_arena()),
        ensures
            final(self).wf(),
            final(self).contents() == old(self).contents().insert(key.spec_index() as int, value.content()),
            T::accepts(value.content()),
            final(self).spec_arena().extends(&old(self).spec_arena()),
            final(self).spec_arena().used() <= old(self).spec_arena().used() + value.footprint(),
    {
        let ghost pre = *self;
        let index = key.to_index() as usize;
        let mut arena = Arena::new();
        std::mem::swap(&mut arena, &mut self.arena);
        let mut builder = ValueBuilder::new(arena);
        let kind = value.to_value(&mut builder);
        self.arena = builder.into_arena();
        self.values.set(index, Some(kind));
        proof {
            assert forall|k: int| 0 <= k < self.values@.len() && k != index && self.values@[k] is Some implies kind_valid(
                #[trigger] self.values@[k]->0,
                self.arena,
            ) && kind_content(self.values@[k]->0, self.arena) == kind_content(pre.values@[k]->0, pre.arena)
                && kinds_disjoint(self.values@[k]->0, kind) by {
                lemma_content_kept(pre.values@[k]->0, pre.arena, self.arena);
            }
            assert forall|k: int, l: int|
                0 <= k < self.values@.len() && 0 <= l < self.values@.len() && k != l && self.values@[k] is Some
                    && self.values@[l] is Some implies kinds_disjoint(
                #[trigger] self.values@[k]->0,
                #[trigger] self.values@[l]->0,
            ) by {
                if k != index && l != index {
                    assert(kinds_disjoint(pre.values@[k]->0, pre.values@[l]->0));
                }
            }
            assert(self.wf());
            assert(self.contents() =~= pre.contents().insert(key.spec_index() as int, value.content()));
        }
    }

    /// Updates the value in the slot for `key` in place when `T` supports it.
    ///
    /// Returns `false`, and changes nothing, if the slot is empty (then `f` is not called),
    /// the stored value is not a `T`, or `T` cannot be updated in place.
    pub fn update<T: VarMapValue>(&mut self, key: E, f: impl FnOnce(T) -> T) -> (r: bool)
        requires
            old(self).wf(),
            forall|v: T| f.requires((v,)),
        ensures
            final(self).wf(),
            final(self).spec_arena().used() == old(self).spec_arena().used(),
            r == (old(self).contents().contains_key(key.spec_index() as int) && T::updatable(
                old(self).contents()[key.spec_index() as int],
            )),
            r ==> exists|v: T, w: T|
                #![trigger f.ensures((v,), w)]
                v.content() == old(self).contents()[key.spec_index() as int] && f.ensures((v,), w)
                    && final(self).contents() == old(self).contents().insert(key.spec_index() as int, w.content()),
            !r ==> final(self).contents() == old(self).contents(),
    {
        let index = key.to_index() as usize;
        match self.values[index] {
            Some(kind) => self.update_slot(index, kind, f),
            None => false,
        }
    }

    /// Runs `T`'s in-place update on the value in slot `index`, which holds `kind`.
    fn update_slot<T: VarMapValue, F: FnOnce(T) -> T>(&mut self, index: usize, kind: ValueKind, f: F) -> (r: bool)
        requires
            old(self).wf(),
            index < old(self).values@.len(),
            old(self).values@[index as int] == Some(kind),
            forall|v: T| f.requires((v,)),
        ensures
            final(self).wf(),
            final(self).spec_arena().used() == old(self).spec_arena().used(),
            r == T::updatable(old(self).contents()[index as int]),
            r ==> exists|v: T, w: T|
                #![trigger f.ensures((v,), w)]
                v.content() == old(self).contents()[index as int] && f.ensures((v,), w) && final(self).contents()
                    == old(self).contents().insert(index as int, w.content()),
            !r ==> final(self).contents() == old(self).contents(),
    {
        let ghost pre = *self;
        let mut k = kind;
        let r = T::update(&mut k, &mut self.arena, f);
        self.values.set(index, Some(k));
        proof {
            assert forall|j: int| 0 <= j < self.values@.len() && j != index && self.values@[j] is Some implies kind_valid(
                #[trigger] self.values@[j]->0,
                self.arena,
            ) && kind_content(self.values@[j]->0, self.arena) == kind_content(pre.values@[j]->0, pre.arena) by {
                assert(kinds_disjoint(pre.values@[j]->0, kind));
                lemma_content_untouched(pre.values@[j]->0, kind, pre.arena, self.arena);
            }
            assert forall|a: int, b: int|
                0 <= a < self.values@.len() && 0 <= b < self.values@.len() && a != b && self.values@[a] is Some
                    && self.values@[b] is Some implies kinds_disjoint(
                #[trigger] self.values@[a]->0,
                #[trigger] self.values@[b]->0,
            ) by {
                assert(kinds_disjoint(pre.values@[a]->0, pre.values@[b]->0));
            }
            assert(self.wf());
            assert(self.contents() =~= pre.contents().insert(index as int, kind_content(k, self.arena)));
            if r {
                let (v, w) = choose|v: T, w: T|
                    #![trigger f.ensures((v,), w)]
                    v.content() == kind_content(kind, pre.arena) && f.ensures((v,), w) && kind_content(k, self.arena)
                        == w.content();
                assert(f.ensures((v,), w));
            } else {
                assert(self.contents() =~= pre.contents());
            }
        }
        r
    }

    /// Updates the value at `key` in place, or stores `T::default()` if the slot is empty.
    ///
    /// For an empty slot the default is stored, `f` is not called, and the result is `true`.
    /// Otherwise this is [`Self::update`].
    pub fn update_or_default<T: VarMapValue + Default>(&mut self, key: E, f: impl FnOnce(T) -> T) -> (r: bool)
        requires
            old(self).wf(),
            forall|v: T| f.requires((v,)),
            old(self).contents().contains_key(key.spec_index() as int) || forall|d: T|
                call_ensures(T::default, (), d) ==> d.fits(old(self).spec_arena()),
        ensures
            final(self).wf(),
            r,
            !old(self).contents().contains_key(key.spec_index() as int) ==> exists|d: T|
                call_ensures(T::default, (), d) && final(self).contents() == old(self).contents().insert(
                    key.spec_index() as int,
                    d.content(),
                ),
            old(self).contents().contains_key(key.spec_index() as int) && T::updatable(
                old(self).contents()[key.spec_index() as int],
            ) ==> exists|v: T, w: T|
                #![trigger f.ensures((v,), w)]
                v.content() == old(self).contents()[key.spec_index() as int] && f.ensures((v,), w)
                    && final(self).contents() == old(self).contents().insert(key.spec_index() as int, w.content()),
            old(self).contents().contains_key(key.spec_index() as int) && !T::updatable(
                old(self).contents()[key.spec_index() as int],
            ) ==> final(self).contents() == old(self).contents(),
    {
        let index = key.to_index() as usize;
        match self.values[index] {
            Some(kind) => {
                self.update_slot(index, kind, f);
                true
            },
            None => {
                let d = T::default();
                self.set(key, d);
                true
            },
        }
    }

    /// Returns the value for `key` decoded as `V`.
    ///
    /// Returns `None` if the slot is empty or the stored value does not hold a `V`.
    pub fn get<'a, V: VarMapValue>(&'a self, key: E) -> (r: Option<V::Decoded<'a>>)
        requires
            self.wf(),
        ensures
            r is Some <==> (self.contents().contains_key(key.spec_index() as int) && V::accepts(
                self.contents()[key.spec_index() as int],
            )),
            r matches Some(d) ==> V::decoded_content(d) == self.contents()[key.spec_index() as int],
    {
        let index = key.to_index() as usize;
        match &self.values[index] {
            Some(kind) => {
                let value = Value::view(kind, &self.arena);
                V::from_value(&value)
            },
            None => None,
        }
    }

    /// Returns `true` if the slot for `key` has been set.
    pub fn contains(&self, key: E) -> (r: bool)
        requires
            self.wf(),
        ensures
            r == self.contents().contains_key(key.spec_index() as int),
    {
        let index = key.to_index() as usize;
        self.values[index].is_some()
    }

    /// Total bytes held by the map (capacities are the allocator's choice, so only a lower
    /// bound is stated): its arena and its slot storage.
    pub fn allocated_size(&self) -> (r: usize)
        ensures
            r >= self.spec_arena().bytes().len(),
    {
        let slots = crate::capacity::saturating_mul(
            crate::capacity::vec_capacity(&self.values),
            core::mem::size_of::<Option<ValueKind>>(),
        );
        self.arena.allocated_size().saturating_add(slots)
    }

    /// Moves the map behind a handle that allows concurrent reads and exclusive writes.
    pub fn into_shared(self) -> Shared<Self> {
        Shared::new(self)
    }

    /// Returns the value as `bool`; see [`Self::get`].
    pub fn get_bool(&self, key: E) -> (r: Option<bool>)
        requires
            self.wf(),
        ensures
            r is Some <==> (self.contents().contains_key(key.spec_index() as int) && <bool as VarMapValue>::accepts(
                self.contents()[key.spec_index() as int],
            )),
            r matches Some(v) ==> <bool as VarMapValue>::decoded_content(v) == self.contents()[key.spec_index() as int],
    {
        self.get::<bool>(key)
    }

    /// Returns the value as `u8`; see [`Self::get`].
    pub fn get_u8(&self, key: E) -> (r: Option<u8>)
        requires
            self.wf(),
        ensures
            r is Some <==> (self.contents().contains_key(key.spec_index() as int) && <u8 as VarMapValue>::accepts(
                self.contents()[key.spec_index() as int],
            )),
            r matches Some(v) ==> <u8 as VarMapValue>::decoded_content(v) == self.contents()[key.spec_index() as int],
    {
        self.get::<u8>(key)
    }

    /// Returns the value as `u16`; see [`Self::get`].
    pub fn get_u16(&self, key: E) -> (r: Option<u16>)
        requires
            self.wf(),
        ensures
            r is Some <==> (self.contents().contains_key(key.spec_index() as int) && <u16 as VarMapValue>::accepts(
                self.contents()[key.spec_index() as int],
            )),
            r matches Some(v) ==> <u16 as VarMapValue>::decoded_content(v) == self.contents()[key.spec_index() as int],
    {
        self.get::<u16>(key)
    }

    /// Returns the value as `u32`; see [`Self::get`].
    pub fn get_u32(&self, key: E) -> (r: Option<u32>)
        requires
            self.wf(),
        ensures
            r is Some <==> (self.contents().contains_key(key.spec_index() as int) && <u32 as VarMapValue>::accepts(
                self.contents()[key.spec_index() as int],
            )),
            r matches Some(v) ==> <u32 as VarMapValue>::decoded_content(v) == self.contents()[key.spec_index() as int],
    {
        self.get::<u32>(key)
    }

    /// Returns the value as `u64`; see [`Self::get`].
    pub fn get_u64(&self, key: E) -> (r: Option<u64>)
        requires
            self.wf(),
        ensures
            r is Some <==> (self.contents().contains_key(key.spec_index() as int) && <u64 as VarMapValue>::accepts(
                self.contents()[key.spec_index() as int],
            )),
            r matches Some(v) ==> <u64 as VarMapValue>::decoded_content(v) == self.contents()[key.spec_index() as int],
    {
        self.get::<u64>(key)
    }

    /// Returns the value as `i8`; see [`Self::get`].
    pub fn get_i8(&self, key: E) -> (r: Option<i8>)
        requires
            self.wf(),
        ensures
            r is Some <==> (self.contents().contains_key(key.spec_index() as int) && <i8 as VarMapValue>::accepts(
                self.contents()[key.spec_index() as int],
            )),
            r matches Some(v) ==> <i8 as VarMapValue>::decoded_content(v) == self.contents()[key.spec_index() as int],
    {
        self.get::<i8>(key)
    }

    /// Returns the value as `i16`; see [`Self::get`].
    pub fn get_i16(&self, key: E) -> (r: Option<i16>)
        requires
            self.wf(),
        ensures
            r is Some <==> (self.contents().contains_key(key.spec_index() as int) && <i16 as VarMapValue>::accepts(
                self.contents()[key.spec_index() as int],
            )),
            r matches Some(v) ==> <i16 as VarMapValue>::decoded_content(v) == self.contents()[key.spec_index() as int],
    {
        self.get::<i16>(key)
    }

    /// Returns the value as `i32`; see [`Self::get`].
    pub fn get_i32(&self, key: E) -> (r: Option<i32>)
        requires
            self.wf(),
        ensures
            r is Some <==> (self.contents().contains_key(key.spec_index() as int) && <i32 as VarMapValue>::accepts(
                self.contents()[key.spec_index() as int],
            )),
            r matches Some(v) ==> <i32 as VarMapValue>::decoded_content(v) == self.contents()[key.spec_index() as int],
    {
        self.get::<i32>(key)
    }

    /// Returns the value as `i64`; see [`Self::get`].
    pub fn get_i64(&self, key: E) -> (r: Option<i64>)
        requires
            self.wf(),
        ensures
            r is Some <==> (self.contents().contains_key(key.spec_index() as int) && <i64 as VarMapValue>::accepts(
                self.contents()[key.spec_index() as int],
            )),
            r matches Some(v) ==> <i64 as VarMapValue>::decoded_content(v) == self.contents()[key.spec_index() as int],
    {
        self.get::<i64>(key)
    }

    /// Returns the value as `F32Bits`; see [`Self::get`].
    pub fn get_f32(&self, key: E) -> (r: Option<F32Bits>)
        requires
            self.wf(),
        ensures
            r is Some <==> (self.contents().contains_key(key.spec_index() as int) && <F32Bits as VarMapValue>::accepts(
                self.contents()[key.spec_index() as int],
            )),
            r matches Some(v) ==> <F32Bits as VarMapValue>::decoded_content(v) == self.contents()[key.spec_index() as int],
    {
        self.get::<F32Bits>(key)
    }

    /// Returns the value as `F64Bits`; see [`Self::get`].
    pub fn get_f64(&self, key: E) -> (r: Option<F64Bits>)
        requires
            self.wf(),
        ensures
            r is Some <==> (self.contents().contains_key(key.spec_index() as int) && <F64Bits as VarMapValue>::accepts(
                self.contents()[key.spec_index() as int],
            )),
            r matches Some(v) ==> <F64Bits as VarMapValue>::decoded_content(v) == self.contents()[key.spec_index() as int],
    {
        self.get::<F64Bits>(key)
    }

    /// Returns the value as `&str`; see [`Self::get`].
    pub fn get_str<'a>(&'a self, key: E) -> (r: Option<&'a str>)
        requires
            self.wf(),
        ensures
            r is Some <==> (self.contents().contains_key(key.spec_index() as int) && <&'a str as VarMapValue>::accepts(
                self.contents()[key.spec_index() as int],
            )),
            r matches Some(v) ==> <&'a str as VarMapValue>::decoded_content(v) == self.contents()[key.spec_index() as int],
    {
        self.get::<&'a str>(key)
    }

    /// Returns the value as `&[u8]`; see [`Self::get`].
    pub fn get_bytes<'a>(&'a self, key: E) -> (r: Option<&'a [u8]>)
        requires
            self.wf(),
        ensures
            r is Some <==> (self.contents().contains_key(key.spec_index() as int) && <&'a [u8] as VarMapValue>::accepts(
                self.contents()[key.spec_index() as int],
            )),
            r matches Some(v) ==> <&'a [u8] as VarMapValue>::decoded_content(v) == self.contents()[key.spec_index() as int],
    {
        self.get::<&'a [u8]>(key)
    }

    /// Returns the value as `char`; see [`Self::get`].
    pub fn get_char(&self, key: E) -> (r: Option<char>)
        requires
            self.wf(),
        ensures
            r is Some <==> (self.contents().contains_key(key.spec_index() as int) && <char as VarMapValue>::accepts(
                self.contents()[key.spec_index() as int],
            )),
            r matches Some(v) ==> <char as VarMapValue>::decoded_content(v) == self.contents()[key.spec_index() as int],
    {
        self.get::<char>(key)
    }

    /// Returns the value as `IpOctets`; see [`Self::get`].
    pub fn get_ip(&self, key: E) -> (r: Option<IpOctets>)
        requires
            self.wf(),
        ensures
            r is Some <==> (self.contents().contains_key(key.spec_index() as int) && <IpOctets as VarMapValue>::accepts(
                self.contents()[key.spec_index() as int],
            )),
            r matches Some(v) ==> <IpOctets as VarMapValue>::decoded_content(v) == self.contents()[key.spec_index() as int],
    {
        self.get::<IpOctets>(key)
    }

    /// Returns the value as `Ipv4Octets`; see [`Self::get`].
    pub fn get_ipv4(&self, key: E) -> (r: Option<Ipv4Octets>)
        requires
            self.wf(),
        ensures
            r is Some <==> (self.contents().contains_key(key.spec_index() as int) && <Ipv4Octets as VarMapValue>::accepts(
                self.contents()[key.spec_index() as int],
            )),
            r matches Some(v) ==> <Ipv4Octets as VarMapValue>::decoded_content(v) == self.contents()[key.spec_index() as int],
    {
        self.get::<Ipv4Octets>(key)
    }

    /// Returns the value as `Ipv6Octets`; see [`Self::get`].
    pub fn get_ipv6(&self, key: E) -> (r: Option<Ipv6Octets>)
        requires
            self.wf(),
        ensures
            r is Some <==> (self.contents().contains_key(key.spec_index() as int) && <Ipv6Octets as VarMapValue>::accepts(
                self.contents()[key.spec_index() as int],
            )),
            r matches Some(v) ==> <Ipv6Octets as VarMapValue>::decoded_content(v) == self.contents()[key.spec_index() as int],
    {
        self.get::<Ipv6Octets>(key)
    }
}

impl<E: EnumVarMapKey + Sync> EnumVarMap<E> {
    /// Returns a read-only view of this map that can be copied onto other threads.
    pub fn as_readonly(&self) -> (r: Readonly<'_, Self>)
        ensures
            *r.spec_inner() == *self,
    {
        Readonly::new(self)
    }
}

impl<E: EnumVarMapKey> Default for EnumVarMap<E> {
    fn default() -> (r: Self)
        ensures
            r.wf(),
            r.contents() == Map::<int, Content>::empty(),
    {
        EnumVarMap::new()
    }
}

} // verus!
