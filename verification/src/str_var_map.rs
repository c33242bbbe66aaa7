use vstd::prelude::*;
use vstd::string::StringSliceAdditionalSpecFns;
use crate::arena::Arena;
use crate::hashing::{fnv1a, spec_fnv1a};
use crate::readonly::Readonly;
use crate::shared::Shared;
use crate::traits::VarMapValue;
use crate::types::ip::{IpOctets, Ipv4Octets, Ipv6Octets};
use crate::types::numbers::{F32Bits, F64Bits};
use crate::value::Content;
use crate::var_map::{HASH_MASK, MAX_KEYS, Key, VarMap, key_slot};

verus! {

/// The entry a name maps to: the upper 48 bits of its FNV-1a hash.
pub open spec fn name_slot(name: Seq<u8>) -> u64 {
    spec_fnv1a(name) & HASH_MASK
}

/// The [`Key`] of a name: the FNV-1a hash of its UTF-8 bytes.
pub fn var(name: &str) -> (k: Key)
    ensures
        k.hash == spec_fnv1a(name.spec_bytes()),
        key_slot(k) == name_slot(name.spec_bytes()),
{
    Key::new(fnv1a(name))
}

/// Heterogeneous map keyed by `&str`.
///
/// Each operation hashes the name with FNV-1a and delegates to an inner [`VarMap`]. Names
/// whose hashes agree on the upper 48 bits share an entry.
pub struct StrVarMap {
    map: VarMap,
}

impl StrVarMap {
    /// The inner map is consistent.
    pub closed spec fn wf(&self) -> bool {
        self.map.wf()
    }

    /// What the map holds: for each name slot, the meaning of its value.
    pub closed spec fn contents(&self) -> Map<u64, Content> {
        self.map.contents()
    }

    /// Number of distinct name slots in use.
    pub closed spec fn key_count(&self) -> nat {
        self.map.key_count()
    }

    /// The arena the map's payloads live in.
    pub closed spec fn spec_arena(&self) -> Arena {
        self.map.spec_arena()
    }

    /// Creates an empty map.
    pub fn new() -> (r: Self)
        ensures
            r.wf(),
            r.contents() == Map::<u64, Content>::empty(),
            r.key_count() == 0,
            r.spec_arena().used() == 0,
            r.spec_arena().bytes().len() == 0,
    {
        StrVarMap { map: VarMap::new() }
    }

    /// Number of distinct name slots in use.
    pub fn len(&self) -> (r: usize)
        requires
            self.wf(),
        ensures
            r == self.key_count(),
    {
        self.map.len()
    }

    /// Removes all names and rewinds the arena. See [`VarMap::clear`].
    pub fn clear(&mut self)
        ensures
            final(self).wf(),
            final(self).contents() == Map::<u64, Content>::empty(),
            final(self).key_count() == 0,
            final(self).spec_arena().used() == 0,
            final(self).spec_arena().bytes() == old(self).spec_arena().bytes(),
    {
        self.map.clear();
    }

    /// Inserts or overwrites `var_name` with `value`. See [`VarMap::set`].
    pub fn set<T: VarMapValue>(&mut self, var_name: &str, value: T)
        requires
            old(self).wf(),
            value.fits(old(self).spec_arena()),
            old(self).contents().contains_key(name_slot(var_name.spec_bytes())) || old(self).key_count()
                < MAX_KEYS,
        ensures
            final(self).wf(),
            final(self).contents() == old(self).contents().insert(
                name_slot(var_name.spec_bytes()),
                value.content(),
            ),
            T::accepts(value.content()),
            final(self).spec_arena().extends(&old(self).spec_arena()),
            final(self).spec_arena().used() <= old(self).spec_arena().used() + value.footprint(),
            final(self).key_count() == old(self).key_count() + (if old(self).contents().contains_key(
                name_slot(var_name.spec_bytes()),
            ) {
                0int
            } else {
                1int
            }),
    {
        self.map.set(var(var_name), value);
    }

    /// Updates the value at `var_name` in place when `T` supports it. See [`VarMap::update`].
    pub fn update<T: VarMapValue>(&mut self, var_name: &str, f: impl FnOnce(T) -> T) -> (r: bool)
        requires
            old(self).wf(),
            forall|v: T| f.requires((v,)),
        ensures
            final(self).wf(),
            final(self).key_count() == old(self).key_count(),
            final(self).spec_arena().used() == old(self).spec_arena().used(),
            r == (old(self).contents().contains_key(name_slot(var_name.spec_bytes())) && T::updatable(
                old(self).contents()[name_slot(var_name.spec_bytes())],
            )),
            r ==> exists|v: T, w: T|
                #![trigger f.ensures((v,), w)]
                v.content() == old(self).contents()[name_slot(var_name.spec_bytes())] && f.ensures((v,), w)
                    && final(self).contents() == old(self).contents().insert(
                    name_slot(var_name.spec_bytes()),
                    w.content(),
                ),
            !r ==> final(self).contents() == old(self).contents(),
    {
        self.map.update(var(var_name), f)
    }

    /// Updates the value at `var_name` in place, or inserts `T::default()` if it is missing.
    /// See [`VarMap::update_or_default`].
    pub fn update_or_default<T: VarMapValue + Default>(&mut self, var_name: &str, f: impl FnOnce(T) -> T) -> (r: bool)
        requires
            old(self).wf(),
            forall|v: T| f.requires((v,)),
            old(self).contents().contains_key(name_slot(var_name.spec_bytes())) || (old(self).key_count()
                < MAX_KEYS && forall|d: T| call_ensures(T::default, (), d) ==> d.fits(old(self).spec_arena())),
        ensures
            final(self).wf(),
            !old(self).contents().contains_key(name_slot(var_name.spec_bytes())) ==> r
                && final(self).key_count() == old(self).key_count() + 1 && exists|d: T|
                call_ensures(T::default, (), d) && final(self).contents() == old(self).contents().insert(
                    name_slot(var_name.spec_bytes()),
                    d.content(),
                ),
            old(self).contents().contains_key(name_slot(var_name.spec_bytes())) ==> {
                &&& final(self).key_count() == old(self).key_count()
                &&& final(self).spec_arena().used() == old(self).spec_arena().used()
                &&& r == T::updatable(old(self).contents()[name_slot(var_name.spec_bytes())])
                &&& r ==> exists|v: T, w: T|
                    #![trigger f.ensures((v,), w)]
                    v.content() == old(self).contents()[name_slot(var_name.spec_bytes())] && f.ensures(
                        (v,),
                        w,
                    ) && final(self).contents() == old(self).contents().insert(
                        name_slot(var_name.spec_bytes()),
                        w.content(),
                    )
                &&& !r ==> final(self).contents() == old(self).contents()
            },
    {
        let key = var(var_name);
        assert(self.map.spec_arena() == self.spec_arena());
        self.map.update_or_default(key, f)
    }

    /// Returns the value for `var_name` decoded as `V`.
    ///
    /// Returns `None` if the name is missing or the stored value does not hold a `V`.
    pub fn get<'a, V: VarMapValue>(&'a self, var_name: &str) -> (r: Option<V::Decoded<'a>>)
        requires
            self.wf(),
        ensures
            r is Some <==> (self.contents().contains_key(name_slot(var_name.spec_bytes())) && V::accepts(
                self.contents()[name_slot(var_name.spec_bytes())],
            )),
            r matches Some(d) ==> V::decoded_content(d) == self.contents()[name_slot(var_name.spec_bytes())],
    {
        self.map.get::<V>(var(var_name))
    }

    /// Returns `true` if `var_name` has a value (any type).
    pub fn contains(&self, var_name: &str) -> (r: bool)
        requires
            self.wf(),
        ensures
            r == self.contents().contains_key(name_slot(var_name.spec_bytes())),
    {
        self.map.contains(var(var_name))
    }

    /// Total bytes held by the map (capacities are the allocator's choice, so only a lower
    /// bound is stated).
    pub fn allocated_size(&self) -> (r: usize)
        ensures
            r >= self.spec_arena().bytes().len(),
    {
        self.map.allocated_size()
    }

    /// Returns a read-only view of this map that can be copied onto other threads.
    pub fn as_readonly(&self) -> (r: Readonly<'_, Self>)
        ensures
            *r.spec_inner() == *self,
    {
        Readonly::new(self)
    }

    /// Moves the map behind a handle that allows concurrent reads and exclusive writes.
    pub fn into_shared(self) -> Shared<Self> {
        Shared::new(self)
    }

    /// Returns the value as `bool`; see [`Self::get`].
    pub fn get_bool(&self, var_name: &str) -> (r: Option<bool>)
        requires
            self.wf(),
        ensures
            r is Some <==> (self.contents().contains_key(name_slot(var_name.spec_bytes())) && <bool as VarMapValue>::accepts(
                self.contents()[name_slot(var_name.spec_bytes())],
            )),
            r matches Some(v) ==> <bool as VarMapValue>::decoded_content(v) == self.contents()[name_slot(var_name.spec_bytes())],
    {
        self.get::<bool>(var_name)
    }

    /// Returns the value as `u8`; see [`Self::get`].
    pub fn get_u8(&self, var_name: &str) -> (r: Option<u8>)
        requires
            self.wf(),
        ensures
            r is Some <==> (self.contents().contains_key(name_slot(var_name.spec_bytes())) && <u8 as VarMapValue>::accepts(
                self.contents()[name_slot(var_name.spec_bytes())],
            )),
            r matches Some(v) ==> <u8 as VarMapValue>::decoded_content(v) == self.contents()[name_slot(var_name.spec_bytes())],
    {
        self.get::<u8>(var_name)
    }

    /// Returns the value as `u16`; see [`Self::get`].
    pub fn get_u16(&self, var_name: &str) -> (r: Option<u16>)
        requires
            self.wf(),
        ensures
            r is Some <==> (self.contents().contains_key(name_slot(var_name.spec_bytes())) && <u16 as VarMapValue>::accepts(
                self.contents()[name_slot(var_name.spec_bytes())],
            )),
            r matches Some(v) ==> <u16 as VarMapValue>::decoded_content(v) == self.contents()[name_slot(var_name.spec_bytes())],
    {
        self.get::<u16>(var_name)
    }

    /// Returns the value as `u32`; see [`Self::get`].
    pub fn get_u32(&self, var_name: &str) -> (r: Option<u32>)
        requires
            self.wf(),
        ensures
            r is Some <==> (self.contents().contains_key(name_slot(var_name.spec_bytes())) && <u32 as VarMapValue>::accepts(
                self.contents()[name_slot(var_name.spec_bytes())],
            )),
            r matches Some(v) ==> <u32 as VarMapValue>::decoded_content(v) == self.contents()[name_slot(var_name.spec_bytes())],
    {
        self.get::<u32>(var_name)
    }

    /// Returns the value as `u64`; see [`Self::get`].
    pub fn get_u64(&self, var_name: &str) -> (r: Option<u64>)
        requires
            self.wf(),
        ensures
            r is Some <==> (self.contents().contains_key(name_slot(var_name.spec_bytes())) && <u64 as VarMapValue>::accepts(
                self.contents()[name_slot(var_name.spec_bytes())],
            )),
            r matches Some(v) ==> <u64 as VarMapValue>::decoded_content(v) == self.contents()[name_slot(var_name.spec_bytes())],
    {
        self.get::<u64>(var_name)
    }

    /// Returns the value as `i8`; see [`Self::get`].
    pub fn get_i8(&self, var_name: &str) -> (r: Option<i8>)
        requires
            self.wf(),
        ensures
            r is Some <==> (self.contents().contains_key(name_slot(var_name.spec_bytes())) && <i8 as VarMapValue>::accepts(
                self.contents()[name_slot(var_name.spec_bytes())],
            )),
            r matches Some(v) ==> <i8 as VarMapValue>::decoded_content(v) == self.contents()[name_slot(var_name.spec_bytes())],
    {
        self.get::<i8>(var_name)
    }

    /// Returns the value as `i16`; see [`Self::get`].
    pub fn get_i16(&self, var_name: &str) -> (r: Option<i16>)
        requires
            self.wf(),
        ensures
            r is Some <==> (self.contents().contains_key(name_slot(var_name.spec_bytes())) && <i16 as VarMapValue>::accepts(
                self.contents()[name_slot(var_name.spec_bytes())],
            )),
            r matches Some(v) ==> <i16 as VarMapValue>::decoded_content(v) == self.contents()[name_slot(var_name.spec_bytes())],
    {
        self.get::<i16>(var_name)
    }

    /// Returns the value as `i32`; see [`Self::get`].
    pub fn get_i32(&self, var_name: &str) -> (r: Option<i32>)
        requires
            self.wf(),
        ensures
            r is Some <==> (self.contents().contains_key(name_slot(var_name.spec_bytes())) && <i32 as VarMapValue>::accepts(
                self.contents()[name_slot(var_name.spec_bytes())],
            )),
            r matches Some(v) ==> <i32 as VarMapValue>::decoded_content(v) == self.contents()[name_slot(var_name.spec_bytes())],
    {
        self.get::<i32>(var_name)
    }

    /// Returns the value as `i64`; see [`Self::get`].
    pub fn get_i64(&self, var_name: &str) -> (r: Option<i64>)
        requires
            self.wf(),
        ensures
            r is Some <==> (self.contents().contains_key(name_slot(var_name.spec_bytes())) && <i64 as VarMapValue>::accepts(
                self.contents()[name_slot(var_name.spec_bytes())],
            )),
            r matches Some(v) ==> <i64 as VarMapValue>::decoded_content(v) == self.contents()[name_slot(var_name.spec_bytes())],
    {
        self.get::<i64>(var_name)
    }

    /// Returns the value as `F32Bits`; see [`Self::get`].
    pub fn get_f32(&self, var_name: &str) -> (r: Option<F32Bits>)
        requires
            self.wf(),
        ensures
            r is Some <==> (self.contents().contains_key(name_slot(var_name.spec_bytes())) && <F32Bits as VarMapValue>::accepts(
                self.contents()[name_slot(var_name.spec_bytes())],
            )),
            r matches Some(v) ==> <F32Bits as VarMapValue>::decoded_content(v) == self.contents()[name_slot(var_name.spec_bytes())],
    {
        self.get::<F32Bits>(var_name)
    }

    /// Returns the value as `F64Bits`; see [`Self::get`].
    pub fn get_f64(&self, var_name: &str) -> (r: Option<F64Bits>)
        requires
            self.wf(),
        ensures
            r is Some <==> (self.contents().contains_key(name_slot(var_name.spec_bytes())) && <F64Bits as VarMapValue>::accepts(
                self.contents()[name_slot(var_name.spec_bytes())],
            )),
            r matches Some(v) ==> <F64Bits as VarMapValue>::decoded_content(v) == self.contents()[name_slot(var_name.spec_bytes())],
    {
        self.get::<F64Bits>(var_name)
    }

    /// Returns the value as `&str`; see [`Self::get`].
    pub fn get_str<'a>(&'a self, var_name: &str) -> (r: Option<&'a str>)
        requires
            self.wf(),
        ensures
            r is Some <==> (self.contents().contains_key(name_slot(var_name.spec_bytes())) && <&'a str as VarMapValue>::accepts(
                self.contents()[name_slot(var_name.spec_bytes())],
            )),
            r matches Some(v) ==> <&'a str as VarMapValue>::decoded_content(v) == self.contents()[name_slot(var_name.spec_bytes())],
    {
        self.get::<&'a str>(var_name)
    }

    /// Returns the value as `&[u8]`; see [`Self::get`].
    pub fn get_bytes<'a>(&'a self, var_name: &str) -> (r: Option<&'a [u8]>)
        requires
            self.wf(),
        ensures
            r is Some <==> (self.contents().contains_key(name_slot(var_name.spec_bytes())) && <&'a [u8] as VarMapValue>::accepts(
                self.contents()[name_slot(var_name.spec_bytes())],
            )),
            r matches Some(v) ==> <&'a [u8] as VarMapValue>::decoded_content(v) == self.contents()[name_slot(var_name.spec_bytes())],
    {
        self.get::<&'a [u8]>(var_name)
    }

    /// Returns the value as `char`; see [`Self::get`].
    pub fn get_char(&self, var_name: &str) -> (r: Option<char>)
        requires
            self.wf(),
        ensures
            r is Some <==> (self.contents().contains_key(name_slot(var_name.spec_bytes())) && <char as VarMapValue>::accepts(
                self.contents()[name_slot(var_name.spec_bytes())],
            )),
            r matches Some(v) ==> <char as VarMapValue>::decoded_content(v) == self.contents()[name_slot(var_name.spec_bytes())],
    {
        self.get::<char>(var_name)
    }

    /// Returns the value as `IpOctets`; see [`Self::get`].
    pub fn get_ip(&self, var_name: &str) -> (r: Option<IpOctets>)
        requires
            self.wf(),
        ensures
            r is Some <==> (self.contents().contains_key(name_slot(var_name.spec_bytes())) && <IpOctets as VarMapValue>::accepts(
                self.contents()[name_slot(var_name.spec_bytes())],
            )),
            r matches Some(v) ==> <IpOctets as VarMapValue>::decoded_content(v) == self.contents()[name_slot(var_name.spec_bytes())],
    {
        self.get::<IpOctets>(var_name)
    }

    /// Returns the value as `Ipv4Octets`; see [`Self::get`].
    pub fn get_ipv4(&self, var_name: &str) -> (r: Option<Ipv4Octets>)
        requires
            self.wf(),
        ensures
            r is Some <==> (self.contents().contains_key(name_slot(var_name.spec_bytes())) && <Ipv4Octets as VarMapValue>::accepts(
                self.contents()[name_slot(var_name.spec_bytes())],
            )),
            r matches Some(v) ==> <Ipv4Octets as VarMapValue>::decoded_content(v) == self.contents()[name_slot(var_name.spec_bytes())],
    {
        self.get::<Ipv4Octets>(var_name)
    }

    /// Returns the value as `Ipv6Octets`; see [`Self::get`].
    pub fn get_ipv6(&self, var_name: &str) -> (r: Option<Ipv6Octets>)
        requires
            self.wf(),
        ensures
            r is Some <==> (self.contents().contains_key(name_slot(var_name.spec_bytes())) && <Ipv6Octets as VarMapValue>::accepts(
                self.contents()[name_slot(var_name.spec_bytes())],
            )),
            r matches Some(v) ==> <Ipv6Octets as VarMapValue>::decoded_content(v) == self.contents()[name_slot(var_name.spec_bytes())],
    {
        self.get::<Ipv6Octets>(var_name)
    }
}

impl Default for StrVarMap {
    fn default() -> (r: Self)
        ensures
            r.wf(),
            r.contents() == Map::<u64, Content>::empty(),
    {
        StrVarMap::new()
    }
}

} // verus!
