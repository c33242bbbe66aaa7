use vstd::prelude::*;
use crate::arena::Arena;
use crate::traits::VarMapValue;
use crate::readonly::Readonly;
use crate::shared::Shared;
use crate::types::numbers::{F32Bits, F64Bits};
use crate::types::ip::{IpOctets, Ipv4Octets, Ipv6Octets};
use crate::value::{Content, Value, ValueBuilder, ValueKind, kind_valid, kind_content, kinds_disjoint,
    lemma_content_kept, lemma_content_untouched};

verus! {

/// Bits of a key's hash that identify it in a [`VarMap`].
pub const HASH_MASK: u64 = 0xFFFF_FFFF_FFFF_0000;

/// Bits of a slot entry that hold the position of its value.
pub const INDEX_MASK: u64 = 0x0000_0000_0000_FFFF;

/// Most distinct keys a [`VarMap`] holds: positions are kept in sixteen bits.
pub const MAX_KEYS: usize = 65536;

/// Opaque key for [`VarMap`], holding a 64-bit hash.
///
/// Construct with [`Key::new`] or [`crate::var`] (FNV-1a of a name). Keys whose hashes
/// agree on the upper 48 bits name the same entry.
#[derive(Clone, Copy, Debug, PartialEq, Eq)]
pub struct Key {
    pub hash: u64,
}

impl Key {
    /// Creates a key from a precomputed 64-bit hash.
    pub fn new(hash: u64) -> (k: Self)
        ensures
            k.hash == hash,
    {
        Key { hash }
    }
}

/// The entry a key names: the upper 48 bits of its hash.
pub open spec fn key_slot(key: Key) -> u64 {
    key.hash & HASH_MASK
}

/// A sorted-table entry: a key's upper 48 hash bits and, below them, the position of its value.
#[derive(Clone, Copy, Debug, PartialEq, Eq)]
struct Hash {
    data: u64,
}

impl Hash {
    spec fn spec_hash(self) -> u64 {
        self.data & HASH_MASK
    }

    spec fn spec_index(self) -> u64 {
        self.data & INDEX_MASK
    }

    fn hash(&self) -> (r: u64)
        ensures
            r == self.spec_hash(),
    {
        self.data & HASH_MASK
    }

    fn index(&self) -> (r: usize)
        ensures
            r == self.spec_index(),
            r < MAX_KEYS,
    {
        let d = self.data;
        let i = d & INDEX_MASK;
        assert(d & 0xFFFFu64 <= 0xFFFF) by (bit_vector);
        i as usize
    }
}

proof fn lemma_slot_low_bits(h: u64)
    ensures
        (h & HASH_MASK) & INDEX_MASK == 0,
        (h & HASH_MASK) & HASH_MASK == h & HASH_MASK,
{
    assert((h & 0xFFFF_FFFF_FFFF_0000u64) & 0xFFFFu64 == 0) by (bit_vector);
    assert((h & 0xFFFF_FFFF_FFFF_0000u64) & 0xFFFF_FFFF_FFFF_0000u64 == h & 0xFFFF_FFFF_FFFF_0000u64)
        by (bit_vector);
}

proof fn lemma_pack(hv: u64, idx: u64)
    requires
        hv & INDEX_MASK == 0,
        idx < 65536,
    ensures
        (hv | idx) & HASH_MASK == hv,
        (hv | idx) & INDEX_MASK == idx,
{
    assert((hv | idx) & 0xFFFF_FFFF_FFFF_0000u64 == hv) by (bit_vector)
        requires
            hv & 0xFFFFu64 == 0,
            idx < 65536u64,
    ;
    assert((hv | idx) & 0xFFFFu64 == idx) by (bit_vector)
        requires
            hv & 0xFFFFu64 == 0,
            idx < 65536u64,
    ;
}

/// Heterogeneous map keyed by [`Key`].
///
/// Entries sit in a table sorted by key hash, looked up by binary search. Holds at most
/// 65 536 distinct keys. Payloads longer than sixteen bytes go to an append-only arena:
/// overwriting a key does not reclaim the previous payload.
pub struct VarMap {
    arena: Arena,
    hashes: Vec<Hash>,
    values: Vec<ValueKind>,
}

impl VarMap {
    spec fn hash_at(&self, i: int) -> u64 {
        self.hashes@[i].spec_hash()
    }

    spec fn index_at(&self, i: int) -> int {
        self.hashes@[i].spec_index() as int
    }

    spec fn sorted(&self) -> bool {
        forall|i: int, j: int|
            0 <= i < j < self.hashes@.len() ==> #[trigger] self.hash_at(i) < #[trigger] self.hash_at(j)
    }

    spec fn indices_ok(&self) -> bool {
        &&& forall|i: int| 0 <= i < self.hashes@.len() ==> #[trigger] self.index_at(i) < self.values@.len()
        &&& forall|i: int, j: int|
            0 <= i < self.hashes@.len() && 0 <= j < self.hashes@.len() && i != j
                ==> #[trigger] self.index_at(i) != #[trigger] self.index_at(j)
    }

    spec fn values_ok(&self) -> bool {
        &&& forall|k: int| 0 <= k < self.values@.len() ==> kind_valid(#[trigger] self.values@[k], self.arena)
        &&& forall|k: int, l: int|
            0 <= k < self.values@.len() && 0 <= l < self.values@.len() && k != l
                ==> kinds_disjoint(#[trigger] self.values@[k], #[trigger] self.values@[l])
    }

    /// The map's internal table is consistent.
    pub closed spec fn wf(&self) -> bool {
        &&& self.arena.wf()
        &&& self.hashes@.len() == self.values@.len()
        &&& self.values@.len() <= MAX_KEYS
        &&& self.sorted()
        &&& self.indices_ok()
        &&& self.values_ok()
    }

    spec fn has(&self, h: u64) -> bool {
        exists|i: int| 0 <= i < self.hashes@.len() && #[trigger] self.hash_at(i) == h
    }

    spec fn pos(&self, h: u64) -> int {
        choose|i: int| 0 <= i < self.hashes@.len() && #[trigger] self.hash_at(i) == h
    }

    /// What the map holds: for each key slot, the meaning of its value.
    pub closed spec fn contents(&self) -> Map<u64, Content> {
        Map::new(
            |h: u64| self.has(h),
            |h: u64| kind_content(self.values@[self.index_at(self.pos(h))], self.arena),
        )
    }

    /// Number of distinct keys.
    pub closed spec fn key_count(&self) -> nat {
        self.hashes@.len()
    }

    /// The arena the map's payloads live in.
    pub closed spec fn spec_arena(&self) -> Arena {
        self.arena
    }

    proof fn lemma_at(&self, i: int)
        requires
            self.wf(),
            0 <= i < self.hashes@.len(),
        ensures
            self.contents().contains_key(self.hash_at(i)),
            self.pos(self.hash_at(i)) == i,
            self.contents()[self.hash_at(i)] == kind_content(self.values@[self.index_at(i)], self.arena),
    {
        let h = self.hash_at(i);
        assert(self.has(h));
        let j = self.pos(h);
        if j < i {
            assert(self.hash_at(j) < self.hash_at(i));
        } else if j > i {
            assert(self.hash_at(i) < self.hash_at(j));
        }
    }

    proof fn lemma_absent(&self, h: u64)
        requires
            forall|i: int| 0 <= i < self.hashes@.len() ==> #[trigger] self.hash_at(i) != h,
        ensures
            !self.contents().contains_key(h),
    {
    }

    /// The table properties carry over to a map with the same table.
    proof fn lemma_same_table(&self, pre: VarMap)
        requires
            pre.sorted(),
            pre.indices_ok(),
            self.hashes@ == pre.hashes@,
            self.values@.len() == pre.values@.len(),
        ensures
            self.sorted(),
            self.indices_ok(),
    {
        assert forall|i: int, j: int|
            0 <= i < j < self.hashes@.len() implies #[trigger] self.hash_at(i) < #[trigger] self.hash_at(j) by {
            assert(pre.hash_at(i) < pre.hash_at(j));
        }
        assert forall|i: int| 0 <= i < self.hashes@.len() implies #[trigger] self.index_at(i) < self.values@.len() by {
            assert(pre.index_at(i) < pre.values@.len());
        }
        assert forall|i: int, j: int|
            0 <= i < self.hashes@.len() && 0 <= j < self.hashes@.len() && i != j
                implies #[trigger] self.index_at(i) != #[trigger] self.index_at(j) by {
            assert(pre.index_at(i) != pre.index_at(j));
        }
    }

    /// Binary search: the first table position whose hash is not below `hv`.
    fn find(&self, hv: u64) -> (p: usize)
        requires
            self.wf(),
        ensures
            p <= self.hashes@.len(),
            forall|i: int| 0 <= i < p ==> #[trigger] self.hash_at(i) < hv,
            forall|i: int| p <= i < self.hashes@.len() ==> #[trigger] self.hash_at(i) >= hv,
    {
        let mut lo: usize = 0;
        let mut hi: usize = self.hashes.len();
        while lo < hi
            invariant
                self.wf(),
                0 <= lo <= hi <= self.hashes@.len(),
                forall|i: int| 0 <= i < lo ==> #[trigger] self.hash_at(i) < hv,
                forall|i: int| hi <= i < self.hashes@.len() ==> #[trigger] self.hash_at(i) >= hv,
            decreases hi - lo,
        {
            let mid = lo + (hi - lo) / 2;
            if self.hashes[mid].hash() < hv {
                assert forall|i: int| 0 <= i <= mid implies #[trigger] self.hash_at(i) < hv by {
                    if i < mid {
                        assert(self.hash_at(i) < self.hash_at(mid as int));
                    }
                }
                lo = mid + 1;
            } else {
                assert forall|i: int| mid <= i < self.hashes@.len() implies #[trigger] self.hash_at(i) >= hv by {
                    if i > mid {
                        assert(self.hash_at(mid as int) < self.hash_at(i));
                    }
                }
                hi = mid;
            }
        }
        lo
    }

    /// Table position of `hv`, if the map holds it.
    fn lookup(&self, hv: u64) -> (r: Option<usize>)
        requires
            self.wf(),
        ensures
            r is Some <==> self.contents().contains_key(hv),
            r matches Some(p) ==> p < self.hashes@.len() && self.hash_at(p as int) == hv,
    {
        let p = self.find(hv);
        if p < self.hashes.len() && self.hashes[p].hash() == hv {
            Some(p)
        } else {
            proof {
                assert forall|i: int| 0 <= i < self.hashes@.len() implies #[trigger] self.hash_at(i) != hv by {
                    if i > p as int {
                        assert(self.hash_at(p as int) < self.hash_at(i));
                    }
                }
                self.lemma_absent(hv);
            }
            None
        }
    }

    /// Creates an empty map.
    pub fn new() -> (r: Self)
        ensures
            r.wf(),
            r.contents() == Map::<u64, Content>::empty(),
            r.key_count() == 0,
            r.spec_arena().used() == 0,
            r.spec_arena().bytes().len() == 0,
    {
        let r = VarMap { arena: Arena::new(), hashes: Vec::new(), values: Vec::new() };
        assert(r.contents() =~= Map::<u64, Content>::empty());
        r
    }

    /// Removes all keys and rewinds the arena; retained capacity is reused by later inserts.
    pub fn clear(&mut self)
        ensures
            final(self).wf(),
            final(self).contents() == Map::<u64, Content>::empty(),
            final(self).key_count() == 0,
            final(self).spec_arena().used() == 0,
            final(self).spec_arena().bytes() == old(self).spec_arena().bytes(),
    {
        self.arena.clear();
        self.hashes.clear();
        self.values.clear();
        assert(self.contents() =~= Map::<u64, Content>::empty());
    }

    /// Number of distinct keys.
    pub fn len(&self) -> (r: usize)
        requires
            self.wf(),
        ensures
            r == self.key_count(),
    {
        self.hashes.len()
    }

    /// Returns `true` if `key` has a value (any type).
    pub fn contains(&self, key: Key) -> (r: bool)
        requires
            self.wf(),
        ensures
            r == self.contents().contains_key(key_slot(key)),
    {
        let hvalue = key.hash & HASH_MASK;
        let p = self.find(hvalue);
        proof {
            if p < self.hashes@.len() && self.hash_at(p as int) == hvalue {
                self.lemma_at(p as int);
            } else {
                assert forall|i: int| 0 <= i < self.hashes@.len() implies #[trigger] self.hash_at(i) != hvalue by {
                    if i > p as int {
                        assert(self.hash_at(p as int) < self.hash_at(i));
                    }
                }
            }
        }
        p < self.hashes.len() && self.hashes[p].hash() == hvalue
    }

    /// Records `kind` under the slot `hv`, replacing the value there or adding a new entry.
    fn put(&mut self, hv: u64, kind: ValueKind)
        requires
            old(self).wf(),
            hv & INDEX_MASK == 0,
            kind_valid(kind, old(self).arena),
            forall|k: int| 0 <= k < old(self).values@.len() ==> kinds_disjoint(#[trigger] old(self).values@[k], kind),
            old(self).contents().contains_key(hv) || old(self).key_count() < MAX_KEYS,
        ensures
            final(self).wf(),
            final(self).arena == old(self).arena,
            final(self).contents() == old(self).contents().insert(hv, kind_content(kind, old(self).arena)),
            final(self).key_count() == old(self).key_count() + (if old(self).contents().contains_key(hv) {
                0int
            } else {
                1int
            }),
    {
        let ghost pre = *self;
        let p = self.find(hv);
        if p < self.hashes.len() && self.hashes[p].hash() == hv {
            let value_index = self.hashes[p].index();
            proof {
                pre.lemma_at(p as int);
            }
            self.values.set(value_index, kind);
            proof {
                assert(self.values_ok()) by {
                    assert forall|k: int, l: int|
                        0 <= k < self.values@.len() && 0 <= l < self.values@.len() && k != l
                            implies kinds_disjoint(#[trigger] self.values@[k], #[trigger] self.values@[l]) by {
                        if k != value_index && l != value_index {
                            assert(kinds_disjoint(pre.values@[k], pre.values@[l]));
                        } else if k == value_index {
                            assert(kinds_disjoint(pre.values@[l], kind));
                        } else {
                            assert(kinds_disjoint(pre.values@[k], kind));
                        }
                    }
                    assert forall|k: int| 0 <= k < self.values@.len() implies kind_valid(#[trigger] self.values@[k], self.arena) by {
                        if k != value_index {
                            assert(kind_valid(pre.values@[k], pre.arena));
                        }
                    }
                }
                self.lemma_same_table(pre);
                assert(self.wf());
                let target = pre.contents().insert(hv, kind_content(kind, pre.arena));
                assert forall|h: u64| #[trigger] self.contents().contains_key(h) == target.contains_key(h) by {
                    if self.has(h) {
                        let i = choose|i: int| 0 <= i < self.hashes@.len() && #[trigger] self.hash_at(i) == h;
                        pre.lemma_at(i);
                    } else if pre.has(h) {
                        let i = choose|i: int| 0 <= i < pre.hashes@.len() && #[trigger] pre.hash_at(i) == h;
                        assert(self.hash_at(i) == h);
                    }
                }
                assert forall|h: u64| #[trigger] self.contents().contains_key(h) implies self.contents()[h] == target[h] by {
                    let i = choose|i: int| 0 <= i < self.hashes@.len() && #[trigger] self.hash_at(i) == h;
                    self.lemma_at(i);
                    pre.lemma_at(i);
                    if i != p as int {
                        assert(self.index_at(i) != self.index_at(p as int));
                    }
                }
                assert(self.contents() =~= target);
            }
        } else {
            proof {
                assert forall|i: int| 0 <= i < pre.hashes@.len() implies #[trigger] pre.hash_at(i) != hv by {
                    if i > p as int {
                        assert(pre.hash_at(p as int) < pre.hash_at(i));
                    }
                }
                pre.lemma_absent(hv);
            }
            let value_index = self.values.len();
            self.values.push(kind);
            proof {
                lemma_pack(hv, value_index as u64);
            }
            let entry = Hash { data: hv | value_index as u64 };
            self.hashes.insert(p, entry);
            proof {
                let n = pre.hashes@.len() as int;
                assert(self.hashes@.len() == n + 1);
                assert forall|i: int| 0 <= i < p implies #[trigger] self.hashes@[i] == pre.hashes@[i] by {}
                assert forall|i: int| p < i <= n implies #[trigger] self.hashes@[i] == pre.hashes@[i - 1] by {}
                assert(self.hashes@[p as int] == entry);
                assert(self.hash_at(p as int) == hv);
                assert(self.index_at(p as int) == value_index);
                assert(self.sorted()) by {
                    assert forall|i: int, j: int|
                        0 <= i < j < self.hashes@.len() implies #[trigger] self.hash_at(i) < #[trigger] self.hash_at(j) by {
                        if i < p && j < p {
                            assert(pre.hash_at(i) < pre.hash_at(j));
                        } else if i < p && j > p {
                            assert(pre.hash_at(i) < hv);
                            assert(pre.hash_at(j - 1) >= hv);
                        } else if i > p {
                            assert(pre.hash_at(i - 1) < pre.hash_at(j - 1));
                        } else if i == p {
                            assert(pre.hash_at(j - 1) >= hv);
                        } else {
                            assert(pre.hash_at(i) < hv);
                        }
                    }
                }
                assert(self.indices_ok()) by {
                    assert forall|i: int| 0 <= i < self.hashes@.len() implies #[trigger] self.index_at(i) < self.values@.len() by {
                        if i < p {
                            assert(pre.index_at(i) < pre.values@.len());
                        } else if i > p {
                            assert(pre.index_at(i - 1) < pre.values@.len());
                        }
                    }
                    assert forall|i: int, j: int|
                        0 <= i < self.hashes@.len() && 0 <= j < self.hashes@.len() && i != j
                            implies #[trigger] self.index_at(i) != #[trigger] self.index_at(j) by {
                        let oi = if i < p { i } else { i - 1 };
                        let oj = if j < p { j } else { j - 1 };
                        if i != p && j != p {
                            assert(pre.index_at(oi) != pre.index_at(oj));
                        } else if i == p {
                            assert(pre.index_at(oj) < pre.values@.len());
                        } else {
                            assert(pre.index_at(oi) < pre.values@.len());
                        }
                    }
                }
                assert(self.values_ok()) by {
                    assert forall|k: int, l: int|
                        0 <= k < self.values@.len() && 0 <= l < self.values@.len() && k != l
                            implies kinds_disjoint(#[trigger] self.values@[k], #[trigger] self.values@[l]) by {
                        if k < n && l < n {
                            assert(kinds_disjoint(pre.values@[k], pre.values@[l]));
                        } else if k == n {
                            assert(kinds_disjoint(pre.values@[l], kind));
                        } else {
                            assert(kinds_disjoint(pre.values@[k], kind));
                        }
                    }
                    assert forall|k: int| 0 <= k < self.values@.len() implies kind_valid(#[trigger] self.values@[k], self.arena) by {
                        if k < n {
                            assert(kind_valid(pre.values@[k], pre.arena));
                        }
                    }
                }
                assert(self.wf());
                let target = pre.contents().insert(hv, kind_content(kind, pre.arena));
                assert forall|h: u64| #[trigger] self.contents().contains_key(h) == target.contains_key(h) by {
                    if self.has(h) {
                        let i = choose|i: int| 0 <= i < self.hashes@.len() && #[trigger] self.hash_at(i) == h;
                        if i < p {
                            pre.lemma_at(i);
                        } else if i > p {
                            pre.lemma_at(i - 1);
                        }
                    } else if pre.has(h) {
                        let i = choose|i: int| 0 <= i < pre.hashes@.len() && #[trigger] pre.hash_at(i) == h;
                        if i < p {
                            assert(self.hash_at(i) == h);
                        } else {
                            assert(self.hash_at(i + 1) == h);
                        }
                    } else {
                        assert(self.hash_at(p as int) == hv);
                    }
                }
                assert forall|h: u64| #[trigger] self.contents().contains_key(h) implies self.contents()[h] == target[h] by {
                    let i = choose|i: int| 0 <= i < self.hashes@.len() && #[trigger] self.hash_at(i) == h;
                    self.lemma_at(i);
                    if i < p {
                        pre.lemma_at(i);
                    } else if i > p {
                        pre.lemma_at(i - 1);
                    }
                }
                assert(self.contents() =~= target);
            }
        }
    }

    /// Inserts or overwrites `key` with `value`.
    ///
    /// Overwriting a key does not reclaim arena memory from the previous value.
    pub fn set<T: VarMapValue>(&mut self, key: Key, value: T)
        requires
            old(self).wf(),
            value.fits(old(self).spec_arena()),
            old(self).contents().contains_key(key_slot(key)) || old(self).key_count() < MAX_KEYS,
        ensures
            final(self).wf(),
            final(self).contents() == old(self).contents().insert(key_slot(key), value.content()),
            T::accepts(value.content()),
            final(self).spec_arena().extends(&old(self).spec_arena()),
            final(self).spec_arena().used() <= old(self).spec_arena().used() + value.footprint(),
            final(self).key_count() == old(self).key_count() + (if old(self).contents().contains_key(
                key_slot(key),
            ) {
                0int
            } else {
                1int
            }),
    {
        let ghost pre = *self;
        let mut arena = Arena::new();
        std::mem::swap(&mut arena, &mut self.arena);
        let mut builder = ValueBuilder::new(arena);
        let kind = value.to_value(&mut builder);
        self.arena = builder.into_arena();
        proof {
            self.lemma_arena_grown(pre);
            assert forall|k: int| 0 <= k < self.values@.len() implies kinds_disjoint(#[trigger] self.values@[k], kind) by {
                assert(kind_valid(pre.values@[k], pre.arena));
            }
        }
        let hvalue = key.hash & HASH_MASK;
        proof {
            lemma_slot_low_bits(key.hash);
        }
        self.put(hvalue, kind);
    }

    /// After the arena only grew, the map is consistent and means the same.
    proof fn lemma_arena_grown(&self, pre: VarMap)
        requires
            pre.wf(),
            self.hashes == pre.hashes,
            self.values == pre.values,
            self.arena.wf(),
            self.arena.extends(&pre.arena),
        ensures
            self.wf(),
            self.contents() == pre.contents(),
            self.key_count() == pre.key_count(),
    {
        assert forall|k: int| 0 <= k < self.values@.len() implies kind_valid(#[trigger] self.values@[k], self.arena)
            && kind_content(self.values@[k], self.arena) == kind_content(pre.values@[k], pre.arena) by {
            lemma_content_kept(self.values@[k], pre.arena, self.arena);
        }
        self.lemma_same_table(pre);
        assert forall|k: int, l: int|
            0 <= k < self.values@.len() && 0 <= l < self.values@.len() && k != l
                implies kinds_disjoint(#[trigger] self.values@[k], #[trigger] self.values@[l]) by {
            assert(kinds_disjoint(pre.values@[k], pre.values@[l]));
        }
        assert(self.wf());
        assert forall|h: u64| #[trigger] self.contents().contains_key(h) implies pre.contents().contains_key(h)
            && self.contents()[h] == pre.contents()[h] by {
            let i = self.pos(h);
            assert(0 <= i < self.hashes@.len() && self.hash_at(i) == h);
            assert(pre.hash_at(i) == h);
            assert(pre.index_at(i) < pre.values@.len());
        }
        assert forall|h: u64| #[trigger] pre.contents().contains_key(h) implies self.contents().contains_key(h) by {
            let i = pre.pos(h);
            assert(self.hash_at(i) == h);
        }
        assert(self.contents() =~= pre.contents());
    }

    /// Returns the value for `key` decoded as `V`.
    ///
    /// Returns `None` if `key` is missing or the stored value does not hold a `V`.
    pub fn get<'a, V: VarMapValue>(&'a self, key: Key) -> (r: Option<V::Decoded<'a>>)
        requires
            self.wf(),
        ensures
            r is Some <==> (self.contents().contains_key(key_slot(key)) && V::accepts(
                self.contents()[key_slot(key)],
            )),
            r matches Some(d) ==> V::decoded_content(d) == self.contents()[key_slot(key)],
    {
        let hvalue = key.hash & HASH_MASK;
        match self.lookup(hvalue) {
            Some(p) => {
                let value_index = self.hashes[p].index();
                proof {
                    self.lemma_at(p as int);
                }
                let kind = &self.values[value_index];
                let value = Value::view(kind, &self.arena);
                V::from_value(&value)
            },
            None => None,
        }
    }

    /// Applies `T`'s in-place update to the value at table position `p`.
    fn update_at<T: VarMapValue, F: FnOnce(T) -> T>(&mut self, p: usize, f: F) -> (r: bool)
        requires
            old(self).wf(),
            p < old(self).hashes@.len(),
            forall|v: T| f.requires((v,)),
        ensures
            final(self).wf(),
            final(self).key_count() == old(self).key_count(),
            final(self).spec_arena().used() == old(self).spec_arena().used(),
            r == T::updatable(old(self).contents()[old(self).hash_at(p as int)]),
            r ==> exists|v: T, w: T|
                #![trigger f.ensures((v,), w)]
                v.content() == old(self).contents()[old(self).hash_at(p as int)] && f.ensures((v,), w)
                    && final(self).contents() == old(self).contents().insert(old(self).hash_at(p as int), w.content()),
            !r ==> final(self).contents() == old(self).contents(),
    {
        let ghost pre = *self;
        proof {
            pre.lemma_at(p as int);
        }
        let value_index = self.hashes[p].index();
        let mut kind = self.values[value_index];
        let r = T::update(&mut kind, &mut self.arena, f);
        self.values.set(value_index, kind);
        proof {
            let old_kind = pre.values@[value_index as int];
            let hv = pre.hash_at(p as int);
            assert forall|k: int| 0 <= k < self.values@.len() && k != value_index implies kind_valid(
                #[trigger] self.values@[k],
                self.arena,
            ) && kind_content(self.values@[k], self.arena) == kind_content(pre.values@[k], pre.arena) by {
                assert(kinds_disjoint(pre.values@[k], old_kind));
                lemma_content_untouched(pre.values@[k], old_kind, pre.arena, self.arena);
            }
            assert forall|k: int, l: int|
                0 <= k < self.values@.len() && 0 <= l < self.values@.len() && k != l
                    implies kinds_disjoint(#[trigger] self.values@[k], #[trigger] self.values@[l]) by {
                assert(kinds_disjoint(pre.values@[k], pre.values@[l]));
            }
            self.lemma_same_table(pre);
            assert(self.wf());
            let target = pre.contents().insert(hv, kind_content(kind, self.arena));
            assert forall|h: u64| #[trigger] self.contents().contains_key(h) == target.contains_key(h) by {
                if self.has(h) {
                    let i = choose|i: int| 0 <= i < self.hashes@.len() && #[trigger] self.hash_at(i) == h;
                    pre.lemma_at(i);
                } else if pre.has(h) {
                    let i = choose|i: int| 0 <= i < pre.hashes@.len() && #[trigger] pre.hash_at(i) == h;
                    assert(self.hash_at(i) == h);
                }
            }
            assert forall|h: u64| #[trigger] self.contents().contains_key(h) implies self.contents()[h] == target[h] by {
                let i = choose|i: int| 0 <= i < self.hashes@.len() && #[trigger] self.hash_at(i) == h;
                self.lemma_at(i);
                pre.lemma_at(i);
                if i != p as int {
                    assert(self.index_at(i) != self.index_at(p as int));
                }
            }
            assert(self.contents() =~= target);
            if r {
                let (v, w) = choose|v: T, w: T|
                    #![trigger f.ensures((v,), w)]
                    v.content() == kind_content(old_kind, pre.arena) && f.ensures((v,), w) && kind_content(
                        kind,
                        self.arena,
                    ) == w.content();
                assert(f.ensures((v,), w));
            } else {
                assert(self.values@ =~= pre.values@);
            }
        }
        r
    }

    /// Updates the value at `key` in place when `T` supports it.
    ///
    /// Returns `false`, and changes nothing, if `key` is missing, the stored value is not a
    /// `T`, or `T` cannot be updated in place.
    pub fn update<T: VarMapValue>(&mut self, key: Key, f: impl FnOnce(T) -> T) -> (r: bool)
        requires
            old(self).wf(),
            forall|v: T| f.requires((v,)),
        ensures
            final(self).wf(),
            final(self).key_count() == old(self).key_count(),
            final(self).spec_arena().used() == old(self).spec_arena().used(),
            r == (old(self).contents().contains_key(key_slot(key)) && T::updatable(
                old(self).contents()[key_slot(key)],
            )),
            r ==> exists|v: T, w: T|
                #![trigger f.ensures((v,), w)]
                v.content() == old(self).contents()[key_slot(key)] && f.ensures((v,), w)
                    && final(self).contents() == old(self).contents().insert(key_slot(key), w.content()),
            !r ==> final(self).contents() == old(self).contents(),
    {
        let hvalue = key.hash & HASH_MASK;
        match self.lookup(hvalue) {
            Some(p) => self.update_at(p, f),
            None => false,
        }
    }

    /// Updates the value at `key` in place, or inserts `T::default()` if `key` is missing.
    ///
    /// If `key` is missing the default is stored, `f` is not called, and the result is
    /// `true`. Otherwise this is [`Self::update`].
    pub fn update_or_default<T: VarMapValue + Default>(&mut self, key: Key, f: impl FnOnce(T) -> T) -> (r: bool)
        requires
            old(self).wf(),
            forall|v: T| f.requires((v,)),
            old(self).contents().contains_key(key_slot(key)) || (old(self).key_count() < MAX_KEYS
                && forall|d: T| call_ensures(T::default, (), d) ==> d.fits(old(self).spec_arena())),
        ensures
            final(self).wf(),
            !old(self).contents().contains_key(key_slot(key)) ==> r && final(self).key_count()
                == old(self).key_count() + 1 && exists|d: T|
                call_ensures(T::default, (), d) && final(self).contents() == old(self).contents().insert(
                    key_slot(key),
                    d.content(),
                ),
            old(self).contents().contains_key(key_slot(key)) ==> {
                &&& final(self).key_count() == old(self).key_count()
                &&& final(self).spec_arena().used() == old(self).spec_arena().used()
                &&& r == T::updatable(old(self).contents()[key_slot(key)])
                &&& r ==> exists|v: T, w: T|
                    #![trigger f.ensures((v,), w)]
                    v.content() == old(self).contents()[key_slot(key)] && f.ensures((v,), w)
                        && final(self).contents() == old(self).contents().insert(key_slot(key), w.content())
                &&& !r ==> final(self).contents() == old(self).contents()
            },
    {
        let hvalue = key.hash & HASH_MASK;
        match self.lookup(hvalue) {
            Some(p) => self.update_at(p, f),
            None => {
                let d = T::default();
                self.set(key, d);
                true
            },
        }
    }

    /// Returns the value as `bool`; see [`Self::get`].
    pub fn get_bool(&self, key: Key) -> (r: Option<bool>)
        requires
            self.wf(),
        ensures
            r is Some <==> (self.contents().contains_key(key_slot(key)) && <bool as VarMapValue>::accepts(
                self.contents()[key_slot(key)],
            )),
            r matches Some(v) ==> <bool as VarMapValue>::decoded_content(v) == self.contents()[key_slot(key)],
    {
        self.get::<bool>(key)
    }

    /// Returns the value as `u8`; see [`Self::get`].
    pub fn get_u8(&self, key: Key) -> (r: Option<u8>)
        requires
            self.wf(),
        ensures
            r is Some <==> (self.contents().contains_key(key_slot(key)) && <u8 as VarMapValue>::accepts(
                self.contents()[key_slot(key)],
            )),
            r matches Some(v) ==> <u8 as VarMapValue>::decoded_content(v) == self.contents()[key_slot(key)],
    {
        self.get::<u8>(key)
    }

    /// Returns the value as `u16`; see [`Self::get`].
    pub fn get_u16(&self, key: Key) -> (r: Option<u16>)
        requires
            self.wf(),
        ensures
            r is Some <==> (self.contents().contains_key(key_slot(key)) && <u16 as VarMapValue>::accepts(
                self.contents()[key_slot(key)],
            )),
            r matches Some(v) ==> <u16 as VarMapValue>::decoded_content(v) == self.contents()[key_slot(key)],
    {
        self.get::<u16>(key)
    }

    /// Returns the value as `u32`; see [`Self::get`].
    pub fn get_u32(&self, key: Key) -> (r: Option<u32>)
        requires
            self.wf(),
        ensures
            r is Some <==> (self.contents().contains_key(key_slot(key)) && <u32 as VarMapValue>::accepts(
                self.contents()[key_slot(key)],
            )),
            r matches Some(v) ==> <u32 as VarMapValue>::decoded_content(v) == self.contents()[key_slot(key)],
    {
        self.get::<u32>(key)
    }

    /// Returns the value as `u64`; see [`Self::get`].
    pub fn get_u64(&self, key: Key) -> (r: Option<u64>)
        requires
            self.wf(),
        ensures
            r is Some <==> (self.contents().contains_key(key_slot(key)) && <u64 as VarMapValue>::accepts(
                self.contents()[key_slot(key)],
            )),
            r matches Some(v) ==> <u64 as VarMapValue>::decoded_content(v) == self.contents()[key_slot(key)],
    {
        self.get::<u64>(key)
    }

    /// Returns the value as `i8`; see [`Self::get`].
    pub fn get_i8(&self, key: Key) -> (r: Option<i8>)
        requires
            self.wf(),
        ensures
            r is Some <==> (self.contents().contains_key(key_slot(key)) && <i8 as VarMapValue>::accepts(
                self.contents()[key_slot(key)],
            )),
            r matches Some(v) ==> <i8 as VarMapValue>::decoded_content(v) == self.contents()[key_slot(key)],
    {
        self.get::<i8>(key)
    }

    /// Returns the value as `i16`; see [`Self::get`].
    pub fn get_i16(&self, key: Key) -> (r: Option<i16>)
        requires
            self.wf(),
        ensures
            r is Some <==> (self.contents().contains_key(key_slot(key)) && <i16 as VarMapValue>::accepts(
                self.contents()[key_slot(key)],
            )),
            r matches Some(v) ==> <i16 as VarMapValue>::decoded_content(v) == self.contents()[key_slot(key)],
    {
        self.get::<i16>(key)
    }

    /// Returns the value as `i32`; see [`Self::get`].
    pub fn get_i32(&self, key: Key) -> (r: Option<i32>)
        requires
            self.wf(),
        ensures
            r is Some <==> (self.contents().contains_key(key_slot(key)) && <i32 as VarMapValue>::accepts(
                self.contents()[key_slot(key)],
            )),
            r matches Some(v) ==> <i32 as VarMapValue>::decoded_content(v) == self.contents()[key_slot(key)],
    {
        self.get::<i32>(key)
    }

    /// Returns the value as `i64`; see [`Self::get`].
    pub fn get_i64(&self, key: Key) -> (r: Option<i64>)
        requires
            self.wf(),
        ensures
            r is Some <==> (self.contents().contains_key(key_slot(key)) && <i64 as VarMapValue>::accepts(
                self.contents()[key_slot(key)],
            )),
            r matches Some(v) ==> <i64 as VarMapValue>::decoded_content(v) == self.contents()[key_slot(key)],
    {
        self.get::<i64>(key)
    }

    /// Returns the value as `F32Bits`; see [`Self::get`].
    pub fn get_f32(&self, key: Key) -> (r: Option<F32Bits>)
        requires
            self.wf(),
        ensures
            r is Some <==> (self.contents().contains_key(key_slot(key)) && <F32Bits as VarMapValue>::accepts(
                self.contents()[key_slot(key)],
            )),
            r matches Some(v) ==> <F32Bits as VarMapValue>::decoded_content(v) == self.contents()[key_slot(key)],
    {
        self.get::<F32Bits>(key)
    }

    /// Returns the value as `F64Bits`; see [`Self::get`].
    pub fn get_f64(&self, key: Key) -> (r: Option<F64Bits>)
        requires
            self.wf(),
        ensures
            r is Some <==> (self.contents().contains_key(key_slot(key)) && <F64Bits as VarMapValue>::accepts(
                self.contents()[key_slot(key)],
            )),
            r matches Some(v) ==> <F64Bits as VarMapValue>::decoded_content(v) == self.contents()[key_slot(key)],
    {
        self.get::<F64Bits>(key)
    }

    /// Returns the value as `&str`; see [`Self::get`].
    pub fn get_str<'a>(&'a self, key: Key) -> (r: Option<&'a str>)
        requires
            self.wf(),
        ensures
            r is Some <==> (self.contents().contains_key(key_slot(key)) && <&'a str as VarMapValue>::accepts(
                self.contents()[key_slot(key)],
            )),
            r matches Some(v) ==> <&'a str as VarMapValue>::decoded_content(v) == self.contents()[key_slot(key)],
    {
        self.get::<&'a str>(key)
    }

    /// Returns the value as `&[u8]`; see [`Self::get`].
    pub fn get_bytes<'a>(&'a self, key: Key) -> (r: Option<&'a [u8]>)
        requires
            self.wf(),
        ensures
            r is Some <==> (self.contents().contains_key(key_slot(key)) && <&'a [u8] as VarMapValue>::accepts(
                self.contents()[key_slot(key)],
            )),
            r matches Some(v) ==> <&'a [u8] as VarMapValue>::decoded_content(v) == self.contents()[key_slot(key)],
    {
        self.get::<&'a [u8]>(key)
    }

    /// Returns the value as `char`; see [`Self::get`].
    pub fn get_char(&self, key: Key) -> (r: Option<char>)
        requires
            self.wf(),
        ensures
            r is Some <==> (self.contents().contains_key(key_slot(key)) && <char as VarMapValue>::accepts(
                self.contents()[key_slot(key)],
            )),
            r matches Some(v) ==> <char as VarMapValue>::decoded_content(v) == self.contents()[key_slot(key)],
    {
        self.get::<char>(key)
    }

    /// Returns the value as `IpOctets`; see [`Self::get`].
    pub fn get_ip(&self, key: Key) -> (r: Option<IpOctets>)
        requires
            self.wf(),
        ensures
            r is Some <==> (self.contents().contains_key(key_slot(key)) && <IpOctets as VarMapValue>::accepts(
                self.contents()[key_slot(key)],
            )),
            r matches Some(v) ==> <IpOctets as VarMapValue>::decoded_content(v) == self.contents()[key_slot(key)],
    {
        self.get::<IpOctets>(key)
    }

    /// Returns the value as `Ipv4Octets`; see [`Self::get`].
    pub fn get_ipv4(&self, key: Key) -> (r: Option<Ipv4Octets>)
        requires
            self.wf(),
        ensures
            r is Some <==> (self.contents().contains_key(key_slot(key)) && <Ipv4Octets as VarMapValue>::accepts(
                self.contents()[key_slot(key)],
            )),
            r matches Some(v) ==> <Ipv4Octets as VarMapValue>::decoded_content(v) == self.contents()[key_slot(key)],
    {
        self.get::<Ipv4Octets>(key)
    }

    /// Returns the value as `Ipv6Octets`; see [`Self::get`].
    pub fn get_ipv6(&self, key: Key) -> (r: Option<Ipv6Octets>)
        requires
            self.wf(),
        ensures
            r is Some <==> (self.contents().contains_key(key_slot(key)) && <Ipv6Octets as VarMapValue>::accepts(
                self.contents()[key_slot(key)],
            )),
            r matches Some(v) ==> <Ipv6Octets as VarMapValue>::decoded_content(v) == self.contents()[key_slot(key)],
    {
        self.get::<Ipv6Octets>(key)
    }

    /// Total bytes held by the map (capacities are the allocator's choice, so only a lower
    /// bound is stated): its arena, table and value storage.
    pub fn allocated_size(&self) -> (r: usize)
        ensures
            r >= self.spec_arena().bytes().len(),
    {
        let hashes = crate::capacity::saturating_mul(
            crate::capacity::vec_capacity(&self.hashes),
            core::mem::size_of::<Hash>(),
        );
        let values = crate::capacity::saturating_mul(
            crate::capacity::vec_capacity(&self.values),
            core::mem::size_of::<ValueKind>(),
        );
        self.arena.allocated_size().saturating_add(hashes).saturating_add(values)
    }

    /// Returns a read-only view of this map that can be copied onto other threads.
    pub fn as_readonly(&self) -> (r: Readonly<'_, Self>)
        ensures
            *r.spec_inner() == *self,
    {
        Readonly::new(self)
    }

    /// Moves the map behind a handle that allows concurrent reads and exclusive writes.
    pub fn into_shared(self) -> Shared<Self> {
        Shared::new(self)
    }
}

impl Default for VarMap {
    fn default() -> (r: Self)
        ensures
            r.wf(),
            r.contents() == Map::<u64, Content>::empty(),
    {
        VarMap::new()
    }
}

} // verus!
