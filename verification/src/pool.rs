use vstd::prelude::*;
use crate::enum_var_map::EnumVarMap;
use crate::keep_order::{ClearStrategy, keep_order, spec_keep_count, spec_keys, is_first_ranked};
use crate::str_var_map::StrVarMap;
use crate::traits::EnumVarMapKey;
use crate::value::Content;
use crate::var_map::VarMap;

verus! {

/// Slot id of a free pool slot; no handle ever carries it.
pub const EMPTY_UNIQUE_ID: u32 = u32::MAX;

/// Opaque generational handle to a map checked out from a pool.
///
/// Copying a handle does not clone the map; every copy refers to the same slot. A handle is
/// valid only for the pool that minted it, until that slot is released or the pool is
/// cleared; a stale handle reads as `None` and is otherwise ignored.
#[derive(Debug, Clone, Copy, PartialEq, Eq, Hash)]
pub struct PoolHandle {
    index: u32,
    unique_id: u32,
}

impl PoolHandle {
    /// A minted handle never carries the free-slot id.
    #[verifier::type_invariant]
    spec fn minted(self) -> bool {
        self.unique_id != EMPTY_UNIQUE_ID
    }

    /// The slot this handle refers to.
    pub closed spec fn spec_index(self) -> u32 {
        self.index
    }

    /// The generation this handle was minted with.
    pub closed spec fn spec_unique_id(self) -> u32 {
        self.unique_id
    }
}

/// Maps a pool can hold: created empty, emptied for reuse, and measured.
pub trait Poolable: Sized {
    /// The map is internally consistent.
    spec fn wf(&self) -> bool;

    /// The map holds no values.
    spec fn is_clear(&self) -> bool;

    /// The storage the map keeps when it is emptied: its arena's buffer.
    spec fn held(&self) -> Seq<u8>;

    /// Creates an empty map, with no storage yet.
    fn new() -> (r: Self)
        ensures
            r.wf(),
            r.is_clear(),
            r.held().len() == 0,
    ;

    /// Empties the map, keeping its storage.
    fn clear(&mut self)
        requires
            old(self).wf(),
        ensures
            final(self).wf(),
            final(self).is_clear(),
            final(self).held() == old(self).held(),
    ;

    /// Bytes the map holds: at least its kept storage.
    fn allocated_size(&self) -> (r: usize)
        requires
            self.wf(),
        ensures
            r >= self.held().len(),
    ;
}

impl Poolable for VarMap {
    open spec fn wf(&self) -> bool {
        VarMap::wf(self)
    }

    open spec fn is_clear(&self) -> bool {
        self.contents() == Map::<u64, Content>::empty()
            && self.key_count() == 0
    }

    open spec fn held(&self) -> Seq<u8> {
        self.spec_arena().bytes()
    }

    fn new() -> (r: Self) {
        VarMap::new()
    }

    fn clear(&mut self) {
        VarMap::clear(self)
    }

    fn allocated_size(&self) -> (r: usize) {
        VarMap::allocated_size(self)
    }
}

impl Poolable for StrVarMap {
    open spec fn wf(&self) -> bool {
        StrVarMap::wf(self)
    }

    open spec fn is_clear(&self) -> bool {
        self.contents() == Map::<u64, Content>::empty()
            && self.key_count() == 0
    }

    open spec fn held(&self) -> Seq<u8> {
        self.spec_arena().bytes()
    }

    fn new() -> (r: Self) {
        StrVarMap::new()
    }

    fn clear(&mut self) {
        StrVarMap::clear(self)
    }

    fn allocated_size(&self) -> (r: usize) {
        StrVarMap::allocated_size(self)
    }
}

impl<K: EnumVarMapKey> Poolable for EnumVarMap<K> {
    open spec fn wf(&self) -> bool {
        EnumVarMap::wf(self)
    }

    open spec fn is_clear(&self) -> bool {
        self.contents() == Map::<int, Content>::empty()
    }

    open spec fn held(&self) -> Seq<u8> {
        self.spec_arena().bytes()
    }

    fn new() -> (r: Self) {
        EnumVarMap::new()
    }

    fn clear(&mut self) {
        EnumVarMap::clear(self)
    }

    fn allocated_size(&self) -> (r: usize) {
        EnumVarMap::allocated_size(self)
    }
}

/// Reusable maps behind generational handles, with a list of free slots.
pub struct Pool<T: Poolable> {
    objects: Vec<(u32, T)>,
    free_list: Vec<usize>,
    unique_id: u32,
}

impl<T: Poolable> Pool<T> {
    /// Each slot: its generation (or the free id) and its map.
    pub closed spec fn slots(&self) -> Seq<(u32, T)> {
        self.objects@
    }

    /// Free slots, in the order they will be reused (last first).
    pub closed spec fn free(&self) -> Seq<usize> {
        self.free_list@
    }

    /// Generation the next checkout is minted with.
    pub closed spec fn next_id(&self) -> u32 {
        self.unique_id
    }

    /// Slot positions fit a handle; every map is consistent; free slots hold empty maps and
    /// are exactly the slots on the free list, each listed once.
    pub closed spec fn wf(&self) -> bool {
        &&& self.objects@.len() <= u32::MAX as nat + 1
        &&& self.unique_id != EMPTY_UNIQUE_ID
        &&& forall|i: int| 0 <= i < self.objects@.len() ==> (#[trigger] self.objects@[i]).1.wf()
        &&& forall|i: int|
            0 <= i < self.objects@.len() && (#[trigger] self.objects@[i]).0 == EMPTY_UNIQUE_ID
                ==> self.objects@[i].1.is_clear() && self.free_list@.contains(i as usize)
        &&& forall|k: int|
            0 <= k < self.free_list@.len() ==> #[trigger] self.free_list@[k] < self.objects@.len()
                && self.objects@[self.free_list@[k] as int].0 == EMPTY_UNIQUE_ID
        &&& self.free_list@.no_duplicates()
    }

    /// `handle` refers to a checked-out map of this pool.
    pub open spec fn live(&self, handle: PoolHandle) -> bool {
        &&& handle.spec_index() < self.slots().len()
        &&& self.slots()[handle.spec_index() as int].0 == handle.spec_unique_id()
        &&& handle.spec_unique_id() != EMPTY_UNIQUE_ID
    }

    /// The map a live handle refers to.
    pub open spec fn map_of(&self, handle: PoolHandle) -> T {
        self.slots()[handle.spec_index() as int].1
    }

    /// Creates an empty pool.
    pub fn new() -> (r: Self)
        ensures
            r.wf(),
            r.slots().len() == 0,
            r.free().len() == 0,
            r.next_id() == 0,
    {
        Pool { objects: Vec::new(), free_list: Vec::new(), unique_id: 0 }
    }

    /// `post` is `pre` after checking out `h`: the new handle refers to an empty map in a
    /// slot that was free (or new), minted with the pool's next generation; every other
    /// slot is unchanged.
    pub open spec fn allocated(pre: Self, post: Self, h: PoolHandle) -> bool {
        &&& post.live(h)
        &&& post.map_of(h).is_clear()
        &&& h.spec_unique_id() == pre.next_id()
        &&& post.next_id() == (pre.next_id() + 1) % (EMPTY_UNIQUE_ID as int)
        &&& h.spec_index() <= pre.slots().len()
        &&& h.spec_index() < pre.slots().len() ==> pre.slots()[h.spec_index() as int].0 == EMPTY_UNIQUE_ID
        &&& post.slots().len() == (if h.spec_index() == pre.slots().len() {
            pre.slots().len() + 1int
        } else {
            pre.slots().len() as int
        }) as int
        &&& forall|i: int|
            0 <= i < pre.slots().len() && i != h.spec_index() ==> #[trigger] post.slots()[i] == pre.slots()[i]
        &&& pre.free().len() > 0 ==> {
            &&& h.spec_index() == pre.free().last()
            &&& post.free() == pre.free().drop_last()
            &&& post.map_of(h).held() == pre.slots()[h.spec_index() as int].1.held()
        }
        &&& pre.free().len() == 0 ==> {
            &&& h.spec_index() == pre.slots().len()
            &&& post.free() == pre.free()
            &&& post.map_of(h).held().len() == 0
        }
    }

    /// Checks out a map, reusing a released slot when one is available.
    ///
    /// The map is empty; a reused slot is cleared first and keeps its capacity.
    pub fn allocate(&mut self) -> (h: PoolHandle)
        requires
            old(self).wf(),
            old(self).free().len() > 0 || old(self).slots().len() <= u32::MAX,
        ensures
            final(self).wf(),
            Self::allocated(*old(self), *final(self), h),
    {
        let ghost pre = *self;
        let unique_id = self.unique_id;
        self.unique_id = (self.unique_id + 1) % EMPTY_UNIQUE_ID;
        match self.free_list.pop() {
            Some(index) => {
                proof {
                    assert(pre.free_list@[pre.free_list@.len() - 1] == index);
                    assert(self.free_list@ =~= pre.free_list@.drop_last());
                    assert(!self.free_list@.contains(index)) by {
                        if self.free_list@.contains(index) {
                            let k = choose|k: int| 0 <= k < self.free_list@.len() && self.free_list@[k] == index;
                            assert(pre.free_list@[k] == pre.free_list@[pre.free_list@.len() - 1]);
                        }
                    }
                }
                let entry = &mut self.objects[index];
                entry.0 = unique_id;
                entry.1.clear();
                proof {
                    assert forall|i: int|
                        0 <= i < self.objects@.len() && (#[trigger] self.objects@[i]).0 == EMPTY_UNIQUE_ID
                            implies self.objects@[i].1.is_clear() && self.free_list@.contains(i as usize) by {
                        assert(pre.free_list@.contains(i as usize));
                        let k = choose|k: int| 0 <= k < pre.free_list@.len() && pre.free_list@[k] == i as usize;
                        assert(k != pre.free_list@.len() - 1);
                        assert(self.free_list@[k] == i as usize);
                    }
                    assert forall|k: int| 0 <= k < self.free_list@.len() implies #[trigger] self.free_list@[k]
                        < self.objects@.len() && self.objects@[self.free_list@[k] as int].0 == EMPTY_UNIQUE_ID by {
                        assert(self.free_list@[k] == pre.free_list@[k]);
                        assert(pre.free_list@[k] != index);
                    }
                }
                PoolHandle { index: index as u32, unique_id }
            },
            None => {
                let index = self.objects.len();
                self.objects.push((unique_id, T::new()));
                proof {
                    assert forall|i: int|
                        0 <= i < self.objects@.len() && (#[trigger] self.objects@[i]).0 == EMPTY_UNIQUE_ID
                            implies self.objects@[i].1.is_clear() && self.free_list@.contains(i as usize) by {
                        assert(pre.objects@[i] == self.objects@[i]);
                    }
                }
                PoolHandle { index: index as u32, unique_id }
            },
        }
    }

    /// `post` is `pre` after releasing `h`: a live handle's slot is freed and its map
    /// emptied, every other slot unchanged; a stale handle changes nothing.
    pub open spec fn released(pre: Self, post: Self, h: PoolHandle) -> bool {
        &&& pre.live(h) ==> {
            &&& post.slots().len() == pre.slots().len()
            &&& post.slots()[h.spec_index() as int].0 == EMPTY_UNIQUE_ID
            &&& post.slots()[h.spec_index() as int].1.is_clear()
            &&& post.slots()[h.spec_index() as int].1.held() == pre.slots()[h.spec_index() as int].1.held()
            &&& post.free() == pre.free().push(h.spec_index() as usize)
            &&& forall|i: int|
                0 <= i < pre.slots().len() && i != h.spec_index() ==> #[trigger] post.slots()[i] == pre.slots()[i]
            &&& post.next_id() == pre.next_id()
        }
        &&& !pre.live(h) ==> post == pre
        &&& !post.live(h)
    }

    /// Returns `handle`'s map to the pool: the map is cleared and the slot may be reused.
    ///
    /// `handle` and its copies become stale. A stale handle is ignored.
    pub fn release(&mut self, handle: PoolHandle)
        requires
            old(self).wf(),
        ensures
            final(self).wf(),
            Self::released(*old(self), *final(self), handle),
    {
        proof {
            use_type_invariant(handle);
        }
        let ghost pre = *self;
        let index = handle.index as usize;
        if index < self.objects.len() && self.objects[index].0 == handle.unique_id {
            let entry = &mut self.objects[index];
            entry.0 = EMPTY_UNIQUE_ID;
            entry.1.clear();
            proof {
                assert(!pre.free_list@.contains(index)) by {
                    if pre.free_list@.contains(index) {
                        let k = choose|k: int| 0 <= k < pre.free_list@.len() && pre.free_list@[k] == index;
                        assert(pre.objects@[pre.free_list@[k] as int].0 == EMPTY_UNIQUE_ID);
                    }
                }
            }
            self.free_list.push(index);
            proof {
                assert forall|i: int|
                    0 <= i < self.objects@.len() && (#[trigger] self.objects@[i]).0 == EMPTY_UNIQUE_ID
                        implies self.objects@[i].1.is_clear() && self.free_list@.contains(i as usize) by {
                    if i == index {
                        assert(self.free_list@[self.free_list@.len() - 1] == index);
                    } else {
                        assert(pre.free_list@.contains(i as usize));
                        let k = choose|k: int| 0 <= k < pre.free_list@.len() && pre.free_list@[k] == i as usize;
                        assert(self.free_list@[k] == i as usize);
                    }
                }
                assert forall|k: int| 0 <= k < self.free_list@.len() implies #[trigger] self.free_list@[k]
                    < self.objects@.len() && self.objects@[self.free_list@[k] as int].0 == EMPTY_UNIQUE_ID by {
                    if k < pre.free_list@.len() {
                        assert(self.free_list@[k] == pre.free_list@[k]);
                    }
                }
                assert(self.free_list@.no_duplicates()) by {
                    assert forall|a: int, b: int|
                        0 <= a < self.free_list@.len() && 0 <= b < self.free_list@.len() && a != b
                            implies self.free_list@[a] != self.free_list@[b] by {
                        if a < pre.free_list@.len() && b < pre.free_list@.len() {
                            assert(pre.free_list@[a] != pre.free_list@[b]);
                        } else if a < pre.free_list@.len() {
                            assert(pre.free_list@.contains(pre.free_list@[a]));
                        } else {
                            assert(pre.free_list@.contains(pre.free_list@[b]));
                        }
                    }
                }
            }
        }
    }

    /// Returns the map for `handle`, or `None` if the handle is stale.
    pub fn get(&self, handle: PoolHandle) -> (r: Option<&T>)
        requires
            self.wf(),
        ensures
            r is Some <==> self.live(handle),
            r matches Some(m) ==> *m == self.map_of(handle) && m.wf(),
    {
        proof {
            use_type_invariant(handle);
        }
        let index = handle.index as usize;
        if index < self.objects.len() && self.objects[index].0 == handle.unique_id {
            Some(&self.objects[index].1)
        } else {
            None
        }
    }

    /// Returns the map for `handle` for writing, or `None` if the handle is stale.
    ///
    /// Only that slot's map can change; the pool stays consistent as long as the map does.
    pub fn get_mut(&mut self, handle: PoolHandle) -> (r: Option<&mut T>)
        requires
            old(self).wf(),
        ensures
            r is Some <==> old(self).live(handle),
            r matches Some(m) ==> {
                &&& *m == old(self).map_of(handle)
                &&& (*m).wf()
                &&& final(self).slots() == old(self).slots().update(
                    handle.spec_index() as int,
                    (handle.spec_unique_id(), *final(m)),
                )
                &&& final(self).free() == old(self).free()
                &&& final(self).next_id() == old(self).next_id()
                &&& (*final(m)).wf() ==> final(self).wf()
            },
            r is None ==> *final(self) == *old(self),
    {
        proof {
            use_type_invariant(handle);
        }
        let index = handle.index as usize;
        if index < self.objects.len() && self.objects[index].0 == handle.unique_id {
            Some(&mut self.objects[index].1)
        } else {
            None
        }
    }

    /// Empties every kept slot, putting all of them on the free list.
    fn reset_kept(&mut self, kept: Vec<T>)
        requires
            forall|i: int| 0 <= i < kept@.len() ==> (#[trigger] kept@[i]).wf(),
            kept@.len() <= u32::MAX as nat + 1,
            old(self).unique_id != EMPTY_UNIQUE_ID,
        ensures
            final(self).wf(),
            final(self).slots().len() == kept@.len(),
            final(self).next_id() == old(self).next_id(),
            forall|i: int| 0 <= i < kept@.len() ==> (#[trigger] final(self).slots()[i]).0 == EMPTY_UNIQUE_ID,
            forall|i: int| 0 <= i < kept@.len() ==> (#[trigger] final(self).slots()[i]).1.is_clear(),
            final(self).free().len() == kept@.len(),
            forall|i: int| 0 <= i < kept@.len() ==> (#[trigger] final(self).slots()[i]).1.held() == kept@[i].held(),
    {
        let ghost orig = kept@;
        let mut kept = kept;
        self.objects = Vec::new();
        self.free_list = Vec::new();
        let n = kept.len();
        let mut i: usize = 0;
        while i < n
            invariant
                0 <= i <= n,
                n == kept@.len() + i,
                n <= u32::MAX as nat + 1,
                self.unique_id == old(self).unique_id,
                self.unique_id != EMPTY_UNIQUE_ID,
                self.objects@.len() == i,
                self.free_list@.len() == i,
                forall|k: int| 0 <= k < i ==> #[trigger] self.free_list@[k] == k,
                forall|k: int| 0 <= k < kept@.len() ==> (#[trigger] kept@[k]).wf(),
                orig.len() == n,
                kept@ == orig.subrange(i as int, n as int),
                forall|k: int|
                    0 <= k < i ==> (#[trigger] self.objects@[k]).0 == EMPTY_UNIQUE_ID && self.objects@[k].1.wf()
                        && self.objects@[k].1.is_clear() && self.objects@[k].1.held() == orig[k].held(),
            decreases n - i,
        {
            let mut m = kept.remove(0);
            m.clear();
            self.objects.push((EMPTY_UNIQUE_ID, m));
            self.free_list.push(i);
            i = i + 1;
        }
        proof {
            assert forall|x: int|
                0 <= x < self.objects@.len() && (#[trigger] self.objects@[x]).0 == EMPTY_UNIQUE_ID
                    implies self.objects@[x].1.is_clear() && self.free_list@.contains(x as usize) by {
                assert(self.free_list@[x] == x as usize);
            }
        }
    }

    /// `post` keeps, slot by slot, the storage of the maps of `pre` at `order`, where `order`
    /// is the first positions in `strategy`'s ranking of `sizes`, and each size is what
    /// `allocated_size` can return for its map (at least the storage that map keeps).
    pub open spec fn ranked_keep(
        pre: Self,
        post: Self,
        strategy: ClearStrategy,
        sizes: Seq<usize>,
        order: Seq<usize>,
    ) -> bool {
        &&& sizes.len() == pre.slots().len()
        &&& forall|i: int| 0 <= i < sizes.len() ==> sizes[i] >= (#[trigger] pre.slots()[i]).1.held().len()
        &&& forall|i: int| 0 <= i < sizes.len() ==> call_ensures(T::allocated_size, (&(#[trigger] pre.slots()[i]).1,), sizes[i])
        &&& is_first_ranked(spec_keys(sizes, strategy), order, spec_keep_count(strategy, sizes.len()))
        &&& order.len() == post.slots().len()
        &&& forall|i: int|
            0 <= i < order.len() ==> (#[trigger] post.slots()[i]).1.held() == pre.slots()[order[i] as int].1.held()
    }

    /// `post` is `pre` after clearing with `strategy`: the maps the strategy ranks first by
    /// size are kept, each emptied with its storage, and all are free, so that no handle is
    /// live.
    pub open spec fn cleared(pre: Self, post: Self, strategy: ClearStrategy) -> bool {
        &&& exists|sizes: Seq<usize>, order: Seq<usize>| #[trigger] Self::ranked_keep(pre, post, strategy, sizes, order)
        &&& post.slots().len() == spec_keep_count(strategy, pre.slots().len())
        &&& forall|i: int| 0 <= i < post.slots().len() ==> (#[trigger] post.slots()[i]).0 == EMPTY_UNIQUE_ID
        &&& forall|i: int| 0 <= i < post.slots().len() ==> (#[trigger] post.slots()[i]).1.is_clear()
        &&& post.free().len() == post.slots().len()
        &&& post.next_id() == pre.next_id()
        &&& forall|h: PoolHandle| !post.live(h)
    }

    /// Invalidates every outstanding handle and applies `strategy`.
    ///
    /// Kept maps are chosen by [`keep_order`] from the maps' allocated sizes and are left
    /// empty with their capacity; the others are dropped.
    pub fn clear(&mut self, strategy: ClearStrategy)
        requires
            old(self).wf(),
        ensures
            final(self).wf(),
            Self::cleared(*old(self), *final(self), strategy),
    {
        let ghost pre = *self;
        let n = self.objects.len();
        let mut sizes: Vec<usize> = Vec::with_capacity(n);
        let mut i: usize = 0;
        while i < n
            invariant
                0 <= i <= n,
                n == self.objects@.len(),
                self.wf(),
                self.objects@ == pre.objects@,
                sizes@.len() == i,
                forall|k: int| 0 <= k < i ==> #[trigger] sizes@[k] >= pre.objects@[k].1.held().len(),
                forall|k: int| 0 <= k < i ==> call_ensures(T::allocated_size, (&(#[trigger] pre.objects@[k]).1,), sizes@[k]),
            decreases n - i,
        {
            sizes.push(self.objects[i].1.allocated_size());
            i = i + 1;
        }
        let order = keep_order(&sizes, strategy);
        let mut objects: Vec<(u32, T)> = Vec::new();
        std::mem::swap(&mut objects, &mut self.objects);
        let mut slots: Vec<Option<T>> = Vec::new();
        let mut j: usize = 0;
        while j < n
            invariant
                0 <= j <= n,
                objects@.len() == n - j,
                n == pre.objects@.len(),
                forall|k: int| 0 <= k < objects@.len() ==> #[trigger] objects@[k] == pre.objects@[j + k],
                forall|k: int| 0 <= k < j ==> #[trigger] slots@[k] == Some(pre.objects@[k].1),
                slots@.len() == j,
                forall|k: int| 0 <= k < objects@.len() ==> (#[trigger] objects@[k]).1.wf(),
                forall|k: int| 0 <= k < j ==> (#[trigger] slots@[k]) is Some && slots@[k]->0.wf(),
            decreases n - j,
        {
            let (_, m) = objects.remove(0);
            slots.push(Some(m));
            j = j + 1;
        }
        let mut kept: Vec<T> = Vec::new();
        let mut k: usize = 0;
        while k < order.len()
            invariant
                0 <= k <= order@.len(),
                slots@.len() == n,
                order@.len() <= n,
                forall|a: int, b: int| 0 <= a < b < order@.len() ==> #[trigger] order@[a] != #[trigger] order@[b],
                forall|a: int| 0 <= a < order@.len() ==> #[trigger] order@[a] < n,
                forall|a: int| k <= a < order@.len() ==> (#[trigger] slots@[order@[a] as int]) is Some,
                forall|a: int| 0 <= a < n ==> (#[trigger] slots@[a]) is Some ==> slots@[a]->0.wf(),
                kept@.len() == k,
                forall|a: int| 0 <= a < k ==> (#[trigger] kept@[a]).wf(),
                n == pre.objects@.len(),
                forall|a: int| 0 <= a < n ==> (#[trigger] slots@[a]) is Some ==> slots@[a] == Some(pre.objects@[a].1),
                forall|a: int| 0 <= a < k ==> #[trigger] kept@[a] == pre.objects@[order@[a] as int].1,
            decreases order@.len() - k,
        {
            let idx = order[k];
            let mut taken: Option<T> = None;
            std::mem::swap(&mut taken, &mut slots[idx]);
            proof {
                assert forall|a: int| k + 1 <= a < order@.len() implies (#[trigger] slots@[order@[a] as int]) is Some by {
                    assert(order@[a] != order@[k as int]);
                }
            }
            match taken {
                Some(m) => kept.push(m),
                None => {},
            }
            k = k + 1;
        }
        proof {
            assert(kept@.len() == spec_keep_count(strategy, pre.objects@.len()));
        }
        self.reset_kept(kept);
        proof {
            assert(Self::ranked_keep(pre, *self, strategy, sizes@, order@));
            assert forall|h: PoolHandle| !self.live(h) by {
                if h.spec_index() < self.slots().len() {
                    assert(self.slots()[h.spec_index() as int].0 == EMPTY_UNIQUE_ID);
                }
            }
        }
    }
}

/// Pool of reusable [`VarMap`]s.
///
/// Check out a map with `allocate` and return it with `release`; a released map is
/// cleared but keeps its capacity. Access goes through a [`PoolHandle`], valid only for this
/// pool until the slot is released or the pool is cleared.

pub struct VarMapPool {
    pool: Pool<VarMap>,
}

impl VarMapPool {
    /// The pool of maps behind this handle type.
    pub closed spec fn spec_pool(&self) -> Pool<VarMap> {
        self.pool
    }

    /// The pool is consistent.
    pub open spec fn wf(&self) -> bool {
        self.spec_pool().wf()
    }

    /// Creates an empty pool.
    pub fn new() -> (r: Self)
        ensures
            r.wf(),
            r.spec_pool().slots().len() == 0,
            r.spec_pool().next_id() == 0,
    {
        VarMapPool { pool: Pool::new() }
    }

    /// Checks out an empty map, reusing a released slot when one is available; a reused map
    /// keeps its capacity. See [`Pool::allocate`].
    pub fn allocate(&mut self) -> (h: PoolHandle)
        requires
            old(self).wf(),
            old(self).spec_pool().free().len() > 0 || old(self).spec_pool().slots().len() <= u32::MAX,
        ensures
            final(self).wf(),
            Pool::allocated(old(self).spec_pool(), final(self).spec_pool(), h),
    {
        self.pool.allocate()
    }

    /// Returns `handle`'s map to the pool; the map is cleared and `handle` becomes stale. A
    /// stale handle is ignored. See [`Pool::release`].
    pub fn release(&mut self, handle: PoolHandle)
        requires
            old(self).wf(),
        ensures
            final(self).wf(),
            Pool::released(old(self).spec_pool(), final(self).spec_pool(), handle),
    {
        self.pool.release(handle)
    }

    /// Returns the map for `handle`, or `None` if the handle is stale.
    pub fn get(&self, handle: PoolHandle) -> (r: Option<&VarMap>)
        requires
            self.wf(),
        ensures
            r is Some <==> self.spec_pool().live(handle),
            r matches Some(m) ==> *m == self.spec_pool().map_of(handle) && m.wf(),
    {
        self.pool.get(handle)
    }

    /// Returns the map for `handle` for writing, or `None` if the handle is stale.
    pub fn get_mut(&mut self, handle: PoolHandle) -> (r: Option<&mut VarMap>)
        requires
            old(self).wf(),
        ensures
            r is Some <==> old(self).spec_pool().live(handle),
            r matches Some(m) ==> {
                &&& *m == old(self).spec_pool().map_of(handle)
                &&& (*m).wf()
                &&& final(self).spec_pool().slots() == old(self).spec_pool().slots().update(
                    handle.spec_index() as int,
                    (handle.spec_unique_id(), *final(m)),
                )
                &&& final(self).spec_pool().free() == old(self).spec_pool().free()
                &&& final(self).spec_pool().next_id() == old(self).spec_pool().next_id()
                &&& (*final(m)).wf() ==> final(self).wf()
            },
            r is None ==> *final(self) == *old(self),
    {
        self.pool.get_mut(handle)
    }

    /// Invalidates every outstanding handle and applies `strategy`. See [`Pool::clear`].
    pub fn clear(&mut self, strategy: ClearStrategy)
        requires
            old(self).wf(),
        ensures
            final(self).wf(),
            Pool::cleared(old(self).spec_pool(), final(self).spec_pool(), strategy),
    {
        self.pool.clear(strategy)
    }
}
/// Pool of reusable [`StrVarMap`]s, with the same checkout, release and handle rules as
/// [`VarMapPool`].

pub struct StrVarMapPool {
    pool: Pool<StrVarMap>,
}

impl StrVarMapPool {
    /// The pool of maps behind this handle type.
    pub closed spec fn spec_pool(&self) -> Pool<StrVarMap> {
        self.pool
    }

    /// The pool is consistent.
    pub open spec fn wf(&self) -> bool {
        self.spec_pool().wf()
    }

    /// Creates an empty pool.
    pub fn new() -> (r: Self)
        ensures
            r.wf(),
            r.spec_pool().slots().len() == 0,
            r.spec_pool().next_id() == 0,
    {
        StrVarMapPool { pool: Pool::new() }
    }

    /// Checks out an empty map, reusing a released slot when one is available; a reused map
    /// keeps its capacity. See [`Pool::allocate`].
    pub fn allocate(&mut self) -> (h: PoolHandle)
        requires
            old(self).wf(),
            old(self).spec_pool().free().len() > 0 || old(self).spec_pool().slots().len() <= u32::MAX,
        ensures
            final(self).wf(),
            Pool::allocated(old(self).spec_pool(), final(self).spec_pool(), h),
    {
        self.pool.allocate()
    }

    /// Returns `handle`'s map to the pool; the map is cleared and `handle` becomes stale. A
    /// stale handle is ignored. See [`Pool::release`].
    pub fn release(&mut self, handle: PoolHandle)
        requires
            old(self).wf(),
        ensures
            final(self).wf(),
            Pool::released(old(self).spec_pool(), final(self).spec_pool(), handle),
    {
        self.pool.release(handle)
    }

    /// Returns the map for `handle`, or `None` if the handle is stale.
    pub fn get(&self, handle: PoolHandle) -> (r: Option<&StrVarMap>)
        requires
            self.wf(),
        ensures
            r is Some <==> self.spec_pool().live(handle),
            r matches Some(m) ==> *m == self.spec_pool().map_of(handle) && m.wf(),
    {
        self.pool.get(handle)
    }

    /// Returns the map for `handle` for writing, or `None` if the handle is stale.
    pub fn get_mut(&mut self, handle: PoolHandle) -> (r: Option<&mut StrVarMap>)
        requires
            old(self).wf(),
        ensures
            r is Some <==> old(self).spec_pool().live(handle),
            r matches Some(m) ==> {
                &&& *m == old(self).spec_pool().map_of(handle)
                &&& (*m).wf()
                &&& final(self).spec_pool().slots() == old(self).spec_pool().slots().update(
                    handle.spec_index() as int,
                    (handle.spec_unique_id(), *final(m)),
                )
                &&& final(self).spec_pool().free() == old(self).spec_pool().free()
                &&& final(self).spec_pool().next_id() == old(self).spec_pool().next_id()
                &&& (*final(m)).wf() ==> final(self).wf()
            },
            r is None ==> *final(self) == *old(self),
    {
        self.pool.get_mut(handle)
    }

    /// Invalidates every outstanding handle and applies `strategy`. See [`Pool::clear`].
    pub fn clear(&mut self, strategy: ClearStrategy)
        requires
            old(self).wf(),
        ensures
            final(self).wf(),
            Pool::cleared(old(self).spec_pool(), final(self).spec_pool(), strategy),
    {
        self.pool.clear(strategy)
    }
}
/// Pool of reusable [`EnumVarMap`]s keyed by `K`, with the same checkout, release and
/// handle rules as [`VarMapPool`]. Each map reserves one slot per variant of `K`.
#[verifier::reject_recursive_types(K)]
pub struct EnumVarMapPool<K: EnumVarMapKey> {
    pool: Pool<EnumVarMap<K>>,
}

impl<K: EnumVarMapKey> EnumVarMapPool<K> {
    /// The pool of maps behind this handle type.
    pub closed spec fn spec_pool(&self) -> Pool<EnumVarMap<K>> {
        self.pool
    }

    /// The pool is consistent.
    pub open spec fn wf(&self) -> bool {
        self.spec_pool().wf()
    }

    /// Creates an empty pool.
    pub fn new() -> (r: Self)
        ensures
            r.wf(),
            r.spec_pool().slots().len() == 0,
            r.spec_pool().next_id() == 0,
    {
        EnumVarMapPool { pool: Pool::new() }
    }

    /// Checks out an empty map, reusing a released slot when one is available; a reused map
    /// keeps its capacity. See [`Pool::allocate`].
    pub fn allocate(&mut self) -> (h: PoolHandle)
        requires
            old(self).wf(),
            old(self).spec_pool().free().len() > 0 || old(self).spec_pool().slots().len() <= u32::MAX,
        ensures
            final(self).wf(),
            Pool::allocated(old(self).spec_pool(), final(self).spec_pool(), h),
    {
        self.pool.allocate()
    }

    /// Returns `handle`'s map to the pool; the map is cleared and `handle` becomes stale. A
    /// stale handle is ignored. See [`Pool::release`].
    pub fn release(&mut self, handle: PoolHandle)
        requires
            old(self).wf(),
        ensures
            final(self).wf(),
            Pool::released(old(self).spec_pool(), final(self).spec_pool(), handle),
    {
        self.pool.release(handle)
    }

    /// Returns the map for `handle`, or `None` if the handle is stale.
    pub fn get(&self, handle: PoolHandle) -> (r: Option<&EnumVarMap<K>>)
        requires
            self.wf(),
        ensures
            r is Some <==> self.spec_pool().live(handle),
            r matches Some(m) ==> *m == self.spec_pool().map_of(handle) && m.wf(),
    {
        self.pool.get(handle)
    }

    /// Returns the map for `handle` for writing, or `None` if the handle is stale.
    pub fn get_mut(&mut self, handle: PoolHandle) -> (r: Option<&mut EnumVarMap<K>>)
        requires
            old(self).wf(),
        ensures
            r is Some <==> old(self).spec_pool().live(handle),
            r matches Some(m) ==> {
                &&& *m == old(self).spec_pool().map_of(handle)
                &&& (*m).wf()
                &&& final(self).spec_pool().slots() == old(self).spec_pool().slots().update(
                    handle.spec_index() as int,
                    (handle.spec_unique_id(), *final(m)),
                )
                &&& final(self).spec_pool().free() == old(self).spec_pool().free()
                &&& final(self).spec_pool().next_id() == old(self).spec_pool().next_id()
                &&& (*final(m)).wf() ==> final(self).wf()
            },
            r is None ==> *final(self) == *old(self),
    {
        self.pool.get_mut(handle)
    }

    /// Invalidates every outstanding handle and applies `strategy`. See [`Pool::clear`].
    pub fn clear(&mut self, strategy: ClearStrategy)
        requires
            old(self).wf(),
        ensures
            final(self).wf(),
            Pool::cleared(old(self).spec_pool(), final(self).spec_pool(), strategy),
    {
        self.pool.clear(strategy)
    }
}

} // verus!
