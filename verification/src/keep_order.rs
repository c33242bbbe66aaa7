use vstd::prelude::*;

verus! {

/// Strategy controlling which maps a pool retains when it is cleared.
///
/// Every strategy invalidates all outstanding handles. The `Keep…N` variants keep `N` maps
/// (clamped to the pool size), ranked by allocated size; kept maps are emptied but keep
/// their capacity. The other maps are dropped.
#[derive(Debug, Clone, Copy, PartialEq, Eq, Hash)]
pub enum ClearStrategy {
    /// Drop every map and return their memory to the allocator.
    FreeEntireMemory,
    /// Keep the `N` maps with the smallest allocated size.
    KeepSmallestN(u32),
    /// Keep the `N` maps whose allocated size is closest to the mean.
    KeepNClosestToAverage(u32),
    /// Keep the `N` maps with the largest allocated size.
    KeepLargestN(u32),
}

/// Sum of the sizes.
pub open spec fn spec_sum(sizes: Seq<usize>) -> nat
    decreases sizes.len(),
{
    if sizes.len() == 0 {
        0
    } else {
        spec_sum(sizes.drop_last()) + (sizes.last() as nat)
    }
}

/// Mean size, rounded down.
pub open spec fn spec_average(sizes: Seq<usize>) -> int {
    spec_sum(sizes) as int / sizes.len() as int
}

/// Distance between two sizes.
pub open spec fn spec_abs_diff(a: int, b: int) -> int {
    if a >= b {
        a - b
    } else {
        b - a
    }
}

/// The rank key of each map under a strategy: smaller keys are kept first. Largest-first
/// ranks by the size's distance below `usize::MAX`.
pub open spec fn spec_keys(sizes: Seq<usize>, strategy: ClearStrategy) -> Seq<int> {
    Seq::new(
        sizes.len(),
        |i: int|
            match strategy {
                ClearStrategy::KeepLargestN(_) => usize::MAX - sizes[i],
                ClearStrategy::KeepNClosestToAverage(_) => spec_abs_diff(sizes[i] as int, spec_average(sizes)),
                _ => sizes[i] as int,
            },
    )
}

/// How many maps a strategy keeps out of `len`.
pub open spec fn spec_keep_count(strategy: ClearStrategy, len: nat) -> nat {
    let n: nat = match strategy {
        ClearStrategy::FreeEntireMemory => 0,
        ClearStrategy::KeepSmallestN(n) => n as nat,
        ClearStrategy::KeepNClosestToAverage(n) => n as nat,
        ClearStrategy::KeepLargestN(n) => n as nat,
    };
    if n < len {
        n
    } else {
        len
    }
}

/// Map `a` ranks before map `b`: a smaller key, or the same key and an earlier position.
pub open spec fn ranks_before(keys: Seq<int>, a: int, b: int) -> bool {
    keys[a] < keys[b] || (keys[a] == keys[b] && a < b)
}

/// `order` lists positions `0..keys.len()` without repetition, each ranking before the next.
pub open spec fn is_ranked(keys: Seq<int>, order: Seq<usize>) -> bool {
    &&& forall|k: int| 0 <= k < order.len() ==> #[trigger] order[k] < keys.len()
    &&& forall|k: int, l: int| 0 <= k < l < order.len() ==> ranks_before(keys, #[trigger] order[k] as int, #[trigger] order[l] as int)
}

/// `order` is the first `count` positions in rank order: ranked, and ranking before every
/// position it leaves out.
pub open spec fn is_first_ranked(keys: Seq<int>, order: Seq<usize>, count: nat) -> bool {
    &&& order.len() == count
    &&& is_ranked(keys, order)
    &&& forall|x: usize, k: int|
        x < keys.len() && !(#[trigger] order.contains(x)) && 0 <= k < order.len() ==> ranks_before(
            keys,
            #[trigger] order[k] as int,
            x as int,
        )
}

proof fn lemma_sum_bound(sizes: Seq<usize>)
    ensures
        spec_sum(sizes) <= sizes.len() * (usize::MAX as nat),
    decreases sizes.len(),
{
    if sizes.len() > 0 {
        lemma_sum_bound(sizes.drop_last());
        assert((sizes.len() - 1) * (usize::MAX as nat) + usize::MAX == sizes.len() * (usize::MAX as nat))
            by (nonlinear_arith);
    }
}

/// The rank key of every map under `strategy`, given the maps' allocated sizes.
fn keys_for(sizes: &Vec<usize>, strategy: ClearStrategy) -> (r: Vec<usize>)
    ensures
        r@.len() == sizes@.len(),
        forall|i: int| 0 <= i < r@.len() ==> #[trigger] r@[i] == spec_keys(sizes@, strategy)[i],
{
    let n = sizes.len();
    let mut avg: usize = 0;
    if let ClearStrategy::KeepNClosestToAverage(_) = strategy {
        if n > 0 {
            let mut total: u128 = 0;
            let mut i: usize = 0;
            while i < n
                invariant
                    0 <= i <= n,
                    n == sizes@.len(),
                    total == spec_sum(sizes@.subrange(0, i as int)),
                    total <= i * (usize::MAX as nat),
                decreases n - i,
            {
                proof {
                    assert(sizes@.subrange(0, i + 1).drop_last() =~= sizes@.subrange(0, i as int));
                    assert(i * (usize::MAX as nat) + usize::MAX == (i + 1) * (usize::MAX as nat))
                        by (nonlinear_arith);
                    assert((i + 1) * (usize::MAX as nat) <= 0x1_0000_0000_0000_0000 * 0xFFFF_FFFF_FFFF_FFFF)
                        by (nonlinear_arith)
                        requires
                            i + 1 <= 0x1_0000_0000_0000_0000,
                            usize::MAX <= 0xFFFF_FFFF_FFFF_FFFF,
                    ;
                }
                total = total + sizes[i] as u128;
                i = i + 1;
            }
            proof {
                assert(sizes@.subrange(0, n as int) =~= sizes@);
                assert(total / (n as u128) <= usize::MAX) by (nonlinear_arith)
                    requires
                        total <= n * (usize::MAX as nat),
                        n > 0,
                ;
            }
            avg = (total / (n as u128)) as usize;
        }
    }
    let mut keys: Vec<usize> = Vec::with_capacity(n);
    let mut i: usize = 0;
    while i < n
        invariant
            0 <= i <= n,
            n == sizes@.len(),
            keys@.len() == i,
            (strategy is KeepNClosestToAverage && n > 0) ==> avg == spec_average(sizes@),
            forall|k: int| 0 <= k < i ==> #[trigger] keys@[k] == spec_keys(sizes@, strategy)[k],
        decreases n - i,
    {
        let s = sizes[i];
        let key = match strategy {
            ClearStrategy::KeepLargestN(_) => usize::MAX - s,
            ClearStrategy::KeepNClosestToAverage(_) => if s >= avg {
                s - avg
            } else {
                avg - s
            },
            _ => s,
        };
        keys.push(key);
        i = i + 1;
    }
    keys
}

/// The positions of the maps a pool keeps under `strategy`, best ranked first, given each
/// map's allocated size.
///
/// Maps rank by allocated size: smallest first, largest first, or closest to the mean
/// (rounded down) first; ties keep their current order. `FreeEntireMemory` keeps none.
pub fn keep_order(sizes: &Vec<usize>, strategy: ClearStrategy) -> (r: Vec<usize>)
    ensures
        is_first_ranked(spec_keys(sizes@, strategy), r@, spec_keep_count(strategy, sizes@.len())),
{
    let keys = keys_for(sizes, strategy);
    let ghost ks = spec_keys(sizes@, strategy);
    assert forall|i: int| 0 <= i < keys@.len() implies keys@[i] as int == ks[i] by {}
    let n = keys.len();
    let mut order: Vec<usize> = Vec::new();
    let mut i: usize = 0;
    while i < n
        invariant
            0 <= i <= n,
            n == keys@.len(),
            ks.len() == n,
            forall|j: int| 0 <= j < n ==> #[trigger] keys@[j] as int == ks[j],
            order@.len() == i,
            forall|k: int| 0 <= k < order@.len() ==> #[trigger] order@[k] < i,
            forall|x: usize| x < i ==> #[trigger] order@.contains(x),
            is_ranked(ks, order@),
        decreases n - i,
    {
        let mut p = order.len();
        while p > 0 && keys[order[p - 1]] > keys[i]
            invariant
                0 <= p <= order@.len(),
                i < n,
                n == keys@.len(),
                forall|j: int| 0 <= j < n ==> #[trigger] keys@[j] as int == ks[j],
                forall|k: int| 0 <= k < order@.len() ==> #[trigger] order@[k] < i,
                forall|k: int| p <= k < order@.len() ==> ks[#[trigger] order@[k] as int] > ks[i as int],
            decreases p,
        {
            p = p - 1;
        }
        let ghost before = order@;
        order.insert(p, i);
        proof {
            assert forall|k: int| 0 <= k < order@.len() implies #[trigger] order@[k] < i + 1 by {
                if k < p {
                    assert(order@[k] == before[k]);
                } else if k > p {
                    assert(order@[k] == before[k - 1]);
                }
            }
            assert forall|x: usize| x < i + 1 implies #[trigger] order@.contains(x) by {
                if x < i {
                    assert(before.contains(x));
                    let k = choose|k: int| 0 <= k < before.len() && before[k] == x;
                    if k < p {
                        assert(order@[k] == x);
                    } else {
                        assert(order@[k + 1] == x);
                    }
                } else {
                    assert(order@[p as int] == i);
                }
            }
            assert forall|k: int, l: int| 0 <= k < l < order@.len() implies ranks_before(
                ks,
                #[trigger] order@[k] as int,
                #[trigger] order@[l] as int,
            ) by {
                if l < p {
                    assert(ranks_before(ks, before[k] as int, before[l] as int));
                } else if k > p {
                    assert(ranks_before(ks, before[k - 1] as int, before[l - 1] as int));
                } else if k < p && l > p {
                    assert(ranks_before(ks, before[k] as int, before[l - 1] as int));
                } else if k == p {
                    assert(ks[before[l - 1] as int] > ks[i as int]);
                } else {
                    assert(l == p);
                    if k == p - 1 {
                        assert(!(ks[before[k] as int] > ks[i as int]));
                    } else {
                        assert(ranks_before(ks, before[k] as int, before[p - 1] as int));
                        assert(!(ks[before[p - 1] as int] > ks[i as int]));
                    }
                    assert(before[k] < i);
                }
            }
        }
        i = i + 1;
    }
    let count: usize = match strategy {
        ClearStrategy::FreeEntireMemory => 0,
        ClearStrategy::KeepSmallestN(c) => c as usize,
        ClearStrategy::KeepNClosestToAverage(c) => c as usize,
        ClearStrategy::KeepLargestN(c) => c as usize,
    };
    let ghost full = order@;
    if count < n {
        order.truncate(count);
    }
    proof {
        assert(order@.len() == spec_keep_count(strategy, n as nat));
        assert forall|x: usize, k: int|
            x < ks.len() && !(#[trigger] order@.contains(x)) && 0 <= k < order@.len() implies ranks_before(
            ks,
            #[trigger] order@[k] as int,
            x as int,
        ) by {
            assert(full.contains(x));
            let m = choose|m: int| 0 <= m < full.len() && full[m] == x;
            if m < order@.len() {
                assert(order@[m] == x);
            }
            assert(order@[k] == full[k]);
            assert(ranks_before(ks, full[k] as int, full[m] as int));
        }
    }
    order
}

} // verus!
