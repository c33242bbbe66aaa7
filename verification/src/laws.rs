use vstd::prelude::*;
use crate::arena::{Arena, ArenaIndex};
use crate::keep_order::{ClearStrategy, is_first_ranked, spec_keys, spec_abs_diff, spec_average, spec_sum};
use crate::mem_align::spec_from_align;
use crate::pool::{Pool, Poolable, PoolHandle};
use crate::traits::{EnumVarMapKey, VarMapValue};
use crate::var_map::{Key, key_slot};
use crate::value::Content;
use crate::derive::{Token, Delimiter, DeriveError, spec_var_name, hashes_from, lemma_unescape_plain, spec_value_header,
    spec_value_derive, spec_enum_header, spec_enum_derive, spec_is_repr_u16, is_punct, is_ident, is_group};
use crate::hashing::spec_fnv1a;
use crate::str_var_map::name_slot;
use vstd::utf8::encode_utf8;

verus! {

/// Reading a key right after writing `x` to it succeeds as `x`'s type and hands out what was
/// written; every other key reads as before. This holds of the contents of all three map types,
/// whose `set` leaves `after == before.insert(slot, x.content())` with `x`'s type accepting it.
pub proof fn law_read_after_write<K, T: VarMapValue>(
    before: Map<K, Content>,
    after: Map<K, Content>,
    slot: K,
    x: T,
    other: K,
)
    requires
        after == before.insert(slot, x.content()),
        T::accepts(x.content()),
        other != slot,
    ensures
        after.contains_key(slot),
        T::accepts(after[slot]),
        after[slot] == x.content(),
        after.contains_key(other) == before.contains_key(other),
        before.contains_key(other) ==> after[other] == before[other],
{
}

/// Two writes to the same key leave what the second wrote.
pub proof fn law_last_write_wins<K, T: VarMapValue, U: VarMapValue>(
    start: Map<K, Content>,
    mid: Map<K, Content>,
    end: Map<K, Content>,
    slot: K,
    x: T,
    y: U,
)
    requires
        mid == start.insert(slot, x.content()),
        end == mid.insert(slot, y.content()),
    ensures
        end == start.insert(slot, y.content()),
{
    assert(end =~= start.insert(slot, y.content()));
}

/// A key literal `"name"`, written without escapes, names the same key as the name itself
/// hashed at run time.
pub proof fn law_literal_key_matches_name(ts: Seq<Token>, lit: String, name: Seq<char>)
    requires
        ts == seq![Token::Literal(lit)],
        encode_utf8(lit@) == seq![0x22u8] + encode_utf8(name) + seq![0x22u8],
        encode_utf8(name).len() > 0,
        !encode_utf8(name).contains(0x5cu8),
    ensures
        spec_var_name(ts) == Ok::<Seq<u8>, DeriveError>(encode_utf8(name)),
        key_slot(Key { hash: spec_fnv1a(encode_utf8(name)) }) == name_slot(encode_utf8(name)),
{
    let b = encode_utf8(lit@);
    let nb = encode_utf8(name);
    assert(ts[0] is Literal);
    assert(b.subrange(1, b.len() - 1) =~= nb);
    assert forall|j: int| 0 <= j < nb.len() implies nb[j] != 0x5cu8 by {
        if nb[j] == 0x5cu8 {
            assert(nb.contains(0x5cu8));
        }
    }
    lemma_unescape_plain(nb, 0);
    assert(nb.subrange(0, nb.len() as int) =~= nb);
}

/// A raw key literal `r"name"` names the same key as the name itself hashed at run time,
/// whatever the name holds.
pub proof fn law_raw_literal_key_matches_name(ts: Seq<Token>, lit: String, name: Seq<char>)
    requires
        ts == seq![Token::Literal(lit)],
        encode_utf8(lit@) == seq![0x72u8, 0x22u8] + encode_utf8(name) + seq![0x22u8],
        encode_utf8(name).len() > 0,
    ensures
        spec_var_name(ts) == Ok::<Seq<u8>, DeriveError>(encode_utf8(name)),
{
    let b = encode_utf8(lit@);
    let nb = encode_utf8(name);
    assert(ts[0] is Literal);
    assert(b[1] == 0x22u8);
    assert(hashes_from(b, 1) == 0);
    assert(b.subrange(2, b.len() - 1) =~= nb);
}

/// Keys name the same entry exactly when their hashes agree on the upper 48 bits.
pub proof fn law_key_aliasing(a: Key, b: Key)
    ensures
        (key_slot(a) == key_slot(b)) == (a.hash >> 16u64 == b.hash >> 16u64),
{
    let x = a.hash;
    let y = b.hash;
    assert(((x & 0xFFFF_FFFF_FFFF_0000u64) == (y & 0xFFFF_FFFF_FFFF_0000u64)) == (x >> 16u64 == y >> 16u64))
        by (bit_vector);
}

/// A stored unsigned byte reads back as the same byte.
pub proof fn law_u8_round_trip(x: u8, d: u8)
    requires
        <u8 as VarMapValue>::decoded_content(d) == x.content(),
    ensures
        d == x,
{
}

/// A stored 128-bit integer reads back as the same integer.
pub proof fn law_i128_round_trip(x: i128, d: i128)
    requires
        <i128 as VarMapValue>::decoded_content(d) == x.content(),
    ensures
        d == x,
{
}

/// A stored string reads back as a string with the same UTF-8 bytes, however long, and every
/// string can be read back.
pub proof fn law_str_round_trip(x: &str, d: &str)
    requires
        <&str as VarMapValue>::decoded_content(d) == x.content(),
    ensures
        <&str as VarMapValue>::accepts(x.content()),
        vstd::string::StringSliceAdditionalSpecFns::spec_bytes(d)
            == vstd::string::StringSliceAdditionalSpecFns::spec_bytes(x),
{
    vstd::utf8::encode_utf8_valid_utf8(x@);
}

/// A payload stays readable, with the same bytes, after the arena grows.
pub proof fn law_arena_append_only(before: Arena, after: Arena, index: ArenaIndex)
    requires
        before.wf(),
        after.extends(&before),
        before.holds(index),
    ensures
        after.holds(index),
        after.region(index) == before.region(index),
{
    assert(after.region(index) =~= after.bytes().subrange(0, before.used() as int).subrange(
        index.offset as int,
        index.end(),
    ));
    assert(before.region(index) =~= before.bytes().subrange(0, before.used() as int).subrange(
        index.offset as int,
        index.end(),
    ));
}

/// An alignment from 1 to 16 bytes is served by the smallest supported power of two that
/// covers it.
pub proof fn law_from_align_covers(align: int)
    requires
        1 <= align <= 16,
    ensures
        spec_from_align(align) matches Some(m) && align <= m.spec_bytes() < 2 * align,
{
}

/// Checking out a map never disturbs a live handle: the new handle differs from it, and it
/// still refers to the same map.
pub proof fn law_allocate_keeps_live<T: Poolable>(pre: Pool<T>, post: Pool<T>, h: PoolHandle, other: PoolHandle)
    requires
        Pool::allocated(pre, post, h),
        pre.live(other),
    ensures
        other.spec_index() != h.spec_index(),
        post.live(other),
        post.map_of(other) == pre.map_of(other),
{
}

/// A stale handle stays stale across a checkout, as long as the pool has not come round to
/// minting its generation again.
pub proof fn law_stale_after_allocate<T: Poolable>(pre: Pool<T>, post: Pool<T>, h: PoolHandle, stale: PoolHandle)
    requires
        Pool::allocated(pre, post, h),
        !pre.live(stale),
        stale.spec_unique_id() != pre.next_id(),
    ensures
        !post.live(stale),
{
    if stale.spec_index() < pre.slots().len() && stale.spec_index() != h.spec_index() {
        assert(post.slots()[stale.spec_index() as int] == pre.slots()[stale.spec_index() as int]);
    }
}

/// A stale handle stays stale when any handle is released.
pub proof fn law_stale_after_release<T: Poolable>(pre: Pool<T>, post: Pool<T>, h: PoolHandle, stale: PoolHandle)
    requires
        Pool::released(pre, post, h),
        !pre.live(stale),
    ensures
        !post.live(stale),
{
    if pre.live(h) && stale.spec_index() < pre.slots().len() && stale.spec_index() != h.spec_index() {
        assert(post.slots()[stale.spec_index() as int] == pre.slots()[stale.spec_index() as int]);
    }
}

/// A stale handle stays stale when another handle's map is written through `get_mut`.
pub proof fn law_stale_after_write<T: Poolable>(pre: Pool<T>, post: Pool<T>, h: PoolHandle, m: T, stale: PoolHandle)
    requires
        pre.live(h),
        post.slots() == pre.slots().update(h.spec_index() as int, (h.spec_unique_id(), m)),
        !pre.live(stale),
    ensures
        !post.live(stale),
{
}

/// After a clear, no handle the pool ever minted is live.
pub proof fn law_clear_invalidates<T: Poolable>(pre: Pool<T>, post: Pool<T>, s: ClearStrategy, h: PoolHandle)
    requires
        Pool::cleared(pre, post, s),
    ensures
        !post.live(h),
{
}

/// Writing one slot of an [`crate::enum_var_map::EnumVarMap`] leaves every key with another
/// slot index as it was.
pub proof fn law_enum_keys_independent<E: EnumVarMapKey>(
    before: Map<int, Content>,
    after: Map<int, Content>,
    written: E,
    x: Content,
    other: E,
)
    requires
        after == before.insert(written.spec_index() as int, x),
        other.spec_index() != written.spec_index(),
    ensures
        after.contains_key(other.spec_index() as int) == before.contains_key(other.spec_index() as int),
        after[other.spec_index() as int] == before[other.spec_index() as int],
{
}

/// Releasing a handle makes it, and any copy of it, stale; other live handles keep their maps.
pub proof fn law_release_invalidates<T: Poolable>(pre: Pool<T>, post: Pool<T>, h: PoolHandle, other: PoolHandle)
    requires
        Pool::released(pre, post, h),
        pre.live(other),
        other.spec_index() != h.spec_index(),
    ensures
        !post.live(h),
        post.live(other),
        post.map_of(other) == pre.map_of(other),
{
}

/// Keeping the largest maps keeps none smaller than a map that is dropped.
pub proof fn law_keep_largest(sizes: Seq<usize>, n: u32, order: Seq<usize>, count: nat, k: int, dropped: usize)
    requires
        is_first_ranked(spec_keys(sizes, ClearStrategy::KeepLargestN(n)), order, count),
        0 <= k < order.len(),
        dropped < sizes.len(),
        !order.contains(dropped),
    ensures
        sizes[order[k] as int] >= sizes[dropped as int],
{
    let keys = spec_keys(sizes, ClearStrategy::KeepLargestN(n));
    assert(crate::keep_order::ranks_before(keys, order[k] as int, dropped as int));
}

/// Keeping the smallest maps keeps none larger than a map that is dropped.
pub proof fn law_keep_smallest(sizes: Seq<usize>, n: u32, order: Seq<usize>, count: nat, k: int, dropped: usize)
    requires
        is_first_ranked(spec_keys(sizes, ClearStrategy::KeepSmallestN(n)), order, count),
        0 <= k < order.len(),
        dropped < sizes.len(),
        !order.contains(dropped),
    ensures
        sizes[order[k] as int] <= sizes[dropped as int],
{
    let keys = spec_keys(sizes, ClearStrategy::KeepSmallestN(n));
    assert(crate::keep_order::ranks_before(keys, order[k] as int, dropped as int));
}

/// Keeping the maps closest to the mean keeps none further from it than a map that is dropped.
pub proof fn law_keep_closest(sizes: Seq<usize>, n: u32, order: Seq<usize>, count: nat, k: int, dropped: usize)
    requires
        is_first_ranked(spec_keys(sizes, ClearStrategy::KeepNClosestToAverage(n)), order, count),
        0 <= k < order.len(),
        dropped < sizes.len(),
        !order.contains(dropped),
    ensures
        spec_abs_diff(sizes[order[k] as int] as int, spec_average(sizes)) <= spec_abs_diff(
            sizes[dropped as int] as int,
            spec_average(sizes),
        ),
{
    let keys = spec_keys(sizes, ClearStrategy::KeepNClosestToAverage(n));
    assert(crate::keep_order::ranks_before(keys, order[k] as int, dropped as int));
}

/// An item whose header is `struct Name` or `enum Name`, not followed by generic parameters,
/// derives a map value named by the token after the keyword.
pub proof fn law_value_derive_struct_or_enum(kw: String, name: String, rest: Seq<Token>)
    requires
        kw@ == "struct"@ || kw@ == "enum"@,
        !(rest.len() > 0 && is_punct(rest[0], '<')),
    ensures
        spec_value_derive(seq![Token::Ident(kw), Token::Ident(name)] + rest) == Ok::<nat, DeriveError>(1),
{
    reveal_strlit("pub");
    reveal_strlit("struct");
    reveal_strlit("enum");
    let ts = seq![Token::Ident(kw), Token::Ident(name)] + rest;
    assert(ts[0] == Token::Ident(kw));
    assert(ts[1] == Token::Ident(name));
    assert("pub"@.len() == 3 && "enum"@.len() == 4 && "struct"@.len() == 6);
    assert(kw@ != "pub"@);
    assert(spec_value_header(ts, 0) == Ok::<nat, DeriveError>(1));
    if ts.len() > 2 {
        assert(ts[2] == rest[0]);
    }
}

/// Attributes and visibility before `struct Name` or `enum Name` do not change which type
/// the value derive names.
pub proof fn law_value_derive_skips_prefix(pre: Seq<Token>, kw: String, name: String, rest: Seq<Token>)
    requires
        kw@ == "struct"@ || kw@ == "enum"@,
        !(rest.len() > 0 && is_punct(rest[0], '<')),
        (pre.len() == 2 && is_punct(pre[0], '#') && is_group(pre[1], Delimiter::Bracket)) || (pre.len() == 1
            && is_ident(pre[0], "pub"@)) || (pre.len() == 2 && is_ident(pre[0], "pub"@) && is_group(
            pre[1],
            Delimiter::Parenthesis,
        )),
    ensures
        spec_value_derive(pre + seq![Token::Ident(kw), Token::Ident(name)] + rest) == Ok::<nat, DeriveError>(
            pre.len() + 1,
        ),
{
    reveal_strlit("pub");
    reveal_strlit("struct");
    reveal_strlit("enum");
    let ts = pre + seq![Token::Ident(kw), Token::Ident(name)] + rest;
    let k = pre.len();
    assert(ts[0] == pre[0]);
    if k == 2 {
        assert(ts[1] == pre[1]);
    }
    assert(ts[k as int] == Token::Ident(kw));
    assert(ts[k + 1int] == Token::Ident(name));
    assert("pub"@.len() == 3 && "enum"@.len() == 4 && "struct"@.len() == 6);
    assert(kw@ != "pub"@);
    assert(spec_value_header(ts, k) == Ok::<nat, DeriveError>(k + 1));
    assert(spec_value_header(ts, 0) == Ok::<nat, DeriveError>(k + 1));
    if ts.len() > k + 2 {
        assert(ts[k + 2int] == rest[0]);
    }
}

/// Visibility (`pub` or `pub(..)`) between the attributes and `enum` does not change the enum
/// key derive: it names the same enum, with the same variant count, or fails the same way.
pub proof fn law_enum_key_visibility(attr: Token, vis: Seq<Token>, kw: String, name: String, rest: Seq<Token>)
    requires
        attr matches Token::Group(d, inner) && d == Delimiter::Bracket && spec_is_repr_u16(inner@),
        kw@ == "enum"@,
        vis.len() == 0 || (vis.len() == 1 && is_ident(vis[0], "pub"@)) || (vis.len() == 2 && is_ident(
            vis[0],
            "pub"@,
        ) && is_group(vis[1], Delimiter::Parenthesis)),
    ensures
        spec_enum_header(seq![Token::Punct('#'), attr] + seq![Token::Ident(kw), Token::Ident(name)] + rest, 0, false)
            == Ok::<(nat, bool), DeriveError>((3, true)),
        spec_enum_derive(seq![Token::Punct('#'), attr] + vis + seq![Token::Ident(kw), Token::Ident(name)] + rest)
            == (match spec_enum_derive(seq![Token::Punct('#'), attr] + seq![Token::Ident(kw), Token::Ident(name)] + rest) {
            Ok((i, n)) => Ok::<(nat, nat), DeriveError>((i + vis.len(), n)),
            Err(e) => Err::<(nat, nat), DeriveError>(e),
        }),
{
    reveal_strlit("pub");
    reveal_strlit("struct");
    reveal_strlit("enum");
    let a = seq![Token::Punct('#'), attr];
    let b = seq![Token::Ident(kw), Token::Ident(name)] + rest;
    let with = a + vis + b;
    let without = a + b;
    assert(without =~= seq![Token::Punct('#'), attr] + seq![Token::Ident(kw), Token::Ident(name)] + rest);
    assert(with =~= seq![Token::Punct('#'), attr] + vis + seq![Token::Ident(kw), Token::Ident(name)] + rest);
    let v = vis.len();
    assert("pub"@.len() == 3 && "enum"@.len() == 4 && "struct"@.len() == 6);
    assert(kw@ != "pub"@);
    assert(without[0] == Token::Punct('#'));
    assert(without[1] == attr);
    assert(without[2] == Token::Ident(kw));
    assert(spec_enum_header(without, 2, true) == Ok::<(nat, bool), DeriveError>((3, true)));
    assert(spec_enum_header(without, 0, false) == Ok::<(nat, bool), DeriveError>((3, true)));
    assert(with[0] == Token::Punct('#'));
    assert(with[1] == attr);
    assert(with[2 + v as int] == Token::Ident(kw));
    assert(spec_enum_header(with, 2 + v, true) == Ok::<(nat, bool), DeriveError>((3 + v, true)));
    if v >= 1 {
        assert(with[2] == vis[0]);
    }
    if v == 2 {
        assert(with[3] == vis[1]);
    }
    if v == 1 {
        assert(with[3] == Token::Ident(kw));
    }
    assert(spec_enum_header(with, 2, true) == Ok::<(nat, bool), DeriveError>((3 + v, true)));
    assert(spec_enum_header(with, 0, false) == Ok::<(nat, bool), DeriveError>((3 + v, true)));
    assert(with.len() == without.len() + v);
    assert(with[3 + v as int] == without[3]);
    if without.len() > 4 {
        assert(with[4 + v as int] == without[4]);
    }
}

/// The total the closest-to-mean strategy ranks by adds the sizes up: nothing for no maps,
/// and one more map adds its size.
pub proof fn law_sum_adds_up(sizes: Seq<usize>, x: usize)
    ensures
        spec_sum(Seq::<usize>::empty()) == 0,
        spec_sum(sizes.push(x)) == spec_sum(sizes) + x,
{
    assert(sizes.push(x).drop_last() =~= sizes);
}

/// The mean the closest-to-mean strategy ranks by is the total divided by the number of
/// maps, rounded down.
pub proof fn law_mean_rounds_down(sizes: Seq<usize>)
    requires
        sizes.len() > 0,
    ensures
        spec_average(sizes) * sizes.len() <= spec_sum(sizes),
        spec_sum(sizes) < (spec_average(sizes) + 1) * sizes.len(),
{
    let t = spec_sum(sizes) as int;
    let n = sizes.len() as int;
    vstd::arithmetic::div_mod::lemma_fundamental_div_mod(t, n);
    let q = t / n;
    let r = t % n;
    assert(q * n == n * q) by (nonlinear_arith);
    assert((q + 1) * n == q * n + n) by (nonlinear_arith);
}

/// Keeping the maps closest to the mean keeps none further from it than a dropped map, the
/// mean being any `avg` with `avg * len <= total < (avg + 1) * len`.
pub proof fn law_keep_closest_to_mean(
    sizes: Seq<usize>,
    n: u32,
    order: Seq<usize>,
    count: nat,
    k: int,
    dropped: usize,
    avg: int,
)
    requires
        is_first_ranked(spec_keys(sizes, ClearStrategy::KeepNClosestToAverage(n)), order, count),
        0 <= k < order.len(),
        dropped < sizes.len(),
        !order.contains(dropped),
        avg * sizes.len() <= spec_sum(sizes),
        spec_sum(sizes) < (avg + 1) * sizes.len(),
    ensures
        spec_abs_diff(sizes[order[k] as int] as int, avg) <= spec_abs_diff(sizes[dropped as int] as int, avg),
{
    law_mean_rounds_down(sizes);
    let a = spec_average(sizes);
    let t = spec_sum(sizes) as int;
    let len = sizes.len() as int;
    assert(a == avg) by (nonlinear_arith)
        requires
            a * len <= t < (a + 1) * len,
            avg * len <= t < (avg + 1) * len,
            len > 0,
    ;
    law_keep_closest(sizes, n, order, count, k, dropped);
}

} // verus!
