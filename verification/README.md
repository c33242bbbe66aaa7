# varmap

Heterogeneous, typed key–value maps, verified with Verus.

Each key holds one value of a known type. Values are kept in a sixteen-byte stored form;
strings, byte slices, 128-bit integers, IPv6 addresses, hash digests and custom payloads go to a
per-map append-only arena, so reads return borrows (`&str`, `&[u8]`) without allocating.

- `VarMap`: keys are precomputed 64-bit hashes (`Key`, `var`); entries sit in a table sorted by
  hash and are found by binary search. At most 65 536 keys.
- `StrVarMap`: keys are names, hashed with FNV-1a on every call.
- `EnumVarMap<E>`: one slot per variant of an enum key.
- `VarMapPool`, `StrVarMapPool`, `EnumVarMapPool`: reusable maps behind generational handles,
  with clear strategies that keep the smallest, largest or closest-to-average maps.

## Layout

- `src/` — the library, verified by Verus. The contracts speak of each map's `contents()`, a map
  from key slot to the meaning (`Content`) of the stored value, and of its arena. `Shared`
  only tries its lock (`try_read`, `try_write`); what it hands out depends on other handles and
  threads and is not stated.
  `src/laws.rs` states the properties that span several operations (a read after a write gives
  back what was written, checkouts never disturb live handles, …).
- `src/derive.rs` — the checks behind the derive and key macros, over a plain token model.
- `tests/` — tests of the library.
- `app/` — the demo and benchmark program, std network and floating-point conversions, the
  proc-macro token adapters, and blocking `read`/`write` on a `Shared` handle.
