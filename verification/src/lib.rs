//! Heterogeneous, typed key–value maps.
//!
//! Each key holds one value of a known type. Values use a compact sixteen-byte stored form;
//! strings, byte slices and other long payloads go to a per-map, append-only arena, so reads
//! hand out borrows without allocating.
//!
//! - [`VarMap`] is keyed by a precomputed 64-bit hash ([`Key`], [`var`]).
//! - [`StrVarMap`] is keyed by names, hashed with FNV-1a on each call.
//! - [`EnumVarMap`] is keyed by the variants of an enum, one slot each.
//!
//! Pools ([`VarMapPool`], [`StrVarMapPool`], [`EnumVarMapPool`]) hand out reusable maps behind
//! generational handles.

pub mod mem_align;
pub mod arena;
mod capacity;
pub mod value;
pub mod traits;
pub mod types;
pub mod var_map;
pub mod str_var_map;
pub mod enum_var_map;
pub mod keep_order;
pub mod pool;
pub mod derive;
pub mod laws;
pub mod value_laws;
pub mod hashing;
pub mod readonly;
pub mod shared;

pub use mem_align::MemAlign;
pub use arena::{Arena, ArenaIndex};
pub use value::{Value, ValueBuilder, ValueKind, Content};
pub use traits::{VarMapValue, EnumVarMapKey};
pub use types::numbers::{F32Bits, F64Bits};
pub use types::ip::{IpOctets, Ipv4Octets, Ipv6Octets};
pub use types::hashes::{Hash128, Hash160, Hash256, Hash384, Hash512};

pub use var_map::{Key, VarMap};
pub use readonly::Readonly;
pub use shared::{Poisoned, Shared};
pub use str_var_map::{StrVarMap, var};
pub use enum_var_map::EnumVarMap;
pub use keep_order::ClearStrategy;
pub use pool::{PoolHandle, VarMapPool, StrVarMapPool, EnumVarMapPool};
