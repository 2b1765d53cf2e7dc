//! Hash tables of the standard library that use the accumulator as their
//! hashing strategy. They add nothing to the collections they name.
use vstd::prelude::*;
use crate::hasher::ZwoHasher;

verus! {

/// A `std::collections::HashMap` that hashes its keys with [`ZwoHasher`].
pub type HashMap<K, V> = std::collections::HashMap<
    K,
    V,
    core::hash::BuildHasherDefault<ZwoHasher>,
>;

/// A `std::collections::HashSet` that hashes its values with [`ZwoHasher`].
pub type HashSet<V> = std::collections::HashSet<V, core::hash::BuildHasherDefault<ZwoHasher>>;

} // verus!
