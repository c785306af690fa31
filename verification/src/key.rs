//! Resource keys: the identifiers by which data is requested and routed.

use vstd::prelude::*;

verus! {

/// A top-level collection of related resource keys.
#[derive(Clone, Copy, Debug, PartialEq, Eq, Hash, Structural)]
pub enum ResourceCategory {
    Core,
    DateTime,
    Decimal,
    LocaleCanonicalizer,
    Plurals,
    TimeZone,
    UnicodeSet,
    /// A category outside the common ones, named by up to four ASCII bytes
    /// packed into an integer, the first byte lowest.
    PrivateUse(u32),
}

/// A category, a sub-category and a version: the name of one kind of data.
///
/// The sub-category is a short ASCII name of up to sixteen bytes, packed into
/// an integer with the first byte lowest. Two keys are the same key exactly
/// when all three fields agree.
#[derive(Clone, Copy, Debug, PartialEq, Eq, Hash, Structural)]
pub struct ResourceKey {
    pub category: ResourceCategory,
    pub sub_category: u128,
    pub version: u16,
}

/// Whether two declared key sets have no key in common.
pub open spec fn disjoint(a: Seq<ResourceKey>, b: Seq<ResourceKey>) -> bool {
    forall|k: ResourceKey| !(a.contains(k) && b.contains(k))
}

/// Whether `key` is one of `keys`.
pub fn contains_key(keys: &Vec<ResourceKey>, key: &ResourceKey) -> (found: bool)
    ensures
        found == keys@.contains(*key),
{
    let mut i: usize = 0;
    while i < keys.len()
        invariant
            i <= keys.len(),
            forall|j: int| 0 <= j < i ==> keys@[j] != *key,
        decreases keys.len() - i,
    {
        if keys[i] == *key {
            return true;
        }
        i += 1;
    }
    false
}

} // verus!
