//! The CLDR domains and the keys that each of them declares.

use vstd::prelude::*;
use crate::key::{ResourceCategory, ResourceKey};

verus! {

/// `aliases`
pub const ALIASES: u128 = 0x0073_6573_6169_6c61;

/// `likelysubtags`
pub const LIKELY_SUBTAGS: u128 = 0x0073_6761_7462_7573_796c_656b_696c;

/// `gregory_symbols`
pub const GREGORY_SYMBOLS: u128 = 0x0073_6c6f_626d_7973_5f79_726f_6765_7267;

/// `gregory_lengths`
pub const GREGORY_LENGTHS: u128 = 0x0073_6874_676e_656c_5f79_726f_6765_7267;

/// `symbols`
pub const SYMBOLS: u128 = 0x0073_6c6f_626d_7973;

/// `cardinal`
pub const CARDINAL: u128 = 0x6c61_6e69_6472_6163;

/// `ordinal`
pub const ORDINAL: u128 = 0x006c_616e_6964_726f;

/// `formats`
pub const FORMATS: u128 = 0x0073_7461_6d72_6f66;

/// `exemplar_cities`
pub const EXEMPLAR_CITIES: u128 = 0x0073_6569_7469_635f_7261_6c70_6d65_7865;

/// `generic_long`
pub const GENERIC_LONG: u128 = 0x676e_6f6c_5f63_6972_656e_6567;

/// `generic_short`
pub const GENERIC_SHORT: u128 = 0x0074_726f_6873_5f63_6972_656e_6567;

/// `specific_long`
pub const SPECIFIC_LONG: u128 = 0x0067_6e6f_6c5f_6369_6669_6365_7073;

/// `specific_short`
pub const SPECIFIC_SHORT: u128 = 0x7472_6f68_735f_6369_6669_6365_7073;

/// The number of CLDR domains.
pub const DOMAIN_COUNT: usize = 7;

/// The data domains that are transformed from CLDR, in the order in which
/// the registry consults them.
#[derive(Clone, Copy, Debug, PartialEq, Eq, Hash, Structural)]
pub enum CldrDomain {
    Aliases,
    DateSymbols,
    DatePatterns,
    LikelySubtags,
    Numbers,
    Plurals,
    TimeZones,
}

/// Version 1 of the key `sub_category` in `category`.
pub open spec fn v1(category: ResourceCategory, sub_category: u128) -> ResourceKey {
    ResourceKey { category, sub_category, version: 1 }
}

impl CldrDomain {
    /// The place of the domain in the registry's order.
    pub open spec fn position(self) -> int {
        match self {
            CldrDomain::Aliases => 0,
            CldrDomain::DateSymbols => 1,
            CldrDomain::DatePatterns => 2,
            CldrDomain::LikelySubtags => 3,
            CldrDomain::Numbers => 4,
            CldrDomain::Plurals => 5,
            CldrDomain::TimeZones => 6,
        }
    }

    /// The domain at place `i` of the registry's order.
    pub open spec fn at(i: int) -> Option<CldrDomain> {
        if i == 0 {
            Some(CldrDomain::Aliases)
        } else if i == 1 {
            Some(CldrDomain::DateSymbols)
        } else if i == 2 {
            Some(CldrDomain::DatePatterns)
        } else if i == 3 {
            Some(CldrDomain::LikelySubtags)
        } else if i == 4 {
            Some(CldrDomain::Numbers)
        } else if i == 5 {
            Some(CldrDomain::Plurals)
        } else if i == 6 {
            Some(CldrDomain::TimeZones)
        } else {
            None
        }
    }

    /// The keys that the domain declares.
    pub open spec fn declared(self) -> Seq<ResourceKey> {
        match self {
            CldrDomain::Aliases => seq![v1(ResourceCategory::LocaleCanonicalizer, ALIASES)],
            CldrDomain::DateSymbols => seq![v1(ResourceCategory::DateTime, GREGORY_SYMBOLS)],
            CldrDomain::DatePatterns => seq![v1(ResourceCategory::DateTime, GREGORY_LENGTHS)],
            CldrDomain::LikelySubtags => seq![
                v1(ResourceCategory::LocaleCanonicalizer, LIKELY_SUBTAGS),
            ],
            CldrDomain::Numbers => seq![v1(ResourceCategory::Decimal, SYMBOLS)],
            CldrDomain::Plurals => seq![
                v1(ResourceCategory::Plurals, CARDINAL),
                v1(ResourceCategory::Plurals, ORDINAL),
            ],
            CldrDomain::TimeZones => seq![
                v1(ResourceCategory::TimeZone, FORMATS),
                v1(ResourceCategory::TimeZone, EXEMPLAR_CITIES),
                v1(ResourceCategory::TimeZone, GENERIC_LONG),
                v1(ResourceCategory::TimeZone, GENERIC_SHORT),
                v1(ResourceCategory::TimeZone, SPECIFIC_LONG),
                v1(ResourceCategory::TimeZone, SPECIFIC_SHORT),
            ],
        }
    }

    /// The domain that a key belongs to by its category and sub-category.
    pub open spec fn home(key: ResourceKey) -> Option<CldrDomain> {
        match key.category {
            ResourceCategory::LocaleCanonicalizer => if key.sub_category == ALIASES {
                Some(CldrDomain::Aliases)
            } else if key.sub_category == LIKELY_SUBTAGS {
                Some(CldrDomain::LikelySubtags)
            } else {
                None
            },
            ResourceCategory::DateTime => if key.sub_category == GREGORY_SYMBOLS {
                Some(CldrDomain::DateSymbols)
            } else if key.sub_category == GREGORY_LENGTHS {
                Some(CldrDomain::DatePatterns)
            } else {
                None
            },
            ResourceCategory::Decimal => Some(CldrDomain::Numbers),
            ResourceCategory::Plurals => Some(CldrDomain::Plurals),
            ResourceCategory::TimeZone => Some(CldrDomain::TimeZones),
            _ => None,
        }
    }

    /// The place of the domain in the registry's order.
    pub fn index(self) -> (i: usize)
        ensures
            i == self.position(),
            i < DOMAIN_COUNT,
            Self::at(i as int) == Some(self),
    {
        match self {
            CldrDomain::Aliases => 0,
            CldrDomain::DateSymbols => 1,
            CldrDomain::DatePatterns => 2,
            CldrDomain::LikelySubtags => 3,
            CldrDomain::Numbers => 4,
            CldrDomain::Plurals => 5,
            CldrDomain::TimeZones => 6,
        }
    }

    /// The domain at place `i` of the registry's order, if `i` is a place.
    pub fn from_index(i: usize) -> (domain: Option<CldrDomain>)
        ensures
            domain == Self::at(i as int),
            domain is Some <==> i < DOMAIN_COUNT,
            domain is Some ==> domain.unwrap().position() == i,
    {
        if i == 0 {
            Some(CldrDomain::Aliases)
        } else if i == 1 {
            Some(CldrDomain::DateSymbols)
        } else if i == 2 {
            Some(CldrDomain::DatePatterns)
        } else if i == 3 {
            Some(CldrDomain::LikelySubtags)
        } else if i == 4 {
            Some(CldrDomain::Numbers)
        } else if i == 5 {
            Some(CldrDomain::Plurals)
        } else if i == 6 {
            Some(CldrDomain::TimeZones)
        } else {
            None
        }
    }

    /// The keys that the domain declares.
    pub fn all_keys(self) -> (keys: Vec<ResourceKey>)
        ensures
            keys@ == self.declared(),
    {
        let mut keys: Vec<ResourceKey> = Vec::new();
        match self {
            CldrDomain::Aliases => {
                keys.push(key_v1(ResourceCategory::LocaleCanonicalizer, ALIASES));
            },
            CldrDomain::DateSymbols => {
                keys.push(key_v1(ResourceCategory::DateTime, GREGORY_SYMBOLS));
            },
            CldrDomain::DatePatterns => {
                keys.push(key_v1(ResourceCategory::DateTime, GREGORY_LENGTHS));
            },
            CldrDomain::LikelySubtags => {
                keys.push(key_v1(ResourceCategory::LocaleCanonicalizer, LIKELY_SUBTAGS));
            },
            CldrDomain::Numbers => {
                keys.push(key_v1(ResourceCategory::Decimal, SYMBOLS));
            },
            CldrDomain::Plurals => {
                keys.push(key_v1(ResourceCategory::Plurals, CARDINAL));
                keys.push(key_v1(ResourceCategory::Plurals, ORDINAL));
            },
            CldrDomain::TimeZones => {
                keys.push(key_v1(ResourceCategory::TimeZone, FORMATS));
                keys.push(key_v1(ResourceCategory::TimeZone, EXEMPLAR_CITIES));
                keys.push(key_v1(ResourceCategory::TimeZone, GENERIC_LONG));
                keys.push(key_v1(ResourceCategory::TimeZone, GENERIC_SHORT));
                keys.push(key_v1(ResourceCategory::TimeZone, SPECIFIC_LONG));
                keys.push(key_v1(ResourceCategory::TimeZone, SPECIFIC_SHORT));
            },
        }
        proof {
            assert(keys@ =~= self.declared());
        }
        keys
    }

    /// Every declared key has its domain as its home, so no key is declared
    /// by two domains.
    pub proof fn lemma_declared_at_home(self, key: ResourceKey)
        requires
            self.declared().contains(key),
        ensures
            Self::home(key) == Some(self),
    {
        let n = choose|n: int| 0 <= n < self.declared().len() && self.declared()[n] == key;
        assert(self.declared()[n] == key);
    }
}

fn key_v1(category: ResourceCategory, sub_category: u128) -> (key: ResourceKey)
    ensures
        key == v1(category, sub_category),
{
    ResourceKey { category, sub_category, version: 1 }
}

/// Every key that the CLDR domains declare, domain after domain.
pub open spec fn cldr_keys() -> Seq<ResourceKey> {
    CldrDomain::Aliases.declared() + CldrDomain::DateSymbols.declared()
        + CldrDomain::DatePatterns.declared() + CldrDomain::LikelySubtags.declared()
        + CldrDomain::Numbers.declared() + CldrDomain::Plurals.declared()
        + CldrDomain::TimeZones.declared()
}

/// Returns a list of all the keys that the CLDR domains can produce. This is
/// read off the declarations: no data is touched.
pub fn get_all_cldr_keys() -> (result: Vec<ResourceKey>)
    ensures
        result@ == cldr_keys(),
        result@.len() == 13,
{
    let mut result: Vec<ResourceKey> = Vec::new();
    extend(&mut result, &CldrDomain::Aliases.all_keys());
    extend(&mut result, &CldrDomain::DateSymbols.all_keys());
    extend(&mut result, &CldrDomain::DatePatterns.all_keys());
    extend(&mut result, &CldrDomain::LikelySubtags.all_keys());
    extend(&mut result, &CldrDomain::Numbers.all_keys());
    extend(&mut result, &CldrDomain::Plurals.all_keys());
    extend(&mut result, &CldrDomain::TimeZones.all_keys());
    proof {
        assert(result@ =~= cldr_keys());
    }
    result
}

/// Appends `more` to `keys`.
pub(crate) fn extend(keys: &mut Vec<ResourceKey>, more: &Vec<ResourceKey>)
    ensures
        final(keys)@ == old(keys)@ + more@,
{
    let mut n: usize = 0;
    while n < more.len()
        invariant
            n <= more.len(),
            keys@ == old(keys)@ + more@.take(n as int),
        decreases more.len() - n,
    {
        keys.push(more[n]);
        proof {
            assert(more@.take(n + 1) == more@.take(n as int).push(more@[n as int]));
        }
        n += 1;
    }
    proof {
        assert(more@.take(n as int) == more@);
    }
}

} // verus!
