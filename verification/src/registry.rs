//! The pool registry: one arena of constant-product pairs, and for each of the
//! two concentrated-liquidity families one arena per tier. A pool is found by
//! its identifier and addressed by its location, the tier and the place in
//! that tier's arena, which it keeps for as long as it is held.

use crate::messages::PoolIdentifier;
use crate::pools::{
    same_address,
    same_identifier,
    tier_admits,
    tier_holds,
    ConcentratedPool,
    Tier,
    V2Pool,
};
use crate::wide::U256;
use vstd::prelude::*;

verus! {

/// The two families of concentrated-liquidity pools.
#[derive(Clone, Copy, Debug, PartialEq, Eq, Structural)]
pub enum Family {
    /// Pools known by a 20-byte address.
    V3,
    /// Pools known by a 32-byte pool id.
    V4,
}

/// Where a pool stands: the tier, and the place in that tier's arena. A
/// constant-product pair stands in the one arena of its kind, under `Low`.
#[derive(Clone, Copy, Debug, PartialEq, Eq, Structural)]
pub struct PoolLocation {
    pub tier: Tier,
    pub index: usize,
}

/// Why a pool was not admitted.
#[derive(Debug, PartialEq, Eq)]
pub enum RegistryError {
    /// A pool with this identifier is held already.
    DuplicatePool(PoolIdentifier),
    /// The pool has more ticks or bitmap words than the tier holds.
    TierCapacityExceeded(Tier),
    /// The identifier is not of the kind that the family uses.
    WrongIdentifierKind(PoolIdentifier),
}

/// Whether `identifier` is of the kind by which the pools of `family` are known.
pub open spec fn identifies(family: Family, identifier: PoolIdentifier) -> bool {
    match family {
        Family::V3 => identifier is Address,
        Family::V4 => identifier is PoolId,
    }
}

struct TierArenas {
    low: Vec<ConcentratedPool>,
    active: Vec<ConcentratedPool>,
    popular: Vec<ConcentratedPool>,
    major: Vec<ConcentratedPool>,
}

impl TierArenas {
    spec fn arena(&self, tier: Tier) -> Seq<ConcentratedPool> {
        match tier {
            Tier::Low => self.low@,
            Tier::Active => self.active@,
            Tier::Popular => self.popular@,
            Tier::Major => self.major@,
        }
    }

    fn empty() -> (arenas: TierArenas)
        ensures
            forall|tier: Tier| #[trigger] arenas.arena(tier) == Seq::<ConcentratedPool>::empty(),
    {
        TierArenas { low: Vec::new(), active: Vec::new(), popular: Vec::new(), major: Vec::new() }
    }

    fn arena_ref(&self, tier: Tier) -> (pools: &Vec<ConcentratedPool>)
        ensures
            pools@ == self.arena(tier),
    {
        match tier {
            Tier::Low => &self.low,
            Tier::Active => &self.active,
            Tier::Popular => &self.popular,
            Tier::Major => &self.major,
        }
    }

    fn arena_mut(&mut self, tier: Tier) -> (pools: &mut Vec<ConcentratedPool>)
        ensures
            pools@ == old(self).arena(tier),
            final(self).arena(tier) == final(pools)@,
            forall|other: Tier|
                other != tier ==> #[trigger] final(self).arena(other) == old(self).arena(other),
    {
        match tier {
            Tier::Low => &mut self.low,
            Tier::Active => &mut self.active,
            Tier::Popular => &mut self.popular,
            Tier::Major => &mut self.major,
        }
    }
}

/// The registry of pools.
pub struct PoolArenaRegistry {
    v2: Vec<V2Pool>,
    v3: TierArenas,
    v4: TierArenas,
}

impl PoolArenaRegistry {
    /// The arena of constant-product pairs.
    pub closed spec fn v2_pools(&self) -> Seq<V2Pool> {
        self.v2@
    }

    /// The arena of `family` for `tier`.
    pub closed spec fn pools(&self, family: Family, tier: Tier) -> Seq<ConcentratedPool> {
        match family {
            Family::V3 => self.v3.arena(tier),
            Family::V4 => self.v4.arena(tier),
        }
    }

    /// Whether `location` addresses a pool of `family`.
    pub open spec fn holds(&self, family: Family, location: PoolLocation) -> bool {
        location.index < self.pools(family, location.tier).len()
    }

    /// The pool of `family` at `location`.
    pub open spec fn pool_at(&self, family: Family, location: PoolLocation) -> ConcentratedPool
        recommends
            self.holds(family, location),
    {
        self.pools(family, location.tier)[location.index as int]
    }

    /// Whether `location` addresses the pool of `family` known by `identifier`.
    pub open spec fn stands_at(
        &self,
        family: Family,
        identifier: PoolIdentifier,
        location: PoolLocation,
    ) -> bool {
        self.holds(family, location) && self.pool_at(family, location).identifier == identifier
    }

    /// Where the pool of `family` known by `identifier` stands, if one is held.
    pub open spec fn locate(&self, family: Family, identifier: PoolIdentifier) -> Option<
        PoolLocation,
    > {
        if exists|location: PoolLocation| self.stands_at(family, identifier, location) {
            Some(choose|location: PoolLocation| self.stands_at(family, identifier, location))
        } else {
            None
        }
    }

    /// Whether place `index` of the arena of pairs holds the pair at `address`.
    pub open spec fn pair_stands_at(&self, address: [u8; 20], index: int) -> bool {
        0 <= index < self.v2_pools().len() && self.v2_pools()[index].address == address
    }

    /// The place of the pair at `address`, if one is held.
    pub open spec fn locate_pair(&self, address: [u8; 20]) -> Option<int> {
        if exists|index: int| self.pair_stands_at(address, index) {
            Some(choose|index: int| self.pair_stands_at(address, index))
        } else {
            None
        }
    }

    /// What holds of every registry: an arena holds no more pools than can be
    /// counted, no identifier is held twice, each pool is
    /// known by the kind of identifier that its family uses, and each fits the
    /// tier it stands in.
    pub open spec fn wf(&self) -> bool {
        &&& self.v2_pools().len() <= usize::MAX
        &&& forall|family: Family, tier: Tier| #[trigger]
            self.pools(family, tier).len() <= usize::MAX
        &&& forall|i: int, j: int|
            #![trigger self.v2_pools()[i], self.v2_pools()[j]]
            0 <= i < self.v2_pools().len() && 0 <= j < self.v2_pools().len()
                && self.v2_pools()[i].address == self.v2_pools()[j].address ==> i == j
        &&& forall|family: Family, a: PoolLocation, b: PoolLocation|
            #![trigger self.pool_at(family, a), self.pool_at(family, b)]
            self.holds(family, a) && self.holds(family, b) && self.pool_at(family, a).identifier
                == self.pool_at(family, b).identifier ==> a == b
        &&& forall|family: Family, a: PoolLocation| #[trigger]
            self.holds(family, a) ==> {
                let pool = self.pool_at(family, a);
                identifies(family, pool.identifier) && tier_holds(
                    a.tier,
                    pool.ticks@.len(),
                    pool.tick_bitmaps@.len(),
                )
            }
    }

    /// Whether `self` is `before` with the pool of `family` at `location`
    /// replaced by `pool`, and nothing else changed.
    pub open spec fn replaces(
        &self,
        before: &PoolArenaRegistry,
        family: Family,
        location: PoolLocation,
        pool: ConcentratedPool,
    ) -> bool {
        &&& self.v2_pools() == before.v2_pools()
        &&& forall|f: Family, t: Tier| #[trigger]
            self.pools(f, t) == if f == family && t == location.tier {
                before.pools(f, t).update(location.index as int, pool)
            } else {
                before.pools(f, t)
            }
    }

    /// Whether `self` is `before` with `pool` added at the end of the arena of
    /// `family` for `tier`, and nothing else changed.
    pub open spec fn extends(
        &self,
        before: &PoolArenaRegistry,
        family: Family,
        tier: Tier,
        pool: ConcentratedPool,
    ) -> bool {
        &&& self.v2_pools() == before.v2_pools()
        &&& forall|f: Family, t: Tier| #[trigger]
            self.pools(f, t) == if f == family && t == tier {
                before.pools(f, t).push(pool)
            } else {
                before.pools(f, t)
            }
    }

    /// Whether `self` holds the concentrated-liquidity pools that `before` holds.
    pub open spec fn same_concentrated(&self, before: &PoolArenaRegistry) -> bool {
        forall|f: Family, t: Tier| #[trigger] self.pools(f, t) == before.pools(f, t)
    }

    proof fn lemma_countable(&self)
        ensures
            self.v2_pools().len() <= usize::MAX,
            forall|family: Family, tier: Tier| #[trigger]
                self.pools(family, tier).len() <= usize::MAX,
    {
        assert forall|family: Family, tier: Tier| #[trigger]
            self.pools(family, tier).len() <= usize::MAX by {
            let arenas = if family == Family::V3 {
                self.v3
            } else {
                self.v4
            };
            assert(arenas.low.len() <= usize::MAX);
            assert(arenas.active.len() <= usize::MAX);
            assert(arenas.popular.len() <= usize::MAX);
            assert(arenas.major.len() <= usize::MAX);
        }
        assert(self.v2.len() <= usize::MAX);
    }

    /// A registry that holds no pool.
    pub fn new() -> (registry: PoolArenaRegistry)
        ensures
            registry.wf(),
            registry.v2_pools() == Seq::<V2Pool>::empty(),
            forall|f: Family, t: Tier| #[trigger]
                registry.pools(f, t) == Seq::<ConcentratedPool>::empty(),
    {
        PoolArenaRegistry { v2: Vec::new(), v3: TierArenas::empty(), v4: TierArenas::empty() }
    }

    /// The number of constant-product pairs held.
    pub fn v2_pool_count(&self) -> (count: usize)
        ensures
            count == self.v2_pools().len(),
    {
        self.v2.len()
    }

    /// The number of pools of `family` held in `tier`.
    pub fn pool_count(&self, family: Family, tier: Tier) -> (count: usize)
        ensures
            count == self.pools(family, tier).len(),
    {
        self.arena_ref(family, tier).len()
    }

    fn arena_ref(&self, family: Family, tier: Tier) -> (pools: &Vec<ConcentratedPool>)
        ensures
            pools@ == self.pools(family, tier),
    {
        match family {
            Family::V3 => self.v3.arena_ref(tier),
            Family::V4 => self.v4.arena_ref(tier),
        }
    }

    fn arena_mut(&mut self, family: Family, tier: Tier) -> (pools: &mut Vec<ConcentratedPool>)
        ensures
            pools@ == old(self).pools(family, tier),
            final(self).v2_pools() == old(self).v2_pools(),
            forall|f: Family, t: Tier| #[trigger]
                final(self).pools(f, t) == if f == family && t == tier {
                    final(pools)@
                } else {
                    old(self).pools(f, t)
                },
    {
        match family {
            Family::V3 => self.v3.arena_mut(tier),
            Family::V4 => self.v4.arena_mut(tier),
        }
    }

    /// Where the pair at `address` stands.
    pub fn get_v2_pool_location(&self, address: [u8; 20]) -> (location: Option<PoolLocation>)
        requires
            self.wf(),
        ensures
            location == match self.locate_pair(address) {
                Some(index) => Some(PoolLocation { tier: Tier::Low, index: index as usize }),
                None => None,
            },
    {
        let mut i: usize = 0;
        while i < self.v2.len()
            invariant
                self.wf(),
                i <= self.v2_pools().len(),
                self.v2@ == self.v2_pools(),
                forall|k: int| 0 <= k < i ==> !self.pair_stands_at(address, k),
            decreases self.v2_pools().len() - i,
        {
            if same_address(&self.v2[i].address, &address) {
                proof {
                    assert(self.pair_stands_at(address, i as int));
                    let j = choose|index: int| self.pair_stands_at(address, index);
                    assert(self.v2_pools()[i as int].address == self.v2_pools()[j].address);
                }
                return Some(PoolLocation { tier: Tier::Low, index: i });
            }
            i += 1;
        }
        None
    }

    fn find_in_tier(&self, family: Family, tier: Tier, identifier: &PoolIdentifier) -> (index:
        Option<usize>)
        ensures
            match index {
                Some(i) => self.stands_at(family, *identifier, PoolLocation { tier, index: i }),
                None => forall|location: PoolLocation|
                    location.tier == tier ==> !self.stands_at(family, *identifier, location),
            },
    {
        let arena = self.arena_ref(family, tier);
        let mut i: usize = 0;
        while i < arena.len()
            invariant
                i <= arena@.len(),
                arena@ == self.pools(family, tier),
                forall|k: int| 0 <= k < i ==> arena@[k].identifier != *identifier,
            decreases arena@.len() - i,
        {
            if same_identifier(&arena[i].identifier, identifier) {
                return Some(i);
            }
            i += 1;
        }
        None
    }

    /// Where the pool of `family` known by `identifier` stands.
    pub fn find(&self, family: Family, identifier: &PoolIdentifier) -> (location: Option<
        PoolLocation,
    >)
        requires
            self.wf(),
        ensures
            location == self.locate(family, *identifier),
            location matches Some(found) ==> self.stands_at(family, *identifier, found),
    {
        if let Some(index) = self.find_in_tier(family, Tier::Low, identifier) {
            let found = PoolLocation { tier: Tier::Low, index };
            assert(self.pool_at(family, found).identifier == *identifier);
            return Some(found);
        }
        if let Some(index) = self.find_in_tier(family, Tier::Active, identifier) {
            let found = PoolLocation { tier: Tier::Active, index };
            assert(self.pool_at(family, found).identifier == *identifier);
            return Some(found);
        }
        if let Some(index) = self.find_in_tier(family, Tier::Popular, identifier) {
            let found = PoolLocation { tier: Tier::Popular, index };
            assert(self.pool_at(family, found).identifier == *identifier);
            return Some(found);
        }
        if let Some(index) = self.find_in_tier(family, Tier::Major, identifier) {
            let found = PoolLocation { tier: Tier::Major, index };
            assert(self.pool_at(family, found).identifier == *identifier);
            return Some(found);
        }
        None
    }

    /// Where the V3 pool at `address` stands.
    pub fn get_v3_pool_location(&self, address: [u8; 20]) -> (location: Option<PoolLocation>)
        requires
            self.wf(),
        ensures
            location == self.locate(Family::V3, PoolIdentifier::Address(address)),
    {
        self.find(Family::V3, &PoolIdentifier::Address(address))
    }

    /// Where the V4 pool with `pool_id` stands.
    pub fn get_v4_pool_location(&self, pool_id: [u8; 32]) -> (location: Option<PoolLocation>)
        requires
            self.wf(),
        ensures
            location == self.locate(Family::V4, PoolIdentifier::PoolId(pool_id)),
    {
        self.find(Family::V4, &PoolIdentifier::PoolId(pool_id))
    }

    /// The pair at place `index`.
    pub fn v2_pool(&self, index: usize) -> (pool: &V2Pool)
        requires
            index < self.v2_pools().len(),
        ensures
            *pool == self.v2_pools()[index as int],
    {
        &self.v2[index]
    }

    /// Sets the reserves of the pair at place `index`.
    pub fn set_v2_reserves(&mut self, index: usize, reserve0: U256, reserve1: U256)
        requires
            old(self).wf(),
            index < old(self).v2_pools().len(),
        ensures
            final(self).wf(),
            final(self).v2_pools() == old(self).v2_pools().update(
                index as int,
                V2Pool { reserve0, reserve1, ..old(self).v2_pools()[index as int] },
            ),
            final(self).same_concentrated(old(self)),
    {
        let pair = &mut self.v2[index];
        pair.reserve0 = reserve0;
        pair.reserve1 = reserve1;
        proof {
            self.lemma_countable();
            let before = old(self).v2_pools();
            let after = self.v2_pools();
            assert(after =~= before.update(
                index as int,
                V2Pool { reserve0, reserve1, ..before[index as int] },
            ));
            assert forall|i: int, j: int|
                #![trigger after[i], after[j]]
                0 <= i < after.len() && 0 <= j < after.len() && after[i].address
                    == after[j].address implies i == j by {
                assert(before[i].address == before[j].address);
            }
            assert forall|family: Family, a: PoolLocation, b: PoolLocation|
                #![trigger self.pool_at(family, a), self.pool_at(family, b)]
                self.holds(family, a) && self.holds(family, b) && self.pool_at(
                    family,
                    a,
                ).identifier == self.pool_at(family, b).identifier implies a == b by {
                assert(self.pools(family, a.tier) == old(self).pools(family, a.tier));
                assert(self.pools(family, b.tier) == old(self).pools(family, b.tier));
                assert(old(self).pool_at(family, a).identifier == old(self).pool_at(
                    family,
                    b,
                ).identifier);
            }
            assert forall|family: Family, a: PoolLocation| #[trigger]
                self.holds(family, a) implies {
                let pool = self.pool_at(family, a);
                identifies(family, pool.identifier) && tier_holds(
                    a.tier,
                    pool.ticks@.len(),
                    pool.tick_bitmaps@.len(),
                )
            } by {
                assert(self.pools(family, a.tier) == old(self).pools(family, a.tier));
                assert(old(self).holds(family, a));
            }
        }
    }

    /// The pool of `family` at `location`.
    pub fn pool(&self, family: Family, location: PoolLocation) -> (pool: &ConcentratedPool)
        requires
            self.holds(family, location),
        ensures
            *pool == self.pool_at(family, location),
    {
        &self.arena_ref(family, location.tier)[location.index]
    }

    /// The pool of `family` at `location`, to be changed in place. The
    /// registry stays well formed as long as the pool keeps its identifier
    /// and the size of its tier.
    pub fn pool_mut(&mut self, family: Family, location: PoolLocation) -> (pool:
        &mut ConcentratedPool)
        requires
            old(self).holds(family, location),
        ensures
            *pool == old(self).pool_at(family, location),
            final(self).replaces(old(self), family, location, *final(pool)),
    {
        let arena = self.arena_mut(family, location.tier);
        &mut arena[location.index]
    }

    /// Admits `pool` to the arena of `family` for `tier`, at the end of it.
    /// Refused, in this order: an identifier of the wrong kind, an identifier
    /// that is held already, a pool too large for the tier.
    pub fn add_pool(&mut self, family: Family, tier: Tier, pool: ConcentratedPool) -> (result: Result<
        PoolLocation,
        RegistryError,
    >)
        requires
            old(self).wf(),
        ensures
            final(self).wf(),
            !identifies(family, pool.identifier) ==> result == Err::<PoolLocation, RegistryError>(
                RegistryError::WrongIdentifierKind(pool.identifier),
            ),
            identifies(family, pool.identifier) && old(self).locate(family, pool.identifier)
                is Some ==> result == Err::<PoolLocation, RegistryError>(
                RegistryError::DuplicatePool(pool.identifier),
            ),
            identifies(family, pool.identifier) && old(self).locate(family, pool.identifier)
                is None && !tier_holds(tier, pool.ticks@.len(), pool.tick_bitmaps@.len())
                ==> result == Err::<PoolLocation, RegistryError>(
                RegistryError::TierCapacityExceeded(tier),
            ),
            identifies(family, pool.identifier) && old(self).locate(family, pool.identifier)
                is None && tier_holds(tier, pool.ticks@.len(), pool.tick_bitmaps@.len())
                ==> result == Ok::<PoolLocation, RegistryError>(
                PoolLocation { tier, index: old(self).pools(family, tier).len() as usize },
            ) && final(self).extends(old(self), family, tier, pool) && final(self).locate(
                family,
                pool.identifier,
            ) == Some(PoolLocation { tier, index: old(self).pools(family, tier).len() as usize }),
            result is Err ==> *final(self) == *old(self),
    {
        let kind_fits = match (family, &pool.identifier) {
            (Family::V3, PoolIdentifier::Address(_)) => true,
            (Family::V4, PoolIdentifier::PoolId(_)) => true,
            _ => false,
        };
        if !kind_fits {
            return Err(RegistryError::WrongIdentifierKind(pool.identifier));
        }
        if self.find(family, &pool.identifier).is_some() {
            return Err(RegistryError::DuplicatePool(pool.identifier));
        }
        if !tier_admits(tier, pool.ticks.len(), pool.tick_bitmaps.len()) {
            return Err(RegistryError::TierCapacityExceeded(tier));
        }
        let ghost added = pool;
        let arena = self.arena_mut(family, tier);
        let index = arena.len();
        arena.push(pool);
        let location = PoolLocation { tier, index };
        proof {
            self.lemma_countable();
            assert(self.extends(old(self), family, tier, added));
            assert forall|f: Family, a: PoolLocation| #[trigger] self.holds(f, a) implies (if f
                == family && a == location {
                self.pool_at(f, a) == added
            } else {
                old(self).holds(f, a) && self.pool_at(f, a) == old(self).pool_at(f, a)
            }) by {
                assert(self.pools(f, a.tier) == if f == family && a.tier == tier {
                    old(self).pools(f, a.tier).push(added)
                } else {
                    old(self).pools(f, a.tier)
                });
            }
            assert forall|f: Family, a: PoolLocation, b: PoolLocation|
                #![trigger self.pool_at(f, a), self.pool_at(f, b)]
                self.holds(f, a) && self.holds(f, b) && self.pool_at(f, a).identifier
                    == self.pool_at(f, b).identifier implies a == b by {
                if f == family && a == location {
                    if b != location {
                        assert(old(self).stands_at(family, added.identifier, b));
                    }
                } else if f == family && b == location {
                    assert(old(self).stands_at(family, added.identifier, a));
                } else {
                    assert(old(self).pool_at(f, a).identifier == old(self).pool_at(
                        f,
                        b,
                    ).identifier);
                }
            }
            assert(self.stands_at(family, added.identifier, location));
            let chosen = choose|l: PoolLocation| self.stands_at(family, added.identifier, l);
            assert(self.pool_at(family, chosen).identifier == self.pool_at(
                family,
                location,
            ).identifier);
        }
        Ok(location)
    }

    /// Admits a constant-product pair, at the end of its arena. Refused where a
    /// pair at `address` is held already.
    pub fn add_uniswap_v2_pool(
        &mut self,
        address: [u8; 20],
        reserve0: U256,
        reserve1: U256,
        token0: [u8; 20],
        token1: [u8; 20],
    ) -> (result: Result<PoolLocation, RegistryError>)
        requires
            old(self).wf(),
        ensures
            final(self).wf(),
            final(self).same_concentrated(old(self)),
            old(self).locate_pair(address) is Some ==> result == Err::<
                PoolLocation,
                RegistryError,
            >(RegistryError::DuplicatePool(PoolIdentifier::Address(address))) && *final(self)
                == *old(self),
            old(self).locate_pair(address) is None ==> result == Ok::<PoolLocation, RegistryError>(
                PoolLocation { tier: Tier::Low, index: old(self).v2_pools().len() as usize },
            ) && final(self).v2_pools() == old(self).v2_pools().push(
                V2Pool { address, reserve0, reserve1, token0, token1 },
            ) && final(self).locate_pair(address) == Some(old(self).v2_pools().len() as int),
    {
        if self.get_v2_pool_location(address).is_some() {
            return Err(RegistryError::DuplicatePool(PoolIdentifier::Address(address)));
        }
        let index = self.v2.len();
        self.v2.push(V2Pool { address, reserve0, reserve1, token0, token1 });
        proof {
            self.lemma_countable();
            let before = old(self).v2_pools();
            let after = self.v2_pools();
            assert forall|i: int, j: int|
                #![trigger after[i], after[j]]
                0 <= i < after.len() && 0 <= j < after.len() && after[i].address
                    == after[j].address implies i == j by {
                if i < before.len() && j < before.len() {
                    assert(before[i].address == before[j].address);
                } else if i < before.len() {
                    assert(old(self).pair_stands_at(address, i));
                } else if j < before.len() {
                    assert(old(self).pair_stands_at(address, j));
                }
            }
            assert forall|family: Family, a: PoolLocation, b: PoolLocation|
                #![trigger self.pool_at(family, a), self.pool_at(family, b)]
                self.holds(family, a) && self.holds(family, b) && self.pool_at(
                    family,
                    a,
                ).identifier == self.pool_at(family, b).identifier implies a == b by {
                assert(old(self).pool_at(family, a).identifier == old(self).pool_at(
                    family,
                    b,
                ).identifier);
            }
            assert forall|family: Family, a: PoolLocation| #[trigger]
                self.holds(family, a) implies {
                let pool = self.pool_at(family, a);
                identifies(family, pool.identifier) && tier_holds(
                    a.tier,
                    pool.ticks@.len(),
                    pool.tick_bitmaps@.len(),
                )
            } by {
                assert(old(self).holds(family, a));
            }
            assert(self.pair_stands_at(address, index as int));
            let chosen = choose|i: int| self.pair_stands_at(address, i);
            assert(after[chosen].address == after[index as int].address);
        }
        Ok(PoolLocation { tier: Tier::Low, index })
    }

    /// Admits a V3 pool to the `Low` tier.
    pub fn add_uniswap_v3_low_pool(&mut self, pool: ConcentratedPool) -> (result: Result<
        PoolLocation,
        RegistryError,
    >)
        requires
            old(self).wf(),
        ensures
            final(self).wf(),
            admitted(old(self), final(self), Family::V3, Tier::Low, pool, result),
    {
        self.add_pool(Family::V3, Tier::Low, pool)
    }

    /// Admits a V3 pool to the `Active` tier.
    pub fn add_uniswap_v3_active_pool(&mut self, pool: ConcentratedPool) -> (result: Result<
        PoolLocation,
        RegistryError,
    >)
        requires
            old(self).wf(),
        ensures
            final(self).wf(),
            admitted(old(self), final(self), Family::V3, Tier::Active, pool, result),
    {
        self.add_pool(Family::V3, Tier::Active, pool)
    }

    /// Admits a V3 pool to the `Popular` tier.
    pub fn add_uniswap_v3_popular_pool(&mut self, pool: ConcentratedPool) -> (result: Result<
        PoolLocation,
        RegistryError,
    >)
        requires
            old(self).wf(),
        ensures
            final(self).wf(),
            admitted(old(self), final(self), Family::V3, Tier::Popular, pool, result),
    {
        self.add_pool(Family::V3, Tier::Popular, pool)
    }

    /// Admits a V3 pool to the `Major` tier.
    pub fn add_uniswap_v3_major_pool(&mut self, pool: ConcentratedPool) -> (result: Result<
        PoolLocation,
        RegistryError,
    >)
        requires
            old(self).wf(),
        ensures
            final(self).wf(),
            admitted(old(self), final(self), Family::V3, Tier::Major, pool, result),
    {
        self.add_pool(Family::V3, Tier::Major, pool)
    }

    /// Admits a V4 pool to the `Low` tier.
    pub fn add_uniswap_v4_low_pool(&mut self, pool: ConcentratedPool) -> (result: Result<
        PoolLocation,
        RegistryError,
    >)
        requires
            old(self).wf(),
        ensures
            final(self).wf(),
            admitted(old(self), final(self), Family::V4, Tier::Low, pool, result),
    {
        self.add_pool(Family::V4, Tier::Low, pool)
    }

    /// Admits a V4 pool to the `Active` tier.
    pub fn add_uniswap_v4_active_pool(&mut self, pool: ConcentratedPool) -> (result: Result<
        PoolLocation,
        RegistryError,
    >)
        requires
            old(self).wf(),
        ensures
            final(self).wf(),
            admitted(old(self), final(self), Family::V4, Tier::Active, pool, result),
    {
        self.add_pool(Family::V4, Tier::Active, pool)
    }

    /// Admits a V4 pool to the `Popular` tier.
    pub fn add_uniswap_v4_popular_pool(&mut self, pool: ConcentratedPool) -> (result: Result<
        PoolLocation,
        RegistryError,
    >)
        requires
            old(self).wf(),
        ensures
            final(self).wf(),
            admitted(old(self), final(self), Family::V4, Tier::Popular, pool, result),
    {
        self.add_pool(Family::V4, Tier::Popular, pool)
    }

    /// Admits a V4 pool to the `Major` tier.
    pub fn add_uniswap_v4_major_pool(&mut self, pool: ConcentratedPool) -> (result: Result<
        PoolLocation,
        RegistryError,
    >)
        requires
            old(self).wf(),
        ensures
            final(self).wf(),
            admitted(old(self), final(self), Family::V4, Tier::Major, pool, result),
    {
        self.add_pool(Family::V4, Tier::Major, pool)
    }
}

/// What an admission comes to: the pool is refused, and the registry
/// unchanged, where its identifier is of the wrong kind, is held already, or
/// the pool is too large for the tier (the first of these that applies is
/// reported); otherwise it stands at the end of the arena of `family` for
/// `tier` and is found there by its identifier.
pub open spec fn admitted(
    before: &PoolArenaRegistry,
    after: &PoolArenaRegistry,
    family: Family,
    tier: Tier,
    pool: ConcentratedPool,
    result: Result<PoolLocation, RegistryError>,
) -> bool {
    let place = PoolLocation { tier, index: before.pools(family, tier).len() as usize };
    if !identifies(family, pool.identifier) {
        result == Err::<PoolLocation, RegistryError>(
            RegistryError::WrongIdentifierKind(pool.identifier),
        ) && *after == *before
    } else if before.locate(family, pool.identifier) is Some {
        result == Err::<PoolLocation, RegistryError>(RegistryError::DuplicatePool(pool.identifier))
            && *after == *before
    } else if !tier_holds(tier, pool.ticks@.len(), pool.tick_bitmaps@.len()) {
        result == Err::<PoolLocation, RegistryError>(RegistryError::TierCapacityExceeded(tier))
            && *after == *before
    } else {
        result == Ok::<PoolLocation, RegistryError>(place) && after.extends(
            before,
            family,
            tier,
            pool,
        ) && after.locate(family, pool.identifier) == Some(place)
    }
}

/// Changing a pool in place keeps the registry well formed, and every pool
/// where it stood, as long as the pool keeps its identifier and fits its tier.
pub proof fn lemma_replace_keeps_order(
    before: &PoolArenaRegistry,
    after: &PoolArenaRegistry,
    family: Family,
    location: PoolLocation,
    pool: ConcentratedPool,
)
    requires
        before.wf(),
        before.holds(family, location),
        after.replaces(before, family, location, pool),
        pool.identifier == before.pool_at(family, location).identifier,
        tier_holds(location.tier, pool.ticks@.len(), pool.tick_bitmaps@.len()),
    ensures
        after.wf(),
        forall|f: Family, id: PoolIdentifier| #[trigger] after.locate(f, id) == before.locate(f, id),
        forall|address: [u8; 20]| #[trigger]
            after.locate_pair(address) == before.locate_pair(address),
{
    assert forall|f: Family, a: PoolLocation| #[trigger] after.holds(f, a) == before.holds(
        f,
        a,
    ) && (after.holds(f, a) ==> after.pool_at(f, a).identifier == before.pool_at(
        f,
        a,
    ).identifier && (after.pool_at(f, a) == if f == family && a == location {
        pool
    } else {
        before.pool_at(f, a)
    })) by {
        assert(after.pools(f, a.tier) == if f == family && a.tier == location.tier {
            before.pools(f, a.tier).update(location.index as int, pool)
        } else {
            before.pools(f, a.tier)
        });
    }
    assert forall|f: Family, a: PoolLocation, b: PoolLocation|
        #![trigger after.pool_at(f, a), after.pool_at(f, b)]
        after.holds(f, a) && after.holds(f, b) && after.pool_at(f, a).identifier == after.pool_at(
            f,
            b,
        ).identifier implies a == b by {
        assert(before.holds(f, a) && before.holds(f, b));
        assert(before.pool_at(f, a).identifier == before.pool_at(f, b).identifier);
    }
    assert forall|f: Family, a: PoolLocation| #[trigger] after.holds(f, a) implies {
        let p = after.pool_at(f, a);
        identifies(f, p.identifier) && tier_holds(a.tier, p.ticks@.len(), p.tick_bitmaps@.len())
    } by {
        assert(before.holds(f, a));
    }
    assert forall|f: Family, id: PoolIdentifier| #[trigger]
        after.locate(f, id) == before.locate(f, id) by {
        assert forall|l: PoolLocation| after.stands_at(f, id, l) == before.stands_at(f, id, l) by {
            assert(after.holds(f, l) == before.holds(f, l));
        }
        if before.locate(f, id) is Some {
            let l1 = before.locate(f, id).unwrap();
            assert(before.stands_at(f, id, l1));
            assert(after.stands_at(f, id, l1));
            let l2 = after.locate(f, id).unwrap();
            assert(after.stands_at(f, id, l2));
            assert(before.stands_at(f, id, l2));
            assert(before.pool_at(f, l1).identifier == before.pool_at(f, l2).identifier);
        } else {
            if after.locate(f, id) is Some {
                let l2 = choose|l: PoolLocation| after.stands_at(f, id, l);
                assert(before.stands_at(f, id, l2));
            }
        }
    }
    assert forall|address: [u8; 20]| #[trigger]
        after.locate_pair(address) == before.locate_pair(address) by {
        assert forall|i: int| after.pair_stands_at(address, i) == before.pair_stands_at(
            address,
            i,
        ) by {}
        if before.locate_pair(address) is Some {
            let i1 = before.locate_pair(address).unwrap();
            assert(before.pair_stands_at(address, i1));
            assert(after.pair_stands_at(address, i1));
            let i2 = after.locate_pair(address).unwrap();
            assert(before.pair_stands_at(address, i2));
            assert(before.v2_pools()[i1].address == before.v2_pools()[i2].address);
        } else {
            if after.locate_pair(address) is Some {
                let i2 = choose|i: int| after.pair_stands_at(address, i);
                assert(before.pair_stands_at(address, i2));
            }
        }
    }
}

/// Pools that stand where they stood are found where they were found: if an
/// arena of `after` begins with what the same arena of `before` holds, pool by
/// pool under the same identifier, every pool that `before` finds is found by
/// `after` at the same location.
pub proof fn lemma_kept_pools_keep_locations(before: &PoolArenaRegistry, after: &PoolArenaRegistry)
    requires
        after.wf(),
        forall|f: Family, l: PoolLocation| #[trigger]
            before.holds(f, l) ==> after.holds(f, l) && after.pool_at(f, l).identifier
                == before.pool_at(f, l).identifier,
    ensures
        forall|f: Family, id: PoolIdentifier|
            (#[trigger] before.locate(f, id)) is Some ==> after.locate(f, id) == before.locate(
                f,
                id,
            ),
{
    assert forall|f: Family, id: PoolIdentifier|
        (#[trigger] before.locate(f, id)) is Some implies after.locate(f, id) == before.locate(
        f,
        id,
    ) by {
        let l1 = before.locate(f, id).unwrap();
        assert(before.stands_at(f, id, l1));
        assert(before.holds(f, l1));
        assert(after.stands_at(f, id, l1));
        let l2 = after.locate(f, id).unwrap();
        assert(after.stands_at(f, id, l2));
        assert(after.pool_at(f, l1).identifier == after.pool_at(f, l2).identifier);
    }
}

/// Pairs that stand where they stood are found where they were found.
pub proof fn lemma_kept_pairs_keep_places(before: &PoolArenaRegistry, after: &PoolArenaRegistry)
    requires
        after.wf(),
        before.v2_pools().len() <= after.v2_pools().len(),
        forall|i: int|
            0 <= i < before.v2_pools().len() ==> (#[trigger] after.v2_pools()[i]).address
                == before.v2_pools()[i].address,
    ensures
        forall|address: [u8; 20]|
            (#[trigger] before.locate_pair(address)) is Some ==> after.locate_pair(address)
                == before.locate_pair(address),
{
    assert forall|address: [u8; 20]|
        (#[trigger] before.locate_pair(address)) is Some implies after.locate_pair(address)
        == before.locate_pair(address) by {
        let i1 = before.locate_pair(address).unwrap();
        assert(before.pair_stands_at(address, i1));
        assert(after.v2_pools()[i1].address == address);
        assert(after.pair_stands_at(address, i1));
        let i2 = after.locate_pair(address).unwrap();
        assert(after.pair_stands_at(address, i2));
        assert(after.v2_pools()[i1].address == after.v2_pools()[i2].address);
    }
}

/// In a well-formed registry a pool is found at one location only, and a pair
/// at one place only.
pub proof fn lemma_found_once(registry: &PoolArenaRegistry)
    requires
        registry.wf(),
    ensures
        forall|f: Family, id: PoolIdentifier, l: PoolLocation| #[trigger]
            registry.stands_at(f, id, l) ==> registry.locate(f, id) == Some(l),
        forall|address: [u8; 20], i: int| #[trigger]
            registry.pair_stands_at(address, i) ==> registry.locate_pair(address) == Some(i),
{
    assert forall|f: Family, id: PoolIdentifier, l: PoolLocation| #[trigger]
        registry.stands_at(f, id, l) implies registry.locate(f, id) == Some(l) by {
        let chosen = registry.locate(f, id).unwrap();
        assert(registry.stands_at(f, id, chosen));
        assert(registry.pool_at(f, l).identifier == registry.pool_at(f, chosen).identifier);
    }
    assert forall|address: [u8; 20], i: int| #[trigger]
        registry.pair_stands_at(address, i) implies registry.locate_pair(address) == Some(i) by {
        let chosen = registry.locate_pair(address).unwrap();
        assert(registry.pair_stands_at(address, chosen));
        assert(registry.v2_pools()[i].address == registry.v2_pools()[chosen].address);
    }
}

} // verus!
