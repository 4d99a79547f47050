//! Application-level state: the cargo list, the cached market data,
//! and the per-resource fetch timestamps their callers use to decide
//! staleness.

use vstd::prelude::*;

use crate::entities::{CargoItem, Commodity, LocationBook, PriceBook};
use crate::evaluation::ProfitabilityParams;

verus! {

/// A cacheable remote resource: the commodity list, the prices of one
/// commodity, or the sell-location snapshot.
pub enum CacheResource {
    Commodities,
    Prices(String),
    SellLocations,
}

/// Whether two resource keys name the same resource.
pub open spec fn resource_eq(a: CacheResource, b: CacheResource) -> bool {
    match (a, b) {
        (CacheResource::Commodities, CacheResource::Commodities) => true,
        (CacheResource::Prices(x), CacheResource::Prices(y)) => x@ == y@,
        (CacheResource::SellLocations, CacheResource::SellLocations) => true,
        _ => false,
    }
}

impl PartialEq for CacheResource {
    fn eq(&self, other: &CacheResource) -> (r: bool) {
        match (self, other) {
            (CacheResource::Commodities, CacheResource::Commodities) => true,
            (CacheResource::Prices(x), CacheResource::Prices(y)) => *x == *y,
            (CacheResource::SellLocations, CacheResource::SellLocations) => true,
            _ => false,
        }
    }
}

impl vstd::std_specs::cmp::PartialEqSpecImpl for CacheResource {
    open spec fn obeys_eq_spec() -> bool {
        true
    }

    open spec fn eq_spec(&self, other: &CacheResource) -> bool {
        resource_eq(*self, *other)
    }
}

impl Clone for CacheResource {
    /// An exact copy of the resource key.
    fn clone(&self) -> (r: Self)
        ensures
            r == *self,
    {
        match self {
            CacheResource::Commodities => CacheResource::Commodities,
            CacheResource::Prices(id) => CacheResource::Prices(id.clone()),
            CacheResource::SellLocations => CacheResource::SellLocations,
        }
    }
}

/// The first recorded fetch time for a resource.
pub open spec fn ts_lookup(entries: Seq<(CacheResource, u64)>, resource: CacheResource) -> Option<
    u64,
>
    decreases entries.len(),
{
    if entries.len() == 0 {
        None
    } else if resource_eq(entries[0].0, resource) {
        Some(entries[0].1)
    } else {
        ts_lookup(entries.drop_first(), resource)
    }
}

/// The first index recorded for a resource.
pub open spec fn ts_find(entries: Seq<(CacheResource, u64)>, resource: CacheResource) -> Option<
    int,
>
    decreases entries.len(),
{
    if entries.len() == 0 {
        None
    } else if resource_eq(entries[0].0, resource) {
        Some(0int)
    } else {
        match ts_find(entries.drop_first(), resource) {
            Some(i) => Some(i + 1),
            None => None,
        }
    }
}

/// Whether a fetch record is stale against a time-to-live at a clock
/// reading: never fetched, fetched in the future, or fetched longer
/// ago than the time-to-live.
pub open spec fn spec_stale(fetched: Option<u64>, ttl_secs: u64, now: u64) -> bool {
    match fetched {
        Some(t) => now < t || now - t > ttl_secs,
        None => true,
    }
}

/// Last-fetch times per cacheable resource, one entry per resource.
pub struct CacheTimestamps {
    pub entries: Vec<(CacheResource, u64)>,
}

impl CacheTimestamps {
    /// The empty record.
    pub fn new() -> (r: CacheTimestamps)
        ensures
            r.entries@.len() == 0,
    {
        CacheTimestamps { entries: Vec::new() }
    }

    /// Spec view of lookup by resource.
    pub open spec fn spec_fetched_at(&self, resource: CacheResource) -> Option<u64> {
        ts_lookup(self.entries@, resource)
    }

    /// Record when a resource was fetched, replacing an earlier record.
    pub fn record_fetch(&mut self, resource: CacheResource, fetched_at: u64)
        ensures
            final(self).entries@ == match ts_find(old(self).entries@, resource) {
                Some(i) => old(self).entries@.update(i, (resource, fetched_at)),
                None => old(self).entries@.push((resource, fetched_at)),
            },
    {
        let n: usize = self.entries.len();
        for i in 0..n
            invariant
                n == self.entries@.len(),
                self.entries@ == old(self).entries@,
                forall|k: int| 0 <= k < i ==> !resource_eq((#[trigger] self.entries@[k]).0, resource),
        {
            if self.entries[i].0 == resource {
                proof {
                    lemma_ts_find_skip(self.entries@, resource, i as int);
                    assert(self.entries@.skip(i as int)[0] == self.entries@[i as int]);
                }
                let ghost pre = self.entries@;
                self.entries.remove(i);
                self.entries.insert(i, (resource, fetched_at));
                proof {
                    assert(final(self).entries@ =~= pre.update(i as int, (resource, fetched_at)));
                }
                return ;
            }
        }
        proof {
            lemma_ts_find_skip(self.entries@, resource, n as int);
            assert(self.entries@.skip(n as int) =~= Seq::<(CacheResource, u64)>::empty());
        }
        self.entries.push((resource, fetched_at));
    }

    /// When the resource was last fetched, if ever.
    pub fn fetched_at(&self, resource: &CacheResource) -> (r: Option<u64>)
        ensures
            r == self.spec_fetched_at(*resource),
    {
        let n: usize = self.entries.len();
        proof {
            assert(self.entries@.skip(0) =~= self.entries@);
        }
        for i in 0..n
            invariant
                n == self.entries@.len(),
                ts_lookup(self.entries@.skip(i as int), *resource) == ts_lookup(
                    self.entries@,
                    *resource,
                ),
        {
            assert(self.entries@.skip(i as int)[0] == self.entries@[i as int]);
            if self.entries[i].0 == *resource {
                return Some(self.entries[i].1);
            }
            assert(self.entries@.skip(i as int).drop_first() =~= self.entries@.skip(i + 1));
        }
        assert(self.entries@.skip(n as int) =~= Seq::<(CacheResource, u64)>::empty());
        None
    }

    /// Forget every recorded fetch.
    pub fn clear(&mut self)
        ensures
            final(self).entries@.len() == 0,
    {
        self.entries.clear();
    }

    /// The recorded fetches, in recording order.
    pub fn iter(&self) -> (r: Vec<(CacheResource, u64)>)
        ensures
            r@ == self.entries@,
    {
        let n: usize = self.entries.len();
        let mut r: Vec<(CacheResource, u64)> = Vec::new();
        proof {
            assert(self.entries@.take(0) =~= Seq::<(CacheResource, u64)>::empty());
        }
        for i in 0..n
            invariant
                n == self.entries@.len(),
                r@ == self.entries@.take(i as int),
        {
            r.push((self.entries[i].0.clone(), self.entries[i].1));
            proof {
                crate::seqs::lemma_take_step(self.entries@, i as int);
            }
        }
        proof {
            crate::seqs::lemma_take_all(self.entries@);
        }
        r
    }

    /// Whether a resource is stale against a time-to-live, judged at
    /// a given clock reading: never fetched, fetched in the future,
    /// or fetched longer ago than the time-to-live.
    pub fn is_stale_at(&self, resource: &CacheResource, ttl_secs: u64, now: u64) -> (r: bool)
        ensures
            r == spec_stale(self.spec_fetched_at(*resource), ttl_secs, now),
    {
        match self.fetched_at(resource) {
            Some(t) => now < t || now - t > ttl_secs,
            None => true,
        }
    }

    /// Whether a resource is stale against a time-to-live, judged at
    /// the clock; a resource never fetched is always stale.
    pub fn is_stale(&self, resource: &CacheResource, ttl_secs: u64) -> (r: bool)
        ensures
            self.spec_fetched_at(*resource) is None ==> r,
            exists|now: u64| r == #[trigger] spec_stale(
                self.spec_fetched_at(*resource),
                ttl_secs,
                now,
            ),
    {
        let now: u64 = crate::clock::unix_now_secs();
        let r = self.is_stale_at(resource, ttl_secs, now);
        proof {
            assert(r == spec_stale(self.spec_fetched_at(*resource), ttl_secs, now));
        }
        r
    }
}

/// Searching past a rejected prefix searches the remainder.
proof fn lemma_ts_find_skip(entries: Seq<(CacheResource, u64)>, resource: CacheResource, i: int)
    requires
        0 <= i <= entries.len(),
        forall|k: int| 0 <= k < i ==> !resource_eq((#[trigger] entries[k]).0, resource),
    ensures
        ts_find(entries, resource) == match ts_find(entries.skip(i), resource) {
            Some(j) => Some(i + j),
            None => None::<int>,
        },
    decreases i,
{
    if i == 0 {
        assert(entries.skip(0) =~= entries);
    } else {
        lemma_ts_find_skip(entries.drop_first(), resource, i - 1);
        assert(entries.drop_first().skip(i - 1) =~= entries.skip(i));
        assert(forall|k: int|
            0 <= k < entries.drop_first().len() ==> #[trigger] entries.drop_first()[k] == entries[k
                + 1]);
    }
}

/// The user-adjustable part of the application state, as persisted
/// between runs.
pub struct PersistedState {
    pub cargo_items: Vec<CargoItem>,
    pub profitability: ProfitabilityParams,
}

/// An exact copy of a cargo list.
pub fn copy_cargo_items(v: &Vec<CargoItem>) -> (r: Vec<CargoItem>)
    ensures
        r@ == v@,
{
    let n: usize = v.len();
    let mut r: Vec<CargoItem> = Vec::new();
    proof {
        assert(v@.take(0) =~= Seq::<CargoItem>::empty());
    }
    for i in 0..n
        invariant
            n == v@.len(),
            r@ == v@.take(i as int),
    {
        r.push(v[i].clone());
        proof {
            crate::seqs::lemma_take_step(v@, i as int);
        }
    }
    proof {
        crate::seqs::lemma_take_all(v@);
    }
    r
}

/// The whole in-memory application state.
pub struct AppState {
    pub cargo_items: Vec<CargoItem>,
    pub commodities: Vec<Commodity>,
    pub price_points: PriceBook,
    pub sell_locations: LocationBook,
    pub profitability: ProfitabilityParams,
    pub cache: CacheTimestamps,
}

impl AppState {
    /// Whether a resource is stale against a time-to-live; a resource
    /// never fetched is always stale.
    pub fn is_stale(&self, resource: &CacheResource, ttl_secs: u64) -> (r: bool)
        ensures
            self.cache.spec_fetched_at(*resource) is None ==> r,
            exists|now: u64| r == #[trigger] spec_stale(
                self.cache.spec_fetched_at(*resource),
                ttl_secs,
                now,
            ),
    {
        self.cache.is_stale(resource, ttl_secs)
    }

    /// Replace the user-adjustable parts with persisted ones.
    pub fn apply_persisted(&mut self, persisted: PersistedState)
        ensures
            final(self).cargo_items@ == persisted.cargo_items@,
            final(self).profitability == persisted.profitability,
            final(self).commodities == old(self).commodities,
            final(self).price_points == old(self).price_points,
            final(self).sell_locations == old(self).sell_locations,
            final(self).cache == old(self).cache,
    {
        self.cargo_items = persisted.cargo_items;
        self.profitability = persisted.profitability;
    }

    /// The user-adjustable parts, ready to persist.
    pub fn to_persisted(&self) -> (r: PersistedState)
        ensures
            r.cargo_items@ == self.cargo_items@,
            r.profitability == self.profitability,
    {
        PersistedState {
            cargo_items: copy_cargo_items(&self.cargo_items),
            profitability: self.profitability,
        }
    }
}

} // verus!
