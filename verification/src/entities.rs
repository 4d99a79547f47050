//! Core market data types and the price fallback chains.
//!
//! Per-unit prices are integer milli-aUEC (thousandths of an aUEC),
//! stock and demand are whole SCU, volatility is parts per million of
//! 1.0, and timestamps are Unix seconds.  A price that is absent or
//! was reported as zero or negative is carried as `None` or as a zero
//! that the fallback chains skip.

use vstd::prelude::*;

verus! {

// The caps below bound every figure the engine computes with, so
// that all sums and products provably fit the fixed-width integers
// they are carried in.  They are far above anything the market
// reports; callers convert raw data against them.
/// Fixed-point scale for scores and ratios: 1.0 is 1_000_000.
pub const PPM_SCALE: u64 = 1_000_000;

/// Largest accepted per-unit price, in milli-aUEC (one billion aUEC).
pub const PRICE_CAP: u64 = 1_000_000_000_000;

/// Largest accepted stock or demand figure, in SCU.
pub const STOCK_CAP: u64 = 1_000_000_000_000;

/// Largest accepted volatility, in parts per million of 1.0.
pub const VOL_CAP: u64 = 1_000_000_000_000;

/// Largest accepted inter-terminal distance, in milli-gigameters.
pub const DIST_CAP: u64 = 1_000_000_000_000;

/// Largest accepted user-activity row count on one side of a terminal.
pub const ROWS_CAP: i32 = 1_000_000;

/// Largest number of cargo items accepted by one evaluation pass.
pub const MAX_ITEMS: usize = 1_000_000;

/// Largest number of price points accepted for one commodity.
pub const MAX_POINTS: usize = 1_000_000;

/// One tradeable commodity as reported by the market API.
pub struct Commodity {
    pub id: String,
    pub name: String,
    pub category: String,
    pub code: Option<String>,
    /// Weight per SCU in milli-SCU, when the API reports one.
    pub weight_scu: Option<u64>,
}

/// One item of the player's cargo inventory.
pub struct CargoItem {
    pub id: String,
    pub commodity_id: String,
    pub commodity_name: String,
    /// Quantity in SCU.
    pub scu: u32,
    /// Stolen or otherwise illegal cargo; it may only be sold at
    /// no-questions-asked terminals.
    pub is_hot: bool,
}

/// One terminal's market snapshot for one commodity.
pub struct PricePoint {
    pub terminal_id: Option<i32>,
    pub terminal_name: String,
    pub system: Option<String>,
    pub terminal_code: Option<String>,
    /// Sell prices (player sells): minimum, last seen, maximum; milli-aUEC.
    pub price_sell_min: Option<u64>,
    pub price_sell: Option<u64>,
    pub price_sell_max: Option<u64>,
    /// Buy prices (player buys): maximum, last seen, minimum; milli-aUEC.
    pub price_buy_max: Option<u64>,
    pub price_buy: Option<u64>,
    pub price_buy_min: Option<u64>,
    /// Running average sell price; milli-aUEC.
    pub price_average: Option<u64>,
    /// Accepted container sizes in SCU.
    pub container_sizes: Vec<u64>,
    /// Stock available to buy, in SCU.
    pub scu_buy: Option<u64>,
    /// Demand the terminal will accept when selling, in SCU.
    pub scu_sell_stock: Option<u64>,
    /// Status codes 0-3: Offline, Low, Normal, High.
    pub status_sell: Option<i32>,
    pub status_buy: Option<i32>,
    /// User-activity row counts.
    pub buy_user_rows: Option<i32>,
    pub sell_user_rows: Option<i32>,
    /// Sell-price volatility in parts per million of 1.0.
    pub volatility_sell: Option<u64>,
    /// True when the terminal sits in a city or outpost.
    pub is_planetary: bool,
    /// Observation time, Unix seconds.
    pub updated_at: u64,
}

/// A denormalized sell-terminal record used for penalty lookup.
pub struct SellLocation {
    pub id: String,
    pub name: String,
    pub system: Option<String>,
    pub kind: Option<String>,
    pub terminal_code: Option<String>,
    pub armistice: bool,
}

/// Full terminal metadata from the terminal snapshot.
pub struct Terminal {
    pub id: i32,
    pub name: String,
    pub system: Option<String>,
    pub city: Option<String>,
    pub station: Option<String>,
    pub outpost: Option<String>,
    pub orbit: Option<String>,
    pub planet: Option<String>,
    /// True when the terminal accepts illegal cargo without penalty.
    pub is_nqa: bool,
}

impl Clone for CargoItem {
    /// An exact copy of the item.
    fn clone(&self) -> (r: Self)
        ensures
            r == *self,
    {
        CargoItem {
            id: self.id.clone(),
            commodity_id: self.commodity_id.clone(),
            commodity_name: self.commodity_name.clone(),
            scu: self.scu,
            is_hot: self.is_hot,
        }
    }
}

/// True when the option carries a strictly positive value.
pub open spec fn has_pos(o: Option<u64>) -> bool {
    match o {
        Some(v) => v > 0,
        None => false,
    }
}

/// True when the option's value, if any, is at most `cap`.
pub open spec fn cap_ok(o: Option<u64>, cap: u64) -> bool {
    match o {
        Some(v) => v <= cap,
        None => true,
    }
}

/// True when the option's value, if any, lies in `[0, ROWS_CAP]`.
pub open spec fn rows_ok(o: Option<i32>) -> bool {
    match o {
        Some(v) => 0 <= v <= ROWS_CAP,
        None => true,
    }
}

/// Well-formed price point: every numeric field within its cap.
pub open spec fn wf_price_point(p: PricePoint) -> bool {
    &&& cap_ok(p.price_sell_min, PRICE_CAP)
    &&& cap_ok(p.price_sell, PRICE_CAP)
    &&& cap_ok(p.price_sell_max, PRICE_CAP)
    &&& cap_ok(p.price_buy_max, PRICE_CAP)
    &&& cap_ok(p.price_buy, PRICE_CAP)
    &&& cap_ok(p.price_buy_min, PRICE_CAP)
    &&& cap_ok(p.price_average, PRICE_CAP)
    &&& cap_ok(p.scu_buy, STOCK_CAP)
    &&& cap_ok(p.scu_sell_stock, STOCK_CAP)
    &&& cap_ok(p.volatility_sell, VOL_CAP)
    &&& rows_ok(p.buy_user_rows)
    &&& rows_ok(p.sell_user_rows)
}

/// Well-formed price point sequence: bounded length, all points well formed.
pub open spec fn wf_price_points(ps: Seq<PricePoint>) -> bool {
    &&& ps.len() <= MAX_POINTS
    &&& forall|i: int| 0 <= i < ps.len() ==> wf_price_point(#[trigger] ps[i])
}

/// Sell-side fallback chain of the price summarizer: the first
/// strictly positive of maximum, last and average sell price.
pub open spec fn summary_sell_price(p: PricePoint) -> Option<u64> {
    if has_pos(p.price_sell_max) {
        p.price_sell_max
    } else if has_pos(p.price_sell) {
        p.price_sell
    } else if has_pos(p.price_average) {
        p.price_average
    } else {
        None
    }
}

/// Buy-side fallback chain of the price summarizer: the first
/// strictly positive of minimum and last buy price.
pub open spec fn summary_buy_price(p: PricePoint) -> Option<u64> {
    if has_pos(p.price_buy_min) {
        p.price_buy_min
    } else if has_pos(p.price_buy) {
        p.price_buy
    } else {
        None
    }
}

/// Sell price used by the best-price ranker: the first present of
/// maximum, last and average sell price, whatever its value.
pub open spec fn ranker_sell_price(p: PricePoint) -> Option<u64> {
    if p.price_sell_max is Some {
        p.price_sell_max
    } else if p.price_sell is Some {
        p.price_sell
    } else if p.price_average is Some {
        p.price_average
    } else {
        None
    }
}

/// Buy price used by the best-price ranker: the first present of
/// minimum buy, last buy and average price.
pub open spec fn ranker_buy_price(p: PricePoint) -> Option<u64> {
    if p.price_buy_min is Some {
        p.price_buy_min
    } else if p.price_buy is Some {
        p.price_buy
    } else if p.price_average is Some {
        p.price_average
    } else {
        None
    }
}

/// Sell price used by the sell planner: the first present of maximum,
/// last, average and minimum sell price, kept only when positive.
pub open spec fn planner_sell_price(p: PricePoint) -> Option<u64> {
    let c = if p.price_sell_max is Some {
        p.price_sell_max
    } else if p.price_sell is Some {
        p.price_sell
    } else if p.price_average is Some {
        p.price_average
    } else if p.price_sell_min is Some {
        p.price_sell_min
    } else {
        None
    };
    match c {
        Some(v) => if v > 0 { Some(v) } else { None },
        None => None,
    }
}

/// Price observations grouped by commodity id, in insertion order.
///
/// Lookup returns the points of the first entry whose id matches, so
/// a book built with one entry per commodity behaves like a map.
pub struct PriceBook {
    pub entries: Vec<(String, Vec<PricePoint>)>,
}

/// First-match lookup in a price book's entry list.
pub open spec fn book_lookup(entries: Seq<(String, Vec<PricePoint>)>, id: Seq<char>) -> Option<
    Seq<PricePoint>,
>
    decreases entries.len(),
{
    if entries.len() == 0 {
        None
    } else if entries[0].0@ == id {
        Some(entries[0].1@)
    } else {
        book_lookup(entries.drop_first(), id)
    }
}

/// Well-formed price book: every stored point list is well formed.
pub open spec fn wf_price_book(b: PriceBook) -> bool {
    forall|i: int| 0 <= i < b.entries.len() ==> wf_price_points(#[trigger] b.entries[i].1@)
}

/// A lookup in a book of well-formed point lists yields a well-formed list.
pub proof fn lemma_book_lookup_wf(entries: Seq<(String, Vec<PricePoint>)>, id: Seq<char>)
    requires
        forall|i: int| 0 <= i < entries.len() ==> wf_price_points(#[trigger] entries[i].1@),
    ensures
        match book_lookup(entries, id) {
            Some(ps) => wf_price_points(ps),
            None => true,
        },
    decreases entries.len(),
{
    if entries.len() > 0 && entries[0].0@ != id {
        assert forall|i: int| 0 <= i < entries.drop_first().len() implies wf_price_points(
            #[trigger] entries.drop_first()[i].1@,
        ) by {
            assert(entries.drop_first()[i] == entries[i + 1]);
        }
        lemma_book_lookup_wf(entries.drop_first(), id);
    }
}

impl PriceBook {
    /// The empty book.
    pub fn new() -> (r: PriceBook)
        ensures
            r.entries@.len() == 0,
    {
        PriceBook { entries: Vec::new() }
    }

    /// Spec view of lookup by commodity id.
    pub open spec fn spec_get(&self, id: Seq<char>) -> Option<Seq<PricePoint>> {
        book_lookup(self.entries@, id)
    }

    /// Add the price points for one commodity.
    pub fn push_prices(&mut self, id: String, points: Vec<PricePoint>)
        ensures
            final(self).entries@ == old(self).entries@.push((id, points)),
    {
        self.entries.push((id, points));
    }

    /// Look up the price points recorded for a commodity id.
    pub fn get(&self, id: &String) -> (r: Option<&Vec<PricePoint>>)
        ensures
            match r {
                Some(v) => self.spec_get(id@) == Some(v@),
                None => self.spec_get(id@) is None,
            },
    {
        let n: usize = self.entries.len();
        proof {
            assert(self.entries@.skip(0) =~= self.entries@);
        }
        for i in 0..n
            invariant
                n == self.entries@.len(),
                book_lookup(self.entries@.skip(i as int), id@) == book_lookup(self.entries@, id@),
        {
            assert(self.entries@.skip(i as int)[0] == self.entries@[i as int]);
            if self.entries[i].0 == *id {
                return Some(&self.entries[i].1);
            }
            assert(self.entries@.skip(i as int).drop_first() =~= self.entries@.skip(i + 1));
        }
        assert(self.entries@.skip(n as int) =~= Seq::<(String, Vec<PricePoint>)>::empty());
        None
    }
}

/// Clone an optional string, exactly.
pub fn clone_opt_string(o: &Option<String>) -> (r: Option<String>)
    ensures
        r == *o,
{
    match o {
        Some(s) => Some(s.clone()),
        None => None,
    }
}

/// Sell locations keyed by terminal id rendered as text, or by
/// terminal name, in insertion order; lookup takes the first match.
pub struct LocationBook {
    pub entries: Vec<(String, SellLocation)>,
}

/// First-match lookup in a location book's entry list.
pub open spec fn location_lookup(entries: Seq<(String, SellLocation)>, key: Seq<char>) -> Option<
    SellLocation,
>
    decreases entries.len(),
{
    if entries.len() == 0 {
        None
    } else if entries[0].0@ == key {
        Some(entries[0].1)
    } else {
        location_lookup(entries.drop_first(), key)
    }
}

impl LocationBook {
    /// The empty book.
    pub fn new() -> (r: LocationBook)
        ensures
            r.entries@.len() == 0,
    {
        LocationBook { entries: Vec::new() }
    }

    /// Spec view of lookup by key.
    pub open spec fn spec_get(&self, key: Seq<char>) -> Option<SellLocation> {
        location_lookup(self.entries@, key)
    }

    /// Record a sell location under a key.
    pub fn push_location(&mut self, key: String, location: SellLocation)
        ensures
            final(self).entries@ == old(self).entries@.push((key, location)),
    {
        self.entries.push((key, location));
    }

    /// Look up the sell location recorded under a key.
    pub fn get(&self, key: &String) -> (r: Option<&SellLocation>)
        ensures
            match r {
                Some(l) => self.spec_get(key@) == Some(*l),
                None => self.spec_get(key@) is None,
            },
    {
        let n: usize = self.entries.len();
        proof {
            assert(self.entries@.skip(0) =~= self.entries@);
        }
        for i in 0..n
            invariant
                n == self.entries@.len(),
                location_lookup(self.entries@.skip(i as int), key@) == location_lookup(
                    self.entries@,
                    key@,
                ),
        {
            assert(self.entries@.skip(i as int)[0] == self.entries@[i as int]);
            if self.entries[i].0 == *key {
                return Some(&self.entries[i].1);
            }
            assert(self.entries@.skip(i as int).drop_first() =~= self.entries@.skip(i + 1));
        }
        assert(self.entries@.skip(n as int) =~= Seq::<(String, SellLocation)>::empty());
        None
    }
}

/// The set of no-questions-asked terminal ids.
pub struct NqaSet {
    pub ids: Vec<i32>,
}

impl NqaSet {
    /// The empty set.
    pub fn new() -> (r: NqaSet)
        ensures
            r.ids@.len() == 0,
    {
        NqaSet { ids: Vec::new() }
    }

    /// Record a terminal id as no-questions-asked.
    pub fn insert(&mut self, id: i32)
        ensures
            final(self).ids@ == old(self).ids@.push(id),
    {
        self.ids.push(id);
    }

    /// Spec membership.
    pub open spec fn spec_contains(&self, id: i32) -> bool {
        self.ids@.contains(id)
    }

    /// Whether a terminal id is in the set.
    pub fn contains(&self, id: i32) -> (r: bool)
        ensures
            r == self.spec_contains(id),
    {
        let n: usize = self.ids.len();
        for i in 0..n
            invariant
                n == self.ids@.len(),
                forall|j: int| 0 <= j < i ==> self.ids@[j] != id,
        {
            if self.ids[i] == id {
                return true;
            }
        }
        false
    }

    /// Whether an optional terminal id is in the set; an unknown id is not.
    pub fn contains_opt(&self, id: Option<i32>) -> (r: bool)
        ensures
            r == match id {
                Some(v) => self.spec_contains(v),
                None => false,
            },
    {
        match id {
            Some(v) => self.contains(v),
            None => false,
        }
    }
}

impl PricePoint {
    /// Executable form of `summary_sell_price`.
    pub fn summary_sell(&self) -> (r: Option<u64>)
        ensures
            r == summary_sell_price(*self),
    {
        if let Some(v) = self.price_sell_max {
            if v > 0 {
                return Some(v);
            }
        }
        if let Some(v) = self.price_sell {
            if v > 0 {
                return Some(v);
            }
        }
        if let Some(v) = self.price_average {
            if v > 0 {
                return Some(v);
            }
        }
        None
    }

    /// Executable form of `summary_buy_price`.
    pub fn summary_buy(&self) -> (r: Option<u64>)
        ensures
            r == summary_buy_price(*self),
    {
        if let Some(v) = self.price_buy_min {
            if v > 0 {
                return Some(v);
            }
        }
        if let Some(v) = self.price_buy {
            if v > 0 {
                return Some(v);
            }
        }
        None
    }

    /// Executable form of `ranker_sell_price`.
    pub fn ranker_sell(&self) -> (r: Option<u64>)
        ensures
            r == ranker_sell_price(*self),
    {
        if self.price_sell_max.is_some() {
            self.price_sell_max
        } else if self.price_sell.is_some() {
            self.price_sell
        } else if self.price_average.is_some() {
            self.price_average
        } else {
            None
        }
    }

    /// Executable form of `ranker_buy_price`.
    pub fn ranker_buy(&self) -> (r: Option<u64>)
        ensures
            r == ranker_buy_price(*self),
    {
        if self.price_buy_min.is_some() {
            self.price_buy_min
        } else if self.price_buy.is_some() {
            self.price_buy
        } else if self.price_average.is_some() {
            self.price_average
        } else {
            None
        }
    }

    /// Executable form of `planner_sell_price`.
    pub fn best_sell_price(&self) -> (r: Option<u64>)
        ensures
            r == planner_sell_price(*self),
    {
        let c = if self.price_sell_max.is_some() {
            self.price_sell_max
        } else if self.price_sell.is_some() {
            self.price_sell
        } else if self.price_average.is_some() {
            self.price_average
        } else if self.price_sell_min.is_some() {
            self.price_sell_min
        } else {
            None
        };
        match c {
            Some(v) => if v > 0 { Some(v) } else { None },
            None => None,
        }
    }
}

impl Terminal {
    /// True when the terminal sits in a city or outpost.
    pub fn is_planetary(&self) -> (r: bool)
        ensures
            r == (self.city is Some || self.outpost is Some),
    {
        self.city.is_some() || self.outpost.is_some()
    }
}

/// Display name of a terminal's location: the first present of city,
/// station, outpost, orbit, planet and system, with the terminal's own
/// name as last resort, and "Green Imperial Housing Exchange" shown as
/// "GrimHEX".
pub open spec fn spec_location_name(t: Terminal) -> Seq<char> {
    let base = if t.city is Some {
        t.city.unwrap()@
    } else if t.station is Some {
        t.station.unwrap()@
    } else if t.outpost is Some {
        t.outpost.unwrap()@
    } else if t.orbit is Some {
        t.orbit.unwrap()@
    } else if t.planet is Some {
        t.planet.unwrap()@
    } else if t.system is Some {
        t.system.unwrap()@
    } else {
        t.name@
    };
    if base == "Green Imperial Housing Exchange"@ {
        "GrimHEX"@
    } else {
        base
    }
}

impl Terminal {
    /// Executable form of `spec_location_name`.
    pub fn location_name(&self) -> (r: String)
        ensures
            r@ == spec_location_name(*self),
    {
        let base: String = if let Some(s) = &self.city {
            s.clone()
        } else if let Some(s) = &self.station {
            s.clone()
        } else if let Some(s) = &self.outpost {
            s.clone()
        } else if let Some(s) = &self.orbit {
            s.clone()
        } else if let Some(s) = &self.planet {
            s.clone()
        } else if let Some(s) = &self.system {
            s.clone()
        } else {
            self.name.clone()
        };
        let alias_from: String = String::from_str("Green Imperial Housing Exchange");
        if base == alias_from {
            String::from_str("GrimHEX")
        } else {
            base
        }
    }
}

} // verus!
