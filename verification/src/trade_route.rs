//! Trade route calculation, filtering and ranking.
//!
//! A route is one profitable (buy terminal, sell terminal) pair for
//! one commodity.  Routes are never created non-profitable: profit per
//! SCU and return on investment are both strictly positive by
//! construction.

use vstd::prelude::*;
use vstd::relations::sorted_by;

use crate::entities::{
    clone_opt_string, has_pos, wf_price_point, wf_price_points, NqaSet, PricePoint, DIST_CAP,
    PRICE_CAP, ROWS_CAP, STOCK_CAP,
};
use crate::seqs::{lemma_take_all, lemma_take_step};
use crate::sorting::{insertion_sort, sort_by_spec};

verus! {

/// A potential trade route: buy at one terminal, sell at another.
pub struct TradeRoute {
    pub commodity_id: String,
    pub commodity_name: String,
    pub is_illegal: bool,
    /// Buy terminal (where the player purchases).
    pub buy_terminal_id: i32,
    pub buy_terminal_name: String,
    pub buy_system: Option<String>,
    /// Purchase price per SCU, milli-aUEC; strictly positive.
    pub buy_price: u64,
    /// Stock available to buy, SCU.
    pub buy_stock: u64,
    pub buy_user_rows: i32,
    pub buy_is_planetary: bool,
    /// Sell terminal (where the player offloads).
    pub sell_terminal_id: i32,
    pub sell_terminal_name: String,
    pub sell_system: Option<String>,
    /// Sale price per SCU, milli-aUEC; strictly above the buy price.
    pub sell_price: u64,
    /// Demand the sell terminal accepts, SCU.
    pub sell_demand: u64,
    pub sell_user_rows: i32,
    pub sell_is_planetary: bool,
    /// Whether the sell terminal asks no questions about illegal cargo.
    pub sell_is_nqa: bool,
    /// Inter-terminal distance in milli-gigameters, when known.
    pub distance_gm: Option<u64>,
    /// Sale minus purchase price per SCU, milli-aUEC; strictly positive.
    pub profit_per_scu: u64,
    /// Return on investment in milli-percent; strictly positive.
    pub roi_percent: u64,
}

/// Route invariant: profit and return on investment are derived from
/// the prices, strictly positive, and every figure is within its cap.
pub open spec fn wf_trade_route(r: TradeRoute) -> bool {
    &&& 0 < r.buy_price <= PRICE_CAP
    &&& r.buy_price < r.sell_price <= PRICE_CAP
    &&& r.profit_per_scu == r.sell_price - r.buy_price
    &&& r.roi_percent == (r.profit_per_scu as int) * 100_000 / (r.buy_price as int)
    &&& r.roi_percent > 0
    &&& r.buy_stock <= STOCK_CAP
    &&& r.sell_demand <= STOCK_CAP
    &&& (match r.distance_gm {
        Some(d) => d <= DIST_CAP,
        None => true,
    })
    &&& 0 <= r.buy_user_rows <= ROWS_CAP
    &&& 0 <= r.sell_user_rows <= ROWS_CAP
}

impl Clone for TradeRoute {
    /// An exact copy of the route.
    fn clone(&self) -> (r: Self)
        ensures
            r == *self,
    {
        TradeRoute {
            commodity_id: self.commodity_id.clone(),
            commodity_name: self.commodity_name.clone(),
            is_illegal: self.is_illegal,
            buy_terminal_id: self.buy_terminal_id,
            buy_terminal_name: self.buy_terminal_name.clone(),
            buy_system: clone_opt_string(&self.buy_system),
            buy_price: self.buy_price,
            buy_stock: self.buy_stock,
            buy_user_rows: self.buy_user_rows,
            buy_is_planetary: self.buy_is_planetary,
            sell_terminal_id: self.sell_terminal_id,
            sell_terminal_name: self.sell_terminal_name.clone(),
            sell_system: clone_opt_string(&self.sell_system),
            sell_price: self.sell_price,
            sell_demand: self.sell_demand,
            sell_user_rows: self.sell_user_rows,
            sell_is_planetary: self.sell_is_planetary,
            sell_is_nqa: self.sell_is_nqa,
            distance_gm: self.distance_gm,
            profit_per_scu: self.profit_per_scu,
            roi_percent: self.roi_percent,
        }
    }
}

/// Largest quantity the route can move: the smaller of stock and
/// demand, saturated to 32 bits.
pub open spec fn spec_max_tradeable(r: TradeRoute) -> u32 {
    let m = if r.buy_stock < r.sell_demand {
        r.buy_stock
    } else {
        r.sell_demand
    };
    if m > u32::MAX as u64 {
        u32::MAX
    } else {
        m as u32
    }
}

/// Quantity actually traded for a request: capped by stock and demand.
pub open spec fn spec_quantity(r: TradeRoute, scu: u32) -> u32 {
    if scu < spec_max_tradeable(r) {
        scu
    } else {
        spec_max_tradeable(r)
    }
}

/// Money spent buying the traded quantity, milli-aUEC.
pub open spec fn spec_invest(r: TradeRoute, scu: u32) -> int {
    (r.buy_price as int) * (spec_quantity(r, scu) as int)
}

/// Profit over the traded quantity, milli-aUEC.
pub open spec fn spec_profit_total(r: TradeRoute, scu: u32) -> int {
    (r.sell_price - r.buy_price) * (spec_quantity(r, scu) as int)
}

/// Profit per gigameter over the traded quantity: `None` without a
/// distance, zero for a zero distance.
pub open spec fn spec_profit_per_gm_qty(r: TradeRoute, scu: u32) -> Option<u128> {
    match r.distance_gm {
        Some(d) => Some(
            (if d > 0 {
                spec_profit_total(r, scu) * 1000 / (d as int)
            } else {
                0
            }) as u128,
        ),
        None => None,
    }
}

/// A route with the figures for one requested quantity.
pub struct TradeRouteWithQuantity {
    pub route: TradeRoute,
    /// Quantity actually traded, SCU.
    pub quantity: u32,
    /// The smaller of stock and demand, SCU.
    pub max_tradeable: u32,
    /// Money spent buying, milli-aUEC.
    pub invest: u128,
    /// Profit over the traded quantity, milli-aUEC.
    pub profit_total: u128,
    /// Profit per gigameter, milli-aUEC per Gm, when a distance is known.
    pub profit_per_gm: Option<u128>,
}

impl TradeRoute {
    /// Figures for a given requested quantity, which is capped by both
    /// the buy terminal's stock and the sell terminal's demand.
    pub fn for_quantity(&self, scu: u32) -> (r: TradeRouteWithQuantity)
        requires
            wf_trade_route(*self),
        ensures
            r.route == *self,
            r.quantity == spec_quantity(*self, scu),
            r.max_tradeable == spec_max_tradeable(*self),
            r.invest == spec_invest(*self, scu),
            r.profit_total == spec_profit_total(*self, scu),
            r.profit_per_gm == spec_profit_per_gm_qty(*self, scu),
            r.quantity <= scu,
            r.quantity <= r.max_tradeable,
    {
        let stock_cap: u64 = if self.buy_stock < self.sell_demand {
            self.buy_stock
        } else {
            self.sell_demand
        };
        let max_tradeable: u32 = if stock_cap > u32::MAX as u64 {
            u32::MAX
        } else {
            stock_cap as u32
        };
        let quantity: u32 = if scu < max_tradeable {
            scu
        } else {
            max_tradeable
        };
        proof {
            lemma_mul_price_qty(self.buy_price as int, quantity as int);
            lemma_mul_price_qty((self.sell_price - self.buy_price) as int, quantity as int);
        }
        let invest: u128 = (self.buy_price as u128) * (quantity as u128);
        let profit_total: u128 = ((self.sell_price - self.buy_price) as u128) * (quantity as u128);
        let profit_per_gm: Option<u128> = match self.distance_gm {
            Some(d) => Some(
                if d > 0 {
                    profit_total * 1000 / (d as u128)
                } else {
                    0
                },
            ),
            None => None,
        };
        TradeRouteWithQuantity {
            route: self.clone(),
            quantity,
            max_tradeable,
            invest,
            profit_total,
            profit_per_gm,
        }
    }

    /// Combined buy-side and sell-side user activity.
    pub fn activity_score(&self) -> (r: i32)
        requires
            wf_trade_route(*self),
        ensures
            r == self.buy_user_rows + self.sell_user_rows,
    {
        self.buy_user_rows + self.sell_user_rows
    }

    /// Profit per gigameter for one SCU: `None` without a distance,
    /// zero for a zero distance.
    pub fn profit_per_gm(&self) -> (r: Option<u64>)
        requires
            wf_trade_route(*self),
        ensures
            r == match self.distance_gm {
                Some(d) => Some(
                    (if d > 0 {
                        (self.profit_per_scu as int) * 1000 / (d as int)
                    } else {
                        0
                    }) as u64,
                ),
                None => None::<u64>,
            },
    {
        match self.distance_gm {
            Some(d) => Some(
                if d > 0 {
                    proof {
                        vstd::arithmetic::div_mod::lemma_div_is_ordered(
                            (self.profit_per_scu as int) * 1000,
                            (PRICE_CAP as int) * 1000,
                            d as int,
                        );
                        assert((self.profit_per_scu as int) * 1000 <= (PRICE_CAP as int) * 1000);
                        vstd::arithmetic::div_mod::lemma_div_pos_is_pos(
                            (self.profit_per_scu as int) * 1000,
                            d as int,
                        );
                    }
                    (self.profit_per_scu * 1000) / d
                } else {
                    0
                },
            ),
            None => None,
        }
    }
}

/// A well-formed price times a 32-bit quantity fits in 128 bits.
proof fn lemma_mul_price_qty(price: int, qty: int)
    requires
        0 <= price <= PRICE_CAP,
        0 <= qty <= u32::MAX,
    ensures
        0 <= price * qty <= (PRICE_CAP as int) * (u32::MAX as int),
{
    assert(price * qty <= (PRICE_CAP as int) * (u32::MAX as int)) by (nonlinear_arith)
        requires
            0 <= price <= PRICE_CAP,
            0 <= qty <= u32::MAX,
    ;
    assert(0 <= price * qty) by (nonlinear_arith)
        requires
            0 <= price,
            0 <= qty,
    ;
}

/// Sorting criteria for trade routes.
#[derive(Clone, Copy, Debug, PartialEq, Eq, Structural)]
pub enum TradeRouteSort {
    ProfitPerGm,
    RoiPercent,
    ProfitTotal,
    ActivityScore,
    Distance,
    CargoValue,
}

impl Default for TradeRouteSort {
    /// Routes rank by profit per gigameter unless asked otherwise.
    fn default() -> (r: Self)
        ensures
            r == TradeRouteSort::ProfitPerGm,
    {
        TradeRouteSort::ProfitPerGm
    }
}

/// The label shown for a sorting criterion.
pub open spec fn spec_sort_label(s: TradeRouteSort) -> Seq<char> {
    match s {
        TradeRouteSort::ProfitPerGm => "Profit/Gm"@,
        TradeRouteSort::RoiPercent => "ROI %"@,
        TradeRouteSort::ProfitTotal => "Profit"@,
        TradeRouteSort::ActivityScore => "Traffic"@,
        TradeRouteSort::Distance => "Distanz"@,
        TradeRouteSort::CargoValue => "Warenwert"@,
    }
}

impl TradeRouteSort {
    /// Display label of the criterion.
    pub fn label(&self) -> (r: &'static str)
        ensures
            r@ == spec_sort_label(*self),
    {
        match self {
            TradeRouteSort::ProfitPerGm => "Profit/Gm",
            TradeRouteSort::RoiPercent => "ROI %",
            TradeRouteSort::ProfitTotal => "Profit",
            TradeRouteSort::ActivityScore => "Traffic",
            TradeRouteSort::Distance => "Distanz",
            TradeRouteSort::CargoValue => "Warenwert",
        }
    }
}

/// The integer key a route sorts by under a criterion; a missing
/// distance sorts as the largest distance.
pub open spec fn spec_route_key(r: TradeRoute, sort: TradeRouteSort, scu: u32) -> int {
    match sort {
        TradeRouteSort::ProfitPerGm => match r.distance_gm {
            Some(d) => if d > 0 {
                (r.profit_per_scu as int) * 1000 / (d as int)
            } else {
                0
            },
            None => 0,
        },
        TradeRouteSort::RoiPercent => r.roi_percent as int,
        TradeRouteSort::ProfitTotal => spec_profit_total(r, scu),
        TradeRouteSort::ActivityScore => r.buy_user_rows + r.sell_user_rows,
        TradeRouteSort::Distance => match r.distance_gm {
            Some(d) => d as int,
            None => u64::MAX as int,
        },
        TradeRouteSort::CargoValue => r.buy_price as int,
    }
}

/// Whether route `a` may come before route `b` under a criterion and
/// direction.
pub open spec fn spec_route_leq(
    a: TradeRoute,
    b: TradeRoute,
    sort: TradeRouteSort,
    scu: u32,
    descending: bool,
) -> bool {
    if descending {
        spec_route_key(b, sort, scu) <= spec_route_key(a, sort, scu)
    } else {
        spec_route_key(a, sort, scu) <= spec_route_key(b, sort, scu)
    }
}

/// The route order under a criterion and direction.
pub open spec fn route_leq(sort: TradeRouteSort, scu: u32, descending: bool) -> spec_fn(
    TradeRoute,
    TradeRoute,
) -> bool {
    |a: TradeRoute, b: TradeRoute| spec_route_leq(a, b, sort, scu, descending)
}

/// Executable route key, exact.
fn route_key(r: &TradeRoute, sort: TradeRouteSort, scu: u32) -> (k: i128)
    requires
        wf_trade_route(*r),
    ensures
        k == spec_route_key(*r, sort, scu),
{
    match sort {
        TradeRouteSort::ProfitPerGm => match r.distance_gm {
            Some(d) => if d > 0 {
                ((r.profit_per_scu * 1000) / d) as i128
            } else {
                0
            },
            None => 0,
        },
        TradeRouteSort::RoiPercent => r.roi_percent as i128,
        TradeRouteSort::ProfitTotal => {
            proof {
                lemma_mul_price_qty((r.sell_price - r.buy_price) as int, spec_quantity(
                    *r,
                    scu,
                ) as int);
            }
            let q = r.for_quantity(scu);
            q.profit_total as i128
        },
        TradeRouteSort::ActivityScore => (r.buy_user_rows as i128) + (r.sell_user_rows as i128),
        TradeRouteSort::Distance => match r.distance_gm {
            Some(d) => d as i128,
            None => u64::MAX as i128,
        },
        TradeRouteSort::CargoValue => r.buy_price as i128,
    }
}

/// Sort routes in place by a criterion, ascending or descending.
///
/// The result is the stable sort of the input: a sorted permutation
/// in which routes with equal keys keep their input order.
pub fn sort_routes(routes: &mut Vec<TradeRoute>, sort: TradeRouteSort, scu: u32, descending: bool)
    requires
        forall|i: int| 0 <= i < old(routes)@.len() ==> wf_trade_route(#[trigger] old(routes)@[i]),
    ensures
        final(routes)@ == sort_by_spec(old(routes)@, route_leq(sort, scu, descending)),
        sorted_by(final(routes)@, route_leq(sort, scu, descending)),
        final(routes)@.to_multiset() == old(routes)@.to_multiset(),
{
    let ghost leq = route_leq(sort, scu, descending);
    proof {
        assert forall|a: TradeRoute, b: TradeRoute| #[trigger] leq(a, b) || #[trigger] leq(
            b,
            a,
        ) by {
            assert(spec_route_key(a, sort, scu) <= spec_route_key(b, sort, scu) || spec_route_key(
                b,
                sort,
                scu,
            ) <= spec_route_key(a, sort, scu));
        }
        assert forall|a: TradeRoute, b: TradeRoute, c: TradeRoute|
            #[trigger] leq(a, b) && #[trigger] leq(b, c) implies leq(a, c) by {}
    }
    let mut owned: Vec<TradeRoute> = Vec::new();
    core::mem::swap(routes, &mut owned);
    let sorted = insertion_sort(
        owned,
        (|a: &TradeRoute, b: &TradeRoute| -> (c: bool)
            requires
                wf_trade_route(*a),
                wf_trade_route(*b),
            ensures
                c == spec_route_leq(*a, *b, sort, scu, descending),
            {
                let ka = route_key(a, sort, scu);
                let kb = route_key(b, sort, scu);
                if descending {
                    kb <= ka
                } else {
                    ka <= kb
                }
            }),
        Ghost(leq),
        Ghost(|r: TradeRoute| wf_trade_route(r)),
    );
    let mut sorted = sorted;
    core::mem::swap(routes, &mut sorted);
    proof {
        crate::sorting::lemma_sort_by_spec(old(routes)@, leq);
    }
}

/// Conjunction of optional route filters; an absent filter always passes.
pub struct TradeRouteFilter {
    /// Largest acceptable investment, milli-aUEC, at the requested quantity.
    pub max_invest: Option<u128>,
    /// Smallest acceptable total profit, milli-aUEC, at the requested quantity.
    pub min_profit: Option<u128>,
    /// Smallest acceptable return on investment, milli-percent.
    pub min_roi_percent: Option<u64>,
    /// Largest acceptable distance, milli-gigameters.
    pub max_distance_gm: Option<u64>,
    pub only_illegal: bool,
    pub only_nqa_sell: bool,
    pub commodity_id: Option<String>,
    pub buy_system: Option<String>,
    pub sell_system: Option<String>,
}

impl Default for TradeRouteFilter {
    /// The filter that accepts every route.
    fn default() -> (r: Self)
        ensures
            r.max_invest is None,
            r.min_profit is None,
            r.min_roi_percent is None,
            r.max_distance_gm is None,
            !r.only_illegal,
            !r.only_nqa_sell,
            r.commodity_id is None,
            r.buy_system is None,
            r.sell_system is None,
    {
        TradeRouteFilter {
            max_invest: None,
            min_profit: None,
            min_roi_percent: None,
            max_distance_gm: None,
            only_illegal: false,
            only_nqa_sell: false,
            commodity_id: None,
            buy_system: None,
            sell_system: None,
        }
    }
}

/// Whether a route passes every set filter at the requested quantity.
pub open spec fn spec_matches(f: TradeRouteFilter, r: TradeRoute, scu: u32) -> bool {
    &&& (match f.max_invest {
        Some(m) => spec_invest(r, scu) <= m,
        None => true,
    })
    &&& (match f.min_profit {
        Some(m) => spec_profit_total(r, scu) >= m,
        None => true,
    })
    &&& (match f.min_roi_percent {
        Some(m) => r.roi_percent >= m,
        None => true,
    })
    &&& (match f.max_distance_gm {
        Some(m) => match r.distance_gm {
            Some(d) => d <= m,
            None => true,
        },
        None => true,
    })
    &&& (f.only_illegal ==> r.is_illegal)
    &&& (f.only_nqa_sell ==> r.sell_is_nqa)
    &&& (match f.commodity_id {
        Some(c) => r.commodity_id@ == c@,
        None => true,
    })
    &&& (match f.buy_system {
        Some(s) => match r.buy_system {
            Some(rs) => rs@ == s@,
            None => false,
        },
        None => true,
    })
    &&& (match f.sell_system {
        Some(s) => match r.sell_system {
            Some(rs) => rs@ == s@,
            None => false,
        },
        None => true,
    })
}

impl TradeRouteFilter {
    /// Whether a route passes every set filter at the requested quantity.
    pub fn matches(&self, route: &TradeRoute, scu: u32) -> (r: bool)
        requires
            wf_trade_route(*route),
        ensures
            r == spec_matches(*self, *route, scu),
    {
        let with_qty = route.for_quantity(scu);
        if let Some(m) = self.max_invest {
            if with_qty.invest > m {
                return false;
            }
        }
        if let Some(m) = self.min_profit {
            if with_qty.profit_total < m {
                return false;
            }
        }
        if let Some(m) = self.min_roi_percent {
            if route.roi_percent < m {
                return false;
            }
        }
        if let Some(m) = self.max_distance_gm {
            if let Some(d) = route.distance_gm {
                if d > m {
                    return false;
                }
            }
        }
        if self.only_illegal && !route.is_illegal {
            return false;
        }
        if self.only_nqa_sell && !route.sell_is_nqa {
            return false;
        }
        if let Some(c) = &self.commodity_id {
            if !(route.commodity_id == *c) {
                return false;
            }
        }
        if let Some(s) = &self.buy_system {
            match &route.buy_system {
                Some(rs) => if !(*rs == *s) {
                    return false;
                },
                None => {
                    return false;
                },
            }
        }
        if let Some(s) = &self.sell_system {
            match &route.sell_system {
                Some(rs) => if !(*rs == *s) {
                    return false;
                },
                None => {
                    return false;
                },
            }
        }
        true
    }
}

/// Whether a point can be bought from: a direct buy price and stock.
pub open spec fn buy_candidate(p: PricePoint) -> bool {
    has_pos(p.price_buy) && has_pos(p.scu_buy)
}

/// Whether a point can be sold to: a direct sell price and demand.
pub open spec fn sell_candidate(p: PricePoint) -> bool {
    has_pos(p.price_sell) && has_pos(p.scu_sell_stock)
}

/// The route made of one buy point and one sell point, or nothing:
/// the pair must use two different terminals, quote a strictly
/// positive profit, and round to a strictly positive return on
/// investment.  Route math uses the direct `price_buy` and
/// `price_sell` fields, not the display fallback chains: a route needs
/// the literal transactable prices.
pub open spec fn route_of(
    cid: String,
    cname: String,
    is_illegal: bool,
    buy: PricePoint,
    sell: PricePoint,
    nqa: NqaSet,
) -> Option<TradeRoute> {
    if !buy_candidate(buy) || !sell_candidate(sell) {
        None
    } else if buy.terminal_id == sell.terminal_id {
        None
    } else {
        let buy_price = buy.price_buy.unwrap();
        let sell_price = sell.price_sell.unwrap();
        if sell_price <= buy_price {
            None
        } else {
            let profit = sell_price - buy_price;
            let roi = (profit as int) * 100_000 / (buy_price as int);
            if roi <= 0 {
                None
            } else {
                Some(
                    TradeRoute {
                        commodity_id: cid,
                        commodity_name: cname,
                        is_illegal,
                        buy_terminal_id: match buy.terminal_id {
                            Some(id) => id,
                            None => 0,
                        },
                        buy_terminal_name: buy.terminal_name,
                        buy_system: buy.system,
                        buy_price,
                        buy_stock: buy.scu_buy.unwrap(),
                        buy_user_rows: match buy.buy_user_rows {
                            Some(v) => v,
                            None => 0,
                        },
                        buy_is_planetary: buy.is_planetary,
                        sell_terminal_id: match sell.terminal_id {
                            Some(id) => id,
                            None => 0,
                        },
                        sell_terminal_name: sell.terminal_name,
                        sell_system: sell.system,
                        sell_price,
                        sell_demand: sell.scu_sell_stock.unwrap(),
                        sell_user_rows: match sell.sell_user_rows {
                            Some(v) => v,
                            None => 0,
                        },
                        sell_is_planetary: sell.is_planetary,
                        sell_is_nqa: match sell.terminal_id {
                            Some(id) => nqa.spec_contains(id),
                            None => false,
                        },
                        distance_gm: None,
                        profit_per_scu: profit as u64,
                        roi_percent: roi as u64,
                    },
                )
            }
        }
    }
}

/// A route as a one-element sequence, or the empty sequence.
pub open spec fn opt_route_seq(o: Option<TradeRoute>) -> Seq<TradeRoute> {
    match o {
        Some(r) => seq![r],
        None => Seq::empty(),
    }
}

/// All routes from one buy point against a list of sell points, in order.
pub open spec fn routes_for_buy(
    cid: String,
    cname: String,
    is_illegal: bool,
    buy: PricePoint,
    sells: Seq<PricePoint>,
    nqa: NqaSet,
) -> Seq<TradeRoute>
    decreases sells.len(),
{
    if sells.len() == 0 {
        Seq::empty()
    } else {
        routes_for_buy(cid, cname, is_illegal, buy, sells.drop_last(), nqa) + opt_route_seq(
            route_of(cid, cname, is_illegal, buy, sells.last(), nqa),
        )
    }
}

/// All routes over a list of buy points, each against all sell points.
pub open spec fn routes_for_buys(
    cid: String,
    cname: String,
    is_illegal: bool,
    buys: Seq<PricePoint>,
    sells: Seq<PricePoint>,
    nqa: NqaSet,
) -> Seq<TradeRoute>
    decreases buys.len(),
{
    if buys.len() == 0 {
        Seq::empty()
    } else {
        routes_for_buys(cid, cname, is_illegal, buys.drop_last(), sells, nqa) + routes_for_buy(
            cid,
            cname,
            is_illegal,
            buys.last(),
            sells,
            nqa,
        )
    }
}

/// Every profitable buy/sell pairing over one commodity's price points.
pub open spec fn spec_routes(
    cid: String,
    cname: String,
    is_illegal: bool,
    prices: Seq<PricePoint>,
    nqa: NqaSet,
) -> Seq<TradeRoute> {
    routes_for_buys(cid, cname, is_illegal, prices, prices, nqa)
}

/// Every route a pairing can produce is well formed: profit per SCU
/// and return on investment are strictly positive and every figure is
/// within its cap.
pub proof fn lemma_route_of_wf(
    cid: String,
    cname: String,
    is_illegal: bool,
    buy: PricePoint,
    sell: PricePoint,
    nqa: NqaSet,
)
    requires
        wf_price_point(buy),
        wf_price_point(sell),
    ensures
        match route_of(cid, cname, is_illegal, buy, sell, nqa) {
            Some(r) => wf_trade_route(r) && r.profit_per_scu > 0 && r.roi_percent > 0
                && r.commodity_id == cid && r.commodity_name == cname && r.is_illegal
                == is_illegal,
            None => true,
        },
{
    if route_of(cid, cname, is_illegal, buy, sell, nqa) is Some {
        let buy_price = buy.price_buy.unwrap();
        let sell_price = sell.price_sell.unwrap();
        let profit = sell_price - buy_price;
        vstd::arithmetic::div_mod::lemma_div_is_ordered(
            (profit as int) * 100_000,
            (PRICE_CAP as int) * 100_000,
            buy_price as int,
        );
        vstd::arithmetic::div_mod::lemma_div_is_ordered_by_denominator(
            (PRICE_CAP as int) * 100_000,
            1,
            buy_price as int,
        );
        assert((profit as int) * 100_000 <= (PRICE_CAP as int) * 100_000);
        assert((profit as int) * 100_000 / (buy_price as int) <= (PRICE_CAP as int) * 100_000);
    }
}

/// All routes over well-formed points are well formed.
pub proof fn lemma_routes_wf(
    cid: String,
    cname: String,
    is_illegal: bool,
    buys: Seq<PricePoint>,
    sells: Seq<PricePoint>,
    nqa: NqaSet,
)
    requires
        forall|i: int| 0 <= i < buys.len() ==> wf_price_point(#[trigger] buys[i]),
        forall|i: int| 0 <= i < sells.len() ==> wf_price_point(#[trigger] sells[i]),
    ensures
        forall|i: int|
            0 <= i < routes_for_buys(cid, cname, is_illegal, buys, sells, nqa).len() ==> {
                let r = #[trigger] routes_for_buys(cid, cname, is_illegal, buys, sells, nqa)[i];
                wf_trade_route(r) && r.profit_per_scu > 0 && r.roi_percent > 0 && r.commodity_id
                    == cid && r.commodity_name == cname && r.is_illegal == is_illegal
            },
    decreases buys.len(),
{
    if buys.len() > 0 {
        lemma_routes_wf(cid, cname, is_illegal, buys.drop_last(), sells, nqa);
        lemma_routes_for_buy_wf(cid, cname, is_illegal, buys.last(), sells, nqa);
    }
}

/// All routes from one well-formed buy point are well formed.
pub proof fn lemma_routes_for_buy_wf(
    cid: String,
    cname: String,
    is_illegal: bool,
    buy: PricePoint,
    sells: Seq<PricePoint>,
    nqa: NqaSet,
)
    requires
        wf_price_point(buy),
        forall|i: int| 0 <= i < sells.len() ==> wf_price_point(#[trigger] sells[i]),
    ensures
        forall|i: int|
            0 <= i < routes_for_buy(cid, cname, is_illegal, buy, sells, nqa).len() ==> {
                let r = #[trigger] routes_for_buy(cid, cname, is_illegal, buy, sells, nqa)[i];
                wf_trade_route(r) && r.profit_per_scu > 0 && r.roi_percent > 0 && r.commodity_id
                    == cid && r.commodity_name == cname && r.is_illegal == is_illegal
            },
    decreases sells.len(),
{
    if sells.len() > 0 {
        lemma_routes_for_buy_wf(cid, cname, is_illegal, buy, sells.drop_last(), nqa);
        lemma_route_of_wf(cid, cname, is_illegal, buy, sells.last(), nqa);
    }
}

/// Build the route from one buy point and one sell point, if the pair
/// is profitable, exactly as `route_of` describes.
fn build_route(
    commodity_id: &String,
    commodity_name: &String,
    is_illegal: bool,
    buy: &PricePoint,
    sell: &PricePoint,
    nqa_terminal_ids: &NqaSet,
) -> (r: Option<TradeRoute>)
    requires
        wf_price_point(*buy),
        wf_price_point(*sell),
    ensures
        r == route_of(
            *commodity_id,
            *commodity_name,
            is_illegal,
            *buy,
            *sell,
            *nqa_terminal_ids,
        ),
{
    let buy_price: u64 = match buy.price_buy {
        Some(v) => v,
        None => 0,
    };
    let buy_stock: u64 = match buy.scu_buy {
        Some(v) => v,
        None => 0,
    };
    if buy_price == 0 || buy_stock == 0 {
        return None;
    }
    let sell_price: u64 = match sell.price_sell {
        Some(v) => v,
        None => 0,
    };
    let sell_demand: u64 = match sell.scu_sell_stock {
        Some(v) => v,
        None => 0,
    };
    if sell_price == 0 || sell_demand == 0 {
        return None;
    }
    let same_terminal: bool = match (buy.terminal_id, sell.terminal_id) {
        (Some(a), Some(b)) => a == b,
        (None, None) => true,
        _ => false,
    };
    if same_terminal {
        return None;
    }
    if sell_price <= buy_price {
        return None;
    }
    let profit: u64 = sell_price - buy_price;
    let roi: u64 = (profit * 100_000) / buy_price;
    if roi == 0 {
        return None;
    }
    proof {
        vstd::arithmetic::div_mod::lemma_div_pos_is_pos((profit as int) * 100_000, buy_price as int);
    }
    let sell_is_nqa: bool = nqa_terminal_ids.contains_opt(sell.terminal_id);
    Some(
        TradeRoute {
            commodity_id: commodity_id.clone(),
            commodity_name: commodity_name.clone(),
            is_illegal,
            buy_terminal_id: match buy.terminal_id {
                Some(id) => id,
                None => 0,
            },
            buy_terminal_name: buy.terminal_name.clone(),
            buy_system: clone_opt_string(&buy.system),
            buy_price,
            buy_stock,
            buy_user_rows: match buy.buy_user_rows {
                Some(v) => v,
                None => 0,
            },
            buy_is_planetary: buy.is_planetary,
            sell_terminal_id: match sell.terminal_id {
                Some(id) => id,
                None => 0,
            },
            sell_terminal_name: sell.terminal_name.clone(),
            sell_system: clone_opt_string(&sell.system),
            sell_price,
            sell_demand,
            sell_user_rows: match sell.sell_user_rows {
                Some(v) => v,
                None => 0,
            },
            sell_is_planetary: sell.is_planetary,
            sell_is_nqa,
            distance_gm: None,
            profit_per_scu: profit,
            roi_percent: roi,
        },
    )
}

/// Calculate all profitable trade routes for one commodity.
///
/// Buy candidates have a direct buy price and stock; sell candidates a
/// direct sell price and demand.  Every buy/sell pairing over two
/// different terminals with a strictly positive profit and return on
/// investment yields a route, in buy-major order over the input.
pub fn calculate_routes_for_commodity(
    commodity_id: &String,
    commodity_name: &String,
    is_illegal: bool,
    prices: &Vec<PricePoint>,
    nqa_terminal_ids: &NqaSet,
) -> (routes: Vec<TradeRoute>)
    requires
        wf_price_points(prices@),
    ensures
        routes@ == spec_routes(
            *commodity_id,
            *commodity_name,
            is_illegal,
            prices@,
            *nqa_terminal_ids,
        ),
        forall|i: int|
            0 <= i < routes@.len() ==> wf_trade_route(#[trigger] routes@[i])
                && routes@[i].profit_per_scu > 0 && routes@[i].roi_percent > 0,
{
    let ghost cid = *commodity_id;
    let ghost cname = *commodity_name;
    let ghost nqa = *nqa_terminal_ids;
    let n: usize = prices.len();
    let mut routes: Vec<TradeRoute> = Vec::new();
    proof {
        assert(prices@.take(0) =~= Seq::<PricePoint>::empty());
    }
    for i in 0..n
        invariant
            n == prices@.len(),
            wf_price_points(prices@),
            cid == *commodity_id,
            cname == *commodity_name,
            nqa == *nqa_terminal_ids,
            routes@ == routes_for_buys(cid, cname, is_illegal, prices@.take(i as int), prices@, nqa),
    {
        proof {
            lemma_take_step(prices@, i as int);
            assert(prices@.take(0) =~= Seq::<PricePoint>::empty());
        }
        let buy = &prices[i];
        let ghost outer_pre = routes@;
        for j in 0..n
            invariant
                n == prices@.len(),
                wf_price_points(prices@),
                cid == *commodity_id,
                cname == *commodity_name,
                nqa == *nqa_terminal_ids,
                buy == &prices[i as int],
                0 <= i < n,
                routes@ == outer_pre + routes_for_buy(
                    cid,
                    cname,
                    is_illegal,
                    prices@[i as int],
                    prices@.take(j as int),
                    nqa,
                ),
        {
            proof {
                lemma_take_step(prices@, j as int);
            }
            let sell = &prices[j];
            match build_route(commodity_id, commodity_name, is_illegal, buy, sell, nqa_terminal_ids)
                {
                Some(route) => {
                    let ghost pre = routes@;
                    routes.push(route);
                    proof {
                        assert(routes@ =~= pre + seq![route]);
                        assert(routes@ =~= outer_pre + routes_for_buy(
                            cid,
                            cname,
                            is_illegal,
                            prices@[i as int],
                            prices@.take(j + 1),
                            nqa,
                        ));
                    }
                },
                None => {
                    proof {
                        assert(routes@ =~= outer_pre + routes_for_buy(
                            cid,
                            cname,
                            is_illegal,
                            prices@[i as int],
                            prices@.take(j + 1),
                            nqa,
                        ));
                    }
                },
            }
        }
        proof {
            lemma_take_all(prices@);
            assert(routes@ =~= routes_for_buys(
                cid,
                cname,
                is_illegal,
                prices@.take(i + 1),
                prices@,
                nqa,
            ));
        }
    }
    proof {
        lemma_take_all(prices@);
        lemma_routes_wf(cid, cname, is_illegal, prices@, prices@, nqa);
    }
    routes
}

/// Calculating routes twice over the same inputs yields the same list:
/// any two results that satisfy the calculator's contract agree.
pub proof fn lemma_routes_deterministic(
    a: Seq<TradeRoute>,
    b: Seq<TradeRoute>,
    cid: String,
    cname: String,
    is_illegal: bool,
    prices: Seq<PricePoint>,
    nqa: NqaSet,
)
    requires
        a == spec_routes(cid, cname, is_illegal, prices, nqa),
        b == spec_routes(cid, cname, is_illegal, prices, nqa),
    ensures
        a == b,
{
}

} // verus!
