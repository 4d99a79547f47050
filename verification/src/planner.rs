//! Sell planner: given the current cargo and price data, build either
//! a single best-stop plan or a multi-stop plan maximizing the value
//! per item, then sequence multi-stop plans by nearest neighbor when a
//! distance overlay is available.
//!
//! Hot cargo is only ever routed to no-questions-asked terminals:
//! other price points are excluded entirely, not merely down-ranked.

use vstd::prelude::*;

use crate::entities::{
    clone_opt_string, lemma_book_lookup_wf, planner_sell_price, wf_price_book, wf_price_point,
    wf_price_points, CargoItem, NqaSet, PriceBook, PricePoint, MAX_ITEMS, MAX_POINTS, PRICE_CAP,
};
use crate::seqs::{lemma_take_all, lemma_take_step};

verus! {

/// How the planner routes cargo.
#[derive(Clone, Copy, Debug, PartialEq, Eq, Structural)]
pub enum PlannerMode {
    /// Everything goes to the single terminal with the highest total.
    OneStop,
    /// Each item goes to its own best terminal.
    BestValue,
}

impl Default for PlannerMode {
    /// The planner suggests a single stop unless asked otherwise.
    fn default() -> (r: Self)
        ensures
            r == PlannerMode::OneStop,
    {
        PlannerMode::OneStop
    }
}

/// One cargo item sold at a stop.
pub struct SellItem {
    pub commodity_name: String,
    /// The cargo item's own id.
    pub commodity_id: String,
    /// Quantity sold, SCU.
    pub scu: u32,
    /// Resolved sell price, milli-aUEC.
    pub price_per_unit: u64,
    /// Price times quantity, milli-aUEC.
    pub total_value: u128,
    /// Sell-side stock reported by the chosen terminal, SCU.
    pub available_stock: Option<u64>,
}

/// One terminal visited by a plan, with the items sold there.
pub struct SellStop {
    pub terminal_name: String,
    pub terminal_id: Option<i32>,
    pub system: Option<String>,
    pub items: Vec<SellItem>,
    /// Sum of the item values sold here, milli-aUEC.
    pub stop_value: u128,
    pub is_nqa: bool,
    /// Distance from the previous stop, milli-gigameters, when known.
    pub distance_from_prev: Option<u64>,
}

/// An ordered list of stops with the plan's total value.
pub struct SellPlan {
    pub stops: Vec<SellStop>,
    /// Sum of all stop values, milli-aUEC.
    pub total_value: u128,
    /// Total route length, milli-gigameters, when distances are known.
    pub total_distance: Option<u64>,
}

/// The ghost shape of a stop under construction: the items as a
/// sequence and the value as an unbounded integer.
pub struct StopModel {
    pub terminal_name: String,
    pub terminal_id: Option<i32>,
    pub system: Option<String>,
    pub items: Seq<SellItem>,
    pub stop_value: int,
    pub is_nqa: bool,
}

/// Whether an executable stop realizes a stop model, before any
/// distance is attached.
pub open spec fn stop_matches(s: SellStop, m: StopModel) -> bool {
    &&& s.terminal_name == m.terminal_name
    &&& s.terminal_id == m.terminal_id
    &&& s.system == m.system
    &&& s.items@ == m.items
    &&& s.stop_value == m.stop_value
    &&& s.is_nqa == m.is_nqa
    &&& s.distance_from_prev is None
}

/// Whether a point may take an item: hot cargo only goes to
/// no-questions-asked terminals.
pub open spec fn compatible(item: CargoItem, p: PricePoint, nqa: NqaSet) -> bool {
    !item.is_hot || (match p.terminal_id {
        Some(id) => nqa.spec_contains(id),
        None => false,
    })
}

/// Whether a point is flagged no-questions-asked.
pub open spec fn point_is_nqa(p: PricePoint, nqa: NqaSet) -> bool {
    match p.terminal_id {
        Some(id) => nqa.spec_contains(id),
        None => false,
    }
}

/// The first stop in the state selling under a terminal name.
pub open spec fn find_stop(state: Seq<StopModel>, name: Seq<char>) -> Option<int>
    decreases state.len(),
{
    if state.len() == 0 {
        None
    } else if state[0].terminal_name@ == name {
        Some(0int)
    } else {
        match find_stop(state.drop_first(), name) {
            Some(i) => Some(i + 1),
            None => None,
        }
    }
}

/// The sell item recorded when an item is routed to a point.
pub open spec fn sale_of(item: CargoItem, p: PricePoint, price: u64) -> SellItem {
    SellItem {
        commodity_name: item.commodity_name,
        commodity_id: item.id,
        scu: item.scu,
        price_per_unit: price,
        total_value: ((item.scu as int) * (price as int)) as u128,
        available_stock: p.scu_sell_stock,
    }
}

/// Route one (item, point) pair into the accumulating one-stop state:
/// incompatible or priceless points change nothing; otherwise the sale
/// joins the stop with the point's terminal name, which is created on
/// first use.
pub open spec fn add_sale(
    state: Seq<StopModel>,
    item: CargoItem,
    p: PricePoint,
    nqa: NqaSet,
) -> Seq<StopModel> {
    if !compatible(item, p, nqa) || planner_sell_price(p) is None {
        state
    } else {
        let price = planner_sell_price(p).unwrap();
        let value = (item.scu as int) * (price as int);
        let sale = sale_of(item, p, price);
        match find_stop(state, p.terminal_name@) {
            Some(idx) => state.update(
                idx,
                StopModel {
                    items: state[idx].items.push(sale),
                    stop_value: state[idx].stop_value + value,
                    ..state[idx]
                },
            ),
            None => state.push(
                StopModel {
                    terminal_name: p.terminal_name,
                    terminal_id: p.terminal_id,
                    system: p.system,
                    items: seq![sale],
                    stop_value: value,
                    is_nqa: point_is_nqa(p, nqa),
                },
            ),
        }
    }
}

/// Route one item against all of its price points, in order.
pub open spec fn add_item_sales(
    state: Seq<StopModel>,
    item: CargoItem,
    ps: Seq<PricePoint>,
    nqa: NqaSet,
) -> Seq<StopModel>
    decreases ps.len(),
{
    if ps.len() == 0 {
        state
    } else {
        add_sale(add_item_sales(state, item, ps.drop_last(), nqa), item, ps.last(), nqa)
    }
}

/// The one-stop accumulation over a whole cargo list: items whose
/// commodity has no price list are skipped.
pub open spec fn one_stop_state(
    items: Seq<CargoItem>,
    book: PriceBook,
    nqa: NqaSet,
) -> Seq<StopModel>
    decreases items.len(),
{
    if items.len() == 0 {
        Seq::empty()
    } else {
        let prev = one_stop_state(items.drop_last(), book, nqa);
        match book.spec_get(items.last().commodity_id@) {
            Some(ps) => add_item_sales(prev, items.last(), ps, nqa),
            None => prev,
        }
    }
}

/// The first index of a stop with the highest value, or nothing for
/// an empty state.
pub open spec fn best_stop_index(state: Seq<StopModel>) -> int
    recommends
        state.len() > 0,
    decreases state.len(),
{
    if state.len() <= 1 {
        0
    } else {
        let rest = best_stop_index(state.drop_first()) + 1;
        if state[rest].stop_value > state[0].stop_value {
            rest
        } else {
            0
        }
    }
}

/// The chosen index of a non-empty state is in range, maximal, and
/// the earliest index reaching the maximum.
pub proof fn lemma_best_stop_index(state: Seq<StopModel>)
    requires
        state.len() > 0,
    ensures
        0 <= best_stop_index(state) < state.len(),
        forall|k: int|
            0 <= k < state.len() ==> (#[trigger] state[k].stop_value) <= state[best_stop_index(
                state,
            )].stop_value,
        forall|k: int|
            0 <= k < best_stop_index(state) ==> (#[trigger] state[k].stop_value) < state[
                best_stop_index(state)].stop_value,
    decreases state.len(),
{
    if state.len() > 1 {
        lemma_best_stop_index(state.drop_first());
        let r0 = best_stop_index(state.drop_first());
        let rest = r0 + 1;
        assert(state.drop_first()[r0] == state[rest]);
        assert forall|k: int| 0 <= k < state.len() implies (#[trigger] state[k].stop_value)
            <= state[best_stop_index(state)].stop_value by {
            if k >= 1 {
                assert(state.drop_first()[k - 1] == state[k]);
                assert(state.drop_first()[k - 1].stop_value <= state.drop_first()[r0].stop_value);
            }
        }
        assert forall|k: int| 0 <= k < best_stop_index(state) implies (
        #[trigger] state[k].stop_value) < state[best_stop_index(state)].stop_value by {
            if k >= 1 {
                assert(state.drop_first()[k - 1] == state[k]);
            }
        }
    }
}

/// Largest value a stop can accumulate over one evaluation pass.
pub open spec fn stop_value_cap() -> int {
    (MAX_ITEMS as int) * (MAX_POINTS as int) * sale_cap()
}

/// Searching past a rejected prefix searches the remainder.
proof fn lemma_find_stop_skip(state: Seq<StopModel>, name: Seq<char>, i: int)
    requires
        0 <= i <= state.len(),
        forall|k: int| 0 <= k < i ==> (#[trigger] state[k].terminal_name)@ != name,
    ensures
        find_stop(state, name) == match find_stop(state.skip(i), name) {
            Some(j) => Some(i + j),
            None => None::<int>,
        },
    decreases i,
{
    if i == 0 {
        assert(state.skip(0) =~= state);
    } else {
        lemma_find_stop_skip(state.drop_first(), name, i - 1);
        assert(state.drop_first().skip(i - 1) =~= state.skip(i));
        assert(forall|k: int|
            0 <= k < state.drop_first().len() ==> #[trigger] state.drop_first()[k] == state[k + 1]);
    }
}

/// Find the stop already selling under a terminal name, exactly.
fn find_stop_index(
    accum: &Vec<SellStop>,
    name: &String,
    Ghost(state): Ghost<Seq<StopModel>>,
) -> (r: Option<usize>)
    requires
        accum@.len() == state.len(),
        forall|k: int| 0 <= k < state.len() ==> stop_matches(#[trigger] accum@[k], state[k]),
    ensures
        match r {
            Some(i) => find_stop(state, name@) == Some(i as int) && i < accum@.len(),
            None => find_stop(state, name@) is None,
        },
{
    let n: usize = accum.len();
    for i in 0..n
        invariant
            n == accum@.len(),
            accum@.len() == state.len(),
            forall|k: int| 0 <= k < state.len() ==> stop_matches(#[trigger] accum@[k], state[k]),
            forall|k: int| 0 <= k < i ==> (#[trigger] state[k].terminal_name)@ != name@,
    {
        if accum[i].terminal_name == *name {
            proof {
                lemma_find_stop_skip(state, name@, i as int);
                assert(state.skip(i as int)[0] == state[i as int]);
            }
            return Some(i);
        }
    }
    proof {
        lemma_find_stop_skip(state, name@, n as int);
        assert(state.skip(n as int) =~= Seq::<StopModel>::empty());
    }
    None
}

/// Route one compatible, priced (item, point) pair into the stop
/// list, mirroring `add_sale` exactly.
fn push_sale(
    accum: &mut Vec<SellStop>,
    item: &CargoItem,
    point: &PricePoint,
    nqa: &NqaSet,
    Ghost(state): Ghost<Seq<StopModel>>,
)
    requires
        wf_price_point(*point),
        old(accum)@.len() == state.len(),
        forall|k: int| 0 <= k < state.len() ==> stop_matches(#[trigger] old(accum)@[k], state[k]),
        forall|k: int|
            0 <= k < state.len() ==> 0 <= (#[trigger] state[k].stop_value) <= stop_value_cap()
                - sale_cap(),
    ensures
        final(accum)@.len() == add_sale(state, *item, *point, *nqa).len(),
        forall|k: int|
            0 <= k < final(accum)@.len() ==> stop_matches(
                #[trigger] final(accum)@[k],
                add_sale(state, *item, *point, *nqa)[k],
            ),
{
    let ghost new_state = add_sale(state, *item, *point, *nqa);
    let compat: bool = if item.is_hot {
        nqa.contains_opt(point.terminal_id)
    } else {
        true
    };
    if !compat {
        return ;
    }
    let price: u64 = match point.best_sell_price() {
        Some(v) => v,
        None => {
            return ;
        },
    };
    proof {
        assert((item.scu as int) * (price as int) <= sale_cap()) by (nonlinear_arith)
            requires
                0 <= item.scu as int <= u32::MAX as int,
                0 <= price as int <= PRICE_CAP as int,
                sale_cap() == (u32::MAX as int) * (PRICE_CAP as int),
        ;
        assert(0 <= (item.scu as int) * (price as int)) by (nonlinear_arith)
            requires
                0 <= item.scu as int,
                0 <= price as int,
        ;
    }
    let item_value: u128 = (item.scu as u128) * (price as u128);
    let sale = SellItem {
        commodity_name: item.commodity_name.clone(),
        commodity_id: item.id.clone(),
        scu: item.scu,
        price_per_unit: price,
        total_value: item_value,
        available_stock: point.scu_sell_stock,
    };
    match find_stop_index(accum, &point.terminal_name, Ghost(state)) {
        Some(idx) => {
            proof {
                lemma_find_stop_range(state, point.terminal_name@);
            }
            let ghost pre = accum@;
            let mut stop = accum.remove(idx);
            stop.stop_value = stop.stop_value + item_value;
            stop.items.push(sale);
            let ghost new_stop = stop;
            accum.insert(idx, stop);
            proof {
                assert(accum@ =~= pre.update(idx as int, new_stop));
                assert(stop_matches(new_stop, new_state[idx as int]));
                assert forall|k: int| 0 <= k < accum@.len() implies stop_matches(
                    #[trigger] accum@[k],
                    new_state[k],
                ) by {
                    if k != idx {
                        assert(accum@[k] == pre[k]);
                        assert(new_state[k] == state[k]);
                    }
                }
            }
        },
        None => {
            let ghost sale_g = sale;
            let mut stop_items: Vec<SellItem> = Vec::new();
            stop_items.push(sale);
            proof {
                assert(stop_items@ =~= seq![sale_g]);
            }
            let stop = SellStop {
                terminal_name: point.terminal_name.clone(),
                terminal_id: point.terminal_id,
                system: clone_opt_string(&point.system),
                items: stop_items,
                stop_value: item_value,
                is_nqa: nqa.contains_opt(point.terminal_id),
                distance_from_prev: None,
            };
            let ghost stop_g = stop;
            let ghost pre = accum@;
            accum.push(stop);
            proof {
                assert(stop_matches(stop_g, new_state[state.len() as int]));
                assert forall|k: int| 0 <= k < accum@.len() implies stop_matches(
                    #[trigger] accum@[k],
                    new_state[k],
                ) by {
                    if k < state.len() {
                        assert(accum@[k] == pre[k]);
                        assert(new_state[k] == state[k]);
                    } else {
                        assert(accum@[k] == stop_g);
                    }
                }
            }
        },
    }
}

/// A found stop index is in range and names the stop searched for.
pub proof fn lemma_find_stop_range(state: Seq<StopModel>, name: Seq<char>)
    ensures
        match find_stop(state, name) {
            Some(i) => 0 <= i < state.len() && state[i].terminal_name@ == name,
            None => true,
        },
    decreases state.len(),
{
    if state.len() > 0 && state[0].terminal_name@ != name {
        lemma_find_stop_range(state.drop_first(), name);
    }
}

/// Largest value one (item, point) sale can carry.
pub open spec fn sale_cap() -> int {
    (u32::MAX as int) * (PRICE_CAP as int)
}

/// Every stop value in the accumulated state is non-negative and
/// bounded by the number of routed pairs times the largest sale.
pub proof fn lemma_add_sale_bound(
    state: Seq<StopModel>,
    item: CargoItem,
    p: PricePoint,
    nqa: NqaSet,
    bound: int,
)
    requires
        wf_price_point(p),
        forall|k: int| 0 <= k < state.len() ==> 0 <= (#[trigger] state[k].stop_value) <= bound,
        0 <= bound,
    ensures
        forall|k: int|
            0 <= k < add_sale(state, item, p, nqa).len() ==> 0 <= (#[trigger] add_sale(
                state,
                item,
                p,
                nqa,
            )[k].stop_value) <= bound + sale_cap(),
{
    if compatible(item, p, nqa) && planner_sell_price(p) is Some {
        let price = planner_sell_price(p).unwrap();
        assert(price <= PRICE_CAP);
        assert(0 <= (item.scu as int) * (price as int) <= sale_cap()) by (nonlinear_arith)
            requires
                0 <= item.scu as int <= u32::MAX as int,
                0 <= price as int <= PRICE_CAP as int,
        ;
        lemma_find_stop_range(state, p.terminal_name@);
    }
}

/// Bound over one item's points.
pub proof fn lemma_add_item_sales_bound(
    state: Seq<StopModel>,
    item: CargoItem,
    ps: Seq<PricePoint>,
    nqa: NqaSet,
    bound: int,
)
    requires
        forall|i: int| 0 <= i < ps.len() ==> wf_price_point(#[trigger] ps[i]),
        forall|k: int| 0 <= k < state.len() ==> 0 <= (#[trigger] state[k].stop_value) <= bound,
        0 <= bound,
    ensures
        forall|k: int|
            0 <= k < add_item_sales(state, item, ps, nqa).len() ==> 0 <= (#[trigger] add_item_sales(
                state,
                item,
                ps,
                nqa,
            )[k].stop_value) <= bound + ps.len() * sale_cap(),
    decreases ps.len(),
{
    if ps.len() == 0 {
    } else {
        lemma_add_item_sales_bound(state, item, ps.drop_last(), nqa, bound);
        lemma_add_sale_bound(
            add_item_sales(state, item, ps.drop_last(), nqa),
            item,
            ps.last(),
            nqa,
            bound + (ps.len() - 1) * sale_cap(),
        );
        assert((ps.len() - 1) * sale_cap() + sale_cap() == ps.len() * sale_cap())
            by (nonlinear_arith);
    }
}

/// Bound over the whole cargo list.
pub proof fn lemma_one_stop_state_bound(items: Seq<CargoItem>, book: PriceBook, nqa: NqaSet)
    requires
        wf_price_book(book),
    ensures
        forall|k: int|
            0 <= k < one_stop_state(items, book, nqa).len() ==> 0 <= (#[trigger] one_stop_state(
                items,
                book,
                nqa,
            )[k].stop_value) <= items.len() * (MAX_POINTS as int) * sale_cap(),
    decreases items.len(),
{
    if items.len() == 0 {
    } else {
        lemma_one_stop_state_bound(items.drop_last(), book, nqa);
        let prev = one_stop_state(items.drop_last(), book, nqa);
        let sc = sale_cap();
        let mp = MAX_POINTS as int;
        let len0 = items.len() - 1;
        let bound0 = len0 * mp * sc;
        assert(sc == (u32::MAX as int) * (PRICE_CAP as int));
        assert(0 <= bound0) by (nonlinear_arith)
            requires
                bound0 == len0 * mp * sc,
                len0 >= 0,
                mp > 0,
                sc > 0,
        ;
        assert(forall|k: int| 0 <= k < prev.len() ==> 0 <= (#[trigger] prev[k].stop_value)
            <= bound0);
        match book.spec_get(items.last().commodity_id@) {
            Some(ps) => {
                lemma_book_lookup_wf(book.entries@, items.last().commodity_id@);
                lemma_add_item_sales_bound(prev, items.last(), ps, nqa, bound0);
                assert(bound0 + ps.len() * sc <= (len0 + 1) * mp * sc) by (nonlinear_arith)
                    requires
                        0 <= ps.len() <= mp,
                        sc > 0,
                        mp > 0,
                        len0 >= 0,
                        bound0 == len0 * mp * sc,
                ;
            },
            None => {
                assert(bound0 <= (len0 + 1) * mp * sc) by (nonlinear_arith)
                    requires
                        0 <= bound0,
                        bound0 == len0 * mp * sc,
                        len0 >= 0,
                        sc > 0,
                        mp > 0,
                ;
            },
        }
    }
}

/// Build the plan that sells everything at the single terminal whose
/// accumulated value over all items is highest.
///
/// Items whose commodity has no compatible priced point are silently
/// left out of the plan; an empty accumulation yields an empty plan.
pub fn calculate_one_stop_plan(
    items: &Vec<CargoItem>,
    price_map: &PriceBook,
    nqa_terminal_ids: &NqaSet,
) -> (r: SellPlan)
    requires
        items@.len() <= MAX_ITEMS,
        wf_price_book(*price_map),
    ensures
        r.total_distance is None,
        ({
            let state = one_stop_state(items@, *price_map, *nqa_terminal_ids);
            if state.len() == 0 {
                r.stops@.len() == 0 && r.total_value == 0
            } else {
                &&& r.stops@.len() == 1
                &&& stop_matches(r.stops@[0], state[best_stop_index(state)])
                &&& r.total_value == state[best_stop_index(state)].stop_value
            }
        }),
{
    let ghost book = *price_map;
    let ghost nqa = *nqa_terminal_ids;
    let n: usize = items.len();
    let mut accum: Vec<SellStop> = Vec::new();
    proof {
        assert(one_stop_state(items@.take(0), book, nqa) =~= Seq::<StopModel>::empty());
    }
    for i in 0..n
        invariant
            n == items@.len(),
            items@.len() <= MAX_ITEMS,
            wf_price_book(book),
            book == *price_map,
            nqa == *nqa_terminal_ids,
            accum@.len() == one_stop_state(items@.take(i as int), book, nqa).len(),
            forall|k: int|
                0 <= k < accum@.len() ==> stop_matches(
                    #[trigger] accum@[k],
                    one_stop_state(items@.take(i as int), book, nqa)[k],
                ),
    {
        proof {
            lemma_take_step(items@, i as int);
        }
        let item = &items[i];
        let ghost prefix_state = one_stop_state(items@.take(i as int), book, nqa);
        match price_map.get(&item.commodity_id) {
            Some(points) => {
                proof {
                    lemma_book_lookup_wf(price_map.entries@, items@[i as int].commodity_id@);
                }
                let m: usize = points.len();
                proof {
                    assert(points@.take(0) =~= Seq::<PricePoint>::empty());
                }
                for j in 0..m
                    invariant
                        n == items@.len(),
                        items@.len() <= MAX_ITEMS,
                        wf_price_book(book),
                        book == *price_map,
                        nqa == *nqa_terminal_ids,
                        0 <= i < n,
                        item == &items@[i as int],
                        m == points@.len(),
                        wf_price_points(points@),
                        book.spec_get(items@[i as int].commodity_id@) == Some(points@),
                        prefix_state == one_stop_state(items@.take(i as int), book, nqa),
                        accum@.len() == add_item_sales(
                            prefix_state,
                            items@[i as int],
                            points@.take(j as int),
                            nqa,
                        ).len(),
                        forall|k: int|
                            0 <= k < accum@.len() ==> stop_matches(
                                #[trigger] accum@[k],
                                add_item_sales(
                                    prefix_state,
                                    items@[i as int],
                                    points@.take(j as int),
                                    nqa,
                                )[k],
                            ),
                {
                    proof {
                        lemma_take_step(points@, j as int);
                    }
                    let ghost cur_state = add_item_sales(
                        prefix_state,
                        items@[i as int],
                        points@.take(j as int),
                        nqa,
                    );
                    proof {
                        lemma_one_stop_state_bound(items@.take(i as int), book, nqa);
                        let sc = sale_cap();
                        let mp = MAX_POINTS as int;
                        let mi = MAX_ITEMS as int;
                        assert(forall|k: int|
                            0 <= k < prefix_state.len() ==> 0 <= (
                            #[trigger] prefix_state[k].stop_value) <= (i as int) * mp * sc)
                            by {
                            assert(items@.take(i as int).len() == i as int);
                            assert(forall|k: int|
                                0 <= k < prefix_state.len() ==> 0 <= (
                                #[trigger] prefix_state[k].stop_value) <= items@.take(
                                    i as int,
                                ).len() * mp * sc);
                        }
                        assert(0 <= (i as int) * mp * sc) by (nonlinear_arith)
                            requires
                                0 <= i as int,
                                mp > 0,
                                sc > 0,
                        ;
                        lemma_add_item_sales_bound(
                            prefix_state,
                            items@[i as int],
                            points@.take(j as int),
                            nqa,
                            (i as int) * mp * sc,
                        );
                        assert((i as int) * mp * sc + (j as int) * sc <= stop_value_cap() - sc)
                            by (nonlinear_arith)
                            requires
                                0 <= i as int <= mi - 1,
                                0 <= j as int <= mp - 1,
                                mp > 0,
                                mi > 0,
                                sc > 0,
                                stop_value_cap() == mi * mp * sc,
                        ;
                        assert(points@.take(j as int).len() == j as int);
                    }
                    push_sale(&mut accum, item, &points[j], nqa_terminal_ids, Ghost(cur_state));
                }
                proof {
                    lemma_take_all(points@);
                }
            },
            None => {},
        }
    }
    proof {
        lemma_take_all(items@);
    }
    let ghost state = one_stop_state(items@, book, nqa);
    let total_stops: usize = accum.len();
    if total_stops == 0 {
        return SellPlan { stops: Vec::new(), total_value: 0, total_distance: None };
    }
    let mut best: usize = 0;
    for k in 1..total_stops
        invariant
            total_stops == accum@.len(),
            accum@.len() == state.len(),
            forall|t: int|
                0 <= t < accum@.len() ==> stop_matches(#[trigger] accum@[t], state[t]),
            0 <= best < k,
            1 <= k <= total_stops,
            forall|t: int|
                0 <= t < k ==> (#[trigger] accum@[t].stop_value) <= accum@[best as int].stop_value,
            forall|t: int|
                0 <= t < best ==> (#[trigger] accum@[t].stop_value) < accum@[
                    best as int].stop_value,
    {
        if accum[k].stop_value > accum[best].stop_value {
            best = k;
        }
    }
    proof {
        lemma_best_stop_index(state);
        let bi = best_stop_index(state);
        assert(forall|t: int|
            0 <= t < state.len() ==> (#[trigger] state[t].stop_value) == accum@[t].stop_value);
        if (best as int) < bi {
            assert(state[best as int].stop_value < state[bi].stop_value);
            assert(accum@[bi].stop_value <= accum@[best as int].stop_value);
            assert(false);
        }
        if bi < (best as int) {
            assert(accum@[bi].stop_value < accum@[best as int].stop_value);
            assert(state[best as int].stop_value <= state[bi].stop_value);
            assert(false);
        }
        assert(best as int == bi);
    }
    let chosen = accum.remove(best);
    let total_value: u128 = chosen.stop_value;
    let mut stops: Vec<SellStop> = Vec::new();
    stops.push(chosen);
    SellPlan { stops, total_value, total_distance: None }
}

/// The best compatible priced point for one item, by resolved sell
/// price; a tie goes to the later point in input order.
pub open spec fn best_point_for(item: CargoItem, ps: Seq<PricePoint>, nqa: NqaSet) -> Option<
    (PricePoint, u64),
>
    decreases ps.len(),
{
    if ps.len() == 0 {
        None
    } else {
        let prev = best_point_for(item, ps.drop_last(), nqa);
        let p = ps.last();
        if compatible(item, p, nqa) && planner_sell_price(p) is Some {
            let price = planner_sell_price(p).unwrap();
            match prev {
                None => Some((p, price)),
                Some((pp, pv)) => if price >= pv {
                    Some((p, price))
                } else {
                    prev
                },
            }
        } else {
            prev
        }
    }
}

/// Route one item to its single best point, if it has one.
pub open spec fn add_best_sale(
    state: Seq<StopModel>,
    item: CargoItem,
    book: PriceBook,
    nqa: NqaSet,
) -> Seq<StopModel> {
    match book.spec_get(item.commodity_id@) {
        Some(ps) => match best_point_for(item, ps, nqa) {
            Some((p, price)) => add_sale(state, item, p, nqa),
            None => state,
        },
        None => state,
    }
}

/// The best-value accumulation over a whole cargo list.
pub open spec fn best_value_state(
    items: Seq<CargoItem>,
    book: PriceBook,
    nqa: NqaSet,
) -> Seq<StopModel>
    decreases items.len(),
{
    if items.len() == 0 {
        Seq::empty()
    } else {
        add_best_sale(best_value_state(items.drop_last(), book, nqa), items.last(), book, nqa)
    }
}

/// The total value of the best-value plan: the sum of each item's
/// best sale.
pub open spec fn best_value_total(items: Seq<CargoItem>, book: PriceBook, nqa: NqaSet) -> int
    decreases items.len(),
{
    if items.len() == 0 {
        0
    } else {
        best_value_total(items.drop_last(), book, nqa) + match book.spec_get(
            items.last().commodity_id@,
        ) {
            Some(ps) => match best_point_for(items.last(), ps, nqa) {
                Some((p, price)) => (items.last().scu as int) * (price as int),
                None => 0,
            },
            None => 0,
        }
    }
}

/// The best point's price respects the price cap.
proof fn lemma_best_point_cap(item: CargoItem, ps: Seq<PricePoint>, nqa: NqaSet)
    requires
        forall|i: int| 0 <= i < ps.len() ==> wf_price_point(#[trigger] ps[i]),
    ensures
        match best_point_for(item, ps, nqa) {
            Some((p, price)) => planner_sell_price(p) == Some(price) && price <= PRICE_CAP
                && compatible(item, p, nqa),
            None => true,
        },
    decreases ps.len(),
{
    if ps.len() > 0 {
        lemma_best_point_cap(item, ps.drop_last(), nqa);
        assert(wf_price_point(ps[ps.len() - 1]));
    }
}

/// Stop values of the best-value state are bounded by one sale per item.
proof fn lemma_best_value_state_bound(items: Seq<CargoItem>, book: PriceBook, nqa: NqaSet)
    requires
        wf_price_book(book),
    ensures
        forall|k: int|
            0 <= k < best_value_state(items, book, nqa).len() ==> 0 <= (
            #[trigger] best_value_state(items, book, nqa)[k].stop_value) <= items.len()
                * sale_cap(),
        0 <= best_value_total(items, book, nqa) <= items.len() * sale_cap(),
    decreases items.len(),
{
    if items.len() > 0 {
        lemma_best_value_state_bound(items.drop_last(), book, nqa);
        let prev = best_value_state(items.drop_last(), book, nqa);
        let bound0 = (items.len() - 1) * sale_cap();
        assert(0 <= bound0) by (nonlinear_arith)
            requires
                items.len() >= 1,
                sale_cap() > 0,
                bound0 == (items.len() - 1) * sale_cap(),
        ;
        assert(bound0 + sale_cap() == items.len() * sale_cap()) by (nonlinear_arith)
            requires
                bound0 == (items.len() - 1) * sale_cap(),
        ;
        match book.spec_get(items.last().commodity_id@) {
            Some(ps) => {
                lemma_book_lookup_wf(book.entries@, items.last().commodity_id@);
                match best_point_for(items.last(), ps, nqa) {
                    Some((p, price)) => {
                        lemma_best_point_cap(items.last(), ps, nqa);
                        assert(wf_price_point(p)) by {
                            lemma_best_point_in(items.last(), ps, nqa);
                        }
                        lemma_add_sale_bound(prev, items.last(), p, nqa, bound0);
                        assert(0 <= (items.last().scu as int) * (price as int) <= sale_cap())
                            by (nonlinear_arith)
                            requires
                                0 <= items.last().scu as int <= u32::MAX as int,
                                0 <= price as int <= PRICE_CAP as int,
                                sale_cap() == (u32::MAX as int) * (PRICE_CAP as int),
                        ;
                    },
                    None => {},
                }
            },
            None => {},
        }
    }
}

/// The best point is one of the listed points.
proof fn lemma_best_point_in(item: CargoItem, ps: Seq<PricePoint>, nqa: NqaSet)
    ensures
        match best_point_for(item, ps, nqa) {
            Some((p, price)) => ps.contains(p),
            None => true,
        },
    decreases ps.len(),
{
    if ps.len() > 0 {
        lemma_best_point_in(item, ps.drop_last(), nqa);
        match best_point_for(item, ps, nqa) {
            Some((p, price)) => {
                if p != ps.last() {
                    assert(ps.drop_last().contains(p));
                    let k = choose|k: int|
                        0 <= k < ps.drop_last().len() && ps.drop_last()[k] == p;
                    assert(ps[k] == p);
                } else {
                    assert(ps[ps.len() - 1] == p);
                }
            },
            None => {},
        }
    }
}

/// Whether stop `a` may come before stop `b` in a best-value plan:
/// its value is at least as high.
pub open spec fn spec_stop_leq(a: SellStop, b: SellStop) -> bool {
    b.stop_value <= a.stop_value
}

/// The stop order: by stop value descending.
pub open spec fn stop_leq() -> spec_fn(SellStop, SellStop) -> bool {
    |a: SellStop, b: SellStop| spec_stop_leq(a, b)
}

/// Whether `pre` is the unsorted accumulation that a best-value plan's
/// stops were sorted from.
pub open spec fn bv_pre_ok(
    pre: Seq<SellStop>,
    stops: Seq<SellStop>,
    items: Seq<CargoItem>,
    book: PriceBook,
    nqa: NqaSet,
) -> bool {
    &&& pre.len() == best_value_state(items, book, nqa).len()
    &&& (forall|k: int|
        0 <= k < pre.len() ==> stop_matches(#[trigger] pre[k], best_value_state(items, book, nqa)[k]))
    &&& stops == crate::sorting::sort_by_spec(pre, stop_leq())
}

/// Whether two stops carry exactly the same content, field by field,
/// with the item list compared by contents.
pub open spec fn stop_view_eq(a: SellStop, b: SellStop) -> bool {
    &&& a.terminal_name == b.terminal_name
    &&& a.terminal_id == b.terminal_id
    &&& a.system == b.system
    &&& a.items@ == b.items@
    &&& a.stop_value == b.stop_value
    &&& a.is_nqa == b.is_nqa
    &&& a.distance_from_prev == b.distance_from_prev
}

/// Stable insertion sends content-equal inputs to content-equal
/// outputs: the order depends only on the stop values, which the
/// content carries.
proof fn lemma_stop_insert_respects_views(
    s1: Seq<SellStop>,
    s2: Seq<SellStop>,
    x1: SellStop,
    x2: SellStop,
)
    requires
        s1.len() == s2.len(),
        forall|i: int| 0 <= i < s1.len() ==> stop_view_eq(#[trigger] s1[i], s2[i]),
        stop_view_eq(x1, x2),
    ensures
        crate::sorting::insert_sorted_by(s1, x1, stop_leq()).len()
            == crate::sorting::insert_sorted_by(s2, x2, stop_leq()).len(),
        forall|i: int|
            0 <= i < crate::sorting::insert_sorted_by(s1, x1, stop_leq()).len() ==> stop_view_eq(
                #[trigger] crate::sorting::insert_sorted_by(s1, x1, stop_leq())[i],
                crate::sorting::insert_sorted_by(s2, x2, stop_leq())[i],
            ),
    decreases s1.len(),
{
    let leq = stop_leq();
    if s1.len() == 0 {
        assert(crate::sorting::insert_sorted_by(s1, x1, leq) =~= seq![x1]);
        assert(crate::sorting::insert_sorted_by(s2, x2, leq) =~= seq![x2]);
    } else {
        assert(stop_view_eq(s1.last(), s2.last()));
        assert(leq(s1.last(), x1) == leq(s2.last(), x2));
        if leq(s1.last(), x1) {
            assert(crate::sorting::insert_sorted_by(s1, x1, leq) == s1.push(x1));
            assert(crate::sorting::insert_sorted_by(s2, x2, leq) == s2.push(x2));
        } else {
            assert(forall|i: int|
                0 <= i < s1.drop_last().len() ==> stop_view_eq(
                    #[trigger] s1.drop_last()[i],
                    s2.drop_last()[i],
                ));
            lemma_stop_insert_respects_views(s1.drop_last(), s2.drop_last(), x1, x2);
        }
    }
}

/// The stable sort sends content-equal inputs to content-equal outputs.
proof fn lemma_stop_sort_respects_views(s1: Seq<SellStop>, s2: Seq<SellStop>)
    requires
        s1.len() == s2.len(),
        forall|i: int| 0 <= i < s1.len() ==> stop_view_eq(#[trigger] s1[i], s2[i]),
    ensures
        crate::sorting::sort_by_spec(s1, stop_leq()).len() == crate::sorting::sort_by_spec(
            s2,
            stop_leq(),
        ).len(),
        forall|i: int|
            0 <= i < crate::sorting::sort_by_spec(s1, stop_leq()).len() ==> stop_view_eq(
                #[trigger] crate::sorting::sort_by_spec(s1, stop_leq())[i],
                crate::sorting::sort_by_spec(s2, stop_leq())[i],
            ),
    decreases s1.len(),
{
    if s1.len() > 0 {
        assert(forall|i: int|
            0 <= i < s1.drop_last().len() ==> stop_view_eq(
                #[trigger] s1.drop_last()[i],
                s2.drop_last()[i],
            ));
        lemma_stop_sort_respects_views(s1.drop_last(), s2.drop_last());
        lemma_stop_insert_respects_views(
            crate::sorting::sort_by_spec(s1.drop_last(), stop_leq()),
            crate::sorting::sort_by_spec(s2.drop_last(), stop_leq()),
            s1.last(),
            s2.last(),
        );
        assert(stop_view_eq(s1.last(), s2.last()));
    }
}

/// Planning the same cargo against the same price book and
/// no-questions-asked set always yields the same best-value plan: any
/// two results that satisfy the planner's contract agree in their
/// total and in every stop's content.
pub proof fn lemma_best_value_deterministic(
    a: SellPlan,
    b: SellPlan,
    items: Seq<CargoItem>,
    book: PriceBook,
    nqa: NqaSet,
)
    requires
        a.total_value == best_value_total(items, book, nqa),
        b.total_value == best_value_total(items, book, nqa),
        exists|pre: Seq<SellStop>| #[trigger] bv_pre_ok(pre, a.stops@, items, book, nqa),
        exists|pre: Seq<SellStop>| #[trigger] bv_pre_ok(pre, b.stops@, items, book, nqa),
    ensures
        a.total_value == b.total_value,
        a.stops@.len() == b.stops@.len(),
        forall|i: int| 0 <= i < a.stops@.len() ==> stop_view_eq(
            #[trigger] a.stops@[i],
            b.stops@[i],
        ),
{
    let pre1 = choose|pre: Seq<SellStop>| bv_pre_ok(pre, a.stops@, items, book, nqa);
    let pre2 = choose|pre: Seq<SellStop>| bv_pre_ok(pre, b.stops@, items, book, nqa);
    assert(bv_pre_ok(pre1, a.stops@, items, book, nqa));
    assert(bv_pre_ok(pre2, b.stops@, items, book, nqa));
    assert forall|i: int| 0 <= i < pre1.len() implies stop_view_eq(
        #[trigger] pre1[i],
        pre2[i],
    ) by {
        assert(stop_matches(pre1[i], best_value_state(items, book, nqa)[i]));
        assert(stop_matches(pre2[i], best_value_state(items, book, nqa)[i]));
    }
    let leq = stop_leq();
    assert forall|x: SellStop, y: SellStop| #[trigger] leq(x, y) || #[trigger] leq(y, x) by {
        assert(spec_stop_leq(x, y) || spec_stop_leq(y, x));
    }
    assert forall|x: SellStop, y: SellStop, z: SellStop|
        #[trigger] leq(x, y) && #[trigger] leq(y, z) implies leq(x, z) by {}
    crate::sorting::lemma_sort_by_spec(pre1, leq);
    crate::sorting::lemma_sort_by_spec(pre2, leq);
    lemma_stop_sort_respects_views(pre1, pre2);
}

/// Build the plan that routes each item to its own best terminal,
/// grouping items by terminal and ordering stops by value descending.
pub fn calculate_best_value_plan(
    items: &Vec<CargoItem>,
    price_map: &PriceBook,
    nqa_terminal_ids: &NqaSet,
) -> (r: SellPlan)
    requires
        items@.len() <= MAX_ITEMS,
        wf_price_book(*price_map),
    ensures
        r.total_distance is None,
        r.total_value == best_value_total(items@, *price_map, *nqa_terminal_ids),
        exists|pre: Seq<SellStop>|
            #[trigger] bv_pre_ok(pre, r.stops@, items@, *price_map, *nqa_terminal_ids),
        vstd::relations::sorted_by(r.stops@, stop_leq()),
{
    let ghost book = *price_map;
    let ghost nqa = *nqa_terminal_ids;
    let n: usize = items.len();
    let mut accum: Vec<SellStop> = Vec::new();
    let mut total_value: u128 = 0;
    proof {
        assert(best_value_state(items@.take(0), book, nqa) =~= Seq::<StopModel>::empty());
    }
    for i in 0..n
        invariant
            n == items@.len(),
            items@.len() <= MAX_ITEMS,
            wf_price_book(book),
            book == *price_map,
            nqa == *nqa_terminal_ids,
            accum@.len() == best_value_state(items@.take(i as int), book, nqa).len(),
            forall|k: int|
                0 <= k < accum@.len() ==> stop_matches(
                    #[trigger] accum@[k],
                    best_value_state(items@.take(i as int), book, nqa)[k],
                ),
            total_value == best_value_total(items@.take(i as int), book, nqa),
    {
        proof {
            lemma_take_step(items@, i as int);
            lemma_best_value_state_bound(items@.take(i as int), book, nqa);
            assert(items@.take(i as int).len() * sale_cap() <= (MAX_ITEMS as int) * sale_cap())
                by (nonlinear_arith)
                requires
                    0 <= items@.take(i as int).len() <= MAX_ITEMS as int,
                    sale_cap() > 0,
            ;
        }
        let item = &items[i];
        let ghost prefix_state = best_value_state(items@.take(i as int), book, nqa);
        match price_map.get(&item.commodity_id) {
            Some(points) => {
                proof {
                    lemma_book_lookup_wf(price_map.entries@, items@[i as int].commodity_id@);
                }
                let m: usize = points.len();
                let mut best: Option<(usize, u64)> = None;
                proof {
                    assert(points@.take(0) =~= Seq::<PricePoint>::empty());
                }
                for j in 0..m
                    invariant
                        m == points@.len(),
                        wf_price_points(points@),
                        nqa == *nqa_terminal_ids,
                        item == &items@[i as int],
                        0 <= i < items@.len(),
                        match best {
                            Some((bidx, bpv)) => {
                                &&& bidx < j <= m
                                &&& best_point_for(items@[i as int], points@.take(j as int), nqa)
                                    == Some((points@[bidx as int], bpv))
                            },
                            None => best_point_for(
                                items@[i as int],
                                points@.take(j as int),
                                nqa,
                            ) is None,
                        },
                {
                    proof {
                        lemma_take_step(points@, j as int);
                    }
                    let point = &points[j];
                    let compat: bool = if item.is_hot {
                        nqa_terminal_ids.contains_opt(point.terminal_id)
                    } else {
                        true
                    };
                    if compat {
                        match point.best_sell_price() {
                            Some(price) => {
                                let take_it: bool = match best {
                                    Some((bidx, bpv)) => price >= bpv,
                                    None => true,
                                };
                                if take_it {
                                    best = Some((j, price));
                                }
                            },
                            None => {},
                        }
                    }
                }
                proof {
                    lemma_take_all(points@);
                }
                match best {
                    Some((bidx, bpv)) => {
                        proof {
                            lemma_best_point_cap(items@[i as int], points@, nqa);
                            assert((items@[i as int].scu as int) * (bpv as int) <= sale_cap())
                                by (nonlinear_arith)
                                requires
                                    0 <= items@[i as int].scu as int <= u32::MAX as int,
                                    0 <= bpv as int <= PRICE_CAP as int,
                                    sale_cap() == (u32::MAX as int) * (PRICE_CAP as int),
                            ;
                            assert(0 <= (items@[i as int].scu as int) * (bpv as int))
                                by (nonlinear_arith)
                                requires
                                    0 <= items@[i as int].scu as int,
                                    0 <= bpv as int,
                            ;
                            assert((MAX_ITEMS as int) * sale_cap() == stop_value_cap() / (
                            MAX_POINTS as int)) by (nonlinear_arith)
                                requires
                                    stop_value_cap() == (MAX_ITEMS as int) * (MAX_POINTS as int)
                                        * sale_cap(),
                                    MAX_POINTS as int > 0,
                                    sale_cap() > 0,
                                    MAX_ITEMS as int > 0,
                            ;
                        }
                        let value: u128 = (item.scu as u128) * (bpv as u128);
                        push_sale(
                            &mut accum,
                            item,
                            &points[bidx],
                            nqa_terminal_ids,
                            Ghost(prefix_state),
                        );
                        total_value = total_value + value;
                    },
                    None => {},
                }
            },
            None => {},
        }
    }
    proof {
        lemma_take_all(items@);
    }
    let ghost pre_sort = accum@;
    let ghost leq = stop_leq();
    proof {
        assert forall|a: SellStop, b: SellStop| #[trigger] leq(a, b) || #[trigger] leq(b, a) by {
            assert(spec_stop_leq(a, b) || spec_stop_leq(b, a));
        }
        assert forall|a: SellStop, b: SellStop, c: SellStop|
            #[trigger] leq(a, b) && #[trigger] leq(b, c) implies leq(a, c) by {}
    }
    let stops = crate::sorting::insertion_sort(
        accum,
        (|a: &SellStop, b: &SellStop| -> (c: bool)
            ensures
                c == spec_stop_leq(*a, *b),
            { b.stop_value <= a.stop_value }),
        Ghost(leq),
        Ghost(|s: SellStop| true),
    );
    proof {
        crate::sorting::lemma_sort_by_spec(pre_sort, leq);
    }
    let result = SellPlan { stops, total_value, total_distance: None };
    proof {
        assert(bv_pre_ok(pre_sort, result.stops@, items@, book, nqa));
    }
    result
}

/// Planning the same cargo against the same price book and
/// no-questions-asked set always yields the same one-stop plan: any
/// two results that satisfy the planner's contract agree in their
/// total and in every stop field.
pub proof fn lemma_one_stop_deterministic(
    a: SellPlan,
    b: SellPlan,
    items: Seq<CargoItem>,
    book: PriceBook,
    nqa: NqaSet,
)
    requires
        one_stop_state(items, book, nqa).len() > 0,
        a.stops@.len() == 1,
        stop_matches(a.stops@[0], one_stop_state(items, book, nqa)[best_stop_index(
            one_stop_state(items, book, nqa),
        )]),
        a.total_value == one_stop_state(items, book, nqa)[best_stop_index(
            one_stop_state(items, book, nqa),
        )].stop_value,
        b.stops@.len() == 1,
        stop_matches(b.stops@[0], one_stop_state(items, book, nqa)[best_stop_index(
            one_stop_state(items, book, nqa),
        )]),
        b.total_value == one_stop_state(items, book, nqa)[best_stop_index(
            one_stop_state(items, book, nqa),
        )].stop_value,
    ensures
        a.total_value == b.total_value,
        a.stops@[0].terminal_name == b.stops@[0].terminal_name,
        a.stops@[0].terminal_id == b.stops@[0].terminal_id,
        a.stops@[0].items@ == b.stops@[0].items@,
        a.stops@[0].stop_value == b.stops@[0].stop_value,
{
}

/// Distances from one origin to destination terminals, by terminal
/// id, in milli-gigameters; lookup takes the first match.
pub struct DistanceMap {
    pub entries: Vec<(i32, u64)>,
}

/// First-match lookup of a terminal's distance.
pub open spec fn distance_lookup(entries: Seq<(i32, u64)>, id: i32) -> Option<u64>
    decreases entries.len(),
{
    if entries.len() == 0 {
        None
    } else if entries[0].0 == id {
        Some(entries[0].1)
    } else {
        distance_lookup(entries.drop_first(), id)
    }
}

/// Well-formed distance map: every distance within the cap.
pub open spec fn wf_distance_map(dm: DistanceMap) -> bool {
    forall|i: int| 0 <= i < dm.entries@.len() ==> (#[trigger] dm.entries@[i]).1
        <= crate::entities::DIST_CAP
}

impl DistanceMap {
    /// The empty map.
    pub fn new() -> (r: DistanceMap)
        ensures
            r.entries@.len() == 0,
    {
        DistanceMap { entries: Vec::new() }
    }

    /// Spec view of lookup by terminal id.
    pub open spec fn spec_get(&self, id: i32) -> Option<u64> {
        distance_lookup(self.entries@, id)
    }

    /// Record the distance to a terminal.
    pub fn push_distance(&mut self, id: i32, distance_gm: u64)
        ensures
            final(self).entries@ == old(self).entries@.push((id, distance_gm)),
    {
        self.entries.push((id, distance_gm));
    }

    /// Look up the distance to a terminal.
    pub fn get(&self, id: i32) -> (r: Option<u64>)
        ensures
            r == self.spec_get(id),
    {
        let n: usize = self.entries.len();
        proof {
            assert(self.entries@.skip(0) =~= self.entries@);
        }
        for i in 0..n
            invariant
                n == self.entries@.len(),
                distance_lookup(self.entries@.skip(i as int), id) == distance_lookup(
                    self.entries@,
                    id,
                ),
        {
            assert(self.entries@.skip(i as int)[0] == self.entries@[i as int]);
            if self.entries[i].0 == id {
                return Some(self.entries[i].1);
            }
            assert(self.entries@.skip(i as int).drop_first() =~= self.entries@.skip(i + 1));
        }
        assert(self.entries@.skip(n as int) =~= Seq::<(i32, u64)>::empty());
        None
    }
}

/// The distance recorded for a stop's terminal, when both are known.
pub open spec fn dist_of(stop: SellStop, dm: DistanceMap) -> Option<u64> {
    match stop.terminal_id {
        Some(id) => dm.spec_get(id),
        None => None,
    }
}

/// Whether distance `a` is strictly closer than `b`; an unknown
/// distance counts as farthest.
pub open spec fn closer(a: Option<u64>, b: Option<u64>) -> bool {
    match (a, b) {
        (Some(x), Some(y)) => x < y,
        (Some(x), None) => true,
        (None, _) => false,
    }
}

/// The first index of the stop with the smallest known distance.
pub open spec fn min_dist_index(stops: Seq<SellStop>, dm: DistanceMap) -> int
    recommends
        stops.len() > 0,
    decreases stops.len(),
{
    if stops.len() <= 1 {
        0
    } else {
        let rest = min_dist_index(stops.drop_first(), dm) + 1;
        if closer(dist_of(stops[rest], dm), dist_of(stops[0], dm)) {
            rest
        } else {
            0
        }
    }
}

/// The chosen index is in range, no stop is strictly closer, and
/// every earlier stop is strictly farther.
proof fn lemma_min_dist_index(stops: Seq<SellStop>, dm: DistanceMap)
    requires
        stops.len() > 0,
    ensures
        0 <= min_dist_index(stops, dm) < stops.len(),
        forall|k: int|
            0 <= k < stops.len() ==> !closer(
                dist_of(#[trigger] stops[k], dm),
                dist_of(stops[min_dist_index(stops, dm)], dm),
            ),
        forall|k: int|
            0 <= k < min_dist_index(stops, dm) ==> closer(
                dist_of(stops[min_dist_index(stops, dm)], dm),
                dist_of(#[trigger] stops[k], dm),
            ),
    decreases stops.len(),
{
    if stops.len() > 1 {
        lemma_min_dist_index(stops.drop_first(), dm);
        let r0 = min_dist_index(stops.drop_first(), dm);
        let rest = r0 + 1;
        assert(stops.drop_first()[r0] == stops[rest]);
        let sel = min_dist_index(stops, dm);
        assert forall|k: int| 0 <= k < stops.len() implies !closer(
            dist_of(#[trigger] stops[k], dm),
            dist_of(stops[sel], dm),
        ) by {
            if k >= 1 {
                assert(stops.drop_first()[k - 1] == stops[k]);
                assert(!closer(
                    dist_of(stops.drop_first()[k - 1], dm),
                    dist_of(stops.drop_first()[r0], dm),
                ));
            }
        }
        assert forall|k: int| 0 <= k < sel implies closer(
            dist_of(stops[sel], dm),
            dist_of(#[trigger] stops[k], dm),
        ) by {
            if k >= 1 {
                assert(stops.drop_first()[k - 1] == stops[k]);
            }
        }
    }
}

/// The stop as it appears in a sequenced plan: the known distance
/// from the origin attached.
pub open spec fn with_dist(stop: SellStop, dm: DistanceMap) -> SellStop {
    SellStop { distance_from_prev: dist_of(stop, dm), ..stop }
}

/// The nearest-neighbor order over the remaining stops: repeatedly
/// visit the stop with the smallest known distance; stops without a
/// known distance come last.
pub open spec fn nn_order(stops: Seq<SellStop>, dm: DistanceMap) -> Seq<SellStop>
    decreases stops.len(),
    via nn_order_decreases
{
    if stops.len() == 0 {
        Seq::empty()
    } else {
        let i = min_dist_index(stops, dm);
        seq![with_dist(stops[i], dm)] + nn_order(stops.remove(i), dm)
    }
}

#[via_fn]
proof fn nn_order_decreases(stops: Seq<SellStop>, dm: DistanceMap) {
    if stops.len() > 0 {
        lemma_min_dist_index(stops, dm);
    }
}

/// The summed known distances over the nearest-neighbor tour.
pub open spec fn nn_total(stops: Seq<SellStop>, dm: DistanceMap) -> int
    decreases stops.len(),
    via nn_total_decreases
{
    if stops.len() == 0 {
        0
    } else {
        let i = min_dist_index(stops, dm);
        (match dist_of(stops[i], dm) {
            Some(d) => d as int,
            None => 0,
        }) + nn_total(stops.remove(i), dm)
    }
}

#[via_fn]
proof fn nn_total_decreases(stops: Seq<SellStop>, dm: DistanceMap) {
    if stops.len() > 0 {
        lemma_min_dist_index(stops, dm);
    }
}

/// The tour's total distance is bounded by one capped leg per stop.
proof fn lemma_nn_total_bound(stops: Seq<SellStop>, dm: DistanceMap)
    requires
        wf_distance_map(dm),
    ensures
        0 <= nn_total(stops, dm) <= stops.len() * (crate::entities::DIST_CAP as int),
    decreases stops.len(),
{
    if stops.len() > 0 {
        let i = min_dist_index(stops, dm);
        lemma_min_dist_index(stops, dm);
        lemma_nn_total_bound(stops.remove(i), dm);
        match dist_of(stops[i], dm) {
            Some(d) => {
                lemma_distance_lookup_cap(dm.entries@, stops[i].terminal_id.unwrap());
            },
            None => {},
        }
        assert((stops.len() - 1) * (crate::entities::DIST_CAP as int) + crate::entities::DIST_CAP
            <= stops.len() * (crate::entities::DIST_CAP as int)) by (nonlinear_arith);
    }
}

/// A looked-up distance respects the cap.
proof fn lemma_distance_lookup_cap(entries: Seq<(i32, u64)>, id: i32)
    requires
        forall|i: int| 0 <= i < entries.len() ==> (#[trigger] entries[i]).1
            <= crate::entities::DIST_CAP,
    ensures
        match distance_lookup(entries, id) {
            Some(d) => d <= crate::entities::DIST_CAP,
            None => true,
        },
    decreases entries.len(),
{
    if entries.len() > 0 && entries[0].0 != id {
        assert(forall|i: int|
            0 <= i < entries.drop_first().len() ==> #[trigger] entries.drop_first()[i]
                == entries[i + 1]);
        lemma_distance_lookup_cap(entries.drop_first(), id);
    }
}

/// Reorder a multi-stop plan by nearest neighbor from the given
/// origin: repeatedly visit the remaining stop with the smallest
/// known distance, attaching each leg and the total.  An empty plan
/// is returned unchanged.
pub fn sort_by_nearest_neighbor(plan: SellPlan, origin_id: i32, distances: &DistanceMap) -> (r:
    SellPlan)
    requires
        wf_distance_map(*distances),
        plan.stops@.len() <= MAX_ITEMS,
    ensures
        r.total_value == plan.total_value,
        plan.stops@.len() == 0 ==> r == plan,
        plan.stops@.len() > 0 ==> {
            &&& r.stops@ == nn_order(plan.stops@, *distances)
            &&& r.total_distance == Some(nn_total(plan.stops@, *distances) as u64)
        },
{
    if plan.stops.len() == 0 {
        return plan;
    }
    let ghost orig = plan.stops@;
    let ghost dm = *distances;
    let SellPlan { stops, total_value, total_distance } = plan;
    let mut remaining = stops;
    let mut done: Vec<SellStop> = Vec::new();
    let mut total: u64 = 0;
    proof {
        lemma_nn_total_bound(orig, dm);
    }
    while remaining.len() > 0
        invariant
            wf_distance_map(dm),
            dm == *distances,
            orig.len() <= MAX_ITEMS,
            done@.len() + remaining@.len() == orig.len(),
            done@ + nn_order(remaining@, dm) == nn_order(orig, dm),
            total + nn_total(remaining@, dm) == nn_total(orig, dm),
            0 <= nn_total(remaining@, dm) <= remaining@.len() * (crate::entities::DIST_CAP as int),
        decreases remaining@.len(),
    {
        let ghost pre_remaining = remaining@;
        let m: usize = remaining.len();
        let mut idx: usize = 0;
        for k in 1..m
            invariant
                m == remaining@.len(),
                0 <= idx < k,
                1 <= k <= m,
                dm == *distances,
                forall|t: int|
                    0 <= t < k ==> !closer(
                        dist_of(#[trigger] remaining@[t], dm),
                        dist_of(remaining@[idx as int], dm),
                    ),
                forall|t: int|
                    0 <= t < idx ==> closer(
                        dist_of(remaining@[idx as int], dm),
                        dist_of(#[trigger] remaining@[t], dm),
                    ),
        {
            let dk = match remaining[k].terminal_id {
                Some(id) => distances.get(id),
                None => None,
            };
            let di = match remaining[idx].terminal_id {
                Some(id) => distances.get(id),
                None => None,
            };
            let k_closer: bool = match (dk, di) {
                (Some(x), Some(y)) => x < y,
                (Some(_), None) => true,
                (None, _) => false,
            };
            if k_closer {
                idx = k;
            }
        }
        proof {
            lemma_min_dist_index(pre_remaining, dm);
            let mi = min_dist_index(pre_remaining, dm);
            if (idx as int) < mi {
                assert(closer(
                    dist_of(pre_remaining[mi], dm),
                    dist_of(pre_remaining[idx as int], dm),
                ));
                assert(!closer(
                    dist_of(pre_remaining[mi], dm),
                    dist_of(pre_remaining[idx as int], dm),
                ));
            }
            if mi < (idx as int) {
                assert(closer(
                    dist_of(pre_remaining[idx as int], dm),
                    dist_of(pre_remaining[mi], dm),
                ));
                assert(!closer(
                    dist_of(pre_remaining[idx as int], dm),
                    dist_of(pre_remaining[mi], dm),
                ));
            }
            assert(idx as int == mi);
            lemma_nn_total_bound(pre_remaining.remove(mi), dm);
        }
        let mut stop = remaining.remove(idx);
        let d: Option<u64> = match stop.terminal_id {
            Some(id) => distances.get(id),
            None => None,
        };
        stop.distance_from_prev = d;
        proof {
            assert(d == dist_of(pre_remaining[idx as int], dm));
            assert(nn_total(pre_remaining, dm) == (match d {
                Some(x) => x as int,
                None => 0int,
            }) + nn_total(remaining@, dm));
            lemma_nn_total_bound(remaining@, dm);
            lemma_nn_total_bound(orig, dm);
            assert(orig.len() * (crate::entities::DIST_CAP as int) <= (MAX_ITEMS as int) * (
            crate::entities::DIST_CAP as int)) by (nonlinear_arith)
                requires
                    0 <= orig.len() <= MAX_ITEMS as int,
            ;
        }
        match d {
            Some(dv) => {
                total = total + dv;
            },
            None => {},
        }
        let ghost stop_g = stop;
        done.push(stop);
        proof {
            assert(stop_g == with_dist(pre_remaining[idx as int], dm));
            assert(nn_order(pre_remaining, dm) == seq![stop_g] + nn_order(remaining@, dm));
            assert(done@ + nn_order(remaining@, dm) =~= nn_order(orig, dm));
        }
    }
    proof {
        assert(nn_order(Seq::<SellStop>::empty(), dm) =~= Seq::<SellStop>::empty());
        assert(done@ =~= nn_order(orig, dm));
    }
    SellPlan { stops: done, total_value, total_distance: Some(total) }
}

/// The stop with its distance from the origin attached, when known.
pub open spec fn attach_dist(stop: SellStop, dm: DistanceMap) -> SellStop {
    match dist_of(stop, dm) {
        Some(d) => SellStop { distance_from_prev: Some(d), ..stop },
        None => stop,
    }
}

/// The summed known distances over a stop list, in visit order.
pub open spec fn dist_sum(stops: Seq<SellStop>, dm: DistanceMap) -> int
    decreases stops.len(),
{
    if stops.len() == 0 {
        0
    } else {
        dist_sum(stops.drop_last(), dm) + match dist_of(stops.last(), dm) {
            Some(d) => d as int,
            None => 0,
        }
    }
}

/// Known distances sum to at most one capped leg per stop.
proof fn lemma_dist_sum_bound(stops: Seq<SellStop>, dm: DistanceMap)
    requires
        wf_distance_map(dm),
    ensures
        0 <= dist_sum(stops, dm) <= stops.len() * (crate::entities::DIST_CAP as int),
    decreases stops.len(),
{
    if stops.len() > 0 {
        lemma_dist_sum_bound(stops.drop_last(), dm);
        match dist_of(stops.last(), dm) {
            Some(d) => {
                lemma_distance_lookup_cap(dm.entries@, stops.last().terminal_id.unwrap());
            },
            None => {},
        }
        assert((stops.len() - 1) * (crate::entities::DIST_CAP as int) + crate::entities::DIST_CAP
            <= stops.len() * (crate::entities::DIST_CAP as int)) by (nonlinear_arith);
    }
}

/// Attach known distances to a plan's stops without reordering them,
/// and record their sum as the plan's total distance.
pub fn add_distances_to_plan(plan: SellPlan, origin_id: i32, distances: &DistanceMap) -> (r:
    SellPlan)
    requires
        wf_distance_map(*distances),
        plan.stops@.len() <= MAX_ITEMS,
    ensures
        r.total_value == plan.total_value,
        r.stops@.len() == plan.stops@.len(),
        forall|k: int|
            0 <= k < r.stops@.len() ==> #[trigger] r.stops@[k] == attach_dist(
                plan.stops@[k],
                *distances,
            ),
        r.total_distance == Some(dist_sum(plan.stops@, *distances) as u64),
{
    let ghost orig = plan.stops@;
    let ghost dm = *distances;
    let SellPlan { stops, total_value, total_distance } = plan;
    let mut stops = stops;
    let n: usize = stops.len();
    let mut total: u64 = 0;
    proof {
        assert(orig.take(0) =~= Seq::<SellStop>::empty());
    }
    for i in 0..n
        invariant
            n == stops@.len(),
            stops@.len() == orig.len(),
            orig.len() <= MAX_ITEMS,
            wf_distance_map(dm),
            dm == *distances,
            forall|k: int| i <= k < orig.len() ==> #[trigger] stops@[k] == orig[k],
            forall|k: int| 0 <= k < i ==> #[trigger] stops@[k] == attach_dist(orig[k], dm),
            total == dist_sum(orig.take(i as int), dm),
    {
        proof {
            lemma_take_step(orig, i as int);
            lemma_dist_sum_bound(orig.take(i as int), dm);
            assert(orig.take(i as int).len() * (crate::entities::DIST_CAP as int) <= (
            MAX_ITEMS as int) * (crate::entities::DIST_CAP as int)) by (nonlinear_arith)
                requires
                    0 <= orig.take(i as int).len() <= MAX_ITEMS as int,
            ;
        }
        let ghost pre = stops@;
        let found: Option<u64> = match stops[i].terminal_id {
            Some(id) => distances.get(id),
            None => None,
        };
        match found {
            Some(d) => {
                proof {
                    lemma_distance_lookup_cap(dm.entries@, stops@[i as int].terminal_id.unwrap());
                }
                let mut stop = stops.remove(i);
                stop.distance_from_prev = Some(d);
                stops.insert(i, stop);
                total = total + d;
                proof {
                    assert(stops@ =~= pre.update(i as int, stops@[i as int]));
                    assert(stops@[i as int] == attach_dist(orig[i as int], dm));
                    assert(forall|k: int|
                        0 <= k < stops@.len() && k != i ==> #[trigger] stops@[k] == pre[k]);
                }
            },
            None => {
                proof {
                    assert(stops@[i as int] == attach_dist(orig[i as int], dm));
                }
            },
        }
    }
    proof {
        lemma_take_all(orig);
    }
    SellPlan { stops, total_value, total_distance: Some(total) }
}

} // verus!
