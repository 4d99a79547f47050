//! Price summarizer and cargo evaluator.
//!
//! A set of price observations for one commodity is reduced to an
//! average/min/max sell price and a confidence score blending
//! freshness, stock depth and volatility; a cargo item is then valued
//! by its quantity times the summarized per-unit price.

use vstd::prelude::*;

use crate::entities::{
    summary_buy_price, summary_sell_price, wf_price_book, wf_price_point, wf_price_points,
    CargoItem, PriceBook, PricePoint, MAX_ITEMS, MAX_POINTS, PPM_SCALE, PRICE_CAP, VOL_CAP,
};
use crate::seqs::{
    lemma_max_of_in, lemma_min_of_in, lemma_sum_bounded, lemma_take_all, lemma_take_step, max_of,
    min_of, sum_of, vec_max, vec_min, vec_sum_capped,
};

verus! {

/// One element as a sequence, or the empty sequence.
pub open spec fn opt_seq(o: Option<u64>) -> Seq<u64> {
    match o {
        Some(v) => seq![v],
        None => Seq::empty(),
    }
}

/// The usable sell prices of a point list, one per point that has one,
/// each resolved through the summarizer's sell fallback chain.
pub open spec fn sell_prices_of(ps: Seq<PricePoint>) -> Seq<u64>
    decreases ps.len(),
{
    if ps.len() == 0 {
        Seq::empty()
    } else {
        sell_prices_of(ps.drop_last()) + opt_seq(summary_sell_price(ps.last()))
    }
}

/// The usable buy prices of a point list, resolved through the
/// summarizer's buy fallback chain.
pub open spec fn buy_prices_of(ps: Seq<PricePoint>) -> Seq<u64>
    decreases ps.len(),
{
    if ps.len() == 0 {
        Seq::empty()
    } else {
        buy_prices_of(ps.drop_last()) + opt_seq(summary_buy_price(ps.last()))
    }
}

/// The most recent observation time of a non-empty point list.
pub open spec fn latest_update(ps: Seq<PricePoint>) -> u64
    recommends
        ps.len() > 0,
    decreases ps.len(),
{
    if ps.len() <= 1 {
        ps[0].updated_at
    } else {
        let m = latest_update(ps.drop_last());
        if ps.last().updated_at > m {
            ps.last().updated_at
        } else {
            m
        }
    }
}

/// The largest sell-side stock over a point list, zero when none is reported.
pub open spec fn max_sell_stock(ps: Seq<PricePoint>) -> u64
    decreases ps.len(),
{
    if ps.len() == 0 {
        0
    } else {
        let m = max_sell_stock(ps.drop_last());
        match ps.last().scu_sell_stock {
            Some(v) => if v > m {
                v
            } else {
                m
            },
            None => m,
        }
    }
}

/// Sum of the reported volatilities of a point list.
pub open spec fn vol_sum(ps: Seq<PricePoint>) -> int
    decreases ps.len(),
{
    if ps.len() == 0 {
        0
    } else {
        vol_sum(ps.drop_last()) + match ps.last().volatility_sell {
            Some(v) => v as int,
            None => 0,
        }
    }
}

/// Number of points that report a volatility.
pub open spec fn vol_count(ps: Seq<PricePoint>) -> int
    decreases ps.len(),
{
    if ps.len() == 0 {
        0
    } else {
        vol_count(ps.drop_last()) + match ps.last().volatility_sell {
            Some(v) => 1int,
            None => 0int,
        }
    }
}

/// Age of the latest observation, in seconds, never negative.
pub open spec fn spec_age_secs(now: u64, latest: u64) -> int {
    if now >= latest {
        now - latest
    } else {
        0
    }
}

/// Freshness score in parts per million: `1 / (1 + age_minutes / 60)`,
/// evaluated exactly as `3600 / (3600 + age_seconds)` and clamped to 1.0.
pub open spec fn spec_freshness(now: u64, latest: u64) -> int {
    let f = 3600 * (PPM_SCALE as int) / (3600 + spec_age_secs(now, latest));
    if f > PPM_SCALE {
        PPM_SCALE as int
    } else {
        f
    }
}

/// Stock score in parts per million: `max_stock / 5000`, clamped to 1.0.
pub open spec fn spec_stock_score(stock: u64) -> int {
    let s = (stock as int) * (PPM_SCALE as int) / 5000;
    if s > PPM_SCALE {
        PPM_SCALE as int
    } else {
        s
    }
}

/// Volatility factor in parts per million: 0.7 when no point reports a
/// volatility, else `1 - min(mean, 1.0)` with the mean first capped at 1.5.
pub open spec fn spec_vol_factor(ps: Seq<PricePoint>) -> int {
    if vol_count(ps) == 0 {
        700_000
    } else {
        let avg = vol_sum(ps) / vol_count(ps);
        let capped = if avg > 1_500_000 {
            1_500_000
        } else {
            avg
        };
        let inner = if capped > PPM_SCALE {
            PPM_SCALE as int
        } else {
            capped
        };
        PPM_SCALE - inner
    }
}

/// Confidence of a point list at a given wall-clock time, in parts per
/// million: `0.5 * freshness + 0.25 * stock + 0.25 * volatility`,
/// clamped to 1.0, and zero for an empty list.
pub open spec fn spec_confidence(ps: Seq<PricePoint>, now: u64) -> int {
    if ps.len() == 0 {
        0
    } else {
        let w = (2 * spec_freshness(now, latest_update(ps)) + spec_stock_score(max_sell_stock(ps))
            + spec_vol_factor(ps)) / 4;
        if w > PPM_SCALE {
            PPM_SCALE as int
        } else {
            w
        }
    }
}

/// The usable price lists are no longer than the point list, and their
/// entries respect the price cap when the points are well formed.
pub proof fn lemma_price_lists_wf(ps: Seq<PricePoint>)
    requires
        forall|i: int| 0 <= i < ps.len() ==> wf_price_point(#[trigger] ps[i]),
    ensures
        sell_prices_of(ps).len() <= ps.len(),
        buy_prices_of(ps).len() <= ps.len(),
        forall|i: int| 0 <= i < sell_prices_of(ps).len() ==> #[trigger] sell_prices_of(ps)[i]
            <= PRICE_CAP,
        forall|i: int| 0 <= i < buy_prices_of(ps).len() ==> #[trigger] buy_prices_of(ps)[i]
            <= PRICE_CAP,
    decreases ps.len(),
{
    if ps.len() > 0 {
        lemma_price_lists_wf(ps.drop_last());
        assert(wf_price_point(ps[ps.len() - 1]));
    }
}

/// Volatility sum and count are bounded by the point list when it is well formed.
pub proof fn lemma_vol_bounds(ps: Seq<PricePoint>)
    requires
        forall|i: int| 0 <= i < ps.len() ==> wf_price_point(#[trigger] ps[i]),
    ensures
        0 <= vol_count(ps) <= ps.len(),
        0 <= vol_sum(ps) <= ps.len() * (VOL_CAP as int),
    decreases ps.len(),
{
    if ps.len() > 0 {
        lemma_vol_bounds(ps.drop_last());
        assert(wf_price_point(ps[ps.len() - 1]));
        assert((ps.len() - 1) * (VOL_CAP as int) + VOL_CAP <= ps.len() * (VOL_CAP as int))
            by (nonlinear_arith);
    }
}

/// The confidence score always lies between 0 and 1.0 (in parts per million).
pub proof fn lemma_confidence_bounds(ps: Seq<PricePoint>, now: u64)
    ensures
        0 <= spec_confidence(ps, now) <= PPM_SCALE,
{
    if ps.len() != 0 {
        lemma_vol_count_sum_nonneg(ps);
        let f = spec_freshness(now, latest_update(ps));
        let st = spec_stock_score(max_sell_stock(ps));
        let vf = spec_vol_factor(ps);
        assert(0 <= 3600 * (PPM_SCALE as int) / (3600 + spec_age_secs(now, latest_update(ps))))
            by (nonlinear_arith);
        assert(0 <= (max_sell_stock(ps) as int) * (PPM_SCALE as int) / 5000) by (nonlinear_arith);
        if vol_count(ps) != 0 {
            assert(0 <= vol_sum(ps) / vol_count(ps)) by (nonlinear_arith)
                requires
                    vol_sum(ps) >= 0,
                    vol_count(ps) > 0,
            ;
        }
        assert(0 <= vf);
        assert(0 <= (2 * f + st + vf) / 4);
    }
}

/// Volatility sum and count are never negative.
proof fn lemma_vol_count_sum_nonneg(ps: Seq<PricePoint>)
    ensures
        vol_count(ps) >= 0,
        vol_sum(ps) >= 0,
    decreases ps.len(),
{
    if ps.len() > 0 {
        lemma_vol_count_sum_nonneg(ps.drop_last());
    }
}

/// Confidence of a point list read at `now`, exact.
pub fn compute_confidence_at(points: &Vec<PricePoint>, now: u64) -> (r: u64)
    requires
        wf_price_points(points@),
    ensures
        r == spec_confidence(points@, now),
        r <= PPM_SCALE,
{
    let n: usize = points.len();
    if n == 0 {
        return 0;
    }
    // Most recent observation time.
    let mut latest: u64 = points[0].updated_at;
    proof {
        assert(points@.take(1) =~= seq![points@[0]]);
    }
    for i in 1..n
        invariant
            n == points@.len(),
            1 <= i <= n,
            latest == latest_update(points@.take(i as int)),
    {
        proof {
            lemma_take_step(points@, i as int);
        }
        if points[i].updated_at > latest {
            latest = points[i].updated_at;
        }
    }
    // Largest sell-side stock.
    let mut stock: u64 = 0;
    proof {
        assert(points@.take(0) =~= Seq::<PricePoint>::empty());
    }
    for i in 0..n
        invariant
            n == points@.len(),
            stock == max_sell_stock(points@.take(i as int)),
    {
        proof {
            lemma_take_step(points@, i as int);
        }
        if let Some(v) = points[i].scu_sell_stock {
            if v > stock {
                stock = v;
            }
        }
    }
    // Volatility sum and count.
    let mut vsum: u128 = 0;
    let mut vcount: u64 = 0;
    proof {
        assert(points@.take(0) =~= Seq::<PricePoint>::empty());
        lemma_vol_bounds(points@);
    }
    for i in 0..n
        invariant
            n == points@.len(),
            wf_price_points(points@),
            vsum == vol_sum(points@.take(i as int)),
            vcount == vol_count(points@.take(i as int)),
    {
        proof {
            lemma_take_step(points@, i as int);
            lemma_vol_bounds(points@.take(i as int));
            assert(points@.take(i as int).len() * (VOL_CAP as int) <= points@.len() * (
            VOL_CAP as int)) by (nonlinear_arith)
                requires
                    0 <= points@.take(i as int).len() <= points@.len(),
            ;
        }
        if let Some(v) = points[i].volatility_sell {
            assert(wf_price_point(points@[i as int])) by {
                assert(wf_price_points(points@));
            }
            vsum = vsum + v as u128;
            vcount = vcount + 1;
        }
    }
    proof {
        lemma_take_all(points@);
    }
    // Freshness score.
    let age: u64 = if now >= latest {
        now - latest
    } else {
        0
    };
    let fresh_raw: u128 = (3600u128 * PPM_SCALE as u128) / (3600u128 + age as u128);
    let fresh: u64 = if fresh_raw > PPM_SCALE as u128 {
        PPM_SCALE
    } else {
        fresh_raw as u64
    };
    // Stock score.
    let stock_raw: u128 = (stock as u128) * (PPM_SCALE as u128) / 5000u128;
    let stock_score: u64 = if stock_raw > PPM_SCALE as u128 {
        PPM_SCALE
    } else {
        stock_raw as u64
    };
    proof {
        assert((stock as int) * (PPM_SCALE as int) == (stock as u128) * (PPM_SCALE as u128))
            by (nonlinear_arith);
    }
    // Volatility factor.
    let vol_factor: u64 = if vcount == 0 {
        700_000
    } else {
        let avg: u128 = vsum / (vcount as u128);
        let capped: u128 = if avg > 1_500_000u128 {
            1_500_000u128
        } else {
            avg
        };
        let inner: u128 = if capped > PPM_SCALE as u128 {
            PPM_SCALE as u128
        } else {
            capped
        };
        PPM_SCALE - (inner as u64)
    };
    let weighted: u64 = (2 * fresh + stock_score + vol_factor) / 4;
    if weighted > PPM_SCALE {
        PPM_SCALE
    } else {
        weighted
    }
}

/// Summarized prices for one commodity: mean and maximum of the usable
/// sell prices, minimum of the usable buy prices, and a confidence score.
pub struct PriceSummary {
    /// Mean usable sell price, in milli-aUEC, rounded down.
    pub average_price: u64,
    /// Smallest usable buy price, when any point has one.
    pub min_price: Option<u64>,
    /// Largest usable sell price.
    pub max_price: Option<u64>,
    /// Confidence in parts per million of 1.0.
    pub confidence: u64,
}

/// The price summary of a point list at a given wall-clock time:
/// `None` exactly when no point has a usable sell price.
pub open spec fn spec_price_summary(ps: Seq<PricePoint>, now: u64) -> Option<PriceSummary> {
    let sells = sell_prices_of(ps);
    let buys = buy_prices_of(ps);
    if sells.len() == 0 {
        None
    } else {
        Some(
            PriceSummary {
                average_price: (sum_of(sells) / sells.len() as int) as u64,
                min_price: if buys.len() == 0 {
                    None
                } else {
                    Some(min_of(buys))
                },
                max_price: Some(max_of(sells)),
                confidence: spec_confidence(ps, now) as u64,
            },
        )
    }
}

/// Every price named by a summary respects the price cap.
pub proof fn lemma_price_summary_bounds(ps: Seq<PricePoint>, now: u64)
    requires
        forall|i: int| 0 <= i < ps.len() ==> wf_price_point(#[trigger] ps[i]),
        ps.len() <= MAX_POINTS,
    ensures
        match spec_price_summary(ps, now) {
            Some(s) => {
                &&& s.average_price <= PRICE_CAP
                &&& (s.min_price matches Some(v) ==> v <= PRICE_CAP)
                &&& (s.max_price matches Some(v) ==> v <= PRICE_CAP)
                &&& s.confidence <= PPM_SCALE
            },
            None => true,
        },
{
    let sells = sell_prices_of(ps);
    let buys = buy_prices_of(ps);
    lemma_price_lists_wf(ps);
    lemma_confidence_bounds(ps, now);
    if sells.len() > 0 {
        lemma_max_of_in(sells);
        lemma_sum_bounded(sells, PRICE_CAP);
        vstd::arithmetic::div_mod::lemma_div_is_ordered(
            sum_of(sells),
            sells.len() * (PRICE_CAP as int),
            sells.len() as int,
        );
        vstd::arithmetic::div_mod::lemma_div_by_multiple(PRICE_CAP as int, sells.len() as int);
        assert(sells.len() * (PRICE_CAP as int) == (PRICE_CAP as int) * sells.len())
            by (nonlinear_arith);
        if buys.len() > 0 {
            lemma_min_of_in(buys);
        }
    }
}

/// Summarize the price points of one commodity as read at `now`.
///
/// Returns `None` exactly when no point offers a usable sell price.
pub fn price_summary_at(points: &Vec<PricePoint>, now: u64) -> (r: Option<PriceSummary>)
    requires
        wf_price_points(points@),
    ensures
        r == spec_price_summary(points@, now),
{
    let n: usize = points.len();
    let mut sells: Vec<u64> = Vec::new();
    let mut buys: Vec<u64> = Vec::new();
    proof {
        assert(points@.take(0) =~= Seq::<PricePoint>::empty());
    }
    for i in 0..n
        invariant
            n == points@.len(),
            sells@ == sell_prices_of(points@.take(i as int)),
            buys@ == buy_prices_of(points@.take(i as int)),
    {
        proof {
            lemma_take_step(points@, i as int);
        }
        let ghost pre_sells = sells@;
        let ghost pre_buys = buys@;
        match points[i].summary_sell() {
            Some(v) => {
                sells.push(v);
                proof {
                    assert(sells@ =~= pre_sells + seq![v]);
                }
            },
            None => {
                proof {
                    assert(sells@ =~= pre_sells + Seq::<u64>::empty());
                }
            },
        }
        match points[i].summary_buy() {
            Some(v) => {
                buys.push(v);
                proof {
                    assert(buys@ =~= pre_buys + seq![v]);
                }
            },
            None => {
                proof {
                    assert(buys@ =~= pre_buys + Seq::<u64>::empty());
                }
            },
        }
    }
    proof {
        lemma_take_all(points@);
    }
    if sells.len() == 0 {
        return None;
    }
    proof {
        lemma_price_lists_wf(points@);
        assert(sells@.len() * (PRICE_CAP as int) <= MAX_POINTS * (PRICE_CAP as int))
            by (nonlinear_arith)
            requires
                0 <= sells@.len() <= MAX_POINTS,
        ;
    }
    let total: u64 = vec_sum_capped(&sells, PRICE_CAP);
    let count: u64 = sells.len() as u64;
    let average_price: u64 = total / count;
    let max_price: u64 = vec_max(&sells);
    let min_price: Option<u64> = if buys.len() == 0 {
        None
    } else {
        Some(vec_min(&buys))
    };
    let confidence: u64 = compute_confidence_at(points, now);
    Some(PriceSummary { average_price, min_price, max_price: Some(max_price), confidence })
}

/// Valuation of one cargo item: expected value, bounds and confidence.
pub struct CargoEvaluation {
    /// Expected value in milli-aUEC: quantity times the summarized per-unit price.
    pub ev: u128,
    /// Lower bound: smallest usable buy price times quantity.
    pub min: Option<u128>,
    /// Upper bound: largest usable sell price times quantity.
    pub max: Option<u128>,
    /// Confidence in parts per million of 1.0.
    pub confidence: u64,
}

/// The all-zero valuation returned when no price data is usable.
pub open spec fn zero_evaluation() -> CargoEvaluation {
    CargoEvaluation { ev: 0, min: None, max: None, confidence: 0 }
}

/// Valuation of one item against an optional point list at time `now`.
pub open spec fn spec_evaluate_item(
    item: CargoItem,
    pso: Option<Seq<PricePoint>>,
    now: u64,
) -> CargoEvaluation {
    match pso {
        None => zero_evaluation(),
        Some(ps) => if ps.len() == 0 {
            zero_evaluation()
        } else {
            match spec_price_summary(ps, now) {
                None => zero_evaluation(),
                Some(s) => {
                    let per_unit = match s.max_price {
                        Some(m) => m,
                        None => s.average_price,
                    };
                    CargoEvaluation {
                        ev: ((item.scu as int) * per_unit) as u128,
                        min: match s.min_price {
                            Some(p) => Some(((item.scu as int) * p) as u128),
                            None => None,
                        },
                        max: match s.max_price {
                            Some(p) => Some(((item.scu as int) * p) as u128),
                            None => None,
                        },
                        confidence: s.confidence,
                    }
                },
            }
        },
    }
}

/// Largest expected value a single well-formed item can take.
pub open spec fn item_ev_cap() -> int {
    (u32::MAX as int) * (PRICE_CAP as int)
}

/// Bounds on a single item's valuation over well-formed points.
pub proof fn lemma_evaluate_item_bounds(item: CargoItem, pso: Option<Seq<PricePoint>>, now: u64)
    requires
        match pso {
            Some(ps) => wf_price_points(ps),
            None => true,
        },
    ensures
        0 <= spec_evaluate_item(item, pso, now).ev <= item_ev_cap(),
        spec_evaluate_item(item, pso, now).confidence <= PPM_SCALE,
{
    match pso {
        Some(ps) => {
            if ps.len() != 0 {
                lemma_price_summary_bounds(ps, now);
                match spec_price_summary(ps, now) {
                    Some(s) => {
                        let per_unit = match s.max_price {
                            Some(m) => m,
                            None => s.average_price,
                        };
                        assert((item.scu as int) * (per_unit as int) <= (u32::MAX as int) * (
                        PRICE_CAP as int)) by (nonlinear_arith)
                            requires
                                0 <= item.scu as int <= u32::MAX as int,
                                0 <= per_unit as int <= PRICE_CAP as int,
                        ;
                    },
                    None => {},
                }
            }
        },
        None => {},
    }
}

/// Evaluate one cargo item against its price points as read at `now`.
pub fn evaluate_item_at(item: &CargoItem, price_points: Option<&Vec<PricePoint>>, now: u64) -> (r:
    CargoEvaluation)
    requires
        match price_points {
            Some(ps) => wf_price_points(ps@),
            None => true,
        },
    ensures
        r == spec_evaluate_item(*item, pso_of(price_points), now),
{
    let points = match price_points {
        Some(ps) => ps,
        None => {
            return CargoEvaluation { ev: 0, min: None, max: None, confidence: 0 };
        },
    };
    if points.len() == 0 {
        return CargoEvaluation { ev: 0, min: None, max: None, confidence: 0 };
    }
    let summary = match price_summary_at(points, now) {
        Some(s) => s,
        None => {
            return CargoEvaluation { ev: 0, min: None, max: None, confidence: 0 };
        },
    };
    proof {
        lemma_price_summary_bounds(points@, now);
    }
    let per_unit: u64 = match summary.max_price {
        Some(m) => m,
        None => summary.average_price,
    };
    let quantity: u128 = item.scu as u128;
    proof {
        lemma_mul_fits_u128(item.scu as int, per_unit as int);
    }
    let ev: u128 = quantity * (per_unit as u128);
    let min: Option<u128> = match summary.min_price {
        Some(p) => {
            proof {
                lemma_mul_fits_u128(item.scu as int, p as int);
            }
            Some(quantity * (p as u128))
        },
        None => None,
    };
    let max: Option<u128> = match summary.max_price {
        Some(p) => {
            proof {
                lemma_mul_fits_u128(item.scu as int, p as int);
            }
            Some(quantity * (p as u128))
        },
        None => None,
    };
    CargoEvaluation { ev, min, max, confidence: summary.confidence }
}

/// A product of a 32-bit and a 64-bit quantity fits in 128 bits.
proof fn lemma_mul_fits_u128(a: int, b: int)
    requires
        0 <= a <= u32::MAX,
        0 <= b <= u64::MAX,
    ensures
        0 <= a * b <= u128::MAX,
{
    assert(a * b <= (u32::MAX as int) * (u64::MAX as int)) by (nonlinear_arith)
        requires
            0 <= a <= u32::MAX,
            0 <= b <= u64::MAX,
    ;
}

/// Valuation of one item looked up by its commodity id in a price book.
pub open spec fn eval_of(book: PriceBook, item: CargoItem, now: u64) -> CargoEvaluation {
    spec_evaluate_item(item, book.spec_get(item.commodity_id@), now)
}

/// Per-item valuations of a whole cargo list, in list order.
pub open spec fn evals_of(items: Seq<CargoItem>, book: PriceBook, now: u64) -> Seq<
    (String, CargoEvaluation),
>
    decreases items.len(),
{
    if items.len() == 0 {
        Seq::empty()
    } else {
        evals_of(items.drop_last(), book, now).push(
            (items.last().id, eval_of(book, items.last(), now)),
        )
    }
}

/// Sum of the expected values of a cargo list.
pub open spec fn total_ev_of(items: Seq<CargoItem>, book: PriceBook, now: u64) -> int
    decreases items.len(),
{
    if items.len() == 0 {
        0
    } else {
        total_ev_of(items.drop_last(), book, now) + eval_of(book, items.last(), now).ev
    }
}

/// Sum of the per-item confidences of a cargo list.
pub open spec fn conf_sum_of(items: Seq<CargoItem>, book: PriceBook, now: u64) -> int
    decreases items.len(),
{
    if items.len() == 0 {
        0
    } else {
        conf_sum_of(items.drop_last(), book, now) + eval_of(book, items.last(), now).confidence
    }
}

/// Each position of the valuation list pairs the item's id with its
/// valuation.
pub proof fn lemma_evals_of_index(items: Seq<CargoItem>, book: PriceBook, now: u64)
    ensures
        evals_of(items, book, now).len() == items.len(),
        forall|i: int|
            0 <= i < items.len() ==> #[trigger] evals_of(items, book, now)[i] == (
            items[i].id,
            eval_of(book, items[i], now),
            ),
    decreases items.len(),
{
    if items.len() > 0 {
        lemma_evals_of_index(items.drop_last(), book, now);
    }
}

/// Mean of the per-item confidences, zero for an empty cargo list.
pub open spec fn spec_average_confidence(items: Seq<CargoItem>, book: PriceBook, now: u64) -> int {
    if items.len() == 0 {
        0
    } else {
        conf_sum_of(items, book, now) / items.len() as int
    }
}

/// Totals of the per-item sums over well-formed inputs.
pub proof fn lemma_eval_sums_bounded(items: Seq<CargoItem>, book: PriceBook, now: u64)
    requires
        wf_price_book(book),
    ensures
        0 <= total_ev_of(items, book, now),
        total_ev_of(items, book, now) <= items.len() * item_ev_cap(),
        0 <= conf_sum_of(items, book, now),
        conf_sum_of(items, book, now) <= items.len() * (PPM_SCALE as int),
    decreases items.len(),
{
    if items.len() > 0 {
        lemma_eval_sums_bounded(items.drop_last(), book, now);
        crate::entities::lemma_book_lookup_wf(book.entries@, items.last().commodity_id@);
        lemma_evaluate_item_bounds(
            items.last(),
            book.spec_get(items.last().commodity_id@),
            now,
        );
        assert((items.len() - 1) * item_ev_cap() + item_ev_cap() == items.len() * item_ev_cap())
            by (nonlinear_arith);
        assert((items.len() - 1) * (PPM_SCALE as int) + PPM_SCALE == items.len() * (
        PPM_SCALE as int)) by (nonlinear_arith);
    }
}

/// Valuation of a whole cargo list: total expected value, mean
/// confidence, and the per-item valuations keyed by item id.
pub struct EvaluationSummary {
    /// Sum of the per-item expected values, in milli-aUEC.
    pub total_ev: u128,
    /// Mean of the per-item confidences, in parts per million.
    pub average_confidence: u64,
    /// One valuation per cargo item, in input order.
    pub items: Vec<(String, CargoEvaluation)>,
}

/// Evaluate every cargo item against a price book as read at `now`.
pub fn evaluate_cargo_items_at(items: &Vec<CargoItem>, prices: &PriceBook, now: u64) -> (r:
    EvaluationSummary)
    requires
        items@.len() <= MAX_ITEMS,
        wf_price_book(*prices),
    ensures
        r.items@ == evals_of(items@, *prices, now),
        r.total_ev == total_ev_of(items@, *prices, now),
        r.average_confidence == spec_average_confidence(items@, *prices, now),
        r.average_confidence <= PPM_SCALE,
{
    let n: usize = items.len();
    let mut evaluations: Vec<(String, CargoEvaluation)> = Vec::new();
    let mut total_ev: u128 = 0;
    let mut confidence_sum: u64 = 0;
    proof {
        assert(items@.take(0) =~= Seq::<CargoItem>::empty());
    }
    for i in 0..n
        invariant
            n == items@.len(),
            items@.len() <= MAX_ITEMS,
            wf_price_book(*prices),
            evaluations@ == evals_of(items@.take(i as int), *prices, now),
            total_ev == total_ev_of(items@.take(i as int), *prices, now),
            confidence_sum == conf_sum_of(items@.take(i as int), *prices, now),
    {
        proof {
            lemma_take_step(items@, i as int);
            lemma_eval_sums_bounded(items@.take(i as int), *prices, now);
            crate::entities::lemma_book_lookup_wf(prices.entries@, items@[i as int].commodity_id@);
            lemma_evaluate_item_bounds(
                items@[i as int],
                prices.spec_get(items@[i as int].commodity_id@),
                now,
            );
            assert(items@.take(i as int).len() * item_ev_cap() <= MAX_ITEMS * item_ev_cap())
                by (nonlinear_arith)
                requires
                    0 <= items@.take(i as int).len() <= MAX_ITEMS,
            ;
            assert(items@.take(i as int).len() * (PPM_SCALE as int) <= MAX_ITEMS * (
            PPM_SCALE as int)) by (nonlinear_arith)
                requires
                    0 <= items@.take(i as int).len() <= MAX_ITEMS,
            ;
        }
        let item = &items[i];
        let evaluation = evaluate_item_at(item, prices.get(&item.commodity_id), now);
        total_ev = total_ev + evaluation.ev;
        confidence_sum = confidence_sum + evaluation.confidence;
        let ghost pre = evaluations@;
        evaluations.push((item.id.clone(), evaluation));
        proof {
            assert(evaluations@ =~= pre.push((items@[i as int].id, evaluation)));
        }
    }
    proof {
        lemma_take_all(items@);
    }
    let average_confidence: u64 = if n == 0 {
        0
    } else {
        proof {
            lemma_eval_sums_bounded(items@, *prices, now);
            vstd::arithmetic::div_mod::lemma_div_is_ordered(
                confidence_sum as int,
                items@.len() * (PPM_SCALE as int),
                items@.len() as int,
            );
            vstd::arithmetic::div_mod::lemma_div_by_multiple(PPM_SCALE as int, items@.len() as int);
            assert(items@.len() * (PPM_SCALE as int) == (PPM_SCALE as int) * items@.len())
                by (nonlinear_arith);
        }
        confidence_sum / (n as u64)
    };
    EvaluationSummary { total_ev, average_confidence, items: evaluations }
}

/// The parts of a price summary other than the confidence do not
/// depend on the clock reading.
pub proof fn lemma_summary_now_irrelevant(ps: Seq<PricePoint>, n1: u64, n2: u64)
    ensures
        match (spec_price_summary(ps, n1), spec_price_summary(ps, n2)) {
            (Some(a), Some(b)) => {
                &&& a.average_price == b.average_price
                &&& a.min_price == b.min_price
                &&& a.max_price == b.max_price
            },
            (None, None) => true,
            _ => false,
        },
{
}

/// A cargo item's value and bounds do not depend on the clock reading.
pub proof fn lemma_item_now_irrelevant(
    item: CargoItem,
    pso: Option<Seq<PricePoint>>,
    n1: u64,
    n2: u64,
)
    ensures
        spec_evaluate_item(item, pso, n1).ev == spec_evaluate_item(item, pso, n2).ev,
        spec_evaluate_item(item, pso, n1).min == spec_evaluate_item(item, pso, n2).min,
        spec_evaluate_item(item, pso, n1).max == spec_evaluate_item(item, pso, n2).max,
{
    match pso {
        Some(ps) => {
            lemma_summary_now_irrelevant(ps, n1, n2);
        },
        None => {},
    }
}

/// The total expected value of a cargo list does not depend on the
/// clock reading.
pub proof fn lemma_total_ev_now_irrelevant(items: Seq<CargoItem>, book: PriceBook, n1: u64, n2: u64)
    ensures
        total_ev_of(items, book, n1) == total_ev_of(items, book, n2),
    decreases items.len(),
{
    if items.len() > 0 {
        lemma_total_ev_now_irrelevant(items.drop_last(), book, n1, n2);
        lemma_item_now_irrelevant(items.last(), book.spec_get(items.last().commodity_id@), n1, n2);
    }
}

/// Summarize the price points of one commodity, reading the clock once.
///
/// Returns `None` exactly when no point offers a usable sell price.
/// The averaged and extremal prices are pinned; only the confidence
/// depends on the clock reading, and it always lies in `[0, 1]`.
pub fn price_summary(points: &Vec<PricePoint>) -> (r: Option<PriceSummary>)
    requires
        wf_price_points(points@),
    ensures
        r is Some <==> sell_prices_of(points@).len() != 0,
        match r {
            Some(s) => {
                &&& s.average_price == sum_of(sell_prices_of(points@)) / sell_prices_of(
                    points@,
                ).len() as int
                &&& s.max_price == Some(max_of(sell_prices_of(points@)))
                &&& s.min_price == (if buy_prices_of(points@).len() == 0 {
                    None
                } else {
                    Some(min_of(buy_prices_of(points@)))
                })
                &&& s.confidence <= PPM_SCALE
            },
            None => true,
        },
        exists|now: u64| r == spec_price_summary(points@, now),
{
    let now: u64 = crate::clock::unix_now_secs();
    let r = price_summary_at(points, now);
    proof {
        lemma_confidence_bounds(points@, now);
        lemma_price_lists_wf(points@);
        let sells = sell_prices_of(points@);
        if sells.len() > 0 {
            lemma_sum_bounded(sells, PRICE_CAP);
            vstd::arithmetic::div_mod::lemma_div_is_ordered(
                sum_of(sells),
                sells.len() * (PRICE_CAP as int),
                sells.len() as int,
            );
            vstd::arithmetic::div_mod::lemma_div_by_multiple(PRICE_CAP as int, sells.len() as int);
            assert(sells.len() * (PRICE_CAP as int) == (PRICE_CAP as int) * sells.len())
                by (nonlinear_arith);
            vstd::arithmetic::div_mod::lemma_div_pos_is_pos(sum_of(sells), sells.len() as int);
        }
        assert(r == spec_price_summary(points@, now));
    }
    r
}

/// Evaluate one cargo item, reading the clock once.
///
/// With no price points the result is all zeroes; otherwise value and
/// bounds equal the clock-independent model and the confidence lies in
/// `[0, 1]`.
pub fn evaluate_item(item: &CargoItem, price_points: Option<&Vec<PricePoint>>) -> (r:
    CargoEvaluation)
    requires
        match price_points {
            Some(ps) => wf_price_points(ps@),
            None => true,
        },
    ensures
        r.ev == spec_evaluate_item(*item, pso_of(price_points), 0).ev,
        r.min == spec_evaluate_item(*item, pso_of(price_points), 0).min,
        r.max == spec_evaluate_item(*item, pso_of(price_points), 0).max,
        r.confidence <= PPM_SCALE,
        exists|now: u64| r == spec_evaluate_item(*item, pso_of(price_points), now),
{
    let now: u64 = crate::clock::unix_now_secs();
    let r = evaluate_item_at(item, price_points, now);
    proof {
        let pso = pso_of(price_points);
        lemma_item_now_irrelevant(*item, pso, now, 0);
        lemma_evaluate_item_bounds(*item, pso, now);
        assert(r == spec_evaluate_item(*item, pso, now));
    }
    r
}

/// The viewed point list of an optional borrowed point vector.
pub open spec fn pso_of(price_points: Option<&Vec<PricePoint>>) -> Option<Seq<PricePoint>> {
    match price_points {
        Some(ps) => Some(ps@),
        None => None,
    }
}

/// Evaluate every cargo item against a price book, reading the clock once.
///
/// The total expected value is pinned by the clock-independent model;
/// the mean confidence lies in `[0, 1]`.
pub fn evaluate_cargo_items(items: &Vec<CargoItem>, prices: &PriceBook) -> (r: EvaluationSummary)
    requires
        items@.len() <= MAX_ITEMS,
        wf_price_book(*prices),
    ensures
        r.total_ev == total_ev_of(items@, *prices, 0),
        r.total_ev <= TOTAL_EV_CAP,
        r.average_confidence <= PPM_SCALE,
        r.items@.len() == items@.len(),
        forall|i: int| 0 <= i < items@.len() ==> (#[trigger] r.items@[i]).0 == items@[i].id,
        forall|i: int|
            0 <= i < items@.len() ==> (#[trigger] r.items@[i]).1.ev == eval_of(
                *prices,
                items@[i],
                0,
            ).ev,
        exists|now: u64|
            {
                &&& r.items@ == evals_of(items@, *prices, now)
                &&& r.total_ev == total_ev_of(items@, *prices, now)
                &&& r.average_confidence == spec_average_confidence(items@, *prices, now)
            },
{
    let now: u64 = crate::clock::unix_now_secs();
    let r = evaluate_cargo_items_at(items, prices, now);
    proof {
        lemma_total_ev_now_irrelevant(items@, *prices, now, 0);
        lemma_eval_sums_bounded(items@, *prices, now);
        assert(items@.len() * item_ev_cap() <= MAX_ITEMS * item_ev_cap()) by (nonlinear_arith)
            requires
                0 <= items@.len() <= MAX_ITEMS,
        ;
        lemma_evals_of_index(items@, *prices, now);
        assert forall|i: int| 0 <= i < items@.len() implies (#[trigger] r.items@[i]).1.ev
            == eval_of(*prices, items@[i], 0).ev by {
            lemma_item_now_irrelevant(
                items@[i],
                prices.spec_get(items@[i].commodity_id@),
                now,
                0,
            );
        }
    }
    r
}

/// Largest total expected value one evaluation pass can produce.
pub const TOTAL_EV_CAP: u128 = 10_000_000_000_000_000_000_000_000_000;

/// Largest accepted risk share, in parts per million (a factor of 1000).
pub const RISK_PCT_CAP: u64 = 1_000_000_000;

/// Parameters of the profitability indicator.
#[derive(Clone, Copy)]
pub struct ProfitabilityParams {
    /// Risk share of the total value, in parts per million of 1.0.
    pub risk_pct: u64,
    /// Crew cost per hour, in milli-aUEC.
    pub crew_hourly: u64,
    /// Number of crew members.
    pub crew_size: u8,
    /// Planned haul duration in minutes.
    pub time_minutes: u16,
}

impl Default for ProfitabilityParams {
    /// Defaults: 20% risk, 150 aUEC per crew hour, one crew member, one hour.
    fn default() -> (r: Self)
        ensures
            r.risk_pct == 200_000,
            r.crew_hourly == 150_000,
            r.crew_size == 1,
            r.time_minutes == 60,
    {
        ProfitabilityParams { risk_pct: 200_000, crew_hourly: 150_000, crew_size: 1, time_minutes: 60 }
    }
}

/// Traffic-light profitability status.
#[derive(Clone, Copy, Debug, PartialEq, Eq, Structural)]
pub enum ProfitIndicatorStatus {
    Green,
    Yellow,
    Red,
}

/// Profitability outcome: a status, the net score, and a short
/// explanation of the three components.
pub struct ProfitIndicator {
    pub status: ProfitIndicatorStatus,
    /// Net value after risk and crew cost, in milli-aUEC; may be negative.
    pub score: i128,
    pub rationale: String,
}

/// Crew cost in milli-aUEC: hourly rate times crew size times hours.
pub open spec fn spec_crew_cost(p: ProfitabilityParams) -> int {
    (p.crew_hourly as int) * (p.crew_size as int) * (p.time_minutes as int) / 60
}

/// Risk penalty in milli-aUEC: the risk share of the total value.
pub open spec fn spec_risk_penalty(total_ev: int, p: ProfitabilityParams) -> int {
    total_ev * (p.risk_pct as int) / (PPM_SCALE as int)
}

/// Net score: total value minus risk penalty minus crew cost.
pub open spec fn spec_score(total_ev: int, p: ProfitabilityParams) -> int {
    total_ev - spec_risk_penalty(total_ev, p) - spec_crew_cost(p)
}

/// Status thresholds relative to the total value: Green at 60% of it,
/// Yellow at 25%, Red below or when there is no value at all.
pub open spec fn spec_status(total_ev: int, p: ProfitabilityParams) -> ProfitIndicatorStatus {
    if total_ev <= 0 {
        ProfitIndicatorStatus::Red
    } else if 10 * spec_score(total_ev, p) >= 6 * total_ev {
        ProfitIndicatorStatus::Green
    } else if 4 * spec_score(total_ev, p) >= total_ev {
        ProfitIndicatorStatus::Yellow
    } else {
        ProfitIndicatorStatus::Red
    }
}

/// Milli-aUEC rounded to whole aUEC, half away from zero.
pub open spec fn round_milli(x: int) -> int {
    (x + 500) / 1000
}

/// The rationale line: the three components rounded to whole aUEC, or
/// a fixed message when there is no value yet.
pub open spec fn spec_rationale(total_ev: int, p: ProfitabilityParams) -> Seq<char> {
    if total_ev <= 0 {
        "No estimated value yet"@
    } else {
        "Net = "@ + crate::text::dec_str(round_milli(total_ev)) + " - risk "@
            + crate::text::dec_str(round_milli(spec_risk_penalty(total_ev, p))) + " - crew "@
            + crate::text::dec_str(round_milli(spec_crew_cost(p)))
    }
}

/// Classify a total expected value against risk and crew-cost parameters.
pub fn profitability_indicator(total_ev: u128, params: &ProfitabilityParams) -> (r: ProfitIndicator)
    requires
        total_ev <= TOTAL_EV_CAP,
        params.risk_pct <= RISK_PCT_CAP,
        params.crew_hourly <= PRICE_CAP,
    ensures
        r.status == spec_status(total_ev as int, *params),
        r.score == spec_score(total_ev as int, *params),
        r.rationale@ == spec_rationale(total_ev as int, *params),
{
    proof {
        assert((params.crew_hourly as int) * (params.crew_size as int) <= (PRICE_CAP as int) * 255)
            by (nonlinear_arith)
            requires
                0 <= params.crew_hourly as int <= PRICE_CAP as int,
                0 <= params.crew_size as int <= 255,
        ;
        assert((params.crew_hourly as int) * (params.crew_size as int) * (params.time_minutes
            as int) <= (PRICE_CAP as int) * 255 * 65535) by (nonlinear_arith)
            requires
                0 <= (params.crew_hourly as int) * (params.crew_size as int) <= (PRICE_CAP as int)
                    * 255,
                0 <= params.time_minutes as int <= 65535,
        ;
        assert((total_ev as int) * (params.risk_pct as int) <= (TOTAL_EV_CAP as int) * (
        RISK_PCT_CAP as int)) by (nonlinear_arith)
            requires
                0 <= total_ev as int <= TOTAL_EV_CAP as int,
                0 <= params.risk_pct as int <= RISK_PCT_CAP as int,
        ;
    }
    let crew_cost: u128 = (params.crew_hourly as u128) * (params.crew_size as u128) * (
    params.time_minutes as u128) / 60;
    let risk_penalty: u128 = total_ev * (params.risk_pct as u128) / (PPM_SCALE as u128);
    let score: i128 = (total_ev as i128) - (risk_penalty as i128) - (crew_cost as i128);
    if total_ev == 0 {
        return ProfitIndicator {
            status: ProfitIndicatorStatus::Red,
            score,
            rationale: String::from_str("No estimated value yet"),
        };
    }
    let status: ProfitIndicatorStatus = if 10 * score >= 6 * (total_ev as i128) {
        ProfitIndicatorStatus::Green
    } else if 4 * score >= (total_ev as i128) {
        ProfitIndicatorStatus::Yellow
    } else {
        ProfitIndicatorStatus::Red
    };
    let mut rationale = String::new();
    proof {
        reveal_strlit("Net = ");
        reveal_strlit(" - risk ");
        reveal_strlit(" - crew ");
    }
    rationale.append("Net = ");
    let net_digits = crate::text::u128_to_dec((total_ev + 500) / 1000);
    rationale.append(net_digits.as_str());
    rationale.append(" - risk ");
    let risk_digits = crate::text::u128_to_dec((risk_penalty + 500) / 1000);
    rationale.append(risk_digits.as_str());
    rationale.append(" - crew ");
    let crew_digits = crate::text::u128_to_dec((crew_cost + 500) / 1000);
    rationale.append(crew_digits.as_str());
    proof {
        assert(rationale@ =~= spec_rationale(total_ev as int, *params));
    }
    ProfitIndicator { status, score, rationale }
}

/// Evaluating the same cargo list against the same price book at the
/// same clock reading always yields the same summary: any two results
/// that satisfy the evaluator's contract agree in every part.
pub proof fn lemma_evaluation_deterministic(
    a: EvaluationSummary,
    b: EvaluationSummary,
    items: Seq<CargoItem>,
    book: PriceBook,
    now: u64,
)
    requires
        a.items@ == evals_of(items, book, now),
        a.total_ev == total_ev_of(items, book, now),
        a.average_confidence == spec_average_confidence(items, book, now),
        b.items@ == evals_of(items, book, now),
        b.total_ev == total_ev_of(items, book, now),
        b.average_confidence == spec_average_confidence(items, book, now),
    ensures
        a.items@ == b.items@,
        a.total_ev == b.total_ev,
        a.average_confidence == b.average_confidence,
{
}

} // verus!
