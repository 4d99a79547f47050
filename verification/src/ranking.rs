//! Best-price ranking: score every known sell location for each cargo
//! item by sell price minus travel penalties, keep the top three per
//! item, and track the single best location across all items.

use vstd::prelude::*;
use vstd::relations::sorted_by;

use crate::entities::{
    clone_opt_string, lemma_book_lookup_wf, ranker_buy_price, ranker_sell_price, wf_price_book,
    wf_price_point, wf_price_points, CargoItem, LocationBook, PriceBook, PricePoint, SellLocation,
};
use crate::seqs::{copy_u64_vec, lemma_take_all, lemma_take_step};
use crate::sorting::{insert_sorted_by, insertion_sort, sort_by_spec};
use crate::text::{int_dec_str, spec_join, views_of};

verus! {

/// Penalty for selling outside the home system, milli-aUEC.
pub const CROSS_SYSTEM_PENALTY: u64 = 75_000;

/// Penalty for selling inside an armistice zone, milli-aUEC.
pub const ARMISTICE_PENALTY: u64 = 25_000;

/// Penalty for selling at a hotspot terminal, milli-aUEC.
pub const HOTSPOT_PENALTY: u64 = 40_000;

/// The label for a market status code, when the code is known.
pub open spec fn spec_status_label(value: Option<i32>) -> Option<Seq<char>> {
    match value {
        Some(3) => Some("High"@),
        Some(2) => Some("Normal"@),
        Some(1) => Some("Low"@),
        Some(0) => Some("Offline"@),
        _ => None,
    }
}

/// The label for a market status code 0-3: Offline, Low, Normal, High.
pub fn status_label(value: Option<i32>) -> (r: Option<&'static str>)
    ensures
        match r {
            Some(s) => spec_status_label(value) == Some(s@),
            None => spec_status_label(value) is None,
        },
{
    match value {
        Some(3) => Some("High"),
        Some(2) => Some("Normal"),
        Some(1) => Some("Low"),
        Some(0) => Some("Offline"),
        _ => None,
    }
}

/// Whether `needle` occurs contiguously inside `hay`.
pub open spec fn spec_contains_seq(hay: Seq<char>, needle: Seq<char>) -> bool {
    exists|i: int|
        0 <= i <= hay.len() - needle.len() && #[trigger] hay.subrange(i, i + needle.len())
            == needle
}

/// Relies on str::chars: the characters of the string, in order.
#[verifier::external_body]
fn str_chars(s: &str) -> (r: Vec<char>)
    ensures
        r@ == s@,
{
    s.chars().collect()
}

/// Whether the characters of `needle` occur contiguously in `hay`, exactly.
fn chars_contain(hay: &Vec<char>, needle: &Vec<char>) -> (r: bool)
    ensures
        r == spec_contains_seq(hay@, needle@),
{
    let h: usize = hay.len();
    let m: usize = needle.len();
    if m > h {
        return false;
    }
    if m == 0 {
        proof {
            assert(hay@.subrange(0int, 0int + needle@.len() as int) =~= needle@);
        }
        return true;
    }
    let last_start: usize = h - m;
    for i in 0..last_start + 1
        invariant
            h == hay@.len(),
            m == needle@.len(),
            m <= h,
            last_start == h - m,
            forall|k: int|
                0 <= k < i ==> #[trigger] hay@.subrange(k, k + needle@.len()) != needle@,
    {
        let mut all_eq: bool = true;
        for j in 0..m
            invariant
                h == hay@.len(),
                m == needle@.len(),
                0 <= i <= h - m,
                all_eq == (forall|t: int| 0 <= t < j ==> hay@[i + t] == #[trigger] needle@[t]),
        {
            if hay[i + j] != needle[j] {
                all_eq = false;
                proof {
                    assert(!(hay@[i + j] == needle@[j as int]));
                }
            }
        }
        if all_eq {
            proof {
                assert(hay@.subrange(i as int, i as int + needle@.len() as int) =~= needle@);
            }
            return true;
        } else {
            proof {
                let t = choose|t: int| 0 <= t < m && hay@[i + t] != needle@[t];
                assert(hay@.subrange(i as int, i + needle@.len())[t] == hay@[i + t]);
                assert(hay@.subrange(i as int, i + needle@.len()) != needle@);
            }
        }
    }
    proof {
        assert forall|k: int| 0 <= k <= hay@.len() - needle@.len() implies #[trigger] hay@.subrange(
            k,
            k + needle@.len(),
        ) != needle@ by {
            assert(k < last_start + 1);
        }
    }
    false
}

/// Whether a terminal name marks a hotspot: it mentions one of the
/// known hotspot locations, case-sensitively.
pub open spec fn spec_hotspot(name: Seq<char>) -> bool {
    ||| spec_contains_seq(name, "Grim Hex"@)
    ||| spec_contains_seq(name, "Spider"@)
    ||| spec_contains_seq(name, "Jumptown"@)
}

/// Whether a terminal name marks a hotspot, exactly.
pub fn is_hotspot(name: &String) -> (r: bool)
    ensures
        r == spec_hotspot(name@),
{
    let hay = str_chars(name.as_str());
    let grim = str_chars("Grim Hex");
    let spider = str_chars("Spider");
    let jumptown = str_chars("Jumptown");
    chars_contain(&hay, &grim) || chars_contain(&hay, &spider) || chars_contain(&hay, &jumptown)
}

/// The note texts attached to a ranked entry, in display order.
pub open spec fn spec_note_parts(
    cross_system: bool,
    armistice: bool,
    hotspot: bool,
    stock: Option<u64>,
    status_sell: Option<i32>,
    status_buy: Option<i32>,
) -> Seq<Seq<char>> {
    let a: Seq<Seq<char>> = if cross_system {
        seq!["Cross-system"@]
    } else {
        Seq::empty()
    };
    let b: Seq<Seq<char>> = if armistice {
        seq!["Armistice"@]
    } else {
        Seq::empty()
    };
    let c: Seq<Seq<char>> = if hotspot {
        seq!["Hotspot"@]
    } else {
        Seq::empty()
    };
    let d: Seq<Seq<char>> = match spec_status_label(status_sell) {
        Some(l) => seq!["Sell "@ + l],
        None => Seq::empty(),
    };
    let e: Seq<Seq<char>> = match spec_status_label(status_buy) {
        Some(l) => seq!["Buy "@ + l],
        None => Seq::empty(),
    };
    let f: Seq<Seq<char>> = match stock {
        Some(v) => if v < 500 {
            seq!["Low stock"@]
        } else if v > 5000 {
            seq!["High stock"@]
        } else {
            Seq::empty()
        },
        None => Seq::empty(),
    };
    a + b + c + d + e + f
}

/// The comma-joined note line, or nothing when no note applies.
pub open spec fn spec_notes(
    cross_system: bool,
    armistice: bool,
    hotspot: bool,
    stock: Option<u64>,
    status_sell: Option<i32>,
    status_buy: Option<i32>,
) -> Option<Seq<char>> {
    let parts = spec_note_parts(cross_system, armistice, hotspot, stock, status_sell, status_buy);
    if parts.len() == 0 {
        None
    } else {
        Some(spec_join(parts, ", "@))
    }
}

/// Assemble the note line for a ranked entry, exactly.
pub fn build_notes(
    cross_system: bool,
    armistice: bool,
    hotspot: bool,
    stock: Option<u64>,
    status_sell: Option<i32>,
    status_buy: Option<i32>,
) -> (r: Option<String>)
    ensures
        match r {
            Some(s) => spec_notes(cross_system, armistice, hotspot, stock, status_sell, status_buy)
                == Some(s@),
            None => spec_notes(
                cross_system,
                armistice,
                hotspot,
                stock,
                status_sell,
                status_buy,
            ) is None,
        },
{
    let ghost parts_spec = spec_note_parts(
        cross_system,
        armistice,
        hotspot,
        stock,
        status_sell,
        status_buy,
    );
    let mut parts: Vec<String> = Vec::new();
    if cross_system {
        parts.push(String::from_str("Cross-system"));
    }
    if armistice {
        parts.push(String::from_str("Armistice"));
    }
    if hotspot {
        parts.push(String::from_str("Hotspot"));
    }
    match status_label(status_sell) {
        Some(level) => {
            let mut s = String::from_str("Sell ");
            s.append(level);
            parts.push(s);
        },
        None => {},
    }
    match status_label(status_buy) {
        Some(level) => {
            let mut s = String::from_str("Buy ");
            s.append(level);
            parts.push(s);
        },
        None => {},
    }
    match stock {
        Some(v) => {
            if v < 500 {
                parts.push(String::from_str("Low stock"));
            } else if v > 5000 {
                parts.push(String::from_str("High stock"));
            }
        },
        None => {},
    }
    proof {
        assert(views_of(parts@) =~= parts_spec);
    }
    if parts.len() == 0 {
        None
    } else {
        Some(crate::text::join_comma(&parts))
    }
}

/// One scored sell location for one cargo item.
pub struct BestPriceEntry {
    /// Terminal id as text, or the matched location's id.
    pub location_id: Option<String>,
    /// Terminal name, with the system in parentheses when known.
    pub location_name: String,
    /// Resolved sell price, milli-aUEC.
    pub sell_price: Option<u64>,
    /// Resolved buy price, milli-aUEC.
    pub buy_price: Option<u64>,
    /// Sell price minus travel penalties, milli-aUEC; may be negative.
    pub adjusted_price: i64,
    /// Sell-side stock of the terminal, SCU.
    pub stock: Option<u64>,
    pub status_sell: Option<i32>,
    pub status_buy: Option<i32>,
    /// Accepted container sizes, SCU.
    pub container_sizes: Vec<u64>,
    /// Comma-joined display notes, when any apply.
    pub notes: Option<String>,
}

/// Whether two entries agree in every field, with the container list
/// compared by contents.
pub open spec fn entry_like(a: BestPriceEntry, b: BestPriceEntry) -> bool {
    &&& a.location_id == b.location_id
    &&& a.location_name == b.location_name
    &&& a.sell_price == b.sell_price
    &&& a.buy_price == b.buy_price
    &&& a.adjusted_price == b.adjusted_price
    &&& a.stock == b.stock
    &&& a.status_sell == b.status_sell
    &&& a.status_buy == b.status_buy
    &&& a.container_sizes@ == b.container_sizes@
    &&& a.notes == b.notes
}

impl Clone for BestPriceEntry {
    /// A copy of the entry that agrees in every field.
    fn clone(&self) -> (r: Self)
        ensures
            entry_like(r, *self),
    {
        BestPriceEntry {
            location_id: clone_opt_string(&self.location_id),
            location_name: self.location_name.clone(),
            sell_price: self.sell_price,
            buy_price: self.buy_price,
            adjusted_price: self.adjusted_price,
            stock: self.stock,
            status_sell: self.status_sell,
            status_buy: self.status_buy,
            container_sizes: copy_u64_vec(&self.container_sizes),
            notes: clone_opt_string(&self.notes),
        }
    }
}

/// Ranked sell suggestions for one cargo item.
pub struct BestPriceSuggestion {
    pub item_id: String,
    pub commodity_name: String,
    /// At most three entries, by adjusted price descending.
    pub entries: Vec<BestPriceEntry>,
}

/// Ranked suggestions for a whole cargo list, and the single best
/// location seen across all items.
pub struct BestPriceSummary {
    pub suggestions: Vec<BestPriceSuggestion>,
    pub best_overall: Option<BestPriceEntry>,
}

/// The key a point's location is looked up under: the terminal id as
/// decimal text, or the terminal name when there is no id.
pub open spec fn spec_location_key(p: PricePoint) -> Seq<char> {
    match p.terminal_id {
        Some(id) => int_dec_str(id as int),
        None => p.terminal_name@,
    }
}

/// The sell location matched to a point: by key first, then by name.
pub open spec fn spec_point_location(locations: LocationBook, p: PricePoint) -> Option<
    SellLocation,
> {
    match locations.spec_get(spec_location_key(p)) {
        Some(l) => Some(l),
        None => locations.spec_get(p.terminal_name@),
    }
}

/// Whether the matched location lies in an armistice zone; unknown
/// locations do not.
pub open spec fn spec_point_armistice(locations: LocationBook, p: PricePoint) -> bool {
    match spec_point_location(locations, p) {
        Some(l) => l.armistice,
        None => false,
    }
}

/// The system a point sells in: the location's system, else the
/// point's, else "Unknown".
pub open spec fn spec_system_name(locations: LocationBook, p: PricePoint) -> Seq<char> {
    let fallback = match p.system {
        Some(s) => s@,
        None => "Unknown"@,
    };
    match spec_point_location(locations, p) {
        Some(l) => match l.system {
            Some(s) => s@,
            None => fallback,
        },
        None => fallback,
    }
}

/// Whether selling there means leaving the home system.
pub open spec fn spec_cross_system(locations: LocationBook, p: PricePoint) -> bool {
    spec_system_name(locations, p) != "Stanton"@
}

/// The total penalty applied to a point's sell price, milli-aUEC.
pub open spec fn spec_penalty(locations: LocationBook, p: PricePoint) -> int {
    (if spec_cross_system(locations, p) {
        CROSS_SYSTEM_PENALTY as int
    } else {
        0
    }) + (if spec_point_armistice(locations, p) {
        ARMISTICE_PENALTY as int
    } else {
        0
    }) + (if spec_hotspot(p.terminal_name@) {
        HOTSPOT_PENALTY as int
    } else {
        0
    })
}

/// The adjusted price of a usable point: resolved sell price minus
/// penalties; it may go negative and is never clamped here.
pub open spec fn spec_adjusted(locations: LocationBook, p: PricePoint) -> int {
    (match ranker_sell_price(p) {
        Some(v) => v as int,
        None => 0,
    }) - spec_penalty(locations, p)
}

/// The display id of an entry: terminal id as text, else the matched
/// location's id, else nothing.
pub open spec fn spec_entry_location_id(locations: LocationBook, p: PricePoint) -> Option<
    Seq<char>,
> {
    match p.terminal_id {
        Some(id) => Some(int_dec_str(id as int)),
        None => match spec_point_location(locations, p) {
            Some(l) => Some(l.id@),
            None => None,
        },
    }
}

/// The display name of an entry: the terminal name, with the system in
/// parentheses when a location was matched.
pub open spec fn spec_entry_location_name(locations: LocationBook, p: PricePoint) -> Seq<char> {
    match spec_point_location(locations, p) {
        Some(l) => p.terminal_name@ + " ("@ + spec_system_name(locations, p) + ")"@,
        None => p.terminal_name@,
    }
}

/// The note line of an entry.
pub open spec fn spec_entry_notes(locations: LocationBook, p: PricePoint) -> Option<Seq<char>> {
    spec_notes(
        spec_cross_system(locations, p),
        spec_point_armistice(locations, p),
        spec_hotspot(p.terminal_name@),
        p.scu_sell_stock,
        p.status_sell,
        p.status_buy,
    )
}

/// Whether a point yields an entry at all: it resolves a sell price.
pub open spec fn usable_point(p: PricePoint) -> bool {
    ranker_sell_price(p) is Some
}

/// The points of a list that yield entries, in order.
pub open spec fn usable_points(ps: Seq<PricePoint>) -> Seq<PricePoint>
    decreases ps.len(),
{
    if ps.len() == 0 {
        Seq::empty()
    } else if usable_point(ps.last()) {
        usable_points(ps.drop_last()).push(ps.last())
    } else {
        usable_points(ps.drop_last())
    }
}

/// Whether an entry is exactly the one a point and the location book
/// give rise to: every field is pinned by its content.
pub open spec fn entry_matches(e: BestPriceEntry, p: PricePoint, locations: LocationBook) -> bool {
    &&& e.sell_price == ranker_sell_price(p)
    &&& e.buy_price == ranker_buy_price(p)
    &&& e.adjusted_price == spec_adjusted(locations, p)
    &&& (match (e.location_id, spec_entry_location_id(locations, p)) {
        (Some(s), Some(v)) => s@ == v,
        (None, None) => true,
        _ => false,
    })
    &&& e.location_name@ == spec_entry_location_name(locations, p)
    &&& e.stock == p.scu_sell_stock
    &&& e.status_sell == p.status_sell
    &&& e.status_buy == p.status_buy
    &&& e.container_sizes@ == p.container_sizes@
    &&& (match (e.notes, spec_entry_notes(locations, p)) {
        (Some(s), Some(v)) => s@ == v,
        (None, None) => true,
        _ => false,
    })
}

/// Whether entry `a` may rank before entry `b`: its adjusted price is
/// at least as high.
pub open spec fn spec_entry_leq(a: BestPriceEntry, b: BestPriceEntry) -> bool {
    b.adjusted_price <= a.adjusted_price
}

/// The entry order: by adjusted price descending.
pub open spec fn entry_leq() -> spec_fn(BestPriceEntry, BestPriceEntry) -> bool {
    |a: BestPriceEntry, b: BestPriceEntry| spec_entry_leq(a, b)
}

/// The point's system, or "Unknown", as an owned string.
fn point_system_or_unknown(p: &PricePoint) -> (r: String)
    ensures
        r@ == match p.system {
            Some(s) => s@,
            None => "Unknown"@,
        },
{
    match &p.system {
        Some(s) => s.clone(),
        None => String::from_str("Unknown"),
    }
}

/// Score one price point against the location book, exactly.
fn entry_for_point(point: &PricePoint, locations: &LocationBook, sell_price: u64) -> (e:
    BestPriceEntry)
    requires
        wf_price_point(*point),
        ranker_sell_price(*point) == Some(sell_price),
    ensures
        entry_matches(e, *point, *locations),
{
    let buy_price: Option<u64> = point.ranker_buy();
    let key: String = match point.terminal_id {
        Some(id) => crate::text::i64_to_dec(id as i64),
        None => point.terminal_name.clone(),
    };
    let location: Option<&SellLocation> = match locations.get(&key) {
        Some(l) => Some(l),
        None => locations.get(&point.terminal_name),
    };
    let armistice: bool = match location {
        Some(l) => l.armistice,
        None => false,
    };
    let system_name: String = match location {
        Some(l) => match &l.system {
            Some(s) => s.clone(),
            None => point_system_or_unknown(point),
        },
        None => point_system_or_unknown(point),
    };
    let home: String = String::from_str("Stanton");
    let cross_system: bool = !(system_name == home);
    let hotspot: bool = is_hotspot(&point.terminal_name);
    let mut penalty: u64 = 0;
    if cross_system {
        penalty = penalty + CROSS_SYSTEM_PENALTY;
    }
    if armistice {
        penalty = penalty + ARMISTICE_PENALTY;
    }
    if hotspot {
        penalty = penalty + HOTSPOT_PENALTY;
    }
    let adjusted_price: i64 = (sell_price as i64) - (penalty as i64);
    let location_id: Option<String> = match point.terminal_id {
        Some(id) => Some(crate::text::i64_to_dec(id as i64)),
        None => match location {
            Some(l) => Some(l.id.clone()),
            None => None,
        },
    };
    let location_name: String = match location {
        Some(_) => {
            let mut name = point.terminal_name.clone();
            proof {
                reveal_strlit(" (");
                reveal_strlit(")");
            }
            name.append(" (");
            name.append(system_name.as_str());
            name.append(")");
            name
        },
        None => point.terminal_name.clone(),
    };
    let notes: Option<String> = build_notes(
        cross_system,
        armistice,
        hotspot,
        point.scu_sell_stock,
        point.status_sell,
        point.status_buy,
    );
    BestPriceEntry {
        location_id,
        location_name,
        sell_price: Some(sell_price),
        buy_price,
        adjusted_price,
        stock: point.scu_sell_stock,
        status_sell: point.status_sell,
        status_buy: point.status_buy,
        container_sizes: copy_u64_vec(&point.container_sizes),
        notes,
    }
}

/// Score every usable price point of one commodity, in input order.
pub fn entries_for_points(points: &Vec<PricePoint>, locations: &LocationBook) -> (r: Vec<
    BestPriceEntry,
>)
    requires
        wf_price_points(points@),
    ensures
        r@.len() == usable_points(points@).len(),
        forall|j: int|
            0 <= j < r@.len() ==> entry_matches(
                #[trigger] r@[j],
                usable_points(points@)[j],
                *locations,
            ),
{
    let n: usize = points.len();
    let mut r: Vec<BestPriceEntry> = Vec::new();
    proof {
        assert(usable_points(points@.take(0)) =~= Seq::<PricePoint>::empty());
    }
    for i in 0..n
        invariant
            n == points@.len(),
            wf_price_points(points@),
            r@.len() == usable_points(points@.take(i as int)).len(),
            forall|j: int|
                0 <= j < r@.len() ==> entry_matches(
                    #[trigger] r@[j],
                    usable_points(points@.take(i as int))[j],
                    *locations,
                ),
    {
        proof {
            lemma_take_step(points@, i as int);
        }
        let point = &points[i];
        match point.ranker_sell() {
            Some(sell_price) => {
                let entry = entry_for_point(point, locations, sell_price);
                r.push(entry);
                proof {
                    assert(usable_points(points@.take(i + 1)) =~= usable_points(
                        points@.take(i as int),
                    ).push(points@[i as int]));
                }
            },
            None => {
                proof {
                    assert(usable_points(points@.take(i + 1)) =~= usable_points(
                        points@.take(i as int),
                    ));
                }
            },
        }
    }
    proof {
        lemma_take_all(points@);
    }
    r
}

/// Sort entries by adjusted price descending, stably, and keep the
/// top three.
pub fn rank_entries(entries: Vec<BestPriceEntry>) -> (r: Vec<BestPriceEntry>)
    ensures
        r@ == sort_by_spec(entries@, entry_leq()).take(
            if entries@.len() < 3 {
                entries@.len() as int
            } else {
                3
            },
        ),
        sorted_by(r@, entry_leq()),
        r@.len() == if entries@.len() < 3 {
            entries@.len() as int
        } else {
            3
        },
        forall|j: int| 0 <= j < r@.len() ==> entries@.contains(#[trigger] r@[j]),
{
    let ghost orig = entries@;
    let ghost leq = entry_leq();
    proof {
        assert forall|a: BestPriceEntry, b: BestPriceEntry| #[trigger] leq(a, b) || #[trigger] leq(
            b,
            a,
        ) by {
            assert(spec_entry_leq(a, b) || spec_entry_leq(b, a));
        }
        assert forall|a: BestPriceEntry, b: BestPriceEntry, c: BestPriceEntry|
            #[trigger] leq(a, b) && #[trigger] leq(b, c) implies leq(a, c) by {}
    }
    let mut sorted = insertion_sort(
        entries,
        (|a: &BestPriceEntry, b: &BestPriceEntry| -> (c: bool)
            ensures
                c == spec_entry_leq(*a, *b),
            { b.adjusted_price <= a.adjusted_price }),
        Ghost(leq),
        Ghost(|e: BestPriceEntry| true),
    );
    proof {
        crate::sorting::lemma_sort_by_spec(orig, leq);
    }
    sorted.truncate(3);
    proof {
        let full = sort_by_spec(orig, leq);
        let cut: int = if orig.len() < 3 {
            orig.len() as int
        } else {
            3
        };
        assert(sorted@ =~= full.take(cut));
        assert forall|i: int, j: int| 0 <= i < j < sorted@.len() implies leq(
            sorted@[i],
            sorted@[j],
        ) by {
            assert(sorted@[i] == full[i]);
            assert(sorted@[j] == full[j]);
        }
        assert forall|j: int| 0 <= j < sorted@.len() implies orig.contains(
            #[trigger] sorted@[j],
        ) by {
            assert(sorted@[j] == full[j]);
        }
    }
    sorted
}

/// Whether an item contributes a suggestion: its commodity has price
/// points and at least one of them resolves a sell price.
pub open spec fn item_has_entries(item: CargoItem, book: PriceBook) -> bool {
    match book.spec_get(item.commodity_id@) {
        Some(ps) => usable_points(ps).len() > 0,
        None => false,
    }
}

/// The items that contribute a suggestion, in input order.
pub open spec fn items_with_prices(items: Seq<CargoItem>, book: PriceBook) -> Seq<CargoItem>
    decreases items.len(),
{
    if items.len() == 0 {
        Seq::empty()
    } else if item_has_entries(items.last(), book) {
        items_with_prices(items.drop_last(), book).push(items.last())
    } else {
        items_with_prices(items.drop_last(), book)
    }
}

/// The usable points of the commodity an item refers to.
pub open spec fn item_usable_points(item: CargoItem, book: PriceBook) -> Seq<PricePoint> {
    match book.spec_get(item.commodity_id@) {
        Some(ps) => usable_points(ps),
        None => Seq::empty(),
    }
}

/// Whether `pre` is the full scored entry list a suggestion was cut
/// from: one entry per usable point, in point order, and the
/// suggestion keeps the first three of its stable sort by adjusted
/// price descending.
pub open spec fn rank_pre_ok(
    pre: Seq<BestPriceEntry>,
    s: BestPriceSuggestion,
    item: CargoItem,
    book: PriceBook,
    locations: LocationBook,
) -> bool {
    &&& pre.len() == item_usable_points(item, book).len()
    &&& forall|j: int|
        0 <= j < pre.len() ==> entry_matches(
            #[trigger] pre[j],
            item_usable_points(item, book)[j],
            locations,
        )
    &&& s.entries@ == sort_by_spec(pre, entry_leq()).take(
        if pre.len() < 3 {
            pre.len() as int
        } else {
            3
        },
    )
}

/// Whether one ranked suggestion is truthful for an item: between one
/// and three entries, ranked by adjusted price descending, every
/// entry scores one of the item's usable price points, and the
/// entries are exactly the leaders of the full scored list.
pub open spec fn suggestion_ok(
    s: BestPriceSuggestion,
    item: CargoItem,
    book: PriceBook,
    locations: LocationBook,
) -> bool {
    &&& s.item_id@ == item.id@
    &&& s.commodity_name@ == item.commodity_name@
    &&& 1 <= s.entries@.len() <= 3
    &&& sorted_by(s.entries@, entry_leq())
    &&& (forall|j: int|
        0 <= j < s.entries@.len() ==> exists|m: int|
            0 <= m < item_usable_points(item, book).len() && entry_matches(
                #[trigger] s.entries@[j],
                item_usable_points(item, book)[m],
                locations,
            ))
    &&& exists|pre: Seq<BestPriceEntry>| #[trigger] rank_pre_ok(pre, s, item, book, locations)
}

/// Whether two entries carry exactly the same content, field by field,
/// with texts compared by their characters.
pub open spec fn entry_view_eq(a: BestPriceEntry, b: BestPriceEntry) -> bool {
    &&& (match (a.location_id, b.location_id) {
        (Some(x), Some(y)) => x@ == y@,
        (None, None) => true,
        _ => false,
    })
    &&& a.location_name@ == b.location_name@
    &&& a.sell_price == b.sell_price
    &&& a.buy_price == b.buy_price
    &&& a.adjusted_price == b.adjusted_price
    &&& a.stock == b.stock
    &&& a.status_sell == b.status_sell
    &&& a.status_buy == b.status_buy
    &&& a.container_sizes@ == b.container_sizes@
    &&& (match (a.notes, b.notes) {
        (Some(x), Some(y)) => x@ == y@,
        (None, None) => true,
        _ => false,
    })
}

/// Two entries that both score the same point against the same
/// location book carry the same content.
proof fn lemma_matches_pin_views(
    e1: BestPriceEntry,
    e2: BestPriceEntry,
    p: PricePoint,
    locations: LocationBook,
)
    requires
        entry_matches(e1, p, locations),
        entry_matches(e2, p, locations),
    ensures
        entry_view_eq(e1, e2),
{
}

/// Stable insertion sends content-equal inputs to content-equal
/// outputs: the order depends only on the adjusted prices, which the
/// content carries.
proof fn lemma_insert_respects_views(
    s1: Seq<BestPriceEntry>,
    s2: Seq<BestPriceEntry>,
    x1: BestPriceEntry,
    x2: BestPriceEntry,
)
    requires
        s1.len() == s2.len(),
        forall|i: int| 0 <= i < s1.len() ==> entry_view_eq(#[trigger] s1[i], s2[i]),
        entry_view_eq(x1, x2),
    ensures
        insert_sorted_by(s1, x1, entry_leq()).len() == insert_sorted_by(s2, x2, entry_leq()).len(),
        forall|i: int|
            0 <= i < insert_sorted_by(s1, x1, entry_leq()).len() ==> entry_view_eq(
                #[trigger] insert_sorted_by(s1, x1, entry_leq())[i],
                insert_sorted_by(s2, x2, entry_leq())[i],
            ),
    decreases s1.len(),
{
    let leq = entry_leq();
    if s1.len() == 0 {
        assert(insert_sorted_by(s1, x1, leq) =~= seq![x1]);
        assert(insert_sorted_by(s2, x2, leq) =~= seq![x2]);
    } else {
        assert(entry_view_eq(s1.last(), s2.last()));
        assert(leq(s1.last(), x1) == leq(s2.last(), x2));
        if leq(s1.last(), x1) {
            assert(insert_sorted_by(s1, x1, leq) == s1.push(x1));
            assert(insert_sorted_by(s2, x2, leq) == s2.push(x2));
        } else {
            assert(forall|i: int|
                0 <= i < s1.drop_last().len() ==> entry_view_eq(
                    #[trigger] s1.drop_last()[i],
                    s2.drop_last()[i],
                ));
            lemma_insert_respects_views(s1.drop_last(), s2.drop_last(), x1, x2);
        }
    }
}

/// The stable sort sends content-equal inputs to content-equal outputs.
proof fn lemma_sort_respects_views(s1: Seq<BestPriceEntry>, s2: Seq<BestPriceEntry>)
    requires
        s1.len() == s2.len(),
        forall|i: int| 0 <= i < s1.len() ==> entry_view_eq(#[trigger] s1[i], s2[i]),
    ensures
        sort_by_spec(s1, entry_leq()).len() == sort_by_spec(s2, entry_leq()).len(),
        forall|i: int|
            0 <= i < sort_by_spec(s1, entry_leq()).len() ==> entry_view_eq(
                #[trigger] sort_by_spec(s1, entry_leq())[i],
                sort_by_spec(s2, entry_leq())[i],
            ),
    decreases s1.len(),
{
    if s1.len() > 0 {
        assert(forall|i: int|
            0 <= i < s1.drop_last().len() ==> entry_view_eq(
                #[trigger] s1.drop_last()[i],
                s2.drop_last()[i],
            ));
        lemma_sort_respects_views(s1.drop_last(), s2.drop_last());
        lemma_insert_respects_views(
            sort_by_spec(s1.drop_last(), entry_leq()),
            sort_by_spec(s2.drop_last(), entry_leq()),
            s1.last(),
            s2.last(),
        );
        assert(entry_view_eq(s1.last(), s2.last()));
    }
}

/// Ranking the same item against the same price and location books
/// always yields the same suggestion: any two suggestions that
/// satisfy the ranker's contract agree in their texts and in every
/// entry's content.
pub proof fn lemma_rank_suggestion_deterministic(
    s1: BestPriceSuggestion,
    s2: BestPriceSuggestion,
    item: CargoItem,
    book: PriceBook,
    locations: LocationBook,
)
    requires
        suggestion_ok(s1, item, book, locations),
        suggestion_ok(s2, item, book, locations),
    ensures
        s1.item_id@ == s2.item_id@,
        s1.commodity_name@ == s2.commodity_name@,
        s1.entries@.len() == s2.entries@.len(),
        forall|j: int|
            0 <= j < s1.entries@.len() ==> entry_view_eq(
                #[trigger] s1.entries@[j],
                s2.entries@[j],
            ),
{
    let pre1 = choose|pre: Seq<BestPriceEntry>| rank_pre_ok(pre, s1, item, book, locations);
    let pre2 = choose|pre: Seq<BestPriceEntry>| rank_pre_ok(pre, s2, item, book, locations);
    assert(rank_pre_ok(pre1, s1, item, book, locations));
    assert(rank_pre_ok(pre2, s2, item, book, locations));
    assert forall|i: int| 0 <= i < pre1.len() implies entry_view_eq(
        #[trigger] pre1[i],
        pre2[i],
    ) by {
        lemma_matches_pin_views(pre1[i], pre2[i], item_usable_points(item, book)[i], locations);
    }
    let leq = entry_leq();
    assert forall|a: BestPriceEntry, b: BestPriceEntry| #[trigger] leq(a, b) || #[trigger] leq(
        b,
        a,
    ) by {
        assert(spec_entry_leq(a, b) || spec_entry_leq(b, a));
    }
    assert forall|a: BestPriceEntry, b: BestPriceEntry, c: BestPriceEntry|
        #[trigger] leq(a, b) && #[trigger] leq(b, c) implies leq(a, c) by {}
    crate::sorting::lemma_sort_by_spec(pre1, leq);
    crate::sorting::lemma_sort_by_spec(pre2, leq);
    lemma_sort_respects_views(pre1, pre2);
    let cut: int = if pre1.len() < 3 {
        pre1.len() as int
    } else {
        3
    };
    assert(s1.entries@ == sort_by_spec(pre1, leq).take(cut));
    assert(s2.entries@ == sort_by_spec(pre2, leq).take(cut));
    assert forall|j: int| 0 <= j < s1.entries@.len() implies entry_view_eq(
        #[trigger] s1.entries@[j],
        s2.entries@[j],
    ) by {
        assert(s1.entries@[j] == sort_by_spec(pre1, leq)[j]);
        assert(s2.entries@[j] == sort_by_spec(pre2, leq)[j]);
    }
}

/// Rank every known sell location for each cargo item and keep the
/// top three per item, by sell price minus travel penalties.
///
/// One suggestion is produced for exactly the items whose commodity
/// has a usable price point, in input order; the best overall entry
/// carries the highest adjusted price seen among the per-item leaders.
pub fn rank_best_prices(
    items: &Vec<CargoItem>,
    prices: &PriceBook,
    locations: &LocationBook,
) -> (r: BestPriceSummary)
    requires
        wf_price_book(*prices),
    ensures
        r.suggestions@.len() == items_with_prices(items@, *prices).len(),
        forall|k: int|
            0 <= k < r.suggestions@.len() ==> suggestion_ok(
                #[trigger] r.suggestions@[k],
                items_with_prices(items@, *prices)[k],
                *prices,
                *locations,
            ),
        match r.best_overall {
            None => r.suggestions@.len() == 0,
            Some(b) => {
                &&& r.suggestions@.len() > 0
                &&& exists|k: int|
                    0 <= k < r.suggestions@.len() && entry_like(
                        b,
                        #[trigger] r.suggestions@[k].entries@[0],
                    )
                &&& forall|k: int|
                    0 <= k < r.suggestions@.len()
                        ==> #[trigger] r.suggestions@[k].entries@[0].adjusted_price
                        <= b.adjusted_price
            },
        },
{
    let n: usize = items.len();
    let mut suggestions: Vec<BestPriceSuggestion> = Vec::new();
    let mut best_overall: Option<BestPriceEntry> = None;
    proof {
        assert(items_with_prices(items@.take(0), *prices) =~= Seq::<CargoItem>::empty());
    }
    for i in 0..n
        invariant
            n == items@.len(),
            wf_price_book(*prices),
            suggestions@.len() == items_with_prices(items@.take(i as int), *prices).len(),
            forall|k: int|
                0 <= k < suggestions@.len() ==> suggestion_ok(
                    #[trigger] suggestions@[k],
                    items_with_prices(items@.take(i as int), *prices)[k],
                    *prices,
                    *locations,
                ),
            match best_overall {
                None => suggestions@.len() == 0,
                Some(b) => {
                    &&& suggestions@.len() > 0
                    &&& exists|k: int|
                        0 <= k < suggestions@.len() && entry_like(
                            b,
                            #[trigger] suggestions@[k].entries@[0],
                        )
                    &&& forall|k: int|
                        0 <= k < suggestions@.len()
                            ==> #[trigger] suggestions@[k].entries@[0].adjusted_price
                            <= b.adjusted_price
                },
            },
    {
        proof {
            lemma_take_step(items@, i as int);
        }
        let item = &items[i];
        let ghost pre_suggestions = suggestions@;
        let ghost pre_filtered = items_with_prices(items@.take(i as int), *prices);
        match prices.get(&item.commodity_id) {
            Some(points) => {
                proof {
                    lemma_book_lookup_wf(prices.entries@, items@[i as int].commodity_id@);
                }
                let entries = entries_for_points(points, locations);
                if entries.len() > 0 {
                    let ghost full_entries = entries@;
                    let ranked = rank_entries(entries);
                    let top = ranked[0].clone();
                    let ghost pre_best = best_overall;
                    let ghost top_g = top;
                    let replace: bool = match &best_overall {
                        Some(current) => current.adjusted_price < top.adjusted_price,
                        None => true,
                    };
                    if replace {
                        best_overall = Some(top);
                    }
                    suggestions.push(
                        BestPriceSuggestion {
                            item_id: item.id.clone(),
                            commodity_name: item.commodity_name.clone(),
                            entries: ranked,
                        },
                    );
                    proof {
                        assert(item_has_entries(items@[i as int], *prices));
                        assert(items_with_prices(items@.take(i + 1), *prices) =~= pre_filtered.push(
                            items@[i as int],
                        ));
                        let it = items@[i as int];
                        let s = suggestions@.last();
                        assert forall|j: int| 0 <= j < s.entries@.len() implies exists|m: int|
                            0 <= m < item_usable_points(it, *prices).len() && entry_matches(
                                #[trigger] s.entries@[j],
                                item_usable_points(it, *prices)[m],
                                *locations,
                            ) by {
                            assert(full_entries.contains(s.entries@[j]));
                            let m = choose|m: int|
                                0 <= m < full_entries.len() && full_entries[m] == s.entries@[j];
                            assert(entry_matches(
                                full_entries[m],
                                item_usable_points(it, *prices)[m],
                                *locations,
                            ));
                        }
                        assert(rank_pre_ok(full_entries, s, it, *prices, *locations));
                        assert(suggestion_ok(s, it, *prices, *locations));
                        assert(forall|k: int|
                            0 <= k < pre_suggestions.len() ==> #[trigger] suggestions@[k]
                                == pre_suggestions[k]);
                        let last_idx = suggestions@.len() - 1;
                        assert(suggestions@[last_idx].entries@[0] == ranked@[0]);
                        assert(entry_like(top_g, ranked@[0]));
                        if replace {
                            match &best_overall {
                                Some(b) => {
                                    assert(*b == top_g);
                                    assert(entry_like(*b, suggestions@[last_idx].entries@[0]));
                                    assert forall|k: int| 0 <= k < suggestions@.len()
                                        implies #[trigger] suggestions@[k].entries@[
                                        0].adjusted_price <= b.adjusted_price by {
                                        if k < last_idx {
                                            match pre_best {
                                                Some(pb) => {
                                                    assert(pre_suggestions[k].entries@[
                                                    0].adjusted_price <= pb.adjusted_price);
                                                },
                                                None => {
                                                    assert(pre_suggestions.len() == 0);
                                                },
                                            }
                                        }
                                    }
                                },
                                None => {
                                    assert(false);
                                },
                            }
                        } else {
                            match &best_overall {
                                Some(b) => {
                                    assert(best_overall == pre_best);
                                    let kw = choose|k: int|
                                        0 <= k < pre_suggestions.len() && entry_like(
                                            *b,
                                            #[trigger] pre_suggestions[k].entries@[0],
                                        );
                                    assert(entry_like(*b, suggestions@[kw].entries@[0]));
                                    assert forall|k: int| 0 <= k < suggestions@.len()
                                        implies #[trigger] suggestions@[k].entries@[
                                        0].adjusted_price <= b.adjusted_price by {
                                        if k == last_idx {
                                            assert(top_g.adjusted_price <= b.adjusted_price);
                                        } else {
                                            assert(pre_suggestions[k].entries@[0].adjusted_price
                                                <= b.adjusted_price);
                                        }
                                    }
                                },
                                None => {
                                    assert(false);
                                },
                            }
                        }
                    }
                } else {
                    proof {
                        assert(usable_points(points@).len() == 0);
                        assert(!item_has_entries(items@[i as int], *prices));
                        assert(items_with_prices(items@.take(i + 1), *prices) =~= pre_filtered);
                    }
                }
            },
            None => {
                proof {
                    assert(!item_has_entries(items@[i as int], *prices));
                    assert(items_with_prices(items@.take(i + 1), *prices) =~= pre_filtered);
                }
            },
        }
    }
    proof {
        lemma_take_all(items@);
    }
    BestPriceSummary { suggestions, best_overall }
}

} // verus!