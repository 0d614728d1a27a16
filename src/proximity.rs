use vstd::prelude::*;

use crate::types::{Cents, Day, StoreId};

verus! {

/// Radius, in meters, within which another store's price is comparable.
pub const DEFAULT_RADIUS_M: u32 = 1000;

/// Millimeters in a meter; distances are carried in millimeters.
pub const MM_PER_M: u64 = 1000;

/// Relative price changes are expressed in parts per million.
pub const PPM: u64 = 1000000;

/// A recorded price of a product at a store, joined with the store's name and
/// its geodesic distance (in millimeters) from the point of the query.
#[derive(Debug, Clone)]
pub struct PriceCandidate {
    pub store_id: StoreId,
    pub store_name: String,
    pub product_name: String,
    pub barcode: String,
    pub price: Cents,
    pub date: Day,
    pub distance_mm: u64,
}

/// A nearby price, compared with the reference price of a report.
///
/// `relative_price_change` is the absolute change divided by the *observed*
/// price (not by the reference price), in parts per million, rounded toward
/// zero. It is `None` when the observed price is zero.
#[derive(Debug, Clone)]
pub struct RecentPrice {
    pub name: String,
    pub price: Cents,
    pub absolute_price_change: Option<i64>,
    pub relative_price_change: Option<i64>,
    pub date: Option<Day>,
    pub store_name: Option<String>,
    pub distance: Option<u64>,
}

/// The candidate is an observation of the product, at another store than the
/// reporting one, within `radius_m` meters (boundary included).
pub open spec fn is_nearby(
    c: PriceCandidate,
    barcode: Seq<char>,
    reference_store: StoreId,
    radius_m: u32,
) -> bool {
    &&& c.barcode@ == barcode
    &&& c.store_id != reference_store
    &&& c.distance_mm <= radius_m as int * MM_PER_M
}

/// `a` may come before `b`: it is cheaper, or as cheap and not older.
pub open spec fn ranks_before_or_ties(a: PriceCandidate, b: PriceCandidate) -> bool {
    a.price < b.price || (a.price == b.price && a.date >= b.date)
}

/// `a` must come before `b`: it is cheaper, or as cheap and more recent.
pub open spec fn ranks_strictly_before(a: PriceCandidate, b: PriceCandidate) -> bool {
    a.price < b.price || (a.price == b.price && a.date > b.date)
}

/// Integer division rounded toward zero, for a positive divisor.
pub open spec fn div_toward_zero(n: int, d: int) -> int {
    if n >= 0 {
        n / d
    } else {
        -((-n) / d)
    }
}

pub open spec fn absolute_change(observed: Cents, reference: Cents) -> int {
    observed - reference
}

/// `(observed - reference) / observed` in parts per million; undefined (`None`)
/// for an observed price of zero.
pub open spec fn relative_change_ppm(observed: Cents, reference: Cents) -> Option<int> {
    if observed == 0 {
        None
    } else {
        Some(div_toward_zero(absolute_change(observed, reference) * PPM, observed as int))
    }
}

pub open spec fn option_as_int(o: Option<i64>) -> Option<int> {
    match o {
        Some(v) => Some(v as int),
        None => None,
    }
}

/// `r` is the comparison of the candidate `c` against `reference_price`.
pub open spec fn describes(r: RecentPrice, c: PriceCandidate, reference_price: Cents) -> bool {
    &&& r.name@ == c.product_name@
    &&& r.price == c.price
    &&& r.absolute_price_change == Some((absolute_change(c.price, reference_price)) as i64)
    &&& option_as_int(r.relative_price_change) == relative_change_ppm(c.price, reference_price)
    &&& r.date == Some(c.date)
    &&& r.store_name is Some
    &&& r.store_name->0@ == c.store_name@
    &&& r.distance == Some(c.distance_mm)
}

/// `a` and `b` have the same price and date.
pub open spec fn ties(a: PriceCandidate, b: PriceCandidate) -> bool {
    a.price == b.price && a.date == b.date
}

/// The indices in `order` are sorted by price ascending, then date
/// descending; candidates that tie keep their order in `cands`.
pub open spec fn is_ranked(cands: Seq<PriceCandidate>, order: Seq<usize>) -> bool {
    forall|a: int, b: int|
        0 <= a < b < order.len() ==> ranks_before_or_ties(
            #[trigger] cands[order[a] as int],
            #[trigger] cands[order[b] as int],
        ) && (ties(cands[order[a] as int], cands[order[b] as int]) ==> order[a] < order[b])
}

/// `order` lists each nearby candidate of `cands[0..upto]` exactly once.
pub open spec fn selects_nearby(
    cands: Seq<PriceCandidate>,
    order: Seq<usize>,
    upto: int,
    barcode: Seq<char>,
    reference_store: StoreId,
    radius_m: u32,
) -> bool {
    &&& order.no_duplicates()
    &&& forall|k: int|
        0 <= k < order.len() ==> #[trigger] order[k] < upto && is_nearby(
            cands[order[k] as int],
            barcode,
            reference_store,
            radius_m,
        )
    &&& forall|i: int|
        0 <= i < upto && is_nearby(cands[i], barcode, reference_store, radius_m)
            ==> order.contains(i as usize)
}

/// `order` is the query's answer over `cands`: every nearby candidate once,
/// cheapest first, most recent first among equal prices.
pub open spec fn is_nearby_ranking(
    cands: Seq<PriceCandidate>,
    order: Seq<usize>,
    barcode: Seq<char>,
    reference_store: StoreId,
    radius_m: u32,
) -> bool {
    &&& selects_nearby(cands, order, cands.len() as int, barcode, reference_store, radius_m)
    &&& is_ranked(cands, order)
}

/// `r` is the comparisons of the candidates that `order` selects, in its order.
pub open spec fn describes_all(
    r: Seq<RecentPrice>,
    cands: Seq<PriceCandidate>,
    order: Seq<usize>,
    reference_price: Cents,
) -> bool {
    &&& r.len() == order.len()
    &&& forall|k: int|
        0 <= k < r.len() ==> describes(#[trigger] r[k], cands[order[k] as int], reference_price)
}

/// `r` answers a nearby-price query over `cands`.
pub open spec fn is_nearby_answer(
    r: Seq<RecentPrice>,
    cands: Seq<PriceCandidate>,
    barcode: Seq<char>,
    reference_store: StoreId,
    reference_price: Cents,
    radius_m: u32,
) -> bool {
    exists|order: Seq<usize>|
        is_nearby_ranking(cands, order, barcode, reference_store, radius_m) && describes_all(
            r,
            cands,
            order,
            reference_price,
        )
}

/// The reporting store never appears in its own nearby prices, whatever its
/// distance.
pub proof fn reporting_store_is_excluded(
    cands: Seq<PriceCandidate>,
    order: Seq<usize>,
    barcode: Seq<char>,
    reference_store: StoreId,
    radius_m: u32,
)
    requires
        is_nearby_ranking(cands, order, barcode, reference_store, radius_m),
    ensures
        forall|k: int|
            0 <= k < order.len() ==> cands[#[trigger] order[k] as int].store_id != reference_store,
{
}

/// A store of another than the reporting store, selling the product, is
/// included at exactly the radius and excluded one meter beyond it.
pub proof fn radius_boundary_is_inclusive(
    cands: Seq<PriceCandidate>,
    order: Seq<usize>,
    barcode: Seq<char>,
    reference_store: StoreId,
    radius_m: u32,
    i: usize,
)
    requires
        is_nearby_ranking(cands, order, barcode, reference_store, radius_m),
        i < cands.len(),
        cands[i as int].barcode@ == barcode,
        cands[i as int].store_id != reference_store,
    ensures
        cands[i as int].distance_mm == radius_m * MM_PER_M ==> order.contains(i),
        cands[i as int].distance_mm == (radius_m + 1) * MM_PER_M ==> !order.contains(i),
{
    if order.contains(i) {
        let k = choose|k: int| 0 <= k < order.len() && order[k] == i;
        assert(is_nearby(cands[order[k] as int], barcode, reference_store, radius_m));
    }
}

fn candidate_is_nearby(
    c: &PriceCandidate,
    barcode: &String,
    reference_store: StoreId,
    radius_m: u32,
) -> (r: bool)
    ensures
        r == is_nearby(*c, barcode@, reference_store, radius_m),
{
    c.barcode == *barcode && c.store_id != reference_store && c.distance_mm <= radius_m as u64
        * MM_PER_M
}

fn candidate_ranks_strictly_before(a: &PriceCandidate, b: &PriceCandidate) -> (r: bool)
    ensures
        r == ranks_strictly_before(*a, *b),
{
    a.price < b.price || (a.price == b.price && a.date > b.date)
}

proof fn lemma_insert_keeps_ranking(cands: Seq<PriceCandidate>, order: Seq<usize>, pos: int, i: usize)
    requires
        0 <= pos <= order.len(),
        0 <= i < cands.len(),
        forall|k: int| 0 <= k < order.len() ==> #[trigger] order[k] < i,
        is_ranked(cands, order),
        forall|k: int| 0 <= k < pos ==> ranks_before_or_ties(cands[#[trigger] order[k] as int], cands[i as int]),
        pos < order.len() ==> ranks_strictly_before(cands[i as int], cands[order[pos] as int]),
    ensures
        is_ranked(cands, order.insert(pos, i)),
{
    order.insert_ensures(pos, i);
    let s = order.insert(pos, i);
    assert forall|a: int, b: int| 0 <= a < b < s.len() implies ranks_before_or_ties(
        #[trigger] cands[s[a] as int],
        #[trigger] cands[s[b] as int],
    ) && (ties(cands[s[a] as int], cands[s[b] as int]) ==> s[a] < s[b]) by {
        if b < pos {
            assert(s[a] == order[a] && s[b] == order[b]);
        } else if b == pos {
            assert(s[a] == order[a]);
        } else if a < pos {
            assert(s[a] == order[a] && s[b] == order[b - 1]);
            assert(ranks_before_or_ties(cands[order[a] as int], cands[order[b - 1] as int]));
        } else if a == pos {
            assert(s[b] == order[b - 1]);
            if b - 1 > pos {
                assert(ranks_before_or_ties(cands[order[pos] as int], cands[order[b - 1] as int]));
            }
        } else {
            assert(s[a] == order[a - 1] && s[b] == order[b - 1]);
            assert(ranks_before_or_ties(cands[order[a - 1] as int], cands[order[b - 1] as int]));
        }
    }
}

/// The indices of the candidates that are nearby, cheapest first and most
/// recent first among equal prices.
pub fn rank_nearby(
    cands: &Vec<PriceCandidate>,
    barcode: &String,
    reference_store: StoreId,
    radius_m: u32,
) -> (order: Vec<usize>)
    ensures
        is_nearby_ranking(cands@, order@, barcode@, reference_store, radius_m),
{
    let mut order: Vec<usize> = Vec::new();
    let mut i: usize = 0;
    while i < cands.len()
        invariant
            i <= cands.len(),
            selects_nearby(cands@, order@, i as int, barcode@, reference_store, radius_m),
            is_ranked(cands@, order@),
        decreases cands.len() - i,
    {
        if candidate_is_nearby(&cands[i], barcode, reference_store, radius_m) {
            let mut pos: usize = 0;
            while pos < order.len()
                invariant
                    pos <= order.len(),
                    i < cands.len(),
                    forall|k: int| 0 <= k < order.len() ==> #[trigger] order@[k] < i,
                    forall|k: int|
                        0 <= k < pos ==> ranks_before_or_ties(
                            cands@[#[trigger] order@[k] as int],
                            cands@[i as int],
                        ),
                ensures
                    pos <= order.len(),
                    forall|k: int|
                        0 <= k < pos ==> ranks_before_or_ties(
                            cands@[#[trigger] order@[k] as int],
                            cands@[i as int],
                        ),
                    pos < order.len() ==> ranks_strictly_before(
                        cands@[i as int],
                        cands@[order@[pos as int] as int],
                    ),
                decreases order.len() - pos,
            {
                if candidate_ranks_strictly_before(&cands[i], &cands[order[pos]]) {
                    break;
                }
                pos = pos + 1;
            }
            proof {
                lemma_insert_keeps_ranking(cands@, order@, pos as int, i);
                order@.insert_ensures(pos as int, i);
            }
            let ghost prev = order@;
            order.insert(pos, i);
            proof {
                assert forall|k: int| 0 <= k < order@.len() implies #[trigger] order@[k] < i + 1
                    && is_nearby(cands@[order@[k] as int], barcode@, reference_store, radius_m) by {
                    if k < pos {
                        assert(order@[k] == prev[k]);
                    } else if k > pos {
                        assert(order@[k] == prev[k - 1]);
                    }
                }
                assert forall|a: int, b: int|
                    0 <= a < order@.len() && 0 <= b < order@.len() && a != b implies order@[a]
                    != order@[b] by {
                    if a != pos && b != pos {
                        let pa = if a < pos { a } else { a - 1 };
                        let pb = if b < pos { b } else { b - 1 };
                        assert(order@[a] == prev[pa] && order@[b] == prev[pb]);
                    } else if a == pos {
                        let pb = if b < pos { b } else { b - 1 };
                        assert(order@[b] == prev[pb]);
                    } else {
                        let pa = if a < pos { a } else { a - 1 };
                        assert(order@[a] == prev[pa]);
                    }
                }
                assert forall|j: int|
                    0 <= j < i + 1 && is_nearby(
                        cands@[j],
                        barcode@,
                        reference_store,
                        radius_m,
                    ) implies order@.contains(j as usize) by {
                    if j == i {
                        assert(order@[pos as int] == i);
                    } else {
                        assert(prev.contains(j as usize));
                        let w = choose|w: int| 0 <= w < prev.len() && prev[w] == j as usize;
                        if w < pos {
                            assert(order@[w] == j as usize);
                        } else {
                            assert(order@[w + 1] == j as usize);
                        }
                    }
                }
            }
        }
        i = i + 1;
    }
    order
}

/// `observed - reference`, in cents.
pub fn absolute_price_change(observed: Cents, reference: Cents) -> (r: i64)
    ensures
        r == absolute_change(observed, reference),
{
    observed as i64 - reference as i64
}

/// `(observed - reference) / observed` in parts per million, rounded toward
/// zero; `None` when the observed price is zero, where the ratio is undefined.
pub fn relative_price_change(observed: Cents, reference: Cents) -> (r: Option<i64>)
    ensures
        option_as_int(r) == relative_change_ppm(observed, reference),
{
    if observed == 0 {
        None
    } else if observed >= reference {
        let d: u64 = (observed - reference) as u64;
        assert(d * PPM <= 0xffff_ffff * PPM) by (nonlinear_arith)
            requires
                d <= 0xffff_ffff,
        ;
        let n: u64 = d * PPM;
        let q: u64 = n / observed as u64;
        assert(q <= n) by (nonlinear_arith)
            requires
                observed >= 1,
                q as int == n as int / observed as int,
                n >= 0,
        ;
        Some(q as i64)
    } else {
        let d: u64 = (reference - observed) as u64;
        assert(d * PPM <= 0xffff_ffff * PPM) by (nonlinear_arith)
            requires
                d <= 0xffff_ffff,
        ;
        let n: u64 = d * PPM;
        let q: u64 = n / observed as u64;
        assert(q <= n) by (nonlinear_arith)
            requires
                observed >= 1,
                q as int == n as int / observed as int,
                n >= 0,
        ;
        assert(absolute_change(observed, reference) * PPM == -(n as int));
        Some(-(q as i64))
    }
}

/// The comparison of one candidate against the reference price.
pub fn compare_candidate(c: &PriceCandidate, reference_price: Cents) -> (r: RecentPrice)
    ensures
        describes(r, *c, reference_price),
{
    RecentPrice {
        name: c.product_name.clone(),
        price: c.price,
        absolute_price_change: Some(absolute_price_change(c.price, reference_price)),
        relative_price_change: relative_price_change(c.price, reference_price),
        date: Some(c.date),
        store_name: Some(c.store_name.clone()),
        distance: Some(c.distance_mm),
    }
}

/// Other stores' prices of the product `barcode` within `radius_m` meters,
/// cheapest first and most recent first among equal prices, each compared
/// with `reference_price`. The reporting store never appears.
pub fn get_recent_prices(
    cands: &Vec<PriceCandidate>,
    barcode: &String,
    reference_store: StoreId,
    reference_price: Cents,
    radius_m: u32,
) -> (r: Vec<RecentPrice>)
    ensures
        is_nearby_answer(r@, cands@, barcode@, reference_store, reference_price, radius_m),
        forall|a: int, b: int|
            0 <= a < b < r@.len() ==> (#[trigger] r@[a]).price < (#[trigger] r@[b]).price || (
            r@[a].price == r@[b].price && r@[a].date->0 >= r@[b].date->0),
{
    let order = rank_nearby(cands, barcode, reference_store, radius_m);
    let mut r: Vec<RecentPrice> = Vec::new();
    let mut k: usize = 0;
    while k < order.len()
        invariant
            k <= order.len(),
            is_nearby_ranking(cands@, order@, barcode@, reference_store, radius_m),
            r@.len() == k,
            forall|j: int|
                0 <= j < k ==> describes(#[trigger] r@[j], cands@[order@[j] as int], reference_price),
        decreases order.len() - k,
    {
        let c = compare_candidate(&cands[order[k]], reference_price);
        r.push(c);
        k = k + 1;
    }
    assert(describes_all(r@, cands@, order@, reference_price));
    assert forall|a: int, b: int| 0 <= a < b < r@.len() implies (#[trigger] r@[a]).price < (
    #[trigger] r@[b]).price || (r@[a].price == r@[b].price && r@[a].date->0 >= r@[b].date->0) by {
        assert(ranks_before_or_ties(cands@[order@[a] as int], cands@[order@[b] as int]));
    }
    r
}

} // verus!
