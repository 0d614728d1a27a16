use vstd::prelude::*;

use crate::error::ApiError;
use crate::names::{lemma_name_le_total, lemma_name_le_transitive, name_le, names_in_order};
use crate::proximity::{
    get_recent_prices, is_nearby_answer, PriceCandidate, RecentPrice, DEFAULT_RADIUS_M,
};
use crate::stores::{
    same_address, AddressView, Store, StoreEntry, StoreRecord, StoreResponse, StoreView,
};
use crate::types::{ean13_error, is_ean13, Cents, Day, EAN13Barcode, Id, StoreId};

verus! {

/// Largest product identifier that can be handed out.
pub const MAX_PRODUCT_ID: usize = 0x7fff_ffff;

/// Largest store identifier that can be handed out.
pub const MAX_STORE_ID: usize = 0x7fff_ffff;

/// A product: its identifier is assigned on first sight of its barcode.
#[derive(Debug, Clone)]
pub struct Product {
    pub id: Id,
    pub name: String,
    pub barcode: String,
}

pub struct ProductView {
    pub id: Id,
    pub name: Seq<char>,
    pub barcode: Seq<char>,
}

impl View for Product {
    type V = ProductView;

    open spec fn view(&self) -> ProductView {
        ProductView { id: self.id, name: self.name@, barcode: self.barcode@ }
    }
}

/// A report of a price seen for a product at a store.
#[derive(Debug, Clone)]
pub struct PriceLookupRequest {
    pub name: String,
    pub barcode: String,
    pub price: Cents,
    pub store_id: StoreId,
}

/// One price of a product at a store on a day.
#[derive(Debug, Clone, Copy, PartialEq, Eq, Structural)]
pub struct PriceObservation {
    pub product_id: Id,
    pub store_id: StoreId,
    pub price: Cents,
    pub date: Day,
}

pub struct BookView {
    pub products: Seq<ProductView>,
    pub stores: Seq<StoreView>,
    pub prices: Seq<PriceObservation>,
    pub refresh_store_names: bool,
}

/// The products, stores and price observations, with their uniqueness rules:
/// one product per barcode, one store per address, one price per product,
/// store and day.
pub struct PriceBook {
    products: Vec<Product>,
    stores: Vec<StoreEntry>,
    prices: Vec<PriceObservation>,
    refresh_store_names: bool,
}

impl View for PriceBook {
    type V = BookView;

    closed spec fn view(&self) -> BookView {
        BookView {
            products: self.products@.map_values(|p: Product| p@),
            stores: self.stores@.map_values(|s: StoreEntry| s@),
            prices: self.prices@,
            refresh_store_names: self.refresh_store_names,
        }
    }
}

/// `c` is the observation `o` joined with its product, its store and the
/// store's distance.
pub open spec fn joins(
    c: PriceCandidate,
    v: BookView,
    o: PriceObservation,
    distances_mm: Seq<u64>,
) -> bool {
    let p = v.products[o.product_id - 1];
    let st = v.stores[o.store_id - 1];
    &&& c.store_id == o.store_id
    &&& c.store_name@ == st.name
    &&& c.product_name@ == p.name
    &&& c.barcode@ == p.barcode
    &&& c.price == o.price
    &&& c.date == o.date
    &&& c.distance_mm == distances_mm[o.store_id - 1]
}

/// `cands` holds every price observation of the book, joined.
pub open spec fn is_joined(cands: Seq<PriceCandidate>, v: BookView, distances_mm: Seq<u64>) -> bool {
    &&& cands.len() == v.prices.len()
    &&& forall|k: int| 0 <= k < cands.len() ==> joins(#[trigger] cands[k], v, v.prices[k], distances_mm)
}

/// What a report ends in, given the book before it: the barcode is checked,
/// the product resolved and the price recorded, each step stopping at an
/// error; after the last step the comparisons answer the nearby query over
/// the joined observations.
pub open spec fn report_outcome(
    v: BookView,
    w: BookView,
    r: Result<Seq<RecentPrice>, ApiError>,
    name: Seq<char>,
    barcode: Seq<char>,
    price: Cents,
    store_id: StoreId,
    today: Day,
    distances_mm: Seq<u64>,
) -> bool {
    if !is_ean13(barcode) {
        w == v && r == Err::<Seq<RecentPrice>, ApiError>(ApiError::InvalidBarcode(ean13_error(barcode)))
    } else {
        let (v1, rp) = v.resolve_product(name, barcode);
        match rp {
            Err(e) => w == v1 && r == Err::<Seq<RecentPrice>, ApiError>(e),
            Ok(product_id) => {
                let (v2, rr) = v1.record_price(product_id, store_id, price, today);
                match rr {
                    Err(e) => w == v2 && r == Err::<Seq<RecentPrice>, ApiError>(e),
                    Ok(_) => w == v2 && r is Ok && exists|cands: Seq<PriceCandidate>|
                        is_joined(cands, v2, distances_mm) && is_nearby_answer(
                            r->Ok_0,
                            cands,
                            barcode,
                            store_id,
                            price,
                            DEFAULT_RADIUS_M,
                        ),
                }
            },
        }
    }
}

/// `order` lists the positions of the stores sorted by name.
pub open spec fn is_sorted_by_name(stores: Seq<StoreView>, order: Seq<usize>) -> bool {
    forall|a: int, b: int|
        0 <= a < b < order.len() ==> name_le(
            stores[#[trigger] order[a] as int].name,
            stores[#[trigger] order[b] as int].name,
        )
}

/// `order` lists the position of every store once, sorted by name.
pub open spec fn lists_every_store_by_name(stores: Seq<StoreView>, order: Seq<usize>) -> bool {
    &&& order.len() == stores.len()
    &&& order.no_duplicates()
    &&& forall|k: int| 0 <= k < order.len() ==> #[trigger] order[k] < stores.len()
    &&& forall|j: int| 0 <= j < stores.len() ==> #[trigger] lists_position(order, j)
    &&& is_sorted_by_name(stores, order)
}

pub open spec fn lists_position(order: Seq<usize>, j: int) -> bool {
    order.contains(j as usize)
}

pub open spec fn same_day_slot(
    a: PriceObservation,
    product_id: Id,
    store_id: StoreId,
    date: Day,
) -> bool {
    a.product_id == product_id && a.store_id == store_id && a.date == date
}

impl BookView {
    /// Identifiers are positions plus one; barcodes, addresses and
    /// (product, store, day) slots are unique; prices refer to known rows.
    pub open spec fn wf(self) -> bool {
        &&& self.products.len() <= MAX_PRODUCT_ID
        &&& self.stores.len() <= MAX_STORE_ID
        &&& forall|k: int| 0 <= k < self.products.len() ==> #[trigger] self.products[k].id == k + 1
        &&& forall|i: int, j: int|
            0 <= i < self.products.len() && 0 <= j < self.products.len() && i != j
                ==> #[trigger] self.products[i].barcode != #[trigger] self.products[j].barcode
        &&& forall|k: int| 0 <= k < self.stores.len() ==> #[trigger] self.stores[k].id == k + 1
        &&& forall|i: int, j: int|
            0 <= i < self.stores.len() && 0 <= j < self.stores.len() && i != j
                ==> #[trigger] self.stores[i].address != #[trigger] self.stores[j].address
        &&& forall|k: int|
            0 <= k < self.prices.len() ==> self.refers_to_known_rows(#[trigger] self.prices[k])
        &&& forall|i: int, j: int|
            0 <= i < self.prices.len() && 0 <= j < self.prices.len() && i != j
                ==> !same_day_slot(
                #[trigger] self.prices[i],
                #[trigger] self.prices[j].product_id,
                self.prices[j].store_id,
                self.prices[j].date,
            )
    }

    pub open spec fn refers_to_known_rows(self, o: PriceObservation) -> bool {
        self.has_product(o.product_id) && self.has_store(o.store_id)
    }

    pub open spec fn has_product(self, id: Id) -> bool {
        1 <= id <= self.products.len()
    }

    pub open spec fn has_store(self, id: StoreId) -> bool {
        1 <= id <= self.stores.len()
    }

    pub open spec fn product_with_barcode(self, barcode: Seq<char>) -> Option<int> {
        if exists|k: int| 0 <= k < self.products.len() && #[trigger] self.products[k].barcode == barcode {
            Some(choose|k: int| 0 <= k < self.products.len() && #[trigger] self.products[k].barcode == barcode)
        } else {
            None
        }
    }

    pub open spec fn store_at(self, address: AddressView) -> Option<int> {
        if exists|k: int| 0 <= k < self.stores.len() && #[trigger] self.stores[k].address == address {
            Some(choose|k: int| 0 <= k < self.stores.len() && #[trigger] self.stores[k].address == address)
        } else {
            None
        }
    }

    pub open spec fn has_price_in_slot(self, product_id: Id, store_id: StoreId, date: Day) -> bool {
        exists|k: int| 0 <= k < self.prices.len() && same_day_slot(#[trigger] self.prices[k], product_id, store_id, date)
    }

    /// The book after resolving `barcode`, and the product's identifier:
    /// the existing product if the barcode is known, else a new one.
    pub open spec fn resolve_product(self, name: Seq<char>, barcode: Seq<char>) -> (
        BookView,
        Result<Id, ApiError>,
    ) {
        match self.product_with_barcode(barcode) {
            Some(k) => (self, Ok(self.products[k].id)),
            None => if self.products.len() < MAX_PRODUCT_ID {
                let id = (self.products.len() + 1) as Id;
                (BookView { products: self.products.push(ProductView { id, name, barcode }), ..self }, Ok(id))
            } else {
                (self, Err(ApiError::StorageUnavailable))
            },
        }
    }

    /// The book after resolving the store `s` by its address, and the store's
    /// identifier: the existing store if the address is known (its name
    /// refreshed when the book is set to), else a new one.
    pub open spec fn resolve_store(self, s: StoreView) -> (BookView, Result<StoreId, ApiError>) {
        match self.store_at(s.address) {
            Some(k) => {
                let next = if self.refresh_store_names {
                    BookView { stores: self.stores.update(k, StoreView { name: s.name, ..self.stores[k] }), ..self }
                } else {
                    self
                };
                (next, Ok(self.stores[k].id))
            },
            None => if self.stores.len() < MAX_STORE_ID {
                let id = (self.stores.len() + 1) as StoreId;
                (BookView { stores: self.stores.push(StoreView { id, ..s }), ..self }, Ok(id))
            } else {
                (self, Err(ApiError::StorageUnavailable))
            },
        }
    }

    /// The book after recording `price` for the product and store on `date`:
    /// the first price of a day stays, a later one that day is absorbed.
    pub open spec fn record_price(
        self,
        product_id: Id,
        store_id: StoreId,
        price: Cents,
        date: Day,
    ) -> (BookView, Result<(), ApiError>) {
        if !self.has_product(product_id) || !self.has_store(store_id) {
            (self, Err(ApiError::NotFound))
        } else if self.has_price_in_slot(product_id, store_id, date) {
            (self, Ok(()))
        } else {
            (BookView { prices: self.prices.push(PriceObservation { product_id, store_id, price, date }), ..self }, Ok(()))
        }
    }
}

/// Resolving a product keeps the book well formed.
pub proof fn lemma_resolve_product_wf(v: BookView, name: Seq<char>, barcode: Seq<char>)
    requires
        v.wf(),
    ensures
        v.resolve_product(name, barcode).0.wf(),
{
    let w = v.resolve_product(name, barcode).0;
    if v.product_with_barcode(barcode) is None && v.products.len() < MAX_PRODUCT_ID {
        assert forall|i: int, j: int|
            0 <= i < w.products.len() && 0 <= j < w.products.len() && i != j
                implies #[trigger] w.products[i].barcode != #[trigger] w.products[j].barcode by {
            if i == v.products.len() {
                assert(!(0 <= j < v.products.len() && v.products[j].barcode == barcode));
            } else if j == v.products.len() {
                assert(!(0 <= i < v.products.len() && v.products[i].barcode == barcode));
            }
        }
        assert forall|k: int| 0 <= k < w.prices.len() implies w.refers_to_known_rows(#[trigger] w.prices[k]) by {
            assert(v.refers_to_known_rows(v.prices[k]));
        }
    }
}

/// Resolving a store keeps the book well formed.
pub proof fn lemma_resolve_store_wf(v: BookView, s: StoreView)
    requires
        v.wf(),
    ensures
        v.resolve_store(s).0.wf(),
{
    let w = v.resolve_store(s).0;
    match v.store_at(s.address) {
        Some(k) => {
            assert forall|i: int, j: int|
                0 <= i < w.stores.len() && 0 <= j < w.stores.len() && i != j
                    implies #[trigger] w.stores[i].address != #[trigger] w.stores[j].address by {
                assert(w.stores[i].address == v.stores[i].address);
                assert(w.stores[j].address == v.stores[j].address);
            }
            assert forall|j: int| 0 <= j < w.stores.len() implies #[trigger] w.stores[j].id == j + 1 by {
                assert(w.stores[j].id == v.stores[j].id);
            }
            assert forall|j: int| 0 <= j < w.prices.len() implies w.refers_to_known_rows(#[trigger] w.prices[j]) by {
                assert(v.refers_to_known_rows(v.prices[j]));
            }
        },
        None => {
            if v.stores.len() < MAX_STORE_ID {
                assert forall|i: int, j: int|
                    0 <= i < w.stores.len() && 0 <= j < w.stores.len() && i != j
                        implies #[trigger] w.stores[i].address != #[trigger] w.stores[j].address by {
                    if i == v.stores.len() {
                        assert(!(0 <= j < v.stores.len() && v.stores[j].address == s.address));
                    } else if j == v.stores.len() {
                        assert(!(0 <= i < v.stores.len() && v.stores[i].address == s.address));
                    }
                }
                assert(w.prices == v.prices);
                assert forall|k: int| 0 <= k < w.prices.len() implies w.refers_to_known_rows(#[trigger] w.prices[k]) by {
                    assert(v.refers_to_known_rows(v.prices[k]));
                }
            }
        },
    }
}

/// Recording a price keeps the book well formed.
pub proof fn lemma_record_price_wf(
    v: BookView,
    product_id: Id,
    store_id: StoreId,
    price: Cents,
    date: Day,
)
    requires
        v.wf(),
    ensures
        v.record_price(product_id, store_id, price, date).0.wf(),
{
    let w = v.record_price(product_id, store_id, price, date).0;
    if v.has_product(product_id) && v.has_store(store_id) && !v.has_price_in_slot(product_id, store_id, date) {
        assert forall|i: int, j: int|
            0 <= i < w.prices.len() && 0 <= j < w.prices.len() && i != j implies !same_day_slot(
                #[trigger] w.prices[i],
                #[trigger] w.prices[j].product_id,
                w.prices[j].store_id,
                w.prices[j].date,
            ) by {
            if i == v.prices.len() {
                assert(!same_day_slot(v.prices[j], product_id, store_id, date));
            } else if j == v.prices.len() {
                assert(!same_day_slot(v.prices[i], product_id, store_id, date));
            }
        }
    }
}

/// Submitting a barcode a second time, under any name, returns the identifier
/// of the first submission and creates no second product.
pub proof fn resolve_product_is_idempotent(
    v: BookView,
    name1: Seq<char>,
    name2: Seq<char>,
    barcode: Seq<char>,
)
    requires
        v.wf(),
    ensures
        ({
            let (v1, r1) = v.resolve_product(name1, barcode);
            let (v2, r2) = v1.resolve_product(name2, barcode);
            r1 is Ok ==> r2 == r1 && v2 == v1
        }),
{
    let (v1, r1) = v.resolve_product(name1, barcode);
    lemma_resolve_product_wf(v, name1, barcode);
    if r1 is Ok && v.product_with_barcode(barcode) is None {
        let n = v.products.len() as int;
        assert(v1.products[n].barcode == barcode);
        let c = choose|c: int| 0 <= c < v1.products.len() && #[trigger] v1.products[c].barcode == barcode;
        assert(c == n);
    }
}

/// Submitting an address a second time, under any name and location, returns
/// the identifier of the first submission and creates no second store.
pub proof fn resolve_store_is_idempotent(v: BookView, s1: StoreView, s2: StoreView)
    requires
        v.wf(),
        s1.address == s2.address,
    ensures
        ({
            let (v1, r1) = v.resolve_store(s1);
            let (v2, r2) = v1.resolve_store(s2);
            r1 is Ok ==> r2 == r1 && v2.stores.len() == v1.stores.len()
        }),
{
    let (v1, r1) = v.resolve_store(s1);
    lemma_resolve_store_wf(v, s1);
    match v.store_at(s1.address) {
        Some(k) => {
            assert(v1.stores[k].address == s1.address);
            let c = choose|c: int| 0 <= c < v1.stores.len() && #[trigger] v1.stores[c].address == s1.address;
            assert(c == k);
        },
        None => {
            if r1 is Ok {
                let n = v.stores.len() as int;
                assert(v1.stores[n].address == s1.address);
                let c = choose|c: int| 0 <= c < v1.stores.len() && #[trigger] v1.stores[c].address == s1.address;
                assert(c == n);
            }
        },
    }
}

/// Two prices for one product and store on one day: the second changes
/// nothing, so the day keeps the first price and a single row.
pub proof fn first_price_of_the_day_stays(
    v: BookView,
    product_id: Id,
    store_id: StoreId,
    price1: Cents,
    price2: Cents,
    date: Day,
)
    requires
        v.wf(),
    ensures
        ({
            let (v1, r1) = v.record_price(product_id, store_id, price1, date);
            let (v2, r2) = v1.record_price(product_id, store_id, price2, date);
            &&& r2 == r1
            &&& v2 == v1
            &&& r1 is Ok && !v.has_price_in_slot(product_id, store_id, date) ==> v2.prices
                == v.prices.push(PriceObservation { product_id, store_id, price: price1, date })
        }),
{
    let (v1, r1) = v.record_price(product_id, store_id, price1, date);
    if r1 is Ok && !v.has_price_in_slot(product_id, store_id, date) {
        let n = v.prices.len() as int;
        assert(same_day_slot(v1.prices[n], product_id, store_id, date));
    }
}

/// Prices for one product and store on two different days, neither of which
/// had a price yet, are both kept.
pub proof fn prices_of_different_days_are_kept(
    v: BookView,
    product_id: Id,
    store_id: StoreId,
    price1: Cents,
    price2: Cents,
    date1: Day,
    date2: Day,
)
    requires
        v.wf(),
        date1 != date2,
        !v.has_price_in_slot(product_id, store_id, date1),
        !v.has_price_in_slot(product_id, store_id, date2),
    ensures
        ({
            let (v1, r1) = v.record_price(product_id, store_id, price1, date1);
            let (v2, r2) = v1.record_price(product_id, store_id, price2, date2);
            r1 is Ok ==> r2 is Ok && v2.prices == v.prices.push(
                PriceObservation { product_id, store_id, price: price1, date: date1 },
            ).push(PriceObservation { product_id, store_id, price: price2, date: date2 })
        }),
{
    let (v1, r1) = v.record_price(product_id, store_id, price1, date1);
    if r1 is Ok {
        assert(!v1.has_price_in_slot(product_id, store_id, date2)) by {
            assert forall|k: int| 0 <= k < v1.prices.len() implies !same_day_slot(
                #[trigger] v1.prices[k],
                product_id,
                store_id,
                date2,
            ) by {
                if k < v.prices.len() {
                    assert(v1.prices[k] == v.prices[k]);
                }
            }
        }
    }
}

impl PriceBook {
    pub closed spec fn wf(&self) -> bool {
        self@.wf()
    }

    /// An empty book. `refresh_store_names` decides whether submitting a
    /// known address again renames the store.
    pub fn new(refresh_store_names: bool) -> (r: PriceBook)
        ensures
            r.wf(),
            r@.products.len() == 0,
            r@.stores.len() == 0,
            r@.prices.len() == 0,
            r@.refresh_store_names == refresh_store_names,
    {
        let r = PriceBook {
            products: Vec::new(),
            stores: Vec::new(),
            prices: Vec::new(),
            refresh_store_names,
        };
        assert(r@.products =~= Seq::<ProductView>::empty());
        assert(r@.stores =~= Seq::<StoreView>::empty());
        r
    }

    /// Looks `barcode` up and returns its product's identifier, creating the
    /// product with `name` when the barcode is new. A known product keeps
    /// its name.
    pub fn find_or_create_product(&mut self, name: &String, barcode: &String) -> (r: Result<
        Id,
        ApiError,
    >)
        requires
            old(self).wf(),
        ensures
            final(self).wf(),
            (final(self)@, r) == old(self)@.resolve_product(name@, barcode@),
    {
        let ghost v = self@;
        let mut k: usize = 0;
        while k < self.products.len()
            invariant
                self@ == v,
                v.wf(),
                k <= self.products@.len(),
                forall|j: int| 0 <= j < k ==> (#[trigger] v.products[j]).barcode != barcode@,
            decreases self.products@.len() - k,
        {
            assert(v.products[k as int] == self.products@[k as int]@);
            if self.products[k].barcode == *barcode {
                proof {
                    assert(v.products[k as int].barcode == barcode@);
                    let c = choose|c: int| 0 <= c < v.products.len() && #[trigger] v.products[c].barcode == barcode@;
                    assert(c == k);
                }
                return Ok(self.products[k].id);
            }
            k = k + 1;
        }
        assert(v.product_with_barcode(barcode@) is None);
        if self.products.len() >= MAX_PRODUCT_ID {
            return Err(ApiError::StorageUnavailable);
        }
        let id = (self.products.len() + 1) as Id;
        self.products.push(Product { id, name: name.clone(), barcode: barcode.clone() });
        assert(self@.products =~= v.products.push(ProductView { id, name: name@, barcode: barcode@ }));
        proof {
            lemma_resolve_product_wf(v, name@, barcode@);
        }
        Ok(id)
    }

    /// Looks the store up by its address and returns its identifier,
    /// creating it when the address is new. A known store keeps its location,
    /// and takes the submitted name only when the book refreshes names.
    pub fn add_store(&mut self, store: &Store) -> (r: Result<StoreResponse, ApiError>)
        requires
            old(self).wf(),
        ensures
            final(self).wf(),
            final(self)@ == old(self)@.resolve_store(store.as_view()).0,
            r == match old(self)@.resolve_store(store.as_view()).1 {
                Ok(id) => Ok::<StoreResponse, ApiError>(StoreResponse { id }),
                Err(e) => Err(e),
            },
    {
        let ghost v = self@;
        let mut k: usize = 0;
        while k < self.stores.len()
            invariant
                self@ == v,
                v == old(self)@,
                v.wf(),
                k <= self.stores@.len(),
                forall|j: int| 0 <= j < k ==> (#[trigger] v.stores[j]).address != store.address(),
            decreases self.stores@.len() - k,
        {
            assert(v.stores[k as int] == self.stores@[k as int]@);
            if same_address(&self.stores[k].record, store) {
                proof {
                    assert(v.stores[k as int].address == store.address());
                    lemma_resolve_store_wf(v, store.as_view());
                    let c = choose|c: int| 0 <= c < v.stores.len() && #[trigger] v.stores[c].address == store.address();
                    assert(c == k);
                    assert(v.store_at(store.address()) == Some(k as int));
                }
                let id = self.stores[k].record.id;
                if self.refresh_store_names {
                    let old_entry = &self.stores[k];
                    let entry = StoreEntry {
                        record: StoreRecord {
                            id: old_entry.record.id,
                            name: store.name.clone(),
                            street_number: old_entry.record.street_number,
                            street_name: old_entry.record.street_name.clone(),
                            city: old_entry.record.city.clone(),
                            country_code: old_entry.record.country_code.clone(),
                        },
                        latitude_micro: old_entry.latitude_micro,
                        longitude_micro: old_entry.longitude_micro,
                    };
                    self.stores[k] = entry;
                    assert(self@.stores =~= v.stores.update(k as int, StoreView { name: store.name@, ..v.stores[k as int] }));
                }
                assert(id == v.stores[k as int].id);
                return Ok(StoreResponse { id });
            }
            k = k + 1;
        }
        assert(v.store_at(store.address()) is None);
        if self.stores.len() >= MAX_STORE_ID {
            return Err(ApiError::StorageUnavailable);
        }
        let id = (self.stores.len() + 1) as StoreId;
        let entry = StoreEntry {
            record: StoreRecord {
                id,
                name: store.name.clone(),
                street_number: store.street_number,
                street_name: store.street_name.clone(),
                city: store.city.clone(),
                country_code: store.country_code.clone(),
            },
            latitude_micro: store.latitude_micro,
            longitude_micro: store.longitude_micro,
        };
        self.stores.push(entry);
        assert(self@.stores =~= v.stores.push(StoreView { id, ..store.as_view() }));
        proof {
            lemma_resolve_store_wf(v, store.as_view());
        }
        Ok(StoreResponse { id })
    }

    /// Records `price` for the product and store on `date`. The first price
    /// of a day is kept: a second one for the same product, store and day is
    /// absorbed without error. Unknown products or stores are `NotFound`.
    pub fn insert_price(
        &mut self,
        product_id: Id,
        store_id: StoreId,
        price: Cents,
        date: Day,
    ) -> (r: Result<(), ApiError>)
        requires
            old(self).wf(),
        ensures
            final(self).wf(),
            (final(self)@, r) == old(self)@.record_price(product_id, store_id, price, date),
    {
        let ghost v = self@;
        proof {
            lemma_record_price_wf(v, product_id, store_id, price, date);
        }
        if product_id < 1 || product_id as usize > self.products.len() || store_id < 1
            || store_id > self.stores.len() as StoreId {
            return Err(ApiError::NotFound);
        }
        let mut k: usize = 0;
        while k < self.prices.len()
            invariant
                self@ == v,
                v.wf(),
                k <= self.prices@.len(),
                forall|j: int| 0 <= j < k ==> !same_day_slot(#[trigger] v.prices[j], product_id, store_id, date),
            decreases self.prices@.len() - k,
        {
            let o = self.prices[k];
            if o.product_id == product_id && o.store_id == store_id && o.date == date {
                assert(same_day_slot(v.prices[k as int], product_id, store_id, date));
                return Ok(());
            }
            k = k + 1;
        }
        self.prices.push(PriceObservation { product_id, store_id, price, date });
        assert(self@.prices == v.prices.push(PriceObservation { product_id, store_id, price, date }));
        assert(self@.products == v.products);
        Ok(())
    }

    /// Every price observation joined with its product, its store and the
    /// store's distance from the point of a query (`distances_mm[k]` for the
    /// store of identifier `k + 1`).
    pub fn price_candidates(&self, distances_mm: &Vec<u64>) -> (r: Vec<PriceCandidate>)
        requires
            self.wf(),
            distances_mm@.len() == self@.stores.len(),
        ensures
            is_joined(r@, self@, distances_mm@),
    {
        let ghost v = self@;
        let mut r: Vec<PriceCandidate> = Vec::new();
        let mut k: usize = 0;
        while k < self.prices.len()
            invariant
                self@ == v,
                v.wf(),
                distances_mm@.len() == v.stores.len(),
                k <= self.prices@.len(),
                r@.len() == k,
                forall|j: int| 0 <= j < k ==> joins(#[trigger] r@[j], v, v.prices[j], distances_mm@),
            decreases self.prices@.len() - k,
        {
            let o = self.prices[k];
            assert(v.refers_to_known_rows(v.prices[k as int]));
            let p = &self.products[(o.product_id - 1) as usize];
            let st = &self.stores[(o.store_id - 1) as usize];
            assert(v.products[o.product_id - 1] == self.products@[o.product_id - 1]@);
            assert(v.stores[o.store_id - 1] == self.stores@[o.store_id - 1]@);
            r.push(PriceCandidate {
                store_id: o.store_id,
                store_name: st.record.name.clone(),
                product_name: p.name.clone(),
                barcode: p.barcode.clone(),
                price: o.price,
                date: o.date,
                distance_mm: distances_mm[(o.store_id - 1) as usize],
            });
            k = k + 1;
        }
        r
    }

    /// Reports the request's price for its product at its store on `today`,
    /// and returns the nearby comparisons: the barcode is validated before
    /// anything is stored, the product is resolved, the price recorded, and
    /// the other stores' prices within the default radius are compared with
    /// the reported price. `distances_mm` gives each store's distance from the
    /// reporting point. A step that fails stops the report; what the steps
    /// before it stored stays.
    pub fn lookup_price(
        &mut self,
        request: &PriceLookupRequest,
        today: Day,
        distances_mm: &Vec<u64>,
    ) -> (r: Result<Vec<RecentPrice>, ApiError>)
        requires
            old(self).wf(),
            distances_mm@.len() == old(self)@.stores.len(),
        ensures
            final(self).wf(),
            report_outcome(
                old(self)@,
                final(self)@,
                match r {
                    Ok(list) => Ok(list@),
                    Err(e) => Err(e),
                },
                request.name@,
                request.barcode@,
                request.price,
                request.store_id,
                today,
                distances_mm@,
            ),
    {
        let name = &request.name;
        let barcode = &request.barcode;
        let price = request.price;
        let store_id = request.store_id;
        let ghost v = self@;
        match EAN13Barcode::try_from(barcode.clone()) {
            Err(e) => {
                return Err(ApiError::InvalidBarcode(e));
            },
            Ok(_) => {},
        }
        let product_id = match self.find_or_create_product(name, barcode) {
            Err(e) => {
                return Err(e);
            },
            Ok(id) => id,
        };
        let ghost v1 = self@;
        match self.insert_price(product_id, store_id, price, today) {
            Err(e) => {
                return Err(e);
            },
            Ok(()) => {},
        }
        let cands = self.price_candidates(distances_mm);
        let list = get_recent_prices(&cands, barcode, store_id, price, DEFAULT_RADIUS_M);
        proof {
            let ghost v2 = self@;
            assert(v.resolve_product(name@, barcode@) == (v1, Ok::<Id, ApiError>(product_id)));
            assert(v1.record_price(product_id, store_id, price, today) == (v2, Ok::<(), ApiError>(())));
            assert(is_joined(cands@, v2, distances_mm@) && is_nearby_answer(
                list@,
                cands@,
                barcode@,
                store_id,
                price,
                DEFAULT_RADIUS_M,
            ));
        }
        Ok(list)
    }

    /// The location of each store, in the order of their identifiers.
    pub fn store_locations(&self) -> (r: Vec<(i32, i32)>)
        ensures
            r@.len() == self@.stores.len(),
            forall|k: int|
                0 <= k < r@.len() ==> #[trigger] r@[k] == (
                    self@.stores[k].latitude_micro,
                    self@.stores[k].longitude_micro,
                ),
    {
        let mut r: Vec<(i32, i32)> = Vec::new();
        let mut k: usize = 0;
        while k < self.stores.len()
            invariant
                k <= self.stores@.len(),
                r@.len() == k,
                forall|j: int|
                    0 <= j < k ==> #[trigger] r@[j] == (
                        self@.stores[j].latitude_micro,
                        self@.stores[j].longitude_micro,
                    ),
            decreases self.stores@.len() - k,
        {
            assert(self@.stores[k as int] == self.stores@[k as int]@);
            r.push((self.stores[k].latitude_micro, self.stores[k].longitude_micro));
            k = k + 1;
        }
        r
    }

    /// Positions of the stores, sorted by name; stores of equal names keep
    /// the order of their identifiers.
    fn stores_by_name(&self) -> (order: Vec<usize>)
        ensures
            lists_every_store_by_name(self@.stores, order@),
    {
        let ghost v = self@;
        let mut order: Vec<usize> = Vec::new();
        let mut i: usize = 0;
        while i < self.stores.len()
            invariant
                self@ == v,
                i <= v.stores.len(),
                order@.len() == i,
                order@.no_duplicates(),
                forall|k: int| 0 <= k < order@.len() ==> #[trigger] order@[k] < i,
                forall|j: int| 0 <= j < i ==> #[trigger] lists_position(order@, j),
                is_sorted_by_name(v.stores, order@),
            decreases v.stores.len() - i,
        {
            assert(v.stores[i as int] == self.stores@[i as int]@);
            let mut pos: usize = 0;
            while pos < order.len()
                invariant
                    self@ == v,
                    pos <= order.len(),
                    i < v.stores.len(),
                    forall|k: int| 0 <= k < order@.len() ==> #[trigger] order@[k] < i,
                    forall|k: int|
                        0 <= k < pos ==> name_le(
                            v.stores[#[trigger] order@[k] as int].name,
                            v.stores[i as int].name,
                        ),
                ensures
                    pos <= order.len(),
                    forall|k: int|
                        0 <= k < pos ==> name_le(
                            v.stores[#[trigger] order@[k] as int].name,
                            v.stores[i as int].name,
                        ),
                    pos < order.len() ==> name_le(
                        v.stores[i as int].name,
                        v.stores[order@[pos as int] as int].name,
                    ),
                decreases order.len() - pos,
            {
                let o = order[pos];
                assert(v.stores[o as int] == self.stores@[o as int]@);
                if !names_in_order(&self.stores[o].record.name, &self.stores[i].record.name) {
                    proof {
                        lemma_name_le_total(v.stores[o as int].name, v.stores[i as int].name);
                    }
                    break;
                }
                pos = pos + 1;
            }
            let ghost prev = order@;
            proof {
                prev.insert_ensures(pos as int, i);
                let s = prev.insert(pos as int, i);
                assert forall|a: int, b: int| 0 <= a < b < s.len() implies name_le(
                    v.stores[#[trigger] s[a] as int].name,
                    v.stores[#[trigger] s[b] as int].name,
                ) by {
                    if b < pos {
                        assert(s[a] == prev[a] && s[b] == prev[b]);
                    } else if b == pos {
                        assert(s[a] == prev[a]);
                    } else if a < pos {
                        assert(s[a] == prev[a] && s[b] == prev[b - 1]);
                        assert(name_le(v.stores[prev[a] as int].name, v.stores[prev[b - 1] as int].name));
                    } else if a == pos {
                        assert(s[b] == prev[b - 1]);
                        if b - 1 > pos {
                            assert(name_le(v.stores[prev[pos as int] as int].name, v.stores[prev[b - 1] as int].name));
                            lemma_name_le_transitive(
                                v.stores[i as int].name,
                                v.stores[prev[pos as int] as int].name,
                                v.stores[prev[b - 1] as int].name,
                            );
                        }
                    } else {
                        assert(s[a] == prev[a - 1] && s[b] == prev[b - 1]);
                        assert(name_le(v.stores[prev[a - 1] as int].name, v.stores[prev[b - 1] as int].name));
                    }
                }
            }
            order.insert(pos, i);
            proof {
                assert forall|k: int| 0 <= k < order@.len() implies #[trigger] order@[k] < i + 1 by {
                    if k < pos {
                        assert(order@[k] == prev[k]);
                    } else if k > pos {
                        assert(order@[k] == prev[k - 1]);
                    }
                }
                assert forall|a: int, b: int|
                    0 <= a < order@.len() && 0 <= b < order@.len() && a != b implies order@[a]
                    != order@[b] by {
                    if a != pos && b != pos {
                        let pa = if a < pos { a } else { a - 1 };
                        let pb = if b < pos { b } else { b - 1 };
                        assert(order@[a] == prev[pa] && order@[b] == prev[pb]);
                    } else if a == pos {
                        let pb = if b < pos { b } else { b - 1 };
                        assert(order@[b] == prev[pb]);
                    } else {
                        let pa = if a < pos { a } else { a - 1 };
                        assert(order@[a] == prev[pa]);
                    }
                }
                assert forall|j: int| 0 <= j < i + 1 implies #[trigger] lists_position(order@, j) by {
                    if j == i {
                        assert(order@[pos as int] == i);
                    } else {
                        assert(lists_position(prev, j));
                        let w = choose|w: int| 0 <= w < prev.len() && prev[w] == j as usize;
                        if w < pos {
                            assert(order@[w] == j as usize);
                        } else {
                            assert(order@[w + 1] == j as usize);
                        }
                    }
                }
            }
            i = i + 1;
        }
        order
    }

    /// Every store, sorted by name; stores of equal names keep the order of
    /// their identifiers.
    pub fn list_stores(&self) -> (r: Vec<StoreRecord>)
        ensures
            r@.len() == self@.stores.len(),
            forall|a: int, b: int|
                0 <= a < b < r@.len() ==> name_le((#[trigger] r@[a]).name@, (#[trigger] r@[b]).name@),
            exists|order: Seq<usize>|
                lists_every_store_by_name(self@.stores, order) && forall|k: int|
                    0 <= k < r@.len() ==> (#[trigger] r@[k]).is_record_of(self@.stores[order[k] as int]),
    {
        let order = self.stores_by_name();
        let mut r: Vec<StoreRecord> = Vec::new();
        let mut k: usize = 0;
        while k < order.len()
            invariant
                lists_every_store_by_name(self@.stores, order@),
                k <= order@.len(),
                r@.len() == k,
                forall|j: int| 0 <= j < k ==> (#[trigger] r@[j]).is_record_of(self@.stores[order@[j] as int]),
            decreases order@.len() - k,
        {
            let o = order[k];
            assert(self@.stores[o as int] == self.stores@[o as int]@);
            let e = &self.stores[o].record;
            r.push(StoreRecord {
                id: e.id,
                name: e.name.clone(),
                street_number: e.street_number,
                street_name: e.street_name.clone(),
                city: e.city.clone(),
                country_code: e.country_code.clone(),
            });
            k = k + 1;
        }
        assert forall|a: int, b: int| 0 <= a < b < r@.len() implies name_le(
            (#[trigger] r@[a]).name@,
            (#[trigger] r@[b]).name@,
        ) by {
            assert(name_le(self@.stores[order@[a] as int].name, self@.stores[order@[b] as int].name));
        }
        r
    }

    /// The number of known stores.
    pub fn store_count(&self) -> (r: usize)
        ensures
            r == self@.stores.len(),
    {
        self.stores.len()
    }

    /// Whether submitting a known address again renames the store.
    pub fn refreshes_store_names(&self) -> (r: bool)
        ensures
            r == self@.refresh_store_names,
    {
        self.refresh_store_names
    }

    /// The number of known products.
    pub fn product_count(&self) -> (r: usize)
        ensures
            r == self@.products.len(),
    {
        self.products.len()
    }

    /// Every recorded price, in the order of recording.
    pub fn observations(&self) -> (r: Vec<PriceObservation>)
        ensures
            r@ == self@.prices,
    {
        self.prices.clone()
    }
}

} // verus!
