use grocerytracker::book::{PriceBook, PriceLookupRequest, PriceObservation};
use grocerytracker::error::ApiError;
use grocerytracker::stores::Store;

const MILK: &str = "1234567890123";

fn report(name: &str, barcode: &str, price: u32, store_id: i64) -> PriceLookupRequest {
    PriceLookupRequest { name: name.to_string(), barcode: barcode.to_string(), price, store_id }
}

fn store(name: &str, number: i32, lat: i32, lon: i32) -> Store {
    Store {
        name: name.to_string(),
        street_number: number,
        street_name: "Main Street".to_string(),
        city: "Springfield".to_string(),
        country_code: "US".to_string(),
        latitude_micro: lat,
        longitude_micro: lon,
    }
}

#[test]
fn a_barcode_submitted_twice_is_one_product() {
    let mut book = PriceBook::new(false);
    let a = book.find_or_create_product(&"Milk".to_string(), &MILK.to_string());
    let b = book.find_or_create_product(&"Whole milk".to_string(), &MILK.to_string());
    assert_eq!(a, Ok(1));
    assert_eq!(b, Ok(1));
    assert_eq!(book.product_count(), 1);
    let c = book.find_or_create_product(&"Bread".to_string(), &"0000000000017".to_string());
    assert_eq!(c, Ok(2));
    assert_eq!(book.product_count(), 2);
}

#[test]
fn an_address_submitted_twice_is_one_store() {
    let mut book = PriceBook::new(false);
    let a = book.add_store(&store("Corner", 12, 0, 0)).unwrap();
    let b = book.add_store(&store("Corner shop", 12, 1000, 2000)).unwrap();
    assert_eq!(a.id, b.id);
    let stores = book.list_stores();
    assert_eq!(stores.len(), 1);
    assert_eq!(stores[0].name, "Corner");
    assert_eq!(book.store_locations(), vec![(0, 0)]);
    let c = book.add_store(&store("Other", 14, 0, 0)).unwrap();
    assert_ne!(c.id, a.id);
    assert_eq!(book.list_stores().len(), 2);
}

#[test]
fn a_refreshing_book_renames_a_known_store() {
    let mut book = PriceBook::new(true);
    let a = book.add_store(&store("Corner", 12, 0, 0)).unwrap();
    let b = book.add_store(&store("Corner shop", 12, 5, 5)).unwrap();
    assert_eq!(a, b);
    let stores = book.list_stores();
    assert_eq!(stores.len(), 1);
    assert_eq!(stores[0].name, "Corner shop");
    assert_eq!(stores[0].street_name, "Main Street");
    assert_eq!(book.store_locations(), vec![(0, 0)]);
}

#[test]
fn the_first_price_of_a_day_stays() {
    let mut book = PriceBook::new(false);
    let p = book.find_or_create_product(&"Milk".to_string(), &MILK.to_string()).unwrap();
    let s = book.add_store(&store("Corner", 12, 0, 0)).unwrap().id;
    assert_eq!(book.insert_price(p, s, 250, 100), Ok(()));
    assert_eq!(book.insert_price(p, s, 199, 100), Ok(()));
    assert_eq!(
        book.observations(),
        vec![PriceObservation { product_id: p, store_id: s, price: 250, date: 100 }]
    );
    assert_eq!(book.insert_price(p, s, 199, 101), Ok(()));
    assert_eq!(
        book.observations(),
        vec![
            PriceObservation { product_id: p, store_id: s, price: 250, date: 100 },
            PriceObservation { product_id: p, store_id: s, price: 199, date: 101 },
        ]
    );
}

#[test]
fn prices_for_unknown_rows_are_not_found() {
    let mut book = PriceBook::new(false);
    let p = book.find_or_create_product(&"Milk".to_string(), &MILK.to_string()).unwrap();
    assert_eq!(book.insert_price(p, 1, 250, 100), Err(ApiError::NotFound));
    let s = book.add_store(&store("Corner", 12, 0, 0)).unwrap().id;
    assert_eq!(book.insert_price(p + 1, s, 250, 100), Err(ApiError::NotFound));
    assert_eq!(book.insert_price(0, s, 250, 100), Err(ApiError::NotFound));
    assert!(book.observations().is_empty());
}

#[test]
fn a_report_compares_with_a_nearby_store_of_the_same_day() {
    let mut book = PriceBook::new(false);
    let s1 = book.add_store(&store("S1", 1, 0, 0)).unwrap().id;
    let s2 = book.add_store(&store("S2", 2, 0, 5000)).unwrap().id;
    let milk = "Milk".to_string();
    let barcode = MILK.to_string();
    let from_s1 = vec![0, 556_000];
    let from_s2 = vec![556_000, 0];

    let first = book.lookup_price(&report(&milk, &barcode, 250, s1), 20000, &from_s1).unwrap();
    assert!(first.is_empty());

    let second = book.lookup_price(&report(&milk, &barcode, 220, s2), 20000, &from_s2).unwrap();
    assert_eq!(second.len(), 1);
    assert_eq!(second[0].price, 250);
    assert_eq!(second[0].absolute_price_change, Some(30));
    assert_eq!(second[0].relative_price_change, Some(120000));

    let again = book.lookup_price(&report(&milk, &barcode, 250, s1), 20000, &from_s1).unwrap();
    assert_eq!(again.len(), 1);
    assert_eq!(again[0].name, "Milk");
    assert_eq!(again[0].price, 220);
    assert_eq!(again[0].absolute_price_change, Some(-30));
    assert_eq!(again[0].relative_price_change, Some(-136363));
    assert_eq!(again[0].store_name.as_deref(), Some("S2"));
    assert_eq!(again[0].distance, Some(556_000));
    assert_eq!(book.product_count(), 1);
    assert_eq!(book.observations().len(), 2);
}

#[test]
fn a_report_at_an_unknown_store_keeps_the_product() {
    let mut book = PriceBook::new(false);
    let r = book.lookup_price(&report("Milk", MILK, 250, 3), 1, &Vec::new());
    assert!(matches!(r, Err(ApiError::NotFound)));
    assert_eq!(book.product_count(), 1);
    assert!(book.observations().is_empty());
}

#[test]
fn stores_beyond_the_radius_are_not_compared() {
    let mut book = PriceBook::new(false);
    let s1 = book.add_store(&store("S1", 1, 0, 0)).unwrap().id;
    let s2 = book.add_store(&store("S2", 2, 0, 20000)).unwrap().id;
    let milk = "Milk".to_string();
    let barcode = MILK.to_string();
    book.lookup_price(&report(&milk, &barcode, 220, s2), 5, &vec![2_226_000, 0]).unwrap();
    let r = book.lookup_price(&report(&milk, &barcode, 250, s1), 5, &vec![0, 2_226_000]).unwrap();
    assert!(r.is_empty());
}

#[test]
fn stores_are_listed_by_name() {
    let mut book = PriceBook::new(false);
    book.add_store(&store("Zest", 1, 0, 0)).unwrap();
    book.add_store(&store("Acme", 2, 0, 0)).unwrap();
    book.add_store(&store("Market", 3, 0, 0)).unwrap();
    book.add_store(&store("Acme", 4, 0, 0)).unwrap();
    book.add_store(&store("Ac", 5, 0, 0)).unwrap();
    let listed: Vec<(String, i64)> = book.list_stores().into_iter().map(|s| (s.name, s.id)).collect();
    assert_eq!(
        listed,
        vec![
            ("Ac".to_string(), 5),
            ("Acme".to_string(), 2),
            ("Acme".to_string(), 4),
            ("Market".to_string(), 3),
            ("Zest".to_string(), 1),
        ]
    );
}

#[test]
fn counts_follow_the_rows_added() {
    let mut book = PriceBook::new(true);
    assert!(book.refreshes_store_names());
    assert_eq!(book.store_count(), 0);
    book.add_store(&store("A", 1, 0, 0)).unwrap();
    book.add_store(&store("B", 1, 0, 0)).unwrap();
    assert_eq!(book.store_count(), 1);
    book.add_store(&store("C", 2, 0, 0)).unwrap();
    assert_eq!(book.store_count(), 2);
    assert!(!PriceBook::new(false).refreshes_store_names());
}
