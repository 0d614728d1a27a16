use grocerytracker::proximity::{
    absolute_price_change, get_recent_prices, rank_nearby, relative_price_change, PriceCandidate,
    DEFAULT_RADIUS_M,
};

const MILK: &str = "1234567890123";

fn candidate(store_id: i64, store_name: &str, barcode: &str, price: u32, date: i32, distance_mm: u64) -> PriceCandidate {
    PriceCandidate {
        store_id,
        store_name: store_name.to_string(),
        product_name: "Milk".to_string(),
        barcode: barcode.to_string(),
        price,
        date,
        distance_mm,
    }
}

#[test]
fn changes_are_taken_against_the_observed_price() {
    assert_eq!(absolute_price_change(220, 250), -30);
    assert_eq!(absolute_price_change(250, 220), 30);
    assert_eq!(relative_price_change(220, 250), Some(-136363));
    assert_eq!(relative_price_change(250, 220), Some(120000));
    assert_eq!(relative_price_change(100, 100), Some(0));
}

#[test]
fn a_free_observed_price_has_no_relative_change() {
    assert_eq!(relative_price_change(0, 100), None);
    assert_eq!(absolute_price_change(0, 100), -100);
}

#[test]
fn nearby_store_is_compared_with_the_reference_price() {
    let cands = vec![
        candidate(1, "S1", MILK, 250, 20000, 0),
        candidate(2, "S2", MILK, 220, 20000, 556_000),
    ];
    let r = get_recent_prices(&cands, &MILK.to_string(), 1, 250, DEFAULT_RADIUS_M);
    assert_eq!(r.len(), 1);
    assert_eq!(r[0].name, "Milk");
    assert_eq!(r[0].price, 220);
    assert_eq!(r[0].absolute_price_change, Some(-30));
    assert_eq!(r[0].relative_price_change, Some(-136363));
    assert_eq!(r[0].date, Some(20000));
    assert_eq!(r[0].store_name.as_deref(), Some("S2"));
    assert_eq!(r[0].distance, Some(556_000));
}

#[test]
fn the_reporting_store_is_left_out_even_at_distance_zero() {
    let cands = vec![
        candidate(7, "Here", MILK, 100, 1, 0),
        candidate(7, "Here", MILK, 90, 2, 0),
    ];
    let r = get_recent_prices(&cands, &MILK.to_string(), 7, 100, DEFAULT_RADIUS_M);
    assert!(r.is_empty());
}

#[test]
fn the_radius_is_inclusive_and_one_meter_beyond_is_out() {
    let cands = vec![
        candidate(2, "At", MILK, 100, 1, 1_000_000),
        candidate(3, "Beyond", MILK, 100, 1, 1_001_000),
    ];
    let order = rank_nearby(&cands, &MILK.to_string(), 1, DEFAULT_RADIUS_M);
    assert_eq!(order, vec![0]);
}

#[test]
fn other_products_are_left_out() {
    let cands = vec![candidate(2, "S2", "9999999999999", 100, 1, 10)];
    let r = get_recent_prices(&cands, &MILK.to_string(), 1, 100, DEFAULT_RADIUS_M);
    assert!(r.is_empty());
}

#[test]
fn cheapest_first_then_most_recent() {
    let cands = vec![
        candidate(2, "A", MILK, 300, 10, 5),
        candidate(3, "B", MILK, 200, 10, 5),
        candidate(4, "C", MILK, 200, 12, 5),
        candidate(5, "D", MILK, 100, 1, 5),
        candidate(6, "E", MILK, 200, 11, 5),
    ];
    let r = get_recent_prices(&cands, &MILK.to_string(), 1, 150, DEFAULT_RADIUS_M);
    let got: Vec<(u32, i32)> = r.iter().map(|p| (p.price, p.date.unwrap())).collect();
    assert_eq!(got, vec![(100, 1), (200, 12), (200, 11), (200, 10), (300, 10)]);
    assert_eq!(r[0].absolute_price_change, Some(-50));
    assert_eq!(r[0].relative_price_change, Some(-500000));
}

#[test]
fn no_candidates_give_no_prices() {
    let r = get_recent_prices(&Vec::new(), &MILK.to_string(), 1, 100, DEFAULT_RADIUS_M);
    assert!(r.is_empty());
}

#[test]
fn exact_ties_keep_the_order_of_the_candidates() {
    let cands = vec![
        candidate(4, "Late", MILK, 200, 10, 5),
        candidate(2, "Early", MILK, 200, 10, 5),
        candidate(3, "Cheap", MILK, 100, 10, 5),
    ];
    let order = rank_nearby(&cands, &MILK.to_string(), 1, DEFAULT_RADIUS_M);
    assert_eq!(order, vec![2, 0, 1]);
    let r = get_recent_prices(&cands, &MILK.to_string(), 1, 200, DEFAULT_RADIUS_M);
    let names: Vec<String> = r.into_iter().map(|p| p.store_name.unwrap()).collect();
    assert_eq!(names, vec!["Cheap", "Late", "Early"]);
}
