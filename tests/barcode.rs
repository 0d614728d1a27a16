use grocerytracker::book::{PriceBook, PriceLookupRequest};
use grocerytracker::error::ApiError;
use grocerytracker::types::{EAN13Barcode, EAN13Error};

fn report(name: &str, barcode: &str, price: u32, store_id: i64) -> PriceLookupRequest {
    PriceLookupRequest { name: name.to_string(), barcode: barcode.to_string(), price, store_id }
}

#[test]
fn thirteen_digits_are_accepted() {
    let b = EAN13Barcode::try_from("1234567890123".to_string());
    match b {
        Ok(b) => assert_eq!(b.value, "1234567890123"),
        Err(e) => panic!("rejected: {:?}", e),
    }
}

#[test]
fn five_digits_are_rejected_for_length() {
    let b = EAN13Barcode::try_from("12345".to_string());
    assert!(matches!(b, Err(EAN13Error::InvalidLength)));
}

#[test]
fn empty_and_fourteen_digits_are_rejected_for_length() {
    assert!(matches!(EAN13Barcode::try_from(String::new()), Err(EAN13Error::InvalidLength)));
    assert!(matches!(
        EAN13Barcode::try_from("12345678901234".to_string()),
        Err(EAN13Error::InvalidLength)
    ));
}

#[test]
fn a_letter_is_rejected_as_a_character() {
    let b = EAN13Barcode::try_from("12345678901a3".to_string());
    assert!(matches!(b, Err(EAN13Error::InvalidCharacter)));
}

#[test]
fn a_non_ascii_digit_is_rejected_as_a_character() {
    let b = EAN13Barcode::try_from("١٢٣٤٥٦٧٨٩٠١٢٣".to_string());
    assert!(matches!(b, Err(EAN13Error::InvalidCharacter)));
}

#[test]
fn an_invalid_barcode_is_rejected_before_anything_is_stored() {
    let mut book = PriceBook::new(false);
    let r = book.lookup_price(&report("Milk", "12345", 250, 1), 20000, &Vec::new());
    assert!(matches!(r, Err(ApiError::InvalidBarcode(EAN13Error::InvalidLength))));
    assert_eq!(book.product_count(), 0);
    assert!(book.observations().is_empty());
}
