use vendor_scraper::barcode::MAX_EAN13;
use vendor_scraper::Ean13;

#[test]
fn zero_barcode_is_the_default() {
    assert_eq!(Ean13::zero().code(), 0);
    assert_eq!(Ean13::default(), Ean13::zero());
}

#[test]
fn thirteen_digits_fit_and_fourteen_do_not() {
    assert_eq!(MAX_EAN13, 9_999_999_999_999);
    assert_eq!(Ean13::new(4_006_381_333_931).map(|e| e.code()), Some(4_006_381_333_931));
    assert_eq!(Ean13::new(MAX_EAN13).map(|e| e.code()), Some(MAX_EAN13));
    assert!(Ean13::new(MAX_EAN13 + 1).is_none());
    assert!(Ean13::new(u64::MAX).is_none());
    assert_eq!(Ean13::new(0), Some(Ean13::zero()));
}

#[test]
fn barcodes_compare_by_their_digits() {
    assert_eq!(Ean13::new(12), Ean13::new(12));
    assert_ne!(Ean13::new(12), Ean13::new(13));
}
