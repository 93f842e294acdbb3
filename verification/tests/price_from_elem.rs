use vendor_scraper::{price_from_elem, price_wants_text, Decimal};

fn some(text: &str) -> Option<String> {
    Some(text.to_string())
}

fn dec(mantissa: i128, scale: u32) -> Option<Decimal> {
    Decimal::new(mantissa, scale)
}

#[test]
fn empty_value_and_text_without_price_is_no_price() {
    assert_eq!(price_from_elem(&some(""), &some("Call for price")), None);
}

#[test]
fn value_is_preferred_to_text() {
    assert_eq!(price_from_elem(&some("12.50"), &some("$99.99")), dec(1250, 2));
    assert_eq!(price_from_elem(&some("12.50"), &None), dec(1250, 2));
}

#[test]
fn text_serves_where_value_is_absent_or_empty() {
    assert_eq!(price_from_elem(&None, &some("$1,234.56")), dec(123456, 2));
    assert_eq!(price_from_elem(&some(""), &some("$1,234.56")), dec(123456, 2));
}

#[test]
fn value_that_is_not_empty_is_not_replaced() {
    assert_eq!(price_from_elem(&some("n/a"), &some("5.00")), None);
    assert_eq!(price_from_elem(&some(" "), &some("5.00")), None);
}

#[test]
fn nothing_read_is_no_price() {
    assert_eq!(price_from_elem(&None, &None), None);
    assert_eq!(price_from_elem(&some(""), &None), None);
    assert_eq!(price_from_elem(&None, &some("")), None);
}

#[test]
fn minus_sign_is_dropped_from_a_shown_price() {
    assert_eq!(price_from_elem(&some("-5.00"), &None), dec(500, 2));
    assert_eq!(price_from_elem(&None, &some("Save -$3")), dec(3, 0));
}

#[test]
fn unparseable_price_is_no_price() {
    assert_eq!(price_from_elem(&some("1.2.3"), &None), None);
    assert_eq!(price_from_elem(&None, &some("v1.2 from 3.50")), None);
    assert_eq!(
        price_from_elem(&some("79228162514264337593543950336"), &None),
        None
    );
}

#[test]
fn text_is_wanted_where_value_holds_nothing() {
    assert!(price_wants_text(&None));
    assert!(price_wants_text(&some("")));
    assert!(!price_wants_text(&some("0")));
    assert!(!price_wants_text(&some(" ")));
}
