//! Scraping product-catalog data from vendor websites: the product record,
//! the lenient price parser, and the decisions of the default login and
//! price-extraction routines that a browser-automation driver carries out.

pub mod barcode;
pub mod controller;
pub mod decimal;
pub mod price;
pub mod product;
pub mod text;

pub use barcode::Ean13;
pub use controller::{
    login_keystrokes, price_from_elem, price_wants_text, select_login_fields, Keystrokes,
    LoginError, LoginFields, LoginScan, ScanStep,
};
pub use decimal::Decimal;
pub use price::{parse_price_nonstrict, parse_price_unsigned, ParseError};
pub use product::Product;
