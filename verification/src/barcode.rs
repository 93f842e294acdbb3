//! The product barcode.

use vstd::prelude::*;

verus! {

/// The largest number that thirteen decimal digits can write.
pub const MAX_EAN13: u64 = 9_999_999_999_999;

/// A GTIN/EAN-13 barcode: a number of at most thirteen decimal digits,
/// leading zeros implied.
#[derive(Clone, Copy, Debug)]
pub struct Ean13 {
    code: u64,
}

impl View for Ean13 {
    type V = nat;

    closed spec fn view(&self) -> nat {
        self.code as nat
    }
}

impl Ean13 {
    #[verifier::type_invariant]
    spec fn fits(self) -> bool {
        self.code <= MAX_EAN13
    }

    /// The barcode whose thirteen digits are all zero.
    pub fn zero() -> (res: Ean13)
        ensures
            res@ == 0,
    {
        Ean13 { code: 0 }
    }

    /// The barcode with the given number, if thirteen digits can write it.
    pub fn new(code: u64) -> (res: Option<Ean13>)
        ensures
            res is Some <==> code <= MAX_EAN13,
            res matches Some(ean) ==> ean@ == code,
    {
        if code <= MAX_EAN13 {
            Some(Ean13 { code })
        } else {
            None
        }
    }

    /// The number that the thirteen digits write.
    pub fn code(&self) -> (res: u64)
        ensures
            res == self@,
            res <= MAX_EAN13,
    {
        proof {
            use_type_invariant(self);
        }
        self.code
    }
}

impl PartialEq for Ean13 {
    fn eq(&self, other: &Ean13) -> (res: bool) {
        self.code == other.code
    }
}

impl vstd::std_specs::cmp::PartialEqSpecImpl for Ean13 {
    open spec fn obeys_eq_spec() -> bool {
        true
    }

    open spec fn eq_spec(&self, other: &Ean13) -> bool {
        self@ == other@
    }
}

impl Eq for Ean13 {

}

impl Default for Ean13 {
    fn default() -> (res: Ean13)
        ensures
            res@ == 0,
    {
        Ean13::zero()
    }
}

} // verus!
