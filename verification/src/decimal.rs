//! Fixed-point decimal numbers and the numerals that write them.

use vstd::prelude::*;

verus! {

/// The most digits that a decimal can hold after its point.
pub const MAX_SCALE: u32 = 28;

/// The largest mantissa of a decimal: 96 bits, all set.
pub const MAX_MANTISSA: i128 = 0xFFFF_FFFF_FFFF_FFFF_FFFF_FFFF;

/// A decimal as a number: `mantissa / 10^scale`.
pub struct DecimalView {
    pub mantissa: int,
    pub scale: nat,
}

/// A fixed-point decimal number: an integer mantissa of at most 96 bits with
/// a sign, and the count of its digits that stand after the decimal point.
#[derive(Clone, Copy, Debug)]
pub struct Decimal {
    mantissa: i128,
    scale: u32,
}

impl View for Decimal {
    type V = DecimalView;

    closed spec fn view(&self) -> DecimalView {
        DecimalView { mantissa: self.mantissa as int, scale: self.scale as nat }
    }
}

impl DecimalView {
    /// The number zero, written without a fraction.
    pub open spec fn zero() -> DecimalView {
        DecimalView { mantissa: 0, scale: 0 }
    }

    /// A mantissa and a scale that a `Decimal` can hold.
    pub open spec fn fits(self) -> bool {
        &&& -MAX_MANTISSA <= self.mantissa <= MAX_MANTISSA
        &&& self.scale <= MAX_SCALE
    }
}

impl Decimal {
    #[verifier::type_invariant]
    spec fn in_range(self) -> bool {
        self@.fits()
    }

    /// The number zero, written without a fraction.
    pub fn zero() -> (res: Decimal)
        ensures
            res@ == DecimalView::zero(),
    {
        Decimal { mantissa: 0, scale: 0 }
    }

    /// The decimal `mantissa / 10^scale`, if a decimal can hold it.
    pub fn new(mantissa: i128, scale: u32) -> (res: Option<Decimal>)
        ensures
            res is Some <==> (DecimalView { mantissa: mantissa as int, scale: scale as nat }).fits(),
            res matches Some(d) ==> d@ == (DecimalView {
                mantissa: mantissa as int,
                scale: scale as nat,
            }),
    {
        if -MAX_MANTISSA <= mantissa && mantissa <= MAX_MANTISSA && scale <= MAX_SCALE {
            Some(Decimal { mantissa, scale })
        } else {
            None
        }
    }

    /// The digits of the number as an integer, with its sign.
    pub fn mantissa(&self) -> (res: i128)
        ensures
            res == self@.mantissa,
            -MAX_MANTISSA <= res <= MAX_MANTISSA,
    {
        proof {
            use_type_invariant(self);
        }
        self.mantissa
    }

    /// How many of the digits stand after the decimal point.
    pub fn scale(&self) -> (res: u32)
        ensures
            res == self@.scale,
            res <= MAX_SCALE,
    {
        proof {
            use_type_invariant(self);
        }
        self.scale
    }

    /// Whether the number is zero, whatever its scale.
    pub fn is_zero(&self) -> (res: bool)
        ensures
            res == (self@.mantissa == 0),
    {
        self.mantissa == 0
    }
}

impl PartialEq for Decimal {
    /// Two decimals are equal when they have the same digits and the same
    /// scale: `1.50` and `1.5` have one value and are two decimals.
    fn eq(&self, other: &Decimal) -> (res: bool) {
        self.mantissa == other.mantissa && self.scale == other.scale
    }
}

impl vstd::std_specs::cmp::PartialEqSpecImpl for Decimal {
    open spec fn obeys_eq_spec() -> bool {
        true
    }

    open spec fn eq_spec(&self, other: &Decimal) -> bool {
        self@ == other@
    }
}

impl Eq for Decimal {

}

/// One of the ten decimal digits.
pub open spec fn is_digit(c: char) -> bool {
    '0' <= c <= '9'
}

/// The number that a decimal digit stands for.
pub open spec fn digit_value(c: char) -> nat {
    (c as int - '0' as int) as nat
}

/// The number that the digits of `s` write, read in order as one run; what is
/// no digit is passed over.
pub open spec fn digits_value(s: Seq<char>) -> nat
    decreases s.len(),
{
    if s.len() == 0 {
        0
    } else if is_digit(s.last()) {
        digits_value(s.drop_last()) * 10 + digit_value(s.last())
    } else {
        digits_value(s.drop_last())
    }
}

/// How many characters of `s` stand after its decimal point; none where it
/// has no point.
pub open spec fn fraction_len(s: Seq<char>) -> nat {
    if s.contains('.') {
        (s.len() - 1 - s.index_of('.')) as nat
    } else {
        0
    }
}

/// A numeral without a sign: digits, at least one, with at most one decimal
/// point among, before or after them.
pub open spec fn is_unsigned_numeral(s: Seq<char>) -> bool {
    &&& forall|i: int| 0 <= i < s.len() ==> is_digit(#[trigger] s[i]) || s[i] == '.'
    &&& forall|i: int, j: int|
        0 <= i < s.len() && 0 <= j < s.len() && #[trigger] s[i] == '.' && #[trigger] s[j] == '.' ==> i == j
    &&& exists|i: int| 0 <= i < s.len() && is_digit(#[trigger] s[i])
}

/// The decimal that a numeral writes. A numeral is an unsigned numeral with or
/// without a minus sign before it; its mantissa is the run of all its digits,
/// its scale the count of those after the point. Its value must fit a
/// `Decimal`. Any other text writes no decimal.
pub open spec fn numeral_value(s: Seq<char>) -> Option<DecimalView> {
    let negative = s.len() > 0 && s[0] == '-';
    let body = if negative { s.subrange(1, s.len() as int) } else { s };
    let magnitude: int = digits_value(body) as int;
    let value = DecimalView {
        mantissa: if negative { -magnitude } else { magnitude },
        scale: fraction_len(body),
    };
    if is_unsigned_numeral(body) && value.fits() {
        Some(value)
    } else {
        None
    }
}

/// Ten to the power `n`.
pub open spec fn pow10(n: nat) -> nat
    decreases n,
{
    if n == 0 {
        1
    } else {
        10 * pow10((n - 1) as nat)
    }
}

/// Every character of `s` is a decimal digit.
pub open spec fn all_digits(s: Seq<char>) -> bool {
    forall|i: int| 0 <= i < s.len() ==> is_digit(#[trigger] s[i])
}

/// A numeral has the value that its places give it: with `n` digits after the
/// point, its mantissa is the whole part times `10^n` plus the fraction's
/// digits, and its scale is `n`.
pub proof fn lemma_place_value(whole: Seq<char>, fraction: Seq<char>)
    requires
        all_digits(whole),
        all_digits(fraction),
    ensures
        digits_value(whole + seq!['.'] + fraction) == digits_value(whole) * pow10(fraction.len())
            + digits_value(fraction),
        fraction_len(whole + seq!['.'] + fraction) == fraction.len(),
    decreases fraction.len(),
{
    let numeral = whole + seq!['.'] + fraction;
    assert(numeral[whole.len() as int] == '.');
    assert(numeral.contains('.'));
    let at: int = numeral.index_of('.');
    assert(at == whole.len()) by {
        if at < whole.len() {
            assert(numeral[at] == whole[at]);
        } else if at > whole.len() {
            assert(numeral[at] == fraction[at - whole.len() - 1]);
        }
    }
    if fraction.len() == 0 {
        assert(numeral.drop_last() =~= whole);
        assert(numeral.last() == '.');
        assert(digits_value(numeral) == digits_value(whole));
        assert(pow10(0) == 1);
    } else {
        let shorter = fraction.drop_last();
        lemma_place_value(whole, shorter);
        assert(numeral.drop_last() =~= whole + seq!['.'] + shorter);
        assert(numeral.last() == fraction.last());
        let high: nat = digits_value(whole);
        let low: nat = digits_value(shorter);
        let unit: nat = pow10(shorter.len());
        let digit: nat = digit_value(fraction.last());
        assert(digits_value(numeral) == (high * unit + low) * 10 + digit);
        assert(digits_value(fraction) == low * 10 + digit);
        assert(pow10(fraction.len()) == 10 * unit);
        assert((high * unit + low) * 10 + digit == high * (10 * unit) + (low * 10 + digit))
            by (nonlinear_arith);
    }
}

/// A character that a price text keeps: a digit, the point or the minus sign.
pub open spec fn is_numeral_char(c: char) -> bool {
    is_digit(c) || c == '.' || c == '-'
}

/// `rust_decimal::Error`, the error of the decimal crate. Nothing is read out
/// of it.
#[verifier::external_type_specification]
#[verifier::external_body]
pub struct ExDecimalError(rust_decimal::Error);

/// `rust_decimal::Decimal::from_str_exact`, on a text of digits, points and
/// minus signs. It accepts a numeral, with or without a leading minus sign,
/// whose digits fit 96 bits and of which at most 28 stand after the point, and
/// gives the decimal with exactly those digits and that scale, nothing
/// rounded; what comes back here holds its `mantissa()` and its `scale()`. It
/// fails on every other such text.
#[verifier::external_body]
pub(crate) fn from_str_exact(text: &str) -> (res: Result<Decimal, rust_decimal::Error>)
    requires
        forall|i: int| 0 <= i < text@.len() ==> is_numeral_char(#[trigger] text@[i]),
    ensures
        match res {
            Ok(d) => numeral_value(text@) == Some(d@),
            Err(_) => numeral_value(text@) is None,
        },
{
    match rust_decimal::Decimal::from_str_exact(text) {
        Ok(d) => Ok(Decimal { mantissa: d.mantissa(), scale: d.scale() }),
        Err(e) => Err(e),
    }
}

} // verus!
