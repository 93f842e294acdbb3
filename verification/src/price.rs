//! Reading a price out of a text as a page shows it.

use crate::decimal::{
    from_str_exact, is_digit, is_numeral_char, numeral_value, Decimal, DecimalView,
};
use crate::text::push_char;
use vstd::prelude::*;

verus! {

/// Why a text holds no price.
#[derive(Clone, Copy, Debug, PartialEq, Eq, Structural)]
pub enum ParseError {
    /// The text has no character that a price is written with.
    Empty,
    /// What the text keeps is no decimal numeral, or one too long to hold.
    Invalid,
}

/// The characters that a price text keeps: digits and the decimal point,
/// and the minus sign where `signed` is set.
pub open spec fn kept(signed: bool) -> spec_fn(char) -> bool {
    |c: char| is_digit(c) || c == '.' || (signed && c == '-')
}

/// What is left of a displayed price when every character but digits, the
/// point and the minus sign is dropped.
pub open spec fn price_text(raw: Seq<char>) -> Seq<char> {
    raw.filter(kept(true))
}

/// What is left of a displayed price when every character but digits and the
/// point is dropped.
pub open spec fn unsigned_price_text(raw: Seq<char>) -> Seq<char> {
    raw.filter(kept(false))
}

/// The price that a filtered text writes, all of it or nothing.
pub open spec fn price_of(text: Seq<char>) -> Result<DecimalView, ParseError> {
    if text.len() == 0 {
        Err(ParseError::Empty)
    } else {
        match numeral_value(text) {
            Some(value) => Ok(value),
            None => Err(ParseError::Invalid),
        }
    }
}

/// The price that a page shows in `raw`, if it shows one: what its digits and
/// points spell.
pub open spec fn unsigned_price(raw: Seq<char>) -> Option<DecimalView> {
    match price_of(unsigned_price_text(raw)) {
        Ok(value) => Some(value),
        Err(_) => None,
    }
}

/// The result holds the decimal or the error that `expected` asks for.
pub open spec fn gives(res: Result<Decimal, ParseError>, expected: Result<DecimalView, ParseError>) -> bool {
    match res {
        Ok(d) => expected == Ok::<DecimalView, ParseError>(d@),
        Err(e) => expected == Err::<DecimalView, ParseError>(e),
    }
}

/// A filter keeps a text whole if it keeps each of its characters.
proof fn lemma_filter_keeps_all(s: Seq<char>, keep: spec_fn(char) -> bool)
    requires
        forall|i: int| 0 <= i < s.len() ==> keep(#[trigger] s[i]),
    ensures
        s.filter(keep) == s,
    decreases s.len(),
{
    reveal(Seq::filter);
    if s.len() > 0 {
        lemma_filter_keeps_all(s.drop_last(), keep);
        assert(s.drop_last().push(s.last()) =~= s);
    }
}

/// A text of digits and points, with or without a minus sign before them,
/// that spells a numeral parses to exactly the decimal that the numeral
/// writes: nothing of it is dropped, and its value is taken digit for digit.
pub proof fn lemma_numeral_parses_exactly(s: Seq<char>)
    requires
        forall|i: int|
            0 <= i < s.len() ==> is_digit(#[trigger] s[i]) || s[i] == '.' || (i == 0 && s[i] == '-'),
        numeral_value(s) is Some,
    ensures
        price_text(s) == s,
        price_of(price_text(s)) == Ok::<DecimalView, ParseError>(numeral_value(s)->0),
{
    lemma_filter_keeps_all(s, kept(true));
}

/// The characters of `raw` that a price is written with, in their order.
fn retain(raw: &str, signed: bool) -> (res: String)
    ensures
        res@ == raw@.filter(kept(signed)),
{
    broadcast use vstd::string::group_string_axioms;

    let mut out = String::new();
    proof {
        assert(raw@.take(0) =~= Seq::<char>::empty());
        reveal(Seq::filter);
    }
    for c in it: raw.chars()
        invariant
            it.seq() == raw@,
            out@ == raw@.take(it.index()).filter(kept(signed)),
    {
        proof {
            let seen = raw@.take(it.index());
            assert(raw@.take(it.index() + 1) =~= seen.push(c));
            seen.lemma_filter_push(c, kept(signed));
        }
        if ('0' <= c && c <= '9') || c == '.' || (signed && c == '-') {
            push_char(&mut out, c);
        }
    }
    proof {
        assert(raw@.take(raw@.len() as int) =~= raw@);
    }
    out
}

/// The price that a text of digits, points and minus signs writes.
fn parse_kept(text: &str) -> (res: Result<Decimal, ParseError>)
    requires
        forall|i: int| 0 <= i < text@.len() ==> is_numeral_char(#[trigger] text@[i]),
    ensures
        gives(res, price_of(text@)),
{
    if text.is_empty() {
        return Err(ParseError::Empty);
    }
    match from_str_exact(text) {
        Ok(d) => Ok(d),
        Err(_) => Err(ParseError::Invalid),
    }
}

/// Reads a price out of a text that may hold currency symbols, thousands
/// separators, blanks and letters around it. Only digits, the decimal point
/// and the minus sign count; what they spell must be a decimal numeral, which
/// is taken exactly, nothing rounded and nothing guessed.
pub fn parse_price_nonstrict(raw: &str) -> (res: Result<Decimal, ParseError>)
    ensures
        gives(res, price_of(price_text(raw@))),
{
    let text = retain(raw, true);
    proof {
        assert forall|i: int| 0 <= i < text@.len() implies is_numeral_char(#[trigger] text@[i]) by {
            raw@.lemma_filter_pred(kept(true), i);
        }
    }
    parse_kept(text.as_str())
}

/// Reads a price as `parse_price_nonstrict` does, but drops the minus sign
/// too: a price shown on a page is not negative.
pub fn parse_price_unsigned(raw: &str) -> (res: Result<Decimal, ParseError>)
    ensures
        gives(res, price_of(unsigned_price_text(raw@))),
{
    let text = retain(raw, false);
    proof {
        assert forall|i: int| 0 <= i < text@.len() implies is_numeral_char(#[trigger] text@[i]) by {
            raw@.lemma_filter_pred(kept(false), i);
        }
    }
    parse_kept(text.as_str())
}

} // verus!
