use vendor_scraper::{parse_price_nonstrict, parse_price_unsigned, Decimal, ParseError};

fn dec(mantissa: i128, scale: u32) -> Decimal {
    Decimal::new(mantissa, scale).unwrap()
}

/// What the decimal crate itself makes of a numeral, as mantissa and scale.
fn outside(numeral: &str) -> Option<(i128, u32)> {
    rust_decimal::Decimal::from_str_exact(numeral)
        .ok()
        .map(|d| (d.mantissa(), d.scale()))
}

fn parts(raw: &str) -> Option<(i128, u32)> {
    parse_price_nonstrict(raw).ok().map(|d| (d.mantissa(), d.scale()))
}

#[test]
fn currency_symbol_and_separator_are_dropped() {
    assert_eq!(parse_price_nonstrict("$1,234.56"), Ok(dec(123456, 2)));
}

#[test]
fn text_without_digits_is_empty() {
    assert_eq!(parse_price_nonstrict("N/A"), Err(ParseError::Empty));
}

#[test]
fn empty_text_is_empty() {
    assert_eq!(parse_price_nonstrict(""), Err(ParseError::Empty));
}

#[test]
fn two_decimal_points_are_invalid() {
    assert_eq!(parse_price_nonstrict("12.34.56"), Err(ParseError::Invalid));
}

#[test]
fn trailing_currency_code_is_dropped() {
    assert_eq!(parse_price_nonstrict("$1,234.56 USD"), Ok(dec(123456, 2)));
}

#[test]
fn leading_blanks_are_dropped() {
    assert_eq!(parse_price_nonstrict("  42.00"), Ok(dec(4200, 2)));
}

#[test]
fn plain_numerals_parse_to_their_digits_and_scale() {
    assert_eq!(parse_price_nonstrict("1234.56"), Ok(dec(123456, 2)));
    assert_eq!(parse_price_nonstrict("42"), Ok(dec(42, 0)));
    assert_eq!(parse_price_nonstrict("0"), Ok(dec(0, 0)));
    assert_eq!(parse_price_nonstrict("0.00"), Ok(dec(0, 2)));
    assert_eq!(parse_price_nonstrict("-0.5"), Ok(dec(-5, 1)));
    assert_eq!(parse_price_nonstrict("-17"), Ok(dec(-17, 0)));
    assert_eq!(parse_price_nonstrict("00012.50"), Ok(dec(1250, 2)));
}

#[test]
fn point_may_lead_or_trail() {
    assert_eq!(parse_price_nonstrict(".5"), Ok(dec(5, 1)));
    assert_eq!(parse_price_nonstrict("5."), Ok(dec(5, 0)));
    assert_eq!(parse_price_nonstrict("-.5"), Ok(dec(-5, 1)));
}

#[test]
fn minus_zero_is_zero() {
    assert_eq!(parse_price_nonstrict("-0"), Ok(dec(0, 0)));
    assert_eq!(parse_price_nonstrict("-0.00"), Ok(dec(0, 2)));
}

#[test]
fn lone_sign_or_point_is_invalid() {
    assert_eq!(parse_price_nonstrict("-"), Err(ParseError::Invalid));
    assert_eq!(parse_price_nonstrict("."), Err(ParseError::Invalid));
    assert_eq!(parse_price_nonstrict("-."), Err(ParseError::Invalid));
}

#[test]
fn minus_sign_must_lead() {
    assert_eq!(parse_price_nonstrict("5-"), Err(ParseError::Invalid));
    assert_eq!(parse_price_nonstrict("1-2"), Err(ParseError::Invalid));
    assert_eq!(parse_price_nonstrict("--5"), Err(ParseError::Invalid));
    assert_eq!(parse_price_nonstrict("10 - 20"), Err(ParseError::Invalid));
}

#[test]
fn characters_around_the_sign_do_not_hide_it() {
    assert_eq!(parse_price_nonstrict("USD -12.30"), Ok(dec(-1230, 2)));
    assert_eq!(parse_price_nonstrict("pre-order 12.30"), Ok(dec(-1230, 2)));
}

#[test]
fn no_rounding_and_no_exponent() {
    assert_eq!(parse_price_nonstrict("1e5"), Ok(dec(15, 0)));
    assert_eq!(parse_price_nonstrict("0.125"), Ok(dec(125, 3)));
}

#[test]
fn unsigned_drops_the_minus_sign() {
    assert_eq!(parse_price_unsigned("-5.00"), Ok(dec(500, 2)));
    assert_eq!(parse_price_nonstrict("-5.00"), Ok(dec(-500, 2)));
    assert_eq!(parse_price_unsigned("1-2"), Ok(dec(12, 0)));
    assert_eq!(parse_price_unsigned("-"), Err(ParseError::Empty));
    assert_eq!(parse_price_unsigned("$1,234.56"), Ok(dec(123456, 2)));
    assert_eq!(parse_price_unsigned("1.2.3"), Err(ParseError::Invalid));
}

#[test]
fn largest_mantissa_fits_and_the_next_does_not() {
    assert_eq!(
        parse_price_nonstrict("79228162514264337593543950335"),
        Ok(dec(79228162514264337593543950335, 0))
    );
    assert_eq!(
        parse_price_nonstrict("-79228162514264337593543950335"),
        Ok(dec(-79228162514264337593543950335, 0))
    );
    assert_eq!(
        parse_price_nonstrict("79228162514264337593543950336"),
        Err(ParseError::Invalid)
    );
    assert_eq!(
        parse_price_nonstrict("7.9228162514264337593543950335"),
        Ok(dec(79228162514264337593543950335, 28))
    );
    assert_eq!(
        parse_price_nonstrict("7.9228162514264337593543950336"),
        Err(ParseError::Invalid)
    );
    assert_eq!(
        parse_price_nonstrict("792281625142643375935439503350"),
        Err(ParseError::Invalid)
    );
}

#[test]
fn twenty_eight_places_fit_and_one_more_does_not() {
    assert_eq!(
        parse_price_nonstrict("0.0000000000000000000000000001"),
        Ok(dec(1, 28))
    );
    assert_eq!(
        parse_price_nonstrict("0.00000000000000000000000000001"),
        Err(ParseError::Invalid)
    );
    assert_eq!(
        parse_price_nonstrict("0.00000000000000000000000000000"),
        Err(ParseError::Invalid)
    );
    assert_eq!(
        parse_price_nonstrict("1.0000000000000000000000000000"),
        Ok(dec(10000000000000000000000000000, 28))
    );
}

#[test]
fn leading_zeros_do_not_count_against_the_mantissa() {
    assert_eq!(
        parse_price_nonstrict("000000000000000000000000000000000000000012.5"),
        Ok(dec(125, 1))
    );
}

#[test]
fn long_numerals_keep_every_digit() {
    assert_eq!(
        parse_price_nonstrict("12345678901234567.89"),
        Ok(dec(1234567890123456789, 2))
    );
    assert_eq!(
        parse_price_nonstrict("1234567890123456789012.345678"),
        Ok(dec(1234567890123456789012345678, 6))
    );
    assert_eq!(
        parse_price_nonstrict("18446744073709551615"),
        Ok(dec(18446744073709551615, 0))
    );
    assert_eq!(
        parse_price_nonstrict("18446744073709551616.5"),
        Ok(dec(184467440737095516165, 1))
    );
}

#[test]
fn numerals_agree_with_the_decimal_crate() {
    let numerals = [
        "0",
        "1",
        "-1",
        "1234.56",
        "-1234.56",
        ".5",
        "5.",
        "-.5",
        "-",
        ".",
        "",
        "1.2.3",
        "1..2",
        "..",
        "-5-",
        "--",
        "00.100",
        "99999999999999999",
        "999999999999999999",
        "9999999999999999999",
        "1844674407370955161",
        "18446744073709551615",
        "18446744073709551616",
        "1844674407370955135.9",
        "79228162514264337593543950335",
        "79228162514264337593543950336",
        "-79228162514264337593543950335",
        "-79228162514264337593543950336",
        "7922816251426433759354395033.5",
        "7922816251426433759354395033.6",
        "0.1234567890123456789012345678",
        "0.12345678901234567890123456789",
        "123456789012345678.1234567890",
        "1.0000000000000000000000000000",
        "10.0000000000000000000000000000",
        "79228162514264337593543950335.",
        ".79228162514264337593543950335",
        ".7922816251426433759354395033",
        "0.0000000000000000000000000000",
        "-0.0000000000000000000000000000",
        "000000000000000000000000000000",
        "0000000000000000000000000000.00000000000000000000000000001",
    ];
    for numeral in numerals {
        assert_eq!(parts(numeral), outside(numeral), "numeral {:?}", numeral);
    }
}

/// The decimal that a numeral writes, worked out by hand: an optional minus
/// sign, then digits with at most one point and at least one digit; the
/// mantissa is the run of the digits, the scale the count of those after the
/// point; 96 bits and 28 places at most.
fn by_hand(numeral: &str) -> Option<(i128, u32)> {
    let (negative, body) = match numeral.strip_prefix('-') {
        Some(rest) => (true, rest),
        None => (false, numeral),
    };
    let mut magnitude: i128 = 0;
    let mut digits: u32 = 0;
    let mut scale: Option<u32> = None;
    for c in body.chars() {
        match c {
            '0'..='9' => {
                magnitude = magnitude * 10 + (c as i128 - '0' as i128);
                if magnitude > (1i128 << 96) - 1 {
                    return None;
                }
                digits += 1;
                scale = scale.map(|places| places + 1);
            }
            '.' if scale.is_none() => scale = Some(0),
            _ => return None,
        }
    }
    let scale = scale.unwrap_or(0);
    if digits == 0 || scale > 28 {
        return None;
    }
    Some((if negative { -magnitude } else { magnitude }, scale))
}

/// Every text over `alphabet` of at most `longest` characters.
fn all_texts(alphabet: &[char], longest: usize) -> Vec<String> {
    let mut texts = vec![String::new()];
    let mut from: usize = 0;
    for _ in 0..longest {
        let upto = texts.len();
        for i in from..upto {
            for c in alphabet {
                let mut longer = texts[i].clone();
                longer.push(*c);
                texts.push(longer);
            }
        }
        from = upto;
    }
    texts
}

#[test]
fn short_texts_parse_as_worked_out_by_hand() {
    for text in all_texts(&['0', '7', '.', '-'], 6) {
        assert_eq!(parts(&text), by_hand(&text), "text {:?}", text);
        assert_eq!(outside(&text), by_hand(&text), "text {:?}", text);
    }
}

#[test]
fn long_texts_parse_as_worked_out_by_hand() {
    let mut state: u64 = 0x2545_f491_4f6c_dd1d;
    let mut next = move |bound: u64| {
        state ^= state << 13;
        state ^= state >> 7;
        state ^= state << 17;
        state % bound
    };
    let mut accepted: u32 = 0;
    for _ in 0..20000 {
        let mut text = String::new();
        if next(4) == 0 {
            text.push('-');
        }
        let whole = next(32);
        let places = next(32);
        for i in 0..whole {
            let zero = i == 0 && next(3) == 0;
            text.push(if zero { '0' } else { (b'0' + next(10) as u8) as char });
        }
        if next(8) != 0 {
            text.push('.');
        }
        for _ in 0..places {
            text.push((b'0' + next(10) as u8) as char);
        }
        if next(50) == 0 {
            text.push(if next(2) == 0 { '.' } else { '-' });
        }
        let expected = by_hand(&text);
        if expected.is_some() {
            accepted += 1;
        }
        assert_eq!(parts(&text), expected, "text {:?}", text);
    }
    assert!(accepted > 1000);
}

#[test]
fn only_digits_points_and_signs_reach_the_decimal_crate() {
    // The decimal crate reads `+` and `_` in a numeral; the price filter drops
    // both before it sees them.
    assert_eq!(parse_price_nonstrict("+5"), Ok(dec(5, 0)));
    assert_eq!(parse_price_nonstrict("1_000"), Ok(dec(1000, 0)));
    assert_eq!(parse_price_nonstrict("_"), Err(ParseError::Empty));
    assert_eq!(parse_price_nonstrict("+"), Err(ParseError::Empty));
}

#[test]
fn digits_of_other_scripts_are_dropped() {
    assert_eq!(parse_price_nonstrict("\u{0661}\u{0662}"), Err(ParseError::Empty));
    assert_eq!(parse_price_nonstrict("\u{ff11}2"), Ok(dec(2, 0)));
    assert_eq!(parse_price_nonstrict("12\u{20ac}"), Ok(dec(12, 0)));
}
