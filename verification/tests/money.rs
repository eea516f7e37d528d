use fingest_client::money::{
    format_money, parse_money, require_non_negative, require_same_currency,
    Currency, Decimal, Money,
};

#[test]
fn a_plain_amount_parses_with_the_default_currency() {
    let money = parse_money("12.34", "").unwrap();

    assert_eq!(money.currency.code(), "PLN");
    assert_eq!(money.amount.text(), "12.34");
    assert_eq!(money.amount, Decimal::new(1234, 2));
}

#[test]
fn a_lowercase_code_is_normalised() {
    assert_eq!(parse_money("1", "usd").unwrap().currency.code(), "USD");
}

#[test]
fn a_code_that_is_not_three_letters_is_refused() {
    for code in ["US", "USDD", "US1", "12"] {
        assert!(parse_money("1", code).is_err(), "{code} should not be accepted");
    }
}

#[test]
fn a_non_numeric_amount_is_refused_with_v1s_wording() {
    let err = parse_money("abc", "USD").unwrap_err();

    assert_eq!(err.message(), "The amount is invalid");
}

#[test]
fn an_empty_amount_is_refused() {
    assert!(parse_money("   ", "USD").is_err());
}

#[test]
fn precision_is_not_lost() {
    let money = parse_money("12345678901234.56", "USD").unwrap();

    assert_eq!(money.amount.text(), "12345678901234.56");
}

#[test]
fn a_negative_amount_is_refused_at_input() {
    let money = parse_money("-1.00", "USD").unwrap();

    assert!(require_non_negative(&money).is_err());
    assert!(require_non_negative(&parse_money("0", "USD").unwrap()).is_ok());
}

#[test]
fn spending_in_another_currency_is_refused_before_the_round_trip() {
    let wallet = parse_money("100", "USD").unwrap();
    let expense = parse_money("10", "EUR").unwrap();

    let err = require_same_currency(&wallet, &expense).unwrap_err();

    assert!(err.message().contains("expected USD"));
    assert!(err.message().contains("got EUR"));
}

#[test]
fn matching_currencies_pass() {
    let wallet = parse_money("100", "USD").unwrap();
    let expense = parse_money("10", "usd").unwrap();

    assert!(require_same_currency(&wallet, &expense).is_ok());
}

fn shown(amount: &str) -> String {
    format_money(&parse_money(amount, "EUR").unwrap())
}

#[test]
fn trailing_scale_from_arithmetic_is_not_shown() {
    assert_eq!(shown("2374.5000"), "2374.50 EUR");
}

#[test]
fn a_whole_number_still_shows_minor_units() {
    assert_eq!(shown("2500"), "2500.00 EUR");
}

#[test]
fn a_single_decimal_is_padded() {
    assert_eq!(shown("0.5"), "0.50 EUR");
}

#[test]
fn a_negative_balance_keeps_its_sign() {
    assert_eq!(shown("-12.3"), "-12.30 EUR");
}

#[test]
fn the_currency_is_the_one_supplied() {
    assert_eq!(format_money(&parse_money("1", "usd").unwrap()), "1.00 USD");
}

#[test]
fn a_large_amount_is_not_truncated() {
    assert_eq!(shown("12345678901234.56"), "12345678901234.56 EUR");
}

#[test]
fn a_third_decimal_rounds_rather_than_truncating() {
    assert_eq!(shown("1.006"), "1.01 EUR");
    assert_eq!(shown("1.004"), "1.00 EUR");
}

#[test]
fn an_exact_half_rounds_to_even() {
    assert_eq!(shown("1.005"), "1.00 EUR");
    assert_eq!(shown("1.015"), "1.02 EUR");
}

#[test]
fn a_small_negative_amount_keeps_its_sign() {
    assert_eq!(shown("-0.05"), "-0.05 EUR");
    assert_eq!(shown("-0.004"), "0 EUR");
    assert_eq!(shown("0.00"), "0 EUR");
}

#[test]
fn an_amount_in_exponent_form_is_read_exactly() {
    let money = parse_money("1.5e2", "EUR").unwrap();

    assert_eq!(money.amount.mantissa_text(), "15");
    assert_eq!(money.amount.scale(), -1);
    assert_eq!(format_money(&money), "150.00 EUR");
}

#[test]
fn a_currency_code_is_three_letters_upper_cased() {
    assert_eq!(Currency::new("eur").unwrap().code(), "EUR");
    assert_eq!(Currency::new("E1R"), Err("Invalid currency code: E1R".to_owned()));
    assert_eq!(Currency::default().code(), "PLN");
    assert!(Currency::new("eur").unwrap().same(&Currency::new("EUR").unwrap()));
}

#[test]
fn subtracting_aligns_scales_and_keeps_the_currency() {
    let wallet = parse_money("2500", "EUR").unwrap();
    let spent = parse_money("125.50", "EUR").unwrap();

    let left = wallet.sub(&spent).unwrap();

    assert_eq!(left.amount, Decimal::new(237450, 2));
    assert_eq!(left.amount.text(), "2374.50");
    assert_eq!(format_money(&left), "2374.50 EUR");
    assert!(wallet.sub(&parse_money("1", "USD").unwrap()).is_none());
}

#[test]
fn an_amount_of_any_size_is_held_exactly() {
    let big = "123456789012345678901234567890123456789012.345";
    let money = parse_money(big, "EUR").unwrap();

    assert_eq!(money.amount.text(), big);
    assert_eq!(money.amount.mantissa_text(), "123456789012345678901234567890123456789012345");
    assert_eq!(format_money(&money), "123456789012345678901234567890123456789012.34 EUR");
    let one = parse_money("0.001", "EUR").unwrap();
    let less = money.sub(&one).unwrap();
    assert_eq!(less.amount.text(), "123456789012345678901234567890123456789012.344");
    assert_eq!(parse_money("1e-40", "EUR").unwrap().amount.scale(), 40);
}

#[test]
fn rounding_to_hundredths_keeps_scale_two() {
    let d = parse_money("1.015", "EUR").unwrap().amount.round_cents();

    assert_eq!(d, Decimal::new(102, 2));
    assert_eq!(parse_money("7", "EUR").unwrap().amount.round_cents(), Decimal::new(700, 2));
    assert_eq!(Decimal::new(-5, 3).round_cents(), Decimal::new(0, 2));
    assert!(Decimal::new(-1, 0).is_negative());
    assert!(!Decimal::new(0, 2).is_negative());
}

#[test]
fn the_refusal_wordings_are_the_servers() {
    assert_eq!(parse_money("", "USD").unwrap_err().message(), "An amount is required");
    assert_eq!(parse_money("1", "US").unwrap_err().message(), "Invalid currency code: US");
    let negative = Money { amount: Decimal::new(-1, 0), currency: Currency::pln() };
    assert_eq!(require_non_negative(&negative).unwrap_err().message(), "The amount must not be negative");
}

#[test]
fn unicode_white_space_is_trimmed_like_std() {
    let money = parse_money("\u{3000}12.50\u{a0}", " eur\u{2028}").unwrap();

    assert_eq!(money.amount.text(), "12.50");
    assert_eq!(money.currency.code(), "EUR");
    assert!(parse_money("\u{200b}1", "EUR").is_err());
}
