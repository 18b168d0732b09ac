use safe_helpers::coins::{coins_or_invalid, parse_coins_amount, Coins, MAX_COINS_NANOS};
use safe_helpers::errors::Error;

fn invalid(text: &str) -> Result<Coins, Error> {
    Err(Error::InvalidAmount(format!("Invalid safecoins amount '{}'", text)))
}

#[test]
fn amount_is_read_in_billionths() {
    assert_eq!(parse_coins_amount("0").unwrap().as_nano(), 0);
    assert_eq!(parse_coins_amount("1").unwrap().as_nano(), 1_000_000_000);
    assert_eq!(parse_coins_amount("1.5").unwrap().as_nano(), 1_500_000_000);
    assert_eq!(parse_coins_amount("0.000000001").unwrap().as_nano(), 1);
    assert_eq!(parse_coins_amount("1.100000001").unwrap().as_nano(), 1_100_000_001);
    assert_eq!(parse_coins_amount("12.").unwrap().as_nano(), 12_000_000_000);
}

#[test]
fn largest_amount_is_read() {
    assert_eq!(parse_coins_amount("4294967295.999999999").unwrap().as_nano(), MAX_COINS_NANOS);
    assert_eq!(parse_coins_amount("4294967296"), invalid("4294967296"));
}

#[test]
fn text_without_amount_is_invalid() {
    assert_eq!(parse_coins_amount("abc"), invalid("abc"));
    assert_eq!(parse_coins_amount(""), invalid(""));
    assert_eq!(parse_coins_amount("1.2.3"), invalid("1.2.3"));
    assert_eq!(parse_coins_amount("-1"), invalid("-1"));
    assert_eq!(parse_coins_amount("0.0000000001"), invalid("0.0000000001"));
    assert_eq!(parse_coins_amount("it's"), invalid("it's"));
}

#[test]
fn amount_beyond_64_bits_is_invalid() {
    assert_eq!(parse_coins_amount("18446744073.8"), invalid("18446744073.8"));
    assert_eq!(parse_coins_amount("18446744073"), invalid("18446744073"));
    assert_eq!(parse_coins_amount("+18446744073.999999999"), invalid("+18446744073.999999999"));
    assert_eq!(parse_coins_amount("18446744072.9"), invalid("18446744072.9"));
    assert_eq!(parse_coins_amount("18446744074"), invalid("18446744074"));
}

#[test]
fn outcome_for_a_given_reading() {
    assert_eq!(coins_or_invalid("2", Some(2_000_000_000)).unwrap().as_nano(), 2_000_000_000);
    assert_eq!(coins_or_invalid("x", None), invalid("x"));
    assert_eq!(coins_or_invalid("big", Some(MAX_COINS_NANOS + 1)), invalid("big"));
    assert_eq!(coins_or_invalid("max", Some(MAX_COINS_NANOS)).unwrap().as_nano(), MAX_COINS_NANOS);
}

#[test]
fn coins_from_billionths() {
    assert_eq!(Coins::from_nano(5).unwrap().as_nano(), 5);
    assert_eq!(Coins::from_nano(MAX_COINS_NANOS).unwrap().as_nano(), MAX_COINS_NANOS);
    assert_eq!(Coins::from_nano(MAX_COINS_NANOS + 1), None);
    assert_eq!(Coins::from_nano(u64::MAX), None);
}
