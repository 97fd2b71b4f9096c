use latency_sim::decimal::to_decimal;
use latency_sim::delay::parse_delay;

#[test]
fn parses_plain_numbers() {
    assert_eq!(parse_delay("0"), Some(0));
    assert_eq!(parse_delay("7"), Some(7));
    assert_eq!(parse_delay("10"), Some(10));
    assert_eq!(parse_delay("500"), Some(500));
    assert_eq!(parse_delay("1000"), Some(1000));
    assert_eq!(parse_delay("2000"), Some(2000));
    assert_eq!(parse_delay("1234567890"), Some(1234567890));
}

#[test]
fn parses_leading_zeros_and_plus() {
    assert_eq!(parse_delay("007"), Some(7));
    assert_eq!(parse_delay("0000"), Some(0));
    assert_eq!(parse_delay("+5"), Some(5));
    assert_eq!(parse_delay("+0"), Some(0));
    assert_eq!(parse_delay("+00012"), Some(12));
}

#[test]
fn parses_up_to_the_largest_u64() {
    assert_eq!(parse_delay("18446744073709551615"), Some(u64::MAX));
    assert_eq!(parse_delay("18446744073709551614"), Some(u64::MAX - 1));
    assert_eq!(parse_delay("00018446744073709551615"), Some(u64::MAX));
    assert_eq!(parse_delay("9999999999999999999"), Some(9_999_999_999_999_999_999));
}

#[test]
fn rejects_numbers_that_do_not_fit() {
    assert_eq!(parse_delay("18446744073709551616"), None);
    assert_eq!(parse_delay("18446744073709551620"), None);
    assert_eq!(parse_delay("20000000000000000000"), None);
    assert_eq!(parse_delay("99999999999999999999"), None);
    assert_eq!(parse_delay("184467440737095516150"), None);
    assert_eq!(parse_delay("+18446744073709551616"), None);
}

#[test]
fn rejects_what_is_no_number() {
    assert_eq!(parse_delay(""), None);
    assert_eq!(parse_delay("+"), None);
    assert_eq!(parse_delay("-"), None);
    assert_eq!(parse_delay("abc"), None);
    assert_eq!(parse_delay("12a"), None);
    assert_eq!(parse_delay("a12"), None);
    assert_eq!(parse_delay("1 2"), None);
    assert_eq!(parse_delay(" 12"), None);
    assert_eq!(parse_delay("12 "), None);
    assert_eq!(parse_delay("1.5"), None);
    assert_eq!(parse_delay("1e3"), None);
    assert_eq!(parse_delay("0x10"), None);
    assert_eq!(parse_delay("++1"), None);
    assert_eq!(parse_delay("1+"), None);
    assert_eq!(parse_delay("1_000"), None);
    assert_eq!(parse_delay("/"), None);
    assert_eq!(parse_delay(":"), None);
}

#[test]
fn rejects_negative_numbers() {
    assert_eq!(parse_delay("-1"), None);
    assert_eq!(parse_delay("-0"), None);
    assert_eq!(parse_delay("-500"), None);
    assert_eq!(parse_delay("+-1"), None);
}

#[test]
fn rejects_text_outside_ascii() {
    assert_eq!(parse_delay("١٢٣"), None);
    assert_eq!(parse_delay("12é"), None);
    assert_eq!(parse_delay("é12"), None);
    assert_eq!(parse_delay("１２"), None);
    assert_eq!(parse_delay("+５"), None);
}

#[test]
fn agrees_with_the_standard_parser() {
    let samples = [
        "", "0", "1", "+1", "-1", "+", "-", "00", "0009", "42", "4 2", "abc", "9a", "+-3",
        "18446744073709551615", "18446744073709551616", "018446744073709551615",
        "1844674407370955161", "184467440737095516160", "٣", "12\n", "\t7", "+007", "3000",
    ];
    for s in samples {
        assert_eq!(parse_delay(s), s.parse::<u64>().ok(), "segment {:?}", s);
    }
}

#[test]
fn every_small_number_reads_back() {
    let mut n: u64 = 0;
    while n < 3000 {
        assert_eq!(parse_delay(to_decimal(n).as_str()), Some(n));
        n += 1;
    }
}

#[test]
fn numbers_near_powers_of_ten_read_back() {
    let mut p: u64 = 1;
    loop {
        for n in [p - 1, p, p + 1] {
            assert_eq!(to_decimal(n), format!("{}", n));
            assert_eq!(parse_delay(to_decimal(n).as_str()), Some(n));
        }
        match p.checked_mul(10) {
            Some(q) => p = q,
            None => break,
        }
    }
    assert_eq!(parse_delay(to_decimal(u64::MAX).as_str()), Some(u64::MAX));
}

#[test]
fn decimal_notation_of_chosen_numbers() {
    assert_eq!(to_decimal(0), "0");
    assert_eq!(to_decimal(9), "9");
    assert_eq!(to_decimal(10), "10");
    assert_eq!(to_decimal(3000), "3000");
    assert_eq!(to_decimal(65535), "65535");
    assert_eq!(to_decimal(1234567890), "1234567890");
    assert_eq!(to_decimal(u64::MAX), "18446744073709551615");
}
