use gdy_model::decimal::{is_real_literal_str, Decimal};
use gdy_model::text::{decimal_string, pad_left_string, parse_unsigned_str};

#[test]
fn decimal_string_writes_digits() {
    assert_eq!(decimal_string(0), "0");
    assert_eq!(decimal_string(7), "7");
    assert_eq!(decimal_string(10), "10");
    assert_eq!(decimal_string(550), "550");
    assert_eq!(decimal_string(u64::MAX), "18446744073709551615");
}

#[test]
fn pad_left_aligns_right() {
    assert_eq!(pad_left_string("C", 3), "  C");
    assert_eq!(pad_left_string("Sc", 3), " Sc");
    assert_eq!(pad_left_string("abcd", 3), "abcd");
    assert_eq!(pad_left_string("", 2), "  ");
    assert_eq!(pad_left_string("x", 0), "x");
    assert_eq!(pad_left_string("1.5", 8), format!("{:>8}", "1.5"));
}

#[test]
fn parse_unsigned_reads_what_std_reads() {
    let samples = [
        "0", "6", "006", "255", "256", "+7", "+", "", "-1", "1a", " 1", "4294967295",
        "4294967296", "99999999999999999999", "1.0", "٣",
    ];
    for s in samples {
        assert_eq!(parse_unsigned_str(s, 255), s.parse::<u8>().ok().map(u64::from), "u8 {s:?}");
        assert_eq!(
            parse_unsigned_str(s, 0xffff_ffff),
            s.parse::<u32>().ok().map(u64::from),
            "u32 {s:?}"
        );
    }
}

#[test]
fn real_literals_are_what_std_parses_as_finite() {
    let accepted = [
        "0", "12", "-9.465765010246", "16.39518593025", "1.", ".5", "-.5", "+3", "2.5e-3",
        "1e5", "1E5", "1.e5", "9.999213039981", "1e+5", "00.10",
    ];
    for s in accepted {
        assert!(is_real_literal_str(s), "{s:?}");
        assert!(s.parse::<f64>().is_ok(), "{s:?}");
    }
    let refused = [
        "", "-", "+", ".", "e5", "1e", "1e-", "-.", "1.2.3", "1 2", "--1", "1e5.0", "abc", "1-2",
        ".e5", "e", "1ee5",
    ];
    for s in refused {
        assert!(!is_real_literal_str(s), "{s:?}");
        assert!(s.parse::<f64>().is_err(), "{s:?}");
    }
    // Not finite numbers are no real literals, though std reads them.
    for s in ["inf", "-inf", "NaN", "infinity"] {
        assert!(!is_real_literal_str(s), "{s:?}");
    }
}

#[test]
fn decimal_keeps_its_text() {
    let d = Decimal::parse("-9.465765010246").unwrap();
    assert_eq!(d.as_str(), "-9.465765010246");
    assert_eq!(d.clone().as_str(), "-9.465765010246");
    assert!(Decimal::parse("1.2.3").is_none());
}

#[test]
fn has_places_counts_digits_behind_the_point() {
    let d = Decimal::parse("16.395185930250000382").unwrap();
    assert!(d.has_places(18));
    assert!(!d.has_places(17));
    assert!(!d.has_places(0));
    let whole = Decimal::parse("-12").unwrap();
    assert!(whole.has_places(0));
    assert!(!whole.has_places(1));
    assert!(Decimal::parse("0.5000000000000000").unwrap().has_places(16));
    assert!(!Decimal::parse("5e-1").unwrap().has_places(1));
    assert!(!Decimal::parse(".5").unwrap().has_places(1));
    assert!(!Decimal::parse("+0.5").unwrap().has_places(1));
    let x = 2.5f64;
    assert!(Decimal::parse(&format!("{:.16}", x)).unwrap().has_places(16));
    assert!(Decimal::parse(&format!("{:.18}", -x)).unwrap().has_places(18));
}
