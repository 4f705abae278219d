use std::str::FromStr;

use wiot::coord::Coord;
use wiot::decimal::Decimal;

fn pct(v: f64) -> Coord {
    Coord::Percent(Decimal::from_micros((v * 1_000_000.0).round() as i64))
}

fn percent_f32(c: Coord) -> Option<f32> {
    match c {
        Coord::Percent(p) => Some(p.micros as f32 / 1_000_000.0),
        Coord::Px(_) => None,
    }
}

fn valid_cases() -> Vec<(&'static str, Coord)> {
    vec![
        // Pixels, integer
        ("0", Coord::Px(0)),
        ("42", Coord::Px(42)),
        ("-17", Coord::Px(-17)),
        ("1234", Coord::Px(1234)),
        ("-999", Coord::Px(-999)),
        // Pixels, with px suffix
        ("0px", Coord::Px(0)),
        ("42px", Coord::Px(42)),
        ("-17px", Coord::Px(-17)),
        ("1234px", Coord::Px(1234)),
        ("-999px", Coord::Px(-999)),
        // Percent, integer
        ("0%", pct(0.0)),
        ("100%", pct(100.0)),
        ("50%", pct(50.0)),
        ("-25%", pct(-25.0)),
        ("200%", pct(200.0)),
        // Percent, float
        ("12.5%", pct(12.5)),
        ("-12.5%", pct(-12.5)),
        ("99.99%", pct(99.99)),
        ("-99.99%", pct(-99.99)),
        // Spaces
        (" 42 ", Coord::Px(42)),
        (" 42px ", Coord::Px(42)),
        (" 42% ", pct(42.0)),
        ("\t-17px\n", Coord::Px(-17)),
        (" 12.5% ", pct(12.5)),
    ]
}

fn invalid_cases() -> Vec<&'static str> {
    vec![
        "",          // empty
        " ",         // whitespace only
        "abc",       // not a number
        "42percent", // invalid suffix
        "42 px",     // space in suffix
        "42%%",      // double percent
        "42px%",     // both px and percent
        "42.5.5px",  // invalid float
        "--42px",    // double negative
        "12,5%",     // comma instead of dot
        "px",        // only suffix
        "%",         // only percent
        "100p",      // unknown suffix
        "42pxpx",    // double px
        "42.0.0%",   // invalid float
        "1e2px",     // scientific notation not supported for px
        "1e2%",      // scientific notation not supported for percent
    ]
}

#[test]
fn test_valid_coord_parsing() {
    for (input, expected) in valid_cases() {
        let parsed = Coord::parse(input).unwrap();
        assert_eq!(parsed, expected, "Failed to parse '{}'", input);

        // Also test FromStr
        let parsed2: Coord = input.parse().unwrap();
        assert_eq!(parsed2, expected, "FromStr failed for '{}'", input);
    }
}

#[test]
fn test_invalid_coord_parsing() {
    for input in invalid_cases() {
        let parsed = Coord::parse(input);
        assert!(parsed.is_err(), "Should not parse '{}'", input);

        let parsed2: Result<Coord, _> = input.parse();
        assert!(parsed2.is_err(), "FromStr should not parse '{}'", input);
    }
}

#[test]
fn fuzz_valid_percentages() {
    let values: [f32; 13] = [
        0.0, 1.0, -1.0, 0.5, -0.5, 2.0, -2.0, 99.999, -99.999, 100.0, -100.0, 12.34, -12.34,
    ];
    for v in values {
        let s = format!("{}%", v);
        let parsed = Coord::parse(&s).unwrap();
        assert!(
            (match percent_f32(parsed) {
                Some(p) => (p - v).abs() < 1e-6,
                None => false,
            }),
            "Failed to parse '{}', got {:?}",
            s,
            parsed
        );
    }
}

#[test]
fn fuzz_valid_pixels() {
    let values = [0, 1, -1, 100, -100, 99999, -99999, i32::MAX, i32::MIN + 1];
    for v in values {
        let s = v.to_string();
        let expected = Coord::Px(v);
        let parsed = Coord::parse(&s).unwrap();
        assert_eq!(parsed, expected, "Failed to parse '{}'", s);

        let s_px = format!("{}px", v);
        let parsed_px = Coord::parse(&s_px).unwrap();
        assert_eq!(parsed_px, expected, "Failed to parse '{}'", s_px);
    }
}

#[test]
fn fuzz_invalid_inputs() {
    let cases = [
        "foo%", "barpx", "42p", "42x", "42px%", "42%px", "42..5px", "42..5%", "++42px", "--42%",
        "42-42px", "1_000px", "1_000%", "NaN%", "infpx", "-inf%", "42.42.42px", "42.42.42%",
    ];
    for input in cases {
        assert!(Coord::parse(input).is_err(), "Should not parse '{}'", input);
    }
}

#[test]
fn test_parse_opt() {
    assert_eq!(Coord::parse_opt(Some("42")).unwrap(), Some(Coord::Px(42)));
    assert_eq!(Coord::parse_opt(Some("50%")).unwrap(), Some(pct(50.0)));
    assert_eq!(Coord::parse_opt(None).unwrap(), None);
    assert!(Coord::parse_opt(Some("notanumber")).is_err());
}

#[test]
fn test_new() {
    assert_eq!(Coord::new("123").unwrap(), Coord::Px(123));
    assert_eq!(Coord::new("-99px").unwrap(), Coord::Px(-99));
    assert_eq!(Coord::new("25%").unwrap(), pct(25.0));
    assert!(Coord::new("badinput").is_err());
}

#[test]
fn test_from_str() {
    assert_eq!(Coord::from_str("10px").unwrap(), Coord::Px(10));
    assert_eq!(Coord::from_str("10%").unwrap(), pct(10.0));
    assert_eq!(Coord::from_str("-5").unwrap(), Coord::Px(-5));
    assert!(Coord::from_str("invalid").is_err());
}

#[test]
fn coord_errors_say_why() {
    assert_eq!(Coord::parse("1e2px").unwrap_err().to_string(), "Scientific notation not allowed");
    assert_eq!(Coord::parse("1E2%").unwrap_err().to_string(), "Scientific notation not allowed");
    assert_eq!(Coord::parse("inf%").unwrap_err().to_string(), "Should be a finite number");
    assert_eq!(Coord::parse("1000000000000000000000000000000000000000%").unwrap_err().to_string(), "Should be a finite number");
    assert_eq!(Coord::parse("4.2.1%").unwrap_err().to_string(), "invalid float literal");
    assert_eq!(Coord::parse("abc").unwrap_err().to_string(), "invalid digit found in string");
    assert_eq!(Coord::parse("2147483648").unwrap_err().to_string(), "number too large to fit in target type");
    assert_eq!(Coord::parse("99999999999x").unwrap_err().to_string(), "number too large to fit in target type");
    assert_eq!(Coord::parse("-2147483649px").unwrap_err().to_string(), "number too small to fit in target type");
    assert_eq!(Coord::parse("").unwrap_err().to_string(), "cannot parse integer from empty string");
    assert_eq!(Coord::parse(" px ").unwrap_err().to_string(), "cannot parse integer from empty string");
    assert_eq!(Coord::parse("%").unwrap_err().to_string(), "cannot parse float from empty string");
    assert_eq!(Coord::parse("-").unwrap_err().to_string(), "invalid digit found in string");
    assert_eq!(Coord::parse("12x4").unwrap_err().to_string(), "invalid digit found in string");
    assert_eq!(Coord::parse("-2147483648").unwrap(), Coord::Px(i32::MIN));
}

#[test]
fn percentages_keep_six_decimals() {
    assert_eq!(Coord::parse(".5%").unwrap(), pct(0.5));
    assert_eq!(Coord::parse("5.%").unwrap(), pct(5.0));
    assert_eq!(Coord::parse("+7.25%").unwrap(), pct(7.25));
    assert_eq!(Coord::parse("0.1234567%").unwrap(), Coord::Percent(Decimal::from_micros(123456)));
}

#[test]
fn int_errors_match_std() {
    for text in ["", "-", "+", "12x4", "99999999999x", "-99999999999", "2147483648", "-2147483649", "1_0", "٣"] {
        let std_message = text.parse::<i32>().unwrap_err().to_string();
        let ours = Coord::parse(&format!("{}px", text)).unwrap_err().to_string();
        assert_eq!(ours, std_message, "{text:?}");
    }
    for text in ["", "x", "1.2.3", "--1"] {
        let std_message = text.parse::<f32>().unwrap_err().to_string();
        let ours = Coord::parse(&format!("{}%", text)).unwrap_err().to_string();
        assert_eq!(ours, std_message, "{text:?}");
    }
}
