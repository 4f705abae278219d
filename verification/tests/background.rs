use wiot::cli::BackgroundArgs;
use wiot::color::{BackgroundOptions, Rgba, parse_color};

fn rgba(c: [u8; 4]) -> Rgba {
    Rgba::new(c[0], c[1], c[2], c[3])
}

#[test]
fn returns_white() {
    let opts = BackgroundOptions::default();
    assert_eq!(opts.color, rgba([255, 255, 255, 255]));
}

#[test]
fn creates_with_given_color() {
    let color = rgba([100, 150, 200, 255]);
    let opts = BackgroundOptions::new(color);
    assert_eq!(opts.color, color);
}

#[test]
fn parses_6_digit_with_hash() {
    let opts = BackgroundOptions::from_hex("#FFFFFF").unwrap();
    assert_eq!(opts.color, rgba([255, 255, 255, 255]));
}

#[test]
fn parses_6_digit_without_hash() {
    let opts = BackgroundOptions::from_hex("FFFFFF").unwrap();
    assert_eq!(opts.color, rgba([255, 255, 255, 255]));
}

#[test]
fn parses_3_digit_with_hash() {
    let opts = BackgroundOptions::from_hex("#fff").unwrap();
    assert_eq!(opts.color, rgba([255, 255, 255, 255]));
}

#[test]
fn parses_3_digit_without_hash() {
    let opts = BackgroundOptions::from_hex("fff").unwrap();
    assert_eq!(opts.color, rgba([255, 255, 255, 255]));
}

#[test]
fn parses_uppercase_3_digit() {
    let opts = BackgroundOptions::from_hex("#FFF").unwrap();
    assert_eq!(opts.color, rgba([255, 255, 255, 255]));
}

#[test]
fn parses_mixed_case() {
    let opts = BackgroundOptions::from_hex("#FfFfFf").unwrap();
    assert_eq!(opts.color, rgba([255, 255, 255, 255]));
}

#[test]
fn parses_black() {
    let opts = BackgroundOptions::from_hex("#000000").unwrap();
    assert_eq!(opts.color, rgba([0, 0, 0, 255]));
}

#[test]
fn parses_red() {
    let opts = BackgroundOptions::from_hex("#FF0000").unwrap();
    assert_eq!(opts.color, rgba([255, 0, 0, 255]));
}

#[test]
fn parses_3_digit_shorthand_correctly() {
    // #abc should expand to #aabbcc
    let opts = BackgroundOptions::from_hex("#abc").unwrap();
    assert_eq!(opts.color, rgba([170, 187, 204, 255]));
}

#[test]
fn invalid_hex_characters() {
    assert!(BackgroundOptions::from_hex("#GGGGGG").is_err());
}

#[test]
fn invalid_length_too_short() {
    assert!(BackgroundOptions::from_hex("#FF").is_err());
}

#[test]
fn invalid_length_too_long() {
    assert!(BackgroundOptions::from_hex("#FFFFFFF").is_err());
}

#[test]
fn invalid_4_digit() {
    assert!(BackgroundOptions::from_hex("#FFFF").is_err());
}

#[test]
fn invalid_5_digit() {
    assert!(BackgroundOptions::from_hex("#FFFFF").is_err());
}

#[test]
fn creates_white() {
    let opts = BackgroundOptions::from_rgb(255, 255, 255);
    assert_eq!(opts.color, rgba([255, 255, 255, 255]));
}

#[test]
fn creates_black() {
    let opts = BackgroundOptions::from_rgb(0, 0, 0);
    assert_eq!(opts.color, rgba([0, 0, 0, 255]));
}

#[test]
fn creates_custom_color() {
    let opts = BackgroundOptions::from_rgb(100, 150, 200);
    assert_eq!(opts.color, rgba([100, 150, 200, 255]));
}

#[test]
fn background_options_parses_hex_with_hash() {
    let opts = BackgroundOptions::parse("#FFFFFF").unwrap();
    assert_eq!(opts.color, rgba([255, 255, 255, 255]));
}

#[test]
fn background_options_parses_hex_without_hash() {
    let opts = BackgroundOptions::parse("FFFFFF").unwrap();
    assert_eq!(opts.color, rgba([255, 255, 255, 255]));
}

#[test]
fn parses_rgb_no_spaces() {
    let opts = BackgroundOptions::parse("255,255,255").unwrap();
    assert_eq!(opts.color, rgba([255, 255, 255, 255]));
}

#[test]
fn parses_rgb_with_spaces() {
    let opts = BackgroundOptions::parse("255, 255, 255").unwrap();
    assert_eq!(opts.color, rgba([255, 255, 255, 255]));
}

#[test]
fn parses_rgb_black() {
    let opts = BackgroundOptions::parse("0,0,0").unwrap();
    assert_eq!(opts.color, rgba([0, 0, 0, 255]));
}

#[test]
fn parses_rgb_with_extra_whitespace() {
    let opts = BackgroundOptions::parse("  100 , 150 , 200  ").unwrap();
    assert_eq!(opts.color, rgba([100, 150, 200, 255]));
}

#[test]
fn parses_3_digit_hex() {
    let opts = BackgroundOptions::parse("fff").unwrap();
    assert_eq!(opts.color, rgba([255, 255, 255, 255]));
}

#[test]
fn invalid_rgb_too_few_values() {
    assert!(BackgroundOptions::parse("255,255").is_err());
}

#[test]
fn invalid_rgb_too_many_values() {
    assert!(BackgroundOptions::parse("255,255,255,255").is_err());
}

#[test]
fn invalid_rgb_non_numeric() {
    assert!(BackgroundOptions::parse("255,abc,255").is_err());
}

#[test]
fn invalid_rgb_out_of_range() {
    assert!(BackgroundOptions::parse("256,255,255").is_err());
}

#[test]
fn invalid_rgb_negative() {
    assert!(BackgroundOptions::parse("-1,255,255").is_err());
}
#[test]
fn background_parses_hex_with_hash() {
    assert_eq!(parse_color("#FFFFFF"), Some((255, 255, 255)));
    assert_eq!(parse_color("#000000"), Some((0, 0, 0)));
    assert_eq!(parse_color("#FF5733"), Some((255, 87, 51)));
}

#[test]
fn background_parses_hex_without_hash() {
    assert_eq!(parse_color("FFFFFF"), Some((255, 255, 255)));
    assert_eq!(parse_color("000000"), Some((0, 0, 0)));
    assert_eq!(parse_color("ff5733"), Some((255, 87, 51)));
}

#[test]
fn parses_rgb_format() {
    assert_eq!(parse_color("255,255,255"), Some((255, 255, 255)));
    assert_eq!(parse_color("0,0,0"), Some((0, 0, 0)));
    assert_eq!(parse_color("255, 87, 51"), Some((255, 87, 51)));
}

#[test]
fn returns_none_for_invalid_input() {
    assert_eq!(parse_color("invalid"), None);
    assert_eq!(parse_color("#GGG"), None);
    assert_eq!(parse_color("256,0,0"), None);
    assert_eq!(parse_color(""), None);
    assert_eq!(parse_color("red"), None);
}

#[test]
fn get_returns_options_for_valid_color() {
    let args = BackgroundArgs { background_color: "#FF0000".to_string() };
    let opts = args.get();
    assert!(opts.is_some());
    assert_eq!(opts.unwrap().color, rgba([255, 0, 0, 255]));
}

#[test]
fn get_returns_none_for_invalid_color() {
    let args = BackgroundArgs { background_color: "invalid".to_string() };
    let opts = args.get();
    assert!(opts.is_none());
}

#[test]
fn hash_before_hex_is_optional() {
    for h in ["abc", "ABC", "a1b2c3", "FfFfFf", "12", "xyz", "1234567"] {
        let with_hash = format!("#{}", h);
        let a = BackgroundOptions::parse(h).map(|o| o.color).map_err(|e| e.to_string());
        let b = BackgroundOptions::parse(&with_hash).map(|o| o.color).map_err(|e| e.to_string());
        assert_eq!(a, b, "{}", h);
    }
}

#[test]
fn colour_errors_name_the_fault() {
    assert_eq!(
        BackgroundOptions::from_hex("#GGGGGG").unwrap_err().to_string(),
        "Invalid hex color: GGGGGG"
    );
    assert!(BackgroundOptions::from_hex("#ab").unwrap_err().to_string().contains("ab"));
    assert!(BackgroundOptions::from_hex("#gbc").is_err());
    assert!(BackgroundOptions::parse("1,2").unwrap_err().to_string().contains('2'));
    assert!(BackgroundOptions::parse("1,x,3").is_err());
    assert!(BackgroundOptions::parse("1,2,x").is_err());
}

#[test]
fn decimal_components_may_have_a_plus_sign() {
    assert_eq!(BackgroundOptions::parse("+1,2,3").unwrap().color, rgba([1, 2, 3, 255]));
    assert_eq!(parse_color(" 7 , 8 , 9 "), Some((7, 8, 9)));
}

#[test]
fn non_ascii_hex_text_is_refused_without_panic() {
    assert_eq!(parse_color("#aéaaa"), None);
    assert_eq!(parse_color("aéaaa"), None);
    assert_eq!(parse_color("#+1+2+3"), None);
    assert!(BackgroundOptions::parse("aéaaa").is_err());
    assert_eq!(
        BackgroundOptions::from_hex("#aéaaa").unwrap_err().to_string(),
        "Invalid hex color: aéaaa"
    );
    assert_eq!(
        BackgroundOptions::from_hex("#+1+2+3").unwrap_err().to_string(),
        "Invalid hex color: +1+2+3"
    );
    assert!(BackgroundOptions::parse("1,é,3").is_err());
    assert!(BackgroundOptions::from_hex("#é").is_err());
    let args = BackgroundArgs { background_color: "#aéaaa".to_string() };
    assert!(args.get().is_none());
}

#[test]
fn every_colour_reads_back() {
    for (r, g, b) in [(0u8, 0u8, 0u8), (255, 255, 255), (1, 2, 3), (171, 205, 239), (16, 128, 9)] {
        assert_eq!(parse_color(&format!("#{:02X}{:02X}{:02X}", r, g, b)), Some((r, g, b)));
        assert_eq!(parse_color(&format!("{:02x}{:02x}{:02x}", r, g, b)), Some((r, g, b)));
        assert_eq!(parse_color(&format!("{}, {}, {}", r, g, b)), Some((r, g, b)));
    }
}

#[test]
fn shorthand_is_doubled_digits() {
    for (short, long) in [("#abc", "#aabbcc"), ("#F0a", "#FF00aa"), ("#123", "#112233")] {
        assert_eq!(
            BackgroundOptions::from_hex(short).unwrap().color,
            BackgroundOptions::from_hex(long).unwrap().color
        );
    }
}
