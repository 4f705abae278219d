use std::str::FromStr;

use wiot::gravity::GravityOptions;

const NAMED: [(GravityOptions, &str); 9] = [
    (GravityOptions::Top, "top"),
    (GravityOptions::TopLeft, "top-left"),
    (GravityOptions::TopRight, "top-right"),
    (GravityOptions::Center, "center"),
    (GravityOptions::CenterLeft, "center-left"),
    (GravityOptions::CenterRight, "center-right"),
    (GravityOptions::Bottom, "bottom"),
    (GravityOptions::BottomLeft, "bottom-left"),
    (GravityOptions::BottomRight, "bottom-right"),
];

#[test]
fn test_as_str() {
    assert_eq!(GravityOptions::Top.as_str(), "top");
    assert_eq!(GravityOptions::TopLeft.as_str(), "top-left");
    assert_eq!(GravityOptions::TopRight.as_str(), "top-right");
    assert_eq!(GravityOptions::Center.as_str(), "center");
    assert_eq!(GravityOptions::CenterLeft.as_str(), "center-left");
    assert_eq!(GravityOptions::CenterRight.as_str(), "center-right");
    assert_eq!(GravityOptions::Bottom.as_str(), "bottom");
    assert_eq!(GravityOptions::BottomLeft.as_str(), "bottom-left");
    assert_eq!(GravityOptions::BottomRight.as_str(), "bottom-right");
}

#[test]
fn test_default() {
    assert_eq!(GravityOptions::default(), GravityOptions::TopLeft);
}

#[test]
fn test_display_fmt() {
    for (variant, expected) in NAMED.iter() {
        assert_eq!(variant.to_string(), *expected);
    }
}

#[test]
fn test_from_str_valid() {
    let cases = [
        ("top", GravityOptions::Top),
        ("top-left", GravityOptions::TopLeft),
        ("top-right", GravityOptions::TopRight),
        ("center", GravityOptions::Center),
        ("center-left", GravityOptions::CenterLeft),
        ("center-right", GravityOptions::CenterRight),
        ("bottom", GravityOptions::Bottom),
        ("bottom-left", GravityOptions::BottomLeft),
        ("bottom-right", GravityOptions::BottomRight),
        ("TOP", GravityOptions::Top),
        ("Top-Left", GravityOptions::TopLeft),
        ("CENTER", GravityOptions::Center),
        ("Center-Right", GravityOptions::CenterRight),
        ("BOTTOM", GravityOptions::Bottom),
        ("Bottom-Left", GravityOptions::BottomLeft),
    ];
    for (input, expected) in cases.iter() {
        let parsed = GravityOptions::from_str(input).unwrap();
        assert_eq!(&parsed, expected, "Failed to parse '{}'", input);
    }
}

#[test]
fn test_from_str_invalid() {
    let invalid_cases = [
        "",
        " ",
        "middle",
        "left",
        "right",
        "top_left",
        "bottomright",
        "centerleft",
        "top left",
        "bottom right",
        "centerright",
        "unknown",
        "topleft",
        "center-rights",
        "bottom-",
        "-top",
        "top- right",
        "center- left",
    ];
    for input in invalid_cases.iter() {
        let result = GravityOptions::from_str(input);
        assert!(result.is_err(), "Input '{}' should be invalid", input);
    }
}

#[test]
fn test_gravity_options_display() {
    for (variant, expected_str) in NAMED.iter() {
        assert_eq!(variant.to_string(), *expected_str, "Display for {:?} failed", variant);
    }
}

#[test]
fn test_gravity_options_default() {
    let default = GravityOptions::default();
    assert_eq!(default, GravityOptions::TopLeft, "Default GravityOptions should be TopLeft");
}

#[test]
fn test_gravity_options_clone_and_eq() {
    let a = GravityOptions::TopLeft;
    #[allow(clippy::clone_on_copy)]
    let b = a.clone();
    assert_eq!(a, b, "Cloned GravityOptions should be equal to original");
}

#[test]
fn test_gravity_options_coefficients() {
    let cases = [
        (GravityOptions::Top, (0.5, 0.0)),
        (GravityOptions::TopLeft, (0.0, 0.0)),
        (GravityOptions::TopRight, (1.0, 0.0)),
        (GravityOptions::Center, (0.5, 0.5)),
        (GravityOptions::CenterLeft, (0.0, 0.5)),
        (GravityOptions::CenterRight, (1.0, 0.5)),
        (GravityOptions::Bottom, (0.5, 1.0)),
        (GravityOptions::BottomLeft, (0.0, 1.0)),
        (GravityOptions::BottomRight, (1.0, 1.0)),
    ];
    for (variant, expected) in cases.iter() {
        let (x, y) = variant.as_coef();
        let coeffs = (x.micros as f32 / 1_000_000.0, y.micros as f32 / 1_000_000.0);
        assert!(
            (coeffs.0 - expected.0).abs() < f32::EPSILON && (coeffs.1 - expected.1).abs() < f32::EPSILON,
            "Gravity {:?} coefficients expected {:?}, got {:?}",
            variant,
            expected,
            coeffs
        );
        assert_eq!(variant.abscissa_coef(), x);
        assert_eq!(variant.ordinate_coef(), y);
    }
}

#[test]
fn gravity_names_read_back_in_any_case() {
    for (variant, name) in NAMED.iter() {
        assert_eq!(GravityOptions::parse(name), Ok(*variant));
        assert_eq!(GravityOptions::parse(&variant.to_string()), Ok(*variant));
        assert_eq!(GravityOptions::parse(&name.to_ascii_uppercase()), Ok(*variant));
    }
}

#[test]
fn unknown_gravity_message() {
    let err = GravityOptions::parse("middle").unwrap_err();
    assert_eq!(err.to_string(), "Unknown gravity");
}

#[test]
fn ascii_folding_accepts_what_unicode_folding_accepts() {
    let texts = ["TOP", "\u{212A}", "Top-Left", "\u{130}", "BOTTOM-RIGHT", "ＴＯＰ", "CENTER\u{307}", "Ⅽenter"];
    for t in texts {
        let unicode = match t.to_lowercase().as_str() {
            "top" | "top-left" | "top-right" | "center" | "center-left" | "center-right" | "bottom"
            | "bottom-left" | "bottom-right" => true,
            _ => false,
        };
        assert_eq!(GravityOptions::parse(t).is_ok(), unicode, "{t}");
    }
}
