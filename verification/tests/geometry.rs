use wiot::coord::Coord;
use wiot::crop::{Area, CropOptions, Geometry};
use wiot::decimal::Decimal;
use wiot::gravity::GravityOptions;

fn geo() -> Geometry {
    Geometry::new(200, 100)
}

fn pct(v: f64) -> Coord {
    Coord::Percent(Decimal::from_micros((v * 1_000_000.0).round() as i64))
}

#[test]
fn test_no_crop() {
    let crop = CropOptions {
        width: None,
        height: None,
        offset_x: None,
        offset_y: None,
    };
    let expected = Area {
        x: 0,
        y: 0,
        width: 200,
        height: 100,
    };
    let area = geo().area(&crop, &GravityOptions::Center);
    assert_eq!(area, expected);
}
#[test]
fn test_only_width() {
    let crop = CropOptions {
        width: Some(Coord::Px(50)),
        height: None,
        offset_x: None,
        offset_y: None,
    };
    let expected = Area {
        x: 75,
        y: 0,
        width: 50,
        height: 100,
    };
    let area = geo().area(&crop, &GravityOptions::Center);
    assert_eq!(area, expected);
}
#[test]
fn test_only_height() {
    let crop = CropOptions {
        width: None,
        height: Some(Coord::Px(40)),
        offset_x: None,
        offset_y: None,
    };
    let expected = Area {
        x: 0,
        y: 30,
        width: 200,
        height: 40,
    };
    let area = geo().area(&crop, &GravityOptions::Center);
    assert_eq!(area, expected);
}
#[test]
fn test_width_height_gravity_top_left() {
    let crop = CropOptions {
        width: Some(Coord::Px(50)),
        height: Some(Coord::Px(50)),
        offset_x: None,
        offset_y: None,
    };
    let expected = Area {
        x: 0,
        y: 0,
        width: 50,
        height: 50,
    };
    let area = geo().area(&crop, &GravityOptions::TopLeft);
    assert_eq!(area, expected);
}
#[test]
fn test_width_height_gravity_center() {
    let crop = CropOptions {
        width: Some(Coord::Px(50)),
        height: Some(Coord::Px(50)),
        offset_x: None,
        offset_y: None,
    };
    let expected = Area {
        x: 75,
        y: 25,
        width: 50,
        height: 50,
    };
    let area = geo().area(&crop, &GravityOptions::Center);
    assert_eq!(area, expected);
}
#[test]
fn test_width_height_gravity_bottom_right() {
    let crop = CropOptions {
        width: Some(Coord::Px(50)),
        height: Some(Coord::Px(50)),
        offset_x: None,
        offset_y: None,
    };
    let expected = Area {
        x: 150,
        y: 50,
        width: 50,
        height: 50,
    };
    let area = geo().area(&crop, &GravityOptions::BottomRight);
    assert_eq!(area, expected);
}
#[test]
fn test_only_offsets() {
    let crop = CropOptions {
        width: None,
        height: None,
        offset_x: Some(Coord::Px(10)),
        offset_y: Some(Coord::Px(20)),
    };
    let expected = Area {
        x: 10,
        y: 20,
        width: 190,
        height: 80,
    };
    let area = geo().area(&crop, &GravityOptions::Center);
    assert_eq!(area, expected);
}
#[test]
fn test_only_negative_offsets() {
    let crop = CropOptions {
        width: None,
        height: None,
        offset_x: Some(Coord::Px(-10)),
        offset_y: Some(Coord::Px(-20)),
    };
    let expected = Area {
        x: 0,
        y: 0,
        width: 190,
        height: 80,
    };
    let area = geo().area(&crop, &GravityOptions::Center);
    assert_eq!(area, expected);
}
#[test]
fn test_width_height_negative_offsets() {
    let crop = CropOptions {
        width: Some(Coord::Px(50)),
        height: Some(Coord::Px(50)),
        offset_x: Some(Coord::Px(-10)),
        offset_y: Some(Coord::Px(-20)),
    };
    let expected = Area {
        x: 140,
        y: 30,
        width: 50,
        height: 50,
    };
    let area = geo().area(&crop, &GravityOptions::Center);
    assert_eq!(area, expected);
}
#[test]
fn test_percent_width_height_gravity_center() {
    let crop = CropOptions {
        width: Some(pct(50.0)),
        height: Some(pct(20.0)),
        offset_x: None,
        offset_y: None,
    };
    let expected = Area {
        x: 50,
        y: 40,
        width: 100,
        height: 20,
    };
    let area = geo().area(&crop, &GravityOptions::Center);
    assert_eq!(area, expected);
}
#[test]
fn test_percent_offsets_only() {
    let crop = CropOptions {
        width: None,
        height: None,
        offset_x: Some(pct(10.0)),
        offset_y: Some(pct(20.0)),
    };
    let expected = Area {
        x: 20,
        y: 20,
        width: 180,
        height: 80,
    };
    let area = geo().area(&crop, &GravityOptions::Center);
    assert_eq!(area, expected);
}
#[test]
fn test_percent_width_height_offset_y_pixel_offset_x() {
    let crop = CropOptions {
        width: Some(pct(20.0)),
        height: Some(pct(40.0)),
        offset_x: Some(Coord::Px(10)),
        offset_y: Some(pct(10.0)),
    };
    let expected = Area {
        x: 10,
        y: 10,
        width: 40,
        height: 40,
    };
    let area = geo().area(&crop, &GravityOptions::Center);
    assert_eq!(area, expected);
}
#[test]
fn test_percent_negative_offsets_percent_height() {
    let crop = CropOptions {
        width: None,
        height: Some(pct(30.0)),
        offset_x: Some(pct(-10.0)),
        offset_y: None,
    };
    let expected = Area {
        x: 0,
        y: 0,
        width: 180,
        height: 30,
    };
    let area = geo().area(&crop, &GravityOptions::TopLeft);
    assert_eq!(area, expected);
}
#[test]
fn test_width_height_oversized() {
    let crop = CropOptions {
        width: Some(Coord::Px(300)),
        height: Some(Coord::Px(150)),
        offset_x: None,
        offset_y: None,
    };
    let expected = Area {
        x: 0,
        y: 0,
        width: 200,
        height: 100,
    };
    let area = geo().area(&crop, &GravityOptions::TopLeft);
    assert_eq!(area, expected);
}
#[test]
fn test_no_dimensions_gravity_center() {
    let crop = CropOptions {
        width: Some(Coord::Px(0)),
        height: Some(Coord::Px(0)),
        offset_x: None,
        offset_y: None,
    };
    let expected = Area {
        x: 100,
        y: 50,
        width: 0,
        height: 0,
    };
    let area = geo().area(&crop, &GravityOptions::Center);
    assert_eq!(area, expected);
}
#[test]
fn test_width_offset_x_only() {
    let crop = CropOptions {
        width: Some(Coord::Px(50)),
        height: None,
        offset_x: Some(Coord::Px(10)),
        offset_y: None,
    };
    let expected = Area {
        x: 10,
        y: 0,
        width: 50,
        height: 100,
    };
    let area = geo().area(&crop, &GravityOptions::Center);
    assert_eq!(area, expected);
}
#[test]
fn test_height_offset_y_only() {
    let crop = CropOptions {
        width: None,
        height: Some(Coord::Px(30)),
        offset_x: None,
        offset_y: Some(Coord::Px(20)),
    };
    let expected = Area {
        x: 0,
        y: 20,
        width: 200,
        height: 30,
    };
    let area = geo().area(&crop, &GravityOptions::Center);
    assert_eq!(area, expected);
}

#[test]
fn crop_window_stays_within_image() {
    let g = Geometry::new(37, 23);
    let coords = [
        None,
        Some(Coord::Px(0)),
        Some(Coord::Px(5)),
        Some(Coord::Px(-5)),
        Some(Coord::Px(100)),
        Some(Coord::Px(-100)),
        Some(pct(50.0)),
        Some(pct(-30.0)),
        Some(pct(150.0)),
    ];
    let gravities = [
        GravityOptions::TopLeft,
        GravityOptions::Center,
        GravityOptions::BottomRight,
    ];
    for w in coords.iter() {
        for ox in coords.iter() {
            for gravity in gravities.iter() {
                let crop = CropOptions { width: *w, height: *w, offset_x: *ox, offset_y: *ox };
                assert!(g.area_is_defined(&crop));
                let a = g.area(&crop, gravity);
                assert!(a.width <= g.width && a.height <= g.height, "{:?} {:?}", crop, a);
                if a.width > 0 {
                    assert!(a.x + a.width <= g.width, "{:?} {:?}", crop, a);
                }
                if a.height > 0 {
                    assert!(a.y + a.height <= g.height, "{:?} {:?}", crop, a);
                }
            }
        }
    }
}

#[test]
fn no_crop_is_whole_image_for_every_gravity() {
    let g = Geometry::new(640, 480);
    let crop = CropOptions { width: None, height: None, offset_x: None, offset_y: None };
    for gravity in [GravityOptions::Top, GravityOptions::CenterRight, GravityOptions::BottomLeft] {
        assert_eq!(g.area(&crop, &gravity), Area { x: 0, y: 0, width: 640, height: 480 });
    }
}

#[test]
fn gravity_places_window_in_free_space() {
    let g = Geometry::new(200, 100);
    let crop = CropOptions {
        width: Some(Coord::Px(50)),
        height: Some(Coord::Px(20)),
        offset_x: None,
        offset_y: None,
    };
    assert_eq!(g.area(&crop, &GravityOptions::TopRight), Area { x: 150, y: 0, width: 50, height: 20 });
    assert_eq!(g.area(&crop, &GravityOptions::BottomLeft), Area { x: 0, y: 80, width: 50, height: 20 });
    assert_eq!(g.area(&crop, &GravityOptions::CenterLeft), Area { x: 0, y: 40, width: 50, height: 20 });
}

#[test]
fn extreme_pixel_size_is_not_measurable() {
    let g = Geometry::new(200, 100);
    let crop = CropOptions {
        width: Some(Coord::Px(i32::MIN)),
        height: None,
        offset_x: None,
        offset_y: None,
    };
    assert!(!g.area_is_defined(&crop));
}

#[test]
fn crop_options_read_from_text() {
    let o = CropOptions::new(Some("100"), Some("50%"), Some("-10px"), None).unwrap();
    assert_eq!(o.width, Some(Coord::Px(100)));
    assert_eq!(o.height, Some(pct(50.0)));
    assert_eq!(o.offset_x, Some(Coord::Px(-10)));
    assert_eq!(o.offset_y, None);
    assert!(o.is_enabled());
    assert!(CropOptions::new(Some("abc"), None, None, None).is_err());
    let none = CropOptions::new(None, None, None, None).unwrap();
    assert!(!none.is_enabled());
}

#[test]
fn crop_offsets_in_percent_are_bounded() {
    let ok = CropOptions { width: None, height: None, offset_x: Some(pct(100.0)), offset_y: Some(pct(-100.0)) };
    assert!(ok.validate().is_ok());
    let bad_x = CropOptions { width: None, height: None, offset_x: Some(pct(100.5)), offset_y: None };
    assert!(bad_x
        .validate()
        .unwrap_err()
        .to_string()
        .starts_with("offset_x percent must be between -100% and +100%"));
    let bad_y = CropOptions { width: None, height: None, offset_x: None, offset_y: Some(pct(-101.0)) };
    assert!(bad_y
        .validate()
        .unwrap_err()
        .to_string()
        .starts_with("offset_y percent must be between -100% and +100%"));
    let px = CropOptions { width: None, height: None, offset_x: Some(Coord::Px(-5000)), offset_y: None };
    assert!(px.validate().is_ok());
}

#[test]
fn offset_error_shows_the_percentage() {
    let bad_x = CropOptions { width: None, height: None, offset_x: Some(pct(100.5)), offset_y: None };
    assert_eq!(
        bad_x.validate().unwrap_err().to_string(),
        "offset_x percent must be between -100% and +100%, got 100.5%"
    );
    let bad_y = CropOptions { width: None, height: None, offset_x: None, offset_y: Some(pct(-101.0)) };
    assert_eq!(
        bad_y.validate().unwrap_err().to_string(),
        "offset_y percent must be between -100% and +100%, got -101%"
    );
}
