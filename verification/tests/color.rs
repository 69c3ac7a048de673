use appjs::ipc::color::ColorValue;

#[test]
fn test_color_parse_hex() {
    if let Some(ColorValue::Rgba { r, g, b, a }) = ColorValue::parse("#ff0080") {
        assert_eq!((r, g, b, a), (255, 0, 128, 255));
    } else {
        panic!("Failed to parse 6-char hex");
    }

    if let Some(ColorValue::Rgba { r, g, b, a }) = ColorValue::parse("#ff008080") {
        assert_eq!((r, g, b, a), (255, 0, 128, 128));
    } else {
        panic!("Failed to parse 8-char hex");
    }
}

#[test]
fn test_color_parse_rgb() {
    if let Some(ColorValue::Rgba { r, g, b, a }) = ColorValue::parse("rgb(10, 20, 30)") {
        assert_eq!((r, g, b, a), (10, 20, 30, 255));
    } else {
        panic!("Failed to parse rgb");
    }

    if let Some(ColorValue::Rgba { r, g, b, a }) = ColorValue::parse("rgba(10, 20, 30, 0.5)") {
        assert_eq!((r, g, b, a), (10, 20, 30, 127)); // 0.5 * 255 = 127.5 -> 127
    } else {
        panic!("Failed to parse rgba");
    }
}

#[test]
fn test_color_parse_named() {
    if let Some(ColorValue::Rgba { r, g, b, a }) = ColorValue::parse("red") {
        assert_eq!((r, g, b, a), (255, 0, 0, 255));
    } else {
        panic!("Failed to parse named color 'red'");
    }

    if let Some(ColorValue::Named(name)) = ColorValue::parse("papayawhip") {
        assert_eq!(name, "papayawhip");
    } else {
        panic!("Failed to parse unknown named color");
    }
}

fn rgba(r: u8, g: u8, b: u8, a: u8) -> Option<ColorValue> {
    Some(ColorValue::Rgba { r, g, b, a })
}

#[test]
fn hex_colors() {
    assert_eq!(ColorValue::parse("#000000"), rgba(0, 0, 0, 255));
    assert_eq!(ColorValue::parse("#FFFFFF"), rgba(255, 255, 255, 255));
    assert_eq!(ColorValue::parse("  #0a0B0c0D\t\n"), rgba(10, 11, 12, 13));
    assert_eq!(ColorValue::parse("#+f+00a"), rgba(15, 0, 10, 255));
    for bad in ["#", "#fff", "#fffff", "#fffffff", "#fffffffff", "#gg0000", "#ff 000", "#-10000",
        "#ff00++", "#ééé", "#aé123", "# ff0080"]
    {
        assert_eq!(ColorValue::parse(bad), None, "text was {bad:?}");
    }
}

#[test]
fn rgb_colors() {
    assert_eq!(ColorValue::parse("rgb(0,0,0)"), rgba(0, 0, 0, 255));
    assert_eq!(ColorValue::parse("rgb( 255 ,\t+7,007 )"), rgba(255, 7, 7, 255));
    assert_eq!(ColorValue::parse("rgb(1,2,3"), rgba(1, 2, 3, 255));
    assert_eq!(ColorValue::parse("rgb(1,2,3)))"), rgba(1, 2, 3, 255));
    assert_eq!(ColorValue::parse("rgba(rgba(rgb(1,2,3)"), rgba(1, 2, 3, 255));
    assert_eq!(ColorValue::parse("rgb(1,2,3,1,whatever)"), rgba(1, 2, 3, 255));
    for bad in ["rgb()", "rgb(1,2)", "rgb(1,2,)", "rgb(256,0,0)", "rgb(-1,0,0)", "rgb(1.0,0,0)",
        "rgb(a,b,c)", "rgb(1 2,3,4)", "rgb(1,2,3,)", "rgb(rgba(1,2,3)", "rgb(,,)",
        "rgb(00000000000000000000000000000256,0,0)"]
    {
        assert_eq!(ColorValue::parse(bad), None, "text was {bad:?}");
    }
    assert_eq!(
        ColorValue::parse("rgb(00000000000000000000000000000255,0,0)"),
        rgba(255, 0, 0, 255)
    );
}

#[test]
fn alpha_is_255_times_the_fraction_rounded_down() {
    let alpha = |text: &str| match ColorValue::parse(&format!("rgba(0,0,0,{text})")) {
        Some(ColorValue::Rgba { a, .. }) => Some(a),
        _ => None,
    };
    assert_eq!(alpha("0"), Some(0));
    assert_eq!(alpha("0.0"), Some(0));
    assert_eq!(alpha("1"), Some(255));
    assert_eq!(alpha("1.0"), Some(255));
    assert_eq!(alpha("0.5"), Some(127));
    assert_eq!(alpha(" .5 "), Some(127));
    assert_eq!(alpha("+0.25"), Some(63));
    assert_eq!(alpha("0.999"), Some(254));
    assert_eq!(alpha("0.2"), Some(51));
    assert_eq!(alpha("0.1999999"), Some(50));
    assert_eq!(alpha("0.00392156862745098039215686274509803921568627450980"), Some(0));
    assert_eq!(alpha("0.00392156862745098039215686274509803921568627450981"), Some(1));
    assert_eq!(alpha("0000.75"), Some(191));
    assert_eq!(alpha("2"), Some(255));
    assert_eq!(alpha("123456789012345678901234567890.5"), Some(255));
    assert_eq!(alpha("5."), Some(255));
    assert_eq!(alpha("-0.5"), Some(0));
    assert_eq!(alpha("-3"), Some(0));
    for bad in ["", ".", "+", "-", "1.2.3", "0 5", "a", "0.5f", "1e-1", "inf", "NaN", "0x1"] {
        assert_eq!(alpha(bad), None, "text was {bad:?}");
    }
}

#[test]
fn named_colors() {
    assert_eq!(ColorValue::parse("white"), rgba(255, 255, 255, 255));
    assert_eq!(ColorValue::parse("black"), rgba(0, 0, 0, 255));
    assert_eq!(ColorValue::parse("green"), rgba(0, 128, 0, 255));
    assert_eq!(ColorValue::parse("blue"), rgba(0, 0, 255, 255));
    assert_eq!(ColorValue::parse("yellow"), rgba(255, 255, 0, 255));
    assert_eq!(ColorValue::parse("cyan"), rgba(0, 255, 255, 255));
    assert_eq!(ColorValue::parse("magenta"), rgba(255, 0, 255, 255));
    assert_eq!(ColorValue::parse("orange"), rgba(255, 165, 0, 255));
    assert_eq!(ColorValue::parse("purple"), rgba(128, 0, 128, 255));
    assert_eq!(ColorValue::parse("gray"), rgba(128, 128, 128, 255));
    assert_eq!(ColorValue::parse("grey"), rgba(128, 128, 128, 255));
    assert_eq!(ColorValue::parse("transparent"), rgba(0, 0, 0, 0));
    assert_eq!(ColorValue::parse("  ReD "), rgba(255, 0, 0, 255));
    assert_eq!(ColorValue::parse("GREY"), rgba(128, 128, 128, 255));
    assert_eq!(
        ColorValue::parse("PapayaWhip"),
        Some(ColorValue::Named("papayawhip".to_string()))
    );
    assert_eq!(ColorValue::parse(""), Some(ColorValue::Named(String::new())));
    assert_eq!(ColorValue::parse("rgb"), Some(ColorValue::Named("rgb".to_string())));
    assert_eq!(ColorValue::parse("RGB(1,2,3)"), Some(ColorValue::Named("rgb(1,2,3)".to_string())));
    assert_eq!(ColorValue::named("red"), ColorValue::Rgba { r: 255, g: 0, b: 0, a: 255 });
    assert_eq!(ColorValue::named("RED"), ColorValue::Named("RED".to_string()));
}

#[test]
fn test_color_value_to_peniko() {
    let rgba = ColorValue::Rgba { r: 255, g: 128, b: 64, a: 255 };
    assert_eq!(rgba.rgba_or_white(), (255, 128, 64, 255));

    let named = ColorValue::Named("invalid_color".to_string());
    assert_eq!(named.rgba_or_white(), (255, 255, 255, 255));
}
