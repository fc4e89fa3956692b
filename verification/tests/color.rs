use iced_longbridge::color::{format_hex_rgb, parse_hex, parse_hex_panics, Rgb};

fn channel(b: u8) -> f32 {
    b as f32 / 255.0
}

fn rgb_close(c: Rgb, r: f32, g: f32, b: f32, eps: f32) -> bool {
    (channel(c.r) - r).abs() < eps && (channel(c.g) - g).abs() < eps && (channel(c.b) - b).abs() < eps
}

#[test]
fn format_hex_round_trip_primaries() {
    let red = Rgb { r: 255, g: 0, b: 0 };
    assert_eq!(format_hex_rgb(red), "#FF0000");
    assert!(rgb_close(parse_hex("#FF0000").unwrap(), 1.0, 0.0, 0.0, 1.0 / 255.0));

    let green = Rgb { r: 0, g: 255, b: 0 };
    assert_eq!(format_hex_rgb(green), "#00FF00");

    let blue = Rgb { r: 0, g: 0, b: 255 };
    assert_eq!(format_hex_rgb(blue), "#0000FF");
}

#[test]
fn parse_hex_short_form() {
    let c = parse_hex("#f0a").unwrap();
    assert!(rgb_close(c, 1.0, 0.0, 0xaa as f32 / 255.0, 0.001));
}

#[test]
fn parse_hex_tolerates_no_leading_hash() {
    assert!(parse_hex("00ff00").is_some());
}

#[test]
fn parse_hex_rejects_junk() {
    assert!(parse_hex("").is_none());
    assert!(parse_hex("#gg00ff").is_none());
    assert!(parse_hex("#1234").is_none());
    assert!(parse_hex("not-a-color").is_none());
}

#[test]
fn parse_hex_exact_channels() {
    assert_eq!(parse_hex("#12aBcD"), Some(Rgb { r: 0x12, g: 0xab, b: 0xcd }));
    assert_eq!(parse_hex("  ##abc \n"), Some(Rgb { r: 0xaa, g: 0xbb, b: 0xcc }));
    assert_eq!(parse_hex("+f+f+f"), Some(Rgb { r: 15, g: 15, b: 15 }));
    assert_eq!(parse_hex("+ff"), None);
    assert_eq!(parse_hex("ééé"), None);
}

#[test]
fn format_then_parse_gives_back_the_color() {
    for (r, g, b) in [(0u8, 0u8, 0u8), (1, 2, 3), (255, 128, 17), (0xde, 0xad, 0xbe)] {
        let c = Rgb { r, g, b };
        assert_eq!(parse_hex(&format_hex_rgb(c)), Some(c));
    }
    assert_eq!(format_hex_rgb(Rgb { r: 0, g: 255, b: 128 }), "#00FF80");
}

#[test]
fn parse_hex_panics_on_split_characters() {
    assert!(!parse_hex_panics("#FF0000"));
    assert!(!parse_hex_panics("#abc"));
    assert!(!parse_hex_panics("nope"));
    assert!(!parse_hex_panics("é12"));
    // "€" fills three bytes: the first one-byte slice cuts it.
    assert!(parse_hex_panics("#€"));
    // "a€bc" fills six bytes: the first two-byte slice cuts the "€".
    assert!(parse_hex_panics("a€bc"));
    // The first channel fails to parse before the cut is reached.
    assert!(!parse_hex_panics("zz€"));
    assert_eq!(parse_hex("zz€"), None);
}
