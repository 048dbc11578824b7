use tinct::color::{argb_to_hex, hex_to_ansi256_exact, hex_to_argb, hex_to_rgb, rgb_slice_ok_exec, Argb};

#[test]
fn hex_roundtrip() {
    let c = hex_to_argb("#B52755").unwrap();
    assert_eq!(argb_to_hex(c), "#B52755");
    assert_eq!(argb_to_hex(hex_to_argb("b52755").unwrap()), "#B52755");
    assert!(hex_to_argb("#xyz").is_err());
}

#[test]
fn ansi256_corners() {
    assert_eq!(hex_to_ansi256_exact("#000000").unwrap(), 0);
    assert_eq!(hex_to_ansi256_exact("#FFFFFF").unwrap(), 15);
}

#[test]
fn hex_parse_channels_and_alpha() {
    let c = hex_to_argb("#0a1B2c").unwrap();
    assert_eq!(c, Argb::new(255, 0x0a, 0x1b, 0x2c));
    assert_eq!(argb_to_hex(c), "#0A1B2C");
}

#[test]
fn hex_parse_errors_keep_input() {
    let e = hex_to_argb("##123456").unwrap_err();
    assert_eq!(e.0, "##123456");
    assert_eq!(e.message(), "invalid hex color: ##123456");
    assert!(hex_to_argb("").is_err());
    assert!(hex_to_argb("#12345").is_err());
    assert!(hex_to_argb("#1234567").is_err());
    assert!(hex_to_argb("12345g").is_err());
    assert!(hex_to_ansi256_exact("nothex").is_err());
}

#[test]
fn format_then_parse_is_opaque_identity() {
    for &(a, r, g, b) in &[(0u8, 1u8, 2u8, 3u8), (255, 255, 0, 128), (17, 200, 201, 202)] {
        let c = Argb::new(a, r, g, b);
        assert_eq!(hex_to_argb(&argb_to_hex(c)).unwrap(), Argb::new(255, r, g, b));
    }
}

#[test]
fn ansi256_cube_gray_and_ties() {
    // exact cube entry 16 + 36*5 + 6*0 + 0 = 196 is pure red, but index 9 (#ff0000) comes first
    assert_eq!(hex_to_ansi256_exact("#ff0000").unwrap(), 9);
    // cube (95, 135, 175) = 16 + 36*1 + 6*2 + 3 = 67
    assert_eq!(hex_to_ansi256_exact("#5f87af").unwrap(), 67);
    // gray ramp: 8 + 10*k; 0x76 = 118 = 8 + 110 → 232 + 11 = 243
    assert_eq!(hex_to_ansi256_exact("#767676").unwrap(), 243);
    // (0x80,0x80,0x80) is standard color 8; it precedes every cube and gray entry
    assert_eq!(hex_to_ansi256_exact("#808080").unwrap(), 8);
}

#[test]
fn lenient_rgb_parsing() {
    assert_eq!(hex_to_rgb("#ff8000"), Some((255, 128, 0)));
    assert_eq!(hex_to_rgb("##ff8000"), Some((255, 128, 0)));
    assert_eq!(hex_to_rgb("ff800011"), Some((255, 128, 0)));
    assert_eq!(hex_to_rgb("#ff80"), None);
    assert_eq!(hex_to_rgb("#ff80zz"), None);
    assert!(rgb_slice_ok_exec("#ff8000"));
    // eight bytes whose byte 6 falls inside 'é'
    assert!(!rgb_slice_ok_exec("#abcde\u{e9}x"));
}
