use vizardra::color::{hex_alpha, hex_pair, hex_to_rgb6, is_valid_hex, Color};

#[test]
fn rgb_is_opaque() {
    assert_eq!(Color::rgb(1, 2, 3), Color { r: 1, g: 2, b: 3, a: 255 });
}

#[test]
fn rgba_keeps_alpha() {
    assert_eq!(Color::rgba(1, 2, 3, 4), Color { r: 1, g: 2, b: 3, a: 4 });
}

#[test]
fn default_color_is_accent_blue() {
    assert_eq!(Color::default(), Color::rgb(91, 124, 250));
}

#[test]
fn from_hex_six_digits() {
    assert_eq!(Color::from_hex("#5B7CFA"), Color::rgb(91, 124, 250));
    assert_eq!(Color::from_hex("5b7cfa"), Color::rgb(91, 124, 250));
}

#[test]
fn from_hex_eight_digits() {
    assert_eq!(Color::from_hex("#11223380"), Color::rgba(0x11, 0x22, 0x33, 0x80));
}

#[test]
fn from_hex_strips_every_leading_hash() {
    assert_eq!(Color::from_hex("###FF0000"), Color::rgb(255, 0, 0));
}

#[test]
fn from_hex_bad_pairs_become_zero_or_opaque() {
    assert_eq!(Color::from_hex("#GG0011"), Color::rgb(0, 0, 0x11));
    assert_eq!(Color::from_hex("#102030ZZ"), Color::rgba(0x10, 0x20, 0x30, 255));
}

#[test]
fn from_hex_plus_sign_reads_one_digit() {
    assert_eq!(Color::from_hex("#+F0102"), Color::rgb(15, 1, 2));
}

#[test]
fn from_hex_other_lengths_give_black() {
    assert_eq!(Color::from_hex("#123"), Color::rgb(0, 0, 0));
    assert_eq!(Color::from_hex(""), Color::rgb(0, 0, 0));
    assert_eq!(Color::from_hex("#1234567"), Color::rgb(0, 0, 0));
}

#[test]
fn from_hex_non_ascii_pair_is_zero() {
    // "é" is two bytes, so the body is six bytes and the first pair is "é".
    assert_eq!(Color::from_hex("é1234"), Color::rgb(0, 0x12, 0x34));
}

#[test]
fn to_hex_is_upper_case_without_alpha() {
    assert_eq!(Color::rgba(91, 124, 250, 7).to_hex(), "#5B7CFA");
    assert_eq!(Color::rgb(0, 10, 255).to_hex(), "#000AFF");
}

#[test]
fn to_hex_then_from_hex_round_trips() {
    let c = Color::rgba(18, 52, 86, 3);
    assert_eq!(Color::from_hex(&c.to_hex()), Color::rgb(18, 52, 86));
}

#[test]
fn hex_pair_reads_bytes() {
    assert_eq!(hex_pair(b'f', b'F'), Some(255));
    assert_eq!(hex_pair(b'+', b'9'), Some(9));
    assert_eq!(hex_pair(b'-', b'9'), None);
    assert_eq!(hex_pair(b'g', b'0'), None);
}

#[test]
fn is_valid_hex_counts_body_bytes() {
    assert!(is_valid_hex("#123456"));
    assert!(is_valid_hex("12345678"));
    assert!(is_valid_hex("##abcdef"));
    assert!(!is_valid_hex("#12345"));
    assert!(!is_valid_hex("#1234567"));
}

#[test]
fn hex_to_rgb6_drops_alpha() {
    assert_eq!(hex_to_rgb6("#11223344"), "#112233");
    assert_eq!(hex_to_rgb6("##aabbcc"), "#aabbcc");
}

#[test]
fn hex_to_rgb6_keeps_short_text() {
    assert_eq!(hex_to_rgb6("#123"), "#123");
}

#[test]
fn hex_to_rgb6_of_to_hex_is_unchanged() {
    let hex = Color::rgb(1, 2, 3).to_hex();
    assert_eq!(hex_to_rgb6(&hex), hex);
    assert!(is_valid_hex(&hex));
}

#[test]
fn hex_alpha_reads_last_pair() {
    assert_eq!(hex_alpha("#11223380"), Some(0x80));
    assert_eq!(hex_alpha("#112233zz"), Some(255));
    assert_eq!(hex_alpha("#112233"), None);
}

#[test]
fn shortening_to_rgb6_twice_is_once() {
    for s in ["#aabbccdd", "##112233", "abc", "#12345", "x1y2z3w4", "#ab"] {
        let once = hex_to_rgb6(s);
        assert_eq!(hex_to_rgb6(&once), once);
    }
    assert_eq!(hex_to_rgb6("##112233ff"), "#112233");
}
