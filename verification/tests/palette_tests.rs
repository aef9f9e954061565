use voronoi::palette::{default_palette, from_hex};

#[test]
fn decodes_plain_hex() {
    assert_eq!(from_hex("57ab5a"), Some(0x57ab5a));
    assert_eq!(from_hex("0"), Some(0));
    assert_eq!(from_hex("ff"), Some(255));
    assert_eq!(from_hex("FF"), Some(255));
    assert_eq!(from_hex("10"), Some(16));
    assert_eq!(from_hex("ffffffff"), Some(u32::MAX));
    assert_eq!(from_hex("AbCdEf"), Some(0xabcdef));
}

#[test]
fn rejects_empty_string() {
    assert_eq!(from_hex(""), None);
}

#[test]
fn rejects_non_digits() {
    assert_eq!(from_hex("xyz"), None);
    assert_eq!(from_hex("12g4"), None);
    assert_eq!(from_hex("-1"), None);
    assert_eq!(from_hex(" ff"), None);
}

#[test]
fn rejects_out_of_range_values() {
    assert_eq!(from_hex("100000000"), None);
    assert_eq!(from_hex("ffffffffff"), None);
}

#[test]
fn accepts_leading_zeros() {
    assert_eq!(from_hex("0000000000"), Some(0));
    assert_eq!(from_hex("00ffffffff"), Some(u32::MAX));
}

#[test]
fn palette_decodes_in_order() {
    let colors = default_palette().expect("the fixed palette must decode");
    assert_eq!(colors.len(), 18);
    assert_eq!(colors[0], 0x57ab5a);
    assert_eq!(colors[1], 0xeac55f);
    assert_eq!(colors[2], 0xf69d50);
    assert_eq!(colors[14], 0x001231);
    assert_eq!(colors[17], 0xe2affe);
}
