use eadk::kandinsky::Color;

#[test]
fn black_packs_to_zero() {
    assert_eq!(Color::from_rgb([0, 0, 0]), Color(0));
}

#[test]
fn white_packs_to_all_ones() {
    assert_eq!(Color::from_rgb([255, 255, 255]), Color(0xFFFF));
}

#[test]
fn each_channel_lands_in_its_own_bits() {
    assert_eq!(Color::from_rgb([0xFF, 0, 0]), Color(0xF800));
    assert_eq!(Color::from_rgb([0, 0xFF, 0]), Color(0x07E0));
    assert_eq!(Color::from_rgb([0, 0, 0xFF]), Color(0x001F));
}

#[test]
fn mixed_colour_has_the_exact_packed_value() {
    // 0x12 >> 3 = 2, 0x34 >> 2 = 13, 0x56 >> 3 = 10
    assert_eq!(Color::from_rgb([0x12, 0x34, 0x56]), Color((2 << 11) | (13 << 5) | 10));
    assert_eq!(Color::from_rgb([0x12, 0x34, 0x56]).0, 4522);
}

#[test]
fn low_bits_of_each_channel_are_dropped() {
    assert_eq!(Color::from_rgb([7, 3, 7]), Color(0));
    assert_eq!(Color::from_rgb([8, 4, 8]), Color((1 << 11) | (1 << 5) | 1));
}

#[test]
fn masking_beforehand_changes_nothing() {
    let mut r: u16 = 0;
    while r < 256 {
        let mut g: u16 = 0;
        while g < 256 {
            let b = ((r * 7 + g * 13) % 256) as u8;
            let (r8, g8) = (r as u8, g as u8);
            assert_eq!(
                Color::from_rgb([r8, g8, b]),
                Color::from_rgb([r8 & 0xF8, g8 & 0xFC, b & 0xF8])
            );
            g += 5;
        }
        r += 3;
    }
}

#[test]
fn colours_compare_by_their_packed_value() {
    assert!(Color(1) < Color(2));
    assert_eq!(Color(0x1234), Color(0x1234));
    assert_ne!(Color(0x1234), Color(0x1235));
    assert_eq!(Color::default(), Color(0));
}
