use gba_convert::read_image::{convert_colour, from_rgb, Rgba};

fn rgba(red: u8, green: u8, blue: u8, alpha: u8) -> Rgba {
    Rgba { red, green, blue, alpha }
}

#[test]
fn from_rgb_places_each_channel() {
    assert_eq!(from_rgb(0x1f, 0, 0), 0x001f);
    assert_eq!(from_rgb(0, 0x1f, 0), 0x03e0);
    assert_eq!(from_rgb(0, 0, 0x1f), 0x7c00);
    assert_eq!(from_rgb(1, 2, 3), (3 << 10) | (2 << 5) | 1);
    assert_eq!(from_rgb(0, 0, 0), 0);
    assert_eq!(from_rgb(0x1f, 0x1f, 0x1f), 0x7fff);
}

#[test]
fn from_rgb_keeps_five_bits_of_each_channel() {
    assert_eq!(from_rgb(0xffff, 0xffff, 0xffff), 0x7fff);
    assert_eq!(from_rgb(0x20, 0x20, 0x20), 0);
    assert_eq!(from_rgb(0x21, 0x42, 0x83), (3 << 10) | (2 << 5) | 1);
}

#[test]
fn convert_colour_of_the_primaries() {
    assert_eq!(convert_colour(&rgba(255, 0, 0, 255)), 0x001f);
    assert_eq!(convert_colour(&rgba(0, 255, 0, 255)), 0x03e0);
    assert_eq!(convert_colour(&rgba(0, 0, 255, 255)), 0x7c00);
    assert_eq!(convert_colour(&rgba(255, 255, 255, 255)), 0x7fff);
    assert_eq!(convert_colour(&rgba(0, 0, 0, 255)), 0);
}

#[test]
fn convert_colour_drops_the_low_bits() {
    assert_eq!(convert_colour(&rgba(7, 3, 7, 0)), 0);
    assert_eq!(convert_colour(&rgba(8, 4, 8, 0)), (1 << 10) | (1 << 5) | 1);
    assert_eq!(convert_colour(&rgba(15, 7, 15, 0)), (1 << 10) | (1 << 5) | 1);
    assert_eq!(convert_colour(&rgba(16, 8, 16, 0)), (2 << 10) | (2 << 5) | 2);
}

#[test]
fn convert_colour_masks_the_top_bit_of_green() {
    assert_eq!(convert_colour(&rgba(0, 124, 0, 0)), 31 << 5);
    assert_eq!(convert_colour(&rgba(0, 128, 0, 0)), 0);
    assert_eq!(convert_colour(&rgba(0, 132, 0, 0)), 1 << 5);
    assert_eq!(convert_colour(&rgba(0, 4, 0, 0)), 1 << 5);
}

#[test]
fn convert_colour_ignores_alpha() {
    for alpha in [0u8, 1, 127, 128, 255] {
        assert_eq!(convert_colour(&rgba(200, 100, 50, alpha)), convert_colour(&rgba(200, 100, 50, 0)));
    }
}

#[test]
fn convert_colour_twice_gives_the_same_word() {
    for value in 0..=255u8 {
        let pixel = rgba(value, value.wrapping_mul(3), value.wrapping_mul(7), value);
        let first = convert_colour(&pixel);
        let second = convert_colour(&pixel);
        assert_eq!(first, second);
        assert!(first < 0x8000);
    }
}
