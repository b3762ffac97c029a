use gba_convert::error::CapacityError;
use gba_convert::quantize::{narrow, validate, IndexWidth};

fn palette(len: usize) -> Vec<u16> {
    (0..len).map(|i| i as u16).collect()
}

#[test]
fn sixteen_colours_fit_four_bits_and_seventeen_do_not() {
    assert_eq!(validate(&palette(16), IndexWidth::U4), Ok(()));
    assert_eq!(
        validate(&palette(17), IndexWidth::U4),
        Err(CapacityError { actual: 17, maximum: 16 })
    );
}

#[test]
fn two_hundred_fifty_six_colours_fit_eight_bits_and_one_more_does_not() {
    assert_eq!(validate(&palette(256), IndexWidth::U8), Ok(()));
    assert_eq!(
        validate(&palette(257), IndexWidth::U8),
        Err(CapacityError { actual: 257, maximum: 256 })
    );
}

#[test]
fn small_and_empty_palettes_fit() {
    assert_eq!(validate(&palette(0), IndexWidth::U4), Ok(()));
    assert_eq!(validate(&palette(1), IndexWidth::U4), Ok(()));
    assert_eq!(validate(&palette(0), IndexWidth::U8), Ok(()));
    assert_eq!(validate(&palette(17), IndexWidth::U8), Ok(()));
}

#[test]
fn direct_colour_sets_no_limit() {
    assert_eq!(validate(&palette(257), IndexWidth::U16), Ok(()));
    assert_eq!(validate(&palette(0x8000), IndexWidth::U16), Ok(()));
}

#[test]
fn capacity_error_reports_both_counts() {
    let error = validate(&palette(1000), IndexWidth::U4).unwrap_err();
    assert_eq!(error.actual, 1000);
    assert_eq!(error.maximum, 16);
}

#[test]
fn narrow_keeps_each_index() {
    assert_eq!(narrow(&vec![0, 1, 2, 254, 255]), vec![0u8, 1, 2, 254, 255]);
    assert_eq!(narrow(&Vec::new()), Vec::<u8>::new());
}
