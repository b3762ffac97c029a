use gba_convert::error::FramingError;
use gba_convert::util::{
    consolidate_u16_u32, consolidate_u4_u32, consolidate_u8_u16, consolidate_u8_u32, expand_u16_u8,
    expand_u32_u16, expand_u32_u4, expand_u32_u8, pack_u16_u32, pack_u4_u32, pack_u8_u16,
    pack_u8_u32,
};

#[test]
fn bytes_go_four_to_a_word_lowest_first() {
    assert_eq!(consolidate_u8_u32(vec![0x11, 0x22, 0x33, 0x44]), vec![0x4433_2211]);
    assert_eq!(
        consolidate_u8_u32(vec![1, 0, 0, 0, 0, 1, 0, 0, 0, 0, 1, 0, 0, 0, 0, 1]),
        vec![0x0000_0001, 0x0000_0100, 0x0001_0000, 0x0100_0000]
    );
    assert_eq!(consolidate_u8_u32(vec![0xff; 4]), vec![0xffff_ffff]);
    assert_eq!(consolidate_u8_u32(Vec::new()), Vec::<u32>::new());
}

#[test]
fn bytes_go_two_to_a_halfword_lowest_first() {
    assert_eq!(consolidate_u8_u16(vec![0x11, 0x22]), vec![0x2211]);
    assert_eq!(consolidate_u8_u16(vec![1, 0, 0, 1, 0xff, 0xff]), vec![0x0001, 0x0100, 0xffff]);
    assert_eq!(consolidate_u8_u16(Vec::new()), Vec::<u16>::new());
}

#[test]
fn halfwords_go_two_to_a_word_lowest_first() {
    assert_eq!(consolidate_u16_u32(vec![0x1234, 0xabcd]), vec![0xabcd_1234]);
    assert_eq!(consolidate_u16_u32(vec![1, 0, 0, 1]), vec![0x0000_0001, 0x0001_0000]);
    assert_eq!(consolidate_u16_u32(vec![0x001f, 0x03e0]), vec![0x03e0_001f]);
    assert_eq!(consolidate_u16_u32(Vec::new()), Vec::<u32>::new());
}

#[test]
fn nibbles_go_eight_to_a_word_lowest_first() {
    assert_eq!(consolidate_u4_u32(vec![1, 2, 3, 4, 5, 6, 7, 8]), vec![0x8765_4321]);
    assert_eq!(
        consolidate_u4_u32(vec![0xf, 0, 0, 0, 0, 0, 0, 0, 0, 0, 0, 0, 0, 0, 0, 0xf]),
        vec![0x0000_000f, 0xf000_0000]
    );
    assert_eq!(consolidate_u4_u32(Vec::new()), Vec::<u32>::new());
}

#[test]
fn nibbles_take_only_the_low_four_bits() {
    assert_eq!(
        consolidate_u4_u32(vec![0xf1, 0xf2, 0x33, 0x44, 0x55, 0x66, 0x77, 0x88]),
        vec![0x8765_4321]
    );
    assert_eq!(consolidate_u4_u32(vec![0x10; 8]), vec![0]);
}

#[test]
fn words_give_their_bytes_lowest_first() {
    assert_eq!(expand_u32_u8(&vec![0x4433_2211, 0xffee_ddcc]), vec![0x11, 0x22, 0x33, 0x44, 0xcc, 0xdd, 0xee, 0xff]);
    assert_eq!(expand_u16_u8(&vec![0x2211, 0xff00]), vec![0x11, 0x22, 0x00, 0xff]);
    assert_eq!(expand_u32_u16(&vec![0xabcd_1234]), vec![0x1234, 0xabcd]);
    assert_eq!(expand_u32_u4(&vec![0x8765_4321]), vec![1, 2, 3, 4, 5, 6, 7, 8]);
}

#[test]
fn packing_bytes_into_words_round_trips() {
    for words in 0..20usize {
        let input: Vec<u8> = (0..words * 4).map(|i| (i * 37 + 11) as u8).collect();
        let packed = consolidate_u8_u32(input.clone());
        assert_eq!(packed.len(), words);
        assert_eq!(expand_u32_u8(&packed), input);
    }
}

#[test]
fn packing_bytes_into_halfwords_round_trips() {
    for words in 0..20usize {
        let input: Vec<u8> = (0..words * 2).map(|i| (i * 91 + 5) as u8).collect();
        let packed = consolidate_u8_u16(input.clone());
        assert_eq!(packed.len(), words);
        assert_eq!(expand_u16_u8(&packed), input);
    }
}

#[test]
fn packing_halfwords_into_words_round_trips() {
    for words in 0..20usize {
        let input: Vec<u16> = (0..words * 2).map(|i| (i * 7919 + 3) as u16).collect();
        let packed = consolidate_u16_u32(input.clone());
        assert_eq!(packed.len(), words);
        assert_eq!(expand_u32_u16(&packed), input);
    }
}

#[test]
fn packing_nibbles_into_words_round_trips() {
    for words in 0..20usize {
        let input: Vec<u8> = (0..words * 8).map(|i| ((i * 5 + 3) % 16) as u8).collect();
        let packed = consolidate_u4_u32(input.clone());
        assert_eq!(packed.len(), words);
        assert_eq!(expand_u32_u4(&packed), input);
    }
}

#[test]
fn packing_wide_nibbles_gives_back_their_low_bits() {
    let input: Vec<u8> = (0..64).map(|i| (i * 29 + 17) as u8).collect();
    let low: Vec<u8> = input.iter().map(|v| v % 16).collect();
    assert_eq!(expand_u32_u4(&consolidate_u4_u32(input)), low);
}

#[test]
fn whole_words_are_packed() {
    assert_eq!(pack_u8_u32(vec![0x11, 0x22, 0x33, 0x44]), Ok(vec![0x4433_2211]));
    assert_eq!(pack_u8_u16(vec![0x11, 0x22]), Ok(vec![0x2211]));
    assert_eq!(pack_u16_u32(vec![0x1234, 0xabcd]), Ok(vec![0xabcd_1234]));
    assert_eq!(pack_u4_u32(vec![1, 2, 3, 4, 5, 6, 7, 8]), Ok(vec![0x8765_4321]));
    assert_eq!(pack_u8_u32(Vec::new()), Ok(Vec::new()));
}

#[test]
fn a_remainder_is_a_framing_error() {
    assert_eq!(pack_u8_u32(vec![1, 2, 3]), Err(FramingError { length: 3, factor: 4 }));
    assert_eq!(pack_u8_u32(vec![0; 5]), Err(FramingError { length: 5, factor: 4 }));
    assert_eq!(pack_u8_u16(vec![1]), Err(FramingError { length: 1, factor: 2 }));
    assert_eq!(pack_u16_u32(vec![1, 2, 3]), Err(FramingError { length: 3, factor: 2 }));
    assert_eq!(pack_u4_u32(vec![0; 4]), Err(FramingError { length: 4, factor: 8 }));
    assert_eq!(pack_u4_u32(vec![0; 12]), Err(FramingError { length: 12, factor: 8 }));
}
