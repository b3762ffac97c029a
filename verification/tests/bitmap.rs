use gba_convert::bitmap::{convert, BitDepth, MacroInput, PixelData};
use gba_convert::error::{CapacityError, ConvertError, UnsupportedCombinationError};
use gba_convert::read_image::{convert_colour, read_image, Rgba};

fn distinct(i: usize) -> Rgba {
    Rgba { red: ((i % 32) * 8) as u8, green: (((i / 32) % 32) * 4) as u8, blue: 0, alpha: 255 }
}

fn indexed(data: PixelData) -> (Vec<u16>, Vec<u8>) {
    match data {
        PixelData::Indexed { palette, bytes } => (palette, bytes),
        PixelData::Direct { .. } => panic!("direct colour where indices were asked for"),
    }
}

fn direct(data: PixelData) -> Vec<u16> {
    match data {
        PixelData::Direct { pixels } => pixels,
        PixelData::Indexed { .. } => panic!("indices where direct colour was asked for"),
    }
}

#[test]
fn two_by_two_image_at_eight_bits() {
    let pixels = vec![
        Rgba { red: 255, green: 0, blue: 0, alpha: 255 },
        Rgba { red: 0, green: 255, blue: 0, alpha: 255 },
        Rgba { red: 255, green: 0, blue: 0, alpha: 255 },
        Rgba { red: 0, green: 0, blue: 255, alpha: 255 },
    ];
    let info = read_image(2, 2, &pixels);
    let bitmap = convert(&info, BitDepth::U8, false).unwrap();
    assert_eq!(bitmap.width, 2);
    assert_eq!(bitmap.height, 2);
    let (palette, bytes) = indexed(bitmap.data);
    assert_eq!(palette, vec![0x001f, 0x03e0, 0x7c00]);
    assert_eq!(bytes, vec![0, 1, 0, 2]);
}

#[test]
fn run_length_encoding_shortens_runs() {
    let pixels: Vec<Rgba> = [0, 0, 0, 0, 0, 1].iter().map(|i| distinct(*i)).collect();
    let info = read_image(6, 1, &pixels);
    let (_, plain) = indexed(convert(&info, BitDepth::U8, false).unwrap().data);
    assert_eq!(plain, vec![0, 0, 0, 0, 0, 1]);
    let (palette, encoded) = indexed(convert(&info, BitDepth::U8, true).unwrap().data);
    assert_eq!(palette.len(), 2);
    assert_eq!(encoded, vec![0, 0, 5 - 2 + 128, 1]);
}

#[test]
fn run_length_encoding_of_single_values_and_long_runs() {
    let pixels: Vec<Rgba> = (0..4).map(distinct).collect();
    let info = read_image(2, 2, &pixels);
    let (_, encoded) = indexed(convert(&info, BitDepth::U8, true).unwrap().data);
    assert_eq!(encoded, vec![0, 1, 2, 3]);

    let mut indices = vec![1usize, 3, 4, 4];
    indices.extend(std::iter::repeat(100).take(2 + 52 + 128));
    let mut pixels: Vec<Rgba> = (0..101).map(distinct).collect();
    pixels.extend(indices.iter().map(|i| distinct(*i)));
    let info = read_image(pixels.len() as u32, 1, &pixels);
    let (_, encoded) = indexed(convert(&info, BitDepth::U8, true).unwrap().data);
    assert_eq!(&encoded[0..101], &(0..101).map(|i| i as u8).collect::<Vec<u8>>()[..]);
    assert_eq!(&encoded[101..], &[1, 3, 4, 4, 128, 100, 100, 52, 1 + 128]);
}

#[test]
fn run_length_encoding_of_the_same_input_is_the_same() {
    let pixels: Vec<Rgba> = (0..200).map(|i| distinct((i / 7) % 5)).collect();
    let info = read_image(20, 10, &pixels);
    let (_, first) = indexed(convert(&info, BitDepth::U8, true).unwrap().data);
    let (_, second) = indexed(convert(&info, BitDepth::U8, true).unwrap().data);
    assert_eq!(first, second);
}

#[test]
fn direct_colour_gives_each_pixel_its_colour() {
    let pixels: Vec<Rgba> = (0..300).map(|i| distinct((i * 17) % 290)).collect();
    let info = read_image(20, 15, &pixels);
    assert!(info.colours.len() > 256);
    let bitmap = convert(&info, BitDepth::U16, false).unwrap();
    assert_eq!(bitmap.width, 20);
    assert_eq!(bitmap.height, 15);
    let words = direct(bitmap.data);
    let expected: Vec<u16> = pixels.iter().map(convert_colour).collect();
    assert_eq!(words, expected);
}

#[test]
fn run_length_encoding_is_refused_in_direct_colour() {
    let pixels: Vec<Rgba> = (0..4).map(distinct).collect();
    let info = read_image(2, 2, &pixels);
    assert_eq!(
        convert(&info, BitDepth::U16, true).unwrap_err(),
        ConvertError::UnsupportedCombination(UnsupportedCombinationError::RleWithDirectColour)
    );
}

#[test]
fn eight_bits_take_256_colours_and_no_more() {
    let full: Vec<Rgba> = (0..300).map(|i| distinct(i % 256)).collect();
    let info = read_image(300, 1, &full);
    let (palette, bytes) = indexed(convert(&info, BitDepth::U8, false).unwrap().data);
    assert_eq!(palette.len(), 256);
    assert_eq!(bytes[255], 255);
    assert_eq!(bytes[256], 0);
    let over: Vec<Rgba> = (0..300).map(|i| distinct(i % 257)).collect();
    let info = read_image(300, 1, &over);
    assert_eq!(
        convert(&info, BitDepth::U8, false).unwrap_err(),
        ConvertError::Capacity(CapacityError { actual: 257, maximum: 256 })
    );
    assert_eq!(
        convert(&info, BitDepth::U8, true).unwrap_err(),
        ConvertError::Capacity(CapacityError { actual: 257, maximum: 256 })
    );
}

#[test]
fn request_converts_at_its_depth() {
    let pixels: Vec<Rgba> = [0, 0, 0, 1].iter().map(|i| distinct(*i)).collect();
    let info = read_image(2, 2, &pixels);
    let request = MacroInput {
        name: "invaders".to_string(),
        path: "invader.png".to_string(),
        depth: BitDepth::U8,
        rle: true,
    };
    let (_, bytes) = indexed(request.convert(&info).unwrap().data);
    assert_eq!(bytes, vec![0, 0, 3 - 2 + 128, 1]);
    let request = MacroInput { depth: BitDepth::U16, rle: false, ..request };
    let words = direct(request.convert(&info).unwrap().data);
    assert_eq!(words, vec![0, 0, 0, 1]);
}

#[test]
fn default_request_is_direct_colour_without_compression() {
    let request = MacroInput::default();
    assert_eq!(request.name, "");
    assert_eq!(request.path, "");
    assert_eq!(request.depth, BitDepth::U16);
    assert!(!request.rle);
    assert_eq!(BitDepth::default(), BitDepth::U16);
}
