//! Full-image output: palette-indexed bytes, with or without run-length
//! compression, or one colour word per pixel.

use crate::error::{CapacityError, ConvertError, UnsupportedCombinationError};
use crate::fields::{is_word, Field, InputError};
use crate::quantize::{index_bytes, narrow, validate, IndexWidth};
use crate::read_image::{
    colour_of, colours_of, expanded, indexes, lemma_expanded_is_colours, ImageInfo, Rgba,
};
use crate::util::copy_of;
use std::io::Write;
use vstd::prelude::*;

verus! {

/// The number of bits of a pixel in full-image output.
#[derive(Debug, Copy, Clone, Eq, PartialEq, Structural)]
pub enum BitDepth {
    /// 8-bit palette indices.
    U8,
    /// 16-bit direct colour.
    U16,
}

impl BitDepth {
    /// The depth of a number of bits: 8 and 16 are depths, no other number
    /// is.
    pub open spec fn spec_from_bits(bits: u64) -> Option<BitDepth> {
        if bits == 8 {
            Some(BitDepth::U8)
        } else if bits == 16 {
            Some(BitDepth::U16)
        } else {
            None
        }
    }

    /// The depth of a number of bits: 8 and 16 are depths, no other number
    /// is.
    #[verifier::when_used_as_spec(spec_from_bits)]
    pub fn from_bits(bits: u64) -> (depth: Option<BitDepth>)
        ensures
            depth == BitDepth::spec_from_bits(bits),
    {
        if bits == 8 {
            Some(BitDepth::U8)
        } else if bits == 16 {
            Some(BitDepth::U16)
        } else {
            None
        }
    }
}

impl Default for BitDepth {
    /// Full images are in direct colour unless told otherwise.
    fn default() -> (depth: Self)
        ensures
            depth == BitDepth::U16,
    {
        BitDepth::U16
    }
}

/// The pixel data of a full image.
#[derive(Debug, Clone)]
pub enum PixelData {
    /// A palette, and the pixels as bytes: one palette index per pixel, or
    /// the run-length encoding of those indices.
    Indexed { palette: Vec<u16>, bytes: Vec<u8> },
    /// One colour word per pixel.
    Direct { pixels: Vec<u16> },
}

/// The output of a full-image conversion.
#[derive(Debug, Clone)]
pub struct Bitmap {
    pub width: usize,
    pub height: usize,
    pub data: PixelData,
}

impl Bitmap {
    /// The indexed output of an image whose pixel bytes are `bytes`: the
    /// size and the palette of the image, with those bytes.
    pub fn indexed(info: &ImageInfo, bytes: Vec<u8>) -> (bitmap: Bitmap)
        ensures
            bitmap.width == info.width,
            bitmap.height == info.height,
            bitmap.data matches PixelData::Indexed { palette, bytes: held } && palette@
                == info.colours@ && held == bytes,
    {
        Bitmap {
            width: info.width as usize,
            height: info.height as usize,
            data: PixelData::Indexed { palette: copy_of(&info.colours), bytes },
        }
    }

    /// The direct-colour output of an image: its size, and the colour word
    /// of each pixel.
    pub fn direct(info: &ImageInfo) -> (bitmap: Bitmap)
        requires
            info.wf(),
        ensures
            bitmap.width == info.width,
            bitmap.height == info.height,
            bitmap.data matches PixelData::Direct { pixels } && pixels@ == expanded(
                info.colours@,
                info.data@,
            ),
    {
        Bitmap {
            width: info.width as usize,
            height: info.height as usize,
            data: PixelData::Direct { pixels: info.direct_colours() },
        }
    }
}

/// The bytes that the run-length encoder of the `compress` crate writes for
/// a byte sequence that it is given in one piece.
pub uninterp spec fn rle_encoded(bytes: Seq<u8>) -> Seq<u8>;

/// Runs `compress::rle::Encoder` over `bytes`: a new encoder on an empty
/// vector, one `write_all` of the bytes, then `finish`, whose first
/// component is what was written. Trusted: the encoder keeps no state
/// beyond its input, so what it writes depends on the bytes alone, and
/// writing to a vector does not fail.
#[verifier::external_body]
fn rle_compress(bytes: &Vec<u8>) -> (encoded: Vec<u8>)
    ensures
        encoded@ == rle_encoded(bytes@),
{
    let mut encoder = compress::rle::Encoder::new(Vec::new());
    encoder.write_all(&bytes[..]).unwrap();
    encoder.finish().0
}

/// The bytes of indexed output: the indices, run-length encoded if asked.
pub open spec fn indexed_bytes(data: Seq<u16>, rle: bool) -> Seq<u8> {
    if rle {
        rle_encoded(index_bytes(data))
    } else {
        index_bytes(data)
    }
}

/// Why an image cannot be converted at a depth, if it cannot: more than 256
/// colours at 8 bits, or run-length compression at 16 bits.
pub open spec fn bitmap_refusal(info: ImageInfo, depth: BitDepth, rle: bool) -> Option<
    ConvertError,
> {
    match depth {
        BitDepth::U8 => if info.colours@.len() > 256 {
            Some(
                ConvertError::Capacity(
                    CapacityError { actual: info.colours@.len() as usize, maximum: 256 },
                ),
            )
        } else {
            None
        },
        BitDepth::U16 => if rle {
            Some(
                ConvertError::UnsupportedCombination(
                    UnsupportedCombinationError::RleWithDirectColour,
                ),
            )
        } else {
            None
        },
    }
}

/// `result` is what the conversion of `info` at `depth` gives: the failure
/// that `bitmap_refusal` names, or else the size of the image with, at
/// 8 bits, the palette and the indexed bytes, and at 16 bits the colour word
/// of each pixel.
pub open spec fn converts_to(
    info: ImageInfo,
    depth: BitDepth,
    rle: bool,
    result: Result<Bitmap, ConvertError>,
) -> bool {
    match result {
        Ok(bitmap) => {
            &&& bitmap_refusal(info, depth, rle) is None
            &&& bitmap.width == info.width
            &&& bitmap.height == info.height
            &&& match depth {
                BitDepth::U8 => bitmap.data matches PixelData::Indexed { palette, bytes } && palette@
                    == info.colours@ && bytes@ == indexed_bytes(info.data@, rle),
                BitDepth::U16 => bitmap.data matches PixelData::Direct { pixels } && pixels@
                    == expanded(info.colours@, info.data@),
            }
        },
        Err(e) => bitmap_refusal(info, depth, rle) == Some(e),
    }
}

/// Converts an indexed image to full-image output. At 8 bits the output is
/// the palette and one index byte per pixel, run-length encoded if `rle` is
/// set. At 16 bits it is the colour word of each pixel, looked up through
/// the pixel's index. It fails, and gives the reason, exactly where
/// `bitmap_refusal` names one.
pub fn convert(info: &ImageInfo, depth: BitDepth, rle: bool) -> (result: Result<
    Bitmap,
    ConvertError,
>)
    requires
        info.wf(),
    ensures
        converts_to(*info, depth, rle, result),
{
    match depth {
        BitDepth::U8 => {
            match validate(&info.colours, IndexWidth::U8) {
                Err(e) => {
                    return Err(ConvertError::Capacity(e));
                },
                Ok(()) => {},
            }
            let indices = narrow(&info.data);
            let bytes = if rle {
                rle_compress(&indices)
            } else {
                indices
            };
            Ok(Bitmap::indexed(info, bytes))
        },
        BitDepth::U16 => {
            if rle {
                return Err(
                    ConvertError::UnsupportedCombination(
                        UnsupportedCombinationError::RleWithDirectColour,
                    ),
                );
            }
            Ok(Bitmap::direct(info))
        },
    }
}

/// Direct-colour output is exact: where `info` is the indexing of `pixels`,
/// the conversion at 16 bits gives the colour word of each pixel.
pub proof fn lemma_direct_colour_is_exact(pixels: Seq<Rgba>, info: ImageInfo, bitmap: Bitmap)
    requires
        indexes(info.colours@, info.data@, pixels),
        converts_to(info, BitDepth::U16, false, Ok(bitmap)),
    ensures
        bitmap.data matches PixelData::Direct { pixels: words } && words@ == colours_of(pixels),
{
    lemma_expanded_is_colours(pixels, info.colours@, info.data@);
}

/// Indexed output without compression is exact: where `info` is the indexing
/// of `pixels`, the conversion at 8 bits gives one byte per pixel, and the
/// palette entry that the byte names is the colour word of the pixel.
pub proof fn lemma_indexed_is_exact(pixels: Seq<Rgba>, info: ImageInfo, bitmap: Bitmap)
    requires
        indexes(info.colours@, info.data@, pixels),
        converts_to(info, BitDepth::U8, false, Ok(bitmap)),
    ensures
        bitmap.data matches PixelData::Indexed { palette, bytes } && bytes@.len() == pixels.len()
            && forall|i: int|
            0 <= i < pixels.len() ==> palette@[(#[trigger] bytes@[i]) as int] == colour_of(
                pixels[i],
            ),
{
    assert forall|i: int| 0 <= i < pixels.len() implies index_bytes(info.data@)[i]
        == info.data@[i] by {
        assert(info.data@[i] < info.colours@.len() <= 256);
    }
}

/// A request for a full-image conversion.
#[derive(Debug, Clone)]
pub struct MacroInput {
    /// The name under which the output is known.
    pub name: String,
    /// Where the image is found.
    pub path: String,
    /// The number of bits of a pixel.
    pub depth: BitDepth,
    /// Whether indexed pixel data is run-length encoded.
    pub rle: bool,
}

impl Default for MacroInput {
    /// The request without a name or a path, in direct colour, uncompressed.
    fn default() -> (input: Self)
        ensures
            input.name@.len() == 0,
            input.path@.len() == 0,
            input.depth == BitDepth::U16,
            !input.rle,
    {
        MacroInput { name: String::new(), path: String::new(), depth: BitDepth::U16, rle: false }
    }
}

impl MacroInput {
    /// Converts an indexed image as the request asks.
    pub fn convert(&self, info: &ImageInfo) -> (result: Result<Bitmap, ConvertError>)
        requires
            info.wf(),
        ensures
            converts_to(*info, self.depth, self.rle, result),
    {
        convert(info, self.depth, self.rle)
    }
}

/// The field of a full-image request that a name stands for: `name`, `path`,
/// `depth` or `rle`.
pub fn field_of(name: &String) -> (field: Option<Field>)
    ensures
        field == (if name@ == "name"@ {
            Some(Field::Name)
        } else if name@ == "path"@ {
            Some(Field::Path)
        } else if name@ == "depth"@ {
            Some(Field::Depth)
        } else if name@ == "rle"@ {
            Some(Field::Rle)
        } else {
            None
        }),
{
    if is_word(name, "name") {
        Some(Field::Name)
    } else if is_word(name, "path") {
        Some(Field::Path)
    } else if is_word(name, "depth") {
        Some(Field::Depth)
    } else if is_word(name, "rle") {
        Some(Field::Rle)
    } else {
        None
    }
}

/// A full-image request while its fields are read, one after the other.
#[derive(Debug, Clone)]
pub struct InputBuilder {
    pub name: Option<String>,
    pub path: Option<String>,
    pub depth: Option<BitDepth>,
    pub rle: Option<bool>,
}

impl InputBuilder {
    /// The request of which no field has been read.
    pub fn new() -> (builder: Self)
        ensures
            builder.name is None,
            builder.path is None,
            builder.depth is None,
            builder.rle is None,
    {
        InputBuilder { name: None, path: None, depth: None, rle: None }
    }

    /// Whether a field has been read.
    pub open spec fn holds(&self, field: Field) -> bool {
        match field {
            Field::Name => self.name is Some,
            Field::Path => self.path is Some,
            Field::Depth => self.depth is Some,
            Field::Rle => self.rle is Some,
        }
    }

    /// Tests whether a field has been read.
    pub fn is_set(&self, field: Field) -> (set: bool)
        ensures
            set == self.holds(field),
    {
        match field {
            Field::Name => self.name.is_some(),
            Field::Path => self.path.is_some(),
            Field::Depth => self.depth.is_some(),
            Field::Rle => self.rle.is_some(),
        }
    }

    /// Takes the name. A second name is refused.
    pub fn set_name(self, value: String) -> (result: Result<Self, InputError>)
        ensures
            match result {
                Ok(next) => self.name is None && next == (InputBuilder { name: Some(value), ..self }),
                Err(e) => self.name is Some && e == InputError::Duplicate(Field::Name),
            },
    {
        if self.name.is_some() {
            return Err(InputError::Duplicate(Field::Name));
        }
        Ok(InputBuilder { name: Some(value), path: self.path, depth: self.depth, rle: self.rle })
    }

    /// Takes the path. A second path is refused.
    pub fn set_path(self, value: String) -> (result: Result<Self, InputError>)
        ensures
            match result {
                Ok(next) => self.path is None && next == (InputBuilder { path: Some(value), ..self }),
                Err(e) => self.path is Some && e == InputError::Duplicate(Field::Path),
            },
    {
        if self.path.is_some() {
            return Err(InputError::Duplicate(Field::Path));
        }
        Ok(InputBuilder { name: self.name, path: Some(value), depth: self.depth, rle: self.rle })
    }

    /// Takes the depth, in bits. A second depth is refused, and so is a
    /// number of bits other than 8 and 16.
    pub fn set_depth(self, bits: u64) -> (result: Result<Self, InputError>)
        ensures
            match result {
                Ok(next) => {
                    &&& self.depth is None
                    &&& BitDepth::from_bits(bits) is Some
                    &&& next == (InputBuilder { depth: BitDepth::from_bits(bits), ..self })
                },
                Err(e) => if self.depth is Some {
                    e == InputError::Duplicate(Field::Depth)
                } else {
                    BitDepth::from_bits(bits) is None && e == InputError::InvalidDepth(bits)
                },
            },
    {
        if self.depth.is_some() {
            return Err(InputError::Duplicate(Field::Depth));
        }
        match BitDepth::from_bits(bits) {
            Some(depth) => Ok(
                InputBuilder { name: self.name, path: self.path, depth: Some(depth), rle: self.rle },
            ),
            None => Err(InputError::InvalidDepth(bits)),
        }
    }

    /// Takes the choice of run-length encoding. A second choice is refused.
    pub fn set_rle(self, value: bool) -> (result: Result<Self, InputError>)
        ensures
            match result {
                Ok(next) => self.rle is None && next == (InputBuilder { rle: Some(value), ..self }),
                Err(e) => self.rle is Some && e == InputError::Duplicate(Field::Rle),
            },
    {
        if self.rle.is_some() {
            return Err(InputError::Duplicate(Field::Rle));
        }
        Ok(InputBuilder { name: self.name, path: self.path, depth: self.depth, rle: Some(value) })
    }

    /// Closes the request. The path and the name must have been read; if
    /// both are missing, the path is named. A depth that was not read is
    /// 16 bits, and run-length encoding that was not chosen is off.
    pub fn finish(self) -> (result: Result<MacroInput, InputError>)
        ensures
            match result {
                Ok(input) => {
                    &&& self.path == Some(input.path)
                    &&& self.name == Some(input.name)
                    &&& input.depth == (match self.depth {
                        Some(depth) => depth,
                        None => BitDepth::U16,
                    })
                    &&& input.rle == (match self.rle {
                        Some(rle) => rle,
                        None => false,
                    })
                },
                Err(e) => if self.path is None {
                    e == InputError::MissingPath
                } else {
                    self.name is None && e == InputError::MissingName
                },
            },
    {
        let path = match self.path {
            Some(path) => path,
            None => {
                return Err(InputError::MissingPath);
            },
        };
        let name = match self.name {
            Some(name) => name,
            None => {
                return Err(InputError::MissingName);
            },
        };
        let depth = match self.depth {
            Some(depth) => depth,
            None => BitDepth::U16,
        };
        let rle = match self.rle {
            Some(rle) => rle,
            None => false,
        };
        Ok(MacroInput { name, path, depth, rle })
    }
}

} // verus!
