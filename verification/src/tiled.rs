//! Tiled output: the indices of an image in tile order, packed into words,
//! and the request that asks for it.

use crate::error::{
    Axis, CapacityError, ConvertError, DimensionError, FramingError, UnsupportedCombinationError,
};
use crate::fields::{is_word, Field, InputError};
use crate::layout::{lemma_tile_source_inverts, reorder, tile_count, tiled};
use crate::quantize::{index_bytes, narrow, validate, IndexWidth};
use crate::read_image::ImageInfo;
use crate::util::{
    consolidate_u4_u32, consolidate_u8_u32, copy_of, lemma_round_trip_u4_u32,
    lemma_round_trip_u8_u32, pack_u16_u32, packed_u16_u32, packed_u4_u32, packed_u8_u32,
    unpacked_u32_u4, unpacked_u32_u8,
};
use vstd::arithmetic::div_mod::{lemma_fundamental_div_mod, lemma_fundamental_div_mod_converse};
use vstd::prelude::*;

verus! {

/// The number of bits of a palette index in tiled output.
#[derive(Debug, Copy, Clone, Eq, PartialEq, Structural)]
pub enum BitDepth {
    U4,
    U8,
}

impl BitDepth {
    /// The depth of a number of bits: 4 and 8 are depths, no other number
    /// is.
    pub open spec fn spec_from_bits(bits: u64) -> Option<BitDepth> {
        if bits == 4 {
            Some(BitDepth::U4)
        } else if bits == 8 {
            Some(BitDepth::U8)
        } else {
            None
        }
    }

    /// The depth of a number of bits: 4 and 8 are depths, no other number
    /// is.
    #[verifier::when_used_as_spec(spec_from_bits)]
    pub fn from_bits(bits: u64) -> (depth: Option<BitDepth>)
        ensures
            depth == BitDepth::spec_from_bits(bits),
    {
        if bits == 4 {
            Some(BitDepth::U4)
        } else if bits == 8 {
            Some(BitDepth::U8)
        } else {
            None
        }
    }
}

impl Default for BitDepth {
    /// Tiles have 8-bit indices unless told otherwise.
    fn default() -> (depth: Self)
        ensures
            depth == BitDepth::U8,
    {
        BitDepth::U8
    }
}

/// The output of a tiled conversion.
#[derive(Debug, Clone)]
pub struct TiledImage {
    /// The number of tiles.
    pub tiles_count: usize,
    /// The palette, one colour word per entry.
    pub palette: Vec<u16>,
    /// The palette indices in tiled order, packed into 32-bit words: four
    /// to a word at 8 bits, eight to a word at 4 bits.
    pub tiles: Vec<u32>,
}

/// The packed words of an index buffer in tiled order at a depth.
pub open spec fn tiled_words(data: Seq<u16>, width: int, depth: BitDepth) -> Seq<u32> {
    let bytes = tiled(index_bytes(data), width);
    match depth {
        BitDepth::U4 => packed_u4_u32(bytes),
        BitDepth::U8 => packed_u8_u32(bytes),
    }
}

/// Why an image cannot be tiled at a depth, if it cannot: first a width that
/// is no multiple of 8, then such a height, then a palette too large for the
/// depth.
pub open spec fn tiled_refusal(info: ImageInfo, depth: BitDepth) -> Option<ConvertError> {
    if info.width % 8 != 0 {
        Some(ConvertError::Dimension(DimensionError { axis: Axis::Width, value: info.width }))
    } else if info.height % 8 != 0 {
        Some(ConvertError::Dimension(DimensionError { axis: Axis::Height, value: info.height }))
    } else if depth == BitDepth::U4 && info.colours@.len() > 16 {
        Some(
            ConvertError::UnsupportedCombination(UnsupportedCombinationError::FourBitTilesOverflow),
        )
    } else if depth == BitDepth::U8 && info.colours@.len() > 256 {
        Some(
            ConvertError::Capacity(
                CapacityError { actual: info.colours@.len() as usize, maximum: 256 },
            ),
        )
    } else {
        None
    }
}

/// `result` is what the tiled conversion of `info` at `depth` gives: the
/// failure that `tiled_refusal` names, or else the number of tiles, the
/// palette as it is, and the packed words of the tiled index buffer.
pub open spec fn converts_to(
    info: ImageInfo,
    depth: BitDepth,
    result: Result<TiledImage, ConvertError>,
) -> bool {
    match result {
        Ok(image) => {
            &&& tiled_refusal(info, depth) is None
            &&& image.tiles_count == tile_count(info.width as int, info.height as int)
            &&& image.palette@ == info.colours@
            &&& image.tiles@ == tiled_words(info.data@, info.width as int, depth)
        },
        Err(e) => tiled_refusal(info, depth) == Some(e),
    }
}

/// Converts an indexed image to tiled output at a depth: the palette as it
/// is, the number of tiles, and the indices in tiled order packed into
/// 32-bit words. It fails, and gives the reason, exactly where
/// `tiled_refusal` names one.
pub fn convert(info: &ImageInfo, depth: BitDepth) -> (result: Result<TiledImage, ConvertError>)
    requires
        info.wf(),
    ensures
        converts_to(*info, depth, result),
{
    if info.width % 8 != 0 {
        return Err(
            ConvertError::Dimension(DimensionError { axis: Axis::Width, value: info.width }),
        );
    }
    if info.height % 8 != 0 {
        return Err(
            ConvertError::Dimension(DimensionError { axis: Axis::Height, value: info.height }),
        );
    }
    match depth {
        BitDepth::U4 => {
            if validate(&info.colours, IndexWidth::U4).is_err() {
                return Err(
                    ConvertError::UnsupportedCombination(
                        UnsupportedCombinationError::FourBitTilesOverflow,
                    ),
                );
            }
        },
        BitDepth::U8 => {
            match validate(&info.colours, IndexWidth::U8) {
                Err(e) => {
                    return Err(ConvertError::Capacity(e));
                },
                Ok(()) => {},
            }
        },
    }
    let bytes = narrow(&info.data);
    let tiles = match reorder(&bytes, info.width, info.height) {
        Ok(tiles) => tiles,
        Err(e) => {
            return Err(ConvertError::Dimension(e));
        },
    };
    proof {
        lemma_tiles_fill_words(info.width as int, info.height as int);
    }
    let words = match depth {
        BitDepth::U4 => consolidate_u4_u32(tiles.data),
        BitDepth::U8 => consolidate_u8_u32(tiles.data),
    };
    Ok(TiledImage { tiles_count: tiles.count, palette: copy_of(&info.colours), tiles: words })
}

/// The sides of an image that can be tiled give a number of pixels that
/// fills whole words at either depth.
proof fn lemma_tiles_fill_words(width: int, height: int)
    requires
        width % 8 == 0,
        height % 8 == 0,
    ensures
        (width * height) % 8 == 0,
        (width * height) % 4 == 0,
{
    let cols = width / 8;
    let rows = height / 8;
    lemma_fundamental_div_mod(width, 8);
    lemma_fundamental_div_mod(height, 8);
    assert(width * height == 8 * (8 * (cols * rows)) && width * height == 4 * (16 * (cols * rows)))
        by (nonlinear_arith)
        requires
            width == 8 * cols,
            height == 8 * rows,
    ;
    lemma_fundamental_div_mod_converse(width * height, 8, 8 * (cols * rows), 0);
    lemma_fundamental_div_mod_converse(width * height, 4, 16 * (cols * rows), 0);
}

/// Tiled output is exact: the words of an image that can be tiled at a
/// depth, unpacked at that depth, are the palette indices of its pixels in
/// tiled order.
pub proof fn lemma_tiled_words_unpack(info: ImageInfo, depth: BitDepth)
    requires
        info.wf(),
        tiled_refusal(info, depth) is None,
    ensures
        ({
            let words = tiled_words(info.data@, info.width as int, depth);
            let indices = tiled(info.data@, info.width as int);
            match depth {
                BitDepth::U4 => unpacked_u32_u4(words) == index_bytes(indices),
                BitDepth::U8 => unpacked_u32_u8(words) == index_bytes(indices),
            }
        }),
{
    let width = info.width as int;
    let height = info.height as int;
    let bytes = tiled(index_bytes(info.data@), width);
    let indices = tiled(info.data@, width);
    lemma_tiles_fill_words(width, height);
    assert forall|k: int| 0 <= k < bytes.len() implies bytes[k] == index_bytes(indices)[k]
        && bytes[k] == indices[k] && indices[k] < info.colours@.len() by {
        lemma_tile_source_inverts(k, width, height);
    }
    assert(bytes =~= index_bytes(indices));
    match depth {
        BitDepth::U4 => {
            lemma_round_trip_u4_u32(bytes);
        },
        BitDepth::U8 => {
            lemma_round_trip_u8_u32(bytes);
        },
    }
}

impl TiledImage {
    /// The palette packed two colour words to a 32-bit word, the first in
    /// the lower half. A palette with an odd number of colours does not fill
    /// its last word and is refused.
    pub fn packed_palette(&self) -> (result: Result<Vec<u32>, FramingError>)
        ensures
            match result {
                Ok(words) => self.palette@.len() % 2 == 0 && words@ == packed_u16_u32(
                    self.palette@,
                ),
                Err(e) => self.palette@.len() % 2 != 0 && e == (FramingError {
                    length: self.palette@.len() as usize,
                    factor: 2,
                }),
            },
    {
        pack_u16_u32(copy_of(&self.palette))
    }
}

/// A request for a tiled conversion.
#[derive(Debug, Clone)]
pub struct MacroInput {
    /// The name under which the output is known.
    pub name: String,
    /// Where the image is found.
    pub path: String,
    /// The number of bits of a palette index.
    pub depth: BitDepth,
}

impl Default for MacroInput {
    /// The request without a name or a path, at 8 bits.
    fn default() -> (input: Self)
        ensures
            input.name@.len() == 0,
            input.path@.len() == 0,
            input.depth == BitDepth::U8,
    {
        MacroInput { name: String::new(), path: String::new(), depth: BitDepth::U8 }
    }
}

impl MacroInput {
    /// Converts an indexed image as the request asks.
    pub fn convert(&self, info: &ImageInfo) -> (result: Result<TiledImage, ConvertError>)
        requires
            info.wf(),
        ensures
            converts_to(*info, self.depth, result),
    {
        convert(info, self.depth)
    }
}

/// The field of a tiled request that a name stands for: `name`, `path` or
/// `depth`.
pub fn field_of(name: &String) -> (field: Option<Field>)
    ensures
        field == (if name@ == "name"@ {
            Some(Field::Name)
        } else if name@ == "path"@ {
            Some(Field::Path)
        } else if name@ == "depth"@ {
            Some(Field::Depth)
        } else {
            None
        }),
{
    if is_word(name, "name") {
        Some(Field::Name)
    } else if is_word(name, "path") {
        Some(Field::Path)
    } else if is_word(name, "depth") {
        Some(Field::Depth)
    } else {
        None
    }
}

/// A tiled request while its fields are read, one after the other.
#[derive(Debug, Clone)]
pub struct InputBuilder {
    pub name: Option<String>,
    pub path: Option<String>,
    pub depth: Option<BitDepth>,
}

impl InputBuilder {
    /// The request of which no field has been read.
    pub fn new() -> (builder: Self)
        ensures
            builder.name is None,
            builder.path is None,
            builder.depth is None,
    {
        InputBuilder { name: None, path: None, depth: None }
    }

    /// Whether a field has been read. A tiled request never holds a choice
    /// of run-length encoding.
    pub open spec fn holds(&self, field: Field) -> bool {
        match field {
            Field::Name => self.name is Some,
            Field::Path => self.path is Some,
            Field::Depth => self.depth is Some,
            Field::Rle => false,
        }
    }

    /// Tests whether a field has been read.
    pub fn is_set(&self, field: Field) -> (set: bool)
        ensures
            set == self.holds(field),
    {
        match field {
            Field::Name => self.name.is_some(),
            Field::Path => self.path.is_some(),
            Field::Depth => self.depth.is_some(),
            Field::Rle => false,
        }
    }

    /// Takes the name. A second name is refused.
    pub fn set_name(self, value: String) -> (result: Result<Self, InputError>)
        ensures
            match result {
                Ok(next) => self.name is None && next == (InputBuilder { name: Some(value), ..self }),
                Err(e) => self.name is Some && e == InputError::Duplicate(Field::Name),
            },
    {
        if self.name.is_some() {
            return Err(InputError::Duplicate(Field::Name));
        }
        Ok(InputBuilder { name: Some(value), path: self.path, depth: self.depth })
    }

    /// Takes the path. A second path is refused.
    pub fn set_path(self, value: String) -> (result: Result<Self, InputError>)
        ensures
            match result {
                Ok(next) => self.path is None && next == (InputBuilder { path: Some(value), ..self }),
                Err(e) => self.path is Some && e == InputError::Duplicate(Field::Path),
            },
    {
        if self.path.is_some() {
            return Err(InputError::Duplicate(Field::Path));
        }
        Ok(InputBuilder { name: self.name, path: Some(value), depth: self.depth })
    }

    /// Takes the depth, in bits. A second depth is refused, and so is a
    /// number of bits other than 4 and 8.
    pub fn set_depth(self, bits: u64) -> (result: Result<Self, InputError>)
        ensures
            match result {
                Ok(next) => {
                    &&& self.depth is None
                    &&& BitDepth::from_bits(bits) is Some
                    &&& next == (InputBuilder { depth: BitDepth::from_bits(bits), ..self })
                },
                Err(e) => if self.depth is Some {
                    e == InputError::Duplicate(Field::Depth)
                } else {
                    BitDepth::from_bits(bits) is None && e == InputError::InvalidDepth(bits)
                },
            },
    {
        if self.depth.is_some() {
            return Err(InputError::Duplicate(Field::Depth));
        }
        match BitDepth::from_bits(bits) {
            Some(depth) => Ok(InputBuilder { name: self.name, path: self.path, depth: Some(depth) }),
            None => Err(InputError::InvalidDepth(bits)),
        }
    }

    /// Closes the request. The path and the name must have been read; if
    /// both are missing, the path is named. A depth that was not read is
    /// 8 bits.
    pub fn finish(self) -> (result: Result<MacroInput, InputError>)
        ensures
            match result {
                Ok(input) => {
                    &&& self.path == Some(input.path)
                    &&& self.name == Some(input.name)
                    &&& input.depth == (match self.depth {
                        Some(depth) => depth,
                        None => BitDepth::U8,
                    })
                },
                Err(e) => if self.path is None {
                    e == InputError::MissingPath
                } else {
                    self.name is None && e == InputError::MissingName
                },
            },
    {
        let path = match self.path {
            Some(path) => path,
            None => {
                return Err(InputError::MissingPath);
            },
        };
        let name = match self.name {
            Some(name) => name,
            None => {
                return Err(InputError::MissingName);
            },
        };
        let depth = match self.depth {
            Some(depth) => depth,
            None => BitDepth::default(),
        };
        Ok(MacroInput { name, path, depth })
    }
}

} // verus!
