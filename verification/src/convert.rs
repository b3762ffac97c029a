//! The conversion of one image as its configuration asks.

use crate::bitmap;
use crate::bitmap::Bitmap;
use crate::config::ImageConfig;
use crate::error::ConvertError;
use crate::read_image::ImageInfo;
use crate::tiled;
use crate::tiled::TiledImage;
use vstd::prelude::*;

verus! {

/// The file endings under which the image of a key is looked for, in the
/// order in which they are tried: `png`, `tga`, `jpg`, `jpeg`. There is no
/// fifth attempt.
pub fn file_ending(attempt: usize) -> (ending: Option<&'static str>)
    ensures
        attempt == 0 ==> ending == Some("png"),
        attempt == 1 ==> ending == Some("tga"),
        attempt == 2 ==> ending == Some("jpg"),
        attempt == 3 ==> ending == Some("jpeg"),
        attempt >= 4 ==> ending is None,
{
    if attempt == 0 {
        Some("png")
    } else if attempt == 1 {
        Some("tga")
    } else if attempt == 2 {
        Some("jpg")
    } else if attempt == 3 {
        Some("jpeg")
    } else {
        None
    }
}

/// The output of a conversion, of either kind.
#[derive(Debug, Clone)]
pub enum Converted {
    Full(Bitmap),
    Tiled(TiledImage),
}

/// `result` is what the conversion of `info` under `config` gives: for a
/// full image the result of the full-image conversion at the configured
/// depth without run-length encoding, for a tiled image that of the tiled
/// conversion at the configured depth.
pub open spec fn converts_to(
    info: ImageInfo,
    config: ImageConfig,
    result: Result<Converted, ConvertError>,
) -> bool {
    match config {
        ImageConfig::FullImage(full) => match result {
            Ok(Converted::Full(bitmap)) => bitmap::converts_to(
                info,
                full.depth.bit_depth(),
                false,
                Ok(bitmap),
            ),
            Ok(Converted::Tiled(_)) => false,
            Err(e) => bitmap::converts_to(info, full.depth.bit_depth(), false, Err(e)),
        },
        ImageConfig::TiledImage(tiles) => match result {
            Ok(Converted::Tiled(image)) => tiled::converts_to(
                info,
                tiles.depth.bit_depth(),
                Ok(image),
            ),
            Ok(Converted::Full(_)) => false,
            Err(e) => tiled::converts_to(info, tiles.depth.bit_depth(), Err(e)),
        },
    }
}

/// Converts an indexed image as its configuration asks.
pub fn convert_image(info: &ImageInfo, config: &ImageConfig) -> (result: Result<
    Converted,
    ConvertError,
>)
    requires
        info.wf(),
    ensures
        converts_to(*info, *config, result),
{
    match config {
        ImageConfig::FullImage(full) => {
            match bitmap::convert(info, full.depth.bit_depth(), false) {
                Ok(bitmap) => Ok(Converted::Full(bitmap)),
                Err(e) => Err(e),
            }
        },
        ImageConfig::TiledImage(tiles) => {
            match tiled::convert(info, tiles.depth.bit_depth()) {
                Ok(image) => Ok(Converted::Tiled(image)),
                Err(e) => Err(e),
            }
        },
    }
}

} // verus!
