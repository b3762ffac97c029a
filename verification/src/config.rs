//! The configuration of a batch of conversions.

use crate::bitmap;
use crate::fields::is_word;
use crate::tiled;
use std::collections::HashMap;
use vstd::prelude::*;

verus! {

/// Where the images are read, where the output goes, and how each image is
/// converted, by its key.
#[derive(Debug, Clone)]
pub struct Config {
    pub out_dir: String,
    pub work_dir: String,
    pub images: HashMap<String, ImageConfig>,
}

impl Default for Config {
    /// No images, read from `./assets` and written to `./src/assets`.
    fn default() -> (config: Self)
        ensures
            config.images@ == Map::<String, ImageConfig>::empty(),
            config.out_dir@ == "./src/assets"@,
            config.work_dir@ == "./assets"@,
    {
        Config {
            images: HashMap::new(),
            out_dir: "./src/assets".to_owned(),
            work_dir: "./assets".to_owned(),
        }
    }
}

/// How one image is converted: whole, or cut into tiles.
#[derive(Debug, Clone)]
pub enum ImageConfig {
    FullImage(FullImageConfig),
    TiledImage(TiledImageConfig),
}

/// The names that an image's output is given, where they are not derived
/// from its key.
#[derive(Debug, Clone)]
pub struct BaseConfig {
    pub file_name: Option<String>,
    pub const_name: Option<String>,
    pub palette_name: Option<String>,
}

impl Default for BaseConfig {
    /// No name is set.
    fn default() -> (cfg: Self)
        ensures
            cfg.file_name is None,
            cfg.const_name is None,
            cfg.palette_name is None,
    {
        BaseConfig { file_name: None, const_name: None, palette_name: None }
    }
}

/// The depth of a full image, written `16bit` or `8bit`.
#[derive(Debug, Clone, Copy, PartialEq, Eq, Structural)]
pub enum FullImageTargetDepth {
    U16,
    U8,
}

impl FullImageTargetDepth {
    /// The depth as the full-image conversion takes it.
    pub open spec fn spec_bit_depth(self) -> bitmap::BitDepth {
        match self {
            FullImageTargetDepth::U16 => bitmap::BitDepth::U16,
            FullImageTargetDepth::U8 => bitmap::BitDepth::U8,
        }
    }

    /// The depth as the full-image conversion takes it.
    #[verifier::when_used_as_spec(spec_bit_depth)]
    pub fn bit_depth(self) -> (depth: bitmap::BitDepth)
        ensures
            depth == self.spec_bit_depth(),
    {
        match self {
            FullImageTargetDepth::U16 => bitmap::BitDepth::U16,
            FullImageTargetDepth::U8 => bitmap::BitDepth::U8,
        }
    }

    /// The depth that a configuration writes as `text`: `16bit` or `8bit`.
    pub fn from_name(text: &String) -> (depth: Option<FullImageTargetDepth>)
        ensures
            depth == (if text@ == "16bit"@ {
                Some(FullImageTargetDepth::U16)
            } else if text@ == "8bit"@ {
                Some(FullImageTargetDepth::U8)
            } else {
                None
            }),
    {
        if is_word(text, "16bit") {
            Some(FullImageTargetDepth::U16)
        } else if is_word(text, "8bit") {
            Some(FullImageTargetDepth::U8)
        } else {
            None
        }
    }
}

/// The configuration of a full image.
#[derive(Debug, Clone)]
pub struct FullImageConfig {
    pub cfg: BaseConfig,
    pub depth: FullImageTargetDepth,
}

/// The depth of a tiled image, written `8bit` or `4bit`.
#[derive(Debug, Clone, Copy, PartialEq, Eq, Structural)]
pub enum TiledImageTargetDepth {
    U8,
    U4,
}

impl TiledImageTargetDepth {
    /// The depth as the tiled conversion takes it.
    pub open spec fn spec_bit_depth(self) -> tiled::BitDepth {
        match self {
            TiledImageTargetDepth::U8 => tiled::BitDepth::U8,
            TiledImageTargetDepth::U4 => tiled::BitDepth::U4,
        }
    }

    /// The depth as the tiled conversion takes it.
    #[verifier::when_used_as_spec(spec_bit_depth)]
    pub fn bit_depth(self) -> (depth: tiled::BitDepth)
        ensures
            depth == self.spec_bit_depth(),
    {
        match self {
            TiledImageTargetDepth::U8 => tiled::BitDepth::U8,
            TiledImageTargetDepth::U4 => tiled::BitDepth::U4,
        }
    }

    /// The depth that a configuration writes as `text`: `8bit` or `4bit`.
    pub fn from_name(text: &String) -> (depth: Option<TiledImageTargetDepth>)
        ensures
            depth == (if text@ == "8bit"@ {
                Some(TiledImageTargetDepth::U8)
            } else if text@ == "4bit"@ {
                Some(TiledImageTargetDepth::U4)
            } else {
                None
            }),
    {
        if is_word(text, "8bit") {
            Some(TiledImageTargetDepth::U8)
        } else if is_word(text, "4bit") {
            Some(TiledImageTargetDepth::U4)
        } else {
            None
        }
    }
}

/// The configuration of a tiled image.
#[derive(Debug, Clone)]
pub struct TiledImageConfig {
    pub cfg: BaseConfig,
    pub depth: TiledImageTargetDepth,
}

impl ImageConfig {
    /// The configuration of an image of the kind that is written `kind`,
    /// `full` or `tiled`, at the depth that is written `depth`. There is none
    /// where the kind is another word, or the depth is none of that kind.
    pub fn from_entry(kind: &String, depth: &String, cfg: BaseConfig) -> (config: Option<
        ImageConfig,
    >)
        ensures
            config == (if kind@ == "full"@ {
                if depth@ == "16bit"@ {
                    Some(
                        ImageConfig::FullImage(
                            FullImageConfig { cfg, depth: FullImageTargetDepth::U16 },
                        ),
                    )
                } else if depth@ == "8bit"@ {
                    Some(
                        ImageConfig::FullImage(
                            FullImageConfig { cfg, depth: FullImageTargetDepth::U8 },
                        ),
                    )
                } else {
                    None
                }
            } else if kind@ == "tiled"@ {
                if depth@ == "8bit"@ {
                    Some(
                        ImageConfig::TiledImage(
                            TiledImageConfig { cfg, depth: TiledImageTargetDepth::U8 },
                        ),
                    )
                } else if depth@ == "4bit"@ {
                    Some(
                        ImageConfig::TiledImage(
                            TiledImageConfig { cfg, depth: TiledImageTargetDepth::U4 },
                        ),
                    )
                } else {
                    None
                }
            } else {
                None
            }),
    {
        if is_word(kind, "full") {
            match FullImageTargetDepth::from_name(depth) {
                Some(depth) => Some(ImageConfig::FullImage(FullImageConfig { cfg, depth })),
                None => None,
            }
        } else if is_word(kind, "tiled") {
            match TiledImageTargetDepth::from_name(depth) {
                Some(depth) => Some(ImageConfig::TiledImage(TiledImageConfig { cfg, depth })),
                None => None,
            }
        } else {
            None
        }
    }
}

} // verus!
