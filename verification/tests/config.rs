use gba_convert::bitmap::PixelData;
use gba_convert::config::{
    BaseConfig, Config, FullImageConfig, FullImageTargetDepth, ImageConfig, TiledImageConfig,
    TiledImageTargetDepth,
};
use gba_convert::convert::{convert_image, file_ending, Converted};
use gba_convert::error::{Axis, ConvertError, DimensionError};
use gba_convert::read_image::{read_image, Rgba};
use gba_convert::{bitmap, tiled};

const TEST_CONFIG: &str = r#"
out_dir = "./src/images"
work_dir = "./assets"

[images.image1]
type = "tiled"
depth = "8bit"

[images.image2]
type = "full"
depth = "16bit"
    "#;

fn text(table: &toml::Table, key: &str) -> Option<String> {
    table.get(key).and_then(|value| value.as_str()).map(|value| value.to_string())
}

fn decode(source: &str) -> Config {
    let table: toml::Table = toml::from_str(source).unwrap();
    let mut config = Config::default();
    if let Some(out_dir) = text(&table, "out_dir") {
        config.out_dir = out_dir;
    }
    if let Some(work_dir) = text(&table, "work_dir") {
        config.work_dir = work_dir;
    }
    if let Some(images) = table.get("images").and_then(|value| value.as_table()) {
        for (key, value) in images.iter() {
            let entry = value.as_table().unwrap();
            let cfg = BaseConfig {
                file_name: text(entry, "file_name"),
                const_name: text(entry, "const_name"),
                palette_name: text(entry, "palette_name"),
            };
            let kind = text(entry, "type").unwrap();
            let depth = text(entry, "depth").unwrap();
            let image = ImageConfig::from_entry(&kind, &depth, cfg).unwrap();
            config.images.insert(key.clone(), image);
        }
    }
    config
}

#[test]
fn parsing() {
    let decoded: Config = decode(TEST_CONFIG);

    assert_eq!(decoded.out_dir, "./src/images");
    assert_eq!(decoded.work_dir, "./assets");
    assert_eq!(decoded.images.len(), 2);

    match &decoded.images["image1"] {
        ImageConfig::TiledImage(cfg) => {
            assert_eq!(cfg.depth, TiledImageTargetDepth::U8);
        }
        _ => panic!(),
    };

    match &decoded.images["image2"] {
        ImageConfig::FullImage(cfg) => {
            assert_eq!(cfg.depth, FullImageTargetDepth::U16);
        }
        _ => panic!(),
    };
}

#[test]
fn default_config_reads_assets_and_writes_sources() {
    let config = Config::default();
    assert_eq!(config.out_dir, "./src/assets");
    assert_eq!(config.work_dir, "./assets");
    assert!(config.images.is_empty());
}

#[test]
fn default_base_config_sets_no_name() {
    let cfg = BaseConfig::default();
    assert!(cfg.file_name.is_none());
    assert!(cfg.const_name.is_none());
    assert!(cfg.palette_name.is_none());
}

#[test]
fn depths_are_read_from_their_names() {
    assert_eq!(FullImageTargetDepth::from_name(&"16bit".to_string()), Some(FullImageTargetDepth::U16));
    assert_eq!(FullImageTargetDepth::from_name(&"8bit".to_string()), Some(FullImageTargetDepth::U8));
    assert_eq!(FullImageTargetDepth::from_name(&"4bit".to_string()), None);
    assert_eq!(FullImageTargetDepth::from_name(&"".to_string()), None);
    assert_eq!(TiledImageTargetDepth::from_name(&"8bit".to_string()), Some(TiledImageTargetDepth::U8));
    assert_eq!(TiledImageTargetDepth::from_name(&"4bit".to_string()), Some(TiledImageTargetDepth::U4));
    assert_eq!(TiledImageTargetDepth::from_name(&"16bit".to_string()), None);
    assert_eq!(TiledImageTargetDepth::from_name(&"8BIT".to_string()), None);
}

#[test]
fn depths_map_to_the_depths_of_the_conversions() {
    assert_eq!(FullImageTargetDepth::U16.bit_depth(), bitmap::BitDepth::U16);
    assert_eq!(FullImageTargetDepth::U8.bit_depth(), bitmap::BitDepth::U8);
    assert_eq!(TiledImageTargetDepth::U8.bit_depth(), tiled::BitDepth::U8);
    assert_eq!(TiledImageTargetDepth::U4.bit_depth(), tiled::BitDepth::U4);
}

#[test]
fn entries_of_an_unknown_kind_or_depth_give_no_configuration() {
    let full = "full".to_string();
    let tiled = "tiled".to_string();
    assert!(ImageConfig::from_entry(&full, &"4bit".to_string(), BaseConfig::default()).is_none());
    assert!(ImageConfig::from_entry(&tiled, &"16bit".to_string(), BaseConfig::default()).is_none());
    assert!(ImageConfig::from_entry(&"sprite".to_string(), &"8bit".to_string(), BaseConfig::default())
        .is_none());
    match ImageConfig::from_entry(&full, &"8bit".to_string(), BaseConfig::default()) {
        Some(ImageConfig::FullImage(cfg)) => assert_eq!(cfg.depth, FullImageTargetDepth::U8),
        _ => panic!(),
    }
    match ImageConfig::from_entry(&tiled, &"4bit".to_string(), BaseConfig::default()) {
        Some(ImageConfig::TiledImage(cfg)) => assert_eq!(cfg.depth, TiledImageTargetDepth::U4),
        _ => panic!(),
    }
}

#[test]
fn entry_keeps_its_names() {
    let cfg = BaseConfig {
        file_name: Some("ship.png".to_string()),
        const_name: Some("SHIP".to_string()),
        palette_name: None,
    };
    match ImageConfig::from_entry(&"full".to_string(), &"16bit".to_string(), cfg) {
        Some(ImageConfig::FullImage(full)) => {
            assert_eq!(full.cfg.file_name.as_deref(), Some("ship.png"));
            assert_eq!(full.cfg.const_name.as_deref(), Some("SHIP"));
            assert_eq!(full.cfg.palette_name, None);
        }
        _ => panic!(),
    }
}

#[test]
fn image_is_converted_as_its_configuration_asks() {
    let pixels: Vec<Rgba> = (0..64)
        .map(|i| Rgba { red: ((i % 2) * 8) as u8, green: 0, blue: 0, alpha: 255 })
        .collect();
    let info = read_image(8, 8, &pixels);

    let full = ImageConfig::FullImage(FullImageConfig {
        cfg: BaseConfig::default(),
        depth: FullImageTargetDepth::U8,
    });
    match convert_image(&info, &full) {
        Ok(Converted::Full(bitmap)) => match bitmap.data {
            PixelData::Indexed { palette, bytes } => {
                assert_eq!(palette, vec![0, 1]);
                assert_eq!(bytes.len(), 64);
                assert_eq!(&bytes[0..4], &[0, 1, 0, 1]);
            }
            _ => panic!(),
        },
        _ => panic!(),
    }

    let direct = ImageConfig::FullImage(FullImageConfig {
        cfg: BaseConfig::default(),
        depth: FullImageTargetDepth::U16,
    });
    match convert_image(&info, &direct) {
        Ok(Converted::Full(bitmap)) => match bitmap.data {
            PixelData::Direct { pixels } => assert_eq!(&pixels[0..4], &[0, 1, 0, 1]),
            _ => panic!(),
        },
        _ => panic!(),
    }

    let tiles = ImageConfig::TiledImage(TiledImageConfig {
        cfg: BaseConfig::default(),
        depth: TiledImageTargetDepth::U4,
    });
    match convert_image(&info, &tiles) {
        Ok(Converted::Tiled(image)) => {
            assert_eq!(image.tiles_count, 1);
            assert_eq!(image.tiles, vec![0x1010_1010; 8]);
        }
        _ => panic!(),
    }
}

#[test]
fn image_that_cannot_be_tiled_is_refused_under_a_tiled_configuration() {
    let pixels = vec![Rgba { red: 0, green: 0, blue: 0, alpha: 0 }; 12];
    let info = read_image(4, 3, &pixels);
    let tiles = ImageConfig::TiledImage(TiledImageConfig {
        cfg: BaseConfig::default(),
        depth: TiledImageTargetDepth::U8,
    });
    match convert_image(&info, &tiles) {
        Err(e) => assert_eq!(
            e,
            ConvertError::Dimension(DimensionError { axis: Axis::Width, value: 4 })
        ),
        Ok(_) => panic!(),
    }
    let full = ImageConfig::FullImage(FullImageConfig {
        cfg: BaseConfig::default(),
        depth: FullImageTargetDepth::U8,
    });
    assert!(convert_image(&info, &full).is_ok());
}

#[test]
fn file_endings_are_tried_in_order() {
    assert_eq!(file_ending(0), Some("png"));
    assert_eq!(file_ending(1), Some("tga"));
    assert_eq!(file_ending(2), Some("jpg"));
    assert_eq!(file_ending(3), Some("jpeg"));
    assert_eq!(file_ending(4), None);
    assert_eq!(file_ending(usize::MAX), None);
}
