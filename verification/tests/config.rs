use asset_pipeline::config::{
    cfg_int, cfg_int_signed, check_tiers, default_tiers, Config, Settings,
    Tier, WebPQualityConfig, DEFAULT_BROTLI_LEVEL, DEFAULT_DEFLATE_LEVEL, DEFAULT_GZIP_LEVEL,
    DEFAULT_WEBP_QUALITY, DEFAULT_ZSTD_LEVEL,
};
use asset_pipeline::bytes::{append, holds_byte, same_bytes, starts_with};
use asset_pipeline::error::{ConfigError, Tunable};

fn raw(text: &str) -> Option<Vec<u8>> {
    Some(text.as_bytes().to_vec())
}

fn load(settings: &Settings) -> Result<Config, ConfigError> {
    Config::load(b"in".to_vec(), b"out".to_vec(), false, false, settings)
}

#[test]
fn brotli_level_twelve_is_rejected() {
    assert_eq!(
        cfg_int(Tunable::BrotliLevel, &raw("12"), 1, 11, 5),
        Err(ConfigError::OutOfRange { tunable: Tunable::BrotliLevel, min: 1, max: 11 })
    );
    let settings = Settings { brotli_level: raw("12"), ..Settings::default() };
    assert_eq!(
        load(&settings).err(),
        Some(ConfigError::OutOfRange { tunable: Tunable::BrotliLevel, min: 1, max: 11 })
    );
}

#[test]
fn brotli_level_five_is_accepted_verbatim() {
    assert_eq!(cfg_int(Tunable::BrotliLevel, &raw("5"), 1, 11, 9), Ok(5));
    let settings = Settings { brotli_level: raw("5"), ..Settings::default() };
    assert_eq!(load(&settings).unwrap().brotli_level(), 5);
    let settings = Settings { brotli_level: raw("11"), ..Settings::default() };
    assert_eq!(load(&settings).unwrap().brotli_level(), 11);
}

#[test]
fn levels_are_never_clamped() {
    assert!(cfg_int(Tunable::GzipLevel, &raw("0"), 1, 9, 6).is_err());
    assert!(cfg_int(Tunable::GzipLevel, &raw("10"), 1, 9, 6).is_err());
    assert_eq!(cfg_int(Tunable::GzipLevel, &raw("1"), 1, 9, 6), Ok(1));
    assert_eq!(cfg_int(Tunable::GzipLevel, &raw("9"), 1, 9, 6), Ok(9));
}

#[test]
fn missing_level_is_the_default() {
    assert_eq!(cfg_int(Tunable::GzipLevel, &None, 1, 9, 6), Ok(6));
    assert_eq!(cfg_int_signed(Tunable::ZstdLevel, &None, -5, 22, 7), Ok(7));
}

#[test]
fn default_outside_the_range_is_rejected() {
    assert_eq!(
        cfg_int(Tunable::GzipLevel, &None, 1, 9, 12),
        Err(ConfigError::OutOfRange { tunable: Tunable::GzipLevel, min: 1, max: 9 })
    );
}

#[test]
fn unparsable_level_is_rejected() {
    for text in ["", "five", "5.0", " 5", "-1", "99999999999"] {
        assert_eq!(
            cfg_int(Tunable::DeflateLevel, &raw(text), 1, 9, 6),
            Err(ConfigError::NotAnInteger { tunable: Tunable::DeflateLevel }),
            "{:?}",
            text
        );
    }
    assert_eq!(
        cfg_int_signed(Tunable::ZstdLevel, &raw("x"), -5, 22, 7),
        Err(ConfigError::NotAnInteger { tunable: Tunable::ZstdLevel })
    );
}

#[test]
fn signed_level_takes_negative_numbers() {
    assert_eq!(cfg_int_signed(Tunable::ZstdLevel, &raw("-3"), -5, 22, 7), Ok(-3));
    assert_eq!(
        cfg_int_signed(Tunable::ZstdLevel, &raw("-6"), -5, 22, 7),
        Err(ConfigError::OutOfRange { tunable: Tunable::ZstdLevel, min: -5, max: 22 })
    );
    assert_eq!(
        cfg_int_signed(Tunable::ZstdLevel, &raw("23"), -5, 22, 7),
        Err(ConfigError::OutOfRange { tunable: Tunable::ZstdLevel, min: -5, max: 22 })
    );
}

#[test]
fn defaults_of_a_configuration() {
    let config = load(&Settings::default()).unwrap();
    assert_eq!(config.brotli_level(), DEFAULT_BROTLI_LEVEL);
    assert_eq!(config.gzip_level(), DEFAULT_GZIP_LEVEL);
    assert_eq!(config.deflate_level(), DEFAULT_DEFLATE_LEVEL);
    assert_eq!(config.zstd_level(), DEFAULT_ZSTD_LEVEL);
    assert_eq!(config.webp(), WebPQualityConfig::Lossy(DEFAULT_WEBP_QUALITY));
    assert_eq!(DEFAULT_BROTLI_LEVEL, 5);
    assert_eq!(DEFAULT_GZIP_LEVEL, 6);
    assert_eq!(DEFAULT_DEFLATE_LEVEL, 6);
    assert_eq!(DEFAULT_ZSTD_LEVEL, 7);
    assert_eq!(DEFAULT_WEBP_QUALITY, 80_000);
    assert!(!config.no_resize_images());
    assert!(!config.no_compress_images());
    assert_eq!(config.in_dir(), b"in");
    assert_eq!(config.out_dir(), b"out");
    assert_eq!(config.tiers(), &default_tiers());
}

#[test]
fn default_tiers_are_small_medium_large() {
    let tiers = default_tiers();
    assert_eq!(tiers.len(), 3);
    assert_eq!(tiers[0], Tier { label: b"small".to_vec(), max_dimension: 256 });
    assert_eq!(tiers[1], Tier { label: b"medium".to_vec(), max_dimension: 512 });
    assert_eq!(tiers[2], Tier { label: b"large".to_vec(), max_dimension: 1024 });
    assert!(check_tiers(&tiers));
}

#[test]
fn new_checks_zstd_against_the_given_range() {
    let settings = Settings { zstd_level: raw("19"), ..Settings::default() };
    let config =
        Config::new(b"in".to_vec(), b"out".to_vec(), true, true, &settings, -7, 22).unwrap();
    assert_eq!(config.zstd_level(), 19);
    assert!(config.no_resize_images());
    assert!(config.no_compress_images());
    assert_eq!(
        Config::new(b"in".to_vec(), b"out".to_vec(), true, true, &settings, 1, 18).err(),
        Some(ConfigError::OutOfRange { tunable: Tunable::ZstdLevel, min: 1, max: 18 })
    );
}

#[test]
fn load_takes_the_range_of_zstd_itself() {
    let range = zstd::compression_level_range();
    let top = format!("{}", range.end());
    let over = format!("{}", *range.end() as i64 + 1);
    let settings = Settings { zstd_level: raw(&top), ..Settings::default() };
    assert_eq!(load(&settings).unwrap().zstd_level(), *range.end());
    let settings = Settings { zstd_level: raw(&over), ..Settings::default() };
    assert_eq!(
        load(&settings).err(),
        Some(ConfigError::OutOfRange {
            tunable: Tunable::ZstdLevel,
            min: *range.start() as i64,
            max: *range.end() as i64
        })
    );
}

#[test]
fn first_fault_wins_in_order() {
    let settings = Settings {
        brotli_level: raw("99"),
        gzip_level: raw("x"),
        zstd_level: raw("nope"),
        ..Settings::default()
    };
    assert_eq!(
        load(&settings).err(),
        Some(ConfigError::NotAnInteger { tunable: Tunable::ZstdLevel })
    );
    let settings =
        Settings { deflate_level: raw("0"), gzip_level: raw("x"), ..Settings::default() };
    assert_eq!(
        load(&settings).err(),
        Some(ConfigError::OutOfRange { tunable: Tunable::DeflateLevel, min: 1, max: 9 })
    );
    let settings =
        Settings { webp_quality: Some(100_001), zstd_level: raw("x"), ..Settings::default() };
    assert_eq!(
        load(&settings).err(),
        Some(ConfigError::OutOfRange { tunable: Tunable::WebpQuality, min: 0, max: 100 })
    );
}

#[test]
fn webp_mode_from_settings() {
    assert_eq!(
        WebPQualityConfig::from_settings(&None, None),
        Ok(WebPQualityConfig::Lossy(80_000))
    );
    assert_eq!(
        WebPQualityConfig::from_settings(&None, Some(42_500)),
        Ok(WebPQualityConfig::Lossy(42_500))
    );
    assert_eq!(
        WebPQualityConfig::from_settings(&None, Some(100_000)),
        Ok(WebPQualityConfig::Lossy(100_000))
    );
    assert_eq!(WebPQualityConfig::from_settings(&None, Some(0)), Ok(WebPQualityConfig::Lossy(0)));
    assert_eq!(
        WebPQualityConfig::from_settings(&None, Some(100_001)),
        Err(ConfigError::OutOfRange { tunable: Tunable::WebpQuality, min: 0, max: 100 })
    );
    for on in ["1", "true", "yes", "", "FALSE", "00"] {
        assert_eq!(
            WebPQualityConfig::from_settings(&raw(on), Some(10_000)),
            Ok(WebPQualityConfig::Lossless),
            "{:?}",
            on
        );
    }
    for off in ["false", "0"] {
        assert_eq!(
            WebPQualityConfig::from_settings(&raw(off), Some(10_000)),
            Ok(WebPQualityConfig::Lossy(10_000)),
            "{:?}",
            off
        );
    }
    assert_eq!(
        WebPQualityConfig::from_settings(&raw("1"), Some(999_999)),
        Ok(WebPQualityConfig::Lossless)
    );
}

#[test]
fn webp_lossless_and_quality() {
    assert!(WebPQualityConfig::Lossless.lossless());
    assert!(!WebPQualityConfig::Lossy(80_000).lossless());
    assert_eq!(WebPQualityConfig::Lossless.quality(), 75_000);
    assert_eq!(WebPQualityConfig::Lossy(80_000).quality(), 80_000);
    assert_eq!(WebPQualityConfig::Lossy(0).quality(), 0);
    assert_eq!(WebPQualityConfig::Lossy(100_000).quality(), 100_000);
    assert_eq!(WebPQualityConfig::Lossy(250_000).quality(), 100_000);
}

#[test]
fn tiers_that_cannot_stand_together_are_refused() {
    let config = load(&Settings::default()).unwrap();
    let doubled = vec![
        Tier { label: b"a".to_vec(), max_dimension: 10 },
        Tier { label: b"a".to_vec(), max_dimension: 20 },
    ];
    assert!(!check_tiers(&doubled));
    assert_eq!(config.with_tiers(doubled).err(), Some(ConfigError::InvalidTiers));

    let config = load(&Settings::default()).unwrap();
    let slashed = vec![Tier { label: b"a/b".to_vec(), max_dimension: 10 }];
    assert_eq!(config.with_tiers(slashed).err(), Some(ConfigError::InvalidTiers));

    let config = load(&Settings::default()).unwrap();
    let empty_bound = vec![Tier { label: b"a".to_vec(), max_dimension: 0 }];
    assert_eq!(config.with_tiers(empty_bound).err(), Some(ConfigError::InvalidTiers));
}

#[test]
fn tiers_can_be_replaced() {
    let settings = Settings { gzip_level: raw("3"), ..Settings::default() };
    let config = load(&settings).unwrap();
    let tiers = vec![
        Tier { label: b"thumb".to_vec(), max_dimension: 64 },
        Tier { label: b"".to_vec(), max_dimension: 128 },
    ];
    let config = config.with_tiers(tiers.clone()).unwrap();
    assert_eq!(config.tiers(), &tiers);
    assert_eq!(config.gzip_level(), 3);
    let config = config.with_tiers(Vec::new()).unwrap();
    assert!(config.tiers().is_empty());
}

#[test]
fn byte_copies() {
    let mut out = b"ab".to_vec();
    append(&mut out, b"cd");
    append(&mut out, b"");
    assert_eq!(out, b"abcd".to_vec());
    assert!(starts_with(b"abcd", b"ab"));
    assert!(starts_with(b"abcd", b""));
    assert!(!starts_with(b"abcd", b"abd"));
    assert!(!starts_with(b"ab", b"abc"));
}

#[test]
fn byte_helpers() {
    assert!(same_bytes(b"abc", b"abc"));
    assert!(!same_bytes(b"abc", b"abd"));
    assert!(!same_bytes(b"abc", b"ab"));
    assert!(same_bytes(b"", b""));
    assert!(holds_byte(b"a/b", b'/'));
    assert!(!holds_byte(b"ab", b'/'));
    assert!(!holds_byte(b"", b'/'));
}
