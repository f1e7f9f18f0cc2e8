//! The parameters of a run: codec levels, the WebP mode, the resize tiers
//! and the two roots. They are checked once, when the configuration is made,
//! and never change afterwards.

use vstd::prelude::*;
use crate::bytes::{holds_byte, optional_view, same_bytes};
use crate::codec::zstd_level_range;
use crate::decimal::{decimal_i32, decimal_u32, parse_i32, parse_u32};
use crate::error::{ConfigError, Tunable};
use crate::path::SEPARATOR;

verus! {

pub const DEFAULT_ZSTD_LEVEL: i32 = 7;

pub const DEFAULT_BROTLI_LEVEL: u32 = 5;

pub const DEFAULT_GZIP_LEVEL: u32 = 6;

pub const DEFAULT_DEFLATE_LEVEL: u32 = 6;

pub const MIN_BROTLI_LEVEL: u32 = 1;

pub const MAX_BROTLI_LEVEL: u32 = 11;

pub const MIN_FLATE_LEVEL: u32 = 1;

pub const MAX_FLATE_LEVEL: u32 = 9;

/// The greatest WebP quality, in thousandths of a point: 100 points.
pub const MAX_WEBP_QUALITY: u32 = 100_000;

/// The WebP quality where none is asked for, in thousandths: 80 points.
pub const DEFAULT_WEBP_QUALITY: u32 = 80_000;

/// The quality that the lossless mode hands to the encoder, in thousandths:
/// 75 points.
pub const LOSSLESS_WEBP_QUALITY: u32 = 75_000;

pub const SMALL_IMAGE_PIXELS: u32 = 256;

pub const MEDIUM_IMAGE_PIXELS: u32 = 512;

pub const LARGE_IMAGE_PIXELS: u32 = 1024;

/// The level that the text `raw` sets for a tunable with the closed range
/// `min..=max`: the number it writes, or `default` where there is no text.
/// Either is refused when it lies outside the range. Nothing is clamped.
pub open spec fn checked_level(
    tunable: Tunable,
    raw: Option<Seq<u8>>,
    min: u32,
    max: u32,
    default: u32,
) -> Result<u32, ConfigError> {
    let level = match raw {
        Some(text) => decimal_u32(text),
        None => Some(default),
    };
    match level {
        None => Err(ConfigError::NotAnInteger { tunable }),
        Some(v) => if min <= v <= max {
            Ok(v)
        } else {
            Err(ConfigError::OutOfRange { tunable, min: min as i64, max: max as i64 })
        },
    }
}

/// `checked_level` for a tunable that may be negative.
pub open spec fn checked_signed_level(
    tunable: Tunable,
    raw: Option<Seq<u8>>,
    min: i32,
    max: i32,
    default: i32,
) -> Result<i32, ConfigError> {
    let level = match raw {
        Some(text) => decimal_i32(text),
        None => Some(default),
    };
    match level {
        None => Err(ConfigError::NotAnInteger { tunable }),
        Some(v) => if min <= v <= max {
            Ok(v)
        } else {
            Err(ConfigError::OutOfRange { tunable, min: min as i64, max: max as i64 })
        },
    }
}

/// Reads the level of an unsigned tunable from its text and checks it
/// against `min..=max`.
pub fn cfg_int(tunable: Tunable, raw: &Option<Vec<u8>>, min: u32, max: u32, default: u32) -> (r:
    Result<u32, ConfigError>)
    ensures
        r == checked_level(tunable, optional_view(*raw), min, max, default),
{
    let level = match raw {
        Some(text) => parse_u32(text.as_slice()),
        None => Some(default),
    };
    match level {
        None => Err(ConfigError::NotAnInteger { tunable }),
        Some(v) => if min <= v && v <= max {
            Ok(v)
        } else {
            Err(ConfigError::OutOfRange { tunable, min: min as i64, max: max as i64 })
        },
    }
}

/// Reads the level of a signed tunable from its text and checks it against
/// `min..=max`.
pub fn cfg_int_signed(
    tunable: Tunable,
    raw: &Option<Vec<u8>>,
    min: i32,
    max: i32,
    default: i32,
) -> (r: Result<i32, ConfigError>)
    ensures
        r == checked_signed_level(tunable, optional_view(*raw), min, max, default),
{
    let level = match raw {
        Some(text) => parse_i32(text.as_slice()),
        None => Some(default),
    };
    match level {
        None => Err(ConfigError::NotAnInteger { tunable }),
        Some(v) => if min <= v && v <= max {
            Ok(v)
        } else {
            Err(ConfigError::OutOfRange { tunable, min: min as i64, max: max as i64 })
        },
    }
}

/// How WebP variants are encoded. A quality is counted in thousandths of a
/// point, so that 80 points are 80 000.
#[derive(Debug, Clone, Copy, PartialEq, Eq, Structural)]
pub enum WebPQualityConfig {
    Lossless,
    Lossy(u32),
}

/// The bytes of `false`.
pub open spec fn text_false() -> Seq<u8> {
    seq![102u8, 97u8, 108u8, 115u8, 101u8]
}

/// The bytes of `0`.
pub open spec fn text_zero() -> Seq<u8> {
    seq![48u8]
}

/// Whether the text of the lossless switch turns it on: it is there and
/// reads neither `false` nor `0`.
pub open spec fn switched_on(raw: Option<Seq<u8>>) -> bool {
    match raw {
        Some(text) => text != text_false() && text != text_zero(),
        None => false,
    }
}

/// The WebP mode that the two settings ask for. The lossless switch wins.
/// Without it the quality counts, which must not exceed 100 points, and
/// without a quality the default of 80 points.
pub open spec fn chosen_webp(lossless: Option<Seq<u8>>, quality: Option<u32>) -> Result<
    WebPQualityConfig,
    ConfigError,
> {
    if switched_on(lossless) {
        Ok(WebPQualityConfig::Lossless)
    } else {
        match quality {
            Some(q) => if q <= MAX_WEBP_QUALITY {
                Ok(WebPQualityConfig::Lossy(q))
            } else {
                Err(
                    ConfigError::OutOfRange { tunable: Tunable::WebpQuality, min: 0, max: 100 },
                )
            },
            None => Ok(WebPQualityConfig::Lossy(DEFAULT_WEBP_QUALITY)),
        }
    }
}

/// Whether `text` turns the lossless switch on.
fn is_switched_on(text: &[u8]) -> (r: bool)
    ensures
        r == switched_on(Some(text@)),
{
    if text.len() == 1 && text[0] == 48 {
        assert(text@ == text_zero());
        return false;
    }
    if text.len() == 5 && text[0] == 102 && text[1] == 97 && text[2] == 108 && text[3] == 115
        && text[4] == 101 {
        assert(text@ == text_false());
        return false;
    }
    proof {
        if text@ == text_zero() {
            assert(text@.len() == 1 && text@[0] == 48);
        }
        if text@ == text_false() {
            assert(text@.len() == 5);
            assert(text@[0] == 102 && text@[1] == 97 && text@[2] == 108 && text@[3] == 115
                && text@[4] == 101);
        }
    }
    true
}

impl WebPQualityConfig {
    /// Chooses the mode from the text of the lossless switch and from the
    /// quality that was asked for, in thousandths of a point.
    pub fn from_settings(lossless: &Option<Vec<u8>>, quality: Option<u32>) -> (r: Result<
        WebPQualityConfig,
        ConfigError,
    >)
        ensures
            r == chosen_webp(optional_view(*lossless), quality),
    {
        let on = match lossless {
            Some(text) => is_switched_on(text.as_slice()),
            None => false,
        };
        if on {
            return Ok(WebPQualityConfig::Lossless);
        }
        match quality {
            Some(q) => if q <= MAX_WEBP_QUALITY {
                Ok(WebPQualityConfig::Lossy(q))
            } else {
                Err(
                    ConfigError::OutOfRange { tunable: Tunable::WebpQuality, min: 0, max: 100 },
                )
            },
            None => Ok(WebPQualityConfig::Lossy(DEFAULT_WEBP_QUALITY)),
        }
    }

    /// Whether the encoder runs in its lossless mode.
    pub fn lossless(&self) -> (r: bool)
        ensures
            r == (*self is Lossless),
    {
        match self {
            WebPQualityConfig::Lossless => true,
            WebPQualityConfig::Lossy(_) => false,
        }
    }

    /// The quality that the encoder is given, in thousandths of a point:
    /// 75 points in the lossless mode, else the configured quality, which is
    /// cut down to 100 points where it is greater.
    pub open spec fn quality_spec(&self) -> u32 {
        match *self {
            WebPQualityConfig::Lossless => LOSSLESS_WEBP_QUALITY,
            WebPQualityConfig::Lossy(v) => if v > MAX_WEBP_QUALITY {
                MAX_WEBP_QUALITY
            } else {
                v
            },
        }
    }

    /// The quality that the encoder is given, in thousandths of a point.
    #[verifier::when_used_as_spec(quality_spec)]
    pub fn quality(&self) -> (r: u32)
        ensures
            r == self.quality_spec(),
            r <= MAX_WEBP_QUALITY,
    {
        match self {
            WebPQualityConfig::Lossless => LOSSLESS_WEBP_QUALITY,
            WebPQualityConfig::Lossy(v) => if *v > MAX_WEBP_QUALITY {
                MAX_WEBP_QUALITY
            } else {
                *v
            },
        }
    }
}

/// A named bound on the longer side of a resized variant.
#[derive(Debug, Clone, PartialEq, Eq)]
pub struct Tier {
    /// What is put behind a `-` at the end of the variant's file stem.
    pub label: Vec<u8>,
    /// The greatest width and height of the variant, in pixels.
    pub max_dimension: u32,
}

/// A tier as a plain value.
pub struct TierView {
    pub label: Seq<u8>,
    pub max_dimension: u32,
}

impl View for Tier {
    type V = TierView;

    open spec fn view(&self) -> TierView {
        TierView { label: self.label@, max_dimension: self.max_dimension }
    }
}

/// The views of `tiers`, in their order.
pub open spec fn tier_views(tiers: Seq<Tier>) -> Seq<TierView> {
    Seq::new(tiers.len(), |i: int| tiers[i]@)
}

/// A tier is usable when its label holds no separator and its bound is at
/// least one pixel.
pub open spec fn valid_tier(tier: TierView) -> bool {
    !tier.label.contains(SEPARATOR) && tier.max_dimension >= 1
}

/// Tiers can stand together when each is usable and no two share a label.
pub open spec fn valid_tiers(tiers: Seq<TierView>) -> bool {
    &&& forall|i: int| 0 <= i < tiers.len() ==> valid_tier(#[trigger] tiers[i])
    &&& forall|i: int, j: int|
        0 <= i < j < tiers.len() ==> (#[trigger] tiers[i]).label != (#[trigger] tiers[j]).label
}

/// The tiers of a configuration that names none: `small` at 256 pixels,
/// `medium` at 512 and `large` at 1024.
pub open spec fn default_tier_views() -> Seq<TierView> {
    seq![
        TierView {
            label: seq![115u8, 109u8, 97u8, 108u8, 108u8],
            max_dimension: SMALL_IMAGE_PIXELS,
        },
        TierView {
            label: seq![109u8, 101u8, 100u8, 105u8, 117u8, 109u8],
            max_dimension: MEDIUM_IMAGE_PIXELS,
        },
        TierView {
            label: seq![108u8, 97u8, 114u8, 103u8, 101u8],
            max_dimension: LARGE_IMAGE_PIXELS,
        },
    ]
}

/// The default tiers can stand together.
pub proof fn lemma_default_tiers_valid()
    ensures
        valid_tiers(default_tier_views()),
{
    let tiers = default_tier_views();
    let small = tiers[0].label;
    let medium = tiers[1].label;
    let large = tiers[2].label;
    assert(small.len() == 5 && medium.len() == 6 && large.len() == 5);
    assert(small[0] != large[0]);
    assert forall|i: int| 0 <= i < tiers.len() implies valid_tier(#[trigger] tiers[i]) by {
        assert forall|k: int| 0 <= k < tiers[i].label.len() implies tiers[i].label[k]
            != SEPARATOR by {}
    }
}

/// The default tiers.
pub fn default_tiers() -> (r: Vec<Tier>)
    ensures
        tier_views(r@) == default_tier_views(),
{
    let mut small: Vec<u8> = Vec::new();
    small.push(115);
    small.push(109);
    small.push(97);
    small.push(108);
    small.push(108);
    let mut medium: Vec<u8> = Vec::new();
    medium.push(109);
    medium.push(101);
    medium.push(100);
    medium.push(105);
    medium.push(117);
    medium.push(109);
    let mut large: Vec<u8> = Vec::new();
    large.push(108);
    large.push(97);
    large.push(114);
    large.push(103);
    large.push(101);
    let mut tiers: Vec<Tier> = Vec::new();
    tiers.push(Tier { label: small, max_dimension: SMALL_IMAGE_PIXELS });
    tiers.push(Tier { label: medium, max_dimension: MEDIUM_IMAGE_PIXELS });
    tiers.push(Tier { label: large, max_dimension: LARGE_IMAGE_PIXELS });
    proof {
        let got = tier_views(tiers@);
        let want = default_tier_views();
        assert(got.len() == want.len());
        assert(got[0].label =~= want[0].label);
        assert(got[1].label =~= want[1].label);
        assert(got[2].label =~= want[2].label);
        assert(got =~= want);
    }
    tiers
}

/// Whether `tiers` can stand together.
pub fn check_tiers(tiers: &Vec<Tier>) -> (r: bool)
    ensures
        r == valid_tiers(tier_views(tiers@)),
{
    let ghost views = tier_views(tiers@);
    let mut i: usize = 0;
    while i < tiers.len()
        invariant
            i <= tiers.len(),
            views == tier_views(tiers@),
            forall|a: int| 0 <= a < i ==> valid_tier(#[trigger] views[a]),
            forall|a: int, b: int|
                0 <= a < b < i ==> (#[trigger] views[a]).label != (#[trigger] views[b]).label,
        decreases tiers.len() - i,
    {
        let tier = &tiers[i];
        assert(views[i as int] == tier@);
        if tier.max_dimension == 0 || holds_byte(tier.label.as_slice(), SEPARATOR) {
            assert(!valid_tier(views[i as int]));
            return false;
        }
        let mut j: usize = 0;
        while j < i
            invariant
                j <= i < tiers.len(),
                views == tier_views(tiers@),
                tier == tiers@[i as int],
                forall|a: int| 0 <= a < j ==> (#[trigger] views[a]).label != views[i as int].label,
            decreases i - j,
        {
            assert(views[j as int] == tiers@[j as int]@);
            if same_bytes(tiers[j].label.as_slice(), tier.label.as_slice()) {
                assert(views[j as int].label == views[i as int].label);
                return false;
            }
            j += 1;
        }
        i += 1;
    }
    true
}

/// The texts and numbers from which a configuration is made, as they were
/// found: a level is the text that was given for it, if any; the WebP quality
/// is a number of thousandths of a point.
#[derive(Debug, Clone, PartialEq, Eq, Default)]
pub struct Settings {
    pub brotli_level: Option<Vec<u8>>,
    pub gzip_level: Option<Vec<u8>>,
    pub deflate_level: Option<Vec<u8>>,
    pub zstd_level: Option<Vec<u8>>,
    pub webp_lossless: Option<Vec<u8>>,
    pub webp_quality: Option<u32>,
}

/// A configuration as a plain value.
pub struct ConfigView {
    pub webp: WebPQualityConfig,
    pub brotli: u32,
    pub zstd: i32,
    pub deflate: u32,
    pub gzip: u32,
    pub no_resize_images: bool,
    pub no_compress_images: bool,
    pub in_dir: Seq<u8>,
    pub out_dir: Seq<u8>,
    pub tiers: Seq<TierView>,
}

/// What every configuration meets: the brotli level lies in 1 to 11, the
/// gzip and the deflate level in 1 to 9, and the tiers can stand together.
pub open spec fn valid_config(c: ConfigView) -> bool {
    &&& MIN_BROTLI_LEVEL <= c.brotli <= MAX_BROTLI_LEVEL
    &&& MIN_FLATE_LEVEL <= c.gzip <= MAX_FLATE_LEVEL
    &&& MIN_FLATE_LEVEL <= c.deflate <= MAX_FLATE_LEVEL
    &&& valid_tiers(c.tiers)
}

/// The configuration that the settings give, with the default tiers, for a
/// zstd that takes the levels `zstd_min..=zstd_max`; or the first fault, the
/// settings being checked in the order WebP, zstd, brotli, deflate, gzip.
pub open spec fn configured(
    in_dir: Seq<u8>,
    out_dir: Seq<u8>,
    no_resize_images: bool,
    no_compress_images: bool,
    settings: Settings,
    zstd_min: i32,
    zstd_max: i32,
) -> Result<ConfigView, ConfigError> {
    let webp = chosen_webp(optional_view(settings.webp_lossless), settings.webp_quality);
    let zstd = checked_signed_level(
        Tunable::ZstdLevel,
        optional_view(settings.zstd_level),
        zstd_min,
        zstd_max,
        DEFAULT_ZSTD_LEVEL,
    );
    let brotli = checked_level(
        Tunable::BrotliLevel,
        optional_view(settings.brotli_level),
        MIN_BROTLI_LEVEL,
        MAX_BROTLI_LEVEL,
        DEFAULT_BROTLI_LEVEL,
    );
    let deflate = checked_level(
        Tunable::DeflateLevel,
        optional_view(settings.deflate_level),
        MIN_FLATE_LEVEL,
        MAX_FLATE_LEVEL,
        DEFAULT_DEFLATE_LEVEL,
    );
    let gzip = checked_level(
        Tunable::GzipLevel,
        optional_view(settings.gzip_level),
        MIN_FLATE_LEVEL,
        MAX_FLATE_LEVEL,
        DEFAULT_GZIP_LEVEL,
    );
    if webp is Err {
        Err(webp->Err_0)
    } else if zstd is Err {
        Err(zstd->Err_0)
    } else if brotli is Err {
        Err(brotli->Err_0)
    } else if deflate is Err {
        Err(deflate->Err_0)
    } else if gzip is Err {
        Err(gzip->Err_0)
    } else {
        Ok(
            ConfigView {
                webp: webp->Ok_0,
                brotli: brotli->Ok_0,
                zstd: zstd->Ok_0,
                deflate: deflate->Ok_0,
                gzip: gzip->Ok_0,
                no_resize_images,
                no_compress_images,
                in_dir,
                out_dir,
                tiers: default_tier_views(),
            },
        )
    }
}

/// A level that was given is used as it was written: in the configuration
/// that the settings give, each level is the number that its text writes,
/// and a level without a text is the default.
pub proof fn law_levels_verbatim(
    in_dir: Seq<u8>,
    out_dir: Seq<u8>,
    no_resize_images: bool,
    no_compress_images: bool,
    settings: Settings,
    zstd_min: i32,
    zstd_max: i32,
)
    requires
        configured(
            in_dir,
            out_dir,
            no_resize_images,
            no_compress_images,
            settings,
            zstd_min,
            zstd_max,
        ) is Ok,
    ensures
        ({
            let c = configured(
                in_dir,
                out_dir,
                no_resize_images,
                no_compress_images,
                settings,
                zstd_min,
                zstd_max,
            )->Ok_0;
            &&& valid_config(c)
            &&& zstd_min <= c.zstd <= zstd_max
            &&& match settings.brotli_level {
                Some(text) => decimal_u32(text@) == Some(c.brotli),
                None => c.brotli == DEFAULT_BROTLI_LEVEL,
            }
            &&& match settings.gzip_level {
                Some(text) => decimal_u32(text@) == Some(c.gzip),
                None => c.gzip == DEFAULT_GZIP_LEVEL,
            }
            &&& match settings.deflate_level {
                Some(text) => decimal_u32(text@) == Some(c.deflate),
                None => c.deflate == DEFAULT_DEFLATE_LEVEL,
            }
            &&& match settings.zstd_level {
                Some(text) => decimal_i32(text@) == Some(c.zstd),
                None => c.zstd == DEFAULT_ZSTD_LEVEL,
            }
        }),
{
    lemma_default_tiers_valid();
}

/// Whether `r` is what `want` asks for: the same fault, or a configuration
/// with the same view.
pub open spec fn config_matches(r: Result<Config, ConfigError>, want: Result<
    ConfigView,
    ConfigError,
>) -> bool {
    match want {
        Ok(view) => r is Ok && r->Ok_0@ == view,
        Err(fault) => r == Err::<Config, ConfigError>(fault),
    }
}

/// The checked parameters of a run.
#[derive(Debug)]
pub struct Config {
    webp: WebPQualityConfig,
    brotli: u32,
    zstd: i32,
    deflate: u32,
    gzip: u32,
    no_resize_images: bool,
    no_compress_images: bool,
    in_dir: Vec<u8>,
    out_dir: Vec<u8>,
    tiers: Vec<Tier>,
}

impl View for Config {
    type V = ConfigView;

    closed spec fn view(&self) -> ConfigView {
        ConfigView {
            webp: self.webp,
            brotli: self.brotli,
            zstd: self.zstd,
            deflate: self.deflate,
            gzip: self.gzip,
            no_resize_images: self.no_resize_images,
            no_compress_images: self.no_compress_images,
            in_dir: self.in_dir@,
            out_dir: self.out_dir@,
            tiers: tier_views(self.tiers@),
        }
    }
}

impl Config {
    #[verifier::type_invariant]
    spec fn well_formed(&self) -> bool {
        valid_config(self@)
    }

    /// Checks the settings, in the order WebP, zstd, brotli, deflate, gzip,
    /// and makes the configuration with the default tiers. `zstd_min` and
    /// `zstd_max` are the least and the greatest level that zstd takes.
    pub fn new(
        in_dir: Vec<u8>,
        out_dir: Vec<u8>,
        no_resize_images: bool,
        no_compress_images: bool,
        settings: &Settings,
        zstd_min: i32,
        zstd_max: i32,
    ) -> (r: Result<Config, ConfigError>)
        ensures
            config_matches(
                r,
                configured(
                    in_dir@,
                    out_dir@,
                    no_resize_images,
                    no_compress_images,
                    *settings,
                    zstd_min,
                    zstd_max,
                ),
            ),
            r is Ok ==> valid_config(r->Ok_0@),
    {
        let webp = match WebPQualityConfig::from_settings(
            &settings.webp_lossless,
            settings.webp_quality,
        ) {
            Ok(v) => v,
            Err(e) => { return Err(e); },
        };
        let zstd = match cfg_int_signed(
            Tunable::ZstdLevel,
            &settings.zstd_level,
            zstd_min,
            zstd_max,
            DEFAULT_ZSTD_LEVEL,
        ) {
            Ok(v) => v,
            Err(e) => { return Err(e); },
        };
        let brotli = match cfg_int(
            Tunable::BrotliLevel,
            &settings.brotli_level,
            MIN_BROTLI_LEVEL,
            MAX_BROTLI_LEVEL,
            DEFAULT_BROTLI_LEVEL,
        ) {
            Ok(v) => v,
            Err(e) => { return Err(e); },
        };
        let deflate = match cfg_int(
            Tunable::DeflateLevel,
            &settings.deflate_level,
            MIN_FLATE_LEVEL,
            MAX_FLATE_LEVEL,
            DEFAULT_DEFLATE_LEVEL,
        ) {
            Ok(v) => v,
            Err(e) => { return Err(e); },
        };
        let gzip = match cfg_int(
            Tunable::GzipLevel,
            &settings.gzip_level,
            MIN_FLATE_LEVEL,
            MAX_FLATE_LEVEL,
            DEFAULT_GZIP_LEVEL,
        ) {
            Ok(v) => v,
            Err(e) => { return Err(e); },
        };
        let tiers = default_tiers();
        proof {
            lemma_default_tiers_valid();
        }
        Ok(
            Config {
                webp,
                brotli,
                zstd,
                deflate,
                gzip,
                no_resize_images,
                no_compress_images,
                in_dir,
                out_dir,
                tiers,
            },
        )
    }

    /// Asks zstd for the levels it takes and makes the configuration for
    /// them. Whatever the two bounds are, the result is what `new` gives for
    /// them.
    pub fn load(
        in_dir: Vec<u8>,
        out_dir: Vec<u8>,
        no_resize_images: bool,
        no_compress_images: bool,
        settings: &Settings,
    ) -> (r: Result<Config, ConfigError>)
        ensures
            exists|zstd_min: i32, zstd_max: i32|
                config_matches(
                    r,
                    #[trigger] configured(
                        in_dir@,
                        out_dir@,
                        no_resize_images,
                        no_compress_images,
                        *settings,
                        zstd_min,
                        zstd_max,
                    ),
                ),
            r is Ok ==> valid_config(r->Ok_0@),
    {
        let (zstd_min, zstd_max) = zstd_level_range();
        Config::new(
            in_dir,
            out_dir,
            no_resize_images,
            no_compress_images,
            settings,
            zstd_min,
            zstd_max,
        )
    }

    /// Replaces the tiers, in the order given. Tiers that cannot stand
    /// together are refused.
    pub fn with_tiers(self, tiers: Vec<Tier>) -> (r: Result<Config, ConfigError>)
        ensures
            config_matches(
                r,
                if valid_tiers(tier_views(tiers@)) {
                    Ok(ConfigView { tiers: tier_views(tiers@), ..self@ })
                } else {
                    Err(ConfigError::InvalidTiers)
                },
            ),
    {
        proof {
            use_type_invariant(&self);
        }
        if !check_tiers(&tiers) {
            return Err(ConfigError::InvalidTiers);
        }
        Ok(
            Config {
                webp: self.webp,
                brotli: self.brotli,
                zstd: self.zstd,
                deflate: self.deflate,
                gzip: self.gzip,
                no_resize_images: self.no_resize_images,
                no_compress_images: self.no_compress_images,
                in_dir: self.in_dir,
                out_dir: self.out_dir,
                tiers,
            },
        )
    }

    pub fn webp(&self) -> (r: WebPQualityConfig)
        ensures
            r == self@.webp,
    {
        self.webp
    }

    pub fn brotli_level(&self) -> (r: u32)
        ensures
            r == self@.brotli,
            MIN_BROTLI_LEVEL <= r <= MAX_BROTLI_LEVEL,
    {
        proof {
            use_type_invariant(self);
        }
        self.brotli
    }

    pub fn zstd_level(&self) -> (r: i32)
        ensures
            r == self@.zstd,
    {
        self.zstd
    }

    pub fn deflate_level(&self) -> (r: u32)
        ensures
            r == self@.deflate,
            MIN_FLATE_LEVEL <= r <= MAX_FLATE_LEVEL,
    {
        proof {
            use_type_invariant(self);
        }
        self.deflate
    }

    pub fn gzip_level(&self) -> (r: u32)
        ensures
            r == self@.gzip,
            MIN_FLATE_LEVEL <= r <= MAX_FLATE_LEVEL,
    {
        proof {
            use_type_invariant(self);
        }
        self.gzip
    }

    pub fn no_resize_images(&self) -> (r: bool)
        ensures
            r == self@.no_resize_images,
    {
        self.no_resize_images
    }

    pub fn no_compress_images(&self) -> (r: bool)
        ensures
            r == self@.no_compress_images,
    {
        self.no_compress_images
    }

    pub fn in_dir(&self) -> (r: &[u8])
        ensures
            r@ == self@.in_dir,
    {
        self.in_dir.as_slice()
    }

    pub fn out_dir(&self) -> (r: &[u8])
        ensures
            r@ == self@.out_dir,
    {
        self.out_dir.as_slice()
    }

    pub fn tiers(&self) -> (r: &Vec<Tier>)
        ensures
            tier_views(r@) == self@.tiers,
            valid_tiers(self@.tiers),
    {
        proof {
            use_type_invariant(self);
        }
        &self.tiers
    }
}

} // verus!
