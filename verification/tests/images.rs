use asset_pipeline::artifact::{Artifact, ArtifactKind, OnExisting, Payload, PipelineRun, WebPSource};
use asset_pipeline::config::{Config, Settings, Tier};
use asset_pipeline::error::Error;
use asset_pipeline::picture::Picture;
use asset_pipeline::transcode::{dynamic_render, image_compress, image_outcome, transcode};
use image::ImageEncoder;

fn pixels(width: u32, height: u32) -> Vec<u8> {
    let mut rgba = Vec::new();
    for y in 0..height {
        for x in 0..width {
            rgba.push((x * 29 + 3) as u8);
            rgba.push((y * 41 + 5) as u8);
            rgba.push(((x + y) * 17) as u8);
            rgba.push(255 - ((x * 7 + y * 13) % 200) as u8);
        }
    }
    rgba
}

fn png_of(width: u32, height: u32, rgba: &[u8]) -> Vec<u8> {
    let mut out = Vec::new();
    image::codecs::png::PngEncoder::new(&mut out)
        .write_image(rgba, width, height, image::ExtendedColorType::Rgba8)
        .unwrap();
    out
}

fn config(no_resize: bool, no_compress: bool, settings: Settings) -> Config {
    Config::load(b"assets".to_vec(), b"public".to_vec(), no_resize, no_compress, &settings)
        .unwrap()
}

fn bytes(artifact: &Artifact) -> &Vec<u8> {
    match &artifact.payload {
        Payload::Bytes(bytes) => bytes,
        Payload::WebP(_) => panic!("expected bytes"),
    }
}

fn webp(artifact: &Artifact) -> &WebPSource {
    match &artifact.payload {
        Payload::WebP(source) => source,
        Payload::Bytes(_) => panic!("expected a WebP source"),
    }
}

fn text(bytes: &[u8]) -> String {
    String::from_utf8(bytes.to_vec()).unwrap()
}

fn is_avif(data: &[u8]) -> bool {
    data.len() > 12 && &data[4..8] == b"ftyp" && &data[8..12] == b"avif"
}

#[test]
fn image_with_resizing_gives_sixteen_artifacts() {
    let source = png_of(6, 4, &pixels(6, 4));
    let run = image_compress(&config(false, false, Settings::default()), b"assets/img/photo.png", &source);
    assert!(run.succeeded(), "{:?}", run.error);
    assert_eq!(run.source, b"assets/img/photo.png".to_vec());
    let paths: Vec<String> = run.artifacts.iter().map(|a| text(&a.path)).collect();
    assert_eq!(
        paths,
        vec![
            "public/img/photo-small.avif",
            "public/img/photo-small.jpeg",
            "public/img/photo-small.png",
            "public/img/photo-small.webp",
            "public/img/photo-medium.avif",
            "public/img/photo-medium.jpeg",
            "public/img/photo-medium.png",
            "public/img/photo-medium.webp",
            "public/img/photo-large.avif",
            "public/img/photo-large.jpeg",
            "public/img/photo-large.png",
            "public/img/photo-large.webp",
            "public/img/photo.avif",
            "public/img/photo.jpeg",
            "public/img/photo.png",
            "public/img/photo.webp",
        ]
    );
    let labels: Vec<Option<String>> =
        run.artifacts.iter().map(|a| a.label.as_ref().map(|l| text(l))).collect();
    for (i, label) in labels.iter().enumerate() {
        let expected = ["small", "medium", "large"].get(i / 4).map(|l| l.to_string());
        assert_eq!(label, &expected);
    }
    for (i, artifact) in run.artifacts.iter().enumerate() {
        let kind = [ArtifactKind::Avif, ArtifactKind::Jpeg, ArtifactKind::Png, ArtifactKind::WebP][i % 4];
        assert_eq!(artifact.kind, kind);
        assert_eq!(artifact.on_existing, OnExisting::Fail);
    }
    let mut unique = paths.clone();
    unique.sort();
    unique.dedup();
    assert_eq!(unique.len(), 16);
}

#[test]
fn every_image_artifact_can_be_decoded() {
    let rgba = pixels(6, 4);
    let source = png_of(6, 4, &rgba);
    let run = image_compress(&config(false, false, Settings::default()), b"assets/photo.png", &source);
    assert_eq!(run.artifacts.len(), 16);
    for artifact in &run.artifacts {
        match artifact.kind {
            ArtifactKind::Avif => assert!(is_avif(bytes(artifact))),
            ArtifactKind::Jpeg => {
                let decoded =
                    image::load_from_memory_with_format(bytes(artifact), image::ImageFormat::Jpeg)
                        .unwrap();
                assert_eq!((decoded.width(), decoded.height()), (6, 4));
            },
            ArtifactKind::Png => {
                let decoded =
                    image::load_from_memory_with_format(bytes(artifact), image::ImageFormat::Png)
                        .unwrap();
                assert_eq!((decoded.width(), decoded.height()), (6, 4));
                assert_eq!(decoded.into_rgba8().into_raw(), rgba);
            },
            ArtifactKind::WebP => {
                let source = webp(artifact);
                let encoded = webp::Encoder::from_rgba(&source.rgba, source.width, source.height)
                    .encode_simple(true, 75.0)
                    .unwrap();
                let decoded =
                    image::load_from_memory_with_format(&encoded, image::ImageFormat::WebP).unwrap();
                assert_eq!((decoded.width(), decoded.height()), (6, 4));
                assert_eq!(decoded.into_rgba8().into_raw(), rgba);
            },
            _ => panic!("unexpected kind"),
        }
    }
}

#[test]
fn image_without_resizing_gives_four_artifacts() {
    let source = png_of(6, 4, &pixels(6, 4));
    let run = image_compress(&config(true, false, Settings::default()), b"assets/photo.png", &source);
    assert!(run.succeeded());
    let paths: Vec<String> = run.artifacts.iter().map(|a| text(&a.path)).collect();
    assert_eq!(
        paths,
        vec!["public/photo.avif", "public/photo.jpeg", "public/photo.png", "public/photo.webp"]
    );
    assert!(run.artifacts.iter().all(|a| a.label.is_none()));
}

#[test]
fn jpeg_has_no_alpha_and_png_and_webp_keep_it() {
    let rgba = pixels(6, 4);
    assert!(rgba.chunks(4).any(|p| p[3] != 255));
    let source = png_of(6, 4, &rgba);
    let run = image_compress(&config(true, false, Settings::default()), b"assets/photo.png", &source);
    let jpeg =
        image::load_from_memory_with_format(bytes(&run.artifacts[1]), image::ImageFormat::Jpeg)
            .unwrap();
    assert!(!jpeg.color().has_alpha());
    assert_eq!(jpeg.color(), image::ColorType::Rgb8);
    let png =
        image::load_from_memory_with_format(bytes(&run.artifacts[2]), image::ImageFormat::Png)
            .unwrap();
    assert!(png.color().has_alpha());
    let alphas: Vec<u8> = png.into_rgba8().into_raw().chunks(4).map(|p| p[3]).collect();
    let expected: Vec<u8> = rgba.chunks(4).map(|p| p[3]).collect();
    assert_eq!(alphas, expected);
    assert_eq!(webp(&run.artifacts[3]).rgba, rgba);
}

#[test]
fn jpeg_is_the_same_whatever_the_alpha() {
    let rgba = pixels(6, 4);
    let mut opaque = rgba.clone();
    for pixel in opaque.chunks_mut(4) {
        pixel[3] = 255;
    }
    let config = config(true, false, Settings::default());
    let with_alpha = image_compress(&config, b"assets/photo.png", &png_of(6, 4, &rgba));
    let without = image_compress(&config, b"assets/photo.png", &png_of(6, 4, &opaque));
    assert_eq!(bytes(&with_alpha.artifacts[1]), bytes(&without.artifacts[1]));
    assert_ne!(bytes(&with_alpha.artifacts[2]), bytes(&without.artifacts[2]));

    let mut expected = Vec::new();
    let rgb: Vec<u8> = rgba.chunks(4).flat_map(|p| [p[0], p[1], p[2]]).collect();
    image::codecs::jpeg::JpegEncoder::new(&mut expected)
        .write_image(&rgb, 6, 4, image::ExtendedColorType::Rgb8)
        .unwrap();
    assert_eq!(bytes(&with_alpha.artifacts[1]), &expected);
}

#[test]
fn webp_source_carries_mode_and_quality() {
    let source = png_of(3, 2, &pixels(3, 2));
    let lossy = Settings { webp_quality: Some(42_500), ..Settings::default() };
    let run = image_compress(&config(true, false, lossy), b"assets/photo.png", &source);
    let job = webp(&run.artifacts[3]);
    assert_eq!((job.width, job.height), (3, 2));
    assert!(!job.lossless);
    assert_eq!(job.quality, 42_500);
    assert_eq!(job.rgba, pixels(3, 2));

    let lossless = Settings { webp_lossless: Some(b"1".to_vec()), ..Settings::default() };
    let run = image_compress(&config(true, false, lossless), b"assets/photo.png", &source);
    let job = webp(&run.artifacts[3]);
    assert!(job.lossless);
    assert_eq!(job.quality, 75_000);

    let run = image_compress(&config(true, false, Settings::default()), b"assets/photo.png", &source);
    let job = webp(&run.artifacts[3]);
    assert!(!job.lossless);
    assert_eq!(job.quality, 80_000);
}

#[test]
fn tiers_scale_down_and_never_up() {
    let rgba = pixels(8, 6);
    let source = png_of(8, 6, &rgba);
    let tiers = vec![
        Tier { label: b"tiny".to_vec(), max_dimension: 2 },
        Tier { label: b"half".to_vec(), max_dimension: 4 },
        Tier { label: b"same".to_vec(), max_dimension: 8 },
        Tier { label: b"huge".to_vec(), max_dimension: 100 },
    ];
    let config = config(false, false, Settings::default()).with_tiers(tiers).unwrap();
    let run = image_compress(&config, b"assets/a/photo.png", &source);
    assert!(run.succeeded());
    assert_eq!(run.artifacts.len(), 20);
    let sizes: Vec<(u32, u32)> = run
        .artifacts
        .iter()
        .filter(|a| a.kind == ArtifactKind::Png)
        .map(|a| {
            let decoded =
                image::load_from_memory_with_format(bytes(a), image::ImageFormat::Png).unwrap();
            (decoded.width(), decoded.height())
        })
        .collect();
    assert_eq!(sizes, vec![(2, 2), (4, 3), (8, 6), (8, 6), (8, 6)]);
    let webps: Vec<(u32, u32)> = run
        .artifacts
        .iter()
        .filter(|a| a.kind == ArtifactKind::WebP)
        .map(|a| (webp(a).width, webp(a).height))
        .collect();
    assert_eq!(webps, sizes);
    assert_eq!(text(&run.artifacts[0].path), "public/a/photo-tiny.avif");
    assert_eq!(text(&run.artifacts[6].path), "public/a/photo-half.png");
    assert_eq!(text(&run.artifacts[15].path), "public/a/photo-huge.webp");
    assert_eq!(text(&run.artifacts[19].path), "public/a/photo.webp");
    // A tier that does not scale gives the pixels of the picture itself.
    assert_eq!(webp(&run.artifacts[11]).rgba, rgba);
    assert_eq!(webp(&run.artifacts[15]).rgba, rgba);
    assert_eq!(bytes(&run.artifacts[14]), bytes(&run.artifacts[18]));
}

#[test]
fn image_left_as_it_is_gives_one_copy() {
    let source = b"these bytes are never decoded".to_vec();
    let run = image_compress(&config(false, true, Settings::default()), b"assets/photo.jpg", &source);
    assert!(run.succeeded());
    assert_eq!(
        run.artifacts,
        vec![Artifact {
            path: b"public/photo.jpg".to_vec(),
            kind: ArtifactKind::Original,
            label: None,
            on_existing: OnExisting::Skip,
            payload: Payload::Bytes(source.clone()),
        }]
    );
}

#[test]
fn undecodable_image_ends_in_an_image_error() {
    let run = image_compress(&config(false, false, Settings::default()), b"assets/photo.png", b"garbage");
    assert!(!run.succeeded());
    assert!(run.artifacts.is_empty());
    assert!(matches!(run.error, Some(Error::Image(_))));
}

#[test]
fn extension_decides_the_format() {
    let source = png_of(3, 2, &pixels(3, 2));
    let config = config(true, false, Settings::default());
    let run = image_compress(&config, b"assets/photo.jpg", &source);
    assert!(matches!(run.error, Some(Error::Image(_))));
    let run = image_compress(&config, b"assets/photo.txt", &source);
    assert!(matches!(run.error, Some(Error::Image(_))));
    let run = image_compress(&config, b"assets/photo", &source);
    assert!(matches!(run.error, Some(Error::Image(_))));
    assert!(run.artifacts.is_empty());
}

#[test]
fn image_outside_the_input_root_is_refused() {
    let source = png_of(3, 2, &pixels(3, 2));
    let run = image_compress(&config(false, false, Settings::default()), b"other/photo.png", &source);
    assert!(run.artifacts.is_empty());
    assert!(matches!(run.error, Some(Error::StripPrefixError)));
    let run = image_compress(&config(false, true, Settings::default()), b"other/photo.png", &source);
    assert!(matches!(run.error, Some(Error::StripPrefixError)));
}

#[test]
fn bmp_and_jpeg_sources_are_decoded() {
    let rgba = pixels(4, 4);
    let rgb: Vec<u8> = rgba.chunks(4).flat_map(|p| [p[0], p[1], p[2]]).collect();
    let mut bmp = Vec::new();
    image::codecs::bmp::BmpEncoder::new(&mut bmp)
        .write_image(&rgb, 4, 4, image::ExtendedColorType::Rgb8)
        .unwrap();
    let mut jpeg = Vec::new();
    image::codecs::jpeg::JpegEncoder::new(&mut jpeg)
        .write_image(&rgb, 4, 4, image::ExtendedColorType::Rgb8)
        .unwrap();
    let config = config(true, false, Settings::default());
    let run = image_compress(&config, b"assets/a.bmp", &bmp);
    assert!(run.succeeded());
    assert_eq!(text(&run.artifacts[2].path), "public/a.png");
    let decoded =
        image::load_from_memory_with_format(bytes(&run.artifacts[2]), image::ImageFormat::Png)
            .unwrap();
    let back: Vec<u8> = decoded.into_rgb8().into_raw();
    assert_eq!(back, rgb);
    for name in [&b"assets/a.jpg"[..], &b"assets/a.jpeg"[..]] {
        let run = image_compress(&config, name, &jpeg);
        assert!(run.succeeded());
        assert_eq!(run.artifacts.len(), 4);
        assert_eq!(text(&run.artifacts[1].path), "public/a.jpeg");
    }
}

#[test]
fn transcode_renders_a_given_picture() {
    let picture = Picture::from_rgba(4, 2, pixels(4, 2)).unwrap();
    let config = config(false, false, Settings::default())
        .with_tiers(vec![Tier { label: b"s".to_vec(), max_dimension: 2 }])
        .unwrap();
    let run = transcode(&config, b"assets/x.bmp", b"elsewhere/y.bmp", &picture);
    assert!(run.succeeded());
    assert_eq!(run.source, b"assets/x.bmp".to_vec());
    let paths: Vec<String> = run.artifacts.iter().map(|a| text(&a.path)).collect();
    assert_eq!(
        paths,
        vec![
            "elsewhere/y-s.avif",
            "elsewhere/y-s.jpeg",
            "elsewhere/y-s.png",
            "elsewhere/y-s.webp",
            "elsewhere/y.avif",
            "elsewhere/y.jpeg",
            "elsewhere/y.png",
            "elsewhere/y.webp",
        ]
    );
    assert_eq!((webp(&run.artifacts[3]).width, webp(&run.artifacts[3]).height), (2, 1));
}

#[test]
fn tier_without_a_place_for_its_suffix_ends_the_run() {
    let picture = Picture::from_rgba(4, 2, pixels(4, 2)).unwrap();
    let with_tiers = config(false, false, Settings::default());
    let run = transcode(&with_tiers, b"assets/x", b"public/x", &picture);
    assert!(run.artifacts.is_empty());
    assert!(matches!(run.error, Some(Error::NoExtension)));
    let run = transcode(&with_tiers, b"assets/..png", b"public/..png", &picture);
    assert!(run.artifacts.is_empty());
    assert!(matches!(run.error, Some(Error::NoFileName)));
    let without = config(true, false, Settings::default());
    let run = transcode(&without, b"assets/x", b"public/x", &picture);
    assert!(run.succeeded());
    assert_eq!(text(&run.artifacts[0].path), "public/x.avif");
}

#[test]
fn failing_encoder_ends_the_run_after_what_was_made() {
    // The JPEG encoder takes no side longer than 65535 pixels.
    let picture = Picture::from_rgba(65536, 1, vec![7; 4 * 65536]).unwrap();
    let config = config(true, false, Settings::default());
    let run = transcode(&config, b"assets/wide.png", b"public/wide.png", &picture);
    assert!(!run.succeeded());
    assert!(matches!(run.error, Some(Error::Image(_))));
    assert!(run.artifacts.len() <= 1);
    for artifact in &run.artifacts {
        assert_eq!(artifact.kind, ArtifactKind::Avif);
    }
}

#[test]
fn dynamic_render_leaves_a_failed_run_alone() {
    let picture = Picture::from_rgba(2, 2, pixels(2, 2)).unwrap();
    let config = config(true, false, Settings::default());
    let mut run = PipelineRun::new(b"assets/a.png");
    run.fail(Error::NoFileName);
    dynamic_render(&config, &picture, b"public/a.png", &None, &mut run);
    assert!(run.artifacts.is_empty());
    assert!(matches!(run.error, Some(Error::NoFileName)));
}

#[test]
fn dynamic_render_adds_four_artifacts() {
    let picture = Picture::from_rgba(2, 2, pixels(2, 2)).unwrap();
    let config = config(true, false, Settings::default());
    let mut run = PipelineRun::new(b"assets/a.png");
    dynamic_render(&config, &picture, b"public/a.png", &Some(b"x".to_vec()), &mut run);
    dynamic_render(&config, &picture, b"public/b", &None, &mut run);
    assert!(run.succeeded());
    let paths: Vec<String> = run.artifacts.iter().map(|a| text(&a.path)).collect();
    assert_eq!(
        paths,
        vec![
            "public/a.avif",
            "public/a.jpeg",
            "public/a.png",
            "public/a.webp",
            "public/b.avif",
            "public/b.jpeg",
            "public/b.png",
            "public/b.webp",
        ]
    );
    assert_eq!(run.artifacts[0].label, Some(b"x".to_vec()));
    assert_eq!(run.artifacts[4].label, None);
    let mut expected = Vec::new();
    image::codecs::png::PngEncoder::new(&mut expected)
        .write_image(&pixels(2, 2), 2, 2, image::ExtendedColorType::Rgba8)
        .unwrap();
    assert_eq!(bytes(&run.artifacts[2]), &expected);
}

#[test]
fn image_outcome_wraps_both_ways() {
    assert_eq!(image_outcome(Ok(vec![9])).unwrap(), Payload::Bytes(vec![9]));
    let error = image::load_from_memory(b"nothing").unwrap_err();
    assert!(matches!(image_outcome(Err(error)), Err(Error::Image(_))));
}

#[test]
fn smallest_pictures_are_rendered() {
    let config = config(true, false, Settings::default());
    for (w, h) in [(1u32, 1u32), (1, 5), (7, 1), (3, 3)] {
        let picture = Picture::from_rgba(w, h, pixels(w, h)).unwrap();
        let run = transcode(&config, b"assets/p.png", b"public/p.png", &picture);
        assert!(run.succeeded(), "{}x{}: {:?}", w, h, run.error);
        assert_eq!(run.artifacts.len(), 4);
        assert!(is_avif(bytes(&run.artifacts[0])));
    }
}

#[test]
fn empty_picture_is_refused_by_the_first_encoder() {
    let config = config(true, false, Settings::default());
    let picture = Picture::from_rgba(0, 0, Vec::new()).unwrap();
    let run = transcode(&config, b"assets/p.png", b"public/p.png", &picture);
    assert!(run.artifacts.is_empty());
    assert!(matches!(run.error, Some(Error::Image(_))));
    let with_tiers = super_config();
    let run = transcode(&with_tiers, b"assets/p.png", b"public/p.png", &picture);
    assert!(run.artifacts.is_empty());
    assert!(matches!(run.error, Some(Error::Image(_))));
}

fn super_config() -> Config {
    config(false, false, Settings::default())
}
