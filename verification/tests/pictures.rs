use asset_pipeline::classify::ImageKind;
use asset_pipeline::error::Error;
use asset_pipeline::picture::{drop_alpha, fit_within, Picture};
use image::ImageEncoder;

fn pixels(width: u32, height: u32) -> Vec<u8> {
    let mut rgba = Vec::new();
    for y in 0..height {
        for x in 0..width {
            rgba.push((x * 29 + 3) as u8);
            rgba.push((y * 41 + 5) as u8);
            rgba.push(((x + y) * 17) as u8);
            rgba.push(255 - ((x * 7 + y * 13) % 200) as u8);
        }
    }
    rgba
}

fn png_of(width: u32, height: u32, rgba: &[u8]) -> Vec<u8> {
    let mut out = Vec::new();
    image::codecs::png::PngEncoder::new(&mut out)
        .write_image(rgba, width, height, image::ExtendedColorType::Rgba8)
        .unwrap();
    out
}

#[test]
fn picture_within_the_bound_keeps_its_size() {
    assert_eq!(fit_within(100, 50, 256), (100, 50));
    assert_eq!(fit_within(256, 256, 256), (256, 256));
    assert_eq!(fit_within(1, 1, 1024), (1, 1));
    assert_eq!(fit_within(256, 10, 256), (256, 10));
    assert_eq!(fit_within(0, 0, 256), (0, 0));
    assert_eq!(fit_within(0, 5000, 256), (0, 5000));
}

#[test]
fn larger_picture_is_scaled_to_the_bound() {
    assert_eq!(fit_within(2000, 1000, 256), (256, 128));
    assert_eq!(fit_within(1000, 2000, 256), (128, 256));
    assert_eq!(fit_within(1025, 1025, 1024), (1024, 1024));
    assert_eq!(fit_within(300, 200, 256), (256, 171));
    assert_eq!(fit_within(257, 3, 256), (256, 3));
    assert_eq!(fit_within(3000, 1, 512), (512, 1));
    assert_eq!(fit_within(4, 3, 2), (2, 2));
    assert_eq!(fit_within(8, 6, 4), (4, 3));
    assert_eq!(fit_within(8, 1, 4), (4, 1));
    assert_eq!(fit_within(8, 3, 4), (4, 2));
    assert_eq!(fit_within(u32::MAX, u32::MAX, 1024), (1024, 1024));
    assert_eq!(fit_within(u32::MAX, 1, u32::MAX - 1), (u32::MAX - 1, 1));
}

#[test]
fn no_tier_scales_up() {
    for (w, h) in [(1u32, 1u32), (10, 700), (255, 256), (257, 256), (4000, 3000), (1024, 1)] {
        for bound in [1u32, 2, 256, 512, 1024, 5000] {
            let (nw, nh) = fit_within(w, h, bound);
            assert!(nw <= w && nh <= h, "{}x{} in {}", w, h, bound);
            assert!(nw >= 1 && nh >= 1);
            if w.max(h) <= bound {
                assert_eq!((nw, nh), (w, h));
            } else {
                assert_eq!(nw.max(nh), bound);
            }
        }
    }
}

#[test]
fn drop_alpha_keeps_the_colours() {
    assert_eq!(drop_alpha(&[1, 2, 3, 4, 5, 6, 7, 8]), vec![1, 2, 3, 5, 6, 7]);
    assert_eq!(drop_alpha(&[9, 8, 7, 0]), vec![9, 8, 7]);
    assert_eq!(drop_alpha(&[]), Vec::<u8>::new());
    assert_eq!(drop_alpha(&[1, 2, 3, 4, 5, 6]), vec![1, 2, 3]);
}

#[test]
fn from_rgba_checks_the_length() {
    let picture = Picture::from_rgba(2, 3, pixels(2, 3)).unwrap();
    assert_eq!(picture.width(), 2);
    assert_eq!(picture.height(), 3);
    assert_eq!(picture.rgba(), pixels(2, 3).as_slice());
    assert!(Picture::from_rgba(2, 3, vec![0; 23]).is_none());
    assert!(Picture::from_rgba(2, 3, vec![0; 25]).is_none());
    assert!(Picture::from_rgba(0, 7, Vec::new()).is_some());
    assert!(Picture::from_rgba(u32::MAX, u32::MAX, vec![0; 4]).is_none());
}

#[test]
fn decode_gives_the_pixels_of_a_png() {
    let rgba = pixels(5, 4);
    let picture = Picture::decode(&png_of(5, 4, &rgba), Some(ImageKind::Png)).unwrap();
    assert_eq!(picture.width(), 5);
    assert_eq!(picture.height(), 4);
    assert_eq!(picture.rgba(), rgba.as_slice());
}

#[test]
fn decode_turns_rgb_into_rgba() {
    let rgb: Vec<u8> = (0..3 * 3 * 2).map(|i| (i * 11) as u8).collect();
    let mut png = Vec::new();
    image::codecs::png::PngEncoder::new(&mut png)
        .write_image(&rgb, 3, 2, image::ExtendedColorType::Rgb8)
        .unwrap();
    let picture = Picture::decode(&png, Some(ImageKind::Png)).unwrap();
    assert_eq!(picture.rgba().len(), 4 * 3 * 2);
    assert_eq!(drop_alpha(picture.rgba()), rgb);
    assert!(picture.rgba().chunks(4).all(|p| p[3] == 255));
}

#[test]
fn decode_failure_is_an_image_error() {
    assert!(matches!(Picture::decode(b"not a png", Some(ImageKind::Png)), Err(Error::Image(_))));
    assert!(matches!(Picture::decode(b"", Some(ImageKind::Jpeg)), Err(Error::Image(_))));
    let png = png_of(2, 2, &pixels(2, 2));
    assert!(matches!(Picture::decode(&png, Some(ImageKind::Bmp)), Err(Error::Image(_))));
    assert!(matches!(Picture::decode(&png[..20], Some(ImageKind::Png)), Err(Error::Image(_))));
}

#[test]
fn decode_without_a_format_is_refused() {
    let png = png_of(2, 2, &pixels(2, 2));
    assert!(matches!(Picture::decode(&png, None), Err(Error::Image(_))));
}

#[test]
fn thumbnail_never_grows_the_picture() {
    let picture = Picture::from_rgba(8, 6, pixels(8, 6)).unwrap();
    let same = picture.thumbnail(256);
    assert_eq!((same.width(), same.height()), (8, 6));
    assert_eq!(same.rgba(), picture.rgba());
    let exact = picture.thumbnail(8);
    assert_eq!((exact.width(), exact.height()), (8, 6));
    assert_eq!(exact.rgba(), picture.rgba());
}

#[test]
fn thumbnail_scales_a_larger_picture_down() {
    let picture = Picture::from_rgba(8, 6, pixels(8, 6)).unwrap();
    let half = picture.thumbnail(4);
    assert_eq!((half.width(), half.height()), (4, 3));
    assert_eq!(half.rgba().len(), 4 * 4 * 3);
    let expected = image::imageops::thumbnail(
        &image::RgbaImage::from_raw(8, 6, pixels(8, 6)).unwrap(),
        4,
        3,
    );
    assert_eq!(half.rgba(), expected.as_raw().as_slice());
    assert_ne!(half.rgba(), &picture.rgba()[..48]);
    let tiny = picture.thumbnail(1);
    assert_eq!((tiny.width(), tiny.height()), (1, 1));
}

#[test]
fn thumbnail_of_a_flat_picture_is_flat() {
    let flat: Vec<u8> = std::iter::repeat([10u8, 20, 30, 40]).take(64).flatten().collect();
    let picture = Picture::from_rgba(8, 8, flat).unwrap();
    let small = picture.thumbnail(2);
    assert_eq!((small.width(), small.height()), (2, 2));
    assert!(small.rgba().chunks(4).all(|p| p == [10, 20, 30, 40]));
}
