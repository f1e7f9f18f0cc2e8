use asset_pipeline::artifact::ArtifactKind;
use asset_pipeline::config::{Config, Settings};
use asset_pipeline::error::Error;
use asset_pipeline::pipeline::{process_entry, run_batch, AggregateStatus, SourceFile};
use image::ImageEncoder;

fn config(no_resize: bool) -> Config {
    Config::load(b"in".to_vec(), b"out".to_vec(), no_resize, false, &Settings::default()).unwrap()
}

fn png() -> Vec<u8> {
    let rgba: Vec<u8> = (0..4 * 3 * 3).map(|i| (i * 7) as u8 | 1).collect();
    let mut out = Vec::new();
    image::codecs::png::PngEncoder::new(&mut out)
        .write_image(&rgba, 3, 3, image::ExtendedColorType::Rgba8)
        .unwrap();
    out
}

fn file(path: &str, content: &[u8]) -> SourceFile {
    SourceFile { path: path.as_bytes().to_vec(), content: content.to_vec() }
}

#[test]
fn entry_without_extension_fails() {
    let run = process_entry(&config(true), b"in/archive", b"data");
    assert!(run.artifacts.is_empty());
    assert!(matches!(run.error, Some(Error::NoExtension)));
    assert_eq!(run.source, b"in/archive".to_vec());
}

#[test]
fn uppercase_png_goes_through_the_generic_pipeline() {
    let run = process_entry(&config(true), b"in/photo.PNG", &png());
    assert!(run.succeeded());
    assert_eq!(run.artifacts.len(), 5);
    assert_eq!(run.artifacts[0].kind, ArtifactKind::Brotli);
    assert_eq!(run.artifacts[0].path, b"out/photo.PNG.br".to_vec());
    assert_eq!(run.artifacts[4].path, b"out/photo.PNG".to_vec());
}

#[test]
fn compressed_sibling_is_passed_over() {
    for name in ["in/a.css.br", "in/a.gz", "in/a.zst", "in/a.zz"] {
        let run = process_entry(&config(true), name.as_bytes(), b"whatever");
        assert!(run.succeeded());
        assert!(run.artifacts.is_empty());
    }
}

#[test]
fn image_entry_goes_through_the_image_pipeline() {
    let run = process_entry(&config(true), b"in/photo.png", &png());
    assert!(run.succeeded());
    assert_eq!(run.artifacts.len(), 4);
    assert_eq!(run.artifacts[0].kind, ArtifactKind::Avif);
}

#[test]
fn one_bad_image_does_not_stop_the_batch() {
    let files = vec![
        file("in/a.css", b"body { color: red }"),
        file("in/b.png", &png()),
        file("in/broken.png", b"this is no image"),
        file("in/c.js", b"console.log(1)"),
        file("in/d.png", &png()),
    ];
    let report = run_batch(&config(true), &files);
    assert_eq!(report.runs.len(), 5);
    assert_eq!(report.failures, 1);
    assert!(report.status.failed);
    assert!(!report.status.exit_success());
    let counts: Vec<usize> = report.runs.iter().map(|r| r.artifacts.len()).collect();
    assert_eq!(counts, vec![5, 4, 0, 5, 4]);
    let failed: Vec<bool> = report.runs.iter().map(|r| !r.succeeded()).collect();
    assert_eq!(failed, vec![false, false, true, false, false]);
    assert!(matches!(report.runs[2].error, Some(Error::Image(_))));
    for (run, file) in report.runs.iter().zip(&files) {
        assert_eq!(run.source, file.path);
    }
}

#[test]
fn batch_without_failures_succeeds() {
    let files = vec![file("in/a.css", b"a"), file("in/b.br", b"b")];
    let report = run_batch(&config(true), &files);
    assert_eq!(report.failures, 0);
    assert!(!report.status.failed);
    assert!(report.status.exit_success());
    let report = run_batch(&config(true), &Vec::new());
    assert!(report.runs.is_empty());
    assert!(report.status.exit_success());
}

#[test]
fn every_failure_is_counted() {
    let files = vec![
        file("in/noext", b"a"),
        file("elsewhere/a.css", b"b"),
        file("in/x.jpg", b"c"),
        file("in/ok.txt", b"d"),
    ];
    let report = run_batch(&config(true), &files);
    assert_eq!(report.failures, 3);
    assert!(report.status.failed);
    assert!(matches!(report.runs[0].error, Some(Error::NoExtension)));
    assert!(matches!(report.runs[1].error, Some(Error::StripPrefixError)));
    assert!(matches!(report.runs[2].error, Some(Error::Image(_))));
    assert!(report.runs[3].succeeded());
}

#[test]
fn status_does_not_depend_on_the_order() {
    let outcomes = [true, false, true, true];
    let forward = outcomes.iter().fold(AggregateStatus::new(), |s, o| s.record(*o));
    let backward = outcomes.iter().rev().fold(AggregateStatus::new(), |s, o| s.record(*o));
    assert_eq!(forward, backward);
    assert!(forward.failed);
    let left = AggregateStatus::new().record(true).record(false);
    let right = AggregateStatus::new().record(true);
    assert_eq!(left.merge(right), right.merge(left));
    assert!(left.merge(right).failed);
    assert!(!right.merge(AggregateStatus::new()).failed);
    assert!(AggregateStatus::new().exit_success());
}
