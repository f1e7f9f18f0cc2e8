//! The four stream codecs, each behind one call.
//!
//! What a codec writes for given bytes at a given level is a matter of many
//! pages. The library does not restate it: it gives each codec's output a
//! name and speaks of the output by that name.

use std::io::Read;
use std::io::Write;
use vstd::prelude::*;

verus! {

/// The size of the buffer through which brotli reads its input.
pub const BROTLI_BUFFER: usize = 4096;

/// The base-two logarithm of brotli's window.
pub const BROTLI_WINDOW: u32 = 20;

/// The brotli stream for `content` at quality `level`, read through a buffer
/// of `BROTLI_BUFFER` bytes with a window of `BROTLI_WINDOW` bits, or `None`
/// where the encoder gives up.
pub uninterp spec fn brotli_stream(content: Seq<u8>, level: u32) -> Option<Seq<u8>>;

/// The gzip member for `content` at `level`, with an empty header, or `None`
/// where the encoder gives up.
pub uninterp spec fn gzip_stream(content: Seq<u8>, level: u32) -> Option<Seq<u8>>;

/// The zstd frame for `content` at `level`, or `None` where the encoder
/// gives up.
pub uninterp spec fn zstd_stream(content: Seq<u8>, level: i32) -> Option<Seq<u8>>;

/// The raw deflate stream for `content` at `level`, or `None` where the
/// encoder gives up.
pub uninterp spec fn deflate_stream(content: Seq<u8>, level: u32) -> Option<Seq<u8>>;

/// Reads `content` to its end through `brotli::CompressorReader`, made by
/// `new` with a buffer of `BROTLI_BUFFER` bytes, quality `level` and a window
/// of `BROTLI_WINDOW` bits.
///
/// Trusted: for a quality in the encoder's range, up to 11, what was read is
/// `brotli_stream(content, level)`, and the read fails exactly where that is
/// `None`. The crate is built with its
/// `portable-float` feature, under which the encoder emits the same bytes on
/// every target.
#[verifier::external_body]
pub(crate) fn brotli_compress(content: &[u8], level: u32) -> (r: Result<Vec<u8>, std::io::Error>)
    requires
        level <= 11,
    ensures
        match r {
            Ok(out) => brotli_stream(content@, level) == Some(out@),
            Err(_) => brotli_stream(content@, level).is_none(),
        },
{
    let mut reader = brotli::CompressorReader::new(content, BROTLI_BUFFER, level, BROTLI_WINDOW);
    let mut out = Vec::new();
    reader.read_to_end(&mut out)?;
    Ok(out)
}

/// Writes `content` through the encoder that `flate2::GzBuilder::new().write`
/// makes for `flate2::Compression::new(level)`, and finishes it.
///
/// Trusted: for a level up to 9, what was written is
/// `gzip_stream(content, level)`, and the encoder fails exactly where that is
/// `None`. A level above 10 is left out: a debug build stops on it.
#[verifier::external_body]
pub(crate) fn gzip_compress(content: &[u8], level: u32) -> (r: Result<Vec<u8>, std::io::Error>)
    requires
        level <= 9,
    ensures
        match r {
            Ok(out) => gzip_stream(content@, level) == Some(out@),
            Err(_) => gzip_stream(content@, level).is_none(),
        },
{
    let mut encoder = flate2::GzBuilder::new().write(Vec::new(), flate2::Compression::new(level));
    encoder.write_all(content)?;
    encoder.finish()
}

/// Hands `content` to `zstd::stream::copy_encode` at `level`.
///
/// Trusted: what was written is `zstd_stream(content, level)`, and the call
/// fails exactly where that is `None`.
#[verifier::external_body]
pub(crate) fn zstd_compress(content: &[u8], level: i32) -> (r: Result<Vec<u8>, std::io::Error>)
    ensures
        match r {
            Ok(out) => zstd_stream(content@, level) == Some(out@),
            Err(_) => zstd_stream(content@, level).is_none(),
        },
{
    let mut out = Vec::new();
    zstd::stream::copy_encode(content, &mut out, level)?;
    Ok(out)
}

/// Writes `content` through `flate2::write::DeflateEncoder`, made by `new`
/// for `flate2::Compression::new(level)`, and finishes it.
///
/// Trusted: for a level up to 9, what was written is
/// `deflate_stream(content, level)`, and the encoder fails exactly where that
/// is `None`. A level above 10 is left out: a debug build stops on it.
#[verifier::external_body]
pub(crate) fn deflate_compress(content: &[u8], level: u32) -> (r: Result<Vec<u8>, std::io::Error>)
    requires
        level <= 9,
    ensures
        match r {
            Ok(out) => deflate_stream(content@, level) == Some(out@),
            Err(_) => deflate_stream(content@, level).is_none(),
        },
{
    let mut encoder = flate2::write::DeflateEncoder::new(Vec::new(), flate2::Compression::new(level));
    encoder.write_all(content)?;
    encoder.finish()
}

/// The least and the greatest level that `zstd::compression_level_range`
/// reports. Nothing is claimed of the two numbers.
#[verifier::external_body]
pub(crate) fn zstd_level_range() -> (r: (i32, i32))
{
    let range = zstd::compression_level_range();
    (*range.start(), *range.end())
}

} // verus!
