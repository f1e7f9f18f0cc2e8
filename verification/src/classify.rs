//! Which pipeline a file belongs to. Only its extension counts, byte for
//! byte: `PNG` is not `png`.

use vstd::prelude::*;
use crate::error::{Error, Fault};
use crate::path::{extension, extension_of};

verus! {

/// What is done with a file.
#[derive(Debug, Clone, Copy, PartialEq, Eq, Structural)]
pub enum FileCategory {
    /// The file is a compressed sibling already. Nothing is made of it.
    AlreadyCompressed,
    /// The file is decoded and encoded anew.
    Image,
    /// The file is compressed as it stands.
    Generic,
}

/// The format in which an image is stored.
#[derive(Debug, Clone, Copy, PartialEq, Eq, Structural)]
pub enum ImageKind {
    Png,
    Jpeg,
    Bmp,
    Avif,
    WebP,
}

/// The format that an extension stands for: `png`; `jpg` and `jpeg`; `bmp`;
/// `avif`; `webp`. No other extension names an image.
pub open spec fn image_kind_of(ext: Seq<u8>) -> Option<ImageKind> {
    if ext == seq![112u8, 110u8, 103u8] {
        Some(ImageKind::Png)
    } else if ext == seq![106u8, 112u8, 103u8] || ext == seq![106u8, 112u8, 101u8, 103u8] {
        Some(ImageKind::Jpeg)
    } else if ext == seq![98u8, 109u8, 112u8] {
        Some(ImageKind::Bmp)
    } else if ext == seq![97u8, 118u8, 105u8, 102u8] {
        Some(ImageKind::Avif)
    } else if ext == seq![119u8, 101u8, 98u8, 112u8] {
        Some(ImageKind::WebP)
    } else {
        None
    }
}

/// Whether an extension marks a compressed sibling: `br`, `gz`, `zst`, `zz`.
pub open spec fn marks_compressed(ext: Seq<u8>) -> bool {
    ||| ext == seq![98u8, 114u8]
    ||| ext == seq![103u8, 122u8]
    ||| ext == seq![122u8, 115u8, 116u8]
    ||| ext == seq![122u8, 122u8]
}

/// The category of a file with the extension `ext`.
pub open spec fn category_of(ext: Seq<u8>) -> FileCategory {
    if image_kind_of(ext).is_some() {
        FileCategory::Image
    } else if marks_compressed(ext) {
        FileCategory::AlreadyCompressed
    } else {
        FileCategory::Generic
    }
}

/// The category of the file at `path`. A file without an extension has none.
pub open spec fn classified(path: Seq<u8>) -> Result<FileCategory, Fault> {
    match extension_of(path) {
        Some(ext) => Ok(category_of(ext)),
        None => Err(Fault::NoExtension),
    }
}

/// Whether `s` is the two bytes `a`, `b`.
fn is_pair(s: &[u8], a: u8, b: u8) -> (r: bool)
    ensures
        r == (s@ == seq![a, b]),
{
    let r = s.len() == 2 && s[0] == a && s[1] == b;
    proof {
        let want = seq![a, b];
        if r {
            assert(s@ =~= want);
        } else if s@ == want {
            assert(s@.len() == 2 && s@[0] == want[0] && s@[1] == want[1]);
        }
    }
    r
}

/// Whether `s` is the three bytes `a`, `b`, `c`.
fn is_triple(s: &[u8], a: u8, b: u8, c: u8) -> (r: bool)
    ensures
        r == (s@ == seq![a, b, c]),
{
    let r = s.len() == 3 && s[0] == a && s[1] == b && s[2] == c;
    proof {
        let want = seq![a, b, c];
        if r {
            assert(s@ =~= want);
        } else if s@ == want {
            assert(s@.len() == 3 && s@[0] == want[0] && s@[1] == want[1] && s@[2] == want[2]);
        }
    }
    r
}

/// Whether `s` is the four bytes `a`, `b`, `c`, `d`.
fn is_quad(s: &[u8], a: u8, b: u8, c: u8, d: u8) -> (r: bool)
    ensures
        r == (s@ == seq![a, b, c, d]),
{
    let r = s.len() == 4 && s[0] == a && s[1] == b && s[2] == c && s[3] == d;
    proof {
        let want = seq![a, b, c, d];
        if r {
            assert(s@ =~= want);
        } else if s@ == want {
            assert(s@.len() == 4 && s@[0] == want[0] && s@[1] == want[1] && s@[2] == want[2]
                && s@[3] == want[3]);
        }
    }
    r
}

/// The image format that the extension `ext` stands for.
pub fn image_kind(ext: &[u8]) -> (r: Option<ImageKind>)
    ensures
        r == image_kind_of(ext@),
{
    if is_triple(ext, 112, 110, 103) {
        Some(ImageKind::Png)
    } else if is_triple(ext, 106, 112, 103) || is_quad(ext, 106, 112, 101, 103) {
        Some(ImageKind::Jpeg)
    } else if is_triple(ext, 98, 109, 112) {
        Some(ImageKind::Bmp)
    } else if is_quad(ext, 97, 118, 105, 102) {
        Some(ImageKind::Avif)
    } else if is_quad(ext, 119, 101, 98, 112) {
        Some(ImageKind::WebP)
    } else {
        None
    }
}

/// Whether the extension `ext` marks a compressed sibling.
pub fn is_compressed_extension(ext: &[u8]) -> (r: bool)
    ensures
        r == marks_compressed(ext@),
{
    is_pair(ext, 98, 114) || is_pair(ext, 103, 122) || is_triple(ext, 122, 115, 116) || is_pair(
        ext,
        122,
        122,
    )
}

/// Classifies the file at `path` by its extension.
pub fn classify(path: &[u8]) -> (r: Result<FileCategory, Error>)
    ensures
        match r {
            Ok(category) => classified(path@) == Ok::<FileCategory, Fault>(category),
            Err(e) => classified(path@) == Err::<FileCategory, Fault>(e.fault()),
        },
{
    match extension(path) {
        None => Err(Error::NoExtension),
        Some(ext) => {
            let ext = ext.as_slice();
            if image_kind(ext).is_some() {
                Ok(FileCategory::Image)
            } else if is_compressed_extension(ext) {
                Ok(FileCategory::AlreadyCompressed)
            } else {
                Ok(FileCategory::Generic)
            }
        },
    }
}

} // verus!
