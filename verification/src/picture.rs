//! Decoded images as plain pixels, and the arithmetic of resizing.
//!
//! A picture is a width, a height and four bytes for each pixel, row by
//! row: red, green, blue and alpha.

use vstd::prelude::*;
use crate::classify::ImageKind;
use crate::error::Error;
use crate::raster::{decode_rgba, thumbnail_pixels, thumbnail_rgba};

verus! {

/// A picture as a plain value.
pub struct PictureView {
    pub width: u32,
    pub height: u32,
    pub rgba: Seq<u8>,
}

/// Whether the pixels of `p` are as many as its width and height say.
pub open spec fn valid_picture(p: PictureView) -> bool {
    p.rgba.len() == 4 * p.width * p.height
}

/// A decoded image.
#[derive(Debug)]
pub struct Picture {
    width: u32,
    height: u32,
    rgba: Vec<u8>,
}

impl View for Picture {
    type V = PictureView;

    closed spec fn view(&self) -> PictureView {
        PictureView { width: self.width, height: self.height, rgba: self.rgba@ }
    }
}

/// The greater of the two sides.
pub open spec fn longest_side(width: u32, height: u32) -> u32 {
    if width >= height {
        width
    } else {
        height
    }
}

/// A side of `side` pixels in a picture that is scaled so that its longest
/// side, of `longest` pixels, comes to `bound`: the exact quotient rounded to
/// the nearest whole number, halves upwards, and at least one pixel.
pub open spec fn scaled_side(side: u32, longest: u32, bound: u32) -> int {
    let rounded = (2 * side * bound + longest) / (2 * longest);
    if rounded < 1 {
        1
    } else {
        rounded
    }
}

/// The width and height of the variant of a `width` by `height` picture for
/// a tier that bounds both sides by `bound`. A picture that fits within the
/// bound keeps its size: nothing is ever scaled up. A larger one is scaled
/// down, with its proportions kept, so that its longest side is `bound`.
pub open spec fn fitted(width: u32, height: u32, bound: u32) -> (u32, u32) {
    let longest = longest_side(width, height);
    if width == 0 || height == 0 || longest <= bound {
        (width, height)
    } else {
        (scaled_side(width, longest, bound) as u32, scaled_side(height, longest, bound) as u32)
    }
}

/// What scaling a side down comes to: at least one pixel, at most the side
/// itself and, for a bound of one pixel or more, at most the bound, which
/// the longest side reaches exactly.
pub proof fn lemma_scaled_side(side: u32, longest: u32, bound: u32)
    requires
        1 <= side <= longest,
        bound < longest,
    ensures
        1 <= scaled_side(side, longest, bound) <= side,
        bound >= 1 ==> scaled_side(side, longest, bound) <= bound,
        side == longest && bound >= 1 ==> scaled_side(side, longest, bound) == bound,
        (2 * side * bound + longest) / (2 * longest) <= side,
{
    let s = side as int;
    let b = bound as int;
    let l = longest as int;
    let n = 2 * s * b + l;
    let d = 2 * l;
    let q = n / d;
    assert(q * d <= n < (q + 1) * d) by (nonlinear_arith)
        requires
            q == n / d,
            d > 0,
    ;
    assert(n < (s + 1) * d) by (nonlinear_arith)
        requires
            n == 2 * s * b + l,
            d == 2 * l,
            0 <= b < l,
            1 <= s,
    ;
    assert(q <= s) by (nonlinear_arith)
        requires
            q * d <= n,
            n < (s + 1) * d,
            d > 0,
    ;
    assert(n < (b + 1) * d) by (nonlinear_arith)
        requires
            n == 2 * s * b + l,
            d == 2 * l,
            0 <= b,
            1 <= s <= l,
    ;
    assert(q <= b) by (nonlinear_arith)
        requires
            q * d <= n,
            n < (b + 1) * d,
            d > 0,
    ;
    if side == longest {
        assert(b * d <= n) by (nonlinear_arith)
            requires
                n == 2 * s * b + l,
                d == 2 * l,
                s == l,
                0 <= l,
        ;
        assert(q >= b) by (nonlinear_arith)
            requires
                b * d <= n,
                n < (q + 1) * d,
                d > 0,
        ;
    }
}

/// No tier ever scales a picture up: the variant is at most as wide and as
/// high as the picture, and a picture whose longest side is within the
/// bound keeps its size. A larger picture keeps no side longer than the
/// bound: its longest side becomes the bound itself.
pub proof fn law_never_upscales(width: u32, height: u32, bound: u32)
    ensures
        fitted(width, height, bound).0 <= width,
        fitted(width, height, bound).1 <= height,
        longest_side(width, height) <= bound ==> fitted(width, height, bound) == (width, height),
        longest_side(width, height) > bound >= 1 && width >= 1 && height >= 1 ==> longest_side(
            fitted(width, height, bound).0,
            fitted(width, height, bound).1,
        ) == bound,
        width >= 1 && height >= 1 ==> fitted(width, height, bound).0 >= 1 && fitted(
            width,
            height,
            bound,
        ).1 >= 1,
{
    let longest = longest_side(width, height);
    if !(width == 0 || height == 0 || longest <= bound) {
        lemma_scaled_side(width, longest, bound);
        lemma_scaled_side(height, longest, bound);
    }
}

/// Scales one side down.
fn scale_side(side: u32, longest: u32, bound: u32) -> (r: u32)
    requires
        1 <= side <= longest,
        bound < longest,
    ensures
        r == scaled_side(side, longest, bound),
{
    assert(side * bound <= 0xffff_ffff * 0xffff_ffff) by (nonlinear_arith)
        requires
            0 <= side <= 0xffff_ffff,
            0 <= bound <= 0xffff_ffff,
    ;
    let product: u64 = (side as u64) * (bound as u64);
    let numerator: u128 = 2 * (product as u128) + (longest as u128);
    let denominator: u128 = 2 * (longest as u128);
    let rounded: u128 = numerator / denominator;
    proof {
        assert(numerator == 2 * side * bound + longest) by (nonlinear_arith)
            requires
                numerator == 2 * (side * bound) + longest,
        ;
        lemma_scaled_side(side, longest, bound);
    }
    if rounded < 1 {
        1
    } else {
        rounded as u32
    }
}

/// Computes the width and height of the variant for a tier.
pub fn fit_within(width: u32, height: u32, bound: u32) -> (r: (u32, u32))
    ensures
        r == fitted(width, height, bound),
        r.0 <= width,
        r.1 <= height,
        longest_side(width, height) <= bound ==> r == (width, height),
        longest_side(width, height) > bound >= 1 && width >= 1 && height >= 1 ==> longest_side(
            r.0,
            r.1,
        ) == bound,
        width >= 1 && height >= 1 ==> r.0 >= 1 && r.1 >= 1,
{
    let longest = if width >= height {
        width
    } else {
        height
    };
    proof {
        law_never_upscales(width, height, bound);
    }
    if width == 0 || height == 0 || longest <= bound {
        return (width, height);
    }
    (scale_side(width, longest, bound), scale_side(height, longest, bound))
}

/// The pixels `rgba` with the fourth byte of each pixel left out: three
/// bytes per pixel, the colours unchanged.
pub open spec fn without_alpha(rgba: Seq<u8>) -> Seq<u8> {
    Seq::new((rgba.len() / 4 * 3) as nat, |i: int| rgba[i / 3 * 4 + i % 3])
}

/// Whether two pixel buffers hold the same colours: they are as long as
/// each other and agree in every byte but the fourth of each pixel.
pub open spec fn same_colours(a: Seq<u8>, b: Seq<u8>) -> bool {
    &&& a.len() == b.len()
    &&& forall|i: int| 0 <= i < a.len() && i % 4 != 3 ==> a[i] == b[i]
}

/// The byte of the channel `channel` of the pixel `pixel`: red is channel
/// 0, green 1, blue 2 and alpha 3.
pub open spec fn sample(rgba: Seq<u8>, pixel: int, channel: int) -> u8 {
    rgba[4 * pixel + channel]
}

/// Leaving the alpha out keeps the three colour bytes of every pixel, in
/// their order: no colour is blended with the alpha or with a background.
pub proof fn law_colours_are_kept(rgba: Seq<u8>)
    ensures
        without_alpha(rgba).len() == rgba.len() / 4 * 3,
        forall|pixel: int, channel: int|
            0 <= pixel < rgba.len() / 4 && 0 <= channel < 3 ==> without_alpha(rgba)[3 * pixel
                + channel] == #[trigger] sample(rgba, pixel, channel),
{
    assert forall|pixel: int, channel: int|
        0 <= pixel < rgba.len() / 4 && 0 <= channel < 3 implies without_alpha(rgba)[3 * pixel
        + channel] == #[trigger] sample(rgba, pixel, channel) by {
        let i = 3 * pixel + channel;
        assert(i / 3 == pixel && i % 3 == channel);
    }
}

/// What is left once the alpha is dropped does not depend on the alpha.
pub proof fn law_alpha_is_dropped(a: Seq<u8>, b: Seq<u8>)
    requires
        same_colours(a, b),
    ensures
        without_alpha(a) == without_alpha(b),
{
    assert forall|i: int| 0 <= i < without_alpha(a).len() implies without_alpha(a)[i]
        == without_alpha(b)[i] by {
        let at = i / 3 * 4 + i % 3;
        assert(at % 4 == i % 3);
    }
    assert(without_alpha(a) =~= without_alpha(b));
}

/// Leaves the alpha byte of each pixel out.
pub fn drop_alpha(rgba: &[u8]) -> (r: Vec<u8>)
    ensures
        r@ == without_alpha(rgba@),
{
    let len: usize = rgba.len();
    let pixels: usize = len / 4;
    let mut out: Vec<u8> = Vec::new();
    let mut p: usize = 0;
    while p < pixels
        invariant
            p <= pixels == rgba@.len() / 4,
            4 * pixels <= len == rgba@.len(),
            out@.len() == 3 * p,
            forall|i: int| 0 <= i < out@.len() ==> out@[i] == rgba@[i / 3 * 4 + i % 3],
        decreases pixels - p,
    {
        out.push(rgba[4 * p]);
        out.push(rgba[4 * p + 1]);
        out.push(rgba[4 * p + 2]);
        p += 1;
    }
    assert(out@ =~= without_alpha(rgba@));
    out
}

impl Picture {
    #[verifier::type_invariant]
    spec fn well_formed(&self) -> bool {
        valid_picture(self@)
    }

    /// Makes a picture of pixels that are as many as the sides say.
    pub fn from_rgba(width: u32, height: u32, rgba: Vec<u8>) -> (r: Option<Picture>)
        ensures
            match r {
                Some(p) => p@ == (PictureView { width, height, rgba: rgba@ }) && valid_picture(p@),
                None => rgba@.len() != 4 * width * height,
            },
    {
        assert(width * height <= 0xffff_ffff * 0xffff_ffff) by (nonlinear_arith)
            requires
                0 <= width <= 0xffff_ffff,
                0 <= height <= 0xffff_ffff,
        ;
        let area: u64 = (width as u64) * (height as u64);
        let expected: u128 = 4 * (area as u128);
        assert(expected == 4 * width * height) by (nonlinear_arith)
            requires
                expected == 4 * (width * height),
        ;
        if rgba.len() as u128 == expected {
            Some(Picture { width, height, rgba })
        } else {
            None
        }
    }

    /// Decodes `content` as an image of the format `kind`. Without a format
    /// nothing is decoded: the result is an image error. With one, the
    /// decoder decides; a picture that comes back is well formed, and a
    /// failure is an image error.
    pub fn decode(content: &[u8], kind: Option<ImageKind>) -> (r: Result<Picture, Error>)
        ensures
            kind.is_none() ==> r is Err,
            match r {
                Ok(picture) => valid_picture(picture@),
                Err(e) => e is Image,
            },
    {
        match decode_rgba(content, kind) {
            Ok((width, height, rgba)) => Ok(Picture { width, height, rgba }),
            Err(e) => Err(Error::Image(e)),
        }
    }

    /// The variant of this picture for a tier that bounds both sides by
    /// `bound`.
    pub open spec fn tier_variant(p: PictureView, bound: u32) -> PictureView {
        let size = fitted(p.width, p.height, bound);
        PictureView {
            width: size.0,
            height: size.1,
            rgba: thumbnail_pixels(p.rgba, p.width, p.height, size.0, size.1),
        }
    }

    /// Resamples the picture for a tier that bounds both sides by `bound`.
    /// The variant is never larger than the picture, and a picture within
    /// the bound keeps its size.
    pub fn thumbnail(&self, bound: u32) -> (r: Picture)
        ensures
            r@ == Picture::tier_variant(self@, bound),
            valid_picture(r@),
            r@.width <= self@.width,
            r@.height <= self@.height,
            longest_side(self@.width, self@.height) <= bound ==> r@.width == self@.width
                && r@.height == self@.height,
    {
        proof {
            use_type_invariant(self);
        }
        let (width, height) = fit_within(self.width, self.height, bound);
        match thumbnail_rgba(self.rgba.as_slice(), self.width, self.height, width, height) {
            Some(rgba) => Picture { width, height, rgba },
            None => vstd::pervasive::unreached(),
        }
    }

    pub fn width(&self) -> (r: u32)
        ensures
            r == self@.width,
    {
        self.width
    }

    pub fn height(&self) -> (r: u32)
        ensures
            r == self@.height,
    {
        self.height
    }

    /// The pixels: four bytes each, row by row.
    pub fn rgba(&self) -> (r: &[u8])
        ensures
            r@ == self@.rgba,
            valid_picture(self@),
    {
        proof {
            use_type_invariant(self);
        }
        self.rgba.as_slice()
    }
}

} // verus!
