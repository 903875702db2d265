//! Trusted boundary to the `image` crate: alpha compositing of one canvas
//! onto another, and nearest-neighbor resampling. Everything else that
//! touches pixels in this library is verified code.

use vstd::prelude::*;
use crate::canvas::{Canvas, Px};

verus! {

/// The pixel produced by the `image` crate's straight-alpha-over blend of a
/// source pixel (`top`) onto a destination pixel (`bottom`).
pub uninterp spec fn blend_of(bottom: Px, top: Px) -> Px;

/// The raw bytes of the `image` crate's nearest-neighbor resampling of a
/// `width` by `height` RGBA buffer to `new_width` by `new_height`.
pub uninterp spec fn resized(
    data: Seq<u8>,
    width: int,
    height: int,
    new_width: int,
    new_height: int,
) -> Seq<u8>;

/// Composites `top` onto `base` with its top-left corner at `(x, y)`.
///
/// Relies on `image::imageops::overlay`, which blends every pixel of the
/// top image onto the corresponding pixel of the bottom image with
/// `image::Rgba::blend`. That blend leaves the destination pixel unchanged
/// when the source alpha is zero, and replaces it with the source pixel
/// when the source alpha is 255.
#[verifier::external_body]
pub fn overlay_onto(base: &mut Canvas, top: &Canvas, x: u32, y: u32)
    requires
        old(base).wf(),
        top.wf(),
        x + top.width <= old(base).width,
        y + top.height <= old(base).height,
    ensures
        final(base).wf(),
        final(base).width == old(base).width,
        final(base).height == old(base).height,
        forall|i: int, j: int|
            0 <= i < old(base).width && 0 <= j < old(base).height
                ==> #[trigger] final(base).pix(i, j) == (if x <= i < x + top.width && y <= j < y + top.height {
                    blend_of(old(base).pix(i, j), top.pix(i - x, j - y))
                } else {
                    old(base).pix(i, j)
                }),
        forall|i: int, j: int|
            x <= i < x + top.width && y <= j < y + top.height
                && top.pix(i - x, j - y).3 == 255
                ==> #[trigger] final(base).pix(i, j) == top.pix(i - x, j - y),
        forall|i: int, j: int|
            x <= i < x + top.width && y <= j < y + top.height
                && top.pix(i - x, j - y).3 == 0
                ==> #[trigger] final(base).pix(i, j) == old(base).pix(i, j),
{
    let bottom_data = std::mem::take(&mut base.data);
    let mut bottom = image::RgbaImage::from_raw(base.width, base.height, bottom_data).unwrap();
    let top_img = image::RgbaImage::from_raw(top.width, top.height, top.data.clone()).unwrap();
    image::imageops::overlay(&mut bottom, &top_img, x as i64, y as i64);
    base.data = bottom.into_raw();
}

/// The buffers the resampler allocates when a tile must be brought to
/// scale `s` fit in memory: an intermediate floating-point raster of the
/// tile's width by `s` rows at sixteen bytes per pixel, and the `s` by `s`
/// result. Trivially true when the tile is already at scale.
pub open spec fn resample_fits(tile: Canvas, s: int) -> bool {
    (tile.width != s || tile.height != s) ==> (16 * (tile.width as int) * s <= usize::MAX && 16 * s
        * s <= usize::MAX)
}

/// Returns `tile` resampled to `new_width` by `new_height` pixels.
///
/// Relies on `image::imageops::resize` with `FilterType::Nearest`, whose
/// result is a buffer of exactly the requested dimensions and depends only
/// on the source pixels and the dimensions involved. The resampler works
/// through an intermediate floating-point raster of the source width by
/// the new height, sixteen bytes per pixel; the size bounds keep its
/// allocation from overflowing.
#[verifier::external_body]
pub fn resize_nearest(tile: &Canvas, new_width: u32, new_height: u32) -> (r: Canvas)
    requires
        tile.wf(),
        tile.width >= 1,
        tile.height >= 1,
        new_width >= 1,
        new_height >= 1,
        16 * (tile.width as int) * (new_height as int) <= usize::MAX,
        16 * (new_width as int) * (new_height as int) <= usize::MAX,
    ensures
        r.wf(),
        r.width == new_width,
        r.height == new_height,
        r.data@ == resized(
            tile.data@,
            tile.width as int,
            tile.height as int,
            new_width as int,
            new_height as int,
        ),
{
    let src = image::RgbaImage::from_raw(tile.width, tile.height, tile.data.clone()).unwrap();
    let out = image::imageops::resize(&src, new_width, new_height, image::imageops::FilterType::Nearest);
    Canvas { width: new_width, height: new_height, data: out.into_raw() }
}

} // verus!
