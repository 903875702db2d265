//! Translucent single-color overlay buffers: transparent canvases with one
//! or more cell blocks painted in a caller-chosen RGBA value, ready to be
//! composited onto a room image.

use vstd::prelude::*;
use crate::canvas::{filled, Canvas, Px};

verus! {

/// The cell block of the cell at `(cx, cy)`, drawn at scale `s`, contains
/// the pixel `(i, j)`.
pub open spec fn cell_covers(cx: int, cy: int, s: int, i: int, j: int) -> bool {
    cx * s + 1 <= i < cx * s + 1 + s && cy * s + 1 <= j < cy * s + 1 + s
}

/// The cell block of the cell at `(cx, cy)`, drawn at scale `s`, lies
/// inside a `width` by `height` canvas.
pub open spec fn cell_fits(cx: int, cy: int, s: int, width: int, height: int) -> bool {
    cx * s + 1 + s <= width && cy * s + 1 + s <= height
}

/// Some tile of the list covers the pixel `(i, j)`.
pub open spec fn some_tile_covers(tiles: Seq<(u8, u8)>, s: int, i: int, j: int) -> bool {
    exists|k: int|
        0 <= k < tiles.len() && #[trigger] cell_covers(tiles[k].0 as int, tiles[k].1 as int, s, i, j)
}

proof fn lemma_some_tile_covers_step(tiles: Seq<(u8, u8)>, s: int, k: int, i: int, j: int)
    requires
        0 <= k < tiles.len(),
    ensures
        some_tile_covers(tiles.take(k + 1), s, i, j) <==> (cell_covers(
            tiles[k].0 as int,
            tiles[k].1 as int,
            s,
            i,
            j,
        ) || some_tile_covers(tiles.take(k), s, i, j)),
{
    if some_tile_covers(tiles.take(k + 1), s, i, j) {
        let m = choose|m: int|
            0 <= m < tiles.take(k + 1).len() && #[trigger] cell_covers(
                tiles.take(k + 1)[m].0 as int,
                tiles.take(k + 1)[m].1 as int,
                s,
                i,
                j,
            );
        if m < k {
            assert(cell_covers(tiles.take(k)[m].0 as int, tiles.take(k)[m].1 as int, s, i, j));
        }
    }
    if cell_covers(tiles[k].0 as int, tiles[k].1 as int, s, i, j) {
        assert(cell_covers(tiles.take(k + 1)[k].0 as int, tiles.take(k + 1)[k].1 as int, s, i, j));
    }
    if some_tile_covers(tiles.take(k), s, i, j) {
        let m = choose|m: int|
            0 <= m < tiles.take(k).len() && #[trigger] cell_covers(
                tiles.take(k)[m].0 as int,
                tiles.take(k)[m].1 as int,
                s,
                i,
                j,
            );
        assert(cell_covers(tiles.take(k + 1)[m].0 as int, tiles.take(k + 1)[m].1 as int, s, i, j));
    }
}

/// Returns a transparent overlay buffer with the single cell block at
/// `(x, y)` painted in the given RGBA value.
pub fn get_tile_alpha_overlay(overlay_width: u32, overlay_height: u32, scale_factor: u32, r: u8, g: u8, b: u8, a: u8, x: u8, y: u8) -> (o: Canvas)
    requires
        scale_factor >= 1,
        4 * (overlay_width as int) * (overlay_height as int) <= usize::MAX,
        cell_fits(x as int, y as int, scale_factor as int, overlay_width as int, overlay_height as int),
    ensures
        o.wf(),
        o.width == overlay_width,
        o.height == overlay_height,
        forall|i: int, j: int|
            0 <= i < overlay_width && 0 <= j < overlay_height
                ==> #[trigger] o.pix(i, j) == (if cell_covers(x as int, y as int, scale_factor as int, i, j) {
                    (r, g, b, a)
                } else {
                    (0u8, 0u8, 0u8, 0u8)
                }),
{
    let mut alpha_overlay = filled(overlay_width, overlay_height, (0, 0, 0, 0));
    let x_start = x as u32 * scale_factor + 1;
    let y_start = y as u32 * scale_factor + 1;
    alpha_overlay.fill_rect(x_start, y_start, scale_factor, scale_factor, (r, g, b, a));
    alpha_overlay
}

/// Returns a transparent overlay buffer with the cell block of every tile
/// in the list painted in the given RGBA value.
#[verifier::loop_isolation(false)]
pub fn get_tile_alpha_overlay_multi_tile(overlay_width: u32, overlay_height: u32, scale_factor: u32, r: u8, g: u8, b: u8, a: u8, tiles: &Vec<(u8, u8)>) -> (o: Canvas)
    requires
        scale_factor >= 1,
        4 * (overlay_width as int) * (overlay_height as int) <= usize::MAX,
        forall|k: int|
            0 <= k < tiles@.len() ==> #[trigger] cell_fits(
                tiles@[k].0 as int,
                tiles@[k].1 as int,
                scale_factor as int,
                overlay_width as int,
                overlay_height as int,
            ),
    ensures
        o.wf(),
        o.width == overlay_width,
        o.height == overlay_height,
        forall|i: int, j: int|
            0 <= i < overlay_width && 0 <= j < overlay_height
                ==> #[trigger] o.pix(i, j) == (if some_tile_covers(tiles@, scale_factor as int, i, j) {
                    (r, g, b, a)
                } else {
                    (0u8, 0u8, 0u8, 0u8)
                }),
{
    let mut alpha_overlay = filled(overlay_width, overlay_height, (0, 0, 0, 0));
    let mut k: usize = 0;
    while k < tiles.len()
        invariant
            k <= tiles@.len(),
            alpha_overlay.wf(),
            alpha_overlay.width == overlay_width,
            alpha_overlay.height == overlay_height,
            forall|i: int, j: int|
                0 <= i < overlay_width && 0 <= j < overlay_height
                    ==> #[trigger] alpha_overlay.pix(i, j) == (if some_tile_covers(
                        tiles@.take(k as int),
                        scale_factor as int,
                        i,
                        j,
                    ) {
                        (r, g, b, a)
                    } else {
                        (0u8, 0u8, 0u8, 0u8)
                    }),
        decreases tiles@.len() - k,
    {
        let (x, y) = tiles[k];
        proof {
            assert(cell_fits(
                tiles@[k as int].0 as int,
                tiles@[k as int].1 as int,
                scale_factor as int,
                overlay_width as int,
                overlay_height as int,
            ));
            assert((x as u32 as int) * (scale_factor as int) == (x as int) * (scale_factor as int));
            assert((y as u32 as int) * (scale_factor as int) == (y as int) * (scale_factor as int));
        }
        let x_start = x as u32 * scale_factor + 1;
        let y_start = y as u32 * scale_factor + 1;
        let ghost prev = alpha_overlay;
        alpha_overlay.fill_rect(x_start, y_start, scale_factor, scale_factor, (r, g, b, a));
        proof {
            assert forall|i: int, j: int| 0 <= i < overlay_width && 0 <= j < overlay_height implies
                (some_tile_covers(tiles@.take(k as int + 1), scale_factor as int, i, j) <==> (
                cell_covers(x as int, y as int, scale_factor as int, i, j)
                    || some_tile_covers(tiles@.take(k as int), scale_factor as int, i, j))) by {
                lemma_some_tile_covers_step(tiles@, scale_factor as int, k as int, i, j);
            }
            assert forall|i: int, j: int| 0 <= i < overlay_width && 0 <= j < overlay_height implies
                #[trigger] alpha_overlay.pix(i, j) == (if cell_covers(x as int, y as int, scale_factor as int, i, j) {
                    (r, g, b, a)
                } else {
                    prev.pix(i, j)
                }) by {
            }
        }
        k = k + 1;
    }
    proof {
        assert(tiles@.take(tiles@.len() as int) =~= tiles@);
    }
    alpha_overlay
}

} // verus!
