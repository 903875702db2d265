//! The pixel canvas: a rectangular RGBA buffer with verified fill,
//! pixel-write and grid-line operations.

use vstd::prelude::*;
use vstd::pervasive::VecAdditionalExecFns;

verus! {

/// One RGBA pixel: red, green, blue and alpha channel values.
pub type Px = (u8, u8, u8, u8);

/// The default number of columns in a room (x-coordinate).
pub const DEFAULT_ROOM_MAX_COLUMNS: u32 = 50;

/// The default number of rows in a room (y-coordinate).
pub const DEFAULT_ROOM_MAX_ROWS: u32 = 50;

/// The default scaling factor: the number of pixels allocated for each
/// edge of a room cell.
pub const DEFAULT_SCALE_FACTOR: u32 = 50;

/// The pixel at column `x`, row `y` of a row-major RGBA byte buffer that is
/// `width` pixels wide.
pub open spec fn px_at(data: Seq<u8>, width: int, x: int, y: int) -> Px {
    (
        data[4 * (y * width + x)],
        data[4 * (y * width + x) + 1],
        data[4 * (y * width + x) + 2],
        data[4 * (y * width + x) + 3],
    )
}

/// A mutable rectangular pixel buffer. Pixels are stored row-major, four
/// bytes per pixel in red, green, blue, alpha order.
pub struct Canvas {
    pub width: u32,
    pub height: u32,
    pub data: Vec<u8>,
}

impl Canvas {
    /// The buffer holds exactly four bytes for each of its
    /// `width * height` pixels.
    pub open spec fn wf(self) -> bool {
        self.data@.len() == 4 * (self.width as int) * (self.height as int)
    }

    /// Byte offset of the pixel at column `x`, row `y`.
    pub open spec fn off(self, x: int, y: int) -> int {
        4 * (y * (self.width as int) + x)
    }

    /// The pixel at column `x`, row `y`.
    pub open spec fn pix(self, x: int, y: int) -> Px {
        px_at(self.data@, self.width as int, x, y)
    }

    /// The four bytes of an in-bounds pixel lie inside the buffer.
    proof fn lemma_off_in_range(self, x: int, y: int)
        requires
            self.wf(),
            0 <= x < self.width,
            0 <= y < self.height,
        ensures
            0 <= y * (self.width as int),
            0 <= self.off(x, y),
            self.off(x, y) + 4 <= self.data@.len(),
    {
        let w = self.width as int;
        let h = self.height as int;
        assert(0 <= y * w && y * w + x + 1 <= w * h && 4 * (y * w + x) + 4 <= 4 * w * h)
            by (nonlinear_arith)
            requires
                0 <= x < w,
                0 <= y < h,
        ;
    }

    /// Distinct in-bounds pixels occupy disjoint byte ranges.
    proof fn lemma_off_disjoint(self, x: int, y: int, i: int, j: int)
        requires
            0 <= x < self.width,
            0 <= y < self.height,
            0 <= i < self.width,
            0 <= j < self.height,
            !(i == x && j == y),
        ensures
            self.off(i, j) + 4 <= self.off(x, y) || self.off(x, y) + 4 <= self.off(i, j),
    {
        assert(y * (self.width as int) + x != j * (self.width as int) + i)
            by (nonlinear_arith)
            requires
                0 <= x < self.width,
                0 <= y < self.height,
                0 <= i < self.width,
                0 <= j < self.height,
                !(i == x && j == y),
        ;
    }

    /// Overwrites the pixel at column `x`, row `y`, leaving every other
    /// pixel as it was.
    pub fn set_pixel(&mut self, x: u32, y: u32, px: Px)
        requires
            old(self).wf(),
            x < old(self).width,
            y < old(self).height,
        ensures
            final(self).wf(),
            final(self).width == old(self).width,
            final(self).height == old(self).height,
            final(self).pix(x as int, y as int) == px,
            forall|i: int, j: int|
                0 <= i < old(self).width && 0 <= j < old(self).height && !(i == x && j == y)
                    ==> #[trigger] final(self).pix(i, j) == old(self).pix(i, j),
    {
        // The buffer length fits a usize, so the pixel's byte offset does too.
        let len: usize = self.data.len();
        proof {
            self.lemma_off_in_range(x as int, y as int);
            assert(self.off(x as int, y as int) + 4 <= len);
            assert((y as usize as int) * (self.width as usize as int)
                == (y as int) * (self.width as int));
        }
        let base: usize = 4 * (y as usize * self.width as usize + x as usize);
        self.data.set(base, px.0);
        self.data.set(base + 1, px.1);
        self.data.set(base + 2, px.2);
        self.data.set(base + 3, px.3);
        proof {
            assert forall|i: int, j: int|
                0 <= i < old(self).width && 0 <= j < old(self).height && !(i == x && j == y)
                    implies #[trigger] self.pix(i, j) == old(self).pix(i, j) by {
                old(self).lemma_off_in_range(i, j);
                old(self).lemma_off_disjoint(x as int, y as int, i, j);
            }
        }
    }

    /// Paints the rectangle of `rw` by `rh` pixels whose top-left corner is
    /// at `(x0, y0)` with the pixel value `px`; all other pixels keep their
    /// value.
    #[verifier::loop_isolation(false)]
    pub fn fill_rect(&mut self, x0: u32, y0: u32, rw: u32, rh: u32, px: Px)
        requires
            old(self).wf(),
            x0 + rw <= old(self).width,
            y0 + rh <= old(self).height,
        ensures
            final(self).wf(),
            final(self).width == old(self).width,
            final(self).height == old(self).height,
            forall|i: int, j: int|
                0 <= i < old(self).width && 0 <= j < old(self).height
                    ==> #[trigger] final(self).pix(i, j) == (if x0 <= i < x0 + rw && y0 <= j < y0 + rh {
                        px
                    } else {
                        old(self).pix(i, j)
                    }),
    {
        let mut dy: u32 = 0;
        while dy < rh
            invariant
                dy <= rh,
                self.wf(),
                self.width == old(self).width,
                self.height == old(self).height,
                forall|i: int, j: int|
                    0 <= i < old(self).width && 0 <= j < old(self).height
                        ==> #[trigger] self.pix(i, j) == (if x0 <= i < x0 + rw && y0 <= j < y0 + dy {
                            px
                        } else {
                            old(self).pix(i, j)
                        }),
            decreases rh - dy,
        {
            let mut dx: u32 = 0;
            while dx < rw
                invariant
                    dx <= rw,
                    dy < rh,
                    self.wf(),
                    self.width == old(self).width,
                    self.height == old(self).height,
                    forall|i: int, j: int|
                        0 <= i < old(self).width && 0 <= j < old(self).height
                            ==> #[trigger] self.pix(i, j) == (if x0 <= i < x0 + rw
                                && (y0 <= j < y0 + dy || (j == y0 + dy && i < x0 + dx)) {
                                px
                            } else {
                                old(self).pix(i, j)
                            }),
                decreases rw - dx,
            {
                self.set_pixel(x0 + dx, y0 + dy, px);
                dx = dx + 1;
            }
            dy = dy + 1;
        }
    }
}

/// Allocates a canvas of the given dimensions with every pixel set to `px`.
pub(crate) fn filled(width: u32, height: u32, px: Px) -> (c: Canvas)
    requires
        4 * (width as int) * (height as int) <= usize::MAX,
    ensures
        c.wf(),
        c.width == width,
        c.height == height,
        forall|i: int, j: int|
            0 <= i < width && 0 <= j < height ==> #[trigger] c.pix(i, j) == px,
{
    proof {
        assert(0 <= (width as int) * (height as int)
            && 4 * (width as int) * (height as int) == 4 * ((width as int) * (height as int)))
            by (nonlinear_arith);
    }
    let n: usize = 4 * (width as usize * height as usize);
    let mut c = Canvas { width, height, data: vec![0u8; n] };
    c.fill_rect(0, 0, width, height, px);
    c
}

/// Creates an image with default size parameters, filled opaque black.
pub fn create_image() -> (c: Canvas)
    ensures
        c.wf(),
        c.width == DEFAULT_ROOM_MAX_COLUMNS * DEFAULT_SCALE_FACTOR + 1,
        c.height == DEFAULT_ROOM_MAX_ROWS * DEFAULT_SCALE_FACTOR + 1,
        forall|i: int, j: int|
            0 <= i < c.width && 0 <= j < c.height ==> #[trigger] c.pix(i, j) == (0u8, 0u8, 0u8, 255u8),
{
    proof {
        assert(4 * (50 * 50 + 1) * (50 * 50 + 1) == 25020004int) by (nonlinear_arith);
    }
    create_image_with_size_params(DEFAULT_ROOM_MAX_COLUMNS, DEFAULT_ROOM_MAX_ROWS, DEFAULT_SCALE_FACTOR)
}

/// Creates an image with user-supplied size parameters: one cell is
/// `scale_factor` pixels on a side, and one extra pixel row and column hold
/// the final gridline. Every pixel starts opaque black.
pub fn create_image_with_size_params(room_max_cols: u32, room_max_rows: u32, scale_factor: u32) -> (c: Canvas)
    requires
        room_max_cols * scale_factor + 1 <= u32::MAX,
        room_max_rows * scale_factor + 1 <= u32::MAX,
        4 * (room_max_cols * scale_factor + 1) * (room_max_rows * scale_factor + 1) <= usize::MAX,
    ensures
        c.wf(),
        c.width == room_max_cols * scale_factor + 1,
        c.height == room_max_rows * scale_factor + 1,
        forall|i: int, j: int|
            0 <= i < c.width && 0 <= j < c.height ==> #[trigger] c.pix(i, j) == (0u8, 0u8, 0u8, 255u8),
{
    let width: u32 = room_max_cols * scale_factor + 1;
    let height: u32 = room_max_rows * scale_factor + 1;
    filled(width, height, (0, 0, 0, 255))
}

/// The value of a pixel after grid lines are drawn over it: translucent
/// white where the column or row is an exact multiple of the scale factor,
/// the prior value everywhere else.
pub open spec fn grid_pixel(p: Px, x: int, y: int, s: int) -> Px {
    if x % s == 0 || y % s == 0 {
        (255u8, 255u8, 255u8, 128u8)
    } else {
        p
    }
}

/// Drawing the grid twice has no effect beyond drawing it once: a pixel
/// already carrying the grid transform is left exactly as it is.
pub proof fn lemma_draw_grid_idempotent(p: Px, x: int, y: int, s: int)
    ensures
        grid_pixel(grid_pixel(p, x, y, s), x, y, s) == grid_pixel(p, x, y, s),
{
}

/// Drawing the grid twice yields the canvas the first drawing yielded:
/// if `c1` is `c0` with the grid drawn, and `c2` is `c1` with the grid
/// drawn again, then `c2` and `c1` agree on every pixel.
pub proof fn lemma_draw_grid_twice_equals_once(c0: Canvas, c1: Canvas, c2: Canvas, s: int)
    requires
        c1.width == c0.width,
        c1.height == c0.height,
        c2.width == c1.width,
        c2.height == c1.height,
        forall|i: int, j: int|
            0 <= i < c0.width && 0 <= j < c0.height
                ==> #[trigger] c1.pix(i, j) == grid_pixel(c0.pix(i, j), i, j, s),
        forall|i: int, j: int|
            0 <= i < c1.width && 0 <= j < c1.height
                ==> #[trigger] c2.pix(i, j) == grid_pixel(c1.pix(i, j), i, j, s),
    ensures
        forall|i: int, j: int|
            0 <= i < c0.width && 0 <= j < c0.height ==> #[trigger] c2.pix(i, j) == c1.pix(i, j),
{
    assert forall|i: int, j: int|
        0 <= i < c0.width && 0 <= j < c0.height implies #[trigger] c2.pix(i, j) == c1.pix(i, j) by {
        lemma_draw_grid_idempotent(c0.pix(i, j), i, j, s);
    }
}

/// Draws a grid on a default-sized image.
pub fn draw_grid(imgbuf: &mut Canvas)
    requires
        old(imgbuf).wf(),
    ensures
        final(imgbuf).wf(),
        final(imgbuf).width == old(imgbuf).width,
        final(imgbuf).height == old(imgbuf).height,
        forall|i: int, j: int|
            0 <= i < old(imgbuf).width && 0 <= j < old(imgbuf).height
                ==> #[trigger] final(imgbuf).pix(i, j)
                    == grid_pixel(old(imgbuf).pix(i, j), i, j, DEFAULT_SCALE_FACTOR as int),
{
    draw_grid_with_scale_factor(imgbuf, DEFAULT_SCALE_FACTOR)
}

/// Draws a grid on an image with user-supplied scaling: every pixel whose
/// column or row is an exact multiple of the scale factor is overwritten
/// with translucent white.
#[verifier::loop_isolation(false)]
pub fn draw_grid_with_scale_factor(imgbuf: &mut Canvas, scale_factor: u32)
    requires
        old(imgbuf).wf(),
        scale_factor >= 1,
    ensures
        final(imgbuf).wf(),
        final(imgbuf).width == old(imgbuf).width,
        final(imgbuf).height == old(imgbuf).height,
        forall|i: int, j: int|
            0 <= i < old(imgbuf).width && 0 <= j < old(imgbuf).height
                ==> #[trigger] final(imgbuf).pix(i, j)
                    == grid_pixel(old(imgbuf).pix(i, j), i, j, scale_factor as int),
{
    let mut y: u32 = 0;
    while y < imgbuf.height
        invariant
            y <= imgbuf.height,
            imgbuf.wf(),
            imgbuf.width == old(imgbuf).width,
            imgbuf.height == old(imgbuf).height,
            forall|i: int, j: int|
                0 <= i < old(imgbuf).width && 0 <= j < old(imgbuf).height
                    ==> #[trigger] imgbuf.pix(i, j) == (if j < y {
                        grid_pixel(old(imgbuf).pix(i, j), i, j, scale_factor as int)
                    } else {
                        old(imgbuf).pix(i, j)
                    }),
        decreases imgbuf.height - y,
    {
        let mut x: u32 = 0;
        while x < imgbuf.width
            invariant
                x <= imgbuf.width,
                y < imgbuf.height,
                imgbuf.wf(),
                imgbuf.width == old(imgbuf).width,
                imgbuf.height == old(imgbuf).height,
                forall|i: int, j: int|
                    0 <= i < old(imgbuf).width && 0 <= j < old(imgbuf).height
                        ==> #[trigger] imgbuf.pix(i, j) == (if j < y || (j == y && i < x) {
                            grid_pixel(old(imgbuf).pix(i, j), i, j, scale_factor as int)
                        } else {
                            old(imgbuf).pix(i, j)
                        }),
            decreases imgbuf.width - x,
        {
            if x % scale_factor == 0 || y % scale_factor == 0 {
                imgbuf.set_pixel(x, y, (255, 255, 255, 128));
            }
            x = x + 1;
        }
        y = y + 1;
    }
}

} // verus!
