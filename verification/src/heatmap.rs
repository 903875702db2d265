//! The heatmap overlay generator: converts a sparse per-cell cost field
//! into a translucent blue-intensity overlay via linear interpolation with
//! clamp or skip policies, composites it onto the canvas in a single blend
//! pass, and computes the label for every surviving cell.

use vstd::prelude::*;
use vstd::arithmetic::div_mod::{
    lemma_div_is_ordered,
    lemma_div_by_multiple,
    lemma_div_multiples_vanish,
    lemma_div_pos_is_pos,
    lemma_small_div_converse,
};
use crate::canvas::{filled, Canvas, Px, DEFAULT_SCALE_FACTOR};
use crate::compose::{blend_of, overlay_onto};
use crate::overlay::{cell_covers, cell_fits};
use crate::text::{dec_digits, decimal_string, TextOp};

verus! {

/// One entry of a sparse cost field: the cell at `(x, y)` carries the
/// scalar `value`. A value of zero means absent, and is never painted.
#[derive(Debug, Clone, Copy, PartialEq, Eq, Structural)]
pub struct CostEntry {
    pub x: u8,
    pub y: u8,
    pub value: u8,
}

/// A rejected call: the configuration handed in makes no sense.
#[derive(Debug, Clone, Copy, PartialEq, Eq, Structural)]
pub enum RenderError {
    /// The clamp range `[v_min, v_max]` is empty or degenerate.
    DegenerateRange,
}

/// Whether an entry is painted and labelled: zero-valued cells are always
/// omitted, and under the skip policy so is every out-of-range cell.
pub open spec fn survives(e: CostEntry, v_min: int, v_max: int, skip: bool) -> bool {
    e.value != 0 && (!skip || (v_min <= e.value && e.value <= v_max))
}

/// The value clamped into `[v_min, v_max]`.
pub open spec fn clamped(value: int, v_min: int, v_max: int) -> int {
    if value > v_max {
        v_max
    } else if value < v_min {
        v_min
    } else {
        value
    }
}

/// The interpolated overlay color of a cost value.
///
/// With `t = (clamped - v_min) / (v_max - v_min)`, the blue channel is
/// `b_max` minus `t * b_max` truncated to an integer, and the red and green
/// channels are both `b_max - blue`: higher cost drifts from white-ish to
/// deep blue. The alpha channel is `a`, except for an (already filtered)
/// zero value, which stays fully transparent.
pub open spec fn heat_rgba(value: int, v_min: int, v_max: int, b_max: int, a: u8) -> Px
    recommends
        0 <= v_min < v_max,
{
    let c = clamped(value, v_min, v_max);
    let q = (c - v_min) * b_max / (v_max - v_min);
    let blue = b_max - q;
    let alpha: u8 = if value == 0 {
        0u8
    } else {
        a
    };
    ((q as u8), (q as u8), (blue as u8), alpha)
}

/// The interpolation numerator `(clamped - v_min) * b_max / (v_max - v_min)`
/// stays between 0 and `b_max`.
proof fn lemma_heat_quotient_bounds(value: int, v_min: int, v_max: int, b_max: int)
    requires
        0 <= v_min < v_max <= 255,
        0 <= b_max <= 255,
    ensures
        0 <= (clamped(value, v_min, v_max) - v_min) * b_max / (v_max - v_min) <= b_max,
{
    let c = clamped(value, v_min, v_max);
    let d = v_max - v_min;
    assert(0 <= (c - v_min) * b_max && (c - v_min) * b_max <= d * b_max && d * b_max == b_max * d)
        by (nonlinear_arith)
        requires
            v_min <= c <= v_max,
            d == v_max - v_min,
            0 <= b_max,
    ;
    lemma_div_pos_is_pos((c - v_min) * b_max, d);
    lemma_div_is_ordered((c - v_min) * b_max, d * b_max, d);
    lemma_div_by_multiple(b_max, d);
}

/// Computes the heatmap color of a cost value.
pub fn heat_color(value: u8, v_min: u8, v_max: u8, b_max: u8, a: u8) -> (p: Px)
    requires
        v_min < v_max,
    ensures
        p == heat_rgba(value as int, v_min as int, v_max as int, b_max as int, a),
{
    let c: u8 = if value > v_max {
        v_max
    } else if value < v_min {
        v_min
    } else {
        value
    };
    let dv: u8 = c - v_min;
    proof {
        lemma_heat_quotient_bounds(value as int, v_min as int, v_max as int, b_max as int);
        assert((dv as int) * (b_max as int) <= 65025) by (nonlinear_arith)
            requires
                0 <= dv as int <= 255,
                0 <= b_max as int <= 255,
        ;
        assert((dv as u32 as int) * (b_max as u32 as int) == (dv as int) * (b_max as int));
    }
    let num: u32 = dv as u32 * b_max as u32;
    let q: u32 = num / (v_max - v_min) as u32;
    let blue: u8 = b_max - q as u8;
    let alpha: u8 = if value == 0 {
        0
    } else {
        a
    };
    (q as u8, q as u8, blue, alpha)
}

/// Endpoints and monotonicity of the heatmap interpolation: a cell whose
/// value is `v_min` gets blue channel `b_max`, a cell at `v_max` gets blue
/// channel zero, and the blue channel never increases as the value
/// increases.
pub proof fn lemma_heatmap_blue_channel(v1: int, v2: int, v_min: int, v_max: int, b_max: int, a: u8)
    requires
        0 <= v_min < v_max <= 255,
        0 <= b_max <= 255,
    ensures
        heat_rgba(v_min, v_min, v_max, b_max, a).2 == b_max,
        heat_rgba(v_max, v_min, v_max, b_max, a).2 == 0,
        v1 <= v2 ==> heat_rgba(v1, v_min, v_max, b_max, a).2 >= heat_rgba(v2, v_min, v_max, b_max, a).2,
{
    let d = v_max - v_min;
    lemma_heat_quotient_bounds(v_min, v_min, v_max, b_max);
    lemma_heat_quotient_bounds(v_max, v_min, v_max, b_max);
    lemma_heat_quotient_bounds(v1, v_min, v_max, b_max);
    lemma_heat_quotient_bounds(v2, v_min, v_max, b_max);
    assert(heat_rgba(v_min, v_min, v_max, b_max, a).2 == b_max) by {
        lemma_div_pos_is_pos(0, d);
        lemma_div_is_ordered(0, 0, d);
        assert(0 * b_max == 0) by (nonlinear_arith);
        lemma_small_div_converse(0, d);
    }
    assert(heat_rgba(v_max, v_min, v_max, b_max, a).2 == 0) by {
        lemma_div_multiples_vanish(b_max, d);
    }
    if v1 <= v2 {
        let c1 = clamped(v1, v_min, v_max);
        let c2 = clamped(v2, v_min, v_max);
        assert((c1 - v_min) * b_max <= (c2 - v_min) * b_max) by (nonlinear_arith)
            requires
                c1 <= c2,
                0 <= b_max,
        ;
        lemma_div_is_ordered((c1 - v_min) * b_max, (c2 - v_min) * b_max, d);
    }
}

/// Under the skip policy, an entry whose value lies outside the clamp
/// range (or is zero) contributes nothing: neither overlay pixels nor a
/// label, exactly as if the entry were not in the field.
pub proof fn lemma_skip_drops_entry(
    entries: Seq<CostEntry>,
    e: CostEntry,
    s: int,
    v_min: int,
    v_max: int,
    b_max: int,
    a: u8,
    i: int,
    j: int,
)
    requires
        e.value == 0 || e.value > v_max || e.value < v_min,
    ensures
        overlay_pixels(entries.push(e), s, v_min, v_max, b_max, a, true, i, j) == overlay_pixels(
            entries,
            s,
            v_min,
            v_max,
            b_max,
            a,
            true,
            i,
            j,
        ),
        surviving(entries.push(e), v_min, v_max, true) == surviving(entries, v_min, v_max, true),
{
    assert(entries.push(e).drop_last() =~= entries);
    assert(!survives(e, v_min, v_max, true));
}

/// A pixel that no surviving entry's cell block covers stays fully
/// transparent in the generated overlay — composited, it leaves the canvas
/// untouched.
pub proof fn lemma_uncovered_is_transparent(
    entries: Seq<CostEntry>,
    s: int,
    v_min: int,
    v_max: int,
    b_max: int,
    a: u8,
    skip: bool,
    i: int,
    j: int,
)
    requires
        forall|k: int|
            0 <= k < entries.len() ==> !((#[trigger] survives(entries[k], v_min, v_max, skip))
                && cell_covers(entries[k].x as int, entries[k].y as int, s, i, j)),
    ensures
        overlay_pixels(entries, s, v_min, v_max, b_max, a, skip, i, j) == (0u8, 0u8, 0u8, 0u8),
    decreases entries.len(),
{
    if entries.len() > 0 {
        assert(!(survives(entries[entries.len() - 1], v_min, v_max, skip) && cell_covers(
            entries[entries.len() - 1].x as int,
            entries[entries.len() - 1].y as int,
            s,
            i,
            j,
        )));
        assert(forall|k: int|
            0 <= k < entries.drop_last().len() ==> entries.drop_last()[k] == entries[k]);
        lemma_uncovered_is_transparent(entries.drop_last(), s, v_min, v_max, b_max, a, skip, i, j);
    }
}

/// Under the clamp policy, an entry whose value lies above the clamp range
/// produces exactly the overlay pixels of the same entry with its value at
/// `v_max`.
pub proof fn lemma_clamp_equals_upper_bound(
    entries: Seq<CostEntry>,
    e1: CostEntry,
    e2: CostEntry,
    s: int,
    v_min: int,
    v_max: int,
    b_max: int,
    a: u8,
    i: int,
    j: int,
)
    requires
        0 <= v_min < v_max <= 255,
        e1.x == e2.x,
        e1.y == e2.y,
        e1.value > v_max,
        e2.value == v_max,
    ensures
        heat_rgba(e1.value as int, v_min, v_max, b_max, a) == heat_rgba(v_max, v_min, v_max, b_max, a),
        overlay_pixels(entries.push(e1), s, v_min, v_max, b_max, a, false, i, j) == overlay_pixels(
            entries.push(e2),
            s,
            v_min,
            v_max,
            b_max,
            a,
            false,
            i,
            j,
        ),
{
    assert(entries.push(e1).drop_last() =~= entries);
    assert(entries.push(e2).drop_last() =~= entries);
    assert(clamped(e1.value as int, v_min, v_max) == v_max);
    assert(survives(e1, v_min, v_max, false) && survives(e2, v_min, v_max, false));
}

/// The pixel at `(i, j)` of the overlay buffer generated from the given
/// entries: the heat color of the last surviving entry whose cell block
/// contains the pixel, fully transparent where no surviving entry covers
/// it. Cell coordinates are unique in a cost field, so at most one entry
/// ever covers a pixel.
pub open spec fn overlay_pixels(
    entries: Seq<CostEntry>,
    s: int,
    v_min: int,
    v_max: int,
    b_max: int,
    a: u8,
    skip: bool,
    i: int,
    j: int,
) -> Px
    decreases entries.len(),
{
    if entries.len() == 0 {
        (0u8, 0u8, 0u8, 0u8)
    } else {
        let e = entries.last();
        if survives(e, v_min, v_max, skip) && cell_covers(e.x as int, e.y as int, s, i, j) {
            heat_rgba(e.value as int, v_min, v_max, b_max, a)
        } else {
            overlay_pixels(entries.drop_last(), s, v_min, v_max, b_max, a, skip, i, j)
        }
    }
}

/// The subsequence of entries that survive filtering, in field order.
pub open spec fn surviving(entries: Seq<CostEntry>, v_min: int, v_max: int, skip: bool) -> Seq<CostEntry>
    decreases entries.len(),
{
    if entries.len() == 0 {
        Seq::empty()
    } else {
        let prefix = surviving(entries.drop_last(), v_min, v_max, skip);
        if survives(entries.last(), v_min, v_max, skip) {
            prefix.push(entries.last())
        } else {
            prefix
        }
    }
}

/// The font scale of a label: reduced to 75% of the cell scale (truncated)
/// when the value has two or more digits.
pub open spec fn label_scale(value: int, s: int) -> int {
    if value > 9 {
        3 * s / 4
    } else {
        s
    }
}

/// The returned label list matches the surviving entries one for one: same
/// cell, the decimal text of the value, the active scale, and the reduced
/// font scale for multi-digit values.
pub open spec fn labels_match(
    ops: Seq<TextOp>,
    entries: Seq<CostEntry>,
    v_min: int,
    v_max: int,
    skip: bool,
    s: int,
) -> bool {
    let survivors = surviving(entries, v_min, v_max, skip);
    &&& ops.len() == survivors.len()
    &&& forall|k: int|
        0 <= k < ops.len() ==> {
            &&& (#[trigger] ops[k]).col == survivors[k].x
            &&& ops[k].row == survivors[k].y
            &&& ops[k].text@ == dec_digits(survivors[k].value as int)
            &&& ops[k].scale_factor == s
            &&& ops[k].text_scale_factor == label_scale(survivors[k].value as int, s)
        }
}

/// Generates the translucent overlay buffer of a cost field: every
/// surviving entry's cell block is painted with its interpolated color,
/// and everything else stays fully transparent.
///
/// Rejects a degenerate clamp range (`v_min >= v_max`).
#[verifier::loop_isolation(false)]
pub fn get_cost_matrix_alpha_overlay(
    cm: &Vec<CostEntry>,
    overlay_width: u32,
    overlay_height: u32,
    scale_factor: u32,
    v_min: u8,
    v_max: u8,
    b_max: u8,
    a: u8,
    skip_out_of_bounds_values: bool,
) -> (r: Result<Canvas, RenderError>)
    requires
        scale_factor >= 1,
        4 * (overlay_width as int) * (overlay_height as int) <= usize::MAX,
        forall|k: int|
            0 <= k < cm@.len() ==> #[trigger] cell_fits(
                cm@[k].x as int,
                cm@[k].y as int,
                scale_factor as int,
                overlay_width as int,
                overlay_height as int,
            ),
    ensures
        match r {
            Result::Err(e) => e == RenderError::DegenerateRange && v_min >= v_max,
            Result::Ok(o) => {
                &&& v_min < v_max
                &&& o.wf()
                &&& o.width == overlay_width
                &&& o.height == overlay_height
                &&& forall|i: int, j: int|
                    0 <= i < overlay_width && 0 <= j < overlay_height
                        ==> #[trigger] o.pix(i, j) == overlay_pixels(
                            cm@,
                            scale_factor as int,
                            v_min as int,
                            v_max as int,
                            b_max as int,
                            a,
                            skip_out_of_bounds_values,
                            i,
                            j,
                        )
            },
        },
{
    if v_min >= v_max {
        return Err(RenderError::DegenerateRange);
    }
    let mut alpha_overlay = filled(overlay_width, overlay_height, (0, 0, 0, 0));
    let mut k: usize = 0;
    while k < cm.len()
        invariant
            k <= cm@.len(),
            alpha_overlay.wf(),
            alpha_overlay.width == overlay_width,
            alpha_overlay.height == overlay_height,
            forall|i: int, j: int|
                0 <= i < overlay_width && 0 <= j < overlay_height
                    ==> #[trigger] alpha_overlay.pix(i, j) == overlay_pixels(
                        cm@.take(k as int),
                        scale_factor as int,
                        v_min as int,
                        v_max as int,
                        b_max as int,
                        a,
                        skip_out_of_bounds_values,
                        i,
                        j,
                    ),
        decreases cm@.len() - k,
    {
        let e = cm[k];
        proof {
            assert(cell_fits(
                cm@[k as int].x as int,
                cm@[k as int].y as int,
                scale_factor as int,
                overlay_width as int,
                overlay_height as int,
            ));
            assert((e.x as u32 as int) * (scale_factor as int) == (e.x as int) * (scale_factor as int));
            assert((e.y as u32 as int) * (scale_factor as int) == (e.y as int) * (scale_factor as int));
            assert(cm@.take(k as int + 1).drop_last() =~= cm@.take(k as int));
        }
        let survive = e.value != 0 && (!skip_out_of_bounds_values || (v_min <= e.value && e.value
            <= v_max));
        if survive {
            let px = heat_color(e.value, v_min, v_max, b_max, a);
            let ghost prev = alpha_overlay;
            alpha_overlay.fill_rect(
                e.x as u32 * scale_factor + 1,
                e.y as u32 * scale_factor + 1,
                scale_factor,
                scale_factor,
                px,
            );
            proof {
                assert forall|i: int, j: int|
                    0 <= i < overlay_width && 0 <= j < overlay_height implies
                    #[trigger] alpha_overlay.pix(i, j) == (if cell_covers(e.x as int, e.y as int, scale_factor as int, i, j) {
                        px
                    } else {
                        prev.pix(i, j)
                    }) by {
                }
            }
        }
        k = k + 1;
    }
    proof {
        assert(cm@.take(cm@.len() as int) =~= cm@);
    }
    Ok(alpha_overlay)
}

/// Draws a cost field as a heatmap on a default-scaled image and returns
/// the labels of the surviving cells.
pub fn draw_cost_matrix(
    imgbuf: &mut Canvas,
    cm: &Vec<CostEntry>,
    v_min: u8,
    v_max: u8,
    b_max: u8,
    a: u8,
    skip_out_of_bounds_values: bool,
) -> (r: Result<Vec<TextOp>, RenderError>)
    requires
        old(imgbuf).wf(),
        4 * (old(imgbuf).width as int) * (old(imgbuf).height as int) <= usize::MAX,
        forall|k: int|
            0 <= k < cm@.len() ==> #[trigger] cell_fits(
                cm@[k].x as int,
                cm@[k].y as int,
                DEFAULT_SCALE_FACTOR as int,
                old(imgbuf).width as int,
                old(imgbuf).height as int,
            ),
    ensures
        match r {
            Result::Err(e) => {
                &&& e == RenderError::DegenerateRange
                &&& v_min >= v_max
                &&& *final(imgbuf) == *old(imgbuf)
            },
            Result::Ok(ops) => {
                &&& v_min < v_max
                &&& cost_matrix_drawn(
                    *old(imgbuf),
                    *final(imgbuf),
                    cm@,
                    DEFAULT_SCALE_FACTOR as int,
                    v_min as int,
                    v_max as int,
                    b_max as int,
                    a,
                    skip_out_of_bounds_values,
                )
                &&& labels_match(
                    ops@,
                    cm@,
                    v_min as int,
                    v_max as int,
                    skip_out_of_bounds_values,
                    DEFAULT_SCALE_FACTOR as int,
                )
            },
        },
{
    draw_cost_matrix_with_scale_factor(
        imgbuf,
        cm,
        v_min,
        v_max,
        b_max,
        a,
        DEFAULT_SCALE_FACTOR,
        skip_out_of_bounds_values,
    )
}

/// `after` is `before` with the generated overlay composited over it in a
/// single blend pass: every pixel is the alpha-over blend of the overlay
/// pixel onto the prior pixel, and in particular every pixel that no
/// surviving entry covers — the overlay is transparent there — keeps its
/// prior value.
pub open spec fn cost_matrix_drawn(
    before: Canvas,
    after: Canvas,
    entries: Seq<CostEntry>,
    s: int,
    v_min: int,
    v_max: int,
    b_max: int,
    a: u8,
    skip: bool,
) -> bool {
    &&& after.wf()
    &&& after.width == before.width
    &&& after.height == before.height
    &&& forall|i: int, j: int|
        0 <= i < before.width && 0 <= j < before.height
            ==> #[trigger] after.pix(i, j) == blend_of(
                before.pix(i, j),
                overlay_pixels(entries, s, v_min, v_max, b_max, a, skip, i, j),
            )
    &&& forall|i: int, j: int|
        0 <= i < before.width && 0 <= j < before.height
            && overlay_pixels(entries, s, v_min, v_max, b_max, a, skip, i, j).3 == 0
            ==> #[trigger] after.pix(i, j) == before.pix(i, j)
}

/// Draws a cost field as a heatmap on a user-scaled image: generates the
/// overlay buffer, composites it onto the canvas once, and returns the
/// label of every surviving cell (the cell, the decimal text of its value,
/// and the font scale, reduced to 75% for two-digit values).
///
/// Rejects a degenerate clamp range (`v_min >= v_max`) and leaves the
/// canvas untouched in that case.
#[verifier::loop_isolation(false)]
pub fn draw_cost_matrix_with_scale_factor(
    imgbuf: &mut Canvas,
    cm: &Vec<CostEntry>,
    v_min: u8,
    v_max: u8,
    b_max: u8,
    a: u8,
    scale_factor: u32,
    skip_out_of_bounds_values: bool,
) -> (r: Result<Vec<TextOp>, RenderError>)
    requires
        old(imgbuf).wf(),
        scale_factor >= 1,
        4 * (old(imgbuf).width as int) * (old(imgbuf).height as int) <= usize::MAX,
        forall|k: int|
            0 <= k < cm@.len() ==> #[trigger] cell_fits(
                cm@[k].x as int,
                cm@[k].y as int,
                scale_factor as int,
                old(imgbuf).width as int,
                old(imgbuf).height as int,
            ),
    ensures
        match r {
            Result::Err(e) => {
                &&& e == RenderError::DegenerateRange
                &&& v_min >= v_max
                &&& *final(imgbuf) == *old(imgbuf)
            },
            Result::Ok(ops) => {
                &&& v_min < v_max
                &&& cost_matrix_drawn(
                    *old(imgbuf),
                    *final(imgbuf),
                    cm@,
                    scale_factor as int,
                    v_min as int,
                    v_max as int,
                    b_max as int,
                    a,
                    skip_out_of_bounds_values,
                )
                &&& labels_match(
                    ops@,
                    cm@,
                    v_min as int,
                    v_max as int,
                    skip_out_of_bounds_values,
                    scale_factor as int,
                )
            },
        },
{
    let alpha_overlay = match get_cost_matrix_alpha_overlay(
        cm,
        imgbuf.width,
        imgbuf.height,
        scale_factor,
        v_min,
        v_max,
        b_max,
        a,
        skip_out_of_bounds_values,
    ) {
        Ok(o) => o,
        Err(e) => {
            return Err(e);
        },
    };
    overlay_onto(imgbuf, &alpha_overlay, 0, 0);

    let mut ops: Vec<TextOp> = Vec::new();
    let mut k: usize = 0;
    while k < cm.len()
        invariant
            k <= cm@.len(),
            v_min < v_max,
            labels_match(
                ops@,
                cm@.take(k as int),
                v_min as int,
                v_max as int,
                skip_out_of_bounds_values,
                scale_factor as int,
            ),
        decreases cm@.len() - k,
    {
        let e = cm[k];
        proof {
            assert(cm@.take(k as int + 1).drop_last() =~= cm@.take(k as int));
        }
        let survive = e.value != 0 && (!skip_out_of_bounds_values || (v_min <= e.value && e.value
            <= v_max));
        if survive {
            let text = decimal_string(e.value);
            let text_scale_factor: u32 = if e.value > 9 {
                proof {
                    lemma_div_is_ordered(3 * (scale_factor as int), 3 * (u32::MAX as int), 4);
                }
                (3 * (scale_factor as u64) / 4) as u32
            } else {
                scale_factor
            };
            let op = TextOp {
                col: e.x,
                row: e.y,
                text,
                scale_factor,
                text_scale_factor,
            };
            ops.push(op);
        }
        k = k + 1;
    }
    proof {
        assert(cm@.take(cm@.len() as int) =~= cm@);
    }
    Ok(ops)
}

} // verus!
