//! Label placement and label text: the decimal text of a cost value, the
//! fixed inset anchor of a cell label, and the auto-fit layout used for
//! centered labels. Rasterizing glyphs is left to the embedding
//! application; everything it needs to decide where and how large to draw
//! is computed here.

use vstd::prelude::*;
use vstd::string::StringExecFns;

verus! {

/// One label to draw: the cell it belongs to, its text, the active cell
/// scale and the font scale (in pixels) to render it at.
#[derive(Debug)]
pub struct TextOp {
    pub col: u8,
    pub row: u8,
    pub text: String,
    pub scale_factor: u32,
    pub text_scale_factor: u32,
}

/// The decimal digit character for a value between 0 and 9.
pub open spec fn digit_char(d: int) -> char {
    ((48 + d) as u8) as char
}

/// The decimal digit sequence of a value between 0 and 255, most
/// significant digit first, without leading zeros.
pub open spec fn dec_digits(v: int) -> Seq<char> {
    if v < 10 {
        seq![digit_char(v)]
    } else if v < 100 {
        seq![digit_char(v / 10), digit_char(v % 10)]
    } else {
        seq![digit_char(v / 100), digit_char((v / 10) % 10), digit_char(v % 10)]
    }
}

/// The one-character string for a decimal digit.
fn digit_str(d: u8) -> (r: &'static str)
    requires
        d < 10,
    ensures
        r@ == seq![digit_char(d as int)],
{
    let r: &'static str = match d {
        0 => "0",
        1 => "1",
        2 => "2",
        3 => "3",
        4 => "4",
        5 => "5",
        6 => "6",
        7 => "7",
        8 => "8",
        _ => "9",
    };
    proof {
        reveal_strlit("0");
        reveal_strlit("1");
        reveal_strlit("2");
        reveal_strlit("3");
        reveal_strlit("4");
        reveal_strlit("5");
        reveal_strlit("6");
        reveal_strlit("7");
        reveal_strlit("8");
        reveal_strlit("9");
        assert(r@ =~= seq![digit_char(d as int)]);
    }
    r
}

/// Returns the decimal text of a cost value, as it is rendered in a
/// heatmap label.
pub fn decimal_string(v: u8) -> (s: String)
    ensures
        s@ == dec_digits(v as int),
{
    if v < 10 {
        String::from_str(digit_str(v))
    } else if v < 100 {
        let mut s = String::from_str(digit_str(v / 10));
        s.append(digit_str(v % 10));
        proof {
            assert(s@ =~= dec_digits(v as int));
        }
        s
    } else {
        let mut s = String::from_str(digit_str(v / 100));
        s.append(digit_str((v / 10) % 10));
        s.append(digit_str(v % 10));
        proof {
            assert(s@ =~= dec_digits(v as int));
        }
        s
    }
}

/// The pixel at which fixed-position text for the cell at `(col, row)`
/// starts: a two-pixel inset from the cell's top-left corner.
pub fn fixed_label_origin(col: u32, row: u32, scale_factor: u32) -> (p: (u32, u32))
    requires
        col * scale_factor + 2 <= u32::MAX,
        row * scale_factor + 2 <= u32::MAX,
    ensures
        p.0 == col * scale_factor + 2,
        p.1 == row * scale_factor + 2,
{
    (col * scale_factor + 2, row * scale_factor + 2)
}

/// The width of the padded sub-area a centered label must fit in: the cell
/// size minus a fixed border of two pixels on each side.
pub fn centered_text_area(cell_size: u32) -> (area: u32)
    requires
        cell_size >= 4,
    ensures
        area == cell_size - 4,
{
    let border_size: u32 = 2;
    cell_size - 2 * border_size
}

/// The scale correction of the auto-fit algorithm. The default font scale
/// is the padded area itself; when the measured text width exceeds the
/// area, the scale is reduced proportionally by `area / measured_width`,
/// a single linear correction that is not iterated to convergence.
///
/// Returns `None` when the text already fits at the default scale, and the
/// reduced scale as the exact ratio `(area * area, measured_width)`
/// otherwise.
pub fn centered_scale_fit(area: u32, measured_width: u32) -> (fit: Option<(u32, u32)>)
    requires
        area * area <= u32::MAX,
    ensures
        match fit {
            Option::None => measured_width <= area,
            Option::Some(ratio) => measured_width > area && ratio.0 == area * area && ratio.1
                == measured_width,
        },
{
    if measured_width > area {
        Some((area * area, measured_width))
    } else {
        None
    }
}

/// The top-left pixel at which a label whose rendered size is
/// `(width, height)` is placed in the cell at `(col, row)`: the cell
/// origin, plus the fixed border, plus half the slack the label leaves in
/// the cell.
pub fn centered_label_origin(col: u32, row: u32, cell_size: u32, width: u32, height: u32) -> (p: (u32, u32))
    requires
        width <= cell_size,
        height <= cell_size,
        col * cell_size + 2 + (cell_size - width) / 2 <= u32::MAX,
        row * cell_size + 2 + (cell_size - height) / 2 <= u32::MAX,
    ensures
        p.0 == col * cell_size + 2 + (cell_size - width) / 2,
        p.1 == row * cell_size + 2 + (cell_size - height) / 2,
{
    let border_size: u32 = 2;
    let x_offset = (cell_size - width) / 2;
    let y_offset = (cell_size - height) / 2;
    (col * cell_size + border_size + x_offset, row * cell_size + border_size + y_offset)
}

} // verus!
