use image::Pixel;
use room_render::canvas::{create_image_with_size_params, Canvas};
use room_render::heatmap::{
    draw_cost_matrix, draw_cost_matrix_with_scale_factor, get_cost_matrix_alpha_overlay,
    heat_color, CostEntry, RenderError,
};

fn px(c: &Canvas, x: u32, y: u32) -> (u8, u8, u8, u8) {
    let base = (4 * (y * c.width + x)) as usize;
    (c.data[base], c.data[base + 1], c.data[base + 2], c.data[base + 3])
}

fn entry(x: u8, y: u8, value: u8) -> CostEntry {
    CostEntry { x, y, value }
}

#[test]
fn blue_channel_is_b_max_at_v_min_and_zero_at_v_max() {
    let at_min = heat_color(1, 1, 10, 255, 128);
    assert_eq!(at_min.2, 255);
    assert_eq!(at_min.0, 0);
    assert_eq!(at_min.1, 0);
    let at_max = heat_color(10, 1, 10, 255, 128);
    assert_eq!(at_max.2, 0);
    assert_eq!(at_max.0, 255);
    assert_eq!(at_max.1, 255);
}

#[test]
fn blue_channel_is_monotonic_in_value() {
    let mut prev = heat_color(0, 0, 10, 200, 128).2;
    for v in 1..=12u8 {
        let blue = heat_color(v, 0, 10, 200, 128).2;
        assert!(blue <= prev);
        prev = blue;
    }
}

#[test]
fn heat_color_interpolates_with_truncation() {
    // t = 5/10; blue = 255 - (5 * 255) / 10 = 255 - 127 = 128.
    assert_eq!(heat_color(5, 0, 10, 255, 90), (127, 127, 128, 90));
    // Out-of-range values clamp to the boundary colors.
    assert_eq!(heat_color(200, 0, 10, 255, 90), heat_color(10, 0, 10, 255, 90));
    assert_eq!(heat_color(3, 5, 10, 255, 90), heat_color(5, 5, 10, 255, 90));
}

#[test]
fn degenerate_range_is_rejected() {
    let mut c = create_image_with_size_params(1, 1, 5);
    let before = c.data.clone();
    let cm = vec![entry(0, 0, 3)];
    let r = draw_cost_matrix_with_scale_factor(&mut c, &cm, 7, 7, 255, 128, 5, false);
    assert!(matches!(r, Err(RenderError::DegenerateRange)));
    assert_eq!(c.data, before);
    let r2 = get_cost_matrix_alpha_overlay(&cm, 6, 6, 5, 9, 3, 255, 128, true);
    assert!(r2.is_err());
}

#[test]
fn skip_policy_omits_out_of_range_cells() {
    let cm = vec![entry(0, 0, 11)];
    let o = get_cost_matrix_alpha_overlay(&cm, 11, 11, 5, 0, 10, 255, 128, true).unwrap();
    for y in 0..o.height {
        for x in 0..o.width {
            assert_eq!(px(&o, x, y), (0, 0, 0, 0));
        }
    }
    let mut c = create_image_with_size_params(2, 2, 5);
    let before = c.data.clone();
    let ops = draw_cost_matrix_with_scale_factor(&mut c, &cm, 0, 10, 255, 128, 5, true).unwrap();
    assert!(ops.is_empty());
    assert_eq!(c.data, before);
}

#[test]
fn clamp_policy_matches_cell_at_v_max() {
    let over = vec![entry(0, 0, 11)];
    let mut clamped = create_image_with_size_params(1, 1, 5);
    let ops =
        draw_cost_matrix_with_scale_factor(&mut clamped, &over, 0, 10, 255, 128, 5, false).unwrap();
    assert_eq!(ops.len(), 1);
    let at_max = vec![entry(0, 0, 10)];
    let mut exact = create_image_with_size_params(1, 1, 5);
    draw_cost_matrix_with_scale_factor(&mut exact, &at_max, 0, 10, 255, 128, 5, false).unwrap();
    assert_eq!(clamped.data, exact.data);
}

#[test]
fn zero_valued_cells_are_never_painted() {
    let cm = vec![entry(0, 0, 0)];
    let o = get_cost_matrix_alpha_overlay(&cm, 11, 11, 5, 0, 10, 255, 128, false).unwrap();
    for y in 0..o.height {
        for x in 0..o.width {
            assert_eq!(px(&o, x, y), (0, 0, 0, 0));
        }
    }
}

#[test]
fn overlay_paints_surviving_blocks_with_alpha() {
    let cm = vec![entry(0, 0, 5), entry(1, 0, 15)];
    let o = get_cost_matrix_alpha_overlay(&cm, 101, 101, 50, 0, 10, 255, 128, true).unwrap();
    // Cell (0, 0) survives: alpha 128, color (127, 127, 128).
    assert_eq!(px(&o, 1, 1), (127, 127, 128, 128));
    assert_eq!(px(&o, 50, 50), (127, 127, 128, 128));
    // Cell (1, 0) is skipped: fully transparent.
    assert_eq!(px(&o, 51, 1), (0, 0, 0, 0));
    assert_eq!(px(&o, 100, 49), (0, 0, 0, 0));
}

#[test]
fn cost_field_end_to_end_with_skip() {
    let mut c = create_image_with_size_params(2, 2, 50);
    let cm = vec![entry(0, 0, 5), entry(1, 0, 15)];
    let ops = draw_cost_matrix(&mut c, &cm, 0, 10, 255, 128, true).unwrap();
    // Only the in-range cell is labelled, with the decimal text of its value.
    assert_eq!(ops.len(), 1);
    assert_eq!(ops[0].col, 0);
    assert_eq!(ops[0].row, 0);
    assert_eq!(ops[0].text, "5");
    assert_eq!(ops[0].scale_factor, 50);
    assert_eq!(ops[0].text_scale_factor, 50);
    // The skipped cell's block still shows the black background.
    for y in 1..51u32 {
        for x in 51..101u32 {
            assert_eq!(px(&c, x, y), (0, 0, 0, 255));
        }
    }
    // The surviving cell's block was blended: no longer the background.
    let mut expected = image::Rgba([0u8, 0, 0, 255]);
    expected.blend(&image::Rgba([127u8, 127, 128, 128]));
    for y in 1..51u32 {
        for x in 1..51u32 {
            let got = px(&c, x, y);
            assert_eq!(got, (expected[0], expected[1], expected[2], expected[3]));
            assert_ne!(got, (0, 0, 0, 255));
        }
    }
}

#[test]
fn two_digit_labels_use_reduced_font_scale() {
    let mut c = create_image_with_size_params(2, 2, 50);
    let cm = vec![entry(0, 1, 12), entry(1, 1, 9)];
    let ops = draw_cost_matrix(&mut c, &cm, 0, 20, 255, 128, false).unwrap();
    assert_eq!(ops.len(), 2);
    assert_eq!(ops[0].text, "12");
    assert_eq!(ops[0].text_scale_factor, 37); // 75% of 50, truncated
    assert_eq!(ops[1].text, "9");
    assert_eq!(ops[1].text_scale_factor, 50);
}
