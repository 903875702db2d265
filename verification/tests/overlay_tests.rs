use room_render::canvas::Canvas;
use room_render::overlay::{get_tile_alpha_overlay, get_tile_alpha_overlay_multi_tile};

fn px(c: &Canvas, x: u32, y: u32) -> (u8, u8, u8, u8) {
    let base = (4 * (y * c.width + x)) as usize;
    (c.data[base], c.data[base + 1], c.data[base + 2], c.data[base + 3])
}

#[test]
fn single_tile_overlay_paints_exactly_one_block() {
    let o = get_tile_alpha_overlay(21, 21, 10, 9, 8, 7, 200, 1, 0);
    assert_eq!(o.width, 21);
    assert_eq!(o.height, 21);
    for y in 0..o.height {
        for x in 0..o.width {
            if (11..21).contains(&x) && (1..11).contains(&y) {
                assert_eq!(px(&o, x, y), (9, 8, 7, 200));
            } else {
                assert_eq!(px(&o, x, y), (0, 0, 0, 0));
            }
        }
    }
}

#[test]
fn multi_tile_overlay_paints_every_listed_block() {
    let tiles: Vec<(u8, u8)> = vec![(0, 0), (1, 1)];
    let o = get_tile_alpha_overlay_multi_tile(21, 21, 10, 1, 2, 3, 77, &tiles);
    for y in 0..o.height {
        for x in 0..o.width {
            let in_first = (1..11).contains(&x) && (1..11).contains(&y);
            let in_second = (11..21).contains(&x) && (11..21).contains(&y);
            if in_first || in_second {
                assert_eq!(px(&o, x, y), (1, 2, 3, 77));
            } else {
                assert_eq!(px(&o, x, y), (0, 0, 0, 0));
            }
        }
    }
}

#[test]
fn multi_tile_overlay_with_no_tiles_is_transparent() {
    let tiles: Vec<(u8, u8)> = Vec::new();
    let o = get_tile_alpha_overlay_multi_tile(11, 11, 5, 255, 255, 255, 255, &tiles);
    for y in 0..o.height {
        for x in 0..o.width {
            assert_eq!(px(&o, x, y), (0, 0, 0, 0));
        }
    }
}
