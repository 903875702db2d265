use image::Pixel;
use room_render::canvas::{create_image_with_size_params, Canvas};
use room_render::tiles::{
    draw_buildablestructure_tile_xy_with_scale_factor, draw_resource_tile_xy_with_scale_factor,
    draw_terrain_tile_xy, draw_tile_img_xy, BuildableStructure, Resource, ResourceAssets,
    StructureAssets, Terrain, TerrainAssets,
};

fn px(c: &Canvas, x: u32, y: u32) -> (u8, u8, u8, u8) {
    let base = (4 * (y * c.width + x)) as usize;
    (c.data[base], c.data[base + 1], c.data[base + 2], c.data[base + 3])
}

fn solid(width: u32, height: u32, rgba: (u8, u8, u8, u8)) -> Canvas {
    let mut data = Vec::new();
    for _ in 0..width * height {
        data.push(rgba.0);
        data.push(rgba.1);
        data.push(rgba.2);
        data.push(rgba.3);
    }
    Canvas { width, height, data }
}

fn terrain_assets(side: u32) -> TerrainAssets {
    TerrainAssets {
        plain: solid(side, side, (10, 20, 30, 255)),
        swamp: solid(side, side, (40, 50, 60, 255)),
        wall: solid(side, side, (70, 80, 90, 255)),
    }
}

#[test]
fn opaque_tile_replaces_cell_block() {
    let mut c = create_image_with_size_params(2, 2, 4);
    let tile = solid(4, 4, (10, 20, 30, 255));
    draw_tile_img_xy(&mut c, 1, 0, &tile, 4);
    for y in 0..c.height {
        for x in 0..c.width {
            if (5..9).contains(&x) && (1..5).contains(&y) {
                assert_eq!(px(&c, x, y), (10, 20, 30, 255));
            } else {
                assert_eq!(px(&c, x, y), (0, 0, 0, 255));
            }
        }
    }
}

#[test]
fn transparent_tile_leaves_canvas_unchanged() {
    let mut c = create_image_with_size_params(1, 1, 4);
    let before = c.data.clone();
    let tile = solid(4, 4, (200, 200, 200, 0));
    draw_tile_img_xy(&mut c, 0, 0, &tile, 4);
    assert_eq!(c.data, before);
}

#[test]
fn mismatched_tile_is_resampled_to_scale() {
    let mut c = create_image_with_size_params(1, 1, 4);
    // A 2x2 tile with four different opaque quadrant colors.
    let mut tile = solid(2, 2, (0, 0, 0, 255));
    let colors = [(255, 0, 0, 255), (0, 255, 0, 255), (0, 0, 255, 255), (255, 255, 0, 255)];
    for (k, col) in colors.iter().enumerate() {
        tile.data[4 * k] = col.0;
        tile.data[4 * k + 1] = col.1;
        tile.data[4 * k + 2] = col.2;
        tile.data[4 * k + 3] = col.3;
    }
    let src = image::RgbaImage::from_raw(2, 2, tile.data.clone()).unwrap();
    let expected =
        image::imageops::resize(&src, 4, 4, image::imageops::FilterType::Nearest).into_raw();
    draw_tile_img_xy(&mut c, 0, 0, &tile, 4);
    for dy in 0..4u32 {
        for dx in 0..4u32 {
            let e = (4 * (dy * 4 + dx)) as usize;
            let got = px(&c, 1 + dx, 1 + dy);
            assert_eq!(got, (expected[e], expected[e + 1], expected[e + 2], expected[e + 3]));
        }
    }
}

#[test]
fn semi_transparent_tile_blends_like_alpha_over() {
    let mut c = create_image_with_size_params(1, 1, 2);
    let tile = solid(2, 2, (100, 150, 200, 128));
    draw_tile_img_xy(&mut c, 0, 0, &tile, 2);
    let mut expected = image::Rgba([0u8, 0, 0, 255]);
    expected.blend(&image::Rgba([100u8, 150, 200, 128]));
    assert_eq!(px(&c, 1, 1), (expected[0], expected[1], expected[2], expected[3]));
    // The blend must actually change the background.
    assert_ne!(px(&c, 1, 1), (0, 0, 0, 255));
}

#[test]
fn terrain_tiles_end_to_end() {
    let mut c = create_image_with_size_params(2, 2, 50);
    assert_eq!(c.width, 101);
    assert_eq!(c.height, 101);
    let assets = terrain_assets(50);
    draw_terrain_tile_xy(&mut c, &assets, 0, 0, &Terrain::Plain);
    draw_terrain_tile_xy(&mut c, &assets, 1, 1, &Terrain::Wall);
    for y in 0..c.height {
        for x in 0..c.width {
            let in_plain = (1..51).contains(&x) && (1..51).contains(&y);
            let in_wall = (51..101).contains(&x) && (51..101).contains(&y);
            if in_plain {
                assert_eq!(px(&c, x, y), (10, 20, 30, 255));
            } else if in_wall {
                assert_eq!(px(&c, x, y), (70, 80, 90, 255));
            } else {
                assert_eq!(px(&c, x, y), (0, 0, 0, 255));
            }
        }
    }
}

#[test]
fn resource_tile_uses_matching_asset() {
    let mut c = create_image_with_size_params(1, 1, 3);
    let mut assets = ResourceAssets {
        source: solid(3, 3, (1, 1, 1, 255)),
        hydrogen: solid(3, 3, (2, 2, 2, 255)),
        oxygen: solid(3, 3, (3, 3, 3, 255)),
        keanium: solid(3, 3, (4, 4, 4, 255)),
        lemergium: solid(3, 3, (5, 5, 5, 255)),
        utrium: solid(3, 3, (6, 6, 6, 255)),
        zynthium: solid(3, 3, (7, 7, 7, 255)),
        catalyst: solid(3, 3, (8, 8, 8, 255)),
        unknown: solid(3, 3, (9, 9, 9, 255)),
    };
    draw_resource_tile_xy_with_scale_factor(&mut c, &assets, 0, 0, &Resource::Zynthium, 3);
    assert_eq!(px(&c, 1, 1), (7, 7, 7, 255));
    assets.unknown = solid(3, 3, (99, 99, 99, 255));
    draw_resource_tile_xy_with_scale_factor(&mut c, &assets, 0, 0, &Resource::Unknown, 3);
    assert_eq!(px(&c, 1, 1), (99, 99, 99, 255));
}

#[test]
fn structure_tile_uses_matching_asset() {
    let mut c = create_image_with_size_params(1, 1, 3);
    let assets = StructureAssets {
        constructed_wall: solid(3, 3, (1, 0, 0, 255)),
        container: solid(3, 3, (2, 0, 0, 255)),
        controller: solid(3, 3, (3, 0, 0, 255)),
        extension: solid(3, 3, (4, 0, 0, 255)),
        extractor: solid(3, 3, (5, 0, 0, 255)),
        factory: solid(3, 3, (6, 0, 0, 255)),
        lab: solid(3, 3, (7, 0, 0, 255)),
        link: solid(3, 3, (8, 0, 0, 255)),
        nuker: solid(3, 3, (9, 0, 0, 255)),
        observer: solid(3, 3, (10, 0, 0, 255)),
        power_spawn: solid(3, 3, (11, 0, 0, 255)),
        rampart: solid(3, 3, (12, 0, 0, 255)),
        road: solid(3, 3, (13, 0, 0, 255)),
        spawn: solid(3, 3, (14, 0, 0, 255)),
        storage: solid(3, 3, (15, 0, 0, 255)),
        terminal: solid(3, 3, (16, 0, 0, 255)),
        tower: solid(3, 3, (17, 0, 0, 255)),
        unknown: solid(3, 3, (18, 0, 0, 255)),
    };
    draw_buildablestructure_tile_xy_with_scale_factor(
        &mut c,
        &assets,
        0,
        0,
        &BuildableStructure::Tower,
        3,
    );
    assert_eq!(px(&c, 2, 2), (17, 0, 0, 255));
}
