//! Tile kinds, the injectable registry of decoded tile images, and the
//! compositor that blits a tile onto a canvas cell, resampling when the
//! tile's native resolution differs from the active scale factor.

use vstd::prelude::*;
use crate::canvas::{px_at, Canvas, Px, DEFAULT_SCALE_FACTOR};
use crate::compose::{blend_of, overlay_onto, resample_fits, resize_nearest, resized};

verus! {

/// Represents the various different types of terrain that can exist in a room.
#[derive(Debug, Clone, Copy, PartialEq, Eq, Structural)]
pub enum Terrain {
    Plain,
    Swamp,
    Wall,
}

/// Represents the various different types of resources that can exist in a room.
///
/// Source values outside the known set map to `Unknown` rather than failing.
#[derive(Debug, Clone, Copy, PartialEq, Eq, Structural)]
pub enum Resource {
    Source,
    Hydrogen,
    Oxygen,
    Keanium,
    Lemergium,
    Utrium,
    Zynthium,
    Catalyst,
    Unknown,
}

/// Represents the various types of player-buildable structures.
///
/// Source values outside the known set map to `Unknown` rather than failing.
#[derive(Debug, Clone, Copy, PartialEq, Eq, Structural)]
pub enum BuildableStructure {
    ConstructedWall,
    Container,
    Controller,
    Extension,
    Extractor,
    Factory,
    Lab,
    Link,
    Nuker,
    Observer,
    PowerSpawn,
    Rampart,
    Road,
    Spawn,
    Storage,
    Terminal,
    Tower,
    Unknown,
}

/// A decoded raster usable as a tile: well formed and at least one pixel
/// in each dimension.
pub open spec fn is_tile(c: Canvas) -> bool {
    c.wf() && c.width >= 1 && c.height >= 1
}

/// The decoded tile image for each terrain kind, supplied by the embedding
/// application once at startup.
pub struct TerrainAssets {
    pub plain: Canvas,
    pub swamp: Canvas,
    pub wall: Canvas,
}

impl TerrainAssets {
    pub open spec fn wf(self) -> bool {
        is_tile(self.plain) && is_tile(self.swamp) && is_tile(self.wall)
    }

    /// The raster asset that represents the given terrain kind.
    pub open spec fn asset(self, tile: Terrain) -> Canvas {
        match tile {
            Terrain::Plain => self.plain,
            Terrain::Swamp => self.swamp,
            Terrain::Wall => self.wall,
        }
    }
}

/// The decoded tile image for each resource kind.
pub struct ResourceAssets {
    pub source: Canvas,
    pub hydrogen: Canvas,
    pub oxygen: Canvas,
    pub keanium: Canvas,
    pub lemergium: Canvas,
    pub utrium: Canvas,
    pub zynthium: Canvas,
    pub catalyst: Canvas,
    pub unknown: Canvas,
}

impl ResourceAssets {
    pub open spec fn wf(self) -> bool {
        is_tile(self.source) && is_tile(self.hydrogen) && is_tile(self.oxygen)
            && is_tile(self.keanium) && is_tile(self.lemergium) && is_tile(self.utrium)
            && is_tile(self.zynthium) && is_tile(self.catalyst) && is_tile(self.unknown)
    }

    /// The raster asset that represents the given resource kind.
    pub open spec fn asset(self, tile: Resource) -> Canvas {
        match tile {
            Resource::Source => self.source,
            Resource::Hydrogen => self.hydrogen,
            Resource::Oxygen => self.oxygen,
            Resource::Keanium => self.keanium,
            Resource::Lemergium => self.lemergium,
            Resource::Utrium => self.utrium,
            Resource::Zynthium => self.zynthium,
            Resource::Catalyst => self.catalyst,
            Resource::Unknown => self.unknown,
        }
    }
}

/// The decoded tile image for each buildable-structure kind.
pub struct StructureAssets {
    pub constructed_wall: Canvas,
    pub container: Canvas,
    pub controller: Canvas,
    pub extension: Canvas,
    pub extractor: Canvas,
    pub factory: Canvas,
    pub lab: Canvas,
    pub link: Canvas,
    pub nuker: Canvas,
    pub observer: Canvas,
    pub power_spawn: Canvas,
    pub rampart: Canvas,
    pub road: Canvas,
    pub spawn: Canvas,
    pub storage: Canvas,
    pub terminal: Canvas,
    pub tower: Canvas,
    pub unknown: Canvas,
}

impl StructureAssets {
    pub open spec fn wf(self) -> bool {
        is_tile(self.constructed_wall) && is_tile(self.container) && is_tile(self.controller)
            && is_tile(self.extension) && is_tile(self.extractor) && is_tile(self.factory)
            && is_tile(self.lab) && is_tile(self.link) && is_tile(self.nuker)
            && is_tile(self.observer) && is_tile(self.power_spawn) && is_tile(self.rampart)
            && is_tile(self.road) && is_tile(self.spawn) && is_tile(self.storage)
            && is_tile(self.terminal) && is_tile(self.tower) && is_tile(self.unknown)
    }

    /// The raster asset that represents the given structure kind.
    pub open spec fn asset(self, tile: BuildableStructure) -> Canvas {
        match tile {
            BuildableStructure::ConstructedWall => self.constructed_wall,
            BuildableStructure::Container => self.container,
            BuildableStructure::Controller => self.controller,
            BuildableStructure::Extension => self.extension,
            BuildableStructure::Extractor => self.extractor,
            BuildableStructure::Factory => self.factory,
            BuildableStructure::Lab => self.lab,
            BuildableStructure::Link => self.link,
            BuildableStructure::Nuker => self.nuker,
            BuildableStructure::Observer => self.observer,
            BuildableStructure::PowerSpawn => self.power_spawn,
            BuildableStructure::Rampart => self.rampart,
            BuildableStructure::Road => self.road,
            BuildableStructure::Spawn => self.spawn,
            BuildableStructure::Storage => self.storage,
            BuildableStructure::Terminal => self.terminal,
            BuildableStructure::Tower => self.tower,
            BuildableStructure::Unknown => self.unknown,
        }
    }
}

/// The raw bytes of the tile as they are composited at scale `s`: the tile
/// itself when its native resolution is exactly `s` by `s`, its
/// nearest-neighbor resampling to `s` by `s` otherwise.
pub open spec fn tile_effective_data(tile: Canvas, s: int) -> Seq<u8> {
    if tile.width == s && tile.height == s {
        tile.data@
    } else {
        resized(tile.data@, tile.width as int, tile.height as int, s, s)
    }
}

/// The `s` by `s` pixel block of the cell at `(col, row)` lies inside the
/// canvas (accounting for the one-pixel gridline offset).
pub open spec fn cell_block_fits(c: Canvas, col: int, row: int, s: int) -> bool {
    col * s + 1 + s <= c.width && row * s + 1 + s <= c.height
}

/// `after` is `before` with the tile composited over the cell at
/// `(col, row)` at scale `s`: inside the cell block every pixel is the
/// alpha-over blend of the (resampled) tile pixel onto the prior pixel —
/// so a fully opaque tile pixel replaces the prior pixel outright and a
/// fully transparent one leaves it unchanged — and every pixel outside the
/// block keeps its prior value.
pub open spec fn tile_drawn(before: Canvas, after: Canvas, col: int, row: int, tile: Canvas, s: int) -> bool {
    let x0 = col * s + 1;
    let y0 = row * s + 1;
    let eff = tile_effective_data(tile, s);
    &&& after.wf()
    &&& after.width == before.width
    &&& after.height == before.height
    &&& forall|i: int, j: int|
        0 <= i < before.width && 0 <= j < before.height
            ==> #[trigger] after.pix(i, j) == (if x0 <= i < x0 + s && y0 <= j < y0 + s {
                blend_of(before.pix(i, j), px_at(eff, s, i - x0, j - y0))
            } else {
                before.pix(i, j)
            })
    &&& forall|i: int, j: int|
        x0 <= i < x0 + s && y0 <= j < y0 + s && px_at(eff, s, i - x0, j - y0).3 == 255
            ==> #[trigger] after.pix(i, j) == px_at(eff, s, i - x0, j - y0)
    &&& forall|i: int, j: int|
        x0 <= i < x0 + s && y0 <= j < y0 + s && px_at(eff, s, i - x0, j - y0).3 == 0
            ==> #[trigger] after.pix(i, j) == before.pix(i, j)
}

/// Draws a tile image at a specific cell location, resampling it first if
/// its native resolution differs from the scale factor.
pub fn draw_tile_img_xy(imgbuf: &mut Canvas, col: u32, row: u32, tile_img: &Canvas, scale_factor: u32)
    requires
        old(imgbuf).wf(),
        is_tile(*tile_img),
        scale_factor >= 1,
        cell_block_fits(*old(imgbuf), col as int, row as int, scale_factor as int),
        resample_fits(*tile_img, scale_factor as int),
    ensures
        tile_drawn(*old(imgbuf), *final(imgbuf), col as int, row as int, *tile_img, scale_factor as int),
{
    let x0 = col * scale_factor + 1;
    let y0 = row * scale_factor + 1;
    if scale_factor != tile_img.width || scale_factor != tile_img.height {
        let t = resize_nearest(tile_img, scale_factor, scale_factor);
        overlay_onto(imgbuf, &t, x0, y0);
    } else {
        overlay_onto(imgbuf, tile_img, x0, y0);
    }
}

/// Draws a [Terrain] tile at a specific cell location.
pub fn draw_terrain_tile_xy(imgbuf: &mut Canvas, assets: &TerrainAssets, col: u32, row: u32, tile: &Terrain)
    requires
        old(imgbuf).wf(),
        assets.wf(),
        cell_block_fits(*old(imgbuf), col as int, row as int, DEFAULT_SCALE_FACTOR as int),
        resample_fits(assets.asset(*tile), DEFAULT_SCALE_FACTOR as int),
    ensures
        tile_drawn(*old(imgbuf), *final(imgbuf), col as int, row as int, assets.asset(*tile), DEFAULT_SCALE_FACTOR as int),
{
    draw_terrain_tile_xy_with_scale_factor(imgbuf, assets, col, row, tile, DEFAULT_SCALE_FACTOR)
}

/// Draws a [Terrain] tile at a specific cell location with a user-supplied
/// scaling factor.
pub fn draw_terrain_tile_xy_with_scale_factor(imgbuf: &mut Canvas, assets: &TerrainAssets, col: u32, row: u32, tile: &Terrain, scale_factor: u32)
    requires
        old(imgbuf).wf(),
        assets.wf(),
        scale_factor >= 1,
        cell_block_fits(*old(imgbuf), col as int, row as int, scale_factor as int),
        resample_fits(assets.asset(*tile), scale_factor as int),
    ensures
        tile_drawn(*old(imgbuf), *final(imgbuf), col as int, row as int, assets.asset(*tile), scale_factor as int),
{
    let tile_img: &Canvas = match tile {
        Terrain::Plain => &assets.plain,
        Terrain::Swamp => &assets.swamp,
        Terrain::Wall => &assets.wall,
    };
    draw_tile_img_xy(imgbuf, col, row, tile_img, scale_factor);
}

/// Draws a [Resource] tile at a specific cell location.
pub fn draw_resource_tile_xy(imgbuf: &mut Canvas, assets: &ResourceAssets, col: u32, row: u32, tile: &Resource)
    requires
        old(imgbuf).wf(),
        assets.wf(),
        cell_block_fits(*old(imgbuf), col as int, row as int, DEFAULT_SCALE_FACTOR as int),
        resample_fits(assets.asset(*tile), DEFAULT_SCALE_FACTOR as int),
    ensures
        tile_drawn(*old(imgbuf), *final(imgbuf), col as int, row as int, assets.asset(*tile), DEFAULT_SCALE_FACTOR as int),
{
    draw_resource_tile_xy_with_scale_factor(imgbuf, assets, col, row, tile, DEFAULT_SCALE_FACTOR)
}

/// Draws a [Resource] tile at a specific cell location with a user-supplied
/// scaling factor.
pub fn draw_resource_tile_xy_with_scale_factor(imgbuf: &mut Canvas, assets: &ResourceAssets, col: u32, row: u32, tile: &Resource, scale_factor: u32)
    requires
        old(imgbuf).wf(),
        assets.wf(),
        scale_factor >= 1,
        cell_block_fits(*old(imgbuf), col as int, row as int, scale_factor as int),
        resample_fits(assets.asset(*tile), scale_factor as int),
    ensures
        tile_drawn(*old(imgbuf), *final(imgbuf), col as int, row as int, assets.asset(*tile), scale_factor as int),
{
    let tile_img: &Canvas = match tile {
        Resource::Source => &assets.source,
        Resource::Hydrogen => &assets.hydrogen,
        Resource::Oxygen => &assets.oxygen,
        Resource::Keanium => &assets.keanium,
        Resource::Lemergium => &assets.lemergium,
        Resource::Utrium => &assets.utrium,
        Resource::Zynthium => &assets.zynthium,
        Resource::Catalyst => &assets.catalyst,
        Resource::Unknown => &assets.unknown,
    };
    draw_tile_img_xy(imgbuf, col, row, tile_img, scale_factor);
}

/// Draws a [BuildableStructure] tile at a specific cell location.
pub fn draw_buildablestructure_tile_xy(imgbuf: &mut Canvas, assets: &StructureAssets, col: u32, row: u32, tile: &BuildableStructure)
    requires
        old(imgbuf).wf(),
        assets.wf(),
        cell_block_fits(*old(imgbuf), col as int, row as int, DEFAULT_SCALE_FACTOR as int),
        resample_fits(assets.asset(*tile), DEFAULT_SCALE_FACTOR as int),
    ensures
        tile_drawn(*old(imgbuf), *final(imgbuf), col as int, row as int, assets.asset(*tile), DEFAULT_SCALE_FACTOR as int),
{
    draw_buildablestructure_tile_xy_with_scale_factor(imgbuf, assets, col, row, tile, DEFAULT_SCALE_FACTOR)
}

/// Draws a [BuildableStructure] tile at a specific cell location with a
/// user-supplied scaling factor.
pub fn draw_buildablestructure_tile_xy_with_scale_factor(imgbuf: &mut Canvas, assets: &StructureAssets, col: u32, row: u32, tile: &BuildableStructure, scale_factor: u32)
    requires
        old(imgbuf).wf(),
        assets.wf(),
        scale_factor >= 1,
        cell_block_fits(*old(imgbuf), col as int, row as int, scale_factor as int),
        resample_fits(assets.asset(*tile), scale_factor as int),
    ensures
        tile_drawn(*old(imgbuf), *final(imgbuf), col as int, row as int, assets.asset(*tile), scale_factor as int),
{
    let tile_img: &Canvas = match tile {
        BuildableStructure::ConstructedWall => &assets.constructed_wall,
        BuildableStructure::Container => &assets.container,
        BuildableStructure::Controller => &assets.controller,
        BuildableStructure::Extension => &assets.extension,
        BuildableStructure::Extractor => &assets.extractor,
        BuildableStructure::Factory => &assets.factory,
        BuildableStructure::Lab => &assets.lab,
        BuildableStructure::Link => &assets.link,
        BuildableStructure::Nuker => &assets.nuker,
        BuildableStructure::Observer => &assets.observer,
        BuildableStructure::PowerSpawn => &assets.power_spawn,
        BuildableStructure::Rampart => &assets.rampart,
        BuildableStructure::Road => &assets.road,
        BuildableStructure::Spawn => &assets.spawn,
        BuildableStructure::Storage => &assets.storage,
        BuildableStructure::Terminal => &assets.terminal,
        BuildableStructure::Tower => &assets.tower,
        BuildableStructure::Unknown => &assets.unknown,
    };
    draw_tile_img_xy(imgbuf, col, row, tile_img, scale_factor);
}

} // verus!
