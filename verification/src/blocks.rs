use vstd::prelude::*;

verus! {

/// A terrain cell value. `AIR` is open space; the other variants are solid.
#[derive(Copy, Clone, PartialEq, Eq, Structural, Debug)]
pub enum Blocks {
    AIR,
    GRASS,
    DIRT,
    OBSIDIAN,
}

/// Number of tiles eligible for the floor band.
pub const FLOOR_TILE_COUNT: u32 = 2;
/// Number of tiles eligible for the wall bands.
pub const WALL_TILE_COUNT: u32 = 2;
/// Number of tiles eligible for the obstacle (interior) band.
pub const OBSTACLE_TILE_COUNT: u32 = 3;
/// Number of tiles eligible for the border bands.
pub const BORDER_TILE_COUNT: u32 = 1;

/// The floor tile set, by index: {GRASS, DIRT}.
pub open spec fn spec_floor_tile(i: int) -> Blocks {
    if i == 0 {
        Blocks::GRASS
    } else {
        Blocks::DIRT
    }
}

/// The wall tile set, by index: {GRASS, DIRT}.
pub open spec fn spec_wall_tile(i: int) -> Blocks {
    if i == 0 {
        Blocks::GRASS
    } else {
        Blocks::DIRT
    }
}

/// The obstacle tile set, by index: {AIR, GRASS, DIRT}.
pub open spec fn spec_obstacle_tile(i: int) -> Blocks {
    if i == 0 {
        Blocks::AIR
    } else if i == 1 {
        Blocks::GRASS
    } else {
        Blocks::DIRT
    }
}

/// The border tile set, by index: {OBSIDIAN}.
pub open spec fn spec_border_tile(i: int) -> Blocks {
    Blocks::OBSIDIAN
}

pub open spec fn is_floor_tile(b: Blocks) -> bool {
    b == Blocks::GRASS || b == Blocks::DIRT
}

pub open spec fn is_wall_tile(b: Blocks) -> bool {
    b == Blocks::GRASS || b == Blocks::DIRT
}

pub open spec fn is_obstacle_tile(b: Blocks) -> bool {
    b == Blocks::AIR || b == Blocks::GRASS || b == Blocks::DIRT
}

pub open spec fn is_border_tile(b: Blocks) -> bool {
    b == Blocks::OBSIDIAN
}

/// Select a floor tile by a uniform draw in `[0, FLOOR_TILE_COUNT)`.
pub fn floor_tile(i: u32) -> (b: Blocks)
    requires
        i < FLOOR_TILE_COUNT,
    ensures
        b == spec_floor_tile(i as int),
        is_floor_tile(b),
{
    if i == 0 {
        Blocks::GRASS
    } else {
        Blocks::DIRT
    }
}

/// Select a wall tile by a uniform draw in `[0, WALL_TILE_COUNT)`.
pub fn wall_tile(i: u32) -> (b: Blocks)
    requires
        i < WALL_TILE_COUNT,
    ensures
        b == spec_wall_tile(i as int),
        is_wall_tile(b),
{
    if i == 0 {
        Blocks::GRASS
    } else {
        Blocks::DIRT
    }
}

/// Select an obstacle tile by a uniform draw in `[0, OBSTACLE_TILE_COUNT)`.
pub fn obstacle_tile(i: u32) -> (b: Blocks)
    requires
        i < OBSTACLE_TILE_COUNT,
    ensures
        b == spec_obstacle_tile(i as int),
        is_obstacle_tile(b),
{
    if i == 0 {
        Blocks::AIR
    } else if i == 1 {
        Blocks::GRASS
    } else {
        Blocks::DIRT
    }
}

/// Select a border tile by a uniform draw in `[0, BORDER_TILE_COUNT)`.
pub fn border_tile(i: u32) -> (b: Blocks)
    requires
        i < BORDER_TILE_COUNT,
    ensures
        b == spec_border_tile(i as int),
        is_border_tile(b),
{
    Blocks::OBSIDIAN
}

/// Texture-array slot for a solid block: solid tags are numbered from zero,
/// skipping `AIR`.
pub open spec fn spec_block_tex_index(b: Blocks) -> u32 {
    match b {
        Blocks::AIR => 0,
        Blocks::GRASS => 0,
        Blocks::DIRT => 1,
        Blocks::OBSIDIAN => 2,
    }
}

/// Texture-array slot for a solid block.
pub fn block_tex_index(b: Blocks) -> (i: u32)
    requires
        b != Blocks::AIR,
    ensures
        i == spec_block_tex_index(b),
{
    match b {
        Blocks::AIR => 0,
        Blocks::GRASS => 0,
        Blocks::DIRT => 1,
        Blocks::OBSIDIAN => 2,
    }
}

} // verus!
