//! Terrain tiles, the gases that can fill them, and how each tile is drawn.

use vstd::prelude::*;
use crate::colors::{self, Color};

verus! {

/// The kind of terrain on one map cell.
#[derive(PartialEq, Eq, Structural, Copy, Clone, Debug)]
pub enum TileType {
    Water,
    Sand,
    Dirt,
    Stone,
    Wall,
    Floor,
    StairsDown,
    StairsUp,
    Grass,
    Wheat,
    WoodWall,
    WoodDoor,
    WoodFloor,
}

/// How a tile is drawn: glyph, foreground colour and background colour.
pub type TileRenderable = (char, Color, Color);

/// The glyph and colours of each tile type.
pub open spec fn spec_renderable(t: TileType) -> TileRenderable {
    match t {
        TileType::Water => ('~', colors::COLOR_WATER, colors::spec_scale_quarters(colors::COLOR_WATER, 3)),
        TileType::Sand => ('.', colors::COLOR_SAND, colors::spec_scale_quarters(colors::COLOR_SAND, 2)),
        TileType::Dirt => ('.', colors::COLOR_DIRT, colors::COLOR_BG),
        TileType::Stone => ('.', colors::COLOR_STONE, colors::COLOR_BG),
        TileType::Wall => ('#', colors::COLOR_WALL, colors::COLOR_BG),
        TileType::Floor => ('.', colors::COLOR_FLOOR, colors::COLOR_BG),
        TileType::StairsDown => ('>', colors::COLOR_WALL, colors::COLOR_BG),
        TileType::StairsUp => ('<', colors::COLOR_WALL, colors::COLOR_BG),
        TileType::Grass => (',', colors::COLOR_GRASS, colors::spec_scale_quarters(colors::COLOR_GRASS, 2)),
        TileType::Wheat => ('{', colors::COLOR_AMBER, colors::COLOR_BG),
        TileType::WoodWall => ('#', colors::COLOR_DARKEST_AMBER, colors::COLOR_BG),
        TileType::WoodDoor => ('+', colors::COLOR_DARKEST_AMBER, colors::COLOR_BG),
        TileType::WoodFloor => ('.', colors::COLOR_DARKEST_AMBER, colors::COLOR_BG),
    }
}

impl TileType {
    /// The glyph, foreground and background colour used to draw this tile.
    /// Water is shaded at three quarters, sand and grass at half brightness.
    pub fn renderable(self) -> (r: TileRenderable)
        ensures
            r == spec_renderable(self),
    {
        match self {
            TileType::Water => ('~', colors::COLOR_WATER, colors::scale_quarters(colors::COLOR_WATER, 3)),
            TileType::Sand => ('.', colors::COLOR_SAND, colors::scale_quarters(colors::COLOR_SAND, 2)),
            TileType::Dirt => ('.', colors::COLOR_DIRT, colors::COLOR_BG),
            TileType::Stone => ('.', colors::COLOR_STONE, colors::COLOR_BG),
            TileType::Wall => ('#', colors::COLOR_WALL, colors::COLOR_BG),
            TileType::Floor => ('.', colors::COLOR_FLOOR, colors::COLOR_BG),
            TileType::StairsDown => ('>', colors::COLOR_WALL, colors::COLOR_BG),
            TileType::StairsUp => ('<', colors::COLOR_WALL, colors::COLOR_BG),
            TileType::Grass => (',', colors::COLOR_GRASS, colors::scale_quarters(colors::COLOR_GRASS, 2)),
            TileType::Wheat => ('{', colors::COLOR_AMBER, colors::COLOR_BG),
            TileType::WoodWall => ('#', colors::COLOR_DARKEST_AMBER, colors::COLOR_BG),
            TileType::WoodDoor => ('+', colors::COLOR_DARKEST_AMBER, colors::COLOR_BG),
            TileType::WoodFloor => ('.', colors::COLOR_DARKEST_AMBER, colors::COLOR_BG),
        }
    }
}

/// The most gas units one tile holds.
pub const MAX_GAS: usize = 7;

/// A kind of gas that can fill a tile.
#[derive(PartialEq, Eq, Structural, Copy, Clone, Debug)]
pub enum GasType {
    Air,
    Blocked,
    Steam,
    /// No gas.
    NoGas,
}

} // verus!
