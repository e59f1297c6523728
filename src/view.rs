//! Where things are drawn: sprite choice and pixel coordinates.
use vstd::prelude::*;
use crate::config::{TILE_SIZE, UI_HEIGHT};
use crate::position::Position;

verus! {

/// Sprites per row of the sprite sheet.
pub const SHEET_COLUMNS: u16 = 8;

/// How far along its growth sprites an entity of this age is drawn: one step
/// after age 4, two after 8, three after 12.
pub open spec fn growth_stage(age: u16) -> u16 {
    if age > 12 { 3 } else if age > 8 { 2 } else if age > 4 { 1 } else { 0 }
}

/// The sprite of an entity of this age whose species' first sprite is `base`.
pub fn sprite_for_age(base: u16, age: u16) -> (r: u16)
    requires
        base + 3 <= u16::MAX,
    ensures
        r == base + growth_stage(age),
{
    if age > 12 {
        base + 3
    } else if age > 8 {
        base + 2
    } else if age > 4 {
        base + 1
    } else {
        base
    }
}

/// The pixel at which the tile at `pos` is drawn, below the status line.
pub fn screen_position(pos: Position) -> (r: (i32, i32))
    ensures
        r.0 == pos.x * TILE_SIZE,
        r.1 == pos.y * TILE_SIZE + UI_HEIGHT,
{
    (pos.x as i32 * TILE_SIZE, pos.y as i32 * TILE_SIZE + UI_HEIGHT)
}

/// The pixel of the sprite sheet at which sprite `sprite` starts.
pub fn sheet_position(sprite: u16) -> (r: (i32, i32))
    ensures
        r.0 == (sprite % SHEET_COLUMNS) * TILE_SIZE,
        r.1 == (sprite / SHEET_COLUMNS) * TILE_SIZE,
{
    (((sprite % SHEET_COLUMNS) as i32) * TILE_SIZE, ((sprite / SHEET_COLUMNS) as i32) * TILE_SIZE)
}

/// The map cell under a pointer at pixel (x, y) of a window that shows the
/// map from its top-left corner; a pointer over the status line counts as row 0.
pub open spec fn spec_cell_at(x: nat, y: nat) -> Position {
    Position {
        x: (x / TILE_SIZE as nat) as i16,
        y: if y < UI_HEIGHT { 0i16 } else { ((y - UI_HEIGHT) as nat / TILE_SIZE as nat) as i16 },
    }
}

pub fn cell_at(x: u16, y: u16) -> (r: Position)
    ensures
        r == spec_cell_at(x as nat, y as nat),
{
    let cx: u16 = x / (TILE_SIZE as u16);
    let cy: u16 = if y < UI_HEIGHT as u16 { 0 } else { (y - UI_HEIGHT as u16) / (TILE_SIZE as u16) };
    Position::new(cx as i16, cy as i16)
}

} // verus!
