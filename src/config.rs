//! Screen and map dimensions of the game.
use vstd::prelude::*;

verus! {

pub const SCREEN_WIDTH: i32 = 640;
pub const SCREEN_HEIGHT: i32 = 400;
pub const TILE_SIZE: i32 = 8;
pub const MAP_WIDTH: usize = 80;
pub const MAP_HEIGHT: usize = 49;
pub const UI_HEIGHT: i32 = 8;
pub const TICK_INTERVAL: i32 = 30;

} // verus!
