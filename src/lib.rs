//! A grid-based life simulation: plants and creatures live on the tiles of a
//! fixed-size map, age, gather energy and reproduce into nearby tiles.
//!
//! - `position`, `map_data`, `map`: coordinates, terrain and the tile grid.
//! - `entity`: species records and individuals.
//! - `store`: the entity store, a generation-checked slot map.
//! - `world`: map, store and catalog together, with their shared invariant.
//! - `tick`: the step that advances the whole population; `pass` and
//!   `commit` hold its two phases.
//! - `draws`: random numbers.
//! - `setup`, `session`, `view`, `config`: the game around the simulation.

mod commit;
pub mod config;
pub mod draws;
pub mod entity;
pub mod map;
pub mod map_data;
mod pass;
pub mod position;
pub mod session;
pub mod setup;
pub mod store;
pub mod tick;
pub mod view;
pub mod world;
