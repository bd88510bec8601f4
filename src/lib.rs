//! Client-side simulation core of a tile-based settlement game: the town's
//! tile grid and spatial index, the assembly of buildings and units into
//! entities with their facets, and the coordinator of gameplay events.

pub mod api;
pub mod attributes;
pub mod buildings;
pub mod components;
pub mod defenders;
pub mod entity;
pub mod errors;
pub mod events;
pub mod game;
pub mod tiling;
pub mod timestamp;
pub mod view;
