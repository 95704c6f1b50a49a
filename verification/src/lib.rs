//! Tile pyramid addressing and tile copy orchestration.
//!
//! Tiles are addressed by zoom level, column and row. `grid` holds the
//! arithmetic on tile numbers and `grid_iterator` the walk of a pyramid of
//! tiles. `engine` decides, step by step, what a copy job does next; its
//! rules are in `engine_model` and what follows from them in `engine_laws`.
//! `operation` runs a job against a source and a sink. The other modules
//! hold what tile stores need: their messages and traits, their URIs, and
//! the layout of tiles in files and databases.

pub mod engine;
pub mod engine_laws;
pub mod engine_model;
pub mod file;
pub mod grid;
pub mod grid_iterator;
pub mod job;
pub mod mbtiles;
pub mod message;
pub mod null;
pub mod operation;
pub mod registry;
pub mod tileconnector;
pub mod tilesink;
pub mod tilesource;
pub mod uri;

mod clock;
