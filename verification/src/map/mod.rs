//! The room shapes of the game world and the rule that joins them.

pub mod tile;
pub mod geometry;
pub mod generate;
pub mod dead_ends;

pub use generate::{
    all_table_values, generate_map, generate_map_with, generate_map_within, no_end_table_value,
};
pub use geometry::collapse_map_geometry;
pub use tile::MapTile;
