//! A superposition grid and the solver that collapses it.

pub mod direction;
pub mod error;
pub mod cell;
pub mod grid;
pub mod weights;
pub mod measure;
pub mod select;
pub mod propagate;
pub mod random;
pub mod solve;

pub use cell::SPCell;
pub use direction::{CellLocation, Direction};
pub use error::{ConstructionError, PossibilityError};
pub use grid::SuperPositionGrid;
