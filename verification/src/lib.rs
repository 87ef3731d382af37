//! The rules of a tile-based roguelike in which the player brews potions
//! from what enemies drop, and the generator of its world.
//!
//! [`procedural`] is a constraint-propagation solver over a rectangular grid
//! of cells, each holding the values it may still take. [`map`] is the tile
//! model the game feeds into it: sixteen pipe-like room shapes and the rule
//! that neighbouring rooms must agree on their openings. [`world_gen`] and
//! [`cross_room`] hold the world the player walks through and read the
//! rooms' pictures.
//!
//! The other modules are the rules of play, each a function of plain values
//! that the game calls once per frame: what enemies do ([`enemy`]), which
//! frame of its sprite sheet a creature shows ([`animation`]), what the
//! player carries and brews ([`ingredients`], [`inventory`], [`potions`]),
//! and when a creature is hurt ([`health`]).

pub mod procedural;
pub mod map;
pub mod world_gen;
pub mod cross_room;
pub mod enemy;
pub mod animation;
pub mod ingredients;
pub mod inventory;
pub mod potions;
pub mod health;
