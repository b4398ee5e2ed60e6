//! Simulation core of a tile-based falling-object puzzle game: a grid of
//! cells with dirt, walls, an exit, a player, rocks and diamonds, advanced one
//! tick at a time through deferred actions.

pub mod action;
pub mod board;
pub mod diamond;
pub mod entity;
pub mod falling;
pub mod grid;
pub mod level;
pub mod movement;
pub mod player;
pub mod reader;
pub mod rock;
pub mod tick;
pub mod tile;
pub mod zone;
