//! A deterministic grid-based snake simulation engine.
//!
//! The engine is meant to be driven by an external render/input loop: the
//! driver calls [`World::change_snake_direction`] and [`World::update`] once
//! per frame, and supplies the collaborators ([`Host`]) the engine needs --
//! a random-integer source for reward placement and a notification sink for
//! win/loss events.  Everything else (grid addressing, movement, collision,
//! growth, status transitions) lives here and is verified.

mod grid;
mod host;
mod world;

pub use grid::{
    cell_to_index, index_to_cell, lemma_next_head_in_bounds, lemma_right_then_left,
    lemma_wrap_at_edges, next_head_index, Direction,
};
pub use host::{Host, Lcg};
pub use world::{lemma_no_reversal, GameStatus, Snake, SnakeCell, World};
