//! Room state for a tile-based game client: a store of entities that is
//! kept current from partial updates, and its projection onto a grid of
//! sorted stacks, one per tile, ready to be drawn.

pub mod kinds;
pub mod entity;
pub mod order;
pub mod wire;
pub mod stack;
pub mod grid;
pub mod store;
pub mod delta;
pub mod room;
pub mod visual;
