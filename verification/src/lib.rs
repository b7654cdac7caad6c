//! A falling-block puzzle engine: the block catalog, the field, the collision
//! rule and the state transitions of one game.

pub mod block;
pub mod collision;
pub mod field;
pub mod game;
pub mod input;
pub mod random;
pub mod screen;
pub mod session;
