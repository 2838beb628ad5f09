//! The procedural-content and collision core of an endless side-scrolling
//! game. Every length is an integer number of thousandths of a world unit,
//! every duration an integer number of microseconds.

pub mod aabb;
pub mod cylinder;
pub mod game;
pub mod ground;
pub mod luck;
pub mod obstacle;
pub mod player;
mod random;
pub mod typing;
