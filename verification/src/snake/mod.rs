//! The snake game: grid, movement, collisions, food and rate limiting.
pub mod assets;
pub mod collision;
pub mod config;
pub mod direction;
pub mod food;
pub mod location;
pub mod protocol;
pub mod rate_limiter;
pub mod session;
pub mod shared;
pub mod snake;
pub mod tick;
