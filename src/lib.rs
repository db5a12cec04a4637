//! The simulation core of a grid-based snake game: snake movement and growth,
//! food placement, collision resolution and the playing / paused / over
//! lifecycle, all stated and proved with Verus.
pub mod constants;
pub mod grid;
pub mod snake;
pub mod food;
pub mod game;
