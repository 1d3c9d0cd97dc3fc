//! A snake game's core: the board of tiles, the snake's motion on a
//! wrap-around field, food placement and the coalescing of key input.
//! Everything that touches a terminal or a clock lives outside this crate.

pub mod board;
pub mod config;
pub mod direction;
pub mod game;
pub mod input;

pub use board::{Board, BoardItem, Paint};
pub use config::{parse_duration_from_millis, Config, ConfigError, Delay};
pub use direction::Direction;
pub use game::{Fault, Game, GameResult};
pub use input::{get_key, InputFault, Key};
