//! The rules of a grid snake game: the board, the snake's movement, the
//! food, the game-over check and the queue of steering commands.
//!
//! Every position is a cell of the grid, held as a pair of integers.

pub mod grid;
pub mod direction;
pub mod snake;
pub mod food;
pub mod random;
pub mod game_state;
pub mod button;
pub mod mainstate;
