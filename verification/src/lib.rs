pub mod food;
pub mod game;
pub mod game_state;
pub mod snake;
pub mod utils;
