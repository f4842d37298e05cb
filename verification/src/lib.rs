//! Terminal snake: theme resolution, half-block compositing and the small
//! rules around them, with machine-checked contracts.

pub mod block_font;
pub mod color;
pub mod config;
pub mod food;
pub mod game;
pub mod input;
pub mod json;
pub mod renderer;
pub mod resolver;
pub mod score;
pub mod snake;
pub mod text;
pub mod theme;
pub mod theme_file;
pub mod ui;
