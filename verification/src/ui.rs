//! The text and the geometry of the HUD and of the menus.

pub mod hud;
pub mod menu;
