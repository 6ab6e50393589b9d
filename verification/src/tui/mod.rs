//! The terminal interface, as far as it decides and computes: its state,
//! its keys, and what it shows.

pub mod app_state;
pub mod keybindings;
pub mod render;
pub mod widgets;
