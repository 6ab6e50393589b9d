//! What each part of the screen shows.

pub mod chat_list;
pub mod input_bar;
pub mod message_view;
pub mod qr_overlay;
pub mod settings_overlay;
pub mod status_bar;
