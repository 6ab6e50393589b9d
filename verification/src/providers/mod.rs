//! The backends that come with the client.

pub mod mock;
pub mod whatsapp;
