//! The store of chats, messages and provider sessions.

pub mod chats;
pub mod content;
pub mod db;
pub mod laws;
pub mod messages;
pub mod rows;
pub mod sessions;
