//! What the client is configured with.

pub mod settings;
