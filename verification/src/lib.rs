//! A unified timeline over several messaging backends: normalized provider
//! events, an event router, the merge policy that reconciles events into one
//! chat/message view, and the persistence mapping behind it.

pub mod app;
pub mod clock;
pub mod config;
pub mod messaging;
pub mod providers;
pub mod reconcile;
pub mod reconcile_laws;
pub mod storage;
pub mod text;
pub mod tui;
