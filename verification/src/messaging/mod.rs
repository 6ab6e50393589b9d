//! The unified timeline: its data, what a backend is, and the router.

pub mod provider;
pub mod router;
pub mod types;
