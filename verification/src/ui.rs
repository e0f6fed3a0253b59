//! The desktop manager for clients: its configuration, its clients and what its window does.
pub mod app;
pub mod client_manager;
pub mod config;
pub mod format;
pub mod log;
