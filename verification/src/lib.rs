pub mod acl;
pub mod agent;
pub mod cli;
pub mod client;
pub mod config;
pub mod dtls_signaling;
pub mod forward;
pub mod frame;
pub mod known_hosts;
pub mod peer;
pub mod registry;
pub mod reliable;
pub mod server;
pub mod startup;
pub mod text;
pub mod ui;
pub mod webrtc_config;
