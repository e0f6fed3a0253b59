//! The signaling server: it brings clients and agents together, over DTLS and over HTTP.
pub mod certificate;
pub mod cli;
pub mod dtls_handler;
pub mod handler;
pub mod startup;
pub mod turn_server;
