//! Verified logic of a small haptics proxy.
//!
//! Clients send short text commands over a websocket; the proxy looks up the
//! motors that their tags name and drives the connected devices.
pub mod application;
pub mod command;
pub mod command_laws;
pub mod configuration;
pub mod device;
pub mod haptic;
pub mod haptic_laws;
pub mod integer;
pub mod log;
pub mod motor;
pub mod named_map;
pub mod number;
pub mod replies;
pub mod settings;
pub mod sorting;
pub mod status;
pub mod text;
pub mod web_server;
