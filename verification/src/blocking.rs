//! A client and a server that need nothing but blocking streams.

pub mod mpv_data_model;
pub mod network_data_model;
pub mod client;
pub mod server;
