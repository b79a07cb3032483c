//! The client: it follows one mpv player and keeps it in step with the others.

pub mod ipc_data_model;
pub mod mpv;
pub mod config;
pub mod backend;
