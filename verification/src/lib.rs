//! Keeps the mpv players of several people in step.

pub mod double;
pub mod text;
pub mod time;
pub mod wire;
pub mod protocol;
pub mod server;
pub mod json;
pub mod client;
pub mod blocking;
