//! Myr: a Hyprland companion that turns voice or text into window commands
//! through the Saga voice API.
pub mod audio;
pub mod cli;
pub mod client;
pub mod config;
pub mod daemon;
pub mod dsl;
pub mod hyprland;
pub mod json;
pub mod laws;
pub mod notify;
pub mod session;
pub mod snippets;
pub mod text;
pub mod tunnel;
