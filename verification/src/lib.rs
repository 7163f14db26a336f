//! Signaling for peer-to-peer file transfers: who may register, open a
//! transfer session, join one, and have session descriptions relayed.
pub mod errors;
pub mod laws;
pub mod models;
pub mod tables;
pub mod clock;
pub mod config;
pub mod ids;
pub mod logs;
pub mod rules;
pub mod security;
pub mod signaling;
pub mod state;
pub mod text;
pub mod ws_handler;
