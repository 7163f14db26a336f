//! What holds of the server as a whole.
pub mod cleanup;
pub mod connections;
pub mod frames;
pub mod leaving;
pub mod limits;
pub mod messages;
pub mod privacy;
pub mod requests;
pub mod sessions;
pub mod settings;
pub mod texts;
pub mod views;
