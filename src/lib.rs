//! Capture, compression, encoding and replay of e-reader input gestures.
pub mod event;
pub mod optimize;
pub mod codec;
pub mod transform;
pub mod capture;
pub mod store;
pub mod actions;
pub mod arbitrary;
pub mod cursor;
pub mod config;
pub mod kobo;
pub mod persist;
