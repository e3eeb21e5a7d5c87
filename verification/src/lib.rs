//! Filtering proxy core for the X11 display protocol.
//!
//! The crate holds the decisions of the proxy: how a client's byte stream is
//! cut into requests, which requests are forwarded, how the shadow display is
//! named, and how the relay loops react to what the sockets report. Every
//! function here is verified against its contract; sockets, files and
//! processes stay with the caller.

pub mod analyze;
pub mod decimal;
pub mod display;
pub mod ipc;
pub mod request;
pub mod socket;
pub mod socketloop;
pub mod wire;
