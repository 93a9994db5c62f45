//! Verified core of an OPC DA client/server toolkit.

pub mod client;
pub mod desktop;
pub mod hresult;
pub mod server;
pub mod sim;
pub mod stress;
pub mod text;
