//! The desktop front end's session state, error kinds and the payloads it
//! hands to the web view.

pub mod dto;
pub mod session;
