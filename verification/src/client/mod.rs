//! The OPC DA client: result types, the connector configuration, the
//! assembly of per-item results from server replies, browsing, the COM
//! worker's retry and health-monitor decisions, and the fusion reader.

pub mod assemble;
pub mod browse;
pub mod connector;
pub mod fusion;
pub mod types;
pub mod worker;
