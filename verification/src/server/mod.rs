//! The OPC DA server: data sources, namespace, group item registry,
//! connection points, enumerators, push scheduling and registration.

pub mod connection;
pub mod data_source;
pub mod group;
pub mod guid;
pub mod registry;
pub mod scheduler;
pub mod status;
