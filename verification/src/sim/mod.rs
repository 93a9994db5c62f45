//! The simulation server: tag table, namespace tree, waveforms and the
//! simulated data source.

pub mod data_source;
pub mod runtime;
pub mod tags;
pub mod waveform;
