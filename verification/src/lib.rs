//! A small DDNS synchronization engine.
//!
//! The library resolves IP address values for named identifiers from
//! several kinds of sources, substitutes them into templated update URLs,
//! prepares authenticated HTTP update requests, and aggregates the
//! outcomes of many independent update entries into one cycle result.

pub mod addresses;
pub mod config;
pub mod executor;
pub mod render;
pub mod resolver;
pub mod trigger;
pub mod updater;
