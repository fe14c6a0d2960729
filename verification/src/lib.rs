//! frost_core: Iceberg table health analysis.
//!
//! The library holds the metadata model, the health checks, fix-command
//! generation, fleet roll-ups and the parsing logic for Iceberg metadata,
//! each stated by its contract and proved with Verus.

pub mod catalog;
pub mod checks;
pub mod clock;
pub mod config;
pub mod cost;
pub mod demo;
pub mod engine;
pub mod fix;
pub mod fleet;
pub mod metadata;
pub mod object_store;
pub mod parse;
pub mod partition;
pub mod render;
pub mod report;
pub mod text;
pub mod tools;
pub mod watch;
