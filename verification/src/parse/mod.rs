//! Parsing of Iceberg metadata: manifest lists and manifests (Avro), and
//! the table metadata JSON document.

pub mod avro;
pub mod manifest;
pub mod metadata_json;
