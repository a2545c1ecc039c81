//! Verified core of a Kafka desktop client: connection settings, client
//! configuration, schema-registry requests, record formatting and the
//! session/tab bookkeeping of the workspace.

pub mod error;
pub mod text;
pub mod config;
pub mod client;
pub mod avro;
pub mod sr;
pub mod ssh;
pub mod stream;
pub mod clock;
pub mod rows;
pub mod connections;
pub mod docs;
pub mod workspace;
pub mod picker;
pub mod pane;
pub mod startup;
