//! Start-up core of the WOMSCP sensor-telemetry server.
//!
//! Two steps run once, in order, before the server accepts data:
//!
//! * [`config`] resolves the runtime configuration: built-in defaults,
//!   overlaid field by field with what a configuration [`document`] provides.
//! * [`provision`] decides, step by step, what has to be executed against the
//!   database to create the schema and seed one row per microcontroller and
//!   per attached sensor. [`plan`] states which steps these are and which
//!   rows they leave behind, [`schema`] holds their SQL text.
//!
//! [`cli`] models the command line as far as start-up depends on it.
//!
//! The library performs no I/O of its own. Callers read the configuration
//! file and run the database statements; every decision in between is made,
//! and verified, here.

pub mod cli;
pub mod config;
pub mod document;
pub mod plan;
pub mod provision;
pub mod schema;
