//! # golden-bridge
//!
//! Ingests a parsed legacy `schema-language` source into the stringless Core
//! model: each declaration of the types block either migrates into a public Core
//! declaration or is collected as a named exclusion (an elided field whose
//! derived name the name table refuses excludes its declaration), and every name
//! the Core declarations use is requested from the name table in a fixed order.
//!
//! - [`source`]: the parsed legacy source as the ingestion reads it;
//! - [`core_model`]: the Core declarations and the name-table requests;
//! - [`error`]: the typed reasons a declaration does not migrate;
//! - [`ingest`]: the translation, with its model as spec functions;
//! - [`construct_laws`]: what each legacy construct migrates to, and the names
//!   it requests;
//! - [`laws`]: what holds of every migration (partition in schema order, named
//!   exclusions, entrywise migration, resolution of every used name, the shape of
//!   brace bodies, field references and plain classification).

pub mod construct_laws;
pub mod core_model;
pub mod error;
pub mod ingest;
pub mod laws;
pub mod source;
