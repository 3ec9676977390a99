//! A woefully incomplete set of API bindings for Proxmox VE, and the rules
//! that the disks of its virtual machines are held to where they lie on
//! StorPool-backed storage.
//!
//! The library does not talk to the API itself. It builds the query paths
//! ([`path`]), says what goes into a request and what is made of a response
//! ([`backend::https`]), decodes the payloads into records ([`types`],
//! with the grammar of disk definitions in [`parse`] and the keys that name
//! devices in [`device`]), and walks a cluster step by step ([`scan`]),
//! holding each disk to the rules ([`compliance`]). A program sends the
//! requests and hands back what came.

pub mod backend;
pub mod compliance;
pub mod defs;
pub mod device;
pub mod json;
pub mod options;
pub mod parse;
pub mod path;
pub mod scan;
pub mod text;
pub mod types;

pub use defs::{Auth, BackendConfig, Error, JsonValue, Result};
