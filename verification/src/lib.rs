//! Annotation-driven metadata extraction and code synthesis for a pluggable
//! crawler framework: the library scans annotated module files for declared
//! handles, aggregates them into per-category registries, resolves the
//! pipeline content type against the declared dependencies, detects content
//! changes through a combined hash, and renders the generated entry-point
//! source text.
pub mod bytes;
pub mod cli;
pub mod errors;
pub mod hashing;
pub mod manifest;
pub mod metadata;
pub mod registry;
pub mod scaffold;
pub mod scan;
