//! A local package-manifest search library.
//!
//! A scan root holds bucket directories; each bucket holds small JSON
//! manifest files describing installable packages.  This crate models the
//! manifests, normalizes their union-typed fields, matches them against a
//! case-insensitive query, and folds the per-file outcomes into a result
//! list plus a list of non-fatal per-file errors.

pub mod config;
pub mod json;
pub mod manifest;
pub mod output;
pub mod scan;
pub mod search;
