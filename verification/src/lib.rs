//! Template-driven, collision-safe renaming of image files.
//!
//! A template such as `{year}_{month}_{day}` is compiled once against a
//! registry of named fields, rendered for every file from that file's
//! metadata, and the rendered names are then made unique before a planned
//! move or copy is carried out step by step.

pub mod fields;
pub mod filter;
pub mod format;
pub mod metadata;
pub mod naming;
pub mod outside;
pub mod relocate;
pub mod template;
pub mod types;
pub mod util;
