//! Packaging pipeline for distributable mod archives.
//!
//! A mod is a slice of git history on top of a known base revision of a
//! larger codebase. This library plans and checks the pipeline that turns
//! that slice into a single encrypted artifact: extract patches, bundle
//! metadata, archive, encrypt with a key derived from the base binary
//! asset, and place the result at the resolved output path.
//!
//! The library holds the decision logic of the pipeline; the surrounding
//! binary performs the file-system and process work and feeds the outcomes
//! back in.

pub mod pack;
pub mod package_config;
pub mod rom;
pub mod text;
