//! Core of a static-content build pipeline: frontmatter splitting, metadata
//! merging, directory-scoped glob overlays, the scripting value bridge and the
//! layout-resolution state machine.
pub mod value;
pub mod metadata;
pub mod files;
pub mod frontmatter;
pub mod bridge;
pub mod error;
pub mod path;
pub mod overlay;
pub mod render;
pub mod config;
pub mod host;
