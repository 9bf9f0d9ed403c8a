//! Core of a static-site build orchestrator: a document index built from
//! parsed markdown sources, deterministic output-path mapping, watch-event
//! classification, and render planning, with the markdown and template
//! engines called through trusted wrappers.

pub mod arguments;
pub mod frontmatter;
pub mod index;
pub mod laws;
pub mod markdown;
pub mod paths;
pub mod render;
pub mod saaru;
pub mod text;
pub mod watch;

pub use text::remove_frontmatter;
