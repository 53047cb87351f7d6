//! Scaffolds projects from a directory of templates.
//!
//! The library decides; it never touches the file system or the terminal.
//! A caller lists directories, asks the user and performs the steps, and
//! hands the library plain values:
//!
//! - `rules` says which entries of a template are left out and which files
//!   are rewritten;
//! - `manifest` rewrites the `name` member of a JSON manifest;
//! - `replicate` turns the listing of each directory of a template into
//!   file operations, and `tree` shows that a whole template is copied
//!   exactly but for what the denylist leaves out;
//! - `catalog` finds the templates in a listing of the templates root;
//! - `prompt` turns the user's answers into a request;
//! - `generate` lays out the steps of the run that a request asks for.

pub mod catalog;
pub mod error;
pub mod generate;
pub mod json;
pub mod manifest;
pub mod path;
pub mod prompt;
pub mod replicate;
pub mod request;
pub mod rules;
pub mod text;
pub mod tree;

pub use crate::error::ScaffoldError;
pub use crate::generate::{generate, Step};
pub use crate::manifest::transform_manifest;
pub use crate::path::PathParts;
pub use crate::prompt::Prompt;
pub use crate::replicate::Replicator;
pub use crate::request::{GenerationRequest, Project};
pub use crate::rules::{is_special_file, should_ignore, SpecialFile};
